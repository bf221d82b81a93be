use vstd::prelude::*;

verus! {

use crate::error::StoreError;

/// The two movement kinds the ledger records. A transaction type is stored as
/// its canonical string form; any other stored string is a decode error.
#[derive(Clone, Copy, Debug, PartialEq, Eq, Structural)]
pub enum TransactionType {
    Deposit,
    Withdraw,
}

/// Canonical stored form of `TransactionType::Deposit`.
pub open spec fn deposit_tag() -> Seq<char> {
    "Deposit"@
}

/// Canonical stored form of `TransactionType::Withdraw`.
pub open spec fn withdraw_tag() -> Seq<char> {
    "Withdraw"@
}

/// Canonical stored form of a transaction type.
pub open spec fn canonical_tag(t: TransactionType) -> Seq<char> {
    match t {
        TransactionType::Deposit => deposit_tag(),
        TransactionType::Withdraw => withdraw_tag(),
    }
}

/// Whether a stored string is one of the two canonical tags.
pub open spec fn is_canonical_tag(s: Seq<char>) -> bool {
    s == deposit_tag() || s == withdraw_tag()
}

/// The transaction type a canonical tag decodes to. Outside the canonical set
/// the value is `Deposit` by convention, but decoding rejects such strings
/// before this function is ever relied on.
pub open spec fn tag_type(s: Seq<char>) -> TransactionType {
    if s == withdraw_tag() {
        TransactionType::Withdraw
    } else {
        TransactionType::Deposit
    }
}

/// The two canonical tags are distinct strings.
pub proof fn lemma_tags_differ()
    ensures
        deposit_tag() != withdraw_tag(),
{
    reveal_strlit("Deposit");
    reveal_strlit("Withdraw");
    assert(deposit_tag().len() == 7);
    assert(withdraw_tag().len() == 8);
}

/// Encoding a transaction type and decoding the tag gives the type back.
pub proof fn lemma_tag_round_trip(t: TransactionType)
    ensures
        is_canonical_tag(canonical_tag(t)),
        tag_type(canonical_tag(t)) == t,
{
    lemma_tags_differ();
}

impl TransactionType {
    /// Encode for storage: the canonical string form.
    pub fn to_tag_string(&self) -> (r: String)
        ensures
            r@ == canonical_tag(*self),
    {
        match self {
            TransactionType::Deposit => "Deposit".to_owned(),
            TransactionType::Withdraw => "Withdraw".to_owned(),
        }
    }

    /// Decode a stored tag. A string outside the canonical set is a hard
    /// decode failure, never a silent default.
    pub fn parse_tag(s: &String) -> (r: Result<TransactionType, StoreError>)
        ensures
            is_canonical_tag(s@) ==> r == Ok::<TransactionType, StoreError>(tag_type(s@)),
            !is_canonical_tag(s@) ==> r == Err::<TransactionType, StoreError>(StoreError::DecodeFailed),
    {
        proof {
            lemma_tags_differ();
        }
        let deposit: String = "Deposit".to_owned();
        if *s == deposit {
            return Ok(TransactionType::Deposit);
        }
        let withdraw: String = "Withdraw".to_owned();
        if *s == withdraw {
            Ok(TransactionType::Withdraw)
        } else {
            Err(StoreError::DecodeFailed)
        }
    }
}

/// Mathematical model of a transaction submitted for insertion.
#[verifier::ext_equal]
pub ghost struct TxModel {
    pub wallet: Seq<char>,
    pub tx_type: TransactionType,
    pub amount: i64,
}

/// A transaction as received from the caller: which wallet moved how much,
/// and in which direction.
#[derive(Debug, Clone)]
pub struct Transaction {
    pub wallet_address: String,
    pub transaction_type: TransactionType,
    pub amount: i64,
}

impl View for Transaction {
    type V = TxModel;

    open spec fn view(&self) -> TxModel {
        TxModel {
            wallet: self.wallet_address@,
            tx_type: self.transaction_type,
            amount: self.amount,
        }
    }
}

/// A batch of transactions submitted in one call.
#[derive(Debug)]
pub struct WalletTransactionsRequest {
    pub transactions: Vec<Transaction>,
}

/// Mathematical model of a stored, decoded transaction record.
#[verifier::ext_equal]
pub ghost struct RecordModel {
    pub id: u64,
    pub wallet: Seq<char>,
    pub tx_type: TransactionType,
    pub amount: i64,
}

/// A stored transaction record as a scan returns it: the store-assigned
/// surrogate key and the decoded transaction type.
#[derive(Debug, Clone)]
pub struct TransactionRecord {
    pub id: u64,
    pub wallet_address: String,
    pub transaction_type: TransactionType,
    pub amount: i64,
}

impl View for TransactionRecord {
    type V = RecordModel;

    open spec fn view(&self) -> RecordModel {
        RecordModel {
            id: self.id,
            wallet: self.wallet_address@,
            tx_type: self.transaction_type,
            amount: self.amount,
        }
    }
}

/// A row in its stored form: the transaction type as its canonical tag
/// string, ready to be written.
#[derive(Debug, Clone)]
pub struct DbTransaction {
    pub wallet_address: String,
    pub transaction_type: String,
    pub amount: i64,
}

impl From<Transaction> for DbTransaction {
    /// Casts a submitted transaction into its stored form, encoding the
    /// transaction type as its canonical tag.
    fn from(transaction: Transaction) -> (r: DbTransaction)
        ensures
            r.wallet_address@ == transaction.wallet_address@,
            r.transaction_type@ == canonical_tag(transaction.transaction_type),
            r.amount == transaction.amount,
    {
        DbTransaction {
            transaction_type: transaction.transaction_type.to_tag_string(),
            wallet_address: transaction.wallet_address,
            amount: transaction.amount,
        }
    }
}

/// The address strings a sequence of owned addresses holds.
pub open spec fn addr_seq(v: Seq<String>) -> Seq<Seq<char>> {
    v.map_values(|x: String| x@)
}

/// The set of wallets a batch names.
pub open spec fn batch_wallets(s: Seq<Transaction>) -> Set<Seq<char>> {
    s.map_values(|t: Transaction| t.wallet_address@).to_set()
}

/// Appending an address to a sequence adds exactly it to the address set.
proof fn lemma_push_to_set(s: Seq<Seq<char>>, x: Seq<char>)
    ensures
        s.push(x).to_set() == s.to_set().insert(x),
{
    broadcast use vstd::set::group_set_axioms;

    assert forall|y: Seq<char>| s.push(x).to_set().contains(y) implies s.to_set().insert(
        x,
    ).contains(y) by {
        let i = choose|i: int| 0 <= i < s.push(x).len() && s.push(x)[i] == y;
        if i < s.len() {
            assert(s[i] == y);
            assert(s.contains(y));
        } else {
            assert(y == x);
        }
    }
    assert forall|y: Seq<char>| s.to_set().insert(x).contains(y) implies s.push(x).to_set().contains(
        y,
    ) by {
        if y == x {
            assert(s.push(x)[s.len() as int] == y);
            assert(s.push(x).contains(y));
        } else {
            let i = choose|i: int| 0 <= i < s.len() && s[i] == y;
            assert(s.push(x)[i] == y);
            assert(s.push(x).contains(y));
        }
    }
    assert(s.push(x).to_set() =~= s.to_set().insert(x));
}

/// Whether the collected addresses already hold this one.
fn contains_address(v: &Vec<String>, s: &String) -> (b: bool)
    ensures
        b == addr_seq(v@).contains(s@),
{
    let n = v.len();
    let mut j: usize = 0;
    while j < n
        invariant
            n == v@.len(),
            j <= n,
            forall|i: int| 0 <= i < j ==> #[trigger] addr_seq(v@)[i] != s@,
        decreases n - j,
    {
        if v[j] == *s {
            proof {
                assert(addr_seq(v@)[j as int] == s@);
            }
            return true;
        }
        j = j + 1;
    }
    false
}

/// Collects the distinct wallet addresses a batch names, first occurrence
/// first: the wallets whose balances a batch summary reports, each once.
pub fn distinct_wallets(transactions: &Vec<Transaction>) -> (r: Vec<String>)
    ensures
        addr_seq(r@).no_duplicates(),
        addr_seq(r@).to_set() == batch_wallets(transactions@),
{
    let mut out: Vec<String> = Vec::new();
    let n = transactions.len();
    let mut k: usize = 0;
    while k < n
        invariant
            n == transactions@.len(),
            k <= n,
            addr_seq(out@).no_duplicates(),
            addr_seq(out@).to_set() == batch_wallets(transactions@.take(k as int)),
        decreases n - k,
    {
        let w = &transactions[k].wallet_address;
        let ghost prev = out@;
        let ghost bmap = transactions@.take(k as int).map_values(|t: Transaction| t.wallet_address@);
        proof {
            broadcast use vstd::set::group_set_axioms;

            assert(transactions@.take(k as int + 1).map_values(|t: Transaction| t.wallet_address@)
                =~= bmap.push(w@));
            lemma_push_to_set(bmap, w@);
        }
        let already = contains_address(&out, w);
        if !already {
            out.push(w.clone());
            proof {
                assert(addr_seq(out@) =~= addr_seq(prev).push(w@));
                lemma_push_to_set(addr_seq(prev), w@);
                assert forall|i: int, j: int|
                    0 <= i < j < addr_seq(out@).len() implies addr_seq(out@)[i] != addr_seq(
                    out@,
                )[j] by {
                    if j == addr_seq(out@).len() - 1 {
                        assert(addr_seq(prev)[i] == addr_seq(out@)[i]);
                        assert(!addr_seq(prev).contains(w@));
                    }
                }
            }
        } else {
            proof {
                broadcast use vstd::set::group_set_axioms;

                assert(bmap.to_set().contains(w@));
                assert(bmap.to_set().insert(w@) =~= bmap.to_set());
            }
        }
        k = k + 1;
    }
    proof {
        assert(transactions@.take(n as int) =~= transactions@);
    }
    out
}

impl vstd::std_specs::convert::FromSpecImpl<Transaction> for DbTransaction {
    /// The stored tag string is pinned only up to its character sequence, so
    /// the conversion is specified by the `ensures` of `from` above rather
    /// than by an exact value-level function.
    open spec fn obeys_from_spec() -> bool {
        false
    }

    open spec fn from_spec(t: Transaction) -> DbTransaction {
        (choose|r: DbTransaction|
            r.wallet_address@ == t.wallet_address@ && r.transaction_type@ == canonical_tag(
                t.transaction_type,
            ) && r.amount == t.amount)
    }
}

} // verus!
