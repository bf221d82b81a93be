use vstd::prelude::*;

verus! {

use crate::balance::{
    compute_balance_checked, fits_i64, records_view, wallet_balance, wallet_records,
};
use crate::error::StoreError;
use crate::transaction::{
    addr_seq, is_canonical_tag, lemma_tag_round_trip, tag_type, RecordModel, Transaction,
    TransactionRecord, TransactionType, TxModel,
};

/// The (wallet, balance) content of a computed summary.
pub open spec fn summary_view(v: Seq<(String, i64)>) -> Seq<(Seq<char>, i64)> {
    v.map_values(|p: (String, i64)| (p.0@, p.1))
}

/// Whether every listed wallet's exact balance fits the signed 64-bit range,
/// so that a summary over the list can succeed.
pub open spec fn all_balances_fit(m: Seq<RecordModel>, ws: Seq<Seq<char>>) -> bool {
    forall|i: int| 0 <= i < ws.len() ==> fits_i64(wallet_balance(m, #[trigger] ws[i]))
}

/// The summary a list of wallets derives from a ledger: one (wallet,
/// balance) pair per listed wallet, in list order.
pub open spec fn summary_of(m: Seq<RecordModel>, ws: Seq<Seq<char>>) -> Seq<(Seq<char>, i64)> {
    Seq::new(ws.len(), |i: int| (ws[i], wallet_balance(m, ws[i]) as i64))
}

/// A stored row: the store-assigned surrogate key and the record with its
/// transaction type in stored (string-tagged) form.
#[derive(Debug, Clone)]
struct DbTransactionRow {
    id: u64,
    wallet_address: String,
    transaction_type: String,
    amount: i64,
}

/// The model a stored row decodes to.
spec fn row_model(r: DbTransactionRow) -> RecordModel {
    RecordModel {
        id: r.id,
        wallet: r.wallet_address@,
        tx_type: tag_type(r.transaction_type@),
        amount: r.amount,
    }
}

/// The models of a sequence of submitted transactions.
pub open spec fn tx_models(s: Seq<Transaction>) -> Seq<TxModel> {
    s.map_values(|t: Transaction| t@)
}

/// The records that inserting `txs` creates when the first of them is
/// assigned surrogate key `first_id`: one record per transaction, in batch
/// order, with consecutive keys.
pub open spec fn inserted_records(txs: Seq<TxModel>, first_id: u64) -> Seq<RecordModel> {
    Seq::new(
        txs.len(),
        |i: int|
            RecordModel {
                id: (first_id + i) as u64,
                wallet: txs[i].wallet,
                tx_type: txs[i].tx_type,
                amount: txs[i].amount,
            },
    )
}

/// The ledger engine: an append-only store of transaction records together
/// with the balance derivation over them.
///
/// Records are kept in insertion order, each under a fresh surrogate key that
/// is never reused — not even after a full clear, which empties the store but
/// does not rewind the key counter.
pub struct DbSessionManager {
    rows: Vec<DbTransactionRow>,
    next_id: u64,
}

impl View for DbSessionManager {
    type V = Seq<RecordModel>;

    /// The ledger a manager holds: its decoded records, in store order.
    closed spec fn view(&self) -> Seq<RecordModel> {
        self.rows@.map_values(|r: DbTransactionRow| row_model(r))
    }
}

impl DbSessionManager {
    /// The surrogate key the next inserted record will receive.
    pub closed spec fn next_id(&self) -> u64 {
        self.next_id
    }

    /// Well-formedness: every stored tag is canonical (so every row decodes),
    /// and surrogate keys grow strictly in store order, all below `next_id`.
    /// `new` establishes this and every operation preserves it.
    pub closed spec fn wf(&self) -> bool {
        &&& 1 <= self.next_id
        &&& forall|i: int|
            0 <= i < self.rows@.len() ==> is_canonical_tag(
                #[trigger] self.rows@[i].transaction_type@,
            )
        &&& forall|i: int| 0 <= i < self.rows@.len() ==> #[trigger] self.rows@[i].id < self.next_id
        &&& forall|i: int, j: int|
            #![trigger self.rows@[i].id, self.rows@[j].id]
            0 <= i < j < self.rows@.len() ==> self.rows@[i].id < self.rows@[j].id
    }

    /// Surrogate keys are strictly increasing in store order and stay below
    /// `next_id`: a key is assigned to at most one record and never reused.
    pub proof fn lemma_ids_strictly_increasing(&self)
        requires
            self.wf(),
        ensures
            forall|i: int, j: int|
                #![trigger self@[i].id, self@[j].id]
                0 <= i < j < self@.len() ==> self@[i].id < self@[j].id,
            forall|i: int| 0 <= i < self@.len() ==> #[trigger] self@[i].id < self.next_id(),
    {
    }

    /// A fresh, empty ledger. The first record inserted will receive
    /// surrogate key 1.
    pub fn new() -> (r: DbSessionManager)
        ensures
            r.wf(),
            r@ == Seq::<RecordModel>::empty(),
            r.next_id() == 1,
    {
        let r = DbSessionManager { rows: Vec::new(), next_id: 1 };
        proof {
            assert(r@ =~= Seq::<RecordModel>::empty());
        }
        r
    }

    /// Appends every transaction of the batch as a new record, all or
    /// nothing: on success each transaction becomes one record, in batch
    /// order, under consecutive fresh surrogate keys; if the batch would
    /// outrun the key space, nothing is written and the batch is refused.
    pub fn insert_transactions(&mut self, transactions: Vec<Transaction>) -> (r: Result<
        (),
        StoreError,
    >)
        requires
            old(self).wf(),
        ensures
            final(self).wf(),
            old(self).next_id() + transactions@.len() <= u64::MAX ==> {
                &&& r == Ok::<(), StoreError>(())
                &&& final(self)@ == old(self)@ + inserted_records(
                    tx_models(transactions@),
                    old(self).next_id(),
                )
                &&& final(self).next_id() == old(self).next_id() + transactions@.len()
            },
            old(self).next_id() + transactions@.len() > u64::MAX ==> {
                &&& r == Err::<(), StoreError>(StoreError::IdSpaceExhausted)
                &&& *final(self) == *old(self)
            },
    {
        let n = transactions.len();
        if (n as u64) > u64::MAX - self.next_id {
            return Err(StoreError::IdSpaceExhausted);
        }
        let ghost first_id = self.next_id;
        let ghost models = tx_models(transactions@);
        let mut k: usize = 0;
        while k < n
            invariant
                n == transactions@.len(),
                k <= n,
                models == tx_models(transactions@),
                first_id == old(self).next_id(),
                first_id + n <= u64::MAX,
                self.wf(),
                self.next_id == first_id + k,
                self@ == old(self)@ + inserted_records(models.take(k as int), first_id),
            decreases n - k,
        {
            let tx = &transactions[k];
            let row = DbTransactionRow {
                id: self.next_id,
                wallet_address: tx.wallet_address.clone(),
                transaction_type: tx.transaction_type.to_tag_string(),
                amount: tx.amount,
            };
            proof {
                lemma_tag_round_trip(tx.transaction_type);
            }
            let ghost prev_rows = self.rows@;
            let ghost new_model = row_model(row);
            self.rows.push(row);
            self.next_id = self.next_id + 1;
            proof {
                assert(prev_rows.map_values(|r: DbTransactionRow| row_model(r)) == old(self)@
                    + inserted_records(models.take(k as int), first_id));
                assert(self@ =~= prev_rows.map_values(|r: DbTransactionRow| row_model(r)).push(
                    new_model,
                ));
                assert(new_model == inserted_records(models.take(k as int + 1), first_id).last());
                assert(inserted_records(models.take(k as int + 1), first_id) =~= inserted_records(
                    models.take(k as int),
                    first_id,
                ).push(new_model));
                assert((old(self)@ + inserted_records(models.take(k as int), first_id)).push(
                    new_model,
                ) =~= old(self)@ + inserted_records(models.take(k as int + 1), first_id));
            }
            k = k + 1;
        }
        proof {
            assert(models.take(n as int) =~= models);
        }
        Ok(())
    }

    /// Removes every record, for all wallets, unconditionally. Surrogate keys
    /// are not rewound: later inserts still receive fresh keys.
    pub fn delete_transactions(&mut self) -> (r: Result<(), StoreError>)
        requires
            old(self).wf(),
        ensures
            final(self).wf(),
            r == Ok::<(), StoreError>(()),
            final(self)@ == Seq::<RecordModel>::empty(),
            final(self).next_id() == old(self).next_id(),
    {
        self.rows.clear();
        proof {
            assert(self@ =~= Seq::<RecordModel>::empty());
        }
        Ok(())
    }

    /// Returns every record of the given wallet, in store order, decoding
    /// each stored tag. A wallet that never transacted yields the empty
    /// sequence; well-formedness rules a decode failure out.
    pub fn scan_by_wallet(&self, wallet_address: &str) -> (r: Result<
        Vec<TransactionRecord>,
        StoreError,
    >)
        requires
            self.wf(),
        ensures
            r matches Ok(v) && records_view(v@) == wallet_records(self@, wallet_address@),
    {
        let w: String = wallet_address.to_owned();
        let mut out: Vec<TransactionRecord> = Vec::new();
        let n = self.rows.len();
        let mut k: usize = 0;
        while k < n
            invariant
                self.wf(),
                n == self.rows@.len(),
                k <= n,
                w@ == wallet_address@,
                records_view(out@) == wallet_records(self@.take(k as int), wallet_address@),
            decreases n - k,
        {
            let row = &self.rows[k];
            proof {
                assert(self@.take(k as int).push(self@[k as int]) =~= self@.take(k as int + 1));
                Seq::lemma_filter_push(
                    self@.take(k as int),
                    self@[k as int],
                    |r: RecordModel| r.wallet == wallet_address@,
                );
            }
            if row.wallet_address == w {
                let t = match TransactionType::parse_tag(&row.transaction_type) {
                    Ok(t) => t,
                    Err(e) => {
                        return Err(e);
                    },
                };
                let rec = TransactionRecord {
                    id: row.id,
                    wallet_address: row.wallet_address.clone(),
                    transaction_type: t,
                    amount: row.amount,
                };
                let ghost prev_out = out@;
                out.push(rec);
                proof {
                    assert(records_view(out@) =~= records_view(prev_out).push(rec@));
                }
            }
            k = k + 1;
        }
        proof {
            assert(self@.take(n as int) =~= self@);
        }
        Ok(out)
    }

    /// The wallet's balance, derived by scanning its records and folding
    /// them. Every wallet has a balance: one that never transacted — or whose
    /// records were cleared — reports `Some(0)`, indistinguishable from a
    /// wallet whose movements cancel out. A balance outside the signed 64-bit
    /// range is reported as an overflow error, never silently wrapped.
    pub fn calculate_balance(&self, wallet_address: &str) -> (r: Result<Option<i64>, StoreError>)
        requires
            self.wf(),
        ensures
            fits_i64(wallet_balance(self@, wallet_address@)) ==> r == Ok::<Option<i64>, StoreError>(
                Some(wallet_balance(self@, wallet_address@) as i64),
            ),
            !fits_i64(wallet_balance(self@, wallet_address@)) ==> r == Err::<
                Option<i64>,
                StoreError,
            >(StoreError::BalanceOverflow),
    {
        let records = match self.scan_by_wallet(wallet_address) {
            Ok(v) => v,
            Err(e) => {
                return Err(e);
            },
        };
        match compute_balance_checked(&records) {
            Some(b) => Ok(Some(b)),
            None => Err(StoreError::BalanceOverflow),
        }
    }

    /// The balances the given wallets derive: on success one (wallet,
    /// balance) pair per listed wallet, in list order. A wallet whose exact
    /// balance errors fails the whole summary — the error is propagated, if
    /// and only if some listed wallet's balance does not fit the signed
    /// 64-bit range.
    pub fn balance_summary(&self, wallets: &Vec<String>) -> (r: Result<
        Vec<(String, i64)>,
        StoreError,
    >)
        requires
            self.wf(),
        ensures
            all_balances_fit(self@, addr_seq(wallets@)) ==> (r matches Ok(v) && summary_view(v@)
                == summary_of(self@, addr_seq(wallets@))),
            !all_balances_fit(self@, addr_seq(wallets@)) ==> r == Err::<
                Vec<(String, i64)>,
                StoreError,
            >(StoreError::BalanceOverflow),
    {
        let ghost ws = addr_seq(wallets@);
        let mut out: Vec<(String, i64)> = Vec::new();
        let n = wallets.len();
        let mut k: usize = 0;
        while k < n
            invariant
                self.wf(),
                n == wallets@.len(),
                k <= n,
                ws == addr_seq(wallets@),
                out@.len() == k,
                forall|i: int| 0 <= i < k ==> fits_i64(wallet_balance(self@, #[trigger] ws[i])),
                forall|i: int|
                    0 <= i < k ==> (#[trigger] out@[i]).0@ == ws[i] && out@[i].1 == wallet_balance(
                        self@,
                        ws[i],
                    ) as i64,
            decreases n - k,
        {
            let w = &wallets[k];
            match self.calculate_balance(w.as_str()) {
                Ok(Some(b)) => {
                    out.push((w.clone(), b));
                },
                Ok(None) => {
                    return vstd::pervasive::unreached();
                },
                Err(e) => {
                    proof {
                        assert(!fits_i64(wallet_balance(self@, ws[k as int])));
                    }
                    return Err(e);
                },
            }
            k = k + 1;
        }
        proof {
            assert(summary_view(out@) =~= summary_of(self@, ws));
        }
        Ok(out)
    }
}

} // verus!
