use vstd::prelude::*;

verus! {

use crate::transaction::{RecordModel, TransactionRecord, TransactionType};

/// The signed contribution of one record to its wallet's balance: positive
/// for a deposit, negative for a withdrawal.
pub open spec fn signed_amount(t: TransactionType, amount: i64) -> int {
    match t {
        TransactionType::Deposit => amount as int,
        TransactionType::Withdraw => -(amount as int),
    }
}

/// The exact balance a sequence of records folds to: the sum of the signed
/// amounts, starting from zero.
pub open spec fn balance_of(s: Seq<RecordModel>) -> int
    decreases s.len(),
{
    if s.len() == 0 {
        0
    } else {
        balance_of(s.drop_last()) + signed_amount(s.last().tx_type, s.last().amount)
    }
}

/// The models of a sequence of records.
pub open spec fn records_view(s: Seq<TransactionRecord>) -> Seq<RecordModel> {
    s.map_values(|r: TransactionRecord| r@)
}

/// The records of one wallet, in store order.
pub open spec fn wallet_records(s: Seq<RecordModel>, w: Seq<char>) -> Seq<RecordModel> {
    s.filter(|r: RecordModel| r.wallet == w)
}

/// The balance a wallet derives from the ledger: the fold of its own records
/// and nothing else. A wallet without records has balance zero.
pub open spec fn wallet_balance(s: Seq<RecordModel>, w: Seq<char>) -> int {
    balance_of(wallet_records(s, w))
}

/// Whether an exact balance fits the signed 64-bit result type.
pub open spec fn fits_i64(b: int) -> bool {
    i64::MIN <= b <= i64::MAX
}

/// Folds a sequence of records into the wallet balance they derive, checking
/// for overflow: the exact sum is returned whenever it fits a signed 64-bit
/// integer, and `None` reports that it does not.
pub fn compute_balance_checked(records: &Vec<TransactionRecord>) -> (r: Option<i64>)
    ensures
        fits_i64(balance_of(records_view(records@))) ==> r == Some(
            balance_of(records_view(records@)) as i64,
        ),
        !fits_i64(balance_of(records_view(records@))) ==> r == None::<i64>,
{
    let ghost s = records_view(records@);
    let n = records.len();
    let mut acc: i128 = 0;
    let mut i: usize = 0;
    while i < n
        invariant
            n == records@.len(),
            i <= n,
            s == records_view(records@),
            acc as int == balance_of(s.take(i as int)),
            -((i as int) * ((i64::MAX as int) + 1)) <= acc as int <= (i as int) * ((
            i64::MAX as int) + 1),
        decreases n - i,
    {
        let rec = &records[i];
        proof {
            assert(s.take(i as int + 1).drop_last() =~= s.take(i as int));
            assert(s[i as int] == records@[i as int]@);
        }
        match rec.transaction_type {
            TransactionType::Deposit => {
                acc = acc + rec.amount as i128;
            },
            TransactionType::Withdraw => {
                acc = acc - rec.amount as i128;
            },
        }
        i = i + 1;
    }
    proof {
        assert(s.take(n as int) =~= s);
    }
    if acc >= i64::MIN as i128 && acc <= i64::MAX as i128 {
        Some(acc as i64)
    } else {
        None
    }
}

/// Folds a sequence of records into the wallet balance they derive. The
/// caller guarantees the exact sum fits a signed 64-bit integer; use
/// `compute_balance_checked` when it might not.
pub fn compute_balance(records: &Vec<TransactionRecord>) -> (b: i64)
    requires
        fits_i64(balance_of(records_view(records@))),
    ensures
        b as int == balance_of(records_view(records@)),
{
    match compute_balance_checked(records) {
        Some(b) => b,
        None => vstd::pervasive::unreached(),
    }
}

} // verus!
