use vstd::prelude::*;

verus! {

use crate::balance::{balance_of, signed_amount, wallet_balance, wallet_records};
use crate::db_session_manager::inserted_records;
use crate::transaction::{RecordModel, TransactionType, TxModel};

/// The (type, amount) content of stored records, ids stripped.
pub open spec fn type_amount_pairs(s: Seq<RecordModel>) -> Seq<(TransactionType, i64)> {
    s.map_values(|r: RecordModel| (r.tx_type, r.amount))
}

/// The (type, amount) content of a submitted batch.
pub open spec fn tx_type_amount_pairs(s: Seq<TxModel>) -> Seq<(TransactionType, i64)> {
    s.map_values(|t: TxModel| (t.tx_type, t.amount))
}

/// Removing one record lowers the fold by exactly that record's signed
/// amount.
pub proof fn lemma_balance_of_remove(s: Seq<RecordModel>, i: int)
    requires
        0 <= i < s.len(),
    ensures
        balance_of(s.remove(i)) == balance_of(s) - signed_amount(s[i].tx_type, s[i].amount),
    decreases s.len(),
{
    if i == s.len() - 1 {
        assert(s.remove(i) =~= s.drop_last());
    } else {
        let t = s.drop_last();
        assert(s.remove(i).drop_last() =~= t.remove(i));
        assert(s.remove(i).last() == s.last());
        lemma_balance_of_remove(t, i);
        assert(t[i] == s[i]);
    }
}

/// The fold is order-independent: two sequences holding the same records as
/// a multiset fold to the same balance. Together with the definition of
/// `balance_of` this says the balance is the arithmetic sum of the records'
/// amounts, deposits positive and withdrawals negative, whatever the order
/// the store returned them in.
pub proof fn lemma_balance_of_permutation(s1: Seq<RecordModel>, s2: Seq<RecordModel>)
    requires
        s1.to_multiset() == s2.to_multiset(),
    ensures
        balance_of(s1) == balance_of(s2),
    decreases s1.len(),
{
    broadcast use vstd::seq_lib::group_to_multiset_ensures;

    s1.to_multiset_ensures();
    s2.to_multiset_ensures();
    if s1.len() == 0 {
        assert(s2.len() == 0);
    } else {
        let x = s1.last();
        assert(s1.contains(x));
        assert(s2.to_multiset().count(x) > 0);
        assert(s2.contains(x));
        let j = choose|j: int| 0 <= j < s2.len() && s2[j] == x;
        assert(s1.remove(s1.len() - 1) =~= s1.drop_last());
        assert(s1.drop_last().to_multiset() == s1.to_multiset().remove(x));
        assert(s2.remove(j).to_multiset() == s2.to_multiset().remove(x));
        lemma_balance_of_remove(s2, j);
        lemma_balance_of_permutation(s1.drop_last(), s2.remove(j));
    }
}

/// A filter keeps a sequence whole when every element satisfies the
/// predicate.
proof fn lemma_filter_all(s: Seq<RecordModel>, pred: spec_fn(RecordModel) -> bool)
    requires
        forall|i: int| 0 <= i < s.len() ==> pred(#[trigger] s[i]),
    ensures
        s.filter(pred) == s,
    decreases s.len(),
{
    s.lemma_filter_len(pred);
    if s.len() == 0 {
        assert(s.filter(pred) =~= s);
    } else {
        lemma_filter_all(s.drop_last(), pred);
        Seq::lemma_filter_push(s.drop_last(), s.last(), pred);
        assert(s.drop_last().push(s.last()) =~= s);
    }
}

/// Inserting a batch that names one wallet throughout and then scanning that
/// wallet returns its prior records followed by the whole batch, in order.
pub proof fn lemma_insert_then_scan(
    m: Seq<RecordModel>,
    first_id: u64,
    txs: Seq<TxModel>,
    w: Seq<char>,
)
    requires
        forall|i: int| 0 <= i < txs.len() ==> (#[trigger] txs[i]).wallet == w,
    ensures
        wallet_records(m + inserted_records(txs, first_id), w) == wallet_records(m, w)
            + inserted_records(txs, first_id),
{
    let ins = inserted_records(txs, first_id);
    let pred = |r: RecordModel| r.wallet == w;
    Seq::filter_distributes_over_add(m, ins, pred);
    assert(forall|i: int| 0 <= i < ins.len() ==> pred(#[trigger] ins[i]));
    lemma_filter_all(ins, pred);
}

/// Round trip: insert a batch of N transactions for a wallet with no prior
/// records, then scan that wallet. The scan returns exactly N records, and
/// their (type, amount) multiset is the batch's — ids and order aside.
pub proof fn lemma_insert_scan_round_trip(
    m: Seq<RecordModel>,
    first_id: u64,
    txs: Seq<TxModel>,
    w: Seq<char>,
)
    requires
        forall|i: int| 0 <= i < txs.len() ==> (#[trigger] txs[i]).wallet == w,
        wallet_records(m, w).len() == 0,
    ensures
        wallet_records(m + inserted_records(txs, first_id), w).len() == txs.len(),
        type_amount_pairs(wallet_records(m + inserted_records(txs, first_id), w)).to_multiset()
            == tx_type_amount_pairs(txs).to_multiset(),
{
    let ins = inserted_records(txs, first_id);
    lemma_insert_then_scan(m, first_id, txs, w);
    assert(wallet_records(m, w) =~= Seq::<RecordModel>::empty());
    assert(wallet_records(m + ins, w) =~= ins);
    assert(type_amount_pairs(ins) =~= tx_type_amount_pairs(txs));
}

/// Isolation: transactions inserted for wallet `a` change neither the
/// records nor the balance of any other wallet `b`.
pub proof fn lemma_wallet_isolation(
    m: Seq<RecordModel>,
    first_id: u64,
    txs: Seq<TxModel>,
    a: Seq<char>,
    b: Seq<char>,
)
    requires
        forall|i: int| 0 <= i < txs.len() ==> (#[trigger] txs[i]).wallet == a,
        a != b,
    ensures
        wallet_records(m + inserted_records(txs, first_id), b) == wallet_records(m, b),
        wallet_balance(m + inserted_records(txs, first_id), b) == wallet_balance(m, b),
{
    let ins = inserted_records(txs, first_id);
    let pred = |r: RecordModel| r.wallet == b;
    Seq::filter_distributes_over_add(m, ins, pred);
    assert(ins.all(|r: RecordModel| !pred(r))) by {
        assert(forall|i: int| 0 <= i < ins.len() ==> (#[trigger] ins[i]).wallet == a);
    }
    ins.lemma_all_neg_filter_empty(pred);
    assert(ins.filter(pred) =~= Seq::<RecordModel>::empty());
    assert(wallet_records(m, b) + Seq::<RecordModel>::empty() =~= wallet_records(m, b));
}

/// After a reset the ledger is empty, so a scan of any wallet whatever
/// returns the empty sequence and every balance reads zero.
pub proof fn lemma_reset_scan_empty(w: Seq<char>)
    ensures
        wallet_records(Seq::<RecordModel>::empty(), w) == Seq::<RecordModel>::empty(),
        wallet_balance(Seq::<RecordModel>::empty(), w) == 0,
{
    let s = Seq::<RecordModel>::empty();
    let pred = |r: RecordModel| r.wallet == w;
    s.lemma_filter_len(pred);
    assert(s.filter(pred) =~= s);
}

} // verus!
