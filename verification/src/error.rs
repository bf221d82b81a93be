use vstd::prelude::*;

verus! {

/// A failure raised by a ledger operation.
///
/// Every store-facing operation returns a `Result`; none panics. The variants
/// cover the failures the in-process store itself can signal:
///
/// - `DecodeFailed`: a stored transaction-type tag lies outside the canonical
///   set, so the row cannot be decoded. This aborts a scan rather than being
///   silently folded as zero.
/// - `IdSpaceExhausted`: an insert would need more surrogate keys than remain;
///   since ids are never reused, the batch is refused and nothing is written.
/// - `BalanceOverflow`: a wallet's exact balance does not fit a signed 64-bit
///   integer, so it is reported as an error rather than silently wrapped.
#[derive(Clone, Copy, Debug, PartialEq, Eq, Structural)]
pub enum StoreError {
    DecodeFailed,
    IdSpaceExhausted,
    BalanceOverflow,
}

} // verus!
