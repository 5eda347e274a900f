use vstd::prelude::*;

verus! {

/// A non-negative quantity of the token's smallest unit.
///
/// The ledger never subtracts below zero and never overflows: every mutation
/// in the action handlers is preceded by a sufficiency check, and the proofs
/// show that under the ledger invariant the arithmetic stays in range.
#[derive(Clone, Copy, PartialEq, Eq, Structural, Debug)]
pub struct Amount(pub u64);

impl Amount {
    /// The distinguished zero quantity.
    pub fn zero() -> (r: Amount)
        ensures
            r.0 == 0,
    {
        Amount(0)
    }

    /// The raw value, for callers outside the ledger.
    pub fn value(&self) -> (r: u64)
        ensures
            r == self.0,
    {
        self.0
    }
}

} // verus!
