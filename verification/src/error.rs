use vstd::prelude::*;
use crate::amount::Amount;

verus! {

/// The terminal rejections an action handler can return.  Every handler
/// validates eagerly and reports the first failing condition; no state
/// mutation is published before a failure is surfaced.
#[derive(Debug)]
pub enum ContractError {
    /// The action's amount was zero.
    AmountMustBeHigherThanZero,
    /// The ambient caller identity could not be parsed into an address;
    /// carries a description of the parse failure.
    ParseError(String),
    /// A transfer-class operation found too small a balance; carries the
    /// current balance of the debited account.
    CallerBalanceNotEnough(Amount),
    /// A burn-class operation found too small a balance; carries the
    /// current balance of the debited account.
    InvalidBalance(Amount),
    /// An on-behalf operation found too small an allowance; carries the
    /// current allowance of the (owner, spender) pair.
    CallerAllowanceNotEnough(Amount),
}

} // verus!
