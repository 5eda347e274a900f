use vstd::prelude::*;
use crate::address::Address;
use crate::amount::Amount;
use crate::error::ContractError;
use crate::handler_result::HandlerResult;
use crate::state::State;

verus! {

/// The payload of a read-only query action.  Queries themselves live in the
/// dispatcher; the accounting handlers only ever produce the state case.
#[derive(Debug)]
pub enum QueryResponseMsg {
    Balance { target: Address, ticker: String, balance: Amount },
}

/// What every action handler returns: a replacement snapshot or a query
/// payload on success, a typed rejection otherwise.
pub type ActionResult = Result<HandlerResult<State, QueryResponseMsg>, ContractError>;

} // verus!
