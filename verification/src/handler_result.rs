use vstd::prelude::*;

verus! {

/// What a successful action hands back to the dispatcher: either a full
/// replacement snapshot, or, for read-only query actions, a response payload.
/// The dispatcher, not this core, knows which action produces which case.
#[derive(Debug)]
pub enum HandlerResult<S, Q> {
    NewState(S),
    QueryResponse(Q),
}

} // verus!
