use vstd::prelude::*;
use crate::address::Address;
use crate::amount::Amount;
use crate::error::ContractError;
use crate::state::State;

verus! {

/// Spend `amount` of the allowance `spender` holds on `owner`'s funds.
///
/// Called by the on-behalf handlers after validating `amount`, and only when
/// the caller is not the owner: self-service operations never consult or
/// mutate allowances.  On success exactly the `(owner, spender)` entry drops
/// by `amount`; balances, supply and metadata stay.  When the remaining
/// allowance is too small the rejection carries its current value.
pub fn spend_allowance(
    state: State,
    owner: &Address,
    spender: &Address,
    amount: &Amount,
) -> (r: Result<State, ContractError>)
    requires
        state.wf(),
        amount.0 > 0,
    ensures
        r is Ok <==> state.allowance_of(owner@, spender@) >= amount.0,
        r matches Ok(s2) ==> {
            &&& s2.wf()
            &&& s2.allowance_of(owner@, spender@) == state.allowance_of(owner@, spender@)
                - amount.0
            &&& forall|o2: Seq<char>, p2: Seq<char>| #![auto]
                !(o2 == owner@ && p2 == spender@)
                    ==> s2.allowance_of(o2, p2) == state.allowance_of(o2, p2)
            &&& s2.balances == state.balances
            &&& forall|k: Seq<char>| #![auto] s2.balance_of(k) == state.balance_of(k)
            &&& s2.total_supply == state.total_supply
            &&& s2.same_metadata(&state)
        },
        r matches Err(e) ==> (e matches ContractError::CallerAllowanceNotEnough(cur)
            && cur.0 == state.allowance_of(owner@, spender@) && cur.0 < amount.0),
{
    let current = state.allowances.get(owner, spender);
    if current.0 < amount.0 {
        return Err(ContractError::CallerAllowanceNotEnough(current));
    }
    let mut s = state;
    s.allowances.set(owner, spender, Amount(current.0 - amount.0));
    Ok(s)
}

} // verus!
