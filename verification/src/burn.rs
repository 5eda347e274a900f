use vstd::prelude::*;
use crate::action::ActionResult;
use crate::address::{valid_address, Address};
use crate::allowance::spend_allowance;
use crate::amount::Amount;
use crate::error::ContractError;
use crate::handler_result::HandlerResult;
use crate::state::State;

verus! {

/// The caller destroys `amount` of their own balance, reducing total supply.
///
/// Supply reduction: the caller's balance and the total supply both drop by
/// `amount`; every other balance and all allowances stay.  Success is owed
/// exactly when the amount is positive, the caller identity parses, and the
/// caller's balance suffices; otherwise the first failing gate's error is
/// returned and no new state is published.
pub fn burn(state: State, caller: String, amount: Amount) -> (r: ActionResult)
    requires
        state.wf(),
    ensures
        r is Ok <==> amount.0 > 0 && valid_address(caller@)
            && state.balance_of(caller@) >= amount.0,
        r matches Ok(h) ==> (h matches HandlerResult::NewState(s2) && {
            &&& s2.wf()
            &&& s2.balance_of(caller@) == state.balance_of(caller@) - amount.0
            &&& forall|k: Seq<char>| #![auto]
                k != caller@ ==> s2.balance_of(k) == state.balance_of(k)
            &&& s2.total_supply.0 == state.total_supply.0 - amount.0
            &&& s2.allowances == state.allowances
            &&& forall|o2: Seq<char>, p2: Seq<char>| #![auto]
                s2.allowance_of(o2, p2) == state.allowance_of(o2, p2)
            &&& s2.same_metadata(&state)
        }),
        r matches Err(e) ==> match e {
            ContractError::AmountMustBeHigherThanZero => amount.0 == 0,
            ContractError::ParseError(_) => amount.0 > 0 && !valid_address(caller@),
            ContractError::InvalidBalance(b) => amount.0 > 0 && valid_address(caller@)
                && b.0 == state.balance_of(caller@) && b.0 < amount.0,
            _ => false,
        },
{
    if amount.0 == 0 {
        return Err(ContractError::AmountMustBeHigherThanZero);
    }

    let caller_addr = match Address::parse(caller.as_str()) {
        Ok(a) => a,
        Err(m) => {
            return Err(ContractError::ParseError(m));
        }
    };

    let mut state = state;
    let caller_balance = state.balances.get(&caller_addr);
    if caller_balance.0 < amount.0 {
        return Err(ContractError::InvalidBalance(caller_balance));
    }

    proof {
        state.balances.lemma_get_le_total(caller_addr@);
    }
    state.balances.set(&caller_addr, Amount(caller_balance.0 - amount.0));
    state.total_supply = Amount(state.total_supply.0 - amount.0);

    Ok(HandlerResult::NewState(state))
}

/// The caller destroys `amount` from `from`'s balance, authorized by
/// allowance unless the caller is `from`; symmetric to transfer-from with a
/// supply reduction in place of a credit.
///
/// When the caller is not `from`, the allowance of the pair `(from, caller)`
/// is spent first and its error propagates unchanged, before the balance
/// check.  When the caller is `from`, no allowance is required, consulted or
/// changed.
pub fn burn_from(state: State, caller: String, from: Address, amount: Amount) -> (r: ActionResult)
    requires
        state.wf(),
    ensures
        r is Ok <==> amount.0 > 0 && valid_address(caller@)
            && (caller@ == from@ || state.allowance_of(from@, caller@) >= amount.0)
            && state.balance_of(from@) >= amount.0,
        r matches Ok(h) ==> (h matches HandlerResult::NewState(s2) && {
            &&& s2.wf()
            &&& s2.balance_of(from@) == state.balance_of(from@) - amount.0
            &&& forall|k: Seq<char>| #![auto]
                k != from@ ==> s2.balance_of(k) == state.balance_of(k)
            &&& s2.total_supply.0 == state.total_supply.0 - amount.0
            &&& (caller@ == from@ ==> s2.allowances == state.allowances)
            &&& s2.allowance_of(from@, caller@) == if caller@ == from@ {
                state.allowance_of(from@, caller@) as int
            } else {
                state.allowance_of(from@, caller@) - amount.0
            }
            &&& forall|o2: Seq<char>, p2: Seq<char>| #![auto]
                !(o2 == from@ && p2 == caller@)
                    ==> s2.allowance_of(o2, p2) == state.allowance_of(o2, p2)
            &&& s2.same_metadata(&state)
        }),
        r matches Err(e) ==> match e {
            ContractError::AmountMustBeHigherThanZero => amount.0 == 0,
            ContractError::ParseError(_) => amount.0 > 0 && !valid_address(caller@),
            ContractError::CallerAllowanceNotEnough(cur) => amount.0 > 0
                && valid_address(caller@) && caller@ != from@
                && cur.0 == state.allowance_of(from@, caller@) && cur.0 < amount.0,
            ContractError::InvalidBalance(b) => amount.0 > 0 && valid_address(caller@)
                && (caller@ == from@ || state.allowance_of(from@, caller@) >= amount.0)
                && b.0 == state.balance_of(from@) && b.0 < amount.0,
            _ => false,
        },
{
    if amount.0 == 0 {
        return Err(ContractError::AmountMustBeHigherThanZero);
    }

    let caller_addr = match Address::parse(caller.as_str()) {
        Ok(a) => a,
        Err(m) => {
            return Err(ContractError::ParseError(m));
        }
    };

    // The caller burning their own funds needs no authorization record.
    let mut state = if caller_addr != from {
        match spend_allowance(state, &from, &caller_addr, &amount) {
            Ok(s) => s,
            Err(e) => {
                return Err(e);
            }
        }
    } else {
        state
    };

    let from_balance = state.balances.get(&from);
    if from_balance.0 < amount.0 {
        return Err(ContractError::InvalidBalance(from_balance));
    }

    proof {
        state.balances.lemma_get_le_total(from@);
    }
    state.balances.set(&from, Amount(from_balance.0 - amount.0));
    state.total_supply = Amount(state.total_supply.0 - amount.0);

    Ok(HandlerResult::NewState(state))
}

} // verus!
