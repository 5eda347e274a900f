use vstd::prelude::*;
use crate::action::ActionResult;
use crate::address::{valid_address, Address};
use crate::allowance::spend_allowance;
use crate::amount::Amount;
use crate::error::ContractError;
use crate::handler_result::HandlerResult;
use crate::state::State;

verus! {

/// The caller moves `amount` of their own balance to `to`.
///
/// Conservation: the caller's balance drops by `amount`, `to`'s rises by
/// `amount`, every other balance and the total supply stay.  A self-transfer
/// is a permitted no-op pair of equal debit and credit.  No allowance is
/// consulted or changed.  Success is owed exactly when the amount is
/// positive, the caller identity parses, and the caller's balance suffices;
/// otherwise the first failing gate's error is returned and no new state is
/// published.
pub fn transfer(state: State, caller: String, to: Address, amount: Amount) -> (r: ActionResult)
    requires
        state.wf(),
    ensures
        r is Ok <==> amount.0 > 0 && valid_address(caller@)
            && state.balance_of(caller@) >= amount.0,
        r matches Ok(h) ==> (h matches HandlerResult::NewState(s2) && {
            &&& s2.wf()
            &&& s2.balance_of(caller@) == if to@ == caller@ {
                state.balance_of(caller@) as int
            } else {
                state.balance_of(caller@) - amount.0
            }
            &&& s2.balance_of(to@) == if to@ == caller@ {
                state.balance_of(to@) as int
            } else {
                state.balance_of(to@) + amount.0
            }
            &&& forall|k: Seq<char>| #![auto]
                k != caller@ && k != to@ ==> s2.balance_of(k) == state.balance_of(k)
            &&& s2.total_supply == state.total_supply
            &&& s2.allowances == state.allowances
            &&& forall|o2: Seq<char>, p2: Seq<char>| #![auto]
                s2.allowance_of(o2, p2) == state.allowance_of(o2, p2)
            &&& s2.same_metadata(&state)
        }),
        r matches Err(e) ==> match e {
            ContractError::AmountMustBeHigherThanZero => amount.0 == 0,
            ContractError::ParseError(_) => amount.0 > 0 && !valid_address(caller@),
            ContractError::CallerBalanceNotEnough(b) => amount.0 > 0 && valid_address(caller@)
                && b.0 == state.balance_of(caller@) && b.0 < amount.0,
            _ => false,
        },
{
    if amount.0 == 0 {
        return Err(ContractError::AmountMustBeHigherThanZero);
    }

    let caller_addr = match Address::parse(caller.as_str()) {
        Ok(a) => a,
        Err(m) => {
            return Err(ContractError::ParseError(m));
        }
    };

    let mut state = state;
    let caller_balance = state.balances.get(&caller_addr);
    if caller_balance.0 < amount.0 {
        return Err(ContractError::CallerBalanceNotEnough(caller_balance));
    }

    state.balances.set(&caller_addr, Amount(caller_balance.0 - amount.0));

    let target_balance = state.balances.get(&to);
    proof {
        state.balances.lemma_get_le_total(to@);
    }
    state.balances.set(&to, Amount(target_balance.0 + amount.0));

    Ok(HandlerResult::NewState(state))
}

/// The caller moves `amount` out of `from`'s balance to `to`, authorized by
/// allowance unless the caller is `from`.
///
/// When the caller is not `from`, the allowance of the pair `(from, caller)`
/// is spent first and its error propagates unchanged, before the balance
/// check: a caller with too small an allowance fails on the allowance error
/// even when `from` also lacks funds.  When the caller is `from`, no
/// allowance is required, consulted or changed.  On success the balances
/// move as in [`transfer`], with `from` as the debited account.
pub fn transfer_from(
    state: State,
    caller: String,
    from: Address,
    to: Address,
    amount: Amount,
) -> (r: ActionResult)
    requires
        state.wf(),
    ensures
        r is Ok <==> amount.0 > 0 && valid_address(caller@)
            && (caller@ == from@ || state.allowance_of(from@, caller@) >= amount.0)
            && state.balance_of(from@) >= amount.0,
        r matches Ok(h) ==> (h matches HandlerResult::NewState(s2) && {
            &&& s2.wf()
            &&& s2.balance_of(from@) == if to@ == from@ {
                state.balance_of(from@) as int
            } else {
                state.balance_of(from@) - amount.0
            }
            &&& s2.balance_of(to@) == if to@ == from@ {
                state.balance_of(to@) as int
            } else {
                state.balance_of(to@) + amount.0
            }
            &&& forall|k: Seq<char>| #![auto]
                k != from@ && k != to@ ==> s2.balance_of(k) == state.balance_of(k)
            &&& s2.total_supply == state.total_supply
            &&& (caller@ == from@ ==> s2.allowances == state.allowances)
            &&& s2.allowance_of(from@, caller@) == if caller@ == from@ {
                state.allowance_of(from@, caller@) as int
            } else {
                state.allowance_of(from@, caller@) - amount.0
            }
            &&& forall|o2: Seq<char>, p2: Seq<char>| #![auto]
                !(o2 == from@ && p2 == caller@)
                    ==> s2.allowance_of(o2, p2) == state.allowance_of(o2, p2)
            &&& s2.same_metadata(&state)
        }),
        r matches Err(e) ==> match e {
            ContractError::AmountMustBeHigherThanZero => amount.0 == 0,
            ContractError::ParseError(_) => amount.0 > 0 && !valid_address(caller@),
            ContractError::CallerAllowanceNotEnough(cur) => amount.0 > 0
                && valid_address(caller@) && caller@ != from@
                && cur.0 == state.allowance_of(from@, caller@) && cur.0 < amount.0,
            ContractError::CallerBalanceNotEnough(b) => amount.0 > 0 && valid_address(caller@)
                && (caller@ == from@ || state.allowance_of(from@, caller@) >= amount.0)
                && b.0 == state.balance_of(from@) && b.0 < amount.0,
            _ => false,
        },
{
    if amount.0 == 0 {
        return Err(ContractError::AmountMustBeHigherThanZero);
    }

    let caller_addr = match Address::parse(caller.as_str()) {
        Ok(a) => a,
        Err(m) => {
            return Err(ContractError::ParseError(m));
        }
    };

    // The caller moving their own funds needs no authorization record.
    let mut state = if caller_addr != from {
        match spend_allowance(state, &from, &caller_addr, &amount) {
            Ok(s) => s,
            Err(e) => {
                return Err(e);
            }
        }
    } else {
        state
    };

    let from_balance = state.balances.get(&from);
    if from_balance.0 < amount.0 {
        return Err(ContractError::CallerBalanceNotEnough(from_balance));
    }

    state.balances.set(&from, Amount(from_balance.0 - amount.0));

    let to_balance = state.balances.get(&to);
    proof {
        state.balances.lemma_get_le_total(to@);
    }
    state.balances.set(&to, Amount(to_balance.0 + amount.0));

    Ok(HandlerResult::NewState(state))
}

} // verus!
