use token_ledger::action::ActionResult;
use token_ledger::address::Address;
use token_ledger::amount::Amount;
use token_ledger::burn::{burn, burn_from};
use token_ledger::error::ContractError;
use token_ledger::handler_result::HandlerResult;
use token_ledger::state::State;
use token_ledger::transfer::{transfer, transfer_from};

fn addr(s: &str) -> Address {
    Address::parse(s).unwrap()
}

fn base_state() -> State {
    // balances = {Alice: 100}, total_supply = 100
    State::new("TKN".to_string(), Some("Token".to_string()), 2, addr("Deployer"))
        .with_balance(&addr("Alice"), Amount(100))
}

fn new_state(r: ActionResult) -> State {
    match r {
        Ok(HandlerResult::NewState(s)) => s,
        other => panic!("expected a new state, got {:?}", other),
    }
}

#[test]
fn transfer_moves_balance_and_keeps_supply() {
    // Scenario A: Alice transfers 30 to Bob.
    let state = base_state();
    let s2 = new_state(transfer(state, "Alice".to_string(), addr("Bob"), Amount(30)));
    assert_eq!(s2.balance(&addr("Alice")), Amount(70));
    assert_eq!(s2.balance(&addr("Bob")), Amount(30));
    assert_eq!(s2.total_supply, Amount(100));
}

#[test]
fn transfer_conserves_third_party_balances() {
    let state = base_state().with_balance(&addr("Carol"), Amount(7));
    let s2 = new_state(transfer(state, "Alice".to_string(), addr("Bob"), Amount(30)));
    assert_eq!(s2.balance(&addr("Carol")), Amount(7));
    assert_eq!(s2.total_supply, Amount(107));
}

#[test]
fn transfer_to_self_is_a_no_op() {
    let state = base_state();
    let s2 = new_state(transfer(state, "Alice".to_string(), addr("Alice"), Amount(30)));
    assert_eq!(s2.balance(&addr("Alice")), Amount(100));
    assert_eq!(s2.total_supply, Amount(100));
}

#[test]
fn transfer_with_insufficient_balance_is_rejected() {
    let state = base_state();
    let r = transfer(state, "Alice".to_string(), addr("Bob"), Amount(101));
    assert!(matches!(r, Err(ContractError::CallerBalanceNotEnough(b)) if b == Amount(100)));
}

#[test]
fn transfer_of_zero_is_rejected_and_state_kept() {
    // Zero-amount rejection leaves the caller's snapshot untouched.
    let state = base_state();
    let r = transfer(state.clone(), "Alice".to_string(), addr("Bob"), Amount(0));
    assert!(matches!(r, Err(ContractError::AmountMustBeHigherThanZero)));
    assert_eq!(state.balance(&addr("Alice")), Amount(100));
    assert_eq!(state.total_supply, Amount(100));
}

#[test]
fn transfer_with_unparseable_caller_is_rejected() {
    let state = base_state();
    let r = transfer(state, String::new(), addr("Bob"), Amount(30));
    assert!(matches!(r, Err(ContractError::ParseError(_))));
}

#[test]
fn transfer_from_spends_allowance() {
    // Scenario C: allowances = {Alice: {Carol: 40}}; Carol moves 40 to Dave.
    let state = base_state().with_allowance(&addr("Alice"), &addr("Carol"), Amount(40));
    let s2 = new_state(transfer_from(
        state,
        "Carol".to_string(),
        addr("Alice"),
        addr("Dave"),
        Amount(40),
    ));
    assert_eq!(s2.balance(&addr("Alice")), Amount(60));
    assert_eq!(s2.balance(&addr("Dave")), Amount(40));
    assert_eq!(s2.allowance(&addr("Alice"), &addr("Carol")), Amount(0));
    assert_eq!(s2.total_supply, Amount(100));
}

#[test]
fn transfer_from_with_insufficient_allowance_is_rejected() {
    // Scenario D: amount 50 against an allowance of 40.
    let state = base_state().with_allowance(&addr("Alice"), &addr("Carol"), Amount(40));
    let r = transfer_from(
        state.clone(),
        "Carol".to_string(),
        addr("Alice"),
        addr("Dave"),
        Amount(50),
    );
    assert!(matches!(r, Err(ContractError::CallerAllowanceNotEnough(cur)) if cur == Amount(40)));
    assert_eq!(state.balance(&addr("Alice")), Amount(100));
    assert_eq!(state.allowance(&addr("Alice"), &addr("Carol")), Amount(40));
}

#[test]
fn transfer_from_by_owner_bypasses_allowance() {
    // Scenario E: Alice moves her own funds with no allowance entries at all.
    let state = base_state();
    let s2 = new_state(transfer_from(
        state,
        "Alice".to_string(),
        addr("Alice"),
        addr("Bob"),
        Amount(10),
    ));
    assert_eq!(s2.balance(&addr("Alice")), Amount(90));
    assert_eq!(s2.balance(&addr("Bob")), Amount(10));
    assert_eq!(s2.allowance(&addr("Alice"), &addr("Alice")), Amount(0));
}

#[test]
fn transfer_from_checks_allowance_before_balance() {
    // Too small an allowance and too small a balance: the allowance error wins.
    let state = base_state().with_allowance(&addr("Alice"), &addr("Carol"), Amount(40));
    let r = transfer_from(
        state,
        "Carol".to_string(),
        addr("Alice"),
        addr("Dave"),
        Amount(150),
    );
    assert!(matches!(r, Err(ContractError::CallerAllowanceNotEnough(cur)) if cur == Amount(40)));
}

#[test]
fn transfer_from_balance_error_carries_owner_balance() {
    let state = base_state().with_allowance(&addr("Alice"), &addr("Carol"), Amount(500));
    let r = transfer_from(
        state,
        "Carol".to_string(),
        addr("Alice"),
        addr("Dave"),
        Amount(150),
    );
    assert!(matches!(r, Err(ContractError::CallerBalanceNotEnough(b)) if b == Amount(100)));
}

#[test]
fn transfer_from_keeps_other_allowances() {
    let state = base_state()
        .with_allowance(&addr("Alice"), &addr("Carol"), Amount(40))
        .with_allowance(&addr("Alice"), &addr("Erin"), Amount(9))
        .with_allowance(&addr("Bob"), &addr("Carol"), Amount(5));
    let s2 = new_state(transfer_from(
        state,
        "Carol".to_string(),
        addr("Alice"),
        addr("Dave"),
        Amount(15),
    ));
    assert_eq!(s2.allowance(&addr("Alice"), &addr("Carol")), Amount(25));
    assert_eq!(s2.allowance(&addr("Alice"), &addr("Erin")), Amount(9));
    assert_eq!(s2.allowance(&addr("Bob"), &addr("Carol")), Amount(5));
}

#[test]
fn transfer_from_of_zero_is_rejected() {
    let state = base_state().with_allowance(&addr("Alice"), &addr("Carol"), Amount(40));
    let r = transfer_from(
        state,
        "Carol".to_string(),
        addr("Alice"),
        addr("Dave"),
        Amount(0),
    );
    assert!(matches!(r, Err(ContractError::AmountMustBeHigherThanZero)));
}

#[test]
fn burn_reduces_balance_and_supply() {
    let state = base_state();
    let s2 = new_state(burn(state, "Alice".to_string(), Amount(30)));
    assert_eq!(s2.balance(&addr("Alice")), Amount(70));
    assert_eq!(s2.total_supply, Amount(70));
}

#[test]
fn burn_beyond_balance_is_rejected_and_state_kept() {
    // Scenario B: Alice burns 150 with a balance of 100.
    let state = base_state();
    let r = burn(state.clone(), "Alice".to_string(), Amount(150));
    assert!(matches!(r, Err(ContractError::InvalidBalance(b)) if b == Amount(100)));
    assert_eq!(state.balance(&addr("Alice")), Amount(100));
    assert_eq!(state.total_supply, Amount(100));
}

#[test]
fn burn_of_zero_is_rejected() {
    let state = base_state();
    let r = burn(state, "Alice".to_string(), Amount(0));
    assert!(matches!(r, Err(ContractError::AmountMustBeHigherThanZero)));
}

#[test]
fn burn_with_unparseable_caller_is_rejected() {
    let state = base_state();
    let r = burn(state, String::new(), Amount(30));
    assert!(matches!(r, Err(ContractError::ParseError(_))));
}

#[test]
fn burn_from_spends_allowance_and_reduces_supply() {
    let state = base_state().with_allowance(&addr("Alice"), &addr("Carol"), Amount(40));
    let s2 = new_state(burn_from(
        state,
        "Carol".to_string(),
        addr("Alice"),
        Amount(25),
    ));
    assert_eq!(s2.balance(&addr("Alice")), Amount(75));
    assert_eq!(s2.total_supply, Amount(75));
    assert_eq!(s2.allowance(&addr("Alice"), &addr("Carol")), Amount(15));
}

#[test]
fn burn_from_with_insufficient_allowance_is_rejected() {
    let state = base_state().with_allowance(&addr("Alice"), &addr("Carol"), Amount(10));
    let r = burn_from(state, "Carol".to_string(), addr("Alice"), Amount(25));
    assert!(matches!(r, Err(ContractError::CallerAllowanceNotEnough(cur)) if cur == Amount(10)));
}

#[test]
fn burn_from_by_owner_bypasses_allowance() {
    let state = base_state();
    let s2 = new_state(burn_from(
        state,
        "Alice".to_string(),
        addr("Alice"),
        Amount(40),
    ));
    assert_eq!(s2.balance(&addr("Alice")), Amount(60));
    assert_eq!(s2.total_supply, Amount(60));
}

#[test]
fn burn_from_of_zero_is_rejected() {
    let state = base_state();
    let r = burn_from(state, "Alice".to_string(), addr("Alice"), Amount(0));
    assert!(matches!(r, Err(ContractError::AmountMustBeHigherThanZero)));
}

#[test]
fn burn_from_balance_error_carries_owner_balance() {
    let state = base_state().with_allowance(&addr("Alice"), &addr("Carol"), Amount(500));
    let r = burn_from(state, "Carol".to_string(), addr("Alice"), Amount(200));
    assert!(matches!(r, Err(ContractError::InvalidBalance(b)) if b == Amount(100)));
}

#[test]
fn absent_entries_read_zero() {
    let state = base_state();
    assert_eq!(state.balance(&addr("Nobody")), Amount(0));
    assert_eq!(state.allowance(&addr("Alice"), &addr("Nobody")), Amount(0));
    assert_eq!(state.allowance(&addr("Nobody"), &addr("Alice")), Amount(0));
}

#[test]
fn explicit_zero_reads_like_absence() {
    let state = base_state().with_balance(&addr("Bob"), Amount(0));
    assert_eq!(state.balance(&addr("Bob")), Amount(0));
    assert_eq!(state.total_supply, Amount(100));
}

#[test]
fn with_balance_overwrites_and_adjusts_supply() {
    let state = base_state().with_balance(&addr("Alice"), Amount(40));
    assert_eq!(state.balance(&addr("Alice")), Amount(40));
    assert_eq!(state.total_supply, Amount(40));
}

#[test]
fn address_parse_accepts_non_empty_and_rejects_empty() {
    assert!(Address::parse("Alice").is_ok());
    assert!(Address::parse("").is_err());
    let a = Address::parse("Alice").unwrap();
    assert_eq!(a.text().as_str(), "Alice");
    assert_eq!(a, a.dup());
    assert_ne!(a, Address::parse("Bob").unwrap());
}

#[test]
fn amount_zero_and_value() {
    assert_eq!(Amount::zero(), Amount(0));
    assert_eq!(Amount(42).value(), 42);
}

#[test]
fn state_new_has_empty_ledger() {
    let s = State::new("TKN".to_string(), None, 0, addr("Deployer"));
    assert_eq!(s.total_supply, Amount(0));
    assert_eq!(s.balance(&addr("Alice")), Amount(0));
    assert_eq!(s.ticker, "TKN");
    assert_eq!(s.name, None);
    assert_eq!(s.decimals, 0);
}

#[test]
fn balance_items_enumerate_the_ledger() {
    let state = base_state().with_balance(&addr("Bob"), Amount(5));
    let items = state.balances.items();
    assert_eq!(items.len(), 2);
    let mut seen: Vec<(String, u64)> = items
        .iter()
        .map(|(a, v)| (a.text().clone(), v.0))
        .collect();
    seen.sort();
    assert_eq!(seen, vec![("Alice".to_string(), 100), ("Bob".to_string(), 5)]);
}

#[test]
fn allowance_items_enumerate_the_ledger() {
    let state = base_state()
        .with_allowance(&addr("Alice"), &addr("Carol"), Amount(40))
        .with_allowance(&addr("Bob"), &addr("Carol"), Amount(5));
    let items = state.allowances.items();
    assert_eq!(items.len(), 2);
    let mut seen: Vec<(String, usize)> = items
        .iter()
        .map(|(o, inner)| (o.text().clone(), inner.items().len()))
        .collect();
    seen.sort();
    assert_eq!(seen, vec![("Alice".to_string(), 1), ("Bob".to_string(), 1)]);
}
