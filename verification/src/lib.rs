//! Verified accounting core of a ledger-style token contract.
//!
//! A [`state::State`] value is a snapshot of the ledger: total supply,
//! balances by account, and the allowance table that lets one account spend
//! on behalf of another.  The action handlers in [`transfer`] and [`burn`]
//! consume one snapshot and return either a fully updated snapshot or a typed
//! error, never a partially mutated one.  Their contracts state conservation
//! of supply, exact balance and allowance movement, and exactly which error
//! is returned on which input.

pub mod address;
pub mod amount;
pub mod error;
pub mod ledger;
pub mod state;
pub mod handler_result;
pub mod action;
pub mod allowance;
pub mod transfer;
pub mod burn;
