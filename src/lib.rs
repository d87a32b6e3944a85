//! A fixed-supply fungible-token ledger with a verified conservation law.
pub mod account;
pub mod ledger;
pub mod token;

pub use account::AccountId;
pub use token::{Balance, Error, SimpleToken};
