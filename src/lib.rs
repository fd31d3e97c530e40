//! A small in-memory bank ledger: accounts with a balance and an
//! append-only transaction history, kept by a bank that issues
//! sequential account numbers.
use vstd::prelude::*;

pub mod account;
pub mod bank;
pub mod error;
pub mod numbering;
pub mod transaction;

pub use account::Account;
pub use bank::Bank;
pub use error::BankError;
pub use numbering::decimal_string;
pub use transaction::{Transaction, TransactionType};

verus! {

} // verus!
