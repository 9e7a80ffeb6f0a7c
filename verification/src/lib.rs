//! An in-memory bank ledger: accounts with a running balance and an
//! append-only history of postings, and transfers between two accounts.
//!
//! Money is held in minor units (hundredths): an amount is an `i64`, a
//! balance an `i128`, so that no history that fits in memory can overflow it.

pub mod account;
pub mod bank;
pub mod clock;
pub mod error;
pub mod laws;
pub mod money;
pub mod statement;
pub mod transaction;

pub use account::{Account, AccountView};
pub use bank::{Bank, BankView};
pub use clock::Timestamp;
pub use error::BankError;
pub use transaction::{Transaction, TransactionType};
