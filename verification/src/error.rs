//! Why a mutation was rejected.

use vstd::prelude::*;

verus! {

/// The reasons for which the ledger refuses an operation. A refused
/// operation leaves every account as it was.
#[derive(Debug, Clone, Copy, PartialEq, Eq, Structural)]
pub enum BankError {
    /// A withdrawal or a transfer asks for more than the account holds.
    InsufficientFunds,
    /// An account id names no account of the bank.
    AccountNotFound,
    /// The amount is zero or negative, or both ends of a transfer are the
    /// same account.
    InvalidAmount,
}

impl BankError {
    /// The text of the message, as a sequence of characters.
    pub open spec fn message_text(self) -> Seq<char> {
        match self {
            BankError::InsufficientFunds => "Insufficient Balance to complete this transaction"@,
            BankError::AccountNotFound => "Account not found"@,
            BankError::InvalidAmount => "Invalid amount"@,
        }
    }

    /// The message shown to a user for this error.
    pub fn message(&self) -> (text: String)
        ensures
            text@ == self.message_text(),
    {
        match self {
            BankError::InsufficientFunds => String::from_str(
                "Insufficient Balance to complete this transaction",
            ),
            BankError::AccountNotFound => String::from_str("Account not found"),
            BankError::InvalidAmount => String::from_str("Invalid amount"),
        }
    }
}

} // verus!
