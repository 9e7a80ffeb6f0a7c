//! One balance-affecting event, and the arithmetic of a history of them.

use vstd::prelude::*;
use crate::clock::{now, Timestamp};

verus! {

/// What kind of event a transaction records. Both sides of a transfer name
/// the account at the other end.
#[derive(Debug, Clone, Copy, PartialEq, Eq, Structural)]
pub enum TransactionType {
    Deposit,
    Withdrawal,
    TransferOut { to_account_id: i32 },
    TransferIn { from_account_id: i32 },
}

impl TransactionType {
    /// Whether an event of this kind adds to the balance.
    pub open spec fn is_credit(self) -> bool {
        self is Deposit || self is TransferIn
    }
}

/// The record of one committed change to an account's balance.
#[derive(Debug, Clone, Copy, PartialEq, Eq, Structural)]
pub struct Transaction {
    /// The amount moved, in minor units.
    pub amount: i64,
    pub transaction_type: TransactionType,
    /// When the change was committed.
    pub timestamp: Timestamp,
    /// The account's balance right after the change.
    pub balance_after: i128,
}

impl Transaction {
    /// What this record contributes to a balance: its amount, counted
    /// positive for a credit and negative for a debit.
    pub open spec fn signed_amount(self) -> int {
        if self.transaction_type.is_credit() {
            self.amount as int
        } else {
            -(self.amount as int)
        }
    }

    /// A record of `amount` committed now.
    pub fn new(amount: i64, transaction_type: TransactionType, balance_after: i128) -> (t:
        Transaction)
        ensures
            t.amount == amount,
            t.transaction_type == transaction_type,
            t.balance_after == balance_after,
    {
        Transaction { amount, transaction_type, timestamp: now(), balance_after }
    }
}

/// The sum of the signed amounts of a history.
pub open spec fn net(history: Seq<Transaction>) -> int
    decreases history.len(),
{
    if history.len() == 0 {
        0
    } else {
        net(history.drop_last()) + history.last().signed_amount()
    }
}

/// Every amount is positive, and every record carries the sum of the
/// history up to and including itself.
pub open spec fn consistent(history: Seq<Transaction>) -> bool {
    forall|i: int|
        0 <= i < history.len() ==> {
            &&& (#[trigger] history[i]).amount > 0
            &&& history[i].balance_after == net(history.take(i + 1))
            &&& history[i].balance_after >= 0
        }
}

/// Appending one record adds its signed amount to the sum.
pub proof fn lemma_net_push(history: Seq<Transaction>, t: Transaction)
    ensures
        net(history.push(t)) == net(history) + t.signed_amount(),
{
    assert(history.push(t).drop_last() =~= history);
}

/// No sum of `n` records exceeds `n` times 2^63, the largest magnitude an
/// amount can have, in either direction.
pub proof fn lemma_net_bounded(history: Seq<Transaction>)
    ensures
        -(history.len() * 0x8000_0000_0000_0000) <= net(history) <= history.len()
            * 0x8000_0000_0000_0000,
    decreases history.len(),
{
    if history.len() > 0 {
        lemma_net_bounded(history.drop_last());
    }
}

} // verus!
