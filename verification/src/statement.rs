//! An account's history as lines of text: the day, the kind of event, the
//! amount, and the balance it left.

use vstd::prelude::*;
use crate::account::Account;
use crate::clock::render_date;
use crate::money::{format_money, money_text};
use crate::transaction::{Transaction, TransactionType};

verus! {

impl TransactionType {
    /// The label of this kind of event. Both sides of a transfer are
    /// labelled alike.
    pub open spec fn label_text(self) -> Seq<char> {
        match self {
            TransactionType::Deposit => "DEPOSIT"@,
            TransactionType::Withdrawal => "WITHDRAWAL"@,
            TransactionType::TransferOut { .. } => "TRANSFER"@,
            TransactionType::TransferIn { .. } => "TRANSFER"@,
        }
    }

    /// The label under which this kind of event is listed.
    pub fn label(&self) -> (text: &'static str)
        ensures
            text@ == self.label_text(),
    {
        match self {
            TransactionType::Deposit => "DEPOSIT",
            TransactionType::Withdrawal => "WITHDRAWAL",
            TransactionType::TransferOut { .. } => "TRANSFER",
            TransactionType::TransferIn { .. } => "TRANSFER",
        }
    }
}

/// The line for record `t` committed on the day written `day`:
/// the day, a colon, the label, the amount and the balance after it, as in
/// `2024-03-01: DEPOSIT $100.00 -> Balance: $100.00`.
pub open spec fn line_text(day: Seq<char>, t: Transaction) -> Seq<char> {
    day + ": "@ + t.transaction_type.label_text() + " $"@ + money_text(t.amount as int)
        + " -> Balance: $"@ + money_text(t.balance_after as int)
}

/// The line for record `t`, or `None` where its time falls on no day the
/// calendar knows.
pub open spec fn described(t: Transaction) -> Option<Seq<char>> {
    match t.timestamp.day_text() {
        Some(day) => Some(line_text(day, t)),
        None => None,
    }
}

impl Transaction {
    /// The line for this record, given the day it was committed on.
    pub fn line(&self, day: &str) -> (text: String)
        ensures
            text@ == line_text(day@, *self),
    {
        let mut text = String::from_str(day);
        text.append(": ");
        text.append(self.transaction_type.label());
        text.append(" $");
        text.append(format_money(self.amount as i128).as_str());
        text.append(" -> Balance: $");
        text.append(format_money(self.balance_after).as_str());
        text
    }

    /// The line for this record, its day taken from its commit time; `None`
    /// where that time falls on no day the calendar knows.
    pub fn describe(&self) -> (text: Option<String>)
        ensures
            match text {
                Some(line) => described(*self) == Some(line@),
                None => described(*self).is_none(),
            },
    {
        match render_date(self.timestamp.secs, self.timestamp.nanos) {
            Some(day) => Some(self.line(day.as_str())),
            None => None,
        }
    }
}

impl Account {
    /// The history as lines, oldest record first, one line per record;
    /// `None` where some record has a commit time that falls on no day the
    /// calendar knows.
    pub fn display_transactions(&self) -> (lines: Option<Vec<String>>)
        ensures
            match lines {
                Some(lines) => {
                    &&& lines@.len() == self@.history.len()
                    &&& forall|i: int|
                        0 <= i < lines@.len() ==> described(#[trigger] self@.history[i]) == Some(
                            lines@[i]@,
                        )
                },
                None => exists|i: int|
                    0 <= i < self@.history.len() && described(#[trigger] self@.history[i]).is_none(),
            },
    {
        let history = self.history();
        let mut lines: Vec<String> = Vec::new();
        let mut k: usize = 0;
        while k < history.len()
            invariant
                k <= history@.len(),
                history@ == self@.history,
                lines@.len() == k,
                forall|i: int|
                    0 <= i < k ==> described(#[trigger] history@[i]) == Some(lines@[i]@),
            decreases history@.len() - k,
        {
            match history[k].describe() {
                Some(line) => {
                    lines.push(line);
                },
                None => {
                    return None;
                },
            }
            k = k + 1;
        }
        Some(lines)
    }
}

} // verus!
