//! One account: a balance and the append-only history that explains it.

use vstd::prelude::*;
use crate::clock::{now, Timestamp};
use crate::error::BankError;
use crate::transaction::{consistent, lemma_net_bounded, lemma_net_push, net, Transaction,
    TransactionType};

verus! {

/// An account as a mathematical value.
pub struct AccountView {
    pub id: int,
    pub holder: Seq<char>,
    pub balance: int,
    pub history: Seq<Transaction>,
}

impl AccountView {
    /// The balance is the sum of the history and is not negative, and the
    /// history is consistent.
    pub open spec fn wf(self) -> bool {
        &&& self.balance == net(self.history)
        &&& self.balance >= 0
        &&& consistent(self.history)
    }

    /// A fresh account: nothing on it, nothing recorded.
    pub open spec fn opened(id: int, holder: Seq<char>) -> AccountView {
        AccountView { id, holder, balance: 0, history: Seq::empty() }
    }

    /// The balance once `amount` of the given kind is applied.
    pub open spec fn balance_with(self, amount: i64, kind: TransactionType) -> int {
        if kind.is_credit() {
            self.balance + amount
        } else {
            self.balance - amount
        }
    }

    /// The account after one more record: the balance moves by the amount
    /// and the record, carrying the new balance, is appended.
    pub open spec fn post(self, amount: i64, kind: TransactionType, at: Timestamp) -> AccountView {
        let balance = self.balance_with(amount, kind);
        AccountView {
            balance,
            history: self.history.push(
                Transaction {
                    amount,
                    transaction_type: kind,
                    timestamp: at,
                    balance_after: balance as i128,
                },
            ),
            ..self
        }
    }

    /// What a deposit of `amount` at time `at` does: the next state, or the
    /// reason for refusing.
    pub open spec fn deposit(self, amount: i64, at: Timestamp) -> Result<AccountView, BankError> {
        if amount <= 0 {
            Err(BankError::InvalidAmount)
        } else {
            Ok(self.post(amount, TransactionType::Deposit, at))
        }
    }

    /// What a withdrawal of `amount` at time `at` does: the next state, or
    /// the reason for refusing.
    pub open spec fn withdraw(self, amount: i64, at: Timestamp) -> Result<AccountView, BankError> {
        if amount <= 0 {
            Err(BankError::InvalidAmount)
        } else if amount > self.balance {
            Err(BankError::InsufficientFunds)
        } else {
            Ok(self.post(amount, TransactionType::Withdrawal, at))
        }
    }
}

/// An operation with model outcome `model` took a state from `before` to
/// `after` and returned `r`: either it committed the model's next state, or
/// it returned the model's error and changed nothing.
pub open spec fn committed<S>(
    before: S,
    after: S,
    r: Result<(), BankError>,
    model: Result<S, BankError>,
) -> bool {
    match model {
        Ok(next) => r is Ok && after == next,
        Err(e) => r == Err::<(), BankError>(e) && after == before,
    }
}

/// Posting a positive amount that the balance can bear keeps an account
/// well formed.
pub proof fn lemma_post_wf(a: AccountView, amount: i64, kind: TransactionType, at: Timestamp)
    requires
        a.wf(),
        amount > 0,
        !kind.is_credit() ==> amount <= a.balance,
        a.balance_with(amount, kind) <= i128::MAX,
    ensures
        a.post(amount, kind, at).wf(),
{
    let b = a.post(amount, kind, at);
    let t = b.history.last();
    lemma_net_push(a.history, t);
    assert forall|i: int| 0 <= i < b.history.len() implies {
        &&& (#[trigger] b.history[i]).amount > 0
        &&& b.history[i].balance_after == net(b.history.take(i + 1))
        &&& b.history[i].balance_after >= 0
    } by {
        if i < a.history.len() {
            assert(b.history[i] == a.history[i]);
            assert(b.history.take(i + 1) =~= a.history.take(i + 1));
        } else {
            assert(b.history.take(i + 1) =~= b.history);
        }
    }
}

/// A bank account.
#[derive(Debug)]
pub struct Account {
    id: i32,
    account_holder: String,
    balance: i128,
    transactions: Vec<Transaction>,
}

impl View for Account {
    type V = AccountView;

    closed spec fn view(&self) -> AccountView {
        AccountView {
            id: self.id as int,
            holder: self.account_holder@,
            balance: self.balance as int,
            history: self.transactions@,
        }
    }
}

impl Account {
    /// The account's invariant, as `AccountView::wf` states it.
    pub open spec fn wf(&self) -> bool {
        self@.wf()
    }

    /// Opens an account with a zero balance and an empty history.
    pub fn new(id: i32, account_holder: String) -> (account: Account)
        ensures
            account.wf(),
            account@ == AccountView::opened(id as int, account_holder@),
    {
        Account { id, account_holder, balance: 0, transactions: Vec::new() }
    }

    /// Applies one record of a positive amount. A debit must be covered by
    /// the balance.
    pub(crate) fn post(&mut self, amount: i64, kind: TransactionType, at: Timestamp)
        requires
            old(self).wf(),
            amount > 0,
            !kind.is_credit() ==> amount <= old(self)@.balance,
        ensures
            final(self).wf(),
            final(self)@ == old(self)@.post(amount, kind, at),
    {
        proof {
            lemma_net_bounded(self.transactions@);
            assert(self.transactions@.len() == self.transactions.len());
            assert(self.transactions@.len() * 0x8000_0000_0000_0000 <= 0xffff_ffff_ffff_ffff
                * 0x8000_0000_0000_0000) by (nonlinear_arith)
                requires
                    self.transactions@.len() <= 0xffff_ffff_ffff_ffff,
            ;
            lemma_post_wf(self@, amount, kind, at);
        }
        let balance: i128 = match kind {
            TransactionType::Deposit | TransactionType::TransferIn { .. } => self.balance
                + amount as i128,
            TransactionType::Withdrawal | TransactionType::TransferOut { .. } => self.balance
                - amount as i128,
        };
        self.balance = balance;
        self.transactions.push(
            Transaction { amount, transaction_type: kind, timestamp: at, balance_after: balance },
        );
    }

    /// Deposits `amount`, committed at time `at`.
    ///
    /// Refused with `InvalidAmount` when the amount is not positive.
    pub fn deposit_at(&mut self, amount: i64, at: Timestamp) -> (r: Result<(), BankError>)
        requires
            old(self).wf(),
        ensures
            final(self).wf(),
            committed(old(self)@, final(self)@, r, old(self)@.deposit(amount, at)),
    {
        if amount <= 0 {
            return Err(BankError::InvalidAmount);
        }
        self.post(amount, TransactionType::Deposit, at);
        Ok(())
    }

    /// Withdraws `amount`, committed at time `at`.
    ///
    /// Refused with `InvalidAmount` when the amount is not positive, and
    /// with `InsufficientFunds` when it exceeds the balance.
    pub fn withdraw_at(&mut self, amount: i64, at: Timestamp) -> (r: Result<(), BankError>)
        requires
            old(self).wf(),
        ensures
            final(self).wf(),
            committed(old(self)@, final(self)@, r, old(self)@.withdraw(amount, at)),
    {
        if amount <= 0 {
            return Err(BankError::InvalidAmount);
        }
        if amount as i128 > self.balance {
            return Err(BankError::InsufficientFunds);
        }
        self.post(amount, TransactionType::Withdrawal, at);
        Ok(())
    }

    /// Deposits `amount`, committed now.
    pub fn deposit(&mut self, amount: i64) -> (r: Result<(), BankError>)
        requires
            old(self).wf(),
        ensures
            final(self).wf(),
            exists|at: Timestamp|
                committed(old(self)@, final(self)@, r, #[trigger] old(self)@.deposit(amount, at)),
    {
        let at = now();
        self.deposit_at(amount, at)
    }

    /// Withdraws `amount`, committed now.
    pub fn withdraw(&mut self, amount: i64) -> (r: Result<(), BankError>)
        requires
            old(self).wf(),
        ensures
            final(self).wf(),
            exists|at: Timestamp|
                committed(old(self)@, final(self)@, r, #[trigger] old(self)@.withdraw(amount, at)),
    {
        let at = now();
        self.withdraw_at(amount, at)
    }

    /// The account's id.
    pub fn id(&self) -> (id: i32)
        ensures
            id == self@.id,
    {
        self.id
    }

    /// The holder's name.
    pub fn account_holder(&self) -> (name: &String)
        ensures
            name@ == self@.holder,
    {
        &self.account_holder
    }

    /// The current balance, in minor units.
    pub fn get_balance(&self) -> (balance: i128)
        ensures
            balance == self@.balance,
    {
        self.balance
    }

    /// The history, oldest record first. The borrow is read-only.
    pub fn history(&self) -> (records: &Vec<Transaction>)
        ensures
            records@ == self@.history,
    {
        &self.transactions
    }
}

} // verus!
