//! The bank: the registry of accounts, the authority that assigns their
//! ids, and the one place where money moves between two of them.

use vstd::prelude::*;
use crate::account::{committed, Account, AccountView};
use crate::clock::{now, Timestamp};
use crate::error::BankError;
use crate::transaction::{Transaction, TransactionType};

verus! {

/// A bank as a mathematical value: its accounts by id, and the id the next
/// account will get.
pub struct BankView {
    pub name: Seq<char>,
    pub accounts: Map<int, AccountView>,
    pub next_account_id: int,
}

impl BankView {
    /// Ids are handed out from 1 upwards and never reused: the accounts are
    /// exactly those with an id below the next one, each filed under its own
    /// id and each well formed.
    pub open spec fn wf(self) -> bool {
        &&& self.next_account_id >= 1
        &&& forall|id: int| self.has(id) <==> 1 <= id < self.next_account_id
        &&& forall|id: int|
            self.has(id) ==> (#[trigger] self.accounts[id]).id == id && self.accounts[id].wf()
    }

    /// Whether `id` names an account.
    pub open spec fn has(self, id: int) -> bool {
        self.accounts.dom().contains(id)
    }

    /// A bank without accounts.
    pub open spec fn founded(name: Seq<char>) -> BankView {
        BankView { name, accounts: Map::empty(), next_account_id: 1 }
    }

    /// The bank after opening an account for `holder` under the next id.
    pub open spec fn create_account(self, holder: Seq<char>) -> BankView {
        BankView {
            accounts: self.accounts.insert(
                self.next_account_id,
                AccountView::opened(self.next_account_id, holder),
            ),
            next_account_id: self.next_account_id + 1,
            ..self
        }
    }

    /// The bank with the account under `id` replaced by `account`.
    pub open spec fn with_account(self, id: int, account: AccountView) -> BankView {
        BankView { accounts: self.accounts.insert(id, account), ..self }
    }

    /// What a deposit to account `id` does.
    pub open spec fn deposit(self, id: i32, amount: i64, at: Timestamp) -> Result<
        BankView,
        BankError,
    > {
        if !self.has(id as int) {
            Err(BankError::AccountNotFound)
        } else {
            match self.accounts[id as int].deposit(amount, at) {
                Ok(account) => Ok(self.with_account(id as int, account)),
                Err(e) => Err(e),
            }
        }
    }

    /// What a withdrawal from account `id` does.
    pub open spec fn withdraw(self, id: i32, amount: i64, at: Timestamp) -> Result<
        BankView,
        BankError,
    > {
        if !self.has(id as int) {
            Err(BankError::AccountNotFound)
        } else {
            match self.accounts[id as int].withdraw(amount, at) {
                Ok(account) => Ok(self.with_account(id as int, account)),
                Err(e) => Err(e),
            }
        }
    }

    /// What a transfer of `amount` from account `from` to account `to` does.
    /// The checks come in a fixed order: the amount, then that both accounts
    /// exist, then that they differ, then the funds.
    pub open spec fn transfer(self, from: i32, to: i32, amount: i64, at: Timestamp) -> Result<
        BankView,
        BankError,
    > {
        if amount <= 0 {
            Err(BankError::InvalidAmount)
        } else if !self.has(from as int) || !self.has(to as int) {
            Err(BankError::AccountNotFound)
        } else if from == to {
            Err(BankError::InvalidAmount)
        } else if self.accounts[from as int].balance < amount {
            Err(BankError::InsufficientFunds)
        } else {
            Ok(
                self.with_account(
                    from as int,
                    self.accounts[from as int].post(
                        amount,
                        TransactionType::TransferOut { to_account_id: to },
                        at,
                    ),
                ).with_account(
                    to as int,
                    self.accounts[to as int].post(
                        amount,
                        TransactionType::TransferIn { from_account_id: from },
                        at,
                    ),
                ),
            )
        }
    }

    /// The balance of account `id`.
    pub open spec fn balance_of(self, id: i32) -> Result<int, BankError> {
        if self.has(id as int) {
            Ok(self.accounts[id as int].balance)
        } else {
            Err(BankError::AccountNotFound)
        }
    }

    /// The history of account `id`, oldest record first.
    pub open spec fn history_of(self, id: i32) -> Result<Seq<Transaction>, BankError> {
        if self.has(id as int) {
            Ok(self.accounts[id as int].history)
        } else {
            Err(BankError::AccountNotFound)
        }
    }
}

/// `r` is the answer to asking `bank` for the balance of account `id`.
pub open spec fn balance_reply(bank: BankView, id: i32, r: Result<i128, BankError>) -> bool {
    match bank.balance_of(id) {
        Ok(balance) => r == Ok::<i128, BankError>(balance as i128) && r->Ok_0 == balance,
        Err(e) => r == Err::<i128, BankError>(e),
    }
}

/// `r` is the answer to asking `bank` for the history of account `id`.
pub open spec fn history_reply(bank: BankView, id: i32, r: Result<&Vec<Transaction>, BankError>)
    -> bool {
    match bank.history_of(id) {
        Ok(history) => r is Ok && r->Ok_0@ == history,
        Err(e) => r == Err::<&Vec<Transaction>, BankError>(e),
    }
}

/// A bank.
#[derive(Debug)]
pub struct Bank {
    name: String,
    accounts: Vec<Account>,
    next_account_id: i32,
}

impl View for Bank {
    type V = BankView;

    closed spec fn view(&self) -> BankView {
        BankView {
            name: self.name@,
            accounts: Map::new(
                |id: int| 1 <= id <= self.accounts@.len(),
                |id: int| self.accounts@[id - 1]@,
            ),
            next_account_id: self.next_account_id as int,
        }
    }
}

impl Bank {
    /// How the accounts are stored: in the order of their ids, the account
    /// with id `i + 1` at position `i`.
    pub closed spec fn stored_in_order(&self) -> bool {
        &&& self.next_account_id == self.accounts@.len() + 1
        &&& forall|i: int|
            0 <= i < self.accounts@.len() ==> (#[trigger] self.accounts@[i])@.id == i + 1
                && self.accounts@[i].wf()
    }

    /// The bank's invariant.
    pub open spec fn wf(&self) -> bool {
        self.stored_in_order() && self@.wf()
    }

    /// Founds a bank without accounts.
    pub fn new(name: String) -> (bank: Bank)
        ensures
            bank.wf(),
            bank@ == BankView::founded(name@),
    {
        let bank = Bank { name, accounts: Vec::new(), next_account_id: 1 };
        assert(bank@.accounts =~= Map::empty());
        bank
    }

    /// The position of account `id`, if there is one.
    fn index_of(&self, id: i32) -> (found: Option<usize>)
        requires
            self.wf(),
        ensures
            found is Some <==> self@.has(id as int),
            found matches Some(i) ==> i == id - 1 && i < self.accounts@.len()
                && self.accounts@[i as int]@ == self@.accounts[id as int],
    {
        if id >= 1 && id as usize <= self.accounts.len() {
            Some((id - 1) as usize)
        } else {
            None
        }
    }

    /// The bank's name.
    pub fn name(&self) -> (name: &String)
        ensures
            name@ == self@.name,
    {
        &self.name
    }

    /// The id that the next account will get.
    pub fn next_account_id(&self) -> (id: i32)
        ensures
            id == self@.next_account_id,
    {
        self.next_account_id
    }

    /// Opens an account for `account_holder` and returns its id.
    ///
    /// The ids of a bank run from 1 to `i32::MAX - 1`; past the last one no
    /// account can be opened.
    pub fn create_account(&mut self, account_holder: String) -> (id: i32)
        requires
            old(self).wf(),
            old(self)@.next_account_id < i32::MAX,
        ensures
            final(self).wf(),
            id == old(self)@.next_account_id,
            final(self)@ == old(self)@.create_account(account_holder@),
    {
        let id = self.next_account_id;
        self.accounts.push(Account::new(id, account_holder));
        self.next_account_id = id + 1;
        proof {
            assert(self@.accounts =~= old(self)@.create_account(account_holder@).accounts);
        }
        id
    }

    /// The account with id `account_id`, to read.
    pub fn account(&self, account_id: i32) -> (r: Result<&Account, BankError>)
        requires
            self.wf(),
        ensures
            match r {
                Ok(account) => self@.has(account_id as int) && account@
                    == self@.accounts[account_id as int] && account.wf(),
                Err(e) => !self@.has(account_id as int) && e == BankError::AccountNotFound,
            },
    {
        match self.index_of(account_id) {
            Some(i) => Ok(&self.accounts[i]),
            None => Err(BankError::AccountNotFound),
        }
    }

    /// The balance of account `account_id`, in minor units.
    pub fn balance_of(&self, account_id: i32) -> (r: Result<i128, BankError>)
        requires
            self.wf(),
        ensures
            balance_reply(self@, account_id, r),
    {
        match self.index_of(account_id) {
            Some(i) => Ok(self.accounts[i].get_balance()),
            None => Err(BankError::AccountNotFound),
        }
    }

    /// The history of account `account_id`, oldest record first. The borrow
    /// is read-only.
    pub fn history_of(&self, account_id: i32) -> (r: Result<&Vec<Transaction>, BankError>)
        requires
            self.wf(),
        ensures
            history_reply(self@, account_id, r),
    {
        match self.index_of(account_id) {
            Some(i) => Ok(self.accounts[i].history()),
            None => Err(BankError::AccountNotFound),
        }
    }

    /// Deposits `amount` to account `account_id`, committed at time `at`.
    pub fn deposit_at(&mut self, account_id: i32, amount: i64, at: Timestamp) -> (r: Result<
        (),
        BankError,
    >)
        requires
            old(self).wf(),
        ensures
            final(self).wf(),
            committed(old(self)@, final(self)@, r, old(self)@.deposit(account_id, amount, at)),
    {
        match self.index_of(account_id) {
            None => Err(BankError::AccountNotFound),
            Some(i) => {
                let r = self.accounts[i].deposit_at(amount, at);
                proof {
                    if r is Ok {
                        let model = old(self)@.deposit(account_id, amount, at);
                        assert(self@.accounts =~= model->Ok_0.accounts);
                    } else {
                        assert(self@.accounts =~= old(self)@.accounts);
                    }
                }
                r
            },
        }
    }

    /// Withdraws `amount` from account `account_id`, committed at time `at`.
    pub fn withdraw_at(&mut self, account_id: i32, amount: i64, at: Timestamp) -> (r: Result<
        (),
        BankError,
    >)
        requires
            old(self).wf(),
        ensures
            final(self).wf(),
            committed(old(self)@, final(self)@, r, old(self)@.withdraw(account_id, amount, at)),
    {
        match self.index_of(account_id) {
            None => Err(BankError::AccountNotFound),
            Some(i) => {
                let r = self.accounts[i].withdraw_at(amount, at);
                proof {
                    if r is Ok {
                        let model = old(self)@.withdraw(account_id, amount, at);
                        assert(self@.accounts =~= model->Ok_0.accounts);
                    } else {
                        assert(self@.accounts =~= old(self)@.accounts);
                    }
                }
                r
            },
        }
    }

    /// Deposits `amount` to account `account_id`, committed now.
    pub fn deposit(&mut self, account_id: i32, amount: i64) -> (r: Result<(), BankError>)
        requires
            old(self).wf(),
        ensures
            final(self).wf(),
            exists|at: Timestamp|
                committed(
                    old(self)@,
                    final(self)@,
                    r,
                    #[trigger] old(self)@.deposit(account_id, amount, at),
                ),
    {
        let at = now();
        self.deposit_at(account_id, amount, at)
    }

    /// Withdraws `amount` from account `account_id`, committed now.
    pub fn withdraw(&mut self, account_id: i32, amount: i64) -> (r: Result<(), BankError>)
        requires
            old(self).wf(),
        ensures
            final(self).wf(),
            exists|at: Timestamp|
                committed(
                    old(self)@,
                    final(self)@,
                    r,
                    #[trigger] old(self)@.withdraw(account_id, amount, at),
                ),
    {
        let at = now();
        self.withdraw_at(account_id, amount, at)
    }

    /// Moves `amount` from account `from_id` to account `to_id`, committed
    /// now: the clock is read once, and both records carry that time.
    pub fn transfer(&mut self, from_id: i32, to_id: i32, amount: i64) -> (r: Result<(), BankError>)
        requires
            old(self).wf(),
        ensures
            final(self).wf(),
            exists|at: Timestamp|
                committed(
                    old(self)@,
                    final(self)@,
                    r,
                    #[trigger] old(self)@.transfer(from_id, to_id, amount, at),
                ),
    {
        let at = now();
        self.transfer_at(from_id, to_id, amount, at)
    }

    /// Moves `amount` from account `from_id` to account `to_id`, both
    /// records committed at time `at`.
    pub fn transfer_at(&mut self, from_id: i32, to_id: i32, amount: i64, at: Timestamp) -> (r:
        Result<(), BankError>)
        requires
            old(self).wf(),
        ensures
            final(self).wf(),
            committed(old(self)@, final(self)@, r, old(self)@.transfer(from_id, to_id, amount, at)),
    {
        if amount <= 0 {
            return Err(BankError::InvalidAmount);
        }
        let (si, ri) = match (self.index_of(from_id), self.index_of(to_id)) {
            (Some(si), Some(ri)) => (si, ri),
            _ => { return Err(BankError::AccountNotFound); },
        };
        if si == ri {
            return Err(BankError::InvalidAmount);
        }
        if self.accounts[si].get_balance() < amount as i128 {
            return Err(BankError::InsufficientFunds);
        }
        self.accounts[si].post(amount, TransactionType::TransferOut { to_account_id: to_id }, at);
        self.accounts[ri].post(amount, TransactionType::TransferIn { from_account_id: from_id }, at);
        proof {
            let model = old(self)@.transfer(from_id, to_id, amount, at);
            assert(self@.accounts =~= model->Ok_0.accounts);
        }
        Ok(())
    }
}

} // verus!
