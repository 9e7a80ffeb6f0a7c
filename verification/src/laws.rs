//! What holds of the ledger whatever is done with it, proved from the
//! models the operations are specified by.

use vstd::prelude::*;
use crate::account::{committed, AccountView};
use crate::bank::{balance_reply, history_reply, BankView};
use crate::clock::Timestamp;
use crate::error::BankError;
use crate::transaction::{lemma_net_push, net, Transaction, TransactionType};

verus! {

impl BankView {
    /// Every account's balance is the sum of the signed amounts of its
    /// history.
    pub open spec fn balanced(self) -> bool {
        forall|id: int|
            self.has(id) ==> (#[trigger] self.accounts[id]).balance == net(self.accounts[id].history)
    }
}

/// Posting a record keeps a balance equal to the sum of its history.
pub proof fn law_post_keeps_sum(
    account: AccountView,
    amount: i64,
    kind: TransactionType,
    at: Timestamp,
)
    requires
        account.balance == net(account.history),
    ensures
        account.post(amount, kind, at).balance == net(account.post(amount, kind, at).history),
{
    lemma_net_push(account.history, account.post(amount, kind, at).history.last());
}

/// A well-formed bank is balanced, and each record of each account carries
/// the sum of the history up to itself.
pub proof fn law_balance_is_sum(bank: BankView, id: int, k: int)
    requires
        bank.wf(),
        bank.has(id),
        0 <= k < bank.accounts[id].history.len(),
    ensures
        bank.balanced(),
        bank.accounts[id].balance == net(bank.accounts[id].history),
        bank.accounts[id].history[k].balance_after == net(bank.accounts[id].history.take(k + 1)),
{
    assert(bank.accounts[id].wf());
}

/// Whatever operation commits on a balanced bank, the bank it leaves is
/// balanced: opening an account, a deposit, a withdrawal and a transfer
/// each keep every balance equal to the sum of its history.
pub proof fn law_operations_keep_sums(
    bank: BankView,
    holder: Seq<char>,
    id: i32,
    other: i32,
    amount: i64,
    at: Timestamp,
)
    requires
        bank.balanced(),
    ensures
        bank.create_account(holder).balanced(),
        bank.deposit(id, amount, at) matches Ok(next) ==> next.balanced(),
        bank.withdraw(id, amount, at) matches Ok(next) ==> next.balanced(),
        bank.transfer(id, other, amount, at) matches Ok(next) ==> next.balanced(),
{
    let opened = bank.create_account(holder);
    assert forall|k: int| opened.has(k) implies (#[trigger] opened.accounts[k]).balance == net(
        opened.accounts[k].history,
    ) by {
        if k != bank.next_account_id {
            assert(bank.has(k));
        }
    }
    if bank.has(id as int) {
        let a = bank.accounts[id as int];
        law_post_keeps_sum(a, amount, TransactionType::Deposit, at);
        law_post_keeps_sum(a, amount, TransactionType::Withdrawal, at);
        law_post_keeps_sum(a, amount, TransactionType::TransferOut { to_account_id: other }, at);
    }
    if bank.has(other as int) {
        let b = bank.accounts[other as int];
        law_post_keeps_sum(b, amount, TransactionType::TransferIn { from_account_id: id }, at);
    }
    if let Ok(next) = bank.deposit(id, amount, at) {
        assert forall|k: int| next.has(k) implies (#[trigger] next.accounts[k]).balance == net(
            next.accounts[k].history,
        ) by {
            assert(bank.has(k));
        }
    }
    if let Ok(next) = bank.withdraw(id, amount, at) {
        assert forall|k: int| next.has(k) implies (#[trigger] next.accounts[k]).balance == net(
            next.accounts[k].history,
        ) by {
            assert(bank.has(k));
        }
    }
    if let Ok(next) = bank.transfer(id, other, amount, at) {
        assert forall|k: int| next.has(k) implies (#[trigger] next.accounts[k]).balance == net(
            next.accounts[k].history,
        ) by {
            assert(bank.has(k));
        }
    }
}

impl BankView {
    /// `later` has everything `self` has and only adds to it: the name is
    /// the same, the id counter has not gone back, and every account of
    /// `self` is still there under its id, with its holder, its history a
    /// prefix of what it is in `later`.
    pub open spec fn extended_by(self, later: BankView) -> bool {
        &&& later.name == self.name
        &&& later.next_account_id >= self.next_account_id
        &&& forall|id: int|
            self.has(id) ==> {
                &&& later.has(id)
                &&& (#[trigger] later.accounts[id]).id == self.accounts[id].id
                &&& later.accounts[id].holder == self.accounts[id].holder
                &&& self.accounts[id].history.is_prefix_of(later.accounts[id].history)
            }
    }
}

/// Histories are append-only and accounts are for good: whatever operation
/// commits, no account disappears or changes its id or holder, and no
/// record that was in a history is removed or altered.
pub proof fn law_history_only_grows(
    bank: BankView,
    holder: Seq<char>,
    id: i32,
    other: i32,
    amount: i64,
    at: Timestamp,
)
    requires
        bank.wf(),
    ensures
        bank.extended_by(bank.create_account(holder)),
        bank.deposit(id, amount, at) matches Ok(next) ==> bank.extended_by(next),
        bank.withdraw(id, amount, at) matches Ok(next) ==> bank.extended_by(next),
        bank.transfer(id, other, amount, at) matches Ok(next) ==> bank.extended_by(next),
{
    assert(!bank.has(bank.next_account_id));
}

/// A deposit of an amount that is not positive is refused with
/// `InvalidAmount` and changes nothing: not the balance, not the history.
pub proof fn law_deposit_rejects_nonpositive(
    before: AccountView,
    after: AccountView,
    r: Result<(), BankError>,
    amount: i64,
    at: Timestamp,
)
    requires
        amount <= 0,
        committed(before, after, r, before.deposit(amount, at)),
    ensures
        r == Err::<(), BankError>(BankError::InvalidAmount),
        after == before,
        after.balance == before.balance,
        after.history.len() == before.history.len(),
{
}

/// A withdrawal of more than the balance is refused and changes nothing:
/// not the balance, not the history. The refusal is `InsufficientFunds`
/// where the amount is positive, `InvalidAmount` where it is not.
pub proof fn law_withdraw_rejects_overdraft(
    before: AccountView,
    after: AccountView,
    r: Result<(), BankError>,
    amount: i64,
    at: Timestamp,
)
    requires
        amount > before.balance,
        committed(before, after, r, before.withdraw(amount, at)),
    ensures
        r is Err,
        amount > 0 ==> r == Err::<(), BankError>(BankError::InsufficientFunds),
        amount <= 0 ==> r == Err::<(), BankError>(BankError::InvalidAmount),
        after == before,
        after.balance == before.balance,
        after.history.len() == before.history.len(),
{
}

/// The same through the bank: a deposit of a non-positive amount, and a
/// withdrawal of more than the account holds, leave the bank as it was.
pub proof fn law_bank_rejections_change_nothing(
    before: BankView,
    after: BankView,
    r: Result<(), BankError>,
    id: i32,
    amount: i64,
    at: Timestamp,
)
    requires
        ({
            ||| amount <= 0 && committed(before, after, r, before.deposit(id, amount, at))
            ||| (before.has(id as int) ==> amount > before.accounts[id as int].balance)
                && committed(before, after, r, before.withdraw(id, amount, at))
        }),
    ensures
        r is Err,
        after == before,
{
}

/// A transfer from an account to itself always fails and changes no
/// account. Where the account exists, or the amount is not positive, the
/// error is `InvalidAmount`; for a positive amount and an id that names no
/// account it is `AccountNotFound`, since existence is checked first.
pub proof fn law_self_transfer_fails(
    before: BankView,
    after: BankView,
    r: Result<(), BankError>,
    id: i32,
    amount: i64,
    at: Timestamp,
)
    requires
        committed(before, after, r, before.transfer(id, id, amount, at)),
    ensures
        r is Err,
        after == before,
        amount <= 0 || before.has(id as int) ==> r == Err::<(), BankError>(
            BankError::InvalidAmount,
        ),
        amount > 0 && !before.has(id as int) ==> r == Err::<(), BankError>(
            BankError::AccountNotFound,
        ),
{
}

/// The order of a transfer's checks: a bad amount is reported before a
/// missing account, a missing account before a transfer to oneself, and
/// that before a lack of funds.
pub proof fn law_transfer_check_order(
    bank: BankView,
    from: i32,
    to: i32,
    amount: i64,
    at: Timestamp,
)
    ensures
        amount <= 0 ==> bank.transfer(from, to, amount, at) == Err::<BankView, BankError>(
            BankError::InvalidAmount,
        ),
        amount > 0 && !(bank.has(from as int) && bank.has(to as int)) ==> bank.transfer(
            from,
            to,
            amount,
            at,
        ) == Err::<BankView, BankError>(BankError::AccountNotFound),
        bank.transfer(from, to, amount, at) is Ok <==> {
            &&& amount > 0
            &&& bank.has(from as int)
            &&& bank.has(to as int)
            &&& from != to
            &&& amount <= bank.accounts[from as int].balance
        },
{
}

/// Conservation: a transfer that succeeds leaves the sum of the two
/// balances as it was, the source down by the amount and the destination
/// up by it, and touches no other account.
pub proof fn law_transfer_conserves(
    before: BankView,
    after: BankView,
    r: Result<(), BankError>,
    from: i32,
    to: i32,
    amount: i64,
    at: Timestamp,
)
    requires
        r is Ok,
        committed(before, after, r, before.transfer(from, to, amount, at)),
    ensures
        before.accounts[from as int].balance + before.accounts[to as int].balance
            == after.accounts[from as int].balance + after.accounts[to as int].balance,
        after.accounts[from as int].balance == before.accounts[from as int].balance - amount,
        after.accounts[to as int].balance == before.accounts[to as int].balance + amount,
        after.accounts[from as int].history.len() == before.accounts[from as int].history.len()
            + 1,
        after.accounts[to as int].history.len() == before.accounts[to as int].history.len() + 1,
        after.accounts[from as int].history.last().timestamp == after.accounts[to
            as int].history.last().timestamp,
        forall|id: int|
            id != from && id != to ==> after.has(id) == before.has(id) && (before.has(id)
                ==> after.accounts[id] == before.accounts[id]),
        after.accounts.dom() == before.accounts.dom(),
{
    assert(after.accounts.dom() =~= before.accounts.dom());
}

/// A transfer that fails, for whatever reason, leaves every account as it
/// was.
pub proof fn law_failed_transfer_changes_nothing(
    before: BankView,
    after: BankView,
    r: Result<(), BankError>,
    from: i32,
    to: i32,
    amount: i64,
    at: Timestamp,
)
    requires
        r is Err,
        committed(before, after, r, before.transfer(from, to, amount, at)),
    ensures
        after == before,
{
}

/// Asking twice gives the same answer: on one state of the bank, any two
/// answers to a balance query are equal, and any two answers to a history
/// query agree on the outcome and on the records.
pub proof fn law_queries_repeat(
    bank: BankView,
    id: i32,
    b1: Result<i128, BankError>,
    b2: Result<i128, BankError>,
    h1: Result<&Vec<Transaction>, BankError>,
    h2: Result<&Vec<Transaction>, BankError>,
)
    requires
        balance_reply(bank, id, b1),
        balance_reply(bank, id, b2),
        history_reply(bank, id, h1),
        history_reply(bank, id, h2),
    ensures
        b1 == b2,
        h1 is Ok <==> h2 is Ok,
        h1 is Ok ==> h1->Ok_0@ == h2->Ok_0@,
        h1 is Err ==> h1->Err_0 == h2->Err_0,
{
}

/// Ids are never reused: opening an account hands out an id that named no
/// account before, keeps every earlier account as it was, and moves the
/// counter past the new id.
pub proof fn law_ids_are_fresh(bank: BankView, holder: Seq<char>)
    requires
        bank.wf(),
    ensures
        !bank.has(bank.next_account_id),
        bank.create_account(holder).wf(),
        bank.create_account(holder).has(bank.next_account_id),
        bank.create_account(holder).next_account_id > bank.next_account_id,
        forall|id: int|
            bank.has(id) ==> bank.create_account(holder).has(id) && bank.create_account(
                holder,
            ).accounts[id] == bank.accounts[id],
{
    let next = bank.create_account(holder);
    assert forall|id: int| next.has(id) implies (#[trigger] next.accounts[id]).id == id
        && next.accounts[id].wf() by {
        if id != bank.next_account_id {
            assert(bank.has(id));
        }
    }
    assert forall|id: int| next.has(id) <==> 1 <= id < next.next_account_id by {
        assert(bank.has(id) <==> 1 <= id < bank.next_account_id);
    }
}

} // verus!
