use bank_ledger::{Account, Bank, BankError, Timestamp, Transaction, TransactionType};

fn at(secs: i64) -> Timestamp {
    Timestamp { secs, nanos: 0 }
}

fn signed_sum(history: &[Transaction]) -> i128 {
    let mut sum: i128 = 0;
    for t in history {
        match t.transaction_type {
            TransactionType::Deposit | TransactionType::TransferIn { .. } => sum += t.amount as i128,
            TransactionType::Withdrawal | TransactionType::TransferOut { .. } => {
                sum -= t.amount as i128
            }
        }
    }
    sum
}

fn three_accounts() -> Bank {
    let mut bank = Bank::new(String::from("Rustacean Bank"));
    bank.create_account(String::from("Ada"));
    bank.create_account(String::from("Grace"));
    bank.create_account(String::from("Edsger"));
    bank
}

#[test]
fn balance_is_the_sum_of_the_history() {
    let mut bank = three_accounts();
    assert_eq!(bank.deposit_at(1, 1_000_00, at(10)), Ok(()));
    assert_eq!(bank.deposit_at(2, 250_50, at(11)), Ok(()));
    assert_eq!(bank.withdraw_at(1, 99_99, at(12)), Ok(()));
    assert_eq!(bank.transfer_at(1, 3, 400_00, at(13)), Ok(()));
    assert_eq!(bank.transfer_at(3, 2, 150_25, at(14)), Ok(()));
    assert_eq!(bank.withdraw_at(2, 9_999_99, at(15)), Err(BankError::InsufficientFunds));
    assert_eq!(bank.transfer_at(2, 1, 0, at(16)), Err(BankError::InvalidAmount));
    assert_eq!(bank.balance_of(1), Ok(500_01));
    assert_eq!(bank.balance_of(2), Ok(400_75));
    assert_eq!(bank.balance_of(3), Ok(249_75));
    for id in 1..=3 {
        let history = bank.history_of(id).unwrap();
        assert_eq!(bank.balance_of(id), Ok(signed_sum(history)));
        for k in 0..history.len() {
            assert_eq!(history[k].balance_after, signed_sum(&history[..=k]));
            assert!(history[k].amount > 0);
        }
    }
}

#[test]
fn deposit_of_nothing_or_less_changes_nothing() {
    let mut account = Account::new(7, String::from("Ada"));
    assert_eq!(account.deposit_at(40_00, at(1)), Ok(()));
    for amount in [0, -1, -40_00, i64::MIN] {
        assert_eq!(account.deposit(amount), Err(BankError::InvalidAmount));
        assert_eq!(account.deposit_at(amount, at(2)), Err(BankError::InvalidAmount));
        assert_eq!(account.get_balance(), 40_00);
        assert_eq!(account.history().len(), 1);
    }
    let mut bank = three_accounts();
    assert_eq!(bank.deposit(2, 0), Err(BankError::InvalidAmount));
    assert_eq!(bank.deposit(2, -3), Err(BankError::InvalidAmount));
    assert_eq!(bank.balance_of(2), Ok(0));
    assert_eq!(bank.history_of(2).unwrap().len(), 0);
}

#[test]
fn withdrawal_beyond_the_balance_changes_nothing() {
    let mut account = Account::new(7, String::from("Ada"));
    assert_eq!(account.withdraw(1), Err(BankError::InsufficientFunds));
    assert_eq!(account.get_balance(), 0);
    assert_eq!(account.history().len(), 0);
    assert_eq!(account.deposit(40_00), Ok(()));
    for amount in [40_01, 1_000_00, i64::MAX] {
        assert_eq!(account.withdraw(amount), Err(BankError::InsufficientFunds));
        assert_eq!(account.withdraw_at(amount, at(3)), Err(BankError::InsufficientFunds));
        assert_eq!(account.get_balance(), 40_00);
        assert_eq!(account.history().len(), 1);
    }
    assert_eq!(account.withdraw(0), Err(BankError::InvalidAmount));
    assert_eq!(account.withdraw(-5), Err(BankError::InvalidAmount));
    assert_eq!(account.get_balance(), 40_00);
    assert_eq!(account.history().len(), 1);
}

#[test]
fn withdrawal_of_the_whole_balance_leaves_zero() {
    let mut account = Account::new(1, String::from("Ada"));
    assert_eq!(account.deposit_at(40_00, at(1)), Ok(()));
    assert_eq!(account.withdraw_at(40_00, at(2)), Ok(()));
    assert_eq!(account.get_balance(), 0);
    let last = account.history()[1];
    assert_eq!(
        last,
        Transaction {
            amount: 40_00,
            transaction_type: TransactionType::Withdrawal,
            timestamp: at(2),
            balance_after: 0,
        }
    );
}

#[test]
fn transfer_to_oneself_is_refused() {
    let mut bank = three_accounts();
    assert_eq!(bank.deposit(1, 100_00), Ok(()));
    assert_eq!(bank.transfer(1, 1, 10_00), Err(BankError::InvalidAmount));
    assert_eq!(bank.transfer(1, 1, 1_000_00), Err(BankError::InvalidAmount));
    assert_eq!(bank.transfer(1, 1, 0), Err(BankError::InvalidAmount));
    assert_eq!(bank.transfer(2, 2, 1), Err(BankError::InvalidAmount));
    assert_eq!(bank.balance_of(1), Ok(100_00));
    assert_eq!(bank.history_of(1).unwrap().len(), 1);
    assert_eq!(bank.history_of(2).unwrap().len(), 0);
    // Existence is checked before the two ends are compared.
    assert_eq!(bank.transfer(42, 42, 10_00), Err(BankError::AccountNotFound));
    assert_eq!(bank.transfer(42, 42, -1), Err(BankError::InvalidAmount));
}

#[test]
fn transfer_conserves_the_sum_of_the_two_balances() {
    let mut bank = three_accounts();
    assert_eq!(bank.deposit(1, 700_00), Ok(()));
    assert_eq!(bank.deposit(2, 1_25), Ok(()));
    assert_eq!(bank.deposit(3, 33_33), Ok(()));
    for (from, to, amount) in [(1, 2, 1_00), (2, 1, 2_25), (1, 3, 600_00), (3, 2, 633_33)] {
        let before = bank.balance_of(from).unwrap() + bank.balance_of(to).unwrap();
        let source = bank.balance_of(from).unwrap();
        assert_eq!(bank.transfer(from, to, amount), Ok(()));
        let after = bank.balance_of(from).unwrap() + bank.balance_of(to).unwrap();
        assert_eq!(before, after);
        assert_eq!(bank.balance_of(from), Ok(source - amount as i128));
    }
    assert_eq!(bank.balance_of(1), Ok(101_25));
    assert_eq!(bank.balance_of(2), Ok(633_33));
    assert_eq!(bank.balance_of(3), Ok(0));
}

#[test]
fn transfer_checks_come_in_order() {
    let mut bank = three_accounts();
    assert_eq!(bank.deposit(1, 10_00), Ok(()));
    // A bad amount is reported before a missing account.
    assert_eq!(bank.transfer(1, 99, 0), Err(BankError::InvalidAmount));
    assert_eq!(bank.transfer(98, 99, -7), Err(BankError::InvalidAmount));
    // A missing account before the funds.
    assert_eq!(bank.transfer(1, 99, 5_000_00), Err(BankError::AccountNotFound));
    assert_eq!(bank.transfer(99, 1, 1), Err(BankError::AccountNotFound));
    assert_eq!(bank.transfer(0, 1, 1), Err(BankError::AccountNotFound));
    assert_eq!(bank.transfer(-1, 1, 1), Err(BankError::AccountNotFound));
    assert_eq!(bank.transfer(1, 4, 1), Err(BankError::AccountNotFound));
    // The funds last.
    assert_eq!(bank.transfer(1, 2, 10_01), Err(BankError::InsufficientFunds));
    assert_eq!(bank.transfer(2, 1, 1), Err(BankError::InsufficientFunds));
    assert_eq!(bank.balance_of(1), Ok(10_00));
    assert_eq!(bank.balance_of(2), Ok(0));
    assert_eq!(bank.history_of(1).unwrap().len(), 1);
    assert_eq!(bank.history_of(2).unwrap().len(), 0);
    // The whole balance can go.
    assert_eq!(bank.transfer(1, 2, 10_00), Ok(()));
    assert_eq!(bank.balance_of(1), Ok(0));
    assert_eq!(bank.balance_of(2), Ok(10_00));
}

#[test]
fn queries_repeat_their_answers() {
    let mut bank = three_accounts();
    assert_eq!(bank.deposit(1, 12_34), Ok(()));
    assert_eq!(bank.transfer(1, 2, 2_34), Ok(()));
    for id in [1, 2, 3, 4, 0, -5] {
        assert_eq!(bank.balance_of(id), bank.balance_of(id));
        assert_eq!(bank.history_of(id), bank.history_of(id));
        assert_eq!(bank.history_of(id).is_ok(), bank.balance_of(id).is_ok());
    }
    assert_eq!(bank.balance_of(1), Ok(10_00));
    assert_eq!(bank.balance_of(1), Ok(10_00));
    assert_eq!(bank.balance_of(4), Err(BankError::AccountNotFound));
    assert_eq!(bank.history_of(4), Err(BankError::AccountNotFound));
    assert_eq!(bank.history_of(0), Err(BankError::AccountNotFound));
}

#[test]
fn unknown_account_is_reported() {
    let mut bank = three_accounts();
    assert_eq!(bank.deposit(4, 1_00), Err(BankError::AccountNotFound));
    assert_eq!(bank.deposit(0, 1_00), Err(BankError::AccountNotFound));
    assert_eq!(bank.deposit(4, -1), Err(BankError::AccountNotFound));
    assert_eq!(bank.withdraw(4, 1_00), Err(BankError::AccountNotFound));
    assert_eq!(bank.withdraw(-1, 1_00), Err(BankError::AccountNotFound));
    assert_eq!(bank.withdraw(i32::MIN, 1_00), Err(BankError::AccountNotFound));
    assert_eq!(bank.withdraw(i32::MAX, 1_00), Err(BankError::AccountNotFound));
    assert!(bank.account(4).is_err());
    assert_eq!(bank.account(4).err(), Some(BankError::AccountNotFound));
    assert_eq!(bank.account(3).unwrap().id(), 3);
}

#[test]
fn new_account_is_empty() {
    let account = Account::new(5, String::from("Barbara"));
    assert_eq!(account.id(), 5);
    assert_eq!(account.account_holder().as_str(), "Barbara");
    assert_eq!(account.get_balance(), 0);
    assert!(account.history().is_empty());
    let bank = Bank::new(String::from("Rustacean Bank"));
    assert_eq!(bank.next_account_id(), 1);
    assert_eq!(bank.balance_of(1), Err(BankError::AccountNotFound));
}

#[test]
fn deposit_records_the_balance_it_leaves() {
    let mut account = Account::new(1, String::from("Ada"));
    assert_eq!(account.deposit_at(1_50, at(100)), Ok(()));
    assert_eq!(account.deposit_at(i64::MAX, at(101)), Ok(()));
    assert_eq!(account.deposit_at(i64::MAX, at(102)), Ok(()));
    assert_eq!(account.get_balance(), 2 * (i64::MAX as i128) + 1_50);
    assert_eq!(
        account.history()[0],
        Transaction {
            amount: 1_50,
            transaction_type: TransactionType::Deposit,
            timestamp: at(100),
            balance_after: 1_50,
        }
    );
    assert_eq!(account.history()[2].balance_after, 2 * (i64::MAX as i128) + 1_50);
}

#[test]
fn records_committed_now_carry_the_clock() {
    let t = Transaction::new(5_00, TransactionType::Deposit, 5_00);
    assert_eq!(t.amount, 5_00);
    assert_eq!(t.transaction_type, TransactionType::Deposit);
    assert_eq!(t.balance_after, 5_00);
    // Later than 2020-09-13, and with a whole number of nanoseconds.
    assert!(t.timestamp.secs > 1_600_000_000);
    assert!(t.timestamp.nanos < 2_000_000_000);
    let mut account = Account::new(1, String::from("Ada"));
    assert_eq!(account.deposit(5_00), Ok(()));
    assert!(account.history()[0].timestamp.secs >= t.timestamp.secs);
}
