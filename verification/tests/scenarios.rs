use bank_ledger::{Bank, BankError, Timestamp, TransactionType};

fn noon() -> Timestamp {
    Timestamp { secs: 1_700_000_000, nanos: 0 }
}

#[test]
fn first_account_gets_id_one() {
    let mut bank = Bank::new(String::from("Rustacean Bank"));
    assert_eq!(bank.next_account_id(), 1);
    assert_eq!(bank.create_account(String::from("Ada")), 1);
    assert_eq!(bank.create_account(String::from("Grace")), 2);
    assert_eq!(bank.next_account_id(), 3);
    assert_eq!(bank.name().as_str(), "Rustacean Bank");
    assert_eq!(bank.account(2).unwrap().account_holder().as_str(), "Grace");
    assert_eq!(bank.account(2).unwrap().id(), 2);
}

#[test]
fn deposit_then_overdraw() {
    let mut bank = Bank::new(String::from("Rustacean Bank"));
    let id = bank.create_account(String::from("Ada"));
    assert_eq!(id, 1);
    assert_eq!(bank.deposit(1, 100_00), Ok(()));
    assert_eq!(bank.balance_of(1), Ok(100_00));
    assert_eq!(bank.history_of(1).unwrap().len(), 1);
    assert_eq!(bank.withdraw(1, 150_00), Err(BankError::InsufficientFunds));
    assert_eq!(bank.balance_of(1), Ok(100_00));
    assert_eq!(bank.history_of(1).unwrap().len(), 1);
}

#[test]
fn transfer_between_two_accounts() {
    let mut bank = Bank::new(String::from("Rustacean Bank"));
    assert_eq!(bank.create_account(String::from("Ada")), 1);
    assert_eq!(bank.create_account(String::from("Grace")), 2);
    assert_eq!(bank.deposit(1, 500_00), Ok(()));
    assert_eq!(bank.transfer(1, 2, 200_00), Ok(()));
    assert_eq!(bank.balance_of(1), Ok(300_00));
    assert_eq!(bank.balance_of(2), Ok(200_00));

    let out = *bank.history_of(1).unwrap().last().unwrap();
    assert_eq!(out.transaction_type, TransactionType::TransferOut { to_account_id: 2 });
    assert_eq!(out.amount, 200_00);
    assert_eq!(out.balance_after, 300_00);

    let into = *bank.history_of(2).unwrap().last().unwrap();
    assert_eq!(into.transaction_type, TransactionType::TransferIn { from_account_id: 1 });
    assert_eq!(into.amount, 200_00);
    assert_eq!(into.balance_after, 200_00);

    assert_eq!(out.timestamp, into.timestamp);
}

#[test]
fn transfer_to_missing_account() {
    let mut bank = Bank::new(String::from("Rustacean Bank"));
    assert_eq!(bank.create_account(String::from("Ada")), 1);
    assert_eq!(bank.deposit(1, 50_00), Ok(()));
    assert_eq!(bank.transfer(1, 99, 10_00), Err(BankError::AccountNotFound));
    assert_eq!(bank.balance_of(1), Ok(50_00));
    assert_eq!(bank.history_of(1).unwrap().len(), 1);
}

#[test]
fn transfer_carries_the_given_time() {
    let mut bank = Bank::new(String::from("Rustacean Bank"));
    bank.create_account(String::from("Ada"));
    bank.create_account(String::from("Grace"));
    assert_eq!(bank.deposit_at(1, 10_00, noon()), Ok(()));
    assert_eq!(bank.transfer_at(1, 2, 4_00, noon()), Ok(()));
    assert_eq!(bank.history_of(1).unwrap()[1].timestamp, noon());
    assert_eq!(bank.history_of(2).unwrap()[0].timestamp, noon());
}
