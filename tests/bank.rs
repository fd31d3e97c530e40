use ledger::{decimal_string, Bank, BankError, Transaction};

#[test]
fn should_create_an_account_and_gives_its_account_number() {
    let mut bank = Bank::new();
    let account_number_1 = bank.create_account();
    let account_number_2 = bank.create_account();

    assert_eq!(account_number_1, "1".to_string());
    assert_eq!(account_number_2, "2".to_string());
}

#[test]
fn should_deposit_cash_in_given_account() {
    let mut bank = Bank::new();
    bank.create_account();
    let account_number = bank.create_account();
    bank.create_account();

    bank.deposit_cash(&account_number, 1400 as usize).unwrap();
    assert_eq!(bank.check_balance(&account_number), Some(1400 as usize));
}

#[test]
fn should_debit_cash_from_given_account() {
    let mut bank = Bank::new();
    let account_number = bank.create_account();

    bank.deposit_cash(&account_number, 1400 as usize).unwrap();
    bank.withdraw_cash(&account_number, 400 as usize).unwrap();
    assert_eq!(bank.check_balance(&account_number), Some(1000 as usize));
}

#[test]
fn should_give_error_when_account_has_insufficient_balance_for_debit() {
    let mut bank = Bank::new();
    let account_number = bank.create_account();

    bank.deposit_cash(&account_number, 1400 as usize).unwrap();
    assert!(bank.withdraw_cash(&account_number, 2000 as usize).is_err())
}

#[test]
fn should_give_error_when_account_does_not_exists() {
    let mut bank = Bank::new();

    assert_eq!(
        bank.withdraw_cash("0123", 400 as usize).map_err(|e| e.message()),
        Err("Account not found".to_string())
    );
    assert_eq!(
        bank.deposit_cash("0123", 400 as usize).map_err(|e| e.message()),
        Err("Account not found".to_string())
    );
}

#[test]
fn should_given_none_when_account_does_not_exists() {
    let bank = Bank::new();

    assert!(bank.check_balance("0123").is_none())
}

#[test]
fn should_give_account_number_in_increasing_order_starting_from_1() {
    let mut bank = Bank::new();

    for i in 1..10 {
        assert_eq!(bank.generate_account_number(), i.to_string())
    }
}

#[test]
fn should_give_transaction_history_of_an_account() {
    let mut bank = Bank::new();
    let account_number = bank.create_account();

    bank.deposit_cash(&account_number, 1400 as usize).unwrap();
    bank.withdraw_cash(&account_number, 400 as usize).unwrap();

    let transactions = bank.get_transactions(&account_number);
    assert_eq!(
        transactions,
        Some(vec![Transaction::credit_of_amount(1400 as usize), Transaction::debit_of_amount(400 as usize)])
    )
}

#[test]
fn should_give_none_for_transaction_history_when_account_does_not_exists() {
    let bank = Bank::new();

    assert!(bank.get_transactions("12").is_none())
}

#[test]
fn should_give_empty_vector_for_transaction_history_when_account_does_not_have_any_transaction() {
    let mut bank = Bank::new();
    let account_number = bank.create_account();
    assert_eq!(bank.get_transactions(&account_number), Some(vec![]))
}

#[test]
fn deposit_then_balance() {
    let mut bank = Bank::new();
    let n = bank.create_account();
    assert_eq!(n, "1");
    assert_eq!(bank.deposit_cash(&n, 1000), Ok(()));
    assert_eq!(bank.check_balance("1"), Some(1000));
}

#[test]
fn overdraft_is_rejected_and_balance_kept() {
    let mut bank = Bank::new();
    let n = bank.create_account();
    bank.deposit_cash(&n, 1000).unwrap();
    assert_eq!(bank.withdraw_cash(&n, 2000), Err(BankError::InsufficientBalance));
    assert_eq!(bank.check_balance(&n), Some(1000));
    assert_eq!(bank.get_transactions(&n), Some(vec![Transaction::credit_of_amount(1000)]));
}

#[test]
fn accounts_are_isolated() {
    let mut bank = Bank::new();
    assert_eq!(bank.create_account(), "1");
    assert_eq!(bank.create_account(), "2");
    assert_eq!(bank.create_account(), "3");
    bank.deposit_cash("2", 500).unwrap();
    assert_eq!(bank.check_balance("1"), Some(0));
    assert_eq!(bank.check_balance("2"), Some(500));
    assert_eq!(bank.check_balance("3"), Some(0));
}

#[test]
fn new_account_has_empty_history() {
    let mut bank = Bank::new();
    let n = bank.create_account();
    assert_eq!(bank.get_transactions(&n), Some(Vec::new()));
}

#[test]
fn unknown_account_is_absent_or_not_found() {
    let mut bank = Bank::new();
    bank.create_account();
    assert_eq!(bank.check_balance("2"), None);
    assert_eq!(bank.get_transactions("01"), None);
    assert_eq!(bank.get_transactions(""), None);
    assert_eq!(bank.deposit_cash("2", 1), Err(BankError::AccountNotFound));
    assert_eq!(bank.withdraw_cash(" 1", 0), Err(BankError::AccountNotFound));
    assert_eq!(bank.check_balance("1"), Some(0));
}

#[test]
fn account_numbers_are_distinct_and_increasing() {
    let mut bank = Bank::new();
    let mut issued: Vec<String> = Vec::new();
    for i in 1..=25usize {
        let n = bank.create_account();
        assert_eq!(n, i.to_string());
        for earlier in &issued {
            assert_ne!(earlier, &n);
            assert!(earlier.parse::<usize>().unwrap() < n.parse::<usize>().unwrap());
        }
        issued.push(n);
    }
    assert_eq!(bank.check_balance("25"), Some(0));
}

#[test]
fn numbers_skipped_by_generation_are_never_reused() {
    let mut bank = Bank::new();
    assert_eq!(bank.generate_account_number(), "1");
    assert_eq!(bank.create_account(), "2");
    assert_eq!(bank.check_balance("1"), None);
    assert_eq!(bank.check_balance("2"), Some(0));
}

#[test]
fn competing_withdrawals_of_whole_balance() {
    let mut bank = Bank::new();
    let n = bank.create_account();
    bank.deposit_cash(&n, 700).unwrap();
    let mut successes = 0;
    let mut failures = 0;
    for _ in 0..5 {
        match bank.withdraw_cash(&n, 700) {
            Ok(()) => successes += 1,
            Err(BankError::InsufficientBalance) => failures += 1,
            Err(BankError::AccountNotFound) => panic!("account vanished"),
        }
    }
    assert_eq!(successes, 1);
    assert_eq!(failures, 4);
    assert_eq!(bank.check_balance(&n), Some(0));
}

#[test]
fn zero_amounts_are_accepted() {
    let mut bank = Bank::new();
    let n = bank.create_account();
    assert_eq!(bank.deposit_cash(&n, 0), Ok(()));
    assert_eq!(bank.withdraw_cash(&n, 0), Ok(()));
    assert_eq!(bank.get_transactions(&n).unwrap().len(), 2);
}

#[test]
fn large_deposit_up_to_the_limit() {
    let mut bank = Bank::new();
    let n = bank.create_account();
    bank.deposit_cash(&n, usize::MAX - 1).unwrap();
    bank.deposit_cash(&n, 1).unwrap();
    assert_eq!(bank.check_balance(&n), Some(usize::MAX));
}

#[test]
fn error_messages() {
    assert_eq!(BankError::AccountNotFound.message(), "Account not found");
    assert_eq!(BankError::InsufficientBalance.message(), "Insufficient balance");
}

#[test]
fn decimal_string_values() {
    assert_eq!(decimal_string(0), "0");
    assert_eq!(decimal_string(7), "7");
    assert_eq!(decimal_string(10), "10");
    assert_eq!(decimal_string(12345), "12345");
    assert_eq!(decimal_string(usize::MAX), usize::MAX.to_string());
}
