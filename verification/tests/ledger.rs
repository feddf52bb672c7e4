use ledger::bank::Bank;
use ledger::transaction::{Transaction, TransactionType};

#[test]
fn new_ledger_is_empty() {
    let bank = Bank::new();
    assert_eq!(bank.users.len(), 0);
    assert_eq!(bank.accounts.len(), 0);
    assert_eq!(bank.transactions.len(), 0);
    assert_eq!(bank.next_user_id, 1);
    assert_eq!(bank.next_account_id, 1);
    assert_eq!(bank.next_transaction_id, 1);
}

#[test]
fn ids_increase_from_one_and_are_never_reused() {
    let mut bank = Bank::new();
    let u1 = bank.add_user("Alice".to_string());
    let u2 = bank.add_user("Bob".to_string());
    let u3 = bank.add_user(String::new());
    assert_eq!((u1, u2, u3), (1, 2, 3));
    let a1 = bank.add_account(u1);
    let a2 = bank.add_account(u2);
    let a3 = bank.add_account(u1);
    assert_eq!((a1, a2, a3), (1, 2, 3));
    bank.deposit(a1, 5);
    bank.deposit(a2, 5);
    assert!(bank.withdraw(a1, 5));
    let txn_ids: Vec<u32> = bank.transactions.iter().map(|t| t.id).collect();
    assert_eq!(txn_ids, vec![1, 2, 3]);
    assert_eq!(bank.next_user_id, 4);
    assert_eq!(bank.next_account_id, 4);
    assert_eq!(bank.next_transaction_id, 4);
}

#[test]
fn deposit_increases_balance_and_logs_one_entry() {
    let mut bank = Bank::new();
    let u = bank.add_user("Alice".to_string());
    let a = bank.add_account(u);
    bank.deposit(a, 125);
    assert_eq!(bank.balance(a), Some(125));
    assert_eq!(bank.transactions.len(), 1);
    assert_eq!(
        bank.transactions[0],
        Transaction { id: 1, account_id: a, transaction_type: TransactionType::Deposit, amount: 125 }
    );
    bank.deposit(a, 75);
    assert_eq!(bank.balance(a), Some(200));
    assert_eq!(bank.transactions.len(), 2);
    assert_eq!(bank.transactions[1].amount, 75);
}

#[test]
fn deposit_to_unknown_account_is_a_silent_noop() {
    let mut bank = Bank::new();
    let u = bank.add_user("Alice".to_string());
    let a = bank.add_account(u);
    bank.deposit(99, 40);
    assert_eq!(bank.balance(a), Some(0));
    assert_eq!(bank.balance(99), None);
    assert_eq!(bank.transactions.len(), 0);
    assert_eq!(bank.next_transaction_id, 1);
}

#[test]
fn negative_deposit_is_applied_as_given() {
    let mut bank = Bank::new();
    let u = bank.add_user("Alice".to_string());
    let a = bank.add_account(u);
    bank.deposit(a, -25);
    assert_eq!(bank.balance(a), Some(-25));
    assert_eq!(bank.transactions.len(), 1);
    assert_eq!(bank.transactions[0].amount, -25);
}

#[test]
fn withdraw_succeeds_when_balance_suffices() {
    let mut bank = Bank::new();
    let u = bank.add_user("Alice".to_string());
    let a = bank.add_account(u);
    bank.deposit(a, 100);
    assert!(bank.withdraw(a, 30));
    assert_eq!(bank.balance(a), Some(70));
    assert_eq!(bank.transactions.len(), 2);
    assert_eq!(
        bank.transactions[1],
        Transaction {
            id: 2,
            account_id: a,
            transaction_type: TransactionType::Withdrawal,
            amount: 30,
        }
    );
    // the whole balance may be taken
    assert!(bank.withdraw(a, 70));
    assert_eq!(bank.balance(a), Some(0));
}

#[test]
fn withdraw_fails_on_insufficient_balance() {
    let mut bank = Bank::new();
    let u = bank.add_user("Alice".to_string());
    let a = bank.add_account(u);
    bank.deposit(a, 10);
    assert!(!bank.withdraw(a, 11));
    assert_eq!(bank.balance(a), Some(10));
    assert_eq!(bank.transactions.len(), 1);
}

#[test]
fn withdraw_fails_on_unknown_account() {
    let mut bank = Bank::new();
    let u = bank.add_user("Alice".to_string());
    let a = bank.add_account(u);
    bank.deposit(a, 10);
    assert!(!bank.withdraw(7, 1));
    assert_eq!(bank.balance(a), Some(10));
    assert_eq!(bank.transactions.len(), 1);
}

#[test]
fn negative_withdrawal_passes_the_check_and_raises_the_balance() {
    let mut bank = Bank::new();
    let u = bank.add_user("Alice".to_string());
    let a = bank.add_account(u);
    bank.deposit(a, 10);
    assert!(bank.withdraw(a, -5));
    assert_eq!(bank.balance(a), Some(15));
    assert_eq!(bank.transactions.len(), 2);
    assert_eq!(
        bank.transactions[1].transaction_type,
        TransactionType::Withdrawal
    );
    assert_eq!(bank.transactions[1].amount, -5);
}

#[test]
fn transfer_moves_funds_and_logs_three_entries() {
    let mut bank = Bank::new();
    let u1 = bank.add_user("Alice".to_string());
    let u2 = bank.add_user("Bob".to_string());
    let a1 = bank.add_account(u1);
    let a2 = bank.add_account(u2);
    bank.deposit(a1, 100);
    assert!(bank.transfer(a1, a2, 60));
    assert_eq!(bank.balance(a1), Some(40));
    assert_eq!(bank.balance(a2), Some(60));
    assert_eq!(bank.transactions.len(), 4);
    assert_eq!(
        bank.transactions[1],
        Transaction {
            id: 2,
            account_id: a1,
            transaction_type: TransactionType::Withdrawal,
            amount: 60,
        }
    );
    assert_eq!(
        bank.transactions[2],
        Transaction { id: 3, account_id: a2, transaction_type: TransactionType::Deposit, amount: 60 }
    );
    assert_eq!(
        bank.transactions[3],
        Transaction {
            id: 4,
            account_id: a1,
            transaction_type: TransactionType::Transfer { to_account_id: a2 },
            amount: 60,
        }
    );
}

#[test]
fn transfer_with_insufficient_funds_changes_nothing() {
    let mut bank = Bank::new();
    let u1 = bank.add_user("Alice".to_string());
    let u2 = bank.add_user("Bob".to_string());
    let a1 = bank.add_account(u1);
    let a2 = bank.add_account(u2);
    bank.deposit(a1, 10);
    assert!(!bank.transfer(a1, a2, 11));
    assert_eq!(bank.balance(a1), Some(10));
    assert_eq!(bank.balance(a2), Some(0));
    assert_eq!(bank.transactions.len(), 1);
    assert_eq!(bank.next_transaction_id, 2);
}

#[test]
fn transfer_to_unknown_destination_loses_the_funds() {
    let mut bank = Bank::new();
    let u = bank.add_user("Alice".to_string());
    let a = bank.add_account(u);
    bank.deposit(a, 100);
    // succeeds: only the withdrawal decides; the deposit is a silent no-op
    assert!(bank.transfer(a, 42, 30));
    assert_eq!(bank.balance(a), Some(70));
    assert_eq!(bank.balance(42), None);
    // only the withdrawal and the transfer are logged, no deposit entry
    assert_eq!(bank.transactions.len(), 3);
    assert_eq!(
        bank.transactions[1].transaction_type,
        TransactionType::Withdrawal
    );
    assert_eq!(
        bank.transactions[2].transaction_type,
        TransactionType::Transfer { to_account_id: 42 }
    );
}

#[test]
fn transfer_to_the_same_account_leaves_the_balance() {
    let mut bank = Bank::new();
    let u = bank.add_user("Alice".to_string());
    let a = bank.add_account(u);
    bank.deposit(a, 50);
    assert!(bank.transfer(a, a, 20));
    assert_eq!(bank.balance(a), Some(50));
    assert_eq!(bank.transactions.len(), 4);
}

#[test]
fn alice_and_bob_scenario() {
    let mut bank = Bank::new();
    let alice = bank.add_user("Alice".to_string());
    let a1 = bank.add_account(alice);
    assert_eq!(bank.balance(a1), Some(0));
    bank.deposit(a1, 100);
    assert_eq!(bank.balance(a1), Some(100));
    assert_eq!(bank.transactions.len(), 1);
    assert!(bank.withdraw(a1, 30));
    assert_eq!(bank.balance(a1), Some(70));
    assert_eq!(bank.transactions.len(), 2);
    assert!(!bank.withdraw(a1, 1000));
    assert_eq!(bank.balance(a1), Some(70));
    assert_eq!(bank.transactions.len(), 2);
    let bob = bank.add_user("Bob".to_string());
    let a2 = bank.add_account(bob);
    assert_eq!(bank.balance(a2), Some(0));
    assert!(bank.transfer(a1, a2, 50));
    assert_eq!(bank.balance(a1), Some(20));
    assert_eq!(bank.balance(a2), Some(50));
    assert_eq!(bank.transactions.len(), 5);
}

#[test]
fn get_user_accounts_returns_exactly_the_owned_accounts() {
    let mut bank = Bank::new();
    let u1 = bank.add_user("Alice".to_string());
    let u2 = bank.add_user("Bob".to_string());
    let a1 = bank.add_account(u1);
    let a2 = bank.add_account(u2);
    let a3 = bank.add_account(u1);
    bank.deposit(a3, 9);
    let alice_accounts = bank.get_user_accounts(u1);
    let ids: Vec<u32> = alice_accounts.iter().map(|acc| acc.id).collect();
    assert_eq!(ids, vec![a1, a3]);
    assert!(alice_accounts.iter().all(|acc| acc.user_id == u1));
    assert_eq!(alice_accounts[1].balance, 9);
    let bob_accounts = bank.get_user_accounts(u2);
    assert_eq!(bob_accounts.len(), 1);
    assert_eq!(bob_accounts[0].id, a2);
    // an id with no accounts, created or not, yields an empty collection
    assert!(bank.get_user_accounts(77).is_empty());
}
