//! Account-level behaviour: the five effects, the overdraft edge, the lock,
//! and the balance invariant on concrete values. Amounts are in
//! ten-thousandths of the currency unit (100.0 is written 1_000_000).

use tx_ledger::account::Account;

fn balanced(a: &Account) -> bool {
    a.total == a.available + a.held
}

#[test]
fn account_can_deposit() {
    let mut account = Account { available: 0, client: 1, held: 0, locked: false, total: 0 };
    account.deposit(1_000_000);

    assert_eq!(account.available, 1_000_000);
    assert_eq!(account.total, 1_000_000)
}

#[test]
fn account_cannot_overdraft() {
    let mut account = Account { available: 100_000, client: 1, held: 0, locked: false, total: 100_000 };
    account.withdraw(90_000);

    // 1 left
    assert_eq!(account.available, 10_000);
    assert_eq!(account.total, 10_000);

    // try to take out 2.0
    account.withdraw(20_000);

    // unchanged
    assert_eq!(account.available, 10_000);
    assert_eq!(account.total, 10_000);

    account.dispute(5_000);

    // 0.5 available
    assert_eq!(account.held, 5_000);
    assert_eq!(account.available, 5_000);
    assert_eq!(account.total, 10_000);

    // try to take out 1.0
    account.withdraw(10_000);

    // unchanged
    assert_eq!(account.held, 5_000);
    assert_eq!(account.available, 5_000);
    assert_eq!(account.total, 10_000);
}

#[test]
fn disputes_work() {
    let mut account = Account { available: 100_000, client: 1, held: 0, locked: false, total: 100_000 };
    // let's pretend the tx had 5 in the amount
    account.dispute(50_000);
    // dispute locks 5 and reduces available
    assert_eq!(account.held, 50_000);
    assert_eq!(account.available, 50_000);
    // dispute locks another 3 and reduces available
    account.dispute(30_000);

    assert_eq!(account.held, 80_000);
    assert_eq!(account.available, 20_000);
    // resolve releases 3 from hold and increases available
    account.resolve(50_000);
    assert_eq!(account.held, 30_000);
    assert_eq!(account.available, 70_000);
    // chargeback removes 2 from total and reduces held. locks account.
    account.chargeback(20_000);
    assert_eq!(account.locked, true);
    assert_eq!(account.total, 80_000);
    // user tries to deposit on locked account
    account.deposit(10_000);
    // locked account prevents deposit
    assert_eq!(account.total, 80_000);
    // user tries to withdraw on locked account
    account.withdraw(10_000);
    // locked account prevents withdraw
    assert_eq!(account.total, 80_000);
}

#[test]
fn dispute_resolve_chargeback_scenario() {
    // {available: 10, held: 0, total: 10, locked: false}
    let mut account = Account { available: 100_000, client: 7, held: 0, locked: false, total: 100_000 };

    account.dispute(50_000);
    assert_eq!(account.held, 50_000);
    assert_eq!(account.available, 50_000);
    assert_eq!(account.total, 100_000);
    assert!(balanced(&account));

    account.dispute(30_000);
    assert_eq!(account.held, 80_000);
    assert_eq!(account.available, 20_000);
    assert_eq!(account.total, 100_000);
    assert!(balanced(&account));

    account.resolve(50_000);
    assert_eq!(account.held, 30_000);
    assert_eq!(account.available, 70_000);
    assert_eq!(account.total, 100_000);
    assert!(balanced(&account));

    account.chargeback(20_000);
    assert_eq!(account.held, 10_000);
    assert_eq!(account.total, 80_000);
    assert_eq!(account.available, 70_000);
    assert!(account.locked);
    assert!(balanced(&account));

    // both are no-ops on the locked account: the state stays exactly as the
    // chargeback left it
    account.deposit(10_000);
    account.withdraw(10_000);
    assert_eq!(account.held, 10_000);
    assert_eq!(account.total, 80_000);
    assert_eq!(account.available, 70_000);
    assert!(account.locked);
}

#[test]
fn withdraw_exactly_available_is_rejected() {
    let mut account = Account { available: 100_000, client: 1, held: 0, locked: false, total: 100_000 };
    // the guard is strict: taking out the full available balance is an
    // overdraft
    account.withdraw(100_000);
    assert_eq!(account.available, 100_000);
    assert_eq!(account.total, 100_000);
    assert_eq!(account.held, 0);
    assert!(!account.locked);

    // one ten-thousandth less goes through
    account.withdraw(99_999);
    assert_eq!(account.available, 1);
    assert_eq!(account.total, 1);
}

#[test]
fn deposit_then_withdraw_returns_to_start() {
    let mut account = Account { available: 25_000, client: 3, held: 5_000, locked: false, total: 30_000 };
    account.deposit(40_000);
    assert_eq!(account.available, 65_000);
    assert_eq!(account.total, 70_000);
    account.withdraw(40_000);
    assert_eq!(account.available, 25_000);
    assert_eq!(account.total, 30_000);
    assert_eq!(account.held, 5_000);
}

#[test]
fn resolve_with_nothing_held_is_a_no_op() {
    let mut account = Account { available: 100_000, client: 1, held: 0, locked: false, total: 100_000 };
    account.resolve(50_000);
    assert_eq!(account.available, 100_000);
    assert_eq!(account.held, 0);
    assert_eq!(account.total, 100_000);
}

#[test]
fn chargeback_with_nothing_held_is_a_no_op() {
    let mut account = Account { available: 100_000, client: 1, held: 0, locked: false, total: 100_000 };
    account.chargeback(50_000);
    assert_eq!(account.available, 100_000);
    assert_eq!(account.held, 0);
    assert_eq!(account.total, 100_000);
    assert!(!account.locked);
}

#[test]
fn dispute_is_not_gated_by_lock() {
    let mut account = Account { available: 70_000, client: 1, held: 10_000, locked: true, total: 80_000 };
    account.dispute(20_000);
    assert_eq!(account.held, 30_000);
    assert_eq!(account.available, 50_000);
    assert_eq!(account.total, 80_000);
    assert!(account.locked);
}

#[test]
fn fresh_account_is_all_zero_and_unlocked() {
    let account = Account::new(42);
    assert_eq!(account.client, 42);
    assert_eq!(account.available, 0);
    assert_eq!(account.held, 0);
    assert_eq!(account.total, 0);
    assert!(!account.locked);
}
