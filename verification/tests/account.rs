use payment_engine::{Account, Amount};

fn dec(mantissa: i128, scale: u32) -> Amount {
    Amount::new(mantissa, scale).unwrap()
}

#[test]
fn test_new_account_has_zero_balances() {
    let account = Account::new(1);
    assert_eq!(account.available(), Amount::zero());
    assert_eq!(account.held(), Amount::zero());
    assert_eq!(account.total(), Amount::zero());
    assert!(!account.is_locked());
}

#[test]
fn test_deposit_increases_available_and_total() {
    let mut account = Account::new(1);
    account.deposit(dec(1005, 1));

    assert_eq!(account.available(), dec(1005, 1));
    assert_eq!(account.total(), dec(1005, 1));
    assert_eq!(account.held(), Amount::zero());
}

#[test]
fn test_withdraw_decreases_available_and_total() {
    let mut account = Account::new(1);
    account.deposit(dec(100, 0));
    account.withdraw(dec(40, 0));

    assert_eq!(account.available(), dec(60, 0));
    assert_eq!(account.total(), dec(60, 0));
}

#[test]
fn test_hold_moves_funds_from_available_to_held() {
    let mut account = Account::new(1);
    account.deposit(dec(100, 0));
    account.hold(dec(30, 0));

    assert_eq!(account.available(), dec(70, 0));
    assert_eq!(account.held(), dec(30, 0));
    assert_eq!(account.total(), dec(100, 0));
}

#[test]
fn test_hold_allows_negative_available() {
    let mut account = Account::new(1);
    account.deposit(dec(50, 0));
    account.hold(dec(100, 0));

    assert_eq!(account.available(), dec(-50, 0));
    assert_eq!(account.held(), dec(100, 0));
    assert_eq!(account.total(), dec(50, 0));
}

#[test]
fn test_release_moves_funds_from_held_to_available() {
    let mut account = Account::new(1);
    account.deposit(dec(100, 0));
    account.hold(dec(30, 0));
    account.release(dec(30, 0));

    assert_eq!(account.available(), dec(100, 0));
    assert_eq!(account.held(), Amount::zero());
    assert_eq!(account.total(), dec(100, 0));
}

#[test]
fn test_chargeback_removes_held_funds_and_locks_account() {
    let mut account = Account::new(1);
    account.deposit(dec(100, 0));
    account.hold(dec(30, 0));
    account.chargeback(dec(30, 0));

    assert_eq!(account.available(), dec(70, 0));
    assert_eq!(account.held(), Amount::zero());
    assert_eq!(account.total(), dec(70, 0));
    assert!(account.is_locked());
}

#[test]
fn test_normalize_trims_trailing_zeros() {
    let mut account = Account::new(1);
    account.deposit(dec(1000000, 4));

    assert_eq!(account.available().to_string(), "100");
}

#[test]
fn client_id_is_kept() {
    assert_eq!(Account::new(65535).client_id(), 65535);
    assert_eq!(Account::new(0).client_id(), 0);
}

#[test]
fn invariant_check_passes_after_each_change() {
    let mut account = Account::new(7);
    assert!(account.check_invariant());
    account.deposit(dec(12345, 4));
    assert!(account.check_invariant());
    account.withdraw(dec(2345, 4));
    assert!(account.check_invariant());
    account.hold(dec(5, 1));
    assert!(account.check_invariant());
    account.release(dec(5, 1));
    assert!(account.check_invariant());
    account.hold(dec(3, 0));
    assert!(account.check_invariant());
    account.chargeback(dec(3, 0));
    assert!(account.check_invariant());
    assert_eq!(account.available(), dec(-2, 0));
    assert_eq!(account.held(), Amount::zero());
    assert_eq!(account.total(), dec(-2, 0));
}

#[test]
fn hold_then_release_restores_the_account_digit_for_digit() {
    let mut account = Account::new(3);
    account.deposit(dec(10001, 4));
    let before = account;
    account.hold(dec(9999, 4));
    assert_eq!(account.available(), dec(2, 4));
    assert_eq!(account.held(), dec(9999, 4));
    account.release(dec(9999, 4));
    assert_eq!(account, before);
}

#[test]
fn chargeback_on_a_locked_account_is_still_applied() {
    let mut account = Account::new(1);
    account.deposit(dec(100, 0));
    account.hold(dec(30, 0));
    account.hold(dec(20, 0));
    account.chargeback(dec(30, 0));
    assert!(account.is_locked());
    account.chargeback(dec(20, 0));
    assert!(account.is_locked());
    assert_eq!(account.available(), dec(50, 0));
    assert_eq!(account.held(), Amount::zero());
    assert_eq!(account.total(), dec(50, 0));
}

#[test]
fn range_checks_tell_what_the_ledger_can_hold() {
    let limit: i128 = 1 << 96;
    let mut account = Account::new(1);
    let most = dec(limit - 1, 4);
    assert!(account.can_deposit(&most));
    account.deposit(most);
    assert!(!account.can_deposit(&dec(1, 4)));
    assert!(account.can_withdraw(&dec(1, 4)));
    assert!(account.can_hold(&most));
    assert!(!account.can_release(&dec(1, 4)));
    assert!(account.can_release(&Amount::zero()));
    assert!(account.can_chargeback(&dec(1, 4)));
    // one whole unit is ten thousand ten-thousandths: too much at scale 0
    assert!(!Account::new(2).can_deposit(&dec(limit - 1, 0)));
    assert!(Account::new(2).can_deposit(&dec((limit - 1) / 10000, 0)));
    assert!(!Account::new(2).can_deposit(&dec((limit - 1) / 10000 + 1, 0)));
}
