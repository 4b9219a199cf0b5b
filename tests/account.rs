use ledger::account::Acct;
use ledger::amount::UNITS_PER_WHOLE;
use ledger::rejection::RejectionReason;

const UNIT: i64 = UNITS_PER_WHOLE;
const HALF: i64 = UNITS_PER_WHOLE / 2;

#[test]
fn deposit() {
    let mut acct = Acct::default();

    assert!(acct.deposit(UNIT).is_ok());
    assert!(acct.deposit(0).is_err());
    assert!(acct.deposit(-UNIT).is_err());

    assert_eq!(Acct { available: UNIT, held: 0, total: UNIT, locked: false }, acct);
}

#[test]
fn withdrawal() {
    let mut acct = Acct::default();
    _ = acct.deposit(UNIT);

    assert!(acct.withdrawal(HALF).is_ok());
    assert!(acct.withdrawal(UNIT).is_err());
    assert!(acct.withdrawal(0).is_err());
    assert!(acct.withdrawal(-UNIT).is_err());

    assert_eq!(Acct { available: HALF, held: 0, total: HALF, locked: false }, acct);
}

#[test]
fn account_dispute_deposit() {
    let mut acct = Acct::default();
    _ = acct.deposit(UNIT);

    acct.dispute(UNIT);
    assert_eq!(Acct { available: 0, held: UNIT, total: UNIT, locked: false }, acct);

    acct.resolve(UNIT);
    assert_eq!(Acct { available: UNIT, held: 0, total: UNIT, locked: false }, acct);

    acct.dispute(UNIT);
    acct.chargeback(UNIT);
    assert_eq!(Acct { available: 0, held: 0, total: 0, locked: true }, acct);
}

#[test]
fn account_dispute_withdraw() {
    let mut acct = Acct::default();
    _ = acct.deposit(UNIT);
    _ = acct.withdrawal(HALF);

    acct.dispute(-HALF);
    assert_eq!(Acct { available: UNIT, held: -HALF, total: HALF, locked: false }, acct);

    acct.resolve(-HALF);
    assert_eq!(Acct { available: HALF, held: 0, total: HALF, locked: false }, acct);

    acct.dispute(-HALF);
    acct.chargeback(-HALF);
    assert_eq!(Acct { available: UNIT, held: 0, total: UNIT, locked: true }, acct);
}

#[test]
fn deposit_errors_name_their_reason() {
    let mut acct = Acct::default();
    assert_eq!(acct.deposit(0), Err(RejectionReason::InvalidAmount));
    assert_eq!(acct.deposit(-5), Err(RejectionReason::InvalidAmount));
    assert_eq!(acct, Acct::default());

    acct.available = i64::MAX - 1;
    acct.total = i64::MAX - 1;
    let before = acct;
    assert_eq!(acct.deposit(2), Err(RejectionReason::BalanceOverflow));
    assert_eq!(acct, before);
    assert_eq!(acct.deposit(1), Ok(()));
    assert_eq!(acct.available, i64::MAX);
}

#[test]
fn withdrawal_checks_funds_before_sign() {
    let mut acct = Acct::default();
    assert_eq!(acct.withdrawal(1), Err(RejectionReason::InsufficientFunds));
    assert_eq!(acct.withdrawal(0), Err(RejectionReason::InvalidAmount));

    // Funds are checked first: a negative balance refuses even a negative amount
    // that lies below it as insufficient.
    acct.available = -10;
    acct.total = -10;
    assert_eq!(acct.withdrawal(-5), Err(RejectionReason::InsufficientFunds));
    assert_eq!(acct.withdrawal(-20), Err(RejectionReason::InvalidAmount));
    assert_eq!(acct, Acct { available: -10, held: 0, total: -10, locked: false });
}

#[test]
fn withdrawal_beyond_available_changes_nothing() {
    let mut acct = Acct::default();
    _ = acct.deposit(UNIT);
    acct.dispute(HALF);
    let before = acct;
    assert_eq!(acct.withdrawal(HALF + 1), Err(RejectionReason::InsufficientFunds));
    assert_eq!(acct, before);
    assert_eq!(acct.withdrawal(HALF), Ok(()));
    assert_eq!(acct, Acct { available: 0, held: HALF, total: HALF, locked: false });
}

#[test]
fn overflow_checks_match_the_operations() {
    let acct = Acct { available: i64::MIN + 1, held: 0, total: i64::MIN + 1, locked: false };
    assert!(!acct.can_hold(2));
    assert!(acct.can_hold(1));
    assert!(acct.can_release(5));
    assert!(!acct.can_release(-2));
    assert!(!acct.can_forfeit(2));
    assert!(acct.can_forfeit(-5));
}
