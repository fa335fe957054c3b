use asset_custody::ledger::{AssetCustodyContract, AuthContext, LedgerError};

fn auth(who: &[&str]) -> AuthContext {
    AuthContext { authorized: who.iter().map(|s| s.to_string()).collect() }
}

fn s(v: &str) -> String {
    v.to_string()
}

#[test]
fn create_counts_successes_only() {
    let mut c = AssetCustodyContract::new();
    assert_eq!(c.total_accounts(), 0);
    assert_eq!(c.create_custody_account(&auth(&["a"]), &s("a"), 2, false), Ok(true));
    assert_eq!(c.create_custody_account(&auth(&["b"]), &s("b"), 3, true), Ok(true));
    assert_eq!(c.create_custody_account(&auth(&["a"]), &s("a"), 2, false), Ok(false));
    assert_eq!(c.create_custody_account(&auth(&["c"]), &s("c"), 1, false), Err(LedgerError::ThresholdTooLow));
    assert_eq!(c.create_custody_account(&auth(&[]), &s("d"), 2, false), Err(LedgerError::Unauthorized));
    assert_eq!(c.total_accounts(), 2);
}

#[test]
fn duplicate_creation_keeps_first_account() {
    let mut c = AssetCustodyContract::new();
    let a = auth(&["o"]);
    assert_eq!(c.create_custody_account(&a, &s("o"), 3, true), Ok(true));
    assert_eq!(c.deposit_assets(&a, &s("o"), 10), Ok(true));
    assert_eq!(c.create_custody_account(&a, &s("o"), 5, false), Ok(false));
    let v = c.view_custody_account(&s("o"));
    assert_eq!(v.owner, "o");
    assert_eq!(v.balance, 10);
    assert_eq!(v.required_signatures, 3);
    assert!(v.is_insured);
    assert!(v.is_active);
    assert_eq!(c.total_accounts(), 1);
}

#[test]
fn threshold_of_one_creates_nothing() {
    let mut c = AssetCustodyContract::new();
    let a = auth(&["o"]);
    assert_eq!(c.create_custody_account(&a, &s("o"), 1, false), Err(LedgerError::ThresholdTooLow));
    assert_eq!(c.create_custody_account(&a, &s("o"), 0, false), Err(LedgerError::ThresholdTooLow));
    assert_eq!(c.total_accounts(), 0);
    let v = c.view_custody_account(&s("o"));
    assert!(!v.is_active);
    assert_eq!(v.required_signatures, 0);
}

#[test]
fn non_positive_amounts_are_rejected() {
    let mut c = AssetCustodyContract::new();
    let a = auth(&["o"]);
    c.create_custody_account(&a, &s("o"), 2, false).unwrap();
    c.deposit_assets(&a, &s("o"), 50).unwrap();
    assert_eq!(c.deposit_assets(&a, &s("o"), 0), Err(LedgerError::NonPositiveAmount));
    assert_eq!(c.deposit_assets(&a, &s("o"), -5), Err(LedgerError::NonPositiveAmount));
    assert_eq!(c.withdraw_assets(&a, &s("o"), 0, 5), Err(LedgerError::NonPositiveAmount));
    assert_eq!(c.withdraw_assets(&a, &s("o"), -1, 5), Err(LedgerError::NonPositiveAmount));
    assert_eq!(c.view_custody_account(&s("o")).balance, 50);
}

#[test]
fn withdraw_needs_threshold_and_balance() {
    let mut c = AssetCustodyContract::new();
    let a = auth(&["o"]);
    c.create_custody_account(&a, &s("o"), 3, true).unwrap();
    c.deposit_assets(&a, &s("o"), 100).unwrap();
    assert_eq!(c.withdraw_assets(&a, &s("o"), 10, 2), Err(LedgerError::InsufficientSignatures));
    assert_eq!(c.withdraw_assets(&a, &s("o"), 101, 3), Err(LedgerError::InsufficientBalance));
    assert_eq!(c.view_custody_account(&s("o")).balance, 100);
    assert_eq!(c.withdraw_assets(&a, &s("o"), 100, 3), Ok(true));
    let v = c.view_custody_account(&s("o"));
    assert_eq!(v.balance, 0);
    assert_eq!(v.required_signatures, 3);
    assert!(v.is_insured);
    assert!(v.is_active);
    assert_eq!(c.withdraw_assets(&a, &s("o"), 1, 9), Err(LedgerError::InsufficientBalance));
}

#[test]
fn operations_on_missing_or_unauthorized_owner() {
    let mut c = AssetCustodyContract::new();
    assert_eq!(c.deposit_assets(&auth(&["x"]), &s("x"), 5), Err(LedgerError::AccountNotFound));
    assert_eq!(c.withdraw_assets(&auth(&["x"]), &s("x"), 5, 9), Err(LedgerError::AccountNotFound));
    c.create_custody_account(&auth(&["o"]), &s("o"), 2, false).unwrap();
    assert_eq!(c.deposit_assets(&auth(&["x"]), &s("o"), 5), Err(LedgerError::Unauthorized));
    assert_eq!(c.withdraw_assets(&auth(&["x"]), &s("o"), 5, 2), Err(LedgerError::Unauthorized));
}

#[test]
fn deposit_overflow_is_rejected() {
    let mut c = AssetCustodyContract::new();
    let a = auth(&["o"]);
    c.create_custody_account(&a, &s("o"), 2, false).unwrap();
    assert_eq!(c.deposit_assets(&a, &s("o"), i128::MAX), Ok(true));
    assert_eq!(c.deposit_assets(&a, &s("o"), 1), Err(LedgerError::Overflow));
    assert_eq!(c.view_custody_account(&s("o")).balance, i128::MAX);
}

#[test]
fn view_of_unknown_owner_is_sentinel() {
    let c = AssetCustodyContract::new();
    let v = c.view_custody_account(&s("nobody"));
    assert_eq!(v.owner, "nobody");
    assert_eq!(v.balance, 0);
    assert_eq!(v.required_signatures, 0);
    assert!(!v.is_insured);
    assert!(!v.is_active);
}
