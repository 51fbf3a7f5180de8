use hcc::check_result::CheckState;
use hcc::classify::{classify, remaining_days};

const DAY: i64 = 86400;

#[test]
fn distant_expiry_is_ok_under_default_grace() {
    let checked_at: i64 = 1_600_000_000;
    let not_after = checked_at + 512 * DAY;
    let (state, days) = classify(not_after, checked_at, 7);
    assert_eq!(state, CheckState::Valid);
    assert_eq!(days, 512);
}

#[test]
fn expiry_at_grace_bound_is_warning() {
    let checked_at: i64 = 1_600_000_000;
    let not_after = checked_at + 512 * DAY;
    let (state, days) = classify(not_after, checked_at, 512);
    assert_eq!(state, CheckState::Warning);
    assert_eq!(days, 512);
}

#[test]
fn past_expiry_is_expired() {
    let checked_at: i64 = 1_600_000_000;
    let not_after = checked_at - 3 * DAY;
    let (state, days) = classify(not_after, checked_at, 7);
    assert_eq!(state, CheckState::Expired);
    assert_eq!(days, -3);
    let (state, days) = classify(checked_at - DAY, checked_at, 100_000);
    assert_eq!(state, CheckState::Expired);
    assert_eq!(days, -1);
}

#[test]
fn classify_is_deterministic() {
    let a = classify(1_700_000_000, 1_600_000_000, 7);
    let b = classify(1_700_000_000, 1_600_000_000, 7);
    assert_eq!(a.0, b.0);
    assert_eq!(a.1, b.1);
}

#[test]
fn remaining_days_truncates_toward_zero() {
    let checked_at: i64 = 1_600_000_000;
    // 1.9 days left truncates to 1 day.
    assert_eq!(remaining_days(checked_at + 19 * DAY / 10, checked_at), 1);
    // -1.9 days truncates to -1 day.
    assert_eq!(remaining_days(checked_at - 19 * DAY / 10, checked_at), -1);
    // Less than one whole day past the deadline still counts as 0 days,
    // which classifies as a warning, not as expired.
    let (state, days) = classify(checked_at - 1, checked_at, 7);
    assert_eq!(days, 0);
    assert_eq!(state, CheckState::Warning);
}

#[test]
fn zero_days_is_warning_even_with_zero_grace() {
    let checked_at: i64 = 1_600_000_000;
    let (state, days) = classify(checked_at + DAY / 2, checked_at, 0);
    assert_eq!(state, CheckState::Warning);
    assert_eq!(days, 0);
}

#[test]
fn classify_handles_extreme_timestamps() {
    let (state, days) = classify(i64::MAX, i64::MIN, 7);
    assert_eq!(state, CheckState::Valid);
    assert!(days > 0);
    let (state, days) = classify(i64::MIN, i64::MAX, 7);
    assert_eq!(state, CheckState::Expired);
    assert!(days < 0);
}
