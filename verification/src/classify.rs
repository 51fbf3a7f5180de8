//! The grace evaluator: classifies a certificate's not-after timestamp
//! against the time of the check and a grace period, both measured in
//! whole-second UTC epoch values.

use vstd::prelude::*;

use crate::check_result::CheckState;

verus! {

/// Seconds in one day.
pub const SECONDS_PER_DAY: u64 = 86400;

/// Days remaining until `not_after`, seen from `checked_at`: the difference
/// in seconds divided by 86400, truncated toward zero. A duration of 1.9
/// days counts as 1 day; a duration of -1.9 days counts as -1 day.
pub open spec fn spec_remaining_days(not_after: int, checked_at: int) -> int {
    if not_after >= checked_at {
        (not_after - checked_at) / (SECONDS_PER_DAY as int)
    } else {
        -((checked_at - not_after) / (SECONDS_PER_DAY as int))
    }
}

/// The state a count of remaining days maps to under a grace period:
/// negative means expired, within the grace period means a warning,
/// beyond it means the certificate is fine.
pub open spec fn spec_state_for(remaining_days: int, grace_in_days: int) -> CheckState {
    if remaining_days < 0 {
        CheckState::Expired
    } else if remaining_days <= grace_in_days {
        CheckState::Warning
    } else {
        CheckState::Valid
    }
}

/// Classify a certificate given its not-after timestamp, the timestamp of
/// the check, and a grace period in days. Total and pure: it accepts every
/// input, performs no I/O, and the result is a function of the arguments
/// alone.
pub fn classify(not_after: i64, checked_at: i64, grace_in_days: i64) -> (r: (CheckState, i64))
    ensures
        r.1 == spec_remaining_days(not_after as int, checked_at as int),
        r.0 == spec_state_for(r.1 as int, grace_in_days as int),
{
    let days = remaining_days(not_after, checked_at);
    let state = if days < 0 {
        CheckState::Expired
    } else if days <= grace_in_days {
        CheckState::Warning
    } else {
        CheckState::Valid
    };
    (state, days)
}

/// Days remaining until `not_after`, truncated toward zero; see
/// `spec_remaining_days`.
pub fn remaining_days(not_after: i64, checked_at: i64) -> (r: i64)
    ensures
        r == spec_remaining_days(not_after as int, checked_at as int),
{
    if not_after >= checked_at {
        let diff: i128 = not_after as i128 - checked_at as i128;
        let days: i128 = diff / (SECONDS_PER_DAY as i128);
        days as i64
    } else {
        let diff: i128 = checked_at as i128 - not_after as i128;
        let days: i128 = diff / (SECONDS_PER_DAY as i128);
        let days64: i64 = days as i64;
        -days64
    }
}

/// A certificate good for exactly 512 more days is reported as `Valid` with 512
/// remaining days under a 7-day grace period.
pub proof fn lemma_distant_expiry_is_ok(not_after: int, checked_at: int)
    requires
        not_after - checked_at == 512 * (SECONDS_PER_DAY as int),
    ensures
        spec_remaining_days(not_after, checked_at) == 512,
        spec_state_for(spec_remaining_days(not_after, checked_at), 7) == CheckState::Valid,
{
}

/// A certificate good for exactly 512 more days is reported as `Warning`
/// with 512 remaining days under a 512-day grace period, since 512 <= 512.
pub proof fn lemma_expiry_at_grace_bound_is_warning(not_after: int, checked_at: int)
    requires
        not_after - checked_at == 512 * (SECONDS_PER_DAY as int),
    ensures
        spec_remaining_days(not_after, checked_at) == 512,
        spec_state_for(spec_remaining_days(not_after, checked_at), 512) == CheckState::Warning,
{
}

/// A certificate whose not-after lies at least one whole day in the past is
/// reported as `Expired` with a negative count of remaining days, under
/// every grace period. (A not-after less than one day in the past truncates
/// to 0 remaining days and is reported as `Warning` instead.)
pub proof fn lemma_past_expiry_is_expired(not_after: int, checked_at: int, grace_in_days: int)
    requires
        not_after <= checked_at - SECONDS_PER_DAY,
    ensures
        spec_remaining_days(not_after, checked_at) < 0,
        spec_state_for(spec_remaining_days(not_after, checked_at), grace_in_days)
            == CheckState::Expired,
{
    assert((checked_at - not_after) / (SECONDS_PER_DAY as int) >= 1) by (nonlinear_arith)
        requires
            checked_at - not_after >= SECONDS_PER_DAY as int,
            SECONDS_PER_DAY == 86400,
    ;
}

} // verus!
