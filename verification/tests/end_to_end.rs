use hcc::check_client::{CheckClient, CheckError, Fetch, FetchOutcome, IndexedFetch, parse_validity};
use hcc::check_result::{CheckResult, CheckState};

/// A self-signed certificate for example.com, valid from 2024-01-01 to
/// 2034-01-01 (UTC), as DER bytes.
const NOT_BEFORE: i64 = 1704067200;
const NOT_AFTER: i64 = 2019686400;
const DAY: i64 = 86400;

const TEST_CERT_DER: [u8; 324] = [
    48, 130, 1, 64, 48, 129, 243, 160, 3, 2, 1, 2, 2, 20, 44, 111,
    49, 197, 237, 122, 46, 174, 198, 184, 106, 104, 82, 89, 121, 231, 160, 144,
    195, 27, 48, 5, 6, 3, 43, 101, 112, 48, 22, 49, 20, 48, 18, 6,
    3, 85, 4, 3, 12, 11, 101, 120, 97, 109, 112, 108, 101, 46, 99, 111,
    109, 48, 30, 23, 13, 50, 52, 48, 49, 48, 49, 48, 48, 48, 48, 48,
    48, 90, 23, 13, 51, 52, 48, 49, 48, 49, 48, 48, 48, 48, 48, 48,
    90, 48, 22, 49, 20, 48, 18, 6, 3, 85, 4, 3, 12, 11, 101, 120,
    97, 109, 112, 108, 101, 46, 99, 111, 109, 48, 42, 48, 5, 6, 3, 43,
    101, 112, 3, 33, 0, 229, 2, 93, 236, 142, 180, 81, 16, 145, 245, 159,
    103, 78, 7, 135, 85, 106, 12, 52, 163, 226, 210, 213, 60, 82, 3, 177,
    177, 164, 193, 95, 66, 163, 83, 48, 81, 48, 29, 6, 3, 85, 29, 14,
    4, 22, 4, 20, 55, 92, 30, 21, 57, 112, 2, 50, 0, 134, 162, 160,
    30, 121, 90, 90, 93, 200, 2, 215, 48, 31, 6, 3, 85, 29, 35, 4,
    24, 48, 22, 128, 20, 55, 92, 30, 21, 57, 112, 2, 50, 0, 134, 162,
    160, 30, 121, 90, 90, 93, 200, 2, 215, 48, 15, 6, 3, 85, 29, 19,
    1, 1, 255, 4, 5, 48, 3, 1, 1, 255, 48, 5, 6, 3, 43, 101,
    112, 3, 65, 0, 29, 186, 184, 56, 238, 9, 200, 148, 150, 193, 250, 150,
    224, 222, 183, 32, 175, 187, 18, 192, 196, 125, 44, 176, 175, 161, 92, 53,
    19, 1, 205, 21, 103, 206, 18, 110, 106, 218, 171, 20, 93, 211, 117, 66,
    6, 173, 64, 175, 36, 152, 240, 152, 233, 195, 66, 196, 227, 144, 84, 69,
    169, 113, 158, 2,
];

fn completed(checked_at: i64) -> Fetch {
    Fetch {
        checked_at,
        elapsed: 0,
        outcome: FetchOutcome::Completed(vec![TEST_CERT_DER.to_vec()]),
    }
}

#[test]
fn parses_the_validity_window() {
    let v = parse_validity(&TEST_CERT_DER).unwrap();
    assert_eq!(v.not_before, NOT_BEFORE);
    assert_eq!(v.not_after, NOT_AFTER);
}

#[test]
fn unreadable_bytes_do_not_parse() {
    assert!(parse_validity(&[0u8, 1, 2, 3]).is_none());
    assert!(parse_validity(&[]).is_none());
}

#[test]
fn thirty_days_left_is_ok_under_a_week_of_grace() {
    let client = CheckClient::new_with_grace_in_days(7);
    let checked_at = NOT_AFTER - 30 * DAY;
    let r = client.check_certificate("example.com", &completed(checked_at)).unwrap();
    assert_eq!(r.state, CheckState::Valid);
    assert_eq!(r.days, 30);
    assert_eq!(r.not_after, NOT_AFTER);
    assert_eq!(r.checked_at, checked_at);
    assert_eq!(r.domain_name, "example.com");
}

#[test]
fn thirty_days_left_is_a_warning_under_a_month_of_grace() {
    let client = CheckClient::new_with_grace_in_days(30);
    let checked_at = NOT_AFTER - 30 * DAY;
    let r = client.check_certificate("example.com", &completed(checked_at)).unwrap();
    assert_eq!(r.state, CheckState::Warning);
    assert_eq!(r.days, 30);
}

#[test]
fn a_past_not_after_is_expired_with_negative_days() {
    let client = CheckClient::new();
    let checked_at = NOT_AFTER + 10 * DAY;
    let r = client.check_certificate("example.com", &completed(checked_at)).unwrap();
    assert_eq!(r.state, CheckState::Expired);
    assert_eq!(r.days, -10);
    assert_eq!(r.not_after, NOT_AFTER);
}

#[test]
fn an_unreachable_host_is_expired_with_no_expiry_data() {
    let client = CheckClient::new();
    let fetch = Fetch { checked_at: 1_600_000_000, elapsed: 12, outcome: FetchOutcome::Failed };
    let r = client.check_certificate("example.com", &fetch).unwrap();
    assert_eq!(r.state, CheckState::Expired);
    assert_eq!(r.not_after, 0);
    assert_eq!(r.days, 0);
    assert_eq!(r.checked_at, 1_600_000_000);
    assert_eq!(r.elapsed, 12);
}

#[test]
fn an_empty_chain_is_unknown() {
    let client = CheckClient::new();
    let fetch = Fetch { checked_at: 1_600_000_000, elapsed: 0, outcome: FetchOutcome::Completed(vec![]) };
    let r = client.check_certificate("example.com", &fetch).unwrap();
    assert_eq!(r.state, CheckState::Unknown);
    assert_eq!(r.not_after, 0);
}

#[test]
fn an_unreadable_leaf_is_unknown() {
    let client = CheckClient::new();
    let fetch = Fetch {
        checked_at: 1_600_000_000,
        elapsed: 0,
        outcome: FetchOutcome::Completed(vec![vec![1, 2, 3]]),
    };
    let r = client.check_certificate("example.com", &fetch).unwrap();
    assert_eq!(r.state, CheckState::Unknown);
}

#[test]
fn an_invalid_domain_name_is_rejected_before_evaluation() {
    let client = CheckClient::new();
    let err = client.check_certificate("not a domain", &completed(0)).unwrap_err();
    assert_eq!(err, CheckError::InvalidDomainName);
}

#[test]
fn a_mixed_batch_classifies_each_domain_on_its_own() {
    let client = CheckClient::new_with_grace_in_days(7);
    let names: Vec<String> =
        ["a.example.com", "b.example.com"].iter().map(|s| s.to_string()).collect();
    let fetches = vec![
        IndexedFetch { index: 1, fetch: Fetch { checked_at: 0, elapsed: 0, outcome: FetchOutcome::Failed } },
        IndexedFetch { index: 0, fetch: completed(NOT_AFTER - 40 * DAY) },
    ];
    let results = client.check_certificates(&names, fetches).unwrap();
    assert_eq!(results.len(), 2);
    assert_eq!(results[0].domain_name, "a.example.com");
    assert_eq!(results[0].state, CheckState::Valid);
    assert_eq!(results[0].days, 40);
    assert_eq!(results[1].domain_name, "b.example.com");
    assert_eq!(results[1].state, CheckState::Expired);
}

#[test]
fn expired_constructor_matches_the_sentinel_shape() {
    let r = CheckResult::expired("example.com", 1_600_000_000);
    assert_eq!(r.state, CheckState::Expired);
    assert_eq!(r.checked_at, 1_600_000_000);
    assert_eq!(r.days, 0);
    assert_eq!(r.not_after, 0);
    assert_eq!(r.domain_name, "example.com");
    assert_eq!(r.elapsed, 0);
}
