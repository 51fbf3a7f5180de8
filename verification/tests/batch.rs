use hcc::check_client::{validate_domain_names, CheckClient, CheckError, Fetch, FetchOutcome, IndexedFetch};
use hcc::check_result::CheckState;

fn failed_fetch(checked_at: i64) -> Fetch {
    Fetch { checked_at, elapsed: 0, outcome: FetchOutcome::Failed }
}

fn domains(names: &[&str]) -> Vec<String> {
    names.iter().map(|s| s.to_string()).collect()
}

#[test]
fn batch_keeps_input_order_whatever_order_fetches_arrive_in() {
    let client = CheckClient::new();
    let names = domains(&["a.example.com", "b.example.com", "c.example.com"]);
    // Completion order 2, 0, 1 — as if the middle domain was slowest.
    let fetches = vec![
        IndexedFetch { index: 2, fetch: failed_fetch(1_600_000_302) },
        IndexedFetch { index: 0, fetch: failed_fetch(1_600_000_300) },
        IndexedFetch { index: 1, fetch: failed_fetch(1_600_000_301) },
    ];
    let results = client.check_certificates(&names, fetches).unwrap();
    assert_eq!(results.len(), 3);
    for (i, r) in results.iter().enumerate() {
        assert_eq!(r.domain_name, names[i]);
        assert_eq!(r.checked_at, 1_600_000_300 + i as i64);
    }
}

#[test]
fn one_failed_domain_does_not_prevent_the_others() {
    let client = CheckClient::new_with_grace_in_days(7);
    let names = domains(&["a.example.com", "b.example.com", "c.example.com"]);
    let good = Fetch {
        checked_at: 1_600_000_000,
        elapsed: 5,
        outcome: FetchOutcome::Completed(vec![]),
    };
    let fetches = vec![
        IndexedFetch { index: 0, fetch: good },
        IndexedFetch { index: 1, fetch: failed_fetch(1_600_000_000) },
        IndexedFetch {
            index: 2,
            fetch: Fetch {
                checked_at: 1_600_000_000,
                elapsed: 9,
                outcome: FetchOutcome::Completed(vec![]),
            },
        },
    ];
    let results = client.check_certificates(&names, fetches).unwrap();
    assert_eq!(results.len(), 3);
    assert_eq!(results[0].state, CheckState::Unknown);
    assert_eq!(results[1].state, CheckState::Expired);
    assert_eq!(results[1].not_after, 0);
    assert_eq!(results[2].state, CheckState::Unknown);
    assert_eq!(results[2].elapsed, 9);
}

#[test]
fn invalid_domain_aborts_the_whole_batch() {
    let client = CheckClient::new();
    let names = domains(&["a.example.com", "not a domain name"]);
    let fetches = vec![
        IndexedFetch { index: 0, fetch: failed_fetch(0) },
        IndexedFetch { index: 1, fetch: failed_fetch(0) },
    ];
    let err = client.check_certificates(&names, fetches).unwrap_err();
    assert_eq!(err, CheckError::InvalidDomainName);
}

#[test]
fn missing_fetch_is_a_mismatch() {
    let client = CheckClient::new();
    let names = domains(&["a.example.com", "b.example.com"]);
    let fetches = vec![IndexedFetch { index: 0, fetch: failed_fetch(0) }];
    let err = client.check_certificates(&names, fetches).unwrap_err();
    assert_eq!(err, CheckError::MismatchedFetches);
}

#[test]
fn duplicate_fetch_tag_is_a_mismatch() {
    let client = CheckClient::new();
    let names = domains(&["a.example.com", "b.example.com"]);
    let fetches = vec![
        IndexedFetch { index: 0, fetch: failed_fetch(0) },
        IndexedFetch { index: 0, fetch: failed_fetch(0) },
    ];
    let err = client.check_certificates(&names, fetches).unwrap_err();
    assert_eq!(err, CheckError::MismatchedFetches);
}

#[test]
fn out_of_range_fetch_tag_is_a_mismatch() {
    let client = CheckClient::new();
    let names = domains(&["a.example.com", "b.example.com"]);
    let fetches = vec![
        IndexedFetch { index: 0, fetch: failed_fetch(0) },
        IndexedFetch { index: 2, fetch: failed_fetch(0) },
    ];
    let err = client.check_certificates(&names, fetches).unwrap_err();
    assert_eq!(err, CheckError::MismatchedFetches);
}

#[test]
fn validate_domain_names_checks_every_entry() {
    assert!(validate_domain_names(&domains(&["example.com", "sha512.badssl.com"])).is_ok());
    assert_eq!(
        validate_domain_names(&domains(&["example.com", "bad domain"])).unwrap_err(),
        CheckError::InvalidDomainName
    );
    assert!(validate_domain_names(&domains(&[])).is_ok());
}

#[test]
fn client_grace_periods() {
    assert_eq!(CheckClient::new().grace_in_days(), 7);
    assert_eq!(CheckClient::new_with_grace_in_days(100).grace_in_days(), 100);
}

#[test]
fn http_headers_for_domain() {
    let headers = CheckClient::build_http_headers("example.com");
    assert_eq!(
        headers,
        "GET / HTTP/1.1\r\nHost: example.com\r\nConnection: close\r\nAccept-Encoding: identity\r\n\r\n"
    );
}
