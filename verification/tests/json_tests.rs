use hcc::check_result::{CheckResult, CheckResultJSON, CheckState};
use hcc::json::parse_result_json;

fn sample() -> CheckResultJSON {
    CheckResultJSON {
        state: "OK".to_string(),
        checked_at: "2020-09-13T12:26:40+00:00".to_string(),
        days: 512,
        domain_name: "example.com".to_string(),
        expired_at: "2022-02-07T12:26:40+00:00".to_string(),
        elapsed: 42,
    }
}

#[test]
fn encodes_the_exact_object() {
    let s = sample().to_json_string();
    let expected = "{\"state\":\"OK\",\"checked_at\":\"2020-09-13T12:26:40+00:00\",\"days\":512,\"domain_name\":\"example.com\",\"expired_at\":\"2022-02-07T12:26:40+00:00\",\"elapsed\":42}";
    assert_eq!(s, expected);
}

#[test]
fn round_trip_preserves_every_field() {
    let j = sample();
    let parsed = parse_result_json(&j.to_json_string()).unwrap();
    assert_eq!(parsed.state, j.state);
    assert_eq!(parsed.checked_at, j.checked_at);
    assert_eq!(parsed.days, j.days);
    assert_eq!(parsed.domain_name, j.domain_name);
    assert_eq!(parsed.expired_at, j.expired_at);
    assert_eq!(parsed.elapsed, j.elapsed);
}

#[test]
fn round_trip_with_negative_days_and_escapes() {
    let j = CheckResultJSON {
        state: "EXPIRED".to_string(),
        checked_at: String::new(),
        days: -37,
        domain_name: "odd\"name\\with escapes".to_string(),
        expired_at: "1970-01-01T00:00:00+00:00".to_string(),
        elapsed: 340282366920938463463374607431768211455,
    };
    let text = j.to_json_string();
    let parsed = parse_result_json(&text).unwrap();
    assert_eq!(parsed.state, j.state);
    assert_eq!(parsed.checked_at, j.checked_at);
    assert_eq!(parsed.days, j.days);
    assert_eq!(parsed.domain_name, j.domain_name);
    assert_eq!(parsed.expired_at, j.expired_at);
    assert_eq!(parsed.elapsed, j.elapsed);
}

#[test]
fn serde_reads_the_same_fields_back() {
    let j = sample();
    let value: serde_json::Value = serde_json::from_str(&j.to_json_string()).unwrap();
    assert_eq!(value["state"], "OK");
    assert_eq!(value["checked_at"], "2020-09-13T12:26:40+00:00");
    assert_eq!(value["days"], 512);
    assert_eq!(value["domain_name"], "example.com");
    assert_eq!(value["expired_at"], "2022-02-07T12:26:40+00:00");
    assert_eq!(value["elapsed"], 42);
}

#[test]
fn serde_reads_escaped_names_back() {
    let mut j = sample();
    j.domain_name = "a\"b\\c".to_string();
    let value: serde_json::Value = serde_json::from_str(&j.to_json_string()).unwrap();
    assert_eq!(value["domain_name"], "a\"b\\c");
}

#[test]
fn parser_rejects_other_text() {
    assert!(parse_result_json("").is_none());
    assert!(parse_result_json("{}").is_none());
    assert!(parse_result_json("{\"state\":\"OK\"}").is_none());
    let mut good = sample().to_json_string();
    good.push(' ');
    assert!(parse_result_json(&good).is_none());
}

#[test]
fn parser_rejects_numbers_out_of_range() {
    let text = sample().to_json_string();
    let too_big = text.replace("\"days\":512", "\"days\":9223372036854775808");
    assert!(parse_result_json(&too_big).is_none());
    let fits = text.replace("\"days\":512", "\"days\":-9223372036854775808");
    assert_eq!(parse_result_json(&fits).unwrap().days, i64::MIN);
}

#[test]
fn json_of_check_result_uses_rfc3339_timestamps() {
    let result = CheckResult {
        state: CheckState::Warning,
        checked_at: 0,
        days: 3,
        domain_name: "example.com".to_string(),
        not_after: 1_600_000_000,
        elapsed: 7,
    };
    let j = CheckResultJSON::new(&result);
    assert_eq!(j.state, "WARNING");
    assert_eq!(j.checked_at, "1970-01-01T00:00:00+00:00");
    assert_eq!(j.expired_at, "2020-09-13T12:26:40+00:00");
    assert_eq!(j.days, 3);
    assert_eq!(j.domain_name, "example.com");
    assert_eq!(j.elapsed, 7);

    let via_method = result.to_json();
    assert_eq!(via_method.state, j.state);
    assert_eq!(via_method.checked_at, j.checked_at);
    assert_eq!(via_method.expired_at, j.expired_at);
}

#[test]
fn error_body_is_a_json_object() {
    let s = hcc::json::error_json_string("no peer certificates found for example.com");
    assert_eq!(s, "{\"error\":\"no peer certificates found for example.com\"}");
    let value: serde_json::Value = serde_json::from_str(&s).unwrap();
    assert_eq!(value["error"], "no peer certificates found for example.com");
    let quoted = hcc::json::error_json_string("a \"quoted\" cause");
    let value: serde_json::Value = serde_json::from_str(&quoted).unwrap();
    assert_eq!(value["error"], "a \"quoted\" cause");
}
