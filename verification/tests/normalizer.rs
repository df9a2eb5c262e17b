use csv_processor::csv_processor::{
    build_probe_result, invalid_url_result, validate_and_filter_domains,
};

#[test]
fn test_validate_and_filter_domains() {
    let valid_domains = vec![
        ("1".to_string(), "google.com".to_string()),
        ("2".to_string(), "http://facebook.com".to_string()),
        ("3".to_string(), "https://youtube.com".to_string()),
    ];

    for (id, domain) in valid_domains {
        let result = validate_and_filter_domains(id.clone(), domain.clone());
        assert!(result.is_some());
        let urls = result.unwrap();
        assert_eq!(urls.len(), 1);
        assert_eq!(urls[0].0, id);
    }

    let invalid_domains = vec!["user@example.com", "invalid domain"];
    for domain in invalid_domains {
        let result = validate_and_filter_domains("4".to_string(), domain.to_string());
        assert!(result.is_none());
    }
}

#[test]
fn scheme_is_prepended_when_missing() {
    let result = validate_and_filter_domains("1".to_string(), "google.com".to_string());
    let urls = result.unwrap();
    // the parsed URL carries the prepended scheme
    assert_eq!(urls[0].1.scheme(), "http");
    assert_eq!(urls[0].1.as_str(), "http://google.com/");
}

#[test]
fn explicit_https_scheme_is_kept_but_label_stays_http() {
    let result = validate_and_filter_domains("1".to_string(), "https://youtube.com".to_string());
    let urls = result.unwrap();
    assert_eq!(urls[0].1.scheme(), "https");
    // the protocol label is fixed, it does not follow the parsed scheme
    assert_eq!(urls[0].2, "http");
}

#[test]
fn at_sign_rejects_even_with_scheme() {
    assert!(validate_and_filter_domains("1".to_string(), "http://user@example.com".to_string())
        .is_none());
    assert!(validate_and_filter_domains("2".to_string(), "a@b".to_string()).is_none());
    assert!(validate_and_filter_domains("3".to_string(), "@".to_string()).is_none());
}

#[test]
fn empty_url_is_invalid() {
    assert!(validate_and_filter_domains("1".to_string(), "".to_string()).is_none());
}

#[test]
fn invalid_record_outcome_has_fixed_marker() {
    let r = invalid_url_result("1".to_string(), "user@example.com".to_string());
    assert_eq!(r.id, "1");
    assert_eq!(r.domain, "user@example.com");
    assert_eq!(r.protocol, "");
    assert_eq!(r.response_code, 0);
    assert_eq!(r.response_time, 0);
    assert_eq!(r.full_response, "INVALID domain or URL");
}

#[test]
fn probe_response_becomes_outcome() {
    let r = build_probe_result(
        "7".to_string(),
        "example.com".to_string(),
        "http".to_string(),
        Some((200, "{\"server\": \"x\"}".to_string())),
        42,
    );
    assert_eq!(r.id, "7");
    assert_eq!(r.domain, "example.com");
    assert_eq!(r.protocol, "http");
    assert_eq!(r.response_code, 200);
    assert_eq!(r.response_time, 42);
    assert_eq!(r.full_response, "Headers: {\"server\": \"x\"}");
}

#[test]
fn probe_transport_error_becomes_zero_outcome() {
    let r = build_probe_result(
        "8".to_string(),
        "nonexistent.invalid".to_string(),
        "http".to_string(),
        None,
        17,
    );
    assert_eq!(r.response_code, 0);
    assert_eq!(r.response_time, 17);
    assert_eq!(r.full_response, "Error making request");
}
