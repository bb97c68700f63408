use jobsuche::classify::{
    classify, error_from_status, parse_retry_after, status_is_success, status_reads_body,
    wait_until,
};
use jobsuche::{ApiErrors, Error, Timestamp};

const NOW: Timestamp = Timestamp {
    secs: 784_111_700,
    nanos: 0,
};

fn payload(errors: &[&str], messages: &[&str]) -> ApiErrors {
    ApiErrors {
        errors: errors.iter().map(|e| e.to_string()).collect(),
        error_messages: messages.iter().map(|e| e.to_string()).collect(),
    }
}

#[test]
fn test_404_error_handling() {
    let result = classify(404, None, NOW, None);

    // We expect a NotFound error
    assert!(result.is_err());
    assert!(matches!(result.unwrap_err(), Error::NotFound));
}

#[test]
fn test_401_unauthorized() {
    let result = classify(401, None, NOW, None);

    assert!(result.is_err());
    assert!(matches!(result.unwrap_err(), Error::Unauthorized));
}

#[test]
fn test_403_forbidden() {
    let result = classify(403, None, NOW, None);
    assert!(result.is_err());
    assert!(matches!(result.unwrap_err(), Error::Forbidden));
}

#[test]
fn test_405_method_not_allowed() {
    let result = classify(405, None, NOW, None);
    assert!(result.is_err());
    assert!(matches!(result.unwrap_err(), Error::MethodNotAllowed));
}

#[test]
fn test_rate_limit_429_detection() {
    let result = classify(429, Some("60"), NOW, None);

    // Should detect rate limit error with Retry-After
    assert!(result.is_err());
    match result.unwrap_err() {
        Error::RateLimited { retry_after } => {
            assert_eq!(retry_after, Some(60), "Should parse Retry-After header");
        }
        other => panic!("Expected RateLimited error, got: {:?}", other),
    }
}

#[test]
fn test_rate_limit_429_without_retry_after() {
    let result = classify(429, None, NOW, None);

    // Should detect rate limit error without Retry-After
    assert!(result.is_err());
    match result.unwrap_err() {
        Error::RateLimited { retry_after } => {
            assert_eq!(retry_after, None, "Should have no Retry-After header");
        }
        other => panic!("Expected RateLimited error, got: {:?}", other),
    }
}

#[test]
fn test_500_server_error_with_api_errors() {
    let body = payload(&["INTERNAL_ERROR"], &["Internal server error"]);
    let result = classify(500, None, NOW, Some(body));
    assert!(result.is_err());

    match result.unwrap_err() {
        Error::Fault { code, errors } => {
            assert_eq!(code, 500);
            assert_eq!(errors.errors, vec!["INTERNAL_ERROR".to_string()]);
            assert_eq!(
                errors.error_messages,
                vec!["Internal server error".to_string()]
            );
        }
        other => panic!("Expected Fault, got: {:?}", other),
    }
}

#[test]
fn test_500_server_error_plain_text() {
    // A body that held no structured payload comes in as `None`.
    let result = classify(500, None, NOW, None);
    assert!(result.is_err());

    match result.unwrap_err() {
        Error::Fault { code, errors } => {
            assert_eq!(code, 500);
            assert!(errors.errors.is_empty());
            assert!(errors.error_messages.is_empty());
        }
        other => panic!("Expected Fault, got: {:?}", other),
    }
}

#[test]
fn success_statuses_are_no_error() {
    assert!(classify(200, None, NOW, None).is_ok());
    assert!(classify(204, Some("60"), NOW, None).is_ok());
    assert!(classify(299, None, NOW, Some(payload(&["x"], &[]))).is_ok());
    assert!(classify(199, None, NOW, None).is_err());
    assert!(classify(300, None, NOW, None).is_err());

    assert!(status_is_success(200));
    assert!(status_is_success(299));
    assert!(!status_is_success(199));
    assert!(!status_is_success(300));
    assert!(!status_is_success(404));
}

#[test]
fn every_other_status_is_a_fault_with_its_code() {
    for status in [100u16, 302, 304, 400, 402, 409, 418, 499, 500, 501, 502, 503, 504, 599] {
        match error_from_status(status, Some("60"), NOW, None) {
            Error::Fault { code, errors } => {
                assert_eq!(code, status);
                assert!(errors.errors.is_empty());
                assert!(errors.error_messages.is_empty());
            }
            other => panic!("Expected Fault for {}, got: {:?}", status, other),
        }
    }
}

#[test]
fn payload_is_read_for_faults_only() {
    for status in [401u16, 403, 404, 405, 429, 200, 201] {
        assert!(!status_reads_body(status));
    }
    for status in [400u16, 500, 503, 504, 302] {
        assert!(status_reads_body(status));
    }
    // What is handed in for a status with a variant of its own is ignored.
    assert!(matches!(
        error_from_status(404, None, NOW, Some(payload(&["gone"], &[]))),
        Error::NotFound
    ));
    assert!(matches!(
        error_from_status(401, Some("60"), NOW, None),
        Error::Unauthorized
    ));
}

#[test]
fn retry_after_as_seconds() {
    assert_eq!(parse_retry_after("0", NOW), Some(0));
    assert_eq!(parse_retry_after("120", NOW), Some(120));
    assert_eq!(parse_retry_after("+5", NOW), Some(5));
    assert_eq!(
        parse_retry_after("18446744073709551615", NOW),
        Some(u64::MAX)
    );
}

#[test]
fn retry_after_as_date() {
    // 784111777 seconds after the epoch.
    let date = "Sun, 06 Nov 1994 08:49:37 GMT";
    assert_eq!(parse_retry_after(date, NOW), Some(77));
    assert_eq!(
        parse_retry_after("Sunday, 06-Nov-94 08:49:37 GMT", NOW),
        Some(77)
    );
    assert_eq!(parse_retry_after("Sun Nov  6 08:49:37 1994", NOW), Some(77));

    let a_little_later = Timestamp {
        secs: 784_111_700,
        nanos: 1,
    };
    assert_eq!(parse_retry_after(date, a_little_later), Some(76));

    let at_the_date = Timestamp {
        secs: 784_111_777,
        nanos: 0,
    };
    assert_eq!(parse_retry_after(date, at_the_date), Some(0));

    let just_past = Timestamp {
        secs: 784_111_777,
        nanos: 1,
    };
    assert_eq!(parse_retry_after(date, just_past), None);

    let long_past = Timestamp {
        secs: 1_700_000_000,
        nanos: 0,
    };
    assert_eq!(parse_retry_after(date, long_past), None);
}

#[test]
fn retry_after_that_reads_as_nothing() {
    for value in ["", "soon", "60s", "1.5", "-1", "06 Nov 1994", "Sun, 31 Feb 1994 08:49:37 GMT"] {
        assert_eq!(parse_retry_after(value, NOW), None, "{:?}", value);
    }
    match error_from_status(429, Some("soon"), NOW, None) {
        Error::RateLimited { retry_after } => assert_eq!(retry_after, None),
        other => panic!("Expected RateLimited error, got: {:?}", other),
    }
    match error_from_status(429, Some("Sun, 06 Nov 1994 08:49:37 GMT"), NOW, None) {
        Error::RateLimited { retry_after } => assert_eq!(retry_after, Some(77)),
        other => panic!("Expected RateLimited error, got: {:?}", other),
    }
}

#[test]
fn wait_until_counts_whole_seconds() {
    let at = |secs, nanos| Timestamp { secs, nanos };
    assert_eq!(wait_until(100, at(40, 0)), Some(60));
    assert_eq!(wait_until(100, at(40, 999_999_999)), Some(59));
    assert_eq!(wait_until(100, at(99, 500_000_000)), Some(0));
    assert_eq!(wait_until(100, at(100, 0)), Some(0));
    assert_eq!(wait_until(100, at(100, 1)), None);
    assert_eq!(wait_until(100, at(101, 0)), None);
    assert_eq!(wait_until(0, at(0, 0)), Some(0));
    assert_eq!(wait_until(u64::MAX, at(0, 1)), Some(u64::MAX - 1));
}

#[test]
fn test_employer_logo_not_found() {
    let result = classify(404, None, NOW, None);
    assert!(result.is_err());
    assert!(matches!(result.unwrap_err(), Error::NotFound));
}
