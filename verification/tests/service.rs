use hardware_scanner::clock::{current_time, generate_token, timestamp_text, token_from_words, Timestamp};
use hardware_scanner::service::{
    consume_valid_local_token, cors_allowed_origins, record_local_token, create_local_token, create_local_token_at,
    is_origin_allowed, parse_allowed_origins, scan_local_machine, scan_local_machine_at,
    scan_server_machine, token_ttl_from, CorsOrigins, ServiceConfig, ServiceError, TokenRecord,
};

const ORIGIN: &str = "http://localhost:3000";

fn config() -> ServiceConfig {
    ServiceConfig::from_settings(None, None, Some("SECRET-REDACTED".to_string()))
}

fn at(secs: i64) -> Timestamp {
    Timestamp { secs, nanos: 0 }
}

#[test]
fn origins_are_trimmed_deduplicated_and_nonempty() {
    let origins = parse_allowed_origins(" http://a.test , http://b.test,,http://a.test ,  ");
    assert_eq!(origins, vec!["http://a.test".to_string(), "http://b.test".to_string()]);
    assert!(parse_allowed_origins("").is_empty());
    assert!(parse_allowed_origins(" , ,").is_empty());
}

#[test]
fn default_settings_allow_the_local_dev_servers() {
    let c = config();
    assert_eq!(
        c.allowed_origins,
        vec![
            "http://localhost:3000".to_string(),
            "http://127.0.0.1:3000".to_string(),
            "http://localhost:5173".to_string(),
            "http://127.0.0.1:5173".to_string(),
        ]
    );
    assert_eq!(c.token_ttl_seconds, 120);
    assert!(is_origin_allowed(Some(ORIGIN), &c.allowed_origins));
    assert!(!is_origin_allowed(Some("http://evil.test"), &c.allowed_origins));
    assert!(!is_origin_allowed(None, &c.allowed_origins));
}

#[test]
fn token_lifetime_setting_must_be_a_positive_number() {
    assert_eq!(token_ttl_from(Some("300")), 300);
    assert_eq!(token_ttl_from(Some("+7")), 7);
    assert_eq!(token_ttl_from(Some("0")), 120);
    assert_eq!(token_ttl_from(Some("-5")), 120);
    assert_eq!(token_ttl_from(Some(" 30")), 120);
    assert_eq!(token_ttl_from(Some("abc")), 120);
    assert_eq!(token_ttl_from(Some("9223372036854775807")), i64::MAX);
    assert_eq!(token_ttl_from(Some("9223372036854775808")), 120);
    assert_eq!(token_ttl_from(None), 120);
}

#[test]
fn cors_lists_valid_origins_or_allows_any() {
    let list = vec!["http://a.test".to_string(), "bad\u{7f}origin".to_string()];
    match cors_allowed_origins(&list) {
        CorsOrigins::List(v) => assert_eq!(v, vec!["http://a.test".to_string()]),
        CorsOrigins::Any => panic!("expected a list"),
    }
    match cors_allowed_origins(&vec!["new\nline".to_string()]) {
        CorsOrigins::Any => {}
        CorsOrigins::List(_) => panic!("expected any"),
    }
    match cors_allowed_origins(&Vec::new()) {
        CorsOrigins::Any => {}
        CorsOrigins::List(_) => panic!("expected any"),
    }
}

#[test]
fn token_request_needs_consent_then_an_allowed_origin() {
    let c = config();
    let mut slot: Option<TokenRecord> = None;
    let r = create_local_token_at(&c, &mut slot, false, Some(ORIGIN), "t".to_string(), at(0));
    assert!(matches!(r, Err(ServiceError::ConsentRequired)));
    let r = create_local_token_at(&c, &mut slot, true, Some("http://evil.test"), "t".to_string(), at(0));
    assert!(matches!(r, Err(ServiceError::OriginNotAllowed)));
    let r = create_local_token_at(&c, &mut slot, true, None, "t".to_string(), at(0));
    assert!(matches!(r, Err(ServiceError::OriginNotAllowed)));
    assert!(slot.is_none());
}

#[test]
fn issued_token_is_good_for_one_scan() {
    let c = config();
    let mut slot: Option<TokenRecord> = None;
    let issued =
        create_local_token_at(&c, &mut slot, true, Some(ORIGIN), "abc".to_string(), at(1000)).unwrap();
    assert_eq!(issued.access_token, "abc");
    assert_eq!(issued.expires_at.secs, 1120);
    assert_eq!(issued.expires_at_text, "1970-01-01T00:18:40+00:00");
    assert_eq!(slot.as_ref().unwrap().value, "abc");

    assert!(scan_local_machine_at(&c, &mut slot, Some(ORIGIN), Some("abc"), None, at(1100)).is_ok());
    assert!(slot.is_none());
    let again = scan_local_machine_at(&c, &mut slot, Some(ORIGIN), Some("abc"), None, at(1101));
    assert!(matches!(again, Err(ServiceError::InvalidLocalToken)));
}

#[test]
fn bearer_header_carries_the_token_too() {
    let c = config();
    let mut slot: Option<TokenRecord> = None;
    create_local_token_at(&c, &mut slot, true, Some(ORIGIN), "xyz".to_string(), at(0)).unwrap();
    assert!(!consume_valid_local_token(&mut slot, None, Some("Token xyz"), at(1)));
    assert!(slot.is_some());
    assert!(!consume_valid_local_token(&mut slot, None, Some("Bearer xy"), at(1)));
    assert!(slot.is_some());
    assert!(consume_valid_local_token(&mut slot, None, Some("Bearer xyz"), at(1)));
    assert!(slot.is_none());
}

#[test]
fn local_token_header_takes_precedence() {
    let mut slot = Some(TokenRecord { value: "one".to_string(), expires_at: at(100) });
    assert!(!consume_valid_local_token(&mut slot, Some("two"), Some("Bearer one"), at(1)));
    assert!(slot.is_some());
    assert!(consume_valid_local_token(&mut slot, Some("one"), Some("Bearer two"), at(1)));
}

#[test]
fn expired_token_is_refused_and_dropped() {
    let mut slot = Some(TokenRecord { value: "abc".to_string(), expires_at: at(100) });
    assert!(!consume_valid_local_token(&mut slot, Some("abc"), None, at(100)));
    assert!(slot.is_none());
    let mut slot = Some(TokenRecord { value: "abc".to_string(), expires_at: Timestamp { secs: 100, nanos: 5 } });
    assert!(consume_valid_local_token(&mut slot, Some("abc"), None, Timestamp { secs: 100, nanos: 4 }));
}

#[test]
fn missing_token_leaves_the_held_one() {
    let mut slot = Some(TokenRecord { value: "abc".to_string(), expires_at: at(100) });
    assert!(!consume_valid_local_token(&mut slot, None, None, at(1000)));
    assert!(slot.is_some());
}

#[test]
fn scan_from_unknown_origin_is_forbidden_before_the_token_is_looked_at() {
    let c = config();
    let mut slot = Some(TokenRecord { value: "abc".to_string(), expires_at: at(100) });
    let r = scan_local_machine_at(&c, &mut slot, Some("http://evil.test"), Some("abc"), None, at(1));
    assert!(matches!(r, Err(ServiceError::OriginNotAllowed)));
    assert!(slot.is_some());
}

#[test]
fn new_token_replaces_the_old_one() {
    let c = config();
    let mut slot: Option<TokenRecord> = None;
    create_local_token_at(&c, &mut slot, true, Some(ORIGIN), "old".to_string(), at(0)).unwrap();
    create_local_token_at(&c, &mut slot, true, Some(ORIGIN), "new".to_string(), at(1)).unwrap();
    assert!(!consume_valid_local_token(&mut slot, Some("old"), None, at(2)));
    assert!(consume_valid_local_token(&mut slot, Some("new"), None, at(2)));
}

#[test]
fn unrepresentable_expiry_is_refused() {
    let mut c = config();
    c.token_ttl_seconds = i64::MAX;
    let mut slot: Option<TokenRecord> = None;
    let r = create_local_token_at(&c, &mut slot, true, Some(ORIGIN), "t".to_string(), at(10));
    assert!(matches!(r, Err(ServiceError::ExpiryOutOfRange)));
    c.token_ttl_seconds = 9_000_000_000_000;
    let r = create_local_token_at(&c, &mut slot, true, Some(ORIGIN), "t".to_string(), at(10));
    assert!(matches!(r, Err(ServiceError::ExpiryOutOfRange)));
    assert!(slot.is_none());
}

#[test]
fn live_token_request_issues_random_hex_tokens() {
    let c = config();
    let mut slot: Option<TokenRecord> = None;
    let first = create_local_token(&c, &mut slot, true, Some(ORIGIN)).unwrap();
    assert_eq!(first.access_token.len(), 64);
    assert!(first.access_token.chars().all(|ch| ch.is_ascii_hexdigit() && !ch.is_ascii_uppercase()));
    let second = create_local_token(&c, &mut slot, true, Some(ORIGIN)).unwrap();
    assert_ne!(first.access_token, second.access_token);
    assert_eq!(slot.as_ref().unwrap().value, second.access_token);
    assert!(scan_local_machine(&c, &mut slot, Some(ORIGIN), None, Some(&format!("Bearer {}", second.access_token))).is_ok());
    assert!(matches!(
        create_local_token(&c, &mut slot, false, Some(ORIGIN)),
        Err(ServiceError::ConsentRequired)
    ));
}

#[test]
fn tokens_are_two_zero_padded_hex_words() {
    let t = token_from_words(0xab, 1);
    assert_eq!(t, format!("{}ab{}1", "0".repeat(30), "0".repeat(31)));
    assert_eq!(token_from_words(u128::MAX, 0), format!("{}{}", "f".repeat(32), "0".repeat(32)));
    assert_eq!(generate_token().unwrap().len(), 64);
}

#[test]
fn times_are_written_in_rfc3339() {
    assert_eq!(timestamp_text(at(0)).unwrap(), "1970-01-01T00:00:00+00:00");
    assert_eq!(
        timestamp_text(Timestamp { secs: 1_700_000_000, nanos: 500_000_000 }).unwrap(),
        "2023-11-14T22:13:20.500+00:00"
    );
    assert!(timestamp_text(at(i64::MAX)).is_none());
}

#[test]
fn server_scan_needs_the_configured_key() {
    let c = config();
    assert!(scan_server_machine(&c, Some("SECRET-REDACTED")).is_ok());
    assert!(matches!(scan_server_machine(&c, Some("wrong")), Err(ServiceError::InvalidApiKey)));
    assert!(matches!(scan_server_machine(&c, None), Err(ServiceError::InvalidApiKey)));
    let unset = ServiceConfig::from_settings(None, None, None);
    assert!(matches!(scan_server_machine(&unset, Some("x")), Err(ServiceError::ApiKeyNotConfigured)));
    let empty = ServiceConfig::from_settings(None, None, Some(String::new()));
    assert!(scan_server_machine(&empty, None).is_ok());
}

#[test]
fn refusals_carry_status_and_message() {
    assert_eq!(ServiceError::ConsentRequired.status_code(), 400);
    assert_eq!(
        ServiceError::ConsentRequired.message(),
        "consent must be true for local hardware scanning"
    );
    assert_eq!(ServiceError::OriginNotAllowed.status_code(), 403);
    assert_eq!(ServiceError::OriginNotAllowed.message(), "origin is not allowed for local scanning");
    assert_eq!(ServiceError::InvalidLocalToken.status_code(), 401);
    assert_eq!(ServiceError::InvalidLocalToken.message(), "missing or invalid bearer token");
    assert_eq!(ServiceError::ApiKeyNotConfigured.status_code(), 503);
    assert_eq!(ServiceError::ApiKeyNotConfigured.message(), "SERVER_SCAN_API_KEY is not configured");
    assert_eq!(ServiceError::InvalidApiKey.status_code(), 401);
    assert_eq!(ServiceError::InvalidApiKey.message(), "invalid x-api-key");
    assert_eq!(ServiceError::ExpiryOutOfRange.status_code(), 500);
    assert_eq!(ServiceError::RandomnessUnavailable.status_code(), 500);
    assert_eq!(ServiceError::RandomnessUnavailable.message(), "random generator unavailable");
    assert_eq!(ServiceError::ClockUnavailable.status_code(), 500);
    assert_eq!(ServiceError::ClockUnavailable.message(), "system clock unavailable");
}

#[test]
fn custom_origin_setting_replaces_the_default() {
    let c = ServiceConfig::from_settings(Some("https://app.test"), Some("60"), None);
    assert_eq!(c.allowed_origins, vec!["https://app.test".to_string()]);
    assert_eq!(c.token_ttl_seconds, 60);
    assert!(!is_origin_allowed(Some(ORIGIN), &c.allowed_origins));
}

#[test]
fn token_is_recorded_only_with_a_written_expiry() {
    let mut slot = Some(TokenRecord { value: "held".to_string(), expires_at: at(50) });
    let r = record_local_token(&mut slot, "new".to_string(), at(100), None);
    assert!(matches!(r, Err(ServiceError::ExpiryOutOfRange)));
    assert_eq!(slot.as_ref().unwrap().value, "held");
    let issued =
        record_local_token(&mut slot, "new".to_string(), at(100), Some("then".to_string())).unwrap();
    assert_eq!(issued.access_token, "new");
    assert_eq!(issued.expires_at_text, "then");
    assert_eq!(slot.as_ref().unwrap().value, "new");
    assert_eq!(slot.as_ref().unwrap().expires_at.secs, 100);
}

#[test]
fn the_clock_reads_a_writable_time_after_the_epoch() {
    let now = current_time().expect("a clock after the Unix epoch");
    assert!(now.secs > 1_600_000_000);
    assert!(now.nanos < 1_000_000_000);
    assert!(timestamp_text(now).is_some());
}

#[test]
fn scan_without_a_token_is_refused_whatever_the_time() {
    let c = config();
    let mut slot: Option<TokenRecord> = None;
    let r = scan_local_machine(&c, &mut slot, Some(ORIGIN), Some("abc"), None);
    assert!(matches!(r, Err(ServiceError::InvalidLocalToken)));
    let mut slot = Some(TokenRecord { value: "abc".to_string(), expires_at: at(i64::MAX) });
    let r = scan_local_machine(&c, &mut slot, Some(ORIGIN), None, None);
    assert!(matches!(r, Err(ServiceError::InvalidLocalToken)));
    assert!(slot.is_some());
    assert!(scan_local_machine(&c, &mut slot, Some(ORIGIN), Some("abc"), None).is_ok());
}
