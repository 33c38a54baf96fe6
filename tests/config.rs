use marksman::config::{_default_party_size, default_date, valid_clock_time, Config};
use marksman::error::ResyClientError;

fn complete_config() -> Config {
    Config {
        api_key: "key".to_string(),
        auth_token: "token".to_string(),
        venue_id: "6194".to_string(),
        venue_slug: "carbone".to_string(),
        date: "2024-05-01".to_string(),
        party_size: 2,
        target_time: Some("1900".to_string()),
        payment_id: "42".to_string(),
    }
}

#[test]
fn default_config() {
    let c = Config::default();
    assert!(c.api_key.is_empty());
    assert!(c.auth_token.is_empty());
    assert!(c.venue_id.is_empty());
    assert!(c.venue_slug.is_empty());
    assert!(c.payment_id.is_empty());
    assert_eq!(c.party_size, 2);
    assert_eq!(_default_party_size(), 2);
    assert!(c.target_time.is_none());
    assert_eq!(c.date.len(), 10);
    assert_eq!(&c.date[4..5], "-");
    assert_eq!(default_date().len(), 10);
}

#[test]
fn validate_requires_credentials_venue_date_and_party() {
    assert!(complete_config().validate());
    let mut c = complete_config();
    c.auth_token = String::new();
    assert!(!c.validate());
    let mut c = complete_config();
    c.venue_id = String::new();
    assert!(!c.validate());
    let mut c = complete_config();
    c.date = String::new();
    assert!(!c.validate());
    let mut c = complete_config();
    c.party_size = 0;
    assert!(!c.validate());
    let mut c = complete_config();
    c.payment_id = String::new();
    assert!(!c.validate());
    assert!(matches!(c.check_complete(), Err(ResyClientError::InvalidInput(_))));
    assert_eq!(complete_config().check_complete(), Ok(()));
}

#[test]
fn duplicate_is_equal() {
    let c = complete_config();
    let d = c.duplicate();
    assert_eq!(d.api_key, c.api_key);
    assert_eq!(d.auth_token, c.auth_token);
    assert_eq!(d.venue_id, c.venue_id);
    assert_eq!(d.venue_slug, c.venue_slug);
    assert_eq!(d.date, c.date);
    assert_eq!(d.party_size, c.party_size);
    assert_eq!(d.target_time, c.target_time);
    assert_eq!(d.payment_id, c.payment_id);
}

#[test]
fn clock_times() {
    assert!(valid_clock_time("0000"));
    assert!(valid_clock_time("2359"));
    assert!(valid_clock_time("1930"));
    assert!(!valid_clock_time("2400"));
    assert!(!valid_clock_time("1260"));
    assert!(!valid_clock_time("930"));
    assert!(!valid_clock_time("19:30"));
    assert!(!valid_clock_time("ab12"));
    assert!(!valid_clock_time(""));
}

#[test]
fn view_options_are_taken() {
    let mut c = complete_config();
    c.apply_view_options(Some("2024-06-02"), Some(4), Some("2015")).unwrap();
    assert_eq!(c.date, "2024-06-02");
    assert_eq!(c.party_size, 4);
    assert_eq!(c.target_time.as_deref(), Some("2015"));
    assert_eq!(c.venue_id, "6194");
    c.apply_view_options(None, None, None).unwrap();
    assert_eq!(c.date, "2024-06-02");
    assert_eq!(c.party_size, 4);
    assert!(c.target_time.is_none());
}

#[test]
fn view_date_is_normalized() {
    let mut c = complete_config();
    c.apply_view_options(Some("2024-6-2"), None, None).unwrap();
    assert_eq!(c.date, "2024-06-02");
}

#[test]
fn bad_view_options_change_nothing() {
    let mut c = complete_config();
    let r = c.apply_view_options(Some("2024-13-01"), Some(6), Some("2015"));
    assert!(matches!(r, Err(ResyClientError::InvalidInput(_))));
    assert_eq!(c.date, "2024-05-01");
    assert_eq!(c.party_size, 2);
    let r = c.apply_view_options(Some("2024-06-02"), Some(6), Some("2460"));
    assert!(matches!(r, Err(ResyClientError::InvalidInput(_))));
    assert_eq!(c.date, "2024-05-01");
    assert_eq!(c.target_time.as_deref(), Some("1900"));
}

#[test]
fn normalized_options_are_taken() {
    let mut c = complete_config();
    c.apply_options(Some("2025-01-31".to_string()), Some(255), Some("0000")).unwrap();
    assert_eq!(c.date, "2025-01-31");
    assert_eq!(c.party_size, 255);
    assert_eq!(c.target_time.as_deref(), Some("0000"));
    let r = c.apply_options(Some("2026-02-01".to_string()), Some(1), Some("24:0"));
    assert!(matches!(r, Err(ResyClientError::InvalidInput(_))));
    assert_eq!(c.date, "2025-01-31");
    assert_eq!(c.party_size, 255);
}
