use ephemeral_secrets::error::ValidationError;
use ephemeral_secrets::utils::{
    calculate_expiry, expiry_at, generate_id, DEFAULT_MAX_VIEWS, DEFAULT_TTL_MINUTES,
    MICROS_PER_MINUTE,
};

#[test]
fn defaults() {
    assert_eq!(DEFAULT_TTL_MINUTES, 60);
    assert_eq!(DEFAULT_MAX_VIEWS, 1);
    assert_eq!(MICROS_PER_MINUTE, 60_000_000);
}

#[test]
fn expiry_defaults_to_sixty_minutes() {
    assert_eq!(expiry_at(0, None), Ok(3_600_000_000));
    assert_eq!(expiry_at(1_700_000_000_000_000, None), Ok(1_700_003_600_000_000));
}

#[test]
fn expiry_adds_the_minutes() {
    assert_eq!(expiry_at(1_000, Some(1)), Ok(60_001_000));
    assert_eq!(expiry_at(-60_000_000, Some(1)), Ok(0));
    assert_eq!(expiry_at(5, Some(10)), Ok(600_000_005));
    assert_eq!(expiry_at(0, Some(i32::MAX)), Ok(2_147_483_647i64 * 60_000_000));
    assert_eq!(expiry_at(i64::MIN, Some(1)), Ok(i64::MIN + 60_000_000));
}

#[test]
fn expiry_rejects_non_positive_minutes() {
    assert_eq!(expiry_at(0, Some(0)), Err(ValidationError::NonPositiveTtl));
    assert_eq!(expiry_at(0, Some(-1)), Err(ValidationError::NonPositiveTtl));
    assert_eq!(expiry_at(0, Some(i32::MIN)), Err(ValidationError::NonPositiveTtl));
    assert_eq!(expiry_at(i64::MAX, Some(0)), Err(ValidationError::NonPositiveTtl));
}

#[test]
fn expiry_out_of_range() {
    assert_eq!(expiry_at(i64::MAX, Some(1)), Err(ValidationError::ExpiryOutOfRange));
    assert_eq!(expiry_at(i64::MAX - 59_999_999, Some(1)), Err(ValidationError::ExpiryOutOfRange));
    assert_eq!(expiry_at(i64::MAX - 60_000_000, Some(1)), Ok(i64::MAX));
    assert_eq!(expiry_at(i64::MAX, None), Err(ValidationError::ExpiryOutOfRange));
}

#[test]
fn calculate_expiry_reads_the_clock() {
    let before = chrono::Utc::now().timestamp_micros();
    let at = calculate_expiry(Some(2)).unwrap();
    let after = chrono::Utc::now().timestamp_micros();
    assert!(before + 120_000_000 <= at);
    assert!(at <= after + 120_000_000);

    let before = chrono::Utc::now().timestamp_micros();
    let at = calculate_expiry(None).unwrap();
    let after = chrono::Utc::now().timestamp_micros();
    assert!(before + 3_600_000_000 <= at);
    assert!(at <= after + 3_600_000_000);
}

#[test]
fn calculate_expiry_rejects_non_positive_minutes() {
    assert_eq!(calculate_expiry(Some(0)), Err(ValidationError::NonPositiveTtl));
    assert_eq!(calculate_expiry(Some(-30)), Err(ValidationError::NonPositiveTtl));
}

#[test]
fn generated_id_is_a_hyphenated_v4_uuid() {
    for _ in 0..100 {
        let id = generate_id();
        let chars: Vec<char> = id.chars().collect();
        assert_eq!(chars.len(), 36);
        for (i, c) in chars.iter().enumerate() {
            if i == 8 || i == 13 || i == 18 || i == 23 {
                assert_eq!(*c, '-');
            } else {
                assert!(matches!(*c, '0'..='9' | 'a'..='f'));
            }
        }
        assert_eq!(chars[14], '4');
        assert!(matches!(chars[19], '8' | '9' | 'a' | 'b'));
        assert!(uuid::Uuid::parse_str(&id).is_ok());
    }
}

#[test]
fn generated_ids_do_not_collide() {
    let mut seen = std::collections::HashSet::new();
    for _ in 0..20_000 {
        assert!(seen.insert(generate_id()));
    }
}
