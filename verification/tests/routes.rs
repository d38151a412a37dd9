use ephemeral_secrets::crypto::CryptoService;
use ephemeral_secrets::error::{AppError, CryptoError, StorageError, ValidationError};
use ephemeral_secrets::models::{NewSecret, ShareRequest};
use ephemeral_secrets::routes::{
    cleanup_expired_records, get_secret, get_secret_at, share_secret, share_with, AppState,
};
use ephemeral_secrets::store::SecretStore;

const MINUTE: i64 = 60_000_000;

fn state() -> AppState {
    AppState { crypto: CryptoService::new(), db: SecretStore::new() }
}

fn request(secret: &str, expire_minutes: Option<i32>, max_views: Option<i32>) -> ShareRequest {
    ShareRequest { secret: secret.to_string(), expire_minutes, max_views }
}

fn share_at(state: &mut AppState, id: &str, secret: &str, ttl: i32, views: i32, now: i64) {
    let nonce = CryptoService::fresh_nonce();
    let response = share_with(state, request(secret, Some(ttl), Some(views)), id.to_string(), now, &nonce).unwrap();
    assert_eq!(response.id, id);
    assert_eq!(response.expires_at, now + ttl as i64 * MINUTE);
    assert_eq!(response.max_views, views);
}

#[test]
fn share_stores_a_sealed_record() {
    let mut state = state();
    let nonce = vec![3u8; 12];
    let response = share_with(&mut state, request("top secret", Some(5), Some(2)), "abc".to_string(), 1_000, &nonce).unwrap();
    assert_eq!(response.id, "abc");
    assert_eq!(response.expires_at, 1_000 + 5 * MINUTE);
    assert_eq!(response.max_views, 2);

    assert_eq!(state.db.len(), 1);
    let row = state.db.get("abc").unwrap();
    assert_eq!(row.id, "abc");
    assert_eq!(row.nonce, nonce);
    assert_eq!(row.ciphertext.len(), "top secret".len() + 16);
    assert!(!row.ciphertext.windows(10).any(|w| w == "top secret".as_bytes()));
    assert_eq!(row.expires_at, 1_000 + 5 * MINUTE);
    assert_eq!(row.max_views, 2);
    assert_eq!(row.view_count, 0);
    assert_eq!(row.created_at, 1_000);
}

#[test]
fn share_applies_the_defaults() {
    let mut state = state();
    let nonce = CryptoService::fresh_nonce();
    let response = share_with(&mut state, request("s", None, None), "abc".to_string(), 0, &nonce).unwrap();
    assert_eq!(response.expires_at, 60 * MINUTE);
    assert_eq!(response.max_views, 1);
}

#[test]
fn share_then_retrieve_exactly_max_views_times() {
    for (ttl, max_views) in [(1, 1), (1, 2), (60, 3), (5, 10), (1440, 7)] {
        let mut state = state();
        let shared_at = 1_700_000_000_000_000;
        share_at(&mut state, "the-id", "the secret \u{1f512}", ttl, max_views, shared_at);
        let deadline = shared_at + ttl as i64 * MINUTE;
        for k in 0..max_views {
            let now = if k % 2 == 0 { shared_at + k as i64 } else { deadline };
            let response = get_secret_at(&mut state, "the-id", now).unwrap();
            assert_eq!(response.secret, "the secret \u{1f512}");
            assert_eq!(response.remaining_views, max_views - 1 - k);
            if k + 1 < max_views {
                assert_eq!(state.db.get("the-id").unwrap().view_count, k + 1);
            }
        }
        assert!(state.db.get("the-id").is_none());
        assert_eq!(state.db.len(), 0);
        assert_eq!(get_secret_at(&mut state, "the-id", shared_at).unwrap_err(), AppError::NotFound);
        assert_eq!(get_secret_at(&mut state, "the-id", deadline).unwrap_err(), AppError::NotFound);
    }
}

#[test]
fn retrieve_unknown_id_is_not_found() {
    let mut state = state();
    assert_eq!(get_secret_at(&mut state, "never-created", 0).unwrap_err(), AppError::NotFound);
    assert_eq!(get_secret(&mut state, "never-created").unwrap_err(), AppError::NotFound);
    assert_eq!(get_secret(&mut state, "").unwrap_err(), AppError::NotFound);

    share_at(&mut state, "known", "s", 1, 1, 0);
    assert_eq!(get_secret_at(&mut state, "unknown", 0).unwrap_err(), AppError::NotFound);
    assert_eq!(get_secret_at(&mut state, "Known", 0).unwrap_err(), AppError::NotFound);
    assert_eq!(get_secret_at(&mut state, "known ", 0).unwrap_err(), AppError::NotFound);
    assert_eq!(state.db.len(), 1);
    assert_eq!(state.db.get("known").unwrap().view_count, 0);
}

#[test]
fn retrieve_after_expiry_is_not_found() {
    let mut state = state();
    share_at(&mut state, "short-lived", "s", 1, 5, 1_000);
    let response = get_secret_at(&mut state, "short-lived", 1_000 + MINUTE).unwrap();
    assert_eq!(response.remaining_views, 4);
    assert_eq!(
        get_secret_at(&mut state, "short-lived", 1_000 + MINUTE + 1).unwrap_err(),
        AppError::NotFound
    );
    assert!(state.db.get("short-lived").is_none());
    assert_eq!(
        get_secret_at(&mut state, "short-lived", 1_000).unwrap_err(),
        AppError::NotFound
    );
}

#[test]
fn single_view_is_served_exactly_once() {
    let mut state = state();
    share_at(&mut state, "once", "only once", 10, 1, 0);
    let mut served = 0;
    let mut not_found = 0;
    for attempt in 0..25 {
        match get_secret_at(&mut state, "once", attempt) {
            Ok(response) => {
                assert_eq!(response.secret, "only once");
                assert_eq!(response.remaining_views, 0);
                served += 1;
            }
            Err(e) => {
                assert_eq!(e, AppError::NotFound);
                not_found += 1;
            }
        }
    }
    assert_eq!(served, 1);
    assert_eq!(not_found, 24);
}

#[test]
fn retrieve_leaves_other_records_alone() {
    let mut state = state();
    share_at(&mut state, "a", "secret a", 1, 2, 0);
    share_at(&mut state, "b", "secret b", 1, 2, 0);
    share_at(&mut state, "c", "secret c", 1, 1, 0);
    assert_eq!(get_secret_at(&mut state, "a", 1).unwrap().secret, "secret a");
    assert_eq!(get_secret_at(&mut state, "c", 1).unwrap().secret, "secret c");
    assert_eq!(state.db.len(), 2);
    assert_eq!(state.db.get("a").unwrap().view_count, 1);
    assert_eq!(state.db.get("b").unwrap().view_count, 0);
    let b = get_secret_at(&mut state, "b", 1).unwrap();
    assert_eq!(b.secret, "secret b");
    assert_eq!(b.remaining_views, 1);
}

#[test]
fn leftover_exhausted_record_is_deleted_on_read() {
    let mut state = state();
    share_at(&mut state, "left", "s", 1, 3, 0);
    state.db.set_view_count("left", 3);
    assert_eq!(get_secret_at(&mut state, "left", 1).unwrap_err(), AppError::NotFound);
    assert!(state.db.get("left").is_none());
}

#[test]
fn record_that_does_not_open_is_left_untouched() {
    let mut state = state();
    let stranger = CryptoService::new();
    let (ciphertext, nonce) = stranger.encrypt("sealed elsewhere").unwrap();
    let record = NewSecret {
        id: "foreign".to_string(),
        ciphertext: ephemeral_secrets::encoding::decode(&ciphertext).unwrap(),
        nonce: ephemeral_secrets::encoding::decode(&nonce).unwrap(),
        expires_at: 100,
        max_views: 2,
    };
    state.db.insert(record, 0).unwrap();
    for _ in 0..3 {
        assert_eq!(
            get_secret_at(&mut state, "foreign", 50).unwrap_err(),
            AppError::Crypto(CryptoError::Authentication)
        );
        let row = state.db.get("foreign").unwrap();
        assert_eq!(row.view_count, 0);
        assert_eq!(row.max_views, 2);
    }
    assert_eq!(get_secret_at(&mut state, "foreign", 101).unwrap_err(), AppError::NotFound);
    assert!(state.db.get("foreign").is_none());
}

#[test]
fn share_rejects_non_positive_ttl_and_budget() {
    let mut state = state();
    let nonce = CryptoService::fresh_nonce();
    let cases = [
        (Some(0), Some(1), ValidationError::NonPositiveTtl),
        (Some(-1), None, ValidationError::NonPositiveTtl),
        (Some(0), Some(0), ValidationError::NonPositiveTtl),
        (Some(1), Some(0), ValidationError::NonPositiveMaxViews),
        (None, Some(-7), ValidationError::NonPositiveMaxViews),
    ];
    for (ttl, views, expected) in cases {
        let err = share_with(&mut state, request("s", ttl, views), "x".to_string(), 0, &nonce).unwrap_err();
        assert_eq!(err, AppError::Validation(expected));
        assert_eq!(share_secret(&mut state, request("s", ttl, views)).unwrap_err(), AppError::Validation(expected));
    }
    assert_eq!(state.db.len(), 0);
}

#[test]
fn share_rejects_an_expiry_out_of_range() {
    let mut state = state();
    let nonce = CryptoService::fresh_nonce();
    let err = share_with(&mut state, request("s", Some(1), Some(1)), "x".to_string(), i64::MAX, &nonce).unwrap_err();
    assert_eq!(err, AppError::Validation(ValidationError::ExpiryOutOfRange));
    assert_eq!(state.db.len(), 0);
}

#[test]
fn share_rejects_a_nonce_of_wrong_length() {
    let mut state = state();
    let err = share_with(&mut state, request("s", Some(1), Some(1)), "x".to_string(), 0, &[1u8; 5]).unwrap_err();
    assert_eq!(err, AppError::Crypto(CryptoError::NonceLength));
    assert_eq!(state.db.len(), 0);
}

#[test]
fn share_under_a_taken_id_fails_loudly() {
    let mut state = state();
    share_at(&mut state, "dup", "first", 1, 2, 0);
    let nonce = CryptoService::fresh_nonce();
    let err = share_with(&mut state, request("second", Some(9), Some(9)), "dup".to_string(), 5, &nonce).unwrap_err();
    assert_eq!(err, AppError::Storage(StorageError::DuplicateId));
    assert_eq!(state.db.len(), 1);
    let row = state.db.get("dup").unwrap();
    assert_eq!(row.max_views, 2);
    assert_eq!(row.expires_at, MINUTE);
    assert_eq!(get_secret_at(&mut state, "dup", 1).unwrap().secret, "first");
}

#[test]
fn share_secret_then_get_secret() {
    let mut state = state();
    let before = chrono::Utc::now().timestamp_micros();
    let response = share_secret(&mut state, request("live secret", Some(3), Some(2))).unwrap();
    let after = chrono::Utc::now().timestamp_micros();
    assert_eq!(response.id.len(), 36);
    assert_eq!(response.max_views, 2);
    assert!(before + 3 * MINUTE <= response.expires_at);
    assert!(response.expires_at <= after + 3 * MINUTE);
    assert_eq!(state.db.get(&response.id).unwrap().expires_at, response.expires_at);

    let first = get_secret(&mut state, &response.id).unwrap();
    assert_eq!(first.secret, "live secret");
    assert_eq!(first.remaining_views, 1);
    let second = get_secret(&mut state, &response.id).unwrap();
    assert_eq!(second.secret, "live secret");
    assert_eq!(second.remaining_views, 0);
    assert_eq!(get_secret(&mut state, &response.id).unwrap_err(), AppError::NotFound);
}

#[test]
fn share_secret_gives_distinct_ids() {
    let mut state = state();
    let mut seen = std::collections::HashSet::new();
    for i in 0..500 {
        let response = share_secret(&mut state, request(&format!("secret {}", i), None, None)).unwrap();
        assert!(seen.insert(response.id));
    }
    assert_eq!(state.db.len(), 500);
}

#[test]
fn share_secret_accepts_empty_and_multi_byte_secrets() {
    let mut state = state();
    for secret in ["", "\u{e9}", "\u{1f600}\u{1f600}", "line one\nline two\t\u{0}"] {
        let response = share_secret(&mut state, request(secret, None, None)).unwrap();
        assert_eq!(get_secret(&mut state, &response.id).unwrap().secret, secret);
    }
}

#[test]
fn get_secret_drops_a_record_that_expired_long_ago() {
    let mut state = state();
    share_at(&mut state, "ancient", "s", 1, 5, 0);
    assert_eq!(get_secret(&mut state, "ancient").unwrap_err(), AppError::NotFound);
    assert_eq!(state.db.len(), 0);
}

#[test]
fn cleanup_removes_backdated_records_only() {
    let mut state = state();
    let now = chrono::Utc::now().timestamp_micros();
    for i in 0..7 {
        share_at(&mut state, &format!("old-{}", i), "s", 1, 3, now - 3_600 * 1_000_000 - i);
    }
    share_at(&mut state, "live-a", "secret a", 60, 2, now);
    share_at(&mut state, "live-b", "secret b", 1440, 1, now);
    assert_eq!(get_secret_at(&mut state, "live-a", now).unwrap().remaining_views, 1);
    assert_eq!(state.db.len(), 9);

    assert_eq!(cleanup_expired_records(&mut state.db), 7);
    assert_eq!(state.db.len(), 2);
    for i in 0..7 {
        assert!(state.db.get(&format!("old-{}", i)).is_none());
    }
    assert_eq!(state.db.get("live-a").unwrap().view_count, 1);
    assert_eq!(state.db.get("live-b").unwrap().view_count, 0);
    assert_eq!(cleanup_expired_records(&mut state.db), 0);
    assert_eq!(get_secret(&mut state, "live-a").unwrap().secret, "secret a");
    assert_eq!(get_secret(&mut state, "live-b").unwrap().secret, "secret b");
}

#[test]
fn restart_invalidates_stored_secrets() {
    let mut state = state();
    share_at(&mut state, "kept", "s", 10, 2, 0);
    state.crypto = CryptoService::new();
    assert_eq!(
        get_secret_at(&mut state, "kept", 1).unwrap_err(),
        AppError::Crypto(CryptoError::Authentication)
    );
    assert_eq!(state.db.get("kept").unwrap().view_count, 0);
}
