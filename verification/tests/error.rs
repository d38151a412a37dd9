use ephemeral_secrets::error::{AppError, CryptoError, StorageError, ValidationError};

#[test]
fn not_found_is_a_404() {
    let e = AppError::NotFound;
    assert_eq!(e.status_code(), 404);
    assert_eq!(e.message(), "Not Found");
    assert!(!e.is_internal());
}

#[test]
fn validation_errors_are_400s_with_their_reason() {
    let ttl = AppError::Validation(ValidationError::NonPositiveTtl);
    let views = AppError::Validation(ValidationError::NonPositiveMaxViews);
    let range = AppError::Validation(ValidationError::ExpiryOutOfRange);
    assert_eq!(ttl.status_code(), 400);
    assert_eq!(views.status_code(), 400);
    assert_eq!(range.status_code(), 400);
    assert_eq!(ttl.message(), "expire_minutes must be positive");
    assert_eq!(views.message(), "max_views must be positive");
    assert_eq!(range.message(), "expire_minutes is out of range");
    assert!(!ttl.is_internal());
    assert!(!views.is_internal());
    assert!(!range.is_internal());
}

#[test]
fn crypto_and_storage_errors_are_opaque_500s() {
    let all = [
        AppError::Crypto(CryptoError::Encoding),
        AppError::Crypto(CryptoError::NonceLength),
        AppError::Crypto(CryptoError::TooLong),
        AppError::Crypto(CryptoError::Authentication),
        AppError::Crypto(CryptoError::Text),
        AppError::Storage(StorageError::DuplicateId),
        AppError::Storage(StorageError::Unavailable),
    ];
    for e in all {
        assert_eq!(e.status_code(), 500);
        assert_eq!(e.message(), "Internal Server Error");
        assert!(e.is_internal());
    }
}

#[test]
fn errors_compare_by_variant() {
    assert_eq!(AppError::NotFound, AppError::NotFound);
    assert_ne!(AppError::NotFound, AppError::Crypto(CryptoError::Authentication));
    assert_ne!(
        AppError::Crypto(CryptoError::Authentication),
        AppError::Crypto(CryptoError::Text)
    );
}
