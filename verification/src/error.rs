//! The error taxonomy of the service.

use vstd::prelude::*;

verus! {

/// Why sealing or opening a payload failed.
#[derive(Clone, Copy, Debug, PartialEq, Eq, Structural)]
pub enum CryptoError {
    /// The ciphertext or the nonce is not well-formed base64 text.
    Encoding,
    /// The nonce does not have the length the cipher requires.
    NonceLength,
    /// The payload is longer than the cipher or the text encoding accepts.
    TooLong,
    /// The sealed box did not authenticate under this key and nonce.
    Authentication,
    /// The opened bytes are not valid UTF-8 text.
    Text,
}

/// Why a request was rejected before any work was done.
#[derive(Clone, Copy, Debug, PartialEq, Eq, Structural)]
pub enum ValidationError {
    /// The time to live is zero or negative.
    NonPositiveTtl,
    /// The view budget is zero or negative.
    NonPositiveMaxViews,
    /// The expiry instant cannot be represented.
    ExpiryOutOfRange,
}

/// Why the backing store refused an operation.
#[derive(Clone, Copy, Debug, PartialEq, Eq, Structural)]
pub enum StorageError {
    /// A record with the same id is already stored.
    DuplicateId,
    /// The store could not be reached or did not answer. A table held in
    /// memory never reports this; a store behind a connection does.
    Unavailable,
}

/// Everything a share or retrieve operation can fail with.
#[derive(Clone, Copy, Debug, PartialEq, Eq, Structural)]
pub enum AppError {
    /// No record, an expired record or an exhausted record: the three are
    /// deliberately indistinguishable.
    NotFound,
    Validation(ValidationError),
    Crypto(CryptoError),
    Storage(StorageError),
}

impl AppError {
    /// Whether the error is reported to the caller as an internal failure,
    /// without detail.
    pub open spec fn internal(self) -> bool {
        self is Crypto || self is Storage
    }

    /// The HTTP status that stands for the error.
    pub open spec fn status(self) -> int {
        match self {
            AppError::NotFound => 404,
            AppError::Validation(_) => 400,
            AppError::Crypto(_) => 500,
            AppError::Storage(_) => 500,
        }
    }

    /// The text shown to the caller. Internal failures all read alike, so
    /// that no cryptographic or storage diagnostics leak.
    pub open spec fn text(self) -> Seq<char> {
        match self {
            AppError::NotFound => "Not Found"@,
            AppError::Validation(ValidationError::NonPositiveTtl) => "expire_minutes must be positive"@,
            AppError::Validation(ValidationError::NonPositiveMaxViews) => "max_views must be positive"@,
            AppError::Validation(ValidationError::ExpiryOutOfRange) => "expire_minutes is out of range"@,
            AppError::Crypto(_) => "Internal Server Error"@,
            AppError::Storage(_) => "Internal Server Error"@,
        }
    }

    pub fn is_internal(&self) -> (b: bool)
        ensures
            b == self.internal(),
    {
        match self {
            AppError::Crypto(_) => true,
            AppError::Storage(_) => true,
            _ => false,
        }
    }

    pub fn status_code(&self) -> (code: u16)
        ensures
            code == self.status(),
    {
        match self {
            AppError::NotFound => 404,
            AppError::Validation(_) => 400,
            AppError::Crypto(_) => 500,
            AppError::Storage(_) => 500,
        }
    }

    pub fn message(&self) -> (s: String)
        ensures
            s@ == self.text(),
    {
        match self {
            AppError::NotFound => "Not Found".to_owned(),
            AppError::Validation(ValidationError::NonPositiveTtl) => "expire_minutes must be positive".to_owned(),
            AppError::Validation(ValidationError::NonPositiveMaxViews) => "max_views must be positive".to_owned(),
            AppError::Validation(ValidationError::ExpiryOutOfRange) => "expire_minutes is out of range".to_owned(),
            AppError::Crypto(_) => "Internal Server Error".to_owned(),
            AppError::Storage(_) => "Internal Server Error".to_owned(),
        }
    }
}

} // verus!
