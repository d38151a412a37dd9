//! The life of one secret: what a share stores, what a read decides, and
//! what both do to the table.
//!
//! A record is active while it is neither expired nor exhausted. A read of
//! an active record serves the secret and counts the view; the read that
//! uses up the last view deletes the record instead. Any read that finds a
//! record expired or exhausted deletes it. A deleted record cannot be told
//! from one that never existed.
//!
//! The decisions here do not touch a table: they take what was read from it
//! and say what to answer and what to write back, so that any backing store
//! can carry them out.

use vstd::prelude::*;
use vstd::utf8::*;

use crate::crypto::{
    aes256gcm_sealed, lemma_sealed_opens, open_stored, opened_view, seal_text, CryptoService,
};
use crate::encoding::{decode, encode};
use crate::error::{AppError, CryptoError, StorageError, ValidationError};
use crate::models::{NewSecret, RetrieveResponse, Secret, SecretView, ShareRequest, ShareResponse};
use crate::store::{applied, expired, has_id, is_expired, lookup, StoreAction};
use crate::utils::{expiry_at, expiry_of, DEFAULT_MAX_VIEWS};

verus! {

/// What a read of a record leads to.
#[derive(Clone, Copy, Debug, PartialEq, Eq, Structural)]
pub enum ViewDecision {
    /// The record is expired or exhausted: it is deleted and the read finds
    /// nothing.
    Gone,
    /// The record is active: the secret is served, the record then has
    /// `view_count` views behind it and `remaining_views` ahead. With none
    /// ahead it is deleted.
    Serve { view_count: i32, remaining_views: i32 },
}

/// Whether a record has no views left. A count that is negative has left
/// the range of the data model and is treated alike.
pub open spec fn exhausted(row: SecretView) -> bool {
    row.view_count < 0 || row.view_count >= row.max_views
}

/// Whether a record can still be read at `now`.
pub open spec fn active(row: SecretView, now: i64) -> bool {
    !expired(row, now) && !exhausted(row)
}

/// What a read of `row` at `now` leads to.
pub open spec fn decision(row: SecretView, now: i64) -> ViewDecision {
    if active(row, now) {
        ViewDecision::Serve {
            view_count: (row.view_count + 1) as i32,
            remaining_views: (row.max_views - row.view_count - 1) as i32,
        }
    } else {
        ViewDecision::Gone
    }
}

/// Decides a read of `row` at `now`: expiry first, then the view budget.
pub fn decide_view(row: &Secret, now: i64) -> (d: ViewDecision)
    ensures
        d == decision(row@, now),
{
    if is_expired(row.expires_at, now) {
        return ViewDecision::Gone;
    }
    if row.view_count < 0 || row.view_count >= row.max_views {
        return ViewDecision::Gone;
    }
    let seen: i32 = row.view_count + 1;
    ViewDecision::Serve { view_count: seen, remaining_views: row.max_views - seen }
}

/// A retrieve answer with its secret taken as a sequence of characters.
pub open spec fn retrieved_view(res: Result<RetrieveResponse, AppError>) -> Result<
    (Seq<char>, i32),
    AppError,
> {
    match res {
        Ok(response) => Ok((response.secret@, response.remaining_views)),
        Err(e) => Err(e),
    }
}

/// A share answer with its id taken as a sequence of characters.
pub open spec fn shared_view(res: Result<ShareResponse, AppError>) -> Result<
    (Seq<char>, i64, i32),
    AppError,
> {
    match res {
        Ok(response) => Ok((response.id@, response.expires_at, response.max_views)),
        Err(e) => Err(e),
    }
}

/// What was found in the table, as plain values.
pub open spec fn found_view(found: Option<&Secret>) -> Option<SecretView> {
    match found {
        Some(row) => Some(row@),
        None => None,
    }
}

/// What a read answers and what it asks of the table, given what was found
/// under the id, by a service that holds `key`.
///
/// Nothing found: `NotFound`, and nothing to do. An expired or exhausted
/// record: `NotFound`, and the record is deleted. A record that does not
/// open: a crypto error, and the record stays as it is. Otherwise the
/// secret with the views that remain; the record is deleted if none
/// remain, and has the view counted if some do.
pub open spec fn view_outcome(key: Seq<u8>, found: Option<SecretView>, now: i64) -> (
    StoreAction,
    Result<(Seq<char>, i32), AppError>,
) {
    match found {
        None => (StoreAction::Nothing, Err(AppError::NotFound)),
        Some(row) => match decision(row, now) {
            ViewDecision::Gone => (StoreAction::Delete, Err(AppError::NotFound)),
            ViewDecision::Serve { view_count, remaining_views } => match open_stored(
                key,
                row.ciphertext,
                row.nonce,
            ) {
                Err(e) => (StoreAction::Nothing, Err(AppError::Crypto(e))),
                Ok(secret) => (
                    if remaining_views == 0 {
                        StoreAction::Delete
                    } else {
                        StoreAction::SetViewCount(view_count)
                    },
                    Ok((secret, remaining_views)),
                ),
            },
        },
    }
}

/// The table and the answer after a read of `id` at `now`.
pub open spec fn after_retrieve(key: Seq<u8>, rows: Seq<SecretView>, id: Seq<char>, now: i64) -> (
    Seq<SecretView>,
    Result<(Seq<char>, i32), AppError>,
) {
    let outcome = view_outcome(key, lookup(rows, id), now);
    (applied(rows, id, outcome.0), outcome.1)
}

/// Opens the payload of a stored record: box and nonce go to the cipher as
/// base64 text.
fn open_row(crypto: &CryptoService, row: &Secret) -> (res: Result<String, CryptoError>)
    ensures
        opened_view(res) == open_stored(crypto.key(), row@.ciphertext, row@.nonce),
{
    let ciphertext = match encode(row.ciphertext.as_slice()) {
        Some(text) => text,
        None => {
            return Err(CryptoError::TooLong);
        },
    };
    let nonce = match encode(row.nonce.as_slice()) {
        Some(text) => text,
        None => {
            return Err(CryptoError::TooLong);
        },
    };
    crypto.decrypt(ciphertext.as_str(), nonce.as_str())
}

/// Decides a read at `now` from what was found under the id: the action
/// for the table and the answer for the caller, exactly [`view_outcome`].
///
/// The payload is opened before anything is written, so a record that does
/// not open has not lost a view.
pub fn plan_view(crypto: &CryptoService, found: Option<&Secret>, now: i64) -> (plan: (
    StoreAction,
    Result<RetrieveResponse, AppError>,
))
    ensures
        (plan.0, retrieved_view(plan.1)) == view_outcome(crypto.key(), found_view(found), now),
{
    let row = match found {
        Some(row) => row,
        None => {
            return (StoreAction::Nothing, Err(AppError::NotFound));
        },
    };
    match decide_view(row, now) {
        ViewDecision::Gone => (StoreAction::Delete, Err(AppError::NotFound)),
        ViewDecision::Serve { view_count, remaining_views } => match open_row(crypto, row) {
            Err(e) => (StoreAction::Nothing, Err(AppError::Crypto(e))),
            Ok(secret) => {
                let action = if remaining_views == 0 {
                    StoreAction::Delete
                } else {
                    StoreAction::SetViewCount(view_count)
                };
                (action, Ok(RetrieveResponse { secret, remaining_views }))
            },
        },
    }
}

/// The view budget of a request, one where none is given.
pub open spec fn budget_of(max_views: Option<i32>) -> Result<i32, ValidationError> {
    let m = match max_views {
        Some(m) => m,
        None => DEFAULT_MAX_VIEWS,
    };
    if m <= 0 {
        Err(ValidationError::NonPositiveMaxViews)
    } else {
        Ok(m)
    }
}

/// The record that a share at `now` makes, under identifier `id` and nonce
/// `nonce`, by a service that holds `key`.
///
/// The request is validated first, time to live before view budget; then
/// the secret is sealed.
pub open spec fn record_of_share(
    key: Seq<u8>,
    secret: Seq<char>,
    expire_minutes: Option<i32>,
    max_views: Option<i32>,
    id: Seq<char>,
    now: i64,
    nonce: Seq<u8>,
) -> Result<SecretView, AppError> {
    match expiry_of(now, expire_minutes) {
        Err(e) => Err(AppError::Validation(e)),
        Ok(expires_at) => match budget_of(max_views) {
            Err(e) => Err(AppError::Validation(e)),
            Ok(budget) => match seal_text(key, nonce, secret) {
                Err(e) => Err(AppError::Crypto(e)),
                Ok(_) => Ok(
                    SecretView {
                        id,
                        ciphertext: aes256gcm_sealed(key, nonce, encode_utf8(secret)),
                        nonce,
                        expires_at,
                        max_views: budget,
                        view_count: 0,
                        created_at: now,
                    },
                ),
            },
        },
    }
}

/// The table and the answer after a share: the record of
/// [`record_of_share`] is inserted, which a taken id stops. The answer to
/// a share that went through is the id, the expiry and the view budget. A
/// share that fails leaves the table as it was.
pub open spec fn after_share(
    key: Seq<u8>,
    rows: Seq<SecretView>,
    secret: Seq<char>,
    expire_minutes: Option<i32>,
    max_views: Option<i32>,
    id: Seq<char>,
    now: i64,
    nonce: Seq<u8>,
) -> (Seq<SecretView>, Result<(Seq<char>, i64, i32), AppError>) {
    match record_of_share(key, secret, expire_minutes, max_views, id, now, nonce) {
        Err(e) => (rows, Err(e)),
        Ok(row) => if has_id(rows, id) {
            (rows, Err(AppError::Storage(StorageError::DuplicateId)))
        } else {
            (rows.push(row), Ok((id, row.expires_at, row.max_views)))
        },
    }
}

/// Whether the record under `id` is as a share of `secret` leaves it: not
/// viewed yet, with this expiry and this budget of at least one view, and
/// opening to `secret` under `key`.
pub open spec fn freshly_shared(
    key: Seq<u8>,
    rows: Seq<SecretView>,
    id: Seq<char>,
    secret: Seq<char>,
    expires_at: i64,
    max_views: i32,
) -> bool {
    &&& max_views >= 1
    &&& lookup(rows, id) matches Some(row) && row.expires_at == expires_at && row.max_views
        == max_views && row.view_count == 0 && open_stored(key, row.ciphertext, row.nonce) == Ok::<
        Seq<char>,
        CryptoError,
    >(secret)
}

/// Seals `secret` and returns the sealed box and the nonce as the bytes to
/// store: both come from the cipher as base64 text.
fn seal_for_storage(crypto: &CryptoService, secret: &str, nonce: &[u8]) -> (res: Result<
    (Vec<u8>, Vec<u8>),
    CryptoError,
>)
    ensures
        match res {
            Ok((sealed, stored_nonce)) => seal_text(crypto.key(), nonce@, secret@) is Ok
                && sealed@ == aes256gcm_sealed(crypto.key(), nonce@, encode_utf8(secret@))
                && stored_nonce@ == nonce@ && open_stored(crypto.key(), sealed@, stored_nonce@)
                == Ok::<Seq<char>, CryptoError>(secret@),
            Err(e) => seal_text(crypto.key(), nonce@, secret@) == Err::<
                (Seq<char>, Seq<char>),
                CryptoError,
            >(e),
        },
{
    let (ciphertext, nonce_text) = match crypto.encrypt_with_nonce(secret, nonce) {
        Ok(pair) => pair,
        Err(e) => {
            return Err(e);
        },
    };
    proof {
        lemma_sealed_opens(crypto.key(), nonce@, secret@);
    }
    let sealed = match decode(ciphertext.as_str()) {
        Some(bytes) => bytes,
        None => {
            return Err(CryptoError::Encoding);
        },
    };
    let stored_nonce = match decode(nonce_text.as_str()) {
        Some(bytes) => bytes,
        None => {
            return Err(CryptoError::Encoding);
        },
    };
    Ok((sealed, stored_nonce))
}

/// Makes the record of a share at `now`, under identifier `id` and nonce
/// `nonce`: exactly [`record_of_share`]. The record opens to the secret
/// again under the key of the service.
pub fn plan_share(
    crypto: &CryptoService,
    payload: &ShareRequest,
    id: String,
    now: i64,
    nonce: &[u8],
) -> (res: Result<NewSecret, AppError>)
    ensures
        match res {
            Ok(record) => record_of_share(
                crypto.key(),
                payload.secret@,
                payload.expire_minutes,
                payload.max_views,
                id@,
                now,
                nonce@,
            ) == Ok::<SecretView, AppError>(record.row(now)) && record.max_views >= 1
                && open_stored(crypto.key(), record.ciphertext@, record.nonce@) == Ok::<
                Seq<char>,
                CryptoError,
            >(payload.secret@),
            Err(e) => record_of_share(
                crypto.key(),
                payload.secret@,
                payload.expire_minutes,
                payload.max_views,
                id@,
                now,
                nonce@,
            ) == Err::<SecretView, AppError>(e),
        },
{
    let expires_at: i64 = match expiry_at(now, payload.expire_minutes) {
        Ok(at) => at,
        Err(e) => {
            return Err(AppError::Validation(e));
        },
    };
    let max_views: i32 = match payload.max_views {
        Some(m) => m,
        None => DEFAULT_MAX_VIEWS,
    };
    if max_views <= 0 {
        return Err(AppError::Validation(ValidationError::NonPositiveMaxViews));
    }
    let (ciphertext, stored_nonce) = match seal_for_storage(crypto, payload.secret.as_str(), nonce) {
        Ok(pair) => pair,
        Err(e) => {
            return Err(AppError::Crypto(e));
        },
    };
    Ok(NewSecret { id, ciphertext, nonce: stored_nonce, expires_at, max_views })
}

} // verus!
