//! The two operations of the service, share and retrieve, and the sweep,
//! on a table held in memory.

use vstd::prelude::*;

use crate::crypto::CryptoService;
use crate::error::{AppError, ValidationError};
use crate::lifecycle::{
    freshly_shared, plan_share, plan_view, after_retrieve, retrieved_view, after_share, shared_view,
};
use crate::models::{RetrieveResponse, ShareRequest, ShareResponse};
use crate::store::{has_id, lemma_lookup_unique, purged, unique_ids, SecretStore};
use crate::utils::{clock_micros, generate_id};

verus! {

/// What the operations work on: the key holder and the table.
pub struct AppState {
    pub crypto: CryptoService,
    pub db: SecretStore,
}

/// Shares a secret at instant `now`, under identifier `id` and nonce
/// `nonce`.
///
/// Table and answer are exactly [`after_share`]. The record of a share that
/// went through stands in the table as [`freshly_shared`] says.
pub fn share_with(state: &mut AppState, payload: ShareRequest, id: String, now: i64, nonce: &[
    u8
]) -> (res: Result<ShareResponse, AppError>)
    ensures
        final(state).crypto.key() == old(state).crypto.key(),
        (final(state).db@, shared_view(res)) == after_share(
            old(state).crypto.key(),
            old(state).db@,
            payload.secret@,
            payload.expire_minutes,
            payload.max_views,
            id@,
            now,
            nonce@,
        ),
        res matches Ok(response) ==> freshly_shared(
            old(state).crypto.key(),
            final(state).db@,
            id@,
            payload.secret@,
            response.expires_at,
            response.max_views,
        ),
        unique_ids(final(state).db@),
{
    let ghost rows = state.db@;
    state.db.ids_stay_unique();
    let record = match plan_share(&state.crypto, &payload, id.clone(), now, nonce) {
        Ok(record) => record,
        Err(e) => {
            return Err(e);
        },
    };
    let expires_at: i64 = record.expires_at;
    let max_views: i32 = record.max_views;
    let ghost row = record.row(now);
    match state.db.insert(record, now) {
        Ok(()) => {
            proof {
                assert(state.db@[rows.len() as int] == row);
                lemma_lookup_unique(state.db@, rows.len() as int);
            }
            Ok(ShareResponse { id, expires_at, max_views })
        },
        Err(e) => Err(AppError::Storage(e)),
    }
}

/// Shares a secret now, under a fresh random identifier and nonce, and
/// answers with the id, the expiry and the view budget.
///
/// Whatever identifier, clock reading and nonce came up, table and answer
/// are what [`after_share`] gives for them. A request with a time to live or
/// a view budget that is not positive is always rejected, and a share that
/// fails leaves the table as it was.
pub fn share_secret(state: &mut AppState, payload: ShareRequest) -> (res: Result<
    ShareResponse,
    AppError,
>)
    ensures
        final(state).crypto.key() == old(state).crypto.key(),
        exists|id: Seq<char>, now: i64, nonce: Seq<u8>|
            now >= 0 && (final(state).db@, shared_view(res)) == #[trigger] after_share(
                old(state).crypto.key(),
                old(state).db@,
                payload.secret@,
                payload.expire_minutes,
                payload.max_views,
                id,
                now,
                nonce,
            ),
        (payload.expire_minutes matches Some(m) && m <= 0) ==> res == Err::<
            ShareResponse,
            AppError,
        >(AppError::Validation(ValidationError::NonPositiveTtl)),
        (payload.max_views matches Some(m) && m <= 0) ==> res matches Err(
            AppError::Validation(_),
        ),
        res is Err ==> final(state).db@ == old(state).db@,
        res matches Ok(response) ==> freshly_shared(
            old(state).crypto.key(),
            final(state).db@,
            response.id@,
            payload.secret@,
            response.expires_at,
            response.max_views,
        ),
        unique_ids(final(state).db@),
{
    let id = generate_id();
    let now: i64 = clock_micros();
    let nonce = CryptoService::fresh_nonce();
    share_with(state, payload, id, now, nonce.as_slice())
}

/// Retrieves the secret stored under `secret_id`, at instant `now`.
///
/// Table and answer are exactly [`after_retrieve`]: a missing, expired or
/// exhausted record gives `NotFound`, and the latter two are deleted; a
/// record that does not open is left untouched and reported as a crypto
/// error; otherwise the view is counted, or the record deleted if it was
/// the last one, and the secret is returned with the views that remain.
pub fn get_secret_at(state: &mut AppState, secret_id: &str, now: i64) -> (res: Result<
    RetrieveResponse,
    AppError,
>)
    ensures
        final(state).crypto.key() == old(state).crypto.key(),
        (final(state).db@, retrieved_view(res)) == after_retrieve(
            old(state).crypto.key(),
            old(state).db@,
            secret_id@,
            now,
        ),
        unique_ids(final(state).db@),
{
    let (action, answer) = plan_view(&state.crypto, state.db.get(secret_id), now);
    state.db.apply(secret_id, action);
    answer
}

/// Retrieves the secret stored under `secret_id`, now.
///
/// Whatever the clock reads, table and answer are what [`after_retrieve`]
/// gives for that reading; an id that is not in the table gives `NotFound`
/// and changes nothing.
pub fn get_secret(state: &mut AppState, secret_id: &str) -> (res: Result<
    RetrieveResponse,
    AppError,
>)
    ensures
        final(state).crypto.key() == old(state).crypto.key(),
        exists|now: i64|
            now >= 0 && (final(state).db@, retrieved_view(res)) == #[trigger] after_retrieve(
                old(state).crypto.key(),
                old(state).db@,
                secret_id@,
                now,
            ),
        !has_id(old(state).db@, secret_id@) ==> res == Err::<RetrieveResponse, AppError>(
            AppError::NotFound,
        ) && final(state).db@ == old(state).db@,
        unique_ids(final(state).db@),
{
    let now: i64 = clock_micros();
    get_secret_at(state, secret_id, now)
}

/// The periodic sweep: deletes every record that is expired now and returns
/// how many went.
///
/// Whatever the clock reads, the table is [`purged`] at that reading and
/// the count is the number of rows that went.
pub fn cleanup_expired_records(db: &mut SecretStore) -> (count: usize)
    ensures
        exists|now: i64| now >= 0 && final(db)@ == #[trigger] purged(old(db)@, now),
        count == old(db)@.len() - final(db)@.len(),
        unique_ids(final(db)@),
{
    let now: i64 = clock_micros();
    db.purge_expired(now)
}

} // verus!
