//! Identifiers and expiry instants.

use vstd::prelude::*;

use crate::error::ValidationError;

verus! {

/// Microseconds in a minute.
pub const MICROS_PER_MINUTE: i64 = 60_000_000;

/// Minutes a secret lives when the request names none.
pub const DEFAULT_TTL_MINUTES: i32 = 60;

/// Views a secret allows when the request names none.
pub const DEFAULT_MAX_VIEWS: i32 = 1;

pub open spec fn is_lower_hex(c: char) -> bool {
    ('0' <= c && c <= '9') || ('a' <= c && c <= 'f')
}

/// The shape of a version 4 UUID in hyphenated lower-case form:
/// `xxxxxxxx-xxxx-4xxx-yxxx-xxxxxxxxxxxx`, with `y` one of `8 9 a b`.
pub open spec fn is_uuid_v4_text(s: Seq<char>) -> bool {
    &&& s.len() == 36
    &&& forall|i: int|
        0 <= i < 36 ==> if i == 8 || i == 13 || i == 18 || i == 23 {
            s[i] == '-'
        } else {
            is_lower_hex(#[trigger] s[i])
        }
    &&& s[14] == '4'
    &&& (s[19] == '8' || s[19] == '9' || s[19] == 'a' || s[19] == 'b')
}

/// A fresh random identifier: `uuid::Uuid::new_v4`, written out with
/// `to_string`.
///
/// Trusted: the text has the shape of a hyphenated version 4 UUID. Nothing
/// is claimed of its 122 random bits; two calls may return the same text,
/// however unlikely.
#[verifier::external_body]
pub fn generate_id() -> (id: String)
    ensures
        is_uuid_v4_text(id@),
{
    uuid::Uuid::new_v4().to_string()
}

/// The current instant: `chrono::Utc::now`, read with `timestamp_micros`.
///
/// Trusted: the reading is not before the Unix epoch (the call panics on a
/// system clock that is). Nothing else is claimed of it: two readings may
/// come in any order.
#[verifier::external_body]
pub(crate) fn clock_micros() -> (now: i64)
    ensures
        now >= 0,
{
    chrono::Utc::now().timestamp_micros()
}

/// The expiry instant of a secret shared at `now` for `minutes` minutes,
/// sixty where none is given.
pub open spec fn expiry_of(now: i64, minutes: Option<i32>) -> Result<i64, ValidationError> {
    let m = match minutes {
        Some(m) => m,
        None => DEFAULT_TTL_MINUTES,
    };
    if m <= 0 {
        Err(ValidationError::NonPositiveTtl)
    } else if now + m * MICROS_PER_MINUTE > i64::MAX {
        Err(ValidationError::ExpiryOutOfRange)
    } else {
        Ok((now + m * MICROS_PER_MINUTE) as i64)
    }
}

/// Computes [`expiry_of`].
pub fn expiry_at(now: i64, minutes: Option<i32>) -> (res: Result<i64, ValidationError>)
    ensures
        res == expiry_of(now, minutes),
{
    let m: i32 = match minutes {
        Some(m) => m,
        None => DEFAULT_TTL_MINUTES,
    };
    if m <= 0 {
        return Err(ValidationError::NonPositiveTtl);
    }
    let span: i64 = (m as i64) * MICROS_PER_MINUTE;
    match now.checked_add(span) {
        Some(at) => Ok(at),
        None => Err(ValidationError::ExpiryOutOfRange),
    }
}

/// The expiry instant of a secret shared now.
///
/// Whatever the clock reads, a time to live that is not positive is
/// rejected, and an instant that is returned lies after the reading by the
/// time to live exactly.
pub fn calculate_expiry(minutes: Option<i32>) -> (res: Result<i64, ValidationError>)
    ensures
        exists|now: i64| now >= 0 && res == #[trigger] expiry_of(now, minutes),
        (minutes matches Some(m) && m <= 0) <==> res == Err::<i64, ValidationError>(
            ValidationError::NonPositiveTtl,
        ),
{
    let now: i64 = clock_micros();
    expiry_at(now, minutes)
}

} // verus!
