//! Base64 text for stored bytes.
//!
//! Payloads travel between the cipher and the store as standard, padded
//! base64 text. The encoding itself is done by the `base64` crate; this
//! module names what it returns and checks the one bound it has.

use vstd::prelude::*;

verus! {

/// The standard padded base64 text of `bytes`, as the `base64` crate's
/// `STANDARD` engine writes it.
pub uninterp spec fn base64_text(bytes: Seq<u8>) -> Seq<char>;

/// The bytes that `text` stands for, or `None` where the `STANDARD` engine
/// rejects it.
pub uninterp spec fn base64_bytes(text: Seq<char>) -> Option<Seq<u8>>;

/// Whether the base64 text of `n` bytes, four characters for every three
/// bytes or part of them, is no longer than a buffer can be.
pub open spec fn encodable_len(n: nat) -> bool {
    4 * ((n + 2) / 3) <= isize::MAX
}

#[verifier::external_type_specification]
#[verifier::external_body]
pub struct ExDecodeError(base64::DecodeError);

/// `base64::Engine::encode` on the `STANDARD` engine.
///
/// Trusted: the text returned is the one named by [`base64_text`], and the
/// same engine decodes it back to `bytes`. The call panics where the text
/// would be longer than a buffer can be, hence the precondition.
#[verifier::external_body]
fn engine_encode(bytes: &[u8]) -> (text: String)
    requires
        encodable_len(bytes@.len()),
    ensures
        text@ == base64_text(bytes@),
        base64_bytes(text@) == Some(bytes@),
{
    base64::Engine::encode(&base64::engine::general_purpose::STANDARD, bytes)
}

/// `base64::Engine::decode` on the `STANDARD` engine.
///
/// Trusted: the outcome is the one named by [`base64_bytes`].
#[verifier::external_body]
fn engine_decode(text: &str) -> (res: Result<Vec<u8>, base64::DecodeError>)
    ensures
        match res {
            Ok(bytes) => base64_bytes(text@) == Some(bytes@),
            Err(_) => base64_bytes(text@) is None,
        },
{
    base64::Engine::decode(&base64::engine::general_purpose::STANDARD, text)
}

/// Whether `n` bytes can be written as base64 text on this machine.
pub fn fits_base64(n: usize) -> (ok: bool)
    ensures
        ok == encodable_len(n as nat),
{
    let chunks: usize = n / 3 + if n % 3 == 0 { 0 } else { 1 };
    assert(chunks == (n + 2) / 3);
    chunks <= (isize::MAX as usize) / 4
}

/// The base64 text of `bytes`; `None` exactly where it would be too long to
/// hold.
pub fn encode(bytes: &[u8]) -> (res: Option<String>)
    ensures
        res is Some <==> encodable_len(bytes@.len()),
        res matches Some(text) ==> text@ == base64_text(bytes@) && base64_bytes(text@) == Some(
            bytes@,
        ),
{
    if fits_base64(bytes.len()) {
        Some(engine_encode(bytes))
    } else {
        None
    }
}

/// The bytes behind base64 `text`; `None` exactly where the text is
/// malformed.
pub fn decode(text: &str) -> (res: Option<Vec<u8>>)
    ensures
        match res {
            Some(bytes) => base64_bytes(text@) == Some(bytes@),
            None => base64_bytes(text@) is None,
        },
{
    match engine_decode(text) {
        Ok(bytes) => Some(bytes),
        Err(_) => None,
    }
}

} // verus!
