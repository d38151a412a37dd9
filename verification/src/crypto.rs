//! Authenticated encryption of secret text under one process-held key.
//!
//! The cipher is AES-256-GCM from the `aes-gcm` crate, with no associated
//! data. The key lives only in memory: a restarted process cannot open what
//! an earlier one sealed.

use aes_gcm::aead::{Aead, AeadCore, KeyInit, OsRng};
use aes_gcm::{Aes256Gcm, Key, Nonce};
use vstd::prelude::*;
use vstd::utf8::*;

use crate::encoding::{
    base64_bytes, base64_text, decode, encodable_len, encode, fits_base64,
};
use crate::error::CryptoError;

verus! {

/// Bytes in a key.
pub const KEY_LEN: usize = 32;

/// Bytes in a nonce.
pub const NONCE_LEN: usize = 12;

/// Bytes the authentication tag adds to a sealed payload.
pub const TAG_LEN: usize = 16;

/// The longest plaintext, in bytes, that the cipher seals.
pub const MAX_PLAINTEXT_LEN: u64 = 0x10_0000_0000;

/// The sealed box (ciphertext followed by tag) that AES-256-GCM makes of
/// `plaintext` under `key` and `nonce`, with no associated data.
pub uninterp spec fn aes256gcm_sealed(key: Seq<u8>, nonce: Seq<u8>, plaintext: Seq<u8>) -> Seq<u8>;

/// The plaintext that AES-256-GCM opens `sealed` to under `key` and `nonce`,
/// or `None` where the box does not authenticate.
pub uninterp spec fn aes256gcm_opened(key: Seq<u8>, nonce: Seq<u8>, sealed: Seq<u8>) -> Option<
    Seq<u8>,
>;

#[verifier::external_type_specification]
#[verifier::external_body]
pub struct ExAeadError(aes_gcm::Error);

#[verifier::external_type_specification]
#[verifier::external_body]
pub struct ExFromUtf8Error(std::string::FromUtf8Error);

/// `KeyInit::generate_key` for `Aes256Gcm`, on the operating system's random
/// number generator.
///
/// Trusted: the key has 32 bytes. Nothing is claimed of their values.
#[verifier::external_body]
fn random_key() -> (key: Vec<u8>)
    ensures
        key@.len() == KEY_LEN,
{
    Aes256Gcm::generate_key(OsRng).to_vec()
}

/// `AeadCore::generate_nonce` for `Aes256Gcm`, on the operating system's
/// random number generator.
///
/// Trusted: the nonce has 12 bytes. Nothing is claimed of their values.
#[verifier::external_body]
fn random_nonce() -> (nonce: Vec<u8>)
    ensures
        nonce@.len() == NONCE_LEN,
{
    Aes256Gcm::generate_nonce(&mut OsRng).to_vec()
}

/// `Aead::encrypt` of `Aes256Gcm`, keyed by `key`.
///
/// Trusted: sealing succeeds exactly on plaintexts of at most 2^36 bytes;
/// the box is the one named by [`aes256gcm_sealed`], is 16 bytes longer than
/// the plaintext, and opens to the plaintext under the same key and nonce.
/// Key and nonce of another length make the call panic, and so does a
/// plaintext whose box would be longer than a buffer can be, hence the
/// precondition.
#[verifier::external_body]
fn aead_seal(key: &[u8], nonce: &[u8], plaintext: &[u8]) -> (res: Result<Vec<u8>, aes_gcm::Error>)
    requires
        key@.len() == KEY_LEN,
        nonce@.len() == NONCE_LEN,
        plaintext@.len() + TAG_LEN <= isize::MAX,
    ensures
        res is Ok <==> plaintext@.len() <= MAX_PLAINTEXT_LEN,
        res matches Ok(sealed) ==> sealed@ == aes256gcm_sealed(key@, nonce@, plaintext@),
        res matches Ok(sealed) ==> sealed@.len() == plaintext@.len() + TAG_LEN,
        res matches Ok(sealed) ==> aes256gcm_opened(key@, nonce@, sealed@) == Some(plaintext@),
{
    let cipher = Aes256Gcm::new(Key::<Aes256Gcm>::from_slice(key));
    cipher.encrypt(Nonce::from_slice(nonce), plaintext)
}

/// `Aead::decrypt` of `Aes256Gcm`, keyed by `key`.
///
/// Trusted: the outcome is the one named by [`aes256gcm_opened`], and a box
/// too short to hold a tag never opens. Key and nonce of another length
/// make the call panic, hence the precondition.
#[verifier::external_body]
fn aead_open(key: &[u8], nonce: &[u8], sealed: &[u8]) -> (res: Result<Vec<u8>, aes_gcm::Error>)
    requires
        key@.len() == KEY_LEN,
        nonce@.len() == NONCE_LEN,
    ensures
        match res {
            Ok(plaintext) => aes256gcm_opened(key@, nonce@, sealed@) == Some(plaintext@),
            Err(_) => aes256gcm_opened(key@, nonce@, sealed@) is None,
        },
        sealed@.len() < TAG_LEN ==> res is Err,
{
    let cipher = Aes256Gcm::new(Key::<Aes256Gcm>::from_slice(key));
    cipher.decrypt(Nonce::from_slice(nonce), sealed)
}

/// `String::from_utf8`.
///
/// Trusted: the bytes are accepted exactly when they are valid UTF-8, and
/// the string then holds the characters they encode.
#[verifier::external_body]
fn string_from_utf8(bytes: Vec<u8>) -> (res: Result<String, std::string::FromUtf8Error>)
    ensures
        match res {
            Ok(text) => valid_utf8(bytes@) && text@ == decode_utf8(bytes@),
            Err(_) => !valid_utf8(bytes@),
        },
{
    String::from_utf8(bytes)
}

/// Whether `plaintext` is short enough to be sealed and written as text.
pub open spec fn sealable(plaintext: Seq<char>) -> bool {
    let len = encode_utf8(plaintext).len();
    len <= MAX_PLAINTEXT_LEN && encodable_len((len + TAG_LEN) as nat)
}

/// What sealing `plaintext` under `key` and `nonce` gives: the base64 text
/// of the sealed box and of the nonce.
pub open spec fn seal_text(key: Seq<u8>, nonce: Seq<u8>, plaintext: Seq<char>) -> Result<
    (Seq<char>, Seq<char>),
    CryptoError,
> {
    if nonce.len() != NONCE_LEN {
        Err(CryptoError::NonceLength)
    } else if !sealable(plaintext) {
        Err(CryptoError::TooLong)
    } else {
        Ok((base64_text(aes256gcm_sealed(key, nonce, encode_utf8(plaintext))), base64_text(nonce)))
    }
}

/// What opening the sealed box `sealed` under `key` and `nonce` gives. A
/// box too short to hold a tag does not authenticate, whatever the key.
pub open spec fn open_bytes(key: Seq<u8>, sealed: Seq<u8>, nonce: Seq<u8>) -> Result<
    Seq<char>,
    CryptoError,
> {
    if nonce.len() != NONCE_LEN {
        Err(CryptoError::NonceLength)
    } else if sealed.len() < TAG_LEN {
        Err(CryptoError::Authentication)
    } else {
        match aes256gcm_opened(key, nonce, sealed) {
            None => Err(CryptoError::Authentication),
            Some(bytes) => if valid_utf8(bytes) {
                Ok(decode_utf8(bytes))
            } else {
                Err(CryptoError::Text)
            },
        }
    }
}

/// What opening a box and a nonce given as base64 text gives.
pub open spec fn open_text(key: Seq<u8>, ciphertext: Seq<char>, nonce: Seq<char>) -> Result<
    Seq<char>,
    CryptoError,
> {
    match base64_bytes(ciphertext) {
        None => Err(CryptoError::Encoding),
        Some(sealed) => match base64_bytes(nonce) {
            None => Err(CryptoError::Encoding),
            Some(nonce_bytes) => open_bytes(key, sealed, nonce_bytes),
        },
    }
}

/// What holds of a sealing that succeeded: the box is a tag longer than the
/// plaintext and opens to it again, and box and nonce survive the trip
/// through base64 text.
pub open spec fn seal_opens(key: Seq<u8>, nonce: Seq<u8>, plaintext: Seq<char>) -> bool {
    let bytes = encode_utf8(plaintext);
    let sealed = aes256gcm_sealed(key, nonce, bytes);
    &&& sealed.len() == bytes.len() + TAG_LEN
    &&& aes256gcm_opened(key, nonce, sealed) == Some(bytes)
    &&& base64_bytes(base64_text(sealed)) == Some(sealed)
    &&& base64_bytes(base64_text(nonce)) == Some(nonce)
}

/// What opening a stored payload gives. The payload goes to the cipher as
/// base64 text, so one too long to be written as text cannot be opened.
pub open spec fn open_stored(key: Seq<u8>, sealed: Seq<u8>, nonce: Seq<u8>) -> Result<
    Seq<char>,
    CryptoError,
> {
    if !encodable_len(sealed.len()) || !encodable_len(nonce.len()) {
        Err(CryptoError::TooLong)
    } else {
        open_bytes(key, sealed, nonce)
    }
}

/// Round trip: what a successful sealing returns opens to the plaintext
/// again, as text and as stored bytes.
pub proof fn lemma_sealed_opens(key: Seq<u8>, nonce: Seq<u8>, plaintext: Seq<char>)
    requires
        seal_text(key, nonce, plaintext) is Ok,
        seal_opens(key, nonce, plaintext),
    ensures
        seal_text(key, nonce, plaintext) matches Ok(pair) && open_text(key, pair.0, pair.1) == Ok::<
            Seq<char>,
            CryptoError,
        >(plaintext),
        open_stored(key, aes256gcm_sealed(key, nonce, encode_utf8(plaintext)), nonce) == Ok::<
            Seq<char>,
            CryptoError,
        >(plaintext),
{
    encode_utf8_valid_utf8(plaintext);
    encode_utf8_decode_utf8(plaintext);
    assert(encodable_len(NONCE_LEN as nat));
}

/// A sealing result with its two texts taken as sequences of characters.
pub open spec fn sealed_view(res: Result<(String, String), CryptoError>) -> Result<
    (Seq<char>, Seq<char>),
    CryptoError,
> {
    match res {
        Ok((ciphertext, nonce)) => Ok((ciphertext@, nonce@)),
        Err(e) => Err(e),
    }
}

/// An opening result with its text taken as a sequence of characters.
pub open spec fn opened_view(res: Result<String, CryptoError>) -> Result<Seq<char>, CryptoError> {
    match res {
        Ok(plaintext) => Ok(plaintext@),
        Err(e) => Err(e),
    }
}

/// Holder of the one symmetric key of the process.
pub struct CryptoService {
    key: Vec<u8>,
}

impl CryptoService {
    #[verifier::type_invariant]
    spec fn key_has_cipher_length(self) -> bool {
        self.key@.len() == KEY_LEN
    }

    /// The key, as bytes.
    pub closed spec fn key(self) -> Seq<u8> {
        self.key@
    }

    /// A service with a freshly generated random key.
    pub fn new() -> (service: Self)
        ensures
            service.key().len() == KEY_LEN,
    {
        CryptoService { key: random_key() }
    }

    /// A service that holds the given key; `None` unless the key has the
    /// length the cipher requires.
    pub fn with_key(key: &[u8]) -> (res: Option<Self>)
        ensures
            res is Some <==> key@.len() == KEY_LEN,
            res matches Some(service) ==> service.key() == key@,
    {
        if key.len() != KEY_LEN {
            return None;
        }
        Some(CryptoService { key: vstd::slice::slice_to_vec(key) })
    }

    /// A fresh random nonce of the length the cipher requires.
    pub fn fresh_nonce() -> (nonce: Vec<u8>)
        ensures
            nonce@.len() == NONCE_LEN,
    {
        random_nonce()
    }

    /// Seals `plaintext` under the given nonce.
    ///
    /// The result is exactly [`seal_text`]; what comes back on success opens
    /// to `plaintext` again under this key.
    pub fn encrypt_with_nonce(&self, plaintext: &str, nonce: &[u8]) -> (res: Result<
        (String, String),
        CryptoError,
    >)
        ensures
            sealed_view(res) == seal_text(self.key(), nonce@, plaintext@),
            res is Ok ==> seal_opens(self.key(), nonce@, plaintext@),
            res matches Ok((ciphertext, nonce_text)) ==> open_text(
                self.key(),
                ciphertext@,
                nonce_text@,
            ) == Ok::<Seq<char>, CryptoError>(plaintext@),
    {
        proof {
            use_type_invariant(self);
        }
        if nonce.len() != NONCE_LEN {
            return Err(CryptoError::NonceLength);
        }
        let bytes = plaintext.as_bytes();
        let fits = match bytes.len().checked_add(TAG_LEN) {
            Some(sealed_len) => fits_base64(sealed_len),
            None => false,
        };
        if !fits {
            return Err(CryptoError::TooLong);
        }
        let sealed = match aead_seal(self.key.as_slice(), nonce, bytes) {
            Ok(sealed) => sealed,
            Err(_) => {
                return Err(CryptoError::TooLong);
            },
        };
        let ciphertext = match encode(sealed.as_slice()) {
            Some(text) => text,
            None => {
                return Err(CryptoError::TooLong);
            },
        };
        let nonce_text = match encode(nonce) {
            Some(text) => text,
            None => {
                return Err(CryptoError::TooLong);
            },
        };
        proof {
            lemma_sealed_opens(self.key(), nonce@, plaintext@);
        }
        Ok((ciphertext, nonce_text))
    }

    /// Seals `plaintext` under a fresh random nonce and returns the base64
    /// text of the sealed box and of the nonce.
    ///
    /// Fails exactly where the plaintext is too long. On success the pair is
    /// what [`seal_text`] gives for some 12-byte nonce, and it opens to
    /// `plaintext` again under this key.
    pub fn encrypt(&self, plaintext: &str) -> (res: Result<(String, String), CryptoError>)
        ensures
            res is Ok <==> sealable(plaintext@),
            res matches Err(e) ==> e == CryptoError::TooLong,
            res is Ok ==> exists|nonce: Seq<u8>|
                nonce.len() == NONCE_LEN && sealed_view(res) == #[trigger] seal_text(
                    self.key(),
                    nonce,
                    plaintext@,
                ) && seal_opens(self.key(), nonce, plaintext@),
            res matches Ok((ciphertext, nonce_text)) ==> open_text(
                self.key(),
                ciphertext@,
                nonce_text@,
            ) == Ok::<Seq<char>, CryptoError>(plaintext@),
    {
        let nonce = Self::fresh_nonce();
        self.encrypt_with_nonce(plaintext, nonce.as_slice())
    }

    /// Opens a sealed box and a nonce given as base64 text.
    ///
    /// The result is exactly [`open_text`]: malformed text, a nonce of the
    /// wrong length, a box that does not authenticate and bytes that are not
    /// UTF-8 each give their own error.
    pub fn decrypt(&self, ciphertext: &str, nonce: &str) -> (res: Result<String, CryptoError>)
        ensures
            opened_view(res) == open_text(self.key(), ciphertext@, nonce@),
    {
        proof {
            use_type_invariant(self);
        }
        let sealed = match decode(ciphertext) {
            Some(bytes) => bytes,
            None => {
                return Err(CryptoError::Encoding);
            },
        };
        let nonce_bytes = match decode(nonce) {
            Some(bytes) => bytes,
            None => {
                return Err(CryptoError::Encoding);
            },
        };
        if nonce_bytes.len() != NONCE_LEN {
            return Err(CryptoError::NonceLength);
        }
        let opened = match aead_open(
            self.key.as_slice(),
            nonce_bytes.as_slice(),
            sealed.as_slice(),
        ) {
            Ok(bytes) => bytes,
            Err(_) => {
                return Err(CryptoError::Authentication);
            },
        };
        match string_from_utf8(opened) {
            Ok(text) => Ok(text),
            Err(_) => Err(CryptoError::Text),
        }
    }
}

impl Clone for CryptoService {
    /// A second handle on the same key.
    fn clone(&self) -> (res: Self)
        ensures
            res.key() == self.key(),
    {
        proof {
            use_type_invariant(self);
        }
        CryptoService { key: self.key.clone() }
    }
}

} // verus!
