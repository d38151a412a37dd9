//! The records of the store and the values that cross its boundary.
//!
//! Instants are whole microseconds since the Unix epoch, in UTC.

use vstd::prelude::*;

verus! {

/// A stored secret: the sealed payload with its expiry and view budget.
#[derive(Clone, Debug)]
pub struct Secret {
    pub id: String,
    pub ciphertext: Vec<u8>,
    pub nonce: Vec<u8>,
    pub expires_at: i64,
    pub max_views: i32,
    pub view_count: i32,
    pub created_at: i64,
}

/// What a [`Secret`] holds, as plain mathematical values.
pub struct SecretView {
    pub id: Seq<char>,
    pub ciphertext: Seq<u8>,
    pub nonce: Seq<u8>,
    pub expires_at: i64,
    pub max_views: i32,
    pub view_count: i32,
    pub created_at: i64,
}

impl View for Secret {
    type V = SecretView;

    open spec fn view(&self) -> SecretView {
        SecretView {
            id: self.id@,
            ciphertext: self.ciphertext@,
            nonce: self.nonce@,
            expires_at: self.expires_at,
            max_views: self.max_views,
            view_count: self.view_count,
            created_at: self.created_at,
        }
    }
}

/// A secret about to be stored; it has not been viewed yet.
#[derive(Clone, Debug)]
pub struct NewSecret {
    pub id: String,
    pub ciphertext: Vec<u8>,
    pub nonce: Vec<u8>,
    pub expires_at: i64,
    pub max_views: i32,
}

impl NewSecret {
    /// The record this becomes when it is stored at `created_at`.
    pub open spec fn row(self, created_at: i64) -> SecretView {
        SecretView {
            id: self.id@,
            ciphertext: self.ciphertext@,
            nonce: self.nonce@,
            expires_at: self.expires_at,
            max_views: self.max_views,
            view_count: 0,
            created_at,
        }
    }
}

/// A request to share a secret. Time to live and view budget are optional.
#[derive(Clone, Debug)]
pub struct ShareRequest {
    pub secret: String,
    pub expire_minutes: Option<i32>,
    pub max_views: Option<i32>,
}

/// The answer to a successful share.
#[derive(Clone, Debug)]
pub struct ShareResponse {
    pub id: String,
    pub expires_at: i64,
    pub max_views: i32,
}

/// The answer to a successful retrieve.
#[derive(Clone, Debug)]
pub struct RetrieveResponse {
    pub secret: String,
    pub remaining_views: i32,
}

} // verus!
