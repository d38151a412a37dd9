//! Ephemeral secret sharing: a secret is sealed under a process-held key,
//! stored with an expiry and a view budget, and can be read back a bounded
//! number of times before it is gone for good.

pub mod crypto;
pub mod encoding;
pub mod error;
pub mod laws;
pub mod lifecycle;
pub mod models;
pub mod routes;
pub mod store;
pub mod utils;
