//! A small local credential vault.
//!
//! The crate generates passwords from a configurable alphabet, encrypts them
//! at rest with AES-256-GCM, binds each ciphertext to the nonce that produced
//! it in a credential record, and keeps records in an in-memory keyed store
//! that is queried by service name.

pub mod account;
pub mod encryption;
pub mod errors;
pub mod password;
pub mod store;
