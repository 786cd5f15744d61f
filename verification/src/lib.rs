//! Persistence core for an end-to-end-encrypted messaging stack.
//!
//! The crate models a platform-independent keystore for long-lived
//! cryptographic secrets: typed entity records grouped into collections,
//! uniquely identified, created by versioned schema migrations, and mutated
//! either directly or through a transaction context with explicit commit.
//! Build-time operational contracts (durable / idempotent / dispotent)
//! classify how protocol operations may touch the store, and a redaction
//! helper hashes privacy-sensitive identifiers before they reach logs.

pub mod client_id;
pub mod codec;
pub mod contract;
pub mod error;
pub mod hexcode;
pub mod keystore;
pub mod mlsext;
pub mod obfuscate;
pub mod refresh_token;
pub mod store;
pub mod textenc;
pub mod transaction;
pub mod wipe;
