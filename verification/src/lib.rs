//! Threshold-protected file encryption.
//!
//! A file is sealed once with a fresh symmetric key; the key is split into
//! threshold shares, each carried in a small container of its own; file and
//! shares can be bound to a one-time signing identity. This crate holds the
//! container formats, the key-split engine, the cipher adapter, the signature
//! binder and the share reconciliation protocol.

pub mod bytes;
pub mod cipher;
pub mod container;
pub mod format;
pub mod key;
pub mod reconcile;
pub mod recovery;
pub mod shamir;
pub mod signing;
pub mod text;
