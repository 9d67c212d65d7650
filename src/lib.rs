//! A cat/dog-themed public-key file encryption library.
//!
//! - `dialect`: a lossless codec that renders bytes as cat or dog words.
//! - `envelope`: hybrid X25519 + ChaCha20-Poly1305 encryption of a buffer for
//!   one recipient, as bytes or as dialect text.
//! - `keys`: key material; `keystore`: where keys live and who may read them.
//! - `command` and `cli`: the command line grammar and the choices a command
//!   run makes.
//! - `primitives`: the cryptographic primitives the envelope builds on.

pub mod bytes;
pub mod cli;
pub mod command;
pub mod dialect;
pub mod envelope;
pub mod error;
pub mod keys;
pub mod keystore;
pub mod primitives;
