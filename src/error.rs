use vstd::prelude::*;

verus! {

/// Every failure the library reports.
#[derive(Clone, Copy, Debug, PartialEq, Eq, Structural)]
pub enum PurrError {
    /// The entropy source or the filesystem failed while creating a key.
    KeyGeneration,
    /// A filesystem access or creation failed.
    Storage,
    /// A key name or path resolved to nothing.
    KeyNotFound,
    /// Key material has the wrong length or format.
    InvalidKey,
    /// The text holds a word outside the dialect's vocabulary, or the
    /// envelope it carries is malformed.
    Decode,
    /// The envelope's format version is not the one this library writes.
    UnsupportedVersion,
    /// The authentication tag did not verify: no plaintext is released.
    Authentication,
}

} // verus!
