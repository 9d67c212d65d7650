//! Asymmetric key material: a 32-byte X25519 public key, and the matching
//! 32-byte secret where its owner holds it.

use vstd::prelude::*;
use crate::error::PurrError;
use crate::bytes::copy_bytes;
use crate::primitives::{KEY_LEN, fill_random, x25519, basepoint_bytes, public_of};

verus! {

/// A public key, with its secret half when the key is one's own.
pub struct KeyPair {
    pub public: Vec<u8>,
    pub private: Option<Vec<u8>>,
}

impl KeyPair {
    /// Both halves have the length of an X25519 key.
    pub open spec fn wf(&self) -> bool {
        &&& self.public@.len() == KEY_LEN
        &&& self.private is Some ==> self.private->0@.len() == KEY_LEN
    }

    /// The public half derives from the secret half.
    pub open spec fn is_matched(&self) -> bool {
        &&& self.private is Some
        &&& self.public@ == public_of(self.private->0@)
    }

    /// Reads a public key from the bytes of a key file: exactly 32 bytes.
    pub fn load_public_key(bytes: &[u8]) -> (r: Result<KeyPair, PurrError>)
        ensures
            bytes@.len() == KEY_LEN <==> r is Ok,
            r matches Ok(k) ==> k.wf() && k.public@ == bytes@ && k.private is None,
            r matches Err(e) ==> e == PurrError::InvalidKey,
    {
        if bytes.len() != KEY_LEN {
            return Err(PurrError::InvalidKey);
        }
        Ok(KeyPair { public: copy_bytes(bytes), private: None })
    }

    /// Reads a key pair from the bytes of its public and its private key file.
    /// The two halves are not checked against each other: a mismatch surfaces
    /// when decryption fails.
    pub fn load_keypair(public: &[u8], private: &[u8]) -> (r: Result<KeyPair, PurrError>)
        ensures
            (public@.len() == KEY_LEN && private@.len() == KEY_LEN) <==> r is Ok,
            r matches Ok(k) ==> (k.wf() && k.public@ == public@ && (k.private matches Some(s)
                && s@ == private@)),
            r matches Err(e) ==> e == PurrError::InvalidKey,
    {
        if public.len() != KEY_LEN || private.len() != KEY_LEN {
            return Err(PurrError::InvalidKey);
        }
        Ok(KeyPair { public: copy_bytes(public), private: Some(copy_bytes(private)) })
    }

    /// The key pair whose secret half is `secret`.
    pub fn from_secret(secret: &[u8]) -> (r: Result<KeyPair, PurrError>)
        ensures
            secret@.len() == KEY_LEN <==> r is Ok,
            r matches Ok(k) ==> (k.wf() && k.is_matched() && (k.private matches Some(s) && s@
                == secret@)),
            r matches Err(e) ==> e == PurrError::InvalidKey,
    {
        if secret.len() != KEY_LEN {
            return Err(PurrError::InvalidKey);
        }
        let base = basepoint_bytes();
        let public = x25519(secret, base.as_slice());
        Ok(KeyPair { public, private: Some(copy_bytes(secret)) })
    }

    /// A fresh key pair from the operating system's random source.
    pub fn generate() -> (r: Result<KeyPair, PurrError>)
        ensures
            r matches Ok(k) ==> k.wf() && k.is_matched(),
            r matches Err(e) ==> e == PurrError::KeyGeneration,
    {
        let secret = random_bytes(KEY_LEN);
        match secret {
            Some(s) => {
                match KeyPair::from_secret(s.as_slice()) {
                    Ok(k) => Ok(k),
                    Err(_) => Err(PurrError::KeyGeneration),
                }
            },
            None => Err(PurrError::KeyGeneration),
        }
    }
}

/// `n` bytes from the operating system's random source, or `None` where it failed.
pub fn random_bytes(n: usize) -> (r: Option<Vec<u8>>)
    ensures
        r matches Some(v) ==> v@.len() == n,
{
    let mut buf: Vec<u8> = Vec::new();
    let mut i: usize = 0;
    while i < n
        invariant
            i <= n,
            buf@.len() == i,
        decreases n - i,
    {
        buf.push(0);
        i = i + 1;
    }
    if fill_random(&mut buf) {
        Some(buf)
    } else {
        None
    }
}

} // verus!
