//! The cryptographic primitives this library builds on: X25519, SHA-256,
//! ChaCha20-Poly1305 and the operating system's random source. Each is reached
//! through one small wrapper whose contract states what the primitive promises.

use vstd::prelude::*;
use chacha20poly1305::aead::{Aead, KeyInit, Payload};
use rand::RngCore;
use sha2::Digest;

verus! {

/// Length of an X25519 key, of a derived symmetric key, and of a digest.
pub const KEY_LEN: usize = 32;

/// Length of a ChaCha20-Poly1305 nonce.
pub const NONCE_LEN: usize = 12;

/// Length of a Poly1305 tag.
pub const TAG_LEN: usize = 16;

/// One more than the longest message the cipher can process: its keystream
/// starts at block 1 and its block counter ends at 2^32 - 1, which leaves
/// 2^32 - 2 blocks of 64 bytes.
pub const MAX_MESSAGE_LEN: u64 = 274877906817;

/// The X25519 function of scalar `k` and point `u`.
pub uninterp spec fn x25519_of(k: Seq<u8>, u: Seq<u8>) -> Seq<u8>;

/// The SHA-256 digest of `data`.
pub uninterp spec fn sha256_of(data: Seq<u8>) -> Seq<u8>;

/// The ChaCha20-Poly1305 sealing of `msg` under `key` and `nonce`, with `aad`
/// as associated data: ciphertext followed by tag.
pub uninterp spec fn seal_of(key: Seq<u8>, nonce: Seq<u8>, aad: Seq<u8>, msg: Seq<u8>) -> Seq<u8>;

/// The X25519 base point: 9 followed by 31 zero bytes.
pub open spec fn basepoint() -> Seq<u8> {
    seq![9u8] + Seq::new(31, |i: int| 0u8)
}

/// The public key of secret scalar `k`.
pub open spec fn public_of(k: Seq<u8>) -> Seq<u8> {
    x25519_of(k, basepoint())
}

pub fn basepoint_bytes() -> (r: Vec<u8>)
    ensures
        r@ == basepoint(),
{
    let mut r: Vec<u8> = Vec::new();
    r.push(9);
    let mut i: usize = 0;
    while i < 31
        invariant
            i <= 31,
            r@ == seq![9u8] + Seq::new(i as nat, |j: int| 0u8),
        decreases 31 - i,
    {
        r.push(0);
        i = i + 1;
        assert(r@ =~= seq![9u8] + Seq::new(i as nat, |j: int| 0u8));
    }
    r
}

/// Relies on `x25519_dalek::x25519`: a 32-byte result that is a function of the
/// scalar and the point, and, as the function's documentation shows, two
/// parties that each apply their own secret to the other's public key reach the
/// same shared secret.
#[verifier::external_body]
pub(crate) fn x25519(k: &[u8], u: &[u8]) -> (r: Vec<u8>)
    requires
        k@.len() == KEY_LEN,
        u@.len() == KEY_LEN,
    ensures
        r@ == x25519_of(k@, u@),
        r@.len() == KEY_LEN,
        forall|b: Seq<u8>|
            b.len() == KEY_LEN && u@ == public_of(b) ==> r@ == x25519_of(b, public_of(k@)),
{
    let mut kb = [0u8; 32];
    kb.copy_from_slice(k);
    let mut ub = [0u8; 32];
    ub.copy_from_slice(u);
    x25519_dalek::x25519(kb, ub).to_vec()
}

/// Relies on `sha2::Sha256::digest`: a 32-byte digest that is a function of the input.
#[verifier::external_body]
pub(crate) fn sha256(data: &[u8]) -> (r: Vec<u8>)
    ensures
        r@ == sha256_of(data@),
        r@.len() == KEY_LEN,
{
    sha2::Sha256::digest(data).to_vec()
}

/// Relies on `ChaCha20Poly1305::encrypt`: the ciphertext, as long as the
/// message, followed by the 16-byte tag. A message shorter than
/// `MAX_MESSAGE_LEN` passes the cipher's length check and fits in its keystream.
#[verifier::external_body]
pub(crate) fn aead_seal(key: &[u8], nonce: &[u8], aad: &[u8], msg: &[u8]) -> (r: Option<Vec<u8>>)
    requires
        key@.len() == KEY_LEN,
        nonce@.len() == NONCE_LEN,
        msg@.len() < MAX_MESSAGE_LEN,
    ensures
        r is Some,
        r is Some ==> r->0@ == seal_of(key@, nonce@, aad@, msg@),
        r is Some ==> r->0@.len() == msg@.len() + TAG_LEN,
{
    let cipher = chacha20poly1305::ChaCha20Poly1305::new(chacha20poly1305::Key::from_slice(key));
    cipher.encrypt(chacha20poly1305::Nonce::from_slice(nonce), Payload { msg, aad }).ok()
}

/// Relies on `ChaCha20Poly1305::decrypt`: it returns a message only where the
/// tag verifies, and that message seals back to the input exactly; every input
/// that sealing a message produced opens to that message. An input shorter
/// than `MAX_MESSAGE_LEN + TAG_LEN` fits in the cipher's keystream.
#[verifier::external_body]
pub(crate) fn aead_open(key: &[u8], nonce: &[u8], aad: &[u8], sealed: &[u8]) -> (r: Option<Vec<u8>>)
    requires
        key@.len() == KEY_LEN,
        nonce@.len() == NONCE_LEN,
        sealed@.len() < MAX_MESSAGE_LEN + TAG_LEN,
    ensures
        r is Some ==> sealed@ == seal_of(key@, nonce@, aad@, r->0@),
        forall|m: Seq<u8>| m.len() < MAX_MESSAGE_LEN && sealed@ == seal_of(key@, nonce@, aad@, m) ==> r is Some && r->0@ == m,
{
    let cipher = chacha20poly1305::ChaCha20Poly1305::new(chacha20poly1305::Key::from_slice(key));
    cipher.decrypt(chacha20poly1305::Nonce::from_slice(nonce), Payload { msg: sealed, aad }).ok()
}

/// Relies on `rand::rngs::OsRng::try_fill_bytes`: fills the buffer from the
/// operating system, or reports that it could not.
#[verifier::external_body]
pub(crate) fn fill_random(buf: &mut Vec<u8>) -> (r: bool)
    ensures
        final(buf)@.len() == old(buf)@.len(),
{
    rand::rngs::OsRng.try_fill_bytes(buf.as_mut_slice()).is_ok()
}

} // verus!
