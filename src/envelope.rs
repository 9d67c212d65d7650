//! The hybrid encryption envelope.
//!
//! Layout of an envelope, all fields of fixed width:
//! version (1 byte), dialect tag (1), ephemeral public key (32), nonce (12),
//! then the ChaCha20-Poly1305 ciphertext with its 16-byte tag. The first 34
//! bytes form the header, which is authenticated as associated data. The
//! symmetric key is the SHA-256 digest of the X25519 shared secret, the
//! ephemeral public key, the recipient's public key and the dialect tag.

use vstd::prelude::*;
use crate::bytes::{append_bytes, copy_bytes, slice_bytes};
use crate::dialect::{CipherDialect, decode, decode_spec, encode, encode_spec, lemma_cross_dialect_rejected};
use crate::error::PurrError;
use crate::keys::{KeyPair, random_bytes};
use crate::primitives::{
    KEY_LEN, NONCE_LEN, TAG_LEN, MAX_MESSAGE_LEN, x25519_of, sha256_of, seal_of, public_of,
    basepoint_bytes, x25519, sha256, aead_seal, aead_open,
};

verus! {

/// The envelope format this library writes and reads.
pub const VERSION: u8 = 1;

/// Length of the authenticated header: version, dialect tag, ephemeral key.
pub const HEADER_LEN: usize = 34;

/// Where the sealed message starts: after the header and the nonce.
pub const BODY_START: usize = 46;

/// The shortest envelope: an empty message still carries its tag.
pub const MIN_ENVELOPE_LEN: usize = 62;

pub open spec fn dialect_tag(d: CipherDialect) -> u8 {
    match d {
        CipherDialect::Cat => 0,
        CipherDialect::Dog => 1,
    }
}

/// The header of an envelope of dialect `d` with ephemeral public key `eph`.
pub open spec fn header(d: CipherDialect, eph: Seq<u8>) -> Seq<u8> {
    seq![VERSION, dialect_tag(d)] + eph
}

/// The symmetric key: a digest binding the shared secret to both public keys
/// and the dialect.
pub open spec fn envelope_key(shared: Seq<u8>, eph: Seq<u8>, recipient: Seq<u8>, tag: u8) -> Seq<u8> {
    sha256_of(shared + eph + recipient + seq![tag])
}

/// The envelope that sealing `msg` for `recipient` in dialect `d` gives, with
/// ephemeral secret `eph_secret` and nonce `nonce`.
pub open spec fn seal_envelope(
    msg: Seq<u8>,
    recipient: Seq<u8>,
    d: CipherDialect,
    eph_secret: Seq<u8>,
    nonce: Seq<u8>,
) -> Seq<u8> {
    let eph = public_of(eph_secret);
    let key = envelope_key(x25519_of(eph_secret, recipient), eph, recipient, dialect_tag(d));
    header(d, eph) + nonce + seal_of(key, nonce, header(d, eph), msg)
}

/// Why bytes `b` are not an envelope of this format, if they are not.
pub open spec fn parse_error(b: Seq<u8>) -> Option<PurrError> {
    if b.len() == 0 {
        Some(PurrError::Decode)
    } else if b[0] != VERSION {
        Some(PurrError::UnsupportedVersion)
    } else if b.len() < MIN_ENVELOPE_LEN {
        Some(PurrError::Decode)
    } else if b.len() - BODY_START >= MAX_MESSAGE_LEN + TAG_LEN {
        Some(PurrError::Decode)
    } else {
        None
    }
}

/// The dialect tag of envelope `b`. A value that names no dialect is not
/// rejected here: it fails authentication like any other altered header byte.
pub open spec fn env_tag(b: Seq<u8>) -> u8 {
    b[1]
}

pub open spec fn env_ephemeral(b: Seq<u8>) -> Seq<u8> {
    b.subrange(2, HEADER_LEN as int)
}

pub open spec fn env_nonce(b: Seq<u8>) -> Seq<u8> {
    b.subrange(HEADER_LEN as int, BODY_START as int)
}

pub open spec fn env_sealed(b: Seq<u8>) -> Seq<u8> {
    b.skip(BODY_START as int)
}

/// Envelope `b` is well formed and authenticates `msg` for the holder of
/// `own_secret`, whose public key is `own_public`.
pub open spec fn opens_to(b: Seq<u8>, own_public: Seq<u8>, own_secret: Seq<u8>, msg: Seq<u8>) -> bool {
    &&& parse_error(b) is None
    &&& env_sealed(b) == seal_of(
        envelope_key(
            x25519_of(own_secret, env_ephemeral(b)),
            env_ephemeral(b),
            own_public,
            env_tag(b),
        ),
        env_nonce(b),
        b.take(HEADER_LEN as int),
        msg,
    )
}

/// The key pair lacks a half, or a half has the wrong length.
pub open spec fn key_unusable(k: KeyPair) -> bool {
    k.public@.len() != KEY_LEN || k.private is None || k.private->0@.len() != KEY_LEN
}

/// What decrypting envelope `b` with key pair `k` may return: an unusable key
/// or a malformed envelope is reported as such; otherwise the message comes
/// back exactly when the envelope authenticates it, and every other outcome is
/// an authentication failure.
pub open spec fn decrypt_outcome(b: Seq<u8>, k: KeyPair, r: Result<Vec<u8>, PurrError>) -> bool {
    if key_unusable(k) {
        r == Err::<Vec<u8>, PurrError>(PurrError::InvalidKey)
    } else if parse_error(b) is Some {
        r == Err::<Vec<u8>, PurrError>(parse_error(b)->0)
    } else {
        &&& r is Ok ==> opens_to(b, k.public@, k.private->0@, r->Ok_0@)
        &&& r is Err ==> r == Err::<Vec<u8>, PurrError>(PurrError::Authentication)
        &&& forall|m: Seq<u8>|
            m.len() < MAX_MESSAGE_LEN && opens_to(b, k.public@, k.private->0@, m) ==> r is Ok
                && r->Ok_0@ == m
    }
}

/// The fields of an envelope.
pub struct Envelope {
    pub version: u8,
    pub tag: u8,
    pub ephemeral_public: Vec<u8>,
    pub nonce: Vec<u8>,
    /// The ciphertext followed by its tag.
    pub sealed: Vec<u8>,
}

impl Envelope {
    /// Every field has the width the format fixes.
    pub open spec fn wf(&self) -> bool {
        &&& self.version == VERSION
        &&& self.ephemeral_public@.len() == KEY_LEN
        &&& self.nonce@.len() == NONCE_LEN
        &&& self.sealed@.len() >= TAG_LEN
        &&& self.sealed@.len() < MAX_MESSAGE_LEN + TAG_LEN
    }

    /// The envelope written out as bytes.
    pub open spec fn bytes(&self) -> Seq<u8> {
        seq![self.version, self.tag] + self.ephemeral_public@ + self.nonce@ + self.sealed@
    }

    /// Writes the envelope out.
    pub fn to_bytes(&self) -> (r: Vec<u8>)
        ensures
            r@ == self.bytes(),
    {
        let mut out: Vec<u8> = Vec::new();
        out.push(self.version);
        out.push(self.tag);
        append_bytes(&mut out, self.ephemeral_public.as_slice());
        append_bytes(&mut out, self.nonce.as_slice());
        append_bytes(&mut out, self.sealed.as_slice());
        assert(out@ =~= self.bytes());
        out
    }

    /// Reads an envelope from bytes. An empty input, a short one, or one whose
    /// sealed body is longer than the cipher can open is malformed; another
    /// version than this library's is refused as such.
    pub fn from_bytes(b: &[u8]) -> (r: Result<Envelope, PurrError>)
        ensures
            parse_error(b@) is Some ==> r == Err::<Envelope, PurrError>(parse_error(b@)->0),
            parse_error(b@) is None ==> r is Ok && r->Ok_0.wf() && r->Ok_0.bytes() == b@,
            r is Ok ==> r->Ok_0.tag == env_tag(b@) && r->Ok_0.ephemeral_public@ == env_ephemeral(b@)
                && r->Ok_0.nonce@ == env_nonce(b@) && r->Ok_0.sealed@ == env_sealed(b@),
    {
        if b.len() == 0 {
            return Err(PurrError::Decode);
        }
        if b[0] != VERSION {
            return Err(PurrError::UnsupportedVersion);
        }
        if b.len() < MIN_ENVELOPE_LEN {
            return Err(PurrError::Decode);
        }
        if (b.len() - BODY_START) as u64 >= MAX_MESSAGE_LEN + TAG_LEN as u64 {
            return Err(PurrError::Decode);
        }
        let e = Envelope {
            version: b[0],
            tag: b[1],
            ephemeral_public: slice_bytes(b, 2, HEADER_LEN),
            nonce: slice_bytes(b, HEADER_LEN, BODY_START),
            sealed: slice_bytes(b, BODY_START, b.len()),
        };
        assert(e.bytes() =~= b@);
        Ok(e)
    }

    /// The authenticated header: version, dialect tag, ephemeral public key.
    fn header_bytes(&self) -> (r: Vec<u8>)
        ensures
            r@ == seq![self.version, self.tag] + self.ephemeral_public@,
    {
        let mut out: Vec<u8> = Vec::new();
        out.push(self.version);
        out.push(self.tag);
        append_bytes(&mut out, self.ephemeral_public.as_slice());
        assert(out@ =~= seq![self.version, self.tag] + self.ephemeral_public@);
        out
    }
}

/// Reading back a well-formed envelope that was written out gives its fields.
pub proof fn lemma_envelope_round_trip(e: Envelope)
    requires
        e.wf(),
    ensures
        parse_error(e.bytes()) is None,
        env_tag(e.bytes()) == e.tag,
        env_ephemeral(e.bytes()) == e.ephemeral_public@,
        env_nonce(e.bytes()) == e.nonce@,
        env_sealed(e.bytes()) == e.sealed@,
{
    let b = e.bytes();
    assert(env_ephemeral(b) =~= e.ephemeral_public@);
    assert(env_nonce(b) =~= e.nonce@);
    assert(env_sealed(b) =~= e.sealed@);
}

fn tag_of(d: CipherDialect) -> (r: u8)
    ensures
        r == dialect_tag(d),
{
    match d {
        CipherDialect::Cat => 0,
        CipherDialect::Dog => 1,
    }
}

/// Seals `msg` for the holder of the secret behind `recipient`, with the
/// ephemeral secret and the nonce given. Whoever holds a secret whose public
/// key is `recipient` can open the result.
pub fn seal_with(
    msg: &[u8],
    recipient: &[u8],
    d: CipherDialect,
    eph_secret: &[u8],
    nonce: &[u8],
) -> (r: Vec<u8>)
    requires
        recipient@.len() == KEY_LEN,
        eph_secret@.len() == KEY_LEN,
        nonce@.len() == NONCE_LEN,
        msg@.len() < MAX_MESSAGE_LEN,
    ensures
        r@ == seal_envelope(msg@, recipient@, d, eph_secret@, nonce@),
        r@.len() == BODY_START + msg@.len() + TAG_LEN,
        forall|s: Seq<u8>|
            s.len() == KEY_LEN && recipient@ == public_of(s) ==> opens_to(r@, recipient@, s, msg@),
{
    let base = basepoint_bytes();
    let eph = x25519(eph_secret, base.as_slice());
    let shared = x25519(eph_secret, recipient);
    let mut hdr: Vec<u8> = Vec::new();
    hdr.push(VERSION);
    hdr.push(tag_of(d));
    append_bytes(&mut hdr, eph.as_slice());
    let mut kdf_input = copy_bytes(shared.as_slice());
    append_bytes(&mut kdf_input, eph.as_slice());
    append_bytes(&mut kdf_input, recipient);
    kdf_input.push(tag_of(d));
    let key = sha256(kdf_input.as_slice());
    assert(kdf_input@ =~= shared@ + eph@ + recipient@ + seq![dialect_tag(d)]);
    assert(hdr@ =~= header(d, eph@));
    let sealed = match aead_seal(key.as_slice(), nonce, hdr.as_slice(), msg) {
        Some(c) => c,
        None => {
            assert(false);
            Vec::new()
        },
    };
    let env = Envelope {
        version: VERSION,
        tag: tag_of(d),
        ephemeral_public: eph,
        nonce: copy_bytes(nonce),
        sealed,
    };
    let out = env.to_bytes();
    proof {
        lemma_envelope_round_trip(env);
        assert(out@.take(HEADER_LEN as int) =~= hdr@);
        assert(out@ =~= hdr@ + nonce@ + env.sealed@);
    }
    out
}

/// Seals `msg` for `recipient` with a fresh ephemeral key and nonce from the
/// operating system's random source.
pub fn encrypt(msg: &[u8], recipient: &[u8], d: CipherDialect) -> (r: Result<Vec<u8>, PurrError>)
    requires
        msg@.len() < MAX_MESSAGE_LEN,
    ensures
        recipient@.len() != KEY_LEN ==> r == Err::<Vec<u8>, PurrError>(PurrError::InvalidKey),
        recipient@.len() == KEY_LEN ==> (r is Err ==> r == Err::<Vec<u8>, PurrError>(
            PurrError::KeyGeneration,
        )),
        r is Ok ==> r->Ok_0@.len() == BODY_START + msg@.len() + TAG_LEN,
        r is Ok ==> exists|e: Seq<u8>, n: Seq<u8>|
            e.len() == KEY_LEN && n.len() == NONCE_LEN && r->Ok_0@ == seal_envelope(
                msg@,
                recipient@,
                d,
                e,
                n,
            ),
        r is Ok ==> forall|s: Seq<u8>|
            s.len() == KEY_LEN && recipient@ == public_of(s) ==> opens_to(
                r->Ok_0@,
                recipient@,
                s,
                msg@,
            ),
{
    if recipient.len() != KEY_LEN {
        return Err(PurrError::InvalidKey);
    }
    let eph = match random_bytes(KEY_LEN) {
        Some(e) => e,
        None => return Err(PurrError::KeyGeneration),
    };
    let nonce = match random_bytes(NONCE_LEN) {
        Some(n) => n,
        None => return Err(PurrError::KeyGeneration),
    };
    Ok(seal_with(msg, recipient, d, eph.as_slice(), nonce.as_slice()))
}

/// Opens envelope `b` with key pair `k`. No message is returned unless its
/// tag verifies.
pub fn decrypt(b: &[u8], k: &KeyPair) -> (r: Result<Vec<u8>, PurrError>)
    ensures
        decrypt_outcome(b@, *k, r),
{
    let secret = match &k.private {
        Some(s) => s,
        None => return Err(PurrError::InvalidKey),
    };
    if k.public.len() != KEY_LEN || secret.len() != KEY_LEN {
        return Err(PurrError::InvalidKey);
    }
    let env = match Envelope::from_bytes(b) {
        Ok(e) => e,
        Err(e) => return Err(e),
    };
    let hdr = env.header_bytes();
    let shared = x25519(secret.as_slice(), env.ephemeral_public.as_slice());
    let mut kdf_input = copy_bytes(shared.as_slice());
    append_bytes(&mut kdf_input, env.ephemeral_public.as_slice());
    append_bytes(&mut kdf_input, k.public.as_slice());
    kdf_input.push(env.tag);
    let key = sha256(kdf_input.as_slice());
    proof {
        assert(hdr@ =~= b@.take(HEADER_LEN as int));
        assert(kdf_input@ =~= shared@ + env_ephemeral(b@) + k.public@ + seq![env_tag(b@)]);
    }
    match aead_open(key.as_slice(), env.nonce.as_slice(), hdr.as_slice(), env.sealed.as_slice()) {
        Some(m) => Ok(m),
        None => Err(PurrError::Authentication),
    }
}

/// The envelope that text `t` carries: its decoding as cat text, or else as
/// dog text. The vocabularies are disjoint, so at most one of them applies to
/// text holding a word.
pub open spec fn text_envelope(t: Seq<u8>) -> Option<Seq<u8>> {
    match decode_spec(t, CipherDialect::Cat) {
        Some(b) => Some(b),
        None => decode_spec(t, CipherDialect::Dog),
    }
}

/// Encrypts `msg` for `recipient` and renders the envelope as text of dialect
/// `d`: non-empty text made of words of `d` alone, which no other dialect reads.
pub fn encrypt_text(msg: &[u8], recipient: &[u8], d: CipherDialect) -> (r: Result<Vec<u8>, PurrError>)
    requires
        msg@.len() < MAX_MESSAGE_LEN,
    ensures
        recipient@.len() != KEY_LEN ==> r == Err::<Vec<u8>, PurrError>(PurrError::InvalidKey),
        recipient@.len() == KEY_LEN ==> (r is Err ==> r == Err::<Vec<u8>, PurrError>(
            PurrError::KeyGeneration,
        )),
        r is Ok ==> exists|e: Seq<u8>, n: Seq<u8>|
            e.len() == KEY_LEN && n.len() == NONCE_LEN && r->Ok_0@ == encode_spec(
                seal_envelope(msg@, recipient@, d, e, n),
                d,
            ),
        r is Ok ==> text_envelope(r->Ok_0@) is Some,
        r is Ok ==> r->Ok_0@.len() > 0 && decode_spec(r->Ok_0@, d) is Some,
        r is Ok ==> forall|e: CipherDialect| e != d ==> decode_spec(r->Ok_0@, e) is None,
        r is Ok ==> forall|s: Seq<u8>|
            s.len() == KEY_LEN && recipient@ == public_of(s) ==> opens_to(
                text_envelope(r->Ok_0@)->0,
                recipient@,
                s,
                msg@,
            ),
{
    let env = encrypt(msg, recipient, d)?;
    let text = encode(env.as_slice(), d);
    proof {
        crate::dialect::lemma_codec_round_trip(env@, d);
        let other = if d == CipherDialect::Cat {
            CipherDialect::Dog
        } else {
            CipherDialect::Cat
        };
        lemma_cross_dialect_rejected(env@, d, other);
        assert(decode_spec(Seq::<u8>::empty(), d) == Some(Seq::<u8>::empty()));
        assert forall|e: CipherDialect| e != d implies decode_spec(text@, e) is None by {
            assert(e == other);
        }
        assert(text_envelope(text@) == Some(env@));
    }
    Ok(text)
}

/// Reads the envelope that text `t` carries, in whichever dialect it is
/// written, and opens it with key pair `k`.
pub fn decrypt_text(t: &[u8], k: &KeyPair) -> (r: Result<Vec<u8>, PurrError>)
    ensures
        match text_envelope(t@) {
            None => r == Err::<Vec<u8>, PurrError>(PurrError::Decode),
            Some(b) => decrypt_outcome(b, *k, r),
        },
{
    let env = match decode(t, CipherDialect::Cat) {
        Ok(b) => b,
        Err(_) => match decode(t, CipherDialect::Dog) {
            Ok(b) => b,
            Err(_) => return Err(PurrError::Decode),
        },
    };
    decrypt(env.as_slice(), k)
}

} // verus!
