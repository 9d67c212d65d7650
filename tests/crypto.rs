use purrcrypt::dialect::{decode, CipherDialect};
use purrcrypt::envelope::{decrypt, decrypt_text, encrypt, encrypt_text, seal_with, Envelope};
use purrcrypt::error::PurrError;
use purrcrypt::keys::KeyPair;

fn keypair(seed: u8) -> KeyPair {
    KeyPair::from_secret(&[seed; 32]).unwrap()
}

#[test]
fn keypair_from_secret_derives_public_key() {
    let k = keypair(7);
    assert_eq!(k.public.len(), 32);
    assert_ne!(k.public, vec![7u8; 32]);
    assert_eq!(k.private, Some(vec![7u8; 32]));
    assert_eq!(KeyPair::from_secret(&[1u8; 31]).err(), Some(PurrError::InvalidKey));
}

#[test]
fn load_keys_check_length() {
    assert!(KeyPair::load_public_key(&[3u8; 32]).is_ok());
    assert_eq!(KeyPair::load_public_key(&[3u8; 33]).err(), Some(PurrError::InvalidKey));
    assert_eq!(KeyPair::load_keypair(&[3u8; 32], &[4u8; 5]).err(), Some(PurrError::InvalidKey));
    let k = KeyPair::load_keypair(&[3u8; 32], &[4u8; 32]).unwrap();
    assert_eq!(k.private, Some(vec![4u8; 32]));
}

#[test]
fn crypto_round_trip() {
    let bob = KeyPair::generate().unwrap();
    for d in [CipherDialect::Cat, CipherDialect::Dog] {
        for msg in [&b""[..], &b"x"[..], &b"a longer message with several words"[..]] {
            let env = encrypt(msg, &bob.public, d).unwrap();
            assert_eq!(env.len(), 46 + msg.len() + 16);
            assert_eq!(decrypt(&env, &bob), Ok(msg.to_vec()));
            let text = encrypt_text(msg, &bob.public, d).unwrap();
            assert_eq!(decrypt_text(&text, &bob), Ok(msg.to_vec()));
        }
    }
}

#[test]
fn seal_is_deterministic_in_its_randomness() {
    let bob = keypair(9);
    let a = seal_with(b"hi", &bob.public, CipherDialect::Cat, &[1u8; 32], &[2u8; 12]);
    let b = seal_with(b"hi", &bob.public, CipherDialect::Cat, &[1u8; 32], &[2u8; 12]);
    let c = seal_with(b"hi", &bob.public, CipherDialect::Cat, &[1u8; 32], &[3u8; 12]);
    assert_eq!(a, b);
    assert_ne!(a, c);
    assert_eq!(a[0], 1);
    assert_eq!(a[1], 0);
    assert_ne!(&a[46..48], b"hi");
    assert_eq!(decrypt(&a, &bob), Ok(b"hi".to_vec()));
}

#[test]
fn fresh_ephemeral_key_per_encryption() {
    let bob = keypair(5);
    let a = encrypt(b"same", &bob.public, CipherDialect::Cat).unwrap();
    let b = encrypt(b"same", &bob.public, CipherDialect::Cat).unwrap();
    assert_ne!(&a[2..34], &b[2..34]);
}

#[test]
fn tamper_detection() {
    let bob = keypair(11);
    let env = encrypt(b"attack at dawn", &bob.public, CipherDialect::Dog).unwrap();
    for byte in 1..env.len() {
        for bit in 0..8 {
            let mut t = env.clone();
            t[byte] ^= 1 << bit;
            assert_eq!(decrypt(&t, &bob), Err(PurrError::Authentication));
        }
    }
}

#[test]
fn wrong_key_rejected() {
    let bob = keypair(12);
    let eve = keypair(13);
    let env = encrypt(b"for bob only", &bob.public, CipherDialect::Cat).unwrap();
    assert_eq!(decrypt(&env, &eve), Err(PurrError::Authentication));
    let mismatched = KeyPair { public: bob.public.clone(), private: eve.private.clone() };
    assert_eq!(decrypt(&env, &mismatched), Err(PurrError::Authentication));
}

#[test]
fn malformed_envelopes() {
    let bob = keypair(14);
    let env = encrypt(b"m", &bob.public, CipherDialect::Cat).unwrap();
    let mut v = env.clone();
    v[0] = 2;
    assert_eq!(decrypt(&v, &bob), Err(PurrError::UnsupportedVersion));
    assert_eq!(decrypt(&env[..61], &bob), Err(PurrError::Decode));
    assert_eq!(decrypt(&[], &bob), Err(PurrError::Decode));
    let public_only = KeyPair::load_public_key(&bob.public).unwrap();
    assert_eq!(decrypt(&env, &public_only), Err(PurrError::InvalidKey));
    assert_eq!(encrypt(b"m", &[0u8; 31], CipherDialect::Cat), Err(PurrError::InvalidKey));
    assert_eq!(decrypt_text(b"not cat words", &bob), Err(PurrError::Decode));
}

#[test]
fn bob_scenario_in_cat_dialect() {
    let bob = KeyPair::generate().unwrap();
    let plaintext: Vec<u8> = (0..10u8).collect();
    let text = encrypt_text(&plaintext, &bob.public, CipherDialect::Cat).unwrap();
    let s = String::from_utf8(text.clone()).unwrap();
    for word in s.split_whitespace() {
        assert_eq!(word.len(), 6);
        assert!(decode(word.as_bytes(), CipherDialect::Cat).is_ok());
        assert!(decode(word.as_bytes(), CipherDialect::Dog).is_err());
    }
    let loaded = KeyPair::load_keypair(&bob.public, bob.private.as_ref().unwrap()).unwrap();
    assert_eq!(decrypt_text(&text, &loaded), Ok(plaintext));
}

#[test]
fn envelope_fields_round_trip() {
    let bob = keypair(21);
    let bytes = seal_with(b"fields", &bob.public, CipherDialect::Dog, &[4u8; 32], &[6u8; 12]);
    let env = Envelope::from_bytes(&bytes).unwrap();
    assert_eq!(env.version, 1);
    assert_eq!(env.tag, 1);
    assert_eq!(env.ephemeral_public, KeyPair::from_secret(&[4u8; 32]).unwrap().public);
    assert_eq!(env.nonce, vec![6u8; 12]);
    assert_eq!(env.sealed.len(), 6 + 16);
    assert_eq!(env.to_bytes(), bytes);
    assert_eq!(Envelope::from_bytes(&[]).err(), Some(PurrError::Decode));
    assert_eq!(Envelope::from_bytes(&[9u8; 80]).err(), Some(PurrError::UnsupportedVersion));
    assert_eq!(Envelope::from_bytes(&bytes[..61]).err(), Some(PurrError::Decode));
}

#[test]
fn shared_secret_agrees() {
    let alice = keypair(31);
    let bob = keypair(32);
    let to_bob = seal_with(b"hello bob", &bob.public, CipherDialect::Cat, alice.private.as_ref().unwrap(), &[0u8; 12]);
    assert_eq!(&to_bob[2..34], &alice.public[..]);
    assert_eq!(decrypt(&to_bob, &bob), Ok(b"hello bob".to_vec()));
    assert_eq!(decrypt(&to_bob, &alice), Err(PurrError::Authentication));
}

#[test]
fn cipher_message_bound() {
    assert_eq!(purrcrypt::primitives::MAX_MESSAGE_LEN, ((1u64 << 32) - 2) * 64 + 1);
}
