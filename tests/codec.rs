use purrcrypt::dialect::{decode, encode, CipherDialect};
use purrcrypt::error::PurrError;

fn round_trip(bytes: &[u8], d: CipherDialect) {
    let text = encode(bytes, d);
    assert_eq!(decode(&text, d), Ok(bytes.to_vec()));
}

#[test]
fn codec_round_trip_empty() {
    round_trip(&[], CipherDialect::Cat);
    round_trip(&[], CipherDialect::Dog);
    assert_eq!(encode(&[], CipherDialect::Cat), Vec::<u8>::new());
}

#[test]
fn codec_round_trip_single_byte() {
    round_trip(&[0x42], CipherDialect::Cat);
    round_trip(&[0x42], CipherDialect::Dog);
}

#[test]
fn codec_round_trip_every_byte_value() {
    let all: Vec<u8> = (0..=255u8).collect();
    round_trip(&all, CipherDialect::Cat);
    round_trip(&all, CipherDialect::Dog);
}

#[test]
fn codec_round_trip_megabyte() {
    let big: Vec<u8> = (0..1_048_576u32).map(|i| (i.wrapping_mul(2654435761) >> 13) as u8).collect();
    round_trip(&big, CipherDialect::Cat);
    round_trip(&big, CipherDialect::Dog);
}

#[test]
fn codec_exact_words() {
    assert_eq!(encode(&[0x00, 0xff], CipherDialect::Cat), b"mewmew wskwsk".to_vec());
    assert_eq!(encode(&[0x1a], CipherDialect::Dog), b"woffet".to_vec());
    assert_eq!(encode(&[0x12, 0x34], CipherDialect::Cat), b"purnya mrrhss".to_vec());
}

#[test]
fn codec_tolerates_whitespace_and_case() {
    let text = b"  MEWmew\n\t wskWSK \r\n";
    assert_eq!(decode(text, CipherDialect::Cat), Ok(vec![0x00, 0xff]));
    assert_eq!(decode(b"   \n ", CipherDialect::Dog), Ok(vec![]));
}

#[test]
fn codec_rejects_unknown_words() {
    assert_eq!(decode(b"meow", CipherDialect::Cat), Err(PurrError::Decode));
    assert_eq!(decode(b"mewmewmew", CipherDialect::Cat), Err(PurrError::Decode));
    assert_eq!(decode(b"mewmew xxxxxx", CipherDialect::Cat), Err(PurrError::Decode));
    assert_eq!(decode(b"mewarf", CipherDialect::Cat), Err(PurrError::Decode));
}

#[test]
fn codec_cross_dialect_rejected() {
    let bytes: Vec<u8> = (0..=255u8).collect();
    for b in bytes.iter() {
        let cat = encode(&[*b], CipherDialect::Cat);
        assert_eq!(decode(&cat, CipherDialect::Dog), Err(PurrError::Decode));
        let dog = encode(&[*b], CipherDialect::Dog);
        assert_eq!(decode(&dog, CipherDialect::Cat), Err(PurrError::Decode));
    }
    let text = encode(b"hello", CipherDialect::Cat);
    assert_eq!(decode(&text, CipherDialect::Dog), Err(PurrError::Decode));
}
