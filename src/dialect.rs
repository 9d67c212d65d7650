//! The dialect codec: a lossless mapping between bytes and themed words.
//!
//! Each byte becomes one six-letter word made of two three-letter syllables of
//! the dialect, the high nibble's then the low nibble's. Words are joined by a
//! single space. Decoding skips any run of ASCII whitespace and ignores case.
//! The cat and dog syllable lists are disjoint, so text of one dialect never
//! decodes in the other.

use vstd::prelude::*;
use crate::error::PurrError;

verus! {

/// The vocabulary used to render bytes as text.
#[derive(Clone, Copy, Debug, PartialEq, Eq, Structural)]
pub enum CipherDialect {
    Cat,
    Dog,
}

/// Length of the word that stands for one byte.
pub const WORD_LEN: usize = 6;

/// The separator written between words.
pub const SEPARATOR: u8 = 32;

/// The syllable of dialect `d` for the nibble `v` (`v < 16`).
pub open spec fn syllable(d: CipherDialect, v: u8) -> (u8, u8, u8) {
    match d {
        CipherDialect::Cat => {
            if v == 0 { (109, 101, 119) } // mew
            else if v == 1 { (112, 117, 114) } // pur
            else if v == 2 { (110, 121, 97) } // nya
            else if v == 3 { (109, 114, 114) } // mrr
            else if v == 4 { (104, 115, 115) } // hss
            else if v == 5 { (112, 97, 119) } // paw
            else if v == 6 { (102, 117, 114) } // fur
            else if v == 7 { (116, 97, 98) } // tab
            else if v == 8 { (107, 105, 116) } // kit
            else if v == 9 { (121, 111, 119) } // yow
            else if v == 10 { (109, 97, 111) } // mao
            else if v == 11 { (108, 97, 112) } // lap
            else if v == 12 { (110, 105, 112) } // nip
            else if v == 13 { (122, 122, 122) } // zzz
            else if v == 14 { (116, 117, 102) } // tuf
            else { (119, 115, 107) } // wsk
        },
        CipherDialect::Dog => {
            if v == 0 { (97, 114, 102) } // arf
            else if v == 1 { (119, 111, 102) } // wof
            else if v == 2 { (121, 105, 112) } // yip
            else if v == 3 { (98, 111, 119) } // bow
            else if v == 4 { (103, 114, 114) } // grr
            else if v == 5 { (114, 117, 102) } // ruf
            else if v == 6 { (98, 114, 107) } // brk
            else if v == 7 { (104, 119, 108) } // hwl
            else if v == 8 { (112, 117, 112) } // pup
            else if v == 9 { (115, 105, 116) } // sit
            else if v == 10 { (102, 101, 116) } // fet
            else if v == 11 { (98, 111, 110) } // bon
            else if v == 12 { (119, 97, 103) } // wag
            else if v == 13 { (115, 110, 102) } // snf
            else if v == 14 { (100, 105, 103) } // dig
            else { (121, 97, 112) } // yap
        },
    }
}

/// The nibble whose syllable in dialect `d` is `s`, if there is one.
pub open spec fn syllable_index(d: CipherDialect, s: (u8, u8, u8)) -> Option<u8> {
    if exists|v: u8| v < 16 && #[trigger] syllable(d, v) == s {
        Some(choose|v: u8| v < 16 && #[trigger] syllable(d, v) == s)
    } else {
        None
    }
}

/// The word that stands for byte `b` in dialect `d`.
pub open spec fn word(d: CipherDialect, b: u8) -> Seq<u8> {
    let hi = syllable(d, b / 16);
    let lo = syllable(d, b % 16);
    seq![hi.0, hi.1, hi.2, lo.0, lo.1, lo.2]
}

/// ASCII whitespace: space, tab, line feed, form feed, carriage return.
pub open spec fn is_space(c: u8) -> bool {
    c == 32 || c == 9 || c == 10 || c == 12 || c == 13
}

/// ASCII lower case.
pub open spec fn lower(c: u8) -> u8 {
    if 65 <= c && c <= 90 { (c + 32) as u8 } else { c }
}

/// The byte that the six-letter word `w` stands for in dialect `d`, ignoring case.
pub open spec fn word_value(d: CipherDialect, w: Seq<u8>) -> Option<u8> {
    let hi = syllable_index(d, (lower(w[0]), lower(w[1]), lower(w[2])));
    let lo = syllable_index(d, (lower(w[3]), lower(w[4]), lower(w[5])));
    if hi is Some && lo is Some {
        Some((hi->0 * 16 + lo->0) as u8)
    } else {
        None
    }
}

/// The text that encodes `b`: one word per byte, joined by single spaces.
pub open spec fn encode_spec(b: Seq<u8>, d: CipherDialect) -> Seq<u8>
    decreases b.len(),
{
    if b.len() == 0 {
        seq![]
    } else if b.len() == 1 {
        word(d, b[0])
    } else {
        encode_spec(b.drop_last(), d) + seq![SEPARATOR] + word(d, b.last())
    }
}

/// What text `t` decodes to in dialect `d`: whitespace runs are skipped, and
/// every maximal run of other bytes must be a word of the dialect.
pub open spec fn decode_spec(t: Seq<u8>, d: CipherDialect) -> Option<Seq<u8>>
    decreases t.len(),
{
    if t.len() == 0 {
        Some(seq![])
    } else if is_space(t[0]) {
        decode_spec(t.drop_first(), d)
    } else if t.len() >= 6 && (t.len() == 6 || is_space(t[6])) {
        match (word_value(d, t.take(6)), decode_spec(t.skip(6), d)) {
            (Some(v), Some(rest)) => Some(seq![v] + rest),
            _ => None,
        }
    } else {
        None
    }
}

/// `o` with `a` put in front of the sequence it holds.
pub open spec fn prepend(a: Seq<u8>, o: Option<Seq<u8>>) -> Option<Seq<u8>> {
    match o {
        Some(r) => Some(a + r),
        None => None,
    }
}

/// The syllable of dialect `d` for the nibble `v`.
fn syllable_of(d: CipherDialect, v: u8) -> (r: (u8, u8, u8))
    requires
        v < 16,
    ensures
        r == syllable(d, v),
{
    match d {
        CipherDialect::Cat => {
            if v == 0 { (109, 101, 119) } // mew
            else if v == 1 { (112, 117, 114) } // pur
            else if v == 2 { (110, 121, 97) } // nya
            else if v == 3 { (109, 114, 114) } // mrr
            else if v == 4 { (104, 115, 115) } // hss
            else if v == 5 { (112, 97, 119) } // paw
            else if v == 6 { (102, 117, 114) } // fur
            else if v == 7 { (116, 97, 98) } // tab
            else if v == 8 { (107, 105, 116) } // kit
            else if v == 9 { (121, 111, 119) } // yow
            else if v == 10 { (109, 97, 111) } // mao
            else if v == 11 { (108, 97, 112) } // lap
            else if v == 12 { (110, 105, 112) } // nip
            else if v == 13 { (122, 122, 122) } // zzz
            else if v == 14 { (116, 117, 102) } // tuf
            else { (119, 115, 107) } // wsk
        },
        CipherDialect::Dog => {
            if v == 0 { (97, 114, 102) } // arf
            else if v == 1 { (119, 111, 102) } // wof
            else if v == 2 { (121, 105, 112) } // yip
            else if v == 3 { (98, 111, 119) } // bow
            else if v == 4 { (103, 114, 114) } // grr
            else if v == 5 { (114, 117, 102) } // ruf
            else if v == 6 { (98, 114, 107) } // brk
            else if v == 7 { (104, 119, 108) } // hwl
            else if v == 8 { (112, 117, 112) } // pup
            else if v == 9 { (115, 105, 116) } // sit
            else if v == 10 { (102, 101, 116) } // fet
            else if v == 11 { (98, 111, 110) } // bon
            else if v == 12 { (119, 97, 103) } // wag
            else if v == 13 { (115, 110, 102) } // snf
            else if v == 14 { (100, 105, 103) } // dig
            else { (121, 97, 112) } // yap
        },
    }
}

/// The nibble whose syllable in dialect `d` is `s`.
fn find_syllable(d: CipherDialect, s: (u8, u8, u8)) -> (r: Option<u8>)
    ensures
        r == syllable_index(d, s),
{
    proof {
        lemma_syllables_distinct(d);
    }
    let mut v: u8 = 0;
    while v < 16
        invariant
            v <= 16,
            forall|w: u8| w < v ==> #[trigger] syllable(d, w) != s,
        decreases 16 - v,
    {
        let c = syllable_of(d, v);
        if c.0 == s.0 && c.1 == s.1 && c.2 == s.2 {
            return Some(v);
        }
        v = v + 1;
    }
    None
}

fn is_space_byte(c: u8) -> (r: bool)
    ensures
        r == is_space(c),
{
    c == 32 || c == 9 || c == 10 || c == 12 || c == 13
}

fn lower_byte(c: u8) -> (r: u8)
    ensures
        r == lower(c),
{
    if 65 <= c && c <= 90 {
        c + 32
    } else {
        c
    }
}

/// The byte that the word at `text[i..i + 6]` stands for.
fn word_value_at(d: CipherDialect, text: &[u8], i: usize) -> (r: Option<u8>)
    requires
        i + 6 <= text@.len(),
    ensures
        r == word_value(d, text@.subrange(i as int, i + 6)),
{
    let w = Ghost(text@.subrange(i as int, i + 6));
    let hi = find_syllable(
        d,
        (lower_byte(text[i]), lower_byte(text[i + 1]), lower_byte(text[i + 2])),
    );
    let lo = find_syllable(
        d,
        (lower_byte(text[i + 3]), lower_byte(text[i + 4]), lower_byte(text[i + 5])),
    );
    assert(w@[0] == text@[i as int] && w@[1] == text@[i + 1] && w@[2] == text@[i + 2]);
    assert(w@[3] == text@[i + 3] && w@[4] == text@[i + 4] && w@[5] == text@[i + 5]);
    match (hi, lo) {
        (Some(h), Some(l)) => Some(h * 16 + l),
        _ => None,
    }
}

/// Renders `bytes` as words of dialect `d`, one per byte, joined by single spaces.
pub fn encode(bytes: &[u8], d: CipherDialect) -> (r: Vec<u8>)
    ensures
        r@ == encode_spec(bytes@, d),
{
    let mut out: Vec<u8> = Vec::new();
    let mut i: usize = 0;
    while i < bytes.len()
        invariant
            i <= bytes@.len(),
            out@ == encode_spec(bytes@.take(i as int), d),
        decreases bytes@.len() - i,
    {
        let b = bytes[i];
        let ghost before = out@;
        if i > 0 {
            out.push(SEPARATOR);
        }
        let hi = syllable_of(d, b / 16);
        let lo = syllable_of(d, b % 16);
        out.push(hi.0);
        out.push(hi.1);
        out.push(hi.2);
        out.push(lo.0);
        out.push(lo.1);
        out.push(lo.2);
        proof {
            let p = bytes@.take(i + 1);
            assert(p.drop_last() =~= bytes@.take(i as int));
            assert(p.last() == b);
            if i == 0 {
                assert(out@ =~= word(d, b));
            } else {
                assert(out@ =~= before + seq![SEPARATOR] + word(d, b));
            }
        }
        i = i + 1;
    }
    assert(bytes@.take(bytes@.len() as int) =~= bytes@);
    out
}

/// Reads text of dialect `d` back into bytes. Whitespace runs, leading and
/// trailing whitespace and upper case are accepted; any other run of bytes that
/// is not a word of the dialect fails the whole decode.
pub fn decode(text: &[u8], d: CipherDialect) -> (r: Result<Vec<u8>, PurrError>)
    ensures
        match decode_spec(text@, d) {
            Some(b) => r matches Ok(v) && v@ == b,
            None => r == Err::<Vec<u8>, PurrError>(PurrError::Decode),
        },
{
    let mut out: Vec<u8> = Vec::new();
    let mut i: usize = 0;
    assert(text@.skip(0) =~= text@);
    assert(Seq::<u8>::empty() + text@ =~= text@);
    proof {
        if decode_spec(text@, d) is Some {
            assert(Seq::<u8>::empty() + decode_spec(text@, d)->0 =~= decode_spec(text@, d)->0);
        }
    }
    while i < text.len()
        invariant
            i <= text@.len(),
            decode_spec(text@, d) == prepend(out@, decode_spec(text@.skip(i as int), d)),
        decreases text@.len() - i,
    {
        let ghost t = text@.skip(i as int);
        if is_space_byte(text[i]) {
            assert(t.drop_first() =~= text@.skip(i + 1));
            i = i + 1;
        } else if 6 <= text.len() - i && (i + 6 == text.len() || is_space_byte(text[i + 6])) {
            assert(t.take(6) =~= text@.subrange(i as int, i + 6));
            assert(t.skip(6) =~= text@.skip(i + 6));
            match word_value_at(d, text, i) {
                Some(v) => {
                    let ghost before = out@;
                    out.push(v);
                    proof {
                        let rest = decode_spec(text@.skip(i + 6), d);
                        if rest is Some {
                            assert(before + (seq![v] + rest->0) =~= out@ + rest->0);
                        }
                    }
                    i = i + 6;
                },
                None => {
                    return Err(PurrError::Decode);
                },
            }
        } else {
            return Err(PurrError::Decode);
        }
    }
    assert(text@.skip(i as int) =~= Seq::<u8>::empty());
    assert(out@ + Seq::<u8>::empty() =~= out@);
    Ok(out)
}

/// Distinct nibbles have distinct syllables, within each dialect.
pub proof fn lemma_syllables_distinct(d: CipherDialect)
    ensures
        forall|v: u8, w: u8|
            v < 16 && w < 16 && #[trigger] syllable(d, v) == #[trigger] syllable(d, w) ==> v == w,
{
}

/// No syllable of one dialect is a syllable of the other.
pub proof fn lemma_vocabularies_disjoint()
    ensures
        forall|v: u8, w: u8|
            v < 16 && w < 16 ==> #[trigger] syllable(CipherDialect::Cat, v)
                != #[trigger] syllable(CipherDialect::Dog, w),
{
}

proof fn lemma_syllable_index(d: CipherDialect, v: u8)
    requires
        v < 16,
    ensures
        syllable_index(d, syllable(d, v)) == Some(v),
{
    lemma_syllables_distinct(d);
}

proof fn lemma_word_letters(d: CipherDialect, b: u8)
    ensures
        word(d, b).len() == 6,
        forall|i: int| 0 <= i < 6 ==> 97 <= #[trigger] word(d, b)[i] <= 122,
{
}

proof fn lemma_word_value(d: CipherDialect, b: u8)
    ensures
        word_value(d, word(d, b)) == Some(b),
{
    let w = word(d, b);
    lemma_word_letters(d, b);
    assert(lower(w[0]) == w[0] && lower(w[1]) == w[1] && lower(w[2]) == w[2]);
    assert(lower(w[3]) == w[3] && lower(w[4]) == w[4] && lower(w[5]) == w[5]);
    lemma_syllable_index(d, b / 16);
    lemma_syllable_index(d, b % 16);
}

proof fn lemma_word_foreign(d: CipherDialect, e: CipherDialect, b: u8)
    requires
        d != e,
    ensures
        word_value(e, word(d, b)) is None,
{
    let w = word(d, b);
    lemma_word_letters(d, b);
    assert(lower(w[0]) == w[0] && lower(w[1]) == w[1] && lower(w[2]) == w[2]);
    lemma_vocabularies_disjoint();
    if syllable_index(e, syllable(d, b / 16)) is Some {
        let v = choose|v: u8| v < 16 && #[trigger] syllable(e, v) == syllable(d, b / 16);
        assert(syllable(e, v) == syllable(d, b / 16));
    }
}

/// Encoding two or more bytes is the first word, a space, and the encoding of the rest.
proof fn lemma_encode_front(b: Seq<u8>, d: CipherDialect)
    requires
        b.len() >= 2,
    ensures
        encode_spec(b, d) == word(d, b[0]) + seq![SEPARATOR] + encode_spec(b.drop_first(), d),
    decreases b.len(),
{
    if b.len() == 2 {
        assert(encode_spec(b.drop_last(), d) == word(d, b[0]));
        assert(encode_spec(b.drop_first(), d) == word(d, b[1]));
        assert(encode_spec(b, d) == encode_spec(b.drop_last(), d) + seq![SEPARATOR] + word(
            d,
            b[1],
        ));
    } else {
        lemma_encode_front(b.drop_last(), d);
        assert(b.drop_last().drop_first() =~= b.drop_first().drop_last());
        assert(b.drop_first().last() == b.last());
        assert(encode_spec(b.drop_first(), d) == encode_spec(b.drop_first().drop_last(), d)
            + seq![SEPARATOR] + word(d, b.drop_first().last()));
        assert(encode_spec(b, d) =~= word(d, b[0]) + seq![SEPARATOR] + encode_spec(
            b.drop_first(),
            d,
        ));
    }
}

/// Decoding, in the same dialect, the encoding of any bytes gives those bytes back.
pub proof fn lemma_codec_round_trip(b: Seq<u8>, d: CipherDialect)
    ensures
        decode_spec(encode_spec(b, d), d) == Some(b),
    decreases b.len(),
{
    if b.len() == 0 {
    } else {
        let t = encode_spec(b, d);
        lemma_word_letters(d, b[0]);
        lemma_word_value(d, b[0]);
        if b.len() == 1 {
            assert(t == word(d, b[0]));
            assert(t.take(6) =~= t);
            assert(t.skip(6) =~= Seq::<u8>::empty());
            assert(decode_spec(t.skip(6), d) == Some(Seq::<u8>::empty()));
            assert(seq![b[0]] + Seq::<u8>::empty() =~= b);
        } else {
            lemma_encode_front(b, d);
            let rest = encode_spec(b.drop_first(), d);
            assert(t.take(6) =~= word(d, b[0]));
            assert(t[6] == SEPARATOR);
            assert(t.skip(6).drop_first() =~= rest);
            lemma_codec_round_trip(b.drop_first(), d);
            assert(decode_spec(t.skip(6), d) == decode_spec(rest, d));
            assert(seq![b[0]] + b.drop_first() =~= b);
        }
    }
}

/// Text that encodes at least one byte in one dialect never decodes in the other.
pub proof fn lemma_cross_dialect_rejected(b: Seq<u8>, d: CipherDialect, e: CipherDialect)
    requires
        b.len() > 0,
        d != e,
    ensures
        decode_spec(encode_spec(b, d), e) is None,
{
    let t = encode_spec(b, d);
    lemma_word_letters(d, b[0]);
    lemma_word_foreign(d, e, b[0]);
    if b.len() == 1 {
        assert(t == word(d, b[0]));
        assert(t.take(6) =~= t);
    } else {
        lemma_encode_front(b, d);
        assert(t.take(6) =~= word(d, b[0]));
    }
}

} // verus!
