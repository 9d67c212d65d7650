//! The decisions a command run makes between reading its inputs and calling
//! the library: which dialect to write, and where outputs go by default.

use vstd::prelude::*;
use vstd::string::{StrSliceExecFns, StringExecFns};
use crate::dialect::CipherDialect;

verus! {

/// `c` is the ASCII letter `l` (given in lower case) in either case.
pub open spec fn same_letter(c: char, l: char) -> bool {
    c == l || (c as u32) + 32 == (l as u32)
}

/// `s` spells the lower-case word `w`, ignoring ASCII case.
pub open spec fn spells(s: Seq<char>, w: Seq<char>) -> bool {
    s.len() == w.len() && forall|i: int| 0 <= i < s.len() ==> same_letter(#[trigger] s[i], w[i])
}

/// The dialect that `s` names: `cat` or `dog`, in any case.
pub open spec fn dialect_named(s: Seq<char>) -> Option<CipherDialect> {
    if spells(s, "cat"@) {
        Some(CipherDialect::Cat)
    } else if spells(s, "dog"@) {
        Some(CipherDialect::Dog)
    } else {
        None
    }
}

fn spells_word(s: &str, w: &str) -> (r: bool)
    ensures
        r == spells(s@, w@),
{
    let n = s.unicode_len();
    if n != w.unicode_len() {
        return false;
    }
    let mut i: usize = 0;
    while i < n
        invariant
            i <= n,
            n == s@.len(),
            n == w@.len(),
            forall|j: int| 0 <= j < i ==> same_letter(#[trigger] s@[j], w@[j]),
        decreases n - i,
    {
        let c = s.get_char(i);
        let l = w.get_char(i);
        if !(c == l || (c as u32) + 32 == (l as u32)) {
            return false;
        }
        i = i + 1;
    }
    true
}

/// The dialect that `name` names, if any.
pub fn dialect_from_name(name: &str) -> (r: Option<CipherDialect>)
    ensures
        r == dialect_named(name@),
{
    if spells_word(name, "cat") {
        Some(CipherDialect::Cat)
    } else if spells_word(name, "dog") {
        Some(CipherDialect::Dog)
    } else {
        None
    }
}

/// The dialect an encryption uses: the one named on the command line where a
/// name was given, which must then be valid; else the preferred one.
pub fn choose_dialect(requested: Option<&str>, preferred: CipherDialect) -> (r: Option<CipherDialect>)
    ensures
        requested is None ==> r == Some(preferred),
        requested matches Some(n) ==> r == dialect_named(n@),
{
    match requested {
        Some(n) => dialect_from_name(n),
        None => Some(preferred),
    }
}

/// The text a configuration file holds for preferred dialect `d`.
pub open spec fn config_text_of(d: CipherDialect) -> Seq<char> {
    match d {
        CipherDialect::Cat => "cat"@,
        CipherDialect::Dog => "dog"@,
    }
}

/// The preferred dialect that configuration text `text` records; text that
/// records none, a missing file included, means cat.
pub open spec fn config_dialect(text: Seq<char>) -> CipherDialect {
    match dialect_named(trim_end(text)) {
        Some(d) => d,
        None => CipherDialect::Cat,
    }
}

pub open spec fn is_blank(c: char) -> bool {
    c == ' ' || c == '\n' || c == '\r' || c == '\t'
}

/// `s` without its trailing blanks.
pub open spec fn trim_end(s: Seq<char>) -> Seq<char>
    decreases s.len(),
{
    if s.len() > 0 && is_blank(s.last()) {
        trim_end(s.drop_last())
    } else {
        s
    }
}

/// The configuration text that records preferred dialect `d`.
pub fn config_text(d: CipherDialect) -> (r: String)
    ensures
        r@ == config_text_of(d),
{
    match d {
        CipherDialect::Cat => String::from_str("cat"),
        CipherDialect::Dog => String::from_str("dog"),
    }
}

/// The preferred dialect recorded in configuration text `text`.
pub fn dialect_from_config(text: &str) -> (r: CipherDialect)
    ensures
        r == config_dialect(text@),
{
    let mut end: usize = text.unicode_len();
    assert(text@.subrange(0, end as int) =~= text@);
    while end > 0 && is_blank_char(text.get_char(end - 1))
        invariant
            end <= text@.len(),
            trim_end(text@) == trim_end(text@.subrange(0, end as int)),
        decreases end,
    {
        assert(text@.subrange(0, end as int).drop_last() =~= text@.subrange(0, end - 1));
        end = end - 1;
    }
    let trimmed = text.substring_char(0, end);
    match dialect_from_name(trimmed) {
        Some(d) => d,
        None => CipherDialect::Cat,
    }
}

fn is_blank_char(c: char) -> (r: bool)
    ensures
        r == is_blank(c),
{
    c == ' ' || c == '\n' || c == '\r' || c == '\t'
}

/// Reading back the configuration written for a dialect gives that dialect.
pub proof fn lemma_config_round_trip(d: CipherDialect)
    ensures
        config_dialect(config_text_of(d)) == d,
{
    reveal_strlit("cat");
    reveal_strlit("dog");
    assert(trim_end("cat"@) == "cat"@);
    assert(trim_end("dog"@) == "dog"@);
    if d == CipherDialect::Dog {
        assert(!same_letter("dog"@[0], "cat"@[0]));
        assert(!spells("dog"@, "cat"@));
    }
}

/// Where an encryption writes: the given output, else the input with `.purr` appended.
pub open spec fn encrypt_output_of(input: Seq<char>, output: Option<Seq<char>>) -> Seq<char> {
    match output {
        Some(o) => o,
        None => input + ".purr"@,
    }
}

/// Where a decryption writes: the given output, else the input without its
/// `.purr` suffix, else the input with `.decrypted` appended.
pub open spec fn decrypt_output_of(input: Seq<char>, output: Option<Seq<char>>) -> Seq<char> {
    match output {
        Some(o) => o,
        None => if input.len() >= 5 && input.subrange(input.len() - 5, input.len() as int)
            == ".purr"@ {
            input.subrange(0, input.len() - 5)
        } else {
            input + ".decrypted"@
        },
    }
}

pub fn encrypt_output_path(input: &str, output: Option<String>) -> (r: String)
    ensures
        r@ == encrypt_output_of(input@, crate::command::opt_view(output)),
{
    match output {
        Some(o) => o,
        None => String::from_str(input).concat(".purr"),
    }
}

pub fn decrypt_output_path(input: &str, output: Option<String>) -> (r: String)
    ensures
        r@ == decrypt_output_of(input@, crate::command::opt_view(output)),
{
    match output {
        Some(o) => o,
        None => {
            let n = input.unicode_len();
            if n >= 5 {
                let suffix = String::from_str(input.substring_char(n - 5, n));
                if suffix == String::from_str(".purr") {
                    return String::from_str(input.substring_char(0, n - 5));
                }
            }
            String::from_str(input).concat(".decrypted")
        },
    }
}

/// The name a generated key pair is stored under: the given one, else `default`.
pub fn key_name(name: Option<String>) -> (r: String)
    ensures
        name matches Some(n) ==> r == n,
        name is None ==> r@ == "default"@,
{
    match name {
        Some(n) => n,
        None => String::from_str("default"),
    }
}

} // verus!
