//! Random strings, API keys and request paths.

pub mod key;
pub mod uri;

use vstd::prelude::*;
use vstd::string::*;
use vstd::utf8::is_ascii_chars;

verus! {

/// The characters that a random string is drawn from by default: the
/// lower-case letters but `e`, the upper-case letters and the digits.
pub const ALPHABET: &'static str = "abcdfghijklmnopqrstuvwxyzABCDEFGHIJKLMNOPQRSTUVWXYZ1234567890";

/// The characters that a random string is drawn from.
pub open spec fn alphabet_of(consonants: Option<&str>) -> Seq<char> {
    match consonants {
        Some(chosen) => chosen@,
        None => ALPHABET@,
    }
}

/// Whether every character of `text` occurs in `alphabet`.
pub open spec fn drawn_from(text: Seq<char>, alphabet: Seq<char>) -> bool {
    forall|i: int| 0 <= i < text.len() ==> alphabet.contains(#[trigger] text[i])
}

/// The default alphabet has 61 characters, all of them ASCII.
pub proof fn lemma_alphabet()
    ensures
        ALPHABET@.len() == 61,
        is_ascii_chars(ALPHABET@),
{
    reveal_strlit("abcdfghijklmnopqrstuvwxyzABCDEFGHIJKLMNOPQRSTUVWXYZ1234567890");
}

/// A text drawn from the default alphabet is ASCII.
pub proof fn lemma_drawn_from_alphabet_is_ascii(text: Seq<char>)
    requires
        drawn_from(text, ALPHABET@),
    ensures
        is_ascii_chars(text),
{
    lemma_alphabet();
    assert forall|i: int| 0 <= i < text.len() implies '\0' <= #[trigger] text[i] <= '\u{7f}' by {
        assert(ALPHABET@.contains(text[i]));
        let j = choose|j: int| 0 <= j < ALPHABET@.len() && ALPHABET@[j] == text[i];
        assert('\0' <= ALPHABET@[j] <= '\u{7f}');
    }
}

/// `rand::sample` of one item from the characters of `alphabet`, with
/// `rand::thread_rng()` as the source.
///
/// Trusted: the character returned is one of the characters of `alphabet`.
/// An empty alphabet is left out: there is nothing to sample.
#[verifier::external_body]
fn pick_char(alphabet: &str) -> (c: char)
    requires
        alphabet@.len() > 0,
    ensures
        alphabet@.contains(c),
{
    rand::sample(&mut rand::thread_rng(), alphabet.chars(), 1)[0]
}

/// `String::push`.
///
/// Trusted: the character is added at the end of the text.
#[verifier::external_body]
fn push_char(text: &mut String, c: char)
    ensures
        final(text)@ == old(text)@.push(c),
{
    text.push(c)
}

/// A random string of `len` characters of the default alphabet.
pub fn random_string(len: u8) -> (text: String)
    ensures
        text@.len() == len,
        drawn_from(text@, ALPHABET@),
{
    proof {
        lemma_alphabet();
    }
    random_string_with_consonants(len, None)
}

/// A random string of `len` characters, each drawn from `consonants`, or
/// from the default alphabet where none are given.
pub fn random_string_with_consonants(len: u8, consonants: Option<&str>) -> (text: String)
    requires
        len > 0 ==> alphabet_of(consonants).len() > 0,
    ensures
        text@.len() == len,
        drawn_from(text@, alphabet_of(consonants)),
{
    let alphabet = match consonants {
        Some(chosen) => chosen,
        None => ALPHABET,
    };
    let mut result = String::new();
    let mut i: u8 = 0;
    while i < len
        invariant
            i <= len,
            alphabet@ == alphabet_of(consonants),
            len > 0 ==> alphabet@.len() > 0,
            result@.len() == i,
            drawn_from(result@, alphabet@),
        decreases len - i,
    {
        let c = pick_char(alphabet);
        push_char(&mut result, c);
        i += 1;
    }
    result
}

} // verus!
