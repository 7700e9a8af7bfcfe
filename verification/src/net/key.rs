//! API keys: opaque tokens that carry a stamp made from a shared secret.
//!
//! A key is 32 bytes of text: 26 random characters, then the first 6
//! hexadecimal digits of the SHA-1 digest of those characters followed by the
//! secret. Whoever knows the secret can check a key without having stored it.

use vstd::prelude::*;
use vstd::string::*;
use vstd::utf8::*;

use crate::digest::{is_hex_char, sha1_hex, sha1_hex_digest, SHA1_INPUT_LIMIT};
use crate::net::{drawn_from, lemma_drawn_from_alphabet_is_ascii, random_string, ALPHABET};
use crate::text::{lemma_encode_concat, same_text};

verus! {

/// The shared secret that keys are stamped with.
pub struct PrivateKey {
    key: String,
}

impl View for PrivateKey {
    type V = Seq<char>;

    closed spec fn view(&self) -> Seq<char> {
        self.key@
    }
}

impl PrivateKey {
    /// Wraps a secret.
    pub fn new(key: String) -> (secret: PrivateKey)
        ensures
            secret@ == key@,
    {
        PrivateKey { key }
    }

    /// The secret as text.
    pub fn as_str(&self) -> (text: &str)
        ensures
            text@ == self@,
    {
        self.key.as_str()
    }
}

/// The length of a key, in bytes.
pub const KEY_LENGTH: usize = 32;

/// The length of the random part of a key, in bytes.
pub const PREFIX_LENGTH: usize = 26;

/// The length of the stamp of a key, in bytes.
pub const STAMP_LENGTH: usize = 6;

/// Whether a secret is short enough for the digest to take it after the
/// random part of a key.
pub open spec fn usable_secret(secret: Seq<char>) -> bool {
    encode_utf8(secret).len() + PREFIX_LENGTH < SHA1_INPUT_LIMIT
}

/// The stamp of a key: the first six hexadecimal digits of the SHA-1 digest
/// of the key's random part followed by the secret.
pub open spec fn stamp(prefix: Seq<char>, secret: Seq<char>) -> Seq<char> {
    sha1_hex(encode_utf8(prefix + secret)).take(STAMP_LENGTH as int)
}

/// Whether `key` is a key under `secret`: its text has 32 bytes, the first 26
/// of them are characters of their own, and the characters after them are
/// the stamp of those before.
pub open spec fn valid_api_key(key: Seq<char>, secret: Seq<char>) -> bool {
    let bytes = encode_utf8(key);
    &&& bytes.len() == KEY_LENGTH
    &&& is_char_boundary(bytes, PREFIX_LENGTH as int)
    &&& usable_secret(secret)
    &&& decode_utf8(bytes.skip(PREFIX_LENGTH as int)) == stamp(
        decode_utf8(bytes.take(PREFIX_LENGTH as int)),
        secret,
    )
}

/// The key made of a random part and a digest: the random part, then the
/// first six characters of the digest. A digest of fewer characters makes no
/// key.
pub fn stamped(random: &str, digest: &str) -> (key: Option<String>)
    ensures
        match key {
            Some(k) => digest@.len() >= STAMP_LENGTH && k@ == random@ + digest@.take(
                STAMP_LENGTH as int,
            ),
            None => digest@.len() < STAMP_LENGTH,
        },
{
    if digest.unicode_len() < STAMP_LENGTH {
        return None;
    }
    let mut key = String::from_str(random);
    key.append(digest.substring_char(0, STAMP_LENGTH));
    Some(key)
}

/// Whether `stamp` is the stamp that a digest gives: its first six
/// characters.
pub fn is_stamp_of(stamp: &str, digest: &str) -> (same: bool)
    ensures
        same == (digest@.len() >= STAMP_LENGTH && stamp@ == digest@.take(STAMP_LENGTH as int)),
{
    if digest.unicode_len() < STAMP_LENGTH {
        return false;
    }
    same_text(stamp, digest.substring_char(0, STAMP_LENGTH))
}

/// The digest of the random part of a key followed by the secret.
fn digest_of(prefix: &str, secret: &str) -> (hex: String)
    requires
        encode_utf8(prefix@).len() == PREFIX_LENGTH,
        usable_secret(secret@),
    ensures
        hex@ == sha1_hex(encode_utf8(prefix@ + secret@)),
        hex@.len() == 40,
        forall|i: int| 0 <= i < 40 ==> is_hex_char(#[trigger] hex@[i]),
{
    let mut text = String::from_str(prefix);
    text.append(secret);
    proof {
        lemma_encode_concat(prefix@, secret@);
    }
    sha1_hex_digest(text.as_str().as_bytes())
}

/// Whether the secret is short enough to stamp a key with.
fn secret_is_usable(secret: &str) -> (usable: bool)
    ensures
        usable == usable_secret(secret@),
{
    (secret.as_bytes().len() as u64) < SHA1_INPUT_LIMIT - (PREFIX_LENGTH as u64)
}

/// Issues a key under `secret`: 26 random characters of the default
/// alphabet, then their stamp, which is six lower-case hexadecimal digits.
/// The key is valid under the secret. No key is issued under a secret that
/// is too long to be digested.
pub fn generate_api_key(secret: &str) -> (key: Option<String>)
    ensures
        key is Some <==> usable_secret(secret@),
        key matches Some(k) ==> {
            &&& valid_api_key(k@, secret@)
            &&& k@.len() == KEY_LENGTH
            &&& drawn_from(k@.take(PREFIX_LENGTH as int), ALPHABET@)
            &&& k@.skip(PREFIX_LENGTH as int) == stamp(k@.take(PREFIX_LENGTH as int), secret@)
            &&& forall|i: int| PREFIX_LENGTH <= i < KEY_LENGTH ==> is_hex_char(#[trigger] k@[i])
        },
{
    if !secret_is_usable(secret) {
        return None;
    }
    let random = random_string(PREFIX_LENGTH as u8);
    proof {
        lemma_drawn_from_alphabet_is_ascii(random@);
        is_ascii_chars_encode_utf8(random@);
    }
    let hex = digest_of(random.as_str(), secret);
    let key = stamped(random.as_str(), hex.as_str());
    proof {
        let k = key->0@;
        let tail = hex@.take(STAMP_LENGTH as int);
        let bytes = encode_utf8(k);
        assert(k.take(PREFIX_LENGTH as int) =~= random@);
        assert(k.skip(PREFIX_LENGTH as int) =~= tail);
        assert forall|i: int| PREFIX_LENGTH <= i < KEY_LENGTH implies is_hex_char(
            #[trigger] k[i],
        ) by {
            assert(k[i] == hex@[i - PREFIX_LENGTH]);
        }
        assert forall|i: int| 0 <= i < tail.len() implies '\0' <= #[trigger] tail[i]
            <= '\u{7f}' by {
            assert(is_hex_char(hex@[i]));
        }
        lemma_encode_concat(random@, tail);
        is_ascii_chars_encode_utf8(tail);
        assert(bytes.take(PREFIX_LENGTH as int) =~= encode_utf8(random@));
        assert(bytes.skip(PREFIX_LENGTH as int) =~= encode_utf8(tail));
        encode_utf8_decode_utf8(random@);
        encode_utf8_decode_utf8(tail);
        encode_utf8_valid_utf8(k);
        is_char_boundary_iff_not_is_continuation_byte(bytes, PREFIX_LENGTH as int);
        let first = bytes[PREFIX_LENGTH as int];
        assert(first == tail[0] as u8);
        assert(!is_continuation_byte(first)) by (bit_vector)
            requires
                first < 128,
        ;
    }
    key
}

/// Whether `key` is a key under `secret`.
pub fn validate_api_key(key: &str, secret: &str) -> (valid: bool)
    ensures
        valid == valid_api_key(key@, secret@),
        encode_utf8(key@).len() != KEY_LENGTH ==> !valid,
{
    if key.as_bytes().len() != KEY_LENGTH {
        return false;
    }
    if !key.is_char_boundary(PREFIX_LENGTH) {
        return false;
    }
    if !secret_is_usable(secret) {
        return false;
    }
    let (prefix, suffix) = key.split_at(PREFIX_LENGTH);
    proof {
        let bytes = encode_utf8(key@);
        assert(bytes.take(PREFIX_LENGTH as int) =~= prefix.spec_bytes());
        assert(bytes.skip(PREFIX_LENGTH as int) =~= suffix.spec_bytes());
        encode_utf8_decode_utf8(prefix@);
        encode_utf8_decode_utf8(suffix@);
    }
    let hex = digest_of(prefix, secret);
    is_stamp_of(suffix, hex.as_str())
}

} // verus!
