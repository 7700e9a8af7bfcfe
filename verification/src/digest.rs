//! Hex digests of byte strings, computed by the `crypto` crate.

use crypto::digest::Digest;
use vstd::prelude::*;

verus! {

/// The longest input, in bytes, that the SHA-1 digest takes: its bit counter
/// has 64 bits.
pub const SHA1_INPUT_LIMIT: u64 = 0x2000_0000_0000_0000;

/// The SHA-1 digest of `data`, as hexadecimal text.
pub uninterp spec fn sha1_hex(data: Seq<u8>) -> Seq<char>;

/// The MD5 digest of `data`, as hexadecimal text.
pub uninterp spec fn md5_hex(data: Seq<u8>) -> Seq<char>;

/// Whether a character is a lower-case hexadecimal digit.
pub open spec fn is_hex_char(c: char) -> bool {
    ('0' <= c && c <= '9') || ('a' <= c && c <= 'f')
}

/// `crypto::sha1::Sha1`: `new`, `input` and `result_str` on `data`.
///
/// Trusted: the text returned is the SHA-1 digest of `data`, a function of
/// `data` alone, written as 40 lower-case hexadecimal digits (20 bytes, two
/// digits each). Inputs of 2^61 bytes or more are left out: there the digest
/// stops on the overflow of its bit counter.
#[verifier::external_body]
pub(crate) fn sha1_hex_digest(data: &[u8]) -> (hex: String)
    requires
        data@.len() < SHA1_INPUT_LIMIT,
    ensures
        hex@ == sha1_hex(data@),
        hex@.len() == 40,
        forall|i: int| 0 <= i < 40 ==> is_hex_char(#[trigger] hex@[i]),
{
    let mut hasher = crypto::sha1::Sha1::new();
    hasher.input(data);
    hasher.result_str()
}

/// `crypto::md5::Md5`: `new`, `input` and `result_str` on `data`.
///
/// Trusted: the text returned is the MD5 digest of `data` in hexadecimal, a
/// function of `data` alone.
#[verifier::external_body]
pub(crate) fn md5_hex_digest(data: &[u8]) -> (hex: String)
    ensures
        hex@ == md5_hex(data@),
{
    let mut hasher = crypto::md5::Md5::new();
    hasher.input(data);
    hasher.result_str()
}

} // verus!
