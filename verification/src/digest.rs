//! One-way digests and their hexadecimal rendering.
//!
//! The digest algorithms themselves are not verified here: each is computed
//! by its RustCrypto crate, and stands in contracts under a name of its own.

use md5::Digest;
use vstd::prelude::*;

verus! {

/// The MD5 digest of `data`, as the `md-5` crate computes it.
pub uninterp spec fn md5_of(data: Seq<u8>) -> [u8; 16];

/// The SHA-1 digest of `data`, as the `sha1` crate computes it.
pub uninterp spec fn sha1_of(data: Seq<u8>) -> [u8; 20];

/// The SHA-256 digest of `data`, as the `sha2` crate computes it.
pub uninterp spec fn sha256_of(data: Seq<u8>) -> [u8; 32];

/// The SHA-512 digest of `data`, as the `sha2` crate computes it.
pub uninterp spec fn sha512_of(data: Seq<u8>) -> [u8; 64];

/// Trusted: calls `Digest::digest` of `md5::Md5` on `data`. The 16 bytes
/// that come back depend on `data` alone; nothing more is claimed of them.
#[verifier::external_body]
pub(crate) fn md5_digest(data: &[u8]) -> (out: [u8; 16])
    ensures
        out == md5_of(data@),
{
    md5::Md5::digest(data).into()
}

/// Trusted: calls `Digest::digest` of `sha1::Sha1` on `data`. The 20 bytes
/// that come back depend on `data` alone; nothing more is claimed of them.
#[verifier::external_body]
pub(crate) fn sha1_digest(data: &[u8]) -> (out: [u8; 20])
    ensures
        out == sha1_of(data@),
{
    sha1::Sha1::digest(data).into()
}

/// Trusted: calls `Digest::digest` of `sha2::Sha256` on `data`. The 32 bytes
/// that come back depend on `data` alone; nothing more is claimed of them.
#[verifier::external_body]
pub(crate) fn sha256_digest(data: &[u8]) -> (out: [u8; 32])
    ensures
        out == sha256_of(data@),
{
    sha2::Sha256::digest(data).into()
}

/// Trusted: calls `Digest::digest` of `sha2::Sha512` on `data`. The 64 bytes
/// that come back depend on `data` alone; nothing more is claimed of them.
#[verifier::external_body]
pub(crate) fn sha512_digest(data: &[u8]) -> (out: [u8; 64])
    ensures
        out == sha512_of(data@),
{
    sha2::Sha512::digest(data).into()
}

/// The lowercase hexadecimal digit for a value below 16.
pub open spec fn hex_char(nibble: int) -> char {
    if nibble < 10 {
        (48 + nibble) as char
    } else {
        (87 + nibble) as char
    }
}

/// Lowercase hexadecimal, two digits per byte, high half first.
pub open spec fn to_hex(bytes: Seq<u8>) -> Seq<char> {
    Seq::new(
        2 * bytes.len(),
        |i: int|
            if i % 2 == 0 {
                hex_char(bytes[i / 2] as int / 16)
            } else {
                hex_char(bytes[i / 2] as int % 16)
            },
    )
}

fn hex_char_of(nibble: u8) -> (c: char)
    requires
        nibble < 16,
    ensures
        c == hex_char(nibble as int),
{
    if nibble < 10 {
        (48 + nibble) as char
    } else {
        (87 + nibble) as char
    }
}

/// Appends the lowercase hexadecimal rendering of `bytes` to `out`.
pub fn push_hex(out: &mut String, bytes: &[u8])
    ensures
        final(out)@ == old(out)@ + to_hex(bytes@),
{
    let mut i: usize = 0;
    while i < bytes.len()
        invariant
            i <= bytes.len(),
            out@ == old(out)@ + to_hex(bytes@.take(i as int)),
        decreases bytes.len() - i,
    {
        let b = bytes[i];
        out.push(hex_char_of(b / 16));
        out.push(hex_char_of(b % 16));
        i += 1;
        assert(out@ =~= old(out)@ + to_hex(bytes@.take(i as int)));
    }
    assert(bytes@.take(bytes.len() as int) =~= bytes@);
}

} // verus!
