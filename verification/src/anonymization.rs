//! Masking and one-way hashing of a normalized identifier.

use crate::digest::{
    md5_digest, md5_of, push_hex, sha1_digest, sha1_of, sha256_digest, sha256_of, sha512_digest,
    sha512_of, to_hex,
};
use crate::models::DocumentType;
use crate::text::{chars_of, string_of};
use crate::validation::{fits_class, format_chars, formatted};
use vstd::prelude::*;
use vstd::std_specs::convert::FromSpecImpl;
use vstd::utf8::encode_utf8;

verus! {

/// The digest that keys an identifier, or `NoHash` for no key at all.
#[derive(Debug, Clone, Copy, PartialEq, Eq, Structural)]
pub enum HashAlgorithm {
    Md5,
    Sha1,
    Sha256,
    Sha512,
    /// No digest: the identifier gets no key.
    NoHash,
}

/// `c` with an ASCII capital letter turned into its small letter.
pub open spec fn lower_ascii(c: char) -> char {
    if 'A' <= c <= 'Z' {
        (c as int + 32) as char
    } else {
        c
    }
}

/// `s` reads as `name` once its ASCII capitals are made small.
pub open spec fn matches_ignoring_case(s: Seq<char>, name: Seq<char>) -> bool {
    &&& s.len() == name.len()
    &&& forall|i: int| 0 <= i < s.len() ==> lower_ascii(#[trigger] s[i]) == name[i]
}

/// The algorithm that a selector names, without regard to case. A selector
/// that names none of the four digests selects `NoHash`.
pub open spec fn algorithm_of(name: Seq<char>) -> HashAlgorithm {
    if matches_ignoring_case(name, "md5"@) {
        HashAlgorithm::Md5
    } else if matches_ignoring_case(name, "sha1"@) {
        HashAlgorithm::Sha1
    } else if matches_ignoring_case(name, "sha256"@) {
        HashAlgorithm::Sha256
    } else if matches_ignoring_case(name, "sha512"@) {
        HashAlgorithm::Sha512
    } else {
        HashAlgorithm::NoHash
    }
}

fn to_lower_ascii(c: char) -> (l: char)
    ensures
        l == lower_ascii(c),
{
    if c >= 'A' && c <= 'Z' {
        (c as u8 + 32) as char
    } else {
        c
    }
}

fn reads_as(chars: &Vec<char>, name: &str) -> (r: bool)
    ensures
        r == matches_ignoring_case(chars@, name@),
{
    let name_chars = chars_of(name);
    if chars.len() != name_chars.len() {
        return false;
    }
    let mut i: usize = 0;
    while i < chars.len()
        invariant
            i <= chars.len(),
            chars.len() == name_chars.len(),
            name_chars@ == name@,
            forall|j: int| 0 <= j < i ==> lower_ascii(#[trigger] chars@[j]) == name@[j],
        decreases chars.len() - i,
    {
        if to_lower_ascii(chars[i]) != name_chars[i] {
            return false;
        }
        i += 1;
    }
    true
}

impl<'a> From<&'a str> for HashAlgorithm {
    /// Resolves a selector by name, without regard to case.
    fn from(s: &'a str) -> (algo: Self) {
        let chars = chars_of(s);
        if reads_as(&chars, "md5") {
            HashAlgorithm::Md5
        } else if reads_as(&chars, "sha1") {
            HashAlgorithm::Sha1
        } else if reads_as(&chars, "sha256") {
            HashAlgorithm::Sha256
        } else if reads_as(&chars, "sha512") {
            HashAlgorithm::Sha512
        } else {
            HashAlgorithm::NoHash
        }
    }
}

/// What `HashAlgorithm::from` returns: the algorithm that the selector
/// names, as `algorithm_of` defines it.
impl<'a> FromSpecImpl<&'a str> for HashAlgorithm {
    open spec fn obeys_from_spec() -> bool {
        true
    }

    open spec fn from_spec(s: &'a str) -> Self {
        algorithm_of(s@)
    }
}

/// Position `i` lies in at least one of the closed ranges.
pub open spec fn is_revealed(ranges: Seq<(usize, usize)>, i: int) -> bool {
    exists|k: int| 0 <= k < ranges.len() && (#[trigger] ranges[k]).0 <= i <= ranges[k].1
}

/// `doc` with every position outside the ranges replaced by `mask`.
pub open spec fn masked(doc: Seq<char>, ranges: Seq<(usize, usize)>, mask: char) -> Seq<char> {
    Seq::new(doc.len(), |i: int| if is_revealed(ranges, i) { doc[i] } else { mask })
}

/// The mask character in force: `*` unless one is given.
pub open spec fn mask_or_default(mask_char: Option<char>) -> char {
    match mask_char {
        Some(c) => c,
        None => '*',
    }
}

/// The reveal ranges in force: none unless some are given.
pub open spec fn ranges_or_none(show_ranges: Option<Vec<(usize, usize)>>) -> Seq<(usize, usize)> {
    match show_ranges {
        Some(ranges) => ranges@,
        None => Seq::empty(),
    }
}

fn is_shown(ranges: &Vec<(usize, usize)>, i: usize) -> (shown: bool)
    ensures
        shown == is_revealed(ranges@, i as int),
{
    let mut k: usize = 0;
    while k < ranges.len()
        invariant
            k <= ranges.len(),
            forall|j: int| 0 <= j < k ==> !((#[trigger] ranges@[j]).0 <= i <= ranges@[j].1),
        decreases ranges.len() - k,
    {
        if ranges[k].0 <= i && i <= ranges[k].1 {
            return true;
        }
        k += 1;
    }
    false
}

/// Masks every character whose position no range reveals.
pub fn mask_chars(chars: &Vec<char>, ranges: &Vec<(usize, usize)>, mask_char: char) -> (out: Vec<
    char,
>)
    ensures
        out@ == masked(chars@, ranges@, mask_char),
{
    let mut out: Vec<char> = Vec::new();
    let mut i: usize = 0;
    while i < chars.len()
        invariant
            i <= chars.len(),
            out@ == masked(chars@, ranges@, mask_char).take(i as int),
        decreases chars.len() - i,
    {
        if is_shown(ranges, i) {
            out.push(chars[i]);
        } else {
            out.push(mask_char);
        }
        i += 1;
        assert(out@ =~= masked(chars@, ranges@, mask_char).take(i as int));
    }
    assert(out@ =~= masked(chars@, ranges@, mask_char));
    out
}

/// The tag that a key carries for the class of its identifier.
pub open spec fn class_tag(class: DocumentType) -> Seq<char> {
    match class {
        DocumentType::Cpf => "cpf"@,
        DocumentType::Cnpj => "cnpj"@,
        DocumentType::Invalid => "inv"@,
    }
}

/// The digest of `data` under `algo`, in lowercase hexadecimal.
pub open spec fn digest_hex(algo: HashAlgorithm, data: Seq<u8>) -> Option<Seq<char>> {
    match algo {
        HashAlgorithm::Md5 => Some(to_hex(md5_of(data)@)),
        HashAlgorithm::Sha1 => Some(to_hex(sha1_of(data)@)),
        HashAlgorithm::Sha256 => Some(to_hex(sha256_of(data)@)),
        HashAlgorithm::Sha512 => Some(to_hex(sha512_of(data)@)),
        HashAlgorithm::NoHash => None,
    }
}

/// A key: the class tag, an underscore, and the digest in hexadecimal.
pub open spec fn tagged(class: DocumentType, hex: Seq<char>) -> Seq<char> {
    class_tag(class) + seq!['_'] + hex
}

/// The key of an identifier: the tagged digest of the UTF-8 bytes of the
/// unmasked digits, or no key under `HashAlgorithm::NoHash`.
pub open spec fn hashed_key(doc: Seq<char>, class: DocumentType, algo: HashAlgorithm) -> Option<
    Seq<char>,
> {
    match digest_hex(algo, encode_utf8(doc)) {
        Some(hex) => Some(tagged(class, hex)),
        None => None,
    }
}

/// Renders a digest as a key: the class tag, an underscore, and the bytes
/// in lowercase hexadecimal.
pub fn tagged_key(doc_type: DocumentType, digest: &[u8]) -> (key: String)
    ensures
        key@ == tagged(doc_type, to_hex(digest@)),
{
    let mut key = match doc_type {
        DocumentType::Cpf => "cpf".to_owned(),
        DocumentType::Cnpj => "cnpj".to_owned(),
        DocumentType::Invalid => "inv".to_owned(),
    };
    key.push('_');
    push_hex(&mut key, digest);
    key
}

/// Computes the key of `doc` under the chosen digest.
pub fn hash_document(doc: &str, doc_type: DocumentType, hash_algorithm: HashAlgorithm) -> (key:
    Option<String>)
    ensures
        match key {
            Some(k) => hashed_key(doc@, doc_type, hash_algorithm) == Some(k@),
            None => hashed_key(doc@, doc_type, hash_algorithm) is None,
        },
{
    let data = doc.as_bytes();
    match hash_algorithm {
        HashAlgorithm::NoHash => None,
        HashAlgorithm::Md5 => {
            let digest = md5_digest(data);
            Some(tagged_key(doc_type, vstd::array::array_as_slice(&digest)))
        },
        HashAlgorithm::Sha1 => {
            let digest = sha1_digest(data);
            Some(tagged_key(doc_type, vstd::array::array_as_slice(&digest)))
        },
        HashAlgorithm::Sha256 => {
            let digest = sha256_digest(data);
            Some(tagged_key(doc_type, vstd::array::array_as_slice(&digest)))
        },
        HashAlgorithm::Sha512 => {
            let digest = sha512_digest(data);
            Some(tagged_key(doc_type, vstd::array::array_as_slice(&digest)))
        },
    }
}

/// Produces the three privacy-preserving forms of a normalized identifier:
/// the masked digits punctuated for display, the tagged hash key (if a
/// digest is chosen), and the masked digits without punctuation.
///
/// A position keeps its character exactly when one of `show_ranges`
/// (closed, zero-based, in any order, overlapping or not) covers it; every
/// other position shows `mask_char`, or `*` when none is given. The key is
/// always computed from the unmasked digits.
pub fn anonymize_document(
    doc: &str,
    doc_type: DocumentType,
    show_ranges: Option<Vec<(usize, usize)>>,
    mask_char: Option<char>,
    hash_algorithm: HashAlgorithm,
) -> (out: (String, Option<String>, Option<String>))
    requires
        fits_class(doc@, doc_type),
    ensures
        out.2 matches Some(m) && m@ == masked(
            doc@,
            ranges_or_none(show_ranges),
            mask_or_default(mask_char),
        ),
        out.0@ == formatted(
            masked(doc@, ranges_or_none(show_ranges), mask_or_default(mask_char)),
            doc_type,
        ),
        match out.1 {
            Some(k) => hashed_key(doc@, doc_type, hash_algorithm) == Some(k@),
            None => hashed_key(doc@, doc_type, hash_algorithm) is None,
        },
        out.2 matches Some(m) && m@.len() == doc@.len() && forall|i: int|
            0 <= i < doc@.len() ==> #[trigger] m@[i] == if is_revealed(
                ranges_or_none(show_ranges),
                i,
            ) {
                doc@[i]
            } else {
                mask_or_default(mask_char)
            },
{
    let mask = match mask_char {
        Some(c) => c,
        None => '*',
    };
    let ranges = match show_ranges {
        Some(ranges) => ranges,
        None => Vec::new(),
    };
    let chars = chars_of(doc);
    let masked_chars = mask_chars(&chars, &ranges, mask);
    let hashed_key = hash_document(doc, doc_type, hash_algorithm);
    let formatted_masked = format_chars(&masked_chars, doc_type);
    let masked_digits = string_of(&masked_chars);
    (formatted_masked, hashed_key, Some(masked_digits))
}

/// The number of hexadecimal digits in a digest: two for each of its bytes.
pub open spec fn hex_len(algo: HashAlgorithm) -> nat {
    match algo {
        HashAlgorithm::Md5 => 32,
        HashAlgorithm::Sha1 => 40,
        HashAlgorithm::Sha256 => 64,
        HashAlgorithm::Sha512 => 128,
        HashAlgorithm::NoHash => 0,
    }
}

/// A key starts with the class tag and an underscore, and goes on for as
/// many hexadecimal digits as the digest has.
pub proof fn lemma_key_carries_class_tag(doc: Seq<char>, class: DocumentType, algo: HashAlgorithm)
    requires
        algo != HashAlgorithm::NoHash,
    ensures
        hashed_key(doc, class, algo) matches Some(key) && key.len() == class_tag(class).len() + 1
            + hex_len(algo) && (class_tag(class) + seq!['_']).is_prefix_of(key),
{
    let key = hashed_key(doc, class, algo)->0;
    let prefix = class_tag(class) + seq!['_'];
    assert(key.subrange(0, prefix.len() as int) =~= prefix);
}

/// For one identifier, two different algorithms give different digests,
/// and so different keys; the class tag in front is the same.
pub proof fn lemma_keys_differ_by_algorithm(
    doc: Seq<char>,
    class: DocumentType,
    a: HashAlgorithm,
    b: HashAlgorithm,
)
    requires
        a != b,
    ensures
        digest_hex(a, encode_utf8(doc)) != digest_hex(b, encode_utf8(doc)),
        hashed_key(doc, class, a) != hashed_key(doc, class, b),
        hashed_key(doc, class, a) matches Some(key) ==> (class_tag(class) + seq!['_']).is_prefix_of(
            key,
        ),
        hashed_key(doc, class, b) matches Some(key) ==> (class_tag(class) + seq!['_']).is_prefix_of(
            key,
        ),
{
    if a != HashAlgorithm::NoHash {
        lemma_key_carries_class_tag(doc, class, a);
        assert(digest_hex(a, encode_utf8(doc))->0.len() == hex_len(a));
    }
    if b != HashAlgorithm::NoHash {
        lemma_key_carries_class_tag(doc, class, b);
        assert(digest_hex(b, encode_utf8(doc))->0.len() == hex_len(b));
    }
}

} // verus!
