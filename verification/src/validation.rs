//! Normalization, checksum validation and canonical formatting.

use crate::anonymization::{
    algorithm_of, anonymize_document, hashed_key, mask_or_default, masked, ranges_or_none,
    HashAlgorithm,
};
use crate::models::{class_of_len, DocumentType, ValidationRecord, ValidationResponse};
use crate::text::{all_digits, chars_of, digit_value, is_digit, push_range};
use vstd::prelude::*;

verus! {

/// A string has the length that its class stands for. Every string fits
/// `Invalid`.
pub open spec fn fits_class(s: Seq<char>, class: DocumentType) -> bool {
    match class {
        DocumentType::Cpf => s.len() == 11,
        DocumentType::Cnpj => s.len() == 14,
        DocumentType::Invalid => true,
    }
}

/// The punctuated form of `s`: `DDD.DDD.DDD-DD` for a CPF,
/// `DD.DDD.DDD/DDDD-DD` for a CNPJ, and `s` itself otherwise.
pub open spec fn formatted(s: Seq<char>, class: DocumentType) -> Seq<char> {
    match class {
        DocumentType::Cpf => s.subrange(0, 3) + seq!['.'] + s.subrange(3, 6) + seq!['.']
            + s.subrange(6, 9) + seq!['-'] + s.subrange(9, 11),
        DocumentType::Cnpj => s.subrange(0, 2) + seq!['.'] + s.subrange(2, 5) + seq!['.']
            + s.subrange(5, 8) + seq!['/'] + s.subrange(8, 12) + seq!['-'] + s.subrange(12, 14),
        DocumentType::Invalid => s,
    }
}

/// Punctuates a vector of characters by the template of its class.
pub fn format_chars(chars: &Vec<char>, doc_type: DocumentType) -> (out: String)
    requires
        fits_class(chars@, doc_type),
    ensures
        out@ == formatted(chars@, doc_type),
{
    let mut out = String::new();
    match doc_type {
        DocumentType::Cpf => {
            push_range(&mut out, chars, 0, 3);
            out.push('.');
            push_range(&mut out, chars, 3, 6);
            out.push('.');
            push_range(&mut out, chars, 6, 9);
            out.push('-');
            push_range(&mut out, chars, 9, 11);
        },
        DocumentType::Cnpj => {
            push_range(&mut out, chars, 0, 2);
            out.push('.');
            push_range(&mut out, chars, 2, 5);
            out.push('.');
            push_range(&mut out, chars, 5, 8);
            out.push('/');
            push_range(&mut out, chars, 8, 12);
            out.push('-');
            push_range(&mut out, chars, 12, 14);
        },
        DocumentType::Invalid => {
            push_range(&mut out, chars, 0, chars.len());
            assert(chars@.subrange(0, chars.len() as int) =~= chars@);
        },
    }
    assert(out@ =~= formatted(chars@, doc_type));
    out
}

/// Punctuates `doc` by the template of its class. Positions count
/// characters, so a masked string is grouped like the digits it hides.
pub fn format_document(doc: &str, doc_type: DocumentType) -> (out: String)
    requires
        fits_class(doc@, doc_type),
    ensures
        out@ == formatted(doc@, doc_type),
{
    let chars = chars_of(doc);
    format_chars(&chars, doc_type)
}

/// What is left of `raw` once every character but the ASCII digits is
/// removed; the digits keep their order.
pub open spec fn digits_of(raw: Seq<char>) -> Seq<char> {
    raw.filter(|c: char| is_digit(c))
}

/// Trusted: compiles `pattern` with `regex::Regex::new` and hands `raw` to
/// `Regex::replace_all` with `replacement`. Only one use is specified: the
/// pattern `[^0-9]`, which matches any single character that is not an
/// ASCII digit, with an empty replacement. Every such character is then a
/// match of its own and is replaced by nothing, so the digits of `raw`
/// remain, in order. That pattern compiles, so the call returns.
#[verifier::external_body]
fn replace_all(pattern: &str, raw: &str, replacement: &str) -> (out: String)
    requires
        pattern@ == "[^0-9]"@,
        replacement@.len() == 0,
    ensures
        out@ == digits_of(raw@),
{
    regex::Regex::new(pattern).unwrap().replace_all(raw, replacement).into_owned()
}

/// Nothing but digits is left after normalization.
pub proof fn lemma_digits_of_all_digits(raw: Seq<char>)
    ensures
        all_digits(digits_of(raw)),
        digits_of(raw).len() <= raw.len(),
{
    broadcast use vstd::seq_lib::group_filter_ensures;

    let d = digits_of(raw);
    assert forall|i: int| 0 <= i < d.len() implies is_digit(#[trigger] d[i]) by {
        let pred = |c: char| is_digit(c);
        assert(pred(raw.filter(pred)[i]));
    }
}

/// Strips everything but the ASCII digits from `raw` and classifies what is
/// left by its length. No input is refused: a string without digits, or
/// with a number of them other than 11 or 14, is of class `Invalid`.
pub fn normalize_and_classify(raw: &str) -> (out: (String, DocumentType))
    ensures
        out.0@ == digits_of(raw@),
        out.1 == class_of_len(digits_of(raw@).len()),
{
    proof {
        reveal_strlit("");
    }
    let digits = replace_all("[^0-9]", raw, "");
    let len = digits.as_str().unicode_len();
    let class = DocumentType::from_length(len);
    (digits, class)
}

/// The sum of the first `n` digits of `s`, each multiplied by the weight
/// at its position.
pub open spec fn weighted_sum(s: Seq<char>, weights: Seq<int>, n: nat) -> int
    decreases n,
{
    if n == 0 {
        0
    } else {
        weighted_sum(s, weights, (n - 1) as nat) + digit_value(s[n - 1]) * weights[n - 1]
    }
}

/// The check digit that a weighted sum calls for.
pub open spec fn check_digit(sum: int) -> int {
    let r = sum % 11;
    if r < 2 {
        0
    } else {
        11 - r
    }
}

/// The weights `top`, `top - 1`, ..., 2.
pub open spec fn descending_weights(top: int) -> Seq<int> {
    Seq::new((top - 1) as nat, |i: int| top - i)
}

/// The weight table of the CNPJ.
pub open spec fn cnpj_weights() -> Seq<int> {
    seq![6, 5, 4, 3, 2, 9, 8, 7, 6, 5, 4, 3, 2]
}

/// Every character of `s` is the same as its first.
pub open spec fn all_same(s: Seq<char>) -> bool {
    forall|i: int| 0 <= i < s.len() ==> #[trigger] s[i] == s[0]
}

/// The first check digit that the first nine digits of a CPF call for.
pub open spec fn cpf_first_check(s: Seq<char>) -> int {
    check_digit(weighted_sum(s, descending_weights(10), 9))
}

/// The second check digit that the first ten digits of a CPF call for.
pub open spec fn cpf_second_check(s: Seq<char>) -> int {
    check_digit(weighted_sum(s, descending_weights(11), 10))
}

/// An 11-digit string is a valid CPF: its digits are not all the same, and
/// its last two digits are the check digits of those before them.
pub open spec fn cpf_valid(s: Seq<char>) -> bool {
    &&& !all_same(s)
    &&& digit_value(s[9]) == cpf_first_check(s)
    &&& digit_value(s[10]) == cpf_second_check(s)
}

/// The first check digit that the first twelve digits of a CNPJ call for.
pub open spec fn cnpj_first_check(s: Seq<char>) -> int {
    check_digit(weighted_sum(s, cnpj_weights().skip(1), 12))
}

/// The second check digit that the first thirteen digits of a CNPJ call for.
pub open spec fn cnpj_second_check(s: Seq<char>) -> int {
    check_digit(weighted_sum(s, cnpj_weights(), 13))
}

/// A 14-digit string is a valid CNPJ: its last two digits are the check
/// digits of those before them. Repeated digits are not singled out.
pub open spec fn cnpj_valid(s: Seq<char>) -> bool {
    &&& digit_value(s[12]) == cnpj_first_check(s)
    &&& digit_value(s[13]) == cnpj_second_check(s)
}

/// The validity of a digit string of the given class.
pub open spec fn checksum_valid(s: Seq<char>, class: DocumentType) -> bool {
    match class {
        DocumentType::Cpf => cpf_valid(s),
        DocumentType::Cnpj => cnpj_valid(s),
        DocumentType::Invalid => false,
    }
}

fn digit_of(c: char) -> (d: u32)
    requires
        is_digit(c),
    ensures
        d == digit_value(c),
        d <= 9,
{
    c as u32 - 48
}

fn check_digit_for(sum: u32) -> (d: u32)
    ensures
        d == check_digit(sum as int),
{
    let r = sum % 11;
    if r < 2 {
        0
    } else {
        11 - r
    }
}

fn is_repeated(chars: &Vec<char>) -> (same: bool)
    ensures
        same == all_same(chars@),
{
    let mut i: usize = 0;
    while i < chars.len()
        invariant
            i <= chars.len(),
            forall|j: int| 0 <= j < i ==> #[trigger] chars@[j] == chars@[0],
        decreases chars.len() - i,
    {
        if chars[i] != chars[0] {
            return false;
        }
        i += 1;
    }
    true
}

/// Tells whether an 11-digit string is a valid CPF.
pub fn validate_cpf(cpf: &str) -> (ok: bool)
    requires
        cpf@.len() == 11,
        all_digits(cpf@),
    ensures
        ok == cpf_valid(cpf@),
{
    let chars = chars_of(cpf);
    if is_repeated(&chars) {
        return false;
    }
    let mut first: u32 = 0;
    let mut i: usize = 0;
    while i < 9
        invariant
            i <= 9,
            chars@ == cpf@,
            chars@.len() == 11,
            all_digits(chars@),
            first == weighted_sum(chars@, descending_weights(10), i as nat),
            first <= 90 * i,
        decreases 9 - i,
    {
        let d = digit_of(chars[i]);
        let w: u32 = 10 - i as u32;
        assert(d * w <= 90) by (nonlinear_arith)
            requires
                d <= 9,
                w <= 10,
        ;
        first = first + d * w;
        i += 1;
    }
    let mut second: u32 = 0;
    let mut i: usize = 0;
    while i < 10
        invariant
            i <= 10,
            chars@ == cpf@,
            chars@.len() == 11,
            all_digits(chars@),
            second == weighted_sum(chars@, descending_weights(11), i as nat),
            second <= 99 * i,
        decreases 10 - i,
    {
        let d = digit_of(chars[i]);
        let w: u32 = 11 - i as u32;
        assert(d * w <= 99) by (nonlinear_arith)
            requires
                d <= 9,
                w <= 11,
        ;
        second = second + d * w;
        i += 1;
    }
    digit_of(chars[9]) == check_digit_for(first) && digit_of(chars[10]) == check_digit_for(second)
}

/// Tells whether a 14-digit string is a valid CNPJ.
pub fn validate_cnpj(cnpj: &str) -> (ok: bool)
    requires
        cnpj@.len() == 14,
        all_digits(cnpj@),
    ensures
        ok == cnpj_valid(cnpj@),
{
    let weights: [u32; 13] = [6, 5, 4, 3, 2, 9, 8, 7, 6, 5, 4, 3, 2];
    assert(forall|k: int| 0 <= k < 13 ==> #[trigger] weights@[k] == cnpj_weights()[k]);
    let chars = chars_of(cnpj);
    let mut first: u32 = 0;
    let mut i: usize = 0;
    while i < 12
        invariant
            i <= 12,
            chars@ == cnpj@,
            chars@.len() == 14,
            all_digits(chars@),
            forall|k: int| 0 <= k < 13 ==> #[trigger] weights@[k] == cnpj_weights()[k],
            first == weighted_sum(chars@, cnpj_weights().skip(1), i as nat),
            first <= 81 * i,
        decreases 12 - i,
    {
        let d = digit_of(chars[i]);
        let w: u32 = weights[i + 1];
        assert(d * w <= 81) by (nonlinear_arith)
            requires
                d <= 9,
                w <= 9,
        ;
        first = first + d * w;
        i += 1;
    }
    let mut second: u32 = 0;
    let mut i: usize = 0;
    while i < 13
        invariant
            i <= 13,
            chars@ == cnpj@,
            chars@.len() == 14,
            all_digits(chars@),
            forall|k: int| 0 <= k < 13 ==> #[trigger] weights@[k] == cnpj_weights()[k],
            second == weighted_sum(chars@, cnpj_weights(), i as nat),
            second <= 81 * i,
        decreases 13 - i,
    {
        let d = digit_of(chars[i]);
        let w: u32 = weights[i];
        assert(d * w <= 81) by (nonlinear_arith)
            requires
                d <= 9,
                w <= 9,
        ;
        second = second + d * w;
        i += 1;
    }
    digit_of(chars[12]) == check_digit_for(first) && digit_of(chars[13]) == check_digit_for(second)
}

/// Tells whether the check digits of a classified digit string are the
/// ones that its other digits call for.
pub fn is_valid(digits: &str, class: DocumentType) -> (ok: bool)
    requires
        class != DocumentType::Invalid,
        fits_class(digits@, class),
        all_digits(digits@),
    ensures
        ok == checksum_valid(digits@, class),
{
    match class {
        DocumentType::Cpf => validate_cpf(digits),
        DocumentType::Cnpj => validate_cnpj(digits),
        DocumentType::Invalid => false,
    }
}

/// The federal units of the fiscal region that a region digit stands for.
pub open spec fn region_label(digit: int) -> Seq<char> {
    if digit == 0 {
        "RS"@
    } else if digit == 1 {
        "DF, GO, MS, MT ou TO"@
    } else if digit == 2 {
        "AC, AM, AP, PA, RO ou RR"@
    } else if digit == 3 {
        "CE, MA ou PI"@
    } else if digit == 4 {
        "AL, PB, PE ou RN"@
    } else if digit == 5 {
        "BA ou SE"@
    } else if digit == 6 {
        "MG"@
    } else if digit == 7 {
        "ES ou RJ"@
    } else if digit == 8 {
        "SP"@
    } else {
        "PR ou SC"@
    }
}

/// The region of a CPF, read from its ninth character; none if the string
/// is shorter than that or holds no digit there.
pub open spec fn cpf_region(s: Seq<char>) -> Option<Seq<char>> {
    if s.len() > 8 && is_digit(s[8]) {
        Some(region_label(digit_value(s[8])))
    } else {
        None
    }
}

/// Looks up the fiscal region that issued a CPF.
pub fn get_cpf_region(cpf: &str) -> (region: Option<String>)
    ensures
        match region {
            Some(r) => cpf_region(cpf@) == Some(r@),
            None => cpf_region(cpf@) is None,
        },
{
    if cpf.unicode_len() <= 8 {
        return None;
    }
    let c = cpf.get_char(8);
    if !(c >= '0' && c <= '9') {
        return None;
    }
    let region = match digit_of(c) {
        0 => "RS",
        1 => "DF, GO, MS, MT ou TO",
        2 => "AC, AM, AP, PA, RO ou RR",
        3 => "CE, MA ou PI",
        4 => "AL, PB, PE ou RN",
        5 => "BA ou SE",
        6 => "MG",
        7 => "ES ou RJ",
        8 => "SP",
        _ => "PR ou SC",
    };
    Some(region.to_owned())
}

/// The name of a class, as responses spell it.
pub open spec fn kind_label(class: DocumentType) -> Seq<char> {
    match class {
        DocumentType::Cpf => "CPF"@,
        DocumentType::Cnpj => "CNPJ"@,
        DocumentType::Invalid => "INVALID"@,
    }
}

/// What an optional selector holds, as a sequence of characters.
pub open spec fn name_view(hash_type: Option<&str>) -> Option<Seq<char>> {
    match hash_type {
        Some(name) => Some(name@),
        None => None,
    }
}

/// The digest that a validation uses: the one that the selector names, and
/// MD5 when there is no selector.
pub open spec fn selected_algorithm(hash_type: Option<Seq<char>>) -> HashAlgorithm {
    match hash_type {
        Some(name) => algorithm_of(name),
        None => HashAlgorithm::Md5,
    }
}

/// What validating `raw` yields: nothing when its digits have no class,
/// and otherwise the record of its class.
pub open spec fn validation_of(
    raw: Seq<char>,
    ranges: Seq<(usize, usize)>,
    mask: char,
    algo: HashAlgorithm,
) -> Option<ValidationRecord> {
    let digits = digits_of(raw);
    let class = class_of_len(digits.len());
    if class == DocumentType::Invalid {
        None
    } else {
        Some(
            ValidationRecord {
                valid: checksum_valid(digits, class),
                kind: kind_label(class),
                number: digits,
                formatted: formatted(digits, class),
                anonymized: formatted(masked(digits, ranges, mask), class),
                anonymized_key: hashed_key(digits, class, algo),
                custom_anonymized: Some(masked(digits, ranges, mask)),
                region: if class == DocumentType::Cpf {
                    cpf_region(digits)
                } else {
                    None
                },
            },
        )
    }
}

/// Validates one identifier: normalizes it, classifies it, checks its check
/// digits and produces its display forms.
///
/// Returns `None` exactly when the digits of `doc` number neither 11 nor
/// 14. An identifier whose check digits are wrong still gets a response,
/// with `valid` false.
pub fn validate_document(
    doc: &str,
    show_ranges: Option<Vec<(usize, usize)>>,
    mask_char: Option<char>,
    hash_type: Option<&str>,
) -> (response: Option<ValidationResponse>)
    ensures
        match response {
            Some(r) => validation_of(
                doc@,
                ranges_or_none(show_ranges),
                mask_or_default(mask_char),
                selected_algorithm(name_view(hash_type)),
            ) == Some(r@),
            None => class_of_len(digits_of(doc@).len()) == DocumentType::Invalid,
        },
{
    let (cleaned_doc, doc_type) = normalize_and_classify(doc);
    proof {
        lemma_digits_of_all_digits(doc@);
    }
    let valid = match doc_type {
        DocumentType::Cpf => validate_cpf(cleaned_doc.as_str()),
        DocumentType::Cnpj => validate_cnpj(cleaned_doc.as_str()),
        DocumentType::Invalid => {
            return None;
        },
    };
    let hash_algo = match hash_type {
        Some(name) => HashAlgorithm::from(name),
        None => HashAlgorithm::Md5,
    };
    let (anonymized, anonymized_key, custom_anonymized) = anonymize_document(
        cleaned_doc.as_str(),
        doc_type,
        show_ranges,
        mask_char,
        hash_algo,
    );
    let kind = match doc_type {
        DocumentType::Cpf => "CPF".to_owned(),
        DocumentType::Cnpj => "CNPJ".to_owned(),
        DocumentType::Invalid => "INVALID".to_owned(),
    };
    let formatted = format_document(cleaned_doc.as_str(), doc_type);
    let region = match doc_type {
        DocumentType::Cpf => get_cpf_region(cleaned_doc.as_str()),
        _ => None,
    };
    Some(
        ValidationResponse {
            valid,
            kind,
            number: cleaned_doc,
            formatted,
            anonymized,
            anonymized_key,
            custom_anonymized,
            region,
        },
    )
}

/// Normalization leaves a string of digits as it is.
pub proof fn lemma_digits_of_digits(s: Seq<char>)
    requires
        all_digits(s),
    ensures
        digits_of(s) == s,
    decreases s.len(),
{
    reveal(Seq::filter);
    if s.len() > 0 {
        let front = s.drop_last();
        assert forall|i: int| 0 <= i < front.len() implies is_digit(#[trigger] front[i]) by {
            assert(front[i] == s[i]);
        }
        lemma_digits_of_digits(front);
        assert(is_digit(s[s.len() - 1]));
        assert(front.push(s.last()) =~= s);
    } else {
        assert(digits_of(s) =~= s);
    }
}

/// Normalization is idempotent: what it returns, it returns unchanged when
/// applied again, and under the same class.
pub proof fn lemma_normalize_idempotent(raw: Seq<char>)
    ensures
        digits_of(digits_of(raw)) == digits_of(raw),
        class_of_len(digits_of(digits_of(raw)).len()) == class_of_len(digits_of(raw).len()),
{
    lemma_digits_of_all_digits(raw);
    lemma_digits_of_digits(digits_of(raw));
}

} // verus!
