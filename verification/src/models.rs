//! Plain data carried between the engine and its callers.

use vstd::prelude::*;

verus! {

/// The class of an identifier, decided by the number of digits alone.
#[derive(Debug, Clone, Copy, PartialEq, Eq, Structural)]
pub enum DocumentType {
    /// Eleven digits: an individual taxpayer.
    Cpf,
    /// Fourteen digits: a corporate taxpayer.
    Cnpj,
    /// Any other number of digits.
    Invalid,
}

/// The class of a digit string of `len` digits.
pub open spec fn class_of_len(len: nat) -> DocumentType {
    if len == 11 {
        DocumentType::Cpf
    } else if len == 14 {
        DocumentType::Cnpj
    } else {
        DocumentType::Invalid
    }
}

impl DocumentType {
    /// Classifies a digit string by its length.
    pub fn from_length(len: usize) -> (class: Self)
        ensures
            class == class_of_len(len as nat),
    {
        if len == 11 {
            DocumentType::Cpf
        } else if len == 14 {
            DocumentType::Cnpj
        } else {
            DocumentType::Invalid
        }
    }
}

/// What an optional string holds, as a sequence of characters.
pub open spec fn opt_view(s: Option<String>) -> Option<Seq<char>> {
    match s {
        Some(s) => Some(s@),
        None => None,
    }
}

/// The outcome of validating one identifier.
#[derive(Debug)]
pub struct ValidationResponse {
    /// Whether both check digits are the ones the other digits call for.
    pub valid: bool,
    /// `"CPF"`, `"CNPJ"` or `"INVALID"`.
    pub kind: String,
    /// The digits of the identifier, with everything else removed.
    pub number: String,
    /// The digits, punctuated.
    pub formatted: String,
    /// The masked digits, punctuated.
    pub anonymized: String,
    /// The tagged digest of the digits, if a digest was chosen.
    pub anonymized_key: Option<String>,
    /// The masked digits without punctuation.
    pub custom_anonymized: Option<String>,
    /// The fiscal region that issued a CPF.
    pub region: Option<String>,
}

/// The mathematical content of a [`ValidationResponse`].
pub ghost struct ValidationRecord {
    pub valid: bool,
    pub kind: Seq<char>,
    pub number: Seq<char>,
    pub formatted: Seq<char>,
    pub anonymized: Seq<char>,
    pub anonymized_key: Option<Seq<char>>,
    pub custom_anonymized: Option<Seq<char>>,
    pub region: Option<Seq<char>>,
}

impl View for ValidationResponse {
    type V = ValidationRecord;

    open spec fn view(&self) -> ValidationRecord {
        ValidationRecord {
            valid: self.valid,
            kind: self.kind@,
            number: self.number@,
            formatted: self.formatted@,
            anonymized: self.anonymized@,
            anonymized_key: opt_view(self.anonymized_key),
            custom_anonymized: opt_view(self.custom_anonymized),
            region: opt_view(self.region),
        }
    }
}

/// A request to validate one identifier.
#[derive(Debug)]
pub struct ValidateParams {
    /// The identifier as the caller wrote it.
    pub doc: String,
    /// Positions to leave unmasked: `start-end` pairs separated by commas.
    pub show: Option<String>,
    /// The character that hides a masked position.
    pub mask: Option<char>,
    /// The name of the digest for the key.
    pub hash_type: Option<String>,
}

/// A request to validate one page of a list of identifiers.
#[derive(Debug)]
pub struct BulkRequest {
    pub documents: Vec<String>,
    /// How many documents to skip; none when absent.
    pub offset: Option<usize>,
    /// How many documents to take: 100 when absent, and never more.
    pub limit: Option<usize>,
    /// The name of the digest for the keys.
    pub hash_type: Option<String>,
}

/// Where a page lies in the list it was cut from.
#[derive(Debug, Clone, Copy, PartialEq, Eq, Structural)]
pub struct Pagination {
    pub total: usize,
    pub offset: usize,
    pub limit: usize,
    /// Where the next page starts, if this one does not reach the end.
    pub next_offset: Option<usize>,
}

/// The outcome of validating one page.
#[derive(Debug)]
pub struct BulkResponse {
    /// Whether every identifier in `results` is valid.
    pub valid: bool,
    /// One response per identifier of the page that has a class.
    pub results: Vec<ValidationResponse>,
    pub pagination: Pagination,
}

} // verus!
