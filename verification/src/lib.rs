//! Validation and anonymization of Brazilian taxpayer identifiers: the
//! 11-digit CPF of an individual and the 14-digit CNPJ of a company.
//!
//! An identifier arrives as free text. The engine keeps its ASCII digits,
//! classifies them by their number, checks the two trailing check digits,
//! and renders the digits for display: punctuated, masked but for the
//! positions that the caller reveals, and as a one-way key that tells the
//! class and hides the number.
//!
//! - [`models`]: the classes, and the plain records of requests and responses.
//! - [`validation`]: normalization, the check digits, punctuation, and the
//!   validation of one identifier from end to end.
//! - [`checksum`]: what is proved of the check digits of a CPF.
//! - [`anonymization`]: masking, digest selection and keys.
//! - [`digest`]: the digests of the RustCrypto crates and their rendering in
//!   hexadecimal.
//! - [`transport`]: reveal ranges as requests write them, the answer to a
//!   single request, and the paging of a bulk request.
//! - [`text`]: characters, digits and strings.
//!
//! Every function is verified against its contract, with these exceptions,
//! whose contracts are taken on trust: the four digest functions in
//! [`digest`], the removal of non-digits by a regular expression in
//! [`validation`], and `String::push` in [`text`].

pub mod anonymization;
pub mod checksum;
pub mod digest;
pub mod models;
pub mod text;
pub mod transport;
pub mod validation;
