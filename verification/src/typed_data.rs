//! The signing hash of one typed-data document.

use vstd::prelude::*;
use vstd::slice::slice_subrange;
use vstd::string::StringExecFns;
use vstd::utf8::{decode_utf8, valid_utf8};
use crate::primitives::Digest;
use crate::scanner::DigestRange;
use crate::text::text_of_bytes;

verus! {

/// `alloy_dyn_abi::TypedData`, a typed-data document as read from JSON. It
/// is carried through as it is: what the library knows of one, it knows
/// through the functions below.
#[verifier::external_type_specification]
#[verifier::external_body]
pub struct ExTypedData(alloy_dyn_abi::TypedData);

/// `serde_json::Error`, taken as it comes and never looked into.
#[verifier::external_type_specification]
#[verifier::external_body]
pub struct ExJsonError(serde_json::Error);

/// `alloy_dyn_abi::Error`, taken as it comes and never looked into.
#[verifier::external_type_specification]
#[verifier::external_body]
pub struct ExAbiError(alloy_dyn_abi::Error);

/// Why a text has no signing hash.
#[derive(Debug, Clone, Copy, PartialEq, Eq, Structural)]
pub enum SchemaError {
    /// The range of the document does not lie inside the blob.
    RangeOutOfBounds,
    /// The bytes of the document are not well-formed UTF-8.
    NotText,
    /// The text is not a JSON document with the parts of typed data: type
    /// declarations, a primary type, a domain and a message.
    InvalidTypedData,
    /// The document was read, but its message cannot be encoded under its
    /// type declarations.
    DigestFailed,
    /// The document is a transfer permit, but its message lacks the token,
    /// the amount, the nonce or the deadline.
    IncompletePermit,
}

impl SchemaError {
    /// The wording of the error.
    pub open spec fn message_text(self) -> Seq<char> {
        match self {
            SchemaError::RangeOutOfBounds => "Document range lies outside the blob"@,
            SchemaError::NotText => "Document is not UTF-8 text"@,
            SchemaError::InvalidTypedData => "Invalid EIP-712 typed data JSON"@,
            SchemaError::DigestFailed => "Failed computing EIP-712 digest"@,
            SchemaError::IncompletePermit => "Permit lacks its token, amount, nonce or deadline"@,
        }
    }

    /// Words the error for a reader.
    pub fn message(&self) -> (msg: String)
        ensures
            msg@ == self.message_text(),
    {
        match self {
            SchemaError::RangeOutOfBounds => String::from_str(
                "Document range lies outside the blob",
            ),
            SchemaError::NotText => String::from_str("Document is not UTF-8 text"),
            SchemaError::InvalidTypedData => String::from_str("Invalid EIP-712 typed data JSON"),
            SchemaError::DigestFailed => String::from_str("Failed computing EIP-712 digest"),
            SchemaError::IncompletePermit => String::from_str(
                "Permit lacks its token, amount, nonce or deadline",
            ),
        }
    }
}

/// The typed-data document that a JSON text describes, if it describes one.
pub uninterp spec fn parsed_typed_data(json: Seq<char>) -> Option<alloy_dyn_abi::TypedData>;

/// The 32-byte signing hash of a document, if it has one: the hash of a
/// fixed two-byte prefix, the hash of the domain and the hash of the message
/// encoded as its primary type.
pub uninterp spec fn eip712_signing_hash_of(document: alloy_dyn_abi::TypedData) -> Option<Seq<u8>>;

/// Calls `serde_json::from_str` for an `alloy_dyn_abi::TypedData`. Whether a
/// text is accepted, and as which document, depends on the text alone: the
/// contract names that outcome and says no more of it.
#[verifier::external_body]
fn parse_typed_data(json: &str) -> (res: Result<alloy_dyn_abi::TypedData, serde_json::Error>)
    ensures
        match res {
            Ok(document) => parsed_typed_data(json@) == Some(document),
            Err(_) => parsed_typed_data(json@) is None,
        },
{
    serde_json::from_str::<alloy_dyn_abi::TypedData>(json)
}

/// Calls `alloy_dyn_abi::TypedData::eip712_signing_hash`. The hash, or its
/// absence, depends on the document alone: the contract names that outcome
/// and says no more of it.
#[verifier::external_body]
fn eip712_signing_hash(document: &alloy_dyn_abi::TypedData) -> (res: Result<
    Digest,
    alloy_dyn_abi::Error,
>)
    ensures
        match res {
            Ok(hash) => eip712_signing_hash_of(*document) == Some(hash@),
            Err(_) => eip712_signing_hash_of(*document) is None,
        },
{
    match document.eip712_signing_hash() {
        Ok(hash) => Ok(Digest(hash.0)),
        Err(e) => Err(e),
    }
}

/// Turns the outcome of reading a document into the library's terms.
pub fn document_from_parse(parsed: Result<alloy_dyn_abi::TypedData, serde_json::Error>) -> (res:
    Result<alloy_dyn_abi::TypedData, SchemaError>)
    ensures
        match parsed {
            Ok(document) => res == Ok::<alloy_dyn_abi::TypedData, SchemaError>(document),
            Err(_) => res == Err::<alloy_dyn_abi::TypedData, SchemaError>(
                SchemaError::InvalidTypedData,
            ),
        },
{
    match parsed {
        Ok(document) => Ok(document),
        Err(_) => Err(SchemaError::InvalidTypedData),
    }
}

/// Turns the outcome of hashing a document into the library's terms.
pub fn digest_from_hash(hashed: Result<Digest, alloy_dyn_abi::Error>) -> (res: Result<
    Digest,
    SchemaError,
>)
    ensures
        match hashed {
            Ok(hash) => res == Ok::<Digest, SchemaError>(hash),
            Err(_) => res == Err::<Digest, SchemaError>(SchemaError::DigestFailed),
        },
{
    match hashed {
        Ok(hash) => Ok(hash),
        Err(_) => Err(SchemaError::DigestFailed),
    }
}

/// An outcome of computing a digest, with the digest as plain bytes.
pub open spec fn digest_view(res: Result<Digest, SchemaError>) -> Result<Seq<u8>, SchemaError> {
    match res {
        Ok(digest) => Ok(digest@),
        Err(e) => Err(e),
    }
}

/// The signing hash of a document, or `DigestFailed` where it has none.
pub open spec fn document_digest(document: alloy_dyn_abi::TypedData) -> Result<Seq<u8>, SchemaError> {
    match eip712_signing_hash_of(document) {
        Some(hash) => Ok(hash),
        None => Err(SchemaError::DigestFailed),
    }
}

/// The document that a JSON text describes, or `InvalidTypedData` where it
/// describes none.
pub open spec fn json_document(json: Seq<char>) -> Result<alloy_dyn_abi::TypedData, SchemaError> {
    match parsed_typed_data(json) {
        Some(document) => Ok(document),
        None => Err(SchemaError::InvalidTypedData),
    }
}

/// The signing hash of the document that a JSON text describes.
pub open spec fn json_digest(json: Seq<char>) -> Result<Seq<u8>, SchemaError> {
    match json_document(json) {
        Ok(document) => document_digest(document),
        Err(e) => Err(e),
    }
}

/// The range lies inside a blob of `len` bytes.
pub open spec fn range_in_bounds(range: DigestRange, len: nat) -> bool {
    range.start <= range.end <= len
}

/// The document that lies under `range` in `blob`. The range is checked
/// first, then that the bytes are text, then that the text describes a
/// document.
pub open spec fn document_at(blob: Seq<u8>, range: DigestRange) -> Result<
    alloy_dyn_abi::TypedData,
    SchemaError,
> {
    let bytes = blob.subrange(range.start as int, range.end as int);
    if !range_in_bounds(range, blob.len()) {
        Err(SchemaError::RangeOutOfBounds)
    } else if !valid_utf8(bytes) {
        Err(SchemaError::NotText)
    } else {
        json_document(decode_utf8(bytes))
    }
}

/// The signing hash of the document that lies under `range` in `blob`.
pub open spec fn range_digest(blob: Seq<u8>, range: DigestRange) -> Result<Seq<u8>, SchemaError> {
    match document_at(blob, range) {
        Ok(document) => document_digest(document),
        Err(e) => Err(e),
    }
}

/// Reads a typed-data document from its JSON text.
pub fn read_typed_data(json: &str) -> (res: Result<alloy_dyn_abi::TypedData, SchemaError>)
    ensures
        res == json_document(json@),
{
    document_from_parse(parse_typed_data(json))
}

/// Computes the signing hash of a document.
pub fn digest_of_document(document: &alloy_dyn_abi::TypedData) -> (res: Result<Digest, SchemaError>)
    ensures
        digest_view(res) == document_digest(*document),
{
    digest_from_hash(eip712_signing_hash(document))
}

/// Computes the signing hash of the typed-data document that `typed_data_json`
/// describes.
pub fn verify_digest(typed_data_json: &str) -> (res: Result<Digest, SchemaError>)
    ensures
        digest_view(res) == json_digest(typed_data_json@),
{
    match read_typed_data(typed_data_json) {
        Err(e) => Err(e),
        Ok(document) => digest_of_document(&document),
    }
}

/// Reads the document that lies under `range` in `blob`.
pub fn read_document(blob: &[u8], range: DigestRange) -> (res: Result<
    alloy_dyn_abi::TypedData,
    SchemaError,
>)
    ensures
        res == document_at(blob@, range),
{
    if range.start > range.end || range.end > blob.len() {
        return Err(SchemaError::RangeOutOfBounds);
    }
    match text_of_bytes(slice_subrange(blob, range.start, range.end)) {
        None => Err(SchemaError::NotText),
        Some(json) => read_typed_data(json),
    }
}

} // verus!
