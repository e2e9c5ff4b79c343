//! Attestations that an account signed a batch of typed-data documents.
//!
//! A batch is a blob of JSON documents, one after the other, with one
//! signature over the whole blob. The [`scanner`] finds where each document
//! lies; [`typed_data`] computes the signing hash of a document; [`signing`]
//! checks a signature against an expected signer. The [`guest`] is the
//! trusted side: it checks one untrusted [`attestation::Input`] and gives the
//! [`attestation::Output`] to commit. The [`host`] is the untrusted side: it
//! says, step by step, what is to be done for each document and checks what
//! comes back.
//!
//! Every function is verified against its contract. What the library takes
//! from other crates (hashing, key recovery, reading JSON) stands behind
//! small functions whose contracts are believed, not proved; each says so.

pub mod attestation;
pub mod guest;
pub mod host;
pub mod json;
pub mod json_laws;
pub mod notation;
pub mod permit;
pub mod primitives;
pub mod scanner;
pub mod scanner_laws;
pub mod signing;
pub mod text;
pub mod typed_data;

pub use attestation::{Input, Output};
pub use scanner::{find_concatenated_json_ranges, DigestRange};
