//! The trusted program: it takes one untrusted input, checks the digest and
//! the signature for itself, and commits the pair that passed.

use vstd::prelude::*;
use crate::attestation::{Input, InputView, Output};
use crate::signing::{
    MessageMode, VerificationError, keccak256_of, personal_preimage, recovered_signer, verifies,
    verify_signature,
};
use crate::typed_data::{SchemaError, digest_of_document, range_digest, read_document};

verus! {

/// Why the guest commits nothing for an input.
#[derive(Debug, Clone, Copy)]
pub enum AttestationError {
    /// The document under the range has no signing hash.
    Schema(SchemaError),
    /// The signature over the blob is not that of the claimed signer.
    Verification(VerificationError),
}

impl AttestationError {
    /// The wording of the error.
    pub open spec fn message_text(self) -> Seq<char> {
        match self {
            AttestationError::Schema(e) => e.message_text(),
            AttestationError::Verification(e) => e.message_text(),
        }
    }

    /// Words the error for a reader.
    pub fn message(&self) -> (msg: String)
        ensures
            msg@ == self.message_text(),
    {
        match self {
            AttestationError::Schema(e) => e.message(),
            AttestationError::Verification(e) => e.message(),
        }
    }
}

/// Whether `res` is what the guest owes for `input`.
///
/// The digest is that of the document under the range. The signature is
/// checked over the whole blob, as a personal message: one signature stands
/// for every document of the batch. The digest comes first: where the
/// document has none, the signature is not looked at.
pub open spec fn attests(res: Result<Output, AttestationError>, input: InputView) -> bool {
    match range_digest(input.blob, input.range) {
        Err(e) => res == Err::<Output, AttestationError>(AttestationError::Schema(e)),
        Ok(hash) => match res {
            Ok(output) => {
                &&& output.digest@ == hash
                &&& output.signer == input.signer
                &&& verifies(
                    Ok(true),
                    input.blob,
                    input.signature,
                    input.signer,
                    MessageMode::Personal,
                )
            },
            Err(AttestationError::Verification(e)) => verifies(
                Err(e),
                input.blob,
                input.signature,
                input.signer,
                MessageMode::Personal,
            ),
            Err(AttestationError::Schema(_)) => false,
        },
    }
}

/// An output is committed only for an input that passes both checks: the
/// committed digest is that of the document under the range, and the
/// claimed signer is the one recovered from the signature over the personal
/// message made of the whole blob. The output names that signer.
pub proof fn lemma_output_is_checked(res: Result<Output, AttestationError>, input: InputView)
    requires
        attests(res, input),
    ensures
        res matches Ok(output) ==> {
            &&& range_digest(input.blob, input.range) == Ok::<Seq<u8>, SchemaError>(output.digest@)
            &&& recovered_signer(
                input.signature.r@,
                input.signature.s@,
                input.signature.y_parity,
                keccak256_of(personal_preimage(input.blob)),
            ) == Some(input.signer@)
            &&& output.signer == input.signer
        },
        res is Ok <==> {
            &&& range_digest(input.blob, input.range) is Ok
            &&& recovered_signer(
                input.signature.r@,
                input.signature.s@,
                input.signature.y_parity,
                keccak256_of(personal_preimage(input.blob)),
            ) == Some(input.signer@)
        },
{
}

/// The output for a signer and a digest, once the signature has been looked
/// at: it is committed only where the signature was accepted.
pub fn output_for(
    signer: crate::primitives::Address,
    digest: crate::primitives::Digest,
    verified: Result<bool, VerificationError>,
) -> (res: Result<Output, AttestationError>)
    ensures
        match verified {
            Ok(_) => res == Ok::<Output, AttestationError>(Output { signer, digest }),
            Err(e) => res == Err::<Output, AttestationError>(AttestationError::Verification(e)),
        },
{
    match verified {
        Ok(_) => Ok(Output { signer, digest }),
        Err(e) => Err(AttestationError::Verification(e)),
    }
}

/// Checks one input and gives the output to commit, or the reason why there
/// is none.
pub fn attest(input: Input) -> (res: Result<Output, AttestationError>)
    ensures
        attests(res, input@),
{
    let digest = match read_document(input.typed_data_concat.as_slice(), input.digest_range) {
        Err(e) => {
            return Err(AttestationError::Schema(e));
        },
        Ok(document) => match digest_of_document(&document) {
            Err(e) => {
                return Err(AttestationError::Schema(e));
            },
            Ok(digest) => digest,
        },
    };
    let signer = input.signer;
    output_for(
        signer,
        digest,
        verify_signature(input.typed_data_concat, input.signature, signer, MessageMode::Personal),
    )
}

} // verus!
