//! What crosses the boundary between the untrusted host and the trusted
//! guest.

use vstd::prelude::*;
use crate::primitives::{Address, Digest, Signature};
use crate::scanner::DigestRange;

verus! {

/// What the host hands to the guest. Nothing in it is to be trusted: the
/// guest checks all of it again.
#[derive(Debug, Clone)]
pub struct Input {
    /// The account that the host claims has signed.
    pub signer: Address,
    /// One signature over the whole of `typed_data_concat`.
    pub signature: Signature,
    /// All documents of the batch, one after the other.
    pub typed_data_concat: Vec<u8>,
    /// The document of the batch that this input is about.
    pub digest_range: DigestRange,
}

/// What the guest commits once it has checked an input: the only values
/// that anyone may rely on.
#[derive(Debug, Clone, Copy)]
pub struct Output {
    pub signer: Address,
    pub digest: Digest,
}

/// Mathematical form of an [`Input`].
pub ghost struct InputView {
    pub signer: Address,
    pub signature: Signature,
    pub blob: Seq<u8>,
    pub range: DigestRange,
}

impl View for Input {
    type V = InputView;

    open spec fn view(&self) -> InputView {
        InputView {
            signer: self.signer,
            signature: self.signature,
            blob: self.typed_data_concat@,
            range: self.digest_range,
        }
    }
}

/// An output with the proof that the guest committed it. The proof is
/// opaque here: whether it is one of the known program is for the proving
/// service to say.
#[derive(Debug, Clone)]
pub struct Attestation {
    pub output: Output,
    pub seal: Vec<u8>,
}

impl View for Attestation {
    type V = (Output, Seq<u8>);

    open spec fn view(&self) -> (Output, Seq<u8>) {
        (self.output, self.seal@)
    }
}

/// The attestations of a list, as plain values and in order.
pub open spec fn attestation_views(list: Seq<Attestation>) -> Seq<(Output, Seq<u8>)> {
    Seq::new(list.len(), |i: int| list[i]@)
}

} // verus!
