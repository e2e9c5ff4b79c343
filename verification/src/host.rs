//! The untrusted driver. It splits the blob, asks for one attestation per
//! document, checks what comes back for itself, and makes the call that a
//! transfer permit stands for.
//!
//! Proving, checking a proof and making a call are done outside: the host
//! is told what happened and says what is to be done next.

use vstd::prelude::*;
use vstd::slice::slice_to_vec;
use vstd::string::StringExecFns;
use vstd::utf8::{decode_utf8, encode_utf8, valid_utf8};
use crate::attestation::{Attestation, Input, InputView, Output, attestation_views};
use crate::notation::{append_hex, hex_text};
use crate::permit::{
    PermitCall, REQUESTED_AMOUNT, is_transfer_permit, permit_call, permit_fields_of,
    permit_transfer_fields, primary_type_of, transfer_permit_type,
};
use crate::primitives::{Address, Digest, Signature};
use crate::scanner::{
    DigestRange, ParseError, Verdict, find_concatenated_json_ranges, lemma_scan_well_formed, scan,
    spans_of, verdict,
};
use crate::scanner_laws::{covers, covers_object, is_object_text, lemma_ranges_cover_objects};
use crate::text::text_of_bytes;
use crate::typed_data::{
    SchemaError, digest_of_document, document_at, document_digest, json_document, range_digest,
    range_in_bounds, read_document,
};

verus! {

/// Why a run stops before its last document.
#[derive(Debug, Clone, Copy)]
pub enum HostError {
    /// The blob is not well-formed UTF-8.
    BlobNotText,
    /// The blob is no sequence of objects.
    Parse(ParseError),
    /// A document could not be read again on the host's side.
    Schema(SchemaError),
    /// The digest that the guest committed is not the one that the host
    /// computes for the same document.
    Consistency { committed: Digest, recomputed: Digest },
    /// Proving failed, or the proof is not one of the known program.
    Proof,
    /// The call for a permit was not made or not confirmed.
    Dispatch,
    /// The host was told of something that it had not asked for.
    OutOfTurn,
}

impl HostError {
    /// The wording of the error, digests in hexadecimal behind `0x`.
    pub open spec fn message_text(self) -> Seq<char> {
        match self {
            HostError::BlobNotText => "Blob is not UTF-8 text"@,
            HostError::Parse(e) => e.message_text(),
            HostError::Schema(e) => e.message_text(),
            HostError::Consistency { committed, recomputed } => "Committed digest 0x"@ + hex_text(
                committed@,
            ) + " does not match recomputed digest 0x"@ + hex_text(recomputed@),
            HostError::Proof => "Proving failed or the proof was rejected"@,
            HostError::Dispatch => "Permit call failed"@,
            HostError::OutOfTurn => "Event out of turn"@,
        }
    }

    /// Words the error for a reader.
    pub fn message(&self) -> (msg: String)
        ensures
            msg@ == self.message_text(),
    {
        match self {
            HostError::BlobNotText => String::from_str("Blob is not UTF-8 text"),
            HostError::Parse(e) => e.message(),
            HostError::Schema(e) => e.message(),
            HostError::Consistency { committed, recomputed } => {
                let mut msg = String::from_str("Committed digest 0x");
                append_hex(committed.0.as_slice(), &mut msg);
                msg.append(" does not match recomputed digest 0x");
                append_hex(recomputed.0.as_slice(), &mut msg);
                msg
            },
            HostError::Proof => String::from_str("Proving failed or the proof was rejected"),
            HostError::Dispatch => String::from_str("Permit call failed"),
            HostError::OutOfTurn => String::from_str("Event out of turn"),
        }
    }
}

/// What the host waits for.
#[derive(Debug, Clone, Copy, PartialEq, Eq, Structural)]
pub enum Stage {
    /// Nothing yet: the run has not begun.
    Idle,
    /// The attestation of the current document.
    Proving,
    /// The verdict on the proof of the current document.
    Verifying,
    /// The outcome of the call for the current document.
    Dispatching,
    /// Nothing more: the run is over.
    Done,
}

/// What the host is told.
#[derive(Debug)]
pub enum HostEvent {
    /// The run begins.
    Started,
    /// The guest committed `output`, and `seal` is the proof of it.
    Proved { output: Output, seal: Vec<u8> },
    /// No attestation could be had.
    ProvingFailed,
    /// The proof is one of the known program.
    ProofVerified,
    /// The proof is not one of the known program.
    ProofRejected,
    /// The call was made and confirmed.
    Dispatched,
    /// The call was not made or not confirmed.
    DispatchFailed,
}

/// What the host asks for.
#[derive(Debug)]
pub enum HostAction {
    /// Run the guest on this input and prove it.
    Prove(Input),
    /// Check the proof just obtained against the known program.
    VerifyProof,
    /// Make this call.
    Dispatch(PermitCall),
    /// Every document has its attestation: stop.
    Finish,
    /// Stop with an error.
    Abort(HostError),
}

/// The state of a run.
pub struct Host {
    blob: Vec<u8>,
    ranges: Vec<DigestRange>,
    signer: Address,
    signature: Signature,
    spender: Address,
    position: usize,
    stage: Stage,
    document: Option<alloy_dyn_abi::TypedData>,
    output: Option<Output>,
    seal: Vec<u8>,
    attested: Vec<Attestation>,
}

/// Mathematical form of a [`Host`].
pub ghost struct HostView {
    /// All documents, one after the other.
    pub blob: Seq<u8>,
    /// Where each document lies in the blob.
    pub ranges: Seq<DigestRange>,
    /// The account that is claimed to have signed.
    pub signer: Address,
    /// The signature over the blob.
    pub signature: Signature,
    /// The account on whose behalf calls are made.
    pub spender: Address,
    /// Index of the current document.
    pub position: nat,
    pub stage: Stage,
    /// The current document, once its digest has been found consistent.
    pub document: Option<alloy_dyn_abi::TypedData>,
    /// What the guest committed for the current document, once its digest
    /// has been found consistent.
    pub output: Option<Output>,
    /// The proof for the current document, once it has been obtained.
    pub seal: Seq<u8>,
    /// The attestations whose proofs have been verified, in the order of
    /// their documents.
    pub attested: Seq<(Output, Seq<u8>)>,
}

impl HostView {
    /// The input for the document at `index`.
    pub open spec fn input(self, index: int) -> InputView {
        InputView {
            signer: self.signer,
            signature: self.signature,
            blob: self.blob,
            range: self.ranges[index],
        }
    }

    /// The state in which the host waits for the attestation of the
    /// document at `index`, or is done where there is no such document.
    pub open spec fn turned_to(self, index: nat) -> HostView {
        HostView {
            position: index,
            stage: if index < self.ranges.len() {
                Stage::Proving
            } else {
                Stage::Done
            },
            document: None,
            output: None,
            seal: Seq::empty(),
            ..self
        }
    }

    /// The state after the run has stopped. The attestations obtained so
    /// far stay.
    pub open spec fn stopped(self) -> HostView {
        HostView { stage: Stage::Done, document: None, output: None, seal: Seq::empty(), ..self }
    }

    /// The state with the attestation of the current document on record.
    pub open spec fn recorded(self) -> HostView {
        HostView { attested: self.attested.push((self.output->Some_0, self.seal)), ..self }
    }

    /// The attestations on record are those of the first documents, one
    /// each and in order, and each holds the digest that the host computes
    /// for its document.
    pub open spec fn attested_in_order(self) -> bool {
        &&& self.attested.len() <= self.ranges.len()
        &&& forall|i: int|
            0 <= i < self.attested.len() ==> range_digest(self.blob, self.ranges[i]) == Ok::<
                Seq<u8>,
                SchemaError,
            >((#[trigger] self.attested[i]).0.digest@)
    }

    /// What holds of every state of a run. While the host waits for
    /// something about a document, there is that document, and every
    /// document before it has its attestation on record; the current one has
    /// it once its proof is verified. While the host waits to hear of a
    /// proof, it holds the document and an output whose digest it has found
    /// to be that of the document.
    pub open spec fn well_formed(self) -> bool {
        &&& self.attested_in_order()
        &&& match self.stage {
            Stage::Idle => self.position == 0 && self.attested.len() == 0,
            Stage::Proving => self.position < self.ranges.len() && self.attested.len()
                == self.position,
            Stage::Verifying => {
                &&& self.position < self.ranges.len()
                &&& self.attested.len() == self.position
                &&& self.document is Some
                &&& self.output is Some
                &&& range_digest(self.blob, self.ranges[self.position as int]) == Ok::<
                    Seq<u8>,
                    SchemaError,
                >(self.output->Some_0.digest@)
            },
            Stage::Dispatching => self.position < self.ranges.len() && self.attested.len()
                == self.position + 1,
            Stage::Done => true,
        }
    }
}

/// Whether the host, turning to the document at `index`, asks for `action`.
pub open spec fn asks_for_document(pre: HostView, index: nat, action: HostAction) -> bool {
    if index < pre.ranges.len() {
        action matches HostAction::Prove(input) && input@ == pre.input(index as int)
    } else {
        action is Finish
    }
}

/// Whether `action` stops the run with `error`.
pub open spec fn aborts_with(action: HostAction, error: HostError) -> bool {
    action matches HostAction::Abort(e) && e == error
}

/// Holds the digest that the guest committed against what the host
/// computed for the same document: they must be the same digest.
pub fn check_committed(committed: Digest, recomputed: Result<Digest, SchemaError>) -> (res: Result<
    (),
    HostError,
>)
    ensures
        match recomputed {
            Err(e) => res == Err::<(), HostError>(HostError::Schema(e)),
            Ok(digest) => if digest@ == committed@ {
                res is Ok
            } else {
                res == Err::<(), HostError>(
                    HostError::Consistency { committed, recomputed: digest },
                )
            },
        },
{
    match recomputed {
        Err(e) => Err(HostError::Schema(e)),
        Ok(digest) => {
            if digest == committed {
                Ok(())
            } else {
                Err(HostError::Consistency { committed, recomputed: digest })
            }
        },
    }
}

/// Whether, told in state `pre` that the guest committed `output` with
/// proof `seal`, the host goes to `post` and asks for `action`.
///
/// The host reads the current document again and computes its digest. Only
/// where that is the committed digest does it go on to have the proof
/// checked.
pub open spec fn after_proved(
    pre: HostView,
    output: Output,
    seal: Seq<u8>,
    post: HostView,
    action: HostAction,
) -> bool {
    match document_at(pre.blob, pre.ranges[pre.position as int]) {
        Err(e) => post == pre.stopped() && aborts_with(action, HostError::Schema(e)),
        Ok(document) => match document_digest(document) {
            Err(e) => post == pre.stopped() && aborts_with(action, HostError::Schema(e)),
            Ok(hash) => if hash == output.digest@ {
                &&& post == HostView {
                    stage: Stage::Verifying,
                    document: Some(document),
                    output: Some(output),
                    seal,
                    ..pre
                }
                &&& action is VerifyProof
            } else {
                &&& post == pre.stopped()
                &&& action matches HostAction::Abort(
                    HostError::Consistency { committed, recomputed },
                )
                &&& committed == output.digest
                &&& recomputed@ == hash
            },
        },
    }
}

/// Whether, told in state `pre` that the proof is good, the host goes to
/// `post` and asks for `action`.
///
/// The attestation of the current document goes on record. A transfer
/// permit then gets its call, to the signer, for the fixed amount and with
/// the proof as authorization. Any other document needs nothing more, and
/// the host turns to the next one.
pub open spec fn after_verified(pre: HostView, post: HostView, action: HostAction) -> bool {
    let document = pre.document->Some_0;
    if primary_type_of(document) == transfer_permit_type() {
        match permit_fields_of(document) {
            None => {
                &&& post == pre.recorded().stopped()
                &&& aborts_with(action, HostError::Schema(SchemaError::IncompletePermit))
            },
            Some((token, amount, nonce, deadline)) => {
                &&& post == HostView { stage: Stage::Dispatching, ..pre.recorded() }
                &&& action matches HostAction::Dispatch(call)
                &&& call.token@ == token
                &&& call.amount == amount
                &&& call.nonce == nonce
                &&& call.deadline == deadline
                &&& call.recipient == pre.signer
                &&& call.requested_amount == REQUESTED_AMOUNT
                &&& call.spender == pre.spender
                &&& call.authorization@ == pre.seal
            },
        }
    } else {
        &&& post == pre.recorded().turned_to(pre.position + 1)
        &&& asks_for_document(pre, pre.position + 1, action)
    }
}

/// Whether, told of `event` in state `pre`, the host goes to `post` and asks
/// for `action`.
pub open spec fn advances(pre: HostView, event: HostEvent, post: HostView, action: HostAction) -> bool {
    match (pre.stage, event) {
        (Stage::Idle, HostEvent::Started) => {
            &&& post == pre.turned_to(0)
            &&& asks_for_document(pre, 0, action)
        },
        (Stage::Proving, HostEvent::Proved { output, seal }) => after_proved(
            pre,
            output,
            seal@,
            post,
            action,
        ),
        (Stage::Proving, HostEvent::ProvingFailed) => {
            &&& post == pre.stopped()
            &&& aborts_with(action, HostError::Proof)
        },
        (Stage::Verifying, HostEvent::ProofVerified) => after_verified(pre, post, action),
        (Stage::Verifying, HostEvent::ProofRejected) => {
            &&& post == pre.stopped()
            &&& aborts_with(action, HostError::Proof)
        },
        (Stage::Dispatching, HostEvent::Dispatched) => {
            &&& post == pre.turned_to(pre.position + 1)
            &&& asks_for_document(pre, pre.position + 1, action)
        },
        (Stage::Dispatching, HostEvent::DispatchFailed) => {
            &&& post == pre.stopped()
            &&& aborts_with(action, HostError::Dispatch)
        },
        _ => {
            &&& post == pre.stopped()
            &&& aborts_with(action, HostError::OutOfTurn)
        },
    }
}

/// Every range that the scanner finds in a blob of text lies inside the
/// blob, and the bytes under it are text again: one object to the scanner.
/// No document of the host's own splitting is refused for its range or for
/// its encoding.
pub proof fn lemma_scanned_range_is_text(blob: Seq<u8>, range: DigestRange, k: int)
    requires
        valid_utf8(blob),
        0 <= k < scan(decode_utf8(blob)).ranges.len(),
        range@ == scan(decode_utf8(blob)).ranges[k],
    ensures
        range_in_bounds(range, blob.len()),
        valid_utf8(blob.subrange(range.start as int, range.end as int)),
        is_object_text(decode_utf8(blob.subrange(range.start as int, range.end as int))),
        document_at(blob, range) == json_document(
            decode_utf8(blob.subrange(range.start as int, range.end as int)),
        ),
{
    broadcast use vstd::utf8::group_utf8_lib;

    let s = decode_utf8(blob);
    let r = scan(s).ranges[k];
    assert(encode_utf8(s) == blob);
    lemma_scan_well_formed(s);
    lemma_ranges_cover_objects(s);
    assert(covers_object(s, r));
    let (from, to) = choose|from: int, to: int| #![trigger covers(s, r, from, to)] covers(s, r, from, to);
    let o = s.subrange(from, to);
    assert(blob.subrange(r.start as int, r.end as int) == encode_utf8(o));
    assert(decode_utf8(encode_utf8(o)) == o);
}

/// A proof is put to the check only after the host has found for itself
/// that the committed digest is that of the current document.
pub proof fn lemma_verification_follows_consistency(
    pre: HostView,
    event: HostEvent,
    post: HostView,
    action: HostAction,
)
    requires
        advances(pre, event, post, action),
        action is VerifyProof,
    ensures
        pre.stage is Proving,
        event matches HostEvent::Proved { output, seal } && range_digest(
            pre.blob,
            pre.ranges[pre.position as int],
        ) == Ok::<Seq<u8>, SchemaError>(output.digest@) && post.seal == seal@,
        post.stage is Verifying,
        post.position == pre.position,
{
}

/// A call is made only once the proof of the current document has been
/// verified. It pays the signer and carries that proof.
pub proof fn lemma_dispatch_follows_verification(
    pre: HostView,
    event: HostEvent,
    post: HostView,
    action: HostAction,
)
    requires
        advances(pre, event, post, action),
        action is Dispatch,
    ensures
        pre.stage is Verifying,
        event is ProofVerified,
        action matches HostAction::Dispatch(call) && call.recipient == pre.signer
            && call.authorization@ == pre.seal && call.requested_amount == REQUESTED_AMOUNT,
        post.stage is Dispatching,
        post.position == pre.position,
{
}

/// Documents are taken in order: the first when the run starts, and the
/// next only when the current one is done with. Each input holds the whole
/// blob, the same signer and the same signature.
pub proof fn lemma_documents_in_order(
    pre: HostView,
    event: HostEvent,
    post: HostView,
    action: HostAction,
)
    requires
        advances(pre, event, post, action),
        action is Prove,
    ensures
        action matches HostAction::Prove(input) && input@ == pre.input(post.position as int),
        post.position < pre.ranges.len(),
        post.stage is Proving,
        pre.stage is Idle ==> post.position == 0,
        !(pre.stage is Idle) ==> post.position == pre.position + 1 && (pre.stage is Verifying
            || pre.stage is Dispatching),
{
}

/// Once the run is over, nothing starts it again; and whatever stops a run
/// leaves it over.
pub proof fn lemma_done_is_final(pre: HostView, event: HostEvent, post: HostView, action: HostAction)
    requires
        advances(pre, event, post, action),
    ensures
        pre.stage is Done ==> post.stage is Done && aborts_with(action, HostError::OutOfTurn),
        action is Abort || action is Finish ==> post.stage is Done,
        post.blob == pre.blob && post.ranges == pre.ranges && post.signer == pre.signer
            && post.signature == pre.signature && post.spender == pre.spender,
{
}

/// When a run finishes, every document has its attestation on record, in
/// order, and each holds the digest that the host computes for its
/// document.
pub proof fn lemma_finished_run_attests_all(
    pre: HostView,
    event: HostEvent,
    post: HostView,
    action: HostAction,
)
    requires
        pre.well_formed(),
        advances(pre, event, post, action),
        action is Finish,
    ensures
        post.attested.len() == post.ranges.len(),
        forall|i: int|
            0 <= i < post.ranges.len() ==> range_digest(post.blob, post.ranges[i]) == Ok::<
                Seq<u8>,
                SchemaError,
            >((#[trigger] post.attested[i]).0.digest@),
{
    lemma_advance_keeps_well_formed(pre, event, post, action);
}

/// Every step leaves the state well formed, and no attestation on record
/// is ever lost or changed: a step adds at most one, that of the current
/// document, and only when its proof has been verified.
pub proof fn lemma_advance_keeps_well_formed(
    pre: HostView,
    event: HostEvent,
    post: HostView,
    action: HostAction,
)
    requires
        pre.well_formed(),
        advances(pre, event, post, action),
    ensures
        post.well_formed(),
        post.attested == pre.attested || (pre.stage is Verifying && event is ProofVerified
            && post.attested == pre.attested.push((pre.output->Some_0, pre.seal))),
{
    if pre.stage is Verifying && event is ProofVerified {
        let recorded = pre.recorded();
        assert forall|i: int| 0 <= i < recorded.attested.len() implies range_digest(
            recorded.blob,
            recorded.ranges[i],
        ) == Ok::<Seq<u8>, SchemaError>((#[trigger] recorded.attested[i]).0.digest@) by {
            if i < pre.attested.len() {
                assert(recorded.attested[i] == pre.attested[i]);
            }
        }
    }
}

/// Whether `res` is the right beginning of a run on `blob`: a host that has
/// one range per top-level object of the blob, in order, and waits to be
/// started; or the reason why the blob cannot be split.
pub open spec fn opens_run(
    res: Result<Host, HostError>,
    blob: Seq<u8>,
    signer: Address,
    signature: Signature,
    spender: Address,
) -> bool {
    if !valid_utf8(blob) {
        res matches Err(HostError::BlobNotText)
    } else {
        match verdict(decode_utf8(blob)) {
            Verdict::Ranges(spans) => {
                &&& res matches Ok(host)
                &&& spans_of(host@.ranges) == spans
                &&& host@ == HostView {
                    blob,
                    ranges: host@.ranges,
                    signer,
                    signature,
                    spender,
                    position: 0,
                    stage: Stage::Idle,
                    document: None,
                    output: None,
                    seal: Seq::empty(),
                    attested: Seq::empty(),
                }
            },
            Verdict::UnmatchedClose(offset) => {
                &&& res matches Err(HostError::Parse(ParseError::UnmatchedClosingBrace { offset: at }))
                &&& at == offset
            },
            Verdict::Unclosed(depth) => {
                &&& res matches Err(HostError::Parse(ParseError::UnclosedObject { depth: open }))
                &&& open == depth
            },
        }
    }
}

impl Host {
    #[verifier::type_invariant]
    spec fn inv(self) -> bool {
        self@.well_formed()
    }

    /// The state as plain values.
    pub closed spec fn view(&self) -> HostView {
        HostView {
            blob: self.blob@,
            ranges: self.ranges@,
            signer: self.signer,
            signature: self.signature,
            spender: self.spender,
            position: self.position as nat,
            stage: self.stage,
            document: self.document,
            output: self.output,
            seal: self.seal@,
            attested: attestation_views(self.attested@),
        }
    }

    /// Splits the blob and makes ready to run over its documents.
    pub fn new(blob: Vec<u8>, signer: Address, signature: Signature, spender: Address) -> (res:
        Result<Host, HostError>)
        ensures
            opens_run(res, blob@, signer, signature, spender),
    {
        let ranges = match text_of_bytes(blob.as_slice()) {
            None => {
                return Err(HostError::BlobNotText);
            },
            Some(text) => match find_concatenated_json_ranges(text) {
                Err(e) => {
                    return Err(HostError::Parse(e));
                },
                Ok(ranges) => ranges,
            },
        };
        let attested: Vec<Attestation> = Vec::new();
        assert(attestation_views(attested@) == Seq::<(Output, Seq<u8>)>::empty());
        Ok(
            Host {
                blob,
                ranges,
                signer,
                signature,
                spender,
                position: 0,
                stage: Stage::Idle,
                document: None,
                output: None,
                seal: Vec::new(),
                attested,
            },
        )
    }

    /// The number of documents in the blob.
    pub fn document_count(&self) -> (count: usize)
        ensures
            count == self@.ranges.len(),
    {
        self.ranges.len()
    }

    /// What the host waits for.
    pub fn stage(&self) -> (stage: Stage)
        ensures
            stage == self@.stage,
    {
        self.stage
    }

    /// Index of the current document.
    pub fn position(&self) -> (position: usize)
        ensures
            position == self@.position,
    {
        self.position
    }

    fn stop(self, error: HostError) -> (next: (Host, HostAction))
        ensures
            next.0@ == self@.stopped(),
            aborts_with(next.1, error),
    {
        proof {
            use_type_invariant(&self);
        }
        (
            Host { stage: Stage::Done, document: None, output: None, seal: Vec::new(), ..self },
            HostAction::Abort(error),
        )
    }

    fn turn_to(self, index: usize) -> (next: (Host, HostAction))
        requires
            self@.attested.len() == index,
        ensures
            next.0@ == self@.turned_to(index as nat),
            asks_for_document(self@, index as nat, next.1),
    {
        proof {
            use_type_invariant(&self);
        }
        if index < self.ranges.len() {
            let input = Input {
                signer: self.signer,
                signature: self.signature,
                typed_data_concat: slice_to_vec(self.blob.as_slice()),
                digest_range: self.ranges[index],
            };
            (
                Host {
                    position: index,
                    stage: Stage::Proving,
                    document: None,
                    output: None,
                    seal: Vec::new(),
                    ..self
                },
                HostAction::Prove(input),
            )
        } else {
            (
                Host {
                    position: index,
                    stage: Stage::Done,
                    document: None,
                    output: None,
                    seal: Vec::new(),
                    ..self
                },
                HostAction::Finish,
            )
        }
    }

    /// Takes in what happened and gives the state to go on from and what is
    /// to be done next.
    pub fn advance(self, event: HostEvent) -> (next: (Host, HostAction))
        ensures
            advances(self@, event, next.0@, next.1),
            next.0@.well_formed(),
    {
        proof {
            use_type_invariant(&self);
        }
        // The index of a current document is below their number, so it can be stepped.
        let _ = self.ranges.len();
        let next = match (self.stage, event) {
            (Stage::Idle, HostEvent::Started) => self.turn_to(0),
            (Stage::Proving, HostEvent::Proved { output, seal }) => {
                let range = self.ranges[self.position];
                match read_document(self.blob.as_slice(), range) {
                    Err(e) => self.stop(HostError::Schema(e)),
                    Ok(document) => match check_committed(
                        output.digest,
                        digest_of_document(&document),
                    ) {
                        Err(e) => self.stop(e),
                        Ok(()) => (
                            Host {
                                stage: Stage::Verifying,
                                document: Some(document),
                                output: Some(output),
                                seal,
                                ..self
                            },
                            HostAction::VerifyProof,
                        ),
                    },
                }
            },
            (Stage::Proving, HostEvent::ProvingFailed) => self.stop(HostError::Proof),
            (Stage::Verifying, HostEvent::ProofVerified) => {
                let permit = match &self.document {
                    Some(document) => if is_transfer_permit(document) {
                        Some(permit_transfer_fields(document))
                    } else {
                        None
                    },
                    None => None,
                };
                let output = self.output.unwrap();
                let seal = slice_to_vec(self.seal.as_slice());
                let ghost before = self@;
                let mut attested = self.attested;
                attested.push(Attestation { output, seal });
                assert(attestation_views(attested@) == before.attested.push((output, seal@)));
                let host = Host { stage: Stage::Done, attested, ..self };
                match permit {
                    Some(Err(e)) => host.stop(HostError::Schema(e)),
                    Some(Ok(permit)) => {
                        let seal = slice_to_vec(host.seal.as_slice());
                        let call = permit_call(permit, host.signer, host.spender, seal);
                        (Host { stage: Stage::Dispatching, ..host }, HostAction::Dispatch(call))
                    },
                    None => {
                        let next = host.position + 1;
                        host.turn_to(next)
                    },
                }
            },
            (Stage::Verifying, HostEvent::ProofRejected) => self.stop(HostError::Proof),
            (Stage::Dispatching, HostEvent::Dispatched) => {
                let next = self.position + 1;
                self.turn_to(next)
            },
            (Stage::Dispatching, HostEvent::DispatchFailed) => self.stop(HostError::Dispatch),
            _ => self.stop(HostError::OutOfTurn),
        };
        proof {
            use_type_invariant(&next.0);
        }
        next
    }

    /// The attestations whose proofs have been verified so far, in the
    /// order of their documents. They stay when a run stops early.
    pub fn attestations(&self) -> (list: &Vec<Attestation>)
        ensures
            attestation_views(list@) == self@.attested,
    {
        &self.attested
    }
}

} // verus!
