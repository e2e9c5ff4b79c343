use alloy_primitives::B256;
use alloy_signer::SignerSync;
use alloy_signer_local::PrivateKeySigner;
use single_sign::attestation::Input;
use single_sign::guest::{attest, output_for, AttestationError};
use single_sign::primitives::{Address, Digest, Signature};
use single_sign::scanner::{find_concatenated_json_ranges, DigestRange};
use single_sign::signing::VerificationError;
use single_sign::typed_data::{verify_digest, SchemaError};

const D1: &str = r#"{"types":{"EIP712Domain":[],"Note":[{"name":"text","type":"string"}]},"primaryType":"Note","domain":{},"message":{"text":"first"}}"#;

const D2: &str = r#"{"types":{"EIP712Domain":[],"Note":[{"name":"text","type":"string"}]},"primaryType":"Note","domain":{},"message":{"text":"second"}}"#;

fn plain_signature(signature: &alloy_primitives::Signature) -> Signature {
    Signature {
        r: signature.r().to_be_bytes::<32>(),
        s: signature.s().to_be_bytes::<32>(),
        y_parity: signature.v(),
    }
}

fn batch_signer() -> PrivateKeySigner {
    PrivateKeySigner::from_bytes(&B256::repeat_byte(0x17)).unwrap()
}

fn signed_batch() -> (Vec<u8>, Address, Signature) {
    let blob = format!("{}{}", D1, D2).into_bytes();
    let signer = batch_signer();
    let signature = plain_signature(&signer.sign_message_sync(&blob).unwrap());
    (blob, Address(signer.address().into_array()), signature)
}

fn input_for(blob: &[u8], signer: Address, signature: Signature, range: DigestRange) -> Input {
    Input { signer, signature, typed_data_concat: blob.to_vec(), digest_range: range }
}

#[test]
fn two_documents_signed_once_are_both_attested() {
    let (blob, signer, signature) = signed_batch();
    let ranges = find_concatenated_json_ranges(std::str::from_utf8(&blob).unwrap()).unwrap();
    assert_eq!(ranges.len(), 2);
    assert_eq!(ranges[0], DigestRange { start: 0, end: D1.len() });
    assert_eq!(ranges[1], DigestRange { start: D1.len(), end: D1.len() + D2.len() });

    let first = attest(input_for(&blob, signer, signature, ranges[0])).unwrap();
    let second = attest(input_for(&blob, signer, signature, ranges[1])).unwrap();
    assert_eq!(first.signer, signer);
    assert_eq!(second.signer, signer);
    assert_eq!(first.digest, verify_digest(D1).unwrap());
    assert_eq!(second.digest, verify_digest(D2).unwrap());
    assert_ne!(first.digest, second.digest);
}

#[test]
fn tampered_second_document_gets_no_attestation() {
    let (blob, signer, signature) = signed_batch();
    let ranges = find_concatenated_json_ranges(std::str::from_utf8(&blob).unwrap()).unwrap();
    let at = D1.len() + D2.find("second").unwrap();
    let mut tampered = blob.clone();
    tampered[at] ^= 0x01;
    assert_ne!(tampered, blob);

    let second = attest(input_for(&tampered, signer, signature, ranges[1]));
    assert!(matches!(
        second,
        Err(AttestationError::Verification(VerificationError::SignerMismatch { .. }))
            | Err(AttestationError::Verification(VerificationError::RecoveryFailed))
    ));

    let first = attest(input_for(&blob, signer, signature, ranges[0])).unwrap();
    assert_eq!(first.signer, signer);
    assert_eq!(first.digest, verify_digest(D1).unwrap());
}

#[test]
fn signature_covers_the_whole_blob() {
    let (blob, signer, signature) = signed_batch();
    let ranges = find_concatenated_json_ranges(std::str::from_utf8(&blob).unwrap()).unwrap();
    let at = D1.len() + D2.find("second").unwrap();
    let mut tampered = blob.clone();
    tampered[at] ^= 0x01;
    let first = attest(input_for(&tampered, signer, signature, ranges[0]));
    assert!(matches!(first, Err(AttestationError::Verification(_))));

    let only_first = D1.as_bytes();
    let alone = attest(input_for(
        only_first,
        signer,
        signature,
        DigestRange { start: 0, end: D1.len() },
    ));
    assert!(matches!(alone, Err(AttestationError::Verification(_))));
}

#[test]
fn signature_over_one_document_alone_is_not_enough() {
    let blob = format!("{}{}", D1, D2).into_bytes();
    let signer = batch_signer();
    let signature = plain_signature(&signer.sign_message_sync(D1.as_bytes()).unwrap());
    let address = Address(signer.address().into_array());
    let res = attest(input_for(&blob, address, signature, DigestRange { start: 0, end: D1.len() }));
    assert!(matches!(res, Err(AttestationError::Verification(_))));
}

#[test]
fn wrong_claimed_signer_gets_no_attestation() {
    let (blob, signer, signature) = signed_batch();
    let other = Address([0x11u8; 20]);
    let res = attest(input_for(&blob, other, signature, DigestRange { start: 0, end: D1.len() }));
    match res {
        Err(AttestationError::Verification(VerificationError::SignerMismatch {
            recovered,
            expected,
        })) => {
            assert_eq!(recovered, signer);
            assert_eq!(expected, other);
        }
        other => panic!("expected a mismatch, got {:?}", other),
    }
}

#[test]
fn range_outside_the_blob_gets_no_attestation() {
    let (blob, signer, signature) = signed_batch();
    let range = DigestRange { start: 0, end: blob.len() + 1 };
    let res = attest(input_for(&blob, signer, signature, range));
    assert!(matches!(res, Err(AttestationError::Schema(SchemaError::RangeOutOfBounds))));
    let range = DigestRange { start: 9, end: 3 };
    let res = attest(input_for(&blob, signer, signature, range));
    assert!(matches!(res, Err(AttestationError::Schema(SchemaError::RangeOutOfBounds))));
}

#[test]
fn range_that_is_no_document_gets_no_attestation() {
    let (blob, signer, signature) = signed_batch();
    let range = DigestRange { start: 1, end: D1.len() };
    let res = attest(input_for(&blob, signer, signature, range));
    assert!(matches!(res, Err(AttestationError::Schema(SchemaError::InvalidTypedData))));
}

#[test]
fn digest_is_checked_before_the_signature() {
    let blob = b"{\"a\":1}".to_vec();
    let signature = Signature { r: [0u8; 32], s: [0u8; 32], y_parity: false };
    let range = DigestRange { start: 0, end: blob.len() };
    let res = attest(input_for(&blob, Address([0u8; 20]), signature, range));
    assert!(matches!(res, Err(AttestationError::Schema(SchemaError::InvalidTypedData))));
}

#[test]
fn attestation_error_messages() {
    assert_eq!(
        AttestationError::Schema(SchemaError::InvalidTypedData).message(),
        "Invalid EIP-712 typed data JSON"
    );
    assert_eq!(
        AttestationError::Verification(VerificationError::RecoveryFailed).message(),
        "recovery failed"
    );
}

#[test]
fn output_is_given_only_for_an_accepted_signature() {
    let signer = Address([0x44u8; 20]);
    let digest = Digest([0x55u8; 32]);
    let output = output_for(signer, digest, Ok(true)).unwrap();
    assert_eq!(output.signer, signer);
    assert_eq!(output.digest, digest);
    assert!(matches!(
        output_for(signer, digest, Err(VerificationError::RecoveryFailed)),
        Err(AttestationError::Verification(VerificationError::RecoveryFailed))
    ));
}
