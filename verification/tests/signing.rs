use alloy_primitives::{hex, B256};
use alloy_signer::SignerSync;
use alloy_signer_local::PrivateKeySigner;
use single_sign::primitives::{Address, Digest, Signature};
use single_sign::signing::{
    check_recovered, personal_message_preimage, signing_prehash, verify_signature, MessageMode,
    VerificationError,
};

fn bytes32(text: &str) -> [u8; 32] {
    let bytes = hex::decode(text).unwrap();
    let mut out = [0u8; 32];
    out.copy_from_slice(&bytes);
    out
}

fn address(text: &str) -> Address {
    let bytes = hex::decode(text).unwrap();
    let mut out = [0u8; 20];
    out.copy_from_slice(&bytes);
    Address(out)
}

fn plain_signature(signature: &alloy_primitives::Signature) -> Signature {
    Signature {
        r: signature.r().to_be_bytes::<32>(),
        s: signature.s().to_be_bytes::<32>(),
        y_parity: signature.v(),
    }
}

fn test_signer() -> PrivateKeySigner {
    PrivateKeySigner::from_bytes(&B256::repeat_byte(0x42)).unwrap()
}

fn signer_address(signer: &PrivateKeySigner) -> Address {
    Address(signer.address().into_array())
}

#[test]
fn keccak_prehash_of_empty_message() {
    let hash = signing_prehash(b"", MessageMode::Keccak).unwrap();
    assert_eq!(
        hash,
        Digest(bytes32("c5d2460186f7233c927e7db2dcc703c0e500b653ca82273b7bfad8045d85a470"))
    );
}

#[test]
fn keccak_prehash_agrees_with_keccak256() {
    let message = b"typed data goes here";
    let hash = signing_prehash(message, MessageMode::Keccak).unwrap();
    assert_eq!(hash.0, alloy_primitives::keccak256(message).0);
    assert_ne!(&hash.0[..], &message[..]);
}

#[test]
fn personal_preimage_has_header_length_and_message() {
    assert_eq!(
        personal_message_preimage(b"hello"),
        b"\x19Ethereum Signed Message:\n5hello".to_vec()
    );
    assert_eq!(personal_message_preimage(b""), b"\x19Ethereum Signed Message:\n0".to_vec());
    let long = vec![b'x'; 1234];
    let mut expected = b"\x19Ethereum Signed Message:\n1234".to_vec();
    expected.extend_from_slice(&long);
    assert_eq!(personal_message_preimage(&long), expected);
}

#[test]
fn personal_prehash_agrees_with_eip191() {
    for message in [&b""[..], &b"hello"[..], &b"Some data"[..], &[0u8; 100][..]] {
        let hash = signing_prehash(message, MessageMode::Personal).unwrap();
        assert_eq!(hash.0, alloy_primitives::eip191_hash_message(message).0);
    }
}

#[test]
fn raw32_takes_the_message_as_the_hash() {
    let raw = bytes32("5eb4f5a33c621f32a8622d5f943b6b102994dfe4e5aebbefe69bb1b2aa0fc93e");
    assert_eq!(signing_prehash(&raw, MessageMode::Raw32), Some(Digest(raw)));
}

#[test]
fn raw32_refuses_other_lengths() {
    assert_eq!(signing_prehash(&[0u8; 31], MessageMode::Raw32), None);
    assert_eq!(signing_prehash(&[0u8; 33], MessageMode::Raw32), None);
    assert_eq!(signing_prehash(&[], MessageMode::Raw32), None);
    let signature = Signature { r: [1u8; 32], s: [1u8; 32], y_parity: false };
    let res = verify_signature(vec![0u8; 31], signature, Address([0u8; 20]), MessageMode::Raw32);
    assert!(matches!(res, Err(VerificationError::InvalidPrehashLength)));
}

#[test]
fn raw32_recovers_known_signer() {
    let signature = Signature {
        r: bytes32("48b55bfa915ac795c431978d8a6a992b628d557da5ff759b307d495a36649353"),
        s: bytes32("efffd310ac743f371de3b9f7f9cb56c0b28ad43601b4ab949f53faa07bd2c804"),
        y_parity: false,
    };
    let hash = bytes32("5eb4f5a33c621f32a8622d5f943b6b102994dfe4e5aebbefe69bb1b2aa0fc93e");
    let expected = address("0f65fe9276bc9a24ae7083ae28e2660ef72df99e");
    let res = verify_signature(hash.to_vec(), signature, expected, MessageMode::Raw32);
    assert!(matches!(res, Ok(true)));
}

#[test]
fn personal_recovers_known_signer() {
    let signature = Signature {
        r: bytes32("b91467e570a6466aa9e9876cbcd013baba02900b8979d43fe208a4a4f339f5fd"),
        s: bytes32("6007e74cd82e037b800186422fc2da167c747ef045e5d18a5f5d4300f8e1a029"),
        y_parity: true,
    };
    let expected = address("2c7536e3605d9c16a7a3d7b1898e529396a65c23");
    let res = verify_signature(b"Some data".to_vec(), signature, expected, MessageMode::Personal);
    assert!(matches!(res, Ok(true)));
}

#[test]
fn mismatch_names_both_addresses() {
    let signature = Signature {
        r: bytes32("b91467e570a6466aa9e9876cbcd013baba02900b8979d43fe208a4a4f339f5fd"),
        s: bytes32("6007e74cd82e037b800186422fc2da167c747ef045e5d18a5f5d4300f8e1a029"),
        y_parity: true,
    };
    let real = address("2c7536e3605d9c16a7a3d7b1898e529396a65c23");
    let claimed = address("00000000000000000000000000000000000000aa");
    let res = verify_signature(b"Some data".to_vec(), signature, claimed, MessageMode::Personal);
    match res {
        Err(VerificationError::SignerMismatch { recovered, expected }) => {
            assert_eq!(recovered, real);
            assert_eq!(expected, claimed);
            assert_eq!(
                VerificationError::SignerMismatch { recovered, expected }.message(),
                "Recovered address 0x2c7536e3605d9c16a7a3d7b1898e529396a65c23 does not match \
                 expected address 0x00000000000000000000000000000000000000aa"
            );
        }
        other => panic!("expected a mismatch, got {:?}", other),
    }
}

#[test]
fn personal_signature_of_own_key_verifies() {
    let signer = test_signer();
    for message in [&b""[..], &b"m"[..], &b"{\"a\":1}{\"b\":2}"[..]] {
        let signature = signer.sign_message_sync(message).unwrap();
        let res = verify_signature(
            message.to_vec(),
            plain_signature(&signature),
            signer_address(&signer),
            MessageMode::Personal,
        );
        assert!(matches!(res, Ok(true)));
    }
}

#[test]
fn keccak_signature_of_own_key_verifies() {
    let signer = test_signer();
    let message = b"plain bytes";
    let signature = signer.sign_hash_sync(&alloy_primitives::keccak256(message)).unwrap();
    let res = verify_signature(
        message.to_vec(),
        plain_signature(&signature),
        signer_address(&signer),
        MessageMode::Keccak,
    );
    assert!(matches!(res, Ok(true)));
    let res = verify_signature(
        message.to_vec(),
        plain_signature(&signature),
        signer_address(&signer),
        MessageMode::Personal,
    );
    assert!(res.is_err());
}

#[test]
fn flipped_message_bit_fails() {
    let signer = test_signer();
    let message = b"sixteen byte msg".to_vec();
    let signature = plain_signature(&signer.sign_message_sync(&message).unwrap());
    for byte in 0..message.len() {
        for bit in 0..8 {
            let mut tampered = message.clone();
            tampered[byte] ^= 1 << bit;
            let res = verify_signature(
                tampered,
                signature,
                signer_address(&signer),
                MessageMode::Personal,
            );
            assert!(res.is_err());
        }
    }
}

#[test]
fn flipped_signature_bit_fails() {
    let signer = test_signer();
    let message = b"sixteen byte msg".to_vec();
    let signature = plain_signature(&signer.sign_message_sync(&message).unwrap());
    for byte in 0..32 {
        for bit in 0..8 {
            let mut in_r = signature;
            in_r.r[byte] ^= 1 << bit;
            let mut in_s = signature;
            in_s.s[byte] ^= 1 << bit;
            for tampered in [in_r, in_s] {
                let res = verify_signature(
                    message.clone(),
                    tampered,
                    signer_address(&signer),
                    MessageMode::Personal,
                );
                assert!(res.is_err());
            }
        }
    }
    let mut other_parity = signature;
    other_parity.y_parity = !signature.y_parity;
    let res = verify_signature(
        message,
        other_parity,
        signer_address(&signer),
        MessageMode::Personal,
    );
    assert!(res.is_err());
}

#[test]
fn zero_signature_fails_recovery() {
    let signature = Signature { r: [0u8; 32], s: [0u8; 32], y_parity: false };
    let res = verify_signature(
        b"anything".to_vec(),
        signature,
        Address([0u8; 20]),
        MessageMode::Personal,
    );
    assert!(matches!(res, Err(VerificationError::RecoveryFailed)));
}

#[test]
fn check_recovered_compares_with_expected() {
    let a = address("2c7536e3605d9c16a7a3d7b1898e529396a65c23");
    let b = address("0f65fe9276bc9a24ae7083ae28e2660ef72df99e");
    assert!(matches!(check_recovered(Ok(a), a), Ok(true)));
    match check_recovered(Ok(a), b) {
        Err(VerificationError::SignerMismatch { recovered, expected }) => {
            assert_eq!(recovered, a);
            assert_eq!(expected, b);
        }
        other => panic!("expected a mismatch, got {:?}", other),
    }
    let failed = Err(alloy_primitives::SignatureError::InvalidParity(5));
    assert!(matches!(check_recovered(failed, a), Err(VerificationError::RecoveryFailed)));
}

#[test]
fn verification_error_messages() {
    assert_eq!(
        VerificationError::InvalidPrehashLength.message(),
        "Raw32 mode requires a 32-byte prehash"
    );
    assert_eq!(VerificationError::RecoveryFailed.message(), "recovery failed");
}
