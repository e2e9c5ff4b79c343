//! Checking that a signature over a message comes from an expected account.

use vstd::prelude::*;
use vstd::string::StringExecFns;
use vstd::string::StringSliceAdditionalSpecFns;
use crate::notation::{
    append_hex, decimal_digits, hex_text, lemma_decimal_digits_grow, push_decimal,
};
use crate::primitives::{Address, Digest, Signature, append_bytes};

verus! {

/// How the message is turned into the 32 bytes that were signed.
#[derive(Debug, Clone, Copy, PartialEq, Eq, Structural)]
pub enum MessageMode {
    /// The message is the 32-byte hash itself.
    Raw32,
    /// The hash is Keccak-256 of the message.
    Keccak,
    /// The hash is Keccak-256 of the message behind the personal-message
    /// header and its length in decimal.
    Personal,
}

/// Why a signature was not accepted.
#[derive(Debug, Clone, Copy)]
pub enum VerificationError {
    /// `Raw32` was asked for and the message is not 32 bytes long.
    InvalidPrehashLength,
    /// No public key could be recovered from the signature and the hash.
    RecoveryFailed,
    /// The signature is that of another account.
    SignerMismatch { recovered: Address, expected: Address },
}

/// `alloy_primitives::SignatureError`, taken as it comes and never looked
/// into.
#[verifier::external_type_specification]
#[verifier::external_body]
pub struct ExSignatureError(alloy_primitives::SignatureError);

/// Keccak-256 of a byte string.
pub uninterp spec fn keccak256_of(data: Seq<u8>) -> Seq<u8>;

/// The address that signed `prehash` if `r`, `s` and `y_parity` are its
/// signature, and `None` where no public key can be recovered from them.
pub uninterp spec fn recovered_signer(r: Seq<u8>, s: Seq<u8>, y_parity: bool, prehash: Seq<u8>) -> Option<Seq<u8>>;

/// Calls `alloy_primitives::keccak256`. The hash is a function of the bytes
/// alone; the contract gives it its name and says no more of it.
#[verifier::external_body]
fn keccak256(data: &[u8]) -> (hash: Digest)
    ensures
        hash@ == keccak256_of(data@),
{
    Digest(alloy_primitives::keccak256(data).0)
}

/// Calls `alloy_primitives::Signature::recover_address_from_prehash` on the
/// signature built by `alloy_primitives::Signature::from_scalars_and_parity`.
/// Recovery is a function of the three parts of the signature and of the
/// hash: the contract names its result, an address or none.
#[verifier::external_body]
fn recover_address_from_prehash(signature: &Signature, prehash: &Digest) -> (res: Result<
    Address,
    alloy_primitives::SignatureError,
>)
    ensures
        match res {
            Ok(signer) => recovered_signer(signature.r@, signature.s@, signature.y_parity, prehash@)
                == Some(signer@),
            Err(_) => recovered_signer(signature.r@, signature.s@, signature.y_parity, prehash@)
                is None,
        },
{
    let outside = alloy_primitives::Signature::from_scalars_and_parity(
        alloy_primitives::B256::new(signature.r),
        alloy_primitives::B256::new(signature.s),
        signature.y_parity,
    );
    match outside.recover_address_from_prehash(&alloy_primitives::B256::new(prehash.0)) {
        Ok(signer) => Ok(Address(signer.into_array())),
        Err(e) => Err(e),
    }
}

/// The header of a personal message.
pub open spec fn personal_header() -> Seq<u8> {
    "\x19Ethereum Signed Message:\n".spec_bytes()
}

/// The header is the byte `0x19` and the words `Ethereum Signed Message:`
/// with a line feed behind them, in ASCII: 26 bytes.
pub proof fn lemma_personal_header_bytes()
    ensures
        personal_header() == seq![
            0x19u8, 0x45, 0x74, 0x68, 0x65, 0x72, 0x65, 0x75, 0x6d, 0x20, 0x53, 0x69, 0x67, 0x6e,
            0x65, 0x64, 0x20, 0x4d, 0x65, 0x73, 0x73, 0x61, 0x67, 0x65, 0x3a, 0x0a,
        ],
{
    reveal_strlit("\x19Ethereum Signed Message:\n");
    let chars = "\x19Ethereum Signed Message:\n"@;
    assert(vstd::utf8::is_ascii_chars(chars));
    vstd::utf8::is_ascii_chars_encode_utf8(chars);
    assert(personal_header() =~= seq![
        0x19u8, 0x45, 0x74, 0x68, 0x65, 0x72, 0x65, 0x75, 0x6d, 0x20, 0x53, 0x69, 0x67, 0x6e,
        0x65, 0x64, 0x20, 0x4d, 0x65, 0x73, 0x73, 0x61, 0x67, 0x65, 0x3a, 0x0a,
    ]);
}

/// What is hashed for a personal message: the header, the length of the
/// message in decimal digits, and the message.
pub open spec fn personal_preimage(message: Seq<u8>) -> Seq<u8> {
    personal_header() + decimal_digits(message.len()) + message
}

/// Two messages with the same preimage are the same message: whatever is
/// changed in a message, a bit or its length, changes what is hashed.
pub proof fn lemma_personal_preimage_injective(first: Seq<u8>, second: Seq<u8>)
    requires
        personal_preimage(first) == personal_preimage(second),
    ensures
        first == second,
{
    let header = personal_header();
    let a = decimal_digits(first.len()) + first;
    let b = decimal_digits(second.len()) + second;
    assert(personal_preimage(first) == header + a);
    assert(personal_preimage(second) == header + b);
    assert(a == (header + a).skip(header.len() as int));
    assert(b == (header + b).skip(header.len() as int));
    if first.len() <= second.len() {
        lemma_decimal_digits_grow(first.len(), second.len());
    } else {
        lemma_decimal_digits_grow(second.len(), first.len());
    }
    assert(a.len() == b.len());
    assert(first.len() == second.len());
    assert(first == a.skip(decimal_digits(first.len()).len() as int));
    assert(second == b.skip(decimal_digits(second.len()).len() as int));
}

/// Builds the bytes that are hashed for a personal message.
pub fn personal_message_preimage(message: &[u8]) -> (out: Vec<u8>)
    ensures
        out@ == personal_preimage(message@),
{
    let mut out: Vec<u8> = Vec::new();
    append_bytes(&mut out, "\x19Ethereum Signed Message:\n".as_bytes());
    push_decimal(message.len(), &mut out);
    append_bytes(&mut out, message);
    out
}

/// The 32 bytes that were signed, by mode; `None` where `Raw32` is asked for
/// a message that is not 32 bytes long.
pub open spec fn prehash_of(message: Seq<u8>, mode: MessageMode) -> Option<Seq<u8>> {
    match mode {
        MessageMode::Raw32 => if message.len() == 32 {
            Some(message)
        } else {
            None
        },
        MessageMode::Keccak => Some(keccak256_of(message)),
        MessageMode::Personal => Some(keccak256_of(personal_preimage(message))),
    }
}

/// Computes the 32 bytes that were signed.
pub fn signing_prehash(message: &[u8], mode: MessageMode) -> (res: Option<Digest>)
    ensures
        match res {
            Some(hash) => prehash_of(message@, mode) == Some(hash@),
            None => prehash_of(message@, mode) is None,
        },
{
    match mode {
        MessageMode::Raw32 => {
            if message.len() != 32 {
                return None;
            }
            let mut raw: [u8; 32] = [0u8; 32];
            let mut i: usize = 0;
            while i < 32
                invariant
                    0 <= i <= 32,
                    message@.len() == 32,
                    forall|j: int| 0 <= j < i ==> raw@[j] == message@[j],
                decreases 32 - i,
            {
                raw[i] = message[i];
                i = i + 1;
            }
            assert(raw@ =~= message@);
            Some(Digest(raw))
        },
        MessageMode::Keccak => Some(keccak256(message)),
        MessageMode::Personal => {
            let preimage = personal_message_preimage(message);
            Some(keccak256(preimage.as_slice()))
        },
    }
}

/// Whether `res` is the right answer where recovery gave `recovered`, an
/// address or none, and `expected` is the account that should have signed.
pub open spec fn concludes(
    res: Result<bool, VerificationError>,
    recovered: Option<Seq<u8>>,
    expected: Address,
) -> bool {
    match res {
        Ok(accepted) => accepted && recovered == Some(expected@),
        Err(VerificationError::InvalidPrehashLength) => false,
        Err(VerificationError::RecoveryFailed) => recovered is None,
        Err(VerificationError::SignerMismatch { recovered: found, expected: wanted }) => {
            &&& recovered == Some(found@)
            &&& found@ != expected@
            &&& wanted == expected
        },
    }
}

/// Whether `res` is the right answer to the question if `signature` is
/// that of `expected` over `message` in the given mode.
///
/// `Ok(true)` stands for a signature of `expected`. There is no `Ok(false)`:
/// each way of not being one is an error of its own.
pub open spec fn verifies(
    res: Result<bool, VerificationError>,
    message: Seq<u8>,
    signature: Signature,
    expected: Address,
    mode: MessageMode,
) -> bool {
    match prehash_of(message, mode) {
        None => res == Err::<bool, VerificationError>(VerificationError::InvalidPrehashLength),
        Some(prehash) => concludes(
            res,
            recovered_signer(signature.r@, signature.s@, signature.y_parity, prehash),
            expected,
        ),
    }
}

/// The view of what recovery returned: the address, or none.
pub open spec fn recovery_view(recovered: Result<Address, alloy_primitives::SignatureError>) -> Option<
    Seq<u8>,
> {
    match recovered {
        Ok(signer) => Some(signer@),
        Err(_) => None,
    }
}

/// Compares what recovery returned with the expected signer.
pub fn check_recovered(
    recovered: Result<Address, alloy_primitives::SignatureError>,
    expected: Address,
) -> (res: Result<bool, VerificationError>)
    ensures
        concludes(res, recovery_view(recovered), expected),
{
    match recovered {
        Err(_) => Err(VerificationError::RecoveryFailed),
        Ok(signer) => {
            if signer == expected {
                Ok(true)
            } else {
                Err(VerificationError::SignerMismatch { recovered: signer, expected })
            }
        },
    }
}

/// Recovers the signer of `message` from `signature` and compares it with
/// `expected`.
pub fn verify_signature(
    message: Vec<u8>,
    signature: Signature,
    expected: Address,
    mode: MessageMode,
) -> (res: Result<bool, VerificationError>)
    ensures
        verifies(res, message@, signature, expected, mode),
{
    match signing_prehash(message.as_slice(), mode) {
        None => Err(VerificationError::InvalidPrehashLength),
        Some(prehash) => check_recovered(recover_address_from_prehash(&signature, &prehash), expected),
    }
}

impl VerificationError {
    /// The wording of the error, addresses in hexadecimal behind `0x`.
    pub open spec fn message_text(self) -> Seq<char> {
        match self {
            VerificationError::InvalidPrehashLength => "Raw32 mode requires a 32-byte prehash"@,
            VerificationError::RecoveryFailed => "recovery failed"@,
            VerificationError::SignerMismatch { recovered, expected } => "Recovered address 0x"@
                + hex_text(recovered@) + " does not match expected address 0x"@ + hex_text(
                expected@,
            ),
        }
    }

    /// Words the error for a reader.
    pub fn message(&self) -> (msg: String)
        ensures
            msg@ == self.message_text(),
    {
        match self {
            VerificationError::InvalidPrehashLength => String::from_str(
                "Raw32 mode requires a 32-byte prehash",
            ),
            VerificationError::RecoveryFailed => String::from_str("recovery failed"),
            VerificationError::SignerMismatch { recovered, expected } => {
                let mut msg = String::from_str("Recovered address 0x");
                append_hex(recovered.0.as_slice(), &mut msg);
                msg.append(" does not match expected address 0x");
                append_hex(expected.0.as_slice(), &mut msg);
                msg
            },
        }
    }
}

} // verus!
