//! The one kind of document that the host acts on: a permit to transfer a
//! token, and the call that is made for it.

use vstd::prelude::*;
use vstd::string::StringExecFns;
use crate::primitives::Address;
use crate::typed_data::SchemaError;

verus! {

/// `serde_json::Value`, a JSON value. It is carried through as it is: what
/// the library knows of one, it knows through the functions below.
#[verifier::external_type_specification]
#[verifier::external_body]
pub struct ExJsonValue(serde_json::Value);

/// `alloy_primitives::hex::FromHexError`, taken as it comes and never
/// looked into.
#[verifier::external_type_specification]
#[verifier::external_body]
pub struct ExFromHexError(alloy_primitives::hex::FromHexError);

/// What a transfer permit says: which token, how much of it, and the nonce
/// and deadline of the permit.
#[derive(Debug, Clone, Copy)]
pub struct PermitTransfer {
    pub token: Address,
    pub amount: u64,
    pub nonce: u64,
    pub deadline: u64,
}

/// The call that the host makes for a transfer permit.
#[derive(Debug, Clone)]
pub struct PermitCall {
    pub token: Address,
    pub amount: u64,
    pub nonce: u64,
    pub deadline: u64,
    /// Who receives the tokens: the signer.
    pub recipient: Address,
    /// How much is asked for: always [`REQUESTED_AMOUNT`].
    pub requested_amount: u128,
    /// The account on whose behalf the call is made.
    pub spender: Address,
    /// The proof, which stands in for the signature.
    pub authorization: Vec<u8>,
}

/// The amount that every call asks for.
pub const REQUESTED_AMOUNT: u128 = 1_000_000_000_000_000_000u128;

/// The name of a document's primary type.
pub uninterp spec fn primary_type_of(document: alloy_dyn_abi::TypedData) -> Seq<char>;

/// The message of a document, as a JSON value.
pub uninterp spec fn message_of(document: alloy_dyn_abi::TypedData) -> serde_json::Value;

/// The member of a JSON object under a key; JSON `null` where the value is
/// no object or has no such member.
pub uninterp spec fn json_member_of(value: serde_json::Value, key: Seq<char>) -> serde_json::Value;

/// The number that a JSON value is, where it is an integer from 0 to
/// 2^64 - 1.
pub uninterp spec fn json_number_of(value: serde_json::Value) -> Option<u64>;

/// The text that a JSON value is, where it is a string.
pub uninterp spec fn json_text_of(value: serde_json::Value) -> Option<Seq<char>>;

/// The address that a text in hexadecimal stands for, where it stands for
/// one.
pub uninterp spec fn address_of_text(text: Seq<char>) -> Option<Seq<u8>>;

/// Reads the field `primary_type` of an `alloy_dyn_abi::TypedData`.
#[verifier::external_body]
fn primary_type(document: &alloy_dyn_abi::TypedData) -> (name: String)
    ensures
        name@ == primary_type_of(*document),
{
    document.primary_type.clone()
}

/// Reads the field `message` of an `alloy_dyn_abi::TypedData`.
#[verifier::external_body]
fn message(document: &alloy_dyn_abi::TypedData) -> (value: &serde_json::Value)
    ensures
        *value == message_of(*document),
{
    &document.message
}

/// Indexes a `serde_json::Value` by a string, which never fails: what is
/// missing reads as `null`.
#[verifier::external_body]
fn json_member<'a>(value: &'a serde_json::Value, key: &str) -> (member: &'a serde_json::Value)
    ensures
        *member == json_member_of(*value, key@),
{
    &value[key]
}

/// Calls `serde_json::Value::as_u64`.
#[verifier::external_body]
fn json_number(value: &serde_json::Value) -> (number: Option<u64>)
    ensures
        number == json_number_of(*value),
{
    value.as_u64()
}

/// Calls `serde_json::Value::as_str`.
#[verifier::external_body]
fn json_text(value: &serde_json::Value) -> (text: Option<&str>)
    ensures
        match text {
            Some(t) => json_text_of(*value) == Some(t@),
            None => json_text_of(*value) is None,
        },
{
    value.as_str()
}

/// Calls `alloy_primitives::Address::from_str`, which reads forty
/// hexadecimal digits behind an optional `0x`.
#[verifier::external_body]
fn parse_address(text: &str) -> (res: Result<Address, alloy_primitives::hex::FromHexError>)
    ensures
        match res {
            Ok(address) => address_of_text(text@) == Some(address@),
            Err(_) => address_of_text(text@) is None,
        },
{
    match <alloy_primitives::Address as core::str::FromStr>::from_str(text) {
        Ok(address) => Ok(Address(address.into_array())),
        Err(e) => Err(e),
    }
}

/// The primary type that marks a transfer permit.
pub open spec fn transfer_permit_type() -> Seq<char> {
    "PermitTransferFrom"@
}

/// Whether a primary type is that of a transfer permit.
pub fn names_transfer_permit(primary_type: &String) -> (yes: bool)
    ensures
        yes == (primary_type@ == transfer_permit_type()),
{
    *primary_type == String::from_str("PermitTransferFrom")
}

/// Whether a document is a transfer permit.
pub fn is_transfer_permit(document: &alloy_dyn_abi::TypedData) -> (yes: bool)
    ensures
        yes == (primary_type_of(*document) == transfer_permit_type()),
{
    names_transfer_permit(&primary_type(document))
}

/// Puts a permit together from what was read of its four fields.
pub fn assemble_permit(
    token: Option<Result<Address, alloy_primitives::hex::FromHexError>>,
    amount: Option<u64>,
    nonce: Option<u64>,
    deadline: Option<u64>,
) -> (res: Result<PermitTransfer, SchemaError>)
    ensures
        match (token, amount, nonce, deadline) {
            (Some(Ok(token)), Some(amount), Some(nonce), Some(deadline)) => res == Ok::<
                PermitTransfer,
                SchemaError,
            >(PermitTransfer { token, amount, nonce, deadline }),
            _ => res == Err::<PermitTransfer, SchemaError>(SchemaError::IncompletePermit),
        },
{
    match (token, amount, nonce, deadline) {
        (Some(Ok(token)), Some(amount), Some(nonce), Some(deadline)) => Ok(
            PermitTransfer { token, amount, nonce, deadline },
        ),
        _ => Err(SchemaError::IncompletePermit),
    }
}

/// What the message of a document says as a transfer permit, in the terms
/// of the values read from it; `None` where a field is missing or of the
/// wrong kind.
pub open spec fn permit_fields_of(document: alloy_dyn_abi::TypedData) -> Option<
    (Seq<u8>, u64, u64, u64),
> {
    let message = message_of(document);
    let permitted = json_member_of(message, "permitted"@);
    let token = match json_text_of(json_member_of(permitted, "token"@)) {
        Some(text) => address_of_text(text),
        None => None,
    };
    match (
        token,
        json_number_of(json_member_of(permitted, "amount"@)),
        json_number_of(json_member_of(message, "nonce"@)),
        json_number_of(json_member_of(message, "deadline"@)),
    ) {
        (Some(token), Some(amount), Some(nonce), Some(deadline)) => Some(
            (token, amount, nonce, deadline),
        ),
        _ => None,
    }
}

/// Whether `res` is the right reading of a document as a transfer permit.
pub open spec fn is_permit_of(
    res: Result<PermitTransfer, SchemaError>,
    document: alloy_dyn_abi::TypedData,
) -> bool {
    match permit_fields_of(document) {
        Some((token, amount, nonce, deadline)) => {
            &&& res matches Ok(permit)
            &&& permit.token@ == token
            &&& permit.amount == amount
            &&& permit.nonce == nonce
            &&& permit.deadline == deadline
        },
        None => res == Err::<PermitTransfer, SchemaError>(SchemaError::IncompletePermit),
    }
}

/// Reads the token, amount, nonce and deadline of a transfer permit from the
/// message of its document.
pub fn permit_transfer_fields(document: &alloy_dyn_abi::TypedData) -> (res: Result<
    PermitTransfer,
    SchemaError,
>)
    ensures
        is_permit_of(res, *document),
{
    let message = message(document);
    let permitted = json_member(message, "permitted");
    let token = match json_text(json_member(permitted, "token")) {
        Some(text) => Some(parse_address(text)),
        None => None,
    };
    assemble_permit(
        token,
        json_number(json_member(permitted, "amount")),
        json_number(json_member(message, "nonce")),
        json_number(json_member(message, "deadline")),
    )
}

impl View for PermitCall {
    type V = (PermitTransfer, Address, u128, Address, Seq<u8>);

    /// The permit, the recipient, the requested amount, the spender and the
    /// authorization.
    open spec fn view(&self) -> Self::V {
        (
            PermitTransfer {
                token: self.token,
                amount: self.amount,
                nonce: self.nonce,
                deadline: self.deadline,
            },
            self.recipient,
            self.requested_amount,
            self.spender,
            self.authorization@,
        )
    }
}

/// The call for a permit: the tokens go to the signer, the fixed amount is
/// asked for, and the proof authorizes it.
pub fn permit_call(permit: PermitTransfer, signer: Address, spender: Address, seal: Vec<u8>) -> (call:
    PermitCall)
    ensures
        call@ == (permit, signer, REQUESTED_AMOUNT, spender, seal@),
{
    PermitCall {
        token: permit.token,
        amount: permit.amount,
        nonce: permit.nonce,
        deadline: permit.deadline,
        recipient: signer,
        requested_amount: REQUESTED_AMOUNT,
        spender,
        authorization: seal,
    }
}

} // verus!
