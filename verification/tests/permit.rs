use alloy_primitives::hex;
use single_sign::permit::{
    assemble_permit, is_transfer_permit, names_transfer_permit, permit_call,
    permit_transfer_fields, PermitTransfer, REQUESTED_AMOUNT,
};
use single_sign::primitives::Address;
use single_sign::typed_data::{read_typed_data, SchemaError};

const PERMIT: &str = r#"{"types":{"EIP712Domain":[{"name":"name","type":"string"},{"name":"chainId","type":"uint256"},{"name":"verifyingContract","type":"address"}],"TokenPermissions":[{"name":"token","type":"address"},{"name":"amount","type":"uint256"}],"PermitTransferFrom":[{"name":"permitted","type":"TokenPermissions"},{"name":"spender","type":"address"},{"name":"nonce","type":"uint256"},{"name":"deadline","type":"uint256"}]},"primaryType":"PermitTransferFrom","domain":{"name":"Permit2","chainId":1,"verifyingContract":"0x000000000022D473030F116dDEE9F6B43aC78BA3"},"message":{"permitted":{"token":"0xA0b86991c6218b36c1d19D4a2e9Eb0cE3606eB48","amount":1000},"spender":"0x1111111111111111111111111111111111111111","nonce":7,"deadline":1900000000}}"#;

const NOTE: &str = r#"{"types":{"EIP712Domain":[],"Note":[{"name":"text","type":"string"}]},"primaryType":"Note","domain":{},"message":{"text":"first"}}"#;

fn address(text: &str) -> Address {
    let bytes = hex::decode(text).unwrap();
    let mut out = [0u8; 20];
    out.copy_from_slice(&bytes);
    Address(out)
}

#[test]
fn primary_type_tells_a_permit_from_other_documents() {
    assert!(is_transfer_permit(&read_typed_data(PERMIT).unwrap()));
    assert!(!is_transfer_permit(&read_typed_data(NOTE).unwrap()));
    let lower = PERMIT.replace("PermitTransferFrom", "permitTransferFrom");
    assert!(!is_transfer_permit(&read_typed_data(&lower).unwrap()));
}

#[test]
fn fields_of_a_permit_are_read_from_its_message() {
    let permit = permit_transfer_fields(&read_typed_data(PERMIT).unwrap()).unwrap();
    assert_eq!(permit.token, address("a0b86991c6218b36c1d19d4a2e9eb0ce3606eb48"));
    assert_eq!(permit.amount, 1000);
    assert_eq!(permit.nonce, 7);
    assert_eq!(permit.deadline, 1_900_000_000);
}

#[test]
fn permit_without_a_field_is_incomplete() {
    let document = read_typed_data(NOTE).unwrap();
    assert!(matches!(permit_transfer_fields(&document), Err(SchemaError::IncompletePermit)));
    for (from, to) in [
        (r#""nonce":7"#, r#""nonce":"7""#),
        (r#""amount":1000"#, r#""amount":-1"#),
        (r#""deadline":1900000000"#, r#""other":1900000000"#),
        (r#""token":"0xA0b86991c6218b36c1d19D4a2e9Eb0cE3606eB48""#, r#""token":"0xA0b8""#),
        (r#""token":"0xA0b86991c6218b36c1d19D4a2e9Eb0cE3606eB48""#, r#""token":5"#),
    ] {
        let mut document = read_typed_data(PERMIT).unwrap();
        let changed = serde_json::to_string(&document.message).unwrap().replace(from, to);
        assert_ne!(changed, serde_json::to_string(&document.message).unwrap());
        document.message = serde_json::from_str(&changed).unwrap();
        assert!(matches!(permit_transfer_fields(&document), Err(SchemaError::IncompletePermit)));
    }
}

#[test]
fn permit_is_assembled_only_from_four_fields() {
    let token = address("a0b86991c6218b36c1d19d4a2e9eb0ce3606eb48");
    let permit = assemble_permit(Some(Ok(token)), Some(1), Some(2), Some(3)).unwrap();
    assert_eq!(permit.token, token);
    assert_eq!((permit.amount, permit.nonce, permit.deadline), (1, 2, 3));
    assert!(assemble_permit(None, Some(1), Some(2), Some(3)).is_err());
    assert!(assemble_permit(Some(Ok(token)), None, Some(2), Some(3)).is_err());
    assert!(assemble_permit(Some(Ok(token)), Some(1), None, Some(3)).is_err());
    assert!(assemble_permit(Some(Ok(token)), Some(1), Some(2), None).is_err());
    let bad = Some(Err(hex::FromHexError::OddLength));
    assert!(matches!(
        assemble_permit(bad, Some(1), Some(2), Some(3)),
        Err(SchemaError::IncompletePermit)
    ));
}

#[test]
fn call_goes_to_the_signer_for_the_fixed_amount() {
    let permit = PermitTransfer {
        token: address("a0b86991c6218b36c1d19d4a2e9eb0ce3606eb48"),
        amount: 1000,
        nonce: 7,
        deadline: 1_900_000_000,
    };
    let signer = Address([0x22u8; 20]);
    let spender = Address([0x33u8; 20]);
    let call = permit_call(permit, signer, spender, vec![1, 2, 3]);
    assert_eq!(call.token, permit.token);
    assert_eq!(call.amount, 1000);
    assert_eq!(call.nonce, 7);
    assert_eq!(call.deadline, 1_900_000_000);
    assert_eq!(call.recipient, signer);
    assert_eq!(call.spender, spender);
    assert_eq!(call.requested_amount, 1_000_000_000_000_000_000u128);
    assert_eq!(call.requested_amount, REQUESTED_AMOUNT);
    assert_eq!(call.authorization, vec![1, 2, 3]);
}

#[test]
fn only_the_exact_name_marks_a_permit() {
    assert!(names_transfer_permit(&String::from("PermitTransferFrom")));
    assert!(!names_transfer_permit(&String::from("PermitTransferFrom ")));
    assert!(!names_transfer_permit(&String::from("PermitBatchTransferFrom")));
    assert!(!names_transfer_permit(&String::from("")));
}
