use alloy_primitives::hex;
use single_sign::primitives::Digest;
use single_sign::scanner::DigestRange;
use single_sign::typed_data::{
    digest_from_hash, digest_of_document, document_from_parse, read_document, read_typed_data,
    verify_digest, SchemaError,
};

const MAIL: &str = r#"{"domain":{},"types":{"EIP712Domain":[],"Person":[{"name":"name","type":"string"},{"name":"wallet","type":"address"}],"Mail":[{"name":"from","type":"Person"},{"name":"to","type":"Person"},{"name":"contents","type":"string"}]},"primaryType":"Mail","message":{"from":{"name":"Cow","wallet":"0xCD2a3d9F938E13CD947Ec05AbC7FE734Df8DD826"},"to":{"name":"Bob","wallet":"0xbBbBBBBbbBBBbbbBbbBbbbbBBbBbbbbBbBbbBBbB"},"contents":"Hello, Bob!"}}"#;

const FULL_DOMAIN: &str = r#"{"types":{"EIP712Domain":[{"name":"name","type":"string"},{"name":"version","type":"string"},{"name":"chainId","type":"uint256"},{"name":"verifyingContract","type":"address"},{"name":"salt","type":"bytes32"}]},"primaryType":"EIP712Domain","domain":{"name":"example.metamask.io","version":"1","chainId":1,"verifyingContract":"0x0000000000000000000000000000000000000000"},"message":{}}"#;

fn digest(text: &str) -> Digest {
    let bytes = hex::decode(text).unwrap();
    let mut out = [0u8; 32];
    out.copy_from_slice(&bytes);
    Digest(out)
}

#[test]
fn digest_of_mail_document() {
    assert_eq!(
        verify_digest(MAIL),
        Ok(digest("25c3d40a39e639a4d0b6e4d2ace5e1281e039c88494d97d8d08f99a6ea75d775"))
    );
}

#[test]
fn digest_of_domain_only_document() {
    assert_eq!(
        verify_digest(FULL_DOMAIN),
        Ok(digest("122d1c8ef94b76dad44dcb03fa772361e20855c63311a15d5afe02d1b38f6077"))
    );
}

#[test]
fn digest_is_deterministic() {
    assert_eq!(verify_digest(MAIL), verify_digest(MAIL));
    assert_ne!(verify_digest(MAIL), verify_digest(FULL_DOMAIN));
}

#[test]
fn digest_depends_on_the_message() {
    let other = MAIL.replace("Hello, Bob!", "Hello, Bob?");
    let first = verify_digest(MAIL).unwrap();
    let second = verify_digest(&other).unwrap();
    assert_ne!(first, second);
}

#[test]
fn text_that_is_not_json_is_refused() {
    assert_eq!(verify_digest("not json"), Err(SchemaError::InvalidTypedData));
    assert_eq!(verify_digest(""), Err(SchemaError::InvalidTypedData));
    assert_eq!(verify_digest("{"), Err(SchemaError::InvalidTypedData));
}

#[test]
fn json_without_the_parts_of_typed_data_is_refused() {
    assert_eq!(verify_digest(r#"{"a":1}"#), Err(SchemaError::InvalidTypedData));
    assert_eq!(
        verify_digest(r#"{"types":{"EIP712Domain":[]},"domain":{},"message":{}}"#),
        Err(SchemaError::InvalidTypedData)
    );
}

#[test]
fn document_with_unknown_primary_type_has_no_digest() {
    let json = r#"{"types":{"EIP712Domain":[]},"primaryType":"Missing","domain":{},"message":{}}"#;
    assert!(read_typed_data(json).is_ok());
    assert_eq!(verify_digest(json), Err(SchemaError::DigestFailed));
}

#[test]
fn document_with_ill_typed_message_has_no_digest() {
    let json = MAIL.replace(r#""contents":"Hello, Bob!""#, r#""contents":{"x":1}"#);
    assert_eq!(verify_digest(&json), Err(SchemaError::DigestFailed));
}

#[test]
fn outcomes_of_parsing_and_hashing_are_mapped() {
    let bad: Result<alloy_dyn_abi::TypedData, serde_json::Error> =
        serde_json::from_str("not json");
    assert!(matches!(document_from_parse(bad), Err(SchemaError::InvalidTypedData)));
    let good: Result<alloy_dyn_abi::TypedData, serde_json::Error> = serde_json::from_str(MAIL);
    let document = document_from_parse(good).unwrap();
    assert_eq!(document.primary_type, "Mail");
    assert_eq!(
        digest_of_document(&document),
        Ok(digest("25c3d40a39e639a4d0b6e4d2ace5e1281e039c88494d97d8d08f99a6ea75d775"))
    );
    let d = Digest([7u8; 32]);
    assert_eq!(digest_from_hash(Ok(d)), Ok(d));
    let failed = Err(alloy_dyn_abi::Error::TypeMismatch {
        expected: String::from("a"),
        actual: String::from("b"),
    });
    assert_eq!(digest_from_hash(failed), Err(SchemaError::DigestFailed));
}

#[test]
fn document_is_read_from_under_its_range() {
    let blob = format!("  {}{}", MAIL, FULL_DOMAIN);
    let range = DigestRange { start: 2, end: 2 + MAIL.len() };
    let document = read_document(blob.as_bytes(), range).unwrap();
    assert_eq!(document.primary_type, "Mail");
    let range = DigestRange { start: 2 + MAIL.len(), end: blob.len() };
    let document = read_document(blob.as_bytes(), range).unwrap();
    assert_eq!(document.primary_type, "EIP712Domain");
}

#[test]
fn range_outside_the_blob_is_refused() {
    let blob = MAIL.as_bytes();
    let beyond = DigestRange { start: 0, end: blob.len() + 1 };
    assert!(matches!(read_document(blob, beyond), Err(SchemaError::RangeOutOfBounds)));
    let reversed = DigestRange { start: 5, end: 4 };
    assert!(matches!(read_document(blob, reversed), Err(SchemaError::RangeOutOfBounds)));
    let empty = DigestRange { start: 3, end: 3 };
    assert!(matches!(read_document(blob, empty), Err(SchemaError::InvalidTypedData)));
}

#[test]
fn bytes_that_are_no_text_are_refused() {
    let blob = [b'{', 0xff, 0xfe, b'}'];
    let range = DigestRange { start: 0, end: 4 };
    assert!(matches!(read_document(&blob, range), Err(SchemaError::NotText)));
    let cut = "{\"a\":\"é\"}".as_bytes();
    let range = DigestRange { start: 0, end: 7 };
    assert!(matches!(read_document(cut, range), Err(SchemaError::NotText)));
}

#[test]
fn schema_error_messages() {
    assert_eq!(SchemaError::InvalidTypedData.message(), "Invalid EIP-712 typed data JSON");
    assert_eq!(SchemaError::DigestFailed.message(), "Failed computing EIP-712 digest");
    assert_eq!(SchemaError::RangeOutOfBounds.message(), "Document range lies outside the blob");
    assert_eq!(SchemaError::NotText.message(), "Document is not UTF-8 text");
    assert_eq!(
        SchemaError::IncompletePermit.message(),
        "Permit lacks its token, amount, nonce or deadline"
    );
}
