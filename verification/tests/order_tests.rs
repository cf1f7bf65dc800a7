use gd_codec::error::CodecError;
use gd_codec::order::{resolve, ByteOrder, DEFAULT_BYTE_ORDER};

#[test]
fn resolve_none_gives_default_little() {
    assert_eq!(resolve(None), Ok(ByteOrder::Little));
    assert_eq!(DEFAULT_BYTE_ORDER, ByteOrder::Little);
}

#[test]
fn resolve_less_than_gives_little() {
    assert_eq!(resolve(Some("<")), Ok(ByteOrder::Little));
}

#[test]
fn resolve_greater_than_gives_big() {
    assert_eq!(resolve(Some(">")), Ok(ByteOrder::Big));
}

#[test]
fn resolve_other_string_fails() {
    assert_eq!(resolve(Some("x")), Err(CodecError::InvalidByteOrder));
}

#[test]
fn try_from_string_parses_canonical_codes() {
    assert_eq!(ByteOrder::try_from_string("<"), Ok(ByteOrder::Little));
    assert_eq!(ByteOrder::try_from_string(">"), Ok(ByteOrder::Big));
}

#[test]
fn try_from_string_rejects_empty() {
    assert_eq!(
        ByteOrder::try_from_string(""),
        Err(CodecError::InvalidByteOrder)
    );
}

#[test]
fn try_from_string_rejects_longer_strings() {
    assert_eq!(
        ByteOrder::try_from_string("<<"),
        Err(CodecError::InvalidByteOrder)
    );
    assert_eq!(
        ByteOrder::try_from_string("little"),
        Err(CodecError::InvalidByteOrder)
    );
}

#[test]
fn error_messages_are_fixed() {
    assert_eq!(CodecError::InvalidByteOrder.message(), "unknown byte order");
    assert_eq!(CodecError::NotEnoughData.message(), "not enough data");
    assert_eq!(CodecError::InvalidKey.message(), "empty key");
}
