use lora_link::error::{mkerror, ErrorKind, RadioError};
use lora_link::message::MessageType;

#[test]
fn mkerror_carries_message() {
    let err = mkerror("Unexpected response");
    assert_eq!(err.kind(), ErrorKind::Other);
    assert_eq!(err.message, "Unexpected response".to_string());
}

#[test]
fn error_kinds_are_distinct() {
    let err = RadioError::new(ErrorKind::Framing, "short frame");
    assert_eq!(err.kind(), ErrorKind::Framing);
    assert_ne!(err.kind(), ErrorKind::Config);
}

#[test]
fn broadcast_tag_byte() {
    assert_eq!(MessageType::Broadcast.tag(), 1u8);
}
