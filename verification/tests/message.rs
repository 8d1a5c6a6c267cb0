use bytes::BytesMut;
use toy_turn::errors::StunError;
use toy_turn::message::{Message, MessageClass, MessageMethod, MessageType, MAGIC_COOKIE};

#[test]
fn test_parse_stun_message_header() {
    // A Binding request header: type, length, cookie, transaction id.
    let mut data = BytesMut::new();

    // Message Type (Binding Request: 0x0001)
    data.extend_from_slice(&[0x00, 0x01]);

    // Message Length (0 for header only)
    data.extend_from_slice(&[0x00, 0x00]);

    // Magic Cookie
    data.extend_from_slice(&MAGIC_COOKIE.to_be_bytes());

    // Transaction ID (96 bits = 12 bytes)
    data.extend_from_slice(&[
        0x01, 0x02, 0x03, 0x04, 0x05, 0x06, 0x07, 0x08, 0x09, 0x0a, 0x0b, 0x0c,
    ]);

    let message = Message::parse(&data).expect("Failed to parse STUN message");

    assert_eq!(message.message_type.method(), MessageMethod::Binding);
    assert_eq!(message.message_type.class(), MessageClass::Request);
    assert_eq!(message.length, 0);
    assert_eq!(
        message.transaction_id,
        [0x01, 0x02, 0x03, 0x04, 0x05, 0x06, 0x07, 0x08, 0x09, 0x0a, 0x0b, 0x0c]
    );
}

#[test]
fn test_parse_invalid_magic_cookie() {
    let mut data = BytesMut::new();

    // Message Type
    data.extend_from_slice(&[0x00, 0x01]);

    // Message Length
    data.extend_from_slice(&[0x00, 0x00]);

    // Invalid Magic Cookie
    data.extend_from_slice(&[0x00, 0x00, 0x00, 0x00]);

    // Transaction ID
    data.extend_from_slice(&[
        0x01, 0x02, 0x03, 0x04, 0x05, 0x06, 0x07, 0x08, 0x09, 0x0a, 0x0b, 0x0c,
    ]);

    let result = Message::parse(&data);
    assert!(result.is_err());
    assert!(matches!(result.unwrap_err(), StunError::InvalidMagicCookie));
}

#[test]
fn test_message_type_encoding() {
    // Binding Request: Method=0x0001, Class=Request(00)
    let msg_type = MessageType::new(MessageMethod::Binding, MessageClass::Request);
    assert_eq!(msg_type.as_u16(), 0x0001);

    // Binding Success Response: Method=0x0001, Class=Success(01)
    let msg_type = MessageType::new(MessageMethod::Binding, MessageClass::SuccessResponse);
    assert_eq!(msg_type.as_u16(), 0x0101);

    // Binding Error Response: Method=0x0001, Class=Error(11)
    let msg_type = MessageType::new(MessageMethod::Binding, MessageClass::ErrorResponse);
    assert_eq!(msg_type.as_u16(), 0x0111);

    // Allocate Request: Method=0x0003, Class=Request(00)
    let msg_type = MessageType::new(MessageMethod::Allocate, MessageClass::Request);
    assert_eq!(msg_type.as_u16(), 0x0003);
}

#[test]
fn test_serialize_stun_message() {
    let mut message = Message::new(MessageType::new(MessageMethod::Binding, MessageClass::Request));
    message.transaction_id = [0x01, 0x02, 0x03, 0x04, 0x05, 0x06, 0x07, 0x08, 0x09, 0x0a, 0x0b, 0x0c];

    let serialized = message.serialize();

    // Verify header
    assert_eq!(&serialized[0..2], &[0x00, 0x01]); // Message Type
    assert_eq!(&serialized[2..4], &[0x00, 0x00]); // Length
    assert_eq!(&serialized[4..8], &MAGIC_COOKIE.to_be_bytes()); // Magic Cookie
    assert_eq!(&serialized[8..20], &message.transaction_id); // Transaction ID
}

#[test]
fn test_message_too_short() {
    let data = vec![0u8; 10]; // Less than the header size
    let result = Message::parse(&data);
    assert!(result.is_err());
    assert!(matches!(result.unwrap_err(), StunError::MessageTooShort));
}

#[test]
fn test_round_trip_serialization() {
    let original = Message::new(MessageType::new(MessageMethod::Allocate, MessageClass::Request));
    let serialized = original.serialize();
    let parsed = Message::parse(&serialized).expect("Failed to parse serialized message");

    assert_eq!(parsed.message_type.method(), original.message_type.method());
    assert_eq!(parsed.message_type.class(), original.message_type.class());
    assert_eq!(parsed.transaction_id, original.transaction_id);
}

#[test]
fn test_parse_unknown_method() {
    let mut data = BytesMut::new();
    data.extend_from_slice(&[0x00, 0x02]); // method 2 is not supported
    data.extend_from_slice(&[0x00, 0x00]);
    data.extend_from_slice(&MAGIC_COOKIE.to_be_bytes());
    data.extend_from_slice(&[0u8; 12]);

    let result = Message::parse(&data);
    assert!(result.is_err());
    assert!(matches!(result.unwrap_err(), StunError::InvalidMessageType));
}

#[test]
fn test_parse_declared_length_past_buffer() {
    let mut data = BytesMut::new();
    data.extend_from_slice(&[0x00, 0x01]);
    data.extend_from_slice(&[0x00, 0x08]); // claims 8 attribute bytes
    data.extend_from_slice(&MAGIC_COOKIE.to_be_bytes());
    data.extend_from_slice(&[0u8; 12]);
    data.extend_from_slice(&[0u8; 4]); // only 4 present

    let result = Message::parse(&data);
    assert!(result.is_err());
    assert!(matches!(result.unwrap_err(), StunError::InvalidMessageLength));
}

#[test]
fn test_round_trip_with_attributes() {
    let mut message = Message::new(MessageType::new(MessageMethod::Send, MessageClass::Indication));
    let attr = toy_turn::attributes::RawAttribute::new(0x0013, b"abc".to_vec());
    message.attributes = attr.serialize();
    message.length = message.attributes.len() as u16;

    let serialized = message.serialize();
    let parsed = Message::parse(&serialized).unwrap();
    assert_eq!(parsed.message_type.method(), MessageMethod::Send);
    assert_eq!(parsed.message_type.class(), MessageClass::Indication);
    assert_eq!(parsed.length, 8);
    assert_eq!(parsed.attributes, message.attributes);
}
