use toy_turn::attributes::{AttributeType, RawAttribute};
use toy_turn::integrity::{
    append_integrity, calculate_message_integrity, verify_message_integrity, Credentials,
};
use toy_turn::message::{Message, MessageClass, MessageMethod, MessageType};

#[test]
fn test_credentials() {
    let creds = Credentials::new("user".to_string(), "pass".to_string(), "realm".to_string());

    assert_eq!(creds.username, "user");
    assert_eq!(creds.password, "pass");
    assert_eq!(creds.realm, "realm");

    let key = creds.compute_key();
    assert!(!key.is_empty());
}

#[test]
fn test_compute_key_is_md5() {
    let creds = Credentials::new("user".to_string(), "pass".to_string(), "realm".to_string());
    let key = creds.compute_key();
    assert_eq!(key.len(), 16);
    assert_eq!(key, md5::compute(b"user:realm:pass").0.to_vec());
}

#[test]
fn test_calculate_message_integrity() {
    let mut message = Message::new(MessageType::new(MessageMethod::Binding, MessageClass::Request));
    message.transaction_id = [1, 2, 3, 4, 5, 6, 7, 8, 9, 10, 11, 12];

    let key = b"test-key";
    let integrity = calculate_message_integrity(&message, key).unwrap();

    // HMAC-SHA1 produces 20 bytes
    assert_eq!(integrity.len(), 20);
}

#[test]
fn test_message_integrity_round_trip() {
    let mut message = Message::new(MessageType::new(MessageMethod::Allocate, MessageClass::Request));

    // Add some attributes
    let username_attr = RawAttribute::new(AttributeType::Username.as_u16(), b"testuser".to_vec());
    message.attributes.extend(username_attr.serialize());
    message.length = message.attributes.len() as u16;

    let key = b"secret-key";

    // Calculate integrity
    let integrity = calculate_message_integrity(&message, key).unwrap();

    // Add MESSAGE-INTEGRITY attribute to the message
    let integrity_attr = RawAttribute::new(AttributeType::MessageIntegrity.as_u16(), integrity);
    message.attributes.extend(integrity_attr.serialize());
    message.length = message.attributes.len() as u16;

    // Verify the integrity
    let valid = verify_message_integrity(&message, key).unwrap();
    assert!(valid);

    // Verify with wrong key should fail
    let wrong_key = b"wrong-key";
    let valid = verify_message_integrity(&message, wrong_key).unwrap();
    assert!(!valid);
}

#[test]
fn test_append_integrity_verifies() {
    let mut message = Message::new(MessageType::new(MessageMethod::Refresh, MessageClass::Request));
    let attr = RawAttribute::new(AttributeType::Username.as_u16(), b"alice".to_vec());
    message.attributes.extend(attr.serialize());
    message.length = message.attributes.len() as u16;

    let signed = append_integrity(&message, b"k1");
    assert_eq!(signed.attributes.len(), message.attributes.len() + 24);
    assert!(verify_message_integrity(&signed, b"k1").unwrap());
    assert!(!verify_message_integrity(&signed, b"k2").unwrap());
}

#[test]
fn test_verify_without_integrity_attribute() {
    let mut message = Message::new(MessageType::new(MessageMethod::Allocate, MessageClass::Request));
    let attr = RawAttribute::new(AttributeType::Username.as_u16(), b"bob".to_vec());
    message.attributes.extend(attr.serialize());
    message.length = message.attributes.len() as u16;

    assert_eq!(verify_message_integrity(&message, b"key").unwrap(), false);
}
