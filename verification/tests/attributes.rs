use toy_turn::attributes::{AttributeType, RawAttribute};

#[test]
fn test_attribute_type_conversion() {
    assert_eq!(AttributeType::from_u16(0x0001), Some(AttributeType::MappedAddress));
    assert_eq!(AttributeType::from_u16(0x0006), Some(AttributeType::Username));
    assert_eq!(AttributeType::from_u16(0xFFFF), None);
}

#[test]
fn test_parse_attribute() {
    let data = vec![
        0x00, 0x06, // Type: USERNAME
        0x00, 0x04, // Length: 4
        b't', b'e', b's', b't', // Value: "test"
    ];

    let (attr, consumed) = RawAttribute::parse(&data).unwrap();
    assert_eq!(attr.attribute_type, 0x0006);
    assert_eq!(attr.value, b"test");
    assert_eq!(consumed, 8); // 4 header + 4 value (no padding needed)
}

#[test]
fn test_parse_attribute_with_padding() {
    let data = vec![
        0x00, 0x06, // Type: USERNAME
        0x00, 0x05, // Length: 5
        b'h', b'e', b'l', b'l', b'o', // Value: "hello"
        0x00, 0x00, 0x00, // Padding
    ];

    let (attr, consumed) = RawAttribute::parse(&data).unwrap();
    assert_eq!(attr.attribute_type, 0x0006);
    assert_eq!(attr.value, b"hello");
    assert_eq!(consumed, 12); // 4 header + 5 value + 3 padding
}

#[test]
fn test_serialize_attribute() {
    let attr = RawAttribute::new(0x0006, b"test".to_vec());
    let serialized = attr.serialize();

    assert_eq!(serialized.len(), 8);
    assert_eq!(&serialized[0..2], &[0x00, 0x06]);
    assert_eq!(&serialized[2..4], &[0x00, 0x04]);
    assert_eq!(&serialized[4..8], b"test");
}

#[test]
fn test_serialize_attribute_with_padding() {
    let attr = RawAttribute::new(0x0006, b"hello".to_vec());
    let serialized = attr.serialize();

    assert_eq!(serialized.len(), 12);
    assert_eq!(&serialized[0..2], &[0x00, 0x06]);
    assert_eq!(&serialized[2..4], &[0x00, 0x05]);
    assert_eq!(&serialized[4..9], b"hello");
    assert_eq!(&serialized[9..12], &[0x00, 0x00, 0x00]);
}

#[test]
fn test_parse_attribute_too_short() {
    let data = vec![0x00, 0x06, 0x00];
    assert!(RawAttribute::parse(&data).is_err());
}

#[test]
fn test_parse_attribute_length_past_buffer() {
    let data = vec![
        0x00, 0x06, // Type: USERNAME
        0x00, 0x09, // Length: 9, but only 4 value bytes follow
        b't', b'e', b's', b't',
    ];
    assert!(RawAttribute::parse(&data).is_err());
}
