use toy_turn::addr::{IpAddress, SocketAddress};
use toy_turn::allocate::{AllocateRequest, AllocateResponse};
use toy_turn::attributes::{AttributeType, RawAttribute};
use toy_turn::channel::{ChannelBindRequest, ChannelBindResponse, ChannelData};
use toy_turn::data::{DataIndication, SendIndication};
use toy_turn::errors::TurnError;
use toy_turn::message::{Message, MessageClass, MessageMethod, MessageType};
use toy_turn::permission::{CreatePermissionRequest, CreatePermissionResponse};
use toy_turn::refresh::{RefreshRequest, RefreshResponse};
use toy_turn::xoraddr::{create_xor_peer_address_attr, parse_xor_peer_address};

fn v4(ip: u32, port: u16) -> SocketAddress {
    SocketAddress::new(IpAddress::V4(ip), port)
}

fn message_with_attributes(
    method: MessageMethod,
    class: MessageClass,
    attributes: Vec<RawAttribute>,
) -> Message {
    let mut message = Message::new(MessageType::new(method, class));
    let mut attr_bytes = Vec::new();
    for attr in attributes {
        attr_bytes.extend(attr.serialize());
    }
    message.attributes = attr_bytes;
    message.length = message.attributes.len() as u16;
    message
}

#[test]
fn test_parse_allocate_request() {
    let username_attr = RawAttribute::new(AttributeType::Username.as_u16(), b"testuser".to_vec());

    let transport_attr = RawAttribute::new(
        AttributeType::RequestedTransport.as_u16(),
        vec![17, 0, 0, 0], // UDP transport
    );

    let message = message_with_attributes(
        MessageMethod::Allocate,
        MessageClass::Request,
        vec![username_attr, transport_attr],
    );
    let request = AllocateRequest::from_message(&message).unwrap();

    assert_eq!(request.username, Some("testuser".to_string()));
    assert_eq!(request.requested_transport, Some(17)); // UDP
}

#[test]
fn test_parse_allocate_request_wrong_method() {
    let message = Message::new(MessageType::new(MessageMethod::Binding, MessageClass::Request));

    let result = AllocateRequest::from_message(&message);
    assert!(result.is_err());
    assert!(matches!(result.unwrap_err(), TurnError::BadRequest));
}

#[test]
fn test_allocate_response_success() {
    let transaction_id = [1, 2, 3, 4, 5, 6, 7, 8, 9, 10, 11, 12];
    let relayed_addr = v4(0xC0000201, 49152); // 192.0.2.1:49152
    let mapped_addr = v4(0x0A000001, 54321); // 10.0.0.1:54321

    let response = AllocateResponse::success(
        transaction_id,
        relayed_addr,
        mapped_addr,
        600, // 10 minutes
    );

    assert_eq!(response.transaction_id, transaction_id);
    assert_eq!(response.relayed_address, Some(relayed_addr));
    assert_eq!(response.mapped_address, Some(mapped_addr));
    assert_eq!(response.lifetime, Some(600));
    assert!(response.error_code.is_none());
}

#[test]
fn test_allocate_response_error() {
    let transaction_id = [1, 2, 3, 4, 5, 6, 7, 8, 9, 10, 11, 12];

    let response = AllocateResponse::error(
        transaction_id,
        401,
        "Unauthorized".to_string(),
        Some("example.com".to_string()),
        Some(b"nonce123".to_vec()),
    );

    assert_eq!(response.transaction_id, transaction_id);
    assert!(response.relayed_address.is_none());
    assert_eq!(response.error_code, Some((401, "Unauthorized".to_string())));
    assert_eq!(response.realm, Some("example.com".to_string()));
}

#[test]
fn test_parse_refresh_request() {
    let lifetime_attr =
        RawAttribute::new(AttributeType::Lifetime.as_u16(), 600u32.to_be_bytes().to_vec());

    let username_attr = RawAttribute::new(AttributeType::Username.as_u16(), b"testuser".to_vec());

    let message = message_with_attributes(
        MessageMethod::Refresh,
        MessageClass::Request,
        vec![lifetime_attr, username_attr],
    );
    let request = RefreshRequest::from_message(&message).unwrap();

    assert_eq!(request.lifetime, Some(600));
    assert_eq!(request.username, Some("testuser".to_string()));
    assert!(!request.is_delete_request());
}

#[test]
fn test_parse_refresh_delete_request() {
    let lifetime_attr =
        RawAttribute::new(AttributeType::Lifetime.as_u16(), 0u32.to_be_bytes().to_vec());

    let message = message_with_attributes(
        MessageMethod::Refresh,
        MessageClass::Request,
        vec![lifetime_attr],
    );
    let request = RefreshRequest::from_message(&message).unwrap();

    assert_eq!(request.lifetime, Some(0));
    assert!(request.is_delete_request());
}

#[test]
fn test_parse_refresh_request_wrong_method() {
    let message = Message::new(MessageType::new(MessageMethod::Allocate, MessageClass::Request));

    let result = RefreshRequest::from_message(&message);
    assert!(result.is_err());
    assert!(matches!(result.unwrap_err(), TurnError::BadRequest));
}

#[test]
fn test_refresh_response_success() {
    let transaction_id = [1, 2, 3, 4, 5, 6, 7, 8, 9, 10, 11, 12];
    let response = RefreshResponse::success(transaction_id, 300);

    assert_eq!(response.transaction_id, transaction_id);
    assert_eq!(response.lifetime, Some(300));
    assert!(response.error_code.is_none());
}

#[test]
fn test_refresh_response_error() {
    let transaction_id = [1, 2, 3, 4, 5, 6, 7, 8, 9, 10, 11, 12];
    let response = RefreshResponse::error(
        transaction_id,
        437,
        "Allocation Mismatch".to_string(),
        None,
        None,
    );

    assert_eq!(response.transaction_id, transaction_id);
    assert!(response.lifetime.is_none());
    assert_eq!(response.error_code, Some((437, "Allocation Mismatch".to_string())));
}

#[test]
fn test_parse_create_permission_request() {
    let transaction_id = [1, 2, 3, 4, 5, 6, 7, 8, 9, 10, 11, 12];
    let peer_addr = v4(0xC0000201, 80); // 192.0.2.1:80

    let peer_attr = create_xor_peer_address_attr(peer_addr, &transaction_id);
    let username_attr = RawAttribute::new(AttributeType::Username.as_u16(), b"testuser".to_vec());

    let mut message = message_with_attributes(
        MessageMethod::CreatePermission,
        MessageClass::Request,
        vec![peer_attr, username_attr],
    );
    message.transaction_id = transaction_id;

    let request = CreatePermissionRequest::from_message(&message).unwrap();

    assert_eq!(request.username, Some("testuser".to_string()));
    assert_eq!(request.peer_addresses.len(), 1);
    assert_eq!(request.peer_addresses[0], peer_addr);
}

#[test]
fn test_parse_create_permission_request_no_peer() {
    let username_attr = RawAttribute::new(AttributeType::Username.as_u16(), b"testuser".to_vec());

    let message = message_with_attributes(
        MessageMethod::CreatePermission,
        MessageClass::Request,
        vec![username_attr],
    );
    let result = CreatePermissionRequest::from_message(&message);

    assert!(result.is_err());
    assert!(matches!(result.unwrap_err(), TurnError::BadRequest));
}

#[test]
fn test_create_permission_response_success() {
    let transaction_id = [1, 2, 3, 4, 5, 6, 7, 8, 9, 10, 11, 12];
    let response = CreatePermissionResponse::success(transaction_id);

    assert_eq!(response.transaction_id, transaction_id);
    assert!(response.error_code.is_none());
}

#[test]
fn test_create_permission_response_error() {
    let transaction_id = [1, 2, 3, 4, 5, 6, 7, 8, 9, 10, 11, 12];
    let response =
        CreatePermissionResponse::error(transaction_id, 403, "Forbidden".to_string(), None, None);

    assert_eq!(response.transaction_id, transaction_id);
    assert_eq!(response.error_code, Some((403, "Forbidden".to_string())));
}

fn create_channel_bind_request_message(
    channel: u16,
    peer: SocketAddress,
    transaction_id: [u8; 12],
) -> Message {
    let mut channel_data = vec![0u8; 4];
    channel_data[0] = (channel >> 8) as u8;
    channel_data[1] = channel as u8;
    let channel_attr = RawAttribute::new(AttributeType::ChannelNumber.as_u16(), channel_data);

    let peer_attr = create_xor_peer_address_attr(peer, &transaction_id);

    let mut message = message_with_attributes(
        MessageMethod::ChannelBind,
        MessageClass::Request,
        vec![channel_attr, peer_attr],
    );
    message.transaction_id = transaction_id;
    message
}

#[test]
fn test_parse_channel_bind_request() {
    let transaction_id = [1, 2, 3, 4, 5, 6, 7, 8, 9, 10, 11, 12];
    let channel_number = 0x4000;
    let peer_addr = v4(0xC0000201, 80); // 192.0.2.1:80

    let message = create_channel_bind_request_message(channel_number, peer_addr, transaction_id);
    let request = ChannelBindRequest::from_message(&message).unwrap();

    assert_eq!(request.channel_number, channel_number);
    assert_eq!(request.peer_address, peer_addr);
    assert_eq!(request.transaction_id, transaction_id);
}

#[test]
fn test_invalid_channel_number() {
    let transaction_id = [1, 2, 3, 4, 5, 6, 7, 8, 9, 10, 11, 12];
    let channel_number = 0x3FFF; // Invalid - too low
    let peer_addr = v4(0xC0000201, 80); // 192.0.2.1:80

    let message = create_channel_bind_request_message(channel_number, peer_addr, transaction_id);
    let result = ChannelBindRequest::from_message(&message);

    assert!(result.is_err());
    assert!(matches!(result.unwrap_err(), TurnError::BadRequest));
}

#[test]
fn test_channel_bind_response() {
    let transaction_id = [1, 2, 3, 4, 5, 6, 7, 8, 9, 10, 11, 12];

    let success_resp = ChannelBindResponse::success(transaction_id);
    assert!(success_resp.error_code.is_none());

    let error_resp =
        ChannelBindResponse::error(transaction_id, 400, "Bad Request".to_string(), None, None);
    assert_eq!(error_resp.error_code, Some((400, "Bad Request".to_string())));
}

#[test]
fn test_channel_data() {
    let channel_number = 0x4001;
    let data = b"Hello, Channel!".to_vec();

    let channel_data = ChannelData::new(channel_number, data.clone()).unwrap();
    assert_eq!(channel_data.channel_number, channel_number);
    assert_eq!(channel_data.data, data);
}

#[test]
fn test_channel_data_serialize_parse() {
    let channel_number = 0x4002;
    let data = b"Test data".to_vec();

    let channel_data = ChannelData::new(channel_number, data.clone()).unwrap();
    let serialized = channel_data.serialize();

    // Should have padding to 4-byte boundary
    assert_eq!(serialized.len(), 4 + 12); // 4 header + 9 data + 3 padding

    let parsed = ChannelData::parse(&serialized).unwrap();
    assert_eq!(parsed.channel_number, channel_number);
    assert_eq!(parsed.data, data);
}

#[test]
fn test_channel_data_invalid_number() {
    let result = ChannelData::new(0x8000, vec![1, 2, 3]); // Too high
    assert!(result.is_err());

    let result = ChannelData::new(0x3FFF, vec![1, 2, 3]); // Too low
    assert!(result.is_err());
}

#[test]
fn test_send_indication() {
    let peer_addr = v4(0xC0000201, 80); // 192.0.2.1:80
    let data = b"Hello, World!".to_vec();

    let send_ind = SendIndication {
        transaction_id: [1, 2, 3, 4, 5, 6, 7, 8, 9, 10, 11, 12],
        peer_address: peer_addr,
        data: data.clone(),
        dont_fragment: false,
    };

    // Convert to message and back
    let message = send_ind.to_message();
    let parsed = SendIndication::from_message(&message).unwrap();

    assert_eq!(parsed.peer_address, peer_addr);
    assert_eq!(parsed.data, data);
    assert_eq!(parsed.transaction_id, send_ind.transaction_id);
}

#[test]
fn test_data_indication() {
    let peer_addr = v4(0xCB007101, 443); // 203.0.113.1:443
    let data = b"Response data".to_vec();

    let data_ind = DataIndication::new(peer_addr, data.clone());

    // Convert to message and back
    let message = data_ind.to_message();
    let parsed = DataIndication::from_message(&message).unwrap();

    assert_eq!(parsed.peer_address, peer_addr);
    assert_eq!(parsed.data, data);
    assert_eq!(parsed.transaction_id, data_ind.transaction_id);
}

#[test]
fn test_send_indication_missing_data() {
    let mut message = Message::new(MessageType::new(MessageMethod::Send, MessageClass::Indication));

    // Add only peer address, no data
    let peer_attr = create_xor_peer_address_attr(
        v4(0xC0000201, 80), // 192.0.2.1:80
        &message.transaction_id,
    );
    message.attributes = peer_attr.serialize();
    message.length = message.attributes.len() as u16;

    let result = SendIndication::from_message(&message);
    assert!(result.is_err());
    assert!(matches!(result.unwrap_err(), TurnError::BadRequest));
}

#[test]
fn test_send_indication_wrong_class() {
    let message = Message::new(MessageType::new(
        MessageMethod::Send,
        MessageClass::Request, // Wrong class
    ));

    let result = SendIndication::from_message(&message);
    assert!(result.is_err());
    assert!(matches!(result.unwrap_err(), TurnError::BadRequest));
}

#[test]
fn test_ipv6_xor_address() {
    let transaction_id = [1, 2, 3, 4, 5, 6, 7, 8, 9, 10, 11, 12];
    // [2001:db8::1]:8080
    let peer_addr =
        SocketAddress::new(IpAddress::V6(0x20010DB8000000000000000000000001), 8080);

    let attr = create_xor_peer_address_attr(peer_addr, &transaction_id);
    let parsed = parse_xor_peer_address(&attr.value, &transaction_id).unwrap();

    assert_eq!(parsed, peer_addr);
}

#[test]
fn test_ipv4_xor_address_bytes() {
    let transaction_id = [0u8; 12];
    // 192.0.2.1:80 XORed with the magic cookie.
    let peer_addr = v4(0xC0000201, 80);
    let attr = create_xor_peer_address_attr(peer_addr, &transaction_id);

    assert_eq!(attr.attribute_type, 0x0012);
    // 0x0050 ^ 0x2112 = 0x2142; 0xC0000201 ^ 0x2112A442 = 0xE112A643
    assert_eq!(attr.value, vec![0x00, 0x01, 0x21, 0x42, 0xE1, 0x12, 0xA6, 0x43]);

    let parsed = parse_xor_peer_address(&attr.value, &transaction_id).unwrap();
    assert_eq!(parsed, peer_addr);
}
