use toy_turn::addr::{IpAddress, SocketAddress};
use toy_turn::attributes::{AttributeType, RawAttribute};
use toy_turn::data::SendIndication;
use toy_turn::handler::{
    handle_message, handle_peer_data, handle_relay_bind_failure, Action, ServerState,
    TurnServerConfig,
};
use toy_turn::integrity::{append_integrity, Credentials};
use toy_turn::message::{Message, MessageClass, MessageMethod, MessageType};
use toy_turn::xoraddr::{create_xor_peer_address_attr, parse_xor_peer_address};

fn v4(ip: u32, port: u16) -> SocketAddress {
    SocketAddress::new(IpAddress::V4(ip), port)
}

fn test_state(relay_count: u16) -> ServerState {
    let mut relays = Vec::new();
    for i in 0..relay_count {
        relays.push(v4(0x7F000001, 50000 + i));
    }
    let mut state = ServerState::new("test.realm".to_string(), relays, 300).unwrap();
    state.users.add_user("alice".to_string(), "password123".to_string());
    state.users.add_user("bob".to_string(), "secret456".to_string());
    state
}

fn find_attr(message: &Message, attr_type: u16) -> Option<Vec<u8>> {
    let mut offset = 0;
    while offset < message.attributes.len() {
        let (attr, consumed) = RawAttribute::parse(&message.attributes[offset..]).ok()?;
        if attr.attribute_type == attr_type {
            return Some(attr.value);
        }
        offset += consumed;
    }
    None
}

fn reply_bytes(action: Option<Action>) -> Vec<u8> {
    match action {
        Some(Action::Reply(bytes)) => bytes,
        other => panic!("expected a reply, got {other:?}"),
    }
}

/// Builds an authenticated request of the given method carrying `attrs`,
/// signed under the long-term key of the user.
fn signed_request(
    method: MessageMethod,
    attrs: Vec<RawAttribute>,
    username: &str,
    password: &str,
    nonce: &[u8],
) -> Message {
    let id = Message::new(MessageType::new(method, MessageClass::Request)).transaction_id;
    signed_request_with_id(method, attrs, username, password, nonce, id)
}

/// Like `signed_request` but with a chosen transaction id, so XOR-encoded
/// attributes can be prepared under it.
fn signed_request_with_id(
    method: MessageMethod,
    attrs: Vec<RawAttribute>,
    username: &str,
    password: &str,
    nonce: &[u8],
    transaction_id: [u8; 12],
) -> Message {
    let mut message = Message::new(MessageType::new(method, MessageClass::Request));
    message.transaction_id = transaction_id;
    let mut attr_bytes = Vec::new();
    for attr in attrs {
        attr_bytes.extend(attr.serialize());
    }
    attr_bytes.extend(
        RawAttribute::new(AttributeType::Username.as_u16(), username.as_bytes().to_vec())
            .serialize(),
    );
    attr_bytes.extend(
        RawAttribute::new(AttributeType::Realm.as_u16(), b"test.realm".to_vec()).serialize(),
    );
    attr_bytes
        .extend(RawAttribute::new(AttributeType::Nonce.as_u16(), nonce.to_vec()).serialize());
    message.attributes = attr_bytes;
    message.length = message.attributes.len() as u16;

    let key = Credentials::new(
        username.to_string(),
        password.to_string(),
        "test.realm".to_string(),
    )
    .compute_key();
    append_integrity(&message, &key)
}

fn transport_udp_attr() -> RawAttribute {
    RawAttribute::new(AttributeType::RequestedTransport.as_u16(), vec![17, 0, 0, 0])
}

/// Runs the unauthenticated Allocate challenge and returns the fresh nonce.
fn obtain_nonce(state: &mut ServerState, client: SocketAddress, now: u64) -> Vec<u8> {
    let mut first = Message::new(MessageType::new(MessageMethod::Allocate, MessageClass::Request));
    let attr = transport_udp_attr();
    first.attributes = attr.serialize();
    first.length = first.attributes.len() as u16;

    let serialized = first.serialize();
    let bytes = reply_bytes(handle_message(state, &serialized, client, now));
    let reply = Message::parse(&bytes).unwrap();
    assert_eq!(reply.message_type.class(), MessageClass::ErrorResponse);
    find_attr(&reply, AttributeType::Nonce.as_u16()).expect("challenge must carry a nonce")
}

fn allocate(state: &mut ServerState, client: SocketAddress, user: &str, pass: &str, now: u64) -> Message {
    let nonce = obtain_nonce(state, client, now);
    let request = signed_request(
        MessageMethod::Allocate,
        vec![transport_udp_attr()],
        user,
        pass,
        &nonce,
    );
    let serialized = request.serialize();
    let bytes = reply_bytes(handle_message(state, &serialized, client, now));
    Message::parse(&bytes).unwrap()
}

#[test]
fn test_server_creation() {
    let config = TurnServerConfig {
        listen_address: v4(0x7F000001, 0),
        realm: "test.realm".to_string(),
        relay_address_start: v4(0x7F000001, 50000),
        relay_address_count: 10,
    };
    assert_eq!(config.realm, "test.realm");

    let default_config = TurnServerConfig::default();
    assert_eq!(default_config.relay_address_count, 100);
    assert_eq!(default_config.listen_address.port, 3478);
}

#[test]
fn test_add_user() {
    let state = test_state(10);
    assert!(state.users.authenticate("alice", "password123"));
}

#[test]
fn test_unauthenticated_allocate_challenge() {
    let mut state = test_state(1);
    let client = v4(0x0A000001, 40000);

    let mut request =
        Message::new(MessageType::new(MessageMethod::Allocate, MessageClass::Request));
    let attr = transport_udp_attr();
    request.attributes = attr.serialize();
    request.length = request.attributes.len() as u16;

    let serialized = request.serialize();
    let bytes = reply_bytes(handle_message(&mut state, &serialized, client, 0));
    let reply = Message::parse(&bytes).unwrap();

    assert_eq!(reply.message_type.method(), MessageMethod::Allocate);
    assert_eq!(reply.message_type.class(), MessageClass::ErrorResponse);
    assert_eq!(reply.transaction_id, request.transaction_id);

    let error = find_attr(&reply, AttributeType::ErrorCode.as_u16()).unwrap();
    assert_eq!(&error[0..4], &[0, 0, 4, 1]); // 401

    let realm = find_attr(&reply, AttributeType::Realm.as_u16()).unwrap();
    assert_eq!(realm, b"test.realm".to_vec());

    let nonce = find_attr(&reply, AttributeType::Nonce.as_u16()).unwrap();
    assert_eq!(nonce.len(), 32);
    assert!(nonce.iter().all(|b| b.is_ascii_hexdigit()));

    // A second Allocate with that exact nonce succeeds.
    let second = signed_request(
        MessageMethod::Allocate,
        vec![transport_udp_attr()],
        "alice",
        "password123",
        &nonce,
    );
    let serialized = second.serialize();
    let bytes = reply_bytes(handle_message(&mut state, &serialized, client, 0));
    let success = Message::parse(&bytes).unwrap();
    assert_eq!(success.message_type.class(), MessageClass::SuccessResponse);
    assert_eq!(success.transaction_id, second.transaction_id);
}

#[test]
fn test_allocation_capacity() {
    let mut state = test_state(1);
    let client_a = v4(0x0A000001, 40000);
    let client_b = v4(0x0A000002, 40000);

    let reply_a = allocate(&mut state, client_a, "alice", "password123", 0);
    assert_eq!(reply_a.message_type.class(), MessageClass::SuccessResponse);
    let relayed = find_attr(&reply_a, AttributeType::XorRelayedAddress.as_u16()).unwrap();
    let relayed_addr = parse_xor_peer_address(&relayed, &reply_a.transaction_id).unwrap();
    assert_eq!(relayed_addr, v4(0x7F000001, 50000));

    let reply_b = allocate(&mut state, client_b, "bob", "secret456", 0);
    assert_eq!(reply_b.message_type.class(), MessageClass::ErrorResponse);
    let error = find_attr(&reply_b, AttributeType::ErrorCode.as_u16()).unwrap();
    assert_eq!(&error[0..4], &[0, 0, 5, 8]); // 508
}

#[test]
fn test_channel_bind_then_relay() {
    let mut state = test_state(1);
    let client = v4(0x0A000001, 40000);
    let peer = v4(0xCB007101, 80);

    let reply = allocate(&mut state, client, "alice", "password123", 0);
    assert_eq!(reply.message_type.class(), MessageClass::SuccessResponse);

    // ChannelBind(0x4000, peer)
    assert!(find_attr(&reply, AttributeType::Nonce.as_u16()).is_none());
    let nonce = obtain_nonce(&mut state, v4(0x0A000009, 1), 0);
    let tid = [1, 2, 3, 4, 5, 6, 7, 8, 9, 10, 11, 12];
    let peer_attr = create_xor_peer_address_attr(peer, &tid);
    let request = signed_request_with_id(
        MessageMethod::ChannelBind,
        vec![
            RawAttribute::new(AttributeType::ChannelNumber.as_u16(), vec![0x40, 0x00, 0, 0]),
            peer_attr,
        ],
        "alice",
        "password123",
        &nonce,
        tid,
    );
    let serialized = request.serialize();
    let bytes = reply_bytes(handle_message(&mut state, &serialized, client, 0));
    let bind_reply = Message::parse(&bytes).unwrap();
    assert_eq!(bind_reply.message_type.class(), MessageClass::SuccessResponse);

    // A datagram "hi" from the peer comes back to the client as ChannelData.
    let out = handle_peer_data(&state, client, peer, b"hi".to_vec(), 0).unwrap();
    assert_eq!(out, vec![0x40, 0x00, 0x00, 0x02, b'h', b'i', 0x00, 0x00]);
}

#[test]
fn test_send_without_permission_is_dropped() {
    let mut state = test_state(1);
    let client = v4(0x0A000001, 40000);
    let peer = v4(0xCB007101, 80);

    let reply = allocate(&mut state, client, "alice", "password123", 0);
    assert_eq!(reply.message_type.class(), MessageClass::SuccessResponse);

    let indication = SendIndication {
        transaction_id: [9u8; 12],
        peer_address: peer,
        data: b"payload".to_vec(),
        dont_fragment: false,
    };
    let message = indication.to_message();
    let serialized = message.serialize();
    let action = handle_message(&mut state, &serialized, client, 0);
    assert!(action.is_none());
}

#[test]
fn test_send_with_permission_relays() {
    let mut state = test_state(1);
    let client = v4(0x0A000001, 40000);
    let peer = v4(0xCB007101, 80);

    let reply = allocate(&mut state, client, "alice", "password123", 0);
    assert_eq!(reply.message_type.class(), MessageClass::SuccessResponse);

    // CreatePermission for the peer.
    let nonce = obtain_nonce(&mut state, v4(0x0A000009, 1), 0);
    let tid = [7, 7, 7, 7, 7, 7, 7, 7, 7, 7, 7, 7];
    let peer_attr = create_xor_peer_address_attr(peer, &tid);
    let request = signed_request_with_id(
        MessageMethod::CreatePermission,
        vec![peer_attr],
        "alice",
        "password123",
        &nonce,
        tid,
    );
    let serialized = request.serialize();
    let bytes = reply_bytes(handle_message(&mut state, &serialized, client, 0));
    let perm_reply = Message::parse(&bytes).unwrap();
    assert_eq!(perm_reply.message_type.class(), MessageClass::SuccessResponse);

    // Now the Send indication is relayed.
    let indication = SendIndication {
        transaction_id: [9u8; 12],
        peer_address: peer,
        data: b"payload".to_vec(),
        dont_fragment: false,
    };
    let message = indication.to_message();
    let serialized = message.serialize();
    match handle_message(&mut state, &serialized, client, 0) {
        Some(Action::RelaySend { client: c, peer: p, data }) => {
            assert_eq!(c, client);
            assert_eq!(p, peer);
            assert_eq!(data, b"payload".to_vec());
        },
        other => panic!("expected a relayed datagram, got {other:?}"),
    }

    // And a datagram back from the peer becomes a Data indication.
    let out = handle_peer_data(&state, client, peer, b"pong".to_vec(), 0).unwrap();
    let parsed = Message::parse(&out).unwrap();
    assert_eq!(parsed.message_type.method(), MessageMethod::Data);
    assert_eq!(parsed.message_type.class(), MessageClass::Indication);
}

#[test]
fn test_refresh_with_lifetime_zero_deletes() {
    let mut state = test_state(1);
    let client = v4(0x0A000001, 40000);

    let reply = allocate(&mut state, client, "alice", "password123", 0);
    assert_eq!(reply.message_type.class(), MessageClass::SuccessResponse);
    assert!(state.allocations.get_allocation(&client).is_some());

    // Refresh with Lifetime = 0.
    let nonce = obtain_nonce(&mut state, v4(0x0A000009, 1), 0);
    let request = signed_request(
        MessageMethod::Refresh,
        vec![RawAttribute::new(
            AttributeType::Lifetime.as_u16(),
            0u32.to_be_bytes().to_vec(),
        )],
        "alice",
        "password123",
        &nonce,
    );
    let serialized = request.serialize();
    let bytes = reply_bytes(handle_message(&mut state, &serialized, client, 0));
    let refresh_reply = Message::parse(&bytes).unwrap();
    assert_eq!(refresh_reply.message_type.class(), MessageClass::SuccessResponse);

    // The allocation is gone and the relay address is back in the pool.
    assert!(state.allocations.get_allocation(&client).is_none());
    assert_eq!(state.allocations.relay_address_pool.len(), 1);

    // A subsequent Send from that client is dropped.
    let indication = SendIndication {
        transaction_id: [9u8; 12],
        peer_address: v4(0xCB007101, 80),
        data: b"late".to_vec(),
        dont_fragment: false,
    };
    let message = indication.to_message();
    let serialized = message.serialize();
    assert!(handle_message(&mut state, &serialized, client, 0).is_none());
}

#[test]
fn test_stale_nonce_rejected() {
    let mut state = test_state(1);
    let client = v4(0x0A000001, 40000);

    let nonce = obtain_nonce(&mut state, client, 0);
    // 301 ticks later the nonce is stale: the reply is a 438 with a fresh one.
    let request = signed_request(
        MessageMethod::Allocate,
        vec![transport_udp_attr()],
        "alice",
        "password123",
        &nonce,
    );
    let serialized = request.serialize();
    let bytes = reply_bytes(handle_message(&mut state, &serialized, client, 301));
    let reply = Message::parse(&bytes).unwrap();
    assert_eq!(reply.message_type.class(), MessageClass::ErrorResponse);
    let error = find_attr(&reply, AttributeType::ErrorCode.as_u16()).unwrap();
    assert_eq!(&error[0..4], &[0, 0, 4, 38 % 100]); // 438
    assert!(find_attr(&reply, AttributeType::Nonce.as_u16()).is_some());
}

#[test]
fn test_wrong_password_rejected() {
    let mut state = test_state(1);
    let client = v4(0x0A000001, 40000);

    let nonce = obtain_nonce(&mut state, client, 0);
    let request = signed_request(
        MessageMethod::Allocate,
        vec![transport_udp_attr()],
        "alice",
        "not-the-password",
        &nonce,
    );
    let serialized = request.serialize();
    let bytes = reply_bytes(handle_message(&mut state, &serialized, client, 0));
    let reply = Message::parse(&bytes).unwrap();
    assert_eq!(reply.message_type.class(), MessageClass::ErrorResponse);
    let error = find_attr(&reply, AttributeType::ErrorCode.as_u16()).unwrap();
    assert_eq!(&error[0..4], &[0, 0, 4, 41]); // 441
}

#[test]
fn test_unknown_required_attribute_rejected() {
    let mut state = test_state(1);
    let client = v4(0x0A000001, 40000);

    let mut request =
        Message::new(MessageType::new(MessageMethod::Allocate, MessageClass::Request));
    let mut attrs = transport_udp_attr().serialize();
    attrs.extend(RawAttribute::new(0x7777, vec![1, 2, 3, 4]).serialize());
    request.attributes = attrs;
    request.length = request.attributes.len() as u16;

    let serialized = request.serialize();
    let bytes = reply_bytes(handle_message(&mut state, &serialized, client, 0));
    let reply = Message::parse(&bytes).unwrap();

    assert_eq!(reply.message_type.class(), MessageClass::ErrorResponse);
    let error = find_attr(&reply, AttributeType::ErrorCode.as_u16()).unwrap();
    assert_eq!(&error[0..4], &[0, 0, 4, 20]); // 420
    let unknown = find_attr(&reply, AttributeType::UnknownAttributes.as_u16()).unwrap();
    assert_eq!(unknown, vec![0x77, 0x77]);
}

#[test]
fn test_unknown_optional_attribute_ignored() {
    let mut state = test_state(1);
    let client = v4(0x0A000001, 40000);

    let mut request =
        Message::new(MessageType::new(MessageMethod::Allocate, MessageClass::Request));
    let mut attrs = transport_udp_attr().serialize();
    attrs.extend(RawAttribute::new(0x8777, vec![1, 2, 3, 4]).serialize());
    request.attributes = attrs;
    request.length = request.attributes.len() as u16;

    // A comprehension-optional attribute is passed over: the request still
    // reaches the credential checks and draws the 401 challenge.
    let serialized = request.serialize();
    let bytes = reply_bytes(handle_message(&mut state, &serialized, client, 0));
    let reply = Message::parse(&bytes).unwrap();
    let error = find_attr(&reply, AttributeType::ErrorCode.as_u16()).unwrap();
    assert_eq!(&error[0..4], &[0, 0, 4, 1]); // 401
}

#[test]
fn test_relay_bind_failure_releases_allocation() {
    let mut state = test_state(1);
    let client = v4(0x0A000001, 40000);

    let reply = allocate(&mut state, client, "alice", "password123", 0);
    assert_eq!(reply.message_type.class(), MessageClass::SuccessResponse);
    assert_eq!(state.allocations.relay_address_pool.len(), 0);

    // The relay socket could not be bound: the allocation is withdrawn, the
    // address returns to the pool, and the client gets a 508 instead.
    let bytes = handle_relay_bind_failure(&mut state, reply.transaction_id, client);
    assert!(state.allocations.get_allocation(&client).is_none());
    assert_eq!(state.allocations.relay_address_pool.len(), 1);

    let error_reply = Message::parse(&bytes).unwrap();
    assert_eq!(error_reply.message_type.method(), MessageMethod::Allocate);
    assert_eq!(error_reply.message_type.class(), MessageClass::ErrorResponse);
    assert_eq!(error_reply.transaction_id, reply.transaction_id);
    let error = find_attr(&error_reply, AttributeType::ErrorCode.as_u16()).unwrap();
    assert_eq!(&error[0..4], &[0, 0, 5, 8]); // 508
}
