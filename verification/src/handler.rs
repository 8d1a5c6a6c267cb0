//! The request pipeline: server state, long-term credential checks, reply
//! construction, and the per-packet dispatch from raw datagram to reply or
//! relay action.

use vstd::prelude::*;
use vstd::string::{is_ascii, is_ascii_spec_bytes, StrSliceExecFns, StringExecFns};
use vstd::utf8::{encode_utf8, decode_utf8, valid_utf8};
use crate::addr::SocketAddress;
use crate::allocation::{AllocationManager, DEFAULT_ALLOCATION_LIFETIME};
use crate::attributes::{RawAttribute, spec_serialize_attr};
use crate::auth::{NonceManager, UserDatabase};
use crate::bytebuf::bm_to_vec;
use crate::errors::TurnError;
use crate::integrity::{
    spec_key,
    hmac_sha1,
    spec_integrity_input,
    spec_verify_prefix_input,
    spec_find_integrity,
    spec_append_integrity,
    verify_message_integrity,
    has_message_integrity,
    append_integrity,
    Credentials,
};
use crate::message::{
    Message,
    MessageView,
    MessageType,
    MessageMethod,
    MessageClass,
    spec_serialize_message,
};
use crate::util::u32_be;
use crate::xoraddr::spec_xor_addr_bytes;
use crate::allocate::spec_parse_allocate;

verus! {

/// What the server does with one incoming packet: answer the sender, or
/// push a datagram out of a client's relay socket.
#[derive(Debug, Clone)]
pub enum Action {
    Reply(Vec<u8>),
    RelaySend { client: SocketAddress, peer: SocketAddress, data: Vec<u8> },
}

/// The server's whole mutable state, passed explicitly to the handlers.
#[derive(Debug, Clone)]
pub struct ServerState {
    pub realm: String,
    pub allocations: AllocationManager,
    pub nonces: NonceManager,
    pub users: UserDatabase,
}

impl ServerState {
    pub open spec fn wf(self) -> bool {
        &&& self.allocations.wf()
        &&& self.nonces.wf()
        &&& self.users.wf()
        &&& encode_utf8(self.realm@).len() <= 128
    }

    /// Fresh state with the given realm, relay pool and nonce lifetime; a
    /// realm longer than 128 bytes is refused.
    pub fn new(realm: String, relay_addresses: Vec<SocketAddress>, nonce_lifetime: u64) -> (r:
        Option<Self>)
        ensures
            match r {
                Some(st) => {
                    &&& st.wf()
                    &&& st.realm@ == realm@
                    &&& st.allocations.relay_address_pool@ == relay_addresses@
                    &&& st.allocations.allocations@.len() == 0
                    &&& st.nonces.spec_lifetime() == nonce_lifetime
                    &&& forall|n: Seq<char>| st.nonces.spec_time_of(n) is None
                    &&& forall|u: Seq<char>| st.users.spec_password_of(u) is None
                },
                None => encode_utf8(realm@).len() > 128,
            },
    {
        let realm_bytes = realm.as_str().as_bytes_vec();
        if realm_bytes.len() > 128 {
            return None;
        }
        Some(
            ServerState {
                realm,
                allocations: AllocationManager::new(relay_addresses),
                nonces: NonceManager::new(nonce_lifetime),
                users: UserDatabase::new(),
            },
        )
    }
}

/// The value bytes of an ERROR-CODE attribute: two zero bytes, the hundreds
/// digit, the remainder under one hundred, then the reason phrase.
pub open spec fn spec_error_code_value(code: u16, reason: Seq<char>) -> Seq<u8> {
    seq![0u8, 0u8, (code / 100) as u8, (code % 100) as u8] + encode_utf8(reason)
}

/// An error response: the ERROR-CODE attribute, then a REALM and a NONCE
/// attribute when given.
#[verifier::opaque]
pub open spec fn spec_error_message(
    method: MessageMethod,
    tid: Seq<u8>,
    code: u16,
    reason: Seq<char>,
    realm: Option<Seq<char>>,
    nonce: Option<Seq<u8>>,
) -> MessageView {
    let attrs = spec_serialize_attr(0x0009, spec_error_code_value(code, reason)) + (match realm {
        Some(re) => spec_serialize_attr(0x0014, encode_utf8(re)),
        None => Seq::<u8>::empty(),
    }) + (match nonce {
        Some(nb) => spec_serialize_attr(0x0015, nb),
        None => Seq::<u8>::empty(),
    });
    MessageView {
        message_type: MessageType { method, class: MessageClass::ErrorResponse },
        length: attrs.len() as u16,
        transaction_id: tid,
        attributes: attrs,
    }
}

/// A success response before its integrity attribute.
pub open spec fn spec_success_base(method: MessageMethod, tid: Seq<u8>, attrs: Seq<u8>) -> MessageView {
    MessageView {
        message_type: MessageType { method, class: MessageClass::SuccessResponse },
        length: attrs.len() as u16,
        transaction_id: tid,
        attributes: attrs,
    }
}

/// The serialized success response for the given attribute bytes, closed by
/// the MESSAGE-INTEGRITY attribute under `key`.
#[verifier::opaque]
pub open spec fn spec_success_reply(
    method: MessageMethod,
    tid: Seq<u8>,
    attrs: Seq<u8>,
    key: Seq<u8>,
) -> Seq<u8> {
    let base = spec_success_base(method, tid, attrs);
    spec_serialize_message(
        spec_append_integrity(base, hmac_sha1(key, spec_integrity_input(base))),
    )
}

/// Builds the serialized error response.
pub fn build_error_reply(
    method: MessageMethod,
    transaction_id: [u8; 12],
    code: u16,
    reason: &str,
    realm: Option<&String>,
    nonce: Option<&String>,
) -> (r: Vec<u8>)
    requires
        is_ascii(reason),
        reason@.len() <= 64,
        realm matches Some(re) ==> encode_utf8(re@).len() <= 128,
        nonce matches Some(n) ==> encode_utf8(n@).len() <= 64,
    ensures
        r@ == spec_serialize_message(
            spec_error_message(
                method,
                transaction_id@,
                code,
                reason@,
                match realm {
                    Some(re) => Some(re@),
                    None => None,
                },
                match nonce {
                    Some(n) => Some(encode_utf8(n@)),
                    None => None,
                },
            ),
        ),
{
    proof {
        reveal(spec_error_message);
        is_ascii_spec_bytes(reason);
    }
    let mut error_value: Vec<u8> = Vec::new();
    error_value.push(0);
    error_value.push(0);
    error_value.push((code / 100) as u8);
    error_value.push((code % 100) as u8);
    let mut reason_bytes = reason.as_bytes_vec();
    error_value.append(&mut reason_bytes);
    assert(error_value@ =~= spec_error_code_value(code, reason@));

    let error_attr = RawAttribute::new(0x0009, error_value);
    let mut attrs: Vec<u8> = error_attr.serialize();
    proof {
        crate::attributes::lemma_pad_len(4 + encode_utf8(reason@).len() as int);
    }

    match realm {
        Some(re) => {
            let realm_attr = RawAttribute::new(0x0014, re.as_str().as_bytes_vec());
            let mut realm_bytes = realm_attr.serialize();
            proof {
                crate::attributes::lemma_pad_len(encode_utf8(re@).len() as int);
            }
            attrs.append(&mut realm_bytes);
        },
        None => {},
    }

    match nonce {
        Some(n) => {
            let nonce_attr = RawAttribute::new(0x0015, n.as_str().as_bytes_vec());
            let mut nonce_bytes = nonce_attr.serialize();
            proof {
                crate::attributes::lemma_pad_len(encode_utf8(n@).len() as int);
            }
            attrs.append(&mut nonce_bytes);
        },
        None => {},
    }

    let message = Message {
        message_type: MessageType::new(method, MessageClass::ErrorResponse),
        length: attrs.len() as u16,
        transaction_id,
        attributes: attrs,
    };
    let ghost expected = spec_error_message(
        method,
        transaction_id@,
        code,
        reason@,
        match realm {
            Some(re) => Some(re@),
            None => None,
        },
        match nonce {
            Some(n) => Some(encode_utf8(n@)),
            None => None,
        },
    );
    proof {
        assert(message@.attributes =~= expected.attributes);
        assert(message@ =~~= expected);
    }
    let buf = message.serialize();
    bm_to_vec(&buf)
}

pub fn reason_bad_request() -> (r: &'static str)
    ensures
        is_ascii(r),
        r@.len() <= 64,
        r@ == "Bad Request"@,
{
    proof {
        reveal_strlit("Bad Request");
    }
    "Bad Request"
}

pub fn reason_unauthorized() -> (r: &'static str)
    ensures
        is_ascii(r),
        r@.len() <= 64,
        r@ == "Unauthorized"@,
{
    proof {
        reveal_strlit("Unauthorized");
    }
    "Unauthorized"
}

pub fn reason_stale_nonce() -> (r: &'static str)
    ensures
        is_ascii(r),
        r@.len() <= 64,
        r@ == "Stale Nonce"@,
{
    proof {
        reveal_strlit("Stale Nonce");
    }
    "Stale Nonce"
}

pub fn reason_wrong_credentials() -> (r: &'static str)
    ensures
        is_ascii(r),
        r@.len() <= 64,
        r@ == "Wrong Credentials"@,
{
    proof {
        reveal_strlit("Wrong Credentials");
    }
    "Wrong Credentials"
}

pub fn reason_allocation_mismatch() -> (r: &'static str)
    ensures
        is_ascii(r),
        r@.len() <= 64,
        r@ == "Allocation Mismatch"@,
{
    proof {
        reveal_strlit("Allocation Mismatch");
    }
    "Allocation Mismatch"
}

pub fn reason_insufficient_capacity() -> (r: &'static str)
    ensures
        is_ascii(r),
        r@.len() <= 64,
        r@ == "Insufficient Capacity"@,
{
    proof {
        reveal_strlit("Insufficient Capacity");
    }
    "Insufficient Capacity"
}

pub fn reason_unsupported_transport() -> (r: &'static str)
    ensures
        is_ascii(r),
        r@.len() <= 64,
        r@ == "Unsupported Transport Protocol"@,
{
    proof {
        reveal_strlit("Unsupported Transport Protocol");
    }
    "Unsupported Transport Protocol"
}

/// Builds the serialized success response, integrity attribute included.
pub fn build_success_reply(
    method: MessageMethod,
    transaction_id: [u8; 12],
    attrs: Vec<u8>,
    key: &[u8],
) -> (r: Vec<u8>)
    requires
        attrs@.len() + 28 <= 0xFFFF,
    ensures
        r@ == spec_success_reply(method, transaction_id@, attrs@, key@),
{
    proof {
        reveal(spec_success_reply);
    }
    let length: u16 = attrs.len() as u16;
    let message = Message {
        message_type: MessageType::new(method, MessageClass::SuccessResponse),
        length,
        transaction_id,
        attributes: attrs,
    };
    let with_integrity = append_integrity(&message, key);
    let buf = with_integrity.serialize();
    bm_to_vec(&buf)
}

pub open spec fn opt_str_view(o: Option<String>) -> Option<Seq<char>> {
    match o {
        Some(s) => Some(s@),
        None => None,
    }
}

pub open spec fn opt_bytes_view(o: Option<Vec<u8>>) -> Option<Seq<u8>> {
    match o {
        Some(v) => Some(v@),
        None => None,
    }
}

/// How a request fares against the long-term credential checks, in the
/// order the pipeline applies them: presence of the credential attributes,
/// nonce freshness, user lookup, then the integrity tag under the key of
/// `username:realm:password`.
pub enum AuthCheck {
    Malformed,
    MissingCredentials,
    StaleNonce,
    UnknownUser,
    MissingIntegrity,
    WrongIntegrity,
    Accepted,
}

#[verifier::opaque]
pub open spec fn spec_auth_check(
    m: MessageView,
    username: Option<Seq<char>>,
    realm_field: Option<Seq<char>>,
    nonce_field: Option<Seq<u8>>,
    st: ServerState,
    now: u64,
) -> AuthCheck {
    if m.attributes.len() > 0xFFFF {
        AuthCheck::Malformed
    } else if username is None || realm_field is None || nonce_field is None {
        AuthCheck::MissingCredentials
    } else if !(valid_utf8(nonce_field->0) && st.nonces.spec_valid(
        decode_utf8(nonce_field->0),
        now,
    )) {
        AuthCheck::StaleNonce
    } else {
        match st.users.spec_password_of(username->0) {
            None => AuthCheck::UnknownUser,
            Some(password) => {
                let key = crate::integrity::md5_of(spec_key(username->0, st.realm@, password));
                match spec_find_integrity(m.attributes, 0) {
                    Err(_) => AuthCheck::Malformed,
                    Ok(None) => AuthCheck::MissingIntegrity,
                    Ok(Some((off, v))) => if off + 24 <= 0xFFFF && v == hmac_sha1(
                        key,
                        spec_verify_prefix_input(m, off),
                    ) {
                        AuthCheck::Accepted
                    } else {
                        AuthCheck::WrongIntegrity
                    },
                }
            },
        }
    }
}

/// The long-term key an accepted request was verified under: the MD5
/// digest of `username:realm:password`.
pub open spec fn spec_accepted_key(username: Option<Seq<char>>, st: ServerState) -> Seq<u8> {
    crate::integrity::md5_of(
        spec_key(username->0, st.realm@, st.users.spec_password_of(username->0)->0),
    )
}

/// A plain error reply: the code and reason, nothing else.
pub open spec fn spec_plain_error(
    reply: Seq<u8>,
    method: MessageMethod,
    tid: Seq<u8>,
    code: u16,
    reason: Seq<char>,
) -> bool {
    reply == spec_serialize_message(spec_error_message(method, tid, code, reason, None, None))
}

/// A challenge reply: the code and reason together with the realm and a
/// nonce of 32 characters issued `now`.
pub open spec fn spec_challenge_error(
    reply: Seq<u8>,
    post_nonces: NonceManager,
    method: MessageMethod,
    tid: Seq<u8>,
    code: u16,
    reason: Seq<char>,
    realm: Seq<char>,
    now: u64,
) -> bool {
    exists|n: Seq<char>|
        #![auto]
        n.len() == 32 && post_nonces.spec_time_of(n) == Some(now) && reply
            == spec_serialize_message(
            spec_error_message(method, tid, code, reason, Some(realm), Some(encode_utf8(n))),
        )
}

/// The reply owed to each failed credential check.
pub open spec fn spec_auth_rejection(
    check: AuthCheck,
    reply: Seq<u8>,
    post_nonces: NonceManager,
    method: MessageMethod,
    tid: Seq<u8>,
    realm: Seq<char>,
    now: u64,
) -> bool {
    match check {
        AuthCheck::Malformed => spec_plain_error(reply, method, tid, 400, "Bad Request"@),
        AuthCheck::MissingCredentials => spec_challenge_error(
            reply,
            post_nonces,
            method,
            tid,
            401,
            "Unauthorized"@,
            realm,
            now,
        ),
        AuthCheck::StaleNonce => spec_challenge_error(
            reply,
            post_nonces,
            method,
            tid,
            438,
            "Stale Nonce"@,
            realm,
            now,
        ),
        AuthCheck::UnknownUser => spec_challenge_error(
            reply,
            post_nonces,
            method,
            tid,
            401,
            "Unauthorized"@,
            realm,
            now,
        ),
        AuthCheck::MissingIntegrity => spec_challenge_error(
            reply,
            post_nonces,
            method,
            tid,
            401,
            "Unauthorized"@,
            realm,
            now,
        ),
        AuthCheck::WrongIntegrity => spec_plain_error(
            reply,
            method,
            tid,
            441,
            "Wrong Credentials"@,
        ),
        AuthCheck::Accepted => false,
    }
}

/// The value bytes of an UNKNOWN-ATTRIBUTES attribute: the 16-bit codes in
/// order.
pub open spec fn unknown_codes_bytes(codes: Seq<u16>) -> Seq<u8> {
    Seq::new(
        codes.len() * 2,
        |i: int|
            if i % 2 == 0 {
                (codes[i / 2] / 256) as u8
            } else {
                (codes[i / 2] % 256) as u8
            },
    )
}

/// The comprehension-required attribute types the server does not
/// recognize, scanning the raw attribute bytes from `off` with `acc` found
/// so far.
pub open spec fn spec_scan_unknown(attrs: Seq<u8>, off: int, acc: Seq<u16>) -> Result<
    Seq<u16>,
    crate::errors::StunError,
>
    decreases attrs.len() - off,
{
    if off >= attrs.len() || off < 0 {
        Ok(acc)
    } else {
        match crate::attributes::spec_parse_attr(attrs.subrange(off, attrs.len() as int)) {
            Err(e) => Err(e),
            Ok((t, v, c)) => {
                let acc2 = if t < 0x8000 && crate::attributes::spec_attr_type_from_u16(t)
                    is None {
                    acc.push(t)
                } else {
                    acc
                };
                if off + c >= attrs.len() {
                    Ok(acc2)
                } else {
                    spec_scan_unknown(attrs, off + c, acc2)
                }
            },
        }
    }
}

/// Collects the unrecognized comprehension-required attribute types of a
/// message.
fn unknown_required_attributes(message: &Message) -> (r: Result<
    Vec<u16>,
    crate::errors::StunError,
>)
    ensures
        match r {
            Ok(codes) => spec_scan_unknown(message@.attributes, 0, Seq::empty()) == Ok::<
                _,
                crate::errors::StunError,
            >(codes@),
            Err(e) => spec_scan_unknown(message@.attributes, 0, Seq::empty()) == Err::<
                Seq<u16>,
                _,
            >(e),
        },
{
    let mut codes: Vec<u16> = Vec::new();
    let ghost attrs = message@.attributes;
    let attrs_len: usize = message.attributes.len();
    let mut offset: usize = 0;

    while offset < attrs_len
        invariant
            attrs == message@.attributes,
            attrs_len == attrs.len(),
            offset <= attrs_len,
            spec_scan_unknown(attrs, 0, Seq::empty()) == spec_scan_unknown(
                attrs,
                offset as int,
                codes@,
            ),
        decreases attrs.len() - offset,
    {
        let attr_slice = vstd::slice::slice_subrange(
            message.attributes.as_slice(),
            offset,
            attrs_len,
        );
        match RawAttribute::parse(attr_slice) {
            Err(e) => {
                return Err(e);
            },
            Ok((attr, consumed)) => {
                proof {
                    let sub = attrs.subrange(offset as int, attrs.len() as int);
                    let l = crate::util::be16(sub[2], sub[3]) as int;
                    assert(crate::util::round_up4(l) >= 0);
                    assert(consumed >= 4);
                }
                if attr.attribute_type < 0x8000 && crate::attributes::AttributeType::from_u16(
                    attr.attribute_type,
                ).is_none() {
                    codes.push(attr.attribute_type);
                }
                let remaining: usize = attrs_len - offset;
                if consumed >= remaining {
                    offset = attrs_len;
                } else {
                    offset = offset + consumed;
                }
            },
        }
    }
    Ok(codes)
}

/// The serialized 420 reply enumerating the unrecognized
/// comprehension-required attributes.
#[verifier::opaque]
pub open spec fn spec_unknown_reply(method: MessageMethod, tid: Seq<u8>, codes: Seq<u16>) -> Seq<
    u8,
> {
    let attrs = spec_serialize_attr(0x0009, spec_error_code_value(420, "Unknown Attribute"@))
        + spec_serialize_attr(0x000A, unknown_codes_bytes(codes));
    spec_serialize_message(
        MessageView {
            message_type: MessageType { method, class: MessageClass::ErrorResponse },
            length: attrs.len() as u16,
            transaction_id: tid,
            attributes: attrs,
        },
    )
}

/// Builds the 420 reply enumerating the unrecognized attributes.
fn build_unknown_attrs_reply(
    method: MessageMethod,
    transaction_id: [u8; 12],
    codes: &Vec<u16>,
) -> (r: Vec<u8>)
    requires
        codes@.len() <= 8000,
    ensures
        r@ == spec_unknown_reply(method, transaction_id@, codes@),
{
    proof {
        reveal(spec_unknown_reply);
        reveal_strlit("Unknown Attribute");
        is_ascii_spec_bytes("Unknown Attribute");
        assert(is_ascii("Unknown Attribute"));
    }
    let reason: &str = "Unknown Attribute";
    let mut error_value: Vec<u8> = Vec::new();
    error_value.push(0);
    error_value.push(0);
    error_value.push(4);
    error_value.push(20);
    let mut reason_bytes = reason.as_bytes_vec();
    error_value.append(&mut reason_bytes);
    assert(error_value@ =~= spec_error_code_value(420, "Unknown Attribute"@));

    let mut value: Vec<u8> = Vec::new();
    let n: usize = codes.len();
    let mut i: usize = 0;
    while i < n
        invariant
            i <= n,
            n == codes@.len(),
            value@ =~= unknown_codes_bytes(codes@.subrange(0, i as int)),
        decreases n - i,
    {
        crate::util::push_u16_be(&mut value, codes[i]);
        i = i + 1;
        assert(value@ =~= unknown_codes_bytes(codes@.subrange(0, i as int)));
    }
    assert(codes@.subrange(0, n as int) =~= codes@);

    let error_attr = RawAttribute::new(0x0009, error_value);
    let mut attrs: Vec<u8> = error_attr.serialize();
    proof {
        crate::attributes::lemma_pad_len(4 + encode_utf8("Unknown Attribute"@).len() as int);
        crate::attributes::lemma_pad_len(2 * codes@.len() as int);
    }
    let unknown_attr = RawAttribute::new(0x000A, value);
    let mut unknown_bytes = unknown_attr.serialize();
    attrs.append(&mut unknown_bytes);

    let message = Message {
        message_type: MessageType::new(method, MessageClass::ErrorResponse),
        length: attrs.len() as u16,
        transaction_id,
        attributes: attrs,
    };
    let buf = message.serialize();
    bm_to_vec(&buf)
}

/// The reply owed to a request carrying unrecognized
/// comprehension-required attributes: the 420 enumeration, or a plain
/// rejection for an enumeration too long for one attribute.
pub open spec fn spec_unknown_rejection(
    reply: Seq<u8>,
    method: MessageMethod,
    tid: Seq<u8>,
    codes: Seq<u16>,
) -> bool {
    if codes.len() <= 8000 {
        reply == spec_unknown_reply(method, tid, codes)
    } else {
        spec_plain_error(reply, method, tid, 400, "Bad Request"@)
    }
}

/// Rejects a request that carries unrecognized comprehension-required
/// attributes; a request free of them passes.
fn check_unknown_attributes(message: &Message, method: MessageMethod) -> (r: Option<Vec<u8>>)
    ensures
        match spec_scan_unknown(message@.attributes, 0, Seq::empty()) {
            Err(_) => r matches Some(reply) && spec_plain_error(
                reply@,
                method,
                message@.transaction_id,
                400,
                "Bad Request"@,
            ),
            Ok(codes) => if codes.len() == 0 {
                r is None
            } else {
                r matches Some(reply) && spec_unknown_rejection(
                    reply@,
                    method,
                    message@.transaction_id,
                    codes,
                )
            },
        },
{
    match unknown_required_attributes(message) {
        Err(_) => Some(
            build_error_reply(
                method,
                message.transaction_id,
                400,
                reason_bad_request(),
                None,
                None,
            ),
        ),
        Ok(codes) => {
            if codes.len() == 0 {
                None
            } else if codes.len() <= 8000 {
                Some(build_unknown_attrs_reply(method, message.transaction_id, &codes))
            } else {
                Some(
                    build_error_reply(
                        method,
                        message.transaction_id,
                        400,
                        reason_bad_request(),
                        None,
                        None,
                    ),
                )
            }
        },
    }
}

/// What the credential checks produced: the verified key, or the error
/// reply to send.
pub enum AuthOutcome {
    Accepted(Vec<u8>),
    Rejected(Vec<u8>),
}

/// Runs the credential checks of an authenticated request, in order:
/// Username, Realm and Nonce present, the nonce fresh, the user known, and
/// the integrity tag correct under the user's long-term key. A challenge
/// reply carries the realm and a fresh nonce.
pub fn authenticate_request(
    state: &mut ServerState,
    message: &Message,
    method: MessageMethod,
    username: &Option<String>,
    realm_field: &Option<String>,
    nonce_field: &Option<Vec<u8>>,
    now: u64,
) -> (r: AuthOutcome)
    requires
        old(state).wf(),
    ensures
        final(state).wf(),
        final(state).realm == old(state).realm,
        final(state).users == old(state).users,
        final(state).allocations == old(state).allocations,
        final(state).nonces.spec_lifetime() == old(state).nonces.spec_lifetime(),
        ({
            let check = spec_auth_check(
                message@,
                opt_str_view(*username),
                opt_str_view(*realm_field),
                opt_bytes_view(*nonce_field),
                *old(state),
                now,
            );
            match check {
                AuthCheck::Accepted => r matches AuthOutcome::Accepted(key) && key@
                    == spec_accepted_key(opt_str_view(*username), *old(state)) && *final(state)
                    == *old(state) && opt_str_view(*username) is Some,
                _ => r matches AuthOutcome::Rejected(reply) && spec_auth_rejection(
                    check,
                    reply@,
                    final(state).nonces,
                    method,
                    message@.transaction_id,
                    old(state).realm@,
                    now,
                ),
            }
        }),
{
    proof {
        reveal(spec_auth_check);
    }
    if message.attributes.len() > 0xFFFF {
        let reply = build_error_reply(
            method,
            message.transaction_id,
            400,
            reason_bad_request(),
            None,
            None,
        );
        return AuthOutcome::Rejected(reply);
    }

    let creds_present = match (username, realm_field, nonce_field) {
        (Some(_), Some(_), Some(_)) => true,
        _ => false,
    };
    if !creds_present {
        let nonce = state.nonces.generate_nonce(now);
        let reply = build_error_reply(
            method,
            message.transaction_id,
            401,
            reason_unauthorized(),
            Some(&state.realm),
            Some(&nonce),
        );
        return AuthOutcome::Rejected(reply);
    }

    let uname: &String = match username {
        Some(u) => u,
        None => {
            proof {
                assert(false);
            }
            &state.realm
        },
    };
    let nonce_bytes: &Vec<u8> = match nonce_field {
        Some(nb) => nb,
        None => {
            proof {
                assert(false);
            }
            &state.realm.as_str().as_bytes_vec()
        },
    };

    let nonce_copy: Vec<u8> = nonce_bytes.clone();
    proof {
        assert(nonce_copy@ =~= nonce_bytes@);
    }
    let nonce_valid: bool = match crate::util::utf8_string(nonce_copy) {
        Some(nonce_str) => match state.nonces.validate_nonce(nonce_str.as_str(), now) {
            Ok(()) => true,
            Err(_) => false,
        },
        None => false,
    };
    if !nonce_valid {
        let nonce = state.nonces.generate_nonce(now);
        let reply = build_error_reply(
            method,
            message.transaction_id,
            438,
            reason_stale_nonce(),
            Some(&state.realm),
            Some(&nonce),
        );
        return AuthOutcome::Rejected(reply);
    }

    let password: String = match state.users.get_password(uname.as_str()) {
        Some(p) => p.clone(),
        None => {
            let nonce = state.nonces.generate_nonce(now);
            let reply = build_error_reply(
                method,
                message.transaction_id,
                401,
                reason_unauthorized(),
                Some(&state.realm),
                Some(&nonce),
            );
            return AuthOutcome::Rejected(reply);
        },
    };

    let credentials = Credentials::new(uname.clone(), password, state.realm.clone());
    let key = credentials.compute_key();

    match verify_message_integrity(message, key.as_slice()) {
        Err(_) => {
            let reply = build_error_reply(
                method,
                message.transaction_id,
                400,
                reason_bad_request(),
                None,
                None,
            );
            AuthOutcome::Rejected(reply)
        },
        Ok(true) => AuthOutcome::Accepted(key),
        Ok(false) => {
            match has_message_integrity(message) {
                Ok(true) => {
                    let reply = build_error_reply(
                        method,
                        message.transaction_id,
                        441,
                        reason_wrong_credentials(),
                        None,
                        None,
                    );
                    AuthOutcome::Rejected(reply)
                },
                _ => {
                    let nonce = state.nonces.generate_nonce(now);
                    let reply = build_error_reply(
                        method,
                        message.transaction_id,
                        401,
                        reason_unauthorized(),
                        Some(&state.realm),
                        Some(&nonce),
                    );
                    AuthOutcome::Rejected(reply)
                },
            }
        },
    }
}

/// The same server state, component for component, at the level of their
/// mathematical contents.
pub open spec fn same_state(pre: ServerState, post: ServerState) -> bool {
    &&& post.realm@ == pre.realm@
    &&& post.allocations.allocations@ == pre.allocations.allocations@
    &&& post.allocations.relay_address_pool@ == pre.allocations.relay_address_pool@
    &&& post.nonces.nonces@ == pre.nonces.nonces@
    &&& post.nonces.lifetime == pre.nonces.lifetime
    &&& post.users.users@ == pre.users.users@
}

/// The same allocation table, keyed entry for keyed entry, and the same
/// pool.
pub open spec fn same_allocations(pre: AllocationManager, post: AllocationManager) -> bool {
    &&& post.relay_address_pool@ == pre.relay_address_pool@
    &&& forall|c: SocketAddress| post.spec_alloc_of(c) == pre.spec_alloc_of(c)
}

/// The attributes of an Allocate success reply: the relayed and mapped
/// addresses, XOR-encoded under the transaction id, and the lifetime.
#[verifier::opaque]
pub open spec fn spec_allocate_success_attrs(
    relayed: SocketAddress,
    mapped: SocketAddress,
    lifetime: u32,
    tid: Seq<u8>,
) -> Seq<u8> {
    spec_serialize_attr(0x0016, spec_xor_addr_bytes(relayed, tid)) + spec_serialize_attr(
        0x0020,
        spec_xor_addr_bytes(mapped, tid),
    ) + spec_serialize_attr(0x000D, u32_be(lifetime))
}


/// The behavior of an Allocate request once its attributes are recognized.
pub open spec fn spec_allocate_checked(
    pre: ServerState,
    post: ServerState,
    m: MessageView,
    src: SocketAddress,
    now: u64,
    reply: Seq<u8>,
    req: crate::allocate::AllocateView,
) -> bool {
    ({
            let check = spec_auth_check(m, req.username, req.realm, req.nonce, pre, now);
            match check {
                AuthCheck::Accepted => {
                    let key = spec_accepted_key(req.username, pre);
                    if req.requested_transport != Some(17u8) {
                        same_state(pre, post) && spec_plain_error(
                            reply,
                            MessageMethod::Allocate,
                            m.transaction_id,
                            442,
                            "Unsupported Transport Protocol"@,
                        )
                    } else if pre.allocations.spec_alloc_of(src) is Some {
                        same_state(pre, post) && spec_plain_error(
                            reply,
                            MessageMethod::Allocate,
                            m.transaction_id,
                            437,
                            "Allocation Mismatch"@,
                        )
                    } else if pre.allocations.relay_address_pool@.len() == 0 {
                        same_state(pre, post) && spec_plain_error(
                            reply,
                            MessageMethod::Allocate,
                            m.transaction_id,
                            508,
                            "Insufficient Capacity"@,
                        )
                    } else {
                        let relayed = pre.allocations.relay_address_pool@.last();
                        &&& post.nonces == pre.nonces
                        &&& post.allocations.relay_address_pool@
                            == pre.allocations.relay_address_pool@.drop_last()
                        &&& post.allocations.spec_alloc_of(src) matches Some(a) && a.username@
                            == req.username->0 && a.relayed_address == relayed
                            && a.client_address == src && a.created_at == now && a.lifetime
                            == DEFAULT_ALLOCATION_LIFETIME
                        &&& forall|c: SocketAddress|
                            c != src ==> post.allocations.spec_alloc_of(c)
                                == pre.allocations.spec_alloc_of(c)
                        &&& reply == spec_success_reply(
                            MessageMethod::Allocate,
                            m.transaction_id,
                            spec_allocate_success_attrs(relayed, src, 600, m.transaction_id),
                            key,
                        )
                    }
                },
                _ => {
                    &&& post.allocations == pre.allocations
                    &&& spec_auth_rejection(
                        check,
                        reply,
                        post.nonces,
                        MessageMethod::Allocate,
                        m.transaction_id,
                        pre.realm@,
                        now,
                    )
                },
            }
    })
}
/// Everything an Allocate request does: its parse errors, each credential
/// failure, the transport check, the one-allocation-per-client rule, pool
/// exhaustion, and the success reply with the relayed address.
pub open spec fn spec_allocate_outcome(
    pre: ServerState,
    post: ServerState,
    m: MessageView,
    src: SocketAddress,
    now: u64,
    reply: Seq<u8>,
) -> bool {
    &&& post.users == pre.users
    &&& post.realm == pre.realm
    &&& match spec_parse_allocate(m) {
        Err(_) => same_state(pre, post) && spec_plain_error(
            reply,
            MessageMethod::Allocate,
            m.transaction_id,
            400,
            "Bad Request"@,
        ),
        Ok(req) => {
            match spec_scan_unknown(m.attributes, 0, Seq::empty()) {
                Err(_) => same_state(pre, post) && spec_plain_error(
                    reply,
                    MessageMethod::Allocate,
                    m.transaction_id,
                    400,
                    "Bad Request"@,
                ),
                Ok(unknown) => if unknown.len() != 0 {
                    same_state(pre, post) && spec_unknown_rejection(
                        reply,
                        MessageMethod::Allocate,
                        m.transaction_id,
                        unknown,
                    )
                } else {
                    spec_allocate_checked(pre, post, m, src, now, reply, req)
                },
            }
        },
    }
}

/// Handles an Allocate request and produces the reply datagram.
#[verifier::rlimit(100)]
pub fn handle_allocate(
    state: &mut ServerState,
    message: &Message,
    src_addr: SocketAddress,
    now: u64,
) -> (r: Vec<u8>)
    requires
        old(state).wf(),
    ensures
        final(state).wf(),
        spec_allocate_outcome(*old(state), *final(state), message@, src_addr, now, r@),
{
    let request = match crate::allocate::AllocateRequest::from_message(message) {
        Ok(rq) => rq,
        Err(_) => {
            return build_error_reply(
                MessageMethod::Allocate,
                message.transaction_id,
                400,
                reason_bad_request(),
                None,
                None,
            );
        },
    };

    if let Some(reply) = check_unknown_attributes(message, MessageMethod::Allocate) {
        return reply;
    }

    let key = match authenticate_request(
        state,
        message,
        MessageMethod::Allocate,
        &request.username,
        &request.realm,
        &request.nonce,
        now,
    ) {
        AuthOutcome::Accepted(k) => k,
        AuthOutcome::Rejected(reply) => {
            return reply;
        },
    };

    let transport_ok: bool = match request.requested_transport {
        Some(v) => v == 17,
        None => false,
    };
    if !transport_ok {
        return build_error_reply(
            MessageMethod::Allocate,
            message.transaction_id,
            442,
            reason_unsupported_transport(),
            None,
            None,
        );
    }

    let username: String = match request.username {
        Some(u) => u,
        None => {
            proof {
                assert(false);
            }
            String::new()
        },
    };

    match state.allocations.create_allocation(username, src_addr, now) {
        Err(TurnError::AllocationMismatch) => build_error_reply(
            MessageMethod::Allocate,
            message.transaction_id,
            437,
            reason_allocation_mismatch(),
            None,
            None,
        ),
        Err(_) => build_error_reply(
            MessageMethod::Allocate,
            message.transaction_id,
            508,
            reason_insufficient_capacity(),
            None,
            None,
        ),
        Ok(relayed_address) => {
            let relayed_attr = RawAttribute::new(
                0x0016,
                crate::xoraddr::xor_addr_value(relayed_address, &message.transaction_id),
            );
            let mapped_attr = RawAttribute::new(
                0x0020,
                crate::xoraddr::xor_addr_value(src_addr, &message.transaction_id),
            );
            let mut lifetime_value: Vec<u8> = Vec::new();
            crate::util::push_u32_be(&mut lifetime_value, 600);
            let lifetime_attr = RawAttribute::new(0x000D, lifetime_value);

            let mut attrs: Vec<u8> = relayed_attr.serialize();
            let mut mapped_bytes = mapped_attr.serialize();
            attrs.append(&mut mapped_bytes);
            let mut lifetime_bytes = lifetime_attr.serialize();
            attrs.append(&mut lifetime_bytes);
            proof {
                reveal(spec_allocate_success_attrs);
            }
            assert(attrs@ =~= spec_allocate_success_attrs(
                relayed_address,
                src_addr,
                600,
                message@.transaction_id,
            ));

            build_success_reply(
                MessageMethod::Allocate,
                message.transaction_id,
                attrs,
                key.as_slice(),
            )
        },
    }
}


/// The behavior of a Refresh request once its attributes are recognized.
pub open spec fn spec_refresh_checked(
    pre: ServerState,
    post: ServerState,
    m: MessageView,
    src: SocketAddress,
    now: u64,
    reply: Seq<u8>,
    req: crate::refresh::RefreshView,
) -> bool {
    ({
            let check = spec_auth_check(m, req.username, req.realm, req.nonce, pre, now);
            match check {
                AuthCheck::Accepted => {
                    let key = spec_accepted_key(req.username, pre);
                    if req.lifetime == Some(0u32) {
                        &&& post.nonces.nonces@ == pre.nonces.nonces@
                        &&& post.allocations.spec_alloc_of(src) is None
                        &&& (match pre.allocations.spec_alloc_of(src) {
                            Some(a) => post.allocations.relay_address_pool@
                                == pre.allocations.relay_address_pool@.push(a.relayed_address)
                                && (forall|c: SocketAddress|
                                c != src ==> post.allocations.spec_alloc_of(c)
                                    == pre.allocations.spec_alloc_of(c)),
                            None => post.allocations.allocations@ == pre.allocations.allocations@
                                && post.allocations.relay_address_pool@
                                == pre.allocations.relay_address_pool@,
                        })
                        &&& reply == spec_success_reply(
                            MessageMethod::Refresh,
                            m.transaction_id,
                            spec_serialize_attr(0x000D, u32_be(0)),
                            key,
                        )
                    } else {
                        let lifetime_u32 = (match req.lifetime {
                            Some(l) => l,
                            None => 600u32,
                        });
                        if pre.allocations.spec_alloc_of(src) is None {
                            same_state(pre, post) && spec_plain_error(
                                reply,
                                MessageMethod::Refresh,
                                m.transaction_id,
                                437,
                                "Allocation Mismatch"@,
                            )
                        } else if lifetime_u32 > 3600 {
                            &&& post.nonces.nonces@ == pre.nonces.nonces@
                            &&& same_allocations(pre.allocations, post.allocations)
                            &&& spec_plain_error(
                                reply,
                                MessageMethod::Refresh,
                                m.transaction_id,
                                400,
                                "Bad Request"@,
                            )
                        } else {
                            &&& post.nonces.nonces@ == pre.nonces.nonces@
                            &&& post.allocations.relay_address_pool@
                                == pre.allocations.relay_address_pool@
                            &&& (pre.allocations.spec_alloc_of(src) matches Some(a)
                                && post.allocations.spec_alloc_of(src) == Some(
                                (crate::allocation::Allocation {
                                    lifetime: lifetime_u32 as u64,
                                    created_at: now,
                                    ..a
                                }),
                            ))
                            &&& forall|c: SocketAddress|
                                c != src ==> post.allocations.spec_alloc_of(c)
                                    == pre.allocations.spec_alloc_of(c)
                            &&& reply == spec_success_reply(
                                MessageMethod::Refresh,
                                m.transaction_id,
                                spec_serialize_attr(0x000D, u32_be(lifetime_u32)),
                                key,
                            )
                        }
                    }
                },
                _ => {
                    &&& post.allocations == pre.allocations
                    &&& spec_auth_rejection(
                        check,
                        reply,
                        post.nonces,
                        MessageMethod::Refresh,
                        m.transaction_id,
                        pre.realm@,
                        now,
                    )
                },
            }
    })
}
/// Everything a Refresh request does: deletion on lifetime zero, the
/// lifetime cap, the mismatch on an unknown client, and the success reply
/// echoing the granted lifetime.
pub open spec fn spec_refresh_outcome(
    pre: ServerState,
    post: ServerState,
    m: MessageView,
    src: SocketAddress,
    now: u64,
    reply: Seq<u8>,
) -> bool {
    &&& post.users.users@ == pre.users.users@
    &&& post.realm@ == pre.realm@
    &&& match crate::refresh::spec_parse_refresh(m) {
        Err(_) => same_state(pre, post) && spec_plain_error(
            reply,
            MessageMethod::Refresh,
            m.transaction_id,
            400,
            "Bad Request"@,
        ),
        Ok(req) => {
            match spec_scan_unknown(m.attributes, 0, Seq::empty()) {
                Err(_) => same_state(pre, post) && spec_plain_error(
                    reply,
                    MessageMethod::Refresh,
                    m.transaction_id,
                    400,
                    "Bad Request"@,
                ),
                Ok(unknown) => if unknown.len() != 0 {
                    same_state(pre, post) && spec_unknown_rejection(
                        reply,
                        MessageMethod::Refresh,
                        m.transaction_id,
                        unknown,
                    )
                } else {
                    spec_refresh_checked(pre, post, m, src, now, reply, req)
                },
            }
        },
    }
}

/// Handles a Refresh request and produces the reply datagram.
#[verifier::rlimit(100)]
pub fn handle_refresh(
    state: &mut ServerState,
    message: &Message,
    src_addr: SocketAddress,
    now: u64,
) -> (r: Vec<u8>)
    requires
        old(state).wf(),
    ensures
        final(state).wf(),
        spec_refresh_outcome(*old(state), *final(state), message@, src_addr, now, r@),
{
    let request = match crate::refresh::RefreshRequest::from_message(message) {
        Ok(rq) => rq,
        Err(_) => {
            return build_error_reply(
                MessageMethod::Refresh,
                message.transaction_id,
                400,
                reason_bad_request(),
                None,
                None,
            );
        },
    };

    if let Some(reply) = check_unknown_attributes(message, MessageMethod::Refresh) {
        return reply;
    }

    let key = match authenticate_request(
        state,
        message,
        MessageMethod::Refresh,
        &request.username,
        &request.realm,
        &request.nonce,
        now,
    ) {
        AuthOutcome::Accepted(k) => k,
        AuthOutcome::Rejected(reply) => {
            return reply;
        },
    };

    if request.is_delete_request() {
        let _removed = state.allocations.remove_allocation(&src_addr);
        let mut lifetime_value: Vec<u8> = Vec::new();
        crate::util::push_u32_be(&mut lifetime_value, 0);
        let attrs: Vec<u8> = RawAttribute::new(0x000D, lifetime_value).serialize();
        assert(attrs@ =~= spec_serialize_attr(0x000D, u32_be(0)));
        return build_success_reply(
            MessageMethod::Refresh,
            message.transaction_id,
            attrs,
            key.as_slice(),
        );
    }

    let lifetime_u32: u32 = match request.lifetime {
        Some(l) => l,
        None => 600,
    };

    match state.allocations.refresh_allocation(&src_addr, lifetime_u32 as u64, now) {
        Err(TurnError::AllocationMismatch) => build_error_reply(
            MessageMethod::Refresh,
            message.transaction_id,
            437,
            reason_allocation_mismatch(),
            None,
            None,
        ),
        Err(_) => build_error_reply(
            MessageMethod::Refresh,
            message.transaction_id,
            400,
            reason_bad_request(),
            None,
            None,
        ),
        Ok(()) => {
            let mut lifetime_value: Vec<u8> = Vec::new();
            crate::util::push_u32_be(&mut lifetime_value, lifetime_u32);
            let attrs: Vec<u8> = RawAttribute::new(0x000D, lifetime_value).serialize();
            assert(attrs@ =~= spec_serialize_attr(0x000D, u32_be(lifetime_u32)));
            build_success_reply(
                MessageMethod::Refresh,
                message.transaction_id,
                attrs,
                key.as_slice(),
            )
        },
    }
}


/// The behavior of a CreatePermission request once its attributes are recognized.
pub open spec fn spec_permission_checked(
    pre: ServerState,
    post: ServerState,
    m: MessageView,
    src: SocketAddress,
    now: u64,
    reply: Seq<u8>,
    req: crate::permission::CreatePermissionView,
) -> bool {
    ({
            let check = spec_auth_check(m, req.username, req.realm, req.nonce, pre, now);
            match check {
                AuthCheck::Accepted => {
                    let key = spec_accepted_key(req.username, pre);
                    match pre.allocations.spec_alloc_of(src) {
                        None => same_state(pre, post) && spec_plain_error(
                            reply,
                            MessageMethod::CreatePermission,
                            m.transaction_id,
                            437,
                            "Allocation Mismatch"@,
                        ),
                        Some(a) => {
                            &&& post.nonces.nonces@ == pre.nonces.nonces@
                            &&& post.allocations.relay_address_pool@
                                == pre.allocations.relay_address_pool@
                            &&& post.allocations.spec_alloc_of(src) matches Some(a2)
                                && (forall|p: SocketAddress|
                                req.peer_addresses.contains(p)
                                    ==> a2.spec_permission_time(p) == Some(now)) && (forall|
                                p: SocketAddress,
                            |
                                !req.peer_addresses.contains(p) ==> a2.spec_permission_time(p)
                                    == a.spec_permission_time(p)) && a2.same_but_permissions(a)
                            &&& forall|c: SocketAddress|
                                c != src ==> post.allocations.spec_alloc_of(c)
                                    == pre.allocations.spec_alloc_of(c)
                            &&& reply == spec_success_reply(
                                MessageMethod::CreatePermission,
                                m.transaction_id,
                                Seq::<u8>::empty(),
                                key,
                            )
                        },
                    }
                },
                _ => {
                    &&& post.allocations == pre.allocations
                    &&& spec_auth_rejection(
                        check,
                        reply,
                        post.nonces,
                        MessageMethod::CreatePermission,
                        m.transaction_id,
                        pre.realm@,
                        now,
                    )
                },
            }
    })
}
/// Everything a CreatePermission request does: the mismatch on an unknown
/// client, a permission stamped for every listed peer, and the bare success
/// reply.
pub open spec fn spec_permission_outcome(
    pre: ServerState,
    post: ServerState,
    m: MessageView,
    src: SocketAddress,
    now: u64,
    reply: Seq<u8>,
) -> bool {
    &&& post.users.users@ == pre.users.users@
    &&& post.realm@ == pre.realm@
    &&& match crate::permission::spec_parse_permission(m) {
        Err(_) => same_state(pre, post) && spec_plain_error(
            reply,
            MessageMethod::CreatePermission,
            m.transaction_id,
            400,
            "Bad Request"@,
        ),
        Ok(req) => {
            match spec_scan_unknown(m.attributes, 0, Seq::empty()) {
                Err(_) => same_state(pre, post) && spec_plain_error(
                    reply,
                    MessageMethod::CreatePermission,
                    m.transaction_id,
                    400,
                    "Bad Request"@,
                ),
                Ok(unknown) => if unknown.len() != 0 {
                    same_state(pre, post) && spec_unknown_rejection(
                        reply,
                        MessageMethod::CreatePermission,
                        m.transaction_id,
                        unknown,
                    )
                } else {
                    spec_permission_checked(pre, post, m, src, now, reply, req)
                },
            }
        },
    }
}

/// Handles a CreatePermission request and produces the reply datagram.
#[verifier::rlimit(100)]
pub fn handle_create_permission(
    state: &mut ServerState,
    message: &Message,
    src_addr: SocketAddress,
    now: u64,
) -> (r: Vec<u8>)
    requires
        old(state).wf(),
    ensures
        final(state).wf(),
        spec_permission_outcome(*old(state), *final(state), message@, src_addr, now, r@),
{
    let request = match crate::permission::CreatePermissionRequest::from_message(message) {
        Ok(rq) => rq,
        Err(_) => {
            return build_error_reply(
                MessageMethod::CreatePermission,
                message.transaction_id,
                400,
                reason_bad_request(),
                None,
                None,
            );
        },
    };

    if let Some(reply) = check_unknown_attributes(message, MessageMethod::CreatePermission) {
        return reply;
    }

    let key = match authenticate_request(
        state,
        message,
        MessageMethod::CreatePermission,
        &request.username,
        &request.realm,
        &request.nonce,
        now,
    ) {
        AuthOutcome::Accepted(k) => k,
        AuthOutcome::Rejected(reply) => {
            return reply;
        },
    };

    let present: bool = match state.allocations.get_allocation(&src_addr) {
        Some(_) => true,
        None => false,
    };
    if !present {
        return build_error_reply(
            MessageMethod::CreatePermission,
            message.transaction_id,
            437,
            reason_allocation_mismatch(),
            None,
            None,
        );
    }

    let ghost m0 = state.allocations;
    let ghost a0 = state.allocations.spec_alloc_of(src_addr)->0;
    let n: usize = request.peer_addresses.len();
    let mut i: usize = 0;
    while i < n
        invariant
            i <= n,
            n == request.peer_addresses@.len(),
            state.allocations.wf(),
            state.nonces == old(state).nonces,
            state.users == old(state).users,
            state.realm == old(state).realm,
            m0.spec_alloc_of(src_addr) == Some(a0),
            state.allocations.relay_address_pool@ == m0.relay_address_pool@,
            state.allocations.spec_alloc_of(src_addr) matches Some(cur) && (forall|
                p: SocketAddress,
            |
                request.peer_addresses@.take(i as int).contains(p) ==> cur.spec_permission_time(
                    p,
                ) == Some(now)) && (forall|p: SocketAddress|
                !request.peer_addresses@.take(i as int).contains(p) ==> cur.spec_permission_time(
                    p,
                ) == a0.spec_permission_time(p)) && cur.same_but_permissions(a0),
            forall|c: SocketAddress|
                c != src_addr ==> state.allocations.spec_alloc_of(c) == m0.spec_alloc_of(c),
        decreases n - i,
    {
        let peer: SocketAddress = request.peer_addresses[i];
        let ghost take_old = request.peer_addresses@.take(i as int);
        match state.allocations.add_permission(&src_addr, peer, now) {
            Ok(()) => {},
            Err(_) => {
                proof {
                    assert(false);
                }
            },
        }
        i = i + 1;
        proof {
            let take_new = request.peer_addresses@.take(i as int);
            assert(take_new.drop_last() =~= take_old);
            assert(take_new.last() == request.peer_addresses@[i - 1]);
            assert forall|p: SocketAddress| take_new.contains(p) implies (take_old.contains(p)
                || p == request.peer_addresses@[i - 1]) by {
                let j = choose|j: int| 0 <= j < take_new.len() && take_new[j] == p;
                if j < i - 1 {
                    assert(take_old[j] == p);
                }
            }
            assert forall|p: SocketAddress|
                take_old.contains(p) implies take_new.contains(p) by {
                let j = choose|j: int| 0 <= j < take_old.len() && take_old[j] == p;
                assert(take_new[j] == p);
            }
            assert(take_new.contains(request.peer_addresses@[i - 1])) by {
                assert(take_new[i - 1] == request.peer_addresses@[i - 1]);
            }
        }
    }
    proof {
        assert(request.peer_addresses@.take(n as int) =~= request.peer_addresses@);
    }

    build_success_reply(
        MessageMethod::CreatePermission,
        message.transaction_id,
        Vec::new(),
        key.as_slice(),
    )
}


/// The behavior of a ChannelBind request once its attributes are recognized.
pub open spec fn spec_channel_bind_checked(
    pre: ServerState,
    post: ServerState,
    m: MessageView,
    src: SocketAddress,
    now: u64,
    reply: Seq<u8>,
    acc: crate::channel::ChannelBindScan,
) -> bool {
    ({
            let check = spec_auth_check(m, acc.username, acc.realm, acc.nonce, pre, now);
            let ch = acc.channel_number->0;
            let peer = acc.peer_address->0;
            match check {
                AuthCheck::Accepted => {
                    let key = spec_accepted_key(acc.username, pre);
                    match pre.allocations.spec_alloc_of(src) {
                        None => same_state(pre, post) && spec_plain_error(
                            reply,
                            MessageMethod::ChannelBind,
                            m.transaction_id,
                            437,
                            "Allocation Mismatch"@,
                        ),
                        Some(a) => {
                            if (a.spec_peer_of_channel(ch) is None || a.spec_peer_of_channel(ch)
                                == Some(peer)) && !a.spec_peer_bound_elsewhere(ch, peer) {
                                &&& post.nonces.nonces@ == pre.nonces.nonces@
                                &&& post.allocations.relay_address_pool@
                                    == pre.allocations.relay_address_pool@
                                &&& post.allocations.spec_alloc_of(src) matches Some(a2)
                                    && a2.spec_peer_of_channel(ch) == Some(peer) && (forall|
                                    c: u16,
                                |
                                    c != ch ==> a2.spec_peer_of_channel(c)
                                        == a.spec_peer_of_channel(c))
                                    && a2.spec_permission_time(peer) == Some(now) && (forall|
                                    p: SocketAddress,
                                |
                                    p != peer ==> a2.spec_permission_time(p)
                                        == a.spec_permission_time(p)) && a2.username == a.username
                                    && a2.relayed_address == a.relayed_address
                                    && a2.client_address == a.client_address && a2.created_at
                                    == a.created_at && a2.lifetime == a.lifetime
                                &&& forall|c: SocketAddress|
                                    c != src ==> post.allocations.spec_alloc_of(c)
                                        == pre.allocations.spec_alloc_of(c)
                                &&& reply == spec_success_reply(
                                    MessageMethod::ChannelBind,
                                    m.transaction_id,
                                    Seq::<u8>::empty(),
                                    key,
                                )
                            } else {
                                &&& post.nonces.nonces@ == pre.nonces.nonces@
                                &&& same_allocations(pre.allocations, post.allocations)
                                &&& spec_plain_error(
                                    reply,
                                    MessageMethod::ChannelBind,
                                    m.transaction_id,
                                    400,
                                    "Bad Request"@,
                                )
                            }
                        },
                    }
                },
                _ => {
                    &&& post.allocations == pre.allocations
                    &&& spec_auth_rejection(
                        check,
                        reply,
                        post.nonces,
                        MessageMethod::ChannelBind,
                        m.transaction_id,
                        pre.realm@,
                        now,
                    )
                },
            }
    })
}
/// Everything a ChannelBind request does: the mismatch on an unknown
/// client, the binding rules, and the bare success reply.
pub open spec fn spec_channel_bind_outcome(
    pre: ServerState,
    post: ServerState,
    m: MessageView,
    src: SocketAddress,
    now: u64,
    reply: Seq<u8>,
) -> bool {
    &&& post.users.users@ == pre.users.users@
    &&& post.realm@ == pre.realm@
    &&& match crate::channel::spec_parse_channel_bind(m) {
        Err(_) => same_state(pre, post) && spec_plain_error(
            reply,
            MessageMethod::ChannelBind,
            m.transaction_id,
            400,
            "Bad Request"@,
        ),
        Ok(acc) => {
            match spec_scan_unknown(m.attributes, 0, Seq::empty()) {
                Err(_) => same_state(pre, post) && spec_plain_error(
                    reply,
                    MessageMethod::ChannelBind,
                    m.transaction_id,
                    400,
                    "Bad Request"@,
                ),
                Ok(unknown) => if unknown.len() != 0 {
                    same_state(pre, post) && spec_unknown_rejection(
                        reply,
                        MessageMethod::ChannelBind,
                        m.transaction_id,
                        unknown,
                    )
                } else {
                    spec_channel_bind_checked(pre, post, m, src, now, reply, acc)
                },
            }
        },
    }
}

/// Handles a ChannelBind request and produces the reply datagram.
#[verifier::rlimit(100)]
pub fn handle_channel_bind(
    state: &mut ServerState,
    message: &Message,
    src_addr: SocketAddress,
    now: u64,
) -> (r: Vec<u8>)
    requires
        old(state).wf(),
    ensures
        final(state).wf(),
        spec_channel_bind_outcome(*old(state), *final(state), message@, src_addr, now, r@),
{
    let request = match crate::channel::ChannelBindRequest::from_message(message) {
        Ok(rq) => rq,
        Err(_) => {
            return build_error_reply(
                MessageMethod::ChannelBind,
                message.transaction_id,
                400,
                reason_bad_request(),
                None,
                None,
            );
        },
    };

    if let Some(reply) = check_unknown_attributes(message, MessageMethod::ChannelBind) {
        return reply;
    }

    let key = match authenticate_request(
        state,
        message,
        MessageMethod::ChannelBind,
        &request.username,
        &request.realm,
        &request.nonce,
        now,
    ) {
        AuthOutcome::Accepted(k) => k,
        AuthOutcome::Rejected(reply) => {
            return reply;
        },
    };

    match state.allocations.add_channel_binding(
        &src_addr,
        request.channel_number,
        request.peer_address,
        now,
    ) {
        Err(TurnError::AllocationMismatch) => build_error_reply(
            MessageMethod::ChannelBind,
            message.transaction_id,
            437,
            reason_allocation_mismatch(),
            None,
            None,
        ),
        Err(_) => build_error_reply(
            MessageMethod::ChannelBind,
            message.transaction_id,
            400,
            reason_bad_request(),
            None,
            None,
        ),
        Ok(()) => build_success_reply(
            MessageMethod::ChannelBind,
            message.transaction_id,
            Vec::new(),
            key.as_slice(),
        ),
    }
}

/// After the relay socket of a freshly filed allocation failed to bind:
/// the allocation is unfiled so its address returns to the pool, and the
/// client is answered 508 instead of the success reply.
pub fn handle_relay_bind_failure(
    state: &mut ServerState,
    transaction_id: [u8; 12],
    client_address: SocketAddress,
) -> (r: Vec<u8>)
    requires
        old(state).wf(),
    ensures
        final(state).wf(),
        final(state).realm == old(state).realm,
        final(state).users == old(state).users,
        final(state).nonces == old(state).nonces,
        final(state).allocations.spec_alloc_of(client_address) is None,
        match old(state).allocations.spec_alloc_of(client_address) {
            Some(a) => final(state).allocations.relay_address_pool@ == old(
                state,
            ).allocations.relay_address_pool@.push(a.relayed_address) && (forall|
                c: SocketAddress,
            |
                c != client_address ==> final(state).allocations.spec_alloc_of(c) == old(
                    state,
                ).allocations.spec_alloc_of(c)),
            None => final(state).allocations.allocations@ == old(state).allocations.allocations@
                && final(state).allocations.relay_address_pool@ == old(
                state,
            ).allocations.relay_address_pool@,
        },
        spec_plain_error(
            r@,
            MessageMethod::Allocate,
            transaction_id@,
            508,
            "Insufficient Capacity"@,
        ),
{
    let _removed = state.allocations.remove_allocation(&client_address);
    build_error_reply(
        MessageMethod::Allocate,
        transaction_id,
        508,
        reason_insufficient_capacity(),
        None,
        None,
    )
}

/// What a Send indication does: relay the datagram to the peer out of the
/// sender's relay socket, but only with an allocation and a live
/// permission; otherwise it is dropped without a word.
pub open spec fn spec_send_outcome(
    st: ServerState,
    m: MessageView,
    src: SocketAddress,
    now: u64,
    r: Option<Action>,
) -> bool {
    match crate::data::spec_parse_indication(m, MessageMethod::Send) {
        Err(_) => r is None,
        Ok((peer, data)) => match st.allocations.spec_alloc_of(src) {
            None => r is None,
            Some(a) => if a.spec_has_permission(peer, now) {
                r matches Some(Action::RelaySend { client, peer: p2, data: d2 }) && client == src
                    && p2 == peer && d2@ == data
            } else {
                r is None
            },
        },
    }
}

/// Handles a Send indication; no reply ever, at most a relayed datagram.
pub fn handle_send(state: &ServerState, message: &Message, src_addr: SocketAddress, now: u64) -> (r:
    Option<Action>)
    requires
        state.wf(),
    ensures
        spec_send_outcome(*state, message@, src_addr, now, r),
{
    let indication = match crate::data::SendIndication::from_message(message) {
        Ok(ind) => ind,
        Err(_) => {
            return None;
        },
    };

    let allocation = match state.allocations.get_allocation(&src_addr) {
        Some(a) => a,
        None => {
            return None;
        },
    };
    proof {
        crate::allocation::lemma_alloc_of_wf(state.allocations, src_addr);
    }

    if allocation.has_permission(&indication.peer_address, now) {
        Some(
            Action::RelaySend {
                client: src_addr,
                peer: indication.peer_address,
                data: indication.data,
            },
        )
    } else {
        None
    }
}

/// What a ChannelData frame from the client does: relay the payload to the
/// bound peer, or nothing when the channel is not bound or the client has
/// no allocation.
pub open spec fn spec_channel_data_outcome(
    st: ServerState,
    ch: u16,
    payload: Seq<u8>,
    src: SocketAddress,
    r: Option<Action>,
) -> bool {
    match st.allocations.spec_alloc_of(src) {
        None => r is None,
        Some(a) => match a.spec_peer_of_channel(ch) {
            None => r is None,
            Some(peer) => r matches Some(Action::RelaySend { client, peer: p2, data }) && client
                == src && p2 == peer && data@ == payload,
        },
    }
}

/// Handles a ChannelData frame from a client.
pub fn handle_channel_data(
    state: &ServerState,
    channel_data: crate::channel::ChannelData,
    src_addr: SocketAddress,
) -> (r: Option<Action>)
    requires
        state.wf(),
    ensures
        spec_channel_data_outcome(
            *state,
            channel_data.channel_number,
            channel_data.data@,
            src_addr,
            r,
        ),
{
    let allocation = match state.allocations.get_allocation(&src_addr) {
        Some(a) => a,
        None => {
            return None;
        },
    };
    proof {
        crate::allocation::lemma_alloc_of_wf(state.allocations, src_addr);
    }

    match allocation.get_peer_by_channel(channel_data.channel_number) {
        Some(peer_addr) => Some(
            Action::RelaySend { client: src_addr, peer: peer_addr, data: channel_data.data },
        ),
        None => None,
    }
}

/// What a datagram from a peer does: back to the client as a ChannelData
/// frame if a channel is bound to the peer, as a Data indication if the
/// peer holds a live permission, and dropped otherwise. Oversized payloads
/// are dropped.
pub open spec fn spec_peer_data_outcome(
    st: ServerState,
    client: SocketAddress,
    peer: SocketAddress,
    data: Seq<u8>,
    now: u64,
    r: Option<Vec<u8>>,
) -> bool {
    match st.allocations.spec_alloc_of(client) {
        None => r is None,
        Some(a) => if exists|ch: u16| a.spec_peer_of_channel(ch) == Some(peer) {
            if data.len() <= 0xFFFF {
                r matches Some(b) && exists|ch: u16|
                    #![auto]
                    a.spec_peer_of_channel(ch) == Some(peer) && b@
                        == crate::channel::spec_serialize_channel_data(ch, data)
            } else {
                r is None
            }
        } else if a.spec_has_permission(peer, now) {
            if data.len() + 31 <= 0xFFFF {
                r matches Some(b) && exists|tid: Seq<u8>|
                    #![auto]
                    tid.len() == 12 && b@ == spec_serialize_message(
                        MessageView {
                            message_type: MessageType {
                                method: MessageMethod::Data,
                                class: MessageClass::Indication,
                            },
                            length: crate::data::spec_indication_attrs(peer, data, tid).len() as u16,
                            transaction_id: tid,
                            attributes: crate::data::spec_indication_attrs(peer, data, tid),
                        },
                    )
            } else {
                r is None
            }
        } else {
            r is None
        },
    }
}

/// Handles a datagram a peer sent to a client's relay address: the bytes to
/// write back to the client, if any.
pub fn handle_peer_data(
    state: &ServerState,
    client_address: SocketAddress,
    peer_address: SocketAddress,
    data: Vec<u8>,
    now: u64,
) -> (r: Option<Vec<u8>>)
    requires
        state.wf(),
    ensures
        spec_peer_data_outcome(*state, client_address, peer_address, data@, now, r),
{
    let allocation = match state.allocations.get_allocation(&client_address) {
        Some(a) => a,
        None => {
            return None;
        },
    };
    proof {
        crate::allocation::lemma_alloc_of_wf(state.allocations, client_address);
    }

    match allocation.get_channel_by_peer(&peer_address) {
        Some(channel_number) => {
            if data.len() > 0xFFFF {
                return None;
            }
            let frame = crate::channel::ChannelData { channel_number, data };
            Some(frame.serialize())
        },
        None => {
            if allocation.has_permission(&peer_address, now) {
                if data.len() > 0xFFFF - 31 {
                    return None;
                }
                let indication = crate::data::DataIndication::new(peer_address, data);
                let message = indication.to_message();
                let buf = message.serialize();
                Some(bm_to_vec(&buf))
            } else {
                None
            }
        },
    }
}

/// What one STUN request does, by its method; the unhandled methods are
/// dropped without a reply.
pub open spec fn spec_request_outcome(
    pre: ServerState,
    post: ServerState,
    m: MessageView,
    src: SocketAddress,
    now: u64,
    r: Option<Action>,
) -> bool {
    match m.message_type.method {
        MessageMethod::Allocate => r matches Some(Action::Reply(b)) && spec_allocate_outcome(
            pre,
            post,
            m,
            src,
            now,
            b@,
        ),
        MessageMethod::Refresh => r matches Some(Action::Reply(b)) && spec_refresh_outcome(
            pre,
            post,
            m,
            src,
            now,
            b@,
        ),
        MessageMethod::CreatePermission => r matches Some(Action::Reply(b))
            && spec_permission_outcome(pre, post, m, src, now, b@),
        MessageMethod::ChannelBind => r matches Some(Action::Reply(b))
            && spec_channel_bind_outcome(pre, post, m, src, now, b@),
        _ => r is None && post == pre,
    }
}

/// Handles one STUN request, dispatching on its method.
pub fn handle_request(
    state: &mut ServerState,
    message: &Message,
    src_addr: SocketAddress,
    now: u64,
) -> (r: Option<Action>)
    requires
        old(state).wf(),
    ensures
        final(state).wf(),
        spec_request_outcome(*old(state), *final(state), message@, src_addr, now, r),
{
    match message.message_type.method() {
        MessageMethod::Allocate => Some(
            Action::Reply(handle_allocate(state, message, src_addr, now)),
        ),
        MessageMethod::Refresh => Some(
            Action::Reply(handle_refresh(state, message, src_addr, now)),
        ),
        MessageMethod::CreatePermission => Some(
            Action::Reply(handle_create_permission(state, message, src_addr, now)),
        ),
        MessageMethod::ChannelBind => Some(
            Action::Reply(handle_channel_bind(state, message, src_addr, now)),
        ),
        _ => None,
    }
}

/// Handles one STUN indication; only Send is acted on.
pub fn handle_indication(
    state: &ServerState,
    message: &Message,
    src_addr: SocketAddress,
    now: u64,
) -> (r: Option<Action>)
    requires
        state.wf(),
    ensures
        match message@.message_type.method {
            MessageMethod::Send => spec_send_outcome(*state, message@, src_addr, now, r),
            _ => r is None,
        },
{
    match message.message_type.method() {
        MessageMethod::Send => handle_send(state, message, src_addr, now),
        _ => None,
    }
}

/// Takes one datagram from the listening socket through the whole pipeline:
/// STUN requests are answered, STUN indications relay or drop, and bytes
/// whose leading half-word names a channel are treated as ChannelData.
pub fn handle_message(state: &mut ServerState, data: &[u8], src_addr: SocketAddress, now: u64) -> (r:
    Option<Action>)
    requires
        old(state).wf(),
    ensures
        final(state).wf(),
        match crate::message::spec_parse_message(data@) {
            Ok(m) => match m.message_type.class {
                MessageClass::Request => spec_request_outcome(
                    *old(state),
                    *final(state),
                    m,
                    src_addr,
                    now,
                    r,
                ),
                MessageClass::Indication => *final(state) == *old(state) && (
                match m.message_type.method {
                    MessageMethod::Send => spec_send_outcome(*old(state), m, src_addr, now, r),
                    _ => r is None,
                }),
                _ => *final(state) == *old(state) && r is None,
            },
            Err(_) => *final(state) == *old(state) && (if data@.len() >= 4
                && crate::allocation::spec_channel_in_range(
                crate::util::be16(data@[0], data@[1]),
            ) {
                match crate::channel::spec_parse_channel_data(data@) {
                    Ok((ch, payload)) => spec_channel_data_outcome(
                        *old(state),
                        ch,
                        payload,
                        src_addr,
                        r,
                    ),
                    Err(_) => r is None,
                }
            } else {
                r is None
            }),
        },
{
    match Message::parse(data) {
        Ok(message) => {
            match message.message_type.class() {
                MessageClass::Request => handle_request(state, &message, src_addr, now),
                MessageClass::Indication => handle_indication(state, &message, src_addr, now),
                _ => None,
            }
        },
        Err(_) => {
            if data.len() >= 4 {
                let channel_number = crate::util::read_u16_be(data, 0);
                if channel_number >= 0x4000 && channel_number <= 0x7FFF {
                    match crate::channel::ChannelData::parse(data) {
                        Ok(channel_data) => handle_channel_data(state, channel_data, src_addr),
                        Err(_) => None,
                    }
                } else {
                    None
                }
            } else {
                None
            }
        },
    }
}

/// How a server is set up: where it listens, its realm, and the block of
/// relay addresses it may hand out.
#[derive(Debug, Clone)]
pub struct TurnServerConfig {
    pub listen_address: SocketAddress,
    pub realm: String,
    pub relay_address_start: SocketAddress,
    pub relay_address_count: u16,
}

impl Default for TurnServerConfig {
    /// Listening everywhere on the default port, a hundred relay ports from
    /// 49152 up, and an example realm.
    fn default() -> (r: Self)
        ensures
            r.listen_address == (SocketAddress {
                ip: crate::addr::IpAddress::V4(0),
                port: 3478,
            }),
            r.realm@ == "turn.example.com"@,
            r.relay_address_start == (SocketAddress {
                ip: crate::addr::IpAddress::V4(0),
                port: 49152,
            }),
            r.relay_address_count == 100,
    {
        TurnServerConfig {
            listen_address: SocketAddress { ip: crate::addr::IpAddress::V4(0), port: 3478 },
            realm: String::from_str("turn.example.com"),
            relay_address_start: SocketAddress {
                ip: crate::addr::IpAddress::V4(0),
                port: 49152,
            },
            relay_address_count: 100,
        }
    }
}

} // verus!
