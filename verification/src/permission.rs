//! The CreatePermission request: reads the peer addresses and the credential
//! attributes out of a CreatePermission message, and the shapes of its
//! replies.

use vstd::prelude::*;
use vstd::slice::slice_subrange;
use vstd::utf8::{valid_utf8, decode_utf8};
use crate::addr::SocketAddress;
use crate::attributes::{RawAttribute, AttributeType, spec_attr_type_from_u16, spec_parse_attr};
use crate::errors::{StunError, TurnError};
use crate::message::{Message, MessageView, MessageMethod, MessageClass};
use crate::xoraddr::{parse_xor_peer_address, spec_parse_xor_addr};

verus! {

#[derive(Debug, Clone)]
pub struct CreatePermissionRequest {
    pub transaction_id: [u8; 12],
    pub peer_addresses: Vec<SocketAddress>,
    pub username: Option<String>,
    pub realm: Option<String>,
    pub nonce: Option<Vec<u8>>,
}

/// The mathematical value of a CreatePermission request.
#[verifier::ext_equal]
pub struct CreatePermissionView {
    pub transaction_id: Seq<u8>,
    pub peer_addresses: Seq<SocketAddress>,
    pub username: Option<Seq<char>>,
    pub realm: Option<Seq<char>>,
    pub nonce: Option<Seq<u8>>,
}

impl View for CreatePermissionRequest {
    type V = CreatePermissionView;

    open spec fn view(&self) -> CreatePermissionView {
        CreatePermissionView {
            transaction_id: self.transaction_id@,
            peer_addresses: self.peer_addresses@,
            username: match self.username {
                Some(s) => Some(s@),
                None => None,
            },
            realm: match self.realm {
                Some(s) => Some(s@),
                None => None,
            },
            nonce: match self.nonce {
                Some(v) => Some(v@),
                None => None,
            },
        }
    }
}

/// What one attribute does to the fields gathered so far; a peer address
/// that does not decode is passed over.
pub open spec fn permission_step(acc: CreatePermissionView, t: u16, v: Seq<u8>, tid: Seq<u8>) -> CreatePermissionView {
    match spec_attr_type_from_u16(t) {
        Some(AttributeType::XorPeerAddress) => match spec_parse_xor_addr(v, tid) {
            Some(addr) => CreatePermissionView {
                peer_addresses: acc.peer_addresses.push(addr),
                ..acc
            },
            None => acc,
        },
        Some(AttributeType::Username) => CreatePermissionView {
            username: if valid_utf8(v) {
                Some(decode_utf8(v))
            } else {
                None
            },
            ..acc
        },
        Some(AttributeType::Realm) => CreatePermissionView {
            realm: if valid_utf8(v) {
                Some(decode_utf8(v))
            } else {
                None
            },
            ..acc
        },
        Some(AttributeType::Nonce) => CreatePermissionView { nonce: Some(v), ..acc },
        _ => acc,
    }
}

/// The fields gathered from the attribute bytes, scanning from `off` with
/// `acc` gathered so far.
pub open spec fn spec_scan_permission(
    attrs: Seq<u8>,
    off: int,
    acc: CreatePermissionView,
    tid: Seq<u8>,
) -> Result<CreatePermissionView, StunError>
    decreases attrs.len() - off,
{
    if off >= attrs.len() || off < 0 {
        Ok(acc)
    } else {
        match spec_parse_attr(attrs.subrange(off, attrs.len() as int)) {
            Err(e) => Err(e),
            Ok((t, v, c)) => {
                let acc2 = permission_step(acc, t, v, tid);
                if off + c >= attrs.len() {
                    Ok(acc2)
                } else {
                    spec_scan_permission(attrs, off + c, acc2, tid)
                }
            },
        }
    }
}

/// No fields yet, only the transaction id.
pub open spec fn init_permission(m: MessageView) -> CreatePermissionView {
    CreatePermissionView {
        transaction_id: m.transaction_id,
        peer_addresses: Seq::empty(),
        username: None,
        realm: None,
        nonce: None,
    }
}

/// A CreatePermission request read out of a message: the right method and
/// class, the attribute scan, and at least one peer address.
pub open spec fn spec_parse_permission(m: MessageView) -> Result<CreatePermissionView, TurnError> {
    if m.message_type.method != MessageMethod::CreatePermission || m.message_type.class
        != MessageClass::Request {
        Err(TurnError::BadRequest)
    } else {
        match spec_scan_permission(m.attributes, 0, init_permission(m), m.transaction_id) {
            Err(e) => Err(TurnError::StunError(e)),
            Ok(acc) => if acc.peer_addresses.len() == 0 {
                Err(TurnError::BadRequest)
            } else {
                Ok(acc)
            },
        }
    }
}

impl CreatePermissionRequest {
    pub fn from_message(message: &Message) -> (r: Result<Self, TurnError>)
        ensures
            match r {
                Ok(req) => spec_parse_permission(message@) == Ok::<
                    CreatePermissionView,
                    TurnError,
                >(req@),
                Err(e) => spec_parse_permission(message@) == Err::<
                    CreatePermissionView,
                    TurnError,
                >(e),
            },
    {
        if !(message.message_type.method() == MessageMethod::CreatePermission
            && message.message_type.class() == MessageClass::Request) {
            return Err(TurnError::BadRequest);
        }

        let mut request = CreatePermissionRequest {
            transaction_id: message.transaction_id,
            peer_addresses: Vec::new(),
            username: None,
            realm: None,
            nonce: None,
        };
        assert(request@ =~~= init_permission(message@));

        let ghost attrs = message@.attributes;
        let ghost tid = message@.transaction_id;
        let attrs_len: usize = message.attributes.len();
        let mut offset: usize = 0;

        while offset < attrs_len
            invariant
                attrs == message@.attributes,
                tid == message@.transaction_id,
                attrs_len == attrs.len(),
                offset <= attrs_len,
                message@.message_type.method == MessageMethod::CreatePermission,
                message@.message_type.class == MessageClass::Request,
                spec_scan_permission(attrs, 0, init_permission(message@), tid)
                    == spec_scan_permission(attrs, offset as int, request@, tid),
            decreases attrs.len() - offset,
        {
            let attr_slice = slice_subrange(message.attributes.as_slice(), offset, attrs_len);
            match RawAttribute::parse(attr_slice) {
                Err(e) => {
                    return Err(TurnError::StunError(e));
                },
                Ok((attr, consumed)) => {
                    proof {
                        let sub = attrs.subrange(offset as int, attrs.len() as int);
                        let l = crate::util::be16(sub[2], sub[3]) as int;
                        assert(crate::util::round_up4(l) >= 0);
                        assert(consumed >= 4);
                    }
                    let ghost pre = request@;
                    let ghost vv = attr.value@;
                    let attr_type = attr.attribute_type;
                    match AttributeType::from_u16(attr.attribute_type) {
                        Some(AttributeType::XorPeerAddress) => {
                            if let Some(addr) = parse_xor_peer_address(
                                attr.value.as_slice(),
                                &message.transaction_id,
                            ) {
                                request.peer_addresses.push(addr);
                            }
                        },
                        Some(AttributeType::Username) => {
                            request.username = crate::util::utf8_string(attr.value);
                        },
                        Some(AttributeType::Realm) => {
                            request.realm = crate::util::utf8_string(attr.value);
                        },
                        Some(AttributeType::Nonce) => {
                            request.nonce = Some(attr.value);
                        },
                        _ => {},
                    }
                    assert(request@ =~~= permission_step(pre, attr_type, vv, tid));
                    let remaining: usize = attrs_len - offset;
                    if consumed >= remaining {
                        offset = attrs_len;
                    } else {
                        offset = offset + consumed;
                    }
                },
            }
        }

        if request.peer_addresses.len() == 0 {
            return Err(TurnError::BadRequest);
        }

        Ok(request)
    }
}

#[derive(Debug, Clone)]
pub struct CreatePermissionResponse {
    pub transaction_id: [u8; 12],
    pub error_code: Option<(u16, String)>,
    pub realm: Option<String>,
    pub nonce: Option<Vec<u8>>,
}

impl CreatePermissionResponse {
    pub fn success(transaction_id: [u8; 12]) -> (r: Self)
        ensures
            r.transaction_id@ == transaction_id@,
            r.error_code is None,
            r.realm is None,
            r.nonce is None,
    {
        CreatePermissionResponse { transaction_id, error_code: None, realm: None, nonce: None }
    }

    pub fn error(
        transaction_id: [u8; 12],
        error_code: u16,
        error_reason: String,
        realm: Option<String>,
        nonce: Option<Vec<u8>>,
    ) -> (r: Self)
        ensures
            r.transaction_id@ == transaction_id@,
            r.error_code matches Some((c, s)) && c == error_code && s@ == error_reason@,
            r.realm == realm,
            r.nonce == nonce,
    {
        CreatePermissionResponse {
            transaction_id,
            error_code: Some((error_code, error_reason)),
            realm,
            nonce,
        }
    }
}

} // verus!
