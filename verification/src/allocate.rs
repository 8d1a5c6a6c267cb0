//! The Allocate request: reads the requested transport and the credential
//! attributes out of an Allocate message, and the shapes of its replies.

use vstd::prelude::*;
use vstd::slice::slice_subrange;
use vstd::utf8::{valid_utf8, decode_utf8};
use crate::addr::SocketAddress;
use crate::attributes::{RawAttribute, AttributeType, spec_attr_type_from_u16, spec_parse_attr};
use crate::errors::{StunError, TurnError};
use crate::message::{Message, MessageView, MessageMethod, MessageClass};

verus! {

#[derive(Debug, Clone)]
pub struct AllocateRequest {
    pub transaction_id: [u8; 12],
    pub requested_transport: Option<u8>,
    pub dont_fragment: bool,
    pub reservation_token: Option<[u8; 8]>,
    pub even_port: bool,
    pub requested_address_family: Option<u8>,
    pub username: Option<String>,
    pub realm: Option<String>,
    pub nonce: Option<Vec<u8>>,
}

/// The mathematical value of an Allocate request.
#[verifier::ext_equal]
pub struct AllocateView {
    pub transaction_id: Seq<u8>,
    pub requested_transport: Option<u8>,
    pub username: Option<Seq<char>>,
    pub realm: Option<Seq<char>>,
    pub nonce: Option<Seq<u8>>,
}

impl View for AllocateRequest {
    type V = AllocateView;

    open spec fn view(&self) -> AllocateView {
        AllocateView {
            transaction_id: self.transaction_id@,
            requested_transport: self.requested_transport,
            username: match self.username {
                Some(s) => Some(s@),
                None => None,
            },
            realm: match self.realm {
                Some(s) => Some(s@),
                None => None,
            },
            nonce: match self.nonce {
                Some(v) => Some(v@),
                None => None,
            },
        }
    }
}

/// What one attribute does to the fields gathered so far.
pub open spec fn allocate_step(acc: AllocateView, t: u16, v: Seq<u8>) -> AllocateView {
    match spec_attr_type_from_u16(t) {
        Some(AttributeType::RequestedTransport) => if v.len() >= 4 {
            AllocateView { requested_transport: Some(v[0]), ..acc }
        } else {
            acc
        },
        Some(AttributeType::Username) => AllocateView {
            username: if valid_utf8(v) {
                Some(decode_utf8(v))
            } else {
                None
            },
            ..acc
        },
        Some(AttributeType::Realm) => AllocateView {
            realm: if valid_utf8(v) {
                Some(decode_utf8(v))
            } else {
                None
            },
            ..acc
        },
        Some(AttributeType::Nonce) => AllocateView { nonce: Some(v), ..acc },
        _ => acc,
    }
}

/// The fields gathered from the attribute bytes, scanning from `off` with
/// `acc` gathered so far.
pub open spec fn spec_scan_allocate(attrs: Seq<u8>, off: int, acc: AllocateView) -> Result<
    AllocateView,
    StunError,
>
    decreases attrs.len() - off,
{
    if off >= attrs.len() || off < 0 {
        Ok(acc)
    } else {
        match spec_parse_attr(attrs.subrange(off, attrs.len() as int)) {
            Err(e) => Err(e),
            Ok((t, v, c)) => {
                let acc2 = allocate_step(acc, t, v);
                if off + c >= attrs.len() {
                    Ok(acc2)
                } else {
                    spec_scan_allocate(attrs, off + c, acc2)
                }
            },
        }
    }
}

/// No fields yet, only the transaction id.
pub open spec fn init_allocate(m: MessageView) -> AllocateView {
    AllocateView {
        transaction_id: m.transaction_id,
        requested_transport: None,
        username: None,
        realm: None,
        nonce: None,
    }
}

/// An Allocate request read out of a message: the right method and class,
/// then the attribute scan.
pub open spec fn spec_parse_allocate(m: MessageView) -> Result<AllocateView, TurnError> {
    if m.message_type.method != MessageMethod::Allocate || m.message_type.class
        != MessageClass::Request {
        Err(TurnError::BadRequest)
    } else {
        match spec_scan_allocate(m.attributes, 0, init_allocate(m)) {
            Err(e) => Err(TurnError::StunError(e)),
            Ok(acc) => Ok(acc),
        }
    }
}

impl AllocateRequest {
    pub fn from_message(message: &Message) -> (r: Result<Self, TurnError>)
        ensures
            match r {
                Ok(req) => spec_parse_allocate(message@) == Ok::<AllocateView, TurnError>(req@)
                    && req.dont_fragment == false && req.reservation_token is None
                    && req.even_port == false && req.requested_address_family is None,
                Err(e) => spec_parse_allocate(message@) == Err::<AllocateView, TurnError>(e),
            },
    {
        if !(message.message_type.method() == MessageMethod::Allocate
            && message.message_type.class() == MessageClass::Request) {
            return Err(TurnError::BadRequest);
        }

        let mut request = AllocateRequest {
            transaction_id: message.transaction_id,
            requested_transport: None,
            dont_fragment: false,
            reservation_token: None,
            even_port: false,
            requested_address_family: None,
            username: None,
            realm: None,
            nonce: None,
        };
        assert(request@ =~~= init_allocate(message@));

        let ghost attrs = message@.attributes;
        let attrs_len: usize = message.attributes.len();
        let mut offset: usize = 0;

        while offset < attrs_len
            invariant
                attrs == message@.attributes,
                attrs_len == attrs.len(),
                offset <= attrs_len,
                message@.message_type.method == MessageMethod::Allocate,
                message@.message_type.class == MessageClass::Request,
                request.dont_fragment == false,
                request.reservation_token is None,
                request.even_port == false,
                request.requested_address_family is None,
                spec_scan_allocate(attrs, 0, init_allocate(message@)) == spec_scan_allocate(
                    attrs,
                    offset as int,
                    request@,
                ),
            decreases attrs.len() - offset,
        {
            let attr_slice = slice_subrange(message.attributes.as_slice(), offset, attrs_len);
            match RawAttribute::parse(attr_slice) {
                Err(e) => {
                    return Err(TurnError::StunError(e));
                },
                Ok((attr, consumed)) => {
                    proof {
                        let sub = attrs.subrange(offset as int, attrs.len() as int);
                        let l = crate::util::be16(sub[2], sub[3]) as int;
                        assert(crate::util::round_up4(l) >= 0);
                        assert(consumed >= 4);
                    }
                    let ghost pre = request@;
                    let ghost vv = attr.value@;
                    let attr_type = attr.attribute_type;
                    match AttributeType::from_u16(attr.attribute_type) {
                        Some(AttributeType::RequestedTransport) => {
                            if attr.value.len() >= 4 {
                                request.requested_transport = Some(attr.value[0]);
                            }
                        },
                        Some(AttributeType::Username) => {
                            request.username = crate::util::utf8_string(attr.value);
                        },
                        Some(AttributeType::Realm) => {
                            request.realm = crate::util::utf8_string(attr.value);
                        },
                        Some(AttributeType::Nonce) => {
                            request.nonce = Some(attr.value);
                        },
                        _ => {},
                    }
                    assert(request@ =~~= allocate_step(pre, attr_type, vv));
                    let remaining: usize = attrs_len - offset;
                    if consumed >= remaining {
                        offset = attrs_len;
                    } else {
                        offset = offset + consumed;
                    }
                },
            }
        }
        Ok(request)
    }
}

#[derive(Debug, Clone)]
pub struct AllocateResponse {
    pub transaction_id: [u8; 12],
    pub relayed_address: Option<SocketAddress>,
    pub mapped_address: Option<SocketAddress>,
    pub lifetime: Option<u32>,
    pub reservation_token: Option<[u8; 8]>,
    pub error_code: Option<(u16, String)>,
    pub realm: Option<String>,
    pub nonce: Option<Vec<u8>>,
}

impl AllocateResponse {
    pub fn success(
        transaction_id: [u8; 12],
        relayed_address: SocketAddress,
        mapped_address: SocketAddress,
        lifetime: u32,
    ) -> (r: Self)
        ensures
            r.transaction_id@ == transaction_id@,
            r.relayed_address == Some(relayed_address),
            r.mapped_address == Some(mapped_address),
            r.lifetime == Some(lifetime),
            r.reservation_token is None,
            r.error_code is None,
            r.realm is None,
            r.nonce is None,
    {
        AllocateResponse {
            transaction_id,
            relayed_address: Some(relayed_address),
            mapped_address: Some(mapped_address),
            lifetime: Some(lifetime),
            reservation_token: None,
            error_code: None,
            realm: None,
            nonce: None,
        }
    }

    pub fn error(
        transaction_id: [u8; 12],
        error_code: u16,
        error_reason: String,
        realm: Option<String>,
        nonce: Option<Vec<u8>>,
    ) -> (r: Self)
        ensures
            r.transaction_id@ == transaction_id@,
            r.relayed_address is None,
            r.mapped_address is None,
            r.lifetime is None,
            r.reservation_token is None,
            r.error_code matches Some((c, s)) && c == error_code && s@ == error_reason@,
            r.realm == realm,
            r.nonce == nonce,
    {
        AllocateResponse {
            transaction_id,
            relayed_address: None,
            mapped_address: None,
            lifetime: None,
            reservation_token: None,
            error_code: Some((error_code, error_reason)),
            realm,
            nonce,
        }
    }
}

} // verus!
