//! The Refresh request: reads the requested lifetime and the credential
//! attributes out of a Refresh message, and the shapes of its replies.

use vstd::prelude::*;
use vstd::slice::slice_subrange;
use vstd::utf8::{valid_utf8, decode_utf8};
use crate::attributes::{RawAttribute, AttributeType, spec_attr_type_from_u16, spec_parse_attr};
use crate::errors::{StunError, TurnError};
use crate::message::{Message, MessageView, MessageMethod, MessageClass};
use crate::util::be32;

verus! {

#[derive(Debug, Clone)]
pub struct RefreshRequest {
    pub transaction_id: [u8; 12],
    pub lifetime: Option<u32>,
    pub username: Option<String>,
    pub realm: Option<String>,
    pub nonce: Option<Vec<u8>>,
}

/// The mathematical value of a Refresh request.
#[verifier::ext_equal]
pub struct RefreshView {
    pub transaction_id: Seq<u8>,
    pub lifetime: Option<u32>,
    pub username: Option<Seq<char>>,
    pub realm: Option<Seq<char>>,
    pub nonce: Option<Seq<u8>>,
}

impl View for RefreshRequest {
    type V = RefreshView;

    open spec fn view(&self) -> RefreshView {
        RefreshView {
            transaction_id: self.transaction_id@,
            lifetime: self.lifetime,
            username: match self.username {
                Some(s) => Some(s@),
                None => None,
            },
            realm: match self.realm {
                Some(s) => Some(s@),
                None => None,
            },
            nonce: match self.nonce {
                Some(v) => Some(v@),
                None => None,
            },
        }
    }
}

/// What one attribute does to the fields gathered so far.
pub open spec fn refresh_step(acc: RefreshView, t: u16, v: Seq<u8>) -> RefreshView {
    match spec_attr_type_from_u16(t) {
        Some(AttributeType::Lifetime) => if v.len() >= 4 {
            RefreshView { lifetime: Some(be32(v[0], v[1], v[2], v[3])), ..acc }
        } else {
            acc
        },
        Some(AttributeType::Username) => RefreshView {
            username: if valid_utf8(v) {
                Some(decode_utf8(v))
            } else {
                None
            },
            ..acc
        },
        Some(AttributeType::Realm) => RefreshView {
            realm: if valid_utf8(v) {
                Some(decode_utf8(v))
            } else {
                None
            },
            ..acc
        },
        Some(AttributeType::Nonce) => RefreshView { nonce: Some(v), ..acc },
        _ => acc,
    }
}

/// The fields gathered from the attribute bytes, scanning from `off` with
/// `acc` gathered so far.
pub open spec fn spec_scan_refresh(attrs: Seq<u8>, off: int, acc: RefreshView) -> Result<
    RefreshView,
    StunError,
>
    decreases attrs.len() - off,
{
    if off >= attrs.len() || off < 0 {
        Ok(acc)
    } else {
        match spec_parse_attr(attrs.subrange(off, attrs.len() as int)) {
            Err(e) => Err(e),
            Ok((t, v, c)) => {
                let acc2 = refresh_step(acc, t, v);
                if off + c >= attrs.len() {
                    Ok(acc2)
                } else {
                    spec_scan_refresh(attrs, off + c, acc2)
                }
            },
        }
    }
}

/// No fields yet, only the transaction id.
pub open spec fn init_refresh(m: MessageView) -> RefreshView {
    RefreshView {
        transaction_id: m.transaction_id,
        lifetime: None,
        username: None,
        realm: None,
        nonce: None,
    }
}

/// A Refresh request read out of a message: the right method and class, then
/// the attribute scan.
pub open spec fn spec_parse_refresh(m: MessageView) -> Result<RefreshView, TurnError> {
    if m.message_type.method != MessageMethod::Refresh || m.message_type.class
        != MessageClass::Request {
        Err(TurnError::BadRequest)
    } else {
        match spec_scan_refresh(m.attributes, 0, init_refresh(m)) {
            Err(e) => Err(TurnError::StunError(e)),
            Ok(acc) => Ok(acc),
        }
    }
}

impl RefreshRequest {
    pub fn from_message(message: &Message) -> (r: Result<Self, TurnError>)
        ensures
            match r {
                Ok(req) => spec_parse_refresh(message@) == Ok::<RefreshView, TurnError>(req@),
                Err(e) => spec_parse_refresh(message@) == Err::<RefreshView, TurnError>(e),
            },
    {
        if !(message.message_type.method() == MessageMethod::Refresh
            && message.message_type.class() == MessageClass::Request) {
            return Err(TurnError::BadRequest);
        }

        let mut request = RefreshRequest {
            transaction_id: message.transaction_id,
            lifetime: None,
            username: None,
            realm: None,
            nonce: None,
        };
        assert(request@ =~~= init_refresh(message@));

        let ghost attrs = message@.attributes;
        let attrs_len: usize = message.attributes.len();
        let mut offset: usize = 0;

        while offset < attrs_len
            invariant
                attrs == message@.attributes,
                attrs_len == attrs.len(),
                offset <= attrs_len,
                message@.message_type.method == MessageMethod::Refresh,
                message@.message_type.class == MessageClass::Request,
                spec_scan_refresh(attrs, 0, init_refresh(message@)) == spec_scan_refresh(
                    attrs,
                    offset as int,
                    request@,
                ),
            decreases attrs.len() - offset,
        {
            let attr_slice = slice_subrange(message.attributes.as_slice(), offset, attrs_len);
            match RawAttribute::parse(attr_slice) {
                Err(e) => {
                    return Err(TurnError::StunError(e));
                },
                Ok((attr, consumed)) => {
                    proof {
                        let sub = attrs.subrange(offset as int, attrs.len() as int);
                        let l = crate::util::be16(sub[2], sub[3]) as int;
                        assert(crate::util::round_up4(l) >= 0);
                        assert(consumed >= 4);
                    }
                    let ghost pre = request@;
                    let ghost vv = attr.value@;
                    let attr_type = attr.attribute_type;
                    match AttributeType::from_u16(attr.attribute_type) {
                        Some(AttributeType::Lifetime) => {
                            if attr.value.len() >= 4 {
                                let lt = crate::util::read_u32_be(attr.value.as_slice(), 0);
                                request.lifetime = Some(lt);
                            }
                        },
                        Some(AttributeType::Username) => {
                            request.username = crate::util::utf8_string(attr.value);
                        },
                        Some(AttributeType::Realm) => {
                            request.realm = crate::util::utf8_string(attr.value);
                        },
                        Some(AttributeType::Nonce) => {
                            request.nonce = Some(attr.value);
                        },
                        _ => {},
                    }
                    assert(request@ =~~= refresh_step(pre, attr_type, vv));
                    let remaining: usize = attrs_len - offset;
                    if consumed >= remaining {
                        offset = attrs_len;
                    } else {
                        offset = offset + consumed;
                    }
                },
            }
        }
        Ok(request)
    }

    /// A refresh that asks for lifetime zero asks for deletion.
    pub fn is_delete_request(&self) -> (r: bool)
        ensures
            r == (self.lifetime == Some(0u32)),
    {
        match self.lifetime {
            Some(v) => v == 0,
            None => false,
        }
    }
}

#[derive(Debug, Clone)]
pub struct RefreshResponse {
    pub transaction_id: [u8; 12],
    pub lifetime: Option<u32>,
    pub error_code: Option<(u16, String)>,
    pub realm: Option<String>,
    pub nonce: Option<Vec<u8>>,
}

impl RefreshResponse {
    pub fn success(transaction_id: [u8; 12], lifetime: u32) -> (r: Self)
        ensures
            r.transaction_id@ == transaction_id@,
            r.lifetime == Some(lifetime),
            r.error_code is None,
            r.realm is None,
            r.nonce is None,
    {
        RefreshResponse {
            transaction_id,
            lifetime: Some(lifetime),
            error_code: None,
            realm: None,
            nonce: None,
        }
    }

    pub fn error(
        transaction_id: [u8; 12],
        error_code: u16,
        error_reason: String,
        realm: Option<String>,
        nonce: Option<Vec<u8>>,
    ) -> (r: Self)
        ensures
            r.transaction_id@ == transaction_id@,
            r.lifetime is None,
            r.error_code matches Some((c, s)) && c == error_code && s@ == error_reason@,
            r.realm == realm,
            r.nonce == nonce,
    {
        RefreshResponse {
            transaction_id,
            lifetime: None,
            error_code: Some((error_code, error_reason)),
            realm,
            nonce,
        }
    }
}

} // verus!
