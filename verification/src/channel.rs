//! The ChannelBind request and the ChannelData framing.

use vstd::prelude::*;
use vstd::slice::slice_subrange;
use vstd::slice::slice_to_vec;
use vstd::utf8::{valid_utf8, decode_utf8};
use crate::addr::SocketAddress;
use crate::allocation::spec_channel_in_range;
use crate::attributes::{RawAttribute, AttributeType, spec_attr_type_from_u16, spec_parse_attr};
use crate::errors::{StunError, TurnError};
use crate::message::{Message, MessageView, MessageMethod, MessageClass};
use crate::util::{be16, u16_be, round_up4};
use crate::xoraddr::{parse_xor_peer_address, spec_parse_xor_addr};

verus! {

#[derive(Debug, Clone)]
pub struct ChannelBindRequest {
    pub transaction_id: [u8; 12],
    pub channel_number: u16,
    pub peer_address: SocketAddress,
    pub username: Option<String>,
    pub realm: Option<String>,
    pub nonce: Option<Vec<u8>>,
}

/// The fields gathered while scanning a ChannelBind message's attributes.
#[verifier::ext_equal]
pub struct ChannelBindScan {
    pub channel_number: Option<u16>,
    pub peer_address: Option<SocketAddress>,
    pub username: Option<Seq<char>>,
    pub realm: Option<Seq<char>>,
    pub nonce: Option<Seq<u8>>,
}

/// The scan record of the given gathered fields.
pub open spec fn cb_scan_of(
    channel_number: Option<u16>,
    peer_address: Option<SocketAddress>,
    username: Option<String>,
    realm: Option<String>,
    nonce: Option<Vec<u8>>,
) -> ChannelBindScan {
    ChannelBindScan {
        channel_number,
        peer_address,
        username: match username {
            Some(s) => Some(s@),
            None => None,
        },
        realm: match realm {
            Some(s) => Some(s@),
            None => None,
        },
        nonce: match nonce {
            Some(v) => Some(v@),
            None => None,
        },
    }
}

/// What one attribute does to the fields gathered so far.
pub open spec fn channel_bind_step(acc: ChannelBindScan, t: u16, v: Seq<u8>, tid: Seq<u8>) -> ChannelBindScan {
    match spec_attr_type_from_u16(t) {
        Some(AttributeType::ChannelNumber) => if v.len() >= 4 {
            ChannelBindScan { channel_number: Some(be16(v[0], v[1])), ..acc }
        } else {
            acc
        },
        Some(AttributeType::XorPeerAddress) => match spec_parse_xor_addr(v, tid) {
            Some(addr) => ChannelBindScan { peer_address: Some(addr), ..acc },
            None => acc,
        },
        Some(AttributeType::Username) => ChannelBindScan {
            username: if valid_utf8(v) {
                Some(decode_utf8(v))
            } else {
                None
            },
            ..acc
        },
        Some(AttributeType::Realm) => ChannelBindScan {
            realm: if valid_utf8(v) {
                Some(decode_utf8(v))
            } else {
                None
            },
            ..acc
        },
        Some(AttributeType::Nonce) => ChannelBindScan { nonce: Some(v), ..acc },
        _ => acc,
    }
}

/// The fields gathered from the attribute bytes, scanning from `off` with
/// `acc` gathered so far.
pub open spec fn spec_scan_channel_bind(
    attrs: Seq<u8>,
    off: int,
    acc: ChannelBindScan,
    tid: Seq<u8>,
) -> Result<ChannelBindScan, StunError>
    decreases attrs.len() - off,
{
    if off >= attrs.len() || off < 0 {
        Ok(acc)
    } else {
        match spec_parse_attr(attrs.subrange(off, attrs.len() as int)) {
            Err(e) => Err(e),
            Ok((t, v, c)) => {
                let acc2 = channel_bind_step(acc, t, v, tid);
                if off + c >= attrs.len() {
                    Ok(acc2)
                } else {
                    spec_scan_channel_bind(attrs, off + c, acc2, tid)
                }
            },
        }
    }
}

pub open spec fn init_channel_bind() -> ChannelBindScan {
    ChannelBindScan {
        channel_number: None,
        peer_address: None,
        username: None,
        realm: None,
        nonce: None,
    }
}

/// A ChannelBind request read out of a message: the right method and class,
/// the attribute scan, a channel number and peer address both present, and
/// the channel number in range.
pub open spec fn spec_parse_channel_bind(m: MessageView) -> Result<ChannelBindScan, TurnError> {
    if m.message_type.method != MessageMethod::ChannelBind || m.message_type.class
        != MessageClass::Request {
        Err(TurnError::BadRequest)
    } else {
        match spec_scan_channel_bind(m.attributes, 0, init_channel_bind(), m.transaction_id) {
            Err(e) => Err(TurnError::StunError(e)),
            Ok(acc) => if acc.channel_number is None || acc.peer_address is None {
                Err(TurnError::BadRequest)
            } else if !spec_channel_in_range(acc.channel_number->0) {
                Err(TurnError::BadRequest)
            } else {
                Ok(acc)
            },
        }
    }
}

impl ChannelBindRequest {
    pub fn from_message(message: &Message) -> (r: Result<Self, TurnError>)
        ensures
            match r {
                Ok(req) => spec_parse_channel_bind(message@) matches Ok(acc) && acc == (
                ChannelBindScan {
                    channel_number: Some(req.channel_number),
                    peer_address: Some(req.peer_address),
                    username: match req.username {
                        Some(s) => Some(s@),
                        None => None,
                    },
                    realm: match req.realm {
                        Some(s) => Some(s@),
                        None => None,
                    },
                    nonce: match req.nonce {
                        Some(v) => Some(v@),
                        None => None,
                    },
                }) && req.transaction_id@ == message@.transaction_id,
                Err(e) => spec_parse_channel_bind(message@) == Err::<ChannelBindScan, TurnError>(
                    e,
                ),
            },
    {
        if !(message.message_type.method() == MessageMethod::ChannelBind
            && message.message_type.class() == MessageClass::Request) {
            return Err(TurnError::BadRequest);
        }

        let mut channel_number: Option<u16> = None;
        let mut peer_address: Option<SocketAddress> = None;
        let mut username: Option<String> = None;
        let mut realm: Option<String> = None;
        let mut nonce: Option<Vec<u8>> = None;

        let ghost attrs = message@.attributes;
        let ghost tid = message@.transaction_id;
        let attrs_len: usize = message.attributes.len();
        let mut offset: usize = 0;

        while offset < attrs_len
            invariant
                attrs == message@.attributes,
                tid == message@.transaction_id,
                attrs_len == attrs.len(),
                offset <= attrs_len,
                message@.message_type.method == MessageMethod::ChannelBind,
                message@.message_type.class == MessageClass::Request,
                spec_scan_channel_bind(attrs, 0, init_channel_bind(), tid)
                    == spec_scan_channel_bind(
                    attrs,
                    offset as int,
                    cb_scan_of(channel_number, peer_address, username, realm, nonce),
                    tid,
                ),
            decreases attrs.len() - offset,
        {
            let attr_slice = slice_subrange(message.attributes.as_slice(), offset, attrs_len);
            match RawAttribute::parse(attr_slice) {
                Err(e) => {
                    return Err(TurnError::StunError(e));
                },
                Ok((attr, consumed)) => {
                    proof {
                        let sub = attrs.subrange(offset as int, attrs.len() as int);
                        let l = crate::util::be16(sub[2], sub[3]) as int;
                        assert(crate::util::round_up4(l) >= 0);
                        assert(consumed >= 4);
                    }
                    let ghost pre = cb_scan_of(channel_number, peer_address, username, realm, nonce);
                    let ghost vv = attr.value@;
                    let attr_type = attr.attribute_type;
                    match AttributeType::from_u16(attr.attribute_type) {
                        Some(AttributeType::ChannelNumber) => {
                            if attr.value.len() >= 4 {
                                channel_number = Some(
                                    crate::util::read_u16_be(attr.value.as_slice(), 0),
                                );
                            }
                        },
                        Some(AttributeType::XorPeerAddress) => {
                            if let Some(addr) = parse_xor_peer_address(
                                attr.value.as_slice(),
                                &message.transaction_id,
                            ) {
                                peer_address = Some(addr);
                            }
                        },
                        Some(AttributeType::Username) => {
                            username = crate::util::utf8_string(attr.value);
                        },
                        Some(AttributeType::Realm) => {
                            realm = crate::util::utf8_string(attr.value);
                        },
                        Some(AttributeType::Nonce) => {
                            nonce = Some(attr.value);
                        },
                        _ => {},
                    }
                    proof {
                        let post = cb_scan_of(channel_number, peer_address, username, realm, nonce);
                        assert(post =~~= channel_bind_step(pre, attr_type, vv, tid));
                    }
                    let remaining: usize = attrs_len - offset;
                    if consumed >= remaining {
                        offset = attrs_len;
                    } else {
                        offset = offset + consumed;
                    }
                },
            }
        }

        let ch: u16 = match channel_number {
            Some(c) => c,
            None => {
                return Err(TurnError::BadRequest);
            },
        };
        let peer: SocketAddress = match peer_address {
            Some(p) => p,
            None => {
                return Err(TurnError::BadRequest);
            },
        };

        if ch < 0x4000 || ch > 0x7FFF {
            return Err(TurnError::BadRequest);
        }

        Ok(
            ChannelBindRequest {
                transaction_id: message.transaction_id,
                channel_number: ch,
                peer_address: peer,
                username,
                realm,
                nonce,
            },
        )
    }
}

#[derive(Debug, Clone)]
pub struct ChannelBindResponse {
    pub transaction_id: [u8; 12],
    pub error_code: Option<(u16, String)>,
    pub realm: Option<String>,
    pub nonce: Option<Vec<u8>>,
}

impl ChannelBindResponse {
    pub fn success(transaction_id: [u8; 12]) -> (r: Self)
        ensures
            r.transaction_id@ == transaction_id@,
            r.error_code is None,
            r.realm is None,
            r.nonce is None,
    {
        ChannelBindResponse { transaction_id, error_code: None, realm: None, nonce: None }
    }

    pub fn error(
        transaction_id: [u8; 12],
        error_code: u16,
        error_reason: String,
        realm: Option<String>,
        nonce: Option<Vec<u8>>,
    ) -> (r: Self)
        ensures
            r.transaction_id@ == transaction_id@,
            r.error_code matches Some((c, s)) && c == error_code && s@ == error_reason@,
            r.realm == realm,
            r.nonce == nonce,
    {
        ChannelBindResponse {
            transaction_id,
            error_code: Some((error_code, error_reason)),
            realm,
            nonce,
        }
    }
}

/// A ChannelData frame: a channel number in range and the carried bytes.
#[derive(Debug, Clone, PartialEq, Eq)]
pub struct ChannelData {
    pub channel_number: u16,
    pub data: Vec<u8>,
}

/// The wire form of a ChannelData frame: channel number, data length, data,
/// zero padding to a 4-byte boundary.
pub open spec fn spec_serialize_channel_data(ch: u16, data: Seq<u8>) -> Seq<u8> {
    u16_be(ch) + u16_be(data.len() as u16) + data + Seq::new(
        (round_up4(data.len() as int) - data.len()) as nat,
        |i: int| 0u8,
    )
}

/// A ChannelData frame read from a datagram: channel number in range,
/// length field within the datagram, then that many data bytes.
pub open spec fn spec_parse_channel_data(data: Seq<u8>) -> Result<(u16, Seq<u8>), TurnError> {
    if data.len() < 4 {
        Err(TurnError::BadRequest)
    } else {
        let ch = be16(data[0], data[1]);
        let len = be16(data[2], data[3]) as int;
        if !spec_channel_in_range(ch) {
            Err(TurnError::BadRequest)
        } else if data.len() < 4 + len {
            Err(TurnError::BadRequest)
        } else {
            Ok((ch, data.subrange(4, 4 + len)))
        }
    }
}

impl ChannelData {
    pub fn new(channel_number: u16, data: Vec<u8>) -> (r: Result<Self, TurnError>)
        ensures
            (r is Ok) == spec_channel_in_range(channel_number),
            r matches Ok(cd) ==> cd.channel_number == channel_number && cd.data == data,
            r matches Err(e) ==> e == TurnError::BadRequest,
    {
        if channel_number < 0x4000 || channel_number > 0x7FFF {
            return Err(TurnError::BadRequest);
        }
        Ok(ChannelData { channel_number, data })
    }

    pub fn parse(data: &[u8]) -> (r: Result<Self, TurnError>)
        ensures
            match r {
                Ok(cd) => spec_parse_channel_data(data@) == Ok::<_, TurnError>(
                    (cd.channel_number, cd.data@),
                ),
                Err(e) => spec_parse_channel_data(data@) == Err::<(u16, Seq<u8>), _>(e),
            },
    {
        if data.len() < 4 {
            return Err(TurnError::BadRequest);
        }

        let channel_number = crate::util::read_u16_be(data, 0);
        let length = crate::util::read_u16_be(data, 2);

        if channel_number < 0x4000 || channel_number > 0x7FFF {
            return Err(TurnError::BadRequest);
        }

        if data.len() - 4 < length as usize {
            return Err(TurnError::BadRequest);
        }

        let payload_slice = slice_subrange(data, 4, 4 + length as usize);
        let payload: Vec<u8> = slice_to_vec(payload_slice);

        Ok(ChannelData { channel_number, data: payload })
    }

    pub fn serialize(&self) -> (r: Vec<u8>)
        requires
            self.data@.len() <= 0xFFFF,
        ensures
            r@ == spec_serialize_channel_data(self.channel_number, self.data@),
            r@.len() == 4 + round_up4(self.data@.len() as int),
    {
        let mut result: Vec<u8> = Vec::new();

        crate::util::push_u16_be(&mut result, self.channel_number);
        crate::util::push_u16_be(&mut result, self.data.len() as u16);
        result.extend_from_slice(self.data.as_slice());

        let ghost core: Seq<u8> = u16_be(self.channel_number) + u16_be(self.data@.len() as u16)
            + self.data@;
        assert(result@ =~= core);

        let padding: usize = (4 - (self.data.len() % 4)) % 4;
        proof {
            crate::attributes::lemma_pad_len(self.data@.len() as int);
        }
        let mut k: usize = 0;
        while k < padding
            invariant
                k <= padding,
                result@ =~= core + Seq::new(k as nat, |i: int| 0u8),
            decreases padding - k,
        {
            result.push(0u8);
            k = k + 1;
            assert(result@ =~= core + Seq::new(k as nat, |i: int| 0u8));
        }
        assert(result@ =~= spec_serialize_channel_data(self.channel_number, self.data@));
        result
    }
}

/// Parsing a serialized ChannelData frame yields the frame back; the
/// padding is dropped.
pub proof fn lemma_channel_data_round_trip(ch: u16, data: Seq<u8>)
    requires
        spec_channel_in_range(ch),
        data.len() <= 0xFFFF,
    ensures
        spec_parse_channel_data(spec_serialize_channel_data(ch, data)) == Ok::<_, TurnError>(
            (ch, data),
        ),
{
    let s = spec_serialize_channel_data(ch, data);
    crate::attributes::lemma_pad_len(data.len() as int);
    assert(s[0] == u16_be(ch)[0]);
    assert(s[1] == u16_be(ch)[1]);
    assert(s[2] == u16_be(data.len() as u16)[0]);
    assert(s[3] == u16_be(data.len() as u16)[1]);
    crate::util::lemma_be16_of_u16_be(ch);
    crate::util::lemma_be16_of_u16_be(data.len() as u16);
    assert(s.subrange(4, 4 + data.len() as int) =~= data);
}

} // verus!
