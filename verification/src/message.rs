//! The STUN message header and body: method and class interleaved in the
//! 14-bit type word, the magic cookie, the transaction id, and the raw
//! attribute bytes.

use vstd::prelude::*;
use vstd::array::array_as_slice;
use vstd::slice::slice_subrange;
use vstd::slice::slice_to_vec;
use crate::bytebuf::{bytes_mut_view, bm_with_capacity, bm_put_u16, bm_put_u32, bm_put_slice};
use crate::errors::StunError;
use crate::util::{u16_be, be16, u32_be, be32};

verus! {

pub const MAGIC_COOKIE: u32 = 0x2112A442;

pub const STUN_HEADER_SIZE: usize = 20;

#[derive(Debug, Clone, Copy, PartialEq, Eq, Structural)]
pub enum MessageMethod {
    Binding,
    Allocate,
    Refresh,
    Send,
    Data,
    CreatePermission,
    ChannelBind,
}

#[derive(Debug, Clone, Copy, PartialEq, Eq, Structural)]
pub enum MessageClass {
    Request,
    Indication,
    SuccessResponse,
    ErrorResponse,
}

/// The 12-bit method number of each supported method.
pub open spec fn method_code(m: MessageMethod) -> u16 {
    match m {
        MessageMethod::Binding => 0x0001,
        MessageMethod::Allocate => 0x0003,
        MessageMethod::Refresh => 0x0004,
        MessageMethod::Send => 0x0006,
        MessageMethod::Data => 0x0007,
        MessageMethod::CreatePermission => 0x0008,
        MessageMethod::ChannelBind => 0x0009,
    }
}

/// The method recognized under a 12-bit method number, if any.
pub open spec fn spec_method_from_u16(value: u16) -> Option<MessageMethod> {
    if value == 0x0001 {
        Some(MessageMethod::Binding)
    } else if value == 0x0003 {
        Some(MessageMethod::Allocate)
    } else if value == 0x0004 {
        Some(MessageMethod::Refresh)
    } else if value == 0x0006 {
        Some(MessageMethod::Send)
    } else if value == 0x0007 {
        Some(MessageMethod::Data)
    } else if value == 0x0008 {
        Some(MessageMethod::CreatePermission)
    } else if value == 0x0009 {
        Some(MessageMethod::ChannelBind)
    } else {
        None
    }
}

impl MessageMethod {
    pub fn from_u16(value: u16) -> (r: Result<Self, StunError>)
        ensures
            match r {
                Ok(m) => spec_method_from_u16(value) == Some(m),
                Err(e) => spec_method_from_u16(value) is None && e == StunError::InvalidMessageType,
            },
    {
        match value {
            0x0001 => Ok(MessageMethod::Binding),
            0x0003 => Ok(MessageMethod::Allocate),
            0x0004 => Ok(MessageMethod::Refresh),
            0x0006 => Ok(MessageMethod::Send),
            0x0007 => Ok(MessageMethod::Data),
            0x0008 => Ok(MessageMethod::CreatePermission),
            0x0009 => Ok(MessageMethod::ChannelBind),
            _ => Err(StunError::InvalidMessageType),
        }
    }

    pub fn as_u16(&self) -> (r: u16)
        ensures
            r == method_code(*self),
    {
        match self {
            MessageMethod::Binding => 0x0001,
            MessageMethod::Allocate => 0x0003,
            MessageMethod::Refresh => 0x0004,
            MessageMethod::Send => 0x0006,
            MessageMethod::Data => 0x0007,
            MessageMethod::CreatePermission => 0x0008,
            MessageMethod::ChannelBind => 0x0009,
        }
    }
}

/// The two class bits of each message class.
pub open spec fn class_bits(c: MessageClass) -> u16 {
    match c {
        MessageClass::Request => 0,
        MessageClass::Indication => 1,
        MessageClass::SuccessResponse => 2,
        MessageClass::ErrorResponse => 3,
    }
}

#[derive(Debug, Clone, Copy, PartialEq, Eq, Structural)]
pub struct MessageType {
    pub method: MessageMethod,
    pub class: MessageClass,
}

/// The 14-bit type word: method bits interleaved with the two class bits,
/// laid out as M11..M7 C1 M6..M4 C0 M3..M0.
pub open spec fn spec_type_code(t: MessageType) -> u16 {
    let method = method_code(t.method) as int;
    let c = class_bits(t.class) as int;
    let m0 = method % 16;
    let m1 = (method / 16) % 8;
    let m2 = method / 128;
    let c0 = c % 2;
    let c1 = c / 2;
    (m2 * 512 + c1 * 256 + m1 * 32 + c0 * 16 + m0) as u16
}

/// The message type read back from a 14-bit type word.
pub open spec fn spec_type_from_u16(value: u16) -> Result<MessageType, StunError> {
    let v = value as int;
    let m0 = v % 16;
    let m1 = (v / 32) % 8;
    let m2 = (v / 512) % 16;
    let method_value = (m2 * 128 + m1 * 16 + m0) as u16;
    match spec_method_from_u16(method_value) {
        None => Err(StunError::InvalidMessageType),
        Some(method) => {
            let c0 = (v / 16) % 2;
            let c1 = (v / 256) % 2;
            let cb = c1 * 2 + c0;
            let class = if cb == 0 {
                MessageClass::Request
            } else if cb == 1 {
                MessageClass::Indication
            } else if cb == 2 {
                MessageClass::SuccessResponse
            } else {
                MessageClass::ErrorResponse
            };
            Ok(MessageType { method, class })
        },
    }
}

impl MessageType {
    pub fn new(method: MessageMethod, class: MessageClass) -> (r: Self)
        ensures
            r == (MessageType { method, class }),
    {
        MessageType { method, class }
    }

    pub fn method(&self) -> (r: MessageMethod)
        ensures
            r == self.method,
    {
        self.method
    }

    pub fn class(&self) -> (r: MessageClass)
        ensures
            r == self.class,
    {
        self.class
    }

    pub fn as_u16(&self) -> (r: u16)
        ensures
            r == spec_type_code(*self),
    {
        let method: u16 = self.method.as_u16();
        let cb: u16 = match self.class {
            MessageClass::Request => 0,
            MessageClass::Indication => 1,
            MessageClass::SuccessResponse => 2,
            MessageClass::ErrorResponse => 3,
        };

        let m0: u16 = method % 16;
        let m1: u16 = (method / 16) % 8;
        let m2: u16 = method / 128;
        let c0: u16 = cb % 2;
        let c1: u16 = cb / 2;

        m2 * 512 + c1 * 256 + m1 * 32 + c0 * 16 + m0
    }

    pub fn from_u16(value: u16) -> (r: Result<Self, StunError>)
        ensures
            r == spec_type_from_u16(value),
    {
        let m0: u16 = value % 16;
        let m1: u16 = (value / 32) % 8;
        let m2: u16 = (value / 512) % 16;

        let method_value: u16 = m2 * 128 + m1 * 16 + m0;
        let method = match MessageMethod::from_u16(method_value) {
            Ok(m) => m,
            Err(e) => {
                return Err(e);
            },
        };

        let c0: u16 = (value / 16) % 2;
        let c1: u16 = (value / 256) % 2;
        let cb: u16 = c1 * 2 + c0;

        let class = if cb == 0 {
            MessageClass::Request
        } else if cb == 1 {
            MessageClass::Indication
        } else if cb == 2 {
            MessageClass::SuccessResponse
        } else {
            MessageClass::ErrorResponse
        };

        Ok(MessageType { method, class })
    }
}

/// Reading the type word back recovers the method and the class.
pub proof fn lemma_type_code_round_trip(t: MessageType)
    ensures
        spec_type_from_u16(spec_type_code(t)) == Ok::<_, StunError>(t),
{
    match t.method {
        MessageMethod::Binding => {
        },
        MessageMethod::Allocate => {
        },
        MessageMethod::Refresh => {
        },
        MessageMethod::Send => {
        },
        MessageMethod::Data => {
        },
        MessageMethod::CreatePermission => {
        },
        MessageMethod::ChannelBind => {
        },
    }
}

/// A parsed message: its type, the declared attribute-section length, the
/// 96-bit transaction id, and the raw attribute bytes.
#[derive(Debug, Clone, PartialEq, Eq)]
pub struct Message {
    pub message_type: MessageType,
    pub length: u16,
    pub transaction_id: [u8; 12],
    pub attributes: Vec<u8>,
}

/// The mathematical value of a message.
#[verifier::ext_equal]
pub struct MessageView {
    pub message_type: MessageType,
    pub length: u16,
    pub transaction_id: Seq<u8>,
    pub attributes: Seq<u8>,
}

impl View for Message {
    type V = MessageView;

    open spec fn view(&self) -> MessageView {
        MessageView {
            message_type: self.message_type,
            length: self.length,
            transaction_id: self.transaction_id@,
            attributes: self.attributes@,
        }
    }
}

/// The wire form of a message: type word, length of the attribute section,
/// magic cookie, transaction id, attribute bytes.
pub open spec fn spec_serialize_message(m: MessageView) -> Seq<u8> {
    u16_be(spec_type_code(m.message_type)) + u16_be(m.attributes.len() as u16)
        + u32_be(MAGIC_COOKIE) + m.transaction_id + m.attributes
}

/// Reading a message from a datagram: header checks in order, then the
/// attribute bytes as declared by the length field.
pub open spec fn spec_parse_message(data: Seq<u8>) -> Result<MessageView, StunError> {
    if data.len() < 20 {
        Err(StunError::MessageTooShort)
    } else {
        match spec_type_from_u16(be16(data[0], data[1])) {
            Err(e) => Err(e),
            Ok(message_type) => {
                let length = be16(data[2], data[3]);
                if be32(data[4], data[5], data[6], data[7]) != MAGIC_COOKIE {
                    Err(StunError::InvalidMagicCookie)
                } else if data.len() < 20 + length {
                    Err(StunError::InvalidMessageLength)
                } else {
                    Ok(MessageView {
                        message_type,
                        length,
                        transaction_id: data.subrange(8, 20),
                        attributes: data.subrange(20, 20 + length as int),
                    })
                }
            },
        }
    }
}

impl Message {
    /// A fresh message of the given type with a random transaction id and no
    /// attributes.
    pub fn new(message_type: MessageType) -> (r: Self)
        ensures
            r.message_type == message_type,
            r.length == 0,
            r.attributes@ == Seq::<u8>::empty(),
            r.transaction_id@.len() == 12,
    {
        let v = crate::rng::random_bytes(12);
        let transaction_id: [u8; 12] = [
            v[0],
            v[1],
            v[2],
            v[3],
            v[4],
            v[5],
            v[6],
            v[7],
            v[8],
            v[9],
            v[10],
            v[11],
        ];

        Message { message_type, length: 0, transaction_id, attributes: Vec::new() }
    }

    pub fn parse(data: &[u8]) -> (r: Result<Self, StunError>)
        ensures
            match r {
                Ok(m) => spec_parse_message(data@) == Ok::<_, StunError>(m@),
                Err(e) => spec_parse_message(data@) == Err::<MessageView, _>(e),
            },
    {
        if data.len() < STUN_HEADER_SIZE {
            return Err(StunError::MessageTooShort);
        }

        let msg_type_value = crate::util::read_u16_be(data, 0);
        let message_type = match MessageType::from_u16(msg_type_value) {
            Ok(t) => t,
            Err(e) => {
                return Err(e);
            },
        };

        let length = crate::util::read_u16_be(data, 2);

        let magic_cookie = crate::util::read_u32_be(data, 4);
        if magic_cookie != MAGIC_COOKIE {
            return Err(StunError::InvalidMagicCookie);
        }

        let transaction_id: [u8; 12] = [
            data[8],
            data[9],
            data[10],
            data[11],
            data[12],
            data[13],
            data[14],
            data[15],
            data[16],
            data[17],
            data[18],
            data[19],
        ];

        if data.len() - STUN_HEADER_SIZE < length as usize {
            return Err(StunError::InvalidMessageLength);
        }

        let attr_slice = slice_subrange(data, STUN_HEADER_SIZE, STUN_HEADER_SIZE + length as usize);
        let attributes: Vec<u8> = slice_to_vec(attr_slice);

        let m = Message { message_type, length, transaction_id, attributes };
        proof {
            assert(m.transaction_id@ =~= data@.subrange(8, 20));
            assert(spec_parse_message(data@) matches Ok(p) && p =~= m@);
        }
        Ok(m)
    }

    pub fn serialize(&self) -> (r: bytes::BytesMut)
        requires
            self.attributes@.len() <= 0xFFFF,
        ensures
            bytes_mut_view(r) == spec_serialize_message(self@),
    {
        let mut buf = bm_with_capacity(STUN_HEADER_SIZE + self.attributes.len());

        bm_put_u16(&mut buf, self.message_type.as_u16());
        bm_put_u16(&mut buf, self.attributes.len() as u16);
        bm_put_u32(&mut buf, MAGIC_COOKIE);
        bm_put_slice(&mut buf, array_as_slice(&self.transaction_id));
        bm_put_slice(&mut buf, self.attributes.as_slice());

        proof {
            assert(bytes_mut_view(buf) =~= spec_serialize_message(self@));
        }
        buf
    }
}

/// Parsing the serialized form of a well-formed message yields the message
/// back.
pub proof fn lemma_message_round_trip(m: MessageView)
    requires
        m.length == m.attributes.len(),
        m.attributes.len() <= 0xFFFF,
        m.transaction_id.len() == 12,
    ensures
        spec_parse_message(spec_serialize_message(m)) == Ok::<_, StunError>(m),
{
    let s = spec_serialize_message(m);
    let code = spec_type_code(m.message_type);
    assert(s.len() == 20 + m.attributes.len());
    assert(s[0] == u16_be(code)[0]);
    assert(s[1] == u16_be(code)[1]);
    assert(s[2] == u16_be(m.attributes.len() as u16)[0]);
    assert(s[3] == u16_be(m.attributes.len() as u16)[1]);
    assert(s[4] == u32_be(MAGIC_COOKIE)[0]);
    assert(s[5] == u32_be(MAGIC_COOKIE)[1]);
    assert(s[6] == u32_be(MAGIC_COOKIE)[2]);
    assert(s[7] == u32_be(MAGIC_COOKIE)[3]);
    crate::util::lemma_be16_of_u16_be(code);
    crate::util::lemma_be16_of_u16_be(m.attributes.len() as u16);
    crate::util::lemma_be32_of_u32_be(MAGIC_COOKIE);
    lemma_type_code_round_trip(m.message_type);
    assert(s.subrange(8, 20) =~= m.transaction_id);
    assert(s.subrange(20, 20 + m.attributes.len() as int) =~= m.attributes);
    assert(spec_parse_message(s) matches Ok(p) && p =~= m);
}

} // verus!
