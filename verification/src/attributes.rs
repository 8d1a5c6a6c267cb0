//! STUN attributes: the recognized attribute types and the raw
//! type-length-value encoding with its 4-byte tail padding.

use vstd::prelude::*;
use vstd::slice::slice_subrange;
use vstd::slice::slice_to_vec;
use crate::errors::StunError;
use crate::util::{round_up4, u16_be, be16};

verus! {

#[derive(Debug, Clone, Copy, PartialEq, Eq, Structural)]
pub enum AttributeType {
    MappedAddress,
    Username,
    MessageIntegrity,
    ErrorCode,
    UnknownAttributes,
    Realm,
    Nonce,
    XorRelayedAddress,
    RequestedTransport,
    XorMappedAddress,
    Lifetime,
    XorPeerAddress,
    Data,
    ChannelNumber,
}

/// The 16-bit wire code of each recognized attribute type.
pub open spec fn attr_type_code(t: AttributeType) -> u16 {
    match t {
        AttributeType::MappedAddress => 0x0001,
        AttributeType::Username => 0x0006,
        AttributeType::MessageIntegrity => 0x0008,
        AttributeType::ErrorCode => 0x0009,
        AttributeType::UnknownAttributes => 0x000A,
        AttributeType::Realm => 0x0014,
        AttributeType::Nonce => 0x0015,
        AttributeType::XorRelayedAddress => 0x0016,
        AttributeType::RequestedTransport => 0x0019,
        AttributeType::XorMappedAddress => 0x0020,
        AttributeType::Lifetime => 0x000D,
        AttributeType::XorPeerAddress => 0x0012,
        AttributeType::Data => 0x0013,
        AttributeType::ChannelNumber => 0x000C,
    }
}

/// The attribute type recognized under a 16-bit wire code, if any.
pub open spec fn spec_attr_type_from_u16(value: u16) -> Option<AttributeType> {
    if value == 0x0001 {
        Some(AttributeType::MappedAddress)
    } else if value == 0x0006 {
        Some(AttributeType::Username)
    } else if value == 0x0008 {
        Some(AttributeType::MessageIntegrity)
    } else if value == 0x0009 {
        Some(AttributeType::ErrorCode)
    } else if value == 0x000A {
        Some(AttributeType::UnknownAttributes)
    } else if value == 0x0014 {
        Some(AttributeType::Realm)
    } else if value == 0x0015 {
        Some(AttributeType::Nonce)
    } else if value == 0x0016 {
        Some(AttributeType::XorRelayedAddress)
    } else if value == 0x0019 {
        Some(AttributeType::RequestedTransport)
    } else if value == 0x0020 {
        Some(AttributeType::XorMappedAddress)
    } else if value == 0x000D {
        Some(AttributeType::Lifetime)
    } else if value == 0x0012 {
        Some(AttributeType::XorPeerAddress)
    } else if value == 0x0013 {
        Some(AttributeType::Data)
    } else if value == 0x000C {
        Some(AttributeType::ChannelNumber)
    } else {
        None
    }
}

impl AttributeType {
    pub fn from_u16(value: u16) -> (r: Option<Self>)
        ensures
            r == spec_attr_type_from_u16(value),
    {
        match value {
            0x0001 => Some(AttributeType::MappedAddress),
            0x0006 => Some(AttributeType::Username),
            0x0008 => Some(AttributeType::MessageIntegrity),
            0x0009 => Some(AttributeType::ErrorCode),
            0x000A => Some(AttributeType::UnknownAttributes),
            0x0014 => Some(AttributeType::Realm),
            0x0015 => Some(AttributeType::Nonce),
            0x0016 => Some(AttributeType::XorRelayedAddress),
            0x0019 => Some(AttributeType::RequestedTransport),
            0x0020 => Some(AttributeType::XorMappedAddress),
            0x000D => Some(AttributeType::Lifetime),
            0x0012 => Some(AttributeType::XorPeerAddress),
            0x0013 => Some(AttributeType::Data),
            0x000C => Some(AttributeType::ChannelNumber),
            _ => None,
        }
    }

    pub fn as_u16(&self) -> (r: u16)
        ensures
            r == attr_type_code(*self),
    {
        match self {
            AttributeType::MappedAddress => 0x0001,
            AttributeType::Username => 0x0006,
            AttributeType::MessageIntegrity => 0x0008,
            AttributeType::ErrorCode => 0x0009,
            AttributeType::UnknownAttributes => 0x000A,
            AttributeType::Realm => 0x0014,
            AttributeType::Nonce => 0x0015,
            AttributeType::XorRelayedAddress => 0x0016,
            AttributeType::RequestedTransport => 0x0019,
            AttributeType::XorMappedAddress => 0x0020,
            AttributeType::Lifetime => 0x000D,
            AttributeType::XorPeerAddress => 0x0012,
            AttributeType::Data => 0x0013,
            AttributeType::ChannelNumber => 0x000C,
        }
    }
}

/// An attribute as it stands on the wire: a 16-bit type code and the
/// unpadded value bytes.
#[derive(Debug, Clone, PartialEq, Eq)]
pub struct RawAttribute {
    pub attribute_type: u16,
    pub value: Vec<u8>,
}

/// The wire form of one attribute: type, length, value, zero padding to a
/// 4-byte boundary. The length field counts only the value bytes.
pub open spec fn spec_serialize_attr(t: u16, v: Seq<u8>) -> Seq<u8> {
    u16_be(t) + u16_be(v.len() as u16) + v + Seq::new((round_up4(v.len() as int) - v.len()) as nat, |i: int| 0u8)
}

/// Reading one attribute from the head of `data`: the type code, the value
/// bytes, and the padded total length consumed.
pub open spec fn spec_parse_attr(data: Seq<u8>) -> Result<(u16, Seq<u8>, int), StunError> {
    if data.len() < 4 {
        Err(StunError::InvalidAttribute)
    } else {
        let t = be16(data[0], data[1]);
        let len = be16(data[2], data[3]) as int;
        if data.len() < 4 + len {
            Err(StunError::InvalidAttribute)
        } else {
            Ok((t, data.subrange(4, 4 + len), 4 + round_up4(len)))
        }
    }
}

/// `(4 - n % 4) % 4` is the distance from `n` up to the next multiple of 4.
pub proof fn lemma_pad_len(n: int)
    requires
        n >= 0,
    ensures
        (4 - n % 4) % 4 == round_up4(n) - n,
{
    assert(n % 4 == 0 || n % 4 == 1 || n % 4 == 2 || n % 4 == 3);
    assert(n == (n / 4) * 4 + n % 4);
}

impl RawAttribute {
    pub fn new(attribute_type: u16, value: Vec<u8>) -> (r: Self)
        ensures
            r.attribute_type == attribute_type,
            r.value == value,
    {
        RawAttribute { attribute_type, value }
    }

    pub fn parse(data: &[u8]) -> (r: Result<(Self, usize), StunError>)
        ensures
            match r {
                Ok((attr, consumed)) => spec_parse_attr(data@) == Ok::<_, StunError>(
                    (attr.attribute_type, attr.value@, consumed as int),
                ),
                Err(e) => spec_parse_attr(data@) == Err::<(u16, Seq<u8>, int), _>(e),
            },
    {
        if data.len() < 4 {
            return Err(StunError::InvalidAttribute);
        }

        let attribute_type = crate::util::read_u16_be(data, 0);
        let length = crate::util::read_u16_be(data, 2);

        if data.len() < 4 || data.len() - 4 < length as usize {
            return Err(StunError::InvalidAttribute);
        }

        let value_slice = slice_subrange(data, 4, 4 + length as usize);
        let value: Vec<u8> = slice_to_vec(value_slice);

        let padded_length: usize = ((length as usize) + 3) / 4 * 4;
        let total_length: usize = 4 + padded_length;

        Ok((RawAttribute::new(attribute_type, value), total_length))
    }

    pub fn serialize(&self) -> (r: Vec<u8>)
        requires
            self.value@.len() <= 0xFFFF,
        ensures
            r@ == spec_serialize_attr(self.attribute_type, self.value@),
            r@.len() == 4 + round_up4(self.value@.len() as int),
    {
        let mut result: Vec<u8> = Vec::new();

        crate::util::push_u16_be(&mut result, self.attribute_type);
        crate::util::push_u16_be(&mut result, self.value.len() as u16);
        result.extend_from_slice(self.value.as_slice());

        let ghost core: Seq<u8> = u16_be(self.attribute_type) + u16_be(self.value@.len() as u16)
            + self.value@;
        assert(result@ =~= core);

        let padding: usize = (4 - (self.value.len() % 4)) % 4;
        proof {
            lemma_pad_len(self.value@.len() as int);
        }
        let mut k: usize = 0;
        while k < padding
            invariant
                k <= padding,
                result@ =~= core + Seq::new(k as nat, |i: int| 0u8),
            decreases padding - k,
        {
            result.push(0u8);
            k = k + 1;
            assert(result@ =~= core + Seq::new(k as nat, |i: int| 0u8));
        }
        assert(result@ =~= spec_serialize_attr(self.attribute_type, self.value@));
        result
    }
}

/// Parsing the serialized form of an attribute, with anything appended after
/// it, yields the attribute back; the padding is consumed but not kept.
pub proof fn lemma_attr_round_trip(t: u16, v: Seq<u8>, rest: Seq<u8>)
    requires
        v.len() <= 0xFFFF,
    ensures
        spec_parse_attr(spec_serialize_attr(t, v) + rest) == Ok::<_, StunError>(
            (t, v, 4 + round_up4(v.len() as int)),
        ),
{
    let s = spec_serialize_attr(t, v) + rest;
    lemma_pad_len(v.len() as int);
    assert(s.len() >= 4 + v.len());
    assert(s[0] == u16_be(t)[0]);
    assert(s[1] == u16_be(t)[1]);
    assert(s[2] == u16_be(v.len() as u16)[0]);
    assert(s[3] == u16_be(v.len() as u16)[1]);
    crate::util::lemma_be16_of_u16_be(t);
    crate::util::lemma_be16_of_u16_be(v.len() as u16);
    assert(be16(s[2], s[3]) as int == v.len() as int);
    assert(s.subrange(4, 4 + v.len() as int) =~= v);
}

} // verus!
