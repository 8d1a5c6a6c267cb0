//! The XOR-obfuscated transport address encoding: the port is XORed with the
//! top half of the magic cookie, an IPv4 address with the cookie itself, and
//! an IPv6 address with the cookie followed by the transaction id.

use vstd::prelude::*;
use crate::addr::{IpAddress, SocketAddress};
use crate::attributes::RawAttribute;
use crate::message::MAGIC_COOKIE;
use crate::util::{u16_be, be16, u32_be, be32};

verus! {

pub const P120: u128 = 0x1000000000000000000000000000000;

pub const P112: u128 = 0x10000000000000000000000000000;

pub const P104: u128 = 0x100000000000000000000000000;

pub const P96: u128 = 0x1000000000000000000000000;

pub const P88: u128 = 0x10000000000000000000000;

pub const P80: u128 = 0x100000000000000000000;

pub const P72: u128 = 0x1000000000000000000;

pub const P64: u128 = 0x10000000000000000;

pub const P56: u128 = 0x100000000000000;

pub const P48: u128 = 0x1000000000000;

pub const P40: u128 = 0x10000000000;

pub const P32: u128 = 0x100000000;

pub const P24: u128 = 0x1000000;

pub const P16: u128 = 0x10000;

pub const P8: u128 = 0x100;

/// The sixteen big-endian bytes of a 128-bit value.
pub open spec fn u128_be(v: u128) -> Seq<u8> {
    seq![
        ((v / P120) % 0x100) as u8,
        ((v / P112) % 0x100) as u8,
        ((v / P104) % 0x100) as u8,
        ((v / P96) % 0x100) as u8,
        ((v / P88) % 0x100) as u8,
        ((v / P80) % 0x100) as u8,
        ((v / P72) % 0x100) as u8,
        ((v / P64) % 0x100) as u8,
        ((v / P56) % 0x100) as u8,
        ((v / P48) % 0x100) as u8,
        ((v / P40) % 0x100) as u8,
        ((v / P32) % 0x100) as u8,
        ((v / P24) % 0x100) as u8,
        ((v / P16) % 0x100) as u8,
        ((v / P8) % 0x100) as u8,
        (v % 0x100) as u8,
    ]
}

/// The 128-bit value read from sixteen big-endian bytes.
pub open spec fn be128(b: Seq<u8>) -> u128
    recommends
        b.len() == 16,
{
    (b[0] as u128 * P120 + b[1] as u128 * P112 + b[2] as u128 * P104 + b[3] as u128 * P96
        + b[4] as u128 * P88 + b[5] as u128 * P80 + b[6] as u128 * P72 + b[7] as u128 * P64
        + b[8] as u128 * P56 + b[9] as u128 * P48 + b[10] as u128 * P40 + b[11] as u128 * P32
        + b[12] as u128 * P24 + b[13] as u128 * P16 + b[14] as u128 * P8 + b[15] as u128) as u128
}

pub proof fn lemma_be128_of_u128_be(v: u128)
    ensures
        be128(u128_be(v)) == v,
{
    assert(v / 0x1000000000000000000000000000000 % 0x100
        * 0x1000000000000000000000000000000 + v / 0x10000000000000000000000000000 % 0x100
        * 0x10000000000000000000000000000 + v / 0x100000000000000000000000000 % 0x100
        * 0x100000000000000000000000000 + v / 0x1000000000000000000000000 % 0x100
        * 0x1000000000000000000000000 + v / 0x10000000000000000000000 % 0x100
        * 0x10000000000000000000000 + v / 0x100000000000000000000 % 0x100
        * 0x100000000000000000000 + v / 0x1000000000000000000 % 0x100 * 0x1000000000000000000
        + v / 0x10000000000000000 % 0x100 * 0x10000000000000000 + v / 0x100000000000000
        % 0x100 * 0x100000000000000 + v / 0x1000000000000 % 0x100 * 0x1000000000000 + v
        / 0x10000000000 % 0x100 * 0x10000000000 + v / 0x100000000 % 0x100 * 0x100000000 + v
        / 0x1000000 % 0x100 * 0x1000000 + v / 0x10000 % 0x100 * 0x10000 + v / 0x100 % 0x100
        * 0x100 + v % 0x100 == v) by (bit_vector);
}

/// Byte-for-byte XOR of two equally long byte sequences.
pub open spec fn xor_bytes(a: Seq<u8>, b: Seq<u8>) -> Seq<u8>
    recommends
        a.len() == b.len(),
{
    Seq::new(a.len(), |i: int| a[i] ^ b[i])
}

/// The 16-byte mask an IPv6 address is XORed with: the magic cookie followed
/// by the transaction id.
pub open spec fn v6_mask(tid: Seq<u8>) -> Seq<u8> {
    u32_be(MAGIC_COOKIE) + tid
}

pub proof fn lemma_xor_involution_u8(x: u8, m: u8)
    ensures
        (x ^ m) ^ m == x,
{
    assert((x ^ m) ^ m == x) by (bit_vector);
}

pub proof fn lemma_xor_involution_u16(x: u16, m: u16)
    ensures
        (x ^ m) ^ m == x,
{
    assert((x ^ m) ^ m == x) by (bit_vector);
}

pub proof fn lemma_xor_involution_u32(x: u32, m: u32)
    ensures
        (x ^ m) ^ m == x,
{
    assert((x ^ m) ^ m == x) by (bit_vector);
}

/// The value bytes of a XOR-mapped address attribute.
pub open spec fn spec_xor_addr_bytes(addr: SocketAddress, tid: Seq<u8>) -> Seq<u8> {
    let xport = addr.port ^ 0x2112u16;
    match addr.ip {
        IpAddress::V4(ip) => seq![0u8, 1u8] + u16_be(xport) + u32_be(ip ^ MAGIC_COOKIE),
        IpAddress::V6(ip) => seq![0u8, 2u8] + u16_be(xport) + xor_bytes(
            u128_be(ip),
            v6_mask(tid),
        ),
    }
}

/// The address read back from the value bytes of a XOR-mapped address
/// attribute, if the bytes are long enough and the family is known.
pub open spec fn spec_parse_xor_addr(data: Seq<u8>, tid: Seq<u8>) -> Option<SocketAddress> {
    if data.len() < 8 {
        None
    } else {
        let family = data[1];
        let port = be16(data[2], data[3]) ^ 0x2112u16;
        if family == 1 {
            Some(
                SocketAddress {
                    ip: IpAddress::V4(be32(data[4], data[5], data[6], data[7]) ^ MAGIC_COOKIE),
                    port,
                },
            )
        } else if family == 2 {
            if data.len() < 20 {
                None
            } else {
                Some(
                    SocketAddress {
                        ip: IpAddress::V6(be128(xor_bytes(data.subrange(4, 20), v6_mask(tid)))),
                        port,
                    },
                )
            }
        } else {
            None
        }
    }
}

/// Reads a XOR-mapped address out of an attribute value.
pub fn parse_xor_peer_address(data: &[u8], transaction_id: &[u8; 12]) -> (r: Option<SocketAddress>)
    ensures
        r == spec_parse_xor_addr(data@, transaction_id@),
{
    if data.len() < 8 {
        return None;
    }

    let family: u8 = data[1];
    let xor_port = crate::util::read_u16_be(data, 2);
    let port: u16 = xor_port ^ 0x2112;

    if family == 0x01 {
        let xor_ip = crate::util::read_u32_be(data, 4);
        let ip: u32 = xor_ip ^ MAGIC_COOKIE;
        Some(SocketAddress { ip: IpAddress::V4(ip), port })
    } else if family == 0x02 {
        if data.len() < 20 {
            return None;
        }

        let b0: u8 = data[4] ^ 0x21;
        let b1: u8 = data[5] ^ 0x12;
        let b2: u8 = data[6] ^ 0xA4;
        let b3: u8 = data[7] ^ 0x42;
        let b4: u8 = data[8] ^ transaction_id[0];
        let b5: u8 = data[9] ^ transaction_id[1];
        let b6: u8 = data[10] ^ transaction_id[2];
        let b7: u8 = data[11] ^ transaction_id[3];
        let b8: u8 = data[12] ^ transaction_id[4];
        let b9: u8 = data[13] ^ transaction_id[5];
        let b10: u8 = data[14] ^ transaction_id[6];
        let b11: u8 = data[15] ^ transaction_id[7];
        let b12: u8 = data[16] ^ transaction_id[8];
        let b13: u8 = data[17] ^ transaction_id[9];
        let b14: u8 = data[18] ^ transaction_id[10];
        let b15: u8 = data[19] ^ transaction_id[11];

        let ip: u128 = b0 as u128 * P120 + b1 as u128 * P112 + b2 as u128 * P104 + b3 as u128
            * P96 + b4 as u128 * P88 + b5 as u128 * P80 + b6 as u128 * P72 + b7 as u128 * P64
            + b8 as u128 * P56 + b9 as u128 * P48 + b10 as u128 * P40 + b11 as u128 * P32
            + b12 as u128 * P24 + b13 as u128 * P16 + b14 as u128 * P8 + b15 as u128;

        proof {
            let xb = xor_bytes(data@.subrange(4, 20), v6_mask(transaction_id@));
            assert(u32_be(MAGIC_COOKIE)[0] == 0x21u8);
            assert(u32_be(MAGIC_COOKIE)[1] == 0x12u8);
            assert(u32_be(MAGIC_COOKIE)[2] == 0xA4u8);
            assert(u32_be(MAGIC_COOKIE)[3] == 0x42u8);
            assert(xb[0] == b0 && xb[1] == b1 && xb[2] == b2 && xb[3] == b3);
            assert(xb[4] == b4 && xb[5] == b5 && xb[6] == b6 && xb[7] == b7);
            assert(xb[8] == b8 && xb[9] == b9 && xb[10] == b10 && xb[11] == b11);
            assert(xb[12] == b12 && xb[13] == b13 && xb[14] == b14 && xb[15] == b15);
            assert(be128(xb) == ip);
        }
        Some(SocketAddress { ip: IpAddress::V6(ip), port })
    } else {
        None
    }
}

/// Builds the XOR-PEER-ADDRESS attribute that encodes `addr`.
pub fn create_xor_peer_address_attr(addr: SocketAddress, transaction_id: &[u8; 12]) -> (r:
    RawAttribute)
    ensures
        r.attribute_type == 0x0012,
        r.value@ == spec_xor_addr_bytes(addr, transaction_id@),
{
    RawAttribute::new(0x0012, xor_addr_value(addr, transaction_id))
}

/// Builds the value bytes of a XOR-mapped address attribute of any type.
pub fn xor_addr_value(addr: SocketAddress, transaction_id: &[u8; 12]) -> (r: Vec<u8>)
    ensures
        r@ == spec_xor_addr_bytes(addr, transaction_id@),
        r@.len() == 8 || r@.len() == 20,
{
    let mut data: Vec<u8> = Vec::new();

    data.push(0);

    match addr.ip {
        IpAddress::V4(ip) => {
            data.push(0x01);

            let xor_port: u16 = addr.port ^ 0x2112;
            crate::util::push_u16_be(&mut data, xor_port);

            let xor_ip: u32 = ip ^ MAGIC_COOKIE;
            crate::util::push_u32_be(&mut data, xor_ip);

            assert(data@ =~= spec_xor_addr_bytes(addr, transaction_id@));
        },
        IpAddress::V6(ip) => {
            data.push(0x02);

            let xor_port: u16 = addr.port ^ 0x2112;
            crate::util::push_u16_be(&mut data, xor_port);

            data.push((((ip / P120) % 0x100) as u8) ^ 0x21);
            data.push((((ip / P112) % 0x100) as u8) ^ 0x12);
            data.push((((ip / P104) % 0x100) as u8) ^ 0xA4);
            data.push((((ip / P96) % 0x100) as u8) ^ 0x42);
            data.push((((ip / P88) % 0x100) as u8) ^ transaction_id[0]);
            data.push((((ip / P80) % 0x100) as u8) ^ transaction_id[1]);
            data.push((((ip / P72) % 0x100) as u8) ^ transaction_id[2]);
            data.push((((ip / P64) % 0x100) as u8) ^ transaction_id[3]);
            data.push((((ip / P56) % 0x100) as u8) ^ transaction_id[4]);
            data.push((((ip / P48) % 0x100) as u8) ^ transaction_id[5]);
            data.push((((ip / P40) % 0x100) as u8) ^ transaction_id[6]);
            data.push((((ip / P32) % 0x100) as u8) ^ transaction_id[7]);
            data.push((((ip / P24) % 0x100) as u8) ^ transaction_id[8]);
            data.push((((ip / P16) % 0x100) as u8) ^ transaction_id[9]);
            data.push((((ip / P8) % 0x100) as u8) ^ transaction_id[10]);
            data.push(((ip % 0x100) as u8) ^ transaction_id[11]);

            proof {
                assert(u32_be(MAGIC_COOKIE)[0] == 0x21u8);
                assert(u32_be(MAGIC_COOKIE)[1] == 0x12u8);
                assert(u32_be(MAGIC_COOKIE)[2] == 0xA4u8);
                assert(u32_be(MAGIC_COOKIE)[3] == 0x42u8);
                assert(data@ =~= spec_xor_addr_bytes(addr, transaction_id@));
            }
        },
    }

    data
}

/// Decoding an encoded address with the same transaction id yields the
/// address back, for IPv4 and for IPv6 alike.
pub proof fn lemma_xor_addr_round_trip(addr: SocketAddress, tid: Seq<u8>)
    requires
        tid.len() == 12,
    ensures
        spec_parse_xor_addr(spec_xor_addr_bytes(addr, tid), tid) == Some(addr),
{
    let s = spec_xor_addr_bytes(addr, tid);
    let xport = addr.port ^ 0x2112u16;
    assert(s[2] == u16_be(xport)[0]);
    assert(s[3] == u16_be(xport)[1]);
    crate::util::lemma_be16_of_u16_be(xport);
    lemma_xor_involution_u16(addr.port, 0x2112);
    match addr.ip {
        IpAddress::V4(ip) => {
            let xip = ip ^ MAGIC_COOKIE;
            assert(s[4] == u32_be(xip)[0]);
            assert(s[5] == u32_be(xip)[1]);
            assert(s[6] == u32_be(xip)[2]);
            assert(s[7] == u32_be(xip)[3]);
            crate::util::lemma_be32_of_u32_be(xip);
            lemma_xor_involution_u32(ip, MAGIC_COOKIE);
        },
        IpAddress::V6(ip) => {
            let mask = v6_mask(tid);
            let enc = xor_bytes(u128_be(ip), mask);
            assert(s.len() == 20);
            assert(s.subrange(4, 20) =~= enc);
            let dec = xor_bytes(enc, mask);
            assert forall|i: int| 0 <= i < 16 implies dec[i] == u128_be(ip)[i] by {
                lemma_xor_involution_u8(u128_be(ip)[i], mask[i]);
            }
            assert(dec =~= u128_be(ip));
            lemma_be128_of_u128_be(ip);
        },
    }
}

} // verus!
