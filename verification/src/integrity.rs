//! Long-term credentials and the MESSAGE-INTEGRITY attribute: an HMAC-SHA1
//! tag over the message with its length field set as if the integrity
//! attribute were already appended.

use vstd::prelude::*;
use vstd::array::array_as_slice;
use vstd::slice::slice_subrange;
use vstd::string::StrSliceExecFns;
use vstd::utf8::encode_utf8;
use hmac::Mac;
use crate::attributes::{RawAttribute, spec_serialize_attr, spec_parse_attr, lemma_attr_round_trip};
use crate::errors::StunError;
use crate::message::{Message, MessageView, MAGIC_COOKIE, spec_type_code};
use crate::util::{u16_be, u32_be};

verus! {

/// The credentials a client authenticates with.
#[derive(Debug, Clone)]
pub struct Credentials {
    pub username: String,
    pub password: String,
    pub realm: String,
}

/// The bytes the long-term key is derived from: `username:realm:password`.
pub open spec fn spec_key(username: Seq<char>, realm: Seq<char>, password: Seq<char>) -> Seq<u8> {
    encode_utf8(username) + seq![58u8] + encode_utf8(realm) + seq![58u8] + encode_utf8(password)
}

/// The MD5 digest of a byte string.
pub uninterp spec fn md5_of(data: Seq<u8>) -> Seq<u8>;

/// Relies on md5::compute: the 16-byte MD5 digest, a function of the input
/// alone.
#[verifier::external_body]
fn md5_digest(data: &[u8]) -> (r: Vec<u8>)
    ensures
        r@ == md5_of(data@),
        r@.len() == 16,
{
    md5::compute(data).0.to_vec()
}

impl Credentials {
    pub fn new(username: String, password: String, realm: String) -> (r: Self)
        ensures
            r.username@ == username@,
            r.password@ == password@,
            r.realm@ == realm@,
    {
        Credentials { username, password, realm }
    }

    /// The long-term key: the MD5 digest of `username:realm:password`.
    pub fn compute_key(&self) -> (r: Vec<u8>)
        ensures
            r@ == md5_of(spec_key(self.username@, self.realm@, self.password@)),
            r@.len() == 16,
    {
        let mut key_input = self.username.as_str().as_bytes_vec();
        key_input.push(58);
        let mut realm_bytes = self.realm.as_str().as_bytes_vec();
        key_input.append(&mut realm_bytes);
        key_input.push(58);
        let mut password_bytes = self.password.as_str().as_bytes_vec();
        key_input.append(&mut password_bytes);
        assert(key_input@ =~= spec_key(self.username@, self.realm@, self.password@));
        md5_digest(key_input.as_slice())
    }
}

/// The HMAC-SHA1 tag of `data` under `key`.
pub uninterp spec fn hmac_sha1(key: Seq<u8>, data: Seq<u8>) -> Seq<u8>;

/// Relies on hmac::Hmac over sha1::Sha1: new_from_slice accepts a key of any
/// length (long keys are hashed down, short ones padded), and the finalized
/// tag is the 20-byte HMAC-SHA1 of the data, a function of key and data
/// alone.
#[verifier::external_body]
fn hmac_sha1_tag(key: &[u8], data: &[u8]) -> (r: Vec<u8>)
    ensures
        r@ == hmac_sha1(key@, data@),
        r@.len() == 20,
{
    let mut mac = <hmac::Hmac<sha1::Sha1>>::new_from_slice(key).unwrap();
    mac.update(data);
    mac.finalize().into_bytes().to_vec()
}

/// The bytes the integrity tag is computed over: the message header with its
/// length field raised by the 24 bytes of the coming MESSAGE-INTEGRITY
/// attribute, then the attribute bytes as they stand.
pub open spec fn spec_integrity_input(m: MessageView) -> Seq<u8> {
    u16_be(spec_type_code(m.message_type)) + u16_be((m.length + 24) as u16) + u32_be(MAGIC_COOKIE)
        + m.transaction_id + m.attributes
}

/// The bytes verification recomputes the tag over when the integrity
/// attribute starts at `off`: the header claims `off + 24` and only the
/// attribute bytes before `off` are covered.
pub open spec fn spec_verify_prefix_input(m: MessageView, off: int) -> Seq<u8> {
    u16_be(spec_type_code(m.message_type)) + u16_be((off + 24) as u16) + u32_be(MAGIC_COOKIE)
        + m.transaction_id + m.attributes.subrange(0, off)
}

/// Computes the integrity tag of a message prepared without a
/// MESSAGE-INTEGRITY attribute.
pub fn calculate_message_integrity(message: &Message, key: &[u8]) -> (r: Result<Vec<u8>, StunError>)
    requires
        message@.length + 24 <= 0xFFFF,
    ensures
        r matches Ok(v) && v@ == hmac_sha1(key@, spec_integrity_input(message@)) && v@.len() == 20,
{
    let mut input: Vec<u8> = Vec::new();
    crate::util::push_u16_be(&mut input, message.message_type.as_u16());
    crate::util::push_u16_be(&mut input, message.length + 24);
    crate::util::push_u32_be(&mut input, MAGIC_COOKIE);
    input.extend_from_slice(array_as_slice(&message.transaction_id));
    input.extend_from_slice(message.attributes.as_slice());
    assert(input@ =~= spec_integrity_input(message@));
    Ok(hmac_sha1_tag(key, input.as_slice()))
}

/// Where the MESSAGE-INTEGRITY attribute starts in raw attribute bytes, and
/// its value, scanning from `off`; an attribute that cannot be read stops the
/// scan with its error.
pub open spec fn spec_find_integrity(attrs: Seq<u8>, off: int) -> Result<
    Option<(int, Seq<u8>)>,
    StunError,
>
    decreases attrs.len() - off,
{
    if off >= attrs.len() || off < 0 {
        Ok(None)
    } else {
        match spec_parse_attr(attrs.subrange(off, attrs.len() as int)) {
            Err(e) => Err(e),
            Ok((t, v, c)) => {
                if t == 0x0008 {
                    Ok(Some((off, v)))
                } else if off + c >= attrs.len() {
                    Ok(None)
                } else {
                    spec_find_integrity(attrs, off + c)
                }
            },
        }
    }
}

/// Raw attribute bytes that scan cleanly from `off` to the exact end with no
/// MESSAGE-INTEGRITY attribute among them.
pub open spec fn spec_attrs_clean(attrs: Seq<u8>, off: int) -> bool
    decreases attrs.len() - off,
{
    if off == attrs.len() {
        true
    } else if off > attrs.len() || off < 0 {
        false
    } else {
        match spec_parse_attr(attrs.subrange(off, attrs.len() as int)) {
            Err(_) => false,
            Ok((t, v, c)) => {
                if t == 0x0008 {
                    false
                } else if off + c > attrs.len() {
                    false
                } else {
                    spec_attrs_clean(attrs, off + c)
                }
            },
        }
    }
}

/// Checks the MESSAGE-INTEGRITY attribute of a message: scans for it,
/// recomputes the tag over everything before it, and compares.
pub fn verify_message_integrity(message: &Message, key: &[u8]) -> (r: Result<bool, StunError>)
    requires
        message@.attributes.len() <= 0xFFFF,
    ensures
        match r {
            Ok(b) => spec_find_integrity(message@.attributes, 0) matches Ok(found) && match found {
                None => b == false,
                Some((off, v)) => b == (off + 24 <= 0xFFFF && v == hmac_sha1(
                    key@,
                    spec_verify_prefix_input(message@, off),
                )),
            },
            Err(e) => spec_find_integrity(message@.attributes, 0) == Err::<
                Option<(int, Seq<u8>)>,
                _,
            >(e),
        },
{
    let ghost attrs = message@.attributes;
    let attrs_len: usize = message.attributes.len();
    let mut offset: usize = 0;

    while offset < attrs_len
        invariant
            attrs == message@.attributes,
            attrs_len == attrs.len(),
            attrs.len() <= 0xFFFF,
            spec_find_integrity(attrs, 0) == spec_find_integrity(attrs, offset as int),
        decreases attrs.len() + 3 - offset,
    {
        let attr_slice = slice_subrange(message.attributes.as_slice(), offset, attrs_len);
        match RawAttribute::parse(attr_slice) {
            Err(e) => {
                return Err(e);
            },
            Ok((attr, consumed)) => {
                if attr.attribute_type == 0x0008 {
                    if offset > 0xFFFF - 24 {
                        return Ok(false);
                    }
                    let mut input: Vec<u8> = Vec::new();
                    crate::util::push_u16_be(&mut input, message.message_type.as_u16());
                    crate::util::push_u16_be(&mut input, offset as u16 + 24);
                    crate::util::push_u32_be(&mut input, MAGIC_COOKIE);
                    input.extend_from_slice(array_as_slice(&message.transaction_id));
                    let prefix = slice_subrange(message.attributes.as_slice(), 0, offset);
                    input.extend_from_slice(prefix);
                    assert(input@ =~= spec_verify_prefix_input(message@, offset as int));

                    let calculated = hmac_sha1_tag(key, input.as_slice());
                    let equal = crate::util::bytes_eq(
                        calculated.as_slice(),
                        attr.value.as_slice(),
                    );
                    return Ok(equal);
                }
                proof {
                    let sub = attrs.subrange(offset as int, attrs.len() as int);
                    let l = crate::util::be16(sub[2], sub[3]) as int;
                    assert(crate::util::round_up4(l) >= 0);
                    assert(crate::util::round_up4(l) <= l + 3);
                    assert(consumed >= 4);
                    assert(offset + consumed <= attrs.len() + 3);
                }
                offset = offset + consumed;
            },
        }
    }
    Ok(false)
}

/// Whether a message carries a MESSAGE-INTEGRITY attribute at all.
pub fn has_message_integrity(message: &Message) -> (r: Result<bool, StunError>)
    ensures
        match r {
            Ok(b) => spec_find_integrity(message@.attributes, 0) matches Ok(found) && b == (found
                is Some),
            Err(e) => spec_find_integrity(message@.attributes, 0) == Err::<
                Option<(int, Seq<u8>)>,
                _,
            >(e),
        },
{
    let ghost attrs = message@.attributes;
    let attrs_len: usize = message.attributes.len();
    let mut offset: usize = 0;

    while offset < attrs_len
        invariant
            attrs == message@.attributes,
            attrs_len == attrs.len(),
            offset <= attrs_len,
            spec_find_integrity(attrs, 0) == spec_find_integrity(attrs, offset as int),
        decreases attrs.len() - offset,
    {
        let attr_slice = slice_subrange(message.attributes.as_slice(), offset, attrs_len);
        match RawAttribute::parse(attr_slice) {
            Err(e) => {
                return Err(e);
            },
            Ok((attr, consumed)) => {
                if attr.attribute_type == 0x0008 {
                    return Ok(true);
                }
                proof {
                    let sub = attrs.subrange(offset as int, attrs.len() as int);
                    let l = crate::util::be16(sub[2], sub[3]) as int;
                    assert(crate::util::round_up4(l) >= 0);
                    assert(consumed >= 4);
                }
                let remaining: usize = attrs_len - offset;
                if consumed >= remaining {
                    offset = attrs_len;
                } else {
                    offset = offset + consumed;
                }
            },
        }
    }
    Ok(false)
}

/// The message after its integrity tag `digest` is appended as the final
/// attribute: 24 more bytes on the wire, counted in the length field.
pub open spec fn spec_append_integrity(m: MessageView, digest: Seq<u8>) -> MessageView {
    MessageView {
        message_type: m.message_type,
        length: (m.attributes.len() + 24) as u16,
        transaction_id: m.transaction_id,
        attributes: m.attributes + spec_serialize_attr(0x0008, digest),
    }
}

/// Appends the MESSAGE-INTEGRITY attribute computed under `key`.
pub fn append_integrity(message: &Message, key: &[u8]) -> (r: Message)
    requires
        message@.length + 24 <= 0xFFFF,
        message@.attributes.len() + 24 <= 0xFFFF,
    ensures
        r@ == spec_append_integrity(
            message@,
            hmac_sha1(key@, spec_integrity_input(message@)),
        ),
        hmac_sha1(key@, spec_integrity_input(message@)).len() == 20,
        r@.attributes.len() == message@.attributes.len() + 24,
{
    let digest = match calculate_message_integrity(message, key) {
        Ok(d) => d,
        Err(_) => {
            proof {
                assert(false);
            }
            Vec::new()
        },
    };
    let integrity_attr = RawAttribute::new(0x0008, digest);
    let attr_bytes = integrity_attr.serialize();

    let mut attributes = Vec::new();
    attributes.extend_from_slice(message.attributes.as_slice());
    attributes.extend_from_slice(attr_bytes.as_slice());
    let length: u16 = message.attributes.len() as u16 + 24;

    let r = Message {
        message_type: message.message_type,
        length,
        transaction_id: message.transaction_id,
        attributes,
    };
    proof {
        assert(r@.attributes =~= message@.attributes + spec_serialize_attr(
            0x0008,
            hmac_sha1(key@, spec_integrity_input(message@)),
        ));
        crate::attributes::lemma_pad_len(20);
        assert(r@ =~= spec_append_integrity(
            message@,
            hmac_sha1(key@, spec_integrity_input(message@)),
        ));
    }
    r
}

/// Reading one attribute is unchanged by bytes appended after the data.
proof fn lemma_parse_attr_extend(d: Seq<u8>, extra: Seq<u8>)
    requires
        spec_parse_attr(d) is Ok,
    ensures
        spec_parse_attr(d + extra) == spec_parse_attr(d),
{
    let e = d + extra;
    assert(e[0] == d[0] && e[1] == d[1] && e[2] == d[2] && e[3] == d[3]);
    let len = crate::util::be16(d[2], d[3]) as int;
    assert(e.subrange(4, 4 + len) =~= d.subrange(4, 4 + len));
}

/// Scanning cleanly-built attribute bytes with one integrity attribute
/// appended finds that attribute, at the end, with its value intact.
proof fn lemma_scan_append(a: Seq<u8>, digest: Seq<u8>, off: int)
    requires
        spec_attrs_clean(a, off),
        0 <= off,
        digest.len() == 20,
    ensures
        spec_find_integrity(a + spec_serialize_attr(0x0008, digest), off) == Ok::<_, StunError>(
            Some((a.len() as int, digest)),
        ),
    decreases a.len() - off,
{
    let s = spec_serialize_attr(0x0008, digest);
    let full = a + s;
    assert(s.len() == 24) by {
        crate::attributes::lemma_pad_len(20);
    }
    if off == a.len() {
        assert(full.subrange(off, full.len() as int) =~= s);
        lemma_attr_round_trip(0x0008, digest, Seq::<u8>::empty());
        assert(s + Seq::<u8>::empty() =~= s);
        assert(spec_parse_attr(s) == Ok::<_, StunError>((0x0008u16, digest, 24int)));
    } else {
        assert(off < a.len());
        let d = a.subrange(off, a.len() as int);
        assert(spec_parse_attr(d) is Ok);
        let (t, v, c) = spec_parse_attr(d)->Ok_0;
        lemma_parse_attr_extend(d, s);
        assert(full.subrange(off, full.len() as int) =~= d + s);
        assert(spec_parse_attr(full.subrange(off, full.len() as int)) == Ok::<_, StunError>(
            (t, v, c),
        ));
        lemma_scan_append(a, digest, off + c);
    }
}

/// Verifying right after appending succeeds: in the extended message the
/// scan finds the appended attribute at the old end of the attribute bytes,
/// its value is the appended digest, and the bytes verification recomputes
/// the tag over are exactly the bytes the tag was computed over. This holds
/// for every message prepared without a MESSAGE-INTEGRITY attribute and
/// every key.
pub proof fn lemma_integrity_round_trip(m: MessageView, key: Seq<u8>, digest: Seq<u8>)
    requires
        spec_attrs_clean(m.attributes, 0),
        m.length == m.attributes.len(),
        m.attributes.len() + 28 <= 0xFFFF,
        digest == hmac_sha1(key, spec_integrity_input(m)),
        digest.len() == 20,
    ensures
        spec_find_integrity(spec_append_integrity(m, digest).attributes, 0) == Ok::<_, StunError>(
            Some((m.attributes.len() as int, digest)),
        ),
        spec_verify_prefix_input(spec_append_integrity(m, digest), m.attributes.len() as int)
            == spec_integrity_input(m),
        digest == hmac_sha1(
            key,
            spec_verify_prefix_input(
                spec_append_integrity(m, digest),
                m.attributes.len() as int,
            ),
        ),
{
    let m2 = spec_append_integrity(m, digest);
    lemma_scan_append(m.attributes, digest, 0);
    assert(m2.attributes.subrange(0, m.attributes.len() as int) =~= m.attributes);
    assert(spec_verify_prefix_input(m2, m.attributes.len() as int) =~= spec_integrity_input(m));
}

} // verus!
