//! Send and Data indications: a peer address and a datagram carried through
//! the server, in both directions.

use vstd::prelude::*;
use vstd::slice::slice_subrange;
use crate::addr::SocketAddress;
use crate::attributes::{
    RawAttribute,
    AttributeType,
    spec_attr_type_from_u16,
    spec_parse_attr,
    spec_serialize_attr,
};
use crate::errors::{StunError, TurnError};
use crate::message::{Message, MessageView, MessageType, MessageMethod, MessageClass};
use crate::xoraddr::{
    parse_xor_peer_address,
    create_xor_peer_address_attr,
    spec_parse_xor_addr,
    spec_xor_addr_bytes,
};

verus! {

/// The fields gathered while scanning an indication's attributes.
#[verifier::ext_equal]
pub struct IndicationScan {
    pub peer_address: Option<SocketAddress>,
    pub data: Option<Seq<u8>>,
}

/// The scan record of the given gathered fields.
pub open spec fn ind_scan_of(peer_address: Option<SocketAddress>, data: Option<Vec<u8>>) -> IndicationScan {
    IndicationScan {
        peer_address,
        data: match data {
            Some(v) => Some(v@),
            None => None,
        },
    }
}

/// What one attribute does to the fields gathered so far.
pub open spec fn indication_step(acc: IndicationScan, t: u16, v: Seq<u8>, tid: Seq<u8>) -> IndicationScan {
    match spec_attr_type_from_u16(t) {
        Some(AttributeType::XorPeerAddress) => match spec_parse_xor_addr(v, tid) {
            Some(addr) => IndicationScan { peer_address: Some(addr), ..acc },
            None => acc,
        },
        Some(AttributeType::Data) => IndicationScan { data: Some(v), ..acc },
        _ => acc,
    }
}

/// The fields gathered from the attribute bytes, scanning from `off` with
/// `acc` gathered so far.
pub open spec fn spec_scan_indication(
    attrs: Seq<u8>,
    off: int,
    acc: IndicationScan,
    tid: Seq<u8>,
) -> Result<IndicationScan, StunError>
    decreases attrs.len() - off,
{
    if off >= attrs.len() || off < 0 {
        Ok(acc)
    } else {
        match spec_parse_attr(attrs.subrange(off, attrs.len() as int)) {
            Err(e) => Err(e),
            Ok((t, v, c)) => {
                let acc2 = indication_step(acc, t, v, tid);
                if off + c >= attrs.len() {
                    Ok(acc2)
                } else {
                    spec_scan_indication(attrs, off + c, acc2, tid)
                }
            },
        }
    }
}

pub open spec fn init_indication() -> IndicationScan {
    IndicationScan { peer_address: None, data: None }
}

/// An indication of the given method read out of a message: the right
/// method and class, the attribute scan, and a peer address and data both
/// present.
pub open spec fn spec_parse_indication(m: MessageView, method: MessageMethod) -> Result<
    (SocketAddress, Seq<u8>),
    TurnError,
> {
    if m.message_type.method != method || m.message_type.class != MessageClass::Indication {
        Err(TurnError::BadRequest)
    } else {
        match spec_scan_indication(m.attributes, 0, init_indication(), m.transaction_id) {
            Err(e) => Err(TurnError::StunError(e)),
            Ok(acc) => if acc.peer_address is None || acc.data is None {
                Err(TurnError::BadRequest)
            } else {
                Ok((acc.peer_address->0, acc.data->0))
            },
        }
    }
}

/// The attribute bytes of an indication built for a peer and a datagram:
/// the XOR-PEER-ADDRESS attribute followed by the DATA attribute.
pub open spec fn spec_indication_attrs(peer: SocketAddress, data: Seq<u8>, tid: Seq<u8>) -> Seq<
    u8,
> {
    spec_serialize_attr(0x0012, spec_xor_addr_bytes(peer, tid)) + spec_serialize_attr(
        0x0013,
        data,
    )
}

/// Scans an indication message for its peer address and data.
fn scan_indication_message(message: &Message, ghost_method: Ghost<MessageMethod>) -> (r: Result<
    (SocketAddress, Vec<u8>),
    TurnError,
>)
    requires
        message@.message_type.method == ghost_method@,
        message@.message_type.class == MessageClass::Indication,
    ensures
        match r {
            Ok((peer, data)) => spec_parse_indication(message@, ghost_method@) == Ok::<
                _,
                TurnError,
            >((peer, data@)),
            Err(e) => spec_parse_indication(message@, ghost_method@) == Err::<
                (SocketAddress, Seq<u8>),
                _,
            >(e),
        },
{
    let mut peer_address: Option<SocketAddress> = None;
    let mut data_field: Option<Vec<u8>> = None;

    let ghost attrs = message@.attributes;
    let ghost tid = message@.transaction_id;
    let attrs_len: usize = message.attributes.len();
    let mut offset: usize = 0;

    while offset < attrs_len
        invariant
            attrs == message@.attributes,
            tid == message@.transaction_id,
            attrs_len == attrs.len(),
            offset <= attrs_len,
            message@.message_type.method == ghost_method@,
            message@.message_type.class == MessageClass::Indication,
            spec_scan_indication(attrs, 0, init_indication(), tid) == spec_scan_indication(
                attrs,
                offset as int,
                ind_scan_of(peer_address, data_field),
                tid,
            ),
        decreases attrs.len() - offset,
    {
        let attr_slice = slice_subrange(message.attributes.as_slice(), offset, attrs_len);
        match RawAttribute::parse(attr_slice) {
            Err(e) => {
                return Err(TurnError::StunError(e));
            },
            Ok((attr, consumed)) => {
                proof {
                    let sub = attrs.subrange(offset as int, attrs.len() as int);
                    let l = crate::util::be16(sub[2], sub[3]) as int;
                    assert(crate::util::round_up4(l) >= 0);
                    assert(consumed >= 4);
                }
                let ghost pre = ind_scan_of(peer_address, data_field);
                let ghost vv = attr.value@;
                let attr_type = attr.attribute_type;
                match AttributeType::from_u16(attr.attribute_type) {
                    Some(AttributeType::XorPeerAddress) => {
                        if let Some(addr) = parse_xor_peer_address(
                            attr.value.as_slice(),
                            &message.transaction_id,
                        ) {
                            peer_address = Some(addr);
                        }
                    },
                    Some(AttributeType::Data) => {
                        data_field = Some(attr.value);
                    },
                    _ => {},
                }
                proof {
                    let post = ind_scan_of(peer_address, data_field);
                    assert(post =~~= indication_step(pre, attr_type, vv, tid));
                }
                let remaining: usize = attrs_len - offset;
                if consumed >= remaining {
                    offset = attrs_len;
                } else {
                    offset = offset + consumed;
                }
            },
        }
    }

    let peer: SocketAddress = match peer_address {
        Some(p) => p,
        None => {
            return Err(TurnError::BadRequest);
        },
    };
    let data: Vec<u8> = match data_field {
        Some(d) => d,
        None => {
            return Err(TurnError::BadRequest);
        },
    };
    Ok((peer, data))
}

/// Builds the message of an indication: the given type, the given
/// transaction id, and the peer and data attributes.
fn build_indication_message(
    message_type: MessageType,
    transaction_id: [u8; 12],
    peer_address: SocketAddress,
    data: &Vec<u8>,
) -> (r: Message)
    requires
        data@.len() + 31 <= 0xFFFF,
    ensures
        r@.message_type == message_type,
        r@.transaction_id == transaction_id@,
        r@.attributes == spec_indication_attrs(peer_address, data@, transaction_id@),
        r@.length == r@.attributes.len(),
{
    let peer_attr = create_xor_peer_address_attr(peer_address, &transaction_id);
    proof {
        match peer_address.ip {
            crate::addr::IpAddress::V4(_) => {
                assert(peer_attr.value@.len() == 8);
            },
            crate::addr::IpAddress::V6(_) => {
                assert(peer_attr.value@.len() == 20);
            },
        }
    }
    let mut attrs: Vec<u8> = peer_attr.serialize();

    let data_attr = RawAttribute::new(0x0013, data.clone());
    let mut data_bytes = data_attr.serialize();
    proof {
        crate::attributes::lemma_pad_len(data@.len() as int);
    }
    attrs.append(&mut data_bytes);

    let length: u16 = attrs.len() as u16;
    let r = Message { message_type, length, transaction_id, attributes: attrs };
    proof {
        assert(r@.attributes =~= spec_indication_attrs(
            peer_address,
            data@,
            transaction_id@,
        ));
    }
    r
}

/// A Send indication from the client: relay this datagram to that peer.
#[derive(Debug, Clone)]
pub struct SendIndication {
    pub transaction_id: [u8; 12],
    pub peer_address: SocketAddress,
    pub data: Vec<u8>,
    pub dont_fragment: bool,
}

impl SendIndication {
    pub fn from_message(message: &Message) -> (r: Result<Self, TurnError>)
        ensures
            match r {
                Ok(ind) => spec_parse_indication(message@, MessageMethod::Send) == Ok::<
                    _,
                    TurnError,
                >((ind.peer_address, ind.data@)) && ind.transaction_id@
                    == message@.transaction_id && ind.dont_fragment == false,
                Err(e) => spec_parse_indication(message@, MessageMethod::Send) == Err::<
                    (SocketAddress, Seq<u8>),
                    _,
                >(e),
            },
    {
        if !(message.message_type.method() == MessageMethod::Send && message.message_type.class()
            == MessageClass::Indication) {
            return Err(TurnError::BadRequest);
        }

        match scan_indication_message(message, Ghost(MessageMethod::Send)) {
            Ok((peer_address, data)) => Ok(
                SendIndication {
                    transaction_id: message.transaction_id,
                    peer_address,
                    data,
                    dont_fragment: false,
                },
            ),
            Err(e) => Err(e),
        }
    }

    pub fn to_message(&self) -> (r: Message)
        requires
            self.data@.len() + 31 <= 0xFFFF,
        ensures
            r@.message_type == (MessageType {
                method: MessageMethod::Send,
                class: MessageClass::Indication,
            }),
            r@.transaction_id == self.transaction_id@,
            r@.attributes == spec_indication_attrs(
                self.peer_address,
                self.data@,
                self.transaction_id@,
            ),
            r@.length == r@.attributes.len(),
    {
        build_indication_message(
            MessageType::new(MessageMethod::Send, MessageClass::Indication),
            self.transaction_id,
            self.peer_address,
            &self.data,
        )
    }
}

/// A Data indication to the client: that peer sent this datagram.
#[derive(Debug, Clone)]
pub struct DataIndication {
    pub transaction_id: [u8; 12],
    pub peer_address: SocketAddress,
    pub data: Vec<u8>,
}

impl DataIndication {
    /// A fresh Data indication with a random transaction id.
    pub fn new(peer_address: SocketAddress, data: Vec<u8>) -> (r: Self)
        ensures
            r.peer_address == peer_address,
            r.data == data,
            r.transaction_id@.len() == 12,
    {
        let v = crate::rng::random_bytes(12);
        let transaction_id: [u8; 12] = [
            v[0],
            v[1],
            v[2],
            v[3],
            v[4],
            v[5],
            v[6],
            v[7],
            v[8],
            v[9],
            v[10],
            v[11],
        ];
        DataIndication { transaction_id, peer_address, data }
    }

    pub fn from_message(message: &Message) -> (r: Result<Self, TurnError>)
        ensures
            match r {
                Ok(ind) => spec_parse_indication(message@, MessageMethod::Data) == Ok::<
                    _,
                    TurnError,
                >((ind.peer_address, ind.data@)) && ind.transaction_id@
                    == message@.transaction_id,
                Err(e) => spec_parse_indication(message@, MessageMethod::Data) == Err::<
                    (SocketAddress, Seq<u8>),
                    _,
                >(e),
            },
    {
        if !(message.message_type.method() == MessageMethod::Data && message.message_type.class()
            == MessageClass::Indication) {
            return Err(TurnError::BadRequest);
        }

        match scan_indication_message(message, Ghost(MessageMethod::Data)) {
            Ok((peer_address, data)) => Ok(
                DataIndication {
                    transaction_id: message.transaction_id,
                    peer_address,
                    data,
                },
            ),
            Err(e) => Err(e),
        }
    }

    pub fn to_message(&self) -> (r: Message)
        requires
            self.data@.len() + 31 <= 0xFFFF,
        ensures
            r@.message_type == (MessageType {
                method: MessageMethod::Data,
                class: MessageClass::Indication,
            }),
            r@.transaction_id == self.transaction_id@,
            r@.attributes == spec_indication_attrs(
                self.peer_address,
                self.data@,
                self.transaction_id@,
            ),
            r@.length == r@.attributes.len(),
    {
        build_indication_message(
            MessageType::new(MessageMethod::Data, MessageClass::Indication),
            self.transaction_id,
            self.peer_address,
            &self.data,
        )
    }
}

} // verus!
