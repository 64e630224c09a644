//! The netlink wire format: message header, flags, attribute header, and the
//! framing of a generic-netlink payload.
pub mod generic;

use crate::common::Endian;
use crate::netlink::generic::{attributes_fit, generic_parsed, generic_wire, GenericError};
use crate::netlink::generic::{GenericMessageView, GenericNetlinkMessage, GenericNetlinkMessageType};
use crate::netlink::generic::GENERIC_HEADER_LENGTH;
use crate::wire::{append_uint, lemma_pow256_values, read_uint, uint_bytes, uint_value};
use vstd::prelude::*;
use vstd::slice::slice_subrange;

verus! {

/// The fixed header of every netlink message. `msg_len` counts the header too.
#[derive(Clone, Copy, Debug, PartialEq, Eq, Structural)]
pub struct NetlinkMessageHeader {
    pub msg_len: u32,
    pub msg_type: u16,
    pub msg_flags: u16,
    pub msg_seq_num: u32,
    pub msg_pid: u32,
}

/// The size of the message header in bytes.
pub const NETLINK_HEADER_LENGTH: usize = 16;

impl NetlinkMessageHeader {
    pub fn new(payload_len: usize, msg_type: u16, msg_flags: u16, msg_seq_num: u32, msg_pid: u32) -> (r:
        Self)
        requires
            NETLINK_HEADER_LENGTH + payload_len <= u32::MAX,
        ensures
            r == (NetlinkMessageHeader {
                msg_len: (NETLINK_HEADER_LENGTH + payload_len) as u32,
                msg_type,
                msg_flags,
                msg_seq_num,
                msg_pid,
            }),
    {
        Self {
            msg_len: (NETLINK_HEADER_LENGTH + payload_len) as u32,
            msg_type,
            msg_flags,
            msg_seq_num,
            msg_pid,
        }
    }

    /// The sixteen bytes of the header: length, type, flags, sequence number
    /// and port id, each in the given byte order.
    pub open spec fn wire(self, endian: Endian) -> Seq<u8> {
        uint_bytes(self.msg_len as nat, 4, endian) + uint_bytes(self.msg_type as nat, 2, endian)
            + uint_bytes(self.msg_flags as nat, 2, endian) + uint_bytes(
            self.msg_seq_num as nat,
            4,
            endian,
        ) + uint_bytes(self.msg_pid as nat, 4, endian)
    }

    /// The header that the first sixteen bytes of `buf` spell.
    pub open spec fn parsed(buf: Seq<u8>, endian: Endian) -> NetlinkMessageHeader {
        NetlinkMessageHeader {
            msg_len: uint_value(buf.subrange(0, 4), endian) as u32,
            msg_type: uint_value(buf.subrange(4, 6), endian) as u16,
            msg_flags: uint_value(buf.subrange(6, 8), endian) as u16,
            msg_seq_num: uint_value(buf.subrange(8, 12), endian) as u32,
            msg_pid: uint_value(buf.subrange(12, 16), endian) as u32,
        }
    }

    pub fn to_byte_array(&self, endian: Endian) -> (r: Vec<u8>)
        ensures
            r@ == self.wire(endian),
            r@.len() == NETLINK_HEADER_LENGTH,
    {
        let mut result: Vec<u8> = Vec::new();
        append_uint(&mut result, self.msg_len as u128, 4, endian);
        append_uint(&mut result, self.msg_type as u128, 2, endian);
        append_uint(&mut result, self.msg_flags as u128, 2, endian);
        append_uint(&mut result, self.msg_seq_num as u128, 4, endian);
        append_uint(&mut result, self.msg_pid as u128, 4, endian);
        proof {
            crate::wire::lemma_le_bytes_len(self.msg_len as nat, 4);
            crate::wire::lemma_le_bytes_len(self.msg_type as nat, 2);
            crate::wire::lemma_le_bytes_len(self.msg_flags as nat, 2);
            crate::wire::lemma_le_bytes_len(self.msg_seq_num as nat, 4);
            crate::wire::lemma_le_bytes_len(self.msg_pid as nat, 4);
            assert(result@ =~= self.wire(endian));
        }
        result
    }

    /// Reads a header from the start of `buf`; fewer than sixteen bytes are a header error.
    pub fn from_byte_array(buf: &[u8], endian: Endian) -> (r: Result<Self, NetlinkError>)
        ensures
            buf@.len() < NETLINK_HEADER_LENGTH ==> r == Err::<Self, NetlinkError>(
                NetlinkError::MsgHeaderErr,
            ),
            buf@.len() >= NETLINK_HEADER_LENGTH ==> r == Ok::<Self, NetlinkError>(
                Self::parsed(buf@, endian),
            ),
    {
        if buf.len() < NETLINK_HEADER_LENGTH {
            return Err(NetlinkError::MsgHeaderErr);
        }
        proof {
            lemma_pow256_values();
        }
        Ok(
            Self {
                msg_len: read_uint(buf, 0, 4, endian) as u32,
                msg_type: read_uint(buf, 4, 2, endian) as u16,
                msg_flags: read_uint(buf, 6, 2, endian) as u16,
                msg_seq_num: read_uint(buf, 8, 4, endian) as u32,
                msg_pid: read_uint(buf, 12, 4, endian) as u32,
            },
        )
    }
}

/// A header written and read back in one byte order is the same header.
pub proof fn lemma_header_round_trip(header: NetlinkMessageHeader, rest: Seq<u8>, endian: Endian)
    ensures
        header.wire(endian).len() == NETLINK_HEADER_LENGTH,
        NetlinkMessageHeader::parsed(header.wire(endian) + rest, endian) == header,
{
    let buf = header.wire(endian) + rest;
    lemma_pow256_values();
    crate::wire::lemma_uint_round_trip(header.msg_len as nat, 4, endian);
    crate::wire::lemma_uint_round_trip(header.msg_type as nat, 2, endian);
    crate::wire::lemma_uint_round_trip(header.msg_flags as nat, 2, endian);
    crate::wire::lemma_uint_round_trip(header.msg_seq_num as nat, 4, endian);
    crate::wire::lemma_uint_round_trip(header.msg_pid as nat, 4, endian);
    assert(buf.subrange(0, 4) =~= uint_bytes(header.msg_len as nat, 4, endian));
    assert(buf.subrange(4, 6) =~= uint_bytes(header.msg_type as nat, 2, endian));
    assert(buf.subrange(6, 8) =~= uint_bytes(header.msg_flags as nat, 2, endian));
    assert(buf.subrange(8, 12) =~= uint_bytes(header.msg_seq_num as nat, 4, endian));
    assert(buf.subrange(12, 16) =~= uint_bytes(header.msg_pid as nat, 4, endian));
}

#[derive(Clone, Copy, Debug, PartialEq, Eq, Structural)]
pub enum NetlinkProtocol {
    Route,
    Unused,
    Usersock,
    Firewall,
    SockDiag,
    NetfilterUlog,
    Xfrm,
    SeLinux,
    ISCSI,
    Audit,
    FIBLookup,
    Connector,
    Netfilter,
    Ip6Firewall,
    DecnetRoutingMsg,
    KobjectUEvent,
    Generic,
    SCSITransport,
    EcryptFs,
    RDMA,
    Crypto,
    SMC,
}

impl NetlinkProtocol {
    /// The number of the protocol in the kernel's netlink family.
    pub open spec fn number(self) -> u8 {
        match self {
            NetlinkProtocol::Route => 0,
            NetlinkProtocol::Unused => 1,
            NetlinkProtocol::Usersock => 2,
            NetlinkProtocol::Firewall => 3,
            NetlinkProtocol::SockDiag => 4,
            NetlinkProtocol::NetfilterUlog => 5,
            NetlinkProtocol::Xfrm => 6,
            NetlinkProtocol::SeLinux => 7,
            NetlinkProtocol::ISCSI => 8,
            NetlinkProtocol::Audit => 9,
            NetlinkProtocol::FIBLookup => 10,
            NetlinkProtocol::Connector => 11,
            NetlinkProtocol::Netfilter => 12,
            NetlinkProtocol::Ip6Firewall => 13,
            NetlinkProtocol::DecnetRoutingMsg => 14,
            NetlinkProtocol::KobjectUEvent => 15,
            NetlinkProtocol::Generic => 16,
            NetlinkProtocol::SCSITransport => 18,
            NetlinkProtocol::EcryptFs => 19,
            NetlinkProtocol::RDMA => 20,
            NetlinkProtocol::Crypto => 21,
            NetlinkProtocol::SMC => 22,
        }
    }

    pub fn to_u8(self) -> (r: u8)
        ensures
            r == self.number(),
    {
        match self {
            NetlinkProtocol::Route => 0,
            NetlinkProtocol::Unused => 1,
            NetlinkProtocol::Usersock => 2,
            NetlinkProtocol::Firewall => 3,
            NetlinkProtocol::SockDiag => 4,
            NetlinkProtocol::NetfilterUlog => 5,
            NetlinkProtocol::Xfrm => 6,
            NetlinkProtocol::SeLinux => 7,
            NetlinkProtocol::ISCSI => 8,
            NetlinkProtocol::Audit => 9,
            NetlinkProtocol::FIBLookup => 10,
            NetlinkProtocol::Connector => 11,
            NetlinkProtocol::Netfilter => 12,
            NetlinkProtocol::Ip6Firewall => 13,
            NetlinkProtocol::DecnetRoutingMsg => 14,
            NetlinkProtocol::KobjectUEvent => 15,
            NetlinkProtocol::Generic => 16,
            NetlinkProtocol::SCSITransport => 18,
            NetlinkProtocol::EcryptFs => 19,
            NetlinkProtocol::RDMA => 20,
            NetlinkProtocol::Crypto => 21,
            NetlinkProtocol::SMC => 22,
        }
    }
}

#[derive(Clone, Copy, Debug, PartialEq, Eq, Structural)]
pub struct NetlinkMessageType(pub u16);

impl NetlinkMessageType {
    pub fn new(value: u16) -> (r: Self)
        ensures
            r.0 == value,
    {
        Self(value)
    }

    pub fn to_u16(self) -> (r: u16)
        ensures
            r == self.0,
    {
        self.0
    }
}

/// The message types that every netlink protocol shares.
#[derive(Clone, Copy, Debug, PartialEq, Eq, Structural)]
pub enum StandardNetlinkMessageType {
    /// To be ignored.
    NOOP,
    /// An error of the kernel; the payload starts with its code.
    ERROR,
    /// The last part of a multipart message.
    DONE,
    OVERRUN,
}

impl StandardNetlinkMessageType {
    pub open spec fn number(self) -> u16 {
        match self {
            StandardNetlinkMessageType::NOOP => 1,
            StandardNetlinkMessageType::ERROR => 2,
            StandardNetlinkMessageType::DONE => 3,
            StandardNetlinkMessageType::OVERRUN => 4,
        }
    }

    pub fn to_u16(self) -> (r: u16)
        ensures
            r == self.number(),
    {
        match self {
            StandardNetlinkMessageType::NOOP => 1,
            StandardNetlinkMessageType::ERROR => 2,
            StandardNetlinkMessageType::DONE => 3,
            StandardNetlinkMessageType::OVERRUN => 4,
        }
    }

    /// The standard type with the number `value`, if there is one.
    pub fn try_from(value: u16) -> (r: Result<Self, ()>)
        ensures
            r matches Ok(t) ==> t.number() == value,
            r is Err ==> !(1 <= value <= 4),
    {
        match value {
            1 => Ok(StandardNetlinkMessageType::NOOP),
            2 => Ok(StandardNetlinkMessageType::ERROR),
            3 => Ok(StandardNetlinkMessageType::DONE),
            4 => Ok(StandardNetlinkMessageType::OVERRUN),
            _ => Err(()),
        }
    }

    pub fn to_message_type(self) -> (r: NetlinkMessageType)
        ensures
            r.0 == self.number(),
    {
        NetlinkMessageType::new(self.to_u16())
    }
}

#[derive(Clone, Copy, Debug, PartialEq, Eq, Structural)]
pub enum NetlinkMessagePayloadType {
    Generic,
    Unimplemented,
}

#[derive(Clone, Copy, Debug, PartialEq, Eq, Structural, PartialOrd)]
pub enum NetlinkMessageFlag {
    /// It is a request.
    Request,
    /// One part of several, ended by a message of type DONE.
    Multipart,
    /// Answer with an acknowledgement.
    Ack,
    /// Echo this request.
    Echo,
    /// The dump was inconsistent.
    DumpInconsistent,
    /// The dump was filtered as asked.
    DumpFiltered,
    /// GET: the root of the tree.
    Root,
    /// GET: all that match.
    Match,
    /// GET: atomically.
    Atomic,
    /// GET: root and match together.
    Dump,
    /// NEW: replace what exists.
    Replace,
    /// NEW: leave what exists.
    Excl,
    /// NEW: create what does not exist.
    Create,
    /// NEW: add to the end.
    Append,
    /// DELETE: not recursively.
    NoRecursive,
    /// ACK: the request was capped.
    Capped,
    /// ACK: extended attributes follow.
    AckTlvs,
}

/// The number of flags.
pub const NETLINK_FLAG_COUNT: usize = 17;

/// Every bit that some flag has.
pub const NETLINK_KNOWN_FLAG_BITS: u16 = 0x0f3f;

impl NetlinkMessageFlag {
    /// The bits of the flag. The modifiers of GET, NEW, DELETE and ACK requests share bits.
    pub open spec fn bits(self) -> u16 {
        match self {
            NetlinkMessageFlag::Request => 0x01,
            NetlinkMessageFlag::Multipart => 0x02,
            NetlinkMessageFlag::Ack => 0x04,
            NetlinkMessageFlag::Echo => 0x08,
            NetlinkMessageFlag::DumpInconsistent => 0x10,
            NetlinkMessageFlag::DumpFiltered => 0x20,
            NetlinkMessageFlag::Root => 0x100,
            NetlinkMessageFlag::Match => 0x200,
            NetlinkMessageFlag::Atomic => 0x400,
            NetlinkMessageFlag::Dump => 0x300,
            NetlinkMessageFlag::Replace => 0x100,
            NetlinkMessageFlag::Excl => 0x200,
            NetlinkMessageFlag::Create => 0x400,
            NetlinkMessageFlag::Append => 0x800,
            NetlinkMessageFlag::NoRecursive => 0x100,
            NetlinkMessageFlag::Capped => 0x100,
            NetlinkMessageFlag::AckTlvs => 0x200,
        }
    }

    /// The flag at position `i` of the order in which flags are listed.
    pub open spec fn at(i: int) -> NetlinkMessageFlag {
        if i == 0 {
            NetlinkMessageFlag::Request
        } else if i == 1 {
            NetlinkMessageFlag::Multipart
        } else if i == 2 {
            NetlinkMessageFlag::Ack
        } else if i == 3 {
            NetlinkMessageFlag::Echo
        } else if i == 4 {
            NetlinkMessageFlag::DumpInconsistent
        } else if i == 5 {
            NetlinkMessageFlag::DumpFiltered
        } else if i == 6 {
            NetlinkMessageFlag::Root
        } else if i == 7 {
            NetlinkMessageFlag::Match
        } else if i == 8 {
            NetlinkMessageFlag::Atomic
        } else if i == 9 {
            NetlinkMessageFlag::Dump
        } else if i == 10 {
            NetlinkMessageFlag::Replace
        } else if i == 11 {
            NetlinkMessageFlag::Excl
        } else if i == 12 {
            NetlinkMessageFlag::Create
        } else if i == 13 {
            NetlinkMessageFlag::Append
        } else if i == 14 {
            NetlinkMessageFlag::NoRecursive
        } else if i == 15 {
            NetlinkMessageFlag::Capped
        } else {
            NetlinkMessageFlag::AckTlvs
        }
    }

    /// All flags, in the order in which they are listed.
    pub open spec fn all() -> Seq<NetlinkMessageFlag> {
        Seq::new(NETLINK_FLAG_COUNT as nat, |i: int| Self::at(i))
    }

    /// The flags all of whose bits `value` has, in the order in which flags
    /// are listed. Flags that share their bits are listed together.
    pub open spec fn present_in(value: u16) -> Seq<NetlinkMessageFlag> {
        Self::all().filter(|flag: NetlinkMessageFlag| value & flag.bits() == flag.bits())
    }

    /// The bits of the first `i` flags of the order in which flags are listed.
    pub open spec fn bits_before(i: int) -> u16 {
        if i <= 0 {
            0
        } else if i == 1 {
            0x01
        } else if i == 2 {
            0x03
        } else if i == 3 {
            0x07
        } else if i == 4 {
            0x0f
        } else if i == 5 {
            0x1f
        } else if i == 6 {
            0x3f
        } else if i == 7 {
            0x13f
        } else if i == 8 {
            0x33f
        } else if i <= 13 {
            0x73f
        } else {
            0xf3f
        }
    }

    /// The bits of all the flags of a list together.
    pub open spec fn word(flags: Seq<NetlinkMessageFlag>) -> u16
        decreases flags.len(),
    {
        if flags.len() == 0 {
            0
        } else {
            Self::word(flags.drop_last()) | flags.last().bits()
        }
    }

    /// What a flag word decodes to: a bit that no flag has is refused, with
    /// all such bits of the word; otherwise the flags all of whose bits the
    /// word has, whose bits together are the word.
    pub open spec fn decoded(value: u16) -> Result<Seq<NetlinkMessageFlag>, NetlinkError> {
        if value & !NETLINK_KNOWN_FLAG_BITS != 0 {
            Err(NetlinkError::UnknownMsgFlags(value & !NETLINK_KNOWN_FLAG_BITS))
        } else {
            Ok(Self::present_in(value))
        }
    }

    pub fn to_u16(&self) -> (r: u16)
        ensures
            r == self.bits(),
    {
        match self {
            NetlinkMessageFlag::Request => 0x01,
            NetlinkMessageFlag::Multipart => 0x02,
            NetlinkMessageFlag::Ack => 0x04,
            NetlinkMessageFlag::Echo => 0x08,
            NetlinkMessageFlag::DumpInconsistent => 0x10,
            NetlinkMessageFlag::DumpFiltered => 0x20,
            NetlinkMessageFlag::Root => 0x100,
            NetlinkMessageFlag::Match => 0x200,
            NetlinkMessageFlag::Atomic => 0x400,
            NetlinkMessageFlag::Dump => 0x300,
            NetlinkMessageFlag::Replace => 0x100,
            NetlinkMessageFlag::Excl => 0x200,
            NetlinkMessageFlag::Create => 0x400,
            NetlinkMessageFlag::Append => 0x800,
            NetlinkMessageFlag::NoRecursive => 0x100,
            NetlinkMessageFlag::Capped => 0x100,
            NetlinkMessageFlag::AckTlvs => 0x200,
        }
    }

    fn nth(i: usize) -> (r: Self)
        requires
            i < NETLINK_FLAG_COUNT,
        ensures
            r == Self::at(i as int),
    {
        if i == 0 {
            NetlinkMessageFlag::Request
        } else if i == 1 {
            NetlinkMessageFlag::Multipart
        } else if i == 2 {
            NetlinkMessageFlag::Ack
        } else if i == 3 {
            NetlinkMessageFlag::Echo
        } else if i == 4 {
            NetlinkMessageFlag::DumpInconsistent
        } else if i == 5 {
            NetlinkMessageFlag::DumpFiltered
        } else if i == 6 {
            NetlinkMessageFlag::Root
        } else if i == 7 {
            NetlinkMessageFlag::Match
        } else if i == 8 {
            NetlinkMessageFlag::Atomic
        } else if i == 9 {
            NetlinkMessageFlag::Dump
        } else if i == 10 {
            NetlinkMessageFlag::Replace
        } else if i == 11 {
            NetlinkMessageFlag::Excl
        } else if i == 12 {
            NetlinkMessageFlag::Create
        } else if i == 13 {
            NetlinkMessageFlag::Append
        } else if i == 14 {
            NetlinkMessageFlag::NoRecursive
        } else if i == 15 {
            NetlinkMessageFlag::Capped
        } else {
            NetlinkMessageFlag::AckTlvs
        }
    }

    /// Decodes a flag word into the list of its flags. The bits of the
    /// flags that come out are together the word that went in.
    pub fn from_u16(value: u16) -> (r: Result<Vec<Self>, NetlinkError>)
        ensures
            r matches Ok(flags) ==> Self::decoded(value) == Ok::<Seq<Self>, NetlinkError>(flags@)
                && Self::word(flags@) == value && forall|k: int|
                0 <= k < flags@.len() ==> value & (#[trigger] flags@[k]).bits() == flags@[k].bits(),
            r matches Err(e) ==> Self::decoded(value) == Err::<Seq<Self>, NetlinkError>(e),
    {
        let unknown = value & !NETLINK_KNOWN_FLAG_BITS;
        if unknown != 0 {
            return Err(NetlinkError::UnknownMsgFlags(unknown));
        }
        let mut result: Vec<Self> = Vec::new();
        let mut i: usize = 0;
        let ghost pred = |flag: NetlinkMessageFlag| value & flag.bits() == flag.bits();
        proof {
            reveal(Seq::filter);
            assert(Self::all().subrange(0, 0).filter(pred) =~= Seq::<Self>::empty());
        }
        while i < NETLINK_FLAG_COUNT
            invariant
                i <= NETLINK_FLAG_COUNT,
                pred == (|flag: NetlinkMessageFlag| value & flag.bits() == flag.bits()),
                result@ == Self::all().subrange(0, i as int).filter(pred),
                forall|k: int|
                    0 <= k < result@.len() ==> value & (#[trigger] result@[k]).bits()
                        == result@[k].bits(),
            decreases NETLINK_FLAG_COUNT - i,
        {
            let flag = Self::nth(i);
            proof {
                reveal(Seq::filter);
                let upto = Self::all().subrange(0, i + 1);
                assert(upto.drop_last() =~= Self::all().subrange(0, i as int));
                assert(upto.last() == flag);
            }
            let bits = flag.to_u16();
            if value & bits == bits {
                result.push(flag);
            }
            i = i + 1;
        }
        proof {
            assert(Self::all().subrange(0, NETLINK_FLAG_COUNT as int) =~= Self::all());
            lemma_flag_word_round_trip(value);
        }
        Ok(result)
    }

    /// The bits of all the flags of a list together.
    pub fn to_word(flags: &[Self]) -> (r: u16)
        ensures
            r == Self::word(flags@),
    {
        let mut word: u16 = 0;
        let mut i: usize = 0;
        assert(flags@.subrange(0, 0) =~= Seq::<Self>::empty());
        while i < flags.len()
            invariant
                i <= flags@.len(),
                word == Self::word(flags@.subrange(0, i as int)),
            decreases flags.len() - i,
        {
            assert(flags@.subrange(0, i + 1).drop_last() =~= flags@.subrange(0, i as int));
            word = word | flags[i].to_u16();
            i = i + 1;
        }
        assert(flags@.subrange(0, flags@.len() as int) =~= flags@);
        word
    }
}

/// The header of one attribute. `length` counts the four header bytes too.
#[derive(Clone, Copy, Debug, PartialEq, Eq, Structural)]
pub struct NetlinkAttributeHeader {
    pub length: u16,
    pub attr_type: u16,
}

/// The size of an attribute header in bytes.
pub const NETLINK_ATTRIBUTE_HEADER_LENGTH: usize = 4;

impl NetlinkAttributeHeader {
    pub fn new(payload_len: usize, attr_type: NetlinkMessageAttributeType) -> (r: Self)
        requires
            payload_len + NETLINK_ATTRIBUTE_HEADER_LENGTH <= u16::MAX,
        ensures
            r == (NetlinkAttributeHeader {
                length: (payload_len + NETLINK_ATTRIBUTE_HEADER_LENGTH) as u16,
                attr_type: attr_type.0,
            }),
    {
        Self {
            length: (payload_len + NETLINK_ATTRIBUTE_HEADER_LENGTH) as u16,
            attr_type: attr_type.to_u16(),
        }
    }

    /// The four bytes of the header: length, then type.
    pub open spec fn wire(self, endian: Endian) -> Seq<u8> {
        uint_bytes(self.length as nat, 2, endian) + uint_bytes(self.attr_type as nat, 2, endian)
    }

    /// The header that the first four bytes of `buf` spell.
    pub open spec fn parsed(buf: Seq<u8>, endian: Endian) -> NetlinkAttributeHeader {
        NetlinkAttributeHeader {
            length: uint_value(buf.subrange(0, 2), endian) as u16,
            attr_type: uint_value(buf.subrange(2, 4), endian) as u16,
        }
    }

    pub fn to_byte_array(&self, endian: Endian) -> (r: Vec<u8>)
        ensures
            r@ == self.wire(endian),
            r@.len() == NETLINK_ATTRIBUTE_HEADER_LENGTH,
    {
        let mut result: Vec<u8> = Vec::new();
        append_uint(&mut result, self.length as u128, 2, endian);
        append_uint(&mut result, self.attr_type as u128, 2, endian);
        proof {
            crate::wire::lemma_le_bytes_len(self.length as nat, 2);
            crate::wire::lemma_le_bytes_len(self.attr_type as nat, 2);
        }
        result
    }

    /// Reads a header from the start of `buf`; fewer than four bytes are an attribute error.
    pub fn from_byte_array(buf: &[u8], endian: Endian) -> (r: Result<Self, NetlinkError>)
        ensures
            buf@.len() < NETLINK_ATTRIBUTE_HEADER_LENGTH ==> r == Err::<Self, NetlinkError>(
                NetlinkError::AttrHeaderErr,
            ),
            buf@.len() >= NETLINK_ATTRIBUTE_HEADER_LENGTH ==> r == Ok::<Self, NetlinkError>(
                Self::parsed(buf@, endian),
            ),
    {
        if buf.len() < NETLINK_ATTRIBUTE_HEADER_LENGTH {
            return Err(NetlinkError::AttrHeaderErr);
        }
        proof {
            lemma_pow256_values();
        }
        Ok(
            Self {
                length: read_uint(buf, 0, 2, endian) as u16,
                attr_type: read_uint(buf, 2, 2, endian) as u16,
            },
        )
    }
}

#[derive(Clone, Copy, Debug, PartialEq, Eq, Structural)]
pub struct NetlinkMessageAttributeType(pub u16);

impl NetlinkMessageAttributeType {
    pub fn new(value: u16) -> (r: Self)
        ensures
            r.0 == value,
    {
        Self(value)
    }

    pub fn to_u16(self) -> (r: u16)
        ensures
            r == self.0,
    {
        self.0
    }
}

/// One attribute: a type and the bytes it carries.
#[derive(Debug)]
pub struct NetlinkMessageAttribute {
    pub attr_type: NetlinkMessageAttributeType,
    pub payload: Vec<u8>,
}

impl NetlinkMessageAttribute {
    /// The attribute on the wire: its header, then its payload.
    pub open spec fn wire(self, endian: Endian) -> Seq<u8> {
        (NetlinkAttributeHeader {
            length: (self.payload@.len() + NETLINK_ATTRIBUTE_HEADER_LENGTH) as u16,
            attr_type: self.attr_type.0,
        }).wire(endian) + self.payload@
    }

    pub fn to_byte_array(&self, endian: Endian) -> (r: Vec<u8>)
        requires
            self.payload@.len() + NETLINK_ATTRIBUTE_HEADER_LENGTH <= u16::MAX,
        ensures
            r@ == self.wire(endian),
    {
        let header = NetlinkAttributeHeader::new(self.payload.len(), self.attr_type);
        let mut result = header.to_byte_array(endian);
        let mut i: usize = 0;
        let ghost head = result@;
        while i < self.payload.len()
            invariant
                i <= self.payload@.len(),
                result@ == head + self.payload@.subrange(0, i as int),
            decreases self.payload.len() - i,
        {
            result.push(self.payload[i]);
            assert(result@ =~= head + self.payload@.subrange(0, i + 1));
            i = i + 1;
        }
        assert(self.payload@.subrange(0, self.payload@.len() as int) =~= self.payload@);
        result
    }
}

/// What a netlink message carries after its header.
#[derive(Debug)]
pub enum NetlinkMessagePayload {
    GENERIC(generic::GenericNetlinkMessage),
    UNIMPLEMENTED,
}

impl NetlinkMessagePayload {
    /// The generic message that the payload is, if it is one.
    pub open spec fn generic(self) -> Option<GenericMessageView> {
        match self {
            NetlinkMessagePayload::GENERIC(message) => Some(message@),
            NetlinkMessagePayload::UNIMPLEMENTED => None,
        }
    }

    /// The bytes of the payload. Only a generic payload has any.
    pub fn to_byte_array(&self, endian: Endian) -> (r: Vec<u8>)
        requires
            self.generic() matches Some(message) && attributes_fit(message.attributes)
                && message.attributes.len() * 0x1_0004 + GENERIC_HEADER_LENGTH <= usize::MAX,
        ensures
            r@ == generic_wire(self.generic().unwrap(), endian),
    {
        match self {
            NetlinkMessagePayload::GENERIC(message) => message.ToByteArray(endian),
            NetlinkMessagePayload::UNIMPLEMENTED => Vec::new(),
        }
    }
}

/// A netlink message as plain values. The payload is `None` where it is of no known family.
pub struct NetlinkMessageView {
    pub msg_type: u16,
    pub flags: Seq<NetlinkMessageFlag>,
    pub payload: Option<GenericMessageView>,
}

#[derive(Debug)]
pub struct NetlinkMessage {
    pub msg_type: NetlinkMessageType,
    pub flags: Vec<NetlinkMessageFlag>,
    pub payload: NetlinkMessagePayload,
}

impl View for NetlinkMessage {
    type V = NetlinkMessageView;

    open spec fn view(&self) -> NetlinkMessageView {
        NetlinkMessageView {
            msg_type: self.msg_type.0,
            flags: self.flags@,
            payload: self.payload.generic(),
        }
    }
}

/// A message on the wire: the header, with the whole length, the flag word
/// and zero for sequence number and port id, then the payload.
pub open spec fn netlink_wire(message: NetlinkMessageView, endian: Endian) -> Seq<u8>
    recommends
        message.payload is Some,
{
    let payload = generic_wire(message.payload.unwrap(), endian);
    (NetlinkMessageHeader {
        msg_len: (NETLINK_HEADER_LENGTH + payload.len()) as u32,
        msg_type: message.msg_type,
        msg_flags: NetlinkMessageFlag::word(message.flags),
        msg_seq_num: 0,
        msg_pid: 0,
    }).wire(endian) + payload
}

/// What reading a buffer as a netlink message of the generic family gives.
pub enum NetlinkParse {
    Message(NetlinkMessageView),
    /// The buffer is shorter than a header, or an error message has no room
    /// for its code, or the length that the header of another message
    /// declares is shorter than a header or longer than the buffer.
    BadHeader,
    /// The flag word has these bits that no flag has.
    UnknownFlags(u16),
    /// The kernel reports an error with this code.
    Kernel(i32),
    /// The payload, these bytes, is shorter than the family header.
    ShortPayload(Seq<u8>),
    /// An attribute of the payload is malformed.
    BadAttribute,
}

/// The signed number that 32 bits spell in two's complement.
pub open spec fn as_signed(value: nat) -> int {
    if value >= 0x8000_0000 {
        value - 0x1_0000_0000
    } else {
        value as int
    }
}

/// The size of the code that an error message of the kernel starts with.
pub const NETLINK_ERROR_CODE_LENGTH: usize = 4;

/// Whether reading `buf` gets as far as the payload: the buffer holds a
/// header, the flags are known, and the message is no error message.
pub open spec fn payload_reached(buf: Seq<u8>, endian: Endian) -> bool {
    let header = NetlinkMessageHeader::parsed(buf, endian);
    &&& buf.len() >= NETLINK_HEADER_LENGTH
    &&& header.msg_flags & !NETLINK_KNOWN_FLAG_BITS == 0
    &&& header.msg_type != StandardNetlinkMessageType::ERROR.number()
}

/// Reads `buf` as a netlink message of the generic family.
///
/// The header is read first, then the flags. An error message of the kernel
/// is then its code, the signed number in the four bytes after the header,
/// whatever length its header declares. The declared length of any other
/// message bounds its payload; what follows it is not looked at.
pub open spec fn netlink_parsed(buf: Seq<u8>, endian: Endian) -> NetlinkParse {
    let header = NetlinkMessageHeader::parsed(buf, endian);
    let payload = buf.subrange(NETLINK_HEADER_LENGTH as int, header.msg_len as int);
    if buf.len() < NETLINK_HEADER_LENGTH {
        NetlinkParse::BadHeader
    } else if header.msg_flags & !NETLINK_KNOWN_FLAG_BITS != 0 {
        NetlinkParse::UnknownFlags(header.msg_flags & !NETLINK_KNOWN_FLAG_BITS)
    } else if header.msg_type == StandardNetlinkMessageType::ERROR.number() {
        if buf.len() < NETLINK_HEADER_LENGTH + NETLINK_ERROR_CODE_LENGTH {
            NetlinkParse::BadHeader
        } else {
            NetlinkParse::Kernel(
                as_signed(
                    uint_value(
                        buf.subrange(
                            NETLINK_HEADER_LENGTH as int,
                            NETLINK_HEADER_LENGTH + NETLINK_ERROR_CODE_LENGTH,
                        ),
                        endian,
                    ),
                ) as i32,
            )
        }
    } else if header.msg_len < NETLINK_HEADER_LENGTH || header.msg_len > buf.len() {
        NetlinkParse::BadHeader
    } else if payload.len() < GENERIC_HEADER_LENGTH {
        NetlinkParse::ShortPayload(payload)
    } else {
        match generic_parsed(payload, header.msg_type, endian) {
            None => NetlinkParse::BadAttribute,
            Some(message) => NetlinkParse::Message(
                NetlinkMessageView {
                    msg_type: header.msg_type,
                    flags: NetlinkMessageFlag::present_in(header.msg_flags),
                    payload: Some(message),
                },
            ),
        }
    }
}

/// The outcome that the result of a read stands for.
pub open spec fn parse_outcome(r: Result<NetlinkMessage, NetlinkError>) -> Option<NetlinkParse> {
    match r {
        Ok(message) => Some(NetlinkParse::Message(message@)),
        Err(NetlinkError::MsgHeaderErr) => Some(NetlinkParse::BadHeader),
        Err(NetlinkError::UnknownMsgFlags(bits)) => Some(NetlinkParse::UnknownFlags(bits)),
        Err(NetlinkError::KernelErr(code)) => Some(NetlinkParse::Kernel(code)),
        Err(NetlinkError::GenericErr(inner)) => match *inner {
            GenericError::HEADER_ERROR(bytes) => Some(NetlinkParse::ShortPayload(bytes@)),
            GenericError::NETLINK_ERROR(NetlinkError::AttrHeaderErr) => Some(
                NetlinkParse::BadAttribute,
            ),
            _ => None,
        },
        Err(_) => None,
    }
}

impl NetlinkMessage {
    pub fn new(msg_type: NetlinkMessageType, flags: &[NetlinkMessageFlag], payload: NetlinkMessagePayload) -> (r:
        Self)
        ensures
            r.msg_type == msg_type,
            r.flags@ == flags@,
            r.payload == payload,
    {
        Self { msg_type, flags: vstd::slice::slice_to_vec(flags), payload }
    }

    pub fn get_type(&self) -> (r: NetlinkMessagePayloadType)
        ensures
            r == (match self.payload {
                NetlinkMessagePayload::GENERIC(_) => NetlinkMessagePayloadType::Generic,
                NetlinkMessagePayload::UNIMPLEMENTED => NetlinkMessagePayloadType::Unimplemented,
            }),
    {
        match self.payload {
            NetlinkMessagePayload::GENERIC(_) => NetlinkMessagePayloadType::Generic,
            NetlinkMessagePayload::UNIMPLEMENTED => NetlinkMessagePayloadType::Unimplemented,
        }
    }

    /// Whether the message can be written: its payload is generic, every
    /// attribute fits its length field and the whole fits the 32-bit length.
    pub open spec fn fits_wire(self) -> bool {
        &&& self@.payload matches Some(message)
        &&& attributes_fit(message.attributes)
        &&& message.attributes.len() * 0x1_0004 + GENERIC_HEADER_LENGTH + NETLINK_HEADER_LENGTH
            <= u32::MAX
    }

    /// Whether [`Self::to_byte_array`] accepts the message.
    pub fn is_writable(&self) -> (r: bool)
        ensures
            r == self.fits_wire(),
    {
        match &self.payload {
            NetlinkMessagePayload::GENERIC(message) => {
                message.fits_wire() && message.attributes.len() <= (u32::MAX as usize
                    - GENERIC_HEADER_LENGTH - NETLINK_HEADER_LENGTH) / 0x1_0004
            },
            NetlinkMessagePayload::UNIMPLEMENTED => false,
        }
    }

    pub fn to_byte_array(&self, endian: Endian) -> (r: Vec<u8>)
        requires
            self.fits_wire(),
        ensures
            r@ == netlink_wire(self@, endian),
    {
        let payload = self.payload.to_byte_array(endian);
        let flags = NetlinkMessageFlag::to_word(self.flags.as_slice());
        proof {
            generic::lemma_generic_wire_len(self@.payload.unwrap(), endian);
        }
        let header = NetlinkMessageHeader::new(payload.len(), self.msg_type.to_u16(), flags, 0, 0);
        let mut result = header.to_byte_array(endian);
        let ghost head = result@;
        let mut i: usize = 0;
        while i < payload.len()
            invariant
                i <= payload@.len(),
                result@ == head + payload@.subrange(0, i as int),
            decreases payload.len() - i,
        {
            result.push(payload[i]);
            assert(result@ =~= head + payload@.subrange(0, i + 1));
            i = i + 1;
        }
        assert(payload@.subrange(0, payload@.len() as int) =~= payload@);
        result
    }

    /// Whether reading `buf` gets as far as the payload, where the kind of
    /// payload matters.
    pub fn reads_payload(buf: &[u8], endian: Endian) -> (r: bool)
        ensures
            r == payload_reached(buf@, endian),
    {
        match NetlinkMessageHeader::from_byte_array(buf, endian) {
            Err(_) => false,
            Ok(header) => header.msg_flags & !NETLINK_KNOWN_FLAG_BITS == 0 && header.msg_type != 2,
        }
    }

    /// Reads a message from what a socket handed over. A payload is read as
    /// one of the generic family, the one kind of payload that can be read:
    /// the other kind is admitted only where no payload is read.
    pub fn from_byte_array(buf: &[u8], payload_type: NetlinkMessagePayloadType, endian: Endian) -> (r:
        Result<Self, NetlinkError>)
        requires
            payload_type == NetlinkMessagePayloadType::Generic || !payload_reached(buf@, endian),
        ensures
            parse_outcome(r) == Some(netlink_parsed(buf@, endian)),
    {
        let header = match NetlinkMessageHeader::from_byte_array(buf, endian) {
            Ok(header) => header,
            Err(e) => {
                return Err(NetlinkError::MsgHeaderErr);
            },
        };
        let flags = match NetlinkMessageFlag::from_u16(header.msg_flags) {
            Ok(flags) => flags,
            Err(e) => {
                return Err(NetlinkError::UnknownMsgFlags(header.msg_flags & !NETLINK_KNOWN_FLAG_BITS));
            },
        };
        if header.msg_type == 2 {
            if buf.len() - NETLINK_HEADER_LENGTH < NETLINK_ERROR_CODE_LENGTH {
                return Err(NetlinkError::MsgHeaderErr);
            }
            proof {
                lemma_pow256_values();
            }
            let raw = read_uint(buf, NETLINK_HEADER_LENGTH, NETLINK_ERROR_CODE_LENGTH, endian);
            let code: i32 = if raw >= 0x8000_0000 {
                ((raw - 0x8000_0000) as i64 - 0x8000_0000i64) as i32
            } else {
                raw as i32
            };
            return Err(NetlinkError::KernelErr(code));
        }
        let msg_len = header.msg_len as usize;
        if msg_len < NETLINK_HEADER_LENGTH || msg_len > buf.len() {
            return Err(NetlinkError::MsgHeaderErr);
        }
        let payload = slice_subrange(buf, NETLINK_HEADER_LENGTH, msg_len);
        match payload_type {
            NetlinkMessagePayloadType::Generic => {
                let msg_type = GenericNetlinkMessageType::New(header.msg_type);
                match GenericNetlinkMessage::FromByteArray(payload, msg_type, endian) {
                    Ok(message) => Ok(
                        NetlinkMessage {
                            msg_type: msg_type.to_message_type(),
                            flags,
                            payload: NetlinkMessagePayload::GENERIC(message),
                        },
                    ),
                    Err(e) => Err(NetlinkError::GenericErr(Box::new(e))),
                }
            },
            NetlinkMessagePayloadType::Unimplemented => unreached(),
        }
    }
}

/// An error message of the kernel gives its code, the signed number in the
/// four bytes after the header, whatever length the header declares and
/// whatever follows the code.
pub proof fn lemma_kernel_error_is_reported(buf: Seq<u8>, endian: Endian)
    requires
        buf.len() >= NETLINK_HEADER_LENGTH + NETLINK_ERROR_CODE_LENGTH,
        NetlinkMessageHeader::parsed(buf, endian).msg_type
            == StandardNetlinkMessageType::ERROR.number(),
        NetlinkMessageHeader::parsed(buf, endian).msg_flags & !NETLINK_KNOWN_FLAG_BITS == 0,
    ensures
        netlink_parsed(buf, endian) == NetlinkParse::Kernel(
            as_signed(uint_value(buf.subrange(16, 20), endian)) as i32,
        ),
        !payload_reached(buf, endian),
{
}

/// A flag list holds no bit that no flag has.
pub proof fn lemma_word_is_known(flags: Seq<NetlinkMessageFlag>)
    ensures
        NetlinkMessageFlag::word(flags) & !NETLINK_KNOWN_FLAG_BITS == 0,
    decreases flags.len(),
{
    if flags.len() > 0 {
        lemma_word_is_known(flags.drop_last());
        let a = NetlinkMessageFlag::word(flags.drop_last());
        let b = flags.last().bits();
        assert(b & !0x0f3fu16 == 0) by (bit_vector)
            requires
                b == 0x01 || b == 0x02 || b == 0x04 || b == 0x08 || b == 0x10 || b == 0x20 || b
                    == 0x100 || b == 0x200 || b == 0x400 || b == 0x300 || b == 0x800,
        ;
        assert((a | b) & !0x0f3fu16 == 0) by (bit_vector)
            requires
                a & !0x0f3fu16 == 0,
                b & !0x0f3fu16 == 0,
        ;
    } else {
        assert(0u16 & !0x0f3fu16 == 0) by (bit_vector);
    }
}

/// The bits of the flags that the first `i` flags of the order give for a
/// word are the bits that the word shares with those flags.
proof fn lemma_present_word_upto(value: u16, i: int)
    requires
        0 <= i <= NETLINK_FLAG_COUNT,
    ensures
        NetlinkMessageFlag::word(
            NetlinkMessageFlag::all().subrange(0, i).filter(
                |flag: NetlinkMessageFlag| value & flag.bits() == flag.bits(),
            ),
        ) == value & NetlinkMessageFlag::bits_before(i),
    decreases i,
{
    reveal(Seq::filter);
    let pred = |flag: NetlinkMessageFlag| value & flag.bits() == flag.bits();
    if i == 0 {
        assert(NetlinkMessageFlag::all().subrange(0, 0).filter(pred) =~= Seq::<
            NetlinkMessageFlag,
        >::empty());
        assert(value & 0u16 == 0) by (bit_vector);
    } else {
        lemma_present_word_upto(value, i - 1);
        let upto = NetlinkMessageFlag::all().subrange(0, i);
        let before = NetlinkMessageFlag::all().subrange(0, i - 1);
        let flag = NetlinkMessageFlag::at(i - 1);
        assert(upto.drop_last() =~= before);
        assert(upto.last() == flag);
        let b = flag.bits();
        let m = NetlinkMessageFlag::bits_before(i - 1);
        let n = NetlinkMessageFlag::bits_before(i);
        assert((value & b == b ==> (value & m) | b == value & n) && (value & b != b ==> value & m
            == value & n)) by (bit_vector)
            requires
                (b == 0x01 && m == 0 && n == 0x01) || (b == 0x02 && m == 0x01 && n == 0x03) || (b
                    == 0x04 && m == 0x03 && n == 0x07) || (b == 0x08 && m == 0x07 && n == 0x0f)
                    || (b == 0x10 && m == 0x0f && n == 0x1f) || (b == 0x20 && m == 0x1f && n
                    == 0x3f) || (b == 0x100 && m == 0x3f && n == 0x13f) || (b == 0x200 && m
                    == 0x13f && n == 0x33f) || (b == 0x400 && m == 0x33f && n == 0x73f) || (b
                    == 0x800 && m == 0x73f && n == 0xf3f) || ((b == 0x100 || b == 0x200 || b
                    == 0x300 || b == 0x400) && m == 0x73f && n == 0x73f) || ((b == 0x100 || b
                    == 0x200) && m == 0xf3f && n == 0xf3f),
        ;
        if pred(flag) {
            assert(before.filter(pred).push(flag).drop_last() =~= before.filter(pred));
        }
    }
}

/// The flags that a word of known bits decodes to have, together, the bits
/// of the word and no others.
pub proof fn lemma_flag_word_round_trip(value: u16)
    requires
        value & !NETLINK_KNOWN_FLAG_BITS == 0,
    ensures
        NetlinkMessageFlag::decoded(value) == Ok::<Seq<NetlinkMessageFlag>, NetlinkError>(
            NetlinkMessageFlag::present_in(value),
        ),
        NetlinkMessageFlag::word(NetlinkMessageFlag::present_in(value)) == value,
{
    lemma_present_word_upto(value, NETLINK_FLAG_COUNT as int);
    assert(NetlinkMessageFlag::all().subrange(0, NETLINK_FLAG_COUNT as int)
        =~= NetlinkMessageFlag::all());
    assert(value & 0xf3fu16 == value) by (bit_vector)
        requires
            value & !0x0f3fu16 == 0,
    ;
}

/// A list of flags that was encoded decodes to flags with the same bits:
/// the flag word of what comes back is the flag word of what went in.
pub proof fn lemma_flags_round_trip(flags: Seq<NetlinkMessageFlag>)
    ensures
        NetlinkMessageFlag::decoded(NetlinkMessageFlag::word(flags)) matches Ok(back)
            && NetlinkMessageFlag::word(back) == NetlinkMessageFlag::word(flags),
{
    lemma_word_is_known(flags);
    lemma_flag_word_round_trip(NetlinkMessageFlag::word(flags));
}

/// A message that was written is read back as it was, whatever follows it in
/// the buffer, provided that it can be written, that it is no error message
/// and that its payload is of its own type. Its flags come back as the flags
/// of its flag word, which have the same bits.
pub proof fn lemma_netlink_round_trip(message: NetlinkMessageView, tail: Seq<u8>, endian: Endian)
    requires
        message.payload matches Some(payload) && attributes_fit(payload.attributes)
            && payload.message_type == message.msg_type && NETLINK_HEADER_LENGTH + generic_wire(
            payload,
            endian,
        ).len() <= u32::MAX,
        message.msg_type != StandardNetlinkMessageType::ERROR.number(),
    ensures
        netlink_parsed(netlink_wire(message, endian) + tail, endian) == NetlinkParse::Message(
            (NetlinkMessageView {
                flags: NetlinkMessageFlag::present_in(NetlinkMessageFlag::word(message.flags)),
                ..message
            }),
        ),
        NetlinkMessageFlag::word(
            NetlinkMessageFlag::present_in(NetlinkMessageFlag::word(message.flags)),
        ) == NetlinkMessageFlag::word(message.flags),
{
    let payload = generic_wire(message.payload.unwrap(), endian);
    let header = NetlinkMessageHeader {
        msg_len: (NETLINK_HEADER_LENGTH + payload.len()) as u32,
        msg_type: message.msg_type,
        msg_flags: NetlinkMessageFlag::word(message.flags),
        msg_seq_num: 0,
        msg_pid: 0,
    };
    let buf = netlink_wire(message, endian) + tail;
    assert(buf =~= header.wire(endian) + (payload + tail));
    lemma_header_round_trip(header, payload + tail, endian);
    lemma_word_is_known(message.flags);
    lemma_flag_word_round_trip(NetlinkMessageFlag::word(message.flags));
    assert(buf.subrange(NETLINK_HEADER_LENGTH as int, header.msg_len as int) =~= payload);
    generic::lemma_generic_round_trip(message.payload.unwrap(), endian);
    generic::lemma_generic_wire_len(message.payload.unwrap(), endian);
}

#[derive(Debug)]
pub enum NetlinkError {
    /// A failure of the socket, by its message.
    IOErr(String),
    GenericErr(Box<generic::GenericError>),
    MsgHeaderErr,
    AttrHeaderErr,
    UnknownMsgFlags(u16),
    UnsupportedProtocol(NetlinkProtocol),
    KernelErr(i32),
}

} // verus!
