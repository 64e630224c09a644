//! Flow keys and counters, the link-layer packet parser, the socket tables of
//! `/proc/net` and the raw per-interface flow store.
use crate::common::{CommonError, Count, DataCount, Endian, Inode, IpAddress};
use crate::common::{decimal_number, hex_string, parse_decimal, parse_hex_bytes};
use crate::text::{lines, pieces, span_bytes, split, split_lines, split_whitespace, tokens};
use crate::wire::{be_at, lemma_pow256_values, read_be128, read_be16, read_be32};
use crate::wire::{read_uint, uint_value};
use std::collections::HashMap;
use vstd::prelude::*;
use vstd::slice::slice_subrange;

verus! {

pub const TCP_PAYLOAD_TYPE: u8 = 0x06;

pub const UDP_PAYLOAD_TYPE: u8 = 0x11;

#[derive(Debug, Copy, Clone, PartialEq, Eq, Structural, Hash)]
pub enum ConnectionType {
    TCP,
    UDP,
}

/// One direction of a transport connection.
#[derive(Debug, Copy, Clone, PartialEq, Eq, Structural, Hash)]
pub struct UniConnection {
    pub src_addr: IpAddress,
    pub src_port: u16,
    pub dest_addr: IpAddress,
    pub dest_port: u16,
    pub conn_type: ConnectionType,
}

impl UniConnection {
    pub fn new(
        src_addr: IpAddress,
        src_port: u16,
        dest_addr: IpAddress,
        dest_port: u16,
        conn_type: ConnectionType,
    ) -> (r: Self)
        ensures
            r == (UniConnection { src_addr, src_port, dest_addr, dest_port, conn_type }),
    {
        Self { src_addr, src_port, dest_addr, dest_port, conn_type }
    }

    /// The same connection seen from the other end.
    pub open spec fn reversed(self) -> UniConnection {
        UniConnection {
            src_addr: self.dest_addr,
            src_port: self.dest_port,
            dest_addr: self.src_addr,
            dest_port: self.src_port,
            conn_type: self.conn_type,
        }
    }
}

/// A transport connection as one of its ends sees it.
#[derive(Debug, Copy, Clone, PartialEq, Eq, Structural, Hash)]
pub struct Connection {
    pub local_addr: IpAddress,
    pub local_port: u16,
    pub remote_addr: IpAddress,
    pub remote_port: u16,
    pub conn_type: ConnectionType,
}

impl Connection {
    pub fn new(
        local_addr: IpAddress,
        local_port: u16,
        remote_addr: IpAddress,
        remote_port: u16,
        conn_type: ConnectionType,
    ) -> (r: Self)
        ensures
            r == (Connection { local_addr, local_port, remote_addr, remote_port, conn_type }),
    {
        Self { local_addr, local_port, remote_addr, remote_port, conn_type }
    }

    pub fn get_local_addr(&self) -> (r: IpAddress)
        ensures
            r == self.local_addr,
    {
        self.local_addr
    }

    pub fn get_local_port(&self) -> (r: u16)
        ensures
            r == self.local_port,
    {
        self.local_port
    }

    pub fn get_remote_addr(&self) -> (r: IpAddress)
        ensures
            r == self.remote_addr,
    {
        self.remote_addr
    }

    pub fn get_remote_port(&self) -> (r: u16)
        ensures
            r == self.remote_port,
    {
        self.remote_port
    }

    pub fn get_conn_type(&self) -> (r: ConnectionType)
        ensures
            r == self.conn_type,
    {
        self.conn_type
    }

    /// The direction local to remote: what this end sends.
    pub open spec fn outbound(self) -> UniConnection {
        UniConnection {
            src_addr: self.local_addr,
            src_port: self.local_port,
            dest_addr: self.remote_addr,
            dest_port: self.remote_port,
            conn_type: self.conn_type,
        }
    }

    /// The direction remote to local: what this end receives.
    pub open spec fn inbound(self) -> UniConnection {
        self.outbound().reversed()
    }

    /// The flow key of what this end sends.
    pub fn to_outbound(&self) -> (r: UniConnection)
        ensures
            r == self.outbound(),
    {
        UniConnection::new(
            self.local_addr,
            self.local_port,
            self.remote_addr,
            self.remote_port,
            self.conn_type,
        )
    }

    /// The flow key of what this end receives.
    pub fn to_inbound(&self) -> (r: UniConnection)
        ensures
            r == self.inbound(),
    {
        UniConnection::new(
            self.remote_addr,
            self.remote_port,
            self.local_addr,
            self.local_port,
            self.conn_type,
        )
    }
}

/// Counters of one flow. `is_used` marks a flow that the correlator has
/// attributed to a process in the current cycle.
#[derive(Debug, Copy, Clone, PartialEq, Eq, Structural, Hash)]
pub struct UniConnectionStat {
    pub uni_conn: UniConnection,
    pub packet_count: Count,
    pub total_data_count: DataCount,
    pub real_data_count: DataCount,
    pub is_used: bool,
}

impl UniConnectionStat {
    pub fn new(uni_conn: UniConnection) -> (r: Self)
        ensures
            r == (UniConnectionStat {
                uni_conn,
                packet_count: Count(0),
                total_data_count: DataCount(0),
                real_data_count: DataCount(0),
                is_used: false,
            }),
    {
        Self {
            uni_conn,
            packet_count: Count::new(0),
            total_data_count: DataCount::from_byte(0),
            real_data_count: DataCount::from_byte(0),
            is_used: false,
        }
    }

    pub fn get_uni_conn(&self) -> (r: UniConnection)
        ensures
            r == self.uni_conn,
    {
        self.uni_conn
    }

    pub fn get_packet_count(&self) -> (r: Count)
        ensures
            r == self.packet_count,
    {
        self.packet_count
    }

    pub fn get_total_data_count(&self) -> (r: DataCount)
        ensures
            r == self.total_data_count,
    {
        self.total_data_count
    }

    pub fn get_real_data_count(&self) -> (r: DataCount)
        ensures
            r == self.real_data_count,
    {
        self.real_data_count
    }

    pub fn mark_as_used(&mut self)
        ensures
            *final(self) == (UniConnectionStat { is_used: true, ..*old(self) }),
    {
        self.is_used = true;
    }

    /// Whether the counters of the two can be summed without passing 128 bits.
    pub open spec fn sum_fits(self, other: Self) -> bool {
        &&& self.packet_count@ + other.packet_count@ <= u128::MAX
        &&& self.total_data_count@ + other.total_data_count@ <= u128::MAX
        &&& self.real_data_count@ + other.real_data_count@ <= u128::MAX
    }

    /// The counters of the two summed, under the key of both, with the given mark.
    pub open spec fn sum(self, other: Self, is_used: bool) -> Self {
        UniConnectionStat {
            uni_conn: self.uni_conn,
            packet_count: Count((self.packet_count.0 + other.packet_count.0) as u128),
            total_data_count: DataCount(
                (self.total_data_count.0 + other.total_data_count.0) as u128,
            ),
            real_data_count: DataCount((self.real_data_count.0 + other.real_data_count.0) as u128),
            is_used,
        }
    }

    /// Whether the counters of the two can be summed.
    pub fn sum_is_in_range(&self, other: &Self) -> (r: bool)
        ensures
            r == self.sum_fits(*other),
    {
        self.packet_count.can_add(other.packet_count) && self.total_data_count.can_add(
            other.total_data_count,
        ) && self.real_data_count.can_add(other.real_data_count)
    }

    /// Whether [`Self::add`] and [`Self::add_assign`] accept the pair.
    pub fn can_add(&self, other: &Self) -> (r: bool)
        ensures
            r == (self.uni_conn == other.uni_conn && self.sum_fits(*other)),
    {
        self.uni_conn == other.uni_conn && self.packet_count.can_add(other.packet_count)
            && self.total_data_count.can_add(other.total_data_count)
            && self.real_data_count.can_add(other.real_data_count)
    }

    /// The sum of two stats of one flow, not yet attributed.
    pub fn add(self, other: Self) -> (r: Self)
        requires
            self.uni_conn == other.uni_conn,
            self.sum_fits(other),
        ensures
            r == self.sum(other, false),
    {
        Self {
            uni_conn: self.uni_conn,
            packet_count: self.packet_count.add(other.packet_count),
            total_data_count: self.total_data_count.add(other.total_data_count),
            real_data_count: self.real_data_count.add(other.real_data_count),
            is_used: false,
        }
    }

    /// Adds the counters of `other`, a stat of the same flow; the mark stays.
    pub fn add_assign(&mut self, other: Self)
        requires
            old(self).uni_conn == other.uni_conn,
            old(self).sum_fits(other),
        ensures
            *final(self) == old(self).sum(other, old(self).is_used),
    {
        self.packet_count.add_assign(other.packet_count);
        self.total_data_count.add_assign(other.total_data_count);
        self.real_data_count.add_assign(other.real_data_count);
    }
}

#[derive(Debug)]
pub enum NetworkStatError {
    ConvertErr,
    ChannelSendErr,
    ChannelRecvErr,
    ParseIntErr(crate::common::ParseIntErrorKind),
    /// A failure of the capture library, by its message.
    PcapErr(String),
    UnknownVLANTag(u16),
    UnknownProtocol(u16),
    Ipv4PacketLenErr(usize),
    Ipv4PacketVersionErr(u8),
    Ipv6PacketLenErr(usize),
    Ipv6PacketVersionErr(u8),
    Ipv6UnknownOptionalHeaderType(u8),
    PoisonMutex,
    UnsupportedProtocol(u8),
    /// A failure of the operating system, by its message.
    IOErr(String),
    CommonErr(CommonError),
    ConfigErr(crate::config::ConfigError),
}


// ---------------------------------------------------------------------------
// Packet parser

pub const IPV4_FIXED_HEADER_SIZE: usize = 20;

pub const IPV6_FIXED_HEADER_SIZE: usize = 40;

/// The unit, in bytes, of the length byte of an IPv6 extension header.
pub const IPV6_EXTENSION_UNIT: usize = 8;

/// The transport that a protocol number names, where it is one that is counted.
pub open spec fn transport_of(protocol: u8) -> Option<ConnectionType> {
    if protocol == TCP_PAYLOAD_TYPE {
        Some(ConnectionType::TCP)
    } else if protocol == UDP_PAYLOAD_TYPE {
        Some(ConnectionType::UDP)
    } else {
        None
    }
}

/// The stat of one packet of a flow, before its link-layer length is known.
pub open spec fn packet_stat(
    src_addr: IpAddress,
    src_port: nat,
    dest_addr: IpAddress,
    dest_port: nat,
    conn_type: ConnectionType,
    payload: int,
) -> UniConnectionStat {
    UniConnectionStat {
        uni_conn: UniConnection {
            src_addr,
            src_port: src_port as u16,
            dest_addr,
            dest_port: dest_port as u16,
            conn_type,
        },
        packet_count: Count(1),
        total_data_count: DataCount(0),
        real_data_count: DataCount(payload as u128),
        is_used: false,
    }
}

/// What an IPv4 packet, from its first header byte on, says of its flow.
///
/// The header length is the low nibble of byte 0 in 32-bit words, the payload
/// is the total length at offset 2 less the header, and the ports are the first
/// four bytes after the header. A protocol that is neither TCP nor UDP is
/// refused before the lengths are looked at. Of a packet of TCP or UDP, a
/// total length below the header length, or ports beyond the captured bytes,
/// is a conversion error.
pub open spec fn ipv4_flow(p: Seq<u8>) -> Result<UniConnectionStat, NetworkStatError> {
    let header_len = (p[0] % 16) * 4;
    let total_len = be_at(p, 2, 2);
    if p.len() < IPV4_FIXED_HEADER_SIZE {
        Err(NetworkStatError::Ipv4PacketLenErr(p.len() as usize))
    } else if p[0] / 16 != 4 {
        Err(NetworkStatError::Ipv4PacketVersionErr(((p[0] / 16) * 16) as u8))
    } else if transport_of(p[9]) is None {
        Err(NetworkStatError::UnsupportedProtocol(p[9]))
    } else if total_len < header_len {
        Err(NetworkStatError::ConvertErr)
    } else if header_len + 4 > p.len() {
        Err(NetworkStatError::ConvertErr)
    } else {
        Ok(
            packet_stat(
                IpAddress::V4(be_at(p, 12, 4) as u32),
                be_at(p, header_len, 2),
                IpAddress::V4(be_at(p, 16, 4) as u32),
                be_at(p, header_len + 2, 2),
                transport_of(p[9]).unwrap(),
                total_len - header_len,
            ),
        )
    }
}

/// An IPv4 packet of a protocol that is neither TCP nor UDP is refused with
/// that protocol, whatever its lengths say.
pub proof fn lemma_ipv4_unsupported_protocol(p: Seq<u8>)
    requires
        p.len() >= IPV4_FIXED_HEADER_SIZE,
        p[0] / 16 == 4,
        p[9] != TCP_PAYLOAD_TYPE,
        p[9] != UDP_PAYLOAD_TYPE,
    ensures
        ipv4_flow(p) == Err::<UniConnectionStat, NetworkStatError>(
            NetworkStatError::UnsupportedProtocol(p[9]),
        ),
{
}

pub fn parse_ipv4_packet(data: &[u8]) -> (r: Result<UniConnectionStat, NetworkStatError>)
    ensures
        r == ipv4_flow(data@),
{
    if data.len() < IPV4_FIXED_HEADER_SIZE {
        return Err(NetworkStatError::Ipv4PacketLenErr(data.len()));
    }
    if data[0] / 16 != 4 {
        return Err(NetworkStatError::Ipv4PacketVersionErr((data[0] / 16) * 16));
    }
    let conn_type = if data[9] == TCP_PAYLOAD_TYPE {
        ConnectionType::TCP
    } else if data[9] == UDP_PAYLOAD_TYPE {
        ConnectionType::UDP
    } else {
        return Err(NetworkStatError::UnsupportedProtocol(data[9]));
    };
    let header_len: usize = ((data[0] % 16) * 4) as usize;
    let total_len: usize = read_be16(data, 2) as usize;
    if total_len < header_len {
        return Err(NetworkStatError::ConvertErr);
    }
    if header_len + 4 > data.len() {
        return Err(NetworkStatError::ConvertErr);
    }
    let src_addr = IpAddress::V4(read_be32(data, 12));
    let dest_addr = IpAddress::V4(read_be32(data, 16));
    let src_port = read_be16(data, header_len);
    let dest_port = read_be16(data, header_len + 2);
    Ok(
        UniConnectionStat {
            uni_conn: UniConnection::new(src_addr, src_port, dest_addr, dest_port, conn_type),
            packet_count: Count::new(1),
            total_data_count: DataCount::from_byte(0),
            real_data_count: DataCount::from_byte(total_len - header_len),
            is_used: false,
        },
    )
}

/// The next-header values that name an IPv6 extension header.
pub open spec fn is_ipv6_extension(header_type: u8) -> bool {
    header_type == 0 || header_type == 43 || header_type == 44 || header_type == 51
        || header_type == 50 || header_type == 60 || header_type == 135 || header_type == 139
        || header_type == 140 || header_type == 253 || header_type == 254
}

/// The bytes that an IPv6 extension header takes, by its length byte: the
/// byte counts units of eight bytes, so that a length byte of 1 stands for a
/// header of eight bytes.
pub open spec fn ipv6_extension_len(length_byte: u8) -> int {
    length_byte * IPV6_EXTENSION_UNIT
}

/// Walks the chain of extension headers of the IPv6 packet `p` from `cursor`,
/// where the header of type `next` starts, to the transport header: its
/// protocol and its offset.
///
/// At an extension header the type of what follows is its first byte, its
/// second byte is its length byte, and the cursor moves on by the bytes that
/// the length byte stands for. A header cut off by the end of the captured
/// bytes is a conversion error, and so is an extension header that moves the
/// cursor by nothing and names another extension header, since the walk
/// would never leave it.
pub open spec fn ipv6_transport(p: Seq<u8>, next: u8, cursor: int) -> Result<
    (u8, int),
    NetworkStatError,
>
    decreases
            (if cursor <= p.len() { p.len() - cursor } else { 0 }),
            (if is_ipv6_extension(next) { 1int } else { 0int }),
{
    if transport_of(next) is Some {
        Ok((next, cursor))
    } else if !is_ipv6_extension(next) {
        Err(NetworkStatError::Ipv6UnknownOptionalHeaderType(next))
    } else if cursor < 0 || cursor + 2 > p.len() {
        Err(NetworkStatError::ConvertErr)
    } else if p[cursor + 1] == 0 && is_ipv6_extension(p[cursor]) {
        Err(NetworkStatError::ConvertErr)
    } else {
        ipv6_transport(p, p[cursor], cursor + ipv6_extension_len(p[cursor + 1]))
    }
}

/// What an IPv6 packet, from its first header byte on, says of its flow.
///
/// The payload is the payload length at offset 4 less the bytes that the
/// extension headers took. Extension headers longer than the payload, or
/// ports beyond the captured bytes, are a conversion error.
pub open spec fn ipv6_flow(p: Seq<u8>) -> Result<UniConnectionStat, NetworkStatError> {
    let payload_len = be_at(p, 4, 2);
    if p.len() < IPV6_FIXED_HEADER_SIZE {
        Err(NetworkStatError::Ipv6PacketLenErr(p.len() as usize))
    } else if p[0] / 16 != 6 {
        Err(NetworkStatError::Ipv6PacketVersionErr(((p[0] / 16) * 16) as u8))
    } else {
        match ipv6_transport(p, p[6], IPV6_FIXED_HEADER_SIZE as int) {
            Err(e) => Err(e),
            Ok((protocol, at)) => {
                if at + 4 > p.len() || payload_len < at - IPV6_FIXED_HEADER_SIZE {
                    Err(NetworkStatError::ConvertErr)
                } else {
                    Ok(
                        packet_stat(
                            IpAddress::V6(be_at(p, 8, 16) as u128),
                            be_at(p, at, 2),
                            IpAddress::V6(be_at(p, 24, 16) as u128),
                            be_at(p, at + 2, 2),
                            transport_of(protocol).unwrap(),
                            payload_len - (at - IPV6_FIXED_HEADER_SIZE),
                        ),
                    )
                }
            },
        }
    }
}

fn ipv6_extension_type(header_type: u8) -> (r: bool)
    ensures
        r == is_ipv6_extension(header_type),
{
    header_type == 0 || header_type == 43 || header_type == 44 || header_type == 51
        || header_type == 50 || header_type == 60 || header_type == 135 || header_type == 139
        || header_type == 140 || header_type == 253 || header_type == 254
}

pub fn parse_ipv6_packet(data: &[u8]) -> (r: Result<UniConnectionStat, NetworkStatError>)
    ensures
        r == ipv6_flow(data@),
{
    if data.len() < IPV6_FIXED_HEADER_SIZE {
        return Err(NetworkStatError::Ipv6PacketLenErr(data.len()));
    }
    if data[0] / 16 != 6 {
        return Err(NetworkStatError::Ipv6PacketVersionErr((data[0] / 16) * 16));
    }
    let mut next_header_type: u8 = data[6];
    let mut curr_idx: usize = IPV6_FIXED_HEADER_SIZE;
    let ghost whole = ipv6_transport(data@, data@[6], IPV6_FIXED_HEADER_SIZE as int);
    loop
        invariant
            IPV6_FIXED_HEADER_SIZE <= curr_idx <= data.len(),
            data@[0] / 16 == 6,
            whole == ipv6_transport(data@, data@[6], IPV6_FIXED_HEADER_SIZE as int),
            ipv6_transport(data@, next_header_type, curr_idx as int) == whole,
        ensures
            whole == Ok::<(u8, int), NetworkStatError>((next_header_type, curr_idx as int)),
            whole == ipv6_transport(data@, data@[6], IPV6_FIXED_HEADER_SIZE as int),
            transport_of(next_header_type) is Some,
            data@[0] / 16 == 6,
            IPV6_FIXED_HEADER_SIZE <= curr_idx <= data.len(),
        decreases data.len() - curr_idx, (if is_ipv6_extension(next_header_type) { 1int } else { 0int }),
    {
        if next_header_type == TCP_PAYLOAD_TYPE || next_header_type == UDP_PAYLOAD_TYPE {
            break ;
        }
        if !ipv6_extension_type(next_header_type) {
            return Err(NetworkStatError::Ipv6UnknownOptionalHeaderType(next_header_type));
        }
        if data.len() - curr_idx < 2 {
            return Err(NetworkStatError::ConvertErr);
        }
        let following = data[curr_idx];
        let step: usize = data[curr_idx + 1] as usize * IPV6_EXTENSION_UNIT;
        if step == 0 && ipv6_extension_type(following) {
            return Err(NetworkStatError::ConvertErr);
        }
        if step > data.len() - curr_idx {
            proof {
                lemma_ipv6_walk_past_end(data@, following, curr_idx + step);
            }
            if following == TCP_PAYLOAD_TYPE || following == UDP_PAYLOAD_TYPE {
                return Err(NetworkStatError::ConvertErr);
            }
            if !ipv6_extension_type(following) {
                return Err(NetworkStatError::Ipv6UnknownOptionalHeaderType(following));
            }
            return Err(NetworkStatError::ConvertErr);
        }
        next_header_type = following;
        curr_idx = curr_idx + step;
    }

    let payload_len: usize = read_be16(data, 4) as usize;
    let src_addr = IpAddress::V6(read_be128(data, 8));
    let dest_addr = IpAddress::V6(read_be128(data, 24));
    let conn_type = if next_header_type == TCP_PAYLOAD_TYPE {
        ConnectionType::TCP
    } else {
        ConnectionType::UDP
    };
    if data.len() - curr_idx < 4 || payload_len < curr_idx - IPV6_FIXED_HEADER_SIZE {
        return Err(NetworkStatError::ConvertErr);
    }
    let src_port = read_be16(data, curr_idx);
    let dest_port = read_be16(data, curr_idx + 2);
    Ok(
        UniConnectionStat {
            uni_conn: UniConnection::new(src_addr, src_port, dest_addr, dest_port, conn_type),
            packet_count: Count::new(1),
            total_data_count: DataCount::from_byte(0),
            real_data_count: DataCount::from_byte(
                payload_len - (curr_idx - IPV6_FIXED_HEADER_SIZE),
            ),
            is_used: false,
        },
    )
}

/// A walk that stands past the captured bytes ends at once, as its header type says.
proof fn lemma_ipv6_walk_past_end(p: Seq<u8>, next: u8, cursor: int)
    requires
        cursor > p.len(),
    ensures
        ipv6_transport(p, next, cursor) == (if transport_of(next) is Some {
            Ok::<(u8, int), NetworkStatError>((next, cursor))
        } else if !is_ipv6_extension(next) {
            Err::<(u8, int), NetworkStatError>(NetworkStatError::Ipv6UnknownOptionalHeaderType(next))
        } else {
            Err::<(u8, int), NetworkStatError>(NetworkStatError::ConvertErr)
        }),
{
}


/// EtherType values that end the tag stack: IPv4 and IPv6.
pub open spec fn is_ip_ethertype(tag: nat) -> bool {
    tag == 0x0800 || tag == 0x86DD
}

/// EtherType values of a single or stacked VLAN tag.
pub open spec fn is_vlan_tag(tag: nat) -> bool {
    tag == 0x8100 || tag == 0x88A8
}

/// The offset of the EtherType of the network layer, looked for from `cursor`
/// on past any VLAN tags of four bytes each. A tag that is neither an IP
/// EtherType nor a VLAN tag is refused; the end of the captured bytes is a
/// conversion error.
pub open spec fn ethertype_offset(data: Seq<u8>, cursor: int) -> Result<int, NetworkStatError>
    decreases
            (if cursor <= data.len() {
                data.len() - cursor
            } else {
                0
            }),
{
    if cursor < 0 || cursor + 2 > data.len() {
        Err(NetworkStatError::ConvertErr)
    } else {
        let tag = be_at(data, cursor, 2);
        if is_ip_ethertype(tag) {
            Ok(cursor)
        } else if is_vlan_tag(tag) {
            ethertype_offset(data, cursor + 4)
        } else {
            Err(NetworkStatError::UnknownVLANTag(tag as u16))
        }
    }
}

/// Where the tag stack of an Ethernet frame starts: after the two MAC addresses.
pub const ETHERNET_TAG_OFFSET: usize = 12;

/// What a captured link-layer frame says of its flow: one packet, the wire
/// length as the link-layer count, and the transport payload that the IP
/// header declares.
pub open spec fn frame_flow(data: Seq<u8>, wire_len: u32) -> Result<
    UniConnectionStat,
    NetworkStatError,
> {
    match ethertype_offset(data, ETHERNET_TAG_OFFSET as int) {
        Err(e) => Err(e),
        Ok(at) => {
            let packet = data.subrange(at + 2, data.len() as int);
            let parsed = if be_at(data, at, 2) == 0x0800 {
                ipv4_flow(packet)
            } else {
                ipv6_flow(packet)
            };
            match parsed {
                Err(e) => Err(e),
                Ok(stat) => Ok(
                    UniConnectionStat { total_data_count: DataCount(wire_len as u128), ..stat },
                ),
            }
        },
    }
}

/// Parses one captured frame: `data` is what was captured of it, `wire_len`
/// its length on the wire.
pub fn get_uni_conn_stat(data: &[u8], wire_len: u32) -> (r: Result<
    UniConnectionStat,
    NetworkStatError,
>)
    ensures
        r == frame_flow(data@, wire_len),
{
    let mut curr_idx: usize = ETHERNET_TAG_OFFSET;
    let ghost whole = ethertype_offset(data@, ETHERNET_TAG_OFFSET as int);
    let mut tag: u16 = 0;
    loop
        invariant
            ETHERNET_TAG_OFFSET <= curr_idx,
            whole == ethertype_offset(data@, ETHERNET_TAG_OFFSET as int),
            ethertype_offset(data@, curr_idx as int) == whole,
        ensures
            whole == ethertype_offset(data@, ETHERNET_TAG_OFFSET as int),
            whole == Ok::<int, NetworkStatError>(curr_idx as int),
            curr_idx + 2 <= data.len(),
            tag == be_at(data@, curr_idx as int, 2),
            is_ip_ethertype(tag as nat),
        decreases
                (if curr_idx <= data.len() {
                    data.len() - curr_idx
                } else {
                    0
                }),
    {
        if data.len() < 2 || curr_idx > data.len() - 2 {
            return Err(NetworkStatError::ConvertErr);
        }
        tag = read_be16(data, curr_idx);
        if tag == 0x0800 || tag == 0x86DD {
            break ;
        } else if tag == 0x8100 || tag == 0x88A8 {
            if data.len() - curr_idx < 6 {
                assert(ethertype_offset(data@, curr_idx as int) == ethertype_offset(
                    data@,
                    curr_idx + 4,
                ));
                assert(ethertype_offset(data@, curr_idx + 4) == Err::<int, NetworkStatError>(
                    NetworkStatError::ConvertErr,
                ));
                return Err(NetworkStatError::ConvertErr);
            }
            curr_idx = curr_idx + 4;
        } else {
            return Err(NetworkStatError::UnknownVLANTag(tag));
        }
    }
    let packet = vstd::slice::slice_subrange(data, curr_idx + 2, data.len());
    let parsed = if tag == 0x0800 {
        parse_ipv4_packet(packet)
    } else {
        parse_ipv6_packet(packet)
    };
    match parsed {
        Err(e) => Err(e),
        Ok(stat) => Ok(
            UniConnectionStat {
                uni_conn: stat.uni_conn,
                packet_count: stat.packet_count,
                total_data_count: DataCount::from_byte(wire_len as usize),
                real_data_count: stat.real_data_count,
                is_used: stat.is_used,
            },
        ),
    }
}

/// The length that the IP header of a frame declares for what follows the
/// link layer: the total length of IPv4, or the fixed header and payload
/// length of IPv6.
pub open spec fn declared_ip_length(data: Seq<u8>) -> nat
    recommends
        ethertype_offset(data, ETHERNET_TAG_OFFSET as int) is Ok,
{
    let at = ethertype_offset(data, ETHERNET_TAG_OFFSET as int).unwrap();
    let packet = data.subrange(at + 2, data.len() as int);
    if be_at(data, at, 2) == 0x0800 {
        be_at(packet, 2, 2)
    } else {
        IPV6_FIXED_HEADER_SIZE as nat + be_at(packet, 4, 2)
    }
}

/// Every decoded frame counts as one packet, not yet attributed. Its transport
/// payload is no more than its link-layer length wherever the IP header
/// declares no more than the frame had on the wire.
pub proof fn lemma_decoded_packet(data: Seq<u8>, wire_len: u32)
    requires
        frame_flow(data, wire_len) is Ok,
    ensures
        frame_flow(data, wire_len).unwrap().packet_count@ == 1,
        frame_flow(data, wire_len).unwrap().total_data_count@ == wire_len,
        !frame_flow(data, wire_len).unwrap().is_used,
        declared_ip_length(data) <= wire_len ==> frame_flow(
            data,
            wire_len,
        ).unwrap().real_data_count@ <= frame_flow(data, wire_len).unwrap().total_data_count@,
{
    let at = ethertype_offset(data, ETHERNET_TAG_OFFSET as int).unwrap();
    lemma_ethertype_offset_range(data, ETHERNET_TAG_OFFSET as int);
    let packet = data.subrange(at + 2, data.len() as int);
    crate::wire::lemma_bytes_round_trip(packet.subrange(2, 4), Endian::Big);
    crate::wire::lemma_bytes_round_trip(packet.subrange(4, 6), Endian::Big);
    lemma_pow256_values();
    if be_at(data, at, 2) != 0x0800 {
        lemma_ipv6_transport_range(packet, packet[6], IPV6_FIXED_HEADER_SIZE as int);
    }
}

/// A walk that finds the transport header finds it at or after where it began.
proof fn lemma_ipv6_transport_range(p: Seq<u8>, next: u8, cursor: int)
    ensures
        ipv6_transport(p, next, cursor) matches Ok((protocol, at)) ==> cursor <= at && transport_of(
            protocol,
        ) is Some,
    decreases
            (if cursor <= p.len() {
                p.len() - cursor
            } else {
                0
            }),
            (if is_ipv6_extension(next) {
                1int
            } else {
                0int
            }),
{
    if transport_of(next) is None && is_ipv6_extension(next) && 0 <= cursor && cursor + 2
        <= p.len() && !(p[cursor + 1] == 0 && is_ipv6_extension(p[cursor])) {
        lemma_ipv6_transport_range(p, p[cursor], cursor + ipv6_extension_len(p[cursor + 1]));
    }
}

/// An IPv6 packet whose fixed header names TCP or UDP as what follows has no
/// extension header to walk: its ports stand right after the fixed header and
/// its payload is the whole declared payload length.
pub proof fn lemma_ipv6_without_extensions(p: Seq<u8>)
    requires
        p.len() >= IPV6_FIXED_HEADER_SIZE + 4,
        p[0] / 16 == 6,
        transport_of(p[6]) is Some,
    ensures
        ipv6_flow(p) == Ok::<UniConnectionStat, NetworkStatError>(
            packet_stat(
                IpAddress::V6(be_at(p, 8, 16) as u128),
                be_at(p, 40, 2),
                IpAddress::V6(be_at(p, 24, 16) as u128),
                be_at(p, 42, 2),
                transport_of(p[6]).unwrap(),
                be_at(p, 4, 2) as int,
            ),
        ),
{
}

/// An IPv6 packet with one extension header before its transport header
/// loses the bytes of that header from its payload: eight for each unit of
/// the length byte.
pub proof fn lemma_ipv6_one_extension(p: Seq<u8>)
    requires
        p.len() >= IPV6_FIXED_HEADER_SIZE + 2,
        p[0] / 16 == 6,
        is_ipv6_extension(p[6]),
        transport_of(p[40]) is Some,
        p.len() >= IPV6_FIXED_HEADER_SIZE + 8 * p[41] + 4,
        be_at(p, 4, 2) >= 8 * p[41],
    ensures
        ipv6_flow(p) == Ok::<UniConnectionStat, NetworkStatError>(
            packet_stat(
                IpAddress::V6(be_at(p, 8, 16) as u128),
                be_at(p, 40 + 8 * p[41], 2),
                IpAddress::V6(be_at(p, 24, 16) as u128),
                be_at(p, 42 + 8 * p[41], 2),
                transport_of(p[40]).unwrap(),
                be_at(p, 4, 2) - 8 * p[41],
            ),
        ),
{
    let after = IPV6_FIXED_HEADER_SIZE + ipv6_extension_len(p[41]);
    assert(ipv6_transport(p, p[40], after) == Ok::<(u8, int), NetworkStatError>((p[40], after)));
    assert(ipv6_transport(p, p[6], IPV6_FIXED_HEADER_SIZE as int) == ipv6_transport(p, p[40], after));
}

/// A frame without the eight bytes of its two outermost tags.
pub open spec fn strip_two_tags(data: Seq<u8>) -> Seq<u8> {
    data.subrange(0, ETHERNET_TAG_OFFSET as int) + data.subrange(
        ETHERNET_TAG_OFFSET + 8,
        data.len() as int,
    )
}

proof fn lemma_ethertype_offset_shift(data: Seq<u8>, cursor: int)
    requires
        data.len() >= ETHERNET_TAG_OFFSET + 8,
        cursor >= ETHERNET_TAG_OFFSET,
    ensures
        ethertype_offset(strip_two_tags(data), cursor) == (match ethertype_offset(data, cursor + 8) {
            Ok(at) => Ok::<int, NetworkStatError>(at - 8),
            Err(e) => Err::<int, NetworkStatError>(e),
        }),
    decreases
            (if cursor <= data.len() {
                data.len() - cursor
            } else {
                0
            }),
{
    let stripped = strip_two_tags(data);
    if cursor + 2 <= stripped.len() {
        assert(stripped.subrange(cursor, cursor + 2) =~= data.subrange(cursor + 8, cursor + 10));
        if is_vlan_tag(be_at(data, cursor + 8, 2)) {
            lemma_ethertype_offset_shift(data, cursor + 4);
        }
    }
}

/// A frame under two VLAN tags parses as the same frame with the eight tag
/// bytes taken out, for one and the same wire length.
pub proof fn lemma_double_tag_transparent(data: Seq<u8>, wire_len: u32)
    requires
        data.len() >= ETHERNET_TAG_OFFSET + 8,
        is_vlan_tag(be_at(data, ETHERNET_TAG_OFFSET as int, 2)),
        is_vlan_tag(be_at(data, ETHERNET_TAG_OFFSET + 4, 2)),
    ensures
        frame_flow(data, wire_len) == frame_flow(strip_two_tags(data), wire_len),
{
    let stripped = strip_two_tags(data);
    lemma_ethertype_offset_shift(data, ETHERNET_TAG_OFFSET as int);
    assert(ethertype_offset(data, ETHERNET_TAG_OFFSET as int) == ethertype_offset(
        data,
        ETHERNET_TAG_OFFSET + 8,
    )) by {
        assert(ethertype_offset(data, ETHERNET_TAG_OFFSET as int) == ethertype_offset(
            data,
            ETHERNET_TAG_OFFSET + 4,
        ));
    }
    match ethertype_offset(data, ETHERNET_TAG_OFFSET as int) {
        Ok(at) => {
            lemma_ethertype_offset_range(data, ETHERNET_TAG_OFFSET + 8);
            assert(stripped.subrange(at - 8, at - 6) =~= data.subrange(at, at + 2));
            assert(stripped.subrange(at - 6, stripped.len() as int) =~= data.subrange(
                at + 2,
                data.len() as int,
            ));
        },
        Err(_) => {},
    }
}

/// An EtherType that was found stands at or after where the search began, within the data.
proof fn lemma_ethertype_offset_range(data: Seq<u8>, cursor: int)
    ensures
        ethertype_offset(data, cursor) matches Ok(at) ==> cursor <= at && at + 2 <= data.len(),
    decreases
            (if cursor <= data.len() {
                data.len() - cursor
            } else {
                0
            }),
{
    if 0 <= cursor && cursor + 2 <= data.len() && is_vlan_tag(be_at(data, cursor, 2)) {
        lemma_ethertype_offset_range(data, cursor + 4);
    }
}


// ---------------------------------------------------------------------------
// Flow store

/// No two stats of the sequence are of one flow.
pub open spec fn distinct_flows(s: Seq<UniConnectionStat>) -> bool {
    forall|i: int, j: int| 0 <= i < j < s.len() ==> s[i].uni_conn != s[j].uni_conn
}

/// Some stat of the sequence is of the flow `key`.
pub open spec fn has_flow(s: Seq<UniConnectionStat>, key: UniConnection) -> bool {
    exists|i: int| 0 <= i < s.len() && (#[trigger] s[i]).uni_conn == key
}

/// The stat of the flow `key` in the sequence.
pub open spec fn flow_of(s: Seq<UniConnectionStat>, key: UniConnection) -> UniConnectionStat {
    s[choose|i: int| 0 <= i < s.len() && (#[trigger] s[i]).uni_conn == key]
}

/// The sequence as a map from flow to stat.
pub open spec fn flow_map(s: Seq<UniConnectionStat>) -> Map<UniConnection, UniConnectionStat> {
    Map::new(|key: UniConnection| has_flow(s, key), |key: UniConnection| flow_of(s, key))
}

pub proof fn lemma_flow_at(s: Seq<UniConnectionStat>, i: int)
    requires
        distinct_flows(s),
        0 <= i < s.len(),
    ensures
        has_flow(s, s[i].uni_conn),
        flow_of(s, s[i].uni_conn) == s[i],
        flow_map(s).contains_key(s[i].uni_conn),
        flow_map(s)[s[i].uni_conn] == s[i],
{
    let key = s[i].uni_conn;
    let j = choose|j: int| 0 <= j < s.len() && (#[trigger] s[j]).uni_conn == key;
    assert(i == j);
}

proof fn lemma_flow_map_update(s: Seq<UniConnectionStat>, i: int, stat: UniConnectionStat)
    requires
        distinct_flows(s),
        0 <= i < s.len(),
        stat.uni_conn == s[i].uni_conn,
    ensures
        distinct_flows(s.update(i, stat)),
        flow_map(s.update(i, stat)) == flow_map(s).insert(stat.uni_conn, stat),
{
    let t = s.update(i, stat);
    assert(distinct_flows(t)) by {
        assert forall|a: int, b: int| 0 <= a < b < t.len() implies t[a].uni_conn != t[b].uni_conn by {
            assert(s[a].uni_conn != s[b].uni_conn);
        }
    }
    assert forall|key: UniConnection| has_flow(t, key) == (key == stat.uni_conn || has_flow(s, key)) by {
        if has_flow(t, key) {
            let j = choose|j: int| 0 <= j < t.len() && (#[trigger] t[j]).uni_conn == key;
            assert(s[j].uni_conn == key);
        }
        if has_flow(s, key) {
            let j = choose|j: int| 0 <= j < s.len() && (#[trigger] s[j]).uni_conn == key;
            assert(t[j].uni_conn == key);
        }
        if key == stat.uni_conn {
            assert(t[i].uni_conn == key);
        }
    }
    assert forall|key: UniConnection| has_flow(t, key) implies flow_of(t, key) == (if key
        == stat.uni_conn {
        stat
    } else {
        flow_of(s, key)
    }) by {
        let j = choose|j: int| 0 <= j < t.len() && (#[trigger] t[j]).uni_conn == key;
        lemma_flow_at(t, j);
        if key != stat.uni_conn {
            assert(s[j].uni_conn == key);
            lemma_flow_at(s, j);
        } else {
            lemma_flow_at(t, i);
        }
    }
    assert(flow_map(t) =~= flow_map(s).insert(stat.uni_conn, stat));
}

proof fn lemma_flow_map_push(s: Seq<UniConnectionStat>, stat: UniConnectionStat)
    requires
        distinct_flows(s),
        !has_flow(s, stat.uni_conn),
    ensures
        distinct_flows(s.push(stat)),
        flow_map(s.push(stat)) == flow_map(s).insert(stat.uni_conn, stat),
{
    let t = s.push(stat);
    assert(distinct_flows(t)) by {
        assert forall|a: int, b: int| 0 <= a < b < t.len() implies t[a].uni_conn != t[b].uni_conn by {
            if b < s.len() {
                assert(s[a].uni_conn != s[b].uni_conn);
            } else {
                assert(s[a].uni_conn == t[a].uni_conn);
            }
        }
    }
    assert forall|key: UniConnection| has_flow(t, key) == (key == stat.uni_conn || has_flow(s, key)) by {
        if has_flow(t, key) {
            let j = choose|j: int| 0 <= j < t.len() && (#[trigger] t[j]).uni_conn == key;
            if j < s.len() {
                assert(s[j].uni_conn == key);
            }
        }
        if has_flow(s, key) {
            let j = choose|j: int| 0 <= j < s.len() && (#[trigger] s[j]).uni_conn == key;
            assert(t[j].uni_conn == key);
        }
        if key == stat.uni_conn {
            assert(t[s.len() as int].uni_conn == key);
        }
    }
    assert forall|key: UniConnection| has_flow(t, key) implies flow_of(t, key) == (if key
        == stat.uni_conn {
        stat
    } else {
        flow_of(s, key)
    }) by {
        let j = choose|j: int| 0 <= j < t.len() && (#[trigger] t[j]).uni_conn == key;
        lemma_flow_at(t, j);
        if key != stat.uni_conn {
            assert(s[j].uni_conn == key);
            lemma_flow_at(s, j);
        } else {
            lemma_flow_at(t, s.len() as int);
        }
    }
    assert(flow_map(t) =~= flow_map(s).insert(stat.uni_conn, stat));
}

/// A map of flows once `stat` is recorded in it: `stat` itself for a flow not
/// seen yet, else the counters summed under the mark that the flow has.
pub open spec fn flow_recorded(
    flows: Map<UniConnection, UniConnectionStat>,
    stat: UniConnectionStat,
) -> Map<UniConnection, UniConnectionStat> {
    flows.insert(
        stat.uni_conn,
        if flows.contains_key(stat.uni_conn) {
            flows[stat.uni_conn].sum(stat, flows[stat.uni_conn].is_used)
        } else {
            stat
        },
    )
}

/// A map of flows once each of `packets` is recorded in it, in order.
pub open spec fn flows_recorded(
    flows: Map<UniConnection, UniConnectionStat>,
    packets: Seq<UniConnectionStat>,
) -> Map<UniConnection, UniConnectionStat>
    decreases packets.len(),
{
    if packets.len() == 0 {
        flows
    } else {
        flow_recorded(flows_recorded(flows, packets.drop_last()), packets.last())
    }
}

/// The flows of a snapshot are the flows of the packets recorded since the
/// table was last taken: each of them has a stat, under its own key, and
/// nothing else has. Where no packet was marked, no flow of the snapshot is.
pub proof fn lemma_snapshot_keys(packets: Seq<UniConnectionStat>)
    ensures
        forall|key: UniConnection|
            flows_recorded(Map::empty(), packets).contains_key(key) <==> exists|i: int|
                0 <= i < packets.len() && (#[trigger] packets[i]).uni_conn == key,
        forall|key: UniConnection|
            flows_recorded(Map::empty(), packets).contains_key(key) ==> (#[trigger] flows_recorded(
                Map::empty(),
                packets,
            )[key]).uni_conn == key,
        (forall|i: int| 0 <= i < packets.len() ==> !(#[trigger] packets[i]).is_used) ==> forall|
            key: UniConnection,
        |
            flows_recorded(Map::empty(), packets).contains_key(key) ==> !(#[trigger] flows_recorded(
                Map::empty(),
                packets,
            )[key]).is_used,
    decreases packets.len(),
{
    if packets.len() > 0 {
        let before = packets.drop_last();
        lemma_snapshot_keys(before);
        if forall|i: int| 0 <= i < packets.len() ==> !(#[trigger] packets[i]).is_used {
            assert forall|i: int| 0 <= i < before.len() implies !(#[trigger] before[i]).is_used by {
                assert(!packets[i].is_used);
            }
            assert(!packets[packets.len() - 1].is_used);
        }
        let prior = flows_recorded(Map::empty(), before);
        assert forall|key: UniConnection|
            flows_recorded(Map::empty(), packets).contains_key(key) <==> exists|i: int|
                0 <= i < packets.len() && (#[trigger] packets[i]).uni_conn == key by {
            if prior.contains_key(key) {
                let i = choose|i: int| 0 <= i < before.len() && (#[trigger] before[i]).uni_conn == key;
                assert(packets[i].uni_conn == key);
            }
            if key == packets.last().uni_conn {
                assert(packets[packets.len() - 1].uni_conn == key);
            }
            if exists|i: int| 0 <= i < packets.len() && (#[trigger] packets[i]).uni_conn == key {
                let i = choose|i: int| 0 <= i < packets.len() && (#[trigger] packets[i]).uni_conn == key;
                if i < before.len() {
                    assert(before[i].uni_conn == key);
                }
            }
        }
    }
}

/// The flows seen on one interface, at most one stat for each.
///
/// The stats stand in a list, not in a hash map: a flow is a structure, and of
/// a hash map with such a key nothing can be proved, not even that it holds
/// what was just entered. The view is the map from flow to stat.
#[derive(Debug)]
pub struct FlowTable {
    pub stats: Vec<UniConnectionStat>,
}

/// What became of a captured frame.
#[derive(Debug, Clone, Copy, PartialEq, Eq, Structural)]
pub enum Captured {
    /// The frame did not parse as a TCP or UDP packet; nothing was changed.
    Dropped,
    /// The stat of the frame was recorded under its flow.
    Recorded,
    /// Recording the frame would take a counter past 128 bits; nothing was changed.
    TooLarge,
}

impl View for FlowTable {
    type V = Map<UniConnection, UniConnectionStat>;

    open spec fn view(&self) -> Map<UniConnection, UniConnectionStat> {
        flow_map(self.stats@)
    }
}

impl FlowTable {
    /// Each flow has one stat, kept under the flow's own key.
    pub open spec fn wf(&self) -> bool {
        distinct_flows(self.stats@)
    }

    /// Tests whether the table is well formed.
    pub fn is_wf(&self) -> (r: bool)
        ensures
            r == self.wf(),
    {
        let mut j: usize = 0;
        while j < self.stats.len()
            invariant
                j <= self.stats@.len(),
                forall|a: int, b: int|
                    0 <= a < b < j ==> self.stats@[a].uni_conn != self.stats@[b].uni_conn,
            decreases self.stats.len() - j,
        {
            let mut i: usize = 0;
            while i < j
                invariant
                    i <= j < self.stats@.len(),
                    forall|a: int| 0 <= a < i ==> self.stats@[a].uni_conn != self.stats@[j as int].uni_conn,
                decreases j - i,
            {
                if self.stats[i].uni_conn == self.stats[j].uni_conn {
                    return false;
                }
                i = i + 1;
            }
            j = j + 1;
        }
        true
    }

    pub fn new() -> (r: Self)
        ensures
            r.wf(),
            r@ == Map::<UniConnection, UniConnectionStat>::empty(),
    {
        let r = Self { stats: Vec::new() };
        assert(r@ =~= Map::<UniConnection, UniConnectionStat>::empty());
        r
    }

    /// Where in the table the stat of `key` stands.
    pub fn position(&self, key: &UniConnection) -> (r: Option<usize>)
        ensures
            r matches Some(i) ==> i < self.stats@.len() && self.stats@[i as int].uni_conn == *key
                && forall|j: int| 0 <= j < i ==> (#[trigger] self.stats@[j]).uni_conn != *key,
            r is None ==> !has_flow(self.stats@, *key),
    {
        let mut i: usize = 0;
        while i < self.stats.len()
            invariant
                i <= self.stats@.len(),
                forall|j: int| 0 <= j < i ==> (#[trigger] self.stats@[j]).uni_conn != *key,
            decreases self.stats.len() - i,
        {
            if self.stats[i].uni_conn == *key {
                return Some(i);
            }
            i = i + 1;
        }
        None
    }

    /// The stat of the flow `key`, if the table has one.
    pub fn get(&self, key: &UniConnection) -> (r: Option<UniConnectionStat>)
        requires
            self.wf(),
        ensures
            r == (if self@.contains_key(*key) {
                Some(self@[*key])
            } else {
                None
            }),
    {
        match self.position(key) {
            Some(i) => {
                proof {
                    lemma_flow_at(self.stats@, i as int);
                }
                Some(self.stats[i])
            },
            None => None,
        }
    }

    /// Whether `stat` can be recorded without a counter passing 128 bits.
    pub open spec fn fits(self, stat: UniConnectionStat) -> bool {
        self@.contains_key(stat.uni_conn) ==> self@[stat.uni_conn].sum_fits(stat)
    }

    /// Whether [`Self::record`] accepts `stat`.
    pub fn can_record(&self, stat: &UniConnectionStat) -> (r: bool)
        requires
            self.wf(),
        ensures
            r == self.fits(*stat),
    {
        match self.get(&stat.uni_conn) {
            Some(have) => have.sum_is_in_range(stat),
            None => true,
        }
    }

    /// Merges the stat of one packet, or of many, into the table under its flow.
    pub fn record(&mut self, stat: UniConnectionStat)
        requires
            old(self).wf(),
            old(self).fits(stat),
        ensures
            final(self).wf(),
            final(self)@ == flow_recorded(old(self)@, stat),
    {
        match self.position(&stat.uni_conn) {
            Some(i) => {
                proof {
                    lemma_flow_at(self.stats@, i as int);
                }
                let mut have = self.stats[i];
                have.add_assign(stat);
                proof {
                    lemma_flow_map_update(self.stats@, i as int, have);
                }
                self.stats.set(i, have);
            },
            None => {
                proof {
                    lemma_flow_map_push(self.stats@, stat);
                }
                self.stats.push(stat);
            },
        }
    }

    /// Takes one captured frame: `data` is what was captured of it,
    /// `wire_len` its length on the wire. A frame that does not parse is
    /// dropped and the table stays as it was. The stat of one that parses is
    /// recorded under its flow, unless a counter would pass 128 bits: then
    /// nothing is changed either.
    pub fn record_frame(&mut self, data: &[u8], wire_len: u32) -> (r: Captured)
        requires
            old(self).wf(),
        ensures
            final(self).wf(),
            match frame_flow(data@, wire_len) {
                Err(_) => r == Captured::Dropped && *final(self) == *old(self),
                Ok(stat) => if old(self).fits(stat) {
                    r == Captured::Recorded && final(self)@ == flow_recorded(old(self)@, stat)
                } else {
                    r == Captured::TooLarge && *final(self) == *old(self)
                },
            },
    {
        match get_uni_conn_stat(data, wire_len) {
            Err(_) => Captured::Dropped,
            Ok(stat) => {
                if self.can_record(&stat) {
                    self.record(stat);
                    Captured::Recorded
                } else {
                    Captured::TooLarge
                }
            },
        }
    }

    /// Looks the flow `key` up for attribution: its stat is marked as used and
    /// returned with the mark. A flow that the table lacks leaves it as it was.
    pub fn mark_used(&mut self, key: &UniConnection) -> (r: Option<UniConnectionStat>)
        requires
            old(self).wf(),
        ensures
            final(self).wf(),
            old(self)@.contains_key(*key) ==> r == Some(
                UniConnectionStat { is_used: true, ..old(self)@[*key] },
            ) && final(self)@ == old(self)@.insert(*key, r.unwrap()),
            !old(self)@.contains_key(*key) ==> r is None && final(self)@ == old(self)@,
    {
        match self.position(key) {
            Some(i) => {
                proof {
                    lemma_flow_at(self.stats@, i as int);
                }
                let mut have = self.stats[i];
                have.mark_as_used();
                proof {
                    lemma_flow_map_update(self.stats@, i as int, have);
                }
                self.stats.set(i, have);
                Some(have)
            },
            None => None,
        }
    }

    /// Drops every flow that is marked as used; the others stay as they are.
    #[verifier::rlimit(40)]
    pub fn remove_used(&mut self)
        requires
            old(self).wf(),
        ensures
            final(self).wf(),
            final(self)@ == old(self)@.remove_keys(
                Set::new(|key: UniConnection| old(self)@.contains_key(key) && old(self)@[key].is_used),
            ),
            forall|key: UniConnection| final(self)@.contains_key(key) ==> !final(self)@[key].is_used,
    {
        let ghost before = self.stats@;
        let mut kept: Vec<UniConnectionStat> = Vec::new();
        let mut i: usize = 0;
        while i < self.stats.len()
            invariant
                i <= self.stats@.len(),
                self.stats@ == before,
                distinct_flows(before),
                distinct_flows(kept@),
                forall|j: int|
                    0 <= j < kept@.len() ==> !(#[trigger] kept@[j]).is_used && exists|k: int|
                        0 <= k < i && before[k] == kept@[j],
                forall|k: int|
                    0 <= k < i && !(#[trigger] before[k]).is_used ==> exists|j: int|
                        0 <= j < kept@.len() && kept@[j] == before[k],
            decreases self.stats.len() - i,
        {
            let stat = self.stats[i];
            if !stat.is_used {
                let ghost prior = kept@;
                proof {
                    assert forall|a: int| 0 <= a < prior.len() implies (#[trigger] prior[a]).uni_conn
                        != stat.uni_conn by {
                        let k = choose|k: int| 0 <= k < i && before[k] == prior[a];
                        assert(before[k].uni_conn != before[i as int].uni_conn);
                    }
                }
                kept.push(stat);
                proof {
                    assert forall|a: int, b: int| 0 <= a < b < kept@.len() implies kept@[a].uni_conn
                        != kept@[b].uni_conn by {
                        if b < prior.len() {
                            assert(prior[a].uni_conn != prior[b].uni_conn);
                        } else {
                            assert(prior[a].uni_conn != stat.uni_conn);
                        }
                    }
                    assert forall|j: int| 0 <= j < kept@.len() implies !(#[trigger] kept@[j]).is_used
                        && exists|k: int| 0 <= k < i + 1 && before[k] == kept@[j] by {
                        if j < prior.len() {
                            let k = choose|k: int| 0 <= k < i && before[k] == prior[j];
                            assert(before[k] == kept@[j]);
                        } else {
                            assert(before[i as int] == kept@[j]);
                        }
                    }
                    assert forall|k: int| 0 <= k < i + 1 && !(#[trigger] before[k]).is_used implies exists|
                        j: int,
                    | 0 <= j < kept@.len() && kept@[j] == before[k] by {
                        if k < i {
                            let j = choose|j: int| 0 <= j < prior.len() && prior[j] == before[k];
                            assert(kept@[j] == before[k]);
                        } else {
                            assert(kept@[prior.len() as int] == before[k]);
                        }
                    }
                }
            }
            i = i + 1;
        }
        self.stats = kept;
        proof {
            let after = self.stats@;
            let used = Set::new(
                |key: UniConnection| flow_map(before).contains_key(key) && flow_map(before)[key].is_used,
            );
            assert forall|key: UniConnection| has_flow(after, key) implies has_flow(before, key)
                && flow_of(after, key) == flow_of(before, key) && !flow_of(before, key).is_used by {
                let j = choose|j: int| 0 <= j < after.len() && (#[trigger] after[j]).uni_conn == key;
                lemma_flow_at(after, j);
                let k = choose|k: int| 0 <= k < before.len() && before[k] == after[j];
                lemma_flow_at(before, k);
            }
            assert forall|key: UniConnection| has_flow(before, key) && !flow_of(
                before,
                key,
            ).is_used implies has_flow(after, key) by {
                let k = choose|k: int| 0 <= k < before.len() && (#[trigger] before[k]).uni_conn == key;
                lemma_flow_at(before, k);
                let j = choose|j: int| 0 <= j < after.len() && after[j] == before[k];
                assert(after[j].uni_conn == key);
            }
            assert(flow_map(after) =~= flow_map(before).remove_keys(used));
        }
    }

    /// Hands the flows out and leaves the table empty for what arrives next.
    pub fn take(&mut self) -> (r: Self)
        requires
            old(self).wf(),
        ensures
            r == *old(self),
            final(self).wf(),
            final(self)@ == Map::<UniConnection, UniConnectionStat>::empty(),
    {
        let mut stats: Vec<UniConnectionStat> = Vec::new();
        std::mem::swap(&mut stats, &mut self.stats);
        assert(self@ =~= Map::<UniConnection, UniConnectionStat>::empty());
        Self { stats }
    }
}


/// The flows of one interface as a snapshot hands them to the correlator.
#[derive(Debug)]
pub struct InterfaceRawStat {
    pub iname: String,
    pub description: String,
    pub uni_conn_stats: FlowTable,
}

impl InterfaceRawStat {
    pub open spec fn wf(&self) -> bool {
        self.uni_conn_stats.wf()
    }

    /// Tests whether the flows of the interface are well formed.
    pub fn is_wf(&self) -> (r: bool)
        ensures
            r == self.wf(),
    {
        self.uni_conn_stats.is_wf()
    }

    pub fn new(iname: String, description: String) -> (r: Self)
        ensures
            r.wf(),
            r.iname == iname,
            r.description == description,
            r.uni_conn_stats@ == Map::<UniConnection, UniConnectionStat>::empty(),
    {
        Self { iname, description, uni_conn_stats: FlowTable::new() }
    }

    /// Looks a flow up for attribution: its stat is marked as used and
    /// returned with the mark. A flow that the interface lacks changes nothing.
    pub fn get_uni_conn_stat(&mut self, uni_conn: &UniConnection) -> (r: Option<UniConnectionStat>)
        requires
            old(self).wf(),
        ensures
            final(self).wf(),
            final(self).iname == old(self).iname,
            final(self).description == old(self).description,
            old(self).uni_conn_stats@.contains_key(*uni_conn) ==> r == Some(
                UniConnectionStat { is_used: true, ..old(self).uni_conn_stats@[*uni_conn] },
            ) && final(self).uni_conn_stats@ == old(self).uni_conn_stats@.insert(
                *uni_conn,
                r.unwrap(),
            ),
            !old(self).uni_conn_stats@.contains_key(*uni_conn) ==> r is None && final(self).uni_conn_stats@ == old(self).uni_conn_stats@,
    {
        self.uni_conn_stats.mark_used(uni_conn)
    }

    /// Drops the flows that were attributed; the others wait for a later cycle.
    pub fn remove_used_uni_conn_stats(&mut self)
        requires
            old(self).wf(),
        ensures
            final(self).wf(),
            final(self).iname == old(self).iname,
            final(self).description == old(self).description,
            final(self).uni_conn_stats@ == old(self).uni_conn_stats@.remove_keys(
                Set::new(
                    |key: UniConnection|
                        old(self).uni_conn_stats@.contains_key(key) && old(self).uni_conn_stats@[key].is_used,
                ),
            ),
            forall|key: UniConnection|
                final(self).uni_conn_stats@.contains_key(key) ==> !final(self).uni_conn_stats@[key].is_used,
    {
        self.uni_conn_stats.remove_used();
    }
}

/// One address of an interface, with the mask of its network where it has one.
#[derive(Debug, Clone, Copy, PartialEq, Eq, Structural)]
pub struct InterfaceAddress {
    pub addr: IpAddress,
    pub netmask: Option<IpAddress>,
}

/// An interface of the host as the capture library lists it.
#[derive(Debug)]
pub struct InterfaceInfo {
    pub name: String,
    pub description: String,
    pub addresses: Vec<InterfaceAddress>,
}

/// Whether `addr` lies in the network of the interface address `of`.
/// An address without a mask has no network.
pub open spec fn address_covers(of: InterfaceAddress, addr: IpAddress) -> bool {
    of.netmask matches Some(mask) && crate::common::in_network(addr, of.addr, mask) == Ok::<
        bool,
        (),
    >(true)
}

/// Whether some address of the interface covers `addr`.
pub open spec fn interface_covers(device: InterfaceInfo, addr: IpAddress) -> bool {
    exists|j: int|
        0 <= j < device.addresses@.len() && address_covers(#[trigger] device.addresses@[j], addr)
}

/// The first interface, from `from` on in scan order, that covers `addr`.
pub open spec fn covering_interface(devices: Seq<InterfaceInfo>, addr: IpAddress, from: int) -> Option<
    int,
>
    decreases devices.len() - from,
{
    if from < 0 || from >= devices.len() {
        None
    } else if interface_covers(devices[from], addr) {
        Some(from)
    } else {
        covering_interface(devices, addr, from + 1)
    }
}

fn covers(device: &InterfaceInfo, addr: &IpAddress) -> (r: bool)
    ensures
        r == interface_covers(*device, *addr),
{
    let mut j: usize = 0;
    while j < device.addresses.len()
        invariant
            j <= device.addresses@.len(),
            forall|k: int| 0 <= k < j ==> !address_covers(#[trigger] device.addresses@[k], *addr),
        decreases device.addresses.len() - j,
    {
        let of = device.addresses[j];
        match of.netmask {
            Some(mask) => {
                match crate::common::addr_in_network(addr, &of.addr, &mask) {
                    Ok(true) => {
                        return true;
                    },
                    _ => {},
                }
            },
            None => {},
        }
        j = j + 1;
    }
    false
}

/// The interface that a connection with the local address `addr` runs over:
/// the first in scan order with an address whose network holds `addr`.
pub fn interface_of(devices: &Vec<InterfaceInfo>, addr: &IpAddress) -> (r: Option<usize>)
    ensures
        r matches Some(d) ==> covering_interface(devices@, *addr, 0) == Some(d as int) && d
            < devices@.len(),
        r is None ==> covering_interface(devices@, *addr, 0) is None,
{
    let mut d: usize = 0;
    while d < devices.len()
        invariant
            d <= devices@.len(),
            covering_interface(devices@, *addr, 0) == covering_interface(devices@, *addr, d as int),
        decreases devices.len() - d,
    {
        if covers(&devices[d], addr) {
            return Some(d);
        }
        d = d + 1;
    }
    None
}

// ---------------------------------------------------------------------------
// Socket tables of /proc/net

pub const COLON: u8 = 0x3a;

/// The address that the bytes of an address field spell. The field holds
/// 32-bit words in the byte order of the host that wrote it, little-endian:
/// one word for IPv4, four for IPv6 with the highest word first.
pub open spec fn socket_address(bytes: Seq<u8>, v6: bool) -> IpAddress {
    if v6 {
        IpAddress::V6(
            (((uint_value(bytes.subrange(0, 4), Endian::Little) * 0x1_0000_0000 + uint_value(
                bytes.subrange(4, 8),
                Endian::Little,
            )) * 0x1_0000_0000 + uint_value(bytes.subrange(8, 12), Endian::Little)) * 0x1_0000_0000
                + uint_value(bytes.subrange(12, 16), Endian::Little)) as u128,
        )
    } else {
        IpAddress::V4(uint_value(bytes.subrange(0, 4), Endian::Little) as u32)
    }
}

/// The number of bytes in an address field of the family.
pub open spec fn socket_address_len(v6: bool) -> nat {
    if v6 {
        16
    } else {
        4
    }
}

/// One end of a socket line: the address and port of an `ADDRESS:PORT` field
/// in hexadecimal. A field without a colon, or with an address or a port of
/// the wrong length, is a conversion error; bad hexadecimal gives its own error.
pub open spec fn socket_end(field: Seq<u8>, v6: bool) -> Result<(IpAddress, u16), NetworkStatError> {
    let parts = pieces(field, COLON);
    if parts.len() < 2 {
        Err(NetworkStatError::ConvertErr)
    } else {
        match hex_string(span_bytes(field, parts[0]), Endian::Big) {
            Err(e) => Err(NetworkStatError::CommonErr(e)),
            Ok(addr) => match hex_string(span_bytes(field, parts[1]), Endian::Big) {
                Err(e) => Err(NetworkStatError::CommonErr(e)),
                Ok(port) => if addr.len() != socket_address_len(v6) || port.len() != 2 {
                    Err(NetworkStatError::ConvertErr)
                } else {
                    Ok((socket_address(addr, v6), uint_value(port, Endian::Big) as u16))
                },
            },
        }
    }
}

/// What one line of a socket table says: the inode of a socket and its
/// connection, or nothing for a socket with the all-zero address at either
/// end. Token 1 is the local end, token 2 the remote end, token 9 the inode in
/// decimal; a line with fewer tokens is a conversion error.
pub open spec fn socket_line(line: Seq<u8>, v6: bool, conn_type: ConnectionType) -> Result<
    Option<(Inode, Connection)>,
    NetworkStatError,
> {
    let fields = tokens(line);
    if fields.len() < 10 {
        Err(NetworkStatError::ConvertErr)
    } else {
        match socket_end(span_bytes(line, fields[1]), v6) {
            Err(e) => Err(e),
            Ok(local) => match socket_end(span_bytes(line, fields[2]), v6) {
                Err(e) => Err(e),
                Ok(remote) => if local.0 == IpAddress::V4(0) || local.0 == IpAddress::V6(0)
                    || remote.0 == IpAddress::V4(0) || remote.0 == IpAddress::V6(0) {
                    Ok(None)
                } else {
                    match decimal_number(span_bytes(line, fields[9]), usize::MAX as nat) {
                        Err(kind) => Err(NetworkStatError::ParseIntErr(kind)),
                        Ok(inode) => Ok(
                            Some(
                                (
                                    Inode(inode as u128),
                                    Connection {
                                        local_addr: local.0,
                                        local_port: local.1,
                                        remote_addr: remote.0,
                                        remote_port: remote.1,
                                        conn_type,
                                    },
                                ),
                            ),
                        ),
                    }
                },
            },
        }
    }
}

fn parse_socket_end(field: &[u8], v6: bool) -> (r: Result<(IpAddress, u16), NetworkStatError>)
    ensures
        r == socket_end(field@, v6),
{
    let parts = split(field, COLON);
    if parts.len() < 2 {
        return Err(NetworkStatError::ConvertErr);
    }
    let addr_span = parts[0];
    let port_span = parts[1];
    let addr = match parse_hex_bytes(slice_subrange(field, addr_span.0, addr_span.1), Endian::Big) {
        Ok(bytes) => bytes,
        Err(e) => {
            return Err(NetworkStatError::CommonErr(e));
        },
    };
    let port = match parse_hex_bytes(slice_subrange(field, port_span.0, port_span.1), Endian::Big) {
        Ok(bytes) => bytes,
        Err(e) => {
            return Err(NetworkStatError::CommonErr(e));
        },
    };
    let want: usize = if v6 { 16 } else { 4 };
    if addr.len() != want || port.len() != 2 {
        return Err(NetworkStatError::ConvertErr);
    }
    proof {
        lemma_pow256_values();
        assert(port@.subrange(0, 2) =~= port@);
    }
    let port_number = read_uint(port.as_slice(), 0, 2, Endian::Big) as u16;
    let w0 = read_uint(addr.as_slice(), 0, 4, Endian::Little);
    let address = if v6 {
        let w1 = read_uint(addr.as_slice(), 4, 4, Endian::Little);
        let w2 = read_uint(addr.as_slice(), 8, 4, Endian::Little);
        let w3 = read_uint(addr.as_slice(), 12, 4, Endian::Little);
        IpAddress::V6(((w0 * 0x1_0000_0000 + w1) * 0x1_0000_0000 + w2) * 0x1_0000_0000 + w3)
    } else {
        IpAddress::V4(w0 as u32)
    };
    Ok((address, port_number))
}

/// Parses one line of `/proc/net/tcp`, `tcp6`, `udp` or `udp6`.
pub fn parse_socket_line(line: &[u8], v6: bool, conn_type: ConnectionType) -> (r: Result<
    Option<(Inode, Connection)>,
    NetworkStatError,
>)
    ensures
        r == socket_line(line@, v6, conn_type),
{
    let fields = split_whitespace(line);
    if fields.len() < 10 {
        return Err(NetworkStatError::ConvertErr);
    }
    let local_span = fields[1];
    let remote_span = fields[2];
    let inode_span = fields[9];
    let local = match parse_socket_end(slice_subrange(line, local_span.0, local_span.1), v6) {
        Ok(end) => end,
        Err(e) => {
            return Err(e);
        },
    };
    let remote = match parse_socket_end(slice_subrange(line, remote_span.0, remote_span.1), v6) {
        Ok(end) => end,
        Err(e) => {
            return Err(e);
        },
    };
    if local.0.is_unspecified() || remote.0.is_unspecified() {
        return Ok(None);
    }
    match parse_decimal(slice_subrange(line, inode_span.0, inode_span.1), usize::MAX as u128) {
        Err(kind) => Err(NetworkStatError::ParseIntErr(kind)),
        Ok(inode) => Ok(
            Some((Inode(inode), Connection::new(local.0, local.1, remote.0, remote.1, conn_type))),
        ),
    }
}


/// The socket that each data line of a socket table maps, in line order, from
/// the first `count` lines of the text. Line 0 is the heading. A line that
/// does not parse, or that shows an all-zero address, maps nothing and is
/// passed over.
pub open spec fn socket_entries_upto(
    text: Seq<u8>,
    v6: bool,
    conn_type: ConnectionType,
    count: int,
) -> Seq<(Inode, Connection)>
    decreases count,
{
    if count <= 1 {
        Seq::empty()
    } else {
        let before = socket_entries_upto(text, v6, conn_type, count - 1);
        match socket_line(span_bytes(text, lines(text)[count - 1]), v6, conn_type) {
            Ok(Some(entry)) => before.push(entry),
            _ => before,
        }
    }
}

/// The sockets that a socket table maps, in line order.
pub open spec fn socket_entries(text: Seq<u8>, v6: bool, conn_type: ConnectionType) -> Seq<
    (Inode, Connection),
> {
    socket_entries_upto(text, v6, conn_type, lines(text).len() as int)
}

/// A table of sockets by the number of their inode once `entries` are
/// entered in it, in order: where an inode is entered more than once, the
/// last entry stands.
pub open spec fn sockets_entered(table: Map<u128, Connection>, entries: Seq<(Inode, Connection)>) -> Map<
    u128,
    Connection,
>
    decreases entries.len(),
{
    if entries.len() == 0 {
        table
    } else {
        sockets_entered(table, entries.drop_last()).insert(entries.last().0.0, entries.last().1)
    }
}

/// The connection that a table of sockets holds for `inode`.
pub open spec fn connection_of(table: Map<u128, Connection>, inode: Inode) -> Option<Connection> {
    if table.contains_key(inode.0) {
        Some(table[inode.0])
    } else {
        None
    }
}

/// The interface name that a table holds for `connection`: where a connection
/// was entered more than once, the last entry stands.
pub open spec fn interface_name_of(table: Seq<(Connection, String)>, connection: Connection) -> Option<
    Seq<char>,
>
    decreases table.len(),
{
    if table.len() == 0 {
        None
    } else if table.last().0 == connection {
        Some(table.last().1@)
    } else {
        interface_name_of(table.drop_last(), connection)
    }
}

/// The interface names attributed to connections, as plain values.
pub open spec fn names_view(table: Seq<(Connection, String)>) -> Seq<(Connection, Seq<char>)> {
    table.map_values(|entry: (Connection, String)| (entry.0, entry.1@))
}

/// For each socket, in order, the name of the first interface that covers its
/// local address; a socket that no interface covers is left out.
pub open spec fn attributed(entries: Seq<(Inode, Connection)>, devices: Seq<InterfaceInfo>) -> Seq<
    (Connection, Seq<char>),
>
    decreases entries.len(),
{
    if entries.len() == 0 {
        Seq::empty()
    } else {
        let before = attributed(entries.drop_last(), devices);
        match covering_interface(devices, entries.last().1.local_addr, 0) {
            Some(d) => before.push((entries.last().1, devices[d].name@)),
            None => before,
        }
    }
}

/// The position of the first interface named `iname`, from `from` on.
pub open spec fn irawstat_position(stats: Seq<InterfaceRawStat>, iname: Seq<char>, from: int) -> Option<
    int,
>
    decreases stats.len() - from,
{
    if from < 0 || from >= stats.len() {
        None
    } else if stats[from].iname@ == iname {
        Some(from)
    } else {
        irawstat_position(stats, iname, from + 1)
    }
}

/// No two interfaces of the sequence have one name.
pub open spec fn distinct_names(stats: Seq<InterfaceRawStat>) -> bool {
    forall|i: int, j: int| 0 <= i < j < stats.len() ==> stats[i].iname@ != stats[j].iname@
}

/// The first interface of a name stands within the sequence and has that
/// name, and no interface before it has; where there is none, no interface
/// has the name.
pub proof fn lemma_irawstat_position(stats: Seq<InterfaceRawStat>, iname: Seq<char>, from: int)
    requires
        0 <= from,
    ensures
        irawstat_position(stats, iname, from) matches Some(i) ==> from <= i < stats.len()
            && stats[i].iname@ == iname && forall|j: int|
            from <= j < i ==> (#[trigger] stats[j]).iname@ != iname,
        irawstat_position(stats, iname, from) is None ==> forall|j: int|
            from <= j < stats.len() ==> (#[trigger] stats[j]).iname@ != iname,
    decreases stats.len() - from,
{
    if from < stats.len() && stats[from].iname@ != iname {
        lemma_irawstat_position(stats, iname, from + 1);
    }
}

/// One snapshot of the capture engine: the sockets of the host by inode, the
/// interface of each connection, and the flows seen on each interface.
#[derive(Debug)]
pub struct NetworkRawStat {
    /// The connection of each socket, by the number of its inode.
    pub conn_lookup_table: HashMap<u128, Connection>,
    /// The interface of each connection. A connection is a structure, so
    /// this is a list in which the last entry of a connection stands.
    pub iname_lookup_table: Vec<(Connection, String)>,
    /// The flows of each interface. A name is a string, so this is a list in
    /// which each name stands once.
    pub irawstats: Vec<InterfaceRawStat>,
}

impl NetworkRawStat {
    /// The flows of each interface are well formed, and no two interfaces
    /// have one name.
    pub open spec fn wf(&self) -> bool {
        &&& forall|i: int| 0 <= i < self.irawstats@.len() ==> (#[trigger] self.irawstats@[i]).wf()
        &&& distinct_names(self.irawstats@)
    }

    /// Tests whether the snapshot is well formed.
    pub fn is_wf(&self) -> (r: bool)
        ensures
            r == self.wf(),
    {
        let mut j: usize = 0;
        while j < self.irawstats.len()
            invariant
                j <= self.irawstats@.len(),
                forall|a: int| 0 <= a < j ==> (#[trigger] self.irawstats@[a]).wf(),
                forall|a: int, b: int|
                    0 <= a < b < j ==> self.irawstats@[a].iname@ != self.irawstats@[b].iname@,
            decreases self.irawstats.len() - j,
        {
            if !self.irawstats[j].is_wf() {
                return false;
            }
            let mut i: usize = 0;
            while i < j
                invariant
                    i <= j < self.irawstats@.len(),
                    forall|a: int|
                        0 <= a < i ==> self.irawstats@[a].iname@ != self.irawstats@[j as int].iname@,
                decreases j - i,
            {
                if self.irawstats[i].iname == self.irawstats[j].iname {
                    return false;
                }
                i = i + 1;
            }
            j = j + 1;
        }
        true
    }

    pub fn new() -> (r: Self)
        ensures
            r.wf(),
            r.conn_lookup_table@ == Map::<u128, Connection>::empty(),
            r.iname_lookup_table@.len() == 0,
            r.irawstats@.len() == 0,
    {
        Self {
            conn_lookup_table: HashMap::new(),
            iname_lookup_table: Vec::new(),
            irawstats: Vec::new(),
        }
    }

    pub fn lookup_connection(&self, inode: &Inode) -> (r: Option<Connection>)
        ensures
            r == connection_of(self.conn_lookup_table@, *inode),
    {
        broadcast use vstd::std_specs::hash::group_hash_axioms;

        match self.conn_lookup_table.get(&inode.0) {
            Some(connection) => Some(*connection),
            None => None,
        }
    }

    pub fn lookup_interface_name(&self, connection: &Connection) -> (r: Option<&str>)
        ensures
            r matches Some(name) ==> interface_name_of(self.iname_lookup_table@, *connection)
                == Some(name@),
            r is None ==> interface_name_of(self.iname_lookup_table@, *connection) is None,
    {
        let mut i: usize = self.iname_lookup_table.len();
        assert(self.iname_lookup_table@.subrange(0, i as int) =~= self.iname_lookup_table@);
        while i > 0
            invariant
                i <= self.iname_lookup_table@.len(),
                interface_name_of(self.iname_lookup_table@, *connection) == interface_name_of(
                    self.iname_lookup_table@.subrange(0, i as int),
                    *connection,
                ),
            decreases i,
        {
            let ghost upto = self.iname_lookup_table@.subrange(0, i as int);
            assert(upto.drop_last() =~= self.iname_lookup_table@.subrange(0, i - 1));
            if self.iname_lookup_table[i - 1].0 == *connection {
                return Some(self.iname_lookup_table[i - 1].1.as_str());
            }
            i = i - 1;
        }
        None
    }

    /// The flows of the interface named `iname`, to look up in and to mark.
    pub fn get_irawstat(&mut self, iname: &String) -> (r: Option<&mut InterfaceRawStat>)
        ensures
            match r {
                Some(found) => irawstat_position(old(self).irawstats@, iname@, 0) matches Some(i) && 0
                    <= i < old(self).irawstats@.len() && *found == old(self).irawstats@[i] && final(self).irawstats@ == old(self).irawstats@.update(i, *final(found)),
                None => irawstat_position(old(self).irawstats@, iname@, 0) is None && final(self).irawstats@ == old(self).irawstats@,
            },
            final(self).conn_lookup_table == old(self).conn_lookup_table,
            final(self).iname_lookup_table == old(self).iname_lookup_table,
    {
        let mut i: usize = 0;
        while i < self.irawstats.len()
            invariant
                i <= self.irawstats@.len(),
                *self == *old(self),
                irawstat_position(self.irawstats@, iname@, 0) == irawstat_position(
                    self.irawstats@,
                    iname@,
                    i as int,
                ),
            decreases self.irawstats.len() - i,
        {
            if self.irawstats[i].iname == *iname {
                return Some(&mut self.irawstats[i]);
            }
            i = i + 1;
        }
        None
    }

    /// Enters the flows of one interface into the snapshot. They take the
    /// place of the flows that the snapshot held under the same name, if it
    /// held any; otherwise they come at the end.
    pub fn add_irawstat(&mut self, irawstat: InterfaceRawStat)
        requires
            old(self).wf(),
            irawstat.wf(),
        ensures
            final(self).wf(),
            final(self).irawstats@ == (match irawstat_position(
                old(self).irawstats@,
                irawstat.iname@,
                0,
            ) {
                Some(i) => old(self).irawstats@.update(i, irawstat),
                None => old(self).irawstats@.push(irawstat),
            }),
            final(self).conn_lookup_table == old(self).conn_lookup_table,
            final(self).iname_lookup_table == old(self).iname_lookup_table,
    {
        let mut i: usize = 0;
        while i < self.irawstats.len()
            invariant
                i <= self.irawstats@.len(),
                *self == *old(self),
                self.wf(),
                irawstat.wf(),
                irawstat_position(self.irawstats@, irawstat.iname@, 0) == irawstat_position(
                    self.irawstats@,
                    irawstat.iname@,
                    i as int,
                ),
            decreases self.irawstats.len() - i,
        {
            if self.irawstats[i].iname == irawstat.iname {
                let ghost before = self.irawstats@;
                self.irawstats.set(i, irawstat);
                proof {
                    assert forall|a: int, b: int|
                        0 <= a < b < self.irawstats@.len() implies self.irawstats@[a].iname@
                        != self.irawstats@[b].iname@ by {
                        assert(before[a].iname@ != before[b].iname@);
                    }
                }
                return ;
            }
            i = i + 1;
        }
        proof {
            lemma_irawstat_position(self.irawstats@, irawstat.iname@, 0);
        }
        self.irawstats.push(irawstat);
    }

    /// Reads one socket table into the snapshot: each socket that a data line
    /// maps is entered under its inode, and its connection under the name of
    /// the first interface that covers its local address, if one does.
    pub fn add_socket_table(
        &mut self,
        text: &[u8],
        v6: bool,
        conn_type: ConnectionType,
        devices: &Vec<InterfaceInfo>,
    )
        ensures
            final(self).conn_lookup_table@ == sockets_entered(
                old(self).conn_lookup_table@,
                socket_entries(text@, v6, conn_type),
            ),
            names_view(final(self).iname_lookup_table@) == names_view(
                old(self).iname_lookup_table@,
            ) + attributed(socket_entries(text@, v6, conn_type), devices@),
            final(self).irawstats == old(self).irawstats,
    {
        broadcast use vstd::std_specs::hash::group_hash_axioms;

        let found = split_lines(text);
        let ghost conns = self.conn_lookup_table@;
        let ghost names = names_view(self.iname_lookup_table@);
        let mut k: usize = 1;
        assert(names_view(self.iname_lookup_table@) =~= names + attributed(
            socket_entries_upto(text@, v6, conn_type, 1),
            devices@,
        ));
        while k < found.len()
            invariant
                1 <= k,
                crate::text::spans_are(found@, lines(text@)),
                forall|j: int|
                    0 <= j < found@.len() ==> (#[trigger] found@[j]).0 <= found@[j].1 <= text@.len(),
                self.irawstats == old(self).irawstats,
                self.conn_lookup_table@ == sockets_entered(
                    conns,
                    socket_entries_upto(
                        text@,
                        v6,
                        conn_type,
                        (if k <= found@.len() {
                            k as int
                        } else {
                            found@.len() as int
                        }),
                    ),
                ),
                names_view(self.iname_lookup_table@) == names + attributed(
                    socket_entries_upto(
                        text@,
                        v6,
                        conn_type,
                        (if k <= found@.len() {
                            k as int
                        } else {
                            found@.len() as int
                        }),
                    ),
                    devices@,
                ),
            decreases found.len() - k,
        {
            let span = found[k];
            let ghost before = socket_entries_upto(text@, v6, conn_type, k as int);
            let ghost names_before = names_view(self.iname_lookup_table@);
            match parse_socket_line(slice_subrange(text, span.0, span.1), v6, conn_type) {
                Ok(Some(entry)) => {
                    let _ = self.conn_lookup_table.insert(entry.0.0, entry.1);
                    let ghost after = before.push(entry);
                    proof {
                        assert(socket_entries_upto(text@, v6, conn_type, k + 1) == after);
                        assert(after.drop_last() =~= before);
                        assert(self.conn_lookup_table@ == sockets_entered(conns, after));
                    }
                    match interface_of(devices, &entry.1.local_addr) {
                        Some(d) => {
                            let name = devices[d].name.clone();
                            self.iname_lookup_table.push((entry.1, name));
                            proof {
                                assert(names_view(self.iname_lookup_table@) =~= names_before.push(
                                    (entry.1, devices@[d as int].name@),
                                ));
                                assert(names_view(self.iname_lookup_table@) =~= names + attributed(
                                    after,
                                    devices@,
                                ));
                            }
                        },
                        None => {},
                    }
                },
                _ => {
                    assert(socket_entries_upto(text@, v6, conn_type, k + 1) == before);
                },
            }
            k = k + 1;
        }
        proof {
            if found@.len() == 0 {
                assert(socket_entries(text@, v6, conn_type) == socket_entries_upto(
                    text@,
                    v6,
                    conn_type,
                    1,
                ));
            }
        }
    }

    /// The sweep at the end of a cycle: every flow that was attributed leaves
    /// the snapshot, so that none is reported twice; the flows that no socket
    /// claimed stay for a later cycle.
    pub fn remove_unused_uni_connection_stats(&mut self)
        requires
            old(self).wf(),
        ensures
            final(self).wf(),
            final(self).conn_lookup_table == old(self).conn_lookup_table,
            final(self).iname_lookup_table == old(self).iname_lookup_table,
            final(self).irawstats@.len() == old(self).irawstats@.len(),
            forall|i: int|
                0 <= i < final(self).irawstats@.len() ==> swept(
                    old(self).irawstats@[i],
                    #[trigger] final(self).irawstats@[i],
                ),
    {
        let mut i: usize = 0;
        while i < self.irawstats.len()
            invariant
                i <= self.irawstats@.len(),
                self.wf(),
                self.conn_lookup_table == old(self).conn_lookup_table,
                self.iname_lookup_table == old(self).iname_lookup_table,
                self.irawstats@.len() == old(self).irawstats@.len(),
                forall|j: int|
                    0 <= j < i ==> swept(old(self).irawstats@[j], #[trigger] self.irawstats@[j]),
                forall|j: int|
                    i <= j < self.irawstats@.len() ==> (#[trigger] self.irawstats@[j]) == old(self).irawstats@[j],
            decreases self.irawstats.len() - i,
        {
            self.irawstats[i].remove_used_uni_conn_stats();
            i = i + 1;
        }
    }
}

/// What the sweep makes of one interface: the same interface with every flow
/// that was marked as used taken out, and so with no marked flow left.
pub open spec fn swept(before: InterfaceRawStat, after: InterfaceRawStat) -> bool {
    &&& after.iname == before.iname
    &&& after.description == before.description
    &&& after.uni_conn_stats@ == before.uni_conn_stats@.remove_keys(
        Set::new(
            |key: UniConnection|
                before.uni_conn_stats@.contains_key(key) && before.uni_conn_stats@[key].is_used,
        ),
    )
    &&& forall|key: UniConnection|
        after.uni_conn_stats@.contains_key(key) ==> !after.uni_conn_stats@[key].is_used
}


/// Every socket that was entered is found under its inode, and one with no
/// later entry of the same inode is found as it was entered.
pub proof fn lemma_connection_of_entry(
    table: Map<u128, Connection>,
    entries: Seq<(Inode, Connection)>,
    i: int,
)
    requires
        0 <= i < entries.len(),
    ensures
        connection_of(sockets_entered(table, entries), entries[i].0) is Some,
        (forall|j: int| i < j < entries.len() ==> (#[trigger] entries[j]).0 != entries[i].0)
            ==> connection_of(sockets_entered(table, entries), entries[i].0) == Some(entries[i].1),
    decreases entries.len(),
{
    if i < entries.len() - 1 {
        lemma_connection_of_entry(table, entries.drop_last(), i);
        if forall|j: int| i < j < entries.len() ==> (#[trigger] entries[j]).0 != entries[i].0 {
            assert forall|j: int| i < j < entries.drop_last().len() implies (
            #[trigger] entries.drop_last()[j]).0 != entries.drop_last()[i].0 by {
                assert(entries[j].0 != entries[i].0);
            }
            assert(entries[entries.len() - 1].0 != entries[i].0);
        }
    }
}

/// A socket that was not entered is found as the table held it before.
pub proof fn lemma_connection_of_other(
    table: Map<u128, Connection>,
    entries: Seq<(Inode, Connection)>,
    inode: Inode,
)
    requires
        forall|j: int| 0 <= j < entries.len() ==> (#[trigger] entries[j]).0 != inode,
    ensures
        connection_of(sockets_entered(table, entries), inode) == connection_of(table, inode),
    decreases entries.len(),
{
    if entries.len() > 0 {
        assert forall|j: int| 0 <= j < entries.drop_last().len() implies (
        #[trigger] entries.drop_last()[j]).0 != inode by {
            assert(entries[j].0 != inode);
        }
        lemma_connection_of_other(table, entries.drop_last(), inode);
        assert(entries[entries.len() - 1].0 != inode);
    }
}

/// Each data line of a socket table with a non-zero address at both ends has
/// its socket among the entries of the table.
proof fn lemma_socket_entry_present(
    text: Seq<u8>,
    v6: bool,
    conn_type: ConnectionType,
    k: int,
    count: int,
)
    requires
        1 <= k < count <= lines(text).len(),
        socket_line(span_bytes(text, lines(text)[k]), v6, conn_type) matches Ok(Some(_)),
    ensures
        exists|i: int|
            0 <= i < socket_entries_upto(text, v6, conn_type, count).len() && Ok::<
                Option<(Inode, Connection)>,
                NetworkStatError,
            >(Some(#[trigger] socket_entries_upto(text, v6, conn_type, count)[i])) == socket_line(
                span_bytes(text, lines(text)[k]),
                v6,
                conn_type,
            ),
    decreases count,
{
    let all = socket_entries_upto(text, v6, conn_type, count);
    let before = socket_entries_upto(text, v6, conn_type, count - 1);
    if k == count - 1 {
        assert(all == before.push(all.last()));
        assert(Ok::<Option<(Inode, Connection)>, NetworkStatError>(Some(all[all.len() - 1]))
            == socket_line(span_bytes(text, lines(text)[k]), v6, conn_type));
    } else {
        lemma_socket_entry_present(text, v6, conn_type, k, count - 1);
        let i = choose|i: int|
            0 <= i < before.len() && Ok::<Option<(Inode, Connection)>, NetworkStatError>(
                Some(#[trigger] before[i]),
            ) == socket_line(span_bytes(text, lines(text)[k]), v6, conn_type);
        assert(all[i] == before[i]);
    }
}

/// Every data line of a socket table that shows a non-zero address at both
/// ends gives its inode a connection in a table that the socket table was
/// read into, whatever the table held before.
pub proof fn lemma_socket_line_is_mapped(
    table: Map<u128, Connection>,
    text: Seq<u8>,
    v6: bool,
    conn_type: ConnectionType,
    k: int,
)
    requires
        1 <= k < lines(text).len(),
        socket_line(span_bytes(text, lines(text)[k]), v6, conn_type) matches Ok(Some(_)),
    ensures
        connection_of(
            sockets_entered(table, socket_entries(text, v6, conn_type)),
            socket_line(span_bytes(text, lines(text)[k]), v6, conn_type).unwrap().unwrap().0,
        ) is Some,
{
    lemma_socket_entry_present(text, v6, conn_type, k, lines(text).len() as int);
    let all = socket_entries(text, v6, conn_type);
    let i = choose|i: int|
        0 <= i < all.len() && Ok::<Option<(Inode, Connection)>, NetworkStatError>(
            Some(#[trigger] all[i]),
        ) == socket_line(span_bytes(text, lines(text)[k]), v6, conn_type);
    lemma_connection_of_entry(table, all, i);
}


/// Whether one of the names is `name`.
pub open spec fn is_monitored(monitored: Seq<String>, name: Seq<char>) -> bool {
    exists|i: int| 0 <= i < monitored.len() && (#[trigger] monitored[i])@ == name
}

fn name_is_monitored(monitored: &Vec<String>, name: &String) -> (r: bool)
    ensures
        r == is_monitored(monitored@, name@),
{
    let mut i: usize = 0;
    while i < monitored.len()
        invariant
            i <= monitored@.len(),
            forall|j: int| 0 <= j < i ==> (#[trigger] monitored@[j])@ != name@,
        decreases monitored.len() - i,
    {
        if monitored[i] == *name {
            return true;
        }
        i = i + 1;
    }
    false
}

/// The interfaces of the host that have no capture task yet: the positions,
/// in scan order, of those whose name is not among the names monitored. An
/// interface that is monitored but no longer present is left to its task.
pub fn interfaces_to_start(monitored: &Vec<String>, present: &Vec<InterfaceInfo>) -> (r: Vec<usize>)
    ensures
        forall|k: int| 0 <= k < r@.len() ==> (#[trigger] r@[k]) < present@.len() && !is_monitored(
            monitored@,
            present@[r@[k] as int].name@,
        ),
        forall|k: int, l: int| 0 <= k < l < r@.len() ==> r@[k] < r@[l],
        forall|d: int|
            0 <= d < present@.len() && !is_monitored(monitored@, (#[trigger] present@[d]).name@)
                ==> r@.contains(d as usize),
{
    let mut out: Vec<usize> = Vec::new();
    let mut d: usize = 0;
    while d < present.len()
        invariant
            d <= present@.len(),
            forall|k: int|
                0 <= k < out@.len() ==> (#[trigger] out@[k]) < d && !is_monitored(
                    monitored@,
                    present@[out@[k] as int].name@,
                ),
            forall|k: int, l: int| 0 <= k < l < out@.len() ==> out@[k] < out@[l],
            forall|e: int|
                0 <= e < d && !is_monitored(monitored@, (#[trigger] present@[e]).name@)
                    ==> out@.contains(e as usize),
        decreases present.len() - d,
    {
        if !name_is_monitored(monitored, &present[d].name) {
            let ghost before = out@;
            out.push(d);
            proof {
                assert(out@[before.len() as int] == d);
                assert forall|e: int|
                    0 <= e < d + 1 && !is_monitored(
                        monitored@,
                        (#[trigger] present@[e]).name@,
                    ) implies out@.contains(e as usize) by {
                    if e < d {
                        let k = choose|k: int| 0 <= k < before.len() && before[k] == e as usize;
                        assert(out@[k] == e as usize);
                    }
                }
            }
        }
        d = d + 1;
    }
    out
}


/// Every stat of a table of flows stands under the key that it holds.
pub proof fn lemma_flow_map_keys(s: Seq<UniConnectionStat>)
    ensures
        forall|key: UniConnection|
            flow_map(s).contains_key(key) ==> (#[trigger] flow_map(s)[key]).uni_conn == key,
{
}

/// Every socket that a socket table maps has an address at both ends that is not all-zero.
pub proof fn lemma_socket_entries_have_addresses(
    text: Seq<u8>,
    v6: bool,
    conn_type: ConnectionType,
    count: int,
)
    ensures
        forall|i: int|
            0 <= i < socket_entries_upto(text, v6, conn_type, count).len() ==> {
                let connection = (#[trigger] socket_entries_upto(text, v6, conn_type, count)[i]).1;
                &&& connection.local_addr != IpAddress::V4(0)
                &&& connection.local_addr != IpAddress::V6(0)
                &&& connection.remote_addr != IpAddress::V4(0)
                &&& connection.remote_addr != IpAddress::V6(0)
            },
    decreases count,
{
    if count > 1 {
        lemma_socket_entries_have_addresses(text, v6, conn_type, count - 1);
    }
}

} // verus!
