//! Generic netlink: the family header, attributes and the control family.
use crate::common::{lemma_next_aligned, next_align_num, next_aligned, Endian};
use crate::netlink::{NetlinkAttributeHeader, NetlinkError, NetlinkMessageAttributeType};
use crate::netlink::{NetlinkMessagePayload, NetlinkMessageType, NETLINK_ATTRIBUTE_HEADER_LENGTH};
use crate::wire::{lemma_pow256_values, lemma_uint_round_trip, read_uint, uint_bytes, uint_value};
use crate::text::{string_from_utf8, utf8_valid_prefix_len};
use vstd::prelude::*;
use vstd::string::*;
use vstd::utf8::{decode_utf8, encode_utf8, valid_utf8};
use vstd::slice::slice_subrange;

verus! {

/// The header of a generic-netlink payload: command, version and two reserved bytes.
#[derive(Clone, Copy, Debug, PartialEq, Eq, Structural)]
pub struct GenericNetlinkMessageHeader {
    pub command: u8,
    pub version: u8,
    pub reserved: u16,
}

/// The size of the family header in bytes.
pub const GENERIC_HEADER_LENGTH: usize = 4;

/// The alignment of attributes within a payload.
pub const ATTRIBUTE_ALIGN: usize = 4;

/// The version that messages built here carry.
pub const GENERIC_NETLINK_VERSION: usize = 2;

impl GenericNetlinkMessageHeader {
    pub fn New(command: u8, version: u8) -> (r: Self)
        ensures
            r == (GenericNetlinkMessageHeader { command, version, reserved: 0 }),
    {
        Self { command, version, reserved: 0 }
    }

    /// The four bytes of the header.
    pub open spec fn wire(self, endian: Endian) -> Seq<u8> {
        seq![self.command, self.version] + uint_bytes(self.reserved as nat, 2, endian)
    }

    pub fn ToByteArray(&self, endian: Endian) -> (r: Vec<u8>)
        ensures
            r@ == self.wire(endian),
            r@.len() == GENERIC_HEADER_LENGTH,
    {
        let mut result: Vec<u8> = Vec::new();
        result.push(self.command);
        result.push(self.version);
        crate::wire::append_uint(&mut result, self.reserved as u128, 2, endian);
        proof {
            crate::wire::lemma_le_bytes_len(self.reserved as nat, 2);
            assert(result@ =~= self.wire(endian));
        }
        result
    }

    /// Reads the header from the start of `buf`. Fewer than four bytes are a
    /// header error that carries them.
    pub fn FromByteArray(buf: &[u8], endian: Endian) -> (r: Result<Self, GenericError>)
        ensures
            buf@.len() < GENERIC_HEADER_LENGTH ==> (r matches Err(GenericError::HEADER_ERROR(bytes))
                && bytes@ == buf@),
            buf@.len() >= GENERIC_HEADER_LENGTH ==> (r matches Ok(header) && header == (
            GenericNetlinkMessageHeader {
                command: buf@[0],
                version: buf@[1],
                reserved: uint_value(buf@.subrange(2, 4), endian) as u16,
            })),
    {
        if buf.len() < GENERIC_HEADER_LENGTH {
            return Err(GenericError::HEADER_ERROR(vstd::slice::slice_to_vec(buf)));
        }
        proof {
            lemma_pow256_values();
        }
        Ok(Self { command: buf[0], version: buf[1], reserved: read_uint(buf, 2, 2, endian) as u16 })
    }
}

#[derive(Clone, Copy, Debug, PartialEq, Eq, Structural)]
pub struct GenericNetlinkMessageCommand(pub u8);

impl GenericNetlinkMessageCommand {
    pub fn New(value: u8) -> (r: Self)
        ensures
            r.0 == value,
    {
        Self(value)
    }

    pub fn to_u8(self) -> (r: u8)
        ensures
            r == self.0,
    {
        self.0
    }
}

/// The type of a generic-netlink message: the id of its family.
#[derive(Clone, Copy, Debug, PartialEq, Eq, Structural)]
pub struct GenericNetlinkMessageType(pub u16);

impl GenericNetlinkMessageType {
    pub fn New(value: u16) -> (r: Self)
        ensures
            r.0 == value,
    {
        Self(value)
    }

    pub fn to_u16(self) -> (r: u16)
        ensures
            r == self.0,
    {
        self.0
    }

    pub fn to_message_type(self) -> (r: NetlinkMessageType)
        ensures
            r.0 == self.0,
    {
        NetlinkMessageType::new(self.0)
    }
}

#[derive(Clone, Copy, Debug, PartialEq, Eq, Structural)]
pub struct GenericNetlinkMessageAttributeType(pub u16);

impl GenericNetlinkMessageAttributeType {
    pub fn New(value: u16) -> (r: Self)
        ensures
            r.0 == value,
    {
        Self(value)
    }

    pub fn to_u16(self) -> (r: u16)
        ensures
            r == self.0,
    {
        self.0
    }

    /// The two bytes of the type.
    pub fn ToByteArray(&self, endian: Endian) -> (r: Vec<u8>)
        ensures
            r@ == uint_bytes(self.0 as nat, 2, endian),
    {
        let mut result: Vec<u8> = Vec::new();
        crate::wire::append_uint(&mut result, self.0 as u128, 2, endian);
        assert(result@ =~= uint_bytes(self.0 as nat, 2, endian));
        result
    }

    pub fn to_attribute_type(self) -> (r: NetlinkMessageAttributeType)
        ensures
            r.0 == self.0,
    {
        NetlinkMessageAttributeType::new(self.0)
    }
}

/// An attribute as plain values: its type and the bytes it carries.
pub struct AttributeView {
    pub attr_type: u16,
    pub payload: Seq<u8>,
}

/// One attribute of a generic-netlink message.
#[derive(Debug)]
pub struct GenericNetlinkMessageAttribute {
    pub attributeType: GenericNetlinkMessageAttributeType,
    pub payload: Vec<u8>,
}

impl View for GenericNetlinkMessageAttribute {
    type V = AttributeView;

    open spec fn view(&self) -> AttributeView {
        AttributeView { attr_type: self.attributeType.0, payload: self.payload@ }
    }
}

/// The largest payload whose length, with the header, fits the 16-bit length field.
pub const MAX_ATTRIBUTE_PAYLOAD: usize = 0xffff - 4;

/// The attribute on the wire: length, type, payload.
pub open spec fn attribute_wire(attr: AttributeView, endian: Endian) -> Seq<u8> {
    uint_bytes((attr.payload.len() + NETLINK_ATTRIBUTE_HEADER_LENGTH) as nat, 2, endian)
        + uint_bytes(attr.attr_type as nat, 2, endian) + attr.payload
}

/// The attribute that `buf`, one whole attribute, holds: the type in bytes 2
/// and 3, and everything after the header as payload.
pub open spec fn attribute_parsed(buf: Seq<u8>, endian: Endian) -> Option<AttributeView> {
    if buf.len() < NETLINK_ATTRIBUTE_HEADER_LENGTH {
        None
    } else {
        Some(
            AttributeView {
                attr_type: uint_value(buf.subrange(2, 4), endian) as u16,
                payload: buf.subrange(NETLINK_ATTRIBUTE_HEADER_LENGTH as int, buf.len() as int),
            },
        )
    }
}

fn copy_bytes(data: &[u8], from: usize, to: usize) -> (r: Vec<u8>)
    requires
        from <= to <= data.len(),
    ensures
        r@ == data@.subrange(from as int, to as int),
{
    vstd::slice::slice_to_vec(slice_subrange(data, from, to))
}

fn append_bytes(buf: &mut Vec<u8>, data: &[u8])
    ensures
        final(buf)@ == old(buf)@ + data@,
{
    let ghost before = buf@;
    let mut i: usize = 0;
    while i < data.len()
        invariant
            i <= data@.len(),
            buf@ == before + data@.subrange(0, i as int),
        decreases data.len() - i,
    {
        buf.push(data[i]);
        assert(buf@ =~= before + data@.subrange(0, i + 1));
        i = i + 1;
    }
    assert(data@.subrange(0, data@.len() as int) =~= data@);
}

impl GenericNetlinkMessageAttribute {
    pub fn New(attributeType: GenericNetlinkMessageAttributeType, payload: Vec<u8>) -> (r: Self)
        ensures
            r.attributeType == attributeType,
            r.payload == payload,
    {
        Self { attributeType, payload }
    }

    pub fn Type(&self) -> (r: GenericNetlinkMessageAttributeType)
        ensures
            r == self.attributeType,
    {
        self.attributeType
    }

    /// Whether the length of the attribute fits its 16-bit length field.
    pub fn fits_wire(&self) -> (r: bool)
        ensures
            r == (self.payload@.len() <= MAX_ATTRIBUTE_PAYLOAD),
    {
        self.payload.len() <= MAX_ATTRIBUTE_PAYLOAD
    }

    pub fn ToByteArray(&self, endian: Endian) -> (r: Vec<u8>)
        requires
            self.payload@.len() <= MAX_ATTRIBUTE_PAYLOAD,
        ensures
            r@ == attribute_wire(self@, endian),
    {
        let header = NetlinkAttributeHeader::new(
            self.payload.len(),
            self.attributeType.to_attribute_type(),
        );
        let mut result = header.to_byte_array(endian);
        append_bytes(&mut result, self.payload.as_slice());
        result
    }

    /// Reads one attribute from `buf`, which holds it whole. Fewer than the
    /// four header bytes are an attribute header error.
    pub fn FromByteArray(buf: &[u8], endian: Endian) -> (r: Result<Self, GenericError>)
        ensures
            match r {
                Ok(attr) => attribute_parsed(buf@, endian) == Some(attr@),
                Err(e) => attribute_parsed(buf@, endian) is None && e matches GenericError::NETLINK_ERROR(
                    NetlinkError::AttrHeaderErr,
                ),
            },
    {
        if buf.len() < NETLINK_ATTRIBUTE_HEADER_LENGTH {
            return Err(GenericError::NETLINK_ERROR(NetlinkError::AttrHeaderErr));
        }
        proof {
            lemma_pow256_values();
        }
        let attributeType = GenericNetlinkMessageAttributeType::New(
            read_uint(buf, 2, 2, endian) as u16,
        );
        Ok(Self { attributeType, payload: copy_bytes(buf, 4, buf.len()) })
    }

    /// A copy of the attribute.
    pub fn duplicate(&self) -> (r: Self)
        ensures
            r@ == self@,
    {
        let payload = copy_bytes(self.payload.as_slice(), 0, self.payload.len());
        assert(payload@ =~= self.payload@);
        Self { attributeType: self.attributeType, payload }
    }
}

/// The attributes of a list as plain values.
pub open spec fn attribute_views(attrs: Seq<GenericNetlinkMessageAttribute>) -> Seq<AttributeView> {
    attrs.map_values(|attr: GenericNetlinkMessageAttribute| attr@)
}

/// `count` zero bytes.
pub open spec fn zeros(count: nat) -> Seq<u8> {
    Seq::new(count, |i: int| 0u8)
}

/// The bytes that stand for `attrs` after `at` bytes of a payload: before each
/// attribute, zero bytes up to the next multiple of four.
pub open spec fn attributes_wire(at: nat, attrs: Seq<AttributeView>, endian: Endian) -> Seq<u8>
    decreases attrs.len(),
{
    if attrs.len() == 0 {
        Seq::empty()
    } else {
        let start = next_aligned(at, ATTRIBUTE_ALIGN as nat);
        let first = attribute_wire(attrs[0], endian);
        zeros((start - at) as nat) + first + attributes_wire(
            start + first.len(),
            attrs.drop_first(),
            endian,
        )
    }
}

/// The attributes that `buf` holds from `at` on. Each starts with its length,
/// which counts its header, and the next starts at the next multiple of four
/// after it. An attribute whose header or declared length passes the end of
/// `buf`, or whose length is below that of its header, makes the list malformed.
pub open spec fn attributes_parsed(buf: Seq<u8>, at: int, endian: Endian) -> Option<
    Seq<AttributeView>,
>
    decreases
            (if at <= buf.len() {
                buf.len() - at
            } else {
                0
            }),
    via attributes_parsed_decreases
{
    if at < 0 || at >= buf.len() {
        Some(Seq::empty())
    } else if at + NETLINK_ATTRIBUTE_HEADER_LENGTH > buf.len() {
        None
    } else {
        let size = uint_value(buf.subrange(at, at + 2), endian);
        if size < NETLINK_ATTRIBUTE_HEADER_LENGTH || at + size > buf.len() {
            None
        } else {
            match (
                attribute_parsed(buf.subrange(at, at + size), endian),
                attributes_parsed(
                    buf,
                    next_aligned((at + size) as nat, ATTRIBUTE_ALIGN as nat) as int,
                    endian,
                ),
            ) {
                (Some(first), Some(rest)) => Some(seq![first] + rest),
                _ => None,
            }
        }
    }
}

#[via_fn]
proof fn attributes_parsed_decreases(buf: Seq<u8>, at: int, endian: Endian) {
    if 0 <= at && at + NETLINK_ATTRIBUTE_HEADER_LENGTH <= buf.len() {
        let size = uint_value(buf.subrange(at, at + 2), endian);
        lemma_next_aligned((at + size) as nat, ATTRIBUTE_ALIGN as nat);
    }
}

/// Rounding up to a multiple of four adds what the remainder lacks.
pub proof fn lemma_next_aligned_4(n: nat)
    ensures
        next_aligned(n, 4) == n + (4 - n % 4) % 4,
{
}

/// A generic-netlink message as plain values.
pub struct GenericMessageView {
    pub message_type: u16,
    pub command: u8,
    pub attributes: Seq<AttributeView>,
}

/// The payload of a netlink message in the generic family.
#[derive(Debug)]
pub struct GenericNetlinkMessage {
    pub messageType: GenericNetlinkMessageType,
    pub command: GenericNetlinkMessageCommand,
    pub attributes: Vec<GenericNetlinkMessageAttribute>,
}

impl View for GenericNetlinkMessage {
    type V = GenericMessageView;

    open spec fn view(&self) -> GenericMessageView {
        GenericMessageView {
            message_type: self.messageType.0,
            command: self.command.0,
            attributes: attribute_views(self.attributes@),
        }
    }
}

/// The payload on the wire: the family header, then the attributes.
pub open spec fn generic_wire(message: GenericMessageView, endian: Endian) -> Seq<u8> {
    (GenericNetlinkMessageHeader {
        command: message.command,
        version: GENERIC_NETLINK_VERSION as u8,
        reserved: 0,
    }).wire(endian) + attributes_wire(GENERIC_HEADER_LENGTH as nat, message.attributes, endian)
}

/// The message of the given type that a payload holds, if its attributes are well formed.
pub open spec fn generic_parsed(buf: Seq<u8>, message_type: u16, endian: Endian) -> Option<
    GenericMessageView,
> {
    if buf.len() < GENERIC_HEADER_LENGTH {
        None
    } else {
        match attributes_parsed(buf, GENERIC_HEADER_LENGTH as int, endian) {
            Some(attributes) => Some(GenericMessageView { message_type, command: buf[0], attributes }),
            None => None,
        }
    }
}

/// Every attribute is short enough for its length field.
pub open spec fn attributes_fit(attrs: Seq<AttributeView>) -> bool {
    forall|i: int| 0 <= i < attrs.len() ==> (#[trigger] attrs[i]).payload.len() <= MAX_ATTRIBUTE_PAYLOAD
}

impl GenericNetlinkMessage {
    pub fn New(messageType: GenericNetlinkMessageType, command: GenericNetlinkMessageCommand) -> (r:
        Self)
        ensures
            r.messageType == messageType,
            r.command == command,
            r.attributes@.len() == 0,
    {
        Self { messageType, command, attributes: Vec::new() }
    }

    pub fn MessageType(&self) -> (r: GenericNetlinkMessageType)
        ensures
            r == self.messageType,
    {
        self.messageType
    }

    pub fn Command(&self) -> (r: GenericNetlinkMessageCommand)
        ensures
            r == self.command,
    {
        self.command
    }

    pub fn AddAttribute(&mut self, attribute: GenericNetlinkMessageAttribute)
        ensures
            final(self).messageType == old(self).messageType,
            final(self).command == old(self).command,
            final(self).attributes@ == old(self).attributes@.push(attribute),
    {
        self.attributes.push(attribute);
    }

    /// Whether every attribute fits its length field.
    pub fn fits_wire(&self) -> (r: bool)
        ensures
            r == attributes_fit(self@.attributes),
    {
        let mut i: usize = 0;
        while i < self.attributes.len()
            invariant
                i <= self.attributes@.len(),
                forall|j: int|
                    0 <= j < i ==> (#[trigger] self@.attributes[j]).payload.len()
                        <= MAX_ATTRIBUTE_PAYLOAD,
            decreases self.attributes.len() - i,
        {
            if !self.attributes[i].fits_wire() {
                assert(self@.attributes[i as int].payload.len() > MAX_ATTRIBUTE_PAYLOAD);
                return false;
            }
            i = i + 1;
        }
        true
    }

    pub fn ToByteArray(&self, endian: Endian) -> (r: Vec<u8>)
        requires
            attributes_fit(self@.attributes),
            self@.attributes.len() * 0x1_0004 + GENERIC_HEADER_LENGTH <= usize::MAX,
        ensures
            r@ == generic_wire(self@, endian),
    {
        let header = GenericNetlinkMessageHeader::New(
            self.command.to_u8(),
            GENERIC_NETLINK_VERSION as u8,
        );
        let mut result = header.ToByteArray(endian);
        let ghost head = result@;
        let ghost views = self@.attributes;
        let mut i: usize = 0;
        assert(views.subrange(0, views.len() as int) =~= views);
        while i < self.attributes.len()
            invariant
                i <= self.attributes@.len(),
                views == self@.attributes,
                attributes_fit(views),
                views.len() * 0x1_0004 + GENERIC_HEADER_LENGTH <= usize::MAX,
                result@.len() <= GENERIC_HEADER_LENGTH + i * 0x1_0004,
                result@ + attributes_wire(
                    result@.len(),
                    views.subrange(i as int, views.len() as int),
                    endian,
                ) == head + attributes_wire(GENERIC_HEADER_LENGTH as nat, views, endian),
            decreases self.attributes.len() - i,
        {
            let ghost before = result@;
            let ghost left = views.subrange(i as int, views.len() as int);
            proof {
                lemma_next_aligned(before.len(), ATTRIBUTE_ALIGN as nat);
                assert(i * 0x1_0004 + 0x1_0004 <= views.len() * 0x1_0004) by (nonlinear_arith)
                    requires
                        i < views.len(),
                ;
            }
            crate::common::align_buffer(&mut result, ATTRIBUTE_ALIGN);
            let ghost padded = result@;
            assert(views[i as int] == self.attributes@[i as int]@);
            let mut encoded = self.attributes[i].ToByteArray(endian);
            proof {
                crate::wire::lemma_le_bytes_len(
                    (views[i as int].payload.len() + NETLINK_ATTRIBUTE_HEADER_LENGTH) as nat,
                    2,
                );
                crate::wire::lemma_le_bytes_len(views[i as int].attr_type as nat, 2);
            }
            append_bytes(&mut result, encoded.as_slice());
            proof {
                let start = next_aligned(before.len(), ATTRIBUTE_ALIGN as nat);
                let first = attribute_wire(left[0], endian);
                assert(left[0] == views[i as int]);
                assert(padded =~= before + zeros((start - before.len()) as nat));
                assert(left.drop_first() =~= views.subrange(i + 1, views.len() as int));
                let rest = attributes_wire(start + first.len(), left.drop_first(), endian);
                assert(result@ + rest =~= before + (zeros((start - before.len()) as nat) + first
                    + rest));
            }
            i = i + 1;
        }
        assert(views.subrange(views.len() as int, views.len() as int) =~= Seq::<
            AttributeView,
        >::empty());
        assert(result@ =~= head + attributes_wire(GENERIC_HEADER_LENGTH as nat, views, endian));
        result
    }

    /// Reads the payload of a message of the given type. A payload shorter
    /// than the family header is a header error that carries it; a malformed
    /// attribute is an attribute header error.
    pub fn FromByteArray(buf: &[u8], messageType: GenericNetlinkMessageType, endian: Endian) -> (r:
        Result<Self, GenericError>)
        ensures
            match r {
                Ok(message) => generic_parsed(buf@, messageType.0, endian) == Some(message@),
                Err(GenericError::HEADER_ERROR(bytes)) => buf@.len() < GENERIC_HEADER_LENGTH
                    && bytes@ == buf@,
                Err(GenericError::NETLINK_ERROR(NetlinkError::AttrHeaderErr)) => buf@.len()
                    >= GENERIC_HEADER_LENGTH && generic_parsed(buf@, messageType.0, endian) is None,
                Err(_) => false,
            },
    {
        let header = match GenericNetlinkMessageHeader::FromByteArray(buf, endian) {
            Ok(header) => header,
            Err(e) => {
                return Err(e);
            },
        };
        let mut message = GenericNetlinkMessage::New(
            messageType,
            GenericNetlinkMessageCommand::New(header.command),
        );
        let mut at: usize = GENERIC_HEADER_LENGTH;
        let ghost whole = attributes_parsed(buf@, GENERIC_HEADER_LENGTH as int, endian);
        while at < buf.len()
            invariant
                GENERIC_HEADER_LENGTH <= at,
                buf@.len() >= GENERIC_HEADER_LENGTH,
                message.messageType == messageType,
                message.command.0 == buf@[0],
                whole == attributes_parsed(buf@, GENERIC_HEADER_LENGTH as int, endian),
                whole == (match attributes_parsed(buf@, at as int, endian) {
                    Some(rest) => Some(message@.attributes + rest),
                    None => None,
                }),
            decreases buf.len() - at,
        {
            if buf.len() - at < NETLINK_ATTRIBUTE_HEADER_LENGTH {
                return Err(GenericError::NETLINK_ERROR(NetlinkError::AttrHeaderErr));
            }
            proof {
                lemma_pow256_values();
            }
            let size = read_uint(buf, at, 2, endian) as usize;
            if size < NETLINK_ATTRIBUTE_HEADER_LENGTH || size > buf.len() - at {
                return Err(GenericError::NETLINK_ERROR(NetlinkError::AttrHeaderErr));
            }
            let attribute = match GenericNetlinkMessageAttribute::FromByteArray(
                slice_subrange(buf, at, at + size),
                endian,
            ) {
                Ok(attribute) => attribute,
                Err(e) => {
                    return Err(GenericError::NETLINK_ERROR(NetlinkError::AttrHeaderErr));
                },
            };
            let ghost seen = message@.attributes;
            let ghost first = attribute@;
            message.AddAttribute(attribute);
            proof {
                lemma_next_aligned((at + size) as nat, ATTRIBUTE_ALIGN as nat);
                assert(message@.attributes =~= seen.push(first));
                let next = next_aligned((at + size) as nat, ATTRIBUTE_ALIGN as nat) as int;
                match attributes_parsed(buf@, next, endian) {
                    Some(rest) => {
                        assert(seen + (seq![first] + rest) =~= seen.push(first) + rest);
                    },
                    None => {},
                }
            }
            if buf.len() - (at + size) < ATTRIBUTE_ALIGN {
                proof {
                    let next = next_aligned((at + size) as nat, ATTRIBUTE_ALIGN as nat) as int;
                    if next < buf@.len() {
                        assert(attributes_parsed(buf@, next, endian) is None);
                    } else {
                        assert(attributes_parsed(buf@, next, endian) == Some(
                            Seq::<AttributeView>::empty(),
                        ));
                        assert(message@.attributes + Seq::<AttributeView>::empty()
                            =~= message@.attributes);
                    }
                }
                proof {
                    lemma_next_aligned_4((at + size) as nat);
                }
                let pad = (ATTRIBUTE_ALIGN - (at + size) % ATTRIBUTE_ALIGN) % ATTRIBUTE_ALIGN;
                if pad < buf.len() - (at + size) {
                    return Err(GenericError::NETLINK_ERROR(NetlinkError::AttrHeaderErr));
                }
                return Ok(message);
            }
            at = next_align_num(at + size, ATTRIBUTE_ALIGN);
        }
        proof {
            assert(message@.attributes + Seq::<AttributeView>::empty() =~= message@.attributes);
        }
        Ok(message)
    }
}

/// The encoded attributes take at most three bytes of padding and the full
/// attribute size each.
pub proof fn lemma_attributes_wire_len(at: nat, attrs: Seq<AttributeView>, endian: Endian)
    requires
        attributes_fit(attrs),
    ensures
        attributes_wire(at, attrs, endian).len() <= attrs.len() * 0x1_0004,
        attrs.len() > 0 ==> attributes_wire(at, attrs, endian).len() >= NETLINK_ATTRIBUTE_HEADER_LENGTH,
    decreases attrs.len(),
{
    if attrs.len() > 0 {
        let start = next_aligned(at, ATTRIBUTE_ALIGN as nat);
        lemma_next_aligned(at, ATTRIBUTE_ALIGN as nat);
        let first = attribute_wire(attrs[0], endian);
        crate::wire::lemma_le_bytes_len(
            (attrs[0].payload.len() + NETLINK_ATTRIBUTE_HEADER_LENGTH) as nat,
            2,
        );
        crate::wire::lemma_le_bytes_len(attrs[0].attr_type as nat, 2);
        assert(attributes_fit(attrs.drop_first())) by {
            assert forall|i: int| 0 <= i < attrs.drop_first().len() implies (#[trigger] attrs.drop_first()[i]).payload.len()
                <= MAX_ATTRIBUTE_PAYLOAD by {
                assert(attrs.drop_first()[i] == attrs[i + 1]);
            }
        }
        lemma_attributes_wire_len(start + first.len(), attrs.drop_first(), endian);
        assert(attrs.len() * 0x1_0004 == (attrs.len() - 1) * 0x1_0004 + 0x1_0004) by (nonlinear_arith);
    }
}

/// A generic payload is at least its header and at most that and the full size of each attribute.
pub proof fn lemma_generic_wire_len(message: GenericMessageView, endian: Endian)
    requires
        attributes_fit(message.attributes),
    ensures
        GENERIC_HEADER_LENGTH <= generic_wire(message, endian).len() <= GENERIC_HEADER_LENGTH
            + message.attributes.len() * 0x1_0004,
{
    crate::wire::lemma_le_bytes_len(0, 2);
    lemma_attributes_wire_len(GENERIC_HEADER_LENGTH as nat, message.attributes, endian);
}

/// Attributes that were written after a prefix are read back as they were,
/// from the first multiple of four at or after the end of the prefix.
#[verifier::rlimit(40)]
pub proof fn lemma_attributes_round_trip(
    prefix: Seq<u8>,
    attrs: Seq<AttributeView>,
    endian: Endian,
)
    requires
        attributes_fit(attrs),
    ensures
        attributes_parsed(
            prefix + attributes_wire(prefix.len(), attrs, endian),
            next_aligned(prefix.len(), ATTRIBUTE_ALIGN as nat) as int,
            endian,
        ) == Some(attrs),
    decreases attrs.len(),
{
    let buf = prefix + attributes_wire(prefix.len(), attrs, endian);
    let at = next_aligned(prefix.len(), ATTRIBUTE_ALIGN as nat) as int;
    lemma_next_aligned(prefix.len(), ATTRIBUTE_ALIGN as nat);
    if attrs.len() > 0 {
        let first = attribute_wire(attrs[0], endian);
        let size = (attrs[0].payload.len() + NETLINK_ATTRIBUTE_HEADER_LENGTH) as int;
        let rest = attributes_wire((at + first.len()) as nat, attrs.drop_first(), endian);
        let grown = prefix + zeros((at - prefix.len()) as nat) + first;
        lemma_pow256_values();
        lemma_uint_round_trip(size as nat, 2, endian);
        lemma_uint_round_trip(attrs[0].attr_type as nat, 2, endian);
        assert(first.len() == size);
        assert(buf =~= grown + rest);
        assert(buf.subrange(at, at + 2) =~= uint_bytes(size as nat, 2, endian));
        let whole = buf.subrange(at, at + size);
        assert(whole =~= first);
        assert(whole.subrange(2, 4) =~= uint_bytes(attrs[0].attr_type as nat, 2, endian));
        assert(whole.subrange(NETLINK_ATTRIBUTE_HEADER_LENGTH as int, whole.len() as int)
            =~= attrs[0].payload);
        assert(attributes_fit(attrs.drop_first())) by {
            assert forall|i: int| 0 <= i < attrs.drop_first().len() implies (#[trigger] attrs.drop_first()[i]).payload.len()
                <= MAX_ATTRIBUTE_PAYLOAD by {
                assert(attrs.drop_first()[i] == attrs[i + 1]);
            }
        }
        lemma_attributes_round_trip(grown, attrs.drop_first(), endian);
        assert(grown.len() == at + size);
        assert(seq![attrs[0]] + attrs.drop_first() =~= attrs);
    } else {
        assert(buf =~= prefix);
    }
}

/// A generic-netlink payload that was written is read back as the message it was written from.
pub proof fn lemma_generic_round_trip(message: GenericMessageView, endian: Endian)
    requires
        attributes_fit(message.attributes),
    ensures
        generic_parsed(generic_wire(message, endian), message.message_type, endian) == Some(message),
{
    let header = (GenericNetlinkMessageHeader {
        command: message.command,
        version: GENERIC_NETLINK_VERSION as u8,
        reserved: 0,
    }).wire(endian);
    crate::wire::lemma_le_bytes_len(0, 2);
    assert(header.len() == GENERIC_HEADER_LENGTH);
    lemma_attributes_round_trip(header, message.attributes, endian);
    lemma_next_aligned(GENERIC_HEADER_LENGTH as nat, ATTRIBUTE_ALIGN as nat);
    assert(generic_wire(message, endian)[0] == message.command);
}

#[derive(Debug)]
pub enum GenericError {
    NETLINK_ERROR(NetlinkError),
    HEADER_ERROR(Vec<u8>),
    CONTROL_MESSAGE_ERROR(GenericNetlinkMessage),
    UNKNOWN_CONTROL_COMMAND(GenericNetlinkMessageCommand),
    UNSUPPORTED_CONTROL_ATTRIBUTE_TYPE(GenericNetlinkControlMessageAttributeType),
    UNKNOWN_ATTRIBUTE_TYPE(GenericNetlinkMessageAttributeType),
    OP_ATTRIBUTE_ERROR(Vec<u8>),
    OP_ATTRIBUTE_COMPONENT_ERROR(Vec<u8>),
    UNIMPLEMENTED_NETLINK_MESSAGE_PAYLOAD(NetlinkMessagePayload),
    /// Text that is not UTF-8, with the length of its longest valid prefix.
    UTF8_ERROR(usize),
}


// ---------------------------------------------------------------------------
// The control family

/// The commands of the control family, which answers for the other families.
#[derive(Clone, Copy, Debug, PartialEq, Eq, Structural)]
pub enum GenericNetlinkControlMessageCommand {
    UNSPECIFIED,
    NEW_FAMILY,
    DELETE_FAMILY,
    GET_FAMILY_ID,
    NEW_OPERATION,
    DELETE_OPERATION,
    GET_OPERATION,
    NEW_MULTICAST_GROUP,
    DELETE_MULTICAST_GROUP,
    GET_MULTICAST_GROUP,
    GET_POLICY,
}

impl GenericNetlinkControlMessageCommand {
    /// The number of the command on the wire.
    pub open spec fn number(self) -> u8 {
        match self {
            GenericNetlinkControlMessageCommand::UNSPECIFIED => 0,
            GenericNetlinkControlMessageCommand::NEW_FAMILY => 1,
            GenericNetlinkControlMessageCommand::DELETE_FAMILY => 2,
            GenericNetlinkControlMessageCommand::GET_FAMILY_ID => 3,
            GenericNetlinkControlMessageCommand::NEW_OPERATION => 4,
            GenericNetlinkControlMessageCommand::DELETE_OPERATION => 5,
            GenericNetlinkControlMessageCommand::GET_OPERATION => 6,
            GenericNetlinkControlMessageCommand::NEW_MULTICAST_GROUP => 7,
            GenericNetlinkControlMessageCommand::DELETE_MULTICAST_GROUP => 8,
            GenericNetlinkControlMessageCommand::GET_MULTICAST_GROUP => 9,
            GenericNetlinkControlMessageCommand::GET_POLICY => 10,
        }
    }

    pub fn to_command(self) -> (r: GenericNetlinkMessageCommand)
        ensures
            r.0 == self.number(),
    {
        GenericNetlinkMessageCommand::New(
            match self {
                GenericNetlinkControlMessageCommand::UNSPECIFIED => 0,
                GenericNetlinkControlMessageCommand::NEW_FAMILY => 1,
                GenericNetlinkControlMessageCommand::DELETE_FAMILY => 2,
                GenericNetlinkControlMessageCommand::GET_FAMILY_ID => 3,
                GenericNetlinkControlMessageCommand::NEW_OPERATION => 4,
                GenericNetlinkControlMessageCommand::DELETE_OPERATION => 5,
                GenericNetlinkControlMessageCommand::GET_OPERATION => 6,
                GenericNetlinkControlMessageCommand::NEW_MULTICAST_GROUP => 7,
                GenericNetlinkControlMessageCommand::DELETE_MULTICAST_GROUP => 8,
                GenericNetlinkControlMessageCommand::GET_MULTICAST_GROUP => 9,
                GenericNetlinkControlMessageCommand::GET_POLICY => 10,
            },
        )
    }

    /// The control command with the number of `command`; a number above ten names none.
    pub fn try_from(command: GenericNetlinkMessageCommand) -> (r: Result<Self, GenericError>)
        ensures
            command.0 <= 10 ==> (r matches Ok(c) && c.number() == command.0),
            command.0 > 10 ==> (r matches Err(GenericError::UNKNOWN_CONTROL_COMMAND(c)) && c
                == command),
    {
        match command.0 {
            0 => Ok(GenericNetlinkControlMessageCommand::UNSPECIFIED),
            1 => Ok(GenericNetlinkControlMessageCommand::NEW_FAMILY),
            2 => Ok(GenericNetlinkControlMessageCommand::DELETE_FAMILY),
            3 => Ok(GenericNetlinkControlMessageCommand::GET_FAMILY_ID),
            4 => Ok(GenericNetlinkControlMessageCommand::NEW_OPERATION),
            5 => Ok(GenericNetlinkControlMessageCommand::DELETE_OPERATION),
            6 => Ok(GenericNetlinkControlMessageCommand::GET_OPERATION),
            7 => Ok(GenericNetlinkControlMessageCommand::NEW_MULTICAST_GROUP),
            8 => Ok(GenericNetlinkControlMessageCommand::DELETE_MULTICAST_GROUP),
            9 => Ok(GenericNetlinkControlMessageCommand::GET_MULTICAST_GROUP),
            10 => Ok(GenericNetlinkControlMessageCommand::GET_POLICY),
            _ => Err(GenericError::UNKNOWN_CONTROL_COMMAND(command)),
        }
    }
}

/// The types of the attributes of the control family.
#[derive(Clone, Copy, Debug, PartialEq, Eq, Structural)]
pub enum GenericNetlinkControlMessageAttributeType {
    UNSPECIFIED,
    FAMILY_ID,
    FAMILY_NAME,
    VERSION,
    HEADER_SIZE,
    MAX_ATTRIBUTE,
    /// A list of nested attributes, one for each operation.
    OPS,
    MULTICAST_GROUPS,
    POLICY,
    OP_POLICY,
    OP,
}

impl GenericNetlinkControlMessageAttributeType {
    /// The number of the type on the wire.
    pub open spec fn number(self) -> u16 {
        match self {
            GenericNetlinkControlMessageAttributeType::UNSPECIFIED => 0,
            GenericNetlinkControlMessageAttributeType::FAMILY_ID => 1,
            GenericNetlinkControlMessageAttributeType::FAMILY_NAME => 2,
            GenericNetlinkControlMessageAttributeType::VERSION => 3,
            GenericNetlinkControlMessageAttributeType::HEADER_SIZE => 4,
            GenericNetlinkControlMessageAttributeType::MAX_ATTRIBUTE => 5,
            GenericNetlinkControlMessageAttributeType::OPS => 6,
            GenericNetlinkControlMessageAttributeType::MULTICAST_GROUPS => 7,
            GenericNetlinkControlMessageAttributeType::POLICY => 8,
            GenericNetlinkControlMessageAttributeType::OP_POLICY => 9,
            GenericNetlinkControlMessageAttributeType::OP => 10,
        }
    }

    pub fn to_attribute_type(self) -> (r: GenericNetlinkMessageAttributeType)
        ensures
            r.0 == self.number(),
    {
        GenericNetlinkMessageAttributeType::New(
            match self {
                GenericNetlinkControlMessageAttributeType::UNSPECIFIED => 0,
                GenericNetlinkControlMessageAttributeType::FAMILY_ID => 1,
                GenericNetlinkControlMessageAttributeType::FAMILY_NAME => 2,
                GenericNetlinkControlMessageAttributeType::VERSION => 3,
                GenericNetlinkControlMessageAttributeType::HEADER_SIZE => 4,
                GenericNetlinkControlMessageAttributeType::MAX_ATTRIBUTE => 5,
                GenericNetlinkControlMessageAttributeType::OPS => 6,
                GenericNetlinkControlMessageAttributeType::MULTICAST_GROUPS => 7,
                GenericNetlinkControlMessageAttributeType::POLICY => 8,
                GenericNetlinkControlMessageAttributeType::OP_POLICY => 9,
                GenericNetlinkControlMessageAttributeType::OP => 10,
            },
        )
    }

    /// The control attribute type with the number of `attribute_type`; a number above ten names none.
    pub fn try_from(attribute_type: GenericNetlinkMessageAttributeType) -> (r: Result<
        Self,
        GenericError,
    >)
        ensures
            attribute_type.0 <= 10 ==> (r matches Ok(t) && t.number() == attribute_type.0),
            attribute_type.0 > 10 ==> (r matches Err(GenericError::UNKNOWN_ATTRIBUTE_TYPE(t)) && t
                == attribute_type),
    {
        match attribute_type.0 {
            0 => Ok(GenericNetlinkControlMessageAttributeType::UNSPECIFIED),
            1 => Ok(GenericNetlinkControlMessageAttributeType::FAMILY_ID),
            2 => Ok(GenericNetlinkControlMessageAttributeType::FAMILY_NAME),
            3 => Ok(GenericNetlinkControlMessageAttributeType::VERSION),
            4 => Ok(GenericNetlinkControlMessageAttributeType::HEADER_SIZE),
            5 => Ok(GenericNetlinkControlMessageAttributeType::MAX_ATTRIBUTE),
            6 => Ok(GenericNetlinkControlMessageAttributeType::OPS),
            7 => Ok(GenericNetlinkControlMessageAttributeType::MULTICAST_GROUPS),
            8 => Ok(GenericNetlinkControlMessageAttributeType::POLICY),
            9 => Ok(GenericNetlinkControlMessageAttributeType::OP_POLICY),
            10 => Ok(GenericNetlinkControlMessageAttributeType::OP),
            _ => Err(GenericError::UNKNOWN_ATTRIBUTE_TYPE(attribute_type)),
        }
    }
}

/// One of the two nested attributes that describe an operation: its id or its flags.
#[derive(Clone, Copy, Debug, PartialEq, Eq, Structural)]
pub enum GenericNetlinkControlMessageOpAttributeComponent {
    UNSPECIFIED,
    ID(u32),
    FLAGS(u32),
}

/// The size of one component of an operation: a header and a 32-bit value.
pub const OP_COMPONENT_SIZE: usize = 8;

/// The size of the two components of an operation.
pub const OP_ATTRIBUTE_SIZE: usize = 16;

/// The component that eight bytes hold: the length, which must be eight, the
/// type, which must be zero, one or two, and the value.
pub open spec fn op_component_parsed(buf: Seq<u8>, endian: Endian) -> Option<
    GenericNetlinkControlMessageOpAttributeComponent,
> {
    let size = uint_value(buf.subrange(0, 2), endian);
    let kind = uint_value(buf.subrange(2, 4), endian);
    let value = uint_value(buf.subrange(4, 8), endian) as u32;
    if buf.len() < OP_COMPONENT_SIZE || size != OP_COMPONENT_SIZE {
        None
    } else if kind == 0 {
        Some(GenericNetlinkControlMessageOpAttributeComponent::UNSPECIFIED)
    } else if kind == 1 {
        Some(GenericNetlinkControlMessageOpAttributeComponent::ID(value))
    } else if kind == 2 {
        Some(GenericNetlinkControlMessageOpAttributeComponent::FLAGS(value))
    } else {
        None
    }
}

impl GenericNetlinkControlMessageOpAttributeComponent {
    /// Reads one component. What is no component is refused with its bytes.
    pub fn FromByteArray(buf: &[u8], endian: Endian) -> (r: Result<Self, GenericError>)
        ensures
            match r {
                Ok(component) => op_component_parsed(buf@, endian) == Some(component),
                Err(GenericError::OP_ATTRIBUTE_COMPONENT_ERROR(bytes)) => op_component_parsed(
                    buf@,
                    endian,
                ) is None && bytes@ == buf@,
                Err(_) => false,
            },
    {
        if buf.len() < OP_COMPONENT_SIZE {
            return Err(GenericError::OP_ATTRIBUTE_COMPONENT_ERROR(vstd::slice::slice_to_vec(buf)));
        }
        proof {
            lemma_pow256_values();
        }
        let size = read_uint(buf, 0, 2, endian) as usize;
        let kind = read_uint(buf, 2, 2, endian) as u16;
        if size != OP_COMPONENT_SIZE {
            return Err(GenericError::OP_ATTRIBUTE_COMPONENT_ERROR(vstd::slice::slice_to_vec(buf)));
        }
        let value = read_uint(buf, 4, 4, endian) as u32;
        match kind {
            0 => Ok(GenericNetlinkControlMessageOpAttributeComponent::UNSPECIFIED),
            1 => Ok(GenericNetlinkControlMessageOpAttributeComponent::ID(value)),
            2 => Ok(GenericNetlinkControlMessageOpAttributeComponent::FLAGS(value)),
            _ => Err(GenericError::OP_ATTRIBUTE_COMPONENT_ERROR(vstd::slice::slice_to_vec(buf))),
        }
    }
}

#[derive(Clone, Copy, Debug, PartialEq, Eq, Structural)]
pub enum GenericNetlinkControlMessageOpAttributeFlag {
    VALUE(u32),
}

impl GenericNetlinkControlMessageOpAttributeFlag {
    /// The flags of an operation, kept as the one word they come in.
    pub fn FromU32(value: u32) -> (r: Result<Vec<Self>, GenericError>)
        ensures
            r matches Ok(flags) && flags@ == seq![GenericNetlinkControlMessageOpAttributeFlag::VALUE(value)],
    {
        let mut flags: Vec<Self> = Vec::new();
        flags.push(GenericNetlinkControlMessageOpAttributeFlag::VALUE(value));
        Ok(flags)
    }
}

/// An operation as plain values: its id and its flag words.
pub struct OpView {
    pub id: u32,
    pub flags: Seq<u32>,
}

/// One operation that a family offers.
#[derive(Debug)]
pub struct GenericNetlinkControlMessageOpAttribute {
    pub id: u32,
    pub flags: Vec<GenericNetlinkControlMessageOpAttributeFlag>,
}

impl GenericNetlinkControlMessageOpAttribute {
    /// The operation holds its flags as one word.
    pub open spec fn wf(&self) -> bool {
        self.flags@.len() == 1
    }

    /// Tests whether the operation is well formed.
    pub fn is_wf(&self) -> (r: bool)
        ensures
            r == self.wf(),
    {
        self.flags.len() == 1
    }
}

impl View for GenericNetlinkControlMessageOpAttribute {
    type V = OpView;

    open spec fn view(&self) -> OpView {
        OpView {
            id: self.id,
            flags: self.flags@.map_values(
                |flag: GenericNetlinkControlMessageOpAttributeFlag|
                    match flag {
                        GenericNetlinkControlMessageOpAttributeFlag::VALUE(word) => word,
                    },
            ),
        }
    }
}

/// How reading an operation can fail.
pub enum OpRefusal {
    /// The bytes are too short, or their components are not one id and one flag word.
    Op,
    /// The first component is none.
    First,
    /// The second component is none.
    Second,
}

/// The operation that sixteen bytes hold: an id and a flag word in either order.
pub open spec fn op_parsed(buf: Seq<u8>, endian: Endian) -> Result<OpView, OpRefusal> {
    if buf.len() < OP_ATTRIBUTE_SIZE {
        Err(OpRefusal::Op)
    } else {
        match op_component_parsed(buf.subrange(0, 8), endian) {
            None => Err(OpRefusal::First),
            Some(first) => match op_component_parsed(buf.subrange(8, 16), endian) {
                None => Err(OpRefusal::Second),
                Some(second) => match (first, second) {
                    (
                        GenericNetlinkControlMessageOpAttributeComponent::ID(id),
                        GenericNetlinkControlMessageOpAttributeComponent::FLAGS(flags),
                    ) => Ok(OpView { id, flags: seq![flags] }),
                    (
                        GenericNetlinkControlMessageOpAttributeComponent::FLAGS(flags),
                        GenericNetlinkControlMessageOpAttributeComponent::ID(id),
                    ) => Ok(OpView { id, flags: seq![flags] }),
                    _ => Err(OpRefusal::Op),
                },
            },
        }
    }
}

impl GenericNetlinkControlMessageOpAttribute {
    /// Reads one operation. Bytes that are no operation are refused with
    /// themselves, a component that is none with its own bytes.
    pub fn FromByteArray(buf: &[u8], endian: Endian) -> (r: Result<Self, GenericError>)
        ensures
            match r {
                Ok(op) => op.wf() && op_parsed(buf@, endian) == Ok::<OpView, OpRefusal>(op@),
                Err(GenericError::OP_ATTRIBUTE_ERROR(bytes)) => op_parsed(buf@, endian) == Err::<
                    OpView,
                    OpRefusal,
                >(OpRefusal::Op) && bytes@ == buf@,
                Err(GenericError::OP_ATTRIBUTE_COMPONENT_ERROR(bytes)) => (op_parsed(buf@, endian)
                    == Err::<OpView, OpRefusal>(OpRefusal::First) && bytes@ == buf@.subrange(0, 8))
                    || (op_parsed(buf@, endian) == Err::<OpView, OpRefusal>(OpRefusal::Second)
                    && bytes@ == buf@.subrange(8, 16)),
                Err(_) => false,
            },
    {
        if buf.len() < OP_ATTRIBUTE_SIZE {
            return Err(GenericError::OP_ATTRIBUTE_ERROR(vstd::slice::slice_to_vec(buf)));
        }
        let first = match GenericNetlinkControlMessageOpAttributeComponent::FromByteArray(
            slice_subrange(buf, 0, 8),
            endian,
        ) {
            Ok(component) => component,
            Err(e) => {
                return Err(e);
            },
        };
        let second = match GenericNetlinkControlMessageOpAttributeComponent::FromByteArray(
            slice_subrange(buf, 8, 16),
            endian,
        ) {
            Ok(component) => component,
            Err(e) => {
                return Err(e);
            },
        };
        match (first, second) {
            (
                GenericNetlinkControlMessageOpAttributeComponent::ID(id),
                GenericNetlinkControlMessageOpAttributeComponent::FLAGS(flags),
            ) => {
                let mut list: Vec<GenericNetlinkControlMessageOpAttributeFlag> = Vec::new();
                list.push(GenericNetlinkControlMessageOpAttributeFlag::VALUE(flags));
                let op = Self { id, flags: list };
                assert(op@.flags =~= seq![flags]);
                Ok(op)
            },
            (
                GenericNetlinkControlMessageOpAttributeComponent::FLAGS(flags),
                GenericNetlinkControlMessageOpAttributeComponent::ID(id),
            ) => {
                let mut list: Vec<GenericNetlinkControlMessageOpAttributeFlag> = Vec::new();
                list.push(GenericNetlinkControlMessageOpAttributeFlag::VALUE(flags));
                let op = Self { id, flags: list };
                assert(op@.flags =~= seq![flags]);
                Ok(op)
            },
            _ => Err(GenericError::OP_ATTRIBUTE_ERROR(vstd::slice::slice_to_vec(buf))),
        }
    }

    /// A copy of the operation.
    pub fn duplicate(&self) -> (r: Self)
        requires
            self.wf(),
        ensures
            r.wf(),
            r@ == self@,
    {
        let mut list: Vec<GenericNetlinkControlMessageOpAttributeFlag> = Vec::new();
        list.push(self.flags[0]);
        let copy = Self { id: self.id, flags: list };
        assert(copy@.flags =~= self@.flags);
        copy
    }
}


/// An attribute of the control family as plain values.
pub enum ControlAttributeView {
    Unspecified,
    FamilyName(Seq<char>),
    FamilyId(u16),
    Version(u32),
    HeaderSize(u32),
    MaxAttribute(u32),
    Ops(Seq<OpView>),
}

/// An attribute of the control family.
#[derive(Debug)]
pub enum GenericNetlinkControlMessageAttribute {
    UNSPECIFIED,
    FAMILY_NAME(String),
    FAMILY_ID(u16),
    VERSION(u32),
    HEADER_SIZE(u32),
    MAX_ATTRIBUTE(u32),
    OPS(Vec<GenericNetlinkControlMessageOpAttribute>),
}

/// The operations of a list as plain values.
pub open spec fn op_views(ops: Seq<GenericNetlinkControlMessageOpAttribute>) -> Seq<OpView> {
    ops.map_values(|op: GenericNetlinkControlMessageOpAttribute| op@)
}

impl View for GenericNetlinkControlMessageAttribute {
    type V = ControlAttributeView;

    open spec fn view(&self) -> ControlAttributeView {
        match self {
            GenericNetlinkControlMessageAttribute::UNSPECIFIED => ControlAttributeView::Unspecified,
            GenericNetlinkControlMessageAttribute::FAMILY_NAME(name) => ControlAttributeView::FamilyName(
                name@,
            ),
            GenericNetlinkControlMessageAttribute::FAMILY_ID(id) => ControlAttributeView::FamilyId(
                *id,
            ),
            GenericNetlinkControlMessageAttribute::VERSION(v) => ControlAttributeView::Version(*v),
            GenericNetlinkControlMessageAttribute::HEADER_SIZE(v) => ControlAttributeView::HeaderSize(
                *v,
            ),
            GenericNetlinkControlMessageAttribute::MAX_ATTRIBUTE(v) => ControlAttributeView::MaxAttribute(
                *v,
            ),
            GenericNetlinkControlMessageAttribute::OPS(ops) => ControlAttributeView::Ops(
                op_views(ops@),
            ),
        }
    }
}

/// The type of a control attribute.
pub open spec fn control_attribute_type(attr: ControlAttributeView) -> GenericNetlinkControlMessageAttributeType {
    match attr {
        ControlAttributeView::Unspecified => GenericNetlinkControlMessageAttributeType::UNSPECIFIED,
        ControlAttributeView::FamilyName(_) => GenericNetlinkControlMessageAttributeType::FAMILY_NAME,
        ControlAttributeView::FamilyId(_) => GenericNetlinkControlMessageAttributeType::FAMILY_ID,
        ControlAttributeView::Version(_) => GenericNetlinkControlMessageAttributeType::VERSION,
        ControlAttributeView::HeaderSize(_) => GenericNetlinkControlMessageAttributeType::HEADER_SIZE,
        ControlAttributeView::MaxAttribute(_) => GenericNetlinkControlMessageAttributeType::MAX_ATTRIBUTE,
        ControlAttributeView::Ops(_) => GenericNetlinkControlMessageAttributeType::OPS,
    }
}

/// The generic attribute that carries a control attribute: a name as its
/// UTF-8 bytes and a zero byte, a number in its bytes. A list of operations
/// has no encoding.
pub open spec fn control_attribute_encoded(attr: ControlAttributeView, endian: Endian) -> AttributeView
    recommends
        !(attr is Ops),
{
    AttributeView {
        attr_type: control_attribute_type(attr).number(),
        payload: match attr {
            ControlAttributeView::Unspecified => Seq::empty(),
            ControlAttributeView::FamilyName(name) => encode_utf8(name).push(0u8),
            ControlAttributeView::FamilyId(id) => uint_bytes(id as nat, 2, endian),
            ControlAttributeView::Version(v) => uint_bytes(v as nat, 4, endian),
            ControlAttributeView::HeaderSize(v) => uint_bytes(v as nat, 4, endian),
            ControlAttributeView::MaxAttribute(v) => uint_bytes(v as nat, 4, endian),
            ControlAttributeView::Ops(_) => Seq::empty(),
        },
    }
}

/// How reading a control attribute can fail.
pub enum ControlRefusal {
    /// The type is none of the control family.
    UnknownType,
    /// The type is of the control family, but attributes of it are not read.
    Unsupported,
    /// The payload is too short for what the type holds.
    TooShort,
    /// The name is not UTF-8; its longest valid prefix has this length.
    BadText(usize),
    /// These bytes are no operation, or no list of operations.
    Op(Seq<u8>),
    /// These bytes are no component of an operation.
    Component(Seq<u8>),
}

/// The operations that the payload of an OPS attribute holds from `at` on.
/// Each is nested in an attribute of its own, whose type is its position.
pub open spec fn ops_parsed(payload: Seq<u8>, at: int, endian: Endian) -> Result<
    Seq<OpView>,
    ControlRefusal,
>
    decreases
            (if at <= payload.len() {
                payload.len() - at
            } else {
                0
            }),
    via ops_parsed_decreases
{
    if at < 0 || at >= payload.len() {
        Ok(Seq::empty())
    } else if at + NETLINK_ATTRIBUTE_HEADER_LENGTH > payload.len() {
        Err(ControlRefusal::Op(payload))
    } else {
        let size = uint_value(payload.subrange(at, at + 2), endian);
        if size < NETLINK_ATTRIBUTE_HEADER_LENGTH || at + size > payload.len() {
            Err(ControlRefusal::Op(payload))
        } else {
            let nested = payload.subrange(at + NETLINK_ATTRIBUTE_HEADER_LENGTH, at + size);
            match op_parsed(nested, endian) {
                Err(OpRefusal::Op) => Err(ControlRefusal::Op(nested)),
                Err(OpRefusal::First) => Err(ControlRefusal::Component(nested.subrange(0, 8))),
                Err(OpRefusal::Second) => Err(ControlRefusal::Component(nested.subrange(8, 16))),
                Ok(op) => match ops_parsed(
                    payload,
                    next_aligned((at + size) as nat, ATTRIBUTE_ALIGN as nat) as int,
                    endian,
                ) {
                    Ok(rest) => Ok(seq![op] + rest),
                    Err(e) => Err(e),
                },
            }
        }
    }
}

#[via_fn]
proof fn ops_parsed_decreases(payload: Seq<u8>, at: int, endian: Endian) {
    if 0 <= at && at + NETLINK_ATTRIBUTE_HEADER_LENGTH <= payload.len() {
        let size = uint_value(payload.subrange(at, at + 2), endian);
        lemma_next_aligned((at + size) as nat, ATTRIBUTE_ALIGN as nat);
    }
}

/// The control attribute that a generic attribute carries.
pub open spec fn control_attribute_parsed(attr: AttributeView, endian: Endian) -> Result<
    ControlAttributeView,
    ControlRefusal,
> {
    let payload = attr.payload;
    if attr.attr_type > 10 {
        Err(ControlRefusal::UnknownType)
    } else if attr.attr_type == 2 {
        if payload.len() == 0 {
            Err(ControlRefusal::TooShort)
        } else if !valid_utf8(payload.drop_last()) {
            Err(ControlRefusal::BadText(utf8_valid_prefix_len(payload.drop_last()) as usize))
        } else {
            Ok(ControlAttributeView::FamilyName(decode_utf8(payload.drop_last())))
        }
    } else if attr.attr_type == 1 {
        if payload.len() < 2 {
            Err(ControlRefusal::TooShort)
        } else {
            Ok(ControlAttributeView::FamilyId(uint_value(payload.subrange(0, 2), endian) as u16))
        }
    } else if 3 <= attr.attr_type <= 5 {
        if payload.len() < 4 {
            Err(ControlRefusal::TooShort)
        } else {
            let value = uint_value(payload.subrange(0, 4), endian) as u32;
            Ok(
                if attr.attr_type == 3 {
                    ControlAttributeView::Version(value)
                } else if attr.attr_type == 4 {
                    ControlAttributeView::HeaderSize(value)
                } else {
                    ControlAttributeView::MaxAttribute(value)
                },
            )
        }
    } else if attr.attr_type == 6 {
        match ops_parsed(payload, 0, endian) {
            Ok(ops) => Ok(ControlAttributeView::Ops(ops)),
            Err(e) => Err(e),
        }
    } else {
        Err(ControlRefusal::Unsupported)
    }
}

/// The refusal that an error of reading a control attribute stands for.
pub open spec fn control_refusal_of(e: GenericError, attr: AttributeView) -> Option<ControlRefusal> {
    match e {
        GenericError::UNKNOWN_ATTRIBUTE_TYPE(t) => if t.0 == attr.attr_type {
            Some(ControlRefusal::UnknownType)
        } else {
            None
        },
        GenericError::UNSUPPORTED_CONTROL_ATTRIBUTE_TYPE(t) => if t.number() == attr.attr_type {
            Some(ControlRefusal::Unsupported)
        } else {
            None
        },
        GenericError::HEADER_ERROR(bytes) => if bytes@ == attr.payload {
            Some(ControlRefusal::TooShort)
        } else {
            None
        },
        GenericError::UTF8_ERROR(n) => Some(ControlRefusal::BadText(n)),
        GenericError::OP_ATTRIBUTE_ERROR(bytes) => Some(ControlRefusal::Op(bytes@)),
        GenericError::OP_ATTRIBUTE_COMPONENT_ERROR(bytes) => Some(ControlRefusal::Component(bytes@)),
        _ => None,
    }
}

/// What the result of reading a control attribute stands for.
pub open spec fn control_outcome(
    r: Result<GenericNetlinkControlMessageAttribute, GenericError>,
    attr: AttributeView,
) -> Option<Result<ControlAttributeView, ControlRefusal>> {
    match r {
        Ok(found) => Some(Ok(found@)),
        Err(e) => match control_refusal_of(e, attr) {
            Some(refusal) => Some(Err(refusal)),
            None => None,
        },
    }
}

impl GenericNetlinkControlMessageAttribute {
    /// Every operation of a list holds its flags as one word.
    pub open spec fn wf(&self) -> bool {
        self matches GenericNetlinkControlMessageAttribute::OPS(ops) ==> forall|i: int|
            0 <= i < ops@.len() ==> (#[trigger] ops@[i]).wf()
    }

    /// Tests whether the attribute is well formed.
    pub fn is_wf(&self) -> (r: bool)
        ensures
            r == self.wf(),
    {
        match self {
            GenericNetlinkControlMessageAttribute::OPS(ops) => {
                let mut i: usize = 0;
                while i < ops.len()
                    invariant
                        i <= ops@.len(),
                        *self matches GenericNetlinkControlMessageAttribute::OPS(held) && held
                            == *ops,
                        forall|j: int| 0 <= j < i ==> (#[trigger] ops@[j]).wf(),
                    decreases ops.len() - i,
                {
                    if !ops[i].is_wf() {
                        assert(!ops@[i as int].wf());
                        return false;
                    }
                    i = i + 1;
                }
                true
            },
            _ => true,
        }
    }

    pub fn Type(&self) -> (r: GenericNetlinkControlMessageAttributeType)
        ensures
            r == control_attribute_type(self@),
    {
        match self {
            GenericNetlinkControlMessageAttribute::UNSPECIFIED => GenericNetlinkControlMessageAttributeType::UNSPECIFIED,
            GenericNetlinkControlMessageAttribute::FAMILY_NAME(_) => GenericNetlinkControlMessageAttributeType::FAMILY_NAME,
            GenericNetlinkControlMessageAttribute::FAMILY_ID(_) => GenericNetlinkControlMessageAttributeType::FAMILY_ID,
            GenericNetlinkControlMessageAttribute::VERSION(_) => GenericNetlinkControlMessageAttributeType::VERSION,
            GenericNetlinkControlMessageAttribute::HEADER_SIZE(_) => GenericNetlinkControlMessageAttributeType::HEADER_SIZE,
            GenericNetlinkControlMessageAttribute::MAX_ATTRIBUTE(_) => GenericNetlinkControlMessageAttributeType::MAX_ATTRIBUTE,
            GenericNetlinkControlMessageAttribute::OPS(_) => GenericNetlinkControlMessageAttributeType::OPS,
        }
    }

    /// The generic attribute that carries this one. A list of operations is not written.
    pub fn to_attribute(&self, endian: Endian) -> (r: GenericNetlinkMessageAttribute)
        requires
            !(self is OPS),
        ensures
            r@ == control_attribute_encoded(self@, endian),
    {
        let attribute_type = self.Type().to_attribute_type();
        let mut payload: Vec<u8> = Vec::new();
        match self {
            GenericNetlinkControlMessageAttribute::FAMILY_NAME(name) => {
                append_bytes(&mut payload, name.as_str().as_bytes());
                payload.push(0u8);
                assert(payload@ =~= encode_utf8(name@).push(0u8));
            },
            GenericNetlinkControlMessageAttribute::FAMILY_ID(id) => {
                crate::wire::append_uint(&mut payload, *id as u128, 2, endian);
                assert(payload@ =~= uint_bytes(*id as nat, 2, endian));
            },
            GenericNetlinkControlMessageAttribute::VERSION(v) => {
                crate::wire::append_uint(&mut payload, *v as u128, 4, endian);
                assert(payload@ =~= uint_bytes(*v as nat, 4, endian));
            },
            GenericNetlinkControlMessageAttribute::HEADER_SIZE(v) => {
                crate::wire::append_uint(&mut payload, *v as u128, 4, endian);
                assert(payload@ =~= uint_bytes(*v as nat, 4, endian));
            },
            GenericNetlinkControlMessageAttribute::MAX_ATTRIBUTE(v) => {
                crate::wire::append_uint(&mut payload, *v as u128, 4, endian);
                assert(payload@ =~= uint_bytes(*v as nat, 4, endian));
            },
            _ => {},
        }
        GenericNetlinkMessageAttribute::New(attribute_type, payload)
    }

    /// Reads the control attribute that a generic attribute carries.
    pub fn try_from(attribute: &GenericNetlinkMessageAttribute, endian: Endian) -> (r: Result<
        Self,
        GenericError,
    >)
        ensures
            control_outcome(r, attribute@) == Some(control_attribute_parsed(attribute@, endian)),
            r matches Ok(found) ==> found.wf(),
    {
        let attribute_type = match GenericNetlinkControlMessageAttributeType::try_from(
            attribute.Type(),
        ) {
            Ok(t) => t,
            Err(e) => {
                return Err(e);
            },
        };
        let payload = attribute.payload.as_slice();
        proof {
            lemma_pow256_values();
        }
        match attribute_type {
            GenericNetlinkControlMessageAttributeType::FAMILY_NAME => {
                if payload.len() == 0 {
                    return Err(GenericError::HEADER_ERROR(vstd::slice::slice_to_vec(payload)));
                }
                assert(payload@.subrange(0, payload@.len() - 1) =~= payload@.drop_last());
                match string_from_utf8(slice_subrange(payload, 0, payload.len() - 1)) {
                    Ok(name) => Ok(GenericNetlinkControlMessageAttribute::FAMILY_NAME(name)),
                    Err(n) => Err(GenericError::UTF8_ERROR(n)),
                }
            },
            GenericNetlinkControlMessageAttributeType::FAMILY_ID => {
                if payload.len() < 2 {
                    return Err(GenericError::HEADER_ERROR(vstd::slice::slice_to_vec(payload)));
                }
                Ok(
                    GenericNetlinkControlMessageAttribute::FAMILY_ID(
                        read_uint(payload, 0, 2, endian) as u16,
                    ),
                )
            },
            GenericNetlinkControlMessageAttributeType::VERSION => {
                if payload.len() < 4 {
                    return Err(GenericError::HEADER_ERROR(vstd::slice::slice_to_vec(payload)));
                }
                Ok(
                    GenericNetlinkControlMessageAttribute::VERSION(
                        read_uint(payload, 0, 4, endian) as u32,
                    ),
                )
            },
            GenericNetlinkControlMessageAttributeType::HEADER_SIZE => {
                if payload.len() < 4 {
                    return Err(GenericError::HEADER_ERROR(vstd::slice::slice_to_vec(payload)));
                }
                Ok(
                    GenericNetlinkControlMessageAttribute::HEADER_SIZE(
                        read_uint(payload, 0, 4, endian) as u32,
                    ),
                )
            },
            GenericNetlinkControlMessageAttributeType::MAX_ATTRIBUTE => {
                if payload.len() < 4 {
                    return Err(GenericError::HEADER_ERROR(vstd::slice::slice_to_vec(payload)));
                }
                Ok(
                    GenericNetlinkControlMessageAttribute::MAX_ATTRIBUTE(
                        read_uint(payload, 0, 4, endian) as u32,
                    ),
                )
            },
            GenericNetlinkControlMessageAttributeType::OPS => {
                match read_ops(payload, endian) {
                    Ok(ops) => Ok(GenericNetlinkControlMessageAttribute::OPS(ops)),
                    Err(e) => Err(e),
                }
            },
            _ => Err(GenericError::UNSUPPORTED_CONTROL_ATTRIBUTE_TYPE(attribute_type)),
        }
    }

    /// A copy of the attribute.
    pub fn duplicate(&self) -> (r: Self)
        requires
            self.wf(),
        ensures
            r.wf(),
            r@ == self@,
    {
        match self {
            GenericNetlinkControlMessageAttribute::UNSPECIFIED => GenericNetlinkControlMessageAttribute::UNSPECIFIED,
            GenericNetlinkControlMessageAttribute::FAMILY_NAME(name) => GenericNetlinkControlMessageAttribute::FAMILY_NAME(
                name.clone(),
            ),
            GenericNetlinkControlMessageAttribute::FAMILY_ID(id) => GenericNetlinkControlMessageAttribute::FAMILY_ID(
                *id,
            ),
            GenericNetlinkControlMessageAttribute::VERSION(v) => GenericNetlinkControlMessageAttribute::VERSION(
                *v,
            ),
            GenericNetlinkControlMessageAttribute::HEADER_SIZE(v) => GenericNetlinkControlMessageAttribute::HEADER_SIZE(
                *v,
            ),
            GenericNetlinkControlMessageAttribute::MAX_ATTRIBUTE(v) => GenericNetlinkControlMessageAttribute::MAX_ATTRIBUTE(
                *v,
            ),
            GenericNetlinkControlMessageAttribute::OPS(ops) => {
                let mut copy: Vec<GenericNetlinkControlMessageOpAttribute> = Vec::new();
                let mut i: usize = 0;
                while i < ops.len()
                    invariant
                        i <= ops@.len(),
                        forall|j: int| 0 <= j < ops@.len() ==> (#[trigger] ops@[j]).wf(),
                        copy@.len() == i,
                        forall|j: int| 0 <= j < i ==> (#[trigger] copy@[j]).wf() && copy@[j]@ == ops@[j]@,
                    decreases ops.len() - i,
                {
                    copy.push(ops[i].duplicate());
                    i = i + 1;
                }
                assert(op_views(copy@) =~= op_views(ops@));
                GenericNetlinkControlMessageAttribute::OPS(copy)
            },
        }
    }
}

/// Reads the operations of an OPS attribute from its payload.
fn read_ops(payload: &[u8], endian: Endian) -> (r: Result<
    Vec<GenericNetlinkControlMessageOpAttribute>,
    GenericError,
>)
    ensures
        match r {
            Ok(ops) => ops_parsed(payload@, 0, endian) == Ok::<Seq<OpView>, ControlRefusal>(
                op_views(ops@),
            ) && forall|i: int| 0 <= i < ops@.len() ==> (#[trigger] ops@[i]).wf(),
            Err(GenericError::OP_ATTRIBUTE_ERROR(bytes)) => ops_parsed(payload@, 0, endian) == Err::<
                Seq<OpView>,
                ControlRefusal,
            >(ControlRefusal::Op(bytes@)),
            Err(GenericError::OP_ATTRIBUTE_COMPONENT_ERROR(bytes)) => ops_parsed(payload@, 0, endian)
                == Err::<Seq<OpView>, ControlRefusal>(ControlRefusal::Component(bytes@)),
            Err(_) => false,
        },
{
    let mut ops: Vec<GenericNetlinkControlMessageOpAttribute> = Vec::new();
    let mut at: usize = 0;
    let ghost whole = ops_parsed(payload@, 0, endian);
    assert(Seq::<OpView>::empty() + Seq::<OpView>::empty() =~= Seq::<OpView>::empty());
    while at < payload.len()
        invariant
            forall|i: int| 0 <= i < ops@.len() ==> (#[trigger] ops@[i]).wf(),
            whole == ops_parsed(payload@, 0, endian),
            whole == (match ops_parsed(payload@, at as int, endian) {
                Ok(rest) => Ok::<Seq<OpView>, ControlRefusal>(op_views(ops@) + rest),
                Err(e) => Err::<Seq<OpView>, ControlRefusal>(e),
            }),
        decreases payload.len() - at,
    {
        if payload.len() - at < NETLINK_ATTRIBUTE_HEADER_LENGTH {
            return Err(GenericError::OP_ATTRIBUTE_ERROR(vstd::slice::slice_to_vec(payload)));
        }
        proof {
            lemma_pow256_values();
        }
        let size = read_uint(payload, at, 2, endian) as usize;
        if size < NETLINK_ATTRIBUTE_HEADER_LENGTH || size > payload.len() - at {
            return Err(GenericError::OP_ATTRIBUTE_ERROR(vstd::slice::slice_to_vec(payload)));
        }
        let op = match GenericNetlinkControlMessageOpAttribute::FromByteArray(
            slice_subrange(payload, at + NETLINK_ATTRIBUTE_HEADER_LENGTH, at + size),
            endian,
        ) {
            Ok(op) => op,
            Err(e) => {
                return Err(e);
            },
        };
        let ghost seen = op_views(ops@);
        let ghost first = op@;
        ops.push(op);
        proof {
            lemma_next_aligned((at + size) as nat, ATTRIBUTE_ALIGN as nat);
            lemma_next_aligned_4((at + size) as nat);
            assert(op_views(ops@) =~= seen.push(first));
            let next = next_aligned((at + size) as nat, ATTRIBUTE_ALIGN as nat) as int;
            match ops_parsed(payload@, next, endian) {
                Ok(rest) => {
                    assert(seen + (seq![first] + rest) =~= seen.push(first) + rest);
                },
                Err(_) => {},
            }
        }
        let pad = (ATTRIBUTE_ALIGN - (at + size) % ATTRIBUTE_ALIGN) % ATTRIBUTE_ALIGN;
        if pad >= payload.len() - (at + size) {
            proof {
                assert(op_views(ops@) + Seq::<OpView>::empty() =~= op_views(ops@));
            }
            return Ok(ops);
        }
        at = at + size + pad;
    }
    proof {
        assert(op_views(ops@) + Seq::<OpView>::empty() =~= op_views(ops@));
    }
    Ok(ops)
}


/// The type of every message of the control family.
pub const CONTROL_MESSAGE_TYPE: u16 = 16;

/// The control attributes of a list as plain values.
pub open spec fn control_attribute_views(attrs: Seq<GenericNetlinkControlMessageAttribute>) -> Seq<
    ControlAttributeView,
> {
    attrs.map_values(|attr: GenericNetlinkControlMessageAttribute| attr@)
}

/// A message of the control family.
#[derive(Debug)]
pub struct GenericNetlinkControlMessage {
    pub command: GenericNetlinkControlMessageCommand,
    pub attributes: Vec<GenericNetlinkControlMessageAttribute>,
}

impl GenericNetlinkControlMessage {
    pub open spec fn wf(&self) -> bool {
        forall|i: int| 0 <= i < self.attributes@.len() ==> (#[trigger] self.attributes@[i]).wf()
    }

    /// Tests whether the message is well formed.
    pub fn is_wf(&self) -> (r: bool)
        ensures
            r == self.wf(),
    {
        let mut i: usize = 0;
        while i < self.attributes.len()
            invariant
                i <= self.attributes@.len(),
                forall|j: int| 0 <= j < i ==> (#[trigger] self.attributes@[j]).wf(),
            decreases self.attributes.len() - i,
        {
            if !self.attributes[i].is_wf() {
                return false;
            }
            i = i + 1;
        }
        true
    }

    pub fn New(command: GenericNetlinkControlMessageCommand) -> (r: Self)
        ensures
            r.wf(),
            r.command == command,
            r.attributes@.len() == 0,
    {
        Self { command, attributes: Vec::new() }
    }

    pub fn AddControlAttribute(&mut self, controlAttribute: GenericNetlinkControlMessageAttribute)
        ensures
            final(self).command == old(self).command,
            final(self).attributes@ == old(self).attributes@.push(controlAttribute),
            old(self).wf() && controlAttribute.wf() ==> final(self).wf(),
    {
        self.attributes.push(controlAttribute);
    }

    /// A copy of the first attribute of the given type.
    pub fn GetControlAttribute(&self, attributeType: GenericNetlinkControlMessageAttributeType) -> (r:
        Option<GenericNetlinkControlMessageAttribute>)
        requires
            self.wf(),
        ensures
            match r {
                Some(found) => found.wf() && exists|i: int|
                    0 <= i < self.attributes@.len() && found@ == (#[trigger] self.attributes@[i])@
                        && control_attribute_type(found@) == attributeType && forall|j: int|
                        0 <= j < i ==> control_attribute_type((#[trigger] self.attributes@[j])@)
                            != attributeType,
                None => forall|j: int|
                    0 <= j < self.attributes@.len() ==> control_attribute_type(
                        (#[trigger] self.attributes@[j])@,
                    ) != attributeType,
            },
    {
        let mut i: usize = 0;
        while i < self.attributes.len()
            invariant
                i <= self.attributes@.len(),
                self.wf(),
                forall|j: int|
                    0 <= j < i ==> control_attribute_type((#[trigger] self.attributes@[j])@)
                        != attributeType,
            decreases self.attributes.len() - i,
        {
            if self.attributes[i].Type() == attributeType {
                return Some(self.attributes[i].duplicate());
            }
            i = i + 1;
        }
        None
    }

    /// Whether the message can be turned into a generic one: it holds no list of operations.
    pub open spec fn is_writable(self) -> bool {
        forall|i: int| 0 <= i < self.attributes@.len() ==> !((#[trigger] self.attributes@[i]) is OPS)
    }

    /// The generic message that carries this one: of the control type, with
    /// the number of the command and each attribute encoded in turn.
    pub fn to_generic(&self, endian: Endian) -> (r: GenericNetlinkMessage)
        requires
            self.is_writable(),
        ensures
            r@.message_type == CONTROL_MESSAGE_TYPE,
            r@.command == self.command.number(),
            r@.attributes == control_attribute_views(self.attributes@).map_values(
                |attr: ControlAttributeView| control_attribute_encoded(attr, endian),
            ),
    {
        let mut message = GenericNetlinkMessage::New(
            GenericNetlinkMessageType::New(CONTROL_MESSAGE_TYPE),
            self.command.to_command(),
        );
        let mut i: usize = 0;
        while i < self.attributes.len()
            invariant
                i <= self.attributes@.len(),
                self.is_writable(),
                message.messageType.0 == CONTROL_MESSAGE_TYPE,
                message.command.0 == self.command.number(),
                message@.attributes.len() == i,
                forall|j: int|
                    0 <= j < i ==> (#[trigger] message@.attributes[j]) == control_attribute_encoded(
                        self.attributes@[j]@,
                        endian,
                    ),
            decreases self.attributes.len() - i,
        {
            let ghost before = message@.attributes;
            let attribute = self.attributes[i].to_attribute(endian);
            let ghost added = attribute@;
            message.AddAttribute(attribute);
            assert(message@.attributes =~= before.push(added));
            i = i + 1;
        }
        assert(message@.attributes =~= control_attribute_views(self.attributes@).map_values(
            |attr: ControlAttributeView| control_attribute_encoded(attr, endian),
        ));
        message
    }

    /// Reads a generic message as one of the control family. A message of
    /// another type is handed back in the error; a command that the family has
    /// not is refused; then the first attribute that cannot be read gives its error.
    pub fn try_from(message: GenericNetlinkMessage, endian: Endian) -> (r: Result<Self, GenericError>)
        ensures
            match r {
                Ok(control) => control.wf() && message.messageType.0 == CONTROL_MESSAGE_TYPE
                    && control.command.number() == message.command.0 && control.attributes@.len()
                    == message.attributes@.len() && forall|i: int|
                    0 <= i < control.attributes@.len() ==> control_attribute_parsed(
                        message@.attributes[i],
                        endian,
                    ) == Ok::<ControlAttributeView, ControlRefusal>(
                        (#[trigger] control.attributes@[i])@,
                    ),
                Err(GenericError::CONTROL_MESSAGE_ERROR(back)) => message.messageType.0
                    != CONTROL_MESSAGE_TYPE && back == message,
                Err(GenericError::UNKNOWN_CONTROL_COMMAND(command)) => message.messageType.0
                    == CONTROL_MESSAGE_TYPE && message.command.0 > 10 && command == message.command,
                Err(e) => message.messageType.0 == CONTROL_MESSAGE_TYPE && message.command.0 <= 10
                    && exists|i: int|
                    0 <= i < message.attributes@.len() && control_outcome(
                        Err(e),
                        #[trigger] message@.attributes[i],
                    ) == Some(control_attribute_parsed(message@.attributes[i], endian)) && forall|
                        j: int,
                    |
                        0 <= j < i ==> control_attribute_parsed(
                            #[trigger] message@.attributes[j],
                            endian,
                        ) is Ok,
            },
    {
        if message.messageType.0 != CONTROL_MESSAGE_TYPE {
            return Err(GenericError::CONTROL_MESSAGE_ERROR(message));
        }
        let command = match GenericNetlinkControlMessageCommand::try_from(message.command) {
            Ok(command) => command,
            Err(e) => {
                return Err(GenericError::UNKNOWN_CONTROL_COMMAND(message.command));
            },
        };
        let mut result = Self { command, attributes: Vec::new() };
        let mut i: usize = 0;
        while i < message.attributes.len()
            invariant
                i <= message.attributes@.len(),
                message.messageType.0 == CONTROL_MESSAGE_TYPE,
                message.command.0 <= 10,
                command.number() == message.command.0,
                result.wf(),
                result.command == command,
                result.attributes@.len() == i,
                forall|j: int|
                    0 <= j < i ==> control_attribute_parsed(message@.attributes[j], endian) == Ok::<
                        ControlAttributeView,
                        ControlRefusal,
                    >((#[trigger] result.attributes@[j])@),
            decreases message.attributes.len() - i,
        {
            assert(message@.attributes[i as int] == message.attributes@[i as int]@);
            match GenericNetlinkControlMessageAttribute::try_from(&message.attributes[i], endian) {
                Ok(attribute) => {
                    result.attributes.push(attribute);
                },
                Err(e) => {
                    proof {
                        let at = message@.attributes[i as int];
                        assert(control_outcome(Err(e), at) == Some(
                            control_attribute_parsed(at, endian),
                        ));
                        assert(!(e is CONTROL_MESSAGE_ERROR) && !(e is UNKNOWN_CONTROL_COMMAND));
                        assert forall|j: int| 0 <= j < i implies control_attribute_parsed(
                            #[trigger] message@.attributes[j],
                            endian,
                        ) is Ok by {
                            assert(control_attribute_parsed(message@.attributes[j], endian) == Ok::<
                                ControlAttributeView,
                                ControlRefusal,
                            >(result.attributes@[j]@));
                        }
                        assert(0 <= i < message.attributes@.len() && control_outcome(
                            Err(e),
                            #[trigger] message@.attributes[i as int],
                        ) == Some(control_attribute_parsed(message@.attributes[i as int], endian)));
                    }
                    return Err(e);
                },
            }
            i = i + 1;
        }
        Ok(result)
    }
}

} // verus!
