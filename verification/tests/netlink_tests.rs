use hostmon::common::Endian;
use hostmon::netlink::generic::{GenericError, GenericNetlinkMessage, GenericNetlinkMessageAttribute};
use hostmon::netlink::generic::{GenericNetlinkMessageAttributeType, GenericNetlinkMessageCommand};
use hostmon::netlink::generic::{GenericNetlinkMessageHeader, GenericNetlinkMessageType};
use hostmon::netlink::{NetlinkAttributeHeader, NetlinkError, NetlinkMessage, NetlinkMessageAttribute};
use hostmon::netlink::{NetlinkMessageAttributeType, NetlinkMessageFlag, NetlinkMessageHeader};
use hostmon::netlink::{NetlinkMessagePayload, NetlinkMessagePayloadType, NetlinkMessageType};
use hostmon::netlink::{NetlinkProtocol, StandardNetlinkMessageType};

fn message(command: u8, attrs: &[(u16, Vec<u8>)]) -> GenericNetlinkMessage {
    let mut m = GenericNetlinkMessage::New(
        GenericNetlinkMessageType::New(0x17),
        GenericNetlinkMessageCommand::New(command),
    );
    for (t, payload) in attrs {
        m.AddAttribute(GenericNetlinkMessageAttribute::New(
            GenericNetlinkMessageAttributeType::New(*t),
            payload.clone(),
        ));
    }
    m
}

fn attrs_of(m: &GenericNetlinkMessage) -> Vec<(u16, Vec<u8>)> {
    m.attributes.iter().map(|a| (a.Type().to_u16(), a.payload.clone())).collect()
}

#[test]
fn header_is_sixteen_bytes_in_the_given_order() {
    let header = NetlinkMessageHeader::new(4, 0x10, 0x0005, 0x01020304, 0x0a0b0c0d);
    assert_eq!(header.msg_len, 20);
    assert_eq!(
        header.to_byte_array(Endian::Little),
        vec![20, 0, 0, 0, 0x10, 0, 5, 0, 4, 3, 2, 1, 0x0d, 0x0c, 0x0b, 0x0a]
    );
    assert_eq!(
        header.to_byte_array(Endian::Big),
        vec![0, 0, 0, 20, 0, 0x10, 0, 5, 1, 2, 3, 4, 0x0a, 0x0b, 0x0c, 0x0d]
    );
    for endian in [Endian::Little, Endian::Big] {
        let bytes = header.to_byte_array(endian);
        assert_eq!(NetlinkMessageHeader::from_byte_array(&bytes, endian).unwrap(), header);
    }
    assert!(matches!(
        NetlinkMessageHeader::from_byte_array(&[0u8; 15], Endian::Little),
        Err(NetlinkError::MsgHeaderErr)
    ));
}

#[test]
fn attribute_header_counts_itself() {
    let header = NetlinkAttributeHeader::new(10, NetlinkMessageAttributeType::new(2));
    assert_eq!(header.length, 14);
    assert_eq!(header.to_byte_array(Endian::Little), vec![14, 0, 2, 0]);
    assert_eq!(header.to_byte_array(Endian::Big), vec![0, 14, 0, 2]);
    assert_eq!(
        NetlinkAttributeHeader::from_byte_array(&[14, 0, 2, 0, 9], Endian::Little).unwrap(),
        header
    );
    assert!(matches!(
        NetlinkAttributeHeader::from_byte_array(&[14, 0, 2], Endian::Little),
        Err(NetlinkError::AttrHeaderErr)
    ));
    let attribute = NetlinkMessageAttribute { attr_type: NetlinkMessageAttributeType::new(3), payload: vec![7, 8] };
    assert_eq!(attribute.to_byte_array(Endian::Little), vec![6, 0, 3, 0, 7, 8]);
}

#[test]
fn numbers_of_types_and_protocols() {
    assert_eq!(NetlinkProtocol::Route.to_u8(), 0);
    assert_eq!(NetlinkProtocol::Generic.to_u8(), 16);
    assert_eq!(NetlinkProtocol::SCSITransport.to_u8(), 18);
    assert_eq!(NetlinkProtocol::SMC.to_u8(), 22);
    assert_eq!(NetlinkMessageType::new(9).to_u16(), 9);
    assert_eq!(StandardNetlinkMessageType::ERROR.to_u16(), 2);
    assert_eq!(StandardNetlinkMessageType::try_from(1), Ok(StandardNetlinkMessageType::NOOP));
    assert_eq!(StandardNetlinkMessageType::try_from(3), Ok(StandardNetlinkMessageType::DONE));
    assert_eq!(StandardNetlinkMessageType::try_from(4), Ok(StandardNetlinkMessageType::OVERRUN));
    assert_eq!(StandardNetlinkMessageType::try_from(0), Err(()));
    assert_eq!(StandardNetlinkMessageType::try_from(5), Err(()));
    assert_eq!(StandardNetlinkMessageType::DONE.to_message_type(), NetlinkMessageType(3));
}

#[test]
fn flags_have_their_bits() {
    assert_eq!(NetlinkMessageFlag::Request.to_u16(), 0x01);
    assert_eq!(NetlinkMessageFlag::Multipart.to_u16(), 0x02);
    assert_eq!(NetlinkMessageFlag::Ack.to_u16(), 0x04);
    assert_eq!(NetlinkMessageFlag::Echo.to_u16(), 0x08);
    assert_eq!(NetlinkMessageFlag::DumpInconsistent.to_u16(), 0x10);
    assert_eq!(NetlinkMessageFlag::DumpFiltered.to_u16(), 0x20);
    assert_eq!(NetlinkMessageFlag::Root.to_u16(), 0x100);
    assert_eq!(NetlinkMessageFlag::Match.to_u16(), 0x200);
    assert_eq!(NetlinkMessageFlag::Atomic.to_u16(), 0x400);
    assert_eq!(NetlinkMessageFlag::Dump.to_u16(), 0x300);
    assert_eq!(NetlinkMessageFlag::Append.to_u16(), 0x800);
    assert_eq!(
        NetlinkMessageFlag::to_word(&[NetlinkMessageFlag::Request, NetlinkMessageFlag::Ack]),
        0x05
    );
    assert_eq!(NetlinkMessageFlag::to_word(&[]), 0);
}

#[test]
fn flag_word_decodes_to_the_flags_whose_bits_it_has() {
    assert_eq!(NetlinkMessageFlag::from_u16(0).unwrap(), vec![]);
    assert_eq!(
        NetlinkMessageFlag::from_u16(0x05).unwrap(),
        vec![NetlinkMessageFlag::Request, NetlinkMessageFlag::Ack]
    );
    assert_eq!(
        NetlinkMessageFlag::from_u16(0x3f).unwrap(),
        vec![
            NetlinkMessageFlag::Request,
            NetlinkMessageFlag::Multipart,
            NetlinkMessageFlag::Ack,
            NetlinkMessageFlag::Echo,
            NetlinkMessageFlag::DumpInconsistent,
            NetlinkMessageFlag::DumpFiltered
        ]
    );
    // the modifiers share bits: a bit names the flags that are that bit,
    // and no flag that needs another bit too
    assert_eq!(
        NetlinkMessageFlag::from_u16(0x100).unwrap(),
        vec![
            NetlinkMessageFlag::Root,
            NetlinkMessageFlag::Replace,
            NetlinkMessageFlag::NoRecursive,
            NetlinkMessageFlag::Capped
        ]
    );
    assert_eq!(
        NetlinkMessageFlag::from_u16(0x300).unwrap(),
        vec![
            NetlinkMessageFlag::Root,
            NetlinkMessageFlag::Match,
            NetlinkMessageFlag::Dump,
            NetlinkMessageFlag::Replace,
            NetlinkMessageFlag::Excl,
            NetlinkMessageFlag::NoRecursive,
            NetlinkMessageFlag::Capped,
            NetlinkMessageFlag::AckTlvs
        ]
    );
    assert_eq!(
        NetlinkMessageFlag::from_u16(0x800).unwrap(),
        vec![NetlinkMessageFlag::Append]
    );
}

#[test]
fn decoded_flags_have_the_bits_of_the_word() {
    let mut word: u16 = 0;
    loop {
        match NetlinkMessageFlag::from_u16(word) {
            Ok(flags) => {
                assert_eq!(word & !0x0f3f, 0);
                assert_eq!(NetlinkMessageFlag::to_word(&flags), word);
                for flag in flags.iter() {
                    assert_eq!(flag.to_u16() & word, flag.to_u16());
                }
            }
            Err(NetlinkError::UnknownMsgFlags(bits)) => {
                assert_ne!(word & !0x0f3f, 0);
                assert_eq!(bits, word & !0x0f3f);
            }
            Err(other) => panic!("{:?}", other),
        }
        if word == u16::MAX {
            break;
        }
        word += 1;
    }
}

#[test]
fn flag_lists_come_back_with_the_same_bits() {
    let lists: Vec<Vec<NetlinkMessageFlag>> = vec![
        vec![],
        vec![NetlinkMessageFlag::Dump],
        vec![NetlinkMessageFlag::Request, NetlinkMessageFlag::Dump],
        vec![NetlinkMessageFlag::Create, NetlinkMessageFlag::Excl, NetlinkMessageFlag::Ack],
        vec![NetlinkMessageFlag::Append, NetlinkMessageFlag::Append],
        vec![NetlinkMessageFlag::AckTlvs, NetlinkMessageFlag::Capped, NetlinkMessageFlag::Echo],
    ];
    for list in lists.iter() {
        let word = NetlinkMessageFlag::to_word(list);
        let back = NetlinkMessageFlag::from_u16(word).unwrap();
        assert_eq!(NetlinkMessageFlag::to_word(&back), word);
        for flag in list.iter() {
            assert!(back.contains(flag));
        }
    }
}

#[test]
fn unknown_flag_bits_are_refused_with_themselves() {
    assert!(matches!(
        NetlinkMessageFlag::from_u16(0x1001),
        Err(NetlinkError::UnknownMsgFlags(0x1000))
    ));
    assert!(matches!(
        NetlinkMessageFlag::from_u16(0xffff),
        Err(NetlinkError::UnknownMsgFlags(0xf0c0))
    ));
    assert!(matches!(NetlinkMessageFlag::from_u16(0x40), Err(NetlinkError::UnknownMsgFlags(0x40))));
}

#[test]
fn generic_header_is_command_version_and_reserved() {
    let header = GenericNetlinkMessageHeader::New(3, 2);
    assert_eq!(header.ToByteArray(Endian::Little), vec![3, 2, 0, 0]);
    let read = GenericNetlinkMessageHeader::FromByteArray(&[1, 9, 0x34, 0x12, 5], Endian::Little).unwrap();
    assert_eq!(read.command, 1);
    assert_eq!(read.version, 9);
    assert_eq!(read.reserved, 0x1234);
    match GenericNetlinkMessageHeader::FromByteArray(&[1, 2, 3], Endian::Little) {
        Err(GenericError::HEADER_ERROR(bytes)) => assert_eq!(bytes, vec![1, 2, 3]),
        other => panic!("{:?}", other),
    }
}

#[test]
fn attribute_is_length_type_payload() {
    let attr = GenericNetlinkMessageAttribute::New(GenericNetlinkMessageAttributeType::New(2), b"TASKSTATS\0".to_vec());
    assert!(attr.fits_wire());
    let bytes = attr.ToByteArray(Endian::Little);
    let mut expected = vec![14u8, 0, 2, 0];
    expected.extend_from_slice(b"TASKSTATS\0");
    assert_eq!(bytes, expected);
    let back = GenericNetlinkMessageAttribute::FromByteArray(&bytes, Endian::Little).unwrap();
    assert_eq!(back.Type(), GenericNetlinkMessageAttributeType::New(2));
    assert_eq!(back.payload, b"TASKSTATS\0".to_vec());
    assert_eq!(attr.duplicate().payload, attr.payload);
    assert!(matches!(
        GenericNetlinkMessageAttribute::FromByteArray(&[4, 0, 1], Endian::Little),
        Err(GenericError::NETLINK_ERROR(NetlinkError::AttrHeaderErr))
    ));
    assert_eq!(GenericNetlinkMessageAttributeType::New(0x0102).ToByteArray(Endian::Little), vec![2, 1]);
    assert_eq!(GenericNetlinkMessageAttributeType::New(0x0102).ToByteArray(Endian::Big), vec![1, 2]);
    let long = GenericNetlinkMessageAttribute::New(GenericNetlinkMessageAttributeType::New(1), vec![0; 0xfffc]);
    assert!(!long.fits_wire());
}

#[test]
fn attributes_are_padded_to_four_bytes_between_them() {
    let m = message(1, &[(1, vec![0xaa]), (2, vec![0xbb, 0xcc]), (3, vec![])]);
    assert!(m.fits_wire());
    let bytes = m.ToByteArray(Endian::Little);
    assert_eq!(
        bytes,
        vec![
            1, 2, 0, 0, // family header
            5, 0, 1, 0, 0xaa, 0, 0, 0, // attribute 1 and its padding
            6, 0, 2, 0, 0xbb, 0xcc, 0, 0, // attribute 2 and its padding
            4, 0, 3, 0, // attribute 3
        ]
    );
    let back = GenericNetlinkMessage::FromByteArray(&bytes, GenericNetlinkMessageType::New(0x17), Endian::Little).unwrap();
    assert_eq!(back.Command(), GenericNetlinkMessageCommand::New(1));
    assert_eq!(back.MessageType(), GenericNetlinkMessageType::New(0x17));
    assert_eq!(attrs_of(&back), attrs_of(&m));
}

#[test]
fn last_attribute_is_not_padded() {
    let m = message(1, &[(7, vec![1, 2, 3])]);
    let bytes = m.ToByteArray(Endian::Big);
    assert_eq!(bytes, vec![1, 2, 0, 0, 0, 7, 0, 7, 1, 2, 3]);
    let back = GenericNetlinkMessage::FromByteArray(&bytes, GenericNetlinkMessageType::New(1), Endian::Big).unwrap();
    assert_eq!(attrs_of(&back), vec![(7, vec![1, 2, 3])]);
}

#[test]
fn malformed_attributes_are_refused() {
    let t = GenericNetlinkMessageType::New(1);
    // shorter than the family header
    match GenericNetlinkMessage::FromByteArray(&[1, 2], t, Endian::Little) {
        Err(GenericError::HEADER_ERROR(bytes)) => assert_eq!(bytes, vec![1, 2]),
        other => panic!("{:?}", other),
    }
    // an attribute header cut off
    assert!(matches!(
        GenericNetlinkMessage::FromByteArray(&[1, 2, 0, 0, 5, 0], t, Endian::Little),
        Err(GenericError::NETLINK_ERROR(NetlinkError::AttrHeaderErr))
    ));
    // a length below that of the header
    assert!(matches!(
        GenericNetlinkMessage::FromByteArray(&[1, 2, 0, 0, 3, 0, 1, 0], t, Endian::Little),
        Err(GenericError::NETLINK_ERROR(NetlinkError::AttrHeaderErr))
    ));
    // a length past the end
    assert!(matches!(
        GenericNetlinkMessage::FromByteArray(&[1, 2, 0, 0, 9, 0, 1, 0, 1, 2], t, Endian::Little),
        Err(GenericError::NETLINK_ERROR(NetlinkError::AttrHeaderErr))
    ));
    // bytes after the padding that are too few for a header
    assert!(matches!(
        GenericNetlinkMessage::FromByteArray(&[1, 2, 0, 0, 5, 0, 1, 0, 7, 0, 0, 0, 4, 0], t, Endian::Little),
        Err(GenericError::NETLINK_ERROR(NetlinkError::AttrHeaderErr))
    ));
    // no attribute at all
    let empty = GenericNetlinkMessage::FromByteArray(&[9, 2, 0, 0], t, Endian::Little).unwrap();
    assert_eq!(empty.Command(), GenericNetlinkMessageCommand::New(9));
    assert!(empty.attributes.is_empty());
}

#[test]
fn message_survives_the_wire_in_both_orders() {
    for endian in [Endian::Little, Endian::Big] {
        let payload = message(1, &[(1, vec![0x39, 0x30, 0, 0]), (2, b"abc\0".to_vec()), (9, vec![1; 7])]);
        let sent = NetlinkMessage::new(
            NetlinkMessageType::new(0x17),
            &[NetlinkMessageFlag::Request, NetlinkMessageFlag::Ack],
            NetlinkMessagePayload::GENERIC(payload),
        );
        assert_eq!(sent.get_type(), NetlinkMessagePayloadType::Generic);
        assert!(sent.is_writable());
        let mut bytes = sent.to_byte_array(endian);
        assert_eq!(bytes.len(), 16 + 4 + 8 + 8 + 11);
        // what a socket hands over is a buffer with the message at its start
        bytes.resize(1024, 0);
        let got = NetlinkMessage::from_byte_array(&bytes, NetlinkMessagePayloadType::Generic, endian).unwrap();
        assert_eq!(got.msg_type, NetlinkMessageType::new(0x17));
        assert_eq!(got.flags, vec![NetlinkMessageFlag::Request, NetlinkMessageFlag::Ack]);
        match (&got.payload, &sent.payload) {
            (NetlinkMessagePayload::GENERIC(g), NetlinkMessagePayload::GENERIC(s)) => {
                assert_eq!(g.Command(), s.Command());
                assert_eq!(g.MessageType(), s.MessageType());
                assert_eq!(attrs_of(g), attrs_of(s));
            }
            _ => panic!("payload"),
        }
    }
}

#[test]
fn request_on_the_wire_is_as_the_kernel_expects() {
    let sent = NetlinkMessage::new(
        NetlinkMessageType::new(16),
        &[NetlinkMessageFlag::Request],
        NetlinkMessagePayload::GENERIC(message(3, &[(2, b"TASKSTATS\0".to_vec())])),
    );
    let mut expected = vec![34u8, 0, 0, 0, 16, 0, 1, 0, 0, 0, 0, 0, 0, 0, 0, 0, 3, 2, 0, 0, 14, 0, 2, 0];
    expected.extend_from_slice(b"TASKSTATS\0");
    assert_eq!(sent.to_byte_array(Endian::Little), expected);
}

#[test]
fn kernel_error_is_reported_with_its_code() {
    let mut bytes = NetlinkMessageHeader::new(20, 2, 0, 0, 0).to_byte_array(Endian::Little);
    bytes.extend_from_slice(&(-3i32).to_le_bytes());
    bytes.extend_from_slice(&[0u8; 16]);
    assert!(matches!(
        NetlinkMessage::from_byte_array(&bytes, NetlinkMessagePayloadType::Generic, Endian::Little),
        Err(NetlinkError::KernelErr(-3))
    ));
    let mut zero = NetlinkMessageHeader::new(4, 2, 0, 0, 0).to_byte_array(Endian::Big);
    zero.extend_from_slice(&[0, 0, 0, 0]);
    assert!(matches!(NetlinkMessage::from_byte_array(&zero, NetlinkMessagePayloadType::Generic, Endian::Big), Err(NetlinkError::KernelErr(0))));
    let mut most = NetlinkMessageHeader::new(4, 2, 0, 0, 0).to_byte_array(Endian::Big);
    most.extend_from_slice(&i32::MIN.to_be_bytes());
    assert!(matches!(
        NetlinkMessage::from_byte_array(&most, NetlinkMessagePayloadType::Generic, Endian::Big),
        Err(NetlinkError::KernelErr(i32::MIN))
    ));
    // an error message too short for its code
    let short = NetlinkMessageHeader::new(0, 2, 0, 0, 0).to_byte_array(Endian::Little);
    assert!(matches!(NetlinkMessage::from_byte_array(&short, NetlinkMessagePayloadType::Generic, Endian::Little), Err(NetlinkError::MsgHeaderErr)));
    let mut three = NetlinkMessageHeader::new(4, 2, 0, 0, 0).to_byte_array(Endian::Little);
    three.extend_from_slice(&[1, 2, 3]);
    assert!(matches!(NetlinkMessage::from_byte_array(&three, NetlinkMessagePayloadType::Generic, Endian::Little), Err(NetlinkError::MsgHeaderErr)));
}

#[test]
fn kernel_error_cut_short_keeps_its_code() {
    // the header declares more than the buffer holds, and the code is there
    let mut long = NetlinkMessageHeader::new(1000, 2, 0x05, 7, 9).to_byte_array(Endian::Little);
    long.extend_from_slice(&(-11i32).to_le_bytes());
    assert_eq!(long.len(), 20);
    assert!(matches!(
        NetlinkMessage::from_byte_array(&long, NetlinkMessagePayloadType::Generic, Endian::Little),
        Err(NetlinkError::KernelErr(-11))
    ));
    long.extend_from_slice(&[0xaa; 9]);
    assert!(matches!(
        NetlinkMessage::from_byte_array(&long, NetlinkMessagePayloadType::Generic, Endian::Little),
        Err(NetlinkError::KernelErr(-11))
    ));
    // the header declares less than a code, and the code is there
    let mut brief = NetlinkMessageHeader::new(0, 2, 0, 0, 0).to_byte_array(Endian::Big);
    brief.extend_from_slice(&22i32.to_be_bytes());
    assert!(matches!(
        NetlinkMessage::from_byte_array(&brief, NetlinkMessagePayloadType::Generic, Endian::Big),
        Err(NetlinkError::KernelErr(22))
    ));
    // flags are looked at before the kind of message
    let mut flagged = NetlinkMessageHeader::new(4, 2, 0x1000, 0, 0).to_byte_array(Endian::Little);
    flagged.extend_from_slice(&(-11i32).to_le_bytes());
    assert!(matches!(
        NetlinkMessage::from_byte_array(&flagged, NetlinkMessagePayloadType::Generic, Endian::Little),
        Err(NetlinkError::UnknownMsgFlags(0x1000))
    ));
    // a message that is no error is held to its declared length
    let mut other = NetlinkMessageHeader::new(1000, 16, 0, 0, 0).to_byte_array(Endian::Little);
    other.extend_from_slice(&[1, 1, 0, 0]);
    assert!(matches!(
        NetlinkMessage::from_byte_array(&other, NetlinkMessagePayloadType::Generic, Endian::Little),
        Err(NetlinkError::MsgHeaderErr)
    ));
}

#[test]
fn payload_of_the_other_kind_is_admitted_where_none_is_read() {
    let kind = NetlinkMessagePayloadType::Unimplemented;
    let mut error = NetlinkMessageHeader::new(4, 2, 0, 0, 0).to_byte_array(Endian::Little);
    error.extend_from_slice(&(-2i32).to_le_bytes());
    assert!(!NetlinkMessage::reads_payload(&error, Endian::Little));
    assert!(matches!(
        NetlinkMessage::from_byte_array(&error, kind, Endian::Little),
        Err(NetlinkError::KernelErr(-2))
    ));
    assert!(!NetlinkMessage::reads_payload(&[0u8; 15], Endian::Little));
    assert!(matches!(
        NetlinkMessage::from_byte_array(&[0u8; 15], kind, Endian::Little),
        Err(NetlinkError::MsgHeaderErr)
    ));
    let flagged = NetlinkMessageHeader::new(4, 16, 0x4040, 0, 0).to_byte_array(Endian::Big);
    assert!(!NetlinkMessage::reads_payload(&flagged, Endian::Big));
    assert!(matches!(
        NetlinkMessage::from_byte_array(&flagged, kind, Endian::Big),
        Err(NetlinkError::UnknownMsgFlags(0x4040))
    ));
    // type 0x0200 in one byte order is the error type in the other
    let plain = NetlinkMessageHeader::new(4, 0x0200, 0x0100, 0, 0).to_byte_array(Endian::Big);
    assert!(NetlinkMessage::reads_payload(&plain, Endian::Big));
    assert!(!NetlinkMessage::reads_payload(&plain, Endian::Little));
}

#[test]
fn bad_buffers_are_refused() {
    assert!(matches!(NetlinkMessage::from_byte_array(&[0u8; 10], NetlinkMessagePayloadType::Generic, Endian::Little), Err(NetlinkError::MsgHeaderErr)));
    // a declared length below the header
    let mut bytes = vec![8u8, 0, 0, 0, 16, 0, 0, 0, 0, 0, 0, 0, 0, 0, 0, 0];
    assert!(matches!(NetlinkMessage::from_byte_array(&bytes, NetlinkMessagePayloadType::Generic, Endian::Little), Err(NetlinkError::MsgHeaderErr)));
    // a declared length past the buffer
    bytes[0] = 40;
    assert!(matches!(NetlinkMessage::from_byte_array(&bytes, NetlinkMessagePayloadType::Generic, Endian::Little), Err(NetlinkError::MsgHeaderErr)));
    // unknown flag bits
    let mut flagged = NetlinkMessageHeader::new(4, 16, 0x8001, 0, 0).to_byte_array(Endian::Little);
    flagged.extend_from_slice(&[1, 2, 0, 0]);
    assert!(matches!(
        NetlinkMessage::from_byte_array(&flagged, NetlinkMessagePayloadType::Generic, Endian::Little),
        Err(NetlinkError::UnknownMsgFlags(0x8000))
    ));
    // a payload shorter than the family header
    let mut short = NetlinkMessageHeader::new(2, 16, 1, 0, 0).to_byte_array(Endian::Little);
    short.extend_from_slice(&[1, 2]);
    match NetlinkMessage::from_byte_array(&short, NetlinkMessagePayloadType::Generic, Endian::Little) {
        Err(NetlinkError::GenericErr(inner)) => match *inner {
            GenericError::HEADER_ERROR(bytes) => assert_eq!(bytes, vec![1, 2]),
            other => panic!("{:?}", other),
        },
        other => panic!("{:?}", other),
    }
    // a malformed attribute
    let mut bad = NetlinkMessageHeader::new(6, 16, 1, 0, 0).to_byte_array(Endian::Little);
    bad.extend_from_slice(&[1, 2, 0, 0, 9, 0]);
    match NetlinkMessage::from_byte_array(&bad, NetlinkMessagePayloadType::Generic, Endian::Little) {
        Err(NetlinkError::GenericErr(inner)) => {
            assert!(matches!(*inner, GenericError::NETLINK_ERROR(NetlinkError::AttrHeaderErr)))
        }
        other => panic!("{:?}", other),
    }
}

#[test]
fn message_that_cannot_be_written_is_told_apart() {
    let unimplemented = NetlinkMessage::new(NetlinkMessageType::new(1), &[], NetlinkMessagePayload::UNIMPLEMENTED);
    assert_eq!(unimplemented.get_type(), NetlinkMessagePayloadType::Unimplemented);
    assert!(!unimplemented.is_writable());
    let long = NetlinkMessage::new(
        NetlinkMessageType::new(1),
        &[],
        NetlinkMessagePayload::GENERIC(message(1, &[(1, vec![0; 0x10000])])),
    );
    assert!(!long.is_writable());
}
