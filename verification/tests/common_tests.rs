use hostmon::common::{addr_in_network, align_buffer, decimal_text, next_align_num, parse_decimal};
use hostmon::common::{parse_hex_bytes, parse_hex_str, CommonError, Count, DataCount, Endian};
use hostmon::common::{Gid, Inode, IpAddress, ParseIntErrorKind, TimeCount, Timestamp, Uid};

#[test]
fn ids_keep_their_numbers() {
    assert_eq!(Uid::new(1000), Uid(1000));
    assert_eq!(Uid::new(1000).to_usize(), 1000);
    assert_eq!(Uid::new(1000).to_u32(), 1000);
    assert_eq!(Gid::new(27), Gid(27));
    assert_eq!(Gid::new(27).to_usize(), 27);
    assert_eq!(Gid::new(27).to_u32(), 27);
    assert_eq!(Inode::new(4242), Inode(4242));
    assert_eq!(Timestamp::new(), Timestamp(0));
}

#[test]
fn ids_parse_from_decimal_text() {
    assert_eq!(Uid::try_from("0").unwrap(), Uid(0));
    assert_eq!(Gid::try_from("+65534").unwrap(), Gid(65534));
    assert_eq!(
        Inode::try_from("340282366920938463463374607431768211455").unwrap(),
        Inode(u128::MAX)
    );
    assert!(matches!(Uid::try_from(""), Err(CommonError::ParseIntErr(ParseIntErrorKind::Empty))));
    assert!(matches!(
        Uid::try_from("+"),
        Err(CommonError::ParseIntErr(ParseIntErrorKind::InvalidDigit))
    ));
    assert!(matches!(
        Gid::try_from("-1"),
        Err(CommonError::ParseIntErr(ParseIntErrorKind::InvalidDigit))
    ));
    assert!(matches!(
        Gid::try_from("12 "),
        Err(CommonError::ParseIntErr(ParseIntErrorKind::InvalidDigit))
    ));
    assert!(matches!(
        Inode::try_from("340282366920938463463374607431768211456"),
        Err(CommonError::ParseIntErr(ParseIntErrorKind::PosOverflow))
    ));
}

#[test]
fn decimal_parser_agrees_with_the_standard_one() {
    for text in ["0", "7", "007", "+9", "255", "256", "", "+", "-", "1a", "a1", "99999", "9999999999x"] {
        let ours = parse_decimal(text.as_bytes(), 255);
        match text.parse::<u8>() {
            Ok(v) => assert_eq!(ours, Ok(v as u128), "{:?}", text),
            Err(e) => {
                let kind = match e.kind() {
                    std::num::IntErrorKind::Empty => ParseIntErrorKind::Empty,
                    std::num::IntErrorKind::InvalidDigit => ParseIntErrorKind::InvalidDigit,
                    _ => ParseIntErrorKind::PosOverflow,
                };
                assert_eq!(ours, Err(kind), "{:?}", text);
            }
        }
    }
}

#[test]
fn time_counts_are_in_nanoseconds() {
    assert_eq!(TimeCount::new(), TimeCount(0));
    assert_eq!(TimeCount::from_secs(3), TimeCount(3_000_000_000));
    assert_eq!(TimeCount::from_milisecs(3), TimeCount(3_000_000));
    assert_eq!(TimeCount::from_microsecs(3), TimeCount(3_000));
    assert_eq!(TimeCount::from_nanosecs(3), TimeCount(3));
    assert_eq!(
        TimeCount::from_secs(usize::MAX),
        TimeCount(usize::MAX as u128 * 1_000_000_000)
    );
}

#[test]
fn data_counts_are_in_bytes() {
    assert_eq!(DataCount::from_byte(5), DataCount(5));
    assert_eq!(DataCount::from_kb(5), DataCount(5 * 1024));
    assert_eq!(DataCount::from_mb(5), DataCount(5 * 1024 * 1024));
    assert_eq!(DataCount::from_gb(5), DataCount(5 * 1024 * 1024 * 1024));
    assert_eq!(DataCount::from_tb(5), DataCount(5 * 1024u128.pow(4)));
    assert_eq!(DataCount::from_pb(5), DataCount(5 * 1024u128.pow(5)));
    assert_eq!(DataCount::from_eb(5), DataCount(5 * 1024u128.pow(6)));
    assert_eq!(Count::new(5), Count(5));
}

#[test]
fn counters_add_within_their_dimension() {
    assert_eq!(TimeCount(2).add(TimeCount(3)), TimeCount(5));
    assert_eq!(DataCount(2).add(DataCount(3)), DataCount(5));
    assert_eq!(Count(2).add(Count(3)), Count(5));
    let mut t = TimeCount(10);
    t.add_assign(TimeCount(1));
    assert_eq!(t, TimeCount(11));
    let mut d = DataCount(10);
    d.add_assign(DataCount(1));
    assert_eq!(d, DataCount(11));
    let mut c = Count(10);
    c.add_assign(Count(1));
    assert_eq!(c, Count(11));
    assert!(Count(u128::MAX - 1).can_add(Count(1)));
    assert!(!Count(u128::MAX).can_add(Count(1)));
    assert!(!DataCount(u128::MAX).can_add(DataCount(1)));
    assert!(!TimeCount(1).can_add(TimeCount(u128::MAX)));
    assert!(TimeCount(0).can_add(TimeCount(u128::MAX)));
}

#[test]
fn clock_reads_a_time_after_the_epoch() {
    let now = Timestamp::get_curr_timestamp();
    // later than the first of January 2020
    assert!(now.0 > 1_577_836_800u128 * 1_000_000_000);
}

#[test]
fn alignment_rounds_up() {
    assert_eq!(next_align_num(0, 4), 0);
    assert_eq!(next_align_num(1, 4), 4);
    assert_eq!(next_align_num(4, 4), 4);
    assert_eq!(next_align_num(5, 4), 8);
    assert_eq!(next_align_num(7, 1), 7);
    assert_eq!(next_align_num(7, 16), 16);
    let mut buf = vec![1u8, 2, 3, 4, 5];
    align_buffer(&mut buf, 4);
    assert_eq!(buf, vec![1, 2, 3, 4, 5, 0, 0, 0]);
    align_buffer(&mut buf, 4);
    assert_eq!(buf.len(), 8);
    let mut empty: Vec<u8> = Vec::new();
    align_buffer(&mut empty, 8);
    assert!(empty.is_empty());
}

#[test]
fn hex_string_decodes_in_either_order() {
    assert_eq!(parse_hex_str("0100007F", Endian::Big).unwrap(), vec![0x01, 0x00, 0x00, 0x7f]);
    assert_eq!(parse_hex_str("0100007F", Endian::Little).unwrap(), vec![0x7f, 0x00, 0x00, 0x01]);
    assert_eq!(parse_hex_str("1f90", Endian::Big).unwrap(), vec![0x1f, 0x90]);
    assert_eq!(parse_hex_str("", Endian::Little).unwrap(), Vec::<u8>::new());
    assert_eq!(parse_hex_bytes(b"aBcD", Endian::Little).unwrap(), vec![0xcd, 0xab]);
    // as in the standard radix parser, a plus sign may take the place of the first digit
    assert_eq!(parse_hex_str("+f", Endian::Big).unwrap(), vec![0x0f]);
}

#[test]
fn hex_string_errors() {
    assert!(matches!(parse_hex_str("abc", Endian::Big), Err(CommonError::OddLenHexStr(3))));
    assert!(matches!(
        parse_hex_str("zz", Endian::Big),
        Err(CommonError::ParseIntErr(ParseIntErrorKind::InvalidDigit))
    ));
    assert!(matches!(
        parse_hex_str("00f+", Endian::Little),
        Err(CommonError::ParseIntErr(ParseIntErrorKind::InvalidDigit))
    ));
    assert!(matches!(
        parse_hex_str("-1", Endian::Big),
        Err(CommonError::ParseIntErr(ParseIntErrorKind::InvalidDigit))
    ));
}

#[test]
fn address_is_in_network_when_masked_bits_agree() {
    let mask = IpAddress::V4(0xffffff00);
    assert_eq!(
        addr_in_network(&IpAddress::V4(0xc0a80105), &IpAddress::V4(0xc0a80101), &mask),
        Ok(true)
    );
    assert_eq!(
        addr_in_network(&IpAddress::V4(0xc0a80205), &IpAddress::V4(0xc0a80101), &mask),
        Ok(false)
    );
    let mask6 = IpAddress::V6(0xffff_ffff_ffff_ffff_0000_0000_0000_0000);
    assert_eq!(
        addr_in_network(
            &IpAddress::V6(0x2001_0db8_0000_0001_0000_0000_0000_0042),
            &IpAddress::V6(0x2001_0db8_0000_0001_ffff_0000_0000_0001),
            &mask6
        ),
        Ok(true)
    );
    assert_eq!(
        addr_in_network(
            &IpAddress::V6(0x2001_0db8_0000_0002_0000_0000_0000_0042),
            &IpAddress::V6(0x2001_0db8_0000_0001_0000_0000_0000_0001),
            &mask6
        ),
        Ok(false)
    );
    assert_eq!(addr_in_network(&IpAddress::V4(1), &IpAddress::V6(1), &mask), Err(()));
    assert_eq!(addr_in_network(&IpAddress::V6(1), &IpAddress::V6(1), &mask), Err(()));
    assert!(IpAddress::V4(0).is_unspecified());
    assert!(IpAddress::V6(0).is_unspecified());
    assert!(!IpAddress::V4(1).is_unspecified());
}

#[test]
fn ids_are_shown_in_decimal_and_parse_back() {
    assert_eq!(decimal_text(0), "0");
    assert_eq!(decimal_text(7), "7");
    assert_eq!(decimal_text(10), "10");
    assert_eq!(decimal_text(1_000_000), "1000000");
    assert_eq!(decimal_text(u128::MAX), "340282366920938463463374607431768211455");
    assert_eq!(Uid(1000).to_string(), "1000");
    assert_eq!(Gid(0).to_string(), "0");
    assert_eq!(Inode(987654321).to_string(), "987654321");
    for n in [0u128, 9, 10, 99, 100, 4242, u64::MAX as u128, u128::MAX] {
        assert_eq!(decimal_text(n), format!("{}", n));
        assert_eq!(Uid::try_from(&Uid(n).to_string()).unwrap(), Uid(n));
        assert_eq!(parse_decimal(decimal_text(n).as_bytes(), u128::MAX), Ok(n));
    }
}

#[test]
fn reading_of_the_clock_becomes_a_time_stamp() {
    assert_eq!(Timestamp::of_reading(Some(1_700_000_000_000_000_000)), Timestamp(1_700_000_000_000_000_000));
    assert_eq!(Timestamp::of_reading(Some(0)), Timestamp(0));
    assert_eq!(Timestamp::of_reading(None), Timestamp(0));
}
