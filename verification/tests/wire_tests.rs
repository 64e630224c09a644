use hostmon::common::Endian;
use hostmon::text::{final_token, is_space_byte, nth_line, nth_token, split, split_lines};
use hostmon::text::{split_terminator, split_whitespace, string_from_utf8};
use hostmon::wire::{append_fields, append_uint, endian_shown_by, host_endian, read_be128};
use hostmon::wire::{read_be16, read_be32};
use hostmon::wire::{read_fields, read_uint};

#[test]
fn numbers_are_read_in_either_order() {
    let data = [0x12u8, 0x34, 0x56, 0x78, 0x9a];
    assert_eq!(read_uint(&data, 0, 2, Endian::Big), 0x1234);
    assert_eq!(read_uint(&data, 0, 2, Endian::Little), 0x3412);
    assert_eq!(read_uint(&data, 1, 4, Endian::Big), 0x3456789a);
    assert_eq!(read_uint(&data, 1, 4, Endian::Little), 0x9a785634);
    assert_eq!(read_uint(&data, 2, 0, Endian::Big), 0);
    assert_eq!(read_uint(&data, 4, 1, Endian::Little), 0x9a);
    assert_eq!(read_be16(&data, 3), 0x789a);
    assert_eq!(read_be32(&data, 0), 0x12345678);
    let sixteen: Vec<u8> = (1..=16).collect();
    assert_eq!(read_be128(&sixteen, 0), 0x0102030405060708090a0b0c0d0e0f10);
    assert_eq!(read_uint(&sixteen, 0, 16, Endian::Little), 0x100f0e0d0c0b0a090807060504030201);
}

#[test]
fn numbers_are_written_in_either_order() {
    let mut buf = vec![0xffu8];
    append_uint(&mut buf, 0x1234, 2, Endian::Little);
    append_uint(&mut buf, 0x1234, 2, Endian::Big);
    append_uint(&mut buf, 0xdeadbeef, 4, Endian::Big);
    append_uint(&mut buf, 7, 0, Endian::Big);
    assert_eq!(buf, vec![0xff, 0x34, 0x12, 0x12, 0x34, 0xde, 0xad, 0xbe, 0xef]);
    // a number wider than its field loses its high part
    let mut narrow = Vec::new();
    append_uint(&mut narrow, 0x1_02_03, 2, Endian::Big);
    assert_eq!(narrow, vec![0x02, 0x03]);
}

#[test]
fn written_numbers_read_back_and_agree_with_the_standard_codecs() {
    for value in [0u64, 1, 0xff, 0x100, 0x0123_4567_89ab_cdef, u64::MAX] {
        for endian in [Endian::Little, Endian::Big] {
            let mut buf = Vec::new();
            append_uint(&mut buf, value as u128, 8, endian);
            let expected = match endian {
                Endian::Little => value.to_le_bytes(),
                Endian::Big => value.to_be_bytes(),
            };
            assert_eq!(buf, expected.to_vec());
            assert_eq!(read_uint(&buf, 0, 8, endian), value as u128);
        }
    }
}

#[test]
fn records_of_fields_round_trip() {
    let values = vec![0x0102u128, 0, 0xaabbccdd, 0x7f];
    let widths = vec![2usize, 3, 4, 1];
    let mut buf = vec![9u8];
    append_fields(&mut buf, &values, &widths, Endian::Little);
    assert_eq!(buf, vec![9, 0x02, 0x01, 0, 0, 0, 0xdd, 0xcc, 0xbb, 0xaa, 0x7f]);
    assert_eq!(read_fields(&buf, 1, &widths, Endian::Little), values);
    assert_eq!(
        read_fields(&buf, 1, &widths, Endian::Big),
        vec![0x0201, 0, 0xddccbbaa, 0x7f]
    );
}

#[test]
fn host_byte_order_is_that_of_the_machine() {
    let expected = if 1u16.to_ne_bytes()[0] == 1 { Endian::Little } else { Endian::Big };
    assert_eq!(host_endian(), expected);
}

#[test]
fn text_splits_at_separators() {
    assert_eq!(split(b"a:bc::d", b':'), vec![(0, 1), (2, 4), (5, 5), (6, 7)]);
    assert_eq!(split(b"", b':'), vec![(0, 0)]);
    assert_eq!(split(b"ab:", b':'), vec![(0, 2), (3, 3)]);
    assert_eq!(split_terminator(b"12 34 ", b' '), vec![(0, 2), (3, 5)]);
    assert_eq!(split_terminator(b"12 34", b' '), vec![(0, 2), (3, 5)]);
    assert_eq!(split_terminator(b"", b' '), Vec::<(usize, usize)>::new());
    assert_eq!(split_terminator(b" ", b' '), vec![(0, 0)]);
}

#[test]
fn lines_agree_with_the_standard_splitter() {
    for text in ["", "a", "a\n", "a\nb", "a\r\nb\r\n", "\n", "\n\n", "a\n\nb\n", "\r\n", "x\ry\n"] {
        let ours: Vec<&str> =
            split_lines(text.as_bytes()).iter().map(|&(from, to)| &text[from..to]).collect();
        let theirs: Vec<&str> = text.lines().collect();
        assert_eq!(ours, theirs, "{:?}", text);
    }
}

#[test]
fn tokens_agree_with_the_standard_splitter() {
    for text in ["", " ", "a", " a ", "a b", "a\tb\n c", "  12   34  ", "Uid:\t1000\t1000\t1000\t1000"] {
        let ours: Vec<&str> =
            split_whitespace(text.as_bytes()).iter().map(|&(from, to)| &text[from..to]).collect();
        let theirs: Vec<&str> = text.split_whitespace().collect();
        assert_eq!(ours, theirs, "{:?}", text);
    }
    for b in 0u8..=127 {
        assert_eq!(is_space_byte(b), (b as char).is_whitespace(), "{}", b);
    }
}

#[test]
fn fields_are_found_by_line_and_token() {
    let text = b"Name:\tcat\nPid:\t42\nNSpid:\t42\t7\n";
    assert_eq!(nth_line(text, 1), Some(&b"Pid:\t42"[..]));
    assert_eq!(nth_line(text, 3), None);
    assert_eq!(nth_token(b"NSpid:\t42\t7", 1), Some(&b"42"[..]));
    assert_eq!(nth_token(b"NSpid:\t42\t7", 3), None);
    assert_eq!(final_token(b"NSpid:\t42\t7"), Some(&b"7"[..]));
    assert_eq!(final_token(b"  "), None);
}

#[test]
fn bytes_of_the_number_one_show_the_byte_order() {
    assert_eq!(endian_shown_by(&[1, 0]), Endian::Little);
    assert_eq!(endian_shown_by(&[0, 1]), Endian::Big);
    assert_eq!(endian_shown_by(&1u16.to_le_bytes()), Endian::Little);
    assert_eq!(endian_shown_by(&1u16.to_be_bytes()), Endian::Big);
    assert_eq!(endian_shown_by(&1u16.to_ne_bytes()), host_endian());
}

#[test]
fn bytes_that_are_no_text_say_how_far_they_are() {
    assert_eq!(string_from_utf8(b"taskstats"), Ok("taskstats".to_string()));
    assert_eq!(string_from_utf8(b""), Ok(String::new()));
    assert_eq!(string_from_utf8("h\u{e9}llo \u{20ac}".as_bytes()), Ok("h\u{e9}llo \u{20ac}".to_string()));
    assert_eq!(string_from_utf8(&[0x61, 0x62, 0xff, 0x63]), Err(2));
    assert_eq!(string_from_utf8(&[0xff]), Err(0));
    // a character cut short
    assert_eq!(string_from_utf8(&[0x61, 0xe2, 0x82]), Err(1));
    assert_eq!(string_from_utf8(&[0xe2, 0x82, 0xac, 0xe2, 0x82]), Err(3));
}
