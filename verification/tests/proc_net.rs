use hostmon::common::{Inode, IpAddress, ParseIntErrorKind};
use hostmon::network_stat::{interface_of, parse_socket_line, Connection, ConnectionType};
use hostmon::network_stat::{InterfaceAddress, InterfaceInfo, NetworkRawStat, NetworkStatError};

const HEADING: &str = "  sl  local_address rem_address   st tx_queue rx_queue tr tm->when retrnsmt   uid  timeout inode\n";

fn line(local: &str, remote: &str, inode: &str) -> String {
    format!(
        "   0: {} {} 01 00000000:00000000 00:00000000 00000000  1000        0 {} 1 0000000000000000 20 4 30 10 -1\n",
        local, remote, inode
    )
}

fn device(name: &str, addr: u32, mask: u32) -> InterfaceInfo {
    InterfaceInfo {
        name: name.to_string(),
        description: String::new(),
        addresses: vec![InterfaceAddress {
            addr: IpAddress::V4(addr),
            netmask: Some(IpAddress::V4(mask)),
        }],
    }
}

#[test]
fn ipv4_line_gives_inode_and_connection() {
    let text = line("0100000A:9C40", "0200000A:0050", "12345");
    let entry = parse_socket_line(text.trim_end().as_bytes(), false, ConnectionType::TCP).unwrap();
    assert_eq!(
        entry,
        Some((
            Inode(12345),
            Connection::new(
                IpAddress::V4(0x0a000001),
                40000,
                IpAddress::V4(0x0a000002),
                80,
                ConnectionType::TCP
            )
        ))
    );
}

#[test]
fn ipv6_address_is_read_word_by_word() {
    // ::1 and 2001:db8::2 as the kernel prints them
    let text = line(
        "00000000000000000000000001000000:1F90",
        "B80D0120000000000000000002000000:D431",
        "77",
    );
    let entry = parse_socket_line(text.as_bytes(), true, ConnectionType::UDP).unwrap().unwrap();
    assert_eq!(entry.0, Inode(77));
    assert_eq!(entry.1.get_local_addr(), IpAddress::V6(1));
    assert_eq!(entry.1.get_local_port(), 8080);
    assert_eq!(
        entry.1.get_remote_addr(),
        IpAddress::V6(0x2001_0db8_0000_0000_0000_0000_0000_0002)
    );
    assert_eq!(entry.1.get_remote_port(), 54321);
    assert_eq!(entry.1.get_conn_type(), ConnectionType::UDP);
}

#[test]
fn socket_with_a_zero_address_maps_nothing() {
    let listening = line("00000000:0016", "00000000:0000", "500");
    assert_eq!(parse_socket_line(listening.as_bytes(), false, ConnectionType::TCP).unwrap(), None);
    let half = line("0100000A:0016", "00000000:0000", "500");
    assert_eq!(parse_socket_line(half.as_bytes(), false, ConnectionType::TCP).unwrap(), None);
    let six = line(
        "00000000000000000000000000000000:0016",
        "00000000000000000000000001000000:0000",
        "500",
    );
    assert_eq!(parse_socket_line(six.as_bytes(), true, ConnectionType::TCP).unwrap(), None);
}

#[test]
fn lines_that_do_not_parse_say_why() {
    assert!(matches!(
        parse_socket_line(b"0: 0100000A:0016 0200000A:0050", false, ConnectionType::TCP),
        Err(NetworkStatError::ConvertErr)
    ));
    // an address of the other family
    let wrong_family = line("0100000A:0016", "0200000A:0050", "1");
    assert!(matches!(
        parse_socket_line(wrong_family.as_bytes(), true, ConnectionType::TCP),
        Err(NetworkStatError::ConvertErr)
    ));
    let no_port = line("0100000A", "0200000A:0050", "1");
    assert!(matches!(
        parse_socket_line(no_port.as_bytes(), false, ConnectionType::TCP),
        Err(NetworkStatError::ConvertErr)
    ));
    let odd = line("0100000:0016", "0200000A:0050", "1");
    assert!(matches!(
        parse_socket_line(odd.as_bytes(), false, ConnectionType::TCP),
        Err(NetworkStatError::CommonErr(hostmon::common::CommonError::OddLenHexStr(7)))
    ));
    let not_hex = line("0100000A:00G6", "0200000A:0050", "1");
    assert!(matches!(
        parse_socket_line(not_hex.as_bytes(), false, ConnectionType::TCP),
        Err(NetworkStatError::CommonErr(hostmon::common::CommonError::ParseIntErr(
            ParseIntErrorKind::InvalidDigit
        )))
    ));
    let bad_inode = line("0100000A:0016", "0200000A:0050", "12x");
    assert!(matches!(
        parse_socket_line(bad_inode.as_bytes(), false, ConnectionType::TCP),
        Err(NetworkStatError::ParseIntErr(ParseIntErrorKind::InvalidDigit))
    ));
}

#[test]
fn connection_runs_over_the_first_interface_that_covers_it() {
    let devices = vec![
        device("lo", 0x7f000001, 0xff000000),
        device("eth0", 0x0a000005, 0xffffff00),
        device("eth1", 0x0a000105, 0xffff0000),
        InterfaceInfo {
            name: "tun0".to_string(),
            description: String::new(),
            addresses: vec![InterfaceAddress { addr: IpAddress::V4(0xc0a80001), netmask: None }],
        },
    ];
    assert_eq!(interface_of(&devices, &IpAddress::V4(0x7f000001)), Some(0));
    assert_eq!(interface_of(&devices, &IpAddress::V4(0x0a000001)), Some(1));
    assert_eq!(interface_of(&devices, &IpAddress::V4(0x0a000201)), Some(2));
    // an address without a mask covers nothing
    assert_eq!(interface_of(&devices, &IpAddress::V4(0xc0a80001)), None);
    assert_eq!(interface_of(&devices, &IpAddress::V6(1)), None);
}

#[test]
fn table_maps_every_line_with_both_addresses() {
    let mut text = String::from(HEADING);
    text.push_str(&line("0100000A:9C40", "0200000A:0050", "100"));
    text.push_str(&line("00000000:0016", "00000000:0000", "101"));
    text.push_str("garbage\n");
    text.push_str(&line("0100007F:1F90", "0100007F:D431", "102"));
    text.push_str(&line("0100000A:9C41", "0200000A:0050", "100"));
    let devices = vec![device("lo", 0x7f000001, 0xff000000), device("eth0", 0x0a000005, 0xffffff00)];
    let mut raw = NetworkRawStat::new();
    raw.add_socket_table(text.as_bytes(), false, ConnectionType::TCP, &devices);
    // three lines map a socket, two of them under one inode
    assert_eq!(raw.conn_lookup_table.len(), 2);
    assert_eq!(raw.iname_lookup_table.len(), 3);
    assert_eq!(raw.lookup_connection(&Inode(101)), None);
    let lo = raw.lookup_connection(&Inode(102)).unwrap();
    assert_eq!(lo.local_addr, IpAddress::V4(0x7f000001));
    assert_eq!(lo.local_port, 8080);
    assert_eq!(raw.lookup_interface_name(&lo), Some("lo"));
    // an inode entered twice: the last line stands
    let last = raw.lookup_connection(&Inode(100)).unwrap();
    assert_eq!(last.local_port, 40001);
    assert_eq!(raw.lookup_interface_name(&last), Some("eth0"));
}

#[test]
fn connection_that_no_interface_covers_has_no_name() {
    let mut text = String::from(HEADING);
    text.push_str(&line("0100A8C0:9C40", "0200A8C0:0050", "7"));
    let devices = vec![device("eth0", 0x0a000005, 0xffffff00)];
    let mut raw = NetworkRawStat::new();
    raw.add_socket_table(text.as_bytes(), false, ConnectionType::UDP, &devices);
    let conn = raw.lookup_connection(&Inode(7)).unwrap();
    assert_eq!(conn.conn_type, ConnectionType::UDP);
    assert_eq!(raw.lookup_interface_name(&conn), None);
}

#[test]
fn empty_table_and_heading_alone_map_nothing() {
    let mut raw = NetworkRawStat::new();
    raw.add_socket_table(b"", false, ConnectionType::TCP, &Vec::new());
    raw.add_socket_table(HEADING.as_bytes(), false, ConnectionType::TCP, &Vec::new());
    assert!(raw.conn_lookup_table.is_empty());
    assert!(raw.iname_lookup_table.is_empty());
    assert!(raw.irawstats.is_empty());
}

#[test]
fn interfaces_without_a_task_are_started() {
    let present = vec![
        device("lo", 0x7f000001, 0xff000000),
        device("eth0", 0x0a000005, 0xffffff00),
        device("eth1", 0x0a000105, 0xffff0000),
    ];
    let monitored = vec!["eth0".to_string(), "gone0".to_string()];
    assert_eq!(hostmon::network_stat::interfaces_to_start(&monitored, &present), vec![0, 2]);
    assert_eq!(hostmon::network_stat::interfaces_to_start(&Vec::new(), &present), vec![0, 1, 2]);
    assert_eq!(
        hostmon::network_stat::interfaces_to_start(&monitored, &Vec::new()),
        Vec::<usize>::new()
    );
}
