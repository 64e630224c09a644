use hostmon::common::{Count, DataCount, IpAddress};
use hostmon::network_stat::{Captured, ConnectionType, FlowTable, InterfaceRawStat, NetworkRawStat};
use hostmon::network_stat::{UniConnection, UniConnectionStat};

fn flow(src_port: u16, dest_port: u16) -> UniConnection {
    UniConnection::new(
        IpAddress::V4(0x0a000001),
        src_port,
        IpAddress::V4(0x0a000002),
        dest_port,
        ConnectionType::TCP,
    )
}

fn packet(key: UniConnection, total: u128, real: u128) -> UniConnectionStat {
    UniConnectionStat {
        uni_conn: key,
        packet_count: Count(1),
        total_data_count: DataCount(total),
        real_data_count: DataCount(real),
        is_used: false,
    }
}

#[test]
fn new_stat_counts_nothing() {
    let stat = UniConnectionStat::new(flow(1, 2));
    assert_eq!(stat.get_uni_conn(), flow(1, 2));
    assert_eq!(stat.get_packet_count(), Count(0));
    assert_eq!(stat.get_total_data_count(), DataCount(0));
    assert_eq!(stat.get_real_data_count(), DataCount(0));
    assert!(!stat.is_used);
}

#[test]
fn stats_of_one_flow_add_up() {
    let a = packet(flow(1, 2), 100, 40);
    let mut b = packet(flow(1, 2), 200, 140);
    b.mark_as_used();
    assert!(a.can_add(&b));
    let sum = a.add(b);
    assert_eq!(sum.packet_count, Count(2));
    assert_eq!(sum.total_data_count, DataCount(300));
    assert_eq!(sum.real_data_count, DataCount(180));
    assert!(!sum.is_used);
    b.add_assign(a);
    assert_eq!(b.packet_count, Count(2));
    assert_eq!(b.total_data_count, DataCount(300));
    assert!(b.is_used);
}

#[test]
fn stats_of_different_flows_or_past_the_counter_cannot_be_added() {
    let a = packet(flow(1, 2), 100, 40);
    assert!(!a.can_add(&packet(flow(2, 1), 1, 1)));
    let full = packet(flow(1, 2), u128::MAX, 0);
    assert!(!a.can_add(&full));
    assert!(!a.sum_is_in_range(&full));
    assert!(a.sum_is_in_range(&packet(flow(9, 9), 1, 1)));
}

#[test]
fn first_packet_of_a_flow_counts_once() {
    let mut table = FlowTable::new();
    assert!(table.can_record(&packet(flow(1, 2), 100, 40)));
    table.record(packet(flow(1, 2), 100, 40));
    let stat = table.get(&flow(1, 2)).unwrap();
    assert_eq!(stat.packet_count, Count(1));
    assert_eq!(stat.total_data_count, DataCount(100));
    assert_eq!(stat.real_data_count, DataCount(40));
    assert_eq!(table.get(&flow(2, 1)), None);
}

#[test]
fn packets_of_one_flow_are_summed_and_flows_kept_apart() {
    let mut table = FlowTable::new();
    table.record(packet(flow(1, 2), 100, 40));
    table.record(packet(flow(2, 1), 200, 140));
    table.record(packet(flow(1, 2), 60, 0));
    assert_eq!(table.stats.len(), 2);
    let forward = table.get(&flow(1, 2)).unwrap();
    assert_eq!(forward.packet_count, Count(2));
    assert_eq!(forward.total_data_count, DataCount(160));
    assert_eq!(forward.real_data_count, DataCount(40));
    let back = table.get(&flow(2, 1)).unwrap();
    assert_eq!(back.packet_count, Count(1));
    assert_eq!(back.total_data_count, DataCount(200));
    assert_eq!(table.position(&flow(2, 1)), Some(1));
    assert_eq!(table.position(&flow(7, 7)), None);
}

#[test]
fn table_refuses_what_would_pass_the_counter() {
    let mut table = FlowTable::new();
    table.record(packet(flow(1, 2), u128::MAX, 0));
    assert!(!table.can_record(&packet(flow(1, 2), 1, 0)));
    assert!(table.can_record(&packet(flow(3, 4), 1, 0)));
}

#[test]
fn snapshot_holds_the_flows_seen_since_the_last_one() {
    let mut pending = FlowTable::new();
    pending.record(packet(flow(1, 2), 100, 40));
    pending.record(packet(flow(3, 4), 100, 40));
    pending.record(packet(flow(1, 2), 100, 40));
    let snapshot = pending.take();
    let mut keys: Vec<u16> = snapshot.stats.iter().map(|s| s.uni_conn.src_port).collect();
    keys.sort();
    assert_eq!(keys, vec![1, 3]);
    assert!(pending.stats.is_empty());
    pending.record(packet(flow(5, 6), 10, 1));
    let next = pending.take();
    assert_eq!(next.stats.len(), 1);
    assert_eq!(next.stats[0].uni_conn, flow(5, 6));
    assert_eq!(next.stats[0].packet_count, Count(1));
}

#[test]
fn lookup_for_attribution_marks_the_flow() {
    let mut table = FlowTable::new();
    table.record(packet(flow(1, 2), 100, 40));
    let found = table.mark_used(&flow(1, 2)).unwrap();
    assert!(found.is_used);
    assert_eq!(found.total_data_count, DataCount(100));
    assert!(table.get(&flow(1, 2)).unwrap().is_used);
    assert_eq!(table.mark_used(&flow(9, 9)), None);
    assert_eq!(table.stats.len(), 1);
}

#[test]
fn sweep_removes_used_flows_and_keeps_the_rest() {
    let mut raw = NetworkRawStat::new();
    let mut eth0 = InterfaceRawStat::new("eth0".to_string(), "first".to_string());
    eth0.uni_conn_stats.record(packet(flow(1, 2), 100, 40));
    eth0.uni_conn_stats.record(packet(flow(3, 4), 100, 40));
    let mut lo = InterfaceRawStat::new("lo".to_string(), String::new());
    lo.uni_conn_stats.record(packet(flow(5, 6), 1, 1));
    raw.add_irawstat(eth0);
    raw.add_irawstat(lo);
    assert!(raw.get_irawstat(&"eth0".to_string()).unwrap().get_uni_conn_stat(&flow(1, 2)).is_some());
    assert!(raw.get_irawstat(&"lo".to_string()).unwrap().get_uni_conn_stat(&flow(9, 9)).is_none());
    assert!(raw.get_irawstat(&"wlan0".to_string()).is_none());
    raw.remove_unused_uni_connection_stats();
    assert_eq!(raw.irawstats.len(), 2);
    assert_eq!(raw.irawstats[0].iname, "eth0");
    assert_eq!(raw.irawstats[0].description, "first");
    assert_eq!(raw.irawstats[0].uni_conn_stats.stats.len(), 1);
    assert_eq!(raw.irawstats[0].uni_conn_stats.stats[0].uni_conn, flow(3, 4));
    assert_eq!(raw.irawstats[1].uni_conn_stats.stats.len(), 1);
    for irawstat in &raw.irawstats {
        for stat in &irawstat.uni_conn_stats.stats {
            assert!(!stat.is_used);
        }
    }
}

#[test]
fn flow_attributed_in_two_snapshots_is_gone_from_the_third() {
    let mut pending = FlowTable::new();
    let mut reported: Vec<Count> = Vec::new();
    // two cycles in which the flow has packets and is attributed
    for _ in 0..2 {
        pending.record(packet(flow(1, 2), 100, 40));
        let mut irawstat = InterfaceRawStat::new("eth0".to_string(), String::new());
        irawstat.uni_conn_stats = pending.take();
        reported.push(irawstat.get_uni_conn_stat(&flow(1, 2)).unwrap().packet_count);
        irawstat.remove_used_uni_conn_stats();
        assert!(irawstat.uni_conn_stats.stats.is_empty());
    }
    assert_eq!(reported, vec![Count(1), Count(1)]);
    // a third snapshot right after: no packet arrived, so the flow has no stat
    let mut irawstat = InterfaceRawStat::new("eth0".to_string(), String::new());
    irawstat.uni_conn_stats = pending.take();
    assert!(irawstat.get_uni_conn_stat(&flow(1, 2)).is_none());
}

#[test]
fn flows_of_an_interface_take_the_place_of_those_under_its_name() {
    let mut raw = NetworkRawStat::new();
    let mut first = InterfaceRawStat::new("eth0".to_string(), "first".to_string());
    first.uni_conn_stats.record(packet(flow(1, 2), 100, 40));
    let mut lo = InterfaceRawStat::new("lo".to_string(), String::new());
    lo.uni_conn_stats.record(packet(flow(5, 6), 1, 1));
    let mut second = InterfaceRawStat::new("eth0".to_string(), "second".to_string());
    second.uni_conn_stats.record(packet(flow(3, 4), 7, 3));
    raw.add_irawstat(first);
    raw.add_irawstat(lo);
    assert!(raw.is_wf());
    raw.add_irawstat(second);
    assert!(raw.is_wf());
    assert_eq!(raw.irawstats.len(), 2);
    assert_eq!(raw.irawstats[0].iname, "eth0");
    assert_eq!(raw.irawstats[0].description, "second");
    assert_eq!(raw.irawstats[0].uni_conn_stats.stats, vec![packet(flow(3, 4), 7, 3)]);
    assert_eq!(raw.irawstats[1].iname, "lo");
    let found = raw.get_irawstat(&"eth0".to_string()).unwrap();
    assert_eq!(found.description, "second");
    assert!(found.get_uni_conn_stat(&flow(1, 2)).is_none());
    assert!(found.get_uni_conn_stat(&flow(3, 4)).is_some());
}

#[test]
fn tables_with_a_flow_or_a_name_twice_are_not_well_formed() {
    let mut table = FlowTable::new();
    assert!(table.is_wf());
    table.record(packet(flow(1, 2), 100, 40));
    table.record(packet(flow(3, 4), 100, 40));
    table.record(packet(flow(1, 2), 100, 40));
    assert!(table.is_wf());
    table.stats.push(packet(flow(3, 4), 1, 1));
    assert!(!table.is_wf());

    let mut eth0 = InterfaceRawStat::new("eth0".to_string(), String::new());
    assert!(eth0.is_wf());
    eth0.uni_conn_stats = table;
    assert!(!eth0.is_wf());
    let mut raw = NetworkRawStat::new();
    assert!(raw.is_wf());
    raw.irawstats.push(eth0);
    assert!(!raw.is_wf());

    let mut twice = NetworkRawStat::new();
    twice.irawstats.push(InterfaceRawStat::new("eth0".to_string(), String::new()));
    twice.irawstats.push(InterfaceRawStat::new("lo".to_string(), String::new()));
    assert!(twice.is_wf());
    twice.irawstats.push(InterfaceRawStat::new("eth0".to_string(), "again".to_string()));
    assert!(!twice.is_wf());
}

fn udp_frame(src_port: u16, total_len: u16) -> Vec<u8> {
    let mut frame = vec![0u8; 12];
    frame.extend_from_slice(&[0x08, 0x00, 0x45, 0]);
    frame.extend_from_slice(&total_len.to_be_bytes());
    frame.extend_from_slice(&[0, 0, 0, 0, 64, 17, 0, 0, 10, 0, 0, 1, 10, 0, 0, 2]);
    frame.extend_from_slice(&src_port.to_be_bytes());
    frame.extend_from_slice(&[0, 53, 0, 0, 0, 0]);
    frame
}

#[test]
fn captured_frame_is_recorded_or_dropped() {
    let mut table = FlowTable::new();
    assert_eq!(table.record_frame(&udp_frame(5000, 60), 74), Captured::Recorded);
    assert_eq!(table.record_frame(&udp_frame(5000, 30), 44), Captured::Recorded);
    assert_eq!(table.record_frame(&udp_frame(5001, 28), 42), Captured::Recorded);
    // a frame that is no IP, one of another protocol and one cut short are dropped
    let mut arp = udp_frame(5000, 60);
    arp[13] = 0x06;
    assert_eq!(table.record_frame(&arp, 74), Captured::Dropped);
    let mut icmp = udp_frame(5000, 60);
    icmp[23] = 1;
    assert_eq!(table.record_frame(&icmp, 74), Captured::Dropped);
    assert_eq!(table.record_frame(&[0u8; 13], 74), Captured::Dropped);
    assert_eq!(table.stats.len(), 2);
    let key = UniConnection::new(
        IpAddress::V4(0x0a000001),
        5000,
        IpAddress::V4(0x0a000002),
        53,
        ConnectionType::UDP,
    );
    assert_eq!(
        table.get(&key),
        Some(UniConnectionStat {
            uni_conn: key,
            packet_count: Count(2),
            total_data_count: DataCount(118),
            real_data_count: DataCount(50),
            is_used: false,
        })
    );
    // a frame that would take a counter past its range changes nothing
    table.stats[0].total_data_count = DataCount(u128::MAX - 73);
    let before = table.stats.clone();
    assert_eq!(table.record_frame(&udp_frame(5000, 60), 74), Captured::TooLarge);
    assert_eq!(table.stats, before);
    assert_eq!(table.record_frame(&udp_frame(5000, 60), 73), Captured::Recorded);
    assert_eq!(table.stats[0].total_data_count, DataCount(u128::MAX));
}
