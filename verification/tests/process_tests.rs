use hostmon::common::{CommonError, Count, DataCount, Gid, Inode, IpAddress, ParseIntErrorKind};
use hostmon::common::{TimeCount, Timestamp, Uid};
use hostmon::network_stat::{Connection, ConnectionType, InterfaceAddress, InterfaceInfo};
use hostmon::network_stat::{InterfaceRawStat, NetworkRawStat, UniConnectionStat};
use hostmon::process::{attribute_socket, container_pids, contains_pid, parse_children, parse_memory};
use hostmon::process::{parse_namespace_parent, parse_namespace_pid, parse_namespace_tid, parse_status};
use hostmon::process::{read_field, read_keyed_field, socket_inode, FieldRefusal};
use hostmon::process::{on_stack, walk_step, Attribution, ConnectionStat, GidMap, GidMapEntry};
use hostmon::process::InterfaceStat;
use hostmon::process::{NetworkStat, Pid, Process, ProcessError, ProcessStat, Thread, ThreadStat, Tid};
use hostmon::process::{TokenAt, UidMap, UidMapEntry};
use hostmon::taskstat::{TaskStats, TaskStatsError, TaskStatsRaw, TaskStatsRawV8};

const STATUS: &str = "Name:\tnginx\nUmask:\t0022\nState:\tS (sleeping)\nTgid:\t4242\nNgid:\t0\nPid:\t4242\nPPid:\t4000\nTracerPid:\t0\nUid:\t1000\t1001\t1002\t1003\nGid:\t2000\t2001\t2002\t2003\nFDSize:\t64\nGroups:\t27 1000\nNStgid:\t4242\t17\nNSpid:\t4243\t18\nNSpgid:\t4242\t17\nNSsid:\t4242\t17\nVmPeak:\t  10000 kB\nVmSize:\t   9000 kB\nVmLck:\t       0 kB\nVmPin:\t       0 kB\nVmHWM:\t    5000 kB\nVmRSS:\t    4000 kB\nRssAnon:\t    1000 kB\nRssFile:\t    3000 kB\nRssShmem:\t       0 kB\nVmData:\t     500 kB\nVmStk:\t     132 kB\nVmExe:\t     900 kB\nVmLib:\t    2000 kB\nVmPTE:\t      50 kB\nVmSwap:\t      70 kB\n";

fn conn() -> Connection {
    Connection::new(IpAddress::V4(0x0a000001), 40000, IpAddress::V4(0x0a000002), 80, ConnectionType::TCP)
}

fn process_of(real_pid: Pid) -> Process {
    let mut process = process();
    process.real_pid = real_pid;
    process
}

fn process() -> Process {
    Process::new(
        Pid(17), Pid(1), Uid(0), Uid(1), Uid(2), Uid(3), Gid(4), Gid(5), Gid(6), Gid(7),
        Pid(4242), Pid(4000), Uid(1000), Uid(1001), Uid(1002), Uid(1003),
        Gid(2000), Gid(2001), Gid(2002), Gid(2003),
        "/usr/sbin/nginx".to_string(), "nginx\n".to_string(),
    )
}

#[test]
fn pids_and_tids_keep_their_numbers() {
    assert_eq!(Pid::new(7), Pid(7));
    assert_eq!(Pid::new(7).to_usize(), 7);
    assert_eq!(Pid(7).to_u32(), 7);
    assert_eq!(Pid((1u128 << 32) + 5).to_u32(), 5);
    assert_eq!(Pid(u128::MAX).to_usize(), usize::MAX);
    assert_eq!(Tid::new(9), Tid(9));
    assert_eq!(Tid((3u128 << 32) + 9).to_u32(), 9);
    assert_eq!(Pid::try_from("4242").unwrap(), Pid(4242));
    assert_eq!(Pid(4242).to_string(), "4242");
    assert_eq!(Tid(0).to_string(), "0");
    assert_eq!(Tid::try_from(&Tid(18).to_string()).unwrap(), Tid(18));
    assert_eq!(Tid::try_from("18").unwrap(), Tid(18));
    assert!(Pid::try_from("x").is_err());
    assert!(Tid::try_from("").is_err());
}

#[test]
fn connection_stat_takes_sent_from_the_outbound_flow() {
    let c = conn();
    assert_eq!(c.to_outbound().src_port, 40000);
    assert_eq!(c.to_outbound().dest_addr, IpAddress::V4(0x0a000002));
    assert_eq!(c.to_inbound().src_port, 80);
    assert_eq!(c.to_inbound().dest_port, 40000);
    let sent = UniConnectionStat { packet_count: Count(1), total_data_count: DataCount(100), real_data_count: DataCount(40), ..UniConnectionStat::new(c.to_outbound()) };
    let recv = UniConnectionStat { packet_count: Count(2), total_data_count: DataCount(200), real_data_count: DataCount(140), ..UniConnectionStat::new(c.to_inbound()) };
    let stat = ConnectionStat::from_flows(c, &sent, &recv);
    assert_eq!(stat.get_connection(), c);
    assert_eq!(stat.get_pack_sent(), Count(1));
    assert_eq!(stat.get_pack_recv(), Count(2));
    assert_eq!(stat.get_total_data_sent(), DataCount(100));
    assert_eq!(stat.get_total_data_recv(), DataCount(200));
    assert_eq!(stat.get_real_data_sent(), DataCount(40));
    assert_eq!(stat.get_real_data_recv(), DataCount(140));
    let twice = stat.add(stat);
    assert_eq!(twice.pack_recv, Count(4));
    assert_eq!(twice.real_data_sent, DataCount(80));
    let mut more = ConnectionStat::new(c);
    assert_eq!(more.pack_sent, Count(0));
    more.add_assign(twice);
    assert_eq!(more, twice);
}

#[test]
fn traffic_is_summed_for_the_whole_and_for_each_interface() {
    let mut netstat = NetworkStat::new();
    let a = ConnectionStat { pack_sent: Count(1), total_data_sent: DataCount(10), ..ConnectionStat::new(conn()) };
    let other = Connection::new(IpAddress::V4(1), 1, IpAddress::V4(2), 2, ConnectionType::UDP);
    let b = ConnectionStat { pack_recv: Count(5), real_data_recv: DataCount(7), ..ConnectionStat::new(other) };
    assert!(netstat.can_add(&a));
    netstat.add_connection_stat("eth0", a);
    netstat.add_connection_stat("lo", b);
    netstat.add_connection_stat("eth0", b);
    // the same connection again: its counters count again, its stat is replaced
    netstat.add_connection_stat("eth0", a);
    assert_eq!(netstat.pack_sent, Count(2));
    assert_eq!(netstat.pack_recv, Count(10));
    assert_eq!(netstat.total_data_sent, DataCount(20));
    assert_eq!(netstat.real_data_recv, DataCount(14));
    assert_eq!(netstat.interface_stats.len(), 2);
    let eth0 = &netstat.interface_stats[0];
    assert_eq!(eth0.get_interface_name(), "eth0");
    assert_eq!(eth0.packet_sent, Count(2));
    assert_eq!(eth0.packet_recv, Count(5));
    assert_eq!(eth0.connection_stats, vec![a, b]);
    let lo = &netstat.interface_stats[1];
    assert_eq!(lo.iname, "lo");
    assert_eq!(lo.packet_recv, Count(5));
    assert_eq!(lo.connection_stats, vec![b]);
    let full = ConnectionStat { pack_sent: Count(u128::MAX), ..ConnectionStat::new(conn()) };
    assert!(!netstat.can_add(&full));
    let fresh = InterfaceStat::new("wlan0");
    assert_eq!(fresh.iname, "wlan0");
    assert_eq!(fresh.total_data_recv, DataCount(0));
    assert!(fresh.connection_stats.is_empty());
}

#[test]
fn thread_cpu_time_is_system_plus_user() {
    let raw = TaskStatsRaw::V8(TaskStatsRawV8 {
        exitcode: 0, flags: 0, nice: 0, cpu_delay_count: 0, cpu_delay_total: 0,
        block_io_delay_count: 0, block_io_delay_total: 0, swapin_delay_count: 0, swapin_delay_total: 0,
        cpu_runtime_real_total: 0, cpu_runtime_virtual_total: 0, command_high: 0, command_low: 0,
        scheduling_discipline: 0, uid: 0, gid: 0, pid: 0, parent_pid: 0, begin_time: 0, elapsed_time: 0,
        user_cpu_time: 300, system_cpu_time: 200, minor_fault_count: 0, major_fault_count: 0,
        accumulated_rss: 0, accumulated_vss: 0, high_water_rss: 0, high_water_vss: 0,
        io_read_bytes: 11, io_write_bytes: 12, read_syscall_count: 0, write_syscall_count: 0,
        block_io_read_bytes: 13, block_io_write_bytes: 14, cancelled_block_io_write_bytes: 0,
        voluntary_context_switches: 0, nonvoluntary_context_switches: 0, user_time_scaled: 0,
        system_time_scaled: 0, run_real_total_scaled: 0, free_pages_delay_count: 0, free_pages_delay_total: 0,
    });
    let taskstats = raw.to_taskstats_at(Timestamp(1)).unwrap();
    let mut thread = Thread::new(Tid(18), Pid(17), Tid(4243), Pid(4242));
    assert_eq!(thread.stat.total_cpu_time, TimeCount(0));
    let stat = thread.get_stat(&taskstats);
    assert_eq!(stat.get_total_system_cpu_time(), TimeCount(200_000));
    assert_eq!(stat.get_total_user_cpu_time(), TimeCount(300_000));
    assert_eq!(stat.get_total_cpu_time(), TimeCount(500_000));
    assert_eq!(stat.get_total_io_read(), DataCount(11));
    assert_eq!(stat.get_total_io_write(), DataCount(12));
    assert_eq!(stat.get_total_block_io_read(), DataCount(13));
    assert_eq!(stat.get_total_block_io_write(), DataCount(14));
    assert_eq!(thread.stat, stat);
    assert_eq!(
        (thread.get_tid(), thread.get_pid(), thread.get_real_tid(), thread.get_real_pid()),
        (Tid(18), Pid(17), Tid(4243), Pid(4242))
    );

    let mut proc = process();
    assert!(proc.stat.can_add_thread_stat(&stat));
    proc.add_thread(thread);
    proc.add_thread(thread);
    assert_eq!(proc.threads.len(), 2);
    assert_eq!(proc.stat.total_cpu_time, TimeCount(1_000_000));
    assert_eq!(proc.stat.total_system_cpu_time, TimeCount(400_000));
    assert_eq!(proc.stat.total_io_write, DataCount(24));
    assert_eq!(proc.stat.total_block_io_read, DataCount(26));
    let heavy = ThreadStat { total_io_read: DataCount(u128::MAX), ..ThreadStat::new() };
    assert!(!proc.stat.can_add_thread_stat(&heavy));
}

#[test]
fn new_process_has_used_nothing() {
    let proc = process();
    assert_eq!((proc.pid, proc.parent_pid, proc.real_pid, proc.real_parent_pid), (Pid(17), Pid(1), Pid(4242), Pid(4000)));
    assert_eq!((proc.uid, proc.effective_uid, proc.saved_uid, proc.fs_uid), (Uid(0), Uid(1), Uid(2), Uid(3)));
    assert_eq!((proc.gid, proc.effective_gid, proc.saved_gid, proc.fs_gid), (Gid(4), Gid(5), Gid(6), Gid(7)));
    assert_eq!((proc.real_uid, proc.real_fs_uid, proc.real_gid, proc.real_fs_gid), (Uid(1000), Uid(1003), Gid(2000), Gid(2003)));
    assert_eq!(proc.exec_path, "/usr/sbin/nginx");
    assert_eq!(proc.command, "nginx\n");
    assert!(proc.threads.is_empty());
    assert!(proc.child_real_pid_list.is_empty());
    assert_eq!(proc.stat.total_rss, DataCount(0));
    assert!(proc.stat.netstat.interface_stats.is_empty());
    let mut stat = ProcessStat::new();
    stat.add_memory(9000, 4000, 70);
    assert_eq!(stat.total_vss, DataCount(9000 * 1024));
    assert_eq!(stat.total_rss, DataCount(4000 * 1024));
    assert_eq!(stat.total_swap, DataCount(70 * 1024));
}

#[test]
fn id_map_maps_by_the_first_entry_that_covers() {
    let map = UidMap::try_from("         0     100000      65536\n     70000       5000         10\n").unwrap();
    assert_eq!(map.uid_map_entries.len(), 2);
    assert_eq!(map.map_to_uid(Uid(100000)), Some(Uid(0)));
    assert_eq!(map.map_to_uid(Uid(101000)), Some(Uid(1000)));
    assert_eq!(map.map_to_uid(Uid(165535)), Some(Uid(65535)));
    assert_eq!(map.map_to_uid(Uid(165536)), None);
    assert_eq!(map.map_to_uid(Uid(5009)), Some(Uid(70009)));
    assert_eq!(map.map_to_uid(Uid(5010)), None);
    assert_eq!(map.map_to_uid(Uid(5003)), Some(Uid(70003)));
    assert_eq!(map.map_to_uid(Uid(99999)), None);
    for real in [100000u128, 123456, 165535, 5000, 5009] {
        let mapped = map.map_to_uid(Uid(real)).unwrap();
        assert!(map.uid_map_entries.iter().any(|e| e.uid_start <= mapped && mapped < e.uid_end));
    }
    let gids = GidMap::try_from("0 0 4294967295").unwrap();
    assert_eq!(gids.map_to_gid(Gid(27)), Some(Gid(27)));
    assert_eq!(UidMap::new().map_to_uid(Uid(0)), None);
    assert_eq!(GidMap::new().map_to_gid(Gid(0)), None);
    assert!(UidMap::try_from("").unwrap().uid_map_entries.is_empty());
}

#[test]
fn id_map_entry_ends_before_its_end() {
    let entry = UidMapEntry::new(Uid(10), Uid(1000), 5);
    assert_eq!((entry.uid_start, entry.uid_end), (Uid(10), Uid(15)));
    assert_eq!((entry.real_uid_start, entry.real_uid_end), (Uid(1000), Uid(1005)));
    assert_eq!(entry.length, 5);
    assert_eq!(entry.map_to_uid(Uid(999)), None);
    assert_eq!(entry.map_to_uid(Uid(1000)), Some(Uid(10)));
    assert_eq!(entry.map_to_uid(Uid(1004)), Some(Uid(14)));
    assert_eq!(entry.map_to_uid(Uid(1005)), None);
    assert_eq!(UidMapEntry::new(Uid(0), Uid(1000), 10).map_to_uid(Uid(1010)), None);
    assert_eq!(UidMapEntry::try_from(" 10 1000 5 ").unwrap(), entry);
    let group = GidMapEntry::new(Gid(0), Gid(7), 1);
    assert_eq!(group.map_to_gid(Gid(7)), Some(Gid(0)));
    assert_eq!(group.map_to_gid(Gid(8)), None);
    assert_eq!(GidMapEntry::try_from("0\t7\t1").unwrap(), group);
}

#[test]
fn adjacent_ranges_make_one_map() {
    let map = UidMap::try_from("0 1000 10\n10 2000 10").unwrap();
    assert_eq!(map.uid_map_entries.len(), 2);
    assert_eq!(map.map_to_uid(Uid(2003)), Some(Uid(13)));
    assert_eq!(map.map_to_uid(Uid(1004)), Some(Uid(4)));
    assert_eq!(map.map_to_uid(Uid(1010)), None);
    assert_eq!(map.map_to_uid(Uid(2010)), None);
    let gids = GidMap::try_from("0 1000 10\n10 2000 10").unwrap();
    assert_eq!(gids.map_to_gid(Gid(2003)), Some(Gid(13)));
    assert_eq!(gids.map_to_gid(Gid(1004)), Some(Gid(4)));
    assert_eq!(gids.map_to_gid(Gid(1010)), None);
}

#[test]
fn id_map_refuses_bad_lines_and_overlap() {
    assert!(matches!(UidMapEntry::try_from("1 2"), Err(ProcessError::UIDMapErr)));
    assert!(matches!(UidMapEntry::try_from("1 2 3 4"), Err(ProcessError::UIDMapErr)));
    assert!(matches!(UidMapEntry::try_from("1 2 0"), Err(ProcessError::UIDMapErr)));
    assert!(matches!(UidMapEntry::try_from("1 x 3"), Err(ProcessError::UIDMapErr)));
    assert!(matches!(UidMapEntry::try_from(""), Err(ProcessError::UIDMapErr)));
    assert!(matches!(GidMapEntry::try_from("1 2 -3"), Err(ProcessError::GIDMapErr)));
    // inside the namespace: the second range starts in the first
    assert!(matches!(UidMap::try_from("0 1000 10\n5 5000 10\n"), Err(ProcessError::UIDMapErr)));
    // inside the namespace: the second range holds the first
    assert!(matches!(UidMap::try_from("5 1000 2\n0 5000 100\n"), Err(ProcessError::UIDMapErr)));
    // outside the namespace
    assert!(matches!(UidMap::try_from("0 1000 10\n100 1005 10\n"), Err(ProcessError::UIDMapErr)));
    assert!(matches!(UidMap::try_from("0 1000 10\n20 1005 10"), Err(ProcessError::UIDMapErr)));
    // a range may start where another ends
    assert!(matches!(GidMap::try_from("0 1000 10\n9 5000 10\n"), Err(ProcessError::GIDMapErr)));
    assert!(GidMap::try_from("0 1000 10\n10 5000 10\n").is_ok());
    assert!(matches!(GidMap::try_from("0 1000 10\n20 1009 10\n"), Err(ProcessError::GIDMapErr)));
    assert!(GidMap::try_from("0 1000 10\n20 1010 10\n").is_ok());
    assert!(matches!(GidMap::try_from("0 1000 10\n\n"), Err(ProcessError::GIDMapErr)));
    assert!(matches!(UidMap::try_from("0 1000 10\nbad\n20 2000 1"), Err(ProcessError::UIDMapErr)));
}

#[test]
fn status_file_gives_the_ids() {
    let ids = parse_status(STATUS.as_bytes(), false, Pid(4242)).unwrap();
    assert_eq!(ids.pid, Pid(17));
    assert_eq!(ids.real_parent_pid, Pid(4000));
    assert_eq!((ids.real_uid, ids.real_effective_uid, ids.real_saved_uid, ids.real_fs_uid), (Uid(1000), Uid(1001), Uid(1002), Uid(1003)));
    assert_eq!((ids.real_gid, ids.real_effective_gid, ids.real_saved_gid, ids.real_fs_gid), (Gid(2000), Gid(2001), Gid(2002), Gid(2003)));
    // a legacy kernel shows no namespace id, and process 1 has no parent
    assert_eq!(parse_status(STATUS.as_bytes(), true, Pid(4242)).unwrap().pid, Pid(0));
    assert_eq!(parse_status(STATUS.as_bytes(), false, Pid(1)).unwrap().real_parent_pid, Pid(0));
    match parse_status(b"Name:\tx\n", false, Pid(5)) {
        Err(ProcessError::CommonErr(CommonError::ConvertErr(key))) => assert_eq!(key, "NStgid:"),
        other => panic!("{:?}", other),
    }
    // a layout shifted by one line is told apart, not misread
    let shifted = format!("Extra:\t1\n{}", STATUS);
    match parse_status(shifted.as_bytes(), true, Pid(5)) {
        Err(ProcessError::CommonErr(CommonError::ConvertErr(key))) => assert_eq!(key, "PPid:"),
        other => panic!("{:?}", other),
    }
    let broken = STATUS.replace("PPid:\t4000", "PPid:\tnone");
    assert!(matches!(
        parse_status(broken.as_bytes(), false, Pid(5)),
        Err(ProcessError::ParseIntErr(ParseIntErrorKind::InvalidDigit))
    ));
    let few = STATUS.replace("Gid:\t2000\t2001\t2002\t2003", "Gid:\t2000\t2001");
    assert!(matches!(
        parse_status(few.as_bytes(), true, Pid(5)),
        Err(ProcessError::ParseIntErr(ParseIntErrorKind::Empty))
    ));
}

#[test]
fn parent_id_in_the_namespace_comes_from_the_parents_status() {
    assert_eq!(parse_namespace_parent(STATUS.as_bytes(), false, Pid(5000), Pid(30)).unwrap(), Pid(17));
    assert_eq!(parse_namespace_parent(STATUS.as_bytes(), true, Pid(5000), Pid(30)).unwrap(), Pid(0));
    assert_eq!(parse_namespace_parent(STATUS.as_bytes(), false, Pid(1), Pid(1)).unwrap(), Pid(0));
    // the first process of a namespace has no parent in it
    assert_eq!(parse_namespace_parent(STATUS.as_bytes(), false, Pid(5000), Pid(1)).unwrap(), Pid(0));
    assert!(matches!(
        parse_namespace_parent(b"", false, Pid(5000), Pid(30)),
        Err(ProcessError::CommonErr(CommonError::ConvertErr(_)))
    ));
    assert_eq!(parse_namespace_pid(STATUS.as_bytes()).unwrap(), Pid(17));
    let no_number = STATUS.replace("NStgid:\t4242\t17", "NStgid:");
    assert!(matches!(
        parse_namespace_pid(no_number.as_bytes()),
        Err(ProcessError::ParseIntErr(ParseIntErrorKind::InvalidDigit))
    ));
    assert_eq!(parse_namespace_tid(STATUS.as_bytes(), false).unwrap(), Tid(18));
    assert_eq!(parse_namespace_tid(STATUS.as_bytes(), true).unwrap(), Tid(0));
    assert!(parse_namespace_tid(b"one line\n", false).is_err());
}

#[test]
fn status_file_gives_the_memory_in_kilobytes() {
    assert_eq!(parse_memory(STATUS.as_bytes(), false).unwrap(), (9000, 4000, 70));
    // on a legacy kernel the lines stand four higher
    let legacy: String = STATUS.lines().enumerate().filter(|(i, _)| ![12, 13, 14, 15].contains(i)).map(|(_, l)| format!("{}\n", l)).collect();
    assert_eq!(parse_memory(legacy.as_bytes(), true).unwrap(), (9000, 4000, 70));
    assert!(matches!(parse_memory(b"", false), Err(ProcessError::CommonErr(CommonError::ConvertErr(_)))));
    // the lines of a legacy kernel in a file that is not of one: refused, not misread
    match parse_memory(STATUS.as_bytes(), true) {
        Err(ProcessError::CommonErr(CommonError::ConvertErr(key))) => assert_eq!(key, "VmSize:"),
        other => panic!("{:?}", other),
    }
    let no_unit = STATUS.replace("VmSwap:\t      70 kB", "VmSwap:");
    assert!(matches!(
        parse_memory(no_unit.as_bytes(), false),
        Err(ProcessError::ParseIntErr(ParseIntErrorKind::Empty))
    ));
    assert_eq!(read_keyed_field(STATUS.as_bytes(), 5, "Pid:", TokenAt::Index(1), 5000), Ok(4242));
    assert_eq!(read_keyed_field(STATUS.as_bytes(), 5, "PPid:", TokenAt::Index(1), 5000), Err(FieldRefusal::Key));
    assert_eq!(read_keyed_field(STATUS.as_bytes(), 99, "Pid:", TokenAt::Last, 5000), Err(FieldRefusal::Key));
    assert_eq!(
        read_keyed_field(STATUS.as_bytes(), 5, "Pid:", TokenAt::Index(1), 10),
        Err(FieldRefusal::Number(ParseIntErrorKind::PosOverflow))
    );
    let no_number = STATUS.replace("VmRSS:\t    4000 kB", "VmRSS:\t    many kB");
    assert!(matches!(
        parse_memory(no_number.as_bytes(), false),
        Err(ProcessError::ParseIntErr(ParseIntErrorKind::InvalidDigit))
    ));
    assert_eq!(read_field(STATUS.as_bytes(), 3, TokenAt::Index(1), 5000), Ok(4242));
    assert_eq!(read_field(STATUS.as_bytes(), 3, TokenAt::Index(1), 4241), Err(ParseIntErrorKind::PosOverflow));
    assert_eq!(read_field(STATUS.as_bytes(), 11, TokenAt::Last, 5000), Ok(1000));
    assert_eq!(read_field(STATUS.as_bytes(), 99, TokenAt::Last, 5000), Err(ParseIntErrorKind::Empty));
}

#[test]
fn socket_link_names_its_inode() {
    assert_eq!(socket_inode(b"socket:[12345]"), Some(Inode(12345)));
    assert_eq!(socket_inode(b"socket:[1]"), Some(Inode(1)));
    assert_eq!(socket_inode(b"socket:[]"), None);
    assert_eq!(socket_inode(b"pipe:[12345]"), None);
    assert_eq!(socket_inode(b"/dev/null"), None);
    assert_eq!(socket_inode(b"socket:[12x45]"), None);
    assert_eq!(socket_inode(b"anon_inode:[eventpoll]"), None);
    assert_eq!(socket_inode(b""), None);
}

#[test]
fn children_and_listing_give_process_ids() {
    assert_eq!(parse_children(b"4300 4301 4302 ").unwrap(), vec![Pid(4300), Pid(4301), Pid(4302)]);
    assert_eq!(parse_children(b"4300").unwrap(), vec![Pid(4300)]);
    assert_eq!(parse_children(b"").unwrap(), Vec::<Pid>::new());
    assert_eq!(parse_children(b"4300  4301 \n").unwrap(), vec![Pid(4300), Pid(4301)]);
    assert_eq!(parse_children(b" \n").unwrap(), Vec::<Pid>::new());
    assert!(matches!(parse_children(b"43a0 "), Err(ProcessError::ParseIntErr(ParseIntErrorKind::InvalidDigit))));
    let listing = b"UID                 PID                 PPID                C\nroot                4242                4200                0\nwww-data            4300                4242                0\n";
    assert_eq!(container_pids(listing).unwrap(), vec![Pid(4242), Pid(4300)]);
    assert_eq!(container_pids(b"UID PID\n").unwrap(), Vec::<Pid>::new());
    assert_eq!(container_pids(b"").unwrap(), Vec::<Pid>::new());
    assert!(matches!(container_pids(b"UID PID\nroot\n"), Err(ProcessError::ParseIntErr(ParseIntErrorKind::Empty))));
    assert!(matches!(container_pids(b"UID PID\nroot pid\n"), Err(ProcessError::ParseIntErr(ParseIntErrorKind::InvalidDigit))));
}

#[test]
fn walk_visits_each_process_once() {
    let iterated = vec![Pid(1), Pid(5)];
    assert!(contains_pid(&iterated, Pid(5)));
    assert!(!contains_pid(&iterated, Pid(6)));

    let mut top = process_of(Pid(10));
    top.child_real_pid_list = vec![Pid(5), Pid(6), Pid(1), Pid(7), Pid(6), Pid(9), Pid(10)];
    let mut stack = vec![process_of(Pid(9)), top];
    let mut iterated = iterated;
    let (popped, children) = walk_step(&mut stack, &mut iterated).unwrap();
    assert_eq!(popped.real_pid, Pid(10));
    // 5 and 1 were walked, 9 waits on the stack, 10 is the process itself, 6 comes once
    assert_eq!(children, vec![Pid(6), Pid(7)]);
    assert_eq!(iterated, vec![Pid(1), Pid(5), Pid(10)]);
    assert_eq!(stack.len(), 1);
    assert!(on_stack(&stack, Pid(9)));
    assert!(!on_stack(&stack, Pid(10)));

    let (popped, children) = walk_step(&mut stack, &mut iterated).unwrap();
    assert_eq!(popped.real_pid, Pid(9));
    assert!(children.is_empty());
    assert_eq!(iterated, vec![Pid(1), Pid(5), Pid(10), Pid(9)]);
    assert!(walk_step(&mut stack, &mut iterated).is_none());
    assert_eq!(iterated, vec![Pid(1), Pid(5), Pid(10), Pid(9)]);
    assert!(stack.is_empty());
}

#[test]
fn process_named_by_two_parents_is_walked_once() {
    // 1 has the children 2 and 3, and both name 4
    let children_of = |pid: u128| -> Vec<Pid> {
        match pid {
            1 => vec![Pid(2), Pid(3)],
            2 => vec![Pid(4), Pid(3)],
            3 => vec![Pid(4), Pid(2), Pid(1)],
            _ => vec![],
        }
    };
    let load = |pid: Pid| -> Process {
        let mut process = process_of(pid);
        process.child_real_pid_list = children_of(pid.0);
        process
    };
    let mut stack = vec![load(Pid(1))];
    let mut iterated: Vec<Pid> = Vec::new();
    let mut walked: Vec<Pid> = Vec::new();
    while let Some((process, children)) = walk_step(&mut stack, &mut iterated) {
        for child in children {
            stack.push(load(child));
        }
        walked.push(process.real_pid);
    }
    assert_eq!(walked, vec![Pid(1), Pid(3), Pid(4), Pid(2)]);
    assert_eq!(iterated, walked);
}

fn answer(system_ms: u64, user_ms: u64) -> TaskStats {
    let raw = TaskStatsRaw::V8(TaskStatsRawV8 {
        exitcode: 0, flags: 0, nice: 0, cpu_delay_count: 0, cpu_delay_total: 0,
        block_io_delay_count: 0, block_io_delay_total: 0, swapin_delay_count: 0, swapin_delay_total: 0,
        cpu_runtime_real_total: 0, cpu_runtime_virtual_total: 0, command_high: 0, command_low: 0,
        scheduling_discipline: 0, uid: 0, gid: 0, pid: 0, parent_pid: 0, begin_time: 0, elapsed_time: 0,
        user_cpu_time: user_ms, system_cpu_time: system_ms, minor_fault_count: 0, major_fault_count: 0,
        accumulated_rss: 0, accumulated_vss: 0, high_water_rss: 0, high_water_vss: 0,
        io_read_bytes: 11, io_write_bytes: 12, read_syscall_count: 0, write_syscall_count: 0,
        block_io_read_bytes: 13, block_io_write_bytes: 14, cancelled_block_io_write_bytes: 0,
        voluntary_context_switches: 0, nonvoluntary_context_switches: 0, user_time_scaled: 0,
        system_time_scaled: 0, run_real_total_scaled: 0, free_pages_delay_count: 0, free_pages_delay_total: 0,
    });
    raw.to_taskstats_at(Timestamp(1)).unwrap()
}

#[test]
fn thread_is_kept_when_the_kernel_answers_for_it() {
    let mut proc = process();
    let first = Thread::new(Tid(18), Pid(17), Tid(4243), Pid(4242));
    let second = Thread::new(Tid(19), Pid(17), Tid(4244), Pid(4242));
    let answered = Ok(answer(200, 300));
    assert!(proc.can_take_thread(&first, &answered));
    assert!(proc.take_thread(first, answered));
    assert!(proc.take_thread(second, Ok(answer(1, 2))));
    assert_eq!(proc.threads.len(), 2);
    assert_eq!(proc.threads[0].real_tid, Tid(4243));
    assert_eq!(proc.threads[0].stat.total_system_cpu_time, TimeCount(200_000));
    assert_eq!(proc.threads[0].stat.total_user_cpu_time, TimeCount(300_000));
    assert_eq!(proc.threads[0].stat.total_cpu_time, TimeCount(500_000));
    assert_eq!(proc.threads[0].stat.total_io_read, DataCount(11));
    assert_eq!(proc.threads[0].stat.timestamp, first.stat.timestamp);
    assert_eq!(proc.threads[1].real_tid, Tid(4244));
    assert_eq!(proc.threads[1].stat.total_cpu_time, TimeCount(3_000));
    assert_eq!(proc.stat.total_system_cpu_time, TimeCount(201_000));
    assert_eq!(proc.stat.total_user_cpu_time, TimeCount(302_000));
    assert_eq!(proc.stat.total_cpu_time, TimeCount(503_000));
    assert_eq!(proc.stat.total_io_read, DataCount(22));
    assert_eq!(proc.stat.total_io_write, DataCount(24));
    assert_eq!(proc.stat.total_block_io_read, DataCount(26));
    assert_eq!(proc.stat.total_block_io_write, DataCount(28));
}

#[test]
fn thread_is_left_out_when_the_kernel_fails() {
    let mut proc = process();
    assert!(proc.take_thread(Thread::new(Tid(18), Pid(17), Tid(4243), Pid(4242)), Ok(answer(200, 300))));
    let gone = Thread::new(Tid(19), Pid(17), Tid(4244), Pid(4242));
    let failed: Result<TaskStats, TaskStatsError> = Err(TaskStatsError::GET_FAMILY_ID_ERROR);
    assert!(proc.can_take_thread(&gone, &failed));
    assert!(!proc.take_thread(gone, failed));
    assert_eq!(proc.threads.len(), 1);
    assert_eq!(proc.threads[0].real_tid, Tid(4243));
    assert_eq!(proc.stat.total_cpu_time, TimeCount(500_000));
    assert_eq!(proc.stat.total_io_read, DataCount(11));
    assert_eq!(proc.real_pid, Pid(4242));
    assert_eq!(proc.command, "nginx\n");
}

#[test]
fn thread_that_would_pass_a_counter_cannot_be_taken() {
    let mut proc = process();
    proc.stat.total_io_read = DataCount(u128::MAX - 10);
    let thread = Thread::new(Tid(18), Pid(17), Tid(4243), Pid(4242));
    assert!(!proc.can_take_thread(&thread, &Ok(answer(200, 300))));
    proc.stat.total_io_read = DataCount(u128::MAX - 11);
    assert!(proc.can_take_thread(&thread, &Ok(answer(200, 300))));
}

#[test]
fn well_formed_maps_and_traffic_are_told_apart() {
    let map = UidMap::try_from("0 1000 10\n10 2000 10").unwrap();
    assert!(map.is_wf());
    assert!(UidMap::new().is_wf());
    let overlapping = UidMap {
        uid_map_entries: vec![UidMapEntry::new(Uid(0), Uid(1000), 10), UidMapEntry::new(Uid(9), Uid(2000), 10)],
    };
    assert!(!overlapping.is_wf());
    let wrong_end = UidMapEntry { uid_end: Uid(11), ..UidMapEntry::new(Uid(0), Uid(1000), 10) };
    assert!(!wrong_end.is_wf());
    assert!(!UidMap { uid_map_entries: vec![wrong_end] }.is_wf());
    assert!(UidMapEntry::new(Uid(0), Uid(1000), 10).is_wf());
    let groups = GidMap {
        gid_map_entries: vec![GidMapEntry::new(Gid(0), Gid(1000), 10), GidMapEntry::new(Gid(20), Gid(1009), 10)],
    };
    assert!(!groups.is_wf());
    assert!(GidMap::try_from("0 0 4294967295").unwrap().is_wf());
    assert!(!(GidMapEntry { real_gid_end: Gid(0), ..GidMapEntry::new(Gid(0), Gid(1), 1) }).is_wf());

    let mut netstat = NetworkStat::new();
    assert!(netstat.is_wf());
    let c = conn();
    netstat.add_connection_stat("eth0", ConnectionStat { pack_sent: Count(2), ..ConnectionStat::new(c) });
    assert!(netstat.is_wf());
    netstat.interface_stats[0].packet_sent = Count(3);
    assert!(!netstat.is_wf());
    netstat.interface_stats[0].packet_sent = Count(2);
    netstat.interface_stats.push(InterfaceStat::new("lo"));
    assert!(netstat.is_wf());
    netstat.interface_stats.push(InterfaceStat::new("eth0"));
    assert!(!netstat.is_wf());
}

fn snapshot_with_one_flow_each_way() -> NetworkRawStat {
    let devices = vec![InterfaceInfo {
        name: "loop".to_string(),
        description: "loopback".to_string(),
        addresses: vec![InterfaceAddress { addr: IpAddress::V4(0x0a000001), netmask: Some(IpAddress::V4(0xffffff00)) }],
    }];
    let table = "  sl  local_address rem_address   st\n   0: 0100000A:9C40 0200000A:0050 01 0:0 0:0 0 1000 0 555 1\n";
    let mut raw = NetworkRawStat::new();
    raw.add_socket_table(table.as_bytes(), false, ConnectionType::TCP, &devices);
    let mut irawstat = InterfaceRawStat::new("loop".to_string(), "loopback".to_string());
    let c = conn();
    irawstat.uni_conn_stats.record(UniConnectionStat { packet_count: Count(1), total_data_count: DataCount(100), real_data_count: DataCount(40), ..UniConnectionStat::new(c.to_outbound()) });
    irawstat.uni_conn_stats.record(UniConnectionStat { packet_count: Count(1), total_data_count: DataCount(200), real_data_count: DataCount(140), ..UniConnectionStat::new(c.to_inbound()) });
    raw.add_irawstat(irawstat);
    raw
}

#[test]
fn single_tcp_flow_is_attributed_to_its_process() {
    let mut raw = snapshot_with_one_flow_each_way();
    let mut proc = process();
    assert_eq!(attribute_socket(&mut raw, &mut proc.stat.netstat, &Inode(555)), Attribution::Attributed);
    assert_eq!(attribute_socket(&mut raw, &mut proc.stat.netstat, &Inode(556)), Attribution::Unknown);
    let netstat = &proc.stat.netstat;
    assert_eq!(netstat.interface_stats.len(), 1);
    assert_eq!(netstat.interface_stats[0].iname, "loop");
    assert_eq!(
        netstat.interface_stats[0].connection_stats,
        vec![ConnectionStat {
            connection: conn(),
            pack_sent: Count(1),
            pack_recv: Count(1),
            total_data_sent: DataCount(100),
            total_data_recv: DataCount(200),
            real_data_sent: DataCount(40),
            real_data_recv: DataCount(140),
        }]
    );
    assert_eq!(netstat.pack_sent, Count(1));
    assert_eq!(netstat.total_data_recv, DataCount(200));
    // both flows are marked, so the sweep takes them out
    assert!(raw.irawstats[0].uni_conn_stats.stats.iter().all(|s| s.is_used));
    raw.remove_unused_uni_connection_stats();
    assert!(raw.irawstats[0].uni_conn_stats.stats.is_empty());
}

#[test]
fn socket_whose_flows_were_not_seen_counts_nothing() {
    let mut raw = snapshot_with_one_flow_each_way();
    raw.irawstats[0].uni_conn_stats.take();
    let mut netstat = NetworkStat::new();
    assert_eq!(attribute_socket(&mut raw, &mut netstat, &Inode(555)), Attribution::Attributed);
    assert_eq!(netstat.interface_stats[0].connection_stats, vec![ConnectionStat::new(conn())]);
    assert_eq!(netstat.pack_sent, Count(0));
}

#[test]
fn socket_without_interface_or_flows_of_it_is_unknown() {
    let mut raw = snapshot_with_one_flow_each_way();
    raw.irawstats.clear();
    let mut netstat = NetworkStat::new();
    assert_eq!(attribute_socket(&mut raw, &mut netstat, &Inode(555)), Attribution::Unknown);
    let mut no_name = snapshot_with_one_flow_each_way();
    no_name.iname_lookup_table.clear();
    assert_eq!(attribute_socket(&mut no_name, &mut netstat, &Inode(555)), Attribution::Unknown);
    assert!(netstat.interface_stats.is_empty());
    assert!(no_name.irawstats[0].uni_conn_stats.stats.iter().all(|s| !s.is_used));
}

#[test]
fn attribution_that_would_pass_a_counter_changes_nothing() {
    let mut raw = snapshot_with_one_flow_each_way();
    let mut netstat = NetworkStat::new();
    netstat.total_data_sent = DataCount(u128::MAX - 99);
    assert_eq!(attribute_socket(&mut raw, &mut netstat, &Inode(555)), Attribution::TooLarge);
    assert!(netstat.interface_stats.is_empty());
    assert_eq!(netstat.total_data_sent, DataCount(u128::MAX - 99));
    assert!(raw.irawstats[0].uni_conn_stats.stats.iter().all(|s| !s.is_used));
}

#[test]
fn statistics_of_two_processes_add_up() {
    let a = ConnectionStat { pack_sent: Count(1), total_data_sent: DataCount(10), ..ConnectionStat::new(conn()) };
    let other = Connection::new(IpAddress::V4(1), 1, IpAddress::V4(2), 2, ConnectionType::UDP);
    let b = ConnectionStat { pack_recv: Count(5), real_data_recv: DataCount(7), ..ConnectionStat::new(other) };
    let mut mine = ProcessStat::new();
    mine.add_memory(10, 20, 30);
    mine.netstat.add_connection_stat("eth0", a);
    let stamp = mine.timestamp;
    let mut theirs = ProcessStat::new();
    theirs.add_memory(1, 2, 3);
    theirs.total_cpu_time = TimeCount(9);
    theirs.total_io_read = DataCount(4);
    theirs.netstat.add_connection_stat("eth0", a);
    theirs.netstat.add_connection_stat("eth0", b);
    theirs.netstat.add_connection_stat("lo", b);
    assert!(mine.netstat.is_wf() && theirs.netstat.is_wf());
    mine.add_assign(&theirs);
    assert!(mine.netstat.is_wf());
    assert_eq!(mine.timestamp, stamp);
    assert_eq!(mine.total_vss, DataCount(11 * 1024));
    assert_eq!(mine.total_rss, DataCount(22 * 1024));
    assert_eq!(mine.total_swap, DataCount(33 * 1024));
    assert_eq!(mine.total_cpu_time, TimeCount(9));
    assert_eq!(mine.total_io_read, DataCount(4));
    assert_eq!(mine.netstat.pack_sent, Count(2));
    assert_eq!(mine.netstat.pack_recv, Count(10));
    assert_eq!(mine.netstat.interface_stats.len(), 2);
    let eth0 = &mine.netstat.interface_stats[0];
    assert_eq!(eth0.iname, "eth0");
    assert_eq!(eth0.packet_sent, Count(2));
    assert_eq!(eth0.packet_recv, Count(5));
    assert_eq!(eth0.connection_stats.len(), 2);
    assert_eq!(eth0.connection_stats[0], a.add(a));
    assert_eq!(eth0.connection_stats[1], b);
    let lo = &mine.netstat.interface_stats[1];
    assert_eq!(lo.iname, "lo");
    assert_eq!(lo.connection_stats, vec![b]);
    assert_eq!(lo.total_data_recv, DataCount(0));
    assert_eq!(lo.real_data_recv, DataCount(7));

    let sum = ProcessStat::new().add(&mine);
    assert_eq!(sum.total_vss, mine.total_vss);
    assert_eq!(sum.netstat.interface_stats.len(), 2);
    assert_eq!(sum.netstat.interface_stats[0].connection_stats, eth0.connection_stats);
    assert!(sum.netstat.is_wf());
    let net = NetworkStat::new().add(&mine.netstat);
    assert_eq!(net.real_data_recv, DataCount(14));
    assert!(net.is_wf());
    let copy = eth0.duplicate();
    assert_eq!((copy.iname.as_str(), copy.packet_sent, copy.connection_stats.len()), ("eth0", Count(2), 2));
    let doubled = copy.add(eth0);
    assert_eq!(doubled.packet_sent, Count(4));
    assert_eq!(doubled.connection_stats, vec![a.add(a).add(a.add(a)), b.add(b)]);
}
