use hostmon::common::Timestamp;
use hostmon::config::filter::{Filter, InterfaceRawStat, InterfaceStat, NetworkRawStat, NetworkStat};
use hostmon::config::filter::{Process, ProcessStat, Thread, ThreadStat};
use hostmon::config::{has_irawstat_description, has_irawstat_iname, has_process_command};
use hostmon::config::{has_process_istat_connection_stats, has_process_netstat_pack_recv};
use hostmon::config::{has_process_pid, has_process_stat_total_rss, has_thread_stat_total_cpu_time};
use hostmon::config::{has_thread_tid, has_unix_timestamp, DaemonConfig, MonitorTarget};
use hostmon::process::Pid;
use hostmon::report::{chunk_message, ContainerStat, MessageChunk, TotalStat};

fn filter(all: bool) -> Filter {
    let thread_stat = ThreadStat {
        timestamp: all, total_system_cpu_time: all, total_user_cpu_time: all, total_cpu_time: all,
        total_io_read: all, total_io_write: all, total_block_io_read: all, total_block_io_write: all,
    };
    let interface_stat = InterfaceStat {
        iname: all, packet_sent: all, packet_recv: all, total_data_sent: all, total_data_recv: all,
        real_data_sent: all, real_data_recv: all, connection_stats: all,
    };
    let netstat = NetworkStat {
        pack_sent: all, pack_recv: all, total_data_sent: all, total_data_recv: all,
        real_data_sent: all, real_data_recv: all, interface_stat,
    };
    let stat = ProcessStat {
        timestamp: all, total_system_cpu_time: all, total_user_cpu_time: all, total_cpu_time: all,
        total_rss: all, total_vss: all, total_swap: all, total_io_read: all, total_io_write: all,
        total_block_io_read: all, total_block_io_write: all, netstat,
    };
    Filter {
        unix_timestamp: all,
        network_rawstat: NetworkRawStat {
            interface_rawstat: InterfaceRawStat { iname: all, description: all, uni_connection_stats: all },
        },
        process: Process {
            pid: all, parent_pid: all, uid: all, effective_uid: all, saved_uid: all, fs_uid: all,
            gid: all, effective_gid: all, saved_gid: all, fs_gid: all, real_pid: all,
            real_parent_pid: all, real_uid: all, real_effective_uid: all, real_saved_uid: all,
            real_fs_uid: all, real_gid: all, real_effective_gid: all, real_saved_gid: all,
            real_fs_gid: all, exec_path: all, command: all, child_real_pid_list: all,
            stat,
            thread: Thread { tid: all, pid: all, real_tid: all, real_pid: all, stat: thread_stat },
        },
    }
}

#[test]
fn field_is_left_out_when_the_filter_does_not_ask_for_it() {
    let all = filter(true);
    let none = filter(false);
    for (f, skip) in [(&all, false), (&none, true)] {
        assert_eq!(has_unix_timestamp(f), skip);
        assert_eq!(has_irawstat_iname(f), skip);
        assert_eq!(has_irawstat_description(f), skip);
        assert_eq!(has_process_pid(f), skip);
        assert_eq!(has_process_command(f), skip);
        assert_eq!(has_process_stat_total_rss(f), skip);
        assert_eq!(has_process_netstat_pack_recv(f), skip);
        assert_eq!(has_process_istat_connection_stats(f), skip);
        assert_eq!(has_thread_tid(f), skip);
        assert_eq!(has_thread_stat_total_cpu_time(f), skip);
    }
}

#[test]
fn each_flag_answers_for_its_own_field() {
    let mut f = filter(true);
    f.process.pid = false;
    f.process.thread.stat.total_cpu_time = false;
    f.network_rawstat.interface_rawstat.description = false;
    assert!(has_process_pid(&f));
    assert!(!has_process_command(&f));
    assert!(has_thread_stat_total_cpu_time(&f));
    assert!(!has_thread_tid(&f));
    assert!(has_irawstat_description(&f));
    assert!(!has_irawstat_iname(&f));
    assert!(!f.get_process().has_pid());
    assert!(f.get_process().has_command());
    assert!(f.has_unix_timestamp());
    assert!(!f.get_network_rawstat().get_irawstat().has_description());
    assert!(f.get_network_rawstat().get_irawstat().has_uni_connection_stats());
    assert!(f.get_process().get_stat().has_total_swap());
    assert!(f.get_process().get_stat().get_netstat().has_real_data_sent());
    assert!(f.get_process().get_stat().get_netstat().get_interface_stat().has_packet_recv());
    assert!(!f.get_process().get_thread().get_stat().has_total_cpu_time());
    assert!(f.get_process().get_thread().has_real_tid());
}

#[test]
fn configuration_answers_with_what_it_holds() {
    let config = DaemonConfig {
        old_kernel: true,
        capture_size_limit: 128,
        control_command_receive_timeout: 1_000_000,
        capture_thread_receive_timeout: 2_000_000,
        dev_flag: false,
        publish_msg_interval: 5,
        monitor_targets: vec![
            MonitorTarget { container_name: "/".to_string(), pid_list: vec![Pid(1), Pid(42)] },
            MonitorTarget { container_name: "web".to_string(), pid_list: vec![Pid(7)] },
        ],
        msg_chunk_size: Some(1000),
        filter: filter(true),
    };
    assert!(config.is_old_kernel());
    assert_eq!(config.get_capture_size_limit(), 128);
    assert_eq!(config.get_control_command_receive_timeout(), 1_000_000);
    assert_eq!(config.get_capture_thread_receive_timeout(), 2_000_000);
    assert!(!config.get_dev_flag());
    assert_eq!(config.get_publish_msg_interval(), 5);
    assert_eq!(config.get_message_chunk_size(), Some(1000));
    assert_eq!(*config.get_filter(), filter(true));
    let targets = config.get_monitor_targets();
    assert_eq!(targets.len(), 2);
    assert_eq!(targets[1].container_name, "web");
    assert_eq!(targets[0].pid_list, vec![Pid(1), Pid(42)]);
    assert!(targets[0].is_host());
    assert!(!targets[1].is_host());
    assert!(targets[0].wants(Pid(42)));
    assert!(!targets[0].wants(Pid(7)));
    assert!(targets[1].wants(Pid(7)));
}

#[test]
fn document_is_cut_into_chunks_of_the_configured_size() {
    let chunks = chunk_message("abcdefghij", Some(4));
    assert_eq!(chunks, vec!["abcd", "efgh", "ij"]);
    assert_eq!(chunk_message("abcdefgh", Some(4)), vec!["abcd", "efgh"]);
    assert_eq!(chunk_message("abc", Some(4)), vec!["abc"]);
    assert_eq!(chunk_message("abc", Some(1)), vec!["a", "b", "c"]);
    assert_eq!(chunk_message("", Some(4)), Vec::<String>::new());
    assert_eq!(chunk_message("abcdefghij", None), vec!["abcdefghij"]);
    assert_eq!(chunk_message("", None), vec![""]);
    // chunks are counted in characters, not in bytes
    assert_eq!(chunk_message("h\u{e9}llo w\u{f6}rld", Some(3)), vec!["h\u{e9}l", "lo ", "w\u{f6}r", "ld"]);
    let text = "{\"unix_timestamp\":1700000000,\"container_stats\":[]}";
    for size in 1..60 {
        let chunks = chunk_message(text, Some(size));
        assert_eq!(chunks.concat(), text);
        assert!(chunks.iter().all(|c| c.chars().count() <= size));
        assert_eq!(chunks.len(), (text.len() + size - 1) / size);
    }
}

#[test]
fn documents_start_empty() {
    let stat = ContainerStat::new("web".to_string());
    assert_eq!(stat.container_name, "web");
    assert!(stat.processes.is_empty());
    let chunk = MessageChunk::new("sensor".to_string(), "cluster".to_string(), "{}".to_string());
    assert_eq!((chunk.sensor_name.as_str(), chunk.cluster_name.as_str(), chunk.message.as_str()), ("sensor", "cluster", "{}"));
    let total = TotalStat::at(Timestamp(1_700_000_000_999_999_999));
    assert_eq!(total.unix_timestamp, 1_700_000_000);
    assert!(total.container_stats.is_empty());
    assert!(total.network_rawstat.irawstats.is_empty());
    assert_eq!(TotalStat::at(Timestamp(u128::MAX)).unix_timestamp, u64::MAX);
    assert!(TotalStat::new().unix_timestamp > 1_577_836_800);
}

#[test]
fn container_walk_starts_from_the_listed_processes_that_are_configured() {
    let target = MonitorTarget { container_name: "web".to_string(), pid_list: vec![Pid(1), Pid(7)] };
    let listed = vec![(Pid(4000), Pid(1)), (Pid(4010), Pid(5)), (Pid(4020), Pid(7)), (Pid(3999), Pid(1))];
    assert_eq!(target.root_set(&listed, false), vec![Pid(4000), Pid(4020), Pid(3999)]);
    // a legacy kernel shows no ids inside the container: all that is listed is kept
    assert_eq!(target.root_set(&listed, true), vec![Pid(4000), Pid(4010), Pid(4020), Pid(3999)]);
    assert_eq!(target.root_set(&vec![], false), Vec::<Pid>::new());
    let none = MonitorTarget { container_name: "web".to_string(), pid_list: vec![] };
    assert_eq!(none.root_set(&listed, false), Vec::<Pid>::new());
    // the id on the host does not count
    assert_eq!(target.root_set(&vec![(Pid(1), Pid(2)), (Pid(7), Pid(8))], false), Vec::<Pid>::new());
}

#[test]
fn host_walk_starts_from_the_configured_processes() {
    let host = MonitorTarget { container_name: "/".to_string(), pid_list: vec![Pid(1), Pid(7)] };
    assert!(host.is_host());
    assert_eq!(host.root_set(&vec![], false), vec![Pid(1), Pid(7)]);
    assert_eq!(host.root_set(&vec![(Pid(4000), Pid(1))], true), vec![Pid(1), Pid(7)]);
}
