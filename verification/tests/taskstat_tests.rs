use hostmon::common::{Count, DataCount, Endian, Gid, TimeCount, Timestamp, Uid};
use hostmon::netlink::generic::{GenericNetlinkControlMessage, GenericNetlinkControlMessageAttribute};
use hostmon::netlink::generic::{GenericNetlinkControlMessageCommand, GenericNetlinkMessage};
use hostmon::netlink::generic::{GenericNetlinkMessageAttribute, GenericNetlinkMessageAttributeType};
use hostmon::netlink::generic::{GenericNetlinkMessageCommand, GenericNetlinkMessageType};
use hostmon::process::{Pid, Tid};
use hostmon::taskstat::{family_id_from, family_id_query, process_query, process_stats_from};
use hostmon::taskstat::{thread_query, thread_stats_from, TaskStatsAttribute, TaskStatsAttributeType};
use hostmon::taskstat::{TaskStatsCommand, TaskStatsCommandAttribute, TaskStatsCommandAttributeType};
use hostmon::taskstat::{TaskStatsError, TaskStatsMessage, TaskStatsRaw, TaskStatsRawV10};
use hostmon::taskstat::{TaskStatsRawV11, TaskStatsRawV8, TaskStatsRawV9, TaskStatsResultAttribute};
use hostmon::taskstat::{TaskStatsResultAttributeAggregatePid, TaskStatsResultAttributeAggregateTgid};
use hostmon::taskstat::TaskStatsResultAttributeType;

fn command(name: &str) -> (u128, u128) {
    let mut bytes = [0u8; 32];
    bytes[..name.len()].copy_from_slice(name.as_bytes());
    (
        u128::from_be_bytes(bytes[..16].try_into().unwrap()),
        u128::from_be_bytes(bytes[16..].try_into().unwrap()),
    )
}

fn sample() -> TaskStatsRawV8 {
    let (command_high, command_low) = command("postgres");
    TaskStatsRawV8 {
        exitcode: 3,
        flags: 4,
        nice: -5,
        cpu_delay_count: 6,
        cpu_delay_total: 7,
        block_io_delay_count: 8,
        block_io_delay_total: 9,
        swapin_delay_count: 10,
        swapin_delay_total: 11,
        cpu_runtime_real_total: 12,
        cpu_runtime_virtual_total: 13,
        command_high,
        command_low,
        scheduling_discipline: 2,
        uid: 1000,
        gid: 1001,
        pid: 4242,
        parent_pid: 1,
        begin_time: 1_700_000_000,
        elapsed_time: 14,
        user_cpu_time: 15,
        system_cpu_time: 16,
        minor_fault_count: 17,
        major_fault_count: 18,
        accumulated_rss: 19,
        accumulated_vss: 20,
        high_water_rss: 21,
        high_water_vss: 22,
        io_read_bytes: 23,
        io_write_bytes: 24,
        read_syscall_count: 25,
        write_syscall_count: 26,
        block_io_read_bytes: 27,
        block_io_write_bytes: 28,
        cancelled_block_io_write_bytes: 29,
        voluntary_context_switches: 30,
        nonvoluntary_context_switches: 31,
        user_time_scaled: 32,
        system_time_scaled: 33,
        run_real_total_scaled: 34,
        free_pages_delay_count: 35,
        free_pages_delay_total: u64::MAX,
    }
}

fn v9() -> TaskStatsRawV9 {
    TaskStatsRawV9 { base: sample(), thrashing_delay_count: 36, thrashing_delay_total: 37 }
}

fn v10() -> TaskStatsRawV10 {
    TaskStatsRawV10 { base: v9(), begin_time64: 1_700_000_000 }
}

fn v11() -> TaskStatsRawV11 {
    TaskStatsRawV11 { base: v10(), memory_compact_delay_count: 38, memory_compact_delay_total: 39 }
}

fn aggregate(kind: u16, id: u32, stats: &[u8]) -> TaskStatsAttribute {
    let mut payload = vec![8u8, 0];
    payload.extend_from_slice(&(kind - 3).to_le_bytes());
    payload.extend_from_slice(&id.to_le_bytes());
    payload.extend_from_slice(&((stats.len() + 4) as u16).to_le_bytes());
    payload.extend_from_slice(&3u16.to_le_bytes());
    payload.extend_from_slice(stats);
    TaskStatsAttribute::new(TaskStatsAttributeType::new(kind), payload)
}

fn answer(attrs: Vec<TaskStatsAttribute>) -> TaskStatsMessage {
    TaskStatsMessage { command: TaskStatsCommand::NEW, family_id: 23, attributes: attrs }
}

#[test]
fn record_has_the_kernel_layout() {
    let bytes = sample().to_byte_array(Endian::Little);
    assert_eq!(bytes.len(), 328);
    assert_eq!(&bytes[0..2], &[8, 0]);
    assert_eq!(&bytes[4..8], &3u32.to_le_bytes());
    assert_eq!(bytes[8], 4);
    assert_eq!(bytes[9], 0xfb);
    assert_eq!(&bytes[16..24], &6u64.to_le_bytes());
    assert_eq!(&bytes[72..80], &13u64.to_le_bytes());
    assert_eq!(&bytes[80..88], b"postgres");
    assert_eq!(&bytes[88..112], &[0u8; 24]);
    assert_eq!(bytes[112], 2);
    assert_eq!(&bytes[120..124], &1000u32.to_le_bytes());
    assert_eq!(&bytes[128..132], &4242u32.to_le_bytes());
    assert_eq!(&bytes[136..140], &1_700_000_000u32.to_le_bytes());
    assert_eq!(&bytes[144..152], &14u64.to_le_bytes());
    assert_eq!(&bytes[320..328], &u64::MAX.to_le_bytes());
    let big = sample().to_byte_array(Endian::Big);
    assert_eq!(&big[0..2], &[0, 8]);
    assert_eq!(&big[128..132], &4242u32.to_be_bytes());
    assert_eq!(&big[80..88], b"postgres");
    assert_eq!(v9().to_byte_array(Endian::Little).len(), 344);
    assert_eq!(v10().to_byte_array(Endian::Little).len(), 352);
    assert_eq!(v11().to_byte_array(Endian::Little).len(), 368);
    assert_eq!(&v11().to_byte_array(Endian::Little)[352..360], &38u64.to_le_bytes());
}

#[test]
fn every_version_survives_the_wire() {
    for endian in [Endian::Little, Endian::Big] {
        for raw in [TaskStatsRaw::V8(sample()), TaskStatsRaw::V9(v9()), TaskStatsRaw::V10(v10()), TaskStatsRaw::V11(v11())] {
            let mut bytes = raw.to_byte_array(endian);
            assert_eq!(TaskStatsRaw::from_byte_array(&bytes, endian).unwrap(), raw);
            // what follows the record is not looked at
            bytes.extend_from_slice(&[0xee; 24]);
            assert_eq!(TaskStatsRaw::from_byte_array(&bytes, endian).unwrap(), raw);
            let now = Timestamp(5);
            assert_eq!(
                format!("{:?}", TaskStatsRaw::from_byte_array(&bytes, endian).unwrap().to_taskstats_at(now).unwrap()),
                format!("{:?}", raw.to_taskstats_at(now).unwrap())
            );
        }
    }
    assert_eq!(TaskStatsRawV8::from_byte_array(&sample().to_byte_array(Endian::Big), Endian::Big).unwrap(), sample());
    assert_eq!(TaskStatsRawV9::from_byte_array(&v9().to_byte_array(Endian::Big), Endian::Big).unwrap(), v9());
    assert_eq!(TaskStatsRawV10::from_byte_array(&v10().to_byte_array(Endian::Little), Endian::Little).unwrap(), v10());
    assert_eq!(TaskStatsRawV11::from_byte_array(&v11().to_byte_array(Endian::Little), Endian::Little).unwrap(), v11());
}

#[test]
fn unsupported_version_is_refused_with_its_number() {
    let mut bytes = sample().to_byte_array(Endian::Little);
    bytes[0] = 7;
    assert!(matches!(
        TaskStatsRaw::from_byte_array(&bytes, Endian::Little),
        Err(TaskStatsError::UNSUPPORTED_TASKSTATS_VERSION(7))
    ));
    bytes[0] = 12;
    assert!(matches!(
        TaskStatsRaw::from_byte_array(&bytes, Endian::Little),
        Err(TaskStatsError::UNSUPPORTED_TASKSTATS_VERSION(12))
    ));
    // a record of one version read as another
    assert!(matches!(
        TaskStatsRawV9::from_byte_array(&sample().to_byte_array(Endian::Little), Endian::Little),
        Err(TaskStatsError::UNSUPPORTED_TASKSTATS_VERSION(8))
    ));
    assert!(matches!(
        TaskStatsRawV8::from_byte_array(&v11().to_byte_array(Endian::Little), Endian::Little),
        Err(TaskStatsError::UNSUPPORTED_TASKSTATS_VERSION(11))
    ));
    assert!(matches!(
        TaskStatsRawV10::from_byte_array(&[9, 0], Endian::Little),
        Err(TaskStatsError::UNSUPPORTED_TASKSTATS_VERSION(9))
    ));
    assert!(matches!(
        TaskStatsRawV11::from_byte_array(&[0, 10], Endian::Big),
        Err(TaskStatsError::UNSUPPORTED_TASKSTATS_VERSION(10))
    ));
}

#[test]
fn short_record_is_refused_with_its_bytes() {
    let bytes = v9().to_byte_array(Endian::Little);
    match TaskStatsRaw::from_byte_array(&bytes[..343], Endian::Little) {
        Err(TaskStatsError::TASK_STRUCT_ERROR(got)) => assert_eq!(got, bytes[..343].to_vec()),
        other => panic!("{:?}", other),
    }
    match TaskStatsRaw::from_byte_array(&[8], Endian::Little) {
        Err(TaskStatsError::TASK_STRUCT_ERROR(got)) => assert_eq!(got, vec![8]),
        other => panic!("{:?}", other),
    }
    assert!(matches!(TaskStatsRawV8::from_byte_array(&[], Endian::Little), Err(TaskStatsError::TASK_STRUCT_ERROR(_))));
    assert!(matches!(
        TaskStatsRawV11::from_byte_array(&v10().to_byte_array(Endian::Little)[..], Endian::Little),
        Err(TaskStatsError::UNSUPPORTED_TASKSTATS_VERSION(10))
    ));
}

#[test]
fn normalised_record_is_in_nanoseconds_and_bytes() {
    let stats = TaskStatsRaw::V8(sample()).to_taskstats_at(Timestamp(99)).unwrap();
    assert_eq!(stats.command_str.len(), 32);
    assert_eq!(stats.command_str.trim_end_matches('\0'), "postgres");
    assert_eq!(stats.pid, Pid(4242));
    assert_eq!(stats.parent_pid, Pid(1));
    assert_eq!(stats.uid, Uid(1000));
    assert_eq!(stats.gid, Gid(1001));
    assert_eq!(stats.nice, -5);
    assert_eq!(stats.flags, 4);
    assert_eq!(stats.exitcode, 3);
    assert_eq!(stats.timestamp, Timestamp(99));
    assert_eq!(stats.begin_time, Timestamp(1_700_000_000u128 * 1_000_000_000));
    assert_eq!(stats.scheduling_discipline, 2);
    assert_eq!(stats.elapsed_time, TimeCount(14_000));
    assert_eq!(stats.user_cpu_time, TimeCount(15_000));
    assert_eq!(stats.system_cpu_time, TimeCount(16_000));
    assert_eq!(stats.accumulated_rss, DataCount(19 * 1024 * 1024));
    assert_eq!(stats.accumulated_vss, DataCount(20 * 1024 * 1024));
    assert_eq!(stats.high_water_rss, DataCount(21 * 1024));
    assert_eq!(stats.high_water_vss, DataCount(22 * 1024));
    assert_eq!(stats.io_read, DataCount(23));
    assert_eq!(stats.io_write, DataCount(24));
    assert_eq!(stats.read_syscall_count, Count(25));
    assert_eq!(stats.write_syscall_count, Count(26));
    assert_eq!(stats.block_io_read, DataCount(27));
    assert_eq!(stats.block_io_write, DataCount(28));
    assert_eq!(stats.cancelled_block_io_write, DataCount(29));
    assert_eq!(stats.cpu_delay_count, Count(6));
    assert_eq!(stats.cpu_delay_total, TimeCount(7));
    assert_eq!(stats.block_io_delay_count, Count(8));
    assert_eq!(stats.block_io_delay_total, TimeCount(9));
    assert_eq!(stats.swapin_delay_count, Count(10));
    assert_eq!(stats.swapin_delay_total, TimeCount(11));
    assert_eq!(stats.cpu_runtime_real_total, TimeCount(12));
    assert_eq!(stats.cpu_runtime_virtual_total, TimeCount(13));
    assert_eq!(stats.minor_fault_count, Count(17));
    assert_eq!(stats.major_fault_count, Count(18));
    assert_eq!(stats.voluntary_context_switches, Count(30));
    assert_eq!(stats.nonvoluntary_context_switches, Count(31));
    assert_eq!(stats.user_time_scaled, TimeCount(32));
    assert_eq!(stats.system_time_scaled, TimeCount(33));
    assert_eq!(stats.run_real_total_scaled, TimeCount(34));
    assert_eq!(stats.free_pages_delay_count, Count(35));
    assert_eq!(stats.free_pages_delay_total, TimeCount(u64::MAX as u128));
    // what version 8 lacks is zero
    assert_eq!(stats.thrashing_delay_count, Count(0));
    assert_eq!(stats.thrashing_delay_total, TimeCount(0));
    assert_eq!(stats.memory_compact_delay_count, Count(0));
    assert_eq!(stats.memory_compact_delay_total, TimeCount(0));
}

#[test]
fn later_versions_add_their_delays() {
    let nine = v9().to_taskstats_at(Timestamp(1)).unwrap();
    assert_eq!(nine.thrashing_delay_count, Count(36));
    assert_eq!(nine.thrashing_delay_total, TimeCount(37));
    assert_eq!(nine.memory_compact_delay_count, Count(0));
    let ten = v10().to_taskstats_at(Timestamp(1)).unwrap();
    assert_eq!(ten.thrashing_delay_total, TimeCount(37));
    assert_eq!(ten.memory_compact_delay_total, TimeCount(0));
    assert_eq!(ten.begin_time, Timestamp(1_700_000_000u128 * 1_000_000_000));
    let eleven = v11().to_taskstats_at(Timestamp(1)).unwrap();
    assert_eq!(eleven.thrashing_delay_count, Count(36));
    assert_eq!(eleven.memory_compact_delay_count, Count(38));
    assert_eq!(eleven.memory_compact_delay_total, TimeCount(39));
    assert_eq!(eleven.pid, Pid(4242));
    let largest = TaskStatsRawV8 { elapsed_time: u64::MAX, accumulated_rss: u64::MAX, ..sample() };
    let stats = largest.to_taskstats_at(Timestamp(0)).unwrap();
    assert_eq!(stats.elapsed_time, TimeCount(u64::MAX as u128 * 1000));
    assert_eq!(stats.accumulated_rss, DataCount(u64::MAX as u128 * 1024 * 1024));
}

#[test]
fn record_read_now_is_stamped_by_the_clock() {
    let stats = TaskStatsRaw::V11(v11()).to_taskstats().unwrap();
    assert!(stats.timestamp.0 > 1_577_836_800u128 * 1_000_000_000);
    assert_eq!(stats.pid, Pid(4242));
    assert!(sample().to_taskstats().is_ok());
    assert!(v9().to_taskstats().is_ok());
    assert!(v10().to_taskstats().is_ok());
    assert!(v11().to_taskstats().is_ok());
}

#[test]
fn command_name_is_all_thirty_two_bytes_as_text() {
    let mut expected = String::from("postgres");
    while expected.len() < 32 {
        expected.push('\0');
    }
    assert_eq!(sample().command_str().unwrap(), expected);
    assert_eq!(v9().get_command_str().unwrap(), expected);
    assert_eq!(v10().command_str().unwrap(), expected);
    assert_eq!(v11().command_str().unwrap(), expected);
    let accented = command("caf\u{e9}");
    let raw = TaskStatsRawV8 { command_high: accented.0, command_low: accented.1, ..sample() };
    assert!(raw.command_str().unwrap().starts_with("caf\u{e9}"));
}

#[test]
fn command_name_that_is_not_text_is_refused_with_its_bytes() {
    let raw = TaskStatsRawV8 { command_high: 0xff << 120, command_low: 7, ..sample() };
    let mut bytes = vec![0u8; 32];
    bytes[0] = 0xff;
    bytes[31] = 7;
    match raw.command_str() {
        Err(TaskStatsError::TASK_STRUCT_ERROR(got)) => assert_eq!(got, bytes),
        other => panic!("{:?}", other),
    }
    assert!(matches!(raw.to_taskstats_at(Timestamp(0)), Err(TaskStatsError::TASK_STRUCT_ERROR(_))));
    assert!(matches!(TaskStatsRaw::V8(raw).to_taskstats(), Err(TaskStatsError::TASK_STRUCT_ERROR(_))));
}

#[test]
fn numbers_of_commands_and_attribute_types() {
    assert_eq!(TaskStatsCommand::GET.to_command(), GenericNetlinkMessageCommand::New(1));
    assert!(matches!(TaskStatsCommand::try_from(GenericNetlinkMessageCommand::New(0)), Ok(TaskStatsCommand::UNSPECIFIED)));
    assert!(matches!(TaskStatsCommand::try_from(GenericNetlinkMessageCommand::New(2)), Ok(TaskStatsCommand::NEW)));
    assert!(matches!(
        TaskStatsCommand::try_from(GenericNetlinkMessageCommand::New(3)),
        Err(TaskStatsError::UNKNOWN_COMMAND(3))
    ));
    assert_eq!(TaskStatsCommandAttributeType::TGID.to_attribute_type(), TaskStatsAttributeType(2));
    assert_eq!(TaskStatsCommandAttributeType::DeregisterCPUMask.to_attribute_type(), TaskStatsAttributeType(4));
    assert_eq!(TaskStatsResultAttributeType::AggrPid.to_attribute_type(), TaskStatsAttributeType(4));
    assert_eq!(TaskStatsResultAttributeType::NULL.to_attribute_type(), TaskStatsAttributeType(6));
    assert!(matches!(
        TaskStatsResultAttributeType::try_from(TaskStatsAttributeType(5)),
        Ok(TaskStatsResultAttributeType::AggrTGid)
    ));
    assert!(matches!(
        TaskStatsResultAttributeType::try_from(TaskStatsAttributeType(7)),
        Err(TaskStatsError::UNKNOWN_RESULT_ATTRIBUTE_TYPE(TaskStatsAttributeType(7)))
    ));
    assert_eq!(TaskStatsAttributeType::new(3).to_attribute_type(), GenericNetlinkMessageAttributeType::New(3));
    assert_eq!(
        TaskStatsAttributeType::from_attribute_type(GenericNetlinkMessageAttributeType::New(3)),
        TaskStatsAttributeType(3)
    );
}

#[test]
fn command_attributes_carry_ids_and_masks() {
    let pid = TaskStatsCommandAttribute::PID(Tid(0x01020304)).to_attribute(Endian::Little);
    assert_eq!(pid.get_type(), TaskStatsAttributeType(1));
    assert_eq!(pid.payload, vec![4, 3, 2, 1]);
    let tgid = TaskStatsCommandAttribute::TGID(Pid(0x1_0000_0005)).to_attribute(Endian::Big);
    assert_eq!(tgid.get_type(), TaskStatsAttributeType(2));
    assert_eq!(tgid.payload, vec![0, 0, 0, 5]);
    let mask = TaskStatsCommandAttribute::RegisterCPUMask("0-3".to_string());
    assert_eq!(mask.get_type(), TaskStatsCommandAttributeType::RegisterCPUMask);
    assert_eq!(mask.to_attribute(Endian::Little).payload, b"0-3\0".to_vec());
    let unmask = TaskStatsCommandAttribute::DeregisterCpuMask("1".to_string()).to_attribute(Endian::Little);
    assert_eq!((unmask.get_type(), unmask.payload), (TaskStatsAttributeType(4), b"1\0".to_vec()));
    let none = TaskStatsCommandAttribute::Unspecified.to_attribute(Endian::Little);
    assert_eq!((none.get_type(), none.payload), (TaskStatsAttributeType(0), vec![]));
    let generic = pid.to_attribute();
    assert_eq!(generic.Type().to_u16(), 1);
    let back = TaskStatsAttribute::from_attribute(generic);
    assert_eq!(back.payload, vec![4, 3, 2, 1]);
}

#[test]
fn result_attributes_are_read_by_their_type() {
    let le = Endian::Little;
    let stats = TaskStatsRaw::V10(v10());
    let bytes = stats.to_byte_array(le);
    assert_eq!(
        TaskStatsResultAttribute::try_from(&aggregate(4, 77, &bytes), le).unwrap(),
        TaskStatsResultAttribute::AggrPid(TaskStatsResultAttributeAggregatePid::new(Tid(77), stats))
    );
    assert_eq!(
        TaskStatsResultAttribute::try_from(&aggregate(5, 78, &bytes), le).unwrap(),
        TaskStatsResultAttribute::AggrTGid(TaskStatsResultAttributeAggregateTgid::new(Pid(78), stats))
    );
    let plain = TaskStatsAttribute::new(TaskStatsAttributeType(3), bytes.clone());
    assert_eq!(TaskStatsResultAttribute::try_from(&plain, le).unwrap(), TaskStatsResultAttribute::Stats(stats));
    let id = TaskStatsAttribute::new(TaskStatsAttributeType(1), vec![8, 0, 1, 0, 9, 0, 0, 0]);
    assert_eq!(TaskStatsResultAttribute::try_from(&id, le).unwrap(), TaskStatsResultAttribute::PID(Tid(9)));
    let group = TaskStatsAttribute::new(TaskStatsAttributeType(2), vec![8, 0, 2, 0, 0, 1, 0, 0]);
    assert_eq!(TaskStatsResultAttribute::try_from(&group, le).unwrap(), TaskStatsResultAttribute::TGID(Pid(256)));
    let null = TaskStatsAttribute::new(TaskStatsAttributeType(6), vec![]);
    assert_eq!(TaskStatsResultAttribute::try_from(&null, le).unwrap(), TaskStatsResultAttribute::NULL);
    let unspecified = TaskStatsAttribute::new(TaskStatsAttributeType(0), vec![1]);
    assert_eq!(TaskStatsResultAttribute::try_from(&unspecified, le).unwrap(), TaskStatsResultAttribute::Unspecified);
    assert_eq!(TaskStatsResultAttribute::Stats(stats).get_type(), TaskStatsResultAttributeType::Stats);
    assert_eq!(TaskStatsResultAttribute::NULL.get_type(), TaskStatsResultAttributeType::NULL);
}

#[test]
fn result_attributes_that_cannot_be_read_say_why() {
    let le = Endian::Little;
    let unknown = TaskStatsAttribute::new(TaskStatsAttributeType(9), vec![]);
    assert!(matches!(
        TaskStatsResultAttribute::try_from(&unknown, le),
        Err(TaskStatsError::UNKNOWN_RESULT_ATTRIBUTE_TYPE(TaskStatsAttributeType(9)))
    ));
    let short_id = TaskStatsAttribute::new(TaskStatsAttributeType(1), vec![1, 2, 3, 4]);
    match TaskStatsResultAttribute::try_from(&short_id, le) {
        Err(TaskStatsError::TASK_STRUCT_ERROR(bytes)) => assert_eq!(bytes, vec![1, 2, 3, 4]),
        other => panic!("{:?}", other),
    }
    let short_aggregate = TaskStatsAttribute::new(TaskStatsAttributeType(4), vec![0; 11]);
    assert!(matches!(TaskStatsResultAttribute::try_from(&short_aggregate, le), Err(TaskStatsError::TASK_STRUCT_ERROR(_))));
    let mut old = sample().to_byte_array(le);
    old[0] = 7;
    assert!(matches!(
        TaskStatsResultAttribute::try_from(&aggregate(4, 1, &old), le),
        Err(TaskStatsError::UNSUPPORTED_TASKSTATS_VERSION(7))
    ));
    let cut = &v11().to_byte_array(le)[..100];
    match TaskStatsResultAttribute::try_from(&aggregate(5, 1, cut), le) {
        Err(TaskStatsError::TASK_STRUCT_ERROR(bytes)) => assert_eq!(bytes, cut.to_vec()),
        other => panic!("{:?}", other),
    }
}

#[test]
fn queries_ask_for_one_thread_or_group() {
    let query = thread_query(23, Tid(4242), Endian::Little);
    assert_eq!(query.command, TaskStatsCommand::GET);
    assert_eq!(query.family_id, 23);
    assert_eq!(query.attributes.len(), 1);
    assert_eq!(query.attributes[0].get_type(), TaskStatsAttributeType(1));
    assert_eq!(query.attributes[0].payload, 4242u32.to_le_bytes().to_vec());
    let generic = query.to_generic();
    assert_eq!(generic.MessageType(), GenericNetlinkMessageType::New(23));
    assert_eq!(generic.Command(), GenericNetlinkMessageCommand::New(1));
    assert_eq!(generic.ToByteArray(Endian::Little), vec![1, 2, 0, 0, 8, 0, 1, 0, 0x92, 0x10, 0, 0]);
    let group = process_query(23, Pid(7), Endian::Big);
    assert_eq!(group.attributes[0].get_type(), TaskStatsAttributeType(2));
    assert_eq!(group.attributes[0].payload, vec![0, 0, 0, 7]);
    let mut built = TaskStatsMessage::New(5, TaskStatsCommand::NEW);
    built.AddCommandAttribute(TaskStatsCommandAttribute::Unspecified, Endian::Little);
    assert_eq!(built.attributes.len(), 1);
}

#[test]
fn generic_message_is_read_as_one_of_the_family() {
    let mut generic = GenericNetlinkMessage::New(GenericNetlinkMessageType::New(23), GenericNetlinkMessageCommand::New(2));
    generic.AddAttribute(GenericNetlinkMessageAttribute::New(GenericNetlinkMessageAttributeType::New(6), vec![]));
    generic.AddAttribute(GenericNetlinkMessageAttribute::New(GenericNetlinkMessageAttributeType::New(1), vec![1, 2]));
    let message = TaskStatsMessage::try_from(&generic).unwrap();
    assert_eq!(message.command, TaskStatsCommand::NEW);
    assert_eq!(message.family_id, 23);
    assert_eq!(message.attributes.len(), 2);
    assert_eq!(message.attributes[1].payload, vec![1, 2]);
    assert_eq!(message.GetResultAttribute(TaskStatsResultAttributeType::NULL, Endian::Little), Some(TaskStatsResultAttribute::NULL));
    // an attribute that is there but cannot be read gives nothing
    assert_eq!(message.GetResultAttribute(TaskStatsResultAttributeType::PID, Endian::Little), None);
    assert_eq!(message.GetResultAttribute(TaskStatsResultAttributeType::Stats, Endian::Little), None);
    let bad = GenericNetlinkMessage::New(GenericNetlinkMessageType::New(23), GenericNetlinkMessageCommand::New(9));
    assert!(matches!(TaskStatsMessage::try_from(&bad), Err(TaskStatsError::UNKNOWN_COMMAND(9))));
}

#[test]
fn answer_gives_the_record_of_the_thread_asked_for() {
    let le = Endian::Little;
    let stats = TaskStatsRaw::V9(v9());
    let bytes = stats.to_byte_array(le);
    assert_eq!(thread_stats_from(answer(vec![aggregate(4, 4242, &bytes)]), Tid(4242), le).unwrap(), stats);
    assert_eq!(process_stats_from(answer(vec![aggregate(5, 10, &bytes)]), Pid(10), le).unwrap(), stats);
    assert!(matches!(
        thread_stats_from(answer(vec![aggregate(4, 4243, &bytes)]), Tid(4242), le),
        Err(TaskStatsError::WRONG_TID(Tid(4243)))
    ));
    assert!(matches!(
        process_stats_from(answer(vec![aggregate(5, 11, &bytes)]), Pid(10), le),
        Err(TaskStatsError::WRONG_PID(Pid(11)))
    ));
    match thread_stats_from(answer(vec![aggregate(5, 4242, &bytes)]), Tid(4242), le) {
        Err(TaskStatsError::NO_AGGR_PID_ATTRIBUTE(back)) => assert_eq!(back.attributes.len(), 1),
        other => panic!("{:?}", other),
    }
    assert!(matches!(
        process_stats_from(answer(vec![]), Pid(10), le),
        Err(TaskStatsError::NO_AGGR_TGID_ATTRIBUTE(_))
    ));
}

#[test]
fn answer_with_an_unsupported_record_says_so() {
    let mut bytes = sample().to_byte_array(Endian::Little);
    bytes[0] = 7;
    assert!(matches!(
        thread_stats_from(answer(vec![aggregate(4, 4242, &bytes)]), Tid(4242), Endian::Little),
        Err(TaskStatsError::UNSUPPORTED_TASKSTATS_VERSION(7))
    ));
    assert!(matches!(
        process_stats_from(
            answer(vec![aggregate(5, 10, &sample().to_byte_array(Endian::Little)[..40])]),
            Pid(10),
            Endian::Little
        ),
        Err(TaskStatsError::TASK_STRUCT_ERROR(_))
    ));
    // the message itself still answers for its other attributes
    let message = answer(vec![aggregate(4, 4242, &bytes), TaskStatsAttribute::new(TaskStatsAttributeType(6), vec![])]);
    assert_eq!(message.position_of(TaskStatsResultAttributeType::NULL), Some(1));
    assert_eq!(message.GetResultAttribute(TaskStatsResultAttributeType::AggrPid, Endian::Little), None);
}

#[test]
fn family_id_is_asked_for_by_name_and_read_from_the_answer() {
    let query = family_id_query();
    assert_eq!(query.command, GenericNetlinkControlMessageCommand::GET_FAMILY_ID);
    let generic = query.to_generic(Endian::Little);
    let mut expected = vec![3u8, 2, 0, 0, 14, 0, 2, 0];
    expected.extend_from_slice(b"TASKSTATS\0");
    assert_eq!(generic.ToByteArray(Endian::Little), expected);
    let mut response = GenericNetlinkControlMessage::New(GenericNetlinkControlMessageCommand::NEW_FAMILY);
    response.AddControlAttribute(GenericNetlinkControlMessageAttribute::FAMILY_NAME("TASKSTATS".to_string()));
    response.AddControlAttribute(GenericNetlinkControlMessageAttribute::FAMILY_ID(23));
    response.AddControlAttribute(GenericNetlinkControlMessageAttribute::FAMILY_ID(24));
    assert!(matches!(family_id_from(&response), Ok(23)));
    let empty = GenericNetlinkControlMessage::New(GenericNetlinkControlMessageCommand::NEW_FAMILY);
    assert!(matches!(family_id_from(&empty), Err(TaskStatsError::GET_FAMILY_ID_ERROR)));
}

#[test]
fn result_attributes_are_written_as_they_are_read() {
    for endian in [Endian::Little, Endian::Big] {
        let stats = TaskStatsRaw::V11(v11());
        let thread = TaskStatsResultAttribute::AggrPid(TaskStatsResultAttributeAggregatePid::new(Tid(4242), stats));
        let written = thread.to_attribute(endian);
        assert_eq!(written.get_type(), TaskStatsAttributeType(4));
        assert_eq!(written.payload.len(), 12 + 368);
        assert_eq!(TaskStatsResultAttribute::try_from(&written, endian).unwrap(), thread);
        let group = TaskStatsResultAttribute::AggrTGid(TaskStatsResultAttributeAggregateTgid::new(Pid(7), TaskStatsRaw::V8(sample())));
        assert_eq!(TaskStatsResultAttribute::try_from(&group.to_attribute(endian), endian).unwrap(), group);
        let plain = TaskStatsResultAttribute::Stats(stats);
        assert_eq!(TaskStatsResultAttribute::try_from(&plain.to_attribute(endian), endian).unwrap(), plain);
    }
    let le = Endian::Little;
    assert_eq!(
        aggregate(4, 9, &sample().to_byte_array(le)).payload,
        TaskStatsResultAttribute::AggrPid(TaskStatsResultAttributeAggregatePid::new(Tid(9), TaskStatsRaw::V8(sample())))
            .to_attribute(le)
            .payload
    );
    let id = TaskStatsResultAttribute::PID(Tid(0x0102)).to_attribute(le);
    assert_eq!((id.get_type(), id.payload), (TaskStatsAttributeType(1), vec![2, 1, 0, 0]));
    let tgid = TaskStatsResultAttribute::TGID(Pid(3)).to_attribute(Endian::Big);
    assert_eq!((tgid.get_type(), tgid.payload), (TaskStatsAttributeType(2), vec![0, 0, 0, 3]));
    assert!(TaskStatsResultAttribute::NULL.to_attribute(le).payload.is_empty());
    assert_eq!(TaskStatsResultAttribute::Unspecified.to_attribute(le).get_type(), TaskStatsAttributeType(0));
}
