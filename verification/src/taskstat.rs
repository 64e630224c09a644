//! The kernel's per-task accounting: the raw record in its four layouts, its
//! normalised form, and the attributes and messages of the TASKSTATS family.
use crate::common::{Count, DataCount, Endian, Gid, TimeCount, Timestamp, Uid};
use crate::netlink::generic::{AttributeView, GenericError, GenericMessageView, GenericNetlinkMessage};
use crate::netlink::generic::{GenericNetlinkMessageAttribute, GenericNetlinkMessageAttributeType};
use crate::netlink::generic::{GenericNetlinkMessageCommand, GenericNetlinkMessageType};
use crate::netlink::generic::{ControlAttributeView, GenericNetlinkControlMessage};
use crate::netlink::generic::{GenericNetlinkControlMessageAttribute, GenericNetlinkControlMessageCommand};
use crate::netlink::generic::{control_attribute_type, GenericNetlinkControlMessageAttributeType};
use crate::process::{Pid, Tid};
use crate::wire::{append_uint, lemma_uint_round_trip, uint_bytes};
use crate::wire::{append_fields, as_nats, as_widths, fields_fit, fields_len, fields_parsed};
use crate::wire::{fields_wire, lemma_fields_round_trip, lemma_fields_wire_len, lemma_pow256_mono};
use crate::wire::{lemma_pow256_values, read_fields, read_uint, uint_value};
use crate::text::string_from_utf8;
use vstd::prelude::*;
use vstd::slice::slice_subrange;
use vstd::string::*;
use vstd::utf8::encode_utf8;
use vstd::utf8::{decode_utf8, valid_utf8};

verus! {

/// The raw accounting record as version 8 of the interface lays it out.
/// The command name is held as two big-endian numbers of sixteen bytes each.
#[derive(Debug, Clone, Copy, PartialEq, Eq, Structural)]
pub struct TaskStatsRawV8 {
    pub exitcode: u32,
    pub flags: u8,
    pub nice: i8,
    pub cpu_delay_count: u64,
    /// In nanoseconds.
    pub cpu_delay_total: u64,
    pub block_io_delay_count: u64,
    /// In nanoseconds.
    pub block_io_delay_total: u64,
    pub swapin_delay_count: u64,
    /// In nanoseconds.
    pub swapin_delay_total: u64,
    /// In nanoseconds.
    pub cpu_runtime_real_total: u64,
    /// In nanoseconds.
    pub cpu_runtime_virtual_total: u64,
    pub command_high: u128,
    pub command_low: u128,
    pub scheduling_discipline: u8,
    pub uid: u32,
    pub gid: u32,
    pub pid: u32,
    pub parent_pid: u32,
    /// In seconds since the epoch.
    pub begin_time: u32,
    /// In microseconds.
    pub elapsed_time: u64,
    /// In microseconds.
    pub user_cpu_time: u64,
    /// In microseconds.
    pub system_cpu_time: u64,
    pub minor_fault_count: u64,
    pub major_fault_count: u64,
    /// In megabytes.
    pub accumulated_rss: u64,
    /// In megabytes.
    pub accumulated_vss: u64,
    /// In kilobytes.
    pub high_water_rss: u64,
    /// In kilobytes.
    pub high_water_vss: u64,
    pub io_read_bytes: u64,
    pub io_write_bytes: u64,
    pub read_syscall_count: u64,
    pub write_syscall_count: u64,
    pub block_io_read_bytes: u64,
    pub block_io_write_bytes: u64,
    pub cancelled_block_io_write_bytes: u64,
    pub voluntary_context_switches: u64,
    pub nonvoluntary_context_switches: u64,
    pub user_time_scaled: u64,
    pub system_time_scaled: u64,
    pub run_real_total_scaled: u64,
    pub free_pages_delay_count: u64,
    pub free_pages_delay_total: u64,
}

/// The size of the record in version 8.
pub const TASKSTATS_V8_LENGTH: usize = 328;

/// The size of the record in version 9.
pub const TASKSTATS_V9_LENGTH: usize = 344;

/// The size of the record in version 10.
pub const TASKSTATS_V10_LENGTH: usize = 352;

/// The size of the record in version 11.
pub const TASKSTATS_V11_LENGTH: usize = 368;

/// Where the command name starts.
pub const COMMAND_OFFSET: usize = 80;

/// The length of the command name.
pub const COMMAND_LENGTH: usize = 32;

/// Where the fields after the command name start.
pub const AFTER_COMMAND_OFFSET: usize = 112;

/// The widths of the fields before the command name: version, padding, exit
/// code, flags, nice, padding, and eight counters.
pub open spec fn head_widths() -> Seq<usize> {
    seq![2, 2, 4, 1, 1, 6, 8, 8, 8, 8, 8, 8, 8, 8]
}

/// The widths of the two halves of the command name.
pub open spec fn command_widths() -> Seq<usize> {
    seq![16, 16]
}

/// The widths of the fields after the command name: scheduling discipline,
/// padding, five 32-bit fields, padding, and twenty-three counters.
pub open spec fn tail_widths() -> Seq<usize> {
    seq![1, 3, 4, 4, 4, 4, 4, 4, 4, 8, 8, 8, 8, 8, 8, 8, 8, 8, 8, 8, 8, 8, 8, 8, 8, 8, 8, 8, 8, 8, 8, 8]
}

/// The byte that holds a signed 8-bit number in two's complement.
pub open spec fn signed_byte(value: i8) -> u8 {
    if value < 0 {
        (value + 256) as u8
    } else {
        value as u8
    }
}

/// The signed 8-bit number that a byte holds in two's complement.
pub open spec fn byte_signed(byte: nat) -> i8 {
    if byte >= 128 {
        (byte - 256) as i8
    } else {
        byte as i8
    }
}

impl TaskStatsRawV8 {
    /// The values of the fields before the command name, under the given version.
    pub open spec fn head_values(self, version: u16) -> Seq<u128> {
        seq![
            version as u128,
            0,
            self.exitcode as u128,
            self.flags as u128,
            signed_byte(self.nice) as u128,
            0,
            self.cpu_delay_count as u128,
            self.cpu_delay_total as u128,
            self.block_io_delay_count as u128,
            self.block_io_delay_total as u128,
            self.swapin_delay_count as u128,
            self.swapin_delay_total as u128,
            self.cpu_runtime_real_total as u128,
            self.cpu_runtime_virtual_total as u128,
        ]
    }

    /// The two halves of the command name.
    pub open spec fn command_values(self) -> Seq<u128> {
        seq![self.command_high, self.command_low]
    }

    /// The values of the fields after the command name.
    pub open spec fn tail_values(self) -> Seq<u128> {
        seq![
            self.scheduling_discipline as u128,
            0,
            0,
            self.uid as u128,
            self.gid as u128,
            self.pid as u128,
            self.parent_pid as u128,
            self.begin_time as u128,
            0,
            self.elapsed_time as u128,
            self.user_cpu_time as u128,
            self.system_cpu_time as u128,
            self.minor_fault_count as u128,
            self.major_fault_count as u128,
            self.accumulated_rss as u128,
            self.accumulated_vss as u128,
            self.high_water_rss as u128,
            self.high_water_vss as u128,
            self.io_read_bytes as u128,
            self.io_write_bytes as u128,
            self.read_syscall_count as u128,
            self.write_syscall_count as u128,
            self.block_io_read_bytes as u128,
            self.block_io_write_bytes as u128,
            self.cancelled_block_io_write_bytes as u128,
            self.voluntary_context_switches as u128,
            self.nonvoluntary_context_switches as u128,
            self.user_time_scaled as u128,
            self.system_time_scaled as u128,
            self.run_real_total_scaled as u128,
            self.free_pages_delay_count as u128,
            self.free_pages_delay_total as u128,
        ]
    }

    /// The record that the three groups of field values make.
    pub open spec fn of_values(head: Seq<nat>, command: Seq<nat>, tail: Seq<nat>) -> TaskStatsRawV8 {
        TaskStatsRawV8 {
            exitcode: head[2] as u32,
            flags: head[3] as u8,
            nice: byte_signed(head[4]),
            cpu_delay_count: head[6] as u64,
            cpu_delay_total: head[7] as u64,
            block_io_delay_count: head[8] as u64,
            block_io_delay_total: head[9] as u64,
            swapin_delay_count: head[10] as u64,
            swapin_delay_total: head[11] as u64,
            cpu_runtime_real_total: head[12] as u64,
            cpu_runtime_virtual_total: head[13] as u64,
            command_high: command[0] as u128,
            command_low: command[1] as u128,
            scheduling_discipline: tail[0] as u8,
            uid: tail[3] as u32,
            gid: tail[4] as u32,
            pid: tail[5] as u32,
            parent_pid: tail[6] as u32,
            begin_time: tail[7] as u32,
            elapsed_time: tail[9] as u64,
            user_cpu_time: tail[10] as u64,
            system_cpu_time: tail[11] as u64,
            minor_fault_count: tail[12] as u64,
            major_fault_count: tail[13] as u64,
            accumulated_rss: tail[14] as u64,
            accumulated_vss: tail[15] as u64,
            high_water_rss: tail[16] as u64,
            high_water_vss: tail[17] as u64,
            io_read_bytes: tail[18] as u64,
            io_write_bytes: tail[19] as u64,
            read_syscall_count: tail[20] as u64,
            write_syscall_count: tail[21] as u64,
            block_io_read_bytes: tail[22] as u64,
            block_io_write_bytes: tail[23] as u64,
            cancelled_block_io_write_bytes: tail[24] as u64,
            voluntary_context_switches: tail[25] as u64,
            nonvoluntary_context_switches: tail[26] as u64,
            user_time_scaled: tail[27] as u64,
            system_time_scaled: tail[28] as u64,
            run_real_total_scaled: tail[29] as u64,
            free_pages_delay_count: tail[30] as u64,
            free_pages_delay_total: tail[31] as u64,
        }
    }

    /// The 328 bytes of the record under the given version number: the
    /// fields in the given byte order, with zero for padding, and the command
    /// name as its bytes.
    pub open spec fn body_wire(self, version: u16, endian: Endian) -> Seq<u8> {
        fields_wire(as_nats(self.head_values(version)), as_widths(head_widths()), endian)
            + fields_wire(as_nats(self.command_values()), as_widths(command_widths()), Endian::Big)
            + fields_wire(as_nats(self.tail_values()), as_widths(tail_widths()), endian)
    }

    /// The record that the first 328 bytes of `buf` hold, whatever version they declare.
    pub open spec fn body_parsed(buf: Seq<u8>, endian: Endian) -> TaskStatsRawV8 {
        Self::of_values(
            fields_parsed(buf, as_widths(head_widths()), endian),
            fields_parsed(
                buf.subrange(COMMAND_OFFSET as int, buf.len() as int),
                as_widths(command_widths()),
                Endian::Big,
            ),
            fields_parsed(
                buf.subrange(AFTER_COMMAND_OFFSET as int, buf.len() as int),
                as_widths(tail_widths()),
                endian,
            ),
        )
    }

    /// The record on the wire.
    pub open spec fn wire(self, endian: Endian) -> Seq<u8> {
        self.body_wire(8, endian)
    }
}

/// The version that the first two bytes of a record declare.
pub open spec fn declared_version(buf: Seq<u8>, endian: Endian) -> u16 {
    uint_value(buf.subrange(0, 2), endian) as u16
}

#[verifier::rlimit(40)]
proof fn lemma_layout_lengths()
    ensures
        fields_len(as_widths(head_widths())) == COMMAND_OFFSET,
        fields_len(as_widths(command_widths())) == COMMAND_LENGTH,
        fields_len(as_widths(tail_widths())) == TASKSTATS_V8_LENGTH - AFTER_COMMAND_OFFSET,
        as_widths(head_widths()).len() == 14,
        as_widths(command_widths()).len() == 2,
        as_widths(tail_widths()).len() == 32,
        forall|i: int| 0 <= i < 14 ==> (#[trigger] head_widths()[i]) <= 16,
        forall|i: int| 0 <= i < 32 ==> (#[trigger] tail_widths()[i]) <= 16,
{
    reveal_with_fuel(fields_len, 33);
    let h = as_widths(head_widths());
    let c = as_widths(command_widths());
    let t = as_widths(tail_widths());
    assert(h =~= seq![2nat, 2, 4, 1, 1, 6, 8, 8, 8, 8, 8, 8, 8, 8]);
    assert(c =~= seq![16nat, 16]);
    assert(t =~= seq![
        1nat,
        3,
        4,
        4,
        4,
        4,
        4,
        4,
        4,
        8,
        8,
        8,
        8,
        8,
        8,
        8,
        8,
        8,
        8,
        8,
        8,
        8,
        8,
        8,
        8,
        8,
        8,
        8,
        8,
        8,
        8,
        8,
    ]);
}


/// How reading a raw record can fail.
pub enum RawRefusal {
    /// The bytes are fewer than the version field, or than the record of the version.
    Short,
    /// The record declares this version, which is not the one asked for or not one of 8 to 11.
    Unsupported(u16),
}

fn widths_head() -> (r: Vec<usize>)
    ensures
        r@ == head_widths(),
{
    vec![2, 2, 4, 1, 1, 6, 8, 8, 8, 8, 8, 8, 8, 8]
}

fn widths_command() -> (r: Vec<usize>)
    ensures
        r@ == command_widths(),
{
    vec![16, 16]
}

fn widths_tail() -> (r: Vec<usize>)
    ensures
        r@ == tail_widths(),
{
    vec![1, 3, 4, 4, 4, 4, 4, 4, 4, 8, 8, 8, 8, 8, 8, 8, 8, 8, 8, 8, 8, 8, 8, 8, 8, 8, 8, 8, 8, 8, 8, 8]
}

fn to_signed_byte(value: i8) -> (r: u8)
    ensures
        r == signed_byte(value),
{
    if value < 0 {
        (value as i16 + 256) as u8
    } else {
        value as u8
    }
}

fn from_signed_byte(byte: u8) -> (r: i8)
    ensures
        r == byte_signed(byte as nat),
{
    if byte >= 128 {
        (byte as i16 - 256) as i8
    } else {
        byte as i8
    }
}

/// Reads the version that a record declares; two bytes are needed for it.
fn read_version(buf: &[u8], endian: Endian) -> (r: Option<u16>)
    ensures
        buf@.len() < 2 ==> r is None,
        buf@.len() >= 2 ==> r == Some(declared_version(buf@, endian)),
{
    if buf.len() < 2 {
        return None;
    }
    proof {
        lemma_pow256_values();
    }
    Some(read_uint(buf, 0, 2, endian) as u16)
}

impl TaskStatsRawV8 {
    /// Appends the 328 bytes of the record under the given version number.
    pub fn append_body(&self, buf: &mut Vec<u8>, version: u16, endian: Endian)
        ensures
            final(buf)@ == old(buf)@ + self.body_wire(version, endian),
    {
        let head: Vec<u128> = vec![
            version as u128,
            0,
            self.exitcode as u128,
            self.flags as u128,
            to_signed_byte(self.nice) as u128,
            0,
            self.cpu_delay_count as u128,
            self.cpu_delay_total as u128,
            self.block_io_delay_count as u128,
            self.block_io_delay_total as u128,
            self.swapin_delay_count as u128,
            self.swapin_delay_total as u128,
            self.cpu_runtime_real_total as u128,
            self.cpu_runtime_virtual_total as u128,
        ];
        let command: Vec<u128> = vec![self.command_high, self.command_low];
        let tail: Vec<u128> = vec![
            self.scheduling_discipline as u128,
            0,
            0,
            self.uid as u128,
            self.gid as u128,
            self.pid as u128,
            self.parent_pid as u128,
            self.begin_time as u128,
            0,
            self.elapsed_time as u128,
            self.user_cpu_time as u128,
            self.system_cpu_time as u128,
            self.minor_fault_count as u128,
            self.major_fault_count as u128,
            self.accumulated_rss as u128,
            self.accumulated_vss as u128,
            self.high_water_rss as u128,
            self.high_water_vss as u128,
            self.io_read_bytes as u128,
            self.io_write_bytes as u128,
            self.read_syscall_count as u128,
            self.write_syscall_count as u128,
            self.block_io_read_bytes as u128,
            self.block_io_write_bytes as u128,
            self.cancelled_block_io_write_bytes as u128,
            self.voluntary_context_switches as u128,
            self.nonvoluntary_context_switches as u128,
            self.user_time_scaled as u128,
            self.system_time_scaled as u128,
            self.run_real_total_scaled as u128,
            self.free_pages_delay_count as u128,
            self.free_pages_delay_total as u128,
        ];
        proof {
            lemma_layout_lengths();
            assert(head@ =~= self.head_values(version));
            assert(command@ =~= self.command_values());
            assert(tail@ =~= self.tail_values());
        }
        let ghost before = buf@;
        append_fields(buf, &head, &widths_head(), endian);
        append_fields(buf, &command, &widths_command(), Endian::Big);
        append_fields(buf, &tail, &widths_tail(), endian);
        assert(buf@ =~= before + self.body_wire(version, endian));
    }

    /// Reads the fields of a record from its first 328 bytes, whatever version they declare.
    pub fn read_body(buf: &[u8], endian: Endian) -> (r: Self)
        requires
            buf@.len() >= TASKSTATS_V8_LENGTH,
        ensures
            r == Self::body_parsed(buf@, endian),
    {
        proof {
            lemma_layout_lengths();
            lemma_pow256_values();
            assert(buf@.subrange(0, buf@.len() as int) =~= buf@);
        }
        let head = read_fields(buf, 0, &widths_head(), endian);
        let command = read_fields(buf, COMMAND_OFFSET, &widths_command(), Endian::Big);
        let tail = read_fields(buf, AFTER_COMMAND_OFFSET, &widths_tail(), endian);
        let ghost h = fields_parsed(buf@, as_widths(head_widths()), endian);
        let ghost c = fields_parsed(
            buf@.subrange(COMMAND_OFFSET as int, buf@.len() as int),
            as_widths(command_widths()),
            Endian::Big,
        );
        let ghost t = fields_parsed(
            buf@.subrange(AFTER_COMMAND_OFFSET as int, buf@.len() as int),
            as_widths(tail_widths()),
            endian,
        );
        proof {
            assert(as_nats(head@) == h);
            assert(as_nats(command@) == c);
            assert(as_nats(tail@) == t);
            assert forall|i: int| 0 <= i < 14 implies head@[i] as nat == h[i] by {
                assert(as_nats(head@)[i] == head@[i] as nat);
            }
            assert forall|i: int| 0 <= i < 2 implies command@[i] as nat == c[i] by {
                assert(as_nats(command@)[i] == command@[i] as nat);
            }
            assert forall|i: int| 0 <= i < 32 implies tail@[i] as nat == t[i] by {
                assert(as_nats(tail@)[i] == tail@[i] as nat);
            }
        }
        TaskStatsRawV8 {
            exitcode: head[2] as u32,
            flags: head[3] as u8,
            nice: from_signed_byte(head[4] as u8),
            cpu_delay_count: head[6] as u64,
            cpu_delay_total: head[7] as u64,
            block_io_delay_count: head[8] as u64,
            block_io_delay_total: head[9] as u64,
            swapin_delay_count: head[10] as u64,
            swapin_delay_total: head[11] as u64,
            cpu_runtime_real_total: head[12] as u64,
            cpu_runtime_virtual_total: head[13] as u64,
            command_high: command[0],
            command_low: command[1],
            scheduling_discipline: tail[0] as u8,
            uid: tail[3] as u32,
            gid: tail[4] as u32,
            pid: tail[5] as u32,
            parent_pid: tail[6] as u32,
            begin_time: tail[7] as u32,
            elapsed_time: tail[9] as u64,
            user_cpu_time: tail[10] as u64,
            system_cpu_time: tail[11] as u64,
            minor_fault_count: tail[12] as u64,
            major_fault_count: tail[13] as u64,
            accumulated_rss: tail[14] as u64,
            accumulated_vss: tail[15] as u64,
            high_water_rss: tail[16] as u64,
            high_water_vss: tail[17] as u64,
            io_read_bytes: tail[18] as u64,
            io_write_bytes: tail[19] as u64,
            read_syscall_count: tail[20] as u64,
            write_syscall_count: tail[21] as u64,
            block_io_read_bytes: tail[22] as u64,
            block_io_write_bytes: tail[23] as u64,
            cancelled_block_io_write_bytes: tail[24] as u64,
            voluntary_context_switches: tail[25] as u64,
            nonvoluntary_context_switches: tail[26] as u64,
            user_time_scaled: tail[27] as u64,
            system_time_scaled: tail[28] as u64,
            run_real_total_scaled: tail[29] as u64,
            free_pages_delay_count: tail[30] as u64,
            free_pages_delay_total: tail[31] as u64,
        }
    }
}

/// What reading the record of one version from `buf` gives: the version is
/// looked at first, then the length.
pub open spec fn version_checked(buf: Seq<u8>, version: u16, length: usize, endian: Endian) -> Result<
    (),
    RawRefusal,
> {
    if buf.len() < 2 {
        Err(RawRefusal::Short)
    } else if declared_version(buf, endian) != version {
        Err(RawRefusal::Unsupported(declared_version(buf, endian)))
    } else if buf.len() < length {
        Err(RawRefusal::Short)
    } else {
        Ok(())
    }
}

/// The refusal that an error of reading a raw record stands for.
pub open spec fn raw_refusal_of(e: TaskStatsError, buf: Seq<u8>) -> Option<RawRefusal> {
    match e {
        TaskStatsError::TASK_STRUCT_ERROR(bytes) => if bytes@ == buf {
            Some(RawRefusal::Short)
        } else {
            None
        },
        TaskStatsError::UNSUPPORTED_TASKSTATS_VERSION(version) => Some(
            RawRefusal::Unsupported(version),
        ),
        _ => None,
    }
}

fn check_version(buf: &[u8], version: u16, length: usize, endian: Endian) -> (r: Result<
    (),
    TaskStatsError,
>)
    ensures
        match r {
            Ok(_) => version_checked(buf@, version, length, endian) is Ok,
            Err(e) => match raw_refusal_of(e, buf@) {
                Some(refusal) => version_checked(buf@, version, length, endian) == Err::<
                    (),
                    RawRefusal,
                >(refusal),
                None => false,
            },
        },
{
    match read_version(buf, endian) {
        None => Err(TaskStatsError::TASK_STRUCT_ERROR(vstd::slice::slice_to_vec(buf))),
        Some(found) => {
            if found != version {
                Err(TaskStatsError::UNSUPPORTED_TASKSTATS_VERSION(found))
            } else if buf.len() < length {
                Err(TaskStatsError::TASK_STRUCT_ERROR(vstd::slice::slice_to_vec(buf)))
            } else {
                Ok(())
            }
        },
    }
}

/// What the result of reading a raw record stands for.
pub open spec fn raw_outcome<T>(r: Result<T, TaskStatsError>, buf: Seq<u8>) -> Option<
    Result<T, RawRefusal>,
> {
    match r {
        Ok(raw) => Some(Ok(raw)),
        Err(e) => match raw_refusal_of(e, buf) {
            Some(refusal) => Some(Err(refusal)),
            None => None,
        },
    }
}

/// The thirty-two bytes of a command name held as two numbers.
pub open spec fn command_bytes(high: u128, low: u128) -> Seq<u8> {
    uint_bytes(high as nat, 16, Endian::Big) + uint_bytes(low as nat, 16, Endian::Big)
}

fn command_text(high: u128, low: u128) -> (r: Result<String, TaskStatsError>)
    ensures
        match r {
            Ok(text) => valid_utf8(command_bytes(high, low)) && text@ == decode_utf8(
                command_bytes(high, low),
            ),
            Err(TaskStatsError::TASK_STRUCT_ERROR(bytes)) => !valid_utf8(command_bytes(high, low))
                && bytes@ == command_bytes(high, low),
            Err(_) => false,
        },
{
    let mut bytes: Vec<u8> = Vec::new();
    append_uint(&mut bytes, high, 16, Endian::Big);
    append_uint(&mut bytes, low, 16, Endian::Big);
    assert(bytes@ =~= command_bytes(high, low));
    match string_from_utf8(bytes.as_slice()) {
        Ok(text) => Ok(text),
        Err(_) => Err(TaskStatsError::TASK_STRUCT_ERROR(bytes)),
    }
}

impl TaskStatsRawV8 {
    /// What reading a record of version 8 from `buf` gives.
    pub open spec fn parsed(buf: Seq<u8>, endian: Endian) -> Result<TaskStatsRawV8, RawRefusal> {
        match version_checked(buf, 8, TASKSTATS_V8_LENGTH, endian) {
            Err(e) => Err(e),
            Ok(_) => Ok(Self::body_parsed(buf, endian)),
        }
    }

    pub fn to_byte_array(&self, endian: Endian) -> (r: Vec<u8>)
        ensures
            r@ == self.wire(endian),
    {
        let mut result: Vec<u8> = Vec::new();
        self.append_body(&mut result, 8, endian);
        result
    }

    /// Reads a record of version 8. Another version is refused with its
    /// number; bytes too few for the record are refused with themselves.
    pub fn from_byte_array(buf: &[u8], endian: Endian) -> (r: Result<Self, TaskStatsError>)
        ensures
            raw_outcome(r, buf@) == Some(Self::parsed(buf@, endian)),
    {
        match check_version(buf, 8, TASKSTATS_V8_LENGTH, endian) {
            Err(e) => Err(e),
            Ok(_) => Ok(Self::read_body(buf, endian)),
        }
    }

    /// The command name as text: all its thirty-two bytes, padding included.
    /// A name that is not UTF-8 is refused with its bytes.
    pub fn command_str(&self) -> (r: Result<String, TaskStatsError>)
        ensures
            match r {
                Ok(text) => valid_utf8(command_bytes(self.command_high, self.command_low))
                    && text@ == decode_utf8(command_bytes(self.command_high, self.command_low)),
                Err(TaskStatsError::TASK_STRUCT_ERROR(bytes)) => !valid_utf8(
                    command_bytes(self.command_high, self.command_low),
                ) && bytes@ == command_bytes(self.command_high, self.command_low),
                Err(_) => false,
            },
    {
        command_text(self.command_high, self.command_low)
    }
}

/// The raw accounting record of version 9: that of version 8 and the delay of thrashing.
#[derive(Debug, Clone, Copy, PartialEq, Eq, Structural)]
pub struct TaskStatsRawV9 {
    pub base: TaskStatsRawV8,
    pub thrashing_delay_count: u64,
    pub thrashing_delay_total: u64,
}

impl TaskStatsRawV9 {
    /// The 344 bytes of the record under the given version number.
    pub open spec fn body_wire(self, version: u16, endian: Endian) -> Seq<u8> {
        self.base.body_wire(version, endian) + uint_bytes(
            self.thrashing_delay_count as nat,
            8,
            endian,
        ) + uint_bytes(self.thrashing_delay_total as nat, 8, endian)
    }

    /// The record that the first 344 bytes of `buf` hold.
    pub open spec fn body_parsed(buf: Seq<u8>, endian: Endian) -> TaskStatsRawV9 {
        TaskStatsRawV9 {
            base: TaskStatsRawV8::body_parsed(buf, endian),
            thrashing_delay_count: uint_value(buf.subrange(328, 336), endian) as u64,
            thrashing_delay_total: uint_value(buf.subrange(336, 344), endian) as u64,
        }
    }

    pub open spec fn wire(self, endian: Endian) -> Seq<u8> {
        self.body_wire(9, endian)
    }

    /// What reading a record of version 9 from `buf` gives.
    pub open spec fn parsed(buf: Seq<u8>, endian: Endian) -> Result<TaskStatsRawV9, RawRefusal> {
        match version_checked(buf, 9, TASKSTATS_V9_LENGTH, endian) {
            Err(e) => Err(e),
            Ok(_) => Ok(Self::body_parsed(buf, endian)),
        }
    }

    pub fn append_body(&self, buf: &mut Vec<u8>, version: u16, endian: Endian)
        ensures
            final(buf)@ == old(buf)@ + self.body_wire(version, endian),
    {
        let ghost before = buf@;
        self.base.append_body(buf, version, endian);
        append_uint(buf, self.thrashing_delay_count as u128, 8, endian);
        append_uint(buf, self.thrashing_delay_total as u128, 8, endian);
        assert(buf@ =~= before + self.body_wire(version, endian));
    }

    pub fn read_body(buf: &[u8], endian: Endian) -> (r: Self)
        requires
            buf@.len() >= TASKSTATS_V9_LENGTH,
        ensures
            r == Self::body_parsed(buf@, endian),
    {
        proof {
            lemma_pow256_values();
        }
        TaskStatsRawV9 {
            base: TaskStatsRawV8::read_body(buf, endian),
            thrashing_delay_count: read_uint(buf, 328, 8, endian) as u64,
            thrashing_delay_total: read_uint(buf, 336, 8, endian) as u64,
        }
    }

    pub fn to_byte_array(&self, endian: Endian) -> (r: Vec<u8>)
        ensures
            r@ == self.wire(endian),
    {
        let mut result: Vec<u8> = Vec::new();
        self.append_body(&mut result, 9, endian);
        result
    }

    /// Reads a record of version 9. Another version is refused with its
    /// number; bytes too few for the record are refused with themselves.
    pub fn from_byte_array(buf: &[u8], endian: Endian) -> (r: Result<Self, TaskStatsError>)
        ensures
            raw_outcome(r, buf@) == Some(Self::parsed(buf@, endian)),
    {
        match check_version(buf, 9, TASKSTATS_V9_LENGTH, endian) {
            Err(e) => Err(e),
            Ok(_) => Ok(Self::read_body(buf, endian)),
        }
    }

    /// The command name as text: all its thirty-two bytes, padding included.
    /// A name that is not UTF-8 is refused with its bytes.
    pub fn get_command_str(&self) -> (r: Result<String, TaskStatsError>)
        ensures
            match r {
                Ok(text) => valid_utf8(command_bytes(self.base.command_high, self.base.command_low))
                    && text@ == decode_utf8(
                    command_bytes(self.base.command_high, self.base.command_low),
                ),
                Err(TaskStatsError::TASK_STRUCT_ERROR(bytes)) => !valid_utf8(
                    command_bytes(self.base.command_high, self.base.command_low),
                ) && bytes@ == command_bytes(self.base.command_high, self.base.command_low),
                Err(_) => false,
            },
    {
        command_text(self.base.command_high, self.base.command_low)
    }
}

/// The raw accounting record of version 10: that of version 9 and the begin time in 64 bits.
#[derive(Debug, Clone, Copy, PartialEq, Eq, Structural)]
pub struct TaskStatsRawV10 {
    pub base: TaskStatsRawV9,
    pub begin_time64: u64,
}

impl TaskStatsRawV10 {
    /// The 352 bytes of the record under the given version number.
    pub open spec fn body_wire(self, version: u16, endian: Endian) -> Seq<u8> {
        self.base.body_wire(version, endian) + uint_bytes(self.begin_time64 as nat, 8, endian)
    }

    /// The record that the first 352 bytes of `buf` hold.
    pub open spec fn body_parsed(buf: Seq<u8>, endian: Endian) -> TaskStatsRawV10 {
        TaskStatsRawV10 {
            base: TaskStatsRawV9::body_parsed(buf, endian),
            begin_time64: uint_value(buf.subrange(344, 352), endian) as u64,
        }
    }

    pub open spec fn wire(self, endian: Endian) -> Seq<u8> {
        self.body_wire(10, endian)
    }

    /// What reading a record of version 10 from `buf` gives.
    pub open spec fn parsed(buf: Seq<u8>, endian: Endian) -> Result<TaskStatsRawV10, RawRefusal> {
        match version_checked(buf, 10, TASKSTATS_V10_LENGTH, endian) {
            Err(e) => Err(e),
            Ok(_) => Ok(Self::body_parsed(buf, endian)),
        }
    }

    pub fn append_body(&self, buf: &mut Vec<u8>, version: u16, endian: Endian)
        ensures
            final(buf)@ == old(buf)@ + self.body_wire(version, endian),
    {
        let ghost before = buf@;
        self.base.append_body(buf, version, endian);
        append_uint(buf, self.begin_time64 as u128, 8, endian);
        assert(buf@ =~= before + self.body_wire(version, endian));
    }

    pub fn read_body(buf: &[u8], endian: Endian) -> (r: Self)
        requires
            buf@.len() >= TASKSTATS_V10_LENGTH,
        ensures
            r == Self::body_parsed(buf@, endian),
    {
        proof {
            lemma_pow256_values();
        }
        TaskStatsRawV10 {
            base: TaskStatsRawV9::read_body(buf, endian),
            begin_time64: read_uint(buf, 344, 8, endian) as u64,
        }
    }

    pub fn to_byte_array(&self, endian: Endian) -> (r: Vec<u8>)
        ensures
            r@ == self.wire(endian),
    {
        let mut result: Vec<u8> = Vec::new();
        self.append_body(&mut result, 10, endian);
        result
    }

    /// Reads a record of version 10. Another version is refused with its
    /// number; bytes too few for the record are refused with themselves.
    pub fn from_byte_array(buf: &[u8], endian: Endian) -> (r: Result<Self, TaskStatsError>)
        ensures
            raw_outcome(r, buf@) == Some(Self::parsed(buf@, endian)),
    {
        match check_version(buf, 10, TASKSTATS_V10_LENGTH, endian) {
            Err(e) => Err(e),
            Ok(_) => Ok(Self::read_body(buf, endian)),
        }
    }

    /// The command name as text: all its thirty-two bytes, padding included.
    /// A name that is not UTF-8 is refused with its bytes.
    pub fn command_str(&self) -> (r: Result<String, TaskStatsError>)
        ensures
            match r {
                Ok(text) => valid_utf8(
                    command_bytes(self.base.base.command_high, self.base.base.command_low),
                ) && text@ == decode_utf8(
                    command_bytes(self.base.base.command_high, self.base.base.command_low),
                ),
                Err(TaskStatsError::TASK_STRUCT_ERROR(bytes)) => !valid_utf8(
                    command_bytes(self.base.base.command_high, self.base.base.command_low),
                ) && bytes@ == command_bytes(
                    self.base.base.command_high,
                    self.base.base.command_low,
                ),
                Err(_) => false,
            },
    {
        command_text(self.base.base.command_high, self.base.base.command_low)
    }
}

/// The raw accounting record of version 11: that of version 10 and the delay of memory compaction.
#[derive(Debug, Clone, Copy, PartialEq, Eq, Structural)]
pub struct TaskStatsRawV11 {
    pub base: TaskStatsRawV10,
    pub memory_compact_delay_count: u64,
    pub memory_compact_delay_total: u64,
}

impl TaskStatsRawV11 {
    /// The 368 bytes of the record under the given version number.
    pub open spec fn body_wire(self, version: u16, endian: Endian) -> Seq<u8> {
        self.base.body_wire(version, endian) + uint_bytes(
            self.memory_compact_delay_count as nat,
            8,
            endian,
        ) + uint_bytes(self.memory_compact_delay_total as nat, 8, endian)
    }

    /// The record that the first 368 bytes of `buf` hold.
    pub open spec fn body_parsed(buf: Seq<u8>, endian: Endian) -> TaskStatsRawV11 {
        TaskStatsRawV11 {
            base: TaskStatsRawV10::body_parsed(buf, endian),
            memory_compact_delay_count: uint_value(buf.subrange(352, 360), endian) as u64,
            memory_compact_delay_total: uint_value(buf.subrange(360, 368), endian) as u64,
        }
    }

    pub open spec fn wire(self, endian: Endian) -> Seq<u8> {
        self.body_wire(11, endian)
    }

    /// What reading a record of version 11 from `buf` gives.
    pub open spec fn parsed(buf: Seq<u8>, endian: Endian) -> Result<TaskStatsRawV11, RawRefusal> {
        match version_checked(buf, 11, TASKSTATS_V11_LENGTH, endian) {
            Err(e) => Err(e),
            Ok(_) => Ok(Self::body_parsed(buf, endian)),
        }
    }

    pub fn append_body(&self, buf: &mut Vec<u8>, version: u16, endian: Endian)
        ensures
            final(buf)@ == old(buf)@ + self.body_wire(version, endian),
    {
        let ghost before = buf@;
        self.base.append_body(buf, version, endian);
        append_uint(buf, self.memory_compact_delay_count as u128, 8, endian);
        append_uint(buf, self.memory_compact_delay_total as u128, 8, endian);
        assert(buf@ =~= before + self.body_wire(version, endian));
    }

    pub fn read_body(buf: &[u8], endian: Endian) -> (r: Self)
        requires
            buf@.len() >= TASKSTATS_V11_LENGTH,
        ensures
            r == Self::body_parsed(buf@, endian),
    {
        proof {
            lemma_pow256_values();
        }
        TaskStatsRawV11 {
            base: TaskStatsRawV10::read_body(buf, endian),
            memory_compact_delay_count: read_uint(buf, 352, 8, endian) as u64,
            memory_compact_delay_total: read_uint(buf, 360, 8, endian) as u64,
        }
    }

    pub fn to_byte_array(&self, endian: Endian) -> (r: Vec<u8>)
        ensures
            r@ == self.wire(endian),
    {
        let mut result: Vec<u8> = Vec::new();
        self.append_body(&mut result, 11, endian);
        result
    }

    /// Reads a record of version 11. Another version is refused with its
    /// number; bytes too few for the record are refused with themselves.
    pub fn from_byte_array(buf: &[u8], endian: Endian) -> (r: Result<Self, TaskStatsError>)
        ensures
            raw_outcome(r, buf@) == Some(Self::parsed(buf@, endian)),
    {
        match check_version(buf, 11, TASKSTATS_V11_LENGTH, endian) {
            Err(e) => Err(e),
            Ok(_) => Ok(Self::read_body(buf, endian)),
        }
    }

    /// The command name as text: all its thirty-two bytes, padding included.
    /// A name that is not UTF-8 is refused with its bytes.
    pub fn command_str(&self) -> (r: Result<String, TaskStatsError>)
        ensures
            match r {
                Ok(text) => valid_utf8(
                    command_bytes(self.base.base.base.command_high, self.base.base.base.command_low),
                ) && text@ == decode_utf8(
                    command_bytes(self.base.base.base.command_high, self.base.base.base.command_low),
                ),
                Err(TaskStatsError::TASK_STRUCT_ERROR(bytes)) => !valid_utf8(
                    command_bytes(self.base.base.base.command_high, self.base.base.base.command_low),
                ) && bytes@ == command_bytes(
                    self.base.base.base.command_high,
                    self.base.base.base.command_low,
                ),
                Err(_) => false,
            },
    {
        command_text(self.base.base.base.command_high, self.base.base.base.command_low)
    }
}

/// A raw accounting record in the layout of its version.
#[derive(Debug, Clone, Copy, PartialEq, Eq, Structural)]
pub enum TaskStatsRaw {
    V8(TaskStatsRawV8),
    V9(TaskStatsRawV9),
    V10(TaskStatsRawV10),
    V11(TaskStatsRawV11),
}

impl TaskStatsRaw {
    /// The record on the wire, in the layout of its version.
    pub open spec fn wire(self, endian: Endian) -> Seq<u8> {
        match self {
            TaskStatsRaw::V8(stats) => stats.wire(endian),
            TaskStatsRaw::V9(stats) => stats.wire(endian),
            TaskStatsRaw::V10(stats) => stats.wire(endian),
            TaskStatsRaw::V11(stats) => stats.wire(endian),
        }
    }

    /// What reading a record from `buf` gives: the layout is chosen by the
    /// version in the first two bytes, which must be one of 8 to 11.
    pub open spec fn parsed(buf: Seq<u8>, endian: Endian) -> Result<TaskStatsRaw, RawRefusal> {
        if buf.len() < 2 {
            Err(RawRefusal::Short)
        } else if declared_version(buf, endian) == 8 {
            match TaskStatsRawV8::parsed(buf, endian) {
                Ok(stats) => Ok(TaskStatsRaw::V8(stats)),
                Err(e) => Err(e),
            }
        } else if declared_version(buf, endian) == 9 {
            match TaskStatsRawV9::parsed(buf, endian) {
                Ok(stats) => Ok(TaskStatsRaw::V9(stats)),
                Err(e) => Err(e),
            }
        } else if declared_version(buf, endian) == 10 {
            match TaskStatsRawV10::parsed(buf, endian) {
                Ok(stats) => Ok(TaskStatsRaw::V10(stats)),
                Err(e) => Err(e),
            }
        } else if declared_version(buf, endian) == 11 {
            match TaskStatsRawV11::parsed(buf, endian) {
                Ok(stats) => Ok(TaskStatsRaw::V11(stats)),
                Err(e) => Err(e),
            }
        } else {
            Err(RawRefusal::Unsupported(declared_version(buf, endian)))
        }
    }

    pub fn to_byte_array(&self, endian: Endian) -> (r: Vec<u8>)
        ensures
            r@ == self.wire(endian),
    {
        match self {
            TaskStatsRaw::V8(stats) => stats.to_byte_array(endian),
            TaskStatsRaw::V9(stats) => stats.to_byte_array(endian),
            TaskStatsRaw::V10(stats) => stats.to_byte_array(endian),
            TaskStatsRaw::V11(stats) => stats.to_byte_array(endian),
        }
    }

    /// Reads a record in the layout of the version that it declares. A
    /// version outside 8 to 11 is refused with its number; bytes too few for
    /// the version field or for the record are refused with themselves.
    pub fn from_byte_array(buf: &[u8], endian: Endian) -> (r: Result<Self, TaskStatsError>)
        ensures
            raw_outcome(r, buf@) == Some(Self::parsed(buf@, endian)),
    {
        let version = match read_version(buf, endian) {
            None => {
                return Err(TaskStatsError::TASK_STRUCT_ERROR(vstd::slice::slice_to_vec(buf)));
            },
            Some(version) => version,
        };
        match version {
            8 => match TaskStatsRawV8::from_byte_array(buf, endian) {
                Ok(stats) => Ok(TaskStatsRaw::V8(stats)),
                Err(e) => Err(e),
            },
            9 => match TaskStatsRawV9::from_byte_array(buf, endian) {
                Ok(stats) => Ok(TaskStatsRaw::V9(stats)),
                Err(e) => Err(e),
            },
            10 => match TaskStatsRawV10::from_byte_array(buf, endian) {
                Ok(stats) => Ok(TaskStatsRaw::V10(stats)),
                Err(e) => Err(e),
            },
            11 => match TaskStatsRawV11::from_byte_array(buf, endian) {
                Ok(stats) => Ok(TaskStatsRaw::V11(stats)),
                Err(e) => Err(e),
            },
            _ => Err(TaskStatsError::UNSUPPORTED_TASKSTATS_VERSION(version)),
        }
    }
}

/// The body of a record that was written is read back as it was, with the
/// version it was written under, whatever follows it.
pub proof fn lemma_v8_body_round_trip(stats: TaskStatsRawV8, version: u16, tail: Seq<u8>, endian: Endian)
    ensures
        stats.body_wire(version, endian).len() == TASKSTATS_V8_LENGTH,
        TaskStatsRawV8::body_parsed(stats.body_wire(version, endian) + tail, endian) == stats,
        declared_version(stats.body_wire(version, endian) + tail, endian) == version,
{
    let hv = as_nats(stats.head_values(version));
    let cv = as_nats(stats.command_values());
    let tv = as_nats(stats.tail_values());
    let hw = as_widths(head_widths());
    let cw = as_widths(command_widths());
    let tw = as_widths(tail_widths());
    let h = fields_wire(hv, hw, endian);
    let c = fields_wire(cv, cw, Endian::Big);
    let t = fields_wire(tv, tw, endian);
    let buf = stats.body_wire(version, endian) + tail;
    lemma_layout_lengths();
    lemma_pow256_values();
    lemma_pow256_mono(0, 3);
    lemma_pow256_mono(0, 6);
    assert(fields_fit(hv, hw));
    assert(fields_fit(cv, cw));
    assert(fields_fit(tv, tw));
    lemma_fields_wire_len(hv, hw, endian);
    lemma_fields_wire_len(cv, cw, Endian::Big);
    lemma_fields_wire_len(tv, tw, endian);
    assert(buf =~= h + (c + t + tail));
    lemma_fields_round_trip(hv, hw, c + t + tail, endian);
    assert(buf.subrange(COMMAND_OFFSET as int, buf.len() as int) =~= c + (t + tail));
    lemma_fields_round_trip(cv, cw, t + tail, Endian::Big);
    assert(buf.subrange(AFTER_COMMAND_OFFSET as int, buf.len() as int) =~= t + tail);
    lemma_fields_round_trip(tv, tw, tail, endian);
    assert(uint_value(buf.subrange(0, hw[0] as int), endian) == fields_parsed(buf, hw, endian)[0]);
    assert(TaskStatsRawV8::of_values(hv, cv, tv) == stats);
}

/// A raw record that was written is read back as it was, whatever follows it.
pub proof fn lemma_taskstats_round_trip(raw: TaskStatsRaw, tail: Seq<u8>, endian: Endian)
    ensures
        TaskStatsRaw::parsed(raw.wire(endian) + tail, endian) == Ok::<TaskStatsRaw, RawRefusal>(raw),
{
    match raw {
        TaskStatsRaw::V8(stats) => {
            lemma_v8_body_round_trip(stats, 8, tail, endian);
        },
        TaskStatsRaw::V9(stats) => {
            lemma_v9_body_round_trip(stats, 9, tail, endian);
        },
        TaskStatsRaw::V10(stats) => {
            lemma_v10_body_round_trip(stats, 10, tail, endian);
        },
        TaskStatsRaw::V11(stats) => {
            lemma_v11_body_round_trip(stats, 11, tail, endian);
        },
    }
}

proof fn lemma_v11_body_round_trip(stats: TaskStatsRawV11, version: u16, tail: Seq<u8>, endian: Endian)
    ensures
        stats.body_wire(version, endian).len() == TASKSTATS_V11_LENGTH,
        TaskStatsRawV11::body_parsed(stats.body_wire(version, endian) + tail, endian) == stats,
        declared_version(stats.body_wire(version, endian) + tail, endian) == version,
{
    let body = stats.base.body_wire(version, endian);
    let count = uint_bytes(stats.memory_compact_delay_count as nat, 8, endian);
    let total = uint_bytes(stats.memory_compact_delay_total as nat, 8, endian);
    let buf = stats.body_wire(version, endian) + tail;
    lemma_pow256_values();
    lemma_uint_round_trip(stats.memory_compact_delay_count as nat, 8, endian);
    lemma_uint_round_trip(stats.memory_compact_delay_total as nat, 8, endian);
    lemma_v10_body_round_trip(stats.base, version, count + total + tail, endian);
    assert(buf =~= body + (count + total + tail));
    assert(buf.subrange(352, 360) =~= count);
    assert(buf.subrange(360, 368) =~= total);
}

proof fn lemma_v9_body_round_trip(stats: TaskStatsRawV9, version: u16, tail: Seq<u8>, endian: Endian)
    ensures
        stats.body_wire(version, endian).len() == TASKSTATS_V9_LENGTH,
        TaskStatsRawV9::body_parsed(stats.body_wire(version, endian) + tail, endian) == stats,
        declared_version(stats.body_wire(version, endian) + tail, endian) == version,
{
    let body = stats.base.body_wire(version, endian);
    let count = uint_bytes(stats.thrashing_delay_count as nat, 8, endian);
    let total = uint_bytes(stats.thrashing_delay_total as nat, 8, endian);
    let buf = stats.body_wire(version, endian) + tail;
    lemma_pow256_values();
    lemma_uint_round_trip(stats.thrashing_delay_count as nat, 8, endian);
    lemma_uint_round_trip(stats.thrashing_delay_total as nat, 8, endian);
    lemma_v8_body_round_trip(stats.base, version, count + total + tail, endian);
    assert(buf =~= body + (count + total + tail));
    assert(buf.subrange(328, 336) =~= count);
    assert(buf.subrange(336, 344) =~= total);
}

proof fn lemma_v10_body_round_trip(stats: TaskStatsRawV10, version: u16, tail: Seq<u8>, endian: Endian)
    ensures
        stats.body_wire(version, endian).len() == TASKSTATS_V10_LENGTH,
        TaskStatsRawV10::body_parsed(stats.body_wire(version, endian) + tail, endian) == stats,
        declared_version(stats.body_wire(version, endian) + tail, endian) == version,
{
    let body = stats.base.body_wire(version, endian);
    let begin = uint_bytes(stats.begin_time64 as nat, 8, endian);
    let buf = stats.body_wire(version, endian) + tail;
    lemma_pow256_values();
    lemma_uint_round_trip(stats.begin_time64 as nat, 8, endian);
    lemma_v9_body_round_trip(stats.base, version, begin + tail, endian);
    assert(buf =~= body + (begin + tail));
    assert(buf.subrange(344, 352) =~= begin);
}

/// The accounting of one task in the units of this library: times in
/// nanoseconds and sizes in bytes, whatever the unit of the kernel's field.
/// What a version of the record lacks is zero.
#[derive(Debug)]
pub struct TaskStats {
    pub command_str: String,
    pub pid: Pid,
    pub uid: Uid,
    pub gid: Gid,
    pub parent_pid: Pid,
    pub nice: isize,
    pub flags: usize,
    pub exitcode: usize,
    pub timestamp: Timestamp,
    pub begin_time: Timestamp,
    pub elapsed_time: TimeCount,
    pub scheduling_discipline: u8,
    pub user_cpu_time: TimeCount,
    pub system_cpu_time: TimeCount,
    pub accumulated_rss: DataCount,
    pub accumulated_vss: DataCount,
    pub high_water_rss: DataCount,
    pub high_water_vss: DataCount,
    pub io_read: DataCount,
    pub io_write: DataCount,
    pub read_syscall_count: Count,
    pub write_syscall_count: Count,
    pub block_io_read: DataCount,
    pub block_io_write: DataCount,
    pub cancelled_block_io_write: DataCount,
    pub cpu_delay_count: Count,
    pub cpu_delay_total: TimeCount,
    pub minor_fault_count: Count,
    pub major_fault_count: Count,
    pub free_pages_delay_count: Count,
    pub free_pages_delay_total: TimeCount,
    pub thrashing_delay_count: Count,
    pub thrashing_delay_total: TimeCount,
    pub block_io_delay_count: Count,
    pub block_io_delay_total: TimeCount,
    pub swapin_delay_count: Count,
    pub swapin_delay_total: TimeCount,
    pub memory_compact_delay_count: Count,
    pub memory_compact_delay_total: TimeCount,
    pub voluntary_context_switches: Count,
    pub nonvoluntary_context_switches: Count,
    pub cpu_runtime_real_total: TimeCount,
    pub cpu_runtime_virtual_total: TimeCount,
    pub user_time_scaled: TimeCount,
    pub system_time_scaled: TimeCount,
    pub run_real_total_scaled: TimeCount,
}

/// The accounting of one task as plain values.
pub struct TaskStatsView {
    pub command_str: Seq<char>,
    pub pid: Pid,
    pub uid: Uid,
    pub gid: Gid,
    pub parent_pid: Pid,
    pub nice: isize,
    pub flags: usize,
    pub exitcode: usize,
    pub timestamp: Timestamp,
    pub begin_time: Timestamp,
    pub elapsed_time: TimeCount,
    pub scheduling_discipline: u8,
    pub user_cpu_time: TimeCount,
    pub system_cpu_time: TimeCount,
    pub accumulated_rss: DataCount,
    pub accumulated_vss: DataCount,
    pub high_water_rss: DataCount,
    pub high_water_vss: DataCount,
    pub io_read: DataCount,
    pub io_write: DataCount,
    pub read_syscall_count: Count,
    pub write_syscall_count: Count,
    pub block_io_read: DataCount,
    pub block_io_write: DataCount,
    pub cancelled_block_io_write: DataCount,
    pub cpu_delay_count: Count,
    pub cpu_delay_total: TimeCount,
    pub minor_fault_count: Count,
    pub major_fault_count: Count,
    pub free_pages_delay_count: Count,
    pub free_pages_delay_total: TimeCount,
    pub thrashing_delay_count: Count,
    pub thrashing_delay_total: TimeCount,
    pub block_io_delay_count: Count,
    pub block_io_delay_total: TimeCount,
    pub swapin_delay_count: Count,
    pub swapin_delay_total: TimeCount,
    pub memory_compact_delay_count: Count,
    pub memory_compact_delay_total: TimeCount,
    pub voluntary_context_switches: Count,
    pub nonvoluntary_context_switches: Count,
    pub cpu_runtime_real_total: TimeCount,
    pub cpu_runtime_virtual_total: TimeCount,
    pub user_time_scaled: TimeCount,
    pub system_time_scaled: TimeCount,
    pub run_real_total_scaled: TimeCount,
}

impl View for TaskStats {
    type V = TaskStatsView;

    open spec fn view(&self) -> TaskStatsView {
        TaskStatsView {
            command_str: self.command_str@,
            pid: self.pid,
            uid: self.uid,
            gid: self.gid,
            parent_pid: self.parent_pid,
            nice: self.nice,
            flags: self.flags,
            exitcode: self.exitcode,
            timestamp: self.timestamp,
            begin_time: self.begin_time,
            elapsed_time: self.elapsed_time,
            scheduling_discipline: self.scheduling_discipline,
            user_cpu_time: self.user_cpu_time,
            system_cpu_time: self.system_cpu_time,
            accumulated_rss: self.accumulated_rss,
            accumulated_vss: self.accumulated_vss,
            high_water_rss: self.high_water_rss,
            high_water_vss: self.high_water_vss,
            io_read: self.io_read,
            io_write: self.io_write,
            read_syscall_count: self.read_syscall_count,
            write_syscall_count: self.write_syscall_count,
            block_io_read: self.block_io_read,
            block_io_write: self.block_io_write,
            cancelled_block_io_write: self.cancelled_block_io_write,
            cpu_delay_count: self.cpu_delay_count,
            cpu_delay_total: self.cpu_delay_total,
            minor_fault_count: self.minor_fault_count,
            major_fault_count: self.major_fault_count,
            free_pages_delay_count: self.free_pages_delay_count,
            free_pages_delay_total: self.free_pages_delay_total,
            thrashing_delay_count: self.thrashing_delay_count,
            thrashing_delay_total: self.thrashing_delay_total,
            block_io_delay_count: self.block_io_delay_count,
            block_io_delay_total: self.block_io_delay_total,
            swapin_delay_count: self.swapin_delay_count,
            swapin_delay_total: self.swapin_delay_total,
            memory_compact_delay_count: self.memory_compact_delay_count,
            memory_compact_delay_total: self.memory_compact_delay_total,
            voluntary_context_switches: self.voluntary_context_switches,
            nonvoluntary_context_switches: self.nonvoluntary_context_switches,
            cpu_runtime_real_total: self.cpu_runtime_real_total,
            cpu_runtime_virtual_total: self.cpu_runtime_virtual_total,
            user_time_scaled: self.user_time_scaled,
            system_time_scaled: self.system_time_scaled,
            run_real_total_scaled: self.run_real_total_scaled,
        }
    }
}

/// The normalised form of a record of version 8, read at the time `now` and
/// with its command name as text: microseconds, kilobytes and megabytes are
/// turned into nanoseconds and bytes, and the delays that version 8 has not are zero.
pub open spec fn normalized(raw: TaskStatsRawV8, command_str: Seq<char>, now: Timestamp) -> TaskStatsView {
    TaskStatsView {
        command_str,
        pid: Pid(raw.pid as u128),
        uid: Uid(raw.uid as u128),
        gid: Gid(raw.gid as u128),
        parent_pid: Pid(raw.parent_pid as u128),
        nice: raw.nice as isize,
        flags: raw.flags as usize,
        exitcode: raw.exitcode as usize,
        timestamp: now,
        begin_time: Timestamp((raw.begin_time * 1_000_000_000) as u128),
        elapsed_time: TimeCount((raw.elapsed_time * 1_000) as u128),
        scheduling_discipline: raw.scheduling_discipline,
        user_cpu_time: TimeCount((raw.user_cpu_time * 1_000) as u128),
        system_cpu_time: TimeCount((raw.system_cpu_time * 1_000) as u128),
        accumulated_rss: DataCount((raw.accumulated_rss * 1024 * 1024) as u128),
        accumulated_vss: DataCount((raw.accumulated_vss * 1024 * 1024) as u128),
        high_water_rss: DataCount((raw.high_water_rss * 1024) as u128),
        high_water_vss: DataCount((raw.high_water_vss * 1024) as u128),
        io_read: DataCount(raw.io_read_bytes as u128),
        io_write: DataCount(raw.io_write_bytes as u128),
        read_syscall_count: Count(raw.read_syscall_count as u128),
        write_syscall_count: Count(raw.write_syscall_count as u128),
        block_io_read: DataCount(raw.block_io_read_bytes as u128),
        block_io_write: DataCount(raw.block_io_write_bytes as u128),
        cancelled_block_io_write: DataCount(raw.cancelled_block_io_write_bytes as u128),
        cpu_delay_count: Count(raw.cpu_delay_count as u128),
        cpu_delay_total: TimeCount(raw.cpu_delay_total as u128),
        minor_fault_count: Count(raw.minor_fault_count as u128),
        major_fault_count: Count(raw.major_fault_count as u128),
        free_pages_delay_count: Count(raw.free_pages_delay_count as u128),
        free_pages_delay_total: TimeCount(raw.free_pages_delay_total as u128),
        thrashing_delay_count: Count(0),
        thrashing_delay_total: TimeCount(0),
        block_io_delay_count: Count(raw.block_io_delay_count as u128),
        block_io_delay_total: TimeCount(raw.block_io_delay_total as u128),
        swapin_delay_count: Count(raw.swapin_delay_count as u128),
        swapin_delay_total: TimeCount(raw.swapin_delay_total as u128),
        memory_compact_delay_count: Count(0),
        memory_compact_delay_total: TimeCount(0),
        voluntary_context_switches: Count(raw.voluntary_context_switches as u128),
        nonvoluntary_context_switches: Count(raw.nonvoluntary_context_switches as u128),
        cpu_runtime_real_total: TimeCount(raw.cpu_runtime_real_total as u128),
        cpu_runtime_virtual_total: TimeCount(raw.cpu_runtime_virtual_total as u128),
        user_time_scaled: TimeCount(raw.user_time_scaled as u128),
        system_time_scaled: TimeCount(raw.system_time_scaled as u128),
        run_real_total_scaled: TimeCount(raw.run_real_total_scaled as u128),
    }
}

fn normalize(raw: &TaskStatsRawV8, command_str: String, now: Timestamp) -> (r: TaskStats)
    ensures
        r@ == normalized(*raw, command_str@, now),
{
    TaskStats {
        command_str,
        pid: Pid(raw.pid as u128),
        uid: Uid(raw.uid as u128),
        gid: Gid(raw.gid as u128),
        parent_pid: Pid(raw.parent_pid as u128),
        nice: raw.nice as isize,
        flags: raw.flags as usize,
        exitcode: raw.exitcode as usize,
        timestamp: now,
        begin_time: Timestamp(raw.begin_time as u128 * 1_000_000_000),
        elapsed_time: TimeCount(raw.elapsed_time as u128 * 1_000),
        scheduling_discipline: raw.scheduling_discipline,
        user_cpu_time: TimeCount(raw.user_cpu_time as u128 * 1_000),
        system_cpu_time: TimeCount(raw.system_cpu_time as u128 * 1_000),
        accumulated_rss: DataCount(raw.accumulated_rss as u128 * 1024 * 1024),
        accumulated_vss: DataCount(raw.accumulated_vss as u128 * 1024 * 1024),
        high_water_rss: DataCount(raw.high_water_rss as u128 * 1024),
        high_water_vss: DataCount(raw.high_water_vss as u128 * 1024),
        io_read: DataCount(raw.io_read_bytes as u128),
        io_write: DataCount(raw.io_write_bytes as u128),
        read_syscall_count: Count(raw.read_syscall_count as u128),
        write_syscall_count: Count(raw.write_syscall_count as u128),
        block_io_read: DataCount(raw.block_io_read_bytes as u128),
        block_io_write: DataCount(raw.block_io_write_bytes as u128),
        cancelled_block_io_write: DataCount(raw.cancelled_block_io_write_bytes as u128),
        cpu_delay_count: Count(raw.cpu_delay_count as u128),
        cpu_delay_total: TimeCount(raw.cpu_delay_total as u128),
        minor_fault_count: Count(raw.minor_fault_count as u128),
        major_fault_count: Count(raw.major_fault_count as u128),
        free_pages_delay_count: Count(raw.free_pages_delay_count as u128),
        free_pages_delay_total: TimeCount(raw.free_pages_delay_total as u128),
        thrashing_delay_count: Count(0),
        thrashing_delay_total: TimeCount(0),
        block_io_delay_count: Count(raw.block_io_delay_count as u128),
        block_io_delay_total: TimeCount(raw.block_io_delay_total as u128),
        swapin_delay_count: Count(raw.swapin_delay_count as u128),
        swapin_delay_total: TimeCount(raw.swapin_delay_total as u128),
        memory_compact_delay_count: Count(0),
        memory_compact_delay_total: TimeCount(0),
        voluntary_context_switches: Count(raw.voluntary_context_switches as u128),
        nonvoluntary_context_switches: Count(raw.nonvoluntary_context_switches as u128),
        cpu_runtime_real_total: TimeCount(raw.cpu_runtime_real_total as u128),
        cpu_runtime_virtual_total: TimeCount(raw.cpu_runtime_virtual_total as u128),
        user_time_scaled: TimeCount(raw.user_time_scaled as u128),
        system_time_scaled: TimeCount(raw.system_time_scaled as u128),
        run_real_total_scaled: TimeCount(raw.run_real_total_scaled as u128),
    }
}

impl TaskStatsRaw {
    /// The record of version 8 that every version starts with.
    pub open spec fn common(self) -> TaskStatsRawV8 {
        match self {
            TaskStatsRaw::V8(stats) => stats,
            TaskStatsRaw::V9(stats) => stats.base,
            TaskStatsRaw::V10(stats) => stats.base.base,
            TaskStatsRaw::V11(stats) => stats.base.base.base,
        }
    }

    /// The bytes of the command name.
    pub open spec fn command(self) -> Seq<u8> {
        command_bytes(self.common().command_high, self.common().command_low)
    }

    /// The normalised form of the record, read at the time `now`: that of its
    /// common part, with the delay of thrashing from version 9 on and the
    /// delay of memory compaction from version 11 on.
    pub open spec fn normal(self, now: Timestamp) -> TaskStatsView {
        let base = normalized(self.common(), decode_utf8(self.command()), now);
        match self {
            TaskStatsRaw::V8(_) => base,
            TaskStatsRaw::V9(stats) => TaskStatsView {
                thrashing_delay_count: Count(stats.thrashing_delay_count as u128),
                thrashing_delay_total: TimeCount(stats.thrashing_delay_total as u128),
                ..base
            },
            TaskStatsRaw::V10(stats) => TaskStatsView {
                thrashing_delay_count: Count(stats.base.thrashing_delay_count as u128),
                thrashing_delay_total: TimeCount(stats.base.thrashing_delay_total as u128),
                ..base
            },
            TaskStatsRaw::V11(stats) => TaskStatsView {
                thrashing_delay_count: Count(stats.base.base.thrashing_delay_count as u128),
                thrashing_delay_total: TimeCount(stats.base.base.thrashing_delay_total as u128),
                memory_compact_delay_count: Count(stats.memory_compact_delay_count as u128),
                memory_compact_delay_total: TimeCount(stats.memory_compact_delay_total as u128),
                ..base
            },
        }
    }

    /// Normalises the record as read at the time `now`. A command name that
    /// is not UTF-8 is refused with its bytes.
    pub fn to_taskstats_at(&self, now: Timestamp) -> (r: Result<TaskStats, TaskStatsError>)
        ensures
            match r {
                Ok(stats) => valid_utf8(self.command()) && stats@ == self.normal(now),
                Err(TaskStatsError::TASK_STRUCT_ERROR(bytes)) => !valid_utf8(self.command())
                    && bytes@ == self.command(),
                Err(_) => false,
            },
    {
        match self {
            TaskStatsRaw::V8(stats) => stats.to_taskstats_at(now),
            TaskStatsRaw::V9(stats) => stats.to_taskstats_at(now),
            TaskStatsRaw::V10(stats) => stats.to_taskstats_at(now),
            TaskStatsRaw::V11(stats) => stats.to_taskstats_at(now),
        }
    }

    /// Normalises the record as read now, by the system clock.
    pub fn to_taskstats(&self) -> (r: Result<TaskStats, TaskStatsError>)
        ensures
            match r {
                Ok(stats) => valid_utf8(self.command()) && stats@ == self.normal(stats.timestamp),
                Err(TaskStatsError::TASK_STRUCT_ERROR(bytes)) => !valid_utf8(self.command())
                    && bytes@ == self.command(),
                Err(_) => false,
            },
    {
        self.to_taskstats_at(Timestamp::get_curr_timestamp())
    }
}

impl TaskStatsRawV8 {
    /// Normalises the record as read at the time `now`.
    pub fn to_taskstats_at(&self, now: Timestamp) -> (r: Result<TaskStats, TaskStatsError>)
        ensures
            match r {
                Ok(stats) => valid_utf8(TaskStatsRaw::V8(*self).command()) && stats@
                    == TaskStatsRaw::V8(*self).normal(now),
                Err(TaskStatsError::TASK_STRUCT_ERROR(bytes)) => !valid_utf8(
                    TaskStatsRaw::V8(*self).command(),
                ) && bytes@ == TaskStatsRaw::V8(*self).command(),
                Err(_) => false,
            },
    {
        match self.command_str() {
            Ok(text) => Ok(normalize(self, text, now)),
            Err(e) => Err(e),
        }
    }

    /// Normalises the record as read now, by the system clock.
    pub fn to_taskstats(&self) -> (r: Result<TaskStats, TaskStatsError>)
        ensures
            match r {
                Ok(stats) => valid_utf8(TaskStatsRaw::V8(*self).command()) && stats@
                    == TaskStatsRaw::V8(*self).normal(stats.timestamp),
                Err(TaskStatsError::TASK_STRUCT_ERROR(bytes)) => !valid_utf8(
                    TaskStatsRaw::V8(*self).command(),
                ) && bytes@ == TaskStatsRaw::V8(*self).command(),
                Err(_) => false,
            },
    {
        self.to_taskstats_at(Timestamp::get_curr_timestamp())
    }
}

impl TaskStatsRawV9 {
    /// Normalises the record as read at the time `now`.
    pub fn to_taskstats_at(&self, now: Timestamp) -> (r: Result<TaskStats, TaskStatsError>)
        ensures
            match r {
                Ok(stats) => valid_utf8(TaskStatsRaw::V9(*self).command()) && stats@
                    == TaskStatsRaw::V9(*self).normal(now),
                Err(TaskStatsError::TASK_STRUCT_ERROR(bytes)) => !valid_utf8(
                    TaskStatsRaw::V9(*self).command(),
                ) && bytes@ == TaskStatsRaw::V9(*self).command(),
                Err(_) => false,
            },
    {
        match self.get_command_str() {
            Ok(text) => {
                let mut stats = normalize(&self.base, text, now);
                stats.thrashing_delay_count = Count(self.thrashing_delay_count as u128);
                stats.thrashing_delay_total = TimeCount(self.thrashing_delay_total as u128);
                Ok(stats)
            },
            Err(e) => Err(e),
        }
    }

    /// Normalises the record as read now, by the system clock.
    pub fn to_taskstats(&self) -> (r: Result<TaskStats, TaskStatsError>)
        ensures
            match r {
                Ok(stats) => valid_utf8(TaskStatsRaw::V9(*self).command()) && stats@
                    == TaskStatsRaw::V9(*self).normal(stats.timestamp),
                Err(TaskStatsError::TASK_STRUCT_ERROR(bytes)) => !valid_utf8(
                    TaskStatsRaw::V9(*self).command(),
                ) && bytes@ == TaskStatsRaw::V9(*self).command(),
                Err(_) => false,
            },
    {
        self.to_taskstats_at(Timestamp::get_curr_timestamp())
    }
}

impl TaskStatsRawV10 {
    /// Normalises the record as read at the time `now`.
    pub fn to_taskstats_at(&self, now: Timestamp) -> (r: Result<TaskStats, TaskStatsError>)
        ensures
            match r {
                Ok(stats) => valid_utf8(TaskStatsRaw::V10(*self).command()) && stats@
                    == TaskStatsRaw::V10(*self).normal(now),
                Err(TaskStatsError::TASK_STRUCT_ERROR(bytes)) => !valid_utf8(
                    TaskStatsRaw::V10(*self).command(),
                ) && bytes@ == TaskStatsRaw::V10(*self).command(),
                Err(_) => false,
            },
    {
        match self.command_str() {
            Ok(text) => {
                let mut stats = normalize(&self.base.base, text, now);
                stats.thrashing_delay_count = Count(self.base.thrashing_delay_count as u128);
                stats.thrashing_delay_total = TimeCount(self.base.thrashing_delay_total as u128);
                Ok(stats)
            },
            Err(e) => Err(e),
        }
    }

    /// Normalises the record as read now, by the system clock.
    pub fn to_taskstats(&self) -> (r: Result<TaskStats, TaskStatsError>)
        ensures
            match r {
                Ok(stats) => valid_utf8(TaskStatsRaw::V10(*self).command()) && stats@
                    == TaskStatsRaw::V10(*self).normal(stats.timestamp),
                Err(TaskStatsError::TASK_STRUCT_ERROR(bytes)) => !valid_utf8(
                    TaskStatsRaw::V10(*self).command(),
                ) && bytes@ == TaskStatsRaw::V10(*self).command(),
                Err(_) => false,
            },
    {
        self.to_taskstats_at(Timestamp::get_curr_timestamp())
    }
}

impl TaskStatsRawV11 {
    /// Normalises the record as read at the time `now`.
    pub fn to_taskstats_at(&self, now: Timestamp) -> (r: Result<TaskStats, TaskStatsError>)
        ensures
            match r {
                Ok(stats) => valid_utf8(TaskStatsRaw::V11(*self).command()) && stats@
                    == TaskStatsRaw::V11(*self).normal(now),
                Err(TaskStatsError::TASK_STRUCT_ERROR(bytes)) => !valid_utf8(
                    TaskStatsRaw::V11(*self).command(),
                ) && bytes@ == TaskStatsRaw::V11(*self).command(),
                Err(_) => false,
            },
    {
        match self.command_str() {
            Ok(text) => {
                let mut stats = normalize(&self.base.base.base, text, now);
                stats.thrashing_delay_count = Count(self.base.base.thrashing_delay_count as u128);
                stats.thrashing_delay_total = TimeCount(
                    self.base.base.thrashing_delay_total as u128,
                );
                stats.memory_compact_delay_count = Count(self.memory_compact_delay_count as u128);
                stats.memory_compact_delay_total = TimeCount(
                    self.memory_compact_delay_total as u128,
                );
                Ok(stats)
            },
            Err(e) => Err(e),
        }
    }

    /// Normalises the record as read now, by the system clock.
    pub fn to_taskstats(&self) -> (r: Result<TaskStats, TaskStatsError>)
        ensures
            match r {
                Ok(stats) => valid_utf8(TaskStatsRaw::V11(*self).command()) && stats@
                    == TaskStatsRaw::V11(*self).normal(stats.timestamp),
                Err(TaskStatsError::TASK_STRUCT_ERROR(bytes)) => !valid_utf8(
                    TaskStatsRaw::V11(*self).command(),
                ) && bytes@ == TaskStatsRaw::V11(*self).command(),
                Err(_) => false,
            },
    {
        self.to_taskstats_at(Timestamp::get_curr_timestamp())
    }
}

/// The commands of the TASKSTATS family.
#[derive(Debug, Clone, Copy, PartialEq, Eq, Structural)]
pub enum TaskStatsCommand {
    /// Reserved.
    UNSPECIFIED,
    /// A request of a user, and the kernel's answer to it.
    GET,
    /// An event that the kernel sends of its own.
    NEW,
}

impl TaskStatsCommand {
    /// The number of the command on the wire.
    pub open spec fn number(self) -> u8 {
        match self {
            TaskStatsCommand::UNSPECIFIED => 0,
            TaskStatsCommand::GET => 1,
            TaskStatsCommand::NEW => 2,
        }
    }

    pub fn to_command(self) -> (r: GenericNetlinkMessageCommand)
        ensures
            r.0 == self.number(),
    {
        GenericNetlinkMessageCommand::New(
            match self {
                TaskStatsCommand::UNSPECIFIED => 0,
                TaskStatsCommand::GET => 1,
                TaskStatsCommand::NEW => 2,
            },
        )
    }

    /// The command with the number of `command`; a number above two names none.
    pub fn try_from(command: GenericNetlinkMessageCommand) -> (r: Result<Self, TaskStatsError>)
        ensures
            command.0 <= 2 ==> (r matches Ok(c) && c.number() == command.0),
            command.0 > 2 ==> (r matches Err(TaskStatsError::UNKNOWN_COMMAND(c)) && c == command.0),
    {
        match command.0 {
            0 => Ok(TaskStatsCommand::UNSPECIFIED),
            1 => Ok(TaskStatsCommand::GET),
            2 => Ok(TaskStatsCommand::NEW),
            _ => Err(TaskStatsError::UNKNOWN_COMMAND(command.0)),
        }
    }
}

#[derive(Debug, Clone, Copy, PartialEq, Eq, Structural)]
pub struct TaskStatsAttributeType(pub u16);

impl TaskStatsAttributeType {
    pub fn new(value: u16) -> (r: Self)
        ensures
            r.0 == value,
    {
        Self(value)
    }

    pub fn to_attribute_type(self) -> (r: GenericNetlinkMessageAttributeType)
        ensures
            r.0 == self.0,
    {
        GenericNetlinkMessageAttributeType::New(self.0)
    }

    pub fn from_attribute_type(attribute_type: GenericNetlinkMessageAttributeType) -> (r: Self)
        ensures
            r.0 == attribute_type.0,
    {
        Self(attribute_type.0)
    }
}

/// One attribute of a TASKSTATS message, not yet read as a command or a result.
#[derive(Debug)]
pub struct TaskStatsAttribute {
    pub attr_type: TaskStatsAttributeType,
    pub payload: Vec<u8>,
}

impl View for TaskStatsAttribute {
    type V = AttributeView;

    open spec fn view(&self) -> AttributeView {
        AttributeView { attr_type: self.attr_type.0, payload: self.payload@ }
    }
}

impl TaskStatsAttribute {
    pub fn new(attr_type: TaskStatsAttributeType, payload: Vec<u8>) -> (r: Self)
        ensures
            r.attr_type == attr_type,
            r.payload == payload,
    {
        Self { attr_type, payload }
    }

    pub fn get_type(&self) -> (r: TaskStatsAttributeType)
        ensures
            r == self.attr_type,
    {
        self.attr_type
    }

    pub fn to_attribute(self) -> (r: GenericNetlinkMessageAttribute)
        ensures
            r@ == self@,
    {
        GenericNetlinkMessageAttribute::New(self.attr_type.to_attribute_type(), self.payload)
    }

    pub fn from_attribute(attribute: GenericNetlinkMessageAttribute) -> (r: Self)
        ensures
            r@ == attribute@,
    {
        TaskStatsAttribute::new(
            TaskStatsAttributeType::from_attribute_type(attribute.Type()),
            attribute.payload,
        )
    }
}

#[derive(Debug, Clone, Copy, PartialEq, Eq, Structural)]
pub enum TaskStatsCommandAttributeType {
    Unspecified,
    PID,
    TGID,
    RegisterCPUMask,
    DeregisterCPUMask,
}

impl TaskStatsCommandAttributeType {
    /// The number of the type on the wire.
    pub open spec fn number(self) -> u16 {
        match self {
            TaskStatsCommandAttributeType::Unspecified => 0,
            TaskStatsCommandAttributeType::PID => 1,
            TaskStatsCommandAttributeType::TGID => 2,
            TaskStatsCommandAttributeType::RegisterCPUMask => 3,
            TaskStatsCommandAttributeType::DeregisterCPUMask => 4,
        }
    }

    pub fn to_attribute_type(self) -> (r: TaskStatsAttributeType)
        ensures
            r.0 == self.number(),
    {
        TaskStatsAttributeType::new(
            match self {
                TaskStatsCommandAttributeType::Unspecified => 0,
                TaskStatsCommandAttributeType::PID => 1,
                TaskStatsCommandAttributeType::TGID => 2,
                TaskStatsCommandAttributeType::RegisterCPUMask => 3,
                TaskStatsCommandAttributeType::DeregisterCPUMask => 4,
            },
        )
    }
}

/// An attribute of a request to the TASKSTATS family.
#[derive(Debug)]
pub enum TaskStatsCommandAttribute {
    Unspecified,
    /// Ask for the thread with this id.
    PID(Tid),
    /// Ask for the thread group with this id.
    TGID(Pid),
    RegisterCPUMask(String),
    DeregisterCpuMask(String),
}

/// The type of a command attribute.
pub open spec fn command_attribute_type(attr: TaskStatsCommandAttribute) -> TaskStatsCommandAttributeType {
    match attr {
        TaskStatsCommandAttribute::Unspecified => TaskStatsCommandAttributeType::Unspecified,
        TaskStatsCommandAttribute::PID(_) => TaskStatsCommandAttributeType::PID,
        TaskStatsCommandAttribute::TGID(_) => TaskStatsCommandAttributeType::TGID,
        TaskStatsCommandAttribute::RegisterCPUMask(_) => TaskStatsCommandAttributeType::RegisterCPUMask,
        TaskStatsCommandAttribute::DeregisterCpuMask(_) => TaskStatsCommandAttributeType::DeregisterCPUMask,
    }
}

/// The attribute that carries a command attribute: an id in its low 32 bits,
/// a mask as its text and a zero byte.
pub open spec fn command_attribute_encoded(attr: TaskStatsCommandAttribute, endian: Endian) -> AttributeView {
    match attr {
        TaskStatsCommandAttribute::Unspecified => AttributeView {
            attr_type: 0,
            payload: Seq::empty(),
        },
        TaskStatsCommandAttribute::PID(tid) => AttributeView {
            attr_type: 1,
            payload: uint_bytes(tid@ % 0x1_0000_0000, 4, endian),
        },
        TaskStatsCommandAttribute::TGID(pid) => AttributeView {
            attr_type: 2,
            payload: uint_bytes(pid@ % 0x1_0000_0000, 4, endian),
        },
        TaskStatsCommandAttribute::RegisterCPUMask(mask) => AttributeView {
            attr_type: 3,
            payload: encode_utf8(mask@).push(0u8),
        },
        TaskStatsCommandAttribute::DeregisterCpuMask(mask) => AttributeView {
            attr_type: 4,
            payload: encode_utf8(mask@).push(0u8),
        },
    }
}

fn text_with_nul(text: &String) -> (r: Vec<u8>)
    ensures
        r@ == encode_utf8(text@).push(0u8),
{
    let bytes = text.as_str().as_bytes();
    let mut payload = vstd::slice::slice_to_vec(bytes);
    payload.push(0u8);
    payload
}

impl TaskStatsCommandAttribute {
    pub fn get_type(&self) -> (r: TaskStatsCommandAttributeType)
        ensures
            r == command_attribute_type(*self),
    {
        match self {
            TaskStatsCommandAttribute::Unspecified => TaskStatsCommandAttributeType::Unspecified,
            TaskStatsCommandAttribute::PID(_) => TaskStatsCommandAttributeType::PID,
            TaskStatsCommandAttribute::TGID(_) => TaskStatsCommandAttributeType::TGID,
            TaskStatsCommandAttribute::RegisterCPUMask(_) => TaskStatsCommandAttributeType::RegisterCPUMask,
            TaskStatsCommandAttribute::DeregisterCpuMask(_) => TaskStatsCommandAttributeType::DeregisterCPUMask,
        }
    }

    /// The attribute that carries this one.
    pub fn to_attribute(&self, endian: Endian) -> (r: TaskStatsAttribute)
        ensures
            r@ == command_attribute_encoded(*self, endian),
    {
        let attr_type = self.get_type().to_attribute_type();
        let mut payload: Vec<u8> = Vec::new();
        match self {
            TaskStatsCommandAttribute::Unspecified => {},
            TaskStatsCommandAttribute::PID(tid) => {
                append_uint(&mut payload, tid.to_u32() as u128, 4, endian);
                assert(payload@ =~= uint_bytes(tid@ % 0x1_0000_0000, 4, endian));
            },
            TaskStatsCommandAttribute::TGID(pid) => {
                append_uint(&mut payload, pid.to_u32() as u128, 4, endian);
                assert(payload@ =~= uint_bytes(pid@ % 0x1_0000_0000, 4, endian));
            },
            TaskStatsCommandAttribute::RegisterCPUMask(mask) => {
                payload = text_with_nul(mask);
            },
            TaskStatsCommandAttribute::DeregisterCpuMask(mask) => {
                payload = text_with_nul(mask);
            },
        }
        TaskStatsAttribute::new(attr_type, payload)
    }
}

/// The accounting of one thread as the kernel answers with it.
#[derive(Debug, Clone, Copy, PartialEq, Eq, Structural)]
pub struct TaskStatsResultAttributeAggregatePid {
    pub tid: Tid,
    pub stats: TaskStatsRaw,
}

impl TaskStatsResultAttributeAggregatePid {
    pub fn new(tid: Tid, stats: TaskStatsRaw) -> (r: Self)
        ensures
            r == (TaskStatsResultAttributeAggregatePid { tid, stats }),
    {
        Self { tid, stats }
    }
}

/// The accounting of one thread group as the kernel answers with it.
#[derive(Debug, Clone, Copy, PartialEq, Eq, Structural)]
pub struct TaskStatsResultAttributeAggregateTgid {
    pub pid: Pid,
    pub stats: TaskStatsRaw,
}

impl TaskStatsResultAttributeAggregateTgid {
    pub fn new(pid: Pid, stats: TaskStatsRaw) -> (r: Self)
        ensures
            r == (TaskStatsResultAttributeAggregateTgid { pid, stats }),
    {
        Self { pid, stats }
    }
}

#[derive(Debug, Clone, Copy, PartialEq, Eq, Structural)]
pub enum TaskStatsResultAttributeType {
    /// Reserved.
    Unspecified,
    /// A thread id.
    PID,
    /// A thread group id.
    TGID,
    /// A raw record.
    Stats,
    /// A thread id and a raw record.
    AggrPid,
    /// A thread group id and a raw record.
    AggrTGid,
    /// Nothing.
    NULL,
}

impl TaskStatsResultAttributeType {
    /// The number of the type on the wire.
    pub open spec fn number(self) -> u16 {
        match self {
            TaskStatsResultAttributeType::Unspecified => 0,
            TaskStatsResultAttributeType::PID => 1,
            TaskStatsResultAttributeType::TGID => 2,
            TaskStatsResultAttributeType::Stats => 3,
            TaskStatsResultAttributeType::AggrPid => 4,
            TaskStatsResultAttributeType::AggrTGid => 5,
            TaskStatsResultAttributeType::NULL => 6,
        }
    }

    pub fn to_attribute_type(self) -> (r: TaskStatsAttributeType)
        ensures
            r.0 == self.number(),
    {
        TaskStatsAttributeType::new(
            match self {
                TaskStatsResultAttributeType::Unspecified => 0,
                TaskStatsResultAttributeType::PID => 1,
                TaskStatsResultAttributeType::TGID => 2,
                TaskStatsResultAttributeType::Stats => 3,
                TaskStatsResultAttributeType::AggrPid => 4,
                TaskStatsResultAttributeType::AggrTGid => 5,
                TaskStatsResultAttributeType::NULL => 6,
            },
        )
    }

    /// The result type with the number of `attr_type`; a number above six names none.
    pub fn try_from(attr_type: TaskStatsAttributeType) -> (r: Result<Self, TaskStatsError>)
        ensures
            attr_type.0 <= 6 ==> (r matches Ok(t) && t.number() == attr_type.0),
            attr_type.0 > 6 ==> (r matches Err(TaskStatsError::UNKNOWN_RESULT_ATTRIBUTE_TYPE(t))
                && t == attr_type),
    {
        match attr_type.0 {
            0 => Ok(TaskStatsResultAttributeType::Unspecified),
            1 => Ok(TaskStatsResultAttributeType::PID),
            2 => Ok(TaskStatsResultAttributeType::TGID),
            3 => Ok(TaskStatsResultAttributeType::Stats),
            4 => Ok(TaskStatsResultAttributeType::AggrPid),
            5 => Ok(TaskStatsResultAttributeType::AggrTGid),
            6 => Ok(TaskStatsResultAttributeType::NULL),
            _ => Err(TaskStatsError::UNKNOWN_RESULT_ATTRIBUTE_TYPE(attr_type)),
        }
    }
}

/// An attribute of an answer of the TASKSTATS family.
#[derive(Debug, Clone, Copy, PartialEq, Eq, Structural)]
pub enum TaskStatsResultAttribute {
    Unspecified,
    PID(Tid),
    TGID(Pid),
    Stats(TaskStatsRaw),
    AggrPid(TaskStatsResultAttributeAggregatePid),
    AggrTGid(TaskStatsResultAttributeAggregateTgid),
    NULL,
}

/// How reading a result attribute can fail.
pub enum ResultRefusal {
    /// The type, this number, is none of the family.
    UnknownType(u16),
    /// These bytes are too few for what they should hold.
    Truncated(Seq<u8>),
    /// The record declares this version, which is not one of 8 to 11.
    Unsupported(u16),
}

/// Where in an aggregate the id stands: after the header of its nested attribute.
pub const AGGREGATE_ID_OFFSET: usize = 4;

/// Where in an aggregate the record stands: after the nested id and the
/// header of its own nested attribute.
pub const AGGREGATE_STATS_OFFSET: usize = 12;

/// The raw record that `buf` holds, with the refusals of a result attribute.
pub open spec fn result_stats(buf: Seq<u8>, endian: Endian) -> Result<TaskStatsRaw, ResultRefusal> {
    match TaskStatsRaw::parsed(buf, endian) {
        Ok(raw) => Ok(raw),
        Err(RawRefusal::Short) => Err(ResultRefusal::Truncated(buf)),
        Err(RawRefusal::Unsupported(version)) => Err(ResultRefusal::Unsupported(version)),
    }
}

/// The result attribute that an attribute carries. An id stands in bytes 4
/// to 8 of the payload, after the header of the nested attribute that holds
/// it; in an aggregate the record follows from byte 12 on.
pub open spec fn result_attribute_parsed(attr: AttributeView, endian: Endian) -> Result<
    TaskStatsResultAttribute,
    ResultRefusal,
> {
    let payload = attr.payload;
    let id = uint_value(payload.subrange(AGGREGATE_ID_OFFSET as int, 8), endian) as u128;
    let nested = payload.subrange(AGGREGATE_STATS_OFFSET as int, payload.len() as int);
    if attr.attr_type > 6 {
        Err(ResultRefusal::UnknownType(attr.attr_type))
    } else if attr.attr_type == 0 {
        Ok(TaskStatsResultAttribute::Unspecified)
    } else if attr.attr_type == 6 {
        Ok(TaskStatsResultAttribute::NULL)
    } else if attr.attr_type == 3 {
        match result_stats(payload, endian) {
            Ok(raw) => Ok(TaskStatsResultAttribute::Stats(raw)),
            Err(e) => Err(e),
        }
    } else if attr.attr_type == 1 || attr.attr_type == 2 {
        if payload.len() < 8 {
            Err(ResultRefusal::Truncated(payload))
        } else if attr.attr_type == 1 {
            Ok(TaskStatsResultAttribute::PID(Tid(id)))
        } else {
            Ok(TaskStatsResultAttribute::TGID(Pid(id)))
        }
    } else if payload.len() < AGGREGATE_STATS_OFFSET {
        Err(ResultRefusal::Truncated(payload))
    } else {
        match result_stats(nested, endian) {
            Err(e) => Err(e),
            Ok(stats) => if attr.attr_type == 4 {
                Ok(
                    TaskStatsResultAttribute::AggrPid(
                        TaskStatsResultAttributeAggregatePid { tid: Tid(id), stats },
                    ),
                )
            } else {
                Ok(
                    TaskStatsResultAttribute::AggrTGid(
                        TaskStatsResultAttributeAggregateTgid { pid: Pid(id), stats },
                    ),
                )
            },
        }
    }
}

/// The refusal that an error of reading a result attribute stands for.
pub open spec fn result_refusal_of(e: TaskStatsError) -> Option<ResultRefusal> {
    match e {
        TaskStatsError::UNKNOWN_RESULT_ATTRIBUTE_TYPE(t) => Some(ResultRefusal::UnknownType(t.0)),
        TaskStatsError::TASK_STRUCT_ERROR(bytes) => Some(ResultRefusal::Truncated(bytes@)),
        TaskStatsError::UNSUPPORTED_TASKSTATS_VERSION(version) => Some(
            ResultRefusal::Unsupported(version),
        ),
        _ => None,
    }
}

/// What the result of reading a result attribute stands for.
pub open spec fn result_outcome(r: Result<TaskStatsResultAttribute, TaskStatsError>) -> Option<
    Result<TaskStatsResultAttribute, ResultRefusal>,
> {
    match r {
        Ok(found) => Some(Ok(found)),
        Err(e) => match result_refusal_of(e) {
            Some(refusal) => Some(Err(refusal)),
            None => None,
        },
    }
}

fn read_result_stats(buf: &[u8], endian: Endian) -> (r: Result<TaskStatsRaw, TaskStatsError>)
    ensures
        match r {
            Ok(raw) => result_stats(buf@, endian) == Ok::<TaskStatsRaw, ResultRefusal>(raw),
            Err(e) => match result_refusal_of(e) {
                Some(refusal) => result_stats(buf@, endian) == Err::<TaskStatsRaw, ResultRefusal>(
                    refusal,
                ),
                None => false,
            },
        },
{
    TaskStatsRaw::from_byte_array(buf, endian)
}

impl TaskStatsResultAttribute {
    pub fn get_type(&self) -> (r: TaskStatsResultAttributeType)
        ensures
            r == (match self {
                TaskStatsResultAttribute::Unspecified => TaskStatsResultAttributeType::Unspecified,
                TaskStatsResultAttribute::PID(_) => TaskStatsResultAttributeType::PID,
                TaskStatsResultAttribute::TGID(_) => TaskStatsResultAttributeType::TGID,
                TaskStatsResultAttribute::Stats(_) => TaskStatsResultAttributeType::Stats,
                TaskStatsResultAttribute::AggrPid(_) => TaskStatsResultAttributeType::AggrPid,
                TaskStatsResultAttribute::AggrTGid(_) => TaskStatsResultAttributeType::AggrTGid,
                TaskStatsResultAttribute::NULL => TaskStatsResultAttributeType::NULL,
            }),
    {
        match self {
            TaskStatsResultAttribute::Unspecified => TaskStatsResultAttributeType::Unspecified,
            TaskStatsResultAttribute::PID(_) => TaskStatsResultAttributeType::PID,
            TaskStatsResultAttribute::TGID(_) => TaskStatsResultAttributeType::TGID,
            TaskStatsResultAttribute::Stats(_) => TaskStatsResultAttributeType::Stats,
            TaskStatsResultAttribute::AggrPid(_) => TaskStatsResultAttributeType::AggrPid,
            TaskStatsResultAttribute::AggrTGid(_) => TaskStatsResultAttributeType::AggrTGid,
            TaskStatsResultAttribute::NULL => TaskStatsResultAttributeType::NULL,
        }
    }

    /// Reads the result attribute that an attribute carries.
    pub fn try_from(attribute: &TaskStatsAttribute, endian: Endian) -> (r: Result<Self, TaskStatsError>)
        ensures
            result_outcome(r) == Some(result_attribute_parsed(attribute@, endian)),
    {
        let attribute_type = match TaskStatsResultAttributeType::try_from(attribute.get_type()) {
            Ok(t) => t,
            Err(e) => {
                return Err(e);
            },
        };
        let payload = attribute.payload.as_slice();
        proof {
            lemma_pow256_values();
        }
        match attribute_type {
            TaskStatsResultAttributeType::Unspecified => Ok(TaskStatsResultAttribute::Unspecified),
            TaskStatsResultAttributeType::NULL => Ok(TaskStatsResultAttribute::NULL),
            TaskStatsResultAttributeType::Stats => match read_result_stats(payload, endian) {
                Ok(raw) => Ok(TaskStatsResultAttribute::Stats(raw)),
                Err(e) => Err(e),
            },
            TaskStatsResultAttributeType::PID => {
                if payload.len() < 8 {
                    return Err(TaskStatsError::TASK_STRUCT_ERROR(vstd::slice::slice_to_vec(payload)));
                }
                Ok(TaskStatsResultAttribute::PID(Tid(read_uint(payload, 4, 4, endian))))
            },
            TaskStatsResultAttributeType::TGID => {
                if payload.len() < 8 {
                    return Err(TaskStatsError::TASK_STRUCT_ERROR(vstd::slice::slice_to_vec(payload)));
                }
                Ok(TaskStatsResultAttribute::TGID(Pid(read_uint(payload, 4, 4, endian))))
            },
            TaskStatsResultAttributeType::AggrPid => {
                if payload.len() < AGGREGATE_STATS_OFFSET {
                    return Err(TaskStatsError::TASK_STRUCT_ERROR(vstd::slice::slice_to_vec(payload)));
                }
                let tid = Tid(read_uint(payload, 4, 4, endian));
                match read_result_stats(
                    slice_subrange(payload, AGGREGATE_STATS_OFFSET, payload.len()),
                    endian,
                ) {
                    Ok(stats) => Ok(
                        TaskStatsResultAttribute::AggrPid(
                            TaskStatsResultAttributeAggregatePid::new(tid, stats),
                        ),
                    ),
                    Err(e) => Err(e),
                }
            },
            TaskStatsResultAttributeType::AggrTGid => {
                if payload.len() < AGGREGATE_STATS_OFFSET {
                    return Err(TaskStatsError::TASK_STRUCT_ERROR(vstd::slice::slice_to_vec(payload)));
                }
                let pid = Pid(read_uint(payload, 4, 4, endian));
                match read_result_stats(
                    slice_subrange(payload, AGGREGATE_STATS_OFFSET, payload.len()),
                    endian,
                ) {
                    Ok(stats) => Ok(
                        TaskStatsResultAttribute::AggrTGid(
                            TaskStatsResultAttributeAggregateTgid::new(pid, stats),
                        ),
                    ),
                    Err(e) => Err(e),
                }
            },
        }
    }
}

/// The payload of an aggregate: the id nested as an attribute of type
/// `id_type`, then the record nested as an attribute of type STATS.
pub open spec fn aggregate_payload(id_type: u16, id: nat, stats: TaskStatsRaw, endian: Endian) -> Seq<u8> {
    uint_bytes(8, 2, endian) + uint_bytes(id_type as nat, 2, endian) + uint_bytes(
        id % 0x1_0000_0000,
        4,
        endian,
    ) + uint_bytes((stats.wire(endian).len() + 4) as nat, 2, endian) + uint_bytes(3, 2, endian)
        + stats.wire(endian)
}

/// The attribute that carries a result attribute: an id in its low 32 bits,
/// a record as its bytes, an aggregate as its two nested attributes.
pub open spec fn result_attribute_encoded(attr: TaskStatsResultAttribute, endian: Endian) -> AttributeView {
    match attr {
        TaskStatsResultAttribute::Unspecified => AttributeView { attr_type: 0, payload: Seq::empty() },
        TaskStatsResultAttribute::PID(tid) => AttributeView {
            attr_type: 1,
            payload: uint_bytes(tid@ % 0x1_0000_0000, 4, endian),
        },
        TaskStatsResultAttribute::TGID(pid) => AttributeView {
            attr_type: 2,
            payload: uint_bytes(pid@ % 0x1_0000_0000, 4, endian),
        },
        TaskStatsResultAttribute::Stats(stats) => AttributeView {
            attr_type: 3,
            payload: stats.wire(endian),
        },
        TaskStatsResultAttribute::AggrPid(found) => AttributeView {
            attr_type: 4,
            payload: aggregate_payload(1, found.tid@, found.stats, endian),
        },
        TaskStatsResultAttribute::AggrTGid(found) => AttributeView {
            attr_type: 5,
            payload: aggregate_payload(2, found.pid@, found.stats, endian),
        },
        TaskStatsResultAttribute::NULL => AttributeView { attr_type: 6, payload: Seq::empty() },
    }
}

fn append_aggregate(payload: &mut Vec<u8>, id_type: u16, id: u32, stats: &TaskStatsRaw, endian: Endian)
    requires
        old(payload)@.len() == 0,
    ensures
        final(payload)@ == aggregate_payload(id_type, id as nat, *stats, endian),
{
    let record = stats.to_byte_array(endian);
    proof {
        lemma_raw_wire_len(*stats, endian);
    }
    append_uint(payload, 8, 2, endian);
    append_uint(payload, id_type as u128, 2, endian);
    append_uint(payload, id as u128, 4, endian);
    append_uint(payload, (record.len() + 4) as u128, 2, endian);
    append_uint(payload, 3, 2, endian);
    let ghost head = payload@;
    let mut i: usize = 0;
    while i < record.len()
        invariant
            i <= record@.len(),
            payload@ == head + record@.subrange(0, i as int),
        decreases record.len() - i,
    {
        payload.push(record[i]);
        assert(payload@ =~= head + record@.subrange(0, i + 1));
        i = i + 1;
    }
    assert(record@.subrange(0, record@.len() as int) =~= record@);
    assert(payload@ =~= aggregate_payload(id_type, id as nat, *stats, endian));
}

/// A raw record on the wire has the length of its version.
pub proof fn lemma_raw_wire_len(raw: TaskStatsRaw, endian: Endian)
    ensures
        raw.wire(endian).len() == (match raw {
            TaskStatsRaw::V8(_) => TASKSTATS_V8_LENGTH,
            TaskStatsRaw::V9(_) => TASKSTATS_V9_LENGTH,
            TaskStatsRaw::V10(_) => TASKSTATS_V10_LENGTH,
            TaskStatsRaw::V11(_) => TASKSTATS_V11_LENGTH,
        }),
{
    let empty = Seq::<u8>::empty();
    match raw {
        TaskStatsRaw::V8(stats) => {
            lemma_v8_body_round_trip(stats, 8, empty, endian);
        },
        TaskStatsRaw::V9(stats) => {
            lemma_v9_body_round_trip(stats, 9, empty, endian);
        },
        TaskStatsRaw::V10(stats) => {
            lemma_v10_body_round_trip(stats, 10, empty, endian);
        },
        TaskStatsRaw::V11(stats) => {
            lemma_v11_body_round_trip(stats, 11, empty, endian);
        },
    }
}

/// The payload of an aggregate holds the id in bytes 4 to 8 and the record from byte 12 on.
proof fn lemma_aggregate_payload(id_type: u16, id: nat, stats: TaskStatsRaw, endian: Endian)
    requires
        id < 0x1_0000_0000,
    ensures
        aggregate_payload(id_type, id, stats, endian).len() >= AGGREGATE_STATS_OFFSET,
        uint_value(
            aggregate_payload(id_type, id, stats, endian).subrange(AGGREGATE_ID_OFFSET as int, 8),
            endian,
        ) == id,
        aggregate_payload(id_type, id, stats, endian).subrange(
            AGGREGATE_STATS_OFFSET as int,
            aggregate_payload(id_type, id, stats, endian).len() as int,
        ) == stats.wire(endian),
{
    let payload = aggregate_payload(id_type, id, stats, endian);
    let record = stats.wire(endian);
    lemma_pow256_values();
    crate::wire::lemma_le_bytes_len(8, 2);
    crate::wire::lemma_le_bytes_len(id_type as nat, 2);
    crate::wire::lemma_le_bytes_len(id, 4);
    crate::wire::lemma_le_bytes_len((record.len() + 4) as nat, 2);
    crate::wire::lemma_le_bytes_len(3, 2);
    lemma_uint_round_trip(id, 4, endian);
    assert(payload.subrange(AGGREGATE_ID_OFFSET as int, 8) =~= uint_bytes(id, 4, endian));
    assert(payload.subrange(AGGREGATE_STATS_OFFSET as int, payload.len() as int) =~= record);
}

/// A raw record that was written is read back as the record of a result attribute.
proof fn lemma_result_stats_round_trip(stats: TaskStatsRaw, endian: Endian)
    ensures
        result_stats(stats.wire(endian), endian) == Ok::<TaskStatsRaw, ResultRefusal>(stats),
{
    assert(stats.wire(endian) + Seq::<u8>::empty() =~= stats.wire(endian));
    lemma_taskstats_round_trip(stats, Seq::<u8>::empty(), endian);
}

/// The aggregate of a thread that was written is read back as it was,
/// provided that the thread id fits the 32 bits that the wire has for it.
#[verifier::rlimit(40)]
pub proof fn lemma_thread_aggregate_round_trip(
    found: TaskStatsResultAttributeAggregatePid,
    endian: Endian,
)
    requires
        found.tid@ < 0x1_0000_0000,
    ensures
        result_attribute_parsed(
            result_attribute_encoded(TaskStatsResultAttribute::AggrPid(found), endian),
            endian,
        ) == Ok::<TaskStatsResultAttribute, ResultRefusal>(TaskStatsResultAttribute::AggrPid(found)),
{
    lemma_aggregate_payload(1, found.tid@, found.stats, endian);
    lemma_result_stats_round_trip(found.stats, endian);
}

/// The aggregate of a thread group that was written is read back as it was,
/// provided that the group id fits the 32 bits that the wire has for it.
#[verifier::rlimit(40)]
pub proof fn lemma_process_aggregate_round_trip(
    found: TaskStatsResultAttributeAggregateTgid,
    endian: Endian,
)
    requires
        found.pid@ < 0x1_0000_0000,
    ensures
        result_attribute_parsed(
            result_attribute_encoded(TaskStatsResultAttribute::AggrTGid(found), endian),
            endian,
        ) == Ok::<TaskStatsResultAttribute, ResultRefusal>(TaskStatsResultAttribute::AggrTGid(found)),
{
    lemma_aggregate_payload(2, found.pid@, found.stats, endian);
    lemma_result_stats_round_trip(found.stats, endian);
}

impl TaskStatsResultAttribute {
    /// The attribute that carries this one.
    #[verifier::rlimit(40)]
    pub fn to_attribute(&self, endian: Endian) -> (r: TaskStatsAttribute)
        ensures
            r@ == result_attribute_encoded(*self, endian),
    {
        let attr_type = self.get_type().to_attribute_type();
        let mut payload: Vec<u8> = Vec::new();
        match self {
            TaskStatsResultAttribute::Unspecified => {},
            TaskStatsResultAttribute::NULL => {},
            TaskStatsResultAttribute::PID(tid) => {
                append_uint(&mut payload, tid.to_u32() as u128, 4, endian);
                assert(payload@ =~= uint_bytes(tid@ % 0x1_0000_0000, 4, endian));
            },
            TaskStatsResultAttribute::TGID(pid) => {
                append_uint(&mut payload, pid.to_u32() as u128, 4, endian);
                assert(payload@ =~= uint_bytes(pid@ % 0x1_0000_0000, 4, endian));
            },
            TaskStatsResultAttribute::Stats(stats) => {
                payload = stats.to_byte_array(endian);
            },
            TaskStatsResultAttribute::AggrPid(found) => {
                append_aggregate(&mut payload, 1, found.tid.to_u32(), &found.stats, endian);
            },
            TaskStatsResultAttribute::AggrTGid(found) => {
                append_aggregate(&mut payload, 2, found.pid.to_u32(), &found.stats, endian);
            },
        }
        TaskStatsAttribute::new(attr_type, payload)
    }
}

#[derive(Debug)]
pub enum TaskStatsError {
    GENERIC_ERROR(GenericError),
    UNSUPPORTED_TASKSTATS_VERSION(u16),
    GET_FAMILY_ID_ERROR,
    UNKNOWN_COMMAND(u8),
    NO_AGGR_PID_ATTRIBUTE(TaskStatsMessage),
    NO_AGGR_TGID_ATTRIBUTE(TaskStatsMessage),
    UNKNOWN_RESULT_ATTRIBUTE_TYPE(TaskStatsAttributeType),
    TASK_STRUCT_ERROR(Vec<u8>),
    WRONG_TID(Tid),
    WRONG_PID(Pid),
    WRONG_RESULT_TYPE(TaskStatsResultAttribute),
}

/// A message of the TASKSTATS family.
#[derive(Debug)]
pub struct TaskStatsMessage {
    pub command: TaskStatsCommand,
    pub family_id: u16,
    pub attributes: Vec<TaskStatsAttribute>,
}


/// The attributes of a list as plain values.
pub open spec fn taskstats_attribute_views(attrs: Seq<TaskStatsAttribute>) -> Seq<AttributeView> {
    attrs.map_values(|attr: TaskStatsAttribute| attr@)
}

/// The position of the first attribute of type `attr_type`, from `from` on.
pub open spec fn first_of_type(attrs: Seq<AttributeView>, attr_type: u16, from: int) -> Option<int>
    decreases attrs.len() - from,
{
    if from < 0 || from >= attrs.len() {
        None
    } else if attrs[from].attr_type == attr_type {
        Some(from)
    } else {
        first_of_type(attrs, attr_type, from + 1)
    }
}

/// The result attribute of the given type that a list of attributes holds:
/// the first of that type, if it can be read.
pub open spec fn result_attribute_of(
    attrs: Seq<AttributeView>,
    attr_type: TaskStatsResultAttributeType,
    endian: Endian,
) -> Option<TaskStatsResultAttribute> {
    match first_of_type(attrs, attr_type.number(), 0) {
        None => None,
        Some(i) => match result_attribute_parsed(attrs[i], endian) {
            Ok(found) => Some(found),
            Err(_) => None,
        },
    }
}

impl TaskStatsMessage {
    /// The attributes of the message as plain values.
    pub open spec fn attrs(&self) -> Seq<AttributeView> {
        taskstats_attribute_views(self.attributes@)
    }

    pub fn New(familyId: u16, command: TaskStatsCommand) -> (r: Self)
        ensures
            r.command == command,
            r.family_id == familyId,
            r.attributes@.len() == 0,
    {
        Self { command, family_id: familyId, attributes: Vec::new() }
    }

    pub fn AddCommandAttribute(&mut self, attribute: TaskStatsCommandAttribute, endian: Endian)
        ensures
            final(self).command == old(self).command,
            final(self).family_id == old(self).family_id,
            final(self).attrs() == old(self).attrs().push(
                command_attribute_encoded(attribute, endian),
            ),
    {
        let ghost before = self.attrs();
        let encoded = attribute.to_attribute(endian);
        self.attributes.push(encoded);
        assert(self.attrs() =~= before.push(command_attribute_encoded(attribute, endian)));
    }

    /// The position of the first attribute of the given type.
    pub fn position_of(&self, attributeType: TaskStatsResultAttributeType) -> (r: Option<usize>)
        ensures
            r matches Some(i) ==> i < self.attributes@.len() && first_of_type(
                self.attrs(),
                attributeType.number(),
                0,
            ) == Some(i as int),
            r is None ==> first_of_type(self.attrs(), attributeType.number(), 0) is None,
    {
        let wanted = attributeType.to_attribute_type();
        let mut i: usize = 0;
        while i < self.attributes.len()
            invariant
                i <= self.attributes@.len(),
                wanted.0 == attributeType.number(),
                first_of_type(self.attrs(), attributeType.number(), 0) == first_of_type(
                    self.attrs(),
                    attributeType.number(),
                    i as int,
                ),
            decreases self.attributes.len() - i,
        {
            assert(self.attrs()[i as int] == self.attributes@[i as int]@);
            if self.attributes[i].get_type() == wanted {
                return Some(i);
            }
            i = i + 1;
        }
        None
    }

    /// The first attribute of the given type, read as a result; nothing if
    /// there is none or if it cannot be read.
    pub fn GetResultAttribute(&self, attributeType: TaskStatsResultAttributeType, endian: Endian) -> (r:
        Option<TaskStatsResultAttribute>)
        ensures
            r == result_attribute_of(self.attrs(), attributeType, endian),
    {
        match self.position_of(attributeType) {
            None => None,
            Some(i) => {
                assert(self.attrs()[i as int] == self.attributes@[i as int]@);
                match TaskStatsResultAttribute::try_from(&self.attributes[i], endian) {
                    Ok(found) => Some(found),
                    Err(_) => None,
                }
            },
        }
    }

    /// The generic message that carries this one: of the type of the family,
    /// with the number of the command and the attributes as they are.
    pub fn to_generic(&self) -> (r: GenericNetlinkMessage)
        ensures
            r@ == (GenericMessageView {
                message_type: self.family_id,
                command: self.command.number(),
                attributes: self.attrs(),
            }),
    {
        let mut message = GenericNetlinkMessage::New(
            GenericNetlinkMessageType::New(self.family_id),
            self.command.to_command(),
        );
        let mut i: usize = 0;
        while i < self.attributes.len()
            invariant
                i <= self.attributes@.len(),
                message.messageType.0 == self.family_id,
                message.command.0 == self.command.number(),
                message@.attributes == self.attrs().subrange(0, i as int),
            decreases self.attributes.len() - i,
        {
            let ghost before = message@.attributes;
            let copy = GenericNetlinkMessageAttribute::New(
                self.attributes[i].attr_type.to_attribute_type(),
                vstd::slice::slice_to_vec(self.attributes[i].payload.as_slice()),
            );
            let ghost added = copy@;
            message.AddAttribute(copy);
            proof {
                assert(added == self.attrs()[i as int]);
                assert(message@.attributes =~= before.push(added));
                assert(message@.attributes =~= self.attrs().subrange(0, i + 1));
            }
            i = i + 1;
        }
        assert(self.attrs().subrange(0, self.attrs().len() as int) =~= self.attrs());
        message
    }

    /// Reads a generic message as one of the family; a command that the
    /// family has not is refused with its number.
    pub fn try_from(genericNetlinkMessage: &GenericNetlinkMessage) -> (r: Result<Self, TaskStatsError>)
        ensures
            match r {
                Ok(message) => genericNetlinkMessage.command.0 <= 2 && message.command.number()
                    == genericNetlinkMessage.command.0 && message.family_id
                    == genericNetlinkMessage.messageType.0 && message.attrs()
                    == genericNetlinkMessage@.attributes,
                Err(TaskStatsError::UNKNOWN_COMMAND(number)) => genericNetlinkMessage.command.0 > 2
                    && number == genericNetlinkMessage.command.0,
                Err(_) => false,
            },
    {
        let family_id = genericNetlinkMessage.MessageType().to_u16();
        let command = match TaskStatsCommand::try_from(genericNetlinkMessage.Command()) {
            Ok(command) => command,
            Err(e) => {
                return Err(e);
            },
        };
        let ghost want = genericNetlinkMessage@.attributes;
        let mut result = Self { command, family_id, attributes: Vec::new() };
        let mut i: usize = 0;
        assert(result.attrs() =~= want.subrange(0, 0));
        while i < genericNetlinkMessage.attributes.len()
            invariant
                i <= genericNetlinkMessage.attributes@.len(),
                want == genericNetlinkMessage@.attributes,
                result.command == command,
                result.family_id == family_id,
                result.attrs() == want.subrange(0, i as int),
            decreases genericNetlinkMessage.attributes.len() - i,
        {
            let ghost before = result.attrs();
            let source = &genericNetlinkMessage.attributes[i];
            let copy = TaskStatsAttribute::new(
                TaskStatsAttributeType::from_attribute_type(source.Type()),
                vstd::slice::slice_to_vec(source.payload.as_slice()),
            );
            let ghost added = copy@;
            result.attributes.push(copy);
            proof {
                assert(added == want[i as int]);
                assert(result.attrs() =~= before.push(added));
                assert(result.attrs() =~= want.subrange(0, i + 1));
            }
            i = i + 1;
        }
        assert(want.subrange(0, want.len() as int) =~= want);
        Ok(result)
    }
}

/// The name under which the kernel registers the family.
pub open spec fn taskstats_family_name() -> Seq<char> {
    "TASKSTATS"@
}

/// How an answer can fail to hold the accounting asked for.
pub enum AnswerRefusal {
    /// The answer holds no aggregate of the kind asked for.
    Missing,
    /// The first aggregate of the kind asked for cannot be read.
    Unreadable(ResultRefusal),
    /// The aggregate is of this other id.
    WrongId(u128),
}

/// The record of the thread `real_tid` in an answer: that of the first
/// aggregate of a thread, which must be readable and of this thread.
pub open spec fn thread_answer(attrs: Seq<AttributeView>, real_tid: Tid, endian: Endian) -> Result<
    TaskStatsRaw,
    AnswerRefusal,
> {
    match first_of_type(attrs, TaskStatsResultAttributeType::AggrPid.number(), 0) {
        None => Err(AnswerRefusal::Missing),
        Some(i) => match result_attribute_parsed(attrs[i], endian) {
            Err(refusal) => Err(AnswerRefusal::Unreadable(refusal)),
            Ok(TaskStatsResultAttribute::AggrPid(found)) => if found.tid != real_tid {
                Err(AnswerRefusal::WrongId(found.tid.0))
            } else {
                Ok(found.stats)
            },
            Ok(_) => Err(AnswerRefusal::Missing),
        },
    }
}

/// The record of the thread group `real_pid` in an answer: that of the first
/// aggregate of a thread group, which must be readable and of this group.
pub open spec fn process_answer(attrs: Seq<AttributeView>, real_pid: Pid, endian: Endian) -> Result<
    TaskStatsRaw,
    AnswerRefusal,
> {
    match first_of_type(attrs, TaskStatsResultAttributeType::AggrTGid.number(), 0) {
        None => Err(AnswerRefusal::Missing),
        Some(i) => match result_attribute_parsed(attrs[i], endian) {
            Err(refusal) => Err(AnswerRefusal::Unreadable(refusal)),
            Ok(TaskStatsResultAttribute::AggrTGid(found)) => if found.pid != real_pid {
                Err(AnswerRefusal::WrongId(found.pid.0))
            } else {
                Ok(found.stats)
            },
            Ok(_) => Err(AnswerRefusal::Missing),
        },
    }
}

/// The refusal that an error of taking a thread's record from an answer stands for.
pub open spec fn thread_refusal_of(e: TaskStatsError, response: TaskStatsMessage) -> Option<
    AnswerRefusal,
> {
    match e {
        TaskStatsError::NO_AGGR_PID_ATTRIBUTE(back) => if back == response {
            Some(AnswerRefusal::Missing)
        } else {
            None
        },
        TaskStatsError::WRONG_TID(tid) => Some(AnswerRefusal::WrongId(tid.0)),
        _ => match result_refusal_of(e) {
            Some(refusal) => Some(AnswerRefusal::Unreadable(refusal)),
            None => None,
        },
    }
}

/// The refusal that an error of taking a thread group's record from an answer stands for.
pub open spec fn process_refusal_of(e: TaskStatsError, response: TaskStatsMessage) -> Option<
    AnswerRefusal,
> {
    match e {
        TaskStatsError::NO_AGGR_TGID_ATTRIBUTE(back) => if back == response {
            Some(AnswerRefusal::Missing)
        } else {
            None
        },
        TaskStatsError::WRONG_PID(pid) => Some(AnswerRefusal::WrongId(pid.0)),
        _ => match result_refusal_of(e) {
            Some(refusal) => Some(AnswerRefusal::Unreadable(refusal)),
            None => None,
        },
    }
}

/// The request for the id of the TASKSTATS family: the control command
/// GET_FAMILY_ID with the name of the family.
pub fn family_id_query() -> (r: GenericNetlinkControlMessage)
    ensures
        r.wf(),
        r.is_writable(),
        r.command == GenericNetlinkControlMessageCommand::GET_FAMILY_ID,
        r.attributes@.len() == 1,
        r.attributes@[0]@ == ControlAttributeView::FamilyName(taskstats_family_name()),
{
    let mut message = GenericNetlinkControlMessage::New(
        GenericNetlinkControlMessageCommand::GET_FAMILY_ID,
    );
    message.AddControlAttribute(
        GenericNetlinkControlMessageAttribute::FAMILY_NAME("TASKSTATS".to_owned()),
    );
    message
}

/// The id of the family in the kernel's answer: that of its first FAMILY_ID
/// attribute. An answer without one is refused.
pub fn family_id_from(response: &GenericNetlinkControlMessage) -> (r: Result<u16, TaskStatsError>)
    requires
        response.wf(),
    ensures
        match r {
            Ok(id) => exists|i: int|
                0 <= i < response.attributes@.len() && (#[trigger] response.attributes@[i])@
                    == ControlAttributeView::FamilyId(id) && forall|j: int|
                    0 <= j < i ==> !((#[trigger] response.attributes@[j])@ is FamilyId),
            Err(TaskStatsError::GET_FAMILY_ID_ERROR) => forall|j: int|
                0 <= j < response.attributes@.len() ==> !((#[trigger] response.attributes@[j])@ is FamilyId),
            Err(_) => false,
        },
{
    match response.GetControlAttribute(GenericNetlinkControlMessageAttributeType::FAMILY_ID) {
        Some(GenericNetlinkControlMessageAttribute::FAMILY_ID(id)) => {
            proof {
                assert forall|j: int| 0 <= j < response.attributes@.len() && control_attribute_type(
                    (#[trigger] response.attributes@[j])@,
                ) != GenericNetlinkControlMessageAttributeType::FAMILY_ID implies !(
                response.attributes@[j]@ is FamilyId) by {}
            }
            Ok(id)
        },
        _ => {
            proof {
                assert forall|j: int| 0 <= j < response.attributes@.len() implies !((#[trigger] response.attributes@[j])@ is FamilyId) by {
                    assert(control_attribute_type(response.attributes@[j]@)
                        != GenericNetlinkControlMessageAttributeType::FAMILY_ID);
                }
            }
            Err(TaskStatsError::GET_FAMILY_ID_ERROR)
        },
    }
}

/// The request for the accounting of the thread `real_tid`: the command GET
/// with the thread id as its one attribute.
pub fn thread_query(family_id: u16, real_tid: Tid, endian: Endian) -> (r: TaskStatsMessage)
    ensures
        r.command == TaskStatsCommand::GET,
        r.family_id == family_id,
        r.attrs() == seq![command_attribute_encoded(TaskStatsCommandAttribute::PID(real_tid), endian)],
{
    let mut message = TaskStatsMessage::New(family_id, TaskStatsCommand::GET);
    assert(message.attrs() =~= Seq::<AttributeView>::empty());
    message.AddCommandAttribute(TaskStatsCommandAttribute::PID(real_tid), endian);
    assert(message.attrs() =~= seq![
        command_attribute_encoded(TaskStatsCommandAttribute::PID(real_tid), endian),
    ]);
    message
}

/// The request for the accounting of the thread group `real_pid`: the command
/// GET with the thread group id as its one attribute.
pub fn process_query(family_id: u16, real_pid: Pid, endian: Endian) -> (r: TaskStatsMessage)
    ensures
        r.command == TaskStatsCommand::GET,
        r.family_id == family_id,
        r.attrs() == seq![command_attribute_encoded(TaskStatsCommandAttribute::TGID(real_pid), endian)],
{
    let mut message = TaskStatsMessage::New(family_id, TaskStatsCommand::GET);
    assert(message.attrs() =~= Seq::<AttributeView>::empty());
    message.AddCommandAttribute(TaskStatsCommandAttribute::TGID(real_pid), endian);
    assert(message.attrs() =~= seq![
        command_attribute_encoded(TaskStatsCommandAttribute::TGID(real_pid), endian),
    ]);
    message
}

/// Takes the record of the thread `real_tid` from the kernel's answer. An
/// answer without an aggregate of a thread is handed back in the error; an
/// aggregate that cannot be read gives the error of reading it; an aggregate
/// of another thread is refused with that thread's id.
pub fn thread_stats_from(response: TaskStatsMessage, real_tid: Tid, endian: Endian) -> (r: Result<
    TaskStatsRaw,
    TaskStatsError,
>)
    ensures
        match r {
            Ok(raw) => thread_answer(response.attrs(), real_tid, endian) == Ok::<
                TaskStatsRaw,
                AnswerRefusal,
            >(raw),
            Err(e) => match thread_refusal_of(e, response) {
                Some(refusal) => thread_answer(response.attrs(), real_tid, endian) == Err::<
                    TaskStatsRaw,
                    AnswerRefusal,
                >(refusal),
                None => false,
            },
        },
{
    let at = match response.position_of(TaskStatsResultAttributeType::AggrPid) {
        Some(at) => at,
        None => {
            return Err(TaskStatsError::NO_AGGR_PID_ATTRIBUTE(response));
        },
    };
    assert(response.attrs()[at as int] == response.attributes@[at as int]@);
    match TaskStatsResultAttribute::try_from(&response.attributes[at], endian) {
        Err(e) => Err(e),
        Ok(TaskStatsResultAttribute::AggrPid(found)) => {
            if found.tid != real_tid {
                Err(TaskStatsError::WRONG_TID(found.tid))
            } else {
                Ok(found.stats)
            }
        },
        Ok(_) => Err(TaskStatsError::NO_AGGR_PID_ATTRIBUTE(response)),
    }
}

/// Takes the record of the thread group `real_pid` from the kernel's answer.
/// An answer without an aggregate of a thread group is handed back in the
/// error; an aggregate that cannot be read gives the error of reading it; an
/// aggregate of another group is refused with that group's id.
pub fn process_stats_from(response: TaskStatsMessage, real_pid: Pid, endian: Endian) -> (r: Result<
    TaskStatsRaw,
    TaskStatsError,
>)
    ensures
        match r {
            Ok(raw) => process_answer(response.attrs(), real_pid, endian) == Ok::<
                TaskStatsRaw,
                AnswerRefusal,
            >(raw),
            Err(e) => match process_refusal_of(e, response) {
                Some(refusal) => process_answer(response.attrs(), real_pid, endian) == Err::<
                    TaskStatsRaw,
                    AnswerRefusal,
                >(refusal),
                None => false,
            },
        },
{
    let at = match response.position_of(TaskStatsResultAttributeType::AggrTGid) {
        Some(at) => at,
        None => {
            return Err(TaskStatsError::NO_AGGR_TGID_ATTRIBUTE(response));
        },
    };
    assert(response.attrs()[at as int] == response.attributes@[at as int]@);
    match TaskStatsResultAttribute::try_from(&response.attributes[at], endian) {
        Err(e) => Err(e),
        Ok(TaskStatsResultAttribute::AggrTGid(found)) => {
            if found.pid != real_pid {
                Err(TaskStatsError::WRONG_PID(found.pid))
            } else {
                Ok(found.stats)
            }
        },
        Ok(_) => Err(TaskStatsError::NO_AGGR_TGID_ATTRIBUTE(response)),
    }
}

} // verus!
