//! The configuration of the agent and what it says of the output.
pub mod filter;

use crate::config::filter::Filter;
use crate::process::{contains_pid, Pid};
use vstd::prelude::*;
use vstd::string::*;

verus! {

/// What to monitor: the processes of a container, or of the host under the name `/`.
#[derive(Debug)]
pub struct MonitorTarget {
    pub container_name: String,
    /// The processes to monitor, by their ids inside the container; for the
    /// host, by their ids.
    pub pid_list: Vec<Pid>,
}

impl MonitorTarget {
    /// Whether the target is the host itself, whose name is `/`.
    pub fn is_host(&self) -> (r: bool)
        ensures
            r == (self.container_name@ == "/"@),
    {
        self.container_name == "/".to_owned()
    }

    /// Whether the process with the id `pid` inside the namespace is to be monitored.
    pub fn wants(&self, pid: Pid) -> (r: bool)
        ensures
            r == self.pid_list@.contains(pid),
    {
        contains_pid(&self.pid_list, pid)
    }

    /// The processes to start the walk from. For the host they are the
    /// configured ids themselves. For a container they are chosen from the
    /// listing of its processes, each given as its id on the host and its id
    /// inside the container: those whose id inside the container is
    /// configured, by their ids on the host and in the order of the listing.
    /// A legacy kernel shows no ids inside containers, and all that is listed
    /// is kept.
    pub open spec fn roots(self, listed: Seq<(Pid, Pid)>, old_kernel: bool) -> Seq<Pid> {
        if self.container_name@ == "/"@ {
            self.pid_list@
        } else {
            listed.filter(|entry: (Pid, Pid)| old_kernel || self.pid_list@.contains(entry.1)).map_values(
                |entry: (Pid, Pid)| entry.0,
            )
        }
    }

    /// Chooses the processes to start the walk from, as [`Self::roots`] says.
    pub fn root_set(&self, listed: &Vec<(Pid, Pid)>, old_kernel: bool) -> (r: Vec<Pid>)
        ensures
            r@ == self.roots(listed@, old_kernel),
    {
        if self.is_host() {
            return self.duplicate().pid_list;
        }
        let mut kept: Vec<Pid> = Vec::new();
        let mut i: usize = 0;
        let ghost pred = |entry: (Pid, Pid)| old_kernel || self.pid_list@.contains(entry.1);
        let ghost first = |entry: (Pid, Pid)| entry.0;
        proof {
            reveal(Seq::filter);
            assert(listed@.subrange(0, 0).filter(pred).map_values(first) =~= Seq::<Pid>::empty());
        }
        while i < listed.len()
            invariant
                i <= listed@.len(),
                pred == (|entry: (Pid, Pid)| old_kernel || self.pid_list@.contains(entry.1)),
                first == (|entry: (Pid, Pid)| entry.0),
                kept@ == listed@.subrange(0, i as int).filter(pred).map_values(first),
            decreases listed.len() - i,
        {
            let entry = listed[i];
            proof {
                reveal(Seq::filter);
                let upto = listed@.subrange(0, i + 1);
                let before = listed@.subrange(0, i as int);
                assert(upto.drop_last() =~= before);
                assert(upto.last() == entry);
                if pred(entry) {
                    assert(before.filter(pred).push(entry).map_values(first) =~= before.filter(
                        pred,
                    ).map_values(first).push(entry.0));
                }
            }
            if old_kernel || self.wants(entry.1) {
                kept.push(entry.0);
            }
            i = i + 1;
        }
        assert(listed@.subrange(0, listed@.len() as int) =~= listed@);
        kept
    }

    /// A copy of the target.
    pub fn duplicate(&self) -> (r: Self)
        ensures
            r.container_name == self.container_name,
            r.pid_list@ == self.pid_list@,
    {
        let mut pid_list: Vec<Pid> = Vec::new();
        let mut i: usize = 0;
        while i < self.pid_list.len()
            invariant
                i <= self.pid_list@.len(),
                pid_list@ == self.pid_list@.subrange(0, i as int),
            decreases self.pid_list.len() - i,
        {
            pid_list.push(self.pid_list[i]);
            assert(pid_list@ =~= self.pid_list@.subrange(0, i + 1));
            i = i + 1;
        }
        assert(self.pid_list@.subrange(0, self.pid_list@.len() as int) =~= self.pid_list@);
        Self { container_name: self.container_name.clone(), pid_list }
    }
}

/// The configuration of the agent. It can be replaced while the agent runs.
#[derive(Debug)]
pub struct DaemonConfig {
    /// Whether the status files are those of a legacy kernel.
    pub old_kernel: bool,
    /// How many bytes of each packet are captured.
    pub capture_size_limit: usize,
    /// How long the control task waits for a request, in nanoseconds.
    pub control_command_receive_timeout: u64,
    /// How long a capture task waits for a packet, in nanoseconds.
    pub capture_thread_receive_timeout: u64,
    /// Whether snapshots are written to files instead of being published.
    pub dev_flag: bool,
    /// The time between two snapshots, in seconds.
    pub publish_msg_interval: u64,
    pub monitor_targets: Vec<MonitorTarget>,
    /// The largest number of characters in one published chunk.
    pub msg_chunk_size: Option<usize>,
    pub filter: Filter,
}

impl DaemonConfig {
    pub fn is_old_kernel(&self) -> (r: bool)
        ensures
            r == self.old_kernel,
    {
        self.old_kernel
    }

    pub fn get_capture_size_limit(&self) -> (r: usize)
        ensures
            r == self.capture_size_limit,
    {
        self.capture_size_limit
    }

    pub fn get_control_command_receive_timeout(&self) -> (r: u64)
        ensures
            r == self.control_command_receive_timeout,
    {
        self.control_command_receive_timeout
    }

    pub fn get_capture_thread_receive_timeout(&self) -> (r: u64)
        ensures
            r == self.capture_thread_receive_timeout,
    {
        self.capture_thread_receive_timeout
    }

    pub fn get_dev_flag(&self) -> (r: bool)
        ensures
            r == self.dev_flag,
    {
        self.dev_flag
    }

    /// A copy of the targets.
    pub fn get_monitor_targets(&self) -> (r: Vec<MonitorTarget>)
        ensures
            r@.len() == self.monitor_targets@.len(),
            forall|i: int|
                0 <= i < r@.len() ==> (#[trigger] r@[i]).container_name
                    == self.monitor_targets@[i].container_name && r@[i].pid_list@
                    == self.monitor_targets@[i].pid_list@,
    {
        let mut targets: Vec<MonitorTarget> = Vec::new();
        let mut i: usize = 0;
        while i < self.monitor_targets.len()
            invariant
                i <= self.monitor_targets@.len(),
                targets@.len() == i,
                forall|j: int|
                    0 <= j < i ==> (#[trigger] targets@[j]).container_name
                        == self.monitor_targets@[j].container_name && targets@[j].pid_list@
                        == self.monitor_targets@[j].pid_list@,
            decreases self.monitor_targets.len() - i,
        {
            targets.push(self.monitor_targets[i].duplicate());
            i = i + 1;
        }
        targets
    }

    pub fn get_publish_msg_interval(&self) -> (r: u64)
        ensures
            r == self.publish_msg_interval,
    {
        self.publish_msg_interval
    }

    pub fn get_filter(&self) -> (r: &Filter)
        ensures
            *r == self.filter,
    {
        &self.filter
    }

    pub fn get_message_chunk_size(&self) -> (r: Option<usize>)
        ensures
            r == self.msg_chunk_size,
    {
        self.msg_chunk_size
    }
}

#[derive(Debug)]
pub enum ConfigError {
    IncorrectConfig,
    /// A failure to load the configuration file, by its message.
    LoadConfigErr(String),
    UninitializedConfig,
}

/// Whether `unix_timestamp` is left out of the output.
pub fn has_unix_timestamp(filter: &Filter) -> (skip: bool)
    ensures
        skip == !filter.unix_timestamp,
{
    !filter.unix_timestamp
}

/// Whether `network_rawstat.interface_rawstat.iname` is left out of the output.
pub fn has_irawstat_iname(filter: &Filter) -> (skip: bool)
    ensures
        skip == !filter.network_rawstat.interface_rawstat.iname,
{
    !filter.network_rawstat.interface_rawstat.iname
}

/// Whether `network_rawstat.interface_rawstat.description` is left out of the output.
pub fn has_irawstat_description(filter: &Filter) -> (skip: bool)
    ensures
        skip == !filter.network_rawstat.interface_rawstat.description,
{
    !filter.network_rawstat.interface_rawstat.description
}

/// Whether `network_rawstat.interface_rawstat.uni_connection_stats` is left out of the output.
pub fn has_irawstat_uni_connection_stats(filter: &Filter) -> (skip: bool)
    ensures
        skip == !filter.network_rawstat.interface_rawstat.uni_connection_stats,
{
    !filter.network_rawstat.interface_rawstat.uni_connection_stats
}

/// Whether `process.pid` is left out of the output.
pub fn has_process_pid(filter: &Filter) -> (skip: bool)
    ensures
        skip == !filter.process.pid,
{
    !filter.process.pid
}

/// Whether `process.parent_pid` is left out of the output.
pub fn has_process_parent_pid(filter: &Filter) -> (skip: bool)
    ensures
        skip == !filter.process.parent_pid,
{
    !filter.process.parent_pid
}

/// Whether `process.uid` is left out of the output.
pub fn has_process_uid(filter: &Filter) -> (skip: bool)
    ensures
        skip == !filter.process.uid,
{
    !filter.process.uid
}

/// Whether `process.effective_uid` is left out of the output.
pub fn has_process_effective_uid(filter: &Filter) -> (skip: bool)
    ensures
        skip == !filter.process.effective_uid,
{
    !filter.process.effective_uid
}

/// Whether `process.saved_uid` is left out of the output.
pub fn has_process_saved_uid(filter: &Filter) -> (skip: bool)
    ensures
        skip == !filter.process.saved_uid,
{
    !filter.process.saved_uid
}

/// Whether `process.fs_uid` is left out of the output.
pub fn has_process_fs_uid(filter: &Filter) -> (skip: bool)
    ensures
        skip == !filter.process.fs_uid,
{
    !filter.process.fs_uid
}

/// Whether `process.gid` is left out of the output.
pub fn has_process_gid(filter: &Filter) -> (skip: bool)
    ensures
        skip == !filter.process.gid,
{
    !filter.process.gid
}

/// Whether `process.effective_gid` is left out of the output.
pub fn has_process_effective_gid(filter: &Filter) -> (skip: bool)
    ensures
        skip == !filter.process.effective_gid,
{
    !filter.process.effective_gid
}

/// Whether `process.saved_gid` is left out of the output.
pub fn has_process_saved_gid(filter: &Filter) -> (skip: bool)
    ensures
        skip == !filter.process.saved_gid,
{
    !filter.process.saved_gid
}

/// Whether `process.fs_gid` is left out of the output.
pub fn has_process_fs_gid(filter: &Filter) -> (skip: bool)
    ensures
        skip == !filter.process.fs_gid,
{
    !filter.process.fs_gid
}

/// Whether `process.real_pid` is left out of the output.
pub fn has_process_real_pid(filter: &Filter) -> (skip: bool)
    ensures
        skip == !filter.process.real_pid,
{
    !filter.process.real_pid
}

/// Whether `process.real_parent_pid` is left out of the output.
pub fn has_process_real_parent_pid(filter: &Filter) -> (skip: bool)
    ensures
        skip == !filter.process.real_parent_pid,
{
    !filter.process.real_parent_pid
}

/// Whether `process.real_uid` is left out of the output.
pub fn has_process_real_uid(filter: &Filter) -> (skip: bool)
    ensures
        skip == !filter.process.real_uid,
{
    !filter.process.real_uid
}

/// Whether `process.real_effective_uid` is left out of the output.
pub fn has_process_real_effective_uid(filter: &Filter) -> (skip: bool)
    ensures
        skip == !filter.process.real_effective_uid,
{
    !filter.process.real_effective_uid
}

/// Whether `process.real_saved_uid` is left out of the output.
pub fn has_process_real_saved_uid(filter: &Filter) -> (skip: bool)
    ensures
        skip == !filter.process.real_saved_uid,
{
    !filter.process.real_saved_uid
}

/// Whether `process.real_fs_uid` is left out of the output.
pub fn has_process_real_fs_uid(filter: &Filter) -> (skip: bool)
    ensures
        skip == !filter.process.real_fs_uid,
{
    !filter.process.real_fs_uid
}

/// Whether `process.real_gid` is left out of the output.
pub fn has_process_real_gid(filter: &Filter) -> (skip: bool)
    ensures
        skip == !filter.process.real_gid,
{
    !filter.process.real_gid
}

/// Whether `process.real_effective_gid` is left out of the output.
pub fn has_process_real_effective_gid(filter: &Filter) -> (skip: bool)
    ensures
        skip == !filter.process.real_effective_gid,
{
    !filter.process.real_effective_gid
}

/// Whether `process.real_saved_gid` is left out of the output.
pub fn has_process_real_saved_gid(filter: &Filter) -> (skip: bool)
    ensures
        skip == !filter.process.real_saved_gid,
{
    !filter.process.real_saved_gid
}

/// Whether `process.real_fs_gid` is left out of the output.
pub fn has_process_real_fs_gid(filter: &Filter) -> (skip: bool)
    ensures
        skip == !filter.process.real_fs_gid,
{
    !filter.process.real_fs_gid
}

/// Whether `process.exec_path` is left out of the output.
pub fn has_process_exec_path(filter: &Filter) -> (skip: bool)
    ensures
        skip == !filter.process.exec_path,
{
    !filter.process.exec_path
}

/// Whether `process.command` is left out of the output.
pub fn has_process_command(filter: &Filter) -> (skip: bool)
    ensures
        skip == !filter.process.command,
{
    !filter.process.command
}

/// Whether `process.child_real_pid_list` is left out of the output.
pub fn has_process_child_real_pid_list(filter: &Filter) -> (skip: bool)
    ensures
        skip == !filter.process.child_real_pid_list,
{
    !filter.process.child_real_pid_list
}

/// Whether `process.stat.timestamp` is left out of the output.
pub fn has_process_stat_timestamp(filter: &Filter) -> (skip: bool)
    ensures
        skip == !filter.process.stat.timestamp,
{
    !filter.process.stat.timestamp
}

/// Whether `process.stat.total_system_cpu_time` is left out of the output.
pub fn has_process_stat_total_system_cpu_time(filter: &Filter) -> (skip: bool)
    ensures
        skip == !filter.process.stat.total_system_cpu_time,
{
    !filter.process.stat.total_system_cpu_time
}

/// Whether `process.stat.total_user_cpu_time` is left out of the output.
pub fn has_process_stat_total_user_cpu_time(filter: &Filter) -> (skip: bool)
    ensures
        skip == !filter.process.stat.total_user_cpu_time,
{
    !filter.process.stat.total_user_cpu_time
}

/// Whether `process.stat.total_cpu_time` is left out of the output.
pub fn has_process_stat_total_cpu_time(filter: &Filter) -> (skip: bool)
    ensures
        skip == !filter.process.stat.total_cpu_time,
{
    !filter.process.stat.total_cpu_time
}

/// Whether `process.stat.total_rss` is left out of the output.
pub fn has_process_stat_total_rss(filter: &Filter) -> (skip: bool)
    ensures
        skip == !filter.process.stat.total_rss,
{
    !filter.process.stat.total_rss
}

/// Whether `process.stat.total_vss` is left out of the output.
pub fn has_process_stat_total_vss(filter: &Filter) -> (skip: bool)
    ensures
        skip == !filter.process.stat.total_vss,
{
    !filter.process.stat.total_vss
}

/// Whether `process.stat.total_swap` is left out of the output.
pub fn has_process_stat_total_swap(filter: &Filter) -> (skip: bool)
    ensures
        skip == !filter.process.stat.total_swap,
{
    !filter.process.stat.total_swap
}

/// Whether `process.stat.total_io_read` is left out of the output.
pub fn has_process_stat_total_io_read(filter: &Filter) -> (skip: bool)
    ensures
        skip == !filter.process.stat.total_io_read,
{
    !filter.process.stat.total_io_read
}

/// Whether `process.stat.total_io_write` is left out of the output.
pub fn has_process_stat_total_io_write(filter: &Filter) -> (skip: bool)
    ensures
        skip == !filter.process.stat.total_io_write,
{
    !filter.process.stat.total_io_write
}

/// Whether `process.stat.total_block_io_read` is left out of the output.
pub fn has_process_stat_total_block_io_read(filter: &Filter) -> (skip: bool)
    ensures
        skip == !filter.process.stat.total_block_io_read,
{
    !filter.process.stat.total_block_io_read
}

/// Whether `process.stat.total_block_io_write` is left out of the output.
pub fn has_process_stat_total_block_io_write(filter: &Filter) -> (skip: bool)
    ensures
        skip == !filter.process.stat.total_block_io_write,
{
    !filter.process.stat.total_block_io_write
}

/// Whether `process.stat.netstat.pack_sent` is left out of the output.
pub fn has_process_netstat_pack_sent(filter: &Filter) -> (skip: bool)
    ensures
        skip == !filter.process.stat.netstat.pack_sent,
{
    !filter.process.stat.netstat.pack_sent
}

/// Whether `process.stat.netstat.pack_recv` is left out of the output.
pub fn has_process_netstat_pack_recv(filter: &Filter) -> (skip: bool)
    ensures
        skip == !filter.process.stat.netstat.pack_recv,
{
    !filter.process.stat.netstat.pack_recv
}

/// Whether `process.stat.netstat.total_data_sent` is left out of the output.
pub fn has_process_netstat_total_data_sent(filter: &Filter) -> (skip: bool)
    ensures
        skip == !filter.process.stat.netstat.total_data_sent,
{
    !filter.process.stat.netstat.total_data_sent
}

/// Whether `process.stat.netstat.total_data_recv` is left out of the output.
pub fn has_process_netstat_total_data_recv(filter: &Filter) -> (skip: bool)
    ensures
        skip == !filter.process.stat.netstat.total_data_recv,
{
    !filter.process.stat.netstat.total_data_recv
}

/// Whether `process.stat.netstat.real_data_sent` is left out of the output.
pub fn has_process_netstat_real_data_sent(filter: &Filter) -> (skip: bool)
    ensures
        skip == !filter.process.stat.netstat.real_data_sent,
{
    !filter.process.stat.netstat.real_data_sent
}

/// Whether `process.stat.netstat.real_data_recv` is left out of the output.
pub fn has_process_netstat_real_data_recv(filter: &Filter) -> (skip: bool)
    ensures
        skip == !filter.process.stat.netstat.real_data_recv,
{
    !filter.process.stat.netstat.real_data_recv
}

/// Whether `process.stat.netstat.interface_stat.iname` is left out of the output.
pub fn has_process_istat_iname(filter: &Filter) -> (skip: bool)
    ensures
        skip == !filter.process.stat.netstat.interface_stat.iname,
{
    !filter.process.stat.netstat.interface_stat.iname
}

/// Whether `process.stat.netstat.interface_stat.packet_sent` is left out of the output.
pub fn has_process_istat_packet_sent(filter: &Filter) -> (skip: bool)
    ensures
        skip == !filter.process.stat.netstat.interface_stat.packet_sent,
{
    !filter.process.stat.netstat.interface_stat.packet_sent
}

/// Whether `process.stat.netstat.interface_stat.packet_recv` is left out of the output.
pub fn has_process_istat_packet_recv(filter: &Filter) -> (skip: bool)
    ensures
        skip == !filter.process.stat.netstat.interface_stat.packet_recv,
{
    !filter.process.stat.netstat.interface_stat.packet_recv
}

/// Whether `process.stat.netstat.interface_stat.total_data_sent` is left out of the output.
pub fn has_process_istat_total_data_sent(filter: &Filter) -> (skip: bool)
    ensures
        skip == !filter.process.stat.netstat.interface_stat.total_data_sent,
{
    !filter.process.stat.netstat.interface_stat.total_data_sent
}

/// Whether `process.stat.netstat.interface_stat.total_data_recv` is left out of the output.
pub fn has_process_istat_total_data_recv(filter: &Filter) -> (skip: bool)
    ensures
        skip == !filter.process.stat.netstat.interface_stat.total_data_recv,
{
    !filter.process.stat.netstat.interface_stat.total_data_recv
}

/// Whether `process.stat.netstat.interface_stat.real_data_sent` is left out of the output.
pub fn has_process_istat_real_data_sent(filter: &Filter) -> (skip: bool)
    ensures
        skip == !filter.process.stat.netstat.interface_stat.real_data_sent,
{
    !filter.process.stat.netstat.interface_stat.real_data_sent
}

/// Whether `process.stat.netstat.interface_stat.real_data_recv` is left out of the output.
pub fn has_process_istat_real_data_recv(filter: &Filter) -> (skip: bool)
    ensures
        skip == !filter.process.stat.netstat.interface_stat.real_data_recv,
{
    !filter.process.stat.netstat.interface_stat.real_data_recv
}

/// Whether `process.stat.netstat.interface_stat.connection_stats` is left out of the output.
pub fn has_process_istat_connection_stats(filter: &Filter) -> (skip: bool)
    ensures
        skip == !filter.process.stat.netstat.interface_stat.connection_stats,
{
    !filter.process.stat.netstat.interface_stat.connection_stats
}

/// Whether `process.thread.tid` is left out of the output.
pub fn has_thread_tid(filter: &Filter) -> (skip: bool)
    ensures
        skip == !filter.process.thread.tid,
{
    !filter.process.thread.tid
}

/// Whether `process.thread.pid` is left out of the output.
pub fn has_thread_pid(filter: &Filter) -> (skip: bool)
    ensures
        skip == !filter.process.thread.pid,
{
    !filter.process.thread.pid
}

/// Whether `process.thread.real_tid` is left out of the output.
pub fn has_thread_real_tid(filter: &Filter) -> (skip: bool)
    ensures
        skip == !filter.process.thread.real_tid,
{
    !filter.process.thread.real_tid
}

/// Whether `process.thread.real_pid` is left out of the output.
pub fn has_thread_real_pid(filter: &Filter) -> (skip: bool)
    ensures
        skip == !filter.process.thread.real_pid,
{
    !filter.process.thread.real_pid
}

/// Whether `process.thread.stat.timestamp` is left out of the output.
pub fn has_thread_stat_timestamp(filter: &Filter) -> (skip: bool)
    ensures
        skip == !filter.process.thread.stat.timestamp,
{
    !filter.process.thread.stat.timestamp
}

/// Whether `process.thread.stat.total_system_cpu_time` is left out of the output.
pub fn has_thread_stat_total_system_cpu_time(filter: &Filter) -> (skip: bool)
    ensures
        skip == !filter.process.thread.stat.total_system_cpu_time,
{
    !filter.process.thread.stat.total_system_cpu_time
}

/// Whether `process.thread.stat.total_user_cpu_time` is left out of the output.
pub fn has_thread_stat_total_user_cpu_time(filter: &Filter) -> (skip: bool)
    ensures
        skip == !filter.process.thread.stat.total_user_cpu_time,
{
    !filter.process.thread.stat.total_user_cpu_time
}

/// Whether `process.thread.stat.total_cpu_time` is left out of the output.
pub fn has_thread_stat_total_cpu_time(filter: &Filter) -> (skip: bool)
    ensures
        skip == !filter.process.thread.stat.total_cpu_time,
{
    !filter.process.thread.stat.total_cpu_time
}

/// Whether `process.thread.stat.total_io_read` is left out of the output.
pub fn has_thread_stat_total_io_read(filter: &Filter) -> (skip: bool)
    ensures
        skip == !filter.process.thread.stat.total_io_read,
{
    !filter.process.thread.stat.total_io_read
}

/// Whether `process.thread.stat.total_io_write` is left out of the output.
pub fn has_thread_stat_total_io_write(filter: &Filter) -> (skip: bool)
    ensures
        skip == !filter.process.thread.stat.total_io_write,
{
    !filter.process.thread.stat.total_io_write
}

/// Whether `process.thread.stat.total_block_io_read` is left out of the output.
pub fn has_thread_stat_total_block_io_read(filter: &Filter) -> (skip: bool)
    ensures
        skip == !filter.process.thread.stat.total_block_io_read,
{
    !filter.process.thread.stat.total_block_io_read
}

/// Whether `process.thread.stat.total_block_io_write` is left out of the output.
pub fn has_thread_stat_total_block_io_write(filter: &Filter) -> (skip: bool)
    ensures
        skip == !filter.process.thread.stat.total_block_io_write,
{
    !filter.process.thread.stat.total_block_io_write
}

} // verus!
