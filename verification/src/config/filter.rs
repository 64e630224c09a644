//! The output filter: one flag for each field of the output document.
use vstd::prelude::*;

verus! {
/// Which fields of the raw flows of an interface go into the output.
#[derive(Clone, Copy, Debug, PartialEq, Eq, Structural)]
pub struct InterfaceRawStat {
    pub iname: bool,
    pub description: bool,
    pub uni_connection_stats: bool,
}

impl InterfaceRawStat {
    pub fn has_iname(&self) -> (r: bool)
        ensures
            r == self.iname,
    {
        self.iname
    }

    pub fn has_description(&self) -> (r: bool)
        ensures
            r == self.description,
    {
        self.description
    }

    pub fn has_uni_connection_stats(&self) -> (r: bool)
        ensures
            r == self.uni_connection_stats,
    {
        self.uni_connection_stats
    }
}

/// Which fields of the raw flows of a snapshot go into the output.
#[derive(Clone, Copy, Debug, PartialEq, Eq, Structural)]
pub struct NetworkRawStat {
    pub interface_rawstat: InterfaceRawStat,
}

impl NetworkRawStat {
    pub fn get_irawstat(&self) -> (r: InterfaceRawStat)
        ensures
            r == self.interface_rawstat,
    {
        self.interface_rawstat
    }
}

/// Which fields of the traffic of a process over one interface go into the output.
#[derive(Clone, Copy, Debug, PartialEq, Eq, Structural)]
pub struct InterfaceStat {
    pub iname: bool,
    pub packet_sent: bool,
    pub packet_recv: bool,
    pub total_data_sent: bool,
    pub total_data_recv: bool,
    pub real_data_sent: bool,
    pub real_data_recv: bool,
    pub connection_stats: bool,
}

impl InterfaceStat {
    pub fn has_iname(&self) -> (r: bool)
        ensures
            r == self.iname,
    {
        self.iname
    }

    pub fn has_packet_sent(&self) -> (r: bool)
        ensures
            r == self.packet_sent,
    {
        self.packet_sent
    }

    pub fn has_packet_recv(&self) -> (r: bool)
        ensures
            r == self.packet_recv,
    {
        self.packet_recv
    }

    pub fn has_total_data_sent(&self) -> (r: bool)
        ensures
            r == self.total_data_sent,
    {
        self.total_data_sent
    }

    pub fn has_total_data_recv(&self) -> (r: bool)
        ensures
            r == self.total_data_recv,
    {
        self.total_data_recv
    }

    pub fn has_real_data_sent(&self) -> (r: bool)
        ensures
            r == self.real_data_sent,
    {
        self.real_data_sent
    }

    pub fn has_real_data_recv(&self) -> (r: bool)
        ensures
            r == self.real_data_recv,
    {
        self.real_data_recv
    }

    pub fn has_connection_stats(&self) -> (r: bool)
        ensures
            r == self.connection_stats,
    {
        self.connection_stats
    }
}

/// Which fields of the traffic of a process go into the output.
#[derive(Clone, Copy, Debug, PartialEq, Eq, Structural)]
pub struct NetworkStat {
    pub pack_sent: bool,
    pub pack_recv: bool,
    pub total_data_sent: bool,
    pub total_data_recv: bool,
    pub real_data_sent: bool,
    pub real_data_recv: bool,
    pub interface_stat: InterfaceStat,
}

impl NetworkStat {
    pub fn get_interface_stat(&self) -> (r: &InterfaceStat)
        ensures
            *r == self.interface_stat,
    {
        &self.interface_stat
    }

    pub fn has_pack_sent(&self) -> (r: bool)
        ensures
            r == self.pack_sent,
    {
        self.pack_sent
    }

    pub fn has_pack_recv(&self) -> (r: bool)
        ensures
            r == self.pack_recv,
    {
        self.pack_recv
    }

    pub fn has_total_data_sent(&self) -> (r: bool)
        ensures
            r == self.total_data_sent,
    {
        self.total_data_sent
    }

    pub fn has_total_data_recv(&self) -> (r: bool)
        ensures
            r == self.total_data_recv,
    {
        self.total_data_recv
    }

    pub fn has_real_data_sent(&self) -> (r: bool)
        ensures
            r == self.real_data_sent,
    {
        self.real_data_sent
    }

    pub fn has_real_data_recv(&self) -> (r: bool)
        ensures
            r == self.real_data_recv,
    {
        self.real_data_recv
    }
}

/// Which fields of the statistics of a process go into the output.
#[derive(Clone, Copy, Debug, PartialEq, Eq, Structural)]
pub struct ProcessStat {
    pub timestamp: bool,
    pub total_system_cpu_time: bool,
    pub total_user_cpu_time: bool,
    pub total_cpu_time: bool,
    pub total_rss: bool,
    pub total_vss: bool,
    pub total_swap: bool,
    pub total_io_read: bool,
    pub total_io_write: bool,
    pub total_block_io_read: bool,
    pub total_block_io_write: bool,
    pub netstat: NetworkStat,
}

impl ProcessStat {
    pub fn get_netstat(&self) -> (r: &NetworkStat)
        ensures
            *r == self.netstat,
    {
        &self.netstat
    }

    pub fn has_timestamp(&self) -> (r: bool)
        ensures
            r == self.timestamp,
    {
        self.timestamp
    }

    pub fn has_total_system_cpu_time(&self) -> (r: bool)
        ensures
            r == self.total_system_cpu_time,
    {
        self.total_system_cpu_time
    }

    pub fn has_total_user_cpu_time(&self) -> (r: bool)
        ensures
            r == self.total_user_cpu_time,
    {
        self.total_user_cpu_time
    }

    pub fn has_total_cpu_time(&self) -> (r: bool)
        ensures
            r == self.total_cpu_time,
    {
        self.total_cpu_time
    }

    pub fn has_total_rss(&self) -> (r: bool)
        ensures
            r == self.total_rss,
    {
        self.total_rss
    }

    pub fn has_total_vss(&self) -> (r: bool)
        ensures
            r == self.total_vss,
    {
        self.total_vss
    }

    pub fn has_total_swap(&self) -> (r: bool)
        ensures
            r == self.total_swap,
    {
        self.total_swap
    }

    pub fn has_total_io_read(&self) -> (r: bool)
        ensures
            r == self.total_io_read,
    {
        self.total_io_read
    }

    pub fn has_total_io_write(&self) -> (r: bool)
        ensures
            r == self.total_io_write,
    {
        self.total_io_write
    }

    pub fn has_total_block_io_read(&self) -> (r: bool)
        ensures
            r == self.total_block_io_read,
    {
        self.total_block_io_read
    }

    pub fn has_total_block_io_write(&self) -> (r: bool)
        ensures
            r == self.total_block_io_write,
    {
        self.total_block_io_write
    }
}

/// Which fields of the statistics of a thread go into the output.
#[derive(Clone, Copy, Debug, PartialEq, Eq, Structural)]
pub struct ThreadStat {
    pub timestamp: bool,
    pub total_system_cpu_time: bool,
    pub total_user_cpu_time: bool,
    pub total_cpu_time: bool,
    pub total_io_read: bool,
    pub total_io_write: bool,
    pub total_block_io_read: bool,
    pub total_block_io_write: bool,
}

impl ThreadStat {
    pub fn has_timestamp(&self) -> (r: bool)
        ensures
            r == self.timestamp,
    {
        self.timestamp
    }

    pub fn has_total_system_cpu_time(&self) -> (r: bool)
        ensures
            r == self.total_system_cpu_time,
    {
        self.total_system_cpu_time
    }

    pub fn has_total_user_cpu_time(&self) -> (r: bool)
        ensures
            r == self.total_user_cpu_time,
    {
        self.total_user_cpu_time
    }

    pub fn has_total_cpu_time(&self) -> (r: bool)
        ensures
            r == self.total_cpu_time,
    {
        self.total_cpu_time
    }

    pub fn has_total_io_read(&self) -> (r: bool)
        ensures
            r == self.total_io_read,
    {
        self.total_io_read
    }

    pub fn has_total_io_write(&self) -> (r: bool)
        ensures
            r == self.total_io_write,
    {
        self.total_io_write
    }

    pub fn has_total_block_io_read(&self) -> (r: bool)
        ensures
            r == self.total_block_io_read,
    {
        self.total_block_io_read
    }

    pub fn has_total_block_io_write(&self) -> (r: bool)
        ensures
            r == self.total_block_io_write,
    {
        self.total_block_io_write
    }
}

/// Which fields of a thread go into the output.
#[derive(Clone, Copy, Debug, PartialEq, Eq, Structural)]
pub struct Thread {
    pub tid: bool,
    pub pid: bool,
    pub real_tid: bool,
    pub real_pid: bool,
    pub stat: ThreadStat,
}

impl Thread {
    pub fn get_stat(&self) -> (r: &ThreadStat)
        ensures
            *r == self.stat,
    {
        &self.stat
    }

    pub fn has_tid(&self) -> (r: bool)
        ensures
            r == self.tid,
    {
        self.tid
    }

    pub fn has_pid(&self) -> (r: bool)
        ensures
            r == self.pid,
    {
        self.pid
    }

    pub fn has_real_tid(&self) -> (r: bool)
        ensures
            r == self.real_tid,
    {
        self.real_tid
    }

    pub fn has_real_pid(&self) -> (r: bool)
        ensures
            r == self.real_pid,
    {
        self.real_pid
    }
}

/// Which fields of a process go into the output.
#[derive(Clone, Copy, Debug, PartialEq, Eq, Structural)]
pub struct Process {
    pub pid: bool,
    pub parent_pid: bool,
    pub uid: bool,
    pub effective_uid: bool,
    pub saved_uid: bool,
    pub fs_uid: bool,
    pub gid: bool,
    pub effective_gid: bool,
    pub saved_gid: bool,
    pub fs_gid: bool,
    pub real_pid: bool,
    pub real_parent_pid: bool,
    pub real_uid: bool,
    pub real_effective_uid: bool,
    pub real_saved_uid: bool,
    pub real_fs_uid: bool,
    pub real_gid: bool,
    pub real_effective_gid: bool,
    pub real_saved_gid: bool,
    pub real_fs_gid: bool,
    pub exec_path: bool,
    pub command: bool,
    pub child_real_pid_list: bool,
    pub stat: ProcessStat,
    pub thread: Thread,
}

impl Process {
    pub fn get_thread(&self) -> (r: &Thread)
        ensures
            *r == self.thread,
    {
        &self.thread
    }

    pub fn has_pid(&self) -> (r: bool)
        ensures
            r == self.pid,
    {
        self.pid
    }

    pub fn has_parent_pid(&self) -> (r: bool)
        ensures
            r == self.parent_pid,
    {
        self.parent_pid
    }

    pub fn has_uid(&self) -> (r: bool)
        ensures
            r == self.uid,
    {
        self.uid
    }

    pub fn has_effective_uid(&self) -> (r: bool)
        ensures
            r == self.effective_uid,
    {
        self.effective_uid
    }

    pub fn has_saved_uid(&self) -> (r: bool)
        ensures
            r == self.saved_uid,
    {
        self.saved_uid
    }

    pub fn has_fs_uid(&self) -> (r: bool)
        ensures
            r == self.fs_uid,
    {
        self.fs_uid
    }

    pub fn has_gid(&self) -> (r: bool)
        ensures
            r == self.gid,
    {
        self.gid
    }

    pub fn has_effective_gid(&self) -> (r: bool)
        ensures
            r == self.effective_gid,
    {
        self.effective_gid
    }

    pub fn has_saved_gid(&self) -> (r: bool)
        ensures
            r == self.saved_gid,
    {
        self.saved_gid
    }

    pub fn has_fs_gid(&self) -> (r: bool)
        ensures
            r == self.fs_gid,
    {
        self.fs_gid
    }

    pub fn has_real_pid(&self) -> (r: bool)
        ensures
            r == self.real_pid,
    {
        self.real_pid
    }

    pub fn has_real_parent_pid(&self) -> (r: bool)
        ensures
            r == self.real_parent_pid,
    {
        self.real_parent_pid
    }

    pub fn has_real_uid(&self) -> (r: bool)
        ensures
            r == self.real_uid,
    {
        self.real_uid
    }

    pub fn has_real_effective_uid(&self) -> (r: bool)
        ensures
            r == self.real_effective_uid,
    {
        self.real_effective_uid
    }

    pub fn has_real_saved_uid(&self) -> (r: bool)
        ensures
            r == self.real_saved_uid,
    {
        self.real_saved_uid
    }

    pub fn has_real_fs_uid(&self) -> (r: bool)
        ensures
            r == self.real_fs_uid,
    {
        self.real_fs_uid
    }

    pub fn has_real_gid(&self) -> (r: bool)
        ensures
            r == self.real_gid,
    {
        self.real_gid
    }

    pub fn has_real_effective_gid(&self) -> (r: bool)
        ensures
            r == self.real_effective_gid,
    {
        self.real_effective_gid
    }

    pub fn has_real_saved_gid(&self) -> (r: bool)
        ensures
            r == self.real_saved_gid,
    {
        self.real_saved_gid
    }

    pub fn has_real_fs_gid(&self) -> (r: bool)
        ensures
            r == self.real_fs_gid,
    {
        self.real_fs_gid
    }

    pub fn has_exec_path(&self) -> (r: bool)
        ensures
            r == self.exec_path,
    {
        self.exec_path
    }

    pub fn has_command(&self) -> (r: bool)
        ensures
            r == self.command,
    {
        self.command
    }

    pub fn has_child_real_pid_list(&self) -> (r: bool)
        ensures
            r == self.child_real_pid_list,
    {
        self.child_real_pid_list
    }

    pub fn get_stat(&self) -> (r: &ProcessStat)
        ensures
            *r == self.stat,
    {
        &self.stat
    }
}

/// Which fields of a snapshot go into the output: `true` asks for a field, `false` leaves it out.
#[derive(Clone, Copy, Debug, PartialEq, Eq, Structural)]
pub struct Filter {
    pub unix_timestamp: bool,
    pub network_rawstat: NetworkRawStat,
    pub process: Process,
}

impl Filter {
    pub fn has_unix_timestamp(&self) -> (r: bool)
        ensures
            r == self.unix_timestamp,
    {
        self.unix_timestamp
    }

    pub fn get_network_rawstat(&self) -> (r: &NetworkRawStat)
        ensures
            *r == self.network_rawstat,
    {
        &self.network_rawstat
    }

    pub fn get_process(&self) -> (r: &Process)
        ensures
            *r == self.process,
    {
        &self.process
    }
}

} // verus!
