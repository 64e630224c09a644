//! Process records, their statistics, id maps of user namespaces, and the
//! correlation of sockets with captured flows.
use crate::common::{decimal_id, parse_decimal, CommonError, Count, DataCount, Gid, Inode};
use crate::common::{ParseIntErrorKind, TimeCount, Timestamp, Uid};
use crate::network_stat::{connection_of, interface_name_of, irawstat_position, Connection};
use crate::network_stat::{NetworkRawStat, UniConnection, UniConnectionStat};
use crate::taskstat::{TaskStats, TaskStatsError};
use crate::common::{decimal_chars, decimal_number, decimal_text};
use crate::text::{last_token, line_at, lines, span_bytes, split_lines, split_whitespace, token_at, tokens};
use crate::text::{final_token, nth_line, nth_token};
use vstd::prelude::*;
use vstd::slice::slice_subrange;
use vstd::string::*;

verus! {

/// A process id.
#[derive(Clone, Copy, Debug, PartialEq, Eq, Structural, PartialOrd, Ord, Hash)]
pub struct Pid(pub u128);

impl View for Pid {
    type V = nat;

    open spec fn view(&self) -> nat {
        self.0 as nat
    }
}

impl Pid {
    /// The id in decimal.
    pub fn to_string(&self) -> (r: String)
        ensures
            r@ == decimal_chars(self@),
    {
        decimal_text(self.0)
    }

    pub fn new(pid: usize) -> (r: Self)
        ensures
            r@ == pid,
    {
        Self(pid as u128)
    }

    /// The id as a machine word; an id wider than a word loses its high part.
    pub fn to_usize(&self) -> (r: usize)
        ensures
            r == self@ % (usize::MAX as nat + 1),
    {
        (self.0 % (usize::MAX as u128 + 1)) as usize
    }

    /// Parses a decimal id.
    pub fn try_from(input: &str) -> (r: Result<Self, CommonError>)
        ensures
            r == match decimal_id(input.spec_bytes()) {
                Ok(v) => Ok(Pid(v)),
                Err(e) => Err(e),
            },
    {
        match parse_decimal(input.as_bytes(), u128::MAX) {
            Ok(v) => Ok(Self(v)),
            Err(kind) => Err(CommonError::ParseIntErr(kind)),
        }
    }

    /// The low 32 bits of the id, the width the kernel uses on the wire.
    pub fn to_u32(self) -> (r: u32)
        ensures
            r == self@ % 0x1_0000_0000,
    {
        (self.0 % 0x1_0000_0000) as u32
    }
}

/// A thread id.
#[derive(Clone, Copy, Debug, PartialEq, Eq, Structural, PartialOrd, Ord, Hash)]
pub struct Tid(pub u128);

impl View for Tid {
    type V = nat;

    open spec fn view(&self) -> nat {
        self.0 as nat
    }
}

impl Tid {
    /// The id in decimal.
    pub fn to_string(&self) -> (r: String)
        ensures
            r@ == decimal_chars(self@),
    {
        decimal_text(self.0)
    }

    pub fn new(tid: usize) -> (r: Self)
        ensures
            r@ == tid,
    {
        Self(tid as u128)
    }

    /// Parses a decimal id.
    pub fn try_from(input: &str) -> (r: Result<Self, CommonError>)
        ensures
            r == match decimal_id(input.spec_bytes()) {
                Ok(v) => Ok(Tid(v)),
                Err(e) => Err(e),
            },
    {
        match parse_decimal(input.as_bytes(), u128::MAX) {
            Ok(v) => Ok(Self(v)),
            Err(kind) => Err(CommonError::ParseIntErr(kind)),
        }
    }

    /// The low 32 bits of the id, the width the kernel uses on the wire.
    pub fn to_u32(self) -> (r: u32)
        ensures
            r == self@ % 0x1_0000_0000,
    {
        (self.0 % 0x1_0000_0000) as u32
    }
}


/// What one connection of a process sent and received.
#[derive(Debug, Copy, Clone, PartialEq, Eq, Structural, Hash)]
pub struct ConnectionStat {
    pub connection: Connection,
    pub pack_sent: Count,
    pub pack_recv: Count,
    /// Bytes on the link layer.
    pub total_data_sent: DataCount,
    pub total_data_recv: DataCount,
    /// Bytes of transport payload.
    pub real_data_sent: DataCount,
    pub real_data_recv: DataCount,
}

impl ConnectionStat {
    pub fn new(connection: Connection) -> (r: Self)
        ensures
            r == (ConnectionStat {
                connection,
                pack_sent: Count(0),
                pack_recv: Count(0),
                total_data_sent: DataCount(0),
                total_data_recv: DataCount(0),
                real_data_sent: DataCount(0),
                real_data_recv: DataCount(0),
            }),
    {
        Self {
            connection,
            pack_sent: Count::new(0),
            pack_recv: Count::new(0),
            total_data_sent: DataCount::from_byte(0),
            total_data_recv: DataCount::from_byte(0),
            real_data_sent: DataCount::from_byte(0),
            real_data_recv: DataCount::from_byte(0),
        }
    }

    /// The stat of a connection from the flows of its two directions: what
    /// the outbound flow counted was sent, what the inbound flow counted was received.
    pub open spec fn of_flows(connection: Connection, sent: UniConnectionStat, recv: UniConnectionStat) -> ConnectionStat {
        ConnectionStat {
            connection,
            pack_sent: sent.packet_count,
            pack_recv: recv.packet_count,
            total_data_sent: sent.total_data_count,
            total_data_recv: recv.total_data_count,
            real_data_sent: sent.real_data_count,
            real_data_recv: recv.real_data_count,
        }
    }

    /// Builds the stat of a connection from the flows of its two directions.
    pub fn from_flows(connection: Connection, sent: &UniConnectionStat, recv: &UniConnectionStat) -> (r:
        Self)
        ensures
            r == Self::of_flows(connection, *sent, *recv),
    {
        Self {
            connection,
            pack_sent: sent.get_packet_count(),
            pack_recv: recv.get_packet_count(),
            total_data_sent: sent.get_total_data_count(),
            total_data_recv: recv.get_total_data_count(),
            real_data_sent: sent.get_real_data_count(),
            real_data_recv: recv.get_real_data_count(),
        }
    }

    pub fn get_connection(&self) -> (r: Connection)
        ensures
            r == self.connection,
    {
        self.connection
    }

    pub fn get_pack_sent(&self) -> (r: Count)
        ensures
            r == self.pack_sent,
    {
        self.pack_sent
    }

    pub fn get_pack_recv(&self) -> (r: Count)
        ensures
            r == self.pack_recv,
    {
        self.pack_recv
    }

    pub fn get_total_data_sent(&self) -> (r: DataCount)
        ensures
            r == self.total_data_sent,
    {
        self.total_data_sent
    }

    pub fn get_total_data_recv(&self) -> (r: DataCount)
        ensures
            r == self.total_data_recv,
    {
        self.total_data_recv
    }

    pub fn get_real_data_sent(&self) -> (r: DataCount)
        ensures
            r == self.real_data_sent,
    {
        self.real_data_sent
    }

    pub fn get_real_data_recv(&self) -> (r: DataCount)
        ensures
            r == self.real_data_recv,
    {
        self.real_data_recv
    }

    /// The six counters of the stat.
    pub open spec fn totals(self) -> Totals {
        Totals {
            pack_sent: self.pack_sent@,
            pack_recv: self.pack_recv@,
            total_data_sent: self.total_data_sent@,
            total_data_recv: self.total_data_recv@,
            real_data_sent: self.real_data_sent@,
            real_data_recv: self.real_data_recv@,
        }
    }

    /// The stat of the same connection with the counters of `other` added.
    pub open spec fn sum(self, other: Self) -> Self {
        ConnectionStat {
            connection: self.connection,
            pack_sent: Count((self.pack_sent.0 + other.pack_sent.0) as u128),
            pack_recv: Count((self.pack_recv.0 + other.pack_recv.0) as u128),
            total_data_sent: DataCount((self.total_data_sent.0 + other.total_data_sent.0) as u128),
            total_data_recv: DataCount((self.total_data_recv.0 + other.total_data_recv.0) as u128),
            real_data_sent: DataCount((self.real_data_sent.0 + other.real_data_sent.0) as u128),
            real_data_recv: DataCount((self.real_data_recv.0 + other.real_data_recv.0) as u128),
        }
    }

    /// The sum of two stats of one connection.
    pub fn add(self, other: Self) -> (r: Self)
        requires
            self.connection == other.connection,
            self.totals().plus(other.totals()).fits(),
        ensures
            r == self.sum(other),
    {
        Self {
            connection: self.connection,
            pack_sent: self.pack_sent.add(other.pack_sent),
            pack_recv: self.pack_recv.add(other.pack_recv),
            total_data_sent: self.total_data_sent.add(other.total_data_sent),
            total_data_recv: self.total_data_recv.add(other.total_data_recv),
            real_data_sent: self.real_data_sent.add(other.real_data_sent),
            real_data_recv: self.real_data_recv.add(other.real_data_recv),
        }
    }

    /// Adds the counters of `other`, a stat of the same connection.
    pub fn add_assign(&mut self, other: Self)
        requires
            old(self).connection == other.connection,
            old(self).totals().plus(other.totals()).fits(),
        ensures
            *final(self) == old(self).sum(other),
    {
        self.pack_sent.add_assign(other.pack_sent);
        self.pack_recv.add_assign(other.pack_recv);
        self.total_data_sent.add_assign(other.total_data_sent);
        self.total_data_recv.add_assign(other.total_data_recv);
        self.real_data_sent.add_assign(other.real_data_sent);
        self.real_data_recv.add_assign(other.real_data_recv);
    }
}

/// Six counters of traffic as mathematical numbers.
pub struct Totals {
    pub pack_sent: nat,
    pub pack_recv: nat,
    pub total_data_sent: nat,
    pub total_data_recv: nat,
    pub real_data_sent: nat,
    pub real_data_recv: nat,
}

impl Totals {
    pub open spec fn zero() -> Totals {
        Totals {
            pack_sent: 0,
            pack_recv: 0,
            total_data_sent: 0,
            total_data_recv: 0,
            real_data_sent: 0,
            real_data_recv: 0,
        }
    }

    pub open spec fn plus(self, other: Totals) -> Totals {
        Totals {
            pack_sent: self.pack_sent + other.pack_sent,
            pack_recv: self.pack_recv + other.pack_recv,
            total_data_sent: self.total_data_sent + other.total_data_sent,
            total_data_recv: self.total_data_recv + other.total_data_recv,
            real_data_sent: self.real_data_sent + other.real_data_sent,
            real_data_recv: self.real_data_recv + other.real_data_recv,
        }
    }

    /// Every counter is within 128 bits.
    pub open spec fn fits(self) -> bool {
        &&& self.pack_sent <= u128::MAX
        &&& self.pack_recv <= u128::MAX
        &&& self.total_data_sent <= u128::MAX
        &&& self.total_data_recv <= u128::MAX
        &&& self.real_data_sent <= u128::MAX
        &&& self.real_data_recv <= u128::MAX
    }

    /// Every counter is at most that of `other`.
    pub open spec fn at_most(self, other: Totals) -> bool {
        &&& self.pack_sent <= other.pack_sent
        &&& self.pack_recv <= other.pack_recv
        &&& self.total_data_sent <= other.total_data_sent
        &&& self.total_data_recv <= other.total_data_recv
        &&& self.real_data_sent <= other.real_data_sent
        &&& self.real_data_recv <= other.real_data_recv
    }
}

/// The position of the first stat of the connection `key`, from `from` on.
pub open spec fn connection_position(stats: Seq<ConnectionStat>, key: Connection, from: int) -> Option<
    int,
>
    decreases stats.len() - from,
{
    if from < 0 || from >= stats.len() {
        None
    } else if stats[from].connection == key {
        Some(from)
    } else {
        connection_position(stats, key, from + 1)
    }
}

/// A list of stats with `stat` entered: in the place of the first stat of
/// its connection, or at the end if the list has none.
pub open spec fn with_connection(stats: Seq<ConnectionStat>, stat: ConnectionStat) -> Seq<ConnectionStat> {
    match connection_position(stats, stat.connection, 0) {
        Some(i) => stats.update(i, stat),
        None => stats.push(stat),
    }
}

/// What a process sent and received over one interface.
#[derive(Debug)]
pub struct InterfaceStat {
    pub iname: String,
    pub packet_sent: Count,
    pub packet_recv: Count,
    pub total_data_sent: DataCount,
    pub total_data_recv: DataCount,
    pub real_data_sent: DataCount,
    pub real_data_recv: DataCount,
    /// The stat of each connection. A connection is a structure, of which
    /// as a key of a hash map nothing can be proved, so this is a list, in
    /// which a connection is looked up from the front.
    pub connection_stats: Vec<ConnectionStat>,
}

impl InterfaceStat {
    pub fn new(iname: &str) -> (r: Self)
        ensures
            r.iname@ == iname@,
            r.totals() == Totals::zero(),
            r.connection_stats@.len() == 0,
    {
        Self {
            iname: iname.to_owned(),
            packet_sent: Count::new(0),
            packet_recv: Count::new(0),
            total_data_sent: DataCount::from_byte(0),
            total_data_recv: DataCount::from_byte(0),
            real_data_sent: DataCount::from_byte(0),
            real_data_recv: DataCount::from_byte(0),
            connection_stats: Vec::new(),
        }
    }

    pub fn get_interface_name(&self) -> (r: String)
        ensures
            r == self.iname,
    {
        self.iname.clone()
    }

    /// The six counters of the interface.
    pub open spec fn totals(self) -> Totals {
        Totals {
            pack_sent: self.packet_sent@,
            pack_recv: self.packet_recv@,
            total_data_sent: self.total_data_sent@,
            total_data_recv: self.total_data_recv@,
            real_data_sent: self.real_data_sent@,
            real_data_recv: self.real_data_recv@,
        }
    }

    /// Adds the counters of a connection and enters its stat, in the place
    /// of an earlier stat of the same connection if there is one.
    pub fn add_connection_stat(&mut self, conn_stat: ConnectionStat)
        requires
            old(self).totals().plus(conn_stat.totals()).fits(),
        ensures
            final(self).iname == old(self).iname,
            final(self).totals() == old(self).totals().plus(conn_stat.totals()),
            final(self).connection_stats@ == with_connection(old(self).connection_stats@, conn_stat),
    {
        self.packet_sent.add_assign(conn_stat.get_pack_sent());
        self.packet_recv.add_assign(conn_stat.get_pack_recv());
        self.total_data_sent.add_assign(conn_stat.get_total_data_sent());
        self.total_data_recv.add_assign(conn_stat.get_total_data_recv());
        self.real_data_sent.add_assign(conn_stat.get_real_data_sent());
        self.real_data_recv.add_assign(conn_stat.get_real_data_recv());
        let mut i: usize = 0;
        while i < self.connection_stats.len()
            invariant
                i <= self.connection_stats@.len(),
                self.connection_stats@ == old(self).connection_stats@,
                self.iname == old(self).iname,
                self.totals() == old(self).totals().plus(conn_stat.totals()),
                connection_position(self.connection_stats@, conn_stat.connection, 0)
                    == connection_position(self.connection_stats@, conn_stat.connection, i as int),
            decreases self.connection_stats.len() - i,
        {
            if self.connection_stats[i].connection == conn_stat.connection {
                self.connection_stats.set(i, conn_stat);
                return ;
            }
            i = i + 1;
        }
        self.connection_stats.push(conn_stat);
    }
}

/// The position of the first interface named `iname`, from `from` on.
pub open spec fn interface_position(stats: Seq<InterfaceStat>, iname: Seq<char>, from: int) -> Option<
    int,
>
    decreases stats.len() - from,
{
    if from < 0 || from >= stats.len() {
        None
    } else if stats[from].iname@ == iname {
        Some(from)
    } else {
        interface_position(stats, iname, from + 1)
    }
}

/// What a process sent and received, in all and over each interface.
#[derive(Debug)]
pub struct NetworkStat {
    pub pack_sent: Count,
    pub pack_recv: Count,
    pub total_data_sent: DataCount,
    pub total_data_recv: DataCount,
    pub real_data_sent: DataCount,
    pub real_data_recv: DataCount,
    /// The traffic over each interface. A name is a string, so this is a
    /// list in which each name stands once.
    pub interface_stats: Vec<InterfaceStat>,
}

impl NetworkStat {
    /// The six counters of the whole.
    pub open spec fn totals(self) -> Totals {
        Totals {
            pack_sent: self.pack_sent@,
            pack_recv: self.pack_recv@,
            total_data_sent: self.total_data_sent@,
            total_data_recv: self.total_data_recv@,
            real_data_sent: self.real_data_sent@,
            real_data_recv: self.real_data_recv@,
        }
    }

    /// No interface counted more than the whole, and no two interfaces have
    /// one name.
    pub open spec fn wf(&self) -> bool {
        &&& forall|i: int|
            0 <= i < self.interface_stats@.len() ==> (#[trigger] self.interface_stats@[i]).totals().at_most(
                self.totals(),
            )
        &&& forall|i: int, j: int|
            0 <= i < j < self.interface_stats@.len() ==> self.interface_stats@[i].iname@
                != self.interface_stats@[j].iname@
    }

    /// Tests whether the traffic is well formed.
    pub fn is_wf(&self) -> (r: bool)
        ensures
            r == self.wf(),
    {
        let mut i: usize = 0;
        while i < self.interface_stats.len()
            invariant
                i <= self.interface_stats@.len(),
                forall|j: int|
                    0 <= j < i ==> (#[trigger] self.interface_stats@[j]).totals().at_most(
                        self.totals(),
                    ),
                forall|a: int, b: int|
                    0 <= a < b < i ==> self.interface_stats@[a].iname@
                        != self.interface_stats@[b].iname@,
            decreases self.interface_stats.len() - i,
        {
            let one = &self.interface_stats[i];
            let within = one.packet_sent.0 <= self.pack_sent.0 && one.packet_recv.0
                <= self.pack_recv.0 && one.total_data_sent.0 <= self.total_data_sent.0
                && one.total_data_recv.0 <= self.total_data_recv.0 && one.real_data_sent.0
                <= self.real_data_sent.0 && one.real_data_recv.0 <= self.real_data_recv.0;
            if !within {
                return false;
            }
            let mut j: usize = 0;
            while j < i
                invariant
                    j <= i < self.interface_stats@.len(),
                    forall|a: int|
                        0 <= a < j ==> self.interface_stats@[a].iname@
                            != self.interface_stats@[i as int].iname@,
                decreases i - j,
            {
                if self.interface_stats[j].iname == self.interface_stats[i].iname {
                    return false;
                }
                j = j + 1;
            }
            i = i + 1;
        }
        true
    }

    pub fn new() -> (r: Self)
        ensures
            r.wf(),
            r.totals() == Totals::zero(),
            r.interface_stats@.len() == 0,
    {
        Self {
            pack_sent: Count::new(0),
            pack_recv: Count::new(0),
            total_data_sent: DataCount::from_byte(0),
            total_data_recv: DataCount::from_byte(0),
            real_data_sent: DataCount::from_byte(0),
            real_data_recv: DataCount::from_byte(0),
            interface_stats: Vec::new(),
        }
    }

    /// Whether the counters of `conn_stat` can be added without passing 128 bits.
    pub fn can_add(&self, conn_stat: &ConnectionStat) -> (r: bool)
        ensures
            r == self.totals().plus(conn_stat.totals()).fits(),
    {
        self.pack_sent.can_add(conn_stat.pack_sent) && self.pack_recv.can_add(conn_stat.pack_recv)
            && self.total_data_sent.can_add(conn_stat.total_data_sent)
            && self.total_data_recv.can_add(conn_stat.total_data_recv)
            && self.real_data_sent.can_add(conn_stat.real_data_sent)
            && self.real_data_recv.can_add(conn_stat.real_data_recv)
    }

    /// Adds the counters of a connection to the whole and to the interface
    /// named `iname`, which is entered at the end if it is not there yet.
    pub fn add_connection_stat(&mut self, iname: &str, conn_stat: ConnectionStat)
        requires
            old(self).wf(),
            old(self).totals().plus(conn_stat.totals()).fits(),
        ensures
            final(self).wf(),
            final(self).totals() == old(self).totals().plus(conn_stat.totals()),
            interfaces_entered(
                old(self).interface_stats@,
                final(self).interface_stats@,
                iname@,
                conn_stat,
            ),
    {
        self.pack_sent.add_assign(conn_stat.get_pack_sent());
        self.pack_recv.add_assign(conn_stat.get_pack_recv());
        self.total_data_sent.add_assign(conn_stat.get_total_data_sent());
        self.total_data_recv.add_assign(conn_stat.get_total_data_recv());
        self.real_data_sent.add_assign(conn_stat.get_real_data_sent());
        self.real_data_recv.add_assign(conn_stat.get_real_data_recv());
        let wanted = iname.to_owned();
        let mut i: usize = 0;
        while i < self.interface_stats.len()
            invariant
                i <= self.interface_stats@.len(),
                wanted@ == iname@,
                self.interface_stats@ == old(self).interface_stats@,
                self.totals() == old(self).totals().plus(conn_stat.totals()),
                old(self).wf(),
                old(self).totals().plus(conn_stat.totals()).fits(),
                interface_position(self.interface_stats@, iname@, 0) == interface_position(
                    self.interface_stats@,
                    iname@,
                    i as int,
                ),
            decreases self.interface_stats.len() - i,
        {
            if self.interface_stats[i].iname == wanted {
                assert(old(self).interface_stats@[i as int].totals().at_most(old(self).totals()));
                self.interface_stats[i].add_connection_stat(conn_stat);
                proof {
                    let before = old(self).interface_stats@;
                    let after = self.interface_stats@;
                    assert forall|a: int, b: int| 0 <= a < b < after.len() implies after[a].iname@
                        != after[b].iname@ by {
                        assert(after[a].iname@ == before[a].iname@);
                        assert(after[b].iname@ == before[b].iname@);
                    }
                }
                return ;
            }
            i = i + 1;
        }
        let mut fresh = InterfaceStat::new(iname);
        fresh.add_connection_stat(conn_stat);
        self.interface_stats.push(fresh);
        proof {
            let before = old(self).interface_stats@;
            let after = self.interface_stats@;
            assert(interface_position(before, iname@, 0) is None);
            lemma_interface_position(before, iname@, 0);
            assert(after.last().connection_stats@ =~= seq![conn_stat]);
            assert(forall|j: int| 0 <= j < before.len() ==> (#[trigger] after[j]) == before[j]);
        }
    }
}

/// The first interface of a name stands within the list and has that name;
/// where there is none, no interface of the list has the name.
pub proof fn lemma_interface_position(stats: Seq<InterfaceStat>, iname: Seq<char>, from: int)
    requires
        0 <= from,
    ensures
        interface_position(stats, iname, from) matches Some(i) ==> from <= i < stats.len()
            && stats[i].iname@ == iname,
        interface_position(stats, iname, from) is None ==> forall|j: int|
            from <= j < stats.len() ==> (#[trigger] stats[j]).iname@ != iname,
    decreases stats.len() - from,
{
    if from < stats.len() && stats[from].iname@ != iname {
        lemma_interface_position(stats, iname, from + 1);
    }
}

/// What entering a connection under the interface named `iname` makes of a
/// list of interfaces: the first interface of that name takes the connection
/// in; if there is none, a new one that holds just this connection comes at
/// the end. The other interfaces stay as they are.
pub open spec fn interfaces_entered(
    before: Seq<InterfaceStat>,
    after: Seq<InterfaceStat>,
    iname: Seq<char>,
    conn_stat: ConnectionStat,
) -> bool {
    match interface_position(before, iname, 0) {
        Some(i) => after.len() == before.len() && entered(before[i], after[i], conn_stat)
            && forall|j: int| 0 <= j < before.len() && j != i ==> (#[trigger] after[j]) == before[j],
        None => after.len() == before.len() + 1 && after.last().iname@ == iname
            && after.last().totals() == conn_stat.totals() && after.last().connection_stats@
            == seq![conn_stat] && forall|j: int|
            0 <= j < before.len() ==> (#[trigger] after[j]) == before[j],
    }
}

/// What entering a connection makes of an interface.
pub open spec fn entered(before: InterfaceStat, after: InterfaceStat, conn_stat: ConnectionStat) -> bool {
    &&& after.iname == before.iname
    &&& after.totals() == before.totals().plus(conn_stat.totals())
    &&& after.connection_stats@ == with_connection(before.connection_stats@, conn_stat)
}


/// What one thread used, as the kernel accounted it.
#[derive(Clone, Copy, Debug, PartialEq, Eq, Structural)]
pub struct ThreadStat {
    pub timestamp: Timestamp,
    pub total_system_cpu_time: TimeCount,
    pub total_user_cpu_time: TimeCount,
    pub total_cpu_time: TimeCount,
    pub total_io_read: DataCount,
    pub total_io_write: DataCount,
    pub total_block_io_read: DataCount,
    pub total_block_io_write: DataCount,
}

impl ThreadStat {
    /// The stat with all its counters at zero, as of the time `now`.
    pub open spec fn zero(now: Timestamp) -> ThreadStat {
        ThreadStat {
            timestamp: now,
            total_system_cpu_time: TimeCount(0),
            total_user_cpu_time: TimeCount(0),
            total_cpu_time: TimeCount(0),
            total_io_read: DataCount(0),
            total_io_write: DataCount(0),
            total_block_io_read: DataCount(0),
            total_block_io_write: DataCount(0),
        }
    }

    /// A stat with all its counters at zero, stamped with the time of the system clock.
    pub fn new() -> (r: Self)
        ensures
            r == Self::zero(r.timestamp),
    {
        Self {
            timestamp: Timestamp::get_curr_timestamp(),
            total_system_cpu_time: TimeCount::from_secs(0),
            total_user_cpu_time: TimeCount::from_secs(0),
            total_cpu_time: TimeCount::from_secs(0),
            total_io_read: DataCount::from_byte(0),
            total_io_write: DataCount::from_byte(0),
            total_block_io_read: DataCount::from_byte(0),
            total_block_io_write: DataCount::from_byte(0),
        }
    }

    pub fn get_total_system_cpu_time(&self) -> (r: TimeCount)
        ensures
            r == self.total_system_cpu_time,
    {
        self.total_system_cpu_time
    }

    pub fn get_total_user_cpu_time(&self) -> (r: TimeCount)
        ensures
            r == self.total_user_cpu_time,
    {
        self.total_user_cpu_time
    }

    pub fn get_total_cpu_time(&self) -> (r: TimeCount)
        ensures
            r == self.total_cpu_time,
    {
        self.total_cpu_time
    }

    pub fn get_total_io_read(&self) -> (r: DataCount)
        ensures
            r == self.total_io_read,
    {
        self.total_io_read
    }

    pub fn get_total_io_write(&self) -> (r: DataCount)
        ensures
            r == self.total_io_write,
    {
        self.total_io_write
    }

    pub fn get_total_block_io_read(&self) -> (r: DataCount)
        ensures
            r == self.total_block_io_read,
    {
        self.total_block_io_read
    }

    pub fn get_total_block_io_write(&self) -> (r: DataCount)
        ensures
            r == self.total_block_io_write,
    {
        self.total_block_io_write
    }
}

/// What a process used: the sum over its threads, its memory, and its traffic.
#[derive(Debug)]
pub struct ProcessStat {
    pub timestamp: Timestamp,
    pub total_system_cpu_time: TimeCount,
    pub total_user_cpu_time: TimeCount,
    pub total_cpu_time: TimeCount,
    pub total_rss: DataCount,
    pub total_vss: DataCount,
    pub total_swap: DataCount,
    pub total_io_read: DataCount,
    pub total_io_write: DataCount,
    pub total_block_io_read: DataCount,
    pub total_block_io_write: DataCount,
    pub netstat: NetworkStat,
}

impl ProcessStat {
    /// A stat with all its counters at zero, stamped with the time of the system clock.
    pub fn new() -> (r: Self)
        ensures
            r.netstat.wf(),
            r.netstat.totals() == Totals::zero(),
            r.netstat.interface_stats@.len() == 0,
            r.total_system_cpu_time@ == 0,
            r.total_user_cpu_time@ == 0,
            r.total_cpu_time@ == 0,
            r.total_rss@ == 0,
            r.total_vss@ == 0,
            r.total_swap@ == 0,
            r.total_io_read@ == 0,
            r.total_io_write@ == 0,
            r.total_block_io_read@ == 0,
            r.total_block_io_write@ == 0,
    {
        Self {
            timestamp: Timestamp::get_curr_timestamp(),
            total_system_cpu_time: TimeCount::from_secs(0),
            total_user_cpu_time: TimeCount::from_secs(0),
            total_cpu_time: TimeCount::from_secs(0),
            total_rss: DataCount::from_byte(0),
            total_vss: DataCount::from_byte(0),
            total_swap: DataCount::from_byte(0),
            total_io_read: DataCount::from_byte(0),
            total_io_write: DataCount::from_byte(0),
            total_block_io_read: DataCount::from_byte(0),
            total_block_io_write: DataCount::from_byte(0),
            netstat: NetworkStat::new(),
        }
    }

    /// Whether the counters of a thread can be added without passing 128 bits.
    pub open spec fn thread_fits(self, thread: ThreadStat) -> bool {
        &&& self.total_system_cpu_time@ + thread.total_system_cpu_time@ <= u128::MAX
        &&& self.total_user_cpu_time@ + thread.total_user_cpu_time@ <= u128::MAX
        &&& self.total_cpu_time@ + thread.total_cpu_time@ <= u128::MAX
        &&& self.total_io_read@ + thread.total_io_read@ <= u128::MAX
        &&& self.total_io_write@ + thread.total_io_write@ <= u128::MAX
        &&& self.total_block_io_read@ + thread.total_block_io_read@ <= u128::MAX
        &&& self.total_block_io_write@ + thread.total_block_io_write@ <= u128::MAX
    }

    /// Whether [`Self::add_thread_stat`] accepts the thread.
    pub fn can_add_thread_stat(&self, thread: &ThreadStat) -> (r: bool)
        ensures
            r == self.thread_fits(*thread),
    {
        self.total_system_cpu_time.can_add(thread.total_system_cpu_time)
            && self.total_user_cpu_time.can_add(thread.total_user_cpu_time)
            && self.total_cpu_time.can_add(thread.total_cpu_time) && self.total_io_read.can_add(
            thread.total_io_read,
        ) && self.total_io_write.can_add(thread.total_io_write)
            && self.total_block_io_read.can_add(thread.total_block_io_read)
            && self.total_block_io_write.can_add(thread.total_block_io_write)
    }

    /// Adds what one thread used: its CPU times and its I/O. Memory,
    /// traffic and the time stamp are those of the process and stay.
    pub fn add_thread_stat(&mut self, thread: ThreadStat)
        requires
            old(self).thread_fits(thread),
        ensures
            final(self).total_system_cpu_time@ == old(self).total_system_cpu_time@
                + thread.total_system_cpu_time@,
            final(self).total_user_cpu_time@ == old(self).total_user_cpu_time@
                + thread.total_user_cpu_time@,
            final(self).total_cpu_time@ == old(self).total_cpu_time@ + thread.total_cpu_time@,
            final(self).total_io_read@ == old(self).total_io_read@ + thread.total_io_read@,
            final(self).total_io_write@ == old(self).total_io_write@ + thread.total_io_write@,
            final(self).total_block_io_read@ == old(self).total_block_io_read@
                + thread.total_block_io_read@,
            final(self).total_block_io_write@ == old(self).total_block_io_write@
                + thread.total_block_io_write@,
            final(self).timestamp == old(self).timestamp,
            final(self).total_rss == old(self).total_rss,
            final(self).total_vss == old(self).total_vss,
            final(self).total_swap == old(self).total_swap,
            final(self).netstat == old(self).netstat,
    {
        self.total_system_cpu_time.add_assign(thread.get_total_system_cpu_time());
        self.total_user_cpu_time.add_assign(thread.get_total_user_cpu_time());
        self.total_cpu_time.add_assign(thread.get_total_cpu_time());
        self.total_io_read.add_assign(thread.get_total_io_read());
        self.total_io_write.add_assign(thread.get_total_io_write());
        self.total_block_io_read.add_assign(thread.get_total_block_io_read());
        self.total_block_io_write.add_assign(thread.get_total_block_io_write());
    }

    /// Sets the memory of the process from the three values of its status
    /// file, which are in kilobytes.
    pub fn add_memory(&mut self, vss_kb: usize, rss_kb: usize, swap_kb: usize)
        requires
            old(self).total_vss@ + vss_kb * 1024 <= u128::MAX,
            old(self).total_rss@ + rss_kb * 1024 <= u128::MAX,
            old(self).total_swap@ + swap_kb * 1024 <= u128::MAX,
        ensures
            final(self).total_vss@ == old(self).total_vss@ + vss_kb * 1024,
            final(self).total_rss@ == old(self).total_rss@ + rss_kb * 1024,
            final(self).total_swap@ == old(self).total_swap@ + swap_kb * 1024,
            final(self).timestamp == old(self).timestamp,
            final(self).total_system_cpu_time == old(self).total_system_cpu_time,
            final(self).total_user_cpu_time == old(self).total_user_cpu_time,
            final(self).total_cpu_time == old(self).total_cpu_time,
            final(self).total_io_read == old(self).total_io_read,
            final(self).total_io_write == old(self).total_io_write,
            final(self).total_block_io_read == old(self).total_block_io_read,
            final(self).total_block_io_write == old(self).total_block_io_write,
            final(self).netstat == old(self).netstat,
    {
        self.total_vss.add_assign(DataCount::from_kb(vss_kb));
        self.total_rss.add_assign(DataCount::from_kb(rss_kb));
        self.total_swap.add_assign(DataCount::from_kb(swap_kb));
    }
}

/// One thread of a process.
#[derive(Debug, Clone, Copy, PartialEq, Eq, Structural)]
pub struct Thread {
    /// The ids as seen inside the namespace.
    pub tid: Tid,
    pub pid: Pid,
    /// The ids as the host sees them.
    pub real_tid: Tid,
    pub real_pid: Pid,
    pub stat: ThreadStat,
}

impl Thread {
    pub fn new(tid: Tid, pid: Pid, real_tid: Tid, real_pid: Pid) -> (r: Self)
        ensures
            r == (Thread { tid, pid, real_tid, real_pid, stat: ThreadStat::zero(r.stat.timestamp) }),
    {
        Self { tid, pid, real_tid, real_pid, stat: ThreadStat::new() }
    }

    pub fn get_tid(&self) -> (r: Tid)
        ensures
            r == self.tid,
    {
        self.tid
    }

    pub fn get_pid(&self) -> (r: Pid)
        ensures
            r == self.pid,
    {
        self.pid
    }

    pub fn get_real_tid(&self) -> (r: Tid)
        ensures
            r == self.real_tid,
    {
        self.real_tid
    }

    pub fn get_real_pid(&self) -> (r: Pid)
        ensures
            r == self.real_pid,
    {
        self.real_pid
    }

    /// The stat of a thread after the kernel has answered with the
    /// accounting `taskstats`: its times and I/O are those of the answer, and
    /// its whole CPU time is the sum of the time in the system and the time in
    /// user code.
    pub open spec fn updated(before: ThreadStat, taskstats: TaskStats) -> ThreadStat {
        ThreadStat {
            timestamp: before.timestamp,
            total_system_cpu_time: taskstats.system_cpu_time,
            total_user_cpu_time: taskstats.user_cpu_time,
            total_cpu_time: TimeCount((taskstats.system_cpu_time.0 + taskstats.user_cpu_time.0) as u128),
            total_io_read: taskstats.io_read,
            total_io_write: taskstats.io_write,
            total_block_io_read: taskstats.block_io_read,
            total_block_io_write: taskstats.block_io_write,
        }
    }

    /// Takes over the accounting that the kernel answered with for this
    /// thread, and returns a copy of the new stat.
    pub fn get_stat(&mut self, thread_taskstats: &TaskStats) -> (r: ThreadStat)
        requires
            thread_taskstats.system_cpu_time@ + thread_taskstats.user_cpu_time@ <= u128::MAX,
        ensures
            r == Self::updated(old(self).stat, *thread_taskstats),
            *final(self) == (Thread { stat: r, ..*old(self) }),
            r.total_cpu_time@ == r.total_system_cpu_time@ + r.total_user_cpu_time@,
    {
        self.stat.total_system_cpu_time = thread_taskstats.system_cpu_time;
        self.stat.total_user_cpu_time = thread_taskstats.user_cpu_time;
        self.stat.total_cpu_time = thread_taskstats.system_cpu_time.add(
            thread_taskstats.user_cpu_time,
        );
        self.stat.total_io_read = thread_taskstats.io_read;
        self.stat.total_io_write = thread_taskstats.io_write;
        self.stat.total_block_io_read = thread_taskstats.block_io_read;
        self.stat.total_block_io_write = thread_taskstats.block_io_write;
        self.stat
    }
}

/// The ids of a process: its process ids and its four user and group ids.
#[derive(Debug, Clone, Copy, PartialEq, Eq, Structural)]
pub struct ProcessIds {
    pub pid: Pid,
    pub parent_pid: Pid,
    pub uid: Uid,
    pub effective_uid: Uid,
    pub saved_uid: Uid,
    pub fs_uid: Uid,
    pub gid: Gid,
    pub effective_gid: Gid,
    pub saved_gid: Gid,
    pub fs_gid: Gid,
}

/// One process of a monitored target, as one cycle saw it.
#[derive(Debug)]
pub struct Process {
    /// The ids as seen inside the namespace.
    pub pid: Pid,
    pub parent_pid: Pid,
    pub uid: Uid,
    pub effective_uid: Uid,
    pub saved_uid: Uid,
    pub fs_uid: Uid,
    pub gid: Gid,
    pub effective_gid: Gid,
    pub saved_gid: Gid,
    pub fs_gid: Gid,
    /// The ids as the host sees them.
    pub real_pid: Pid,
    pub real_parent_pid: Pid,
    pub real_uid: Uid,
    pub real_effective_uid: Uid,
    pub real_saved_uid: Uid,
    pub real_fs_uid: Uid,
    pub real_gid: Gid,
    pub real_effective_gid: Gid,
    pub real_saved_gid: Gid,
    pub real_fs_gid: Gid,
    pub exec_path: String,
    pub command: String,
    /// What all the threads of the process used together.
    pub stat: ProcessStat,
    pub threads: Vec<Thread>,
    pub child_real_pid_list: Vec<Pid>,
}

impl Process {
    /// The ids of the process inside its namespace.
    pub open spec fn ids(self) -> ProcessIds {
        ProcessIds {
            pid: self.pid,
            parent_pid: self.parent_pid,
            uid: self.uid,
            effective_uid: self.effective_uid,
            saved_uid: self.saved_uid,
            fs_uid: self.fs_uid,
            gid: self.gid,
            effective_gid: self.effective_gid,
            saved_gid: self.saved_gid,
            fs_gid: self.fs_gid,
        }
    }

    /// The ids of the process as the host sees them.
    pub open spec fn real_ids(self) -> ProcessIds {
        ProcessIds {
            pid: self.real_pid,
            parent_pid: self.real_parent_pid,
            uid: self.real_uid,
            effective_uid: self.real_effective_uid,
            saved_uid: self.real_saved_uid,
            fs_uid: self.real_fs_uid,
            gid: self.real_gid,
            effective_gid: self.real_effective_gid,
            saved_gid: self.real_saved_gid,
            fs_gid: self.real_fs_gid,
        }
    }

    /// A process with the given identity, with nothing used yet, no thread and no child.
    pub fn new(
        pid: Pid,
        parent_pid: Pid,
        uid: Uid,
        effective_uid: Uid,
        saved_uid: Uid,
        fs_uid: Uid,
        gid: Gid,
        effective_gid: Gid,
        saved_gid: Gid,
        fs_gid: Gid,
        real_pid: Pid,
        real_parent_pid: Pid,
        real_uid: Uid,
        real_effective_uid: Uid,
        real_saved_uid: Uid,
        real_fs_uid: Uid,
        real_gid: Gid,
        real_effective_gid: Gid,
        real_saved_gid: Gid,
        real_fs_gid: Gid,
        exec_path: String,
        command: String,
    ) -> (r: Self)
        ensures
            r.ids() == (ProcessIds {
                pid,
                parent_pid,
                uid,
                effective_uid,
                saved_uid,
                fs_uid,
                gid,
                effective_gid,
                saved_gid,
                fs_gid,
            }),
            r.real_ids() == (ProcessIds {
                pid: real_pid,
                parent_pid: real_parent_pid,
                uid: real_uid,
                effective_uid: real_effective_uid,
                saved_uid: real_saved_uid,
                fs_uid: real_fs_uid,
                gid: real_gid,
                effective_gid: real_effective_gid,
                saved_gid: real_saved_gid,
                fs_gid: real_fs_gid,
            }),
            r.exec_path == exec_path,
            r.command == command,
            r.threads@.len() == 0,
            r.child_real_pid_list@.len() == 0,
            r.stat.netstat.wf(),
            r.stat.netstat.totals() == Totals::zero(),
            r.stat.netstat.interface_stats@.len() == 0,
            r.stat.total_cpu_time@ == 0 && r.stat.total_system_cpu_time@ == 0
                && r.stat.total_user_cpu_time@ == 0,
            r.stat.total_rss@ == 0 && r.stat.total_vss@ == 0 && r.stat.total_swap@ == 0,
            r.stat.total_io_read@ == 0 && r.stat.total_io_write@ == 0,
            r.stat.total_block_io_read@ == 0 && r.stat.total_block_io_write@ == 0,
    {
        Self {
            pid,
            parent_pid,
            uid,
            effective_uid,
            saved_uid,
            fs_uid,
            gid,
            effective_gid,
            saved_gid,
            fs_gid,
            real_pid,
            real_parent_pid,
            real_uid,
            real_effective_uid,
            real_saved_uid,
            real_fs_uid,
            real_gid,
            real_effective_gid,
            real_saved_gid,
            real_fs_gid,
            exec_path,
            command,
            stat: ProcessStat::new(),
            threads: Vec::new(),
            child_real_pid_list: Vec::new(),
        }
    }
}

#[derive(Debug)]
pub enum ProcessError {
    /// A failure of the operating system, by its message.
    IOErr(String),
    TaskstatsErr(TaskStatsError),
    ParseIntErr(ParseIntErrorKind),
    UIDMapErr,
    GIDMapErr,
    CommonErr(CommonError),
}


// ---------------------------------------------------------------------------
// User id maps

/// One line of the user id map of a namespace: `length` ids from
/// `uid_start` on inside the namespace stand for the ids from
/// `real_uid_start` on outside. Neither range holds its end: `uid_end` and
/// `real_uid_end` are the first ids past the ranges.
#[derive(Debug, Clone, Copy, PartialEq, Eq, Structural)]
pub struct UidMapEntry {
    pub uid_start: Uid,
    pub uid_end: Uid,
    pub real_uid_start: Uid,
    pub real_uid_end: Uid,
    pub length: usize,
}

impl UidMapEntry {
    /// Each end lies `length` after its start.
    pub open spec fn wf(&self) -> bool {
        &&& self.uid_end@ == self.uid_start@ + self.length
        &&& self.real_uid_end@ == self.real_uid_start@ + self.length
    }

    /// Tests whether the entry is well formed.
    pub fn is_wf(&self) -> (r: bool)
        ensures
            r == self.wf(),
    {
        let length = self.length as u128;
        self.uid_start.0 <= u128::MAX - length && self.uid_end.0 == self.uid_start.0 + length
            && self.real_uid_start.0 <= u128::MAX - length && self.real_uid_end.0
            == self.real_uid_start.0 + length
    }

    /// The entry with the given starts and length.
    pub open spec fn of(uid_start: nat, real_uid_start: nat, length: nat) -> UidMapEntry {
        UidMapEntry {
            uid_start: Uid(uid_start as u128),
            uid_end: Uid((uid_start + length) as u128),
            real_uid_start: Uid(real_uid_start as u128),
            real_uid_end: Uid((real_uid_start + length) as u128),
            length: length as usize,
        }
    }

    pub fn new(uid_start: Uid, real_uid_start: Uid, length: usize) -> (r: Self)
        requires
            uid_start@ + length <= u128::MAX,
            real_uid_start@ + length <= u128::MAX,
        ensures
            r == Self::of(uid_start@, real_uid_start@, length as nat),
            r.wf(),
    {
        Self {
            uid_start,
            uid_end: Uid(uid_start.0 + length as u128),
            real_uid_start,
            real_uid_end: Uid(real_uid_start.0 + length as u128),
            length,
        }
    }

    /// Whether the range outside the namespace holds `real_uid`.
    pub open spec fn covers(self, real_uid: Uid) -> bool {
        self.real_uid_start@ <= real_uid@ < self.real_uid_end@
    }

    /// The id inside the namespace that stands for `real_uid`.
    pub open spec fn mapped(self, real_uid: Uid) -> Uid {
        Uid((self.uid_start@ + real_uid@ - self.real_uid_start@) as u128)
    }

    /// Whether the ranges of the two entries meet, inside or outside the namespace.
    pub open spec fn overlaps(self, other: UidMapEntry) -> bool {
        ||| (self.uid_start@ < other.uid_end@ && other.uid_start@ < self.uid_end@)
        ||| (self.real_uid_start@ < other.real_uid_end@ && other.real_uid_start@
            < self.real_uid_end@)
    }

    /// Maps an id of the host into the namespace, if the entry covers it.
    pub fn map_to_uid(&self, real_uid: Uid) -> (r: Option<Uid>)
        requires
            self.wf(),
        ensures
            r == (if self.covers(real_uid) {
                Some(self.mapped(real_uid))
            } else {
                None
            }),
            r matches Some(uid) ==> self.uid_start@ <= uid@ < self.uid_end@,
    {
        if real_uid.0 >= self.real_uid_start.0 && real_uid.0 < self.real_uid_end.0 {
            Some(Uid(self.uid_start.0 + (real_uid.0 - self.real_uid_start.0)))
        } else {
            None
        }
    }

    fn meets(&self, other: &Self) -> (r: bool)
        ensures
            r == self.overlaps(*other),
    {
        (self.uid_start.0 < other.uid_end.0 && other.uid_start.0 < self.uid_end.0) || (
        self.real_uid_start.0 < other.real_uid_end.0 && other.real_uid_start.0
            < self.real_uid_end.0)
    }

    /// What a line of a map file says: three decimal numbers, the start
    /// inside the namespace, the start outside and a length above zero.
    pub open spec fn parsed(line: Seq<u8>) -> Option<UidMapEntry> {
        if tokens(line).len() != 3 {
            None
        } else {
            match (
                decimal_number(span_bytes(line, tokens(line)[0]), usize::MAX as nat),
                decimal_number(span_bytes(line, tokens(line)[1]), usize::MAX as nat),
                decimal_number(span_bytes(line, tokens(line)[2]), usize::MAX as nat),
            ) {
                (Ok(start), Ok(real_start), Ok(length)) => if length == 0 {
                    None
                } else {
                    Some(Self::of(start, real_start, length))
                },
                _ => None,
            }
        }
    }

    /// Reads one line of a map file.
    pub fn try_from(value: &str) -> (r: Result<Self, ProcessError>)
        ensures
            match r {
                Ok(entry) => Self::parsed(value.spec_bytes()) == Some(entry) && entry.wf(),
                Err(ProcessError::UIDMapErr) => Self::parsed(value.spec_bytes()) is None,
                Err(_) => false,
            },
    {
        Self::from_line(value.as_bytes())
    }

    /// [`Self::try_from`] on text held as bytes.
    pub fn from_line(line: &[u8]) -> (r: Result<Self, ProcessError>)
        ensures
            match r {
                Ok(entry) => Self::parsed(line@) == Some(entry) && entry.wf(),
                Err(ProcessError::UIDMapErr) => Self::parsed(line@) is None,
                Err(_) => false,
            },
    {
        let fields = split_whitespace(line);
        if fields.len() != 3 {
            return Err(ProcessError::UIDMapErr);
        }
        let first = fields[0];
        let second = fields[1];
        let third = fields[2];
        let start = match parse_decimal(slice_subrange(line, first.0, first.1), usize::MAX as u128) {
            Ok(v) => v,
            Err(_) => {
                return Err(ProcessError::UIDMapErr);
            },
        };
        let real_start = match parse_decimal(
            slice_subrange(line, second.0, second.1),
            usize::MAX as u128,
        ) {
            Ok(v) => v,
            Err(_) => {
                return Err(ProcessError::UIDMapErr);
            },
        };
        let length = match parse_decimal(slice_subrange(line, third.0, third.1), usize::MAX as u128) {
            Ok(v) => v,
            Err(_) => {
                return Err(ProcessError::UIDMapErr);
            },
        };
        if length == 0 {
            return Err(ProcessError::UIDMapErr);
        }
        Ok(Self::new(Uid(start), Uid(real_start), length as usize))
    }
}

/// The entries that the first `count` lines of a map file give, if each line
/// is an entry and no entry meets an earlier one.
pub open spec fn uid_entries_upto(text: Seq<u8>, count: int) -> Option<Seq<UidMapEntry>>
    decreases count,
{
    if count <= 0 {
        Some(Seq::empty())
    } else {
        match (
            uid_entries_upto(text, count - 1),
            UidMapEntry::parsed(span_bytes(text, lines(text)[count - 1])),
        ) {
            (Some(before), Some(entry)) => if exists|i: int|
                0 <= i < before.len() && entry.overlaps(#[trigger] before[i]) {
                None
            } else {
                Some(before.push(entry))
            },
            _ => None,
        }
    }
}

/// The position of the first entry that covers `real_uid`, from `from` on.
pub open spec fn uid_entry_position(entries: Seq<UidMapEntry>, real_uid: Uid, from: int) -> Option<int>
    decreases entries.len() - from,
{
    if from < 0 || from >= entries.len() {
        None
    } else if entries[from].covers(real_uid) {
        Some(from)
    } else {
        uid_entry_position(entries, real_uid, from + 1)
    }
}

/// The user id map of a namespace.
#[derive(Debug)]
pub struct UidMap {
    pub uid_map_entries: Vec<UidMapEntry>,
}

impl UidMap {
    /// Every entry is well formed, and no two entries meet, inside or outside the namespace.
    pub open spec fn wf(&self) -> bool {
        &&& forall|i: int| 0 <= i < self.uid_map_entries@.len() ==> (#[trigger] self.uid_map_entries@[i]).wf()
        &&& forall|i: int, j: int|
            0 <= i < j < self.uid_map_entries@.len() ==> !self.uid_map_entries@[j].overlaps(
                self.uid_map_entries@[i],
            )
    }

    /// Tests whether the map is well formed.
    pub fn is_wf(&self) -> (r: bool)
        ensures
            r == self.wf(),
    {
        let mut j: usize = 0;
        while j < self.uid_map_entries.len()
            invariant
                j <= self.uid_map_entries@.len(),
                forall|a: int| 0 <= a < j ==> (#[trigger] self.uid_map_entries@[a]).wf(),
                forall|a: int, b: int|
                    0 <= a < b < j ==> !self.uid_map_entries@[b].overlaps(self.uid_map_entries@[a]),
            decreases self.uid_map_entries.len() - j,
        {
            if !self.uid_map_entries[j].is_wf() {
                return false;
            }
            let mut i: usize = 0;
            while i < j
                invariant
                    i <= j < self.uid_map_entries@.len(),
                    forall|a: int|
                        0 <= a < i ==> !self.uid_map_entries@[j as int].overlaps(
                            self.uid_map_entries@[a],
                        ),
                decreases j - i,
            {
                if self.uid_map_entries[j].meets(&self.uid_map_entries[i]) {
                    return false;
                }
                i = i + 1;
            }
            j = j + 1;
        }
        true
    }

    pub fn new() -> (r: Self)
        ensures
            r.wf(),
            r.uid_map_entries@.len() == 0,
    {
        Self { uid_map_entries: Vec::new() }
    }

    /// Maps an id of the host into the namespace by the first entry that
    /// covers it. The id that comes out lies in the range of that entry.
    pub fn map_to_uid(&self, real_uid: Uid) -> (r: Option<Uid>)
        requires
            self.wf(),
        ensures
            r == (match uid_entry_position(self.uid_map_entries@, real_uid, 0) {
                Some(i) => Some(self.uid_map_entries@[i].mapped(real_uid)),
                None => None,
            }),
            r is None <==> forall|i: int|
                0 <= i < self.uid_map_entries@.len() ==> !(#[trigger] self.uid_map_entries@[i]).covers(
                    real_uid,
                ),
            r matches Some(uid) ==> exists|i: int|
                {
                    &&& 0 <= i < self.uid_map_entries@.len()
                    &&& (#[trigger] self.uid_map_entries@[i]).covers(real_uid)
                    &&& uid == self.uid_map_entries@[i].mapped(real_uid)
                    &&& self.uid_map_entries@[i].uid_start@ <= uid@ < self.uid_map_entries@[i].uid_end@
                },
    {
        let mut i: usize = 0;
        while i < self.uid_map_entries.len()
            invariant
                i <= self.uid_map_entries@.len(),
                self.wf(),
                uid_entry_position(self.uid_map_entries@, real_uid, 0) == uid_entry_position(
                    self.uid_map_entries@,
                    real_uid,
                    i as int,
                ),
                forall|j: int| 0 <= j < i ==> !(#[trigger] self.uid_map_entries@[j]).covers(real_uid),
            decreases self.uid_map_entries.len() - i,
        {
            match self.uid_map_entries[i].map_to_uid(real_uid) {
                Some(uid) => {
                    assert(self.uid_map_entries@[i as int].covers(real_uid));
                    return Some(uid);
                },
                None => {},
            }
            i = i + 1;
        }
        None
    }

    /// Reads a map file: one entry to the line. A line that is no entry, or
    /// an entry that meets an earlier one, refuses the whole map.
    pub fn try_from(value: &str) -> (r: Result<Self, ProcessError>)
        ensures
            match r {
                Ok(map) => map.wf() && uid_entries_upto(
                    value.spec_bytes(),
                    lines(value.spec_bytes()).len() as int,
                ) == Some(map.uid_map_entries@),
                Err(ProcessError::UIDMapErr) => uid_entries_upto(
                    value.spec_bytes(),
                    lines(value.spec_bytes()).len() as int,
                ) is None,
                Err(_) => false,
            },
    {
        Self::from_text(value.as_bytes())
    }

    /// [`Self::try_from`] on text held as bytes.
    pub fn from_text(text: &[u8]) -> (r: Result<Self, ProcessError>)
        ensures
            match r {
                Ok(map) => map.wf() && uid_entries_upto(text@, lines(text@).len() as int) == Some(
                    map.uid_map_entries@,
                ),
                Err(ProcessError::UIDMapErr) => uid_entries_upto(text@, lines(text@).len() as int) is None,
                Err(_) => false,
            },
    {
        let found = split_lines(text);
        let mut result = Self::new();
        let mut k: usize = 0;
        while k < found.len()
            invariant
                k <= found@.len(),
                crate::text::spans_are(found@, lines(text@)),
                forall|j: int|
                    0 <= j < found@.len() ==> (#[trigger] found@[j]).0 <= found@[j].1 <= text@.len(),
                result.wf(),
                uid_entries_upto(text@, k as int) == Some(result.uid_map_entries@),
            decreases found.len() - k,
        {
            let span = found[k];
            let entry = match UidMapEntry::from_line(slice_subrange(text, span.0, span.1)) {
                Ok(entry) => entry,
                Err(_) => {
                    proof {
                        assert(uid_entries_upto(text@, k + 1) is None);
                        lemma_uid_entries_stay_none(text@, k + 1, found@.len() as int);
                    }
                    return Err(ProcessError::UIDMapErr);
                },
            };
            let mut i: usize = 0;
            while i < result.uid_map_entries.len()
                invariant
                    i <= result.uid_map_entries@.len(),
                    k < found@.len(),
                    found@.len() == lines(text@).len(),
                    result.wf(),
                    entry.wf(),
                    uid_entries_upto(text@, k as int) == Some(result.uid_map_entries@),
                    UidMapEntry::parsed(span_bytes(text@, lines(text@)[k as int])) == Some(entry),
                    forall|j: int|
                        0 <= j < i ==> !entry.overlaps(#[trigger] result.uid_map_entries@[j]),
                decreases result.uid_map_entries.len() - i,
            {
                if entry.meets(&result.uid_map_entries[i]) {
                    proof {
                        assert(entry.overlaps(result.uid_map_entries@[i as int]));
                        assert(uid_entries_upto(text@, k + 1) is None);
                        lemma_uid_entries_stay_none(text@, k + 1, found@.len() as int);
                    }
                    return Err(ProcessError::UIDMapErr);
                }
                i = i + 1;
            }
            result.uid_map_entries.push(entry);
            k = k + 1;
        }
        Ok(result)
    }
}

/// Once the lines read so far refuse the map, the lines that follow do not mend it.
proof fn lemma_uid_entries_stay_none(text: Seq<u8>, from: int, to: int)
    requires
        0 <= from <= to,
        uid_entries_upto(text, from) is None,
    ensures
        uid_entries_upto(text, to) is None,
    decreases to - from,
{
    if from < to {
        lemma_uid_entries_stay_none(text, from, to - 1);
    }
}

// ---------------------------------------------------------------------------
// Group id maps

/// One line of the group id map of a namespace: `length` ids from
/// `gid_start` on inside the namespace stand for the ids from
/// `real_gid_start` on outside. Neither range holds its end: `gid_end` and
/// `real_gid_end` are the first ids past the ranges.
#[derive(Debug, Clone, Copy, PartialEq, Eq, Structural)]
pub struct GidMapEntry {
    pub gid_start: Gid,
    pub gid_end: Gid,
    pub real_gid_start: Gid,
    pub real_gid_end: Gid,
    pub length: usize,
}

impl GidMapEntry {
    /// Each end lies `length` after its start.
    pub open spec fn wf(&self) -> bool {
        &&& self.gid_end@ == self.gid_start@ + self.length
        &&& self.real_gid_end@ == self.real_gid_start@ + self.length
    }

    /// Tests whether the entry is well formed.
    pub fn is_wf(&self) -> (r: bool)
        ensures
            r == self.wf(),
    {
        let length = self.length as u128;
        self.gid_start.0 <= u128::MAX - length && self.gid_end.0 == self.gid_start.0 + length
            && self.real_gid_start.0 <= u128::MAX - length && self.real_gid_end.0
            == self.real_gid_start.0 + length
    }

    /// The entry with the given starts and length.
    pub open spec fn of(gid_start: nat, real_gid_start: nat, length: nat) -> GidMapEntry {
        GidMapEntry {
            gid_start: Gid(gid_start as u128),
            gid_end: Gid((gid_start + length) as u128),
            real_gid_start: Gid(real_gid_start as u128),
            real_gid_end: Gid((real_gid_start + length) as u128),
            length: length as usize,
        }
    }

    pub fn new(gid_start: Gid, real_gid_start: Gid, length: usize) -> (r: Self)
        requires
            gid_start@ + length <= u128::MAX,
            real_gid_start@ + length <= u128::MAX,
        ensures
            r == Self::of(gid_start@, real_gid_start@, length as nat),
            r.wf(),
    {
        Self {
            gid_start,
            gid_end: Gid(gid_start.0 + length as u128),
            real_gid_start,
            real_gid_end: Gid(real_gid_start.0 + length as u128),
            length,
        }
    }

    /// Whether the range outside the namespace holds `real_gid`.
    pub open spec fn covers(self, real_gid: Gid) -> bool {
        self.real_gid_start@ <= real_gid@ < self.real_gid_end@
    }

    /// The id inside the namespace that stands for `real_gid`.
    pub open spec fn mapped(self, real_gid: Gid) -> Gid {
        Gid((self.gid_start@ + real_gid@ - self.real_gid_start@) as u128)
    }

    /// Whether the ranges of the two entries meet, inside or outside the namespace.
    pub open spec fn overlaps(self, other: GidMapEntry) -> bool {
        ||| (self.gid_start@ < other.gid_end@ && other.gid_start@ < self.gid_end@)
        ||| (self.real_gid_start@ < other.real_gid_end@ && other.real_gid_start@
            < self.real_gid_end@)
    }

    /// Maps an id of the host into the namespace, if the entry covers it.
    pub fn map_to_gid(&self, real_gid: Gid) -> (r: Option<Gid>)
        requires
            self.wf(),
        ensures
            r == (if self.covers(real_gid) {
                Some(self.mapped(real_gid))
            } else {
                None
            }),
            r matches Some(gid) ==> self.gid_start@ <= gid@ < self.gid_end@,
    {
        if real_gid.0 >= self.real_gid_start.0 && real_gid.0 < self.real_gid_end.0 {
            Some(Gid(self.gid_start.0 + (real_gid.0 - self.real_gid_start.0)))
        } else {
            None
        }
    }

    fn meets(&self, other: &Self) -> (r: bool)
        ensures
            r == self.overlaps(*other),
    {
        (self.gid_start.0 < other.gid_end.0 && other.gid_start.0 < self.gid_end.0) || (
        self.real_gid_start.0 < other.real_gid_end.0 && other.real_gid_start.0
            < self.real_gid_end.0)
    }

    /// What a line of a map file says: three decimal numbers, the start
    /// inside the namespace, the start outside and a length above zero.
    pub open spec fn parsed(line: Seq<u8>) -> Option<GidMapEntry> {
        if tokens(line).len() != 3 {
            None
        } else {
            match (
                decimal_number(span_bytes(line, tokens(line)[0]), usize::MAX as nat),
                decimal_number(span_bytes(line, tokens(line)[1]), usize::MAX as nat),
                decimal_number(span_bytes(line, tokens(line)[2]), usize::MAX as nat),
            ) {
                (Ok(start), Ok(real_start), Ok(length)) => if length == 0 {
                    None
                } else {
                    Some(Self::of(start, real_start, length))
                },
                _ => None,
            }
        }
    }

    /// Reads one line of a map file.
    pub fn try_from(value: &str) -> (r: Result<Self, ProcessError>)
        ensures
            match r {
                Ok(entry) => Self::parsed(value.spec_bytes()) == Some(entry) && entry.wf(),
                Err(ProcessError::GIDMapErr) => Self::parsed(value.spec_bytes()) is None,
                Err(_) => false,
            },
    {
        Self::from_line(value.as_bytes())
    }

    /// [`Self::try_from`] on text held as bytes.
    pub fn from_line(line: &[u8]) -> (r: Result<Self, ProcessError>)
        ensures
            match r {
                Ok(entry) => Self::parsed(line@) == Some(entry) && entry.wf(),
                Err(ProcessError::GIDMapErr) => Self::parsed(line@) is None,
                Err(_) => false,
            },
    {
        let fields = split_whitespace(line);
        if fields.len() != 3 {
            return Err(ProcessError::GIDMapErr);
        }
        let first = fields[0];
        let second = fields[1];
        let third = fields[2];
        let start = match parse_decimal(slice_subrange(line, first.0, first.1), usize::MAX as u128) {
            Ok(v) => v,
            Err(_) => {
                return Err(ProcessError::GIDMapErr);
            },
        };
        let real_start = match parse_decimal(
            slice_subrange(line, second.0, second.1),
            usize::MAX as u128,
        ) {
            Ok(v) => v,
            Err(_) => {
                return Err(ProcessError::GIDMapErr);
            },
        };
        let length = match parse_decimal(slice_subrange(line, third.0, third.1), usize::MAX as u128) {
            Ok(v) => v,
            Err(_) => {
                return Err(ProcessError::GIDMapErr);
            },
        };
        if length == 0 {
            return Err(ProcessError::GIDMapErr);
        }
        Ok(Self::new(Gid(start), Gid(real_start), length as usize))
    }
}

/// The entries that the first `count` lines of a map file give, if each line
/// is an entry and no entry meets an earlier one.
pub open spec fn gid_entries_upto(text: Seq<u8>, count: int) -> Option<Seq<GidMapEntry>>
    decreases count,
{
    if count <= 0 {
        Some(Seq::empty())
    } else {
        match (
            gid_entries_upto(text, count - 1),
            GidMapEntry::parsed(span_bytes(text, lines(text)[count - 1])),
        ) {
            (Some(before), Some(entry)) => if exists|i: int|
                0 <= i < before.len() && entry.overlaps(#[trigger] before[i]) {
                None
            } else {
                Some(before.push(entry))
            },
            _ => None,
        }
    }
}

/// The position of the first entry that covers `real_gid`, from `from` on.
pub open spec fn gid_entry_position(entries: Seq<GidMapEntry>, real_gid: Gid, from: int) -> Option<int>
    decreases entries.len() - from,
{
    if from < 0 || from >= entries.len() {
        None
    } else if entries[from].covers(real_gid) {
        Some(from)
    } else {
        gid_entry_position(entries, real_gid, from + 1)
    }
}

/// The group id map of a namespace.
#[derive(Debug)]
pub struct GidMap {
    pub gid_map_entries: Vec<GidMapEntry>,
}

impl GidMap {
    /// Every entry is well formed, and no two entries meet, inside or outside the namespace.
    pub open spec fn wf(&self) -> bool {
        &&& forall|i: int| 0 <= i < self.gid_map_entries@.len() ==> (#[trigger] self.gid_map_entries@[i]).wf()
        &&& forall|i: int, j: int|
            0 <= i < j < self.gid_map_entries@.len() ==> !self.gid_map_entries@[j].overlaps(
                self.gid_map_entries@[i],
            )
    }

    /// Tests whether the map is well formed.
    pub fn is_wf(&self) -> (r: bool)
        ensures
            r == self.wf(),
    {
        let mut j: usize = 0;
        while j < self.gid_map_entries.len()
            invariant
                j <= self.gid_map_entries@.len(),
                forall|a: int| 0 <= a < j ==> (#[trigger] self.gid_map_entries@[a]).wf(),
                forall|a: int, b: int|
                    0 <= a < b < j ==> !self.gid_map_entries@[b].overlaps(self.gid_map_entries@[a]),
            decreases self.gid_map_entries.len() - j,
        {
            if !self.gid_map_entries[j].is_wf() {
                return false;
            }
            let mut i: usize = 0;
            while i < j
                invariant
                    i <= j < self.gid_map_entries@.len(),
                    forall|a: int|
                        0 <= a < i ==> !self.gid_map_entries@[j as int].overlaps(
                            self.gid_map_entries@[a],
                        ),
                decreases j - i,
            {
                if self.gid_map_entries[j].meets(&self.gid_map_entries[i]) {
                    return false;
                }
                i = i + 1;
            }
            j = j + 1;
        }
        true
    }

    pub fn new() -> (r: Self)
        ensures
            r.wf(),
            r.gid_map_entries@.len() == 0,
    {
        Self { gid_map_entries: Vec::new() }
    }

    /// Maps an id of the host into the namespace by the first entry that
    /// covers it. The id that comes out lies in the range of that entry.
    pub fn map_to_gid(&self, real_gid: Gid) -> (r: Option<Gid>)
        requires
            self.wf(),
        ensures
            r == (match gid_entry_position(self.gid_map_entries@, real_gid, 0) {
                Some(i) => Some(self.gid_map_entries@[i].mapped(real_gid)),
                None => None,
            }),
            r is None <==> forall|i: int|
                0 <= i < self.gid_map_entries@.len() ==> !(#[trigger] self.gid_map_entries@[i]).covers(
                    real_gid,
                ),
            r matches Some(gid) ==> exists|i: int|
                {
                    &&& 0 <= i < self.gid_map_entries@.len()
                    &&& (#[trigger] self.gid_map_entries@[i]).covers(real_gid)
                    &&& gid == self.gid_map_entries@[i].mapped(real_gid)
                    &&& self.gid_map_entries@[i].gid_start@ <= gid@ < self.gid_map_entries@[i].gid_end@
                },
    {
        let mut i: usize = 0;
        while i < self.gid_map_entries.len()
            invariant
                i <= self.gid_map_entries@.len(),
                self.wf(),
                gid_entry_position(self.gid_map_entries@, real_gid, 0) == gid_entry_position(
                    self.gid_map_entries@,
                    real_gid,
                    i as int,
                ),
                forall|j: int| 0 <= j < i ==> !(#[trigger] self.gid_map_entries@[j]).covers(real_gid),
            decreases self.gid_map_entries.len() - i,
        {
            match self.gid_map_entries[i].map_to_gid(real_gid) {
                Some(gid) => {
                    assert(self.gid_map_entries@[i as int].covers(real_gid));
                    return Some(gid);
                },
                None => {},
            }
            i = i + 1;
        }
        None
    }

    /// Reads a map file: one entry to the line. A line that is no entry, or
    /// an entry that meets an earlier one, refuses the whole map.
    pub fn try_from(value: &str) -> (r: Result<Self, ProcessError>)
        ensures
            match r {
                Ok(map) => map.wf() && gid_entries_upto(
                    value.spec_bytes(),
                    lines(value.spec_bytes()).len() as int,
                ) == Some(map.gid_map_entries@),
                Err(ProcessError::GIDMapErr) => gid_entries_upto(
                    value.spec_bytes(),
                    lines(value.spec_bytes()).len() as int,
                ) is None,
                Err(_) => false,
            },
    {
        Self::from_text(value.as_bytes())
    }

    /// [`Self::try_from`] on text held as bytes.
    pub fn from_text(text: &[u8]) -> (r: Result<Self, ProcessError>)
        ensures
            match r {
                Ok(map) => map.wf() && gid_entries_upto(text@, lines(text@).len() as int) == Some(
                    map.gid_map_entries@,
                ),
                Err(ProcessError::GIDMapErr) => gid_entries_upto(text@, lines(text@).len() as int) is None,
                Err(_) => false,
            },
    {
        let found = split_lines(text);
        let mut result = Self::new();
        let mut k: usize = 0;
        while k < found.len()
            invariant
                k <= found@.len(),
                crate::text::spans_are(found@, lines(text@)),
                forall|j: int|
                    0 <= j < found@.len() ==> (#[trigger] found@[j]).0 <= found@[j].1 <= text@.len(),
                result.wf(),
                gid_entries_upto(text@, k as int) == Some(result.gid_map_entries@),
            decreases found.len() - k,
        {
            let span = found[k];
            let entry = match GidMapEntry::from_line(slice_subrange(text, span.0, span.1)) {
                Ok(entry) => entry,
                Err(_) => {
                    proof {
                        assert(gid_entries_upto(text@, k + 1) is None);
                        lemma_gid_entries_stay_none(text@, k + 1, found@.len() as int);
                    }
                    return Err(ProcessError::GIDMapErr);
                },
            };
            let mut i: usize = 0;
            while i < result.gid_map_entries.len()
                invariant
                    i <= result.gid_map_entries@.len(),
                    k < found@.len(),
                    found@.len() == lines(text@).len(),
                    result.wf(),
                    entry.wf(),
                    gid_entries_upto(text@, k as int) == Some(result.gid_map_entries@),
                    GidMapEntry::parsed(span_bytes(text@, lines(text@)[k as int])) == Some(entry),
                    forall|j: int|
                        0 <= j < i ==> !entry.overlaps(#[trigger] result.gid_map_entries@[j]),
                decreases result.gid_map_entries.len() - i,
            {
                if entry.meets(&result.gid_map_entries[i]) {
                    proof {
                        assert(entry.overlaps(result.gid_map_entries@[i as int]));
                        assert(gid_entries_upto(text@, k + 1) is None);
                        lemma_gid_entries_stay_none(text@, k + 1, found@.len() as int);
                    }
                    return Err(ProcessError::GIDMapErr);
                }
                i = i + 1;
            }
            result.gid_map_entries.push(entry);
            k = k + 1;
        }
        Ok(result)
    }
}

/// Once the lines read so far refuse the map, the lines that follow do not mend it.
proof fn lemma_gid_entries_stay_none(text: Seq<u8>, from: int, to: int)
    requires
        0 <= from <= to,
        gid_entries_upto(text, from) is None,
    ensures
        gid_entries_upto(text, to) is None,
    decreases to - from,
{
    if from < to {
        lemma_gid_entries_stay_none(text, from, to - 1);
    }
}


// ---------------------------------------------------------------------------
// The files of /proc/<pid>

/// The line of a status file that names the parent.
pub const STATUS_PARENT_LINE: usize = 6;

/// The line of a status file with the four user ids.
pub const STATUS_UID_LINE: usize = 8;

/// The line of a status file with the four group ids.
pub const STATUS_GID_LINE: usize = 9;

/// The line of a status file with the process id in each namespace.
pub const STATUS_NAMESPACE_PID_LINE: usize = 12;

/// The line of a status file with the thread id in each namespace.
pub const STATUS_NAMESPACE_TID_LINE: usize = 13;

/// Which token of a line is meant.
#[derive(Debug, Clone, Copy, PartialEq, Eq, Structural)]
pub enum TokenAt {
    Index(usize),
    Last,
}

/// The token of the line of a text that is meant, if the text has the line and the line the token.
pub open spec fn field_bytes(text: Seq<u8>, line: int, token: TokenAt) -> Option<Seq<u8>> {
    match line_at(text, line) {
        None => None,
        Some(bytes) => match token {
            TokenAt::Index(k) => token_at(bytes, k as int),
            TokenAt::Last => last_token(bytes),
        },
    }
}

/// The decimal number of at most `max` in a field of a text. A field that is
/// not there reads as empty.
pub open spec fn field_number(text: Seq<u8>, line: int, token: TokenAt, max: nat) -> Result<
    nat,
    ParseIntErrorKind,
> {
    match field_bytes(text, line, token) {
        None => Err(ParseIntErrorKind::Empty),
        Some(bytes) => decimal_number(bytes, max),
    }
}

/// Reads the decimal number in a field of a text.
pub fn read_field(text: &[u8], line: usize, token: TokenAt, max: u128) -> (r: Result<
    u128,
    ParseIntErrorKind,
>)
    ensures
        r matches Ok(v) ==> v <= max && field_number(text@, line as int, token, max as nat) == Ok::<
            nat,
            ParseIntErrorKind,
        >(v as nat),
        r matches Err(kind) ==> field_number(text@, line as int, token, max as nat) == Err::<
            nat,
            ParseIntErrorKind,
        >(kind),
{
    let bytes = match nth_line(text, line) {
        Some(bytes) => bytes,
        None => {
            return Err(ParseIntErrorKind::Empty);
        },
    };
    let field = match token {
        TokenAt::Index(k) => nth_token(bytes, k),
        TokenAt::Last => final_token(bytes),
    };
    match field {
        Some(field) => parse_decimal(field, max),
        None => Err(ParseIntErrorKind::Empty),
    }
}

/// Why a field of a status file cannot be read.
#[derive(Debug, Clone, Copy, PartialEq, Eq, Structural)]
pub enum FieldRefusal {
    /// The line is not there, or does not start with the key that it should:
    /// the file is laid out otherwise than expected.
    Key,
    /// The line is the expected one, but the number in it cannot be read.
    Number(ParseIntErrorKind),
}

/// The decimal number of at most `max` in a field of a status file, on the
/// line that must start with `key`. A shifted layout is told apart from a bad
/// number, so that no other line is read in the place of the one meant.
pub open spec fn keyed_number(text: Seq<u8>, line: int, key: Seq<u8>, token: TokenAt, max: nat) -> Result<
    nat,
    FieldRefusal,
> {
    match line_at(text, line) {
        None => Err(FieldRefusal::Key),
        Some(bytes) => if token_at(bytes, 0) != Some(key) {
            Err(FieldRefusal::Key)
        } else {
            match field_number(text, line, token, max) {
                Ok(v) => Ok(v),
                Err(kind) => Err(FieldRefusal::Number(kind)),
            }
        },
    }
}

fn same_bytes(a: &[u8], b: &[u8]) -> (r: bool)
    ensures
        r == (a@ == b@),
{
    if a.len() != b.len() {
        return false;
    }
    let mut i: usize = 0;
    while i < a.len()
        invariant
            i <= a@.len(),
            a@.len() == b@.len(),
            forall|j: int| 0 <= j < i ==> a@[j] == b@[j],
        decreases a.len() - i,
    {
        if a[i] != b[i] {
            return false;
        }
        i = i + 1;
    }
    assert(a@ =~= b@);
    true
}

/// Reads the decimal number in a field of a status file, on the line that must start with `key`.
pub fn read_keyed_field(text: &[u8], line: usize, key: &str, token: TokenAt, max: u128) -> (r: Result<
    u128,
    FieldRefusal,
>)
    ensures
        r matches Ok(v) ==> v <= max && keyed_number(
            text@,
            line as int,
            key.spec_bytes(),
            token,
            max as nat,
        ) == Ok::<nat, FieldRefusal>(v as nat),
        r matches Err(refusal) ==> keyed_number(
            text@,
            line as int,
            key.spec_bytes(),
            token,
            max as nat,
        ) == Err::<nat, FieldRefusal>(refusal),
{
    let bytes = match nth_line(text, line) {
        Some(bytes) => bytes,
        None => {
            return Err(FieldRefusal::Key);
        },
    };
    match nth_token(bytes, 0) {
        Some(first) => {
            if !same_bytes(first, key.as_bytes()) {
                return Err(FieldRefusal::Key);
            }
        },
        None => {
            return Err(FieldRefusal::Key);
        },
    }
    match read_field(text, line, token, max) {
        Ok(v) => Ok(v),
        Err(kind) => Err(FieldRefusal::Number(kind)),
    }
}

/// Why the ids or the memory of a process cannot be read from its status file.
pub enum StatusRefusal {
    /// The line that should start with this key is not there or starts otherwise.
    Key(Seq<char>),
    /// A number cannot be read.
    Number(ParseIntErrorKind),
}

/// The refusal of a field as that of the file, for the given key.
pub open spec fn status_refusal(refusal: FieldRefusal, key: &str) -> StatusRefusal {
    match refusal {
        FieldRefusal::Key => StatusRefusal::Key(key@),
        FieldRefusal::Number(kind) => StatusRefusal::Number(kind),
    }
}

/// The refusal that an error of reading a status file stands for.
pub open spec fn status_refusal_of(e: ProcessError) -> Option<StatusRefusal> {
    match e {
        ProcessError::CommonErr(CommonError::ConvertErr(key)) => Some(StatusRefusal::Key(key@)),
        ProcessError::ParseIntErr(kind) => Some(StatusRefusal::Number(kind)),
        _ => None,
    }
}

/// What the result of reading a status file stands for.
pub open spec fn status_outcome<T>(r: Result<T, ProcessError>) -> Option<Result<T, StatusRefusal>> {
    match r {
        Ok(v) => Some(Ok(v)),
        Err(e) => match status_refusal_of(e) {
            Some(refusal) => Some(Err(refusal)),
            None => None,
        },
    }
}

fn status_error(refusal: FieldRefusal, key: &str) -> (r: ProcessError)
    ensures
        status_refusal_of(r) == Some(status_refusal(refusal, key)),
{
    match refusal {
        FieldRefusal::Key => ProcessError::CommonErr(CommonError::ConvertErr(key.to_owned())),
        FieldRefusal::Number(kind) => ProcessError::ParseIntErr(kind),
    }
}

/// A field of a status file under its key, with the refusal of the file.
pub open spec fn status_number(text: Seq<u8>, line: int, key: &str, token: TokenAt, max: nat) -> Result<
    nat,
    StatusRefusal,
> {
    match keyed_number(text, line, key.spec_bytes(), token, max) {
        Ok(v) => Ok(v),
        Err(refusal) => Err(status_refusal(refusal, key)),
    }
}

fn read_status_number(text: &[u8], line: usize, key: &str, token: TokenAt, max: u128) -> (r: Result<
    u128,
    ProcessError,
>)
    ensures
        r matches Ok(v) ==> v <= max && status_number(text@, line as int, key, token, max as nat)
            == Ok::<nat, StatusRefusal>(v as nat),
        r matches Err(e) ==> (status_refusal_of(e) matches Some(refusal) && status_number(
            text@,
            line as int,
            key,
            token,
            max as nat,
        ) == Err::<nat, StatusRefusal>(refusal)),
{
    match read_keyed_field(text, line, key, token, max) {
        Ok(v) => Ok(v),
        Err(refusal) => Err(status_error(refusal, key)),
    }
}

/// What the status file of a process says of who it is.
#[derive(Debug, Clone, Copy, PartialEq, Eq, Structural)]
pub struct StatusIds {
    /// The process id inside the innermost namespace; zero on a legacy kernel.
    pub pid: Pid,
    pub real_parent_pid: Pid,
    pub real_uid: Uid,
    pub real_effective_uid: Uid,
    pub real_saved_uid: Uid,
    pub real_fs_uid: Uid,
    pub real_gid: Gid,
    pub real_effective_gid: Gid,
    pub real_saved_gid: Gid,
    pub real_fs_gid: Gid,
}

/// The ids in the status file of the process `real_pid`. The process id in
/// the namespace is the last token of line 12, under the key `NStgid:`; the
/// parent the second token of line 6, under `PPid:`; the user and group ids
/// the four tokens after the keys `Uid:` and `Gid:` of lines 8 and 9. A legacy
/// kernel shows no namespace id, and process 1 has no parent: both read as
/// zero. The first field that cannot be read gives its refusal.
pub open spec fn status_ids(text: Seq<u8>, old_kernel: bool, real_pid: Pid) -> Result<
    StatusIds,
    StatusRefusal,
> {
    let big = u128::MAX as nat;
    let pid = if old_kernel {
        Ok(0nat)
    } else {
        status_number(text, STATUS_NAMESPACE_PID_LINE as int, "NStgid:", TokenAt::Last, big)
    };
    let parent = if real_pid == Pid(1) {
        Ok(0nat)
    } else {
        status_number(text, STATUS_PARENT_LINE as int, "PPid:", TokenAt::Index(1), big)
    };
    let uid = |k: usize| status_number(text, STATUS_UID_LINE as int, "Uid:", TokenAt::Index(k), big);
    let gid = |k: usize| status_number(text, STATUS_GID_LINE as int, "Gid:", TokenAt::Index(k), big);
    if pid is Err {
        Err(pid->Err_0)
    } else if parent is Err {
        Err(parent->Err_0)
    } else if uid(1) is Err {
        Err(uid(1)->Err_0)
    } else if uid(2) is Err {
        Err(uid(2)->Err_0)
    } else if uid(3) is Err {
        Err(uid(3)->Err_0)
    } else if uid(4) is Err {
        Err(uid(4)->Err_0)
    } else if gid(1) is Err {
        Err(gid(1)->Err_0)
    } else if gid(2) is Err {
        Err(gid(2)->Err_0)
    } else if gid(3) is Err {
        Err(gid(3)->Err_0)
    } else if gid(4) is Err {
        Err(gid(4)->Err_0)
    } else {
        Ok(
            StatusIds {
                pid: Pid(pid->Ok_0 as u128),
                real_parent_pid: Pid(parent->Ok_0 as u128),
                real_uid: Uid(uid(1)->Ok_0 as u128),
                real_effective_uid: Uid(uid(2)->Ok_0 as u128),
                real_saved_uid: Uid(uid(3)->Ok_0 as u128),
                real_fs_uid: Uid(uid(4)->Ok_0 as u128),
                real_gid: Gid(gid(1)->Ok_0 as u128),
                real_effective_gid: Gid(gid(2)->Ok_0 as u128),
                real_saved_gid: Gid(gid(3)->Ok_0 as u128),
                real_fs_gid: Gid(gid(4)->Ok_0 as u128),
            },
        )
    }
}

/// Reads the ids of a process from its status file.
#[verifier::rlimit(40)]
pub fn parse_status(text: &[u8], old_kernel: bool, real_pid: Pid) -> (r: Result<
    StatusIds,
    ProcessError,
>)
    ensures
        status_outcome(r) == Some(status_ids(text@, old_kernel, real_pid)),
{
    let pid = if old_kernel {
        0
    } else {
        match read_status_number(text, STATUS_NAMESPACE_PID_LINE, "NStgid:", TokenAt::Last, u128::MAX) {
            Ok(v) => v,
            Err(e) => {
                return Err(e);
            },
        }
    };
    let parent = if real_pid == Pid(1) {
        0
    } else {
        match read_status_number(text, STATUS_PARENT_LINE, "PPid:", TokenAt::Index(1), u128::MAX) {
            Ok(v) => v,
            Err(e) => {
                return Err(e);
            },
        }
    };
    let uid1 = match read_status_number(text, STATUS_UID_LINE, "Uid:", TokenAt::Index(1), u128::MAX) {
        Ok(v) => v,
        Err(e) => {
            return Err(e);
        },
    };
    let uid2 = match read_status_number(text, STATUS_UID_LINE, "Uid:", TokenAt::Index(2), u128::MAX) {
        Ok(v) => v,
        Err(e) => {
            return Err(e);
        },
    };
    let uid3 = match read_status_number(text, STATUS_UID_LINE, "Uid:", TokenAt::Index(3), u128::MAX) {
        Ok(v) => v,
        Err(e) => {
            return Err(e);
        },
    };
    let uid4 = match read_status_number(text, STATUS_UID_LINE, "Uid:", TokenAt::Index(4), u128::MAX) {
        Ok(v) => v,
        Err(e) => {
            return Err(e);
        },
    };
    let gid1 = match read_status_number(text, STATUS_GID_LINE, "Gid:", TokenAt::Index(1), u128::MAX) {
        Ok(v) => v,
        Err(e) => {
            return Err(e);
        },
    };
    let gid2 = match read_status_number(text, STATUS_GID_LINE, "Gid:", TokenAt::Index(2), u128::MAX) {
        Ok(v) => v,
        Err(e) => {
            return Err(e);
        },
    };
    let gid3 = match read_status_number(text, STATUS_GID_LINE, "Gid:", TokenAt::Index(3), u128::MAX) {
        Ok(v) => v,
        Err(e) => {
            return Err(e);
        },
    };
    let gid4 = match read_status_number(text, STATUS_GID_LINE, "Gid:", TokenAt::Index(4), u128::MAX) {
        Ok(v) => v,
        Err(e) => {
            return Err(e);
        },
    };
    Ok(
        StatusIds {
            pid: Pid(pid),
            real_parent_pid: Pid(parent),
            real_uid: Uid(uid1),
            real_effective_uid: Uid(uid2),
            real_saved_uid: Uid(uid3),
            real_fs_uid: Uid(uid4),
            real_gid: Gid(gid1),
            real_effective_gid: Gid(gid2),
            real_saved_gid: Gid(gid3),
            real_fs_gid: Gid(gid4),
        },
    )
}

/// The id of a process inside its namespace, from its status file: the last
/// token of line 12, under the key `NStgid:`.
pub open spec fn namespace_pid(status: Seq<u8>) -> Result<Pid, StatusRefusal> {
    match status_number(
        status,
        STATUS_NAMESPACE_PID_LINE as int,
        "NStgid:",
        TokenAt::Last,
        u128::MAX as nat,
    ) {
        Err(refusal) => Err(refusal),
        Ok(found) => Ok(Pid(found as u128)),
    }
}

/// Reads the id of a process inside its namespace from its status file.
pub fn parse_namespace_pid(status: &[u8]) -> (r: Result<Pid, ProcessError>)
    ensures
        status_outcome(r) == Some(namespace_pid(status@)),
{
    match read_status_number(status, STATUS_NAMESPACE_PID_LINE, "NStgid:", TokenAt::Last, u128::MAX) {
        Err(e) => Err(e),
        Ok(found) => Ok(Pid(found)),
    }
}

/// The id of the parent inside the namespace, from the status file of the
/// parent. A legacy kernel shows none, process 1 of the host has no parent,
/// and neither has the process that is number 1 in its namespace: all three
/// read as zero.
pub open spec fn namespace_parent(
    parent_status: Seq<u8>,
    old_kernel: bool,
    real_pid: Pid,
    pid: Pid,
) -> Result<Pid, StatusRefusal> {
    if old_kernel || real_pid == Pid(1) {
        Ok(Pid(0))
    } else {
        match namespace_pid(parent_status) {
            Err(refusal) => Err(refusal),
            Ok(found) => if pid != Pid(1) {
                Ok(found)
            } else {
                Ok(Pid(0))
            },
        }
    }
}

/// Reads the id of the parent inside the namespace from the parent's status file.
pub fn parse_namespace_parent(parent_status: &[u8], old_kernel: bool, real_pid: Pid, pid: Pid) -> (r:
    Result<Pid, ProcessError>)
    ensures
        status_outcome(r) == Some(namespace_parent(parent_status@, old_kernel, real_pid, pid)),
{
    if old_kernel || real_pid == Pid(1) {
        return Ok(Pid(0));
    }
    match parse_namespace_pid(parent_status) {
        Err(e) => Err(e),
        Ok(found) => if pid != Pid(1) {
            Ok(found)
        } else {
            Ok(Pid(0))
        },
    }
}

/// The lines of a status file with the virtual size, the resident size and
/// the swap: a legacy kernel has them four lines higher.
pub open spec fn memory_lines(old_kernel: bool) -> (int, int, int) {
    if old_kernel {
        (13, 17, 26)
    } else {
        (17, 21, 30)
    }
}

/// The memory of a process in kilobytes: virtual size, resident size and
/// swap, each the second token of its line, under the keys `VmSize:`,
/// `VmRSS:` and `VmSwap:`.
pub open spec fn status_memory(text: Seq<u8>, old_kernel: bool) -> Result<
    (nat, nat, nat),
    StatusRefusal,
> {
    let at = memory_lines(old_kernel);
    let vss = status_number(text, at.0, "VmSize:", TokenAt::Index(1), usize::MAX as nat);
    let rss = status_number(text, at.1, "VmRSS:", TokenAt::Index(1), usize::MAX as nat);
    let swap = status_number(text, at.2, "VmSwap:", TokenAt::Index(1), usize::MAX as nat);
    if vss is Err {
        Err(vss->Err_0)
    } else if rss is Err {
        Err(rss->Err_0)
    } else if swap is Err {
        Err(swap->Err_0)
    } else {
        Ok((vss->Ok_0, rss->Ok_0, swap->Ok_0))
    }
}

/// Reads the memory of a process from its status file.
pub fn parse_memory(text: &[u8], old_kernel: bool) -> (r: Result<(usize, usize, usize), ProcessError>)
    ensures
        match r {
            Ok(found) => status_memory(text@, old_kernel) == Ok::<(nat, nat, nat), StatusRefusal>(
                (found.0 as nat, found.1 as nat, found.2 as nat),
            ),
            Err(e) => (status_refusal_of(e) matches Some(refusal) && status_memory(text@, old_kernel)
                == Err::<(nat, nat, nat), StatusRefusal>(refusal)),
        },
{
    let at: (usize, usize, usize) = if old_kernel {
        (13, 17, 26)
    } else {
        (17, 21, 30)
    };
    let vss = match read_status_number(text, at.0, "VmSize:", TokenAt::Index(1), usize::MAX as u128) {
        Ok(v) => v,
        Err(e) => {
            return Err(e);
        },
    };
    let rss = match read_status_number(text, at.1, "VmRSS:", TokenAt::Index(1), usize::MAX as u128) {
        Ok(v) => v,
        Err(e) => {
            return Err(e);
        },
    };
    let swap = match read_status_number(text, at.2, "VmSwap:", TokenAt::Index(1), usize::MAX as u128) {
        Ok(v) => v,
        Err(e) => {
            return Err(e);
        },
    };
    Ok((vss as usize, rss as usize, swap as usize))
}

/// The id of a thread inside the namespace, from its status file: the last
/// token of line 13, under the key `NSpid:`; zero on a legacy kernel.
pub open spec fn namespace_tid(text: Seq<u8>, old_kernel: bool) -> Result<Tid, StatusRefusal> {
    if old_kernel {
        Ok(Tid(0))
    } else {
        match status_number(
            text,
            STATUS_NAMESPACE_TID_LINE as int,
            "NSpid:",
            TokenAt::Last,
            u128::MAX as nat,
        ) {
            Err(refusal) => Err(refusal),
            Ok(found) => Ok(Tid(found as u128)),
        }
    }
}

/// Reads the id of a thread inside the namespace from its status file.
pub fn parse_namespace_tid(text: &[u8], old_kernel: bool) -> (r: Result<Tid, ProcessError>)
    ensures
        status_outcome(r) == Some(namespace_tid(text@, old_kernel)),
{
    if old_kernel {
        return Ok(Tid(0));
    }
    match read_status_number(text, STATUS_NAMESPACE_TID_LINE, "NSpid:", TokenAt::Last, u128::MAX) {
        Err(e) => Err(e),
        Ok(found) => Ok(Tid(found)),
    }
}

/// What the link of a socket descriptor starts with.
pub open spec fn socket_prefix() -> Seq<u8> {
    seq![0x73u8, 0x6f, 0x63, 0x6b, 0x65, 0x74, 0x3a, 0x5b]
}

/// The inode of the socket that the link of a descriptor names: the link is
/// `socket:[`, a decimal number and one closing byte. Any other link names none.
pub open spec fn socket_inode_of(link: Seq<u8>) -> Option<Inode> {
    if link.len() > 9 && link.subrange(0, 8) == socket_prefix() {
        match decimal_number(link.subrange(8, link.len() - 1), u128::MAX as nat) {
            Ok(inode) => Some(Inode(inode as u128)),
            Err(_) => None,
        }
    } else {
        None
    }
}

/// Reads the inode of a socket from the link of a descriptor.
pub fn socket_inode(link: &[u8]) -> (r: Option<Inode>)
    ensures
        r == socket_inode_of(link@),
{
    if link.len() <= 9 {
        return None;
    }
    let head = slice_subrange(link, 0, 8);
    if !(head[0] == 0x73 && head[1] == 0x6f && head[2] == 0x63 && head[3] == 0x6b && head[4] == 0x65
        && head[5] == 0x74 && head[6] == 0x3a && head[7] == 0x5b) {
        assert(link@.subrange(0, 8) != socket_prefix()) by {
            if link@.subrange(0, 8) == socket_prefix() {
                assert(forall|i: int| 0 <= i < 8 ==> head@[i] == socket_prefix()[i]);
            }
        }
        return None;
    }
    assert(link@.subrange(0, 8) =~= socket_prefix());
    match parse_decimal(slice_subrange(link, 8, link.len() - 1), u128::MAX) {
        Ok(inode) => Some(Inode(inode)),
        Err(_) => None,
    }
}

/// The children that the first `count` tokens of a children file name.
pub open spec fn children_upto(text: Seq<u8>, count: int) -> Result<Seq<Pid>, ParseIntErrorKind>
    decreases count,
{
    if count <= 0 {
        Ok(Seq::empty())
    } else {
        match children_upto(text, count - 1) {
            Err(kind) => Err(kind),
            Ok(before) => match decimal_number(
                span_bytes(text, tokens(text)[count - 1]),
                u128::MAX as nat,
            ) {
                Err(kind) => Err(kind),
                Ok(child) => Ok(before.push(Pid(child as u128))),
            },
        }
    }
}

/// The children that a children file names, in order: its
/// whitespace-separated tokens, each a decimal id. The first token that is
/// none gives its error.
pub open spec fn children_of(text: Seq<u8>) -> Result<Seq<Pid>, ParseIntErrorKind> {
    children_upto(text, tokens(text).len() as int)
}

proof fn lemma_children_stay_err(text: Seq<u8>, from: int, to: int)
    requires
        0 <= from <= to,
        children_upto(text, from) is Err,
    ensures
        children_upto(text, to) == children_upto(text, from),
    decreases to - from,
{
    if from < to {
        lemma_children_stay_err(text, from, to - 1);
    }
}

/// Reads the list of children of a process.
pub fn parse_children(text: &[u8]) -> (r: Result<Vec<Pid>, ProcessError>)
    ensures
        match r {
            Ok(children) => children_of(text@) == Ok::<Seq<Pid>, ParseIntErrorKind>(children@),
            Err(ProcessError::ParseIntErr(kind)) => children_of(text@) == Err::<
                Seq<Pid>,
                ParseIntErrorKind,
            >(kind),
            Err(_) => false,
        },
{
    let found = split_whitespace(text);
    let mut children: Vec<Pid> = Vec::new();
    let mut k: usize = 0;
    while k < found.len()
        invariant
            k <= found@.len(),
            crate::text::spans_are(found@, tokens(text@)),
            forall|j: int|
                0 <= j < found@.len() ==> (#[trigger] found@[j]).0 < found@[j].1 <= text@.len(),
            children_upto(text@, k as int) == Ok::<Seq<Pid>, ParseIntErrorKind>(children@),
        decreases found.len() - k,
    {
        let span = found[k];
        match parse_decimal(slice_subrange(text, span.0, span.1), u128::MAX) {
            Ok(child) => {
                children.push(Pid(child));
            },
            Err(kind) => {
                proof {
                    assert(children_upto(text@, k + 1) == Err::<Seq<Pid>, ParseIntErrorKind>(kind));
                    lemma_children_stay_err(text@, k + 1, found@.len() as int);
                }
                return Err(ProcessError::ParseIntErr(kind));
            },
        }
        k = k + 1;
    }
    Ok(children)
}

/// Whether `pid` is among `pids`.
pub fn contains_pid(pids: &Vec<Pid>, pid: Pid) -> (r: bool)
    ensures
        r == pids@.contains(pid),
{
    let mut i: usize = 0;
    while i < pids.len()
        invariant
            i <= pids@.len(),
            forall|j: int| 0 <= j < i ==> pids@[j] != pid,
        decreases pids.len() - i,
    {
        if pids[i] == pid {
            return true;
        }
        i = i + 1;
    }
    false
}

/// The real process ids of the processes on the stack of a walk.
pub open spec fn stacked_pids(stack: Seq<Process>) -> Seq<Pid> {
    stack.map_values(|process: Process| process.real_pid)
}

/// The children that a walk of the process tree has yet to load: those that
/// were not walked, that do not wait on the stack and that did not come
/// earlier among the children, in order.
pub open spec fn to_visit(children: Seq<Pid>, iterated: Seq<Pid>, stacked: Seq<Pid>) -> Seq<Pid>
    decreases children.len(),
{
    if children.len() == 0 {
        Seq::empty()
    } else {
        let before = to_visit(children.drop_last(), iterated, stacked);
        let child = children.last();
        if iterated.contains(child) || stacked.contains(child) || before.contains(child) {
            before
        } else {
            before.push(child)
        }
    }
}

/// What is left to visit are children, none of which was walked or waits on
/// the stack, and none of which comes twice.
pub proof fn lemma_to_visit(children: Seq<Pid>, iterated: Seq<Pid>, stacked: Seq<Pid>)
    ensures
        forall|i: int|
            0 <= i < to_visit(children, iterated, stacked).len() ==> {
                let child = #[trigger] to_visit(children, iterated, stacked)[i];
                children.contains(child) && !iterated.contains(child) && !stacked.contains(child)
            },
        forall|i: int, j: int|
            0 <= i < j < to_visit(children, iterated, stacked).len() ==> to_visit(
                children,
                iterated,
                stacked,
            )[i] != to_visit(children, iterated, stacked)[j],
        forall|k: int|
            0 <= k < children.len() && !iterated.contains(children[k]) && !stacked.contains(
                children[k],
            ) ==> to_visit(children, iterated, stacked).contains(#[trigger] children[k]),
    decreases children.len(),
{
    if children.len() > 0 {
        let shorter = children.drop_last();
        let before = to_visit(shorter, iterated, stacked);
        let after = to_visit(children, iterated, stacked);
        let child = children.last();
        lemma_to_visit(shorter, iterated, stacked);
        assert forall|i: int| 0 <= i < after.len() implies {
            let c = #[trigger] after[i];
            children.contains(c) && !iterated.contains(c) && !stacked.contains(c)
        } by {
            if i < before.len() {
                let c = before[i];
                let k = choose|k: int| 0 <= k < shorter.len() && shorter[k] == c;
                assert(children[k] == c);
            } else {
                assert(children[children.len() - 1] == child);
            }
        }
        assert forall|k: int|
            0 <= k < children.len() && !iterated.contains(children[k]) && !stacked.contains(
                children[k],
            ) implies after.contains(#[trigger] children[k]) by {
            if k < shorter.len() {
                assert(shorter[k] == children[k]);
                let at = choose|at: int| 0 <= at < before.len() && before[at] == shorter[k];
                assert(after[at] == children[k]);
            } else if before.contains(child) {
                let at = choose|at: int| 0 <= at < before.len() && before[at] == child;
                assert(after[at] == child);
            } else {
                assert(after[after.len() - 1] == child);
            }
        }
    }
}

/// Whether a walk stands well: no process waits twice on the stack, none
/// that waits there was walked, and none was walked twice.
pub open spec fn walk_stands(stacked: Seq<Pid>, iterated: Seq<Pid>) -> bool {
    &&& stacked.no_duplicates()
    &&& iterated.no_duplicates()
    &&& forall|i: int| 0 <= i < stacked.len() ==> !iterated.contains(#[trigger] stacked[i])
}

/// A walk that stands well still does after a step, whichever of the
/// children that the step gave are then put on the stack, each once. So a
/// walk that starts from one process walks no process twice.
pub proof fn lemma_walk_step(
    stacked: Seq<Pid>,
    iterated: Seq<Pid>,
    children: Seq<Pid>,
    loaded: Seq<Pid>,
)
    requires
        walk_stands(stacked, iterated),
        stacked.len() > 0,
        loaded.no_duplicates(),
        forall|i: int|
            0 <= i < loaded.len() ==> to_visit(
                children,
                iterated.push(stacked.last()),
                stacked.drop_last(),
            ).contains(#[trigger] loaded[i]),
    ensures
        walk_stands(stacked.drop_last() + loaded, iterated.push(stacked.last())),
{
    let top = stacked.last();
    let rest = stacked.drop_last();
    let walked = iterated.push(top);
    let kids = to_visit(children, walked, rest);
    let next = rest + loaded;
    lemma_to_visit(children, walked, rest);
    assert forall|i: int| 0 <= i < next.len() implies !walked.contains(#[trigger] next[i]) by {
        if i < rest.len() {
            assert(next[i] == stacked[i]);
            assert(!iterated.contains(stacked[i]));
            assert(stacked[i] != stacked[stacked.len() - 1]);
            if walked.contains(next[i]) {
                let k = choose|k: int| 0 <= k < walked.len() && walked[k] == next[i];
                if k < iterated.len() {
                    assert(iterated[k] == next[i]);
                }
            }
        } else {
            let child = loaded[i - rest.len()];
            assert(kids.contains(child));
            let k = choose|k: int| 0 <= k < kids.len() && kids[k] == child;
            assert(!walked.contains(kids[k]));
        }
    }
    assert forall|i: int, j: int| 0 <= i < next.len() && 0 <= j < next.len() && i != j implies next[i]
        != next[j] by {
        if i < rest.len() && j < rest.len() {
            assert(next[i] == stacked[i] && next[j] == stacked[j]);
        } else if i >= rest.len() && j >= rest.len() {
            assert(next[i] == loaded[i - rest.len()] && next[j] == loaded[j - rest.len()]);
        } else {
            let (low, high) = if i < j {
                (i, j)
            } else {
                (j, i)
            };
            let child = loaded[high - rest.len()];
            assert(kids.contains(child));
            let k = choose|k: int| 0 <= k < kids.len() && kids[k] == child;
            assert(!rest.contains(kids[k]));
            assert(rest[low] == next[low]);
        }
    }
    assert forall|i: int, j: int|
        0 <= i < walked.len() && 0 <= j < walked.len() && i != j implies walked[i] != walked[j] by {
        assert(!iterated.contains(stacked[stacked.len() - 1]));
        if i < iterated.len() && j < iterated.len() {
            assert(walked[i] == iterated[i] && walked[j] == iterated[j]);
        } else if i < iterated.len() {
            assert(iterated[i] == walked[i]);
        } else {
            assert(iterated[j] == walked[j]);
        }
    }
}

/// Whether a process with the real id `pid` waits on the stack.
pub fn on_stack(stack: &Vec<Process>, pid: Pid) -> (r: bool)
    ensures
        r == stacked_pids(stack@).contains(pid),
{
    let mut i: usize = 0;
    while i < stack.len()
        invariant
            i <= stack@.len(),
            forall|j: int| 0 <= j < i ==> stacked_pids(stack@)[j] != pid,
        decreases stack.len() - i,
    {
        if stack[i].real_pid == pid {
            assert(stacked_pids(stack@)[i as int] == pid);
            return true;
        }
        i = i + 1;
    }
    false
}

/// One step of the walk of a process tree. With nothing on the stack the
/// walk is over. Otherwise the process on top leaves the stack and is marked
/// as walked, and comes back with the children that are to be loaded and put
/// on the stack: those that were not walked and do not wait there already,
/// each once. So no process is walked twice, however often it is named as a
/// child.
pub fn walk_step(stack: &mut Vec<Process>, iterated: &mut Vec<Pid>) -> (r: Option<
    (Process, Vec<Pid>),
>)
    ensures
        old(stack)@.len() == 0 ==> r is None && final(stack)@ == old(stack)@ && final(iterated)@
            == old(iterated)@,
        old(stack)@.len() > 0 ==> (r matches Some((process, children)) && process == old(
            stack,
        )@.last() && final(stack)@ == old(stack)@.drop_last() && final(iterated)@ == old(
            iterated,
        )@.push(process.real_pid) && children@ == to_visit(
            process.child_real_pid_list@,
            final(iterated)@,
            stacked_pids(final(stack)@),
        )),
{
    let process = match stack.pop() {
        None => {
            return None;
        },
        Some(process) => process,
    };
    iterated.push(process.real_pid);
    let mut children: Vec<Pid> = Vec::new();
    let mut i: usize = 0;
    assert(process.child_real_pid_list@.subrange(0, 0) =~= Seq::<Pid>::empty());
    while i < process.child_real_pid_list.len()
        invariant
            i <= process.child_real_pid_list@.len(),
            children@ == to_visit(
                process.child_real_pid_list@.subrange(0, i as int),
                iterated@,
                stacked_pids(stack@),
            ),
        decreases process.child_real_pid_list.len() - i,
    {
        let child = process.child_real_pid_list[i];
        proof {
            let upto = process.child_real_pid_list@.subrange(0, i + 1);
            assert(upto.drop_last() =~= process.child_real_pid_list@.subrange(0, i as int));
            assert(upto.last() == child);
        }
        if !contains_pid(iterated, child) && !on_stack(stack, child) && !contains_pid(
            &children,
            child,
        ) {
            children.push(child);
        }
        i = i + 1;
    }
    assert(process.child_real_pid_list@.subrange(0, process.child_real_pid_list@.len() as int)
        =~= process.child_real_pid_list@);
    Some((process, children))
}


// ---------------------------------------------------------------------------
// The correlator

/// What became of a socket that was looked up in a snapshot.
#[derive(Debug, Clone, Copy, PartialEq, Eq, Structural)]
pub enum Attribution {
    /// The snapshot knows no connection for the inode, or no interface for
    /// the connection, or has no flows of that interface.
    Unknown,
    /// The flows of the connection were added to the traffic of the process.
    Attributed,
    /// Adding the flows would take a counter past 128 bits; nothing was changed.
    TooLarge,
}

/// The way from a socket to its flows in a snapshot: the connection of the
/// inode, the name of the interface of the connection, and the position of
/// the flows of that interface.
pub open spec fn socket_route(raw: NetworkRawStat, inode: Inode) -> Option<(Connection, Seq<char>, int)> {
    match connection_of(raw.conn_lookup_table@, inode) {
        None => None,
        Some(connection) => match interface_name_of(raw.iname_lookup_table@, connection) {
            None => None,
            Some(iname) => match irawstat_position(raw.irawstats@, iname, 0) {
                None => None,
                Some(i) => Some((connection, iname, i)),
            },
        },
    }
}

/// The stat of a flow in a table, or a stat of nothing for a flow that the table lacks.
pub open spec fn flow_or_zero(
    flows: Map<UniConnection, UniConnectionStat>,
    key: UniConnection,
) -> UniConnectionStat {
    if flows.contains_key(key) {
        flows[key]
    } else {
        UniConnectionStat {
            uni_conn: key,
            packet_count: Count(0),
            total_data_count: DataCount(0),
            real_data_count: DataCount(0),
            is_used: false,
        }
    }
}

/// A table of flows with the flow `key` marked as used, if the table has it.
pub open spec fn flow_marked(
    flows: Map<UniConnection, UniConnectionStat>,
    key: UniConnection,
) -> Map<UniConnection, UniConnectionStat> {
    if flows.contains_key(key) {
        flows.insert(key, UniConnectionStat { is_used: true, ..flows[key] })
    } else {
        flows
    }
}

/// What a connection sent and received according to a table of flows: the
/// outbound flow is what it sent, the inbound flow what it received.
pub open spec fn connection_traffic(
    flows: Map<UniConnection, UniConnectionStat>,
    connection: Connection,
) -> ConnectionStat {
    ConnectionStat::of_flows(
        connection,
        flow_or_zero(flows, connection.outbound()),
        flow_or_zero(flows, connection.inbound()),
    )
}

/// Attributes the socket with the given inode to a process: its connection is
/// looked up in the snapshot, the flows of its two directions are marked as
/// used, and what they counted is added to the traffic of the process under
/// the interface of the connection.
pub fn attribute_socket(net_rawstat: &mut NetworkRawStat, netstat: &mut NetworkStat, inode: &Inode) -> (r:
    Attribution)
    requires
        old(net_rawstat).wf(),
        old(netstat).wf(),
    ensures
        final(net_rawstat).wf(),
        final(netstat).wf(),
        final(net_rawstat).conn_lookup_table == old(net_rawstat).conn_lookup_table,
        final(net_rawstat).iname_lookup_table == old(net_rawstat).iname_lookup_table,
        final(net_rawstat).irawstats@.len() == old(net_rawstat).irawstats@.len(),
        match socket_route(*old(net_rawstat), *inode) {
            None => r == Attribution::Unknown,
            Some((connection, iname, i)) => {
                let flows = old(net_rawstat).irawstats@[i].uni_conn_stats@;
                let traffic = connection_traffic(flows, connection);
                if old(netstat).totals().plus(traffic.totals()).fits() {
                    &&& r == Attribution::Attributed
                    &&& final(netstat).totals() == old(netstat).totals().plus(traffic.totals())
                    &&& interfaces_entered(
                        old(netstat).interface_stats@,
                        final(netstat).interface_stats@,
                        iname,
                        traffic,
                    )
                    &&& final(net_rawstat).irawstats@[i].uni_conn_stats@ == flow_marked(
                        flow_marked(flows, connection.outbound()),
                        connection.inbound(),
                    )
                    &&& final(net_rawstat).irawstats@[i].iname == old(net_rawstat).irawstats@[i].iname
                    &&& final(net_rawstat).irawstats@[i].description == old(net_rawstat).irawstats@[i].description
                    &&& forall|j: int|
                        0 <= j < old(net_rawstat).irawstats@.len() && j != i ==> (#[trigger] final(net_rawstat).irawstats@[j]) == old(net_rawstat).irawstats@[j]
                } else {
                    r == Attribution::TooLarge
                }
            },
        },
        r != Attribution::Attributed ==> final(net_rawstat).irawstats@ == old(net_rawstat).irawstats@
            && final(netstat).totals() == old(netstat).totals() && final(netstat).interface_stats@
            == old(netstat).interface_stats@,
{
    let connection = match net_rawstat.lookup_connection(inode) {
        Some(connection) => connection,
        None => {
            return Attribution::Unknown;
        },
    };
    let iname: String = match net_rawstat.lookup_interface_name(&connection) {
        Some(name) => name.to_owned(),
        None => {
            return Attribution::Unknown;
        },
    };
    let outbound = connection.to_outbound();
    let inbound = connection.to_inbound();
    let ghost before = net_rawstat.irawstats@;
    match net_rawstat.get_irawstat(&iname) {
        None => Attribution::Unknown,
        Some(found) => {
            let ghost at = irawstat_position(before, iname@, 0)->Some_0;
            let ghost flows = found.uni_conn_stats@;
            assert(before[at].wf());
            let sent = match found.uni_conn_stats.get(&outbound) {
                Some(stat) => stat,
                None => UniConnectionStat::new(outbound),
            };
            let recv = match found.uni_conn_stats.get(&inbound) {
                Some(stat) => stat,
                None => UniConnectionStat::new(inbound),
            };
            let traffic = ConnectionStat::from_flows(connection, &sent, &recv);
            assert(traffic == connection_traffic(flows, connection));
            if !netstat.can_add(&traffic) {
                assert(*found == before[at]);
                assert(before.update(at, *found) =~= before);
                return Attribution::TooLarge;
            }
            let _ = found.get_uni_conn_stat(&outbound);
            let _ = found.get_uni_conn_stat(&inbound);
            netstat.add_connection_stat(iname.as_str(), traffic);
            Attribution::Attributed
        },
    }
}

impl Process {
    /// Whether this is the process `before` with `thread` added: what the
    /// thread used is added to what the process used, the thread comes at the
    /// end of the list, and the rest of the process is as it was.
    pub open spec fn has_gained(self, before: Process, thread: Thread) -> bool {
        &&& self.threads@ == before.threads@.push(thread)
        &&& self.stat.total_system_cpu_time@ == before.stat.total_system_cpu_time@
            + thread.stat.total_system_cpu_time@
        &&& self.stat.total_user_cpu_time@ == before.stat.total_user_cpu_time@
            + thread.stat.total_user_cpu_time@
        &&& self.stat.total_cpu_time@ == before.stat.total_cpu_time@
            + thread.stat.total_cpu_time@
        &&& self.stat.total_io_read@ == before.stat.total_io_read@
            + thread.stat.total_io_read@
        &&& self.stat.total_io_write@ == before.stat.total_io_write@
            + thread.stat.total_io_write@
        &&& self.stat.total_block_io_read@ == before.stat.total_block_io_read@
            + thread.stat.total_block_io_read@
        &&& self.stat.total_block_io_write@ == before.stat.total_block_io_write@
            + thread.stat.total_block_io_write@
        &&& self.stat.netstat == before.stat.netstat
        &&& self.stat.total_rss == before.stat.total_rss
        &&& self.stat.total_vss == before.stat.total_vss
        &&& self.stat.total_swap == before.stat.total_swap
        &&& self.ids() == before.ids()
        &&& self.real_ids() == before.real_ids()
        &&& self.exec_path == before.exec_path
        &&& self.command == before.command
        &&& self.child_real_pid_list == before.child_real_pid_list
        &&& self.stat.timestamp == before.stat.timestamp
    }

    /// Adds a thread to the process: what the thread used is added to what
    /// the process used, and the thread comes at the end of the list.
    pub fn add_thread(&mut self, thread: Thread)
        requires
            old(self).stat.thread_fits(thread.stat),
        ensures
            final(self).has_gained(*old(self), thread),
    {
        self.stat.add_thread_stat(thread.stat);
        self.threads.push(thread);
    }

    /// The thread as it stands once the kernel has answered for it.
    pub open spec fn answered(thread: Thread, taskstats: TaskStats) -> Thread {
        Thread { stat: Thread::updated(thread.stat, taskstats), ..thread }
    }

    /// Whether the accounting of a thread can be taken without passing 128 bits.
    pub open spec fn answer_fits(self, thread: Thread, taskstats: TaskStats) -> bool {
        &&& taskstats.system_cpu_time@ + taskstats.user_cpu_time@ <= u128::MAX
        &&& self.stat.thread_fits(Thread::updated(thread.stat, taskstats))
    }

    /// Whether [`Self::take_thread`] accepts the thread with this answer.
    pub fn can_take_thread(&self, thread: &Thread, answer: &Result<TaskStats, TaskStatsError>) -> (r:
        bool)
        ensures
            r == (*answer matches Ok(taskstats) ==> self.answer_fits(*thread, taskstats)),
    {
        match answer {
            Err(_) => true,
            Ok(taskstats) => {
                if !taskstats.system_cpu_time.can_add(taskstats.user_cpu_time) {
                    return false;
                }
                let mut answered = *thread;
                let stat = answered.get_stat(taskstats);
                self.stat.can_add_thread_stat(&stat)
            },
        }
    }

    /// Takes a thread of the process with what the kernel answered for it.
    /// With an answer the thread gets its accounting and joins the process,
    /// as [`Self::add_thread`] says; where the kernel failed, the thread is
    /// left out and the process stays as it was.
    pub fn take_thread(&mut self, thread: Thread, answer: Result<TaskStats, TaskStatsError>) -> (kept:
        bool)
        requires
            answer matches Ok(taskstats) ==> old(self).answer_fits(thread, taskstats),
        ensures
            kept == (answer is Ok),
            answer is Err ==> *final(self) == *old(self),
            answer matches Ok(taskstats) ==> final(self).has_gained(
                *old(self),
                Self::answered(thread, taskstats),
            ),
    {
        match answer {
            Err(_) => false,
            Ok(taskstats) => {
                let mut thread = thread;
                let _ = thread.get_stat(&taskstats);
                self.add_thread(thread);
                true
            },
        }
    }
}

/// The real process ids of a container, from the listing of its processes:
/// the second token of each line after the heading, for the first `count` lines.
pub open spec fn listed_pids_upto(listing: Seq<u8>, count: int) -> Result<Seq<Pid>, ParseIntErrorKind>
    decreases count,
{
    if count <= 1 {
        Ok(Seq::empty())
    } else {
        match listed_pids_upto(listing, count - 1) {
            Err(kind) => Err(kind),
            Ok(before) => match field_number(
                listing,
                count - 1,
                TokenAt::Index(1),
                usize::MAX as nat,
            ) {
                Err(kind) => Err(kind),
                Ok(pid) => Ok(before.push(Pid(pid as u128))),
            },
        }
    }
}

/// The real process ids of a container, from the listing of its processes.
pub open spec fn listed_pids(listing: Seq<u8>) -> Result<Seq<Pid>, ParseIntErrorKind> {
    listed_pids_upto(listing, lines(listing).len() as int)
}

proof fn lemma_listed_pids_stay_err(listing: Seq<u8>, from: int, to: int)
    requires
        0 <= from <= to,
        listed_pids_upto(listing, from) is Err,
    ensures
        listed_pids_upto(listing, to) == listed_pids_upto(listing, from),
    decreases to - from,
{
    if from < to {
        lemma_listed_pids_stay_err(listing, from, to - 1);
    }
}

/// Reads the real process ids of a container from the listing that the
/// container runtime prints: a heading, then one process to the line with
/// its id in the second column.
pub fn container_pids(listing: &[u8]) -> (r: Result<Vec<Pid>, ProcessError>)
    ensures
        match r {
            Ok(pids) => listed_pids(listing@) == Ok::<Seq<Pid>, ParseIntErrorKind>(pids@),
            Err(ProcessError::ParseIntErr(kind)) => listed_pids(listing@) == Err::<
                Seq<Pid>,
                ParseIntErrorKind,
            >(kind),
            Err(_) => false,
        },
{
    let found = split_lines(listing);
    let mut pids: Vec<Pid> = Vec::new();
    let mut k: usize = 1;
    while k < found.len()
        invariant
            1 <= k,
            found@.len() == lines(listing@).len(),
            listed_pids_upto(
                listing@,
                (if k <= found@.len() {
                    k as int
                } else {
                    found@.len() as int
                }),
            ) == Ok::<Seq<Pid>, ParseIntErrorKind>(pids@),
        decreases found.len() - k,
    {
        match read_field(listing, k, TokenAt::Index(1), usize::MAX as u128) {
            Ok(pid) => {
                pids.push(Pid(pid));
            },
            Err(kind) => {
                proof {
                    assert(listed_pids_upto(listing@, k + 1) == Err::<Seq<Pid>, ParseIntErrorKind>(
                        kind,
                    ));
                    lemma_listed_pids_stay_err(listing@, k + 1, found@.len() as int);
                }
                return Err(ProcessError::ParseIntErr(kind));
            },
        }
        k = k + 1;
    }
    Ok(pids)
}


// ---------------------------------------------------------------------------
// Sums of statistics

/// The first stat of a connection, where there is one, stands within the list
/// and is of that connection, and no stat before it is.
pub proof fn lemma_connection_position(stats: Seq<ConnectionStat>, key: Connection, from: int)
    requires
        0 <= from,
    ensures
        connection_position(stats, key, from) matches Some(i) ==> from <= i < stats.len()
            && stats[i].connection == key,
        connection_position(stats, key, from) is None ==> forall|j: int|
            from <= j < stats.len() ==> (#[trigger] stats[j]).connection != key,
    decreases stats.len() - from,
{
    if from < stats.len() && stats[from].connection != key {
        lemma_connection_position(stats, key, from + 1);
    }
}

/// A list of stats with `stat` merged in: added to the first stat of its
/// connection, or entered at the end if the list has none.
pub open spec fn connection_merged(stats: Seq<ConnectionStat>, stat: ConnectionStat) -> Seq<
    ConnectionStat,
> {
    match connection_position(stats, stat.connection, 0) {
        Some(i) => stats.update(i, stats[i].sum(stat)),
        None => stats.push(stat),
    }
}

/// A list of stats with each of `others` merged in, in order.
pub open spec fn connections_merged(stats: Seq<ConnectionStat>, others: Seq<ConnectionStat>) -> Seq<
    ConnectionStat,
>
    decreases others.len(),
{
    if others.len() == 0 {
        stats
    } else {
        connection_merged(connections_merged(stats, others.drop_last()), others.last())
    }
}

/// Whether `stat` can be merged into the list without a counter passing 128 bits.
pub open spec fn connection_merge_fits(stats: Seq<ConnectionStat>, stat: ConnectionStat) -> bool {
    connection_position(stats, stat.connection, 0) matches Some(i) ==> stats[i].totals().plus(
        stat.totals(),
    ).fits()
}

/// Whether each of `others` can be merged into the list, in order, without a
/// counter passing 128 bits.
pub open spec fn connections_merge_fit(stats: Seq<ConnectionStat>, others: Seq<ConnectionStat>) -> bool
    decreases others.len(),
{
    others.len() == 0 || (connections_merge_fit(stats, others.drop_last()) && connection_merge_fits(
        connections_merged(stats, others.drop_last()),
        others.last(),
    ))
}

proof fn lemma_merge_fit_prefix(stats: Seq<ConnectionStat>, others: Seq<ConnectionStat>, k: int)
    requires
        connections_merge_fit(stats, others),
        0 <= k <= others.len(),
    ensures
        connections_merge_fit(stats, others.subrange(0, k)),
    decreases others.len() - k,
{
    if k == others.len() {
        assert(others.subrange(0, k) =~= others);
    } else {
        lemma_merge_fit_prefix(stats, others.drop_last(), k);
        assert(others.drop_last().subrange(0, k) =~= others.subrange(0, k));
    }
}

/// An interface's traffic as plain values.
pub struct InterfaceStatView {
    pub iname: Seq<char>,
    pub totals: Totals,
    pub connections: Seq<ConnectionStat>,
}

impl View for InterfaceStat {
    type V = InterfaceStatView;

    open spec fn view(&self) -> InterfaceStatView {
        InterfaceStatView {
            iname: self.iname@,
            totals: self.totals(),
            connections: self.connection_stats@,
        }
    }
}

/// The sum of the traffic of one interface in two statistics.
pub open spec fn interface_sum(mine: InterfaceStatView, other: InterfaceStatView) -> InterfaceStatView {
    InterfaceStatView {
        iname: mine.iname,
        totals: mine.totals.plus(other.totals),
        connections: connections_merged(mine.connections, other.connections),
    }
}

/// Whether the traffic of one interface in two statistics can be summed.
pub open spec fn interface_sum_fits(mine: InterfaceStatView, other: InterfaceStatView) -> bool {
    mine.totals.plus(other.totals).fits() && connections_merge_fit(
        mine.connections,
        other.connections,
    )
}

impl InterfaceStat {
    /// A copy of the interface's traffic.
    pub fn duplicate(&self) -> (r: Self)
        ensures
            r@ == self@,
    {
        let mut connection_stats: Vec<ConnectionStat> = Vec::new();
        let mut i: usize = 0;
        while i < self.connection_stats.len()
            invariant
                i <= self.connection_stats@.len(),
                connection_stats@ == self.connection_stats@.subrange(0, i as int),
            decreases self.connection_stats.len() - i,
        {
            connection_stats.push(self.connection_stats[i]);
            assert(connection_stats@ =~= self.connection_stats@.subrange(0, i + 1));
            i = i + 1;
        }
        assert(self.connection_stats@.subrange(0, self.connection_stats@.len() as int)
            =~= self.connection_stats@);
        Self {
            iname: self.iname.clone(),
            packet_sent: self.packet_sent,
            packet_recv: self.packet_recv,
            total_data_sent: self.total_data_sent,
            total_data_recv: self.total_data_recv,
            real_data_sent: self.real_data_sent,
            real_data_recv: self.real_data_recv,
            connection_stats,
        }
    }

    /// Adds the traffic that `other` counted for the same interface: the
    /// counters are summed, and each connection of `other` is added to the
    /// stat of the same connection here, or entered if there is none.
    pub fn add_assign(&mut self, other: &InterfaceStat)
        requires
            old(self).iname@ == other.iname@,
            interface_sum_fits(old(self)@, other@),
        ensures
            final(self)@ == interface_sum(old(self)@, other@),
    {
        self.packet_sent.add_assign(other.packet_sent);
        self.packet_recv.add_assign(other.packet_recv);
        self.total_data_sent.add_assign(other.total_data_sent);
        self.total_data_recv.add_assign(other.total_data_recv);
        self.real_data_sent.add_assign(other.real_data_sent);
        self.real_data_recv.add_assign(other.real_data_recv);
        let ghost mine = old(self).connection_stats@;
        let ghost theirs = other.connection_stats@;
        let mut k: usize = 0;
        assert(theirs.subrange(0, 0) =~= Seq::<ConnectionStat>::empty());
        while k < other.connection_stats.len()
            invariant
                k <= other.connection_stats@.len(),
                theirs == other.connection_stats@,
                mine == old(self).connection_stats@,
                connections_merge_fit(mine, theirs),
                self.iname == old(self).iname,
                self.totals() == old(self).totals().plus(other.totals()),
                self.connection_stats@ == connections_merged(mine, theirs.subrange(0, k as int)),
            decreases other.connection_stats.len() - k,
        {
            let stat = other.connection_stats[k];
            let ghost before = self.connection_stats@;
            proof {
                lemma_merge_fit_prefix(mine, theirs, k + 1);
                assert(theirs.subrange(0, k + 1).drop_last() =~= theirs.subrange(0, k as int));
                assert(theirs.subrange(0, k + 1).last() == stat);
                lemma_connection_position(before, stat.connection, 0);
            }
            let mut i: usize = 0;
            let mut merged = false;
            while i < self.connection_stats.len() && !merged
                invariant
                    i <= self.connection_stats@.len(),
                    self.iname == old(self).iname,
                    self.totals() == old(self).totals().plus(other.totals()),
                    connection_merge_fits(before, stat),
                    !merged ==> self.connection_stats@ == before && connection_position(
                        before,
                        stat.connection,
                        0,
                    ) == connection_position(before, stat.connection, i as int),
                    merged ==> self.connection_stats@ == connection_merged(before, stat),
                decreases self.connection_stats.len() - i, (if merged { 0int } else { 1int }),
            {
                if self.connection_stats[i].connection == stat.connection {
                    let mut have = self.connection_stats[i];
                    have.add_assign(stat);
                    self.connection_stats.set(i, have);
                    merged = true;
                } else {
                    i = i + 1;
                }
            }
            if !merged {
                self.connection_stats.push(stat);
            }
            k = k + 1;
        }
        assert(theirs.subrange(0, theirs.len() as int) =~= theirs);
    }

    /// The sum of the traffic of one interface in two statistics.
    pub fn add(self, other: &InterfaceStat) -> (r: Self)
        requires
            self.iname@ == other.iname@,
            interface_sum_fits(self@, other@),
        ensures
            r@ == interface_sum(self@, other@),
    {
        let mut result = self;
        result.add_assign(other);
        result
    }
}

/// The interfaces of a list as plain values.
pub open spec fn interface_views(stats: Seq<InterfaceStat>) -> Seq<InterfaceStatView> {
    stats.map_values(|stat: InterfaceStat| stat@)
}

/// The position of the first interface named `iname`, from `from` on.
pub open spec fn interface_view_position(stats: Seq<InterfaceStatView>, iname: Seq<char>, from: int) -> Option<
    int,
>
    decreases stats.len() - from,
{
    if from < 0 || from >= stats.len() {
        None
    } else if stats[from].iname == iname {
        Some(from)
    } else {
        interface_view_position(stats, iname, from + 1)
    }
}

/// A list of interfaces with the traffic of `other` merged in: summed with the
/// first interface of its name, or entered at the end if the list has none.
pub open spec fn interface_merged(stats: Seq<InterfaceStatView>, other: InterfaceStatView) -> Seq<
    InterfaceStatView,
> {
    match interface_view_position(stats, other.iname, 0) {
        Some(i) => stats.update(i, interface_sum(stats[i], other)),
        None => stats.push(other),
    }
}

/// A list of interfaces with each of `others` merged in, in order.
pub open spec fn interfaces_merged(stats: Seq<InterfaceStatView>, others: Seq<InterfaceStatView>) -> Seq<
    InterfaceStatView,
>
    decreases others.len(),
{
    if others.len() == 0 {
        stats
    } else {
        interface_merged(interfaces_merged(stats, others.drop_last()), others.last())
    }
}

/// Whether `other` can be merged into the list without a counter passing 128 bits.
pub open spec fn interface_merge_fits(stats: Seq<InterfaceStatView>, other: InterfaceStatView) -> bool {
    interface_view_position(stats, other.iname, 0) matches Some(i) ==> interface_sum_fits(
        stats[i],
        other,
    )
}

/// Whether each of `others` can be merged into the list, in order.
pub open spec fn interfaces_merge_fit(stats: Seq<InterfaceStatView>, others: Seq<InterfaceStatView>) -> bool
    decreases others.len(),
{
    others.len() == 0 || (interfaces_merge_fit(stats, others.drop_last()) && interface_merge_fits(
        interfaces_merged(stats, others.drop_last()),
        others.last(),
    ))
}

proof fn lemma_interfaces_fit_prefix(stats: Seq<InterfaceStatView>, others: Seq<InterfaceStatView>, k: int)
    requires
        interfaces_merge_fit(stats, others),
        0 <= k <= others.len(),
    ensures
        interfaces_merge_fit(stats, others.subrange(0, k)),
    decreases others.len() - k,
{
    if k == others.len() {
        assert(others.subrange(0, k) =~= others);
    } else {
        lemma_interfaces_fit_prefix(stats, others.drop_last(), k);
        assert(others.drop_last().subrange(0, k) =~= others.subrange(0, k));
    }
}

/// Whether the interfaces of a list have names of their own and none counted
/// more than `whole`.
pub open spec fn interfaces_within(stats: Seq<InterfaceStatView>, whole: Totals) -> bool {
    &&& forall|i: int| 0 <= i < stats.len() ==> (#[trigger] stats[i]).totals.at_most(whole)
    &&& forall|i: int, j: int| 0 <= i < j < stats.len() ==> stats[i].iname != stats[j].iname
}

/// Whether one of the interfaces of a list has the name `iname`.
pub open spec fn named_in(stats: Seq<InterfaceStatView>, iname: Seq<char>) -> bool {
    exists|j: int| 0 <= j < stats.len() && (#[trigger] stats[j]).iname == iname
}

/// Where a sum of two well-formed statistics stands once the interfaces
/// `merged` of the second were merged in: the interfaces have names of their
/// own, none counted more than both wholes together, and one that none of
/// `merged` is named like counted no more than the first whole.
pub open spec fn merge_within(
    stats: Seq<InterfaceStatView>,
    merged: Seq<InterfaceStatView>,
    first: Totals,
    both: Totals,
) -> bool {
    &&& interfaces_within(stats, both)
    &&& forall|i: int|
        0 <= i < stats.len() && !named_in(merged, (#[trigger] stats[i]).iname)
            ==> stats[i].totals.at_most(first)
}

/// The first interface of a name stands within the list and has that name;
/// where there is none, no interface of the list has the name.
proof fn lemma_interface_view_found(stats: Seq<InterfaceStatView>, iname: Seq<char>, from: int)
    requires
        0 <= from,
    ensures
        interface_view_position(stats, iname, from) matches Some(i) ==> from <= i < stats.len()
            && stats[i].iname == iname,
        interface_view_position(stats, iname, from) is None ==> forall|j: int|
            from <= j < stats.len() ==> (#[trigger] stats[j]).iname != iname,
    decreases stats.len() - from,
{
    if from < stats.len() && stats[from].iname != iname {
        lemma_interface_view_found(stats, iname, from + 1);
    }
}

/// Merging one more interface of the second statistic keeps the sum where
/// [`merge_within`] says.
proof fn lemma_merge_within(
    stats: Seq<InterfaceStatView>,
    merged: Seq<InterfaceStatView>,
    other: InterfaceStatView,
    first: Totals,
    second: Totals,
)
    requires
        merge_within(stats, merged, first, first.plus(second)),
        other.totals.at_most(second),
        !named_in(merged, other.iname),
    ensures
        merge_within(
            interface_merged(stats, other),
            merged.push(other),
            first,
            first.plus(second),
        ),
{
    let after = interface_merged(stats, other);
    let both = first.plus(second);
    let now = merged.push(other);
    lemma_interface_view_found(stats, other.iname, 0);
    assert(now[merged.len() as int].iname == other.iname);
    assert(named_in(now, other.iname));
    assert forall|i: int| 0 <= i < after.len() && !named_in(now, (#[trigger] after[i]).iname) implies after[i].totals.at_most(
        first,
    ) by {
        assert(after[i].iname != other.iname);
        assert(after[i] == stats[i]);
        if named_in(merged, stats[i].iname) {
            let j = choose|j: int| 0 <= j < merged.len() && (#[trigger] merged[j]).iname == stats[i].iname;
            assert(now[j].iname == stats[i].iname);
        }
    }
    match interface_view_position(stats, other.iname, 0) {
        Some(at) => {
            assert(stats[at].totals.at_most(first));
            assert forall|i: int| 0 <= i < after.len() implies (#[trigger] after[i]).totals.at_most(
                both,
            ) by {
                if i != at {
                    assert(after[i] == stats[i]);
                }
            }
            assert forall|i: int, j: int| 0 <= i < j < after.len() implies after[i].iname
                != after[j].iname by {
                assert(after[i].iname == stats[i].iname);
                assert(after[j].iname == stats[j].iname);
            }
        },
        None => {
            assert forall|i: int| 0 <= i < after.len() implies (#[trigger] after[i]).totals.at_most(
                both,
            ) by {
                if i < stats.len() {
                    assert(after[i] == stats[i]);
                }
            }
            assert forall|i: int, j: int| 0 <= i < j < after.len() implies after[i].iname
                != after[j].iname by {
                assert(after[i] == stats[i]);
                if j < stats.len() {
                    assert(after[j] == stats[j]);
                }
            }
        },
    }
}

impl NetworkStat {
    /// A statistic is well formed exactly if its interfaces, as their views
    /// show them, have names of their own and none counted more than the whole.
    pub proof fn lemma_wf_by_views(self)
        ensures
            self.wf() == interfaces_within(interface_views(self.interface_stats@), self.totals()),
    {
        let views = interface_views(self.interface_stats@);
        if self.wf() {
            assert forall|i: int| 0 <= i < views.len() implies (#[trigger] views[i]).totals.at_most(
                self.totals(),
            ) by {
                assert(self.interface_stats@[i].totals().at_most(self.totals()));
            }
        }
        if interfaces_within(views, self.totals()) {
            assert forall|i: int| 0 <= i < self.interface_stats@.len() implies (
            #[trigger] self.interface_stats@[i]).totals().at_most(self.totals()) by {
                assert(views[i].totals.at_most(self.totals()));
            }
            assert forall|i: int, j: int|
                0 <= i < j < self.interface_stats@.len() implies self.interface_stats@[i].iname@
                != self.interface_stats@[j].iname@ by {
                assert(views[i].iname != views[j].iname);
            }
        }
    }

    /// Whether the traffic of `other` can be added to this.
    pub open spec fn sum_fits(self, other: NetworkStat) -> bool {
        self.totals().plus(other.totals()).fits() && interfaces_merge_fit(
            interface_views(self.interface_stats@),
            interface_views(other.interface_stats@),
        )
    }

    /// Adds the traffic that `other` counted: the counters are summed, and
    /// each interface of `other` is summed with the interface of the same name
    /// here, or entered if there is none. The sum of two well-formed
    /// statistics is well formed.
    pub fn add_assign(&mut self, other: &NetworkStat)
        requires
            old(self).sum_fits(*other),
        ensures
            final(self).totals() == old(self).totals().plus(other.totals()),
            interface_views(final(self).interface_stats@) == interfaces_merged(
                interface_views(old(self).interface_stats@),
                interface_views(other.interface_stats@),
            ),
            old(self).wf() && other.wf() ==> final(self).wf(),
    {
        let ghost both_wf = self.wf() && other.wf();
        let ghost first = self.totals();
        let ghost second = other.totals();
        proof {
            self.lemma_wf_by_views();
            other.lemma_wf_by_views();
        }
        self.pack_sent.add_assign(other.pack_sent);
        self.pack_recv.add_assign(other.pack_recv);
        self.total_data_sent.add_assign(other.total_data_sent);
        self.total_data_recv.add_assign(other.total_data_recv);
        self.real_data_sent.add_assign(other.real_data_sent);
        self.real_data_recv.add_assign(other.real_data_recv);
        let ghost mine = interface_views(old(self).interface_stats@);
        let ghost theirs = interface_views(other.interface_stats@);
        let mut k: usize = 0;
        assert(theirs.subrange(0, 0) =~= Seq::<InterfaceStatView>::empty());
        while k < other.interface_stats.len()
            invariant
                k <= other.interface_stats@.len(),
                theirs == interface_views(other.interface_stats@),
                interfaces_merge_fit(mine, theirs),
                self.totals() == old(self).totals().plus(other.totals()),
                first == old(self).totals(),
                second == other.totals(),
                both_wf ==> interfaces_within(theirs, second) && merge_within(
                    interface_views(self.interface_stats@),
                    theirs.subrange(0, k as int),
                    first,
                    first.plus(second),
                ),
                interface_views(self.interface_stats@) == interfaces_merged(
                    mine,
                    theirs.subrange(0, k as int),
                ),
            decreases other.interface_stats.len() - k,
        {
            let ghost before = interface_views(self.interface_stats@);
            let ghost their = theirs[k as int];
            proof {
                lemma_interfaces_fit_prefix(mine, theirs, k + 1);
                assert(theirs.subrange(0, k + 1).drop_last() =~= theirs.subrange(0, k as int));
                assert(theirs.subrange(0, k + 1).last() == their);
                assert(their == other.interface_stats@[k as int]@);
            }
            let mut i: usize = 0;
            let mut merged = false;
            while i < self.interface_stats.len() && !merged
                invariant
                    i <= self.interface_stats@.len(),
                    k < other.interface_stats@.len(),
                    their == other.interface_stats@[k as int]@,
                    self.totals() == old(self).totals().plus(other.totals()),
                    interface_merge_fits(before, their),
                    !merged ==> interface_views(self.interface_stats@) == before
                        && interface_view_position(before, their.iname, 0)
                        == interface_view_position(before, their.iname, i as int),
                    merged ==> interface_views(self.interface_stats@) == interface_merged(
                        before,
                        their,
                    ),
                decreases self.interface_stats.len() - i, (if merged { 0int } else { 1int }),
            {
                assert(before[i as int] == self.interface_stats@[i as int]@);
                if self.interface_stats[i].iname == other.interface_stats[k].iname {
                    proof {
                        lemma_interface_view_position(before, their.iname, 0, i as int);
                    }
                    self.interface_stats[i].add_assign(&other.interface_stats[k]);
                    merged = true;
                    proof {
                        assert(interface_views(self.interface_stats@) =~= before.update(
                            i as int,
                            interface_sum(before[i as int], their),
                        ));
                    }
                } else {
                    i = i + 1;
                }
            }
            if !merged {
                let copy = other.interface_stats[k].duplicate();
                self.interface_stats.push(copy);
                proof {
                    assert(interface_views(self.interface_stats@) =~= before.push(their));
                }
            }
            proof {
                if both_wf {
                    let so_far = theirs.subrange(0, k as int);
                    if named_in(so_far, their.iname) {
                        let j = choose|j: int|
                            0 <= j < so_far.len() && (#[trigger] so_far[j]).iname == their.iname;
                        assert(theirs[j].iname != theirs[k as int].iname);
                    }
                    lemma_merge_within(before, so_far, their, first, second);
                    assert(theirs.subrange(0, k + 1) =~= so_far.push(their));
                }
            }
            k = k + 1;
        }
        proof {
            assert(theirs.subrange(0, theirs.len() as int) =~= theirs);
            self.lemma_wf_by_views();
        }
    }

    /// The sum of the traffic in two statistics, which is well formed if
    /// both are.
    pub fn add(self, other: &NetworkStat) -> (r: Self)
        requires
            self.sum_fits(*other),
        ensures
            r.totals() == self.totals().plus(other.totals()),
            interface_views(r.interface_stats@) == interfaces_merged(
                interface_views(self.interface_stats@),
                interface_views(other.interface_stats@),
            ),
            self.wf() && other.wf() ==> r.wf(),
    {
        let mut result = self;
        result.add_assign(other);
        result
    }
}

/// Where no interface before `at` has the name and the one at `at` has it,
/// `at` is the position of the first interface of that name.
proof fn lemma_interface_view_position(stats: Seq<InterfaceStatView>, iname: Seq<char>, from: int, at: int)
    requires
        0 <= from <= at < stats.len(),
        stats[at].iname == iname,
        interface_view_position(stats, iname, from) == interface_view_position(stats, iname, at),
    ensures
        interface_view_position(stats, iname, from) == Some(at),
{
}

impl ProcessStat {
    /// Whether what `other` counted can be added to this.
    pub open spec fn sum_fits(self, other: ProcessStat) -> bool {
        &&& self.total_system_cpu_time@ + other.total_system_cpu_time@ <= u128::MAX
        &&& self.total_user_cpu_time@ + other.total_user_cpu_time@ <= u128::MAX
        &&& self.total_cpu_time@ + other.total_cpu_time@ <= u128::MAX
        &&& self.total_rss@ + other.total_rss@ <= u128::MAX
        &&& self.total_vss@ + other.total_vss@ <= u128::MAX
        &&& self.total_swap@ + other.total_swap@ <= u128::MAX
        &&& self.total_io_read@ + other.total_io_read@ <= u128::MAX
        &&& self.total_io_write@ + other.total_io_write@ <= u128::MAX
        &&& self.total_block_io_read@ + other.total_block_io_read@ <= u128::MAX
        &&& self.total_block_io_write@ + other.total_block_io_write@ <= u128::MAX
        &&& self.netstat.sum_fits(other.netstat)
    }

    /// Adds what another process used: times, memory, I/O and traffic. The
    /// time stamp stays.
    pub fn add_assign(&mut self, other: &ProcessStat)
        requires
            old(self).sum_fits(*other),
        ensures
            final(self).timestamp == old(self).timestamp,
            final(self).total_system_cpu_time@ == old(self).total_system_cpu_time@
                + other.total_system_cpu_time@,
            final(self).total_user_cpu_time@ == old(self).total_user_cpu_time@
                + other.total_user_cpu_time@,
            final(self).total_cpu_time@ == old(self).total_cpu_time@ + other.total_cpu_time@,
            final(self).total_rss@ == old(self).total_rss@ + other.total_rss@,
            final(self).total_vss@ == old(self).total_vss@ + other.total_vss@,
            final(self).total_swap@ == old(self).total_swap@ + other.total_swap@,
            final(self).total_io_read@ == old(self).total_io_read@ + other.total_io_read@,
            final(self).total_io_write@ == old(self).total_io_write@ + other.total_io_write@,
            final(self).total_block_io_read@ == old(self).total_block_io_read@
                + other.total_block_io_read@,
            final(self).total_block_io_write@ == old(self).total_block_io_write@
                + other.total_block_io_write@,
            final(self).netstat.totals() == old(self).netstat.totals().plus(other.netstat.totals()),
            interface_views(final(self).netstat.interface_stats@) == interfaces_merged(
                interface_views(old(self).netstat.interface_stats@),
                interface_views(other.netstat.interface_stats@),
            ),
            old(self).netstat.wf() && other.netstat.wf() ==> final(self).netstat.wf(),
    {
        self.total_system_cpu_time.add_assign(other.total_system_cpu_time);
        self.total_user_cpu_time.add_assign(other.total_user_cpu_time);
        self.total_cpu_time.add_assign(other.total_cpu_time);
        self.total_rss.add_assign(other.total_rss);
        self.total_vss.add_assign(other.total_vss);
        self.total_swap.add_assign(other.total_swap);
        self.total_io_read.add_assign(other.total_io_read);
        self.total_io_write.add_assign(other.total_io_write);
        self.total_block_io_read.add_assign(other.total_block_io_read);
        self.total_block_io_write.add_assign(other.total_block_io_write);
        self.netstat.add_assign(&other.netstat);
    }

    /// The sum of what two processes used, under the time stamp of the first.
    pub fn add(self, other: &ProcessStat) -> (r: Self)
        requires
            self.sum_fits(*other),
        ensures
            r.timestamp == self.timestamp,
            r.total_cpu_time@ == self.total_cpu_time@ + other.total_cpu_time@,
            r.total_system_cpu_time@ == self.total_system_cpu_time@ + other.total_system_cpu_time@,
            r.total_user_cpu_time@ == self.total_user_cpu_time@ + other.total_user_cpu_time@,
            r.total_rss@ == self.total_rss@ + other.total_rss@,
            r.total_vss@ == self.total_vss@ + other.total_vss@,
            r.total_swap@ == self.total_swap@ + other.total_swap@,
            r.total_io_read@ == self.total_io_read@ + other.total_io_read@,
            r.total_io_write@ == self.total_io_write@ + other.total_io_write@,
            r.total_block_io_read@ == self.total_block_io_read@ + other.total_block_io_read@,
            r.total_block_io_write@ == self.total_block_io_write@ + other.total_block_io_write@,
            r.netstat.totals() == self.netstat.totals().plus(other.netstat.totals()),
            interface_views(r.netstat.interface_stats@) == interfaces_merged(
                interface_views(self.netstat.interface_stats@),
                interface_views(other.netstat.interface_stats@),
            ),
            self.netstat.wf() && other.netstat.wf() ==> r.netstat.wf(),
    {
        let mut result = self;
        result.add_assign(other);
        result
    }
}

} // verus!
