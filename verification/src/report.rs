//! The output of one cycle: the statistics of each target and the raw flows,
//! and the cutting of the serialised document into chunks for publishing.
use crate::common::{ParseIntErrorKind, Timestamp, NANOSECONDS_PER_SECOND};
use crate::config::ConfigError;
use crate::network_stat::{Connection, NetworkRawStat, NetworkStatError};
use crate::process::{Process, ProcessError};
use crate::taskstat::TaskStatsError;
use vstd::prelude::*;
use vstd::string::*;

verus! {

/// The processes of one monitored target.
#[derive(Debug)]
pub struct ContainerStat {
    pub container_name: String,
    pub processes: Vec<Process>,
}

impl ContainerStat {
    pub fn new(container_name: String) -> (r: Self)
        ensures
            r.container_name == container_name,
            r.processes@.len() == 0,
    {
        Self { container_name, processes: Vec::new() }
    }
}

/// One chunk of a published document, with the names of its sender.
#[derive(Debug)]
pub struct MessageChunk {
    pub sensor_name: String,
    pub cluster_name: String,
    pub message: String,
}

impl MessageChunk {
    pub fn new(sensor_name: String, cluster_name: String, message: String) -> (r: Self)
        ensures
            r.sensor_name == sensor_name,
            r.cluster_name == cluster_name,
            r.message == message,
    {
        Self { sensor_name, cluster_name, message }
    }
}

/// The document of one cycle.
#[derive(Debug)]
pub struct TotalStat {
    pub container_stats: Vec<ContainerStat>,
    pub network_rawstat: NetworkRawStat,
    /// In seconds since the epoch.
    pub unix_timestamp: u64,
}

impl TotalStat {
    /// The whole seconds of a time stamp, as far as 64 bits hold them.
    pub open spec fn seconds_of(now: Timestamp) -> u64 {
        if now@ / 1_000_000_000 > u64::MAX {
            u64::MAX
        } else {
            (now@ / 1_000_000_000) as u64
        }
    }

    /// An empty document stamped with the time `now`.
    pub fn at(now: Timestamp) -> (r: Self)
        ensures
            r.container_stats@.len() == 0,
            r.network_rawstat.wf(),
            r.network_rawstat.conn_lookup_table@ == Map::<u128, Connection>::empty(),
            r.network_rawstat.iname_lookup_table@.len() == 0,
            r.network_rawstat.irawstats@.len() == 0,
            r.unix_timestamp == Self::seconds_of(now),
    {
        let seconds = now.0 / NANOSECONDS_PER_SECOND;
        Self {
            container_stats: Vec::new(),
            network_rawstat: NetworkRawStat::new(),
            unix_timestamp: if seconds > u64::MAX as u128 {
                u64::MAX
            } else {
                seconds as u64
            },
        }
    }

    /// An empty document stamped with the time of the system clock.
    pub fn new() -> (r: Self)
        ensures
            r.container_stats@.len() == 0,
            r.network_rawstat.wf(),
            r.network_rawstat.conn_lookup_table@ == Map::<u128, Connection>::empty(),
            r.network_rawstat.iname_lookup_table@.len() == 0,
            r.network_rawstat.irawstats@.len() == 0,
    {
        Self::at(Timestamp::get_curr_timestamp())
    }
}

/// The number of chunks of at most `size` characters that a text of `len` characters makes.
pub open spec fn chunk_count(len: nat, size: nat) -> nat
    recommends
        size > 0,
{
    ((len + size - 1) / size as int) as nat
}

/// Chunk `k` of a text cut into chunks of `size` characters: the characters
/// from `k * size` on, `size` of them or as many as are left.
pub open spec fn chunk_at(text: Seq<char>, size: nat, k: int) -> Seq<char> {
    text.subrange(
        k * size,
        if (k + 1) * size <= text.len() {
            (k + 1) * size
        } else {
            text.len() as int
        },
    )
}

/// Cuts a serialised document into the messages to publish: in chunks of at
/// most `size` characters where a size is configured, else in one piece.
pub fn chunk_message(text: &str, size: Option<usize>) -> (r: Vec<String>)
    requires
        size matches Some(n) ==> n > 0,
    ensures
        size is None ==> r@.len() == 1 && r@[0]@ == text@,
        size matches Some(n) ==> r@.len() == chunk_count(text@.len(), n as nat) && forall|k: int|
            0 <= k < r@.len() ==> (#[trigger] r@[k])@ == chunk_at(text@, n as nat, k),
{
    let mut chunks: Vec<String> = Vec::new();
    match size {
        None => {
            chunks.push(text.to_owned());
        },
        Some(n) => {
            let len = text.unicode_len();
            let mut from: usize = 0;
            assert(0 * n == 0) by (nonlinear_arith);
            while from < len
                invariant
                    n > 0,
                    size == Some(n),
                    len == text@.len(),
                    from <= len,
                    from == (if chunks@.len() * n <= len {
                        chunks@.len() * n
                    } else {
                        len as int
                    }),
                    chunks@.len() > 0 ==> (chunks@.len() - 1) * n < len,
                    forall|k: int|
                        0 <= k < chunks@.len() ==> (#[trigger] chunks@[k])@ == chunk_at(
                            text@,
                            n as nat,
                            k,
                        ),
                decreases len - from,
            {
                let to: usize = if len - from < n {
                    len
                } else {
                    from + n
                };
                let ghost k = chunks@.len() as int;
                proof {
                    assert((k + 1) * n == k * n + n) by (nonlinear_arith);
                }
                chunks.push(text.substring_char(from, to).to_owned());
                from = to;
            }
            proof {
                if chunks@.len() > 0 {
                    lemma_chunk_count(len as nat, n as nat, chunks@.len() as nat);
                } else {
                    vstd::arithmetic::div_mod::lemma_basic_div(n - 1, n as int);
                }
            }
        },
    }
    chunks
}

/// A text whose last chunk ends within chunk number `count` has `count` chunks.
proof fn lemma_chunk_count(len: nat, size: nat, count: nat)
    requires
        size > 0,
        count > 0,
        (count - 1) * size < len <= count * size,
    ensures
        chunk_count(len, size) == count,
{
    let m = (len + size - 1) as int;
    assert(count * size <= m < (count + 1) * size) by (nonlinear_arith)
        requires
            (count - 1) * size < len <= count * size,
            m == len + size - 1,
            size > 0,
    ;
    vstd::arithmetic::div_mod::lemma_fundamental_div_mod_converse(
        m,
        size as int,
        count as int,
        m - count * size,
    );
}

#[derive(Debug)]
pub enum DaemonError {
    NetworkStatErr(NetworkStatError),
    TaskstatsErr(TaskStatsError),
    /// A failure of the operating system, by its message.
    IOErr(String),
    NoConfigPath,
    ConfigErr(ConfigError),
    ProcessErr(ProcessError),
    /// A task that ended in a panic, by what it said.
    ListenThreadErr(String),
    ParseIntErr(ParseIntErrorKind),
    UnknownErr,
}

} // verus!
