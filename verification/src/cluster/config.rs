//! Settings of the cluster: peers, timeouts, and the tunables of the
//! consensus engine.

use vstd::prelude::*;
use crate::grpc::MessageType;
use crate::types::{Addr, NodeId};

verus! {

/// How long, and how fast growing, the pauses between tries of a commit
/// to the consensus log are. The factor is given as a fraction.
#[derive(Clone, Copy, Debug, PartialEq, Eq, Structural)]
pub struct BackoffStrategy {
    pub max_elapsed_millis: u64,
    pub multiplier_num: u32,
    pub multiplier_den: u32,
}

/// The strategy for commits of ownership facts: each pause two and a half
/// times the one before, and no new try after sixty seconds.
pub fn backoff_strategy() -> (r: BackoffStrategy)
    ensures
        r == (BackoffStrategy { max_elapsed_millis: 60_000, multiplier_num: 5, multiplier_den: 2 }),
{
    BackoffStrategy { max_elapsed_millis: 60_000, multiplier_num: 5, multiplier_den: 2 }
}

impl BackoffStrategy {
    /// Whether the time for retries has run out.
    pub fn exhausted(&self, elapsed_millis: u64) -> (r: bool)
        ensures
            r == (elapsed_millis > self.max_elapsed_millis),
    {
        elapsed_millis > self.max_elapsed_millis
    }
}

/// A node of the cluster and the address of one of its endpoints.
#[derive(Debug, PartialEq, Eq)]
pub struct NodeAddr {
    pub id: NodeId,
    pub addr: Addr,
}

impl Clone for NodeAddr {
    fn clone(&self) -> (r: NodeAddr)
        ensures
            r == *self,
    {
        NodeAddr { id: self.id, addr: self.addr.clone() }
    }
}

/// Peers given on the command line; they replace those of the settings.
#[derive(Debug, PartialEq, Eq)]
pub struct Options {
    pub node_grpc_addrs: Option<Vec<NodeAddr>>,
    pub raft_peer_addrs: Option<Vec<NodeAddr>>,
}

/// How reads of the consensus engine are kept consistent.
#[derive(Clone, Copy, Debug, PartialEq, Eq, Structural)]
pub enum ReadOnlyOption {
    /// Reads go through a round of the quorum.
    Safe,
    /// Reads rely on the leader's lease; needs the quorum check.
    LeaseBased,
}

/// The tunables of the consensus engine that the settings may override.
/// What is `None` stays as the engine has it.
#[derive(Debug, PartialEq, Eq)]
pub struct RaftConfig {
    pub grpc_timeout_millis: Option<u64>,
    pub grpc_concurrency_limit: Option<usize>,
    pub grpc_breaker_threshold: Option<u64>,
    pub grpc_breaker_retry_interval_millis: Option<u64>,
    pub proposal_batch_size: Option<usize>,
    pub proposal_batch_timeout_millis: Option<u64>,
    pub snapshot_interval_millis: Option<u64>,
    pub heartbeat_millis: Option<u64>,
    pub election_tick: Option<usize>,
    pub heartbeat_tick: Option<usize>,
    pub max_size_per_msg: Option<u64>,
    pub max_inflight_msgs: Option<usize>,
    pub check_quorum: Option<bool>,
    pub pre_vote: Option<bool>,
    pub min_election_tick: Option<usize>,
    pub max_election_tick: Option<usize>,
    pub read_only_option: ReadOnlyOption,
    pub skip_bcast_commit: Option<bool>,
    pub batch_append: Option<bool>,
    pub priority: Option<u64>,
    pub max_uncommitted_size: Option<u64>,
    pub max_committed_size_per_ready: Option<u64>,
}

/// The tunables as the consensus engine takes them.
#[derive(Clone, Copy, Debug, PartialEq, Eq, Structural)]
pub struct RaftEngineConfig {
    pub grpc_timeout_millis: u64,
    pub grpc_concurrency_limit: usize,
    pub grpc_breaker_threshold: u64,
    pub grpc_breaker_retry_interval_millis: u64,
    pub proposal_batch_size: usize,
    pub proposal_batch_timeout_millis: u64,
    pub snapshot_interval_millis: u64,
    pub heartbeat_millis: u64,
    pub election_tick: usize,
    pub heartbeat_tick: usize,
    pub max_size_per_msg: u64,
    pub max_inflight_msgs: usize,
    pub check_quorum: bool,
    pub pre_vote: bool,
    pub min_election_tick: usize,
    pub max_election_tick: usize,
    pub read_only_option: ReadOnlyOption,
    pub skip_bcast_commit: bool,
    pub batch_append: bool,
    pub priority: u64,
    pub max_uncommitted_size: u64,
    pub max_committed_size_per_ready: u64,
}

/// The value of a setting: what was set, else what the engine has.
pub open spec fn or_else<T>(set: Option<T>, engine: T) -> T {
    match set {
        Some(v) => v,
        None => engine,
    }
}

fn pick<T: Copy>(set: Option<T>, engine: T) -> (r: T)
    ensures
        r == or_else(set, engine),
{
    match set {
        Some(v) => v,
        None => engine,
    }
}

impl Default for RaftConfig {
    fn default() -> (r: RaftConfig)
        ensures
            r == RaftConfig::spec_default(),
    {
        RaftConfig {
            grpc_timeout_millis: None,
            grpc_concurrency_limit: None,
            grpc_breaker_threshold: None,
            grpc_breaker_retry_interval_millis: None,
            proposal_batch_size: None,
            proposal_batch_timeout_millis: None,
            snapshot_interval_millis: None,
            heartbeat_millis: None,
            election_tick: None,
            heartbeat_tick: None,
            max_size_per_msg: None,
            max_inflight_msgs: None,
            check_quorum: None,
            pre_vote: None,
            min_election_tick: None,
            max_election_tick: None,
            read_only_option: ReadOnlyOption::Safe,
            skip_bcast_commit: None,
            batch_append: None,
            priority: None,
            max_uncommitted_size: None,
            max_committed_size_per_ready: None,
        }
    }
}

impl RaftConfig {
    /// Nothing overridden, and reads by the quorum.
    pub open spec fn spec_default() -> RaftConfig {
        RaftConfig {
            grpc_timeout_millis: None,
            grpc_concurrency_limit: None,
            grpc_breaker_threshold: None,
            grpc_breaker_retry_interval_millis: None,
            proposal_batch_size: None,
            proposal_batch_timeout_millis: None,
            snapshot_interval_millis: None,
            heartbeat_millis: None,
            election_tick: None,
            heartbeat_tick: None,
            max_size_per_msg: None,
            max_inflight_msgs: None,
            check_quorum: None,
            pre_vote: None,
            min_election_tick: None,
            max_election_tick: None,
            read_only_option: ReadOnlyOption::Safe,
            skip_bcast_commit: None,
            batch_append: None,
            priority: None,
            max_uncommitted_size: None,
            max_committed_size_per_ready: None,
        }
    }

    /// The engine's tunables with these settings laid over them.
    pub open spec fn spec_to_raft_config(&self, engine: RaftEngineConfig) -> RaftEngineConfig {
        RaftEngineConfig {
            grpc_timeout_millis: or_else(self.grpc_timeout_millis, engine.grpc_timeout_millis),
            grpc_concurrency_limit: or_else(
                self.grpc_concurrency_limit,
                engine.grpc_concurrency_limit,
            ),
            grpc_breaker_threshold: or_else(
                self.grpc_breaker_threshold,
                engine.grpc_breaker_threshold,
            ),
            grpc_breaker_retry_interval_millis: or_else(
                self.grpc_breaker_retry_interval_millis,
                engine.grpc_breaker_retry_interval_millis,
            ),
            proposal_batch_size: or_else(self.proposal_batch_size, engine.proposal_batch_size),
            proposal_batch_timeout_millis: or_else(
                self.proposal_batch_timeout_millis,
                engine.proposal_batch_timeout_millis,
            ),
            snapshot_interval_millis: or_else(
                self.snapshot_interval_millis,
                engine.snapshot_interval_millis,
            ),
            heartbeat_millis: or_else(self.heartbeat_millis, engine.heartbeat_millis),
            election_tick: or_else(self.election_tick, engine.election_tick),
            heartbeat_tick: or_else(self.heartbeat_tick, engine.heartbeat_tick),
            max_size_per_msg: or_else(self.max_size_per_msg, engine.max_size_per_msg),
            max_inflight_msgs: or_else(self.max_inflight_msgs, engine.max_inflight_msgs),
            check_quorum: or_else(self.check_quorum, engine.check_quorum),
            pre_vote: or_else(self.pre_vote, engine.pre_vote),
            min_election_tick: or_else(self.min_election_tick, engine.min_election_tick),
            max_election_tick: or_else(self.max_election_tick, engine.max_election_tick),
            read_only_option: self.read_only_option,
            skip_bcast_commit: or_else(self.skip_bcast_commit, engine.skip_bcast_commit),
            batch_append: or_else(self.batch_append, engine.batch_append),
            priority: or_else(self.priority, engine.priority),
            max_uncommitted_size: or_else(self.max_uncommitted_size, engine.max_uncommitted_size),
            max_committed_size_per_ready: or_else(
                self.max_committed_size_per_ready,
                engine.max_committed_size_per_ready,
            ),
        }
    }

    /// Lays the settings over the tunables the engine starts with. The
    /// way reads are kept consistent is always taken from the settings.
    pub fn to_raft_config(&self, engine: RaftEngineConfig) -> (r: RaftEngineConfig)
        ensures
            r == self.spec_to_raft_config(engine),
    {
        RaftEngineConfig {
            grpc_timeout_millis: pick(self.grpc_timeout_millis, engine.grpc_timeout_millis),
            grpc_concurrency_limit: pick(self.grpc_concurrency_limit, engine.grpc_concurrency_limit),
            grpc_breaker_threshold: pick(self.grpc_breaker_threshold, engine.grpc_breaker_threshold),
            grpc_breaker_retry_interval_millis: pick(
                self.grpc_breaker_retry_interval_millis,
                engine.grpc_breaker_retry_interval_millis,
            ),
            proposal_batch_size: pick(self.proposal_batch_size, engine.proposal_batch_size),
            proposal_batch_timeout_millis: pick(
                self.proposal_batch_timeout_millis,
                engine.proposal_batch_timeout_millis,
            ),
            snapshot_interval_millis: pick(
                self.snapshot_interval_millis,
                engine.snapshot_interval_millis,
            ),
            heartbeat_millis: pick(self.heartbeat_millis, engine.heartbeat_millis),
            election_tick: pick(self.election_tick, engine.election_tick),
            heartbeat_tick: pick(self.heartbeat_tick, engine.heartbeat_tick),
            max_size_per_msg: pick(self.max_size_per_msg, engine.max_size_per_msg),
            max_inflight_msgs: pick(self.max_inflight_msgs, engine.max_inflight_msgs),
            check_quorum: pick(self.check_quorum, engine.check_quorum),
            pre_vote: pick(self.pre_vote, engine.pre_vote),
            min_election_tick: pick(self.min_election_tick, engine.min_election_tick),
            max_election_tick: pick(self.max_election_tick, engine.max_election_tick),
            read_only_option: self.read_only_option,
            skip_bcast_commit: pick(self.skip_bcast_commit, engine.skip_bcast_commit),
            batch_append: pick(self.batch_append, engine.batch_append),
            priority: pick(self.priority, engine.priority),
            max_uncommitted_size: pick(self.max_uncommitted_size, engine.max_uncommitted_size),
            max_committed_size_per_ready: pick(
                self.max_committed_size_per_ready,
                engine.max_committed_size_per_ready,
            ),
        }
    }

    pub fn read_only_option_default() -> (r: ReadOnlyOption)
        ensures
            r == ReadOnlyOption::Safe,
    {
        ReadOnlyOption::Safe
    }

    /// The way of consistency that goes by a name written in lower case,
    /// if the name is one of the two.
    pub fn read_only_option_named(name: &str) -> (r: Option<ReadOnlyOption>)
        ensures
            r == if name@ == "safe"@ {
                Some(ReadOnlyOption::Safe)
            } else if name@ == "leasebased"@ {
                Some(ReadOnlyOption::LeaseBased)
            } else {
                None
            },
    {
        let v = String::from_str(name);
        let safe = String::from_str("safe");
        let lease = String::from_str("leasebased");
        if v == safe {
            Some(ReadOnlyOption::Safe)
        } else if v == lease {
            Some(ReadOnlyOption::LeaseBased)
        } else {
            None
        }
    }

    /// Reads the way of consistency from its name in the settings. Upper
    /// and lower case count alike; another name is refused.
    pub fn deserialize_read_only_option(text: &str) -> (r: Option<ReadOnlyOption>)
        ensures
            r == if lowercase_of(text@) == "safe"@ {
                Some(ReadOnlyOption::Safe)
            } else if lowercase_of(text@) == "leasebased"@ {
                Some(ReadOnlyOption::LeaseBased)
            } else {
                None
            },
    {
        let v = to_lowercase(text);
        RaftConfig::read_only_option_named(v.as_str())
    }

    /// The name under which the way of consistency stands in the settings.
    pub fn serialize_read_only_option(rop: &ReadOnlyOption) -> (r: &'static str)
        ensures
            r@ == match *rop {
                ReadOnlyOption::Safe => "safe"@,
                ReadOnlyOption::LeaseBased => "leasebased"@,
            },
    {
        match rop {
            ReadOnlyOption::Safe => "safe",
            ReadOnlyOption::LeaseBased => "leasebased",
        }
    }
}

/// A text with each of its characters in lower case, as Unicode has it.
pub uninterp spec fn lowercase_of(text: Seq<char>) -> Seq<char>;

/// `str::to_lowercase` of std: the lower-case form of a text.
#[verifier::external_body]
fn to_lowercase(text: &str) -> (r: String)
    ensures
        r@ == lowercase_of(text@),
{
    text.to_lowercase()
}

/// Settings of the cluster plugin.
#[derive(Debug, PartialEq, Eq)]
pub struct PluginConfig {
    pub message_type: MessageType,
    pub node_grpc_addrs: Vec<NodeAddr>,
    pub raft_peer_addrs: Vec<NodeAddr>,
    pub try_lock_timeout_millis: u64,
    pub task_exec_queue_workers: usize,
    pub task_exec_queue_max: usize,
    pub raft: RaftConfig,
}

/// A copy of a list of peers.
pub fn clone_addrs(addrs: &Vec<NodeAddr>) -> (r: Vec<NodeAddr>)
    ensures
        r@ == addrs@,
{
    let mut out: Vec<NodeAddr> = Vec::new();
    let mut i: usize = 0;
    while i < addrs.len()
        invariant
            i <= addrs@.len(),
            out@ == addrs@.take(i as int),
        decreases addrs@.len() - i,
    {
        out.push(addrs[i].clone());
        i = i + 1;
    }
    out
}

impl PluginConfig {
    /// The settings with the given peers and everything else as it is by
    /// default.
    pub fn new(node_grpc_addrs: Vec<NodeAddr>, raft_peer_addrs: Vec<NodeAddr>) -> (r:
        PluginConfig)
        ensures
            r.message_type == 198,
            r.node_grpc_addrs == node_grpc_addrs,
            r.raft_peer_addrs == raft_peer_addrs,
            r.try_lock_timeout_millis == 10_000,
            r.task_exec_queue_workers == 500,
            r.task_exec_queue_max == 100_000,
            r.raft == RaftConfig::spec_default(),
    {
        PluginConfig {
            message_type: Self::message_type_default(),
            node_grpc_addrs,
            raft_peer_addrs,
            try_lock_timeout_millis: Self::try_lock_timeout_default(),
            task_exec_queue_workers: Self::task_exec_queue_workers_default(),
            task_exec_queue_max: Self::task_exec_queue_max_default(),
            raft: Self::raft_default(),
        }
    }

    pub fn message_type_default() -> (r: MessageType)
        ensures
            r == 198,
    {
        198
    }

    /// Ten seconds.
    pub fn try_lock_timeout_default() -> (r: u64)
        ensures
            r == 10_000,
    {
        10_000
    }

    pub fn task_exec_queue_workers_default() -> (r: usize)
        ensures
            r == 500,
    {
        500
    }

    pub fn task_exec_queue_max_default() -> (r: usize)
        ensures
            r == 100_000,
    {
        100_000
    }

    pub fn raft_default() -> (r: RaftConfig)
        ensures
            r == RaftConfig::spec_default(),
    {
        RaftConfig::default()
    }

    /// Lets the peers given on the command line replace those of the
    /// settings.
    pub fn merge(&mut self, opts: &Options)
        ensures
            final(self).node_grpc_addrs@ == match opts.node_grpc_addrs {
                Some(a) => a@,
                None => old(self).node_grpc_addrs@,
            },
            final(self).raft_peer_addrs@ == match opts.raft_peer_addrs {
                Some(a) => a@,
                None => old(self).raft_peer_addrs@,
            },
            final(self).message_type == old(self).message_type,
            final(self).try_lock_timeout_millis == old(self).try_lock_timeout_millis,
            final(self).task_exec_queue_workers == old(self).task_exec_queue_workers,
            final(self).task_exec_queue_max == old(self).task_exec_queue_max,
            final(self).raft == old(self).raft,
    {
        match &opts.node_grpc_addrs {
            Some(a) => {
                self.node_grpc_addrs = clone_addrs(a);
            },
            None => {},
        }
        match &opts.raft_peer_addrs {
            Some(a) => {
                self.raft_peer_addrs = clone_addrs(a);
            },
            None => {},
        }
    }
}

} // verus!
