//! The node: the local mirror of one Raft instance's role and term, and the
//! guard of its call discipline. A batch that the instance hands out must be
//! acknowledged before the next tick, step or proposal is admitted.

use vstd::prelude::*;
use crate::config::{ClusterConfig, ConfChange, NodeId, version_after, voters_after};

verus! {

/// Reference to a block of the validator.
pub type BlockId = u64;

/// The part a node plays in its cluster.
#[derive(Clone, Copy, Debug, PartialEq, Eq, Structural)]
pub enum Role {
    Follower,
    Candidate,
    Leader,
}

/// What a log entry carries.
#[derive(Clone, Copy, Debug, PartialEq, Eq, Structural)]
pub enum Payload {
    /// Nothing: the entry only takes its place in the log.
    Noop,
    /// A block that is committed with the entry.
    Block(BlockId),
    /// A membership change that takes effect with the entry.
    Conf(ConfChange),
}

/// An entry of the replicated log.
#[derive(Clone, Copy, Debug, PartialEq, Eq, Structural)]
pub struct LogEntry {
    pub index: u64,
    pub term: u64,
    pub payload: Payload,
}

/// The state that must survive a restart.
#[derive(Clone, Copy, Debug, PartialEq, Eq, Structural)]
pub struct HardState {
    pub term: u64,
    pub voted_for: NodeId,
    pub committed: u64,
}

/// An encoded protocol message and the peer it goes to.
#[derive(Debug, PartialEq, Eq)]
pub struct PeerMessage {
    pub to: NodeId,
    pub bytes: Vec<u8>,
}

/// One batch of side effects of the Raft instance.
#[derive(Debug, PartialEq, Eq)]
pub struct Ready {
    /// Entries to persist, in log order.
    pub entries: Vec<LogEntry>,
    /// The hard state to persist, where it changed.
    pub hard_state: Option<HardState>,
    /// Messages to transmit.
    pub messages: Vec<PeerMessage>,
    /// Entries that are committed and may be applied, in log order.
    pub committed: Vec<LogEntry>,
    /// The node's new role, where it changed.
    pub role_change: Option<Role>,
}

/// Why the node refuses a call.
#[derive(Clone, Copy, Debug, PartialEq, Eq, Structural)]
pub enum NodeError {
    /// Only the leader proposes.
    NotLeader,
    /// The message belongs to an earlier term.
    StaleTerm,
    /// The last batch has not been acknowledged.
    ReadyPending,
}

/// What a node is, as contracts see it.
pub struct NodeState {
    pub role: Role,
    pub term: u64,
    /// Ticks admitted so far; it stays at the largest value once reached.
    pub clock: u64,
    /// Whether a batch was handed out and not acknowledged yet.
    pub draining: bool,
    pub voters: Seq<NodeId>,
    pub local: NodeId,
    /// The number of membership changes applied so far.
    pub config_version: u64,
}

/// Whether the batch holds nothing at all.
pub open spec fn batch_is_empty(batch: Ready) -> bool {
    &&& batch.entries@.len() == 0
    &&& batch.messages@.len() == 0
    &&& batch.committed@.len() == 0
    &&& batch.hard_state.is_none()
    &&& batch.role_change.is_none()
}

/// The role after a batch: the one it announces, else the one before.
pub open spec fn role_after(role: Role, batch: Ready) -> Role {
    match batch.role_change {
        Some(r) => r,
        None => role,
    }
}

/// The term after a batch: that of its hard state where that is later.
pub open spec fn term_after(term: u64, batch: Ready) -> u64 {
    match batch.hard_state {
        Some(h) => if h.term > term {
            h.term
        } else {
            term
        },
        None => term,
    }
}

/// Whether the node hands the batch on: not while another one is
/// unacknowledged, and not an empty one.
pub open spec fn accepts_batch(s: NodeState, batch: Ready) -> bool {
    !s.draining && !batch_is_empty(batch)
}

/// The node after it was offered the batch.
pub open spec fn node_after_batch(s: NodeState, batch: Ready) -> NodeState {
    if accepts_batch(s, batch) {
        NodeState {
            role: role_after(s.role, batch),
            term: term_after(s.term, batch),
            draining: true,
            ..s
        }
    } else {
        s
    }
}

/// The answer to a tick.
pub open spec fn tick_result(s: NodeState) -> Result<(), NodeError> {
    if s.draining {
        Err(NodeError::ReadyPending)
    } else {
        Ok(())
    }
}

/// The answer to a proposal: the term at which the entry is appended.
pub open spec fn propose_result(s: NodeState) -> Result<u64, NodeError> {
    if s.role != Role::Leader {
        Err(NodeError::NotLeader)
    } else if s.draining {
        Err(NodeError::ReadyPending)
    } else {
        Ok(s.term)
    }
}

/// The answer to a message of the given term.
pub open spec fn step_result(s: NodeState, message_term: u64) -> Result<(), NodeError> {
    if message_term < s.term {
        Err(NodeError::StaleTerm)
    } else if s.draining {
        Err(NodeError::ReadyPending)
    } else {
        Ok(())
    }
}

/// The local mirror and guard of one Raft instance.
#[derive(Debug)]
pub struct Node {
    config: ClusterConfig,
    role: Role,
    term: u64,
    clock: u64,
    draining: bool,
}

impl View for Node {
    type V = NodeState;

    closed spec fn view(&self) -> NodeState {
        NodeState {
            role: self.role,
            term: self.term,
            clock: self.clock,
            draining: self.draining,
            voters: self.config.voters(),
            local: self.config.local(),
            config_version: self.config.version(),
        }
    }
}

impl Node {
    /// The membership is valid.
    pub closed spec fn wf(&self) -> bool {
        self.config.wf()
    }

    /// A follower at term zero with nothing outstanding.
    pub fn new(config: ClusterConfig) -> (r: Node)
        requires
            config.wf(),
        ensures
            r.wf(),
            r@ == (NodeState {
                role: Role::Follower,
                term: 0,
                clock: 0,
                draining: false,
                voters: config.voters(),
                local: config.local(),
                config_version: config.version(),
            }),
    {
        Node { config, role: Role::Follower, term: 0, clock: 0, draining: false }
    }

    /// The mirrored role.
    pub fn role(&self) -> (r: Role)
        ensures
            r == self@.role,
    {
        self.role
    }

    /// The mirrored term.
    pub fn term(&self) -> (r: u64)
        ensures
            r == self@.term,
    {
        self.term
    }

    /// The number of ticks admitted so far.
    pub fn clock(&self) -> (r: u64)
        ensures
            r == self@.clock,
    {
        self.clock
    }

    /// Whether a batch awaits its acknowledgement.
    pub fn is_draining(&self) -> (r: bool)
        ensures
            r == self@.draining,
    {
        self.draining
    }

    /// The membership.
    pub fn config(&self) -> (r: &ClusterConfig)
        ensures
            r.voters() == self@.voters,
            r.local() == self@.local,
            r.version() == self@.config_version,
            self.wf() ==> r.wf(),
    {
        &self.config
    }

    /// Admits one tick of the logical clock, which touches nothing else.
    pub fn tick(&mut self) -> (r: Result<(), NodeError>)
        requires
            old(self).wf(),
        ensures
            final(self).wf(),
            r == tick_result(old(self)@),
            final(self)@ == (NodeState {
                clock: if r.is_ok() && old(self)@.clock < u64::MAX {
                    (old(self)@.clock + 1) as u64
                } else {
                    old(self)@.clock
                },
                ..old(self)@
            }),
    {
        if self.draining {
            return Err(NodeError::ReadyPending);
        }
        if self.clock < u64::MAX {
            self.clock = self.clock + 1;
        }
        Ok(())
    }

    /// Admits a proposal and tells the term at which its entry is appended.
    pub fn propose(&self, block: BlockId) -> (r: Result<u64, NodeError>)
        ensures
            r == propose_result(self@),
    {
        if self.role != Role::Leader {
            Err(NodeError::NotLeader)
        } else if self.draining {
            Err(NodeError::ReadyPending)
        } else {
            Ok(self.term)
        }
    }

    /// Admits a peer's message of the given term, or refuses it as stale. The
    /// node itself is left as it was either way.
    pub fn step(&self, message_term: u64) -> (r: Result<(), NodeError>)
        ensures
            r == step_result(self@, message_term),
    {
        if message_term < self.term {
            Err(NodeError::StaleTerm)
        } else if self.draining {
            Err(NodeError::ReadyPending)
        } else {
            Ok(())
        }
    }

    /// Takes the batch that the Raft instance produced. An accepted batch is
    /// handed on unchanged, its role and term are mirrored, and it must be
    /// acknowledged with `advance`.
    pub fn ready(&mut self, batch: Ready) -> (r: Option<Ready>)
        requires
            old(self).wf(),
        ensures
            final(self).wf(),
            final(self)@ == node_after_batch(old(self)@, batch),
            r == if accepts_batch(old(self)@, batch) {
                Some(batch)
            } else {
                None
            },
    {
        if self.draining {
            return None;
        }
        if batch.entries.len() == 0 && batch.messages.len() == 0 && batch.committed.len() == 0
            && batch.hard_state.is_none() && batch.role_change.is_none() {
            return None;
        }
        match batch.role_change {
            Some(r) => {
                self.role = r;
            },
            None => {},
        }
        match batch.hard_state {
            Some(h) => {
                if h.term > self.term {
                    self.term = h.term;
                }
            },
            None => {},
        }
        self.draining = true;
        Some(batch)
    }

    /// Acknowledges the batch that was handed out last.
    pub fn advance(&mut self)
        requires
            old(self).wf(),
        ensures
            final(self).wf(),
            final(self)@ == (NodeState { draining: false, ..old(self)@ }),
    {
        self.draining = false;
    }

    /// Applies a membership change of a committed entry.
    pub fn apply_conf_change(&mut self, change: ConfChange)
        requires
            old(self).wf(),
        ensures
            final(self).wf(),
            final(self)@ == (NodeState {
                voters: voters_after(old(self)@.voters, old(self)@.local, change),
                config_version: version_after(old(self)@.config_version),
                ..old(self)@
            }),
    {
        self.config.apply(change);
    }
}

} // verus!
