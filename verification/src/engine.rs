//! The engine: it turns the validator's events and the ticker's signals into
//! calls on the Raft instance, and each batch of the instance into directives
//! in a fixed order.

use vstd::prelude::*;
use crate::config::{ClusterConfig, ConfChange, NodeId, version_after, voters_after};
use crate::node::{
    accepts_batch, propose_result, role_after, step_result, term_after, BlockId, HardState,
    LogEntry, Node, NodeState, Payload, PeerMessage, Ready, Role,
};
use crate::laws::law_invariant;
use crate::wire::{decode_term, peer_message_term};

verus! {

/// What the validator said of a proposed block.
#[derive(Clone, Copy, Debug, PartialEq, Eq, Structural)]
pub enum Validity {
    Unknown,
    Valid,
    Invalid,
}

/// A block that was proposed and whose entry is not committed yet.
#[derive(Clone, Copy, Debug, PartialEq, Eq, Structural)]
pub struct Proposal {
    /// The correlation id that the engine gave it.
    pub id: u64,
    pub block: BlockId,
    pub validity: Validity,
}

/// One thing that the engine asks of its surroundings.
#[derive(Debug, PartialEq, Eq)]
pub enum Directive {
    /// Advance the Raft instance's clock by one tick.
    Tick,
    /// Propose the block to the Raft instance.
    Propose { proposal: u64, term: u64, block: BlockId },
    /// Hand the decoded message to the Raft instance.
    Step { sender: NodeId, bytes: Vec<u8> },
    /// Make the entries and the hard state durable.
    Persist { entries: Vec<LogEntry>, hard_state: Option<HardState> },
    /// Transmit the messages to their peers.
    Send { messages: Vec<PeerMessage> },
    /// Have the validator commit the block of the entry at `index`.
    CommitBlock { index: u64, block: BlockId },
    /// Apply the membership change of the entry at `index`.
    ApplyConfChange { index: u64, change: ConfChange },
    /// Have the validator abandon the block.
    CancelBlock { block: BlockId },
    /// Have the validator stop publishing until told to start again.
    StopPublishing,
    /// Have the validator start building a block.
    InitializeBlock,
    /// Acknowledge the batch to the Raft instance.
    Advance,
    /// Cancel the ticker: no further signal is wanted.
    StopTicker,
    /// Stop the process: the node cannot go on safely.
    Fail,
}

/// What an engine is, as contracts see it.
pub struct EngineState {
    pub node: NodeState,
    /// The proposals that wait for their commit, oldest first.
    pub pending: Seq<Proposal>,
    /// The correlation id of the next proposal.
    pub next_proposal: u64,
    /// The index of the last entry that was delivered for applying.
    pub applied: u64,
    /// The highest commit index seen.
    pub committed: u64,
    pub running: bool,
}

/// What applying committed entries has led to so far.
pub struct Applying {
    pub applied: u64,
    pub pending: Seq<Proposal>,
    pub voters: Seq<NodeId>,
    /// The number of membership changes applied so far.
    pub version: u64,
    pub out: Seq<Directive>,
}

/// The proposals that are left once `block` is committed.
pub open spec fn without_block(pending: Seq<Proposal>, block: BlockId) -> Seq<Proposal>
    decreases pending.len(),
{
    if pending.len() == 0 {
        pending
    } else if pending.last().block == block {
        without_block(pending.drop_last(), block)
    } else {
        without_block(pending.drop_last(), block).push(pending.last())
    }
}

/// The proposals with the validator's word on `block` noted.
pub open spec fn with_validity(pending: Seq<Proposal>, block: BlockId, validity: Validity) -> Seq<
    Proposal,
> {
    Seq::new(
        pending.len(),
        |i: int|
            if pending[i].block == block {
                Proposal { validity, ..pending[i] }
            } else {
                pending[i]
            },
    )
}

/// One cancellation for each proposal, oldest first.
pub open spec fn cancellations(pending: Seq<Proposal>) -> Seq<Directive> {
    Seq::new(pending.len(), |i: int| Directive::CancelBlock { block: pending[i].block })
}

/// Applying one committed entry. Only the entry that directly follows the
/// last applied one is applied; any other is passed over. A block is
/// committed and its proposals are settled, a membership change takes
/// effect, and an entry that carries nothing only moves the index.
pub open spec fn apply_entry(a: Applying, local: NodeId, e: LogEntry) -> Applying {
    if e.index as int != a.applied as int + 1 {
        a
    } else {
        match e.payload {
            Payload::Noop => Applying { applied: e.index, ..a },
            Payload::Block(block) => Applying {
                applied: e.index,
                pending: without_block(a.pending, block),
                out: a.out.push(Directive::CommitBlock { index: e.index, block }),
                ..a
            },
            Payload::Conf(change) => Applying {
                applied: e.index,
                voters: voters_after(a.voters, local, change),
                version: version_after(a.version),
                out: a.out.push(Directive::ApplyConfChange { index: e.index, change }),
                ..a
            },
        }
    }
}

/// Applying committed entries in their order.
pub open spec fn apply_all(a: Applying, local: NodeId, entries: Seq<LogEntry>) -> Applying
    decreases entries.len(),
{
    if entries.len() == 0 {
        a
    } else {
        apply_entry(apply_all(a, local, entries.drop_last()), local, entries.last())
    }
}

/// Where applying starts in the given engine.
pub open spec fn applying_from(s: EngineState) -> Applying {
    Applying {
        applied: s.applied,
        pending: s.pending,
        voters: s.node.voters,
        version: s.node.config_version,
        out: Seq::empty(),
    }
}

/// The commit index after a batch: never lower than before, than the batch's
/// hard state or than the last applied entry.
pub open spec fn committed_after(committed: u64, hard_state: Option<HardState>, applied: u64) -> u64 {
    let seen = match hard_state {
        Some(h) => if h.committed > committed {
            h.committed
        } else {
            committed
        },
        None => committed,
    };
    if applied > seen {
        applied
    } else {
        seen
    }
}

/// Whether the batch takes the leadership away from the node.
pub open spec fn loses_leadership(s: EngineState, batch: Ready) -> bool {
    s.node.role == Role::Leader && role_after(s.node.role, batch) != Role::Leader
}

/// Whether the batch makes the node the leader.
pub open spec fn gains_leadership(s: EngineState, batch: Ready) -> bool {
    s.node.role != Role::Leader && role_after(s.node.role, batch) == Role::Leader
}

/// What follows the applied entries of a batch: on a loss of leadership the
/// cancellation of every proposal that is still pending, on a gain the start
/// of publishing.
pub open spec fn leadership_directives(s: EngineState, batch: Ready, left: Seq<Proposal>) -> Seq<
    Directive,
> {
    if loses_leadership(s, batch) {
        cancellations(left).push(Directive::StopPublishing)
    } else if gains_leadership(s, batch) {
        seq![Directive::InitializeBlock]
    } else {
        Seq::empty()
    }
}

/// The directives of a batch that the engine drains, in the order in which
/// they are to be carried out: persist, send, apply, leadership, acknowledge.
pub open spec fn drain_directives(s: EngineState, batch: Ready) -> Seq<Directive> {
    let a = apply_all(applying_from(s), s.node.local, batch.committed@);
    seq![
        Directive::Persist { entries: batch.entries, hard_state: batch.hard_state },
        Directive::Send { messages: batch.messages },
    ] + a.out + leadership_directives(s, batch, a.pending) + seq![Directive::Advance]
}

/// The engine after it drained a batch.
pub open spec fn drain_state(s: EngineState, batch: Ready) -> EngineState {
    let a = apply_all(applying_from(s), s.node.local, batch.committed@);
    EngineState {
        node: NodeState {
            role: role_after(s.node.role, batch),
            term: term_after(s.node.term, batch),
            voters: a.voters,
            config_version: a.version,
            ..s.node
        },
        pending: if loses_leadership(s, batch) {
            Seq::empty()
        } else {
            a.pending
        },
        applied: a.applied,
        committed: committed_after(s.committed, batch.hard_state, a.applied),
        ..s
    }
}

/// Whether the engine drains the batch at all: it runs and the node hands
/// the batch on.
pub open spec fn drains(s: EngineState, batch: Ready) -> bool {
    s.running && accepts_batch(s.node, batch)
}

/// The engine after it was offered the batch.
pub open spec fn after_drain(s: EngineState, batch: Ready) -> EngineState {
    if drains(s, batch) {
        drain_state(s, batch)
    } else {
        s
    }
}

/// The directives that the engine gives when it is offered the batch.
pub open spec fn drain_output(s: EngineState, batch: Ready) -> Seq<Directive> {
    if drains(s, batch) {
        drain_directives(s, batch)
    } else {
        Seq::empty()
    }
}

/// Whether a new block is proposed: the engine runs, the node admits the
/// proposal and a correlation id is left.
pub open spec fn proposes(s: EngineState) -> bool {
    s.running && propose_result(s.node).is_ok() && s.next_proposal < u64::MAX
}

/// Whether a peer's message of the given decoding reaches the Raft instance.
pub open spec fn forwards(s: EngineState, decoded: Option<u64>) -> bool {
    s.running && decoded.is_some() && step_result(s.node, decoded.unwrap()).is_ok()
}

/// Whether the correlation ids rise strictly along the proposals and stay
/// below `bound`.
pub open spec fn ordered(pending: Seq<Proposal>, bound: u64) -> bool {
    &&& forall|i: int, j: int| 0 <= i < j < pending.len() ==> pending[i].id < pending[j].id
    &&& forall|i: int| 0 <= i < pending.len() ==> pending[i].id < bound
}

/// What holds of an engine between any two events: no batch is
/// outstanding, nothing is applied that is not committed, each pending
/// proposal has a correlation id of its own, below the next one to be given,
/// and only a leader has pending proposals.
pub open spec fn consistent(s: EngineState) -> bool {
    &&& !s.node.draining
    &&& s.applied <= s.committed
    &&& ordered(s.pending, s.next_proposal)
    &&& (s.node.role != Role::Leader ==> s.pending.len() == 0)
}

/// The engine after the validator announced a new block.
pub open spec fn after_block_new(s: EngineState, block: BlockId) -> EngineState {
    if proposes(s) {
        EngineState {
            pending: s.pending.push(
                Proposal { id: s.next_proposal, block, validity: Validity::Unknown },
            ),
            next_proposal: (s.next_proposal + 1) as u64,
            ..s
        }
    } else {
        s
    }
}

/// The directives for a new block: the proposal, or the block's cancellation
/// where the engine does not propose.
pub open spec fn block_new_output(s: EngineState, block: BlockId) -> Seq<Directive> {
    if !s.running {
        Seq::empty()
    } else if proposes(s) {
        seq![Directive::Propose { proposal: s.next_proposal, term: s.node.term, block }]
    } else {
        seq![Directive::CancelBlock { block }]
    }
}

/// The engine after the validator's word on a block.
pub open spec fn after_verdict(s: EngineState, block: BlockId, validity: Validity) -> EngineState {
    if s.running {
        EngineState { pending: with_validity(s.pending, block, validity), ..s }
    } else {
        s
    }
}

/// The directives for a peer's bytes that decoded to `decoded`.
pub open spec fn peer_message_output(
    s: EngineState,
    sender: NodeId,
    bytes: Vec<u8>,
    decoded: Option<u64>,
) -> Seq<Directive> {
    if forwards(s, decoded) {
        seq![Directive::Step { sender, bytes }]
    } else {
        Seq::empty()
    }
}

/// The engine after the ticker fired.
pub open spec fn after_tick(s: EngineState) -> EngineState {
    if s.running && s.node.clock < u64::MAX {
        EngineState { node: NodeState { clock: (s.node.clock + 1) as u64, ..s.node }, ..s }
    } else {
        s
    }
}

/// The directives for a signal of the ticker.
pub open spec fn tick_output(s: EngineState) -> Seq<Directive> {
    if s.running {
        seq![Directive::Tick]
    } else {
        Seq::empty()
    }
}

/// The engine once it has stopped.
pub open spec fn stopped(s: EngineState) -> EngineState {
    EngineState { running: false, ..s }
}

/// The directives for a shutdown: a running engine has the ticker
/// cancelled, a stopped one asks for nothing.
pub open spec fn shutdown_output(s: EngineState) -> Seq<Directive> {
    if s.running {
        seq![Directive::StopTicker]
    } else {
        Seq::empty()
    }
}

/// The directives for a failure of the log store.
pub open spec fn storage_failure_output(s: EngineState) -> Seq<Directive> {
    if s.running {
        seq![Directive::Fail]
    } else {
        Seq::empty()
    }
}

/// One item of the ordered stream that the engine consumes.
#[derive(Debug, PartialEq, Eq)]
pub enum Event {
    /// A peer connected. The engine takes no step on it.
    PeerConnected(NodeId),
    /// A peer disconnected. The engine takes no step on it.
    PeerDisconnected(NodeId),
    /// The validator assembled a block.
    BlockNew(BlockId),
    /// The validator found a block valid.
    BlockValid(BlockId),
    /// The validator found a block invalid.
    BlockInvalid(BlockId),
    /// The validator committed a block. The engine takes no step on it.
    BlockCommit(BlockId),
    /// A peer sent bytes.
    PeerMessage { sender: NodeId, bytes: Vec<u8> },
    /// The ticker fired.
    Tick,
    /// The Raft instance produced a batch.
    Batch(Ready),
    /// The log store failed.
    StorageFailure,
    /// The validator shuts down.
    Shutdown,
}

/// The engine after an event.
pub open spec fn state_after(s: EngineState, event: Event) -> EngineState {
    match event {
        Event::PeerConnected(_) => s,
        Event::PeerDisconnected(_) => s,
        Event::BlockNew(block) => after_block_new(s, block),
        Event::BlockValid(block) => after_verdict(s, block, Validity::Valid),
        Event::BlockInvalid(block) => after_verdict(s, block, Validity::Invalid),
        Event::BlockCommit(_) => s,
        Event::PeerMessage { .. } => s,
        Event::Tick => after_tick(s),
        Event::Batch(batch) => after_drain(s, batch),
        Event::StorageFailure => stopped(s),
        Event::Shutdown => stopped(s),
    }
}

/// The directives that an event leads to.
pub open spec fn output_of(s: EngineState, event: Event) -> Seq<Directive> {
    match event {
        Event::PeerConnected(_) => Seq::empty(),
        Event::PeerDisconnected(_) => Seq::empty(),
        Event::BlockNew(block) => block_new_output(s, block),
        Event::BlockValid(_) => Seq::empty(),
        Event::BlockInvalid(_) => Seq::empty(),
        Event::BlockCommit(_) => Seq::empty(),
        Event::PeerMessage { sender, bytes } => peer_message_output(
            s,
            sender,
            bytes,
            peer_message_term(bytes@),
        ),
        Event::Tick => tick_output(s),
        Event::Batch(batch) => drain_output(s, batch),
        Event::StorageFailure => storage_failure_output(s),
        Event::Shutdown => shutdown_output(s),
    }
}

/// The orchestrator between the validator and one Raft node.
#[derive(Debug)]
pub struct RaftEngine {
    node: Node,
    pending: Vec<Proposal>,
    next_proposal: u64,
    applied: u64,
    committed: u64,
    running: bool,
}

impl View for RaftEngine {
    type V = EngineState;

    closed spec fn view(&self) -> EngineState {
        EngineState {
            node: self.node@,
            pending: self.pending@,
            next_proposal: self.next_proposal,
            applied: self.applied,
            committed: self.committed,
            running: self.running,
        }
    }
}

impl RaftEngine {
    /// The node is valid and the engine is consistent.
    pub closed spec fn wf(&self) -> bool {
        self.node.wf() && consistent(self@)
    }

    /// A valid engine is consistent.
    pub proof fn lemma_wf_consistent(&self)
        requires
            self.wf(),
        ensures
            consistent(self@),
    {
    }

    /// An engine for the node `id`, which starts as the only voter.
    pub fn new(id: NodeId) -> (r: RaftEngine)
        ensures
            r.wf(),
            r@.node.local == id,
            r@.node.voters == seq![id],
            r@.node.config_version == 0,
            r@.node.role == Role::Follower,
            r@.node.term == 0,
            r@.node.clock == 0,
            !r@.node.draining,
            r@.pending == Seq::<Proposal>::empty(),
            r@.next_proposal == 0,
            r@.applied == 0,
            r@.committed == 0,
            r@.running,
    {
        RaftEngine::with_config(ClusterConfig::single(id))
    }

    /// An engine for the local node of the given membership.
    pub fn with_config(config: ClusterConfig) -> (r: RaftEngine)
        requires
            config.wf(),
        ensures
            r.wf(),
            r@.node.local == config.local(),
            r@.node.voters == config.voters(),
            r@.node.config_version == config.version(),
            r@.node.role == Role::Follower,
            r@.node.term == 0,
            r@.node.clock == 0,
            !r@.node.draining,
            r@.pending == Seq::<Proposal>::empty(),
            r@.next_proposal == 0,
            r@.applied == 0,
            r@.committed == 0,
            r@.running,
    {
        RaftEngine {
            node: Node::new(config),
            pending: Vec::new(),
            next_proposal: 0,
            applied: 0,
            committed: 0,
            running: true,
        }
    }

    /// The node.
    pub fn node(&self) -> (r: &Node)
        ensures
            r@ == self@.node,
    {
        &self.node
    }

    /// The mirrored role.
    pub fn role(&self) -> (r: Role)
        ensures
            r == self@.node.role,
    {
        self.node.role()
    }

    /// The number of pending proposals.
    pub fn pending_len(&self) -> (r: usize)
        ensures
            r == self@.pending.len(),
    {
        self.pending.len()
    }

    /// The pending proposal at position `i`, oldest first, if there is one.
    pub fn pending_at(&self, i: usize) -> (r: Option<Proposal>)
        ensures
            r == if i < self@.pending.len() {
                Some(self@.pending[i as int])
            } else {
                None
            },
    {
        if i < self.pending.len() {
            Some(self.pending[i])
        } else {
            None
        }
    }

    /// The index of the last entry delivered for applying.
    pub fn applied_index(&self) -> (r: u64)
        ensures
            r == self@.applied,
    {
        self.applied
    }

    /// The highest commit index seen.
    pub fn committed_index(&self) -> (r: u64)
        ensures
            r == self@.committed,
    {
        self.committed
    }

    /// Whether the engine still handles events.
    pub fn is_running(&self) -> (r: bool)
        ensures
            r == self@.running,
    {
        self.running
    }

    /// The validator has assembled a block. The leader proposes it and keeps
    /// it as pending; any other node has the validator abandon it.
    pub fn on_block_new(&mut self, block: BlockId) -> (out: Vec<Directive>)
        requires
            old(self).wf(),
        ensures
            final(self).wf(),
            final(self)@ == after_block_new(old(self)@, block),
            out@ == block_new_output(old(self)@, block),
    {
        let mut out: Vec<Directive> = Vec::new();
        proof {
            law_invariant(self@, Event::BlockNew(block));
        }
        if !self.running {
            assert(out@ =~= Seq::<Directive>::empty());
            return out;
        }
        match self.node.propose(block) {
            Ok(term) => {
                if self.next_proposal < u64::MAX {
                    let proposal: u64 = self.next_proposal;
                    self.pending.push(Proposal { id: proposal, block, validity: Validity::Unknown });
                    self.next_proposal = proposal + 1;
                    out.push(Directive::Propose { proposal, term, block });
                    assert(out@ =~= seq![Directive::Propose { proposal, term, block }]);
                    return out;
                }
            },
            Err(_) => {},
        }
        out.push(Directive::CancelBlock { block });
        assert(out@ =~= seq![Directive::CancelBlock { block }]);
        out
    }

    /// The validator found the block valid: every pending proposal of it is
    /// marked so. Consensus does not move.
    pub fn on_block_valid(&mut self, block: BlockId)
        requires
            old(self).wf(),
        ensures
            final(self).wf(),
            final(self)@ == after_verdict(old(self)@, block, Validity::Valid),
    {
        proof {
            law_invariant(self@, Event::BlockValid(block));
        }
        if self.running {
            self.mark(block, Validity::Valid);
        }
    }

    /// The validator found the block invalid: every pending proposal of it is
    /// marked so. Consensus does not move.
    pub fn on_block_invalid(&mut self, block: BlockId)
        requires
            old(self).wf(),
        ensures
            final(self).wf(),
            final(self)@ == after_verdict(old(self)@, block, Validity::Invalid),
    {
        proof {
            law_invariant(self@, Event::BlockInvalid(block));
        }
        if self.running {
            self.mark(block, Validity::Invalid);
        }
    }

    fn mark(&mut self, block: BlockId, validity: Validity)
        ensures
            final(self).node == old(self).node,
            final(self).next_proposal == old(self).next_proposal,
            final(self).applied == old(self).applied,
            final(self).committed == old(self).committed,
            final(self).running == old(self).running,
            final(self).pending@ == with_validity(old(self).pending@, block, validity),
    {
        let n: usize = self.pending.len();
        let mut i: usize = 0;
        while i < n
            invariant
                i <= n,
                n == old(self).pending@.len(),
                self.pending@.len() == n,
                self.node == old(self).node,
                self.next_proposal == old(self).next_proposal,
                self.applied == old(self).applied,
                self.committed == old(self).committed,
                self.running == old(self).running,
                forall|j: int|
                    0 <= j < i ==> self.pending@[j] == with_validity(
                        old(self).pending@,
                        block,
                        validity,
                    )[j],
                forall|j: int| i <= j < n ==> self.pending@[j] == old(self).pending@[j],
            decreases n - i,
        {
            let p: Proposal = self.pending[i];
            if p.block == block {
                self.pending.set(i, Proposal { id: p.id, block: p.block, validity });
            }
            i = i + 1;
        }
        assert(self.pending@ =~= with_validity(old(self).pending@, block, validity));
    }

    /// A peer sent bytes: a message that decodes and is not stale goes to the
    /// Raft instance; any other is dropped.
    pub fn on_peer_message(&self, sender: NodeId, bytes: Vec<u8>) -> (out: Vec<Directive>)
        requires
            self.wf(),
        ensures
            out@ == peer_message_output(self@, sender, bytes, peer_message_term(bytes@)),
    {
        let decoded = decode_term(&bytes);
        self.route_peer_message(sender, bytes, decoded)
    }

    /// Routes a peer's bytes by what they decoded to: with a term that is
    /// not stale they go to the Raft instance, else they are dropped.
    pub fn route_peer_message(&self, sender: NodeId, bytes: Vec<u8>, decoded: Option<u64>) -> (out:
        Vec<Directive>)
        requires
            self.wf(),
        ensures
            out@ == peer_message_output(self@, sender, bytes, decoded),
    {
        let mut out: Vec<Directive> = Vec::new();
        if self.running {
            match decoded {
                Some(term) => {
                    if self.node.step(term).is_ok() {
                        out.push(Directive::Step { sender, bytes });
                        assert(out@ =~= seq![Directive::Step { sender, bytes }]);
                        return out;
                    }
                },
                None => {},
            }
        }
        assert(out@ =~= Seq::<Directive>::empty());
        out
    }

    /// The ticker fired: the Raft instance's clock advances by one tick, and
    /// nothing else happens.
    pub fn on_ticker_fire(&mut self) -> (out: Vec<Directive>)
        requires
            old(self).wf(),
        ensures
            final(self).wf(),
            final(self)@ == after_tick(old(self)@),
            out@ == tick_output(old(self)@),
    {
        let mut out: Vec<Directive> = Vec::new();
        if self.running {
            let admitted = self.node.tick();
            assert(admitted.is_ok());
            out.push(Directive::Tick);
            assert(out@ =~= seq![Directive::Tick]);
        } else {
            assert(out@ =~= Seq::<Directive>::empty());
        }
        out
    }

    /// The entries or the hard state could not be made durable. That is
    /// fatal: a running engine stops and asks for the process to end.
    pub fn on_storage_failure(&mut self) -> (out: Vec<Directive>)
        requires
            old(self).wf(),
        ensures
            final(self).wf(),
            final(self)@ == stopped(old(self)@),
            out@ == storage_failure_output(old(self)@),
    {
        let mut out: Vec<Directive> = Vec::new();
        if self.running {
            self.running = false;
            out.push(Directive::Fail);
            assert(out@ =~= seq![Directive::Fail]);
        } else {
            assert(out@ =~= Seq::<Directive>::empty());
        }
        out
    }

    /// Stops the engine: the ticker is cancelled, and from now on no event
    /// has any effect or asks for anything. A second shutdown changes nothing.
    pub fn shutdown(&mut self) -> (out: Vec<Directive>)
        requires
            old(self).wf(),
        ensures
            final(self).wf(),
            final(self)@ == stopped(old(self)@),
            out@ == shutdown_output(old(self)@),
    {
        let mut out: Vec<Directive> = Vec::new();
        if self.running {
            self.running = false;
            out.push(Directive::StopTicker);
            assert(out@ =~= seq![Directive::StopTicker]);
        } else {
            assert(out@ =~= Seq::<Directive>::empty());
        }
        out
    }
}

/// The proposals of `pending` that are left once `block` is committed.
pub fn settle(pending: &Vec<Proposal>, block: BlockId) -> (left: Vec<Proposal>)
    ensures
        left@ == without_block(pending@, block),
{
    let n: usize = pending.len();
    let mut left: Vec<Proposal> = Vec::new();
    let mut i: usize = 0;
    while i < n
        invariant
            i <= n,
            n == pending@.len(),
            left@ == without_block(pending@.subrange(0, i as int), block),
        decreases n - i,
    {
        proof {
            assert(pending@.subrange(0, i + 1).drop_last() =~= pending@.subrange(0, i as int));
        }
        if pending[i].block != block {
            left.push(pending[i]);
        }
        i = i + 1;
    }
    proof {
        assert(pending@.subrange(0, n as int) =~= pending@);
    }
    left
}

/// One cancellation for each pending proposal, oldest first.
pub fn cancel_all(pending: &Vec<Proposal>) -> (out: Vec<Directive>)
    ensures
        out@ == cancellations(pending@),
{
    let n: usize = pending.len();
    let mut out: Vec<Directive> = Vec::new();
    let mut i: usize = 0;
    while i < n
        invariant
            i <= n,
            n == pending@.len(),
            out@.len() == i,
            forall|j: int| 0 <= j < i ==> out@[j] == cancellations(pending@)[j],
        decreases n - i,
    {
        out.push(Directive::CancelBlock { block: pending[i].block });
        i = i + 1;
    }
    proof {
        assert(out@ =~= cancellations(pending@));
    }
    out
}

impl RaftEngine {
    /// Applies the committed entries in their order and gives the directives
    /// that deliver them.
    fn apply_committed(&mut self, entries: &Vec<LogEntry>) -> (out: Vec<Directive>)
        requires
            old(self).node.wf(),
        ensures
            final(self).node.wf(),
            out@ == apply_all(applying_from(old(self)@), old(self)@.node.local, entries@).out,
            final(self)@ == (EngineState {
                node: NodeState {
                    voters: apply_all(
                        applying_from(old(self)@),
                        old(self)@.node.local,
                        entries@,
                    ).voters,
                    config_version: apply_all(
                        applying_from(old(self)@),
                        old(self)@.node.local,
                        entries@,
                    ).version,
                    ..old(self)@.node
                },
                pending: apply_all(
                    applying_from(old(self)@),
                    old(self)@.node.local,
                    entries@,
                ).pending,
                applied: apply_all(
                    applying_from(old(self)@),
                    old(self)@.node.local,
                    entries@,
                ).applied,
                ..old(self)@
            }),
    {
        let ghost start = applying_from(self@);
        let ghost local = self@.node.local;
        let n: usize = entries.len();
        let mut out: Vec<Directive> = Vec::new();
        let mut i: usize = 0;
        while i < n
            invariant
                i <= n,
                n == entries@.len(),
                self.node.wf(),
                start == applying_from(old(self)@),
                local == old(self)@.node.local,
                self@.node.local == local,
                self@ == (EngineState {
                    node: NodeState {
                        voters: self@.node.voters,
                        config_version: self@.node.config_version,
                        ..old(self)@.node
                    },
                    pending: self@.pending,
                    applied: self@.applied,
                    ..old(self)@
                }),
                (Applying {
                    applied: self@.applied,
                    pending: self@.pending,
                    voters: self@.node.voters,
                    version: self@.node.config_version,
                    out: out@,
                }) == apply_all(start, local, entries@.subrange(0, i as int)),
            decreases n - i,
        {
            proof {
                assert(entries@.subrange(0, i + 1).drop_last() =~= entries@.subrange(0, i as int));
            }
            let e: LogEntry = entries[i];
            if self.applied < u64::MAX && e.index == self.applied + 1 {
                self.applied = e.index;
                match e.payload {
                    Payload::Noop => {},
                    Payload::Block(block) => {
                        self.pending = settle(&self.pending, block);
                        out.push(Directive::CommitBlock { index: e.index, block });
                    },
                    Payload::Conf(change) => {
                        self.node.apply_conf_change(change);
                        out.push(Directive::ApplyConfChange { index: e.index, change });
                    },
                }
            }
            i = i + 1;
        }
        proof {
            assert(entries@.subrange(0, n as int) =~= entries@);
        }
        out
    }

    /// Drains one batch of the Raft instance. The directives come in the
    /// order in which they must be carried out: the entries and the hard
    /// state are persisted before any message is sent, then the committed
    /// entries are applied in index order, then a change of leadership is
    /// acted on, and last the batch is acknowledged.
    pub fn drain_ready(&mut self, batch: Ready) -> (out: Vec<Directive>)
        requires
            old(self).wf(),
        ensures
            final(self).wf(),
            final(self)@ == after_drain(old(self)@, batch),
            out@ == drain_output(old(self)@, batch),
            final(self)@.committed >= old(self)@.committed,
            final(self)@.applied >= old(self)@.applied,
    {
        let mut out: Vec<Directive> = Vec::new();
        if !self.running {
            assert(out@ =~= Seq::<Directive>::empty());
            return out;
        }
        let was_leader: bool = self.node.role() == Role::Leader;
        let taken = match self.node.ready(batch) {
            None => {
                assert(out@ =~= Seq::<Directive>::empty());
                return out;
            },
            Some(taken) => taken,
        };
        let hard_state: Option<HardState> = taken.hard_state;
        out.push(Directive::Persist { entries: taken.entries, hard_state });
        out.push(Directive::Send { messages: taken.messages });
        let ghost before = self@;
        let mut delivered = self.apply_committed(&taken.committed);
        proof {
            lemma_apply_all_grows(
                applying_from(old(self)@),
                old(self)@.node.local,
                batch.committed@,
            );
        }
        assert(applying_from(before) == applying_from(old(self)@));
        out.append(&mut delivered);
        let is_leader: bool = self.node.role() == Role::Leader;
        if was_leader && !is_leader {
            let mut cancelled = cancel_all(&self.pending);
            out.append(&mut cancelled);
            self.pending = Vec::new();
            out.push(Directive::StopPublishing);
        } else if !was_leader && is_leader {
            out.push(Directive::InitializeBlock);
        }
        match hard_state {
            Some(h) => {
                if h.committed > self.committed {
                    self.committed = h.committed;
                }
            },
            None => {},
        }
        if self.applied > self.committed {
            self.committed = self.applied;
        }
        self.node.advance();
        out.push(Directive::Advance);
        proof {
            assert(out@ =~= drain_directives(old(self)@, batch));
            assert(self@.pending =~= drain_state(old(self)@, batch).pending);
            law_invariant(old(self)@, Event::Batch(batch));
        }
        out
    }
}

impl RaftEngine {
    /// Takes the next event of the ordered stream and gives the directives
    /// that it leads to.
    pub fn handle(&mut self, event: Event) -> (out: Vec<Directive>)
        requires
            old(self).wf(),
        ensures
            final(self).wf(),
            final(self)@ == state_after(old(self)@, event),
            out@ == output_of(old(self)@, event),
    {
        match event {
            Event::BlockNew(block) => self.on_block_new(block),
            Event::BlockValid(block) => {
                self.on_block_valid(block);
                Vec::new()
            },
            Event::BlockInvalid(block) => {
                self.on_block_invalid(block);
                Vec::new()
            },
            Event::PeerMessage { sender, bytes } => self.on_peer_message(sender, bytes),
            Event::Tick => self.on_ticker_fire(),
            Event::Batch(batch) => self.drain_ready(batch),
            Event::StorageFailure => self.on_storage_failure(),
            Event::Shutdown => self.shutdown(),
            Event::PeerConnected(_) => Vec::new(),
            Event::PeerDisconnected(_) => Vec::new(),
            Event::BlockCommit(_) => Vec::new(),
        }
    }
}

/// Applying entries never lowers the index of the last applied entry.
pub proof fn lemma_apply_all_grows(a: Applying, local: NodeId, entries: Seq<LogEntry>)
    ensures
        apply_all(a, local, entries).applied >= a.applied,
    decreases entries.len(),
{
    if entries.len() > 0 {
        lemma_apply_all_grows(a, local, entries.drop_last());
    }
}

} // verus!
