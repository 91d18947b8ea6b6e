//! What holds of the engine over every batch, every event and every run of
//! events.

use vstd::prelude::*;
use crate::config::NodeId;
use crate::node::{LogEntry, NodeState, Payload, Ready};
use crate::engine::{
    after_drain, apply_all, apply_entry, applying_from, cancellations, consistent, drain_output,
    drains, lemma_apply_all_grows, loses_leadership, ordered, output_of, state_after,
    without_block, Applying, Directive, EngineState, Event, Proposal,
};

verus! {

/// The log index that a directive delivers for applying, if it delivers one.
pub open spec fn delivered_index(d: Directive) -> Option<u64> {
    match d {
        Directive::CommitBlock { index, .. } => Some(index),
        Directive::ApplyConfChange { index, .. } => Some(index),
        _ => None,
    }
}

/// Whether the directive commits the block.
pub open spec fn commits(d: Directive, block: u64) -> bool {
    match d {
        Directive::CommitBlock { block: b, .. } => b == block,
        _ => false,
    }
}

/// Whether some directive of `out` commits the block.
pub open spec fn committed_in(out: Seq<Directive>, block: u64) -> bool {
    exists|i: int| 0 <= i < out.len() && commits(#[trigger] out[i], block)
}

/// Whether some directive of `out` cancels the block.
pub open spec fn cancelled_in(out: Seq<Directive>, block: u64) -> bool {
    exists|i: int| 0 <= i < out.len() && #[trigger] out[i] == (Directive::CancelBlock { block })
}

/// Applying entries keeps the directives given so far and adds only
/// deliveries, whose indices rise strictly from above the index applied
/// before up to the index applied after.
pub proof fn lemma_apply_all_delivers(a: Applying, local: NodeId, entries: Seq<LogEntry>)
    ensures
        ({
            let b = apply_all(a, local, entries);
            &&& a.applied <= b.applied
            &&& a.out.len() <= b.out.len()
            &&& forall|k: int| 0 <= k < a.out.len() ==> b.out[k] == a.out[k]
            &&& forall|k: int|
                a.out.len() <= k < b.out.len() ==> {
                    &&& delivered_index(#[trigger] b.out[k]).is_some()
                    &&& a.applied < delivered_index(b.out[k]).unwrap() <= b.applied
                }
            &&& forall|j: int, k: int|
                a.out.len() <= j < k < b.out.len() ==> delivered_index(#[trigger] b.out[j]).unwrap()
                    < delivered_index(#[trigger] b.out[k]).unwrap()
        }),
    decreases entries.len(),
{
    if entries.len() > 0 {
        lemma_apply_all_delivers(a, local, entries.drop_last());
    }
}

/// A proposal of another block than the committed one stays pending.
pub proof fn lemma_without_block_keeps(pending: Seq<Proposal>, block: u64, p: Proposal)
    requires
        pending.contains(p),
        p.block != block,
    ensures
        without_block(pending, block).contains(p),
    decreases pending.len(),
{
    let k = choose|k: int| 0 <= k < pending.len() && pending[k] == p;
    let rest = without_block(pending.drop_last(), block);
    if k < pending.len() - 1 {
        assert(pending.drop_last()[k] == p);
        lemma_without_block_keeps(pending.drop_last(), block, p);
        let m = choose|m: int| 0 <= m < rest.len() && rest[m] == p;
        if pending.last().block != block {
            assert(rest.push(pending.last())[m] == p);
        }
    } else {
        assert(pending.last() == p);
        assert(rest.push(p)[rest.len() as int] == p);
    }
}

/// A pending proposal is still pending after entries were applied, unless
/// one of the directives given since commits its block.
pub proof fn lemma_apply_all_settles(
    a: Applying,
    local: NodeId,
    entries: Seq<LogEntry>,
    p: Proposal,
)
    requires
        a.pending.contains(p),
    ensures
        apply_all(a, local, entries).pending.contains(p) || committed_in(
            apply_all(a, local, entries).out,
            p.block,
        ),
    decreases entries.len(),
{
    if entries.len() > 0 {
        let mid = apply_all(a, local, entries.drop_last());
        let e = entries.last();
        let b = apply_all(a, local, entries);
        lemma_apply_all_settles(a, local, entries.drop_last(), p);
        assert(b == apply_entry(mid, local, e));
        if committed_in(mid.out, p.block) {
            let i = choose|i: int| 0 <= i < mid.out.len() && commits(#[trigger] mid.out[i], p.block);
            assert(commits(b.out[i], p.block));
        } else if e.index as int == mid.applied as int + 1 {
            match e.payload {
                Payload::Block(block) => {
                    if p.block == block {
                        assert(commits(b.out[mid.out.len() as int], p.block));
                    } else {
                        lemma_without_block_keeps(mid.pending, block, p);
                    }
                },
                Payload::Conf(_) => {},
                Payload::Noop => {},
            }
        }
    }
}

/// Every index that a drained batch delivers lies above the index applied
/// before and not above the index applied after, and the indices rise
/// strictly along the directives.
pub proof fn law_delivery_range(s: EngineState, batch: Ready)
    ensures
        forall|i: int|
            0 <= i < drain_output(s, batch).len() && delivered_index(
                #[trigger] drain_output(s, batch)[i],
            ).is_some() ==> s.applied < delivered_index(drain_output(s, batch)[i]).unwrap()
                <= after_drain(s, batch).applied,
        forall|i: int, j: int|
            0 <= i < j < drain_output(s, batch).len() && delivered_index(
                #[trigger] drain_output(s, batch)[i],
            ).is_some() && delivered_index(#[trigger] drain_output(s, batch)[j]).is_some()
                ==> delivered_index(drain_output(s, batch)[i]).unwrap() < delivered_index(
                drain_output(s, batch)[j],
            ).unwrap(),
{
    if drains(s, batch) {
        let a = apply_all(applying_from(s), s.node.local, batch.committed@);
        lemma_apply_all_delivers(applying_from(s), s.node.local, batch.committed@);
        let out = drain_output(s, batch);
        assert forall|i: int| 0 <= i < out.len() && delivered_index(#[trigger] out[i]).is_some()
            implies 2 <= i < 2 + a.out.len() && out[i] == a.out[i - 2] by {
            if i >= 2 + a.out.len() && loses_leadership(s, batch) && i < 2 + a.out.len()
                + a.pending.len() {
                assert(out[i] == cancellations(a.pending)[i - 2 - a.out.len()]);
            }
        }
    }
}

/// A loss of leadership cancels the pending proposals: after the batch none
/// is pending, and for each that was pending the directives either commit
/// its block or cancel it.
pub proof fn law_leader_change_cancels(s: EngineState, batch: Ready, p: Proposal)
    requires
        drains(s, batch),
        loses_leadership(s, batch),
        s.pending.contains(p),
    ensures
        after_drain(s, batch).pending.len() == 0,
        committed_in(drain_output(s, batch), p.block) || cancelled_in(
            drain_output(s, batch),
            p.block,
        ),
{
    let a = apply_all(applying_from(s), s.node.local, batch.committed@);
    let out = drain_output(s, batch);
    lemma_apply_all_settles(applying_from(s), s.node.local, batch.committed@, p);
    if committed_in(a.out, p.block) {
        let i = choose|i: int| 0 <= i < a.out.len() && commits(#[trigger] a.out[i], p.block);
        assert(out[i + 2] == a.out[i]);
    } else {
        let m = choose|m: int| 0 <= m < a.pending.len() && a.pending[m] == p;
        assert(out[2 + a.out.len() + m] == cancellations(a.pending)[m]);
    }
}

/// The engine after the events of a run, taken in their order.
pub open spec fn run_state(s: EngineState, events: Seq<Event>) -> EngineState
    decreases events.len(),
{
    if events.len() == 0 {
        s
    } else {
        state_after(run_state(s, events.drop_last()), events.last())
    }
}

/// The directives of a run, in the order in which they were given.
pub open spec fn run_output(s: EngineState, events: Seq<Event>) -> Seq<Directive>
    decreases events.len(),
{
    if events.len() == 0 {
        Seq::empty()
    } else {
        run_output(s, events.drop_last()) + output_of(
            run_state(s, events.drop_last()),
            events.last(),
        )
    }
}

/// No event lowers the commit index or the index of the last applied entry,
/// and what an event delivers lies above the index applied before it, not
/// above the index applied after it, and rises strictly.
pub proof fn law_event_delivers(s: EngineState, event: Event)
    ensures
        s.committed <= state_after(s, event).committed,
        s.applied <= state_after(s, event).applied,
        forall|i: int|
            0 <= i < output_of(s, event).len() && delivered_index(
                #[trigger] output_of(s, event)[i],
            ).is_some() ==> s.applied < delivered_index(output_of(s, event)[i]).unwrap()
                <= state_after(s, event).applied,
        forall|i: int, j: int|
            0 <= i < j < output_of(s, event).len() && delivered_index(
                #[trigger] output_of(s, event)[i],
            ).is_some() && delivered_index(#[trigger] output_of(s, event)[j]).is_some()
                ==> delivered_index(output_of(s, event)[i]).unwrap() < delivered_index(
                output_of(s, event)[j],
            ).unwrap(),
{
    match event {
        Event::Batch(batch) => {
            lemma_apply_all_grows(applying_from(s), s.node.local, batch.committed@);
            law_delivery_range(s, batch);
        },
        _ => {},
    }
}

/// Commit monotonicity: over any run of events, the commit index and the
/// index of the last applied entry after the first `k` events are not above
/// those after all of them.
pub proof fn law_commit_monotonic(s: EngineState, events: Seq<Event>, k: int)
    requires
        0 <= k <= events.len(),
    ensures
        run_state(s, events.subrange(0, k)).committed <= run_state(s, events).committed,
        run_state(s, events.subrange(0, k)).applied <= run_state(s, events).applied,
    decreases events.len(),
{
    if k == events.len() {
        assert(events.subrange(0, k) =~= events);
    } else {
        let shorter = events.drop_last();
        law_commit_monotonic(s, shorter, k);
        assert(shorter.subrange(0, k) =~= events.subrange(0, k));
        law_event_delivers(run_state(s, shorter), events.last());
    }
}

/// Apply-once: over any run of events, the log indices that the directives
/// deliver rise strictly, so none is delivered twice; each lies above the
/// index applied before the run and not above the index applied after it.
pub proof fn law_apply_once(s: EngineState, events: Seq<Event>)
    ensures
        s.applied <= run_state(s, events).applied,
        forall|i: int|
            0 <= i < run_output(s, events).len() && delivered_index(
                #[trigger] run_output(s, events)[i],
            ).is_some() ==> s.applied < delivered_index(run_output(s, events)[i]).unwrap()
                <= run_state(s, events).applied,
        forall|i: int, j: int|
            0 <= i < j < run_output(s, events).len() && delivered_index(
                #[trigger] run_output(s, events)[i],
            ).is_some() && delivered_index(#[trigger] run_output(s, events)[j]).is_some()
                ==> delivered_index(run_output(s, events)[i]).unwrap() < delivered_index(
                run_output(s, events)[j],
            ).unwrap(),
    decreases events.len(),
{
    if events.len() > 0 {
        let shorter = events.drop_last();
        let mid = run_state(s, shorter);
        let before = run_output(s, shorter);
        let step = output_of(mid, events.last());
        let out = run_output(s, events);
        law_apply_once(s, shorter);
        law_event_delivers(mid, events.last());
        assert(out == before + step);
        assert forall|i: int| 0 <= i < out.len() implies #[trigger] out[i] == (if i < before.len() {
            before[i]
        } else {
            step[i - before.len()]
        }) by {}
    }
}

/// Settling a block keeps the order and the bound of the correlation ids,
/// and adds no proposal.
pub proof fn lemma_without_block_ordered(pending: Seq<Proposal>, block: u64, bound: u64)
    requires
        ordered(pending, bound),
    ensures
        ordered(without_block(pending, block), bound),
        without_block(pending, block).len() <= pending.len(),
    decreases pending.len(),
{
    if pending.len() > 0 {
        let shorter = pending.drop_last();
        assert forall|i: int| 0 <= i < shorter.len() implies #[trigger] shorter[i].id
            < pending.last().id by {
            assert(shorter[i] == pending[i]);
        }
        lemma_without_block_ordered(shorter, block, pending.last().id);
        lemma_without_block_ordered(shorter, block, bound);
    }
}

/// Applying entries keeps the order and the bound of the correlation ids,
/// and adds no proposal.
pub proof fn lemma_apply_all_ordered(a: Applying, local: NodeId, entries: Seq<LogEntry>, bound: u64)
    requires
        ordered(a.pending, bound),
    ensures
        ordered(apply_all(a, local, entries).pending, bound),
        apply_all(a, local, entries).pending.len() <= a.pending.len(),
    decreases entries.len(),
{
    if entries.len() > 0 {
        let mid = apply_all(a, local, entries.drop_last());
        lemma_apply_all_ordered(a, local, entries.drop_last(), bound);
        match entries.last().payload {
            Payload::Block(block) => {
                lemma_without_block_ordered(mid.pending, block, bound);
            },
            _ => {},
        }
    }
}

/// Every event keeps the engine consistent: whatever the stream brings, no
/// reachable state has two proposals under one correlation id, a pending
/// proposal on a node that is no leader, or an applied entry that is not
/// committed.
pub proof fn law_invariant(s: EngineState, event: Event)
    requires
        consistent(s),
    ensures
        consistent(state_after(s, event)),
{
    match event {
        Event::Batch(batch) => {
            lemma_apply_all_ordered(
                applying_from(s),
                s.node.local,
                batch.committed@,
                s.next_proposal,
            );
        },
        _ => {},
    }
}

/// Every run of events keeps the engine consistent.
pub proof fn law_invariant_over_runs(s: EngineState, events: Seq<Event>)
    requires
        consistent(s),
    ensures
        consistent(run_state(s, events)),
    decreases events.len(),
{
    if events.len() > 0 {
        law_invariant_over_runs(s, events.drop_last());
        law_invariant(run_state(s, events.drop_last()), events.last());
    }
}

/// The mirrored term never falls: after any run of events it is at least
/// what it was before.
pub proof fn law_term_never_falls(s: EngineState, events: Seq<Event>)
    ensures
        s.node.term <= run_state(s, events).node.term,
    decreases events.len(),
{
    if events.len() > 0 {
        law_term_never_falls(s, events.drop_last());
    }
}

/// A run of ticker signals alone moves nothing but the node's clock: it
/// proposes nothing, commits nothing and cancels nothing, and every
/// directive it gives is a tick.
pub proof fn law_ticks_only_tick(s: EngineState, events: Seq<Event>)
    requires
        forall|i: int| 0 <= i < events.len() ==> events[i] == Event::Tick,
    ensures
        run_state(s, events) == (EngineState {
            node: NodeState { clock: run_state(s, events).node.clock, ..s.node },
            ..s
        }),
        s.node.clock <= run_state(s, events).node.clock,
        forall|i: int|
            0 <= i < run_output(s, events).len() ==> run_output(s, events)[i] == Directive::Tick,
    decreases events.len(),
{
    if events.len() > 0 {
        let shorter = events.drop_last();
        assert forall|i: int| 0 <= i < shorter.len() implies shorter[i] == Event::Tick by {
            assert(shorter[i] == events[i]);
        }
        law_ticks_only_tick(s, shorter);
        assert(events.last() == events[events.len() - 1]);
    }
}

} // verus!
