//! Laws of slots at work: their device blocks, what of them is offloaded, and what the leader
//! keeps of transfers.

use vstd::prelude::*;

use crate::effect_context::ContextView;
use crate::outbox::OutboxView;
use crate::protocol::{BlockId, OperationId, RequestType, SequenceHash, SlotKeyView, TransferType};
use crate::signals::SignalState;
use crate::slot_manager::{self, ManagerView, PoolStatus, PoolTier};
use crate::slot_runtime::{self, DeviceBlockTableUpdateKind, SlotView};
use crate::tokens::{SequenceView, TokenBlockView};
use crate::transfer_requests::{self, TransferRequestView, WorkerRequestView};

verus! {

/// A reported table appends exactly if it is longer and begins with the known blocks, changes
/// nothing exactly if it is the known table, and replaces it otherwise.
pub proof fn tables_are_told_apart(existing: Seq<BlockId>, incoming: Seq<BlockId>)
    ensures
        ({
            let kind = slot_runtime::table_update(existing, incoming);
            &&& kind == DeviceBlockTableUpdateKind::AppendSuffix <==> {
                &&& incoming.len() > existing.len()
                &&& forall|i: int| 0 <= i < existing.len() ==> #[trigger] incoming[i] == existing[i]
            }
            &&& kind == DeviceBlockTableUpdateKind::NoChange <==> {
                &&& incoming.len() == existing.len()
                &&& forall|i: int| 0 <= i < existing.len() ==> #[trigger] incoming[i] == existing[i]
            }
        }),
{
    let n = existing.len() as int;
    if incoming.len() > existing.len() {
        if forall|i: int| 0 <= i < n ==> #[trigger] incoming[i] == existing[i] {
            assert(incoming.subrange(0, n) =~= existing);
        }
        if incoming.subrange(0, n) == existing {
            assert forall|i: int| 0 <= i < n implies #[trigger] incoming[i] == existing[i] by {
                assert(incoming.subrange(0, n)[i] == existing[i]);
            }
        }
    }
    if incoming.len() == existing.len() && (forall|i: int|
        0 <= i < n ==> #[trigger] incoming[i] == existing[i]) {
        assert(incoming =~= existing);
    }
}

/// The last place of a block is where it stands for the last time.
pub proof fn last_place_is_the_last(blocks: Seq<BlockId>, id: BlockId)
    ensures
        ({
            let place = slot_runtime::last_place(blocks, id);
            &&& place <= blocks.len()
            &&& place > 0 ==> blocks[place - 1] == id
            &&& forall|i: int| place <= i < blocks.len() ==> #[trigger] blocks[i] != id
        }),
    decreases blocks.len(),
{
    if blocks.len() > 0 && blocks.last() != id {
        let front = blocks.drop_last();
        last_place_is_the_last(front, id);
        let place = slot_runtime::last_place(blocks, id);
        assert forall|i: int| place <= i < blocks.len() implies #[trigger] blocks[i] != id by {
            if i < front.len() {
                assert(front[i] == blocks[i]);
            }
        }
        if place > 0 {
            assert(front[place - 1] == blocks[place - 1]);
        }
    }
}

/// After a report the known blocks are still at the front, and the reported blocks are the last
/// ones.
pub proof fn reported_blocks_end_the_table(known: Seq<BlockId>, reported: Seq<BlockId>)
    ensures
        ({
            let merged = slot_runtime::merged_blocks(known, reported);
            &&& known.len() <= merged.len() <= known.len() + reported.len()
            &&& merged.subrange(0, known.len() as int) == known
            &&& reported.len() <= merged.len()
            &&& merged.subrange(merged.len() - reported.len(), merged.len() as int) == reported
        }),
{
    let n = slot_runtime::overlap(known, reported);
    let merged = slot_runtime::merged_blocks(known, reported);
    assert(merged.subrange(0, known.len() as int) =~= known);
    if reported.len() > 0 {
        last_place_is_the_last(known, reported[0]);
    }
    if n > 0 {
        let pos = slot_runtime::last_place(known, reported[0]) - 1;
        let suffix = known.subrange(pos, known.len() as int);
        assert(reported.subrange(0, suffix.len() as int) == suffix);
        assert forall|i: int| 0 <= i < reported.len() implies merged[merged.len() - reported.len()
            + i] == #[trigger] reported[i] by {
            if i < n {
                assert(reported.subrange(0, n as int)[i] == reported[i]);
                assert(suffix[i] == known[pos + i]);
            }
        }
    }
    assert(merged.subrange(merged.len() - reported.len(), merged.len() as int) =~= reported);
}

/// Blocks of which none is known yet are all added.
pub proof fn unknown_blocks_are_added(known: Seq<BlockId>, reported: Seq<BlockId>)
    requires
        reported.len() > 0 ==> !known.contains(reported[0]),
    ensures
        slot_runtime::merged_blocks(known, reported) == known + reported,
{
    if reported.len() > 0 {
        last_place_is_the_last(known, reported[0]);
        let place = slot_runtime::last_place(known, reported[0]);
        if place > 0 {
            assert(known.contains(known[place - 1]));
        }
    }
    assert(slot_runtime::merged_blocks(known, reported) =~= known + reported);
}

/// Positions add up, as long as they fit.
pub proof fn positions_add_up(a: usize, b: usize)
    ensures
        a + b <= usize::MAX ==> slot_runtime::saturating_sum(a, b) == a + b,
        a + b > usize::MAX ==> slot_runtime::saturating_sum(a, b) == usize::MAX,
{
}

/// A full report of the table is taken over, whatever was known. What was considered for offload
/// is taken back only where the table got shorter and the lower tiers protect the blocks, and then
/// only as far as the table reaches.
pub proof fn reported_tables_are_taken_over(slot: SlotView, table: Seq<BlockId>)
    ensures
        ({
            let next = slot.with_table(table);
            &&& next.device_blocks == table
            &&& next.evaluated_blocks <= slot.evaluated_blocks
            &&& next.evaluated_blocks < slot.evaluated_blocks ==> {
                &&& !slot.g1_residency_unprotected
                &&& table.len() < slot.device_blocks.len()
                &&& next.evaluated_blocks == table.len()
            }
            &&& !slot.g1_residency_unprotected && table.len() < slot.device_blocks.len()
                ==> next.evaluated_blocks <= table.len()
            &&& next == (SlotView {
                device_blocks: next.device_blocks,
                evaluated_blocks: next.evaluated_blocks,
                ..slot
            })
        }),
{
}

/// The priority that was reported last for a block holds; other blocks keep theirs, and a block
/// without one has zero.
pub proof fn last_reported_priority_holds(
    slot: SlotView,
    block_ids: Seq<BlockId>,
    priorities: Seq<u32>,
    n: nat,
    id: BlockId,
)
    requires
        n <= block_ids.len(),
        n <= priorities.len(),
    ensures
        ({
            let next = SlotView::with_priorities(slot.priorities, block_ids, priorities, n);
            &&& forall|k: int|
                0 <= k < n && #[trigger] block_ids[k] == id && (forall|j: int|
                    k < j < n ==> #[trigger] block_ids[j] != id) ==> next.dom().contains(id)
                    && next[id] == priorities[k]
            &&& (forall|j: int| 0 <= j < n ==> #[trigger] block_ids[j] != id) ==> {
                &&& next.dom().contains(id) == slot.priorities.dom().contains(id)
                &&& next.dom().contains(id) ==> next[id] == slot.priorities[id]
            }
        }),
        slot.priorities.dom().contains(id) ==> slot.priority_of(id) == slot.priorities[id],
        !slot.priorities.dom().contains(id) ==> slot.priority_of(id) == 0,
    decreases n,
{
    if n > 0 {
        last_reported_priority_holds(slot, block_ids, priorities, (n - 1) as nat, id);
        let next = SlotView::with_priorities(slot.priorities, block_ids, priorities, n);
        if block_ids[n - 1] == id {
            assert(next[id] == priorities[n - 1]);
        }
        if forall|j: int| 0 <= j < n ==> #[trigger] block_ids[j] != id {
            assert(block_ids[n - 1] != id);
        }
    }
}

/// Blocks are admitted from the first on, up to the first whose priority is too low.
pub proof fn admission_stops_at_low_priority(slot: SlotView, start: int, n: nat)
    ensures
        ({
            let m = slot.admitted(start, n);
            &&& m <= n
            &&& forall|i: int|
                0 <= i < m ==> slot.priority_of(#[trigger] slot.device_blocks[start + i])
                    >= slot.offload_min_priority
            &&& m < n ==> slot.priority_of(slot.device_blocks[start + m])
                < slot.offload_min_priority
        }),
    decreases n,
{
    if n > 0 {
        admission_stops_at_low_priority(slot, start, (n - 1) as nat);
        let m = slot.admitted(start, n);
        let before = slot.admitted(start, (n - 1) as nat);
        assert forall|i: int| 0 <= i < m implies slot.priority_of(
            #[trigger] slot.device_blocks[start + i],
        ) >= slot.offload_min_priority by {
            if i == n - 1 {
                assert(before == n - 1);
            }
        }
    }
}

/// Of the blocks that were passed, as many are offloaded as have hashes and sufficient priority:
/// all of them where every block is admitted and the sequence has its hash.
pub proof fn passed_blocks_are_offloaded(slot: SlotView, candidates: nat)
    ensures
        ({
            let n = slot.offload_count(candidates);
            &&& n <= candidates
            &&& slot.evaluated_blocks + n <= slot.sequence.hashes.len() || n == 0
            &&& slot.offload_min_priority > 0 ==> forall|i: int|
                0 <= i < n ==> slot.priority_of(
                    #[trigger] slot.device_blocks[slot.evaluated_blocks + i],
                ) >= slot.offload_min_priority
            &&& slot.offload_min_priority == 0 && slot.evaluated_blocks + candidates
                <= slot.sequence.hashes.len() ==> n == candidates
            &&& n < candidates && slot.evaluated_blocks + n < slot.sequence.hashes.len()
                ==> slot.offload_min_priority > 0 && slot.priority_of(
                slot.device_blocks[slot.evaluated_blocks + n],
            ) < slot.offload_min_priority
        }),
{
    admission_stops_at_low_priority(slot, slot.evaluated_blocks as int, candidates);
}

/// An offload names each device block together with its hash, its tokens and its priority, in
/// order, from where the last consideration ended, under the key of the slot.
pub proof fn offloads_name_their_blocks(slot: SlotView, n: nat, id: OperationId, i: int)
    requires
        0 <= i < n,
        slot.evaluated_blocks + n <= slot.device_blocks.len(),
    ensures
        ({
            let request = slot.offload_request(n, id);
            let place = slot.evaluated_blocks + i;
            &&& request.key == (slot.request_id, slot.generation)
            &&& request.request_id == slot.request_id
            &&& request.operation_id == id
            &&& request.block_size == slot.block_size
            &&& request.block_ids.len() == n
            &&& request.priorities.len() == n
            &&& request.sequence_hashes.len() == n
            &&& request.token_blocks.len() == n
            &&& request.block_ids[i] == slot.device_blocks[place]
            &&& request.sequence_hashes[i] == slot.sequence.hashes[place]
            &&& request.token_blocks[i].sequence_hash == slot.sequence.hashes[place]
            &&& request.token_blocks[i].tokens == slot.sequence.tokens.subrange(
                place * slot.sequence.block_size,
                (place + 1) * slot.sequence.block_size,
            )
            &&& request.priorities[i] == slot.priority_of(slot.device_blocks[place])
            &&& request.traceparent == slot.traceparent
            &&& request.baggage == slot.baggage
        }),
{
}

/// What the position has passed is considered once. Offloading stops for good exactly where a
/// block was refused for its priority, at that block.
pub proof fn refused_blocks_stop_the_offload(slot: SlotView, n: nat)
    requires
        slot.block_size > 0,
        slot.evaluated_blocks <= slot.next_block(),
        slot.evaluated_blocks + n <= usize::MAX,
        slot.offload_terminated_at_block is None,
    ensures
        ({
            let next = slot.evaluated(n);
            &&& next.evaluated_blocks == slot.current_position / slot.block_size
            &&& next.offload_terminated_at_block is Some <==> slot.offload_min_priority > 0
                && slot.evaluated_blocks + n < slot.current_position / slot.block_size
            &&& next.offload_terminated_at_block matches Some(place) ==> place
                == slot.evaluated_blocks + n
            &&& next == (SlotView {
                evaluated_blocks: next.evaluated_blocks,
                offload_terminated_at_block: next.offload_terminated_at_block,
                ..slot
            })
        }),
{
}

/// An offload that starts is known everywhere under one operation: the transfer engine gets the
/// request, the workers get a store that waits for the scheduler, and the signals get a pending
/// store of the request.
pub proof fn offloads_are_announced_everywhere(
    slot: SlotView,
    ctx: ContextView,
    num_computed_tokens: usize,
    priorities: Option<Seq<u32>>,
    block_ids: Seq<BlockId>,
    id: OperationId,
)
    ensures
        ({
            let (next, after, there) = slot.offloaded(
                ctx,
                num_computed_tokens,
                priorities,
                block_ids,
                id,
            );
            let key = (slot.request_id, slot.generation);
            &&& there || !ctx.open
            &&& !ctx.open ==> after == ctx
            &&& after != ctx ==> {
                &&& after.requests.len() == ctx.requests.len() + 1
                &&& after.requests.drop_last() =~= ctx.requests
                &&& after.requests.last() is Offload
                &&& after.requests.last()->Offload_0.operation_id == id
                &&& after.requests.last()->Offload_0.key == key
                &&& after.worker_ops.dom().contains(key)
                &&& after.worker_ops[key].last().uuid == id
                &&& after.worker_ops[key].last().key == key
                &&& after.worker_ops[key].last().transfer_type == TransferType::Store
                &&& after.worker_ops[key].last().request_type == RequestType::Scheduled
                &&& after.worker_ops[key].last().block_ids
                    == after.requests.last()->Offload_0.block_ids
                &&& after.signals.len() == ctx.signals.len() + 1
                &&& after.signals.drop_last() =~= ctx.signals
                &&& after.signals.last().operation_id == id
                &&& after.signals.last().request_id == slot.request_id
                &&& after.signals.last().transfer_type == TransferType::Store
                &&& after.signals.last().state == SignalState::Pending
            }
            &&& next.sequence == slot.sequence
            &&& next.device_blocks == slot.device_blocks
            &&& next.phase == slot.phase
            &&& next.request_id == slot.request_id
        }),
{
}

/// Blocks that the engine had computed already count as considered: nothing of them is offloaded.
/// A slot whose offloading stopped keeps its place.
pub proof fn computed_blocks_are_not_offloaded(
    slot: SlotView,
    num_computed_tokens: usize,
    priorities: Option<Seq<u32>>,
    block_ids: Seq<BlockId>,
)
    requires
        slot.block_size > 0,
    ensures
        ({
            let ready = slot.ready_to_offload(num_computed_tokens, priorities, block_ids);
            &&& slot.offload_terminated_at_block is None ==> {
                &&& ready.evaluated_blocks >= num_computed_tokens / slot.block_size
                &&& ready.evaluated_blocks >= slot.evaluated_blocks
                &&& ready.evaluated_blocks == slot.evaluated_blocks || ready.evaluated_blocks
                    == num_computed_tokens / slot.block_size
            }
            &&& slot.offload_terminated_at_block is Some ==> ready.evaluated_blocks
                == slot.evaluated_blocks
            &&& priorities is None ==> ready.priorities == slot.priorities
            &&& ready == (SlotView {
                evaluated_blocks: ready.evaluated_blocks,
                priorities: ready.priorities,
                ..slot
            })
        }),
{
}

/// Blocks that were passed with sufficient priority, whose device blocks and hashes are known, are
/// offloaded as long as the transfer engine is there.
pub proof fn known_blocks_reach_the_engine(
    slot: SlotView,
    ctx: ContextView,
    num_computed_tokens: usize,
    block_ids: Seq<BlockId>,
    id: OperationId,
)
    requires
        slot.block_size > 0,
        ctx.open,
        slot.offload_terminated_at_block is None,
        slot.offload_min_priority == 0,
        num_computed_tokens / slot.block_size <= slot.evaluated_blocks,
        slot.evaluated_blocks < slot.current_position / slot.block_size,
        slot.current_position / slot.block_size <= slot.device_blocks.len(),
        slot.current_position / slot.block_size <= slot.sequence.hashes.len(),
    ensures
        ({
            let (next, after, there) = slot.offloaded(
                ctx,
                num_computed_tokens,
                None,
                block_ids,
                id,
            );
            &&& there
            &&& next.evaluated_blocks == slot.current_position / slot.block_size
            &&& after.requests.len() == ctx.requests.len() + 1
            &&& after.requests.last() is Offload
            &&& after.requests.last()->Offload_0.block_ids == slot.device_blocks.subrange(
                slot.evaluated_blocks as int,
                slot.current_position as int / slot.block_size as int,
            )
        }),
{
    let ready = slot.ready_to_offload(num_computed_tokens, None, block_ids);
    let candidates = (ready.next_block() - ready.evaluated_blocks) as nat;
    assert(ready.offload_count(candidates) == candidates);
}

/// A slot that nothing can keep stops offloading where it is; one without device blocks has no
/// position and nothing behind it.
pub proof fn slots_stop_and_restart(slot: SlotView)
    ensures
        ({
            let stopped = slot.unprotected();
            &&& stopped.g1_residency_unprotected
            &&& stopped.offload_terminated_at_block == Some(slot.evaluated_blocks)
            &&& stopped.device_blocks == slot.device_blocks
            &&& stopped.evaluated_blocks == slot.evaluated_blocks
        }),
        ({
            let bare = slot.without_device_blocks();
            &&& bare.device_blocks.len() == 0
            &&& bare.current_position == 0
            &&& bare.evaluated_blocks == 0
            &&& bare.offload_terminated_at_block is None
            &&& bare.priorities.dom() =~= Set::empty()
            &&& bare.sequence == slot.sequence
            &&& bare.phase == slot.phase
            &&& bare.request_id == slot.request_id
        }),
        slot.key() == (slot.request_id, slot.generation),
        slot.is_skipped() <==> slot.phase is SkippedPrefill || slot.phase is SkippedDecode,
        slot.block_size > 0 ==> slot.next_block() == slot.current_position / slot.block_size,
{
}

/// An onboard fills the blocks that were allocated for it, or else all blocks of the slot.
pub proof fn onboards_fill_the_allocated_blocks(slot: SlotView, ids: &[BlockId])
    ensures
        slot_runtime::onboard_target(slot, Some(ids)) == ids@,
        slot_runtime::onboard_target(slot, None) == slot.device_blocks,
{
}

/// Changing the phase changes nothing else but the start of an onboard.
pub proof fn phases_leave_the_slot_alone(
    slot: SlotView,
    phase: slot_runtime::VllmPhaseView,
    now: std::time::Instant,
)
    ensures
        slot.in_phase(phase).phase == phase,
        slot.entered(phase, now).phase == phase,
        slot.placed(phase, now).phase == phase,
        slot.in_phase(phase) == (SlotView {
            phase,
            onboarding_since: slot.in_phase(phase).onboarding_since,
            ..slot
        }),
        slot.entered(phase, now) == (SlotView {
            phase,
            onboarding_since: slot.entered(phase, now).onboarding_since,
            ..slot
        }),
        slot.placed(phase, now) == (SlotView {
            phase,
            onboarding_since: slot.placed(phase, now).onboarding_since,
            ..slot
        }),
        !(phase is Onboarding) ==> slot.entered(phase, now).onboarding_since is None
            && slot.placed(phase, now).onboarding_since is None
            && slot.in_phase(phase).onboarding_since is None,
        phase is Onboarding && slot.onboarding_since is Some ==> slot.placed(
            phase,
            now,
        ).onboarding_since == slot.onboarding_since,
        phase is Onboarding && slot.onboarding_since is None ==> slot.placed(
            phase,
            now,
        ).onboarding_since == Some(now),
{
}

/// The blocks of a sequence hold its tokens in order, `block_size` each, and the hash of a block
/// stands at its place.
pub proof fn blocks_hold_their_tokens(sequence: SequenceView, start: int, end: int, i: int, t: int)
    requires
        sequence.wf(),
        0 <= start <= start + i < end <= sequence.hashes.len(),
        0 <= i,
        0 <= t < sequence.block_size,
    ensures
        ({
            let blocks = sequence.block_range(start, end);
            &&& blocks.len() == end - start
            &&& blocks[i].sequence_hash == sequence.hashes[start + i]
            &&& blocks[i].tokens.len() == sequence.block_size
            &&& blocks[i].tokens[t] == sequence.tokens[(start + i) * sequence.block_size + t]
        }),
{
    let k = start + i;
    let size = sequence.block_size as int;
    vstd::arithmetic::div_mod::lemma_fundamental_div_mod(sequence.tokens.len() as int, size);
    assert((k + 1) * size == k * size + size) by (nonlinear_arith);
    assert((k + 1) * size <= size * sequence.hashes.len()) by (nonlinear_arith)
        requires
            k + 1 <= sequence.hashes.len(),
            size > 0,
    ;
    assert(0 <= k * size) by (nonlinear_arith)
        requires
            k >= 0,
            size > 0,
    ;
    assert((sequence.tokens.len() as int) % size >= 0);
}

/// A hash identifies a block exactly if the sequence holds it, and then a block with that hash.
pub proof fn hashes_identify_blocks(sequence: SequenceView, hash: SequenceHash)
    ensures
        sequence.find(hash) is Some <==> sequence.hashes.contains(hash),
        sequence.find(hash) matches Some(block) ==> block.sequence_hash == hash,
{
    if sequence.hashes.contains(hash) {
        sequence.hashes.index_of_first_ensures(hash);
    }
}

/// Resolving keeps the order of the hashes and leaves out those that identify no block.
pub proof fn resolved_blocks_follow_the_hashes(
    sequence: SequenceView,
    hashes: Seq<SequenceHash>,
    hash: SequenceHash,
)
    ensures
        sequence.resolve(Seq::empty()).len() == 0,
        sequence.hashes.contains(hash) ==> sequence.resolve(hashes.push(hash)).len()
            == sequence.resolve(hashes).len() + 1 && sequence.resolve(
            hashes.push(hash),
        ).last().sequence_hash == hash && sequence.resolve(hashes.push(hash)).drop_last()
            =~= sequence.resolve(hashes),
        !sequence.hashes.contains(hash) ==> sequence.resolve(hashes.push(hash))
            == sequence.resolve(hashes),
{
    assert(hashes.push(hash).drop_last() =~= hashes);
    hashes_identify_blocks(sequence, hash);
}

/// The hashes of blocks stand in the order of the blocks.
pub proof fn block_hashes_stand_in_order(blocks: Seq<TokenBlockView>, i: int)
    requires
        0 <= i < blocks.len(),
    ensures
        transfer_requests::block_hashes(blocks).len() == blocks.len(),
        transfer_requests::block_hashes(blocks)[i] == blocks[i].sequence_hash,
{
}

/// A transfer that starts is on its way to the engine, waits for the workers of its slot behind
/// what waited before, and is signalled as pending; where the engine is gone, nothing happens.
pub proof fn started_transfers_are_registered(
    ctx: ContextView,
    request: TransferRequestView,
    op: WorkerRequestView,
    other: SlotKeyView,
)
    ensures
        ({
            let after = ctx.dispatch(request, op);
            &&& !ctx.open ==> after == ctx
            &&& ctx.open ==> {
                &&& after.requests == ctx.requests.push(request)
                &&& after.worker_ops.dom() =~= ctx.worker_ops.dom().insert(op.key)
                &&& after.worker_ops[op.key].last() == op
                &&& ctx.worker_ops.dom().contains(op.key) ==> after.worker_ops[op.key].drop_last()
                    =~= ctx.worker_ops[op.key]
                &&& !ctx.worker_ops.dom().contains(op.key) ==> after.worker_ops[op.key].len() == 1
                &&& other != op.key && ctx.worker_ops.dom().contains(other)
                    ==> after.worker_ops[other] == ctx.worker_ops[other]
                &&& after.signals.drop_last() =~= ctx.signals
                &&& after.signals.last().operation_id == op.uuid
                &&& after.signals.last().request_id == op.key.0
                &&& after.signals.last().transfer_type == op.transfer_type
                &&& after.signals.last().state == SignalState::Pending
            }
            &&& after.open == ctx.open
            &&& after.stats == ctx.stats
            &&& after.has_remote == ctx.has_remote
            &&& after.world_size == ctx.world_size
        }),
        ({
            let after = ctx.send(request);
            &&& ctx.open ==> after.requests == ctx.requests.push(request)
            &&& !ctx.open ==> after.requests == ctx.requests
            &&& after.signals == ctx.signals
            &&& after.worker_ops == ctx.worker_ops
            &&& after.open == ctx.open
        }),
{
}

/// What is sent arrives in order while the receiver listens, and is dropped afterwards.
pub proof fn messages_are_sent_in_order<T>(outbox: OutboxView<T>, item: T)
    ensures
        outbox.open ==> outbox.send(item).items == outbox.items.push(item),
        !outbox.open ==> outbox.send(item).items == outbox.items,
        outbox.send(item).open == outbox.open,
{
}

/// A prefetch that completed is told from one that failed and from one that still runs; a
/// completion is preferred. The outcome is taken once.
pub proof fn prefetch_outcomes_are_taken_once(manager: ManagerView, id: OperationId, other: OperationId)
    ensures
        manager.prefetch_outcome(id) == Some(true) <==> manager.prefetch_completed.contains(id),
        manager.prefetch_outcome(id) == Some(false) <==> manager.prefetch_failed.contains(id)
            && !manager.prefetch_completed.contains(id),
        ({
            let after = manager.outcome_taken(id);
            &&& manager.prefetch_completed.contains(id) ==> !after.prefetch_completed.contains(id)
            &&& manager.prefetch_outcome(id) == Some(false) ==> !after.prefetch_failed.contains(id)
            &&& manager.prefetch_outcome(id) is None ==> after == manager
            &&& other != id ==> after.prefetch_outcome(other) == manager.prefetch_outcome(other)
            &&& after.slots == manager.slots
            &&& after.effects == manager.effects
        }),
{
}

/// A slot that is put in place stands under its key, and the others stay.
pub proof fn slots_stand_under_their_keys(
    manager: ManagerView,
    key: SlotKeyView,
    slot: SlotView,
    other: SlotKeyView,
)
    ensures
        ({
            let after = manager.with_slot(key, slot);
            &&& after.slots.dom().contains(key)
            &&& after.slots[key] == slot
            &&& other != key ==> after.slots.dom().contains(other)
                == manager.slots.dom().contains(other)
            &&& other != key && manager.slots.dom().contains(other) ==> after.slots[other]
                == manager.slots[other]
            &&& after.effects == manager.effects
        }),
        manager.without_slots().slots.dom() =~= Set::empty(),
        manager.without_slots().effects == manager.effects,
{
}

/// Each pool has its names and its own flag.
pub proof fn pools_go_by_their_names(device: bool, host: bool, disk: bool)
    ensures
        slot_manager::pool_named("gpu"@) == Some(PoolTier::Device),
        slot_manager::pool_named("device"@) == Some(PoolTier::Device),
        slot_manager::pool_named("cpu"@) == Some(PoolTier::Host),
        slot_manager::pool_named("host"@) == Some(PoolTier::Host),
        slot_manager::pool_named("disk"@) == Some(PoolTier::Disk),
        slot_manager::configured(PoolTier::Device, device, host, disk) == device,
        slot_manager::configured(PoolTier::Host, device, host, disk) == host,
        slot_manager::configured(PoolTier::Disk, device, host, disk) == disk,
{
    reveal_strlit("gpu");
    reveal_strlit("device");
    reveal_strlit("cpu");
    reveal_strlit("host");
    reveal_strlit("disk");
    assert("cpu"@ != "gpu"@) by {
        assert("cpu"@[0] != "gpu"@[0]);
    }
    assert("host"@ != "disk"@) by {
        assert("host"@[0] != "disk"@[0]);
    }
    assert("cpu"@.len() == 3 && "gpu"@.len() == 3 && "host"@.len() == 4 && "disk"@.len() == 4
        && "device"@.len() == 6);
}

/// The status lists each pool that is there under its own name, and no other.
pub proof fn statuses_are_those_of_the_pools(
    device: Option<PoolStatus>,
    host: Option<PoolStatus>,
    disk: Option<PoolStatus>,
)
    ensures
        ({
            let pools = slot_manager::pool_status(device, host, disk);
            &&& pools.dom().contains("device"@) == (device is Some)
            &&& device is Some ==> pools["device"@] == device->0
            &&& pools.dom().contains("host"@) == (host is Some)
            &&& host is Some ==> pools["host"@] == host->0
            &&& pools.dom().contains("disk"@) == (disk is Some)
            &&& disk is Some ==> pools["disk"@] == disk->0
            &&& forall|name: Seq<char>| #[trigger]
                pools.dom().contains(name) ==> name == "device"@ || name == "host"@ || name
                    == "disk"@
        }),
{
    reveal_strlit("device");
    reveal_strlit("host");
    reveal_strlit("disk");
    assert("host"@ != "disk"@) by {
        assert("host"@[0] != "disk"@[0]);
    }
    assert("device"@.len() == 6 && "host"@.len() == 4 && "disk"@.len() == 4);
}

} // verus!
