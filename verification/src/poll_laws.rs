//! Laws of polls and allocations: what the engine is told of cached tokens, and what starts when it
//! allocated blocks for them.

use vstd::prelude::*;

use crate::effect_context::ContextView;
use crate::effect_executor::{self, Draw, LookupView, ResultView};
use crate::leader_core::{self, LeaderView, PollView};
use crate::protocol::{BlockId, OperationId, RequestType, SequenceHash, SlotKeyView, TransferType};
use crate::signals::{self, SignalState};
use crate::slot_machine::{self, DisclosureState, EffectView, EventView, SlotContext};
use crate::slot_manager::ManagerView;
use crate::slot_runtime::SlotView;
use crate::transfer_requests::StagingTier;

verus! {

/// While a lookup runs the engine has to ask again, and nothing changes.
pub proof fn polls_wait_for_lookups(
    slot: SlotView,
    manager: ManagerView,
    ctx: SlotContext,
    overdue: bool,
    draws: Seq<Draw>,
)
    requires
        slot.phase is AwaitingLookup || slot.phase is LookingUp,
    ensures
        ({
            let out = leader_core::poll_phase(slot, manager, ctx, overdue, draws);
            &&& out.0 == slot
            &&& out.1 == manager
            &&& out.2 matches Ok(PollView::Tokens { num_tokens: None, is_async: false })
        }),
{
}

/// While a prefetch runs the engine has to ask again. One that completed is looked up by its
/// hashes; one that failed is taken from the request, which goes on with its local blocks or is
/// computed; one that takes too long is given up.
pub proof fn polls_wait_for_prefetches(
    slot: SlotView,
    manager: ManagerView,
    ctx: SlotContext,
    overdue: bool,
    draws: Seq<Draw>,
)
    requires
        slot.phase is Prefetching,
        draws.len() > 0,
    ensures
        ({
            let out = leader_core::poll_phase(slot, manager, ctx, overdue, draws);
            let id = slot.phase->prefetch.operation_id;
            let completed = manager.prefetch_completed.contains(id);
            let failed = manager.prefetch_failed.contains(id);
            &&& completed ==> {
                &&& out.2 matches Ok(PollView::Resolve { operation_id, sequence_hashes })
                &&& operation_id == id
                &&& sequence_hashes == slot.phase->prefetch.sequence_hashes
                &&& out.0 == slot
                &&& !out.1.prefetch_completed.contains(id)
            }
            &&& !completed ==> (out.2 is Ok ==> out.2->Ok_0 == (PollView::Tokens {
                num_tokens: None,
                is_async: false,
            }))
            &&& !completed && failed ==> {
                &&& out.0.phase is OnboardReady || out.0.phase is Preempted
                &&& out.0.phase is OnboardReady ==> out.0.phase->remote_hashes.len() == 0
                &&& !out.1.prefetch_failed.contains(id)
            }
            &&& !completed && !failed && overdue ==> out.0.phase is Preempted
            &&& !completed && !failed && !overdue ==> out.0 == slot && out.1 == manager
            &&& out.1.slots == manager.slots
        }),
{
    reveal_with_fuel(effect_executor::settle, 2);
    reveal_with_fuel(effect_executor::settle_effect, 2);
}

/// Staged tokens are reported by the first poll, to be loaded in the background; later polls are
/// told to ask again. What is staged stays.
pub proof fn polls_report_staged_tokens(
    slot: SlotView,
    manager: ManagerView,
    ctx: SlotContext,
    overdue: bool,
    draws: Seq<Draw>,
)
    requires
        slot.phase is OnboardReady,
    ensures
        ({
            let out = leader_core::poll_phase(slot, manager, ctx, overdue, draws);
            &&& slot.phase->disclosure == DisclosureState::Pending ==> (out.2 matches Ok(
                PollView::Tokens { num_tokens: Some(tokens), is_async: true },
            ) && tokens == slot.phase->OnboardReady_num_external_tokens)
            &&& slot.phase->disclosure != DisclosureState::Pending ==> (out.2 matches Ok(
                PollView::Tokens { num_tokens: None, is_async: false },
            ))
            &&& out.0.phase is OnboardReady
            &&& out.0.phase->disclosure != DisclosureState::Pending
            &&& out.0.phase->OnboardReady_host_staging == slot.phase->OnboardReady_host_staging
            &&& out.0.phase->OnboardReady_disk_staging == slot.phase->OnboardReady_disk_staging
            &&& out.0.phase->remote_hashes == slot.phase->remote_hashes
            &&& out.0.phase->OnboardReady_num_external_tokens
                == slot.phase->OnboardReady_num_external_tokens
            &&& out.1 == manager
        }),
{
}

/// A request that onboards has nothing to report. It is preempted exactly if it takes too long
/// while its loads are not over: while one of them is pending, or none is registered.
pub proof fn polls_give_late_onboards_up(
    slot: SlotView,
    manager: ManagerView,
    ctx: SlotContext,
    overdue: bool,
    draws: Seq<Draw>,
)
    requires
        slot.phase is Onboarding,
        draws.len() > 0,
    ensures
        ({
            let out = leader_core::poll_phase(slot, manager, ctx, overdue, draws);
            let entries = manager.effects.signals;
            let over = (exists|i: int|
                0 <= i < entries.len() && (#[trigger] entries[i]).request_id == slot.request_id
                    && entries[i].transfer_type == TransferType::Load) && (forall|i: int|
                0 <= i < entries.len() && (#[trigger] entries[i]).request_id == slot.request_id
                    && entries[i].transfer_type == TransferType::Load ==> entries[i].state
                    != SignalState::Pending);
            &&& out.2 matches Ok(PollView::Tokens { num_tokens: Some(0), is_async: false })
            &&& overdue && !over ==> out.0.phase is Preempted
            &&& !overdue || over ==> out.0.phase == slot.phase
            &&& out.1.slots == manager.slots
        }),
{
    signals::transfers_are_over_when_none_is_pending(manager.effects.signals, slot.request_id);
    reveal_with_fuel(effect_executor::settle, 2);
    reveal_with_fuel(effect_executor::settle_effect, 2);
}

/// In every other phase there is nothing to report and nothing changes.
pub proof fn polls_find_nothing_elsewhere(
    slot: SlotView,
    manager: ManagerView,
    ctx: SlotContext,
    overdue: bool,
    draws: Seq<Draw>,
)
    requires
        slot.phase is Initialized || slot.phase is Prefilling || slot.phase is SkippedPrefill
            || slot.phase is Decoding || slot.phase is SkippedDecode || slot.phase is Finishing
            || slot.phase is Finished || slot.phase is Preempted,
    ensures
        ({
            let out = leader_core::poll_phase(slot, manager, ctx, overdue, draws);
            &&& out.0 == slot
            &&& out.1 == manager
            &&& out.2 matches Ok(PollView::Tokens { num_tokens: Some(0), is_async: false })
        }),
{
}

/// A request of which less than a block is left to compute is not looked up, and one that was
/// skipped goes on where it was.
pub proof fn polls_skip_what_is_computed(
    slot: SlotView,
    manager: ManagerView,
    ctx: SlotContext,
    iteration: u64,
    num_computed_tokens: usize,
    elapsed: u128,
    timeout_secs: u64,
    acquire: Seq<Draw>,
    draws: Seq<Draw>,
)
    requires
        slot.phase is SkippedPrefill || slot.phase is SkippedDecode || slot.sequence.tokens.len()
            < num_computed_tokens + manager.block_size,
    ensures
        ({
            let out = leader_core::poll_slot(
                slot,
                manager,
                ctx,
                iteration,
                num_computed_tokens,
                elapsed,
                timeout_secs,
                acquire,
                draws,
            );
            &&& out.1 == manager
            &&& out.2 matches Ok(PollView::Tokens { num_tokens: Some(0), is_async: false })
            &&& slot.phase is SkippedPrefill ==> out.0.phase is Prefilling
            &&& slot.phase is SkippedDecode ==> out.0.phase is Decoding
            &&& !(slot.phase is SkippedPrefill) && !(slot.phase is SkippedDecode) ==> out.0 == slot
        }),
{
}

/// The first poll of a request asks the local pools for the blocks that are not computed yet, in
/// order, and a request that was preempted asks again.
pub proof fn polls_look_up_what_is_missing(
    slot: SlotView,
    manager: ManagerView,
    ctx: SlotContext,
    iteration: u64,
    num_computed_tokens: usize,
    elapsed: u128,
    timeout_secs: u64,
    acquire: Seq<Draw>,
    draws: Seq<Draw>,
)
    requires
        slot.phase is Initialized || (slot.phase is Preempted
            && !slot.phase->recovered_from_failure),
        slot.block_size > 0,
        acquire.len() >= 3,
        slot.sequence.tokens.len() >= num_computed_tokens + manager.block_size,
        num_computed_tokens / slot.block_size < slot.sequence.hashes.len(),
    ensures
        ({
            let out = leader_core::poll_slot(
                slot,
                manager,
                ctx,
                iteration,
                num_computed_tokens,
                elapsed,
                timeout_secs,
                acquire,
                draws,
            );
            let computed = num_computed_tokens as int / slot.block_size as int;
            &&& out.0.phase is AwaitingLookup
            &&& out.1 == manager
            &&& out.2 matches Ok(PollView::Lookup(LookupView::Local { sequence_hashes }))
            &&& sequence_hashes.len() == slot.sequence.hashes.len() - computed
            &&& forall|i: int|
                0 <= i < sequence_hashes.len() ==> #[trigger] sequence_hashes[i]
                    == slot.sequence.hashes[computed + i]
        }),
{
    reveal_with_fuel(effect_executor::settle, 3);
    reveal_with_fuel(effect_executor::settle_effect, 3);
    let hashes = effect_executor::unmatched_hashes(slot, num_computed_tokens);
    assert(hashes.len() > 0);
}

/// The blocks of a slot that are not computed yet are those behind the computed ones, in order.
pub proof fn unmatched_blocks_follow_the_computed_ones(
    slot: SlotView,
    num_computed_tokens: usize,
    i: int,
)
    requires
        slot.block_size > 0,
    ensures
        ({
            let hashes = effect_executor::unmatched_hashes(slot, num_computed_tokens);
            let computed = num_computed_tokens as int / slot.block_size as int;
            &&& computed >= slot.sequence.hashes.len() ==> hashes.len() == 0
            &&& computed < slot.sequence.hashes.len() ==> hashes.len()
                == slot.sequence.hashes.len() - computed
            &&& 0 <= i < hashes.len() ==> hashes[i] == slot.sequence.hashes[computed + i]
        }),
{
}

/// The blocks that the local pools had come first, and what they did not have may be in remote
/// storage; a registry that found something names each block by its hash.
pub proof fn lookup_answers_are_taken_over(
    sequence_hashes: Seq<SequenceHash>,
    host_blocks: Seq<BlockId>,
    disk_blocks: Seq<BlockId>,
    matched: Seq<SequenceHash>,
    i: int,
)
    requires
        host_blocks.len() + disk_blocks.len() <= sequence_hashes.len(),
    ensures
        ({
            let event = leader_core::local_matches(sequence_hashes, host_blocks, disk_blocks);
            let found = host_blocks.len() + disk_blocks.len();
            &&& event is LocalLookupCompleted
            &&& event->LocalLookupCompleted_host_blocks == host_blocks
            &&& event->LocalLookupCompleted_disk_blocks == disk_blocks
            &&& event->remote_candidates.len() == sequence_hashes.len() - found
            &&& 0 <= i < event->remote_candidates.len() ==> event->remote_candidates[i]
                == sequence_hashes[found + i]
        }),
        ({
            let event = leader_core::remote_matches(matched);
            &&& matched.len() == 0 <==> event is RemoteLookupClosed
            &&& matched.len() > 0 ==> {
                &&& event is RemoteLookupCompleted
                &&& event->matches.len() == matched.len()
                &&& 0 <= i < matched.len() ==> event->matches[i] == (matched[i], matched[i])
            }
        }),
{
}

/// A slot that was looked up knows of how many blocks it asked, and is otherwise unchanged.
pub proof fn lookups_are_noted(slot: SlotView, total: usize)
    ensures
        ({
            let next = leader_core::looked_up(slot, total);
            &&& next.performed_cache_lookup
            &&& next.total_blocks_queried == total
            &&& next.phase == slot.phase
            &&& next.sequence == slot.sequence
            &&& next.device_blocks == slot.device_blocks
            &&& next.request_id == slot.request_id
        }),
{
}

/// What happens to a request happens to its own slot: the other slots and the lists stay, and a
/// request without a slot is an error that changes nothing.
pub proof fn polls_touch_one_slot(
    leader: LeaderView,
    request_id: Seq<char>,
    out: (SlotView, ManagerView, Result<PollView, Seq<char>>),
    other: SlotKeyView,
)
    requires
        out.1.slots == leader.manager.slots,
    ensures
        ({
            let (next, answer) = leader.on_slot(request_id, out);
            let key = leader.active[request_id];
            let found = leader.active.dom().contains(request_id)
                && leader.manager.slots.dom().contains(key);
            &&& !found ==> next == leader && answer is Err
            &&& found ==> {
                &&& answer == out.2
                &&& next.manager.slots[key] == out.0
                &&& next.manager.effects == out.1.effects
                &&& other != key && leader.manager.slots.dom().contains(other)
                    ==> next.manager.slots[other] == leader.manager.slots[other]
            }
            &&& next.active == leader.active
            &&& next.inflight == leader.inflight
            &&& next.onboarding == leader.onboarding
            &&& next.finishing == leader.finishing
        }),
{
}

/// Blocks of a prefetch that were found are staged behind the host blocks; where none is there yet
/// the prefetch is asked for again.
pub proof fn resolved_prefetches_are_staged(
    leader: LeaderView,
    request_id: Seq<char>,
    operation_id: OperationId,
    blocks: Seq<BlockId>,
    draws: Seq<Draw>,
)
    requires
        leader.active.dom().contains(request_id),
        leader.manager.slots.dom().contains(leader.active[request_id]),
        leader.manager.slots[leader.active[request_id]].phase is Prefetching,
        draws.len() > 0,
    ensures
        ({
            let key = leader.active[request_id];
            let (next, answer) = leader.resolved(request_id, operation_id, blocks, draws);
            let before = leader.manager.slots[key];
            let after = next.manager.slots[key];
            &&& answer matches Ok(PollView::Tokens { num_tokens: None, is_async: false })
            &&& blocks.len() > 0 ==> {
                &&& after.phase is OnboardReady
                &&& after.phase->OnboardReady_host_staging
                    =~= before.phase->Prefetching_host_staging + blocks
            }
            &&& blocks.len() == 0 ==> after == before
                && next.manager.prefetch_completed.contains(operation_id)
        }),
{
    reveal_with_fuel(effect_executor::settle, 2);
    reveal_with_fuel(effect_executor::settle_effect, 2);
}

/// A transfer takes too long exactly if one runs and has run for more than the timeout.
pub proof fn only_running_transfers_take_too_long(
    slot: SlotView,
    elapsed: u128,
    timeout_secs: u64,
)
    ensures
        leader_core::overdue_after(slot, elapsed, timeout_secs) <==> (slot.phase is Prefetching || (
        slot.phase is Onboarding && slot.onboarding_since is Some)) && elapsed > timeout_secs
            * 1_000_000_000,
        slot.phase is Prefetching ==> leader_core::running_since(slot) == Some(
            slot.phase->prefetch.started_at,
        ),
        slot.phase is Onboarding ==> leader_core::running_since(slot) == slot.onboarding_since,
{
}

/// The blocks for a number of tokens hold them all, and one block fewer would not.
pub proof fn blocks_hold_all_tokens(tokens: usize, block_size: usize)
    requires
        block_size > 0,
    ensures
        leader_core::blocks_for(tokens, block_size) * block_size >= tokens,
        tokens > 0 ==> (leader_core::blocks_for(tokens, block_size) - 1) * block_size < tokens,
        tokens == 0 ==> leader_core::blocks_for(tokens, block_size) == 0,
{
    let n = leader_core::blocks_for(tokens, block_size);
    let q = tokens as int / block_size as int;
    vstd::arithmetic::div_mod::lemma_fundamental_div_mod(tokens as int, block_size as int);
    assert(block_size * q == q * block_size) by (nonlinear_arith);
    assert((q + 1) * block_size == q * block_size + block_size) by (nonlinear_arith);
    assert((q - 1) * block_size == q * block_size - block_size) by (nonlinear_arith);
    assert((q + 1 - 1) * block_size == q * block_size) by (nonlinear_arith);
    if tokens == 0 {
        assert(q == 0) by (nonlinear_arith)
            requires
                q == tokens as int / block_size as int,
                tokens == 0,
                block_size > 0,
        ;
    }
}

/// What the allocated blocks hold besides the staged tokens was on the device already.
pub proof fn remaining_tokens_are_on_the_device(blocks: nat, block_size: usize, staged: usize)
    requires
        blocks * block_size <= usize::MAX,
    ensures
        blocks * block_size >= staged ==> leader_core::remaining_tokens(blocks, block_size, staged)
            + staged == blocks * block_size,
        blocks * block_size < staged ==> leader_core::remaining_tokens(blocks, block_size, staged)
            == 0,
{
}

/// Blocks that were allocated for staged tokens start the onboard exactly if they hold the tokens.
/// Where they are too few nothing is transferred and the request is preempted; where nothing is
/// staged the allocation is refused and nothing changes.
pub proof fn onboards_start_where_the_blocks_suffice(
    slot: SlotView,
    manager: ManagerView,
    ctx: SlotContext,
    block_ids: Seq<BlockId>,
    draws: Seq<Draw>,
    now: std::time::Instant,
)
    requires
        manager.block_size > 0,
        draws.len() >= 2,
    ensures
        ({
            let out = leader_core::start_onboard(slot, manager, ctx, block_ids, draws, now);
            let tokens = slot.phase->OnboardReady_num_external_tokens;
            let blocks = slot.phase->OnboardReady_host_staging.len()
                + slot.phase->OnboardReady_disk_staging.len() + slot.phase->remote_hashes.len();
            &&& !(slot.phase is OnboardReady) ==> out.0 == slot && out.1 == manager && out.2 is Err
            &&& slot.phase is OnboardReady && block_ids.len() * manager.block_size < tokens ==> {
                &&& out.2 == Ok::<bool, Seq<char>>(false)
                &&& out.0.phase is Preempted
                &&& out.1.effects == manager.effects
            }
            &&& slot.phase is OnboardReady && block_ids.len() * manager.block_size >= tokens
                && blocks <= block_ids.len() && manager.effects.open ==> {
                &&& out.2 == Ok::<bool, Seq<char>>(true)
                &&& out.0.phase is Onboarding
                &&& out.0.phase->Onboarding_num_external_tokens == tokens
                &&& out.0.onboarding_since == Some(now)
                &&& out.0.tokens_cached_from_device == leader_core::remaining_tokens(
                    block_ids.len(),
                    manager.block_size,
                    tokens,
                )
            }
            &&& out.1.slots == manager.slots
        }),
{
    reveal_with_fuel(effect_executor::settle, 3);
    reveal_with_fuel(effect_executor::settle_effect, 3);
    if slot.phase is OnboardReady {
        let tokens = slot.phase->OnboardReady_num_external_tokens;
        let size = manager.block_size;
        let n = leader_core::blocks_for(tokens, size);
        blocks_hold_all_tokens(tokens, size);
        if block_ids.len() < n {
            assert(block_ids.len() * size <= (n - 1) * size) by (nonlinear_arith)
                requires
                    block_ids.len() <= n - 1,
                    size > 0,
            ;
        } else {
            assert(block_ids.len() * size >= n * size) by (nonlinear_arith)
                requires
                    block_ids.len() >= n,
                    size > 0,
            ;
        }
    }
}

/// Allocated blocks become the table of the request. Without external tokens nothing else happens;
/// with them the request is listed for the next metadata exactly if its onboard started.
pub proof fn allocations_are_noted(
    leader: LeaderView,
    request_id: Seq<char>,
    block_ids: Seq<BlockId>,
    num_external_tokens: usize,
    draws: Seq<Draw>,
    now: std::time::Instant,
)
    requires
        leader.wf(),
        draws.len() >= 2,
        leader.active.dom().contains(request_id),
        leader.manager.slots.dom().contains(leader.active[request_id]),
    ensures
        ({
            let key = leader.active[request_id];
            let before = leader.manager.slots[key];
            let (next, outcome) = leader.allocated(
                request_id,
                block_ids,
                num_external_tokens,
                draws,
                now,
            );
            let after = next.manager.slots[key];
            &&& after.device_blocks == block_ids
            &&& after.sequence == before.sequence
            &&& num_external_tokens == 0 ==> {
                &&& outcome is Ok
                &&& after.phase == before.phase
                &&& next.onboarding == leader.onboarding
                &&& next.manager.effects == leader.manager.effects
            }
            &&& num_external_tokens > 0 && !(before.phase is OnboardReady) ==> outcome is Err
                && after.phase == before.phase
            &&& num_external_tokens > 0 && before.phase is OnboardReady && block_ids.len()
                * leader.manager.block_size < before.phase->OnboardReady_num_external_tokens ==> {
                &&& outcome is Ok
                &&& after.phase is Preempted
                &&& !next.onboarding.contains(request_id)
            }
            &&& num_external_tokens > 0 && before.phase is OnboardReady && outcome is Ok
                && after.phase is Onboarding ==> next.onboarding.contains(request_id)
            &&& forall|other: SlotKeyView|
                other != key && #[trigger] leader.manager.slots.dom().contains(other)
                    ==> next.manager.slots[other] == leader.manager.slots[other]
        }),
{
    let key = leader.active[request_id];
    let slot = leader.traced(request_id, leader.manager.slots[key]).with_table(block_ids);
    onboards_start_where_the_blocks_suffice(
        slot,
        leader.manager,
        leader.context(),
        block_ids,
        draws,
        now,
    );
    onboarding_keeps_the_slot(slot, leader.manager, leader.context(), block_ids, draws, now);
}

proof fn onboarding_keeps_the_slot(
    slot: SlotView,
    manager: ManagerView,
    ctx: SlotContext,
    block_ids: Seq<BlockId>,
    draws: Seq<Draw>,
    now: std::time::Instant,
)
    requires
        draws.len() >= 2,
    ensures
        ({
            let out = leader_core::start_onboard(slot, manager, ctx, block_ids, draws, now);
            &&& out.0.device_blocks == slot.device_blocks
            &&& out.0.sequence == slot.sequence
            &&& out.1.slots == manager.slots
            &&& out.2 == Ok::<bool, Seq<char>>(false) ==> !(out.0.phase is Onboarding)
        }),
{
    reveal_with_fuel(effect_executor::settle, 3);
    reveal_with_fuel(effect_executor::settle_effect, 3);
}

/// An onboard that fits asks for each staged block to be copied to the block at its place: the
/// host blocks first, then the disk blocks, then the remote ones. Each tier has its own operation,
/// which the workers see as an immediate load and which is signalled as pending.
pub proof fn onboards_copy_each_tier_to_its_part(
    host: Seq<BlockId>,
    disk: Seq<BlockId>,
    remote: Seq<SequenceHash>,
    dst: Seq<BlockId>,
    num_external_tokens: usize,
    slot: SlotView,
    ctx: ContextView,
    draw: Draw,
)
    requires
        ctx.open,
        host.len() > 0,
        disk.len() > 0,
        remote.len() > 0,
        host.len() + disk.len() + remote.len() <= dst.len(),
    ensures
        ({
            let out = effect_executor::run(
                EffectView::EnqueueOnboardTransfer {
                    host_staging: host,
                    disk_staging: disk,
                    remote_hashes: remote,
                    dst_blocks: dst,
                    num_external_tokens,
                },
                slot,
                ctx,
                draw,
            ).1;
            let n = ctx.requests.len() as int;
            let s = ctx.signals.len() as int;
            let h = host.len() as int;
            let d = h + disk.len();
            let r = d + remote.len();
            let key = (slot.request_id, slot.generation);
            &&& out.requests.len() == n + 3
            &&& out.requests[n] is Onboard
            &&& out.requests[n]->Onboard_0.tier == StagingTier::Host
            &&& out.requests[n]->Onboard_0.src_blocks == host
            &&& out.requests[n]->Onboard_0.dst_block_ids == dst.subrange(0, h)
            &&& out.requests[n]->Onboard_0.operation_id == draw.host_id
            &&& out.requests[n]->Onboard_0.key == key
            &&& out.requests[n + 1] is Onboard
            &&& out.requests[n + 1]->Onboard_0.tier == StagingTier::Disk
            &&& out.requests[n + 1]->Onboard_0.src_blocks == disk
            &&& out.requests[n + 1]->Onboard_0.dst_block_ids == dst.subrange(h, d)
            &&& out.requests[n + 1]->Onboard_0.operation_id == draw.disk_id
            &&& out.requests[n + 2] is Remote
            &&& out.requests[n + 2]->Remote_0.is_onboard
            &&& out.requests[n + 2]->Remote_0.sequence_hashes == remote
            &&& out.requests[n + 2]->Remote_0.device_block_ids == dst.subrange(d, r)
            &&& out.requests[n + 2]->Remote_0.operation_id == draw.remote_id
            &&& out.requests[n + 2]->Remote_0.key == key
            &&& out.requests[n + 2]->Remote_0.block_size == slot.block_size
            &&& out.signals.len() == s + 3
            &&& forall|i: int|
                s <= i < s + 3 ==> (#[trigger] out.signals[i]).request_id == slot.request_id
                    && out.signals[i].transfer_type == TransferType::Load && out.signals[i].state
                    == SignalState::Pending
            &&& out.signals[s].operation_id == draw.host_id
            &&& out.signals[s + 1].operation_id == draw.disk_id
            &&& out.signals[s + 2].operation_id == draw.remote_id
        }),
{
}

/// A tier that has nothing staged is asked for nothing; what the workers see of one that has is an
/// immediate load of its part of the destination.
pub proof fn empty_tiers_are_left_out(
    ctx: ContextView,
    slot: SlotView,
    tier: StagingTier,
    dst: Seq<BlockId>,
    id: OperationId,
)
    ensures
        ctx.onboard_local(slot, tier, Seq::empty(), dst, id) == ctx,
        ctx.onboard_remote(slot, Seq::empty(), dst, id) == ctx,
        ({
            let op = ContextView::load((slot.request_id, slot.generation), id, dst);
            &&& op.key == (slot.request_id, slot.generation)
            &&& op.uuid == id
            &&& op.transfer_type == TransferType::Load
            &&& op.request_type == RequestType::Immediate
            &&& op.block_ids == dst
        }),
{
}

/// What an effect asks for: a remote lookup goes to the registry with the number of ranks, or is
/// closed where there is no remote tier; a prefetch brings its hashes to the host, under its own
/// operation, and is no load of the workers; a match report is handed on.
pub proof fn effects_are_carried_out(
    slot: SlotView,
    ctx: ContextView,
    draw: Draw,
    hashes: Seq<SequenceHash>,
    id: OperationId,
    tokens: usize,
)
    ensures
        ({
            let out = effect_executor::run(
                EffectView::StartRemoteLookup {
                    candidates: hashes,
                    host_blocks: Seq::empty(),
                    disk_blocks: Seq::empty(),
                },
                slot,
                ctx,
                draw,
            );
            &&& out.1 == ctx
            &&& ctx.has_remote ==> (out.2 matches Ok(
                ResultView::Lookup(LookupView::Remote { candidates, world_size }),
            ) && candidates == hashes && world_size == ctx.world_size)
            &&& !ctx.has_remote ==> (out.2 matches Ok(
                ResultView::FollowUp(EventView::RemoteLookupClosed),
            ))
        }),
        ({
            let out = effect_executor::run(
                EffectView::StartPrefetch { hashes, token_blocks: Seq::empty(), operation_id: id },
                slot,
                ctx,
                draw,
            );
            &&& !ctx.has_remote ==> out.1 == ctx && (out.2 matches Ok(
                ResultView::FollowUp(EventView::PrefetchFailed),
            ))
            &&& ctx.has_remote && !ctx.open ==> out.1 == ctx && out.2 is Err
            &&& ctx.has_remote && ctx.open ==> {
                &&& out.2 matches Ok(ResultView::Done)
                &&& out.1.requests.len() == ctx.requests.len() + 1
                &&& out.1.requests.last() is Remote
                &&& out.1.requests.last()->Remote_0.sequence_hashes == hashes
                &&& out.1.requests.last()->Remote_0.operation_id == id
                &&& out.1.requests.last()->Remote_0.device_block_ids.len() == 0
                &&& out.1.requests.last()->Remote_0.is_onboard
                &&& out.1.signals == ctx.signals
                &&& out.1.worker_ops == ctx.worker_ops
            }
        }),
        effect_executor::run(
            EffectView::MatchReady { num_external_tokens: tokens },
            slot,
            ctx,
            draw,
        ).2 matches Ok(ResultView::MatchReady { num_external_tokens }) && num_external_tokens
            == tokens,
        effect_executor::run(EffectView::MatchDeferred, slot, ctx, draw).2 matches Ok(
            ResultView::MatchDeferred,
        ),
        effect_executor::run(EffectView::MatchNone, slot, ctx, draw).2 matches Ok(
            ResultView::MatchNone,
        ),
        effect_executor::run(EffectView::ReleaseStaging, slot, ctx, draw).1 == ctx,
{
}

/// The statistics of a request are what the slot counted, in blocks.
pub proof fn statistics_are_counted_in_blocks(slot: SlotView, ctx: ContextView, draw: Draw)
    requires
        slot.block_size > 0,
    ensures
        ({
            let out = effect_executor::run(
                EffectView::RecordCacheStats {
                    host_blocks: 0,
                    disk_blocks: 0,
                    remote_blocks: 0,
                    prefetched_blocks: 0,
                    total_queried: 0,
                },
                slot,
                ctx,
                draw,
            );
            &&& out.1.stats.len() == ctx.stats.len() + 1
            &&& out.1.stats.last().host == slot.tokens_cached_from_host / slot.block_size
            &&& out.1.stats.last().disk == slot.tokens_cached_from_disk / slot.block_size
            &&& out.1.stats.last().remote == slot.tokens_cached_from_remote / slot.block_size
            &&& out.1.stats.last().total == slot.total_blocks_queried
            &&& out.1.requests == ctx.requests
            &&& out.1.signals == ctx.signals
        }),
{
}

/// An offload effect names the blocks that were evaluated last together with their hashes; it is a
/// store that waits for the scheduler.
pub proof fn offload_effects_name_the_last_blocks(
    slot: SlotView,
    block_ids: Seq<BlockId>,
    priorities: Seq<u32>,
    ctx: ContextView,
    draw: Draw,
    i: int,
)
    requires
        ctx.open,
        block_ids.len() <= slot.evaluated_blocks <= slot.sequence.hashes.len(),
        0 <= i < block_ids.len(),
    ensures
        ({
            let out = effect_executor::run(
                EffectView::EnqueueOffloadTransfer { block_ids, priorities },
                slot,
                ctx,
                draw,
            ).1;
            let key = (slot.request_id, slot.generation);
            let place = slot.evaluated_blocks - block_ids.len() + i;
            &&& out.requests.len() == ctx.requests.len() + 1
            &&& out.requests.last() is Offload
            &&& out.requests.last()->Offload_0.block_ids == block_ids
            &&& out.requests.last()->Offload_0.priorities == priorities
            &&& out.requests.last()->Offload_0.operation_id == draw.host_id
            &&& out.requests.last()->Offload_0.key == key
            &&& out.requests.last()->Offload_0.sequence_hashes.len() == block_ids.len()
            &&& out.requests.last()->Offload_0.sequence_hashes[i] == slot.sequence.hashes[place]
            &&& out.worker_ops[key].last().uuid == draw.host_id
            &&& out.worker_ops[key].last().key == key
            &&& out.worker_ops[key].last().transfer_type == TransferType::Store
            &&& out.worker_ops[key].last().request_type == RequestType::Scheduled
            &&& out.worker_ops[key].last().block_ids == block_ids
            &&& out.signals.last().transfer_type == TransferType::Store
            &&& out.signals.last().state == SignalState::Pending
            &&& out.signals.last().request_id == slot.request_id
        }),
{
}

/// The trace context and the baggage of a slot are those of its request.
pub proof fn slots_carry_the_trace_of_their_request(
    leader: LeaderView,
    request_id: Seq<char>,
    slot: SlotView,
)
    ensures
        ({
            let next = leader.traced(request_id, slot);
            &&& leader.traces.dom().contains(request_id) ==> next.traceparent == Some(
                leader.traces[request_id],
            )
            &&& !leader.traces.dom().contains(request_id) ==> next.traceparent is None
            &&& leader.baggage.dom().contains(request_id) ==> next.baggage == Some(
                leader.baggage[request_id],
            )
            &&& !leader.baggage.dom().contains(request_id) ==> next.baggage is None
            &&& next.phase == slot.phase
            &&& next.sequence == slot.sequence
        }),
        leader.context().block_size == leader.manager.block_size,
        leader.context().remote_enabled == leader.manager.effects.has_remote,
        leader.context().g4_xfer_fail_policy == slot_machine::G4FailPolicy::Fallback,
{
}

} // verus!
