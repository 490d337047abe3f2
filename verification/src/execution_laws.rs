//! Laws of the chains of effects and of what spans several slots: effects run in order, what
//! follows from them is applied, and a failure ends the chain.

use vstd::prelude::*;

use crate::config::{
    NixlNotificationSender, RemoteContextParts, RemoteStorageConfig, TransferContext,
};
use crate::effect_context::ContextView;
use crate::effect_executor::{self, Draw, ResultView};
use crate::leader_core::{self, LeaderView, PollView};
use crate::protocol::{BlockId, OperationId, SequenceHash, SlotKeyView, TransferType};
use crate::slot_api::SlotError;
use crate::slot_machine::{self, EffectView, EventView, SlotContext};
use crate::slot_manager::{self, ManagerView, PoolTier};
use crate::slot_runtime::SlotView;
use crate::tier::G4State;
use crate::tokens::{SequenceView, TokenBlockView};
use crate::transfer_requests::{self, G4OnboardParams, WorkerRequestView};

verus! {

/// A new slot has nothing behind it: no block, no position, no statistics, no priority, no onboard.
pub proof fn new_slots_are_empty(request_id: Seq<char>, sequence: SequenceView, block_size: usize)
    ensures
        ({
            let slot = SlotView::fresh(request_id, sequence, block_size);
            &&& slot.request_id == request_id
            &&& slot.generation == 0
            &&& slot.traceparent is None
            &&& slot.baggage is None
            &&& slot.phase is Initialized
            &&& slot.sequence == sequence
            &&& slot.block_size == block_size
            &&& slot.device_blocks.len() == 0
            &&& slot.tokens_cached_from_device == 0
            &&& slot.tokens_cached_from_host == 0
            &&& slot.tokens_cached_from_disk == 0
            &&& slot.tokens_cached_from_remote == 0
            &&& slot.current_position == 0
            &&& slot.evaluated_blocks == 0
            &&& !slot.performed_cache_lookup
            &&& slot.total_blocks_queried == 0
            &&& slot.offload_terminated_at_block is None
            &&& slot.offload_min_priority == 0
            &&& !slot.g1_residency_unprotected
            &&& slot.priorities.dom() == Set::<BlockId>::empty()
            &&& slot.onboarding_since is None
        }),
{
    let slot = SlotView::fresh(request_id, sequence, block_size);
    assert(slot.priorities.dom() =~= Set::<BlockId>::empty());
}

/// Effects run one after the other, each on what the one before left, with a result for each. The
/// first that fails ends the run: what it left stays, and those behind it do not run.
pub proof fn effects_run_in_order(
    effects: Seq<EffectView<BlockId, BlockId>>,
    slot: SlotView,
    ctx: ContextView,
    draws: Seq<Draw>,
    m: nat,
    n: nat,
)
    requires
        m < n,
    ensures
        ({
            let before = effect_executor::run_all(effects, m, slot, ctx, draws);
            let after = effect_executor::run_all(effects, n, slot, ctx, draws);
            let out = effect_executor::run(
                effects[m as int],
                before.0,
                before.1,
                draws[m as int],
            );
            &&& before.2 is Err ==> after == before
            &&& before.2 is Ok && out.2 is Err ==> {
                &&& after.0 == out.0
                &&& after.1 == out.1
                &&& after.2 is Err && after.2->Err_0 == out.2->Err_0
            }
            &&& after.2 is Ok ==> {
                &&& before.2 is Ok
                &&& before.2->Ok_0.len() == m
                &&& after.2->Ok_0.len() == n
                &&& out.2 == Ok::<ResultView, Seq<char>>(after.2->Ok_0[m as int])
            }
        }),
        effect_executor::run_all(effects, 0, slot, ctx, draws).0 == slot,
        effect_executor::run_all(effects, 0, slot, ctx, draws).1 == ctx,
    decreases n - m,
{
    results_are_counted(effects, slot, ctx, draws, m);
    results_are_counted(effects, slot, ctx, draws, n);
    if m + 1 < n {
        effects_run_in_order(effects, slot, ctx, draws, m, (n - 1) as nat);
        effects_run_in_order(effects, slot, ctx, draws, (n - 1) as nat, n);
    }
}

proof fn results_are_counted(
    effects: Seq<EffectView<BlockId, BlockId>>,
    slot: SlotView,
    ctx: ContextView,
    draws: Seq<Draw>,
    n: nat,
)
    ensures
        effect_executor::run_all(effects, n, slot, ctx, draws).2 matches Ok(results)
            ==> results.len() == n,
    decreases n,
{
    if n > 0 {
        results_are_counted(effects, slot, ctx, draws, (n - 1) as nat);
    }
}

/// Effects settle one after the other, and the results of one come behind those of the ones
/// before. The first that fails ends it, with its failure.
pub proof fn effects_settle_in_order(
    effects: Seq<EffectView<BlockId, BlockId>>,
    slot: SlotView,
    slot_ctx: SlotContext,
    ctx: ContextView,
    draws: Seq<Seq<Draw>>,
    n: nat,
)
    ensures
        ({
            let before = effect_executor::settle_all(effects, n, slot, slot_ctx, ctx, draws);
            let after = effect_executor::settle_all(effects, n + 1, slot, slot_ctx, ctx, draws);
            let out = effect_executor::settle_effect(
                effects[n as int],
                before.0,
                slot_ctx,
                before.1,
                draws[n as int],
            );
            &&& before.2 is Err ==> after == before
            &&& before.2 is Ok ==> {
                &&& after.0 == out.0
                &&& after.1 == out.1
                &&& out.2 is Err ==> after.2 is Err && after.2->Err_0 == out.2->Err_0
                &&& out.2 is Ok ==> after.2 is Ok && after.2->Ok_0 == before.2->Ok_0
                    + out.2->Ok_0
            }
        }),
        effect_executor::settle_all(effects, 0, slot, slot_ctx, ctx, draws).0 == slot,
        effect_executor::settle_all(effects, 0, slot, slot_ctx, ctx, draws).1 == ctx,
        effect_executor::settle_all(effects, 0, slot, slot_ctx, ctx, draws).2 matches Ok(
            results,
        ) && results.len() == 0,
{
}

/// What an effect leads to is applied to the slot as the effect left it. What leads to nothing more
/// is the only result, and a failure is the outcome.
pub proof fn follow_ups_are_applied(
    effect: EffectView<BlockId, BlockId>,
    slot: SlotView,
    slot_ctx: SlotContext,
    ctx: ContextView,
    draws: Seq<Draw>,
)
    requires
        draws.len() > 0,
    ensures
        ({
            let first = effect_executor::run(effect, slot, ctx, draws.last());
            let out = effect_executor::settle_effect(effect, slot, slot_ctx, ctx, draws);
            &&& first.2 is Err ==> {
                &&& out.0 == first.0
                &&& out.1 == first.1
                &&& out.2 is Err && out.2->Err_0 == first.2->Err_0
            }
            &&& first.2 is Ok && first.2->Ok_0 is FollowUp ==> out == effect_executor::settle(
                first.0,
                first.2->Ok_0->FollowUp_0,
                slot_ctx,
                first.1,
                draws.drop_last(),
            )
            &&& first.2 is Ok && !(first.2->Ok_0 is FollowUp) ==> {
                &&& out.0 == first.0
                &&& out.1 == first.1
                &&& out.2 matches Ok(results)
                &&& results.len() == 1
                &&& results[0] == first.2->Ok_0
            }
        }),
{
}

/// An event takes the slot to the phase that follows, and what is to do in it is done there.
pub proof fn events_are_settled(
    slot: SlotView,
    event: EventView<BlockId, BlockId>,
    slot_ctx: SlotContext,
    ctx: ContextView,
    draws: Seq<Draw>,
)
    requires
        draws.len() > 0,
    ensures
        ({
            let draw = draws.last();
            let next = slot_machine::step(slot.phase, event, slot_ctx, draw.prefetch_id, draw.now);
            let out = effect_executor::settle(slot, event, slot_ctx, ctx, draws);
            &&& next.1.len() == 0 ==> {
                &&& out.0.phase == next.0
                &&& out.0.request_id == slot.request_id
                &&& out.0.device_blocks == slot.device_blocks
                &&& out.0.evaluated_blocks == slot.evaluated_blocks
                &&& out.1 == ctx
                &&& out.2 matches Ok(results)
                &&& results.len() == 0
            }
            &&& next.1.len() > 0 ==> exists|entered: SlotView| #[trigger]
                effect_executor::settle_effect(next.1[0], entered, slot_ctx, ctx, draws) == out
                    && entered.phase == next.0 && entered.request_id == slot.request_id
                    && entered.sequence == slot.sequence && entered.device_blocks
                    == slot.device_blocks
        }),
{
    let draw = draws.last();
    let next = slot_machine::step(slot.phase, event, slot_ctx, draw.prefetch_id, draw.now);
    let entered = slot.entered(next.0, draw.now);
    if next.1.len() > 0 {
        assert(effect_executor::settle_effect(next.1[0], entered, slot_ctx, ctx, draws)
            == effect_executor::settle(slot, event, slot_ctx, ctx, draws));
    }
}

/// A failure of the effects is reported with its message, and without one all is well.
pub proof fn failures_of_effects_are_reported(
    result: Result<(), SlotError>,
    outcome: Result<Seq<ResultView>, Seq<char>>,
)
    requires
        effect_executor::reports(result, outcome),
    ensures
        result is Ok <==> outcome is Ok,
        outcome matches Err(message) ==> (result matches Err(SlotError::InvalidOperation(text))
            && text@ == message),
{
}

/// A poll of a request without a slot is refused and changes nothing. One of a request with a slot
/// leaves the requests, the slots of others and the transfers under way as they are known.
pub proof fn polls_need_a_slot(
    leader: LeaderView,
    request_id: Seq<char>,
    num_computed_tokens: usize,
    elapsed: u128,
    acquire: Seq<Draw>,
    draws: Seq<Draw>,
)
    ensures
        ({
            let (next, answer) = leader.polled(
                request_id,
                num_computed_tokens,
                elapsed,
                acquire,
                draws,
            );
            let found = leader.active.dom().contains(request_id)
                && leader.manager.slots.dom().contains(leader.active[request_id]);
            &&& !found ==> next == leader && answer is Err
            &&& next.active == leader.active
            &&& next.inflight == leader.inflight
            &&& next.onboarding == leader.onboarding
        }),
{
}

/// The answer to a lookup of a request without a slot is refused and changes nothing.
pub proof fn lookup_answers_need_a_slot(
    leader: LeaderView,
    request_id: Seq<char>,
    slot: SlotView,
    event: EventView<BlockId, BlockId>,
    elapsed: u128,
    acquire: Seq<Draw>,
    draws: Seq<Draw>,
)
    ensures
        ({
            let (next, answer) = leader.lookup_answered(
                request_id,
                slot,
                event,
                elapsed,
                acquire,
                draws,
            );
            let found = leader.active.dom().contains(request_id)
                && leader.manager.slots.dom().contains(leader.active[request_id]);
            &&& !found ==> next == leader && answer is Err
            &&& next.active == leader.active
            &&& next.inflight == leader.inflight
            &&& next.onboarding == leader.onboarding
        }),
{
}

/// Every listed request is preempted, unless it is finished, and no other one is.
pub proof fn listed_requests_are_preempted(
    leader: LeaderView,
    request_ids: Seq<Seq<char>>,
    n: nat,
    request_id: Seq<char>,
)
    requires
        n <= request_ids.len(),
        leader.active.dom().contains(request_id),
        leader.manager.slots.dom().contains(leader.active[request_id]),
        forall|other: Seq<char>| #[trigger]
            leader.active.dom().contains(other) && leader.active[other]
                == leader.active[request_id] ==> other == request_id,
    ensures
        ({
            let after = leader.all_preempted(request_ids, n);
            let key = leader.active[request_id];
            let phase = after.manager.slots[key].phase;
            &&& after.active == leader.active
            &&& after.manager.slots.dom() =~= leader.manager.slots.dom()
            &&& request_ids.subrange(0, n as int).contains(request_id) ==> phase is Preempted
                || phase is Finished
            &&& !request_ids.subrange(0, n as int).contains(request_id)
                ==> after.manager.slots[key] == leader.manager.slots[key]
        }),
    decreases n,
{
    let upto = request_ids.subrange(0, n as int);
    if n > 0 {
        let m = (n - 1) as nat;
        listed_requests_are_preempted(leader, request_ids, m, request_id);
        let head = request_ids.subrange(0, m as int);
        assert(upto[m as int] == request_ids[m as int]);
        if upto.contains(request_id) && request_ids[m as int] != request_id {
            let i = upto.index_of(request_id);
            assert(head[i] == request_id);
        }
        if head.contains(request_id) {
            let i = head.index_of(request_id);
            assert(upto[i] == request_id);
        }
    }
}

/// A pool is resolved where its tier is configured. Another name, and a tier that is not there, are
/// refused.
pub proof fn pools_are_resolved_where_configured(
    result: Result<PoolTier, SlotError>,
    name: Seq<char>,
    device: bool,
    host: bool,
    disk: bool,
)
    requires
        slot_manager::resolves_pool(result, name, device, host, disk),
    ensures
        (name == "gpu"@ || name == "device"@) && device ==> result == Ok::<PoolTier, SlotError>(
            PoolTier::Device,
        ),
        (name == "cpu"@ || name == "host"@) && host ==> result == Ok::<PoolTier, SlotError>(
            PoolTier::Host,
        ),
        name == "disk"@ && disk ==> result == Ok::<PoolTier, SlotError>(PoolTier::Disk),
        result matches Ok(tier) ==> match tier {
            PoolTier::Device => device && (name == "gpu"@ || name == "device"@),
            PoolTier::Host => host && (name == "cpu"@ || name == "host"@),
            PoolTier::Disk => disk && name == "disk"@,
        },
        result matches Err(error) ==> error is InvalidOperation,
{
    reveal_strlit("gpu");
    reveal_strlit("device");
    reveal_strlit("cpu");
    reveal_strlit("host");
    reveal_strlit("disk");
    assert("gpu"@[0] == 'g' && "device"@[1] == 'e' && "cpu"@[0] == 'c' && "host"@[0] == 'h'
        && "disk"@[1] == 'i');
    assert("gpu"@.len() == 3 && "device"@.len() == 6 && "cpu"@.len() == 3 && "host"@.len() == 4
        && "disk"@.len() == 4);
}

/// An onboard from remote storage asks for the listed hashes under its own id, and announces one
/// load of the device blocks where there are any.
pub proof fn remote_onboards_are_prepared_as_asked(
    params: G4OnboardParams,
    requests: Seq<WorkerRequestView>,
    key: SlotKeyView,
    sequence_hashes: Seq<SequenceHash>,
    device_block_ids: Seq<BlockId>,
    block_size: usize,
    token_blocks: Seq<TokenBlockView>,
    id: OperationId,
)
    requires
        transfer_requests::prepares_onboard(
            params,
            requests,
            key,
            sequence_hashes,
            device_block_ids,
            block_size,
            token_blocks,
            id,
        ),
    ensures
        params.key@ == key,
        params.request_id@ == key.0,
        params.sequence_hashes@ == sequence_hashes,
        params.device_block_ids@ == device_block_ids,
        params.operation_id == id,
        params.block_size == block_size,
        device_block_ids.len() == 0 ==> requests.len() == 0,
        device_block_ids.len() > 0 ==> requests.len() == 1 && requests[0].key == key
            && requests[0].uuid == id && requests[0].transfer_type == TransferType::Load
            && requests[0].request_type is Immediate && requests[0].block_ids == device_block_ids,
{
}

/// The context of the only rank has its own storage and notifications, and an object store without
/// options has no more than its bucket, endpoint and region.
pub proof fn single_contexts_are_those_of_the_first_rank(
    base: TransferContext,
    config: RemoteStorageConfig,
    tx: NixlNotificationSender,
    bucket: Option<String>,
    endpoint: Option<String>,
    region: Option<String>,
)
    ensures
        ({
            let ctx = RemoteContextParts::single(base, config, tx);
            &&& ctx.base == base
            &&& ctx.config == config
            &&& ctx.worker_id == 0
            &&& ctx.world_size == 1
            &&& ctx.tx_notifications == Some(tx)
        }),
        ({
            let store = RemoteStorageConfig::plain_object(bucket, endpoint, region);
            &&& store is Object
            &&& store->bucket_template == bucket
            &&& store->endpoint == endpoint
            &&& store->region == region
            &&& store->access_key is None
            &&& store->secret_key is None
            &&& store->session_token is None
            &&& store->scheme is None
            &&& store->use_virtual_addressing is None
            &&& store->req_checksum is None
            &&& store->ca_bundle is None
        }),
{
}

/// A fresh remote tier has nothing staged, tried or under way.
pub proof fn fresh_tiers_hold_nothing<P>(state: G4State<P>)
    requires
        state.is_fresh(),
    ensures
        state.tier.staging is None,
        state.tier.tokens_cached == 0,
        !state.skip_on_retry,
        state.retry_count == 0,
        state.attempted_hashes is None,
        state.onboarding_started_at is None,
        state.pending_lookup is None,
{
}

/// What an acquisition brings is passed on: nothing found ends the poll, a lookup is handed to the
/// engine, a failure is the answer, and else the phase that was reached decides.
pub proof fn acquisitions_are_passed_on(
    out: (SlotView, ManagerView, Result<Seq<ResultView>, Seq<char>>),
    ctx: SlotContext,
    elapsed: u128,
    timeout_secs: u64,
    draws: Seq<Draw>,
)
    ensures
        ({
            let next = leader_core::poll_results(out, ctx, elapsed, timeout_secs, draws);
            let last = out.2->Ok_0.last();
            let some = out.2 is Ok && out.2->Ok_0.len() > 0;
            &&& out.2 is Err ==> {
                &&& next.0 == out.0
                &&& next.1 == out.1
                &&& next.2 is Err && next.2->Err_0 == out.2->Err_0
            }
            &&& some && last is MatchNone ==> {
                &&& next.0 == out.0
                &&& next.1 == out.1
                &&& next.2 matches Ok(PollView::Tokens { num_tokens: Some(0), is_async: false })
            }
            &&& some && last is Lookup ==> {
                &&& next.0 == out.0
                &&& next.1 == out.1
                &&& next.2 == Ok::<PollView, Seq<char>>(PollView::Lookup(last->Lookup_0))
            }
            &&& out.2 is Ok && (!some || !(last is MatchNone || last is Lookup)) ==> next
                == leader_core::poll_phase(
                out.0,
                out.1,
                ctx,
                leader_core::running_since(out.0) is Some && elapsed > timeout_secs
                    * 1_000_000_000,
                draws,
            )
        }),
{
}

/// Each slot of a request has a generation of its own, counted from zero; the last one that there
/// is stays.
pub proof fn generations_are_counted(leader: LeaderView, request_id: Seq<char>)
    ensures
        !leader.generations.dom().contains(request_id) ==> leader.next_generation(request_id) == 0,
        leader.generations.dom().contains(request_id) && leader.generations[request_id] < u64::MAX
            ==> leader.next_generation(request_id) == leader.generations[request_id] + 1,
        leader.generations.dom().contains(request_id) && leader.generations[request_id] == u64::MAX
            ==> leader.next_generation(request_id) == u64::MAX,
{
}

/// An event that is applied to a slot changes its phase, to the one that follows, and nothing else.
pub proof fn events_change_the_phase(
    slot: SlotView,
    event: EventView<BlockId, BlockId>,
    next: SlotView,
    id: OperationId,
    now: std::time::Instant,
)
    requires
        slot.after(event, next),
    ensures
        next.phase == slot_machine::step(slot.phase, event, slot.local_context(), id, now).0,
        next.request_id == slot.request_id,
        next.generation == slot.generation,
        next.sequence == slot.sequence,
        next.device_blocks == slot.device_blocks,
        next.current_position == slot.current_position,
        next.evaluated_blocks == slot.evaluated_blocks,
{
    assert(next == slot.in_phase(
        slot_machine::step(slot.phase, event, slot.local_context(), id, now).0,
    ));
}

/// Every part of an onboard is announced to the workers: behind what waits for them, a load at once
/// of the blocks of its part, under the id of its transfer.
pub proof fn onboards_are_announced_to_the_workers(
    host: Seq<BlockId>,
    disk: Seq<BlockId>,
    remote: Seq<SequenceHash>,
    dst: Seq<BlockId>,
    num_external_tokens: usize,
    slot: SlotView,
    ctx: ContextView,
    draw: Draw,
)
    requires
        ctx.open,
        host.len() > 0,
        disk.len() > 0,
        remote.len() > 0,
        host.len() + disk.len() + remote.len() <= dst.len(),
    ensures
        ({
            let out = effect_executor::run(
                EffectView::EnqueueOnboardTransfer {
                    host_staging: host,
                    disk_staging: disk,
                    remote_hashes: remote,
                    dst_blocks: dst,
                    num_external_tokens,
                },
                slot,
                ctx,
                draw,
            );
            let key = (slot.request_id, slot.generation);
            let waiting = if ctx.worker_ops.dom().contains(key) {
                ctx.worker_ops[key]
            } else {
                Seq::empty()
            };
            let ops = out.1.worker_ops[key];
            let n = waiting.len() as int;
            let h = host.len() as int;
            let d = h + disk.len();
            &&& ops.len() == n + 3
            &&& ops.subrange(0, n) == waiting
            &&& forall|i: int|
                n <= i < n + 3 ==> (#[trigger] ops[i]).key == key && ops[i].transfer_type
                    == TransferType::Load && ops[i].request_type is Immediate
            &&& ops[n].uuid == draw.host_id && ops[n].block_ids == dst.subrange(0, h)
            &&& ops[n + 1].uuid == draw.disk_id && ops[n + 1].block_ids == dst.subrange(h, d)
            &&& ops[n + 2].uuid == draw.remote_id && ops[n + 2].block_ids == dst.subrange(
                d,
                d + remote.len(),
            )
            &&& forall|other: SlotKeyView|
                #![trigger out.1.worker_ops.dom().contains(other)]
                other != key ==> out.1.worker_ops.dom().contains(other)
                    == ctx.worker_ops.dom().contains(other) && out.1.worker_ops[other]
                    == ctx.worker_ops[other]
        }),
{
    let key = (slot.request_id, slot.generation);
    let out = effect_executor::run(
        EffectView::EnqueueOnboardTransfer {
            host_staging: host,
            disk_staging: disk,
            remote_hashes: remote,
            dst_blocks: dst,
            num_external_tokens,
        },
        slot,
        ctx,
        draw,
    );
    let n = ctx.ops_of(key).len() as int;
    assert(out.1.worker_ops[key].subrange(0, n) =~= ctx.ops_of(key));
}

/// Where the channel of the transfers is closed nothing is announced, and the failure names what
/// could not be sent.
pub proof fn nothing_is_announced_on_a_closed_channel(
    effect: EffectView<BlockId, BlockId>,
    slot: SlotView,
    ctx: ContextView,
    draw: Draw,
)
    requires
        !ctx.open,
    ensures
        ({
            let out = effect_executor::run(effect, slot, ctx, draw);
            &&& out.1.requests == ctx.requests
            &&& out.1.worker_ops == ctx.worker_ops
            &&& out.1.signals == ctx.signals
            &&& effect is EnqueueOffloadTransfer ==> out.2 is Err
            &&& effect is StartPrefetch ==> out.2 is Err == ctx.has_remote
            &&& out.2 is Err ==> out.0 == slot && out.1 == ctx
        }),
{
}

/// Requests carry what their slot knows: the key and the trace of the request, and the token blocks
/// of the hashes.
pub proof fn requests_carry_what_the_slot_knows(
    slot: SlotView,
    hashes: Seq<SequenceHash>,
    block_ids: Seq<BlockId>,
    priorities: Seq<u32>,
    id: OperationId,
)
    ensures
        ({
            let request = effect_executor::remote_onboard(slot, hashes, block_ids, id);
            &&& request.key == (slot.request_id, slot.generation)
            &&& request.request_id == slot.request_id
            &&& request.sequence_hashes == hashes
            &&& request.device_block_ids == block_ids
            &&& request.host_block_ids is None
            &&& request.pin_id is None
            &&& request.operation_id == id
            &&& request.block_size == slot.block_size
            &&& request.is_onboard
            &&& request.token_blocks == Some(slot.sequence.resolve(hashes))
            &&& request.traceparent == slot.traceparent
            &&& request.baggage == slot.baggage
        }),
        ({
            let request = effect_executor::offload_of(slot, block_ids, priorities, id);
            &&& request.key == (slot.request_id, slot.generation)
            &&& request.request_id == slot.request_id
            &&& request.block_ids == block_ids
            &&& request.priorities == priorities
            &&& request.operation_id == id
            &&& request.block_size == slot.block_size
            &&& request.sequence_hashes.len() == request.token_blocks.len()
            &&& request.traceparent == slot.traceparent
            &&& request.baggage == slot.baggage
        }),
{
}

} // verus!
