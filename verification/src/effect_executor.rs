//! Execution of slot effects: transfers are sent, statistics noted and match reports handed on.
//! Lookups are left to the caller, which feeds their answers back as events.

use vstd::prelude::*;

use crate::effect_context::{CacheStatsRecord, ContextView, EffectContext};
use crate::protocol::{
    self, new_operation_id, BlockId, OperationId, RequestType, SequenceHash, SlotKey, SlotKeyView,
    TransferType,
};
use crate::slot_api::SlotError;
use crate::slot_machine::{
    self, instant_now, EffectView, EventView, OffloadBlocks, SlotContext, SlotEvent,
};
use crate::slot_runtime::{self, SlotView, VllmConnectorSlot, VllmSlotEffect, VllmSlotEvent};
use crate::text::clone_text;
use crate::tokens::{self, TokenBlock};
use crate::transfer_requests::{
    self, copy_ids, LocalOffloadRequest, LocalOnboardRequest, LocalTransferRequest,
    OffloadRequestView, OnboardRequestView, RemoteRequestView, RemoteTransferRequest, StagingTier,
    TransferRequestView, WorkerRequestView,
};

verus! {

/// A question to a block pool or to the registry of remote blocks.
#[derive(Debug)]
pub enum LookupRequest {
    /// Which blocks of the host pool hold the longest matching prefix of `sequence_hashes`, and
    /// which blocks of the disk pool that of the rest.
    Local { sequence_hashes: Vec<SequenceHash> },
    /// Which prefix of `candidates` all `world_size` workers have in remote storage.
    Remote { candidates: Vec<SequenceHash>, world_size: usize },
}

/// The mathematical value of a [`LookupRequest`].
#[verifier::ext_equal]
pub enum LookupView {
    Local { sequence_hashes: Seq<SequenceHash> },
    Remote { candidates: Seq<SequenceHash>, world_size: usize },
}

impl View for LookupRequest {
    type V = LookupView;

    open spec fn view(&self) -> LookupView {
        match self {
            LookupRequest::Local { sequence_hashes } => LookupView::Local {
                sequence_hashes: sequence_hashes@,
            },
            LookupRequest::Remote { candidates, world_size } => LookupView::Remote {
                candidates: candidates@,
                world_size: *world_size,
            },
        }
    }
}

/// What came of an effect.
#[derive(Debug)]
pub enum EffectResult {
    /// The effect is carried out.
    Done,
    /// The state machine has to take this event next.
    FollowUp(VllmSlotEvent),
    /// Tokens are staged for the request and may be reported.
    MatchReady { num_external_tokens: usize },
    /// The report comes later.
    MatchDeferred,
    /// Nothing matched.
    MatchNone,
    /// A pool or the registry has to be asked; the answer becomes the next event.
    Lookup(LookupRequest),
}

/// The mathematical value of an [`EffectResult`].
#[verifier::ext_equal]
pub enum ResultView {
    Done,
    FollowUp(EventView<BlockId, BlockId>),
    MatchReady { num_external_tokens: usize },
    MatchDeferred,
    MatchNone,
    Lookup(LookupView),
}

impl View for EffectResult {
    type V = ResultView;

    open spec fn view(&self) -> ResultView {
        match self {
            EffectResult::Done => ResultView::Done,
            EffectResult::FollowUp(event) => ResultView::FollowUp(event@),
            EffectResult::MatchReady { num_external_tokens } => ResultView::MatchReady {
                num_external_tokens: *num_external_tokens,
            },
            EffectResult::MatchDeferred => ResultView::MatchDeferred,
            EffectResult::MatchNone => ResultView::MatchNone,
            EffectResult::Lookup(request) => ResultView::Lookup(request@),
        }
    }
}

/// The views of a sequence of results.
pub open spec fn result_views(results: Seq<EffectResult>) -> Seq<ResultView> {
    results.map_values(|result: EffectResult| result@)
}

/// The identities and the time that a step may use for what it starts.
#[derive(Debug)]
pub struct Draw {
    pub prefetch_id: OperationId,
    pub now: std::time::Instant,
    pub host_id: OperationId,
    pub disk_id: OperationId,
    pub remote_id: OperationId,
}

/// Whether all identities of a draw are random.
pub open spec fn is_random(draw: Draw) -> bool {
    &&& protocol::is_random_id(draw.prefetch_id)
    &&& protocol::is_random_id(draw.host_id)
    &&& protocol::is_random_id(draw.disk_id)
    &&& protocol::is_random_id(draw.remote_id)
}

/// Fresh identities and the current time.
pub fn new_draw() -> (draw: Draw)
    ensures
        is_random(draw),
{
    Draw {
        prefetch_id: new_operation_id(),
        now: instant_now(),
        host_id: new_operation_id(),
        disk_id: new_operation_id(),
        remote_id: new_operation_id(),
    }
}

impl ContextView {
    /// The load of `block_ids` that the workers of `key` will see.
    pub open spec fn load(key: SlotKeyView, id: OperationId, block_ids: Seq<BlockId>)
        -> WorkerRequestView {
        WorkerRequestView {
            key,
            uuid: id,
            transfer_type: TransferType::Load,
            request_type: RequestType::Immediate,
            block_ids,
        }
    }

    /// With the onboard of `src` from a local tier to `dst` started, where there is anything to
    /// onboard.
    pub open spec fn onboard_local(
        self,
        slot: SlotView,
        tier: StagingTier,
        src: Seq<BlockId>,
        dst: Seq<BlockId>,
        id: OperationId,
    ) -> ContextView {
        if src.len() == 0 {
            self
        } else {
            self.dispatch(
                TransferRequestView::Onboard(
                    OnboardRequestView {
                        key: slot.key(),
                        request_id: slot.request_id,
                        tier,
                        src_blocks: src,
                        dst_block_ids: dst,
                        operation_id: id,
                        traceparent: slot.traceparent,
                    },
                ),
                Self::load(slot.key(), id, dst),
            )
        }
    }

    /// With the onboard of the remote blocks `hashes` to `dst` started, where there is anything
    /// to onboard.
    pub open spec fn onboard_remote(
        self,
        slot: SlotView,
        hashes: Seq<SequenceHash>,
        dst: Seq<BlockId>,
        id: OperationId,
    ) -> ContextView {
        if hashes.len() == 0 {
            self
        } else {
            self.dispatch(
                TransferRequestView::Remote(remote_onboard(slot, hashes, dst, id)),
                Self::load(slot.key(), id, dst),
            )
        }
    }
}

/// The onboard of the remote blocks `hashes` to the device blocks `dst`, or to the host tier
/// where `dst` is empty.
pub open spec fn remote_onboard(
    slot: SlotView,
    hashes: Seq<SequenceHash>,
    dst: Seq<BlockId>,
    id: OperationId,
) -> RemoteRequestView {
    RemoteRequestView {
        key: slot.key(),
        request_id: slot.request_id,
        sequence_hashes: hashes,
        device_block_ids: dst,
        host_block_ids: None,
        operation_id: id,
        block_size: slot.block_size,
        is_onboard: true,
        pin_id: None,
        token_blocks: Some(slot.sequence.resolve(hashes)),
        traceparent: slot.traceparent,
        baggage: slot.baggage,
    }
}

/// The offload that an offload effect asks for: it covers the blocks that were evaluated last,
/// and no tokens where the sequence is shorter than what was evaluated.
pub open spec fn offload_of(
    slot: SlotView,
    block_ids: Seq<BlockId>,
    priorities: Seq<u32>,
    id: OperationId,
) -> OffloadRequestView {
    let end = slot.evaluated_blocks as int;
    let start = if block_ids.len() <= end {
        end - block_ids.len()
    } else {
        0
    };
    let blocks = if end <= slot.sequence.hashes.len() {
        slot.sequence.block_range(start, end)
    } else {
        Seq::empty()
    };
    OffloadRequestView {
        key: slot.key(),
        request_id: slot.request_id,
        block_ids,
        token_blocks: blocks,
        priorities,
        operation_id: id,
        sequence_hashes: transfer_requests::block_hashes(blocks),
        block_size: slot.block_size,
        traceparent: slot.traceparent,
        baggage: slot.baggage,
    }
}

/// The hashes of the blocks of a slot that are not computed yet.
pub open spec fn unmatched_hashes(slot: SlotView, num_computed_tokens: usize) -> Seq<SequenceHash> {
    let computed = num_computed_tokens / slot.block_size;
    if computed <= slot.sequence.hashes.len() {
        slot.sequence.hashes.subrange(computed as int, slot.sequence.hashes.len() as int)
    } else {
        Seq::empty()
    }
}

/// What executing an effect does to the slot and the context, and what comes of it. The executor
/// never changes the phase.
pub open spec fn run(
    effect: EffectView<BlockId, BlockId>,
    slot: SlotView,
    ctx: ContextView,
    draw: Draw,
) -> (SlotView, ContextView, Result<ResultView, Seq<char>>) {
    match effect {
        EffectView::RunLocalLookup { num_computed_tokens } => {
            let hashes = unmatched_hashes(slot, num_computed_tokens);
            (
                slot,
                ctx,
                Ok(
                    if hashes.len() == 0 {
                        ResultView::FollowUp(
                            EventView::LocalLookupCompleted {
                                host_blocks: Seq::empty(),
                                disk_blocks: Seq::empty(),
                                remote_candidates: Seq::empty(),
                            },
                        )
                    } else {
                        ResultView::Lookup(LookupView::Local { sequence_hashes: hashes })
                    },
                ),
            )
        },
        EffectView::StartRemoteLookup { candidates, .. } => (
            slot,
            ctx,
            Ok(
                if ctx.has_remote {
                    ResultView::Lookup(
                        LookupView::Remote { candidates, world_size: ctx.world_size },
                    )
                } else {
                    ResultView::FollowUp(EventView::RemoteLookupClosed)
                },
            ),
        ),
        EffectView::StartPrefetch { hashes, operation_id, .. } => if !ctx.has_remote {
            (slot, ctx, Ok(ResultView::FollowUp(EventView::PrefetchFailed)))
        } else if !ctx.open {
            (slot, ctx, Err("failed to send prefetch request: channel closed"@))
        } else {
            (
                slot,
                ctx.send(
                    TransferRequestView::Remote(
                        remote_onboard(slot, hashes, Seq::empty(), operation_id),
                    ),
                ),
                Ok(ResultView::Done),
            )
        },
        EffectView::EnqueueOnboardTransfer {
            host_staging,
            disk_staging,
            remote_hashes,
            dst_blocks,
            ..
        } => {
            let host = host_staging.len() as int;
            let disk = host + disk_staging.len();
            let all = disk + remote_hashes.len();
            if all > dst_blocks.len() {
                (slot, ctx, Ok(ResultView::FollowUp(EventView::Preempt)))
            } else if all > 0 && !ctx.open {
                (
                    slot,
                    ctx,
                    Err(
                        if host > 0 {
                            "failed to send host onboard request: channel closed"@
                        } else if disk > 0 {
                            "failed to send disk onboard request: channel closed"@
                        } else {
                            "failed to send remote onboard request: channel closed"@
                        },
                    ),
                )
            } else {
                (
                    SlotView {
                        evaluated_blocks: if slot.evaluated_blocks >= all {
                            slot.evaluated_blocks
                        } else {
                            all as usize
                        },
                        ..slot
                    },
                    ctx.onboard_local(
                        slot,
                        StagingTier::Host,
                        host_staging,
                        dst_blocks.subrange(0, host),
                        draw.host_id,
                    ).onboard_local(
                        slot,
                        StagingTier::Disk,
                        disk_staging,
                        dst_blocks.subrange(host, disk),
                        draw.disk_id,
                    ).onboard_remote(
                        slot,
                        remote_hashes,
                        dst_blocks.subrange(disk, all),
                        draw.remote_id,
                    ),
                    Ok(ResultView::Done),
                )
            }
        },
        EffectView::EnqueueOffloadTransfer { block_ids, priorities } => if !ctx.open {
            (slot, ctx, Err("failed to send offload request: channel closed"@))
        } else {
            (
                slot,
                ctx.dispatch(
                    TransferRequestView::Offload(
                        offload_of(slot, block_ids, priorities, draw.host_id),
                    ),
                    WorkerRequestView {
                        key: slot.key(),
                        uuid: draw.host_id,
                        transfer_type: TransferType::Store,
                        request_type: RequestType::Scheduled,
                        block_ids,
                    },
                ),
                Ok(ResultView::Done),
            )
        },
        EffectView::MatchReady { num_external_tokens } => (
            slot,
            ctx,
            Ok(ResultView::MatchReady { num_external_tokens }),
        ),
        EffectView::MatchDeferred => (slot, ctx, Ok(ResultView::MatchDeferred)),
        EffectView::MatchNone => (slot, ctx, Ok(ResultView::MatchNone)),
        EffectView::RecordCacheStats { .. } => (
            slot,
            ContextView {
                stats: ctx.stats.push(
                    CacheStatsRecord {
                        host: slot.tokens_cached_from_host / slot.block_size,
                        disk: slot.tokens_cached_from_disk / slot.block_size,
                        remote: slot.tokens_cached_from_remote / slot.block_size,
                        total: slot.total_blocks_queried,
                    },
                ),
                ..ctx
            },
            Ok(ResultView::Done),
        ),
        EffectView::ReleaseStaging => (slot, ctx, Ok(ResultView::Done)),
        EffectView::Diag { .. } => (slot, ctx, Ok(ResultView::Done)),
    }
}

/// The view of an effect's outcome.
pub open spec fn outcome_view(outcome: Result<EffectResult, String>) -> Result<
    ResultView,
    Seq<char>,
> {
    match outcome {
        Ok(result) => Ok(result@),
        Err(message) => Err(message@),
    }
}

/// The view of the outcome of several effects.
pub open spec fn outcomes_view(outcome: Result<Vec<EffectResult>, String>) -> Result<
    Seq<ResultView>,
    Seq<char>,
> {
    match outcome {
        Ok(results) => Ok(result_views(results@)),
        Err(message) => Err(message@),
    }
}

fn onboard_local(
    slot: &VllmConnectorSlot,
    ctx: &mut EffectContext,
    tier: StagingTier,
    src: Vec<BlockId>,
    dst: Vec<BlockId>,
    id: OperationId,
) -> (sent: bool)
    ensures
        sent == (src@.len() == 0 || old(ctx)@.open),
        final(ctx)@ == if sent {
            old(ctx)@.onboard_local(slot@, tier, src@, dst@, id)
        } else {
            old(ctx)@
        },
        final(ctx)@.open == old(ctx)@.open,
{
    if src.len() == 0 {
        return true;
    }
    let key: SlotKey = slot.slot_key();
    let block_ids: Vec<BlockId> = copy_ids(dst.as_slice());
    let request = LocalOnboardRequest::new(
        key.clone(),
        tier,
        src,
        dst,
        id,
        clone_text(&slot.traceparent),
    );
    ctx.dispatch(
        LocalTransferRequest::Onboard(request),
        key,
        id,
        TransferType::Load,
        RequestType::Immediate,
        block_ids,
    )
}

fn remote_request(
    slot: &VllmConnectorSlot,
    hashes: Vec<SequenceHash>,
    dst: Vec<BlockId>,
    id: OperationId,
) -> (request: RemoteTransferRequest)
    ensures
        request@ == remote_onboard(slot@, hashes@, dst@, id),
{
    let token_blocks: Vec<TokenBlock> = slot.sequence.resolve(hashes.as_slice());
    RemoteTransferRequest {
        key: slot.slot_key(),
        request_id: slot.request_id.clone(),
        sequence_hashes: hashes,
        device_block_ids: dst,
        host_block_ids: None,
        operation_id: id,
        block_size: slot.block_size,
        is_onboard: true,
        pin_id: None,
        token_blocks: Some(token_blocks),
        traceparent: clone_text(&slot.traceparent),
        baggage: clone_text(&slot.baggage),
    }
}

fn onboard_remote(
    slot: &VllmConnectorSlot,
    ctx: &mut EffectContext,
    hashes: Vec<SequenceHash>,
    dst: Vec<BlockId>,
    id: OperationId,
) -> (sent: bool)
    ensures
        sent == (hashes@.len() == 0 || old(ctx)@.open),
        final(ctx)@ == if sent {
            old(ctx)@.onboard_remote(slot@, hashes@, dst@, id)
        } else {
            old(ctx)@
        },
{
    if hashes.len() == 0 {
        return true;
    }
    let block_ids: Vec<BlockId> = copy_ids(dst.as_slice());
    let request: RemoteTransferRequest = remote_request(slot, hashes, dst, id);
    ctx.dispatch(
        LocalTransferRequest::Remote(request),
        slot.slot_key(),
        id,
        TransferType::Load,
        RequestType::Immediate,
        block_ids,
    )
}

fn copy_range(blocks: &Vec<BlockId>, start: usize, end: usize) -> (copy: Vec<BlockId>)
    requires
        start <= end <= blocks@.len(),
    ensures
        copy@ == blocks@.subrange(start as int, end as int),
{
    let mut copy: Vec<BlockId> = Vec::new();
    let mut i: usize = start;
    while i < end
        invariant
            start <= i <= end <= blocks@.len(),
            copy@ =~= blocks@.subrange(start as int, i as int),
        decreases end - i,
    {
        copy.push(blocks[i]);
        i = i + 1;
    }
    copy
}

fn execute_onboard(
    slot: &mut VllmConnectorSlot,
    ctx: &mut EffectContext,
    host_staging: Vec<BlockId>,
    disk_staging: Vec<BlockId>,
    remote_hashes: Vec<SequenceHash>,
    dst_blocks: Vec<BlockId>,
    num_external_tokens: usize,
    draw: &Draw,
) -> (outcome: Result<EffectResult, String>)
    ensures
        (final(slot)@, final(ctx)@, outcome_view(outcome)) == run(
            EffectView::EnqueueOnboardTransfer {
                host_staging: host_staging@,
                disk_staging: disk_staging@,
                remote_hashes: remote_hashes@,
                dst_blocks: dst_blocks@,
                num_external_tokens,
            },
            old(slot)@,
            old(ctx)@,
            *draw,
        ),
        final(slot).phase == old(slot).phase,
{
    let host: usize = host_staging.len();
    let available: usize = dst_blocks.len();
    if host > available || disk_staging.len() > available - host || remote_hashes.len() > available
        - host - disk_staging.len() {
        return Ok(EffectResult::FollowUp(SlotEvent::Preempt));
    }
    let disk: usize = host + disk_staging.len();
    let all: usize = disk + remote_hashes.len();
    let host_dst: Vec<BlockId> = copy_range(&dst_blocks, 0, host);
    let disk_dst: Vec<BlockId> = copy_range(&dst_blocks, host, disk);
    let remote_dst: Vec<BlockId> = copy_range(&dst_blocks, disk, all);
    if !onboard_local(&*slot, ctx, StagingTier::Host, host_staging, host_dst, draw.host_id) {
        return Err("failed to send host onboard request: channel closed".to_string());
    }
    if !onboard_local(&*slot, ctx, StagingTier::Disk, disk_staging, disk_dst, draw.disk_id) {
        return Err("failed to send disk onboard request: channel closed".to_string());
    }
    if !onboard_remote(&*slot, ctx, remote_hashes, remote_dst, draw.remote_id) {
        return Err("failed to send remote onboard request: channel closed".to_string());
    }
    if slot.evaluated_blocks < all {
        slot.evaluated_blocks = all;
    }
    Ok(EffectResult::Done)
}

fn execute_offload(
    slot: &VllmConnectorSlot,
    ctx: &mut EffectContext,
    blocks: OffloadBlocks,
    draw: &Draw,
) -> (outcome: Result<EffectResult, String>)
    requires
        slot@.wf(),
    ensures
        (slot@, final(ctx)@, outcome_view(outcome)) == run(
            EffectView::EnqueueOffloadTransfer {
                block_ids: blocks.block_ids@,
                priorities: blocks.priorities@,
            },
            slot@,
            old(ctx)@,
            *draw,
        ),
{
    let key: SlotKey = slot.slot_key();
    let end: usize = slot.evaluated_blocks;
    let start: usize = end.saturating_sub(blocks.block_ids.len());
    let token_blocks: Vec<TokenBlock> = if end <= slot.sequence.num_blocks() {
        slot.sequence.block_range(start, end)
    } else {
        Vec::new()
    };
    assert(end > slot@.sequence.hashes.len() ==> tokens::block_views(token_blocks@)
        =~= Seq::empty());
    let block_ids: Vec<BlockId> = copy_ids(blocks.block_ids.as_slice());
    let request = LocalOffloadRequest::new(
        key.clone(),
        blocks.block_ids,
        token_blocks,
        blocks.priorities,
        draw.host_id,
        slot.block_size,
        clone_text(&slot.traceparent),
        clone_text(&slot.baggage),
    );
    if ctx.dispatch(
        LocalTransferRequest::Offload(request),
        key,
        draw.host_id,
        TransferType::Store,
        RequestType::Scheduled,
        block_ids,
    ) {
        Ok(EffectResult::Done)
    } else {
        Err("failed to send offload request: channel closed".to_string())
    }
}

/// Executes one effect under the identities of `draw`.
pub fn execute_effect_as(
    effect: VllmSlotEffect,
    slot: &mut VllmConnectorSlot,
    ctx: &mut EffectContext,
    draw: &Draw,
) -> (outcome: Result<EffectResult, String>)
    requires
        old(slot)@.wf(),
    ensures
        (final(slot)@, final(ctx)@, outcome_view(outcome)) == run(
            effect@,
            old(slot)@,
            old(ctx)@,
            *draw,
        ),
        final(slot).phase == old(slot).phase,
{
    match effect {
        VllmSlotEffect::RunLocalLookup { num_computed_tokens } => {
            let computed: usize = num_computed_tokens / slot.block_size;
            let sequence_hashes: Vec<SequenceHash> = slot.sequence.hashes_from(computed);
            if sequence_hashes.len() == 0 {
                let host_blocks: Vec<BlockId> = Vec::new();
                let disk_blocks: Vec<BlockId> = Vec::new();
                let remote_candidates: Vec<SequenceHash> = Vec::new();
                Ok(
                    EffectResult::FollowUp(
                        SlotEvent::LocalLookupCompleted {
                            host_blocks,
                            disk_blocks,
                            remote_candidates,
                        },
                    ),
                )
            } else {
                Ok(EffectResult::Lookup(LookupRequest::Local { sequence_hashes }))
            }
        },
        VllmSlotEffect::StartRemoteLookup { candidates, .. } => {
            if ctx.has_remote {
                Ok(
                    EffectResult::Lookup(
                        LookupRequest::Remote { candidates, world_size: ctx.world_size },
                    ),
                )
            } else {
                Ok(EffectResult::FollowUp(SlotEvent::RemoteLookupClosed))
            }
        },
        VllmSlotEffect::StartPrefetch { hashes, operation_id, .. } => {
            if ctx.has_remote {
                let request: RemoteTransferRequest = remote_request(
                    &*slot,
                    hashes,
                    Vec::new(),
                    operation_id,
                );
                if ctx.send(LocalTransferRequest::Remote(request)) {
                    Ok(EffectResult::Done)
                } else {
                    Err("failed to send prefetch request: channel closed".to_string())
                }
            } else {
                Ok(EffectResult::FollowUp(SlotEvent::PrefetchFailed))
            }
        },
        VllmSlotEffect::EnqueueOnboardTransfer {
            host_staging,
            disk_staging,
            remote_hashes,
            dst_blocks,
            num_external_tokens,
        } => execute_onboard(
            slot,
            ctx,
            host_staging,
            disk_staging,
            remote_hashes,
            dst_blocks,
            num_external_tokens,
            draw,
        ),
        VllmSlotEffect::EnqueueOffloadTransfer(blocks) => execute_offload(&*slot, ctx, blocks, draw),
        VllmSlotEffect::MatchReady { num_external_tokens } => Ok(
            EffectResult::MatchReady { num_external_tokens },
        ),
        VllmSlotEffect::MatchDeferred => Ok(EffectResult::MatchDeferred),
        VllmSlotEffect::MatchNone => Ok(EffectResult::MatchNone),
        VllmSlotEffect::ReleaseStaging => Ok(EffectResult::Done),
        VllmSlotEffect::RecordCacheStats { .. } => {
            ctx.record_stats(
                CacheStatsRecord {
                    host: slot.tokens_cached_from_host / slot.block_size,
                    disk: slot.tokens_cached_from_disk / slot.block_size,
                    remote: slot.tokens_cached_from_remote / slot.block_size,
                    total: slot.total_blocks_queried,
                },
            );
            Ok(EffectResult::Done)
        },
        VllmSlotEffect::Diag { .. } => Ok(EffectResult::Done),
    }
}

/// Executes one effect under fresh identities.
pub fn execute_effect(
    effect: VllmSlotEffect,
    slot: &mut VllmConnectorSlot,
    ctx: &mut EffectContext,
) -> (outcome: Result<EffectResult, String>)
    requires
        old(slot)@.wf(),
    ensures
        exists|draw: Draw|
            is_random(draw) && (final(slot)@, final(ctx)@, outcome_view(outcome)) == #[trigger] run(
                effect@,
                old(slot)@,
                old(ctx)@,
                draw,
            ),
{
    let draw: Draw = new_draw();
    execute_effect_as(effect, slot, ctx, &draw)
}

/// The first `n` of `effects` executed in order under `draws`, up to the first failure.
pub open spec fn run_all(
    effects: Seq<EffectView<BlockId, BlockId>>,
    n: nat,
    slot: SlotView,
    ctx: ContextView,
    draws: Seq<Draw>,
) -> (SlotView, ContextView, Result<Seq<ResultView>, Seq<char>>)
    decreases n,
{
    if n == 0 {
        (slot, ctx, Ok(Seq::empty()))
    } else {
        let before = run_all(effects, (n - 1) as nat, slot, ctx, draws);
        match before.2 {
            Err(message) => before,
            Ok(results) => {
                let next = run(effects[n - 1], before.0, before.1, draws[n - 1]);
                (
                    next.0,
                    next.1,
                    match next.2 {
                        Ok(result) => Ok(results.push(result)),
                        Err(message) => Err(message),
                    },
                )
            },
        }
    }
}

/// Whether `draws` are as many as `effects`, and random.
pub open spec fn drawn_for<T>(draws: Seq<Draw>, effects: Seq<T>) -> bool {
    draws.len() == effects.len() && forall|i: int|
        0 <= i < draws.len() ==> is_random(#[trigger] draws[i])
}

proof fn run_all_stops(
    effects: Seq<EffectView<BlockId, BlockId>>,
    m: nat,
    n: nat,
    slot: SlotView,
    ctx: ContextView,
    draws: Seq<Draw>,
    more: Seq<Draw>,
)
    requires
        m <= n,
        m <= draws.len(),
        forall|i: int| 0 <= i < m ==> more[i] == #[trigger] draws[i],
        m == n || run_all(effects, m, slot, ctx, draws).2 is Err,
    ensures
        run_all(effects, n, slot, ctx, more) == run_all(effects, m, slot, ctx, draws),
    decreases n,
{
    if m < n {
        run_all_stops(effects, m, (n - 1) as nat, slot, ctx, draws, more);
    } else if m > 0 {
        run_all_stops(effects, (m - 1) as nat, (m - 1) as nat, slot, ctx, draws, more);
    }
}

/// Executes effects in order and collects what comes of them. The first failure ends the
/// execution; what was done before it stays done.
pub fn execute_effects(
    effects: Vec<VllmSlotEffect>,
    slot: &mut VllmConnectorSlot,
    ctx: &mut EffectContext,
) -> (outcome: Result<Vec<EffectResult>, String>)
    requires
        old(slot)@.wf(),
    ensures
        exists|draws: Seq<Draw>|
            drawn_for(draws, effects@) && (final(slot)@, final(ctx)@, outcomes_view(outcome))
                == #[trigger] run_all(
                slot_machine::effect_views(effects@),
                effects@.len(),
                old(slot)@,
                old(ctx)@,
                draws,
            ),
{
    let ghost all = slot_machine::effect_views(effects@);
    let ghost total = effects@.len();
    let ghost start_slot = slot@;
    let ghost start_ctx = ctx@;
    let mut rest: Vec<VllmSlotEffect> = effects;
    let mut results: Vec<EffectResult> = Vec::new();
    let ghost mut draws = Seq::<Draw>::empty();
    assert(result_views(results@) =~= Seq::<ResultView>::empty());
    while rest.len() > 0
        invariant
            slot@.wf(),
            total == effects@.len(),
            all == slot_machine::effect_views(effects@),
            start_slot == old(slot)@,
            start_ctx == old(ctx)@,
            draws.len() + rest@.len() == total,
            forall|i: int| 0 <= i < draws.len() ==> is_random(#[trigger] draws[i]),
            forall|i: int| 0 <= i < rest@.len() ==> rest@[i]@ == all[draws.len() + i],
            (slot@, ctx@, Ok::<Seq<ResultView>, Seq<char>>(result_views(results@))) == run_all(
                all,
                draws.len(),
                start_slot,
                start_ctx,
                draws,
            ),
        decreases rest@.len(),
    {
        let ghost done = draws.len();
        let ghost before = results@;
        let effect: VllmSlotEffect = rest.remove(0);
        assert(effect@ == all[done as int]);
        let draw: Draw = new_draw();
        let ghost earlier = draws;
        let outcome: Result<EffectResult, String> = execute_effect_as(effect, slot, ctx, &draw);
        proof {
            draws = draws.push(draw);
            run_all_stops(all, done, done, start_slot, start_ctx, earlier, draws);
        }
        match outcome {
            Ok(result) => {
                let ghost view = result@;
                results.push(result);
                assert(result_views(results@) =~= result_views(before).push(view));
            },
            Err(message) => {
                proof {
                    let more = draws + Seq::new((total - draws.len()) as nat, |i: int| draw);
                    run_all_stops(all, draws.len(), total, start_slot, start_ctx, draws, more);
                    assert(drawn_for(more, effects@));
                }
                return Err(message);
            },
        }
    }
    assert(drawn_for(draws, effects@));
    Ok(results)
}

/// A slot after `event`, with the effect of the transition executed, the event that follows from
/// it taken, and so on until nothing follows. Each step uses the last draw that is left.
pub open spec fn settle(
    slot: SlotView,
    event: EventView<BlockId, BlockId>,
    slot_ctx: SlotContext,
    ctx: ContextView,
    draws: Seq<Draw>,
) -> (SlotView, ContextView, Result<Seq<ResultView>, Seq<char>>)
    decreases draws.len(), 1nat,
{
    if draws.len() == 0 {
        (slot, ctx, Ok(Seq::empty()))
    } else {
        let draw = draws.last();
        let next = slot_machine::step(slot.phase, event, slot_ctx, draw.prefetch_id, draw.now);
        if next.1.len() == 0 {
            (slot.entered(next.0, draw.now), ctx, Ok(Seq::empty()))
        } else {
            settle_effect(next.1[0], slot.entered(next.0, draw.now), slot_ctx, ctx, draws)
        }
    }
}

/// A slot with `effect` executed, and with the event that follows from it settled.
pub open spec fn settle_effect(
    effect: EffectView<BlockId, BlockId>,
    slot: SlotView,
    slot_ctx: SlotContext,
    ctx: ContextView,
    draws: Seq<Draw>,
) -> (SlotView, ContextView, Result<Seq<ResultView>, Seq<char>>)
    decreases draws.len(), 0nat,
{
    if draws.len() == 0 {
        (slot, ctx, Ok(Seq::empty()))
    } else {
        let out = run(effect, slot, ctx, draws.last());
        match out.2 {
            Err(message) => (out.0, out.1, Err(message)),
            Ok(ResultView::FollowUp(event)) => settle(
                out.0,
                event,
                slot_ctx,
                out.1,
                draws.drop_last(),
            ),
            Ok(result) => (out.0, out.1, Ok(seq![result])),
        }
    }
}

/// How many further steps an event can lead to before the caller is asked.
pub open spec fn event_depth(event: EventView<BlockId, BlockId>) -> nat {
    match event {
        EventView::AcquireMatches { .. } => 2,
        EventView::LocalLookupCompleted { .. } => 1,
        EventView::RemoteLookupCompleted { .. } => 1,
        EventView::AllocCompleted { .. } => 1,
        _ => 0,
    }
}

/// How many further steps an effect can lead to before the caller is asked.
pub open spec fn effect_depth(effect: EffectView<BlockId, BlockId>) -> nat {
    match effect {
        EffectView::RunLocalLookup { .. } => 2,
        EffectView::StartRemoteLookup { .. } => 1,
        EffectView::StartPrefetch { .. } => 1,
        EffectView::EnqueueOnboardTransfer { .. } => 1,
        _ => 0,
    }
}

/// A transition has at most one effect, and what follows from it comes to an end: each event
/// that follows leads to fewer further steps than the effect that it follows from.
pub proof fn chains_of_effects_end(
    slot: SlotView,
    event: EventView<BlockId, BlockId>,
    slot_ctx: SlotContext,
    ctx: ContextView,
    draw: Draw,
)
    ensures
        ({
            let next = slot_machine::step(
                slot.phase,
                event,
                slot_ctx,
                draw.prefetch_id,
                draw.now,
            );
            &&& next.1.len() <= 1
            &&& next.1.len() == 1 ==> effect_depth(next.1[0]) <= event_depth(event)
        }),
        forall|effect: EffectView<BlockId, BlockId>|
            #![trigger run(effect, slot, ctx, draw)]
            run(effect, slot, ctx, draw).2 matches Ok(ResultView::FollowUp(follow))
                ==> event_depth(follow) < effect_depth(effect),
{
}

/// The executor never changes the phase of a slot, its sequence or its device blocks, and what
/// was considered for offload stays considered.
pub proof fn effects_keep_phase(
    effect: EffectView<BlockId, BlockId>,
    slot: SlotView,
    ctx: ContextView,
    draw: Draw,
)
    ensures
        run(effect, slot, ctx, draw).0 == (SlotView {
            evaluated_blocks: run(effect, slot, ctx, draw).0.evaluated_blocks,
            ..slot
        }),
        (effect matches EffectView::EnqueueOnboardTransfer { dst_blocks, .. } ==> dst_blocks.len()
            <= usize::MAX) ==> run(effect, slot, ctx, draw).0.evaluated_blocks
            >= slot.evaluated_blocks,
{
}

/// Staged blocks that fit are onboarded to distinct parts of the destination: host blocks first,
/// then disk blocks, then remote blocks. Blocks that do not fit are not onboarded at all.
pub proof fn onboard_splits_destination(
    host: Seq<BlockId>,
    disk: Seq<BlockId>,
    remote: Seq<SequenceHash>,
    dst: Seq<BlockId>,
    num_external_tokens: usize,
    slot: SlotView,
    ctx: ContextView,
    draw: Draw,
)
    requires
        ctx.open,
    ensures
        ({
            let out = run(
                EffectView::EnqueueOnboardTransfer {
                    host_staging: host,
                    disk_staging: disk,
                    remote_hashes: remote,
                    dst_blocks: dst,
                    num_external_tokens,
                },
                slot,
                ctx,
                draw,
            );
            let h = host.len() as int;
            let d = h + disk.len();
            let r = d + remote.len();
            let ops = out.1.ops_of(slot.key());
            if r > dst.len() {
                out.1 == ctx && out.2 == Ok::<ResultView, Seq<char>>(
                    ResultView::FollowUp(EventView::Preempt),
                )
            } else {
                &&& out.2 == Ok::<ResultView, Seq<char>>(ResultView::Done)
                &&& ops == ctx.ops_of(slot.key()) + (if h > 0 {
                    seq![ContextView::load(slot.key(), draw.host_id, dst.subrange(0, h))]
                } else {
                    Seq::empty()
                }) + (if disk.len() > 0 {
                    seq![ContextView::load(slot.key(), draw.disk_id, dst.subrange(h, d))]
                } else {
                    Seq::empty()
                }) + (if remote.len() > 0 {
                    seq![ContextView::load(slot.key(), draw.remote_id, dst.subrange(d, r))]
                } else {
                    Seq::empty()
                })
                &&& dst.subrange(0, h) + dst.subrange(h, d) + dst.subrange(d, r) == dst.subrange(
                    0,
                    r,
                )
            }
        }),
{
    let h = host.len() as int;
    let d = h + disk.len();
    let r = d + remote.len();
    if r <= dst.len() {
        let a = ctx.onboard_local(slot, StagingTier::Host, host, dst.subrange(0, h), draw.host_id);
        let b = a.onboard_local(slot, StagingTier::Disk, disk, dst.subrange(h, d), draw.disk_id);
        let c = b.onboard_remote(slot, remote, dst.subrange(d, r), draw.remote_id);
        let host_ops = if h > 0 {
            seq![ContextView::load(slot.key(), draw.host_id, dst.subrange(0, h))]
        } else {
            Seq::empty()
        };
        let disk_ops = if disk.len() > 0 {
            seq![ContextView::load(slot.key(), draw.disk_id, dst.subrange(h, d))]
        } else {
            Seq::empty()
        };
        let remote_ops = if remote.len() > 0 {
            seq![ContextView::load(slot.key(), draw.remote_id, dst.subrange(d, r))]
        } else {
            Seq::empty()
        };
        assert(a.ops_of(slot.key()) =~= ctx.ops_of(slot.key()) + host_ops);
        assert(b.ops_of(slot.key()) =~= a.ops_of(slot.key()) + disk_ops);
        assert(c.ops_of(slot.key()) =~= b.ops_of(slot.key()) + remote_ops);
        assert(dst.subrange(0, h) + dst.subrange(h, d) + dst.subrange(d, r) =~= dst.subrange(0, r));
    }
}

/// Settling an event changes nothing of a slot but its phase, the start of its onboard and how
/// far it was considered for offload, leaves the remote tier as it was, and has at most one result.
pub proof fn settling_keeps_identity(
    slot: SlotView,
    event: EventView<BlockId, BlockId>,
    slot_ctx: SlotContext,
    ctx: ContextView,
    draws: Seq<Draw>,
)
    ensures
        ({
            let out = settle(slot, event, slot_ctx, ctx, draws);
            &&& out.0 == (SlotView {
                phase: out.0.phase,
                onboarding_since: out.0.onboarding_since,
                evaluated_blocks: out.0.evaluated_blocks,
                ..slot
            })
            &&& out.1.has_remote == ctx.has_remote
            &&& out.1.world_size == ctx.world_size
            &&& out.1.open == ctx.open
            &&& out.2 matches Ok(results) ==> results.len() <= 1
        }),
    decreases draws.len(),
{
    if draws.len() > 0 {
        let draw = draws.last();
        let next = slot_machine::step(slot.phase, event, slot_ctx, draw.prefetch_id, draw.now);
        if next.1.len() > 0 {
            let moved = slot.entered(next.0, draw.now);
            effects_keep_phase(next.1[0], moved, ctx, draw);
            let out = run(next.1[0], moved, ctx, draw);
            match out.2 {
                Ok(ResultView::FollowUp(follow)) => {
                    settling_keeps_identity(out.0, follow, slot_ctx, out.1, draws.drop_last());
                },
                _ => {},
            }
        }
    }
}

/// Whether `draws` are random and enough for every chain of events.
pub open spec fn enough_draws(draws: Seq<Draw>) -> bool {
    draws.len() >= 3 && forall|i: int| 0 <= i < draws.len() ==> is_random(#[trigger] draws[i])
}

/// Applies an event to a slot and executes what follows from it. The results are those of the
/// last effect: none where the transition had no effect. A lookup is handed to the caller, who
/// continues with the event that the answer makes (see [`complete_local_lookup`] and
/// [`complete_remote_lookup`]).
pub fn apply_and_execute(
    slot: &mut VllmConnectorSlot,
    event: VllmSlotEvent,
    slot_ctx: &SlotContext,
    effect_ctx: &mut EffectContext,
) -> (outcome: Result<Vec<EffectResult>, String>)
    requires
        old(slot)@.wf(),
    ensures
        final(slot)@.wf(),
        exists|draws: Seq<Draw>|
            enough_draws(draws) && (final(slot)@, final(effect_ctx)@, outcomes_view(outcome))
                == #[trigger] settle(old(slot)@, event@, *slot_ctx, old(effect_ctx)@, draws),
    decreases event_depth(event@), 1nat,
{
    let draw: Draw = new_draw();
    let ghost start = slot@;
    let ghost start_ctx = effect_ctx@;
    let ghost event_view = event@;
    proof {
        chains_of_effects_end(start, event_view, *slot_ctx, start_ctx, draw);
    }
    let effects: Vec<VllmSlotEffect> = slot.advance(event, slot_ctx, draw.prefetch_id, draw.now);
    let ghost moved = slot@;
    let ghost effect_list = slot_machine::effect_views(effects@);
    let mut effects = effects;
    let effect: VllmSlotEffect = match effects.pop() {
        None => {
            proof {
                let draws = seq![draw, draw, draw];
                assert(enough_draws(draws));
                assert(result_views(Seq::empty()) =~= Seq::<ResultView>::empty());
                assert(settle(start, event_view, *slot_ctx, start_ctx, draws) == (
                    moved,
                    start_ctx,
                    Ok::<Seq<ResultView>, Seq<char>>(Seq::empty()),
                ));
            }
            return Ok(Vec::new());
        },
        Some(effect) => effect,
    };
    let ghost effect_view = effect@;
    assert(effect_view == effect_list[0]);
    proof {
        chains_of_effects_end(moved, event_view, *slot_ctx, start_ctx, draw);
        effects_keep_phase(effect_view, moved, start_ctx, draw);
    }
    let outcome: Result<Vec<EffectResult>, String> = settle_one(
        slot,
        effect,
        slot_ctx,
        effect_ctx,
        draw,
    );
    proof {
        let draws = choose|draws: Seq<Draw>|
            enough_draws(draws) && draws.last() == draw && (
                slot@,
                effect_ctx@,
                outcomes_view(outcome),
            ) == #[trigger] settle_effect(effect_view, moved, *slot_ctx, start_ctx, draws);
        assert(settle(start, event_view, *slot_ctx, start_ctx, draws) == (
            slot@,
            effect_ctx@,
            outcomes_view(outcome),
        ));
    }
    outcome
}

/// Executes one effect and settles what follows from it.
fn settle_one(
    slot: &mut VllmConnectorSlot,
    effect: VllmSlotEffect,
    slot_ctx: &SlotContext,
    effect_ctx: &mut EffectContext,
    draw: Draw,
) -> (outcome: Result<Vec<EffectResult>, String>)
    requires
        old(slot)@.wf(),
        is_random(draw),
    ensures
        final(slot)@.wf(),
        exists|draws: Seq<Draw>|
            enough_draws(draws) && draws.last() == draw && (
                final(slot)@,
                final(effect_ctx)@,
                outcomes_view(outcome),
            ) == #[trigger] settle_effect(
                effect@,
                old(slot)@,
                *slot_ctx,
                old(effect_ctx)@,
                draws,
            ),
    decreases effect_depth(effect@), 0nat,
{
    let ghost start = slot@;
    let ghost start_ctx = effect_ctx@;
    let ghost effect_view = effect@;
    proof {
        effects_keep_phase(effect_view, start, start_ctx, draw);
        chains_of_effects_end(start, EventView::Reset, *slot_ctx, start_ctx, draw);
    }
    match execute_effect_as(effect, slot, effect_ctx, &draw) {
        Err(message) => {
            proof {
                let draws = seq![draw, draw, draw];
                assert(enough_draws(draws));
                assert(settle_effect(effect_view, start, *slot_ctx, start_ctx, draws) == (
                    slot@,
                    effect_ctx@,
                    Err::<Seq<ResultView>, Seq<char>>(message@),
                ));
            }
            Err(message)
        },
        Ok(EffectResult::FollowUp(follow_up)) => {
            let ghost middle = slot@;
            let ghost middle_ctx = effect_ctx@;
            let ghost follow_view = follow_up@;
            let outcome: Result<Vec<EffectResult>, String> = apply_and_execute(
                slot,
                follow_up,
                slot_ctx,
                effect_ctx,
            );
            proof {
                let rest = choose|draws: Seq<Draw>|
                    enough_draws(draws) && (slot@, effect_ctx@, outcomes_view(outcome))
                        == #[trigger] settle(middle, follow_view, *slot_ctx, middle_ctx, draws);
                let draws = rest.push(draw);
                assert(draws.drop_last() =~= rest);
                assert(enough_draws(draws));
                assert(settle_effect(effect_view, start, *slot_ctx, start_ctx, draws) == (
                    slot@,
                    effect_ctx@,
                    outcomes_view(outcome),
                ));
            }
            outcome
        },
        Ok(result) => {
            let ghost view = result@;
            let mut results: Vec<EffectResult> = Vec::new();
            results.push(result);
            proof {
                assert(result_views(results@) =~= seq![view]);
                let draws = seq![draw, draw, draw];
                assert(enough_draws(draws));
                assert(settle_effect(effect_view, start, *slot_ctx, start_ctx, draws) == (
                    slot@,
                    effect_ctx@,
                    Ok::<Seq<ResultView>, Seq<char>>(seq![view]),
                ));
            }
            Ok(results)
        },
    }
}

/// The first `n` of `effects` executed in order, each with what follows from it settled, up to
/// the first failure.
pub open spec fn settle_all(
    effects: Seq<EffectView<BlockId, BlockId>>,
    n: nat,
    slot: SlotView,
    slot_ctx: SlotContext,
    ctx: ContextView,
    draws: Seq<Seq<Draw>>,
) -> (SlotView, ContextView, Result<Seq<ResultView>, Seq<char>>)
    decreases n,
{
    if n == 0 {
        (slot, ctx, Ok(Seq::empty()))
    } else {
        let before = settle_all(effects, (n - 1) as nat, slot, slot_ctx, ctx, draws);
        match before.2 {
            Err(message) => before,
            Ok(results) => {
                let next = settle_effect(
                    effects[n - 1],
                    before.0,
                    slot_ctx,
                    before.1,
                    draws[n - 1],
                );
                (
                    next.0,
                    next.1,
                    match next.2 {
                        Ok(more) => Ok(results + more),
                        Err(message) => Err(message),
                    },
                )
            },
        }
    }
}

/// Whether there are enough draws for each of `effects`.
pub open spec fn enough_for_each<T>(draws: Seq<Seq<Draw>>, effects: Seq<T>) -> bool {
    draws.len() == effects.len() && forall|i: int|
        0 <= i < draws.len() ==> enough_draws(#[trigger] draws[i])
}

proof fn settle_all_stops(
    effects: Seq<EffectView<BlockId, BlockId>>,
    m: nat,
    n: nat,
    slot: SlotView,
    slot_ctx: SlotContext,
    ctx: ContextView,
    draws: Seq<Seq<Draw>>,
    more: Seq<Seq<Draw>>,
)
    requires
        m <= n,
        m <= draws.len(),
        forall|i: int| 0 <= i < m ==> more[i] == #[trigger] draws[i],
        m == n || settle_all(effects, m, slot, slot_ctx, ctx, draws).2 is Err,
    ensures
        settle_all(effects, n, slot, slot_ctx, ctx, more) == settle_all(
            effects,
            m,
            slot,
            slot_ctx,
            ctx,
            draws,
        ),
    decreases n,
{
    if m < n {
        settle_all_stops(effects, m, (n - 1) as nat, slot, slot_ctx, ctx, draws, more);
    } else if m > 0 {
        settle_all_stops(
            effects,
            (m - 1) as nat,
            (m - 1) as nat,
            slot,
            slot_ctx,
            ctx,
            draws,
            more,
        );
    }
}

/// Executes effects in order, each with what follows from it settled before the next, and
/// collects the results. The first failure ends the execution; what was done before it stays
/// done.
pub fn execute_effects_recursive(
    effects: Vec<VllmSlotEffect>,
    slot: &mut VllmConnectorSlot,
    slot_ctx: &SlotContext,
    ctx: &mut EffectContext,
) -> (outcome: Result<Vec<EffectResult>, String>)
    requires
        old(slot)@.wf(),
    ensures
        final(slot)@.wf(),
        exists|draws: Seq<Seq<Draw>>|
            enough_for_each(draws, effects@) && (final(slot)@, final(ctx)@, outcomes_view(outcome))
                == #[trigger] settle_all(
                slot_machine::effect_views(effects@),
                effects@.len(),
                old(slot)@,
                *slot_ctx,
                old(ctx)@,
                draws,
            ),
{
    let ghost all = slot_machine::effect_views(effects@);
    let ghost total = effects@.len();
    let ghost start_slot = slot@;
    let ghost start_ctx = ctx@;
    let mut rest: Vec<VllmSlotEffect> = effects;
    let mut results: Vec<EffectResult> = Vec::new();
    let ghost mut draws = Seq::<Seq<Draw>>::empty();
    assert(result_views(results@) =~= Seq::<ResultView>::empty());
    while rest.len() > 0
        invariant
            slot@.wf(),
            total == effects@.len(),
            all == slot_machine::effect_views(effects@),
            start_slot == old(slot)@,
            start_ctx == old(ctx)@,
            draws.len() + rest@.len() == total,
            forall|i: int| 0 <= i < draws.len() ==> enough_draws(#[trigger] draws[i]),
            forall|i: int| 0 <= i < rest@.len() ==> rest@[i]@ == all[draws.len() + i],
            (slot@, ctx@, Ok::<Seq<ResultView>, Seq<char>>(result_views(results@))) == settle_all(
                all,
                draws.len(),
                start_slot,
                *slot_ctx,
                start_ctx,
                draws,
            ),
        decreases rest@.len(),
    {
        let ghost done = draws.len();
        let ghost before = results@;
        let ghost before_slot = slot@;
        let ghost before_ctx = ctx@;
        let effect: VllmSlotEffect = rest.remove(0);
        let ghost effect_view = effect@;
        assert(effect_view == all[done as int]);
        let draw: Draw = new_draw();
        let ghost earlier = draws;
        let outcome: Result<Vec<EffectResult>, String> = settle_one(
            slot,
            effect,
            slot_ctx,
            ctx,
            draw,
        );
        proof {
            let used = choose|used: Seq<Draw>|
                enough_draws(used) && used.last() == draw && (
                    slot@,
                    ctx@,
                    outcomes_view(outcome),
                ) == #[trigger] settle_effect(
                    effect_view,
                    before_slot,
                    *slot_ctx,
                    before_ctx,
                    used,
                );
            draws = draws.push(used);
            settle_all_stops(
                all,
                done,
                done,
                start_slot,
                *slot_ctx,
                start_ctx,
                earlier,
                draws,
            );
        }
        match outcome {
            Ok(more) => {
                let mut more: Vec<EffectResult> = more;
                let ghost added = more@;
                results.append(&mut more);
                assert(result_views(results@) =~= result_views(before) + result_views(added));
            },
            Err(message) => {
                proof {
                    let padded = draws + Seq::new(
                        (total - draws.len()) as nat,
                        |i: int| draws[0],
                    );
                    assert forall|i: int| 0 <= i < padded.len() implies enough_draws(
                        #[trigger] padded[i],
                    ) by {
                        assert(enough_draws(draws[0]));
                        if i < draws.len() {
                            assert(padded[i] == draws[i]);
                        }
                    }
                    settle_all_stops(
                        all,
                        draws.len(),
                        total,
                        start_slot,
                        *slot_ctx,
                        start_ctx,
                        draws,
                        padded,
                    );
                    assert(enough_for_each(padded, effects@));
                }
                return Err(message);
            },
        }
    }
    assert(enough_for_each(draws, effects@));
    Ok(results)
}

/// The hashes that the disk pool is asked for, after the host pool had the first `num_host` of
/// them.
pub fn disk_candidates(sequence_hashes: &[SequenceHash], num_host: usize) -> (rest: Vec<
    SequenceHash,
>)
    requires
        num_host <= sequence_hashes@.len(),
    ensures
        rest@ == sequence_hashes@.subrange(num_host as int, sequence_hashes@.len() as int),
{
    let mut rest: Vec<SequenceHash> = Vec::new();
    let mut i: usize = num_host;
    while i < sequence_hashes.len()
        invariant
            num_host <= i <= sequence_hashes@.len(),
            rest@ =~= sequence_hashes@.subrange(num_host as int, i as int),
        decreases sequence_hashes@.len() - i,
    {
        rest.push(sequence_hashes[i]);
        i = i + 1;
    }
    rest
}

/// Notes a local lookup on the slot and makes its event: the host pool had `host_blocks`, the
/// disk pool had `disk_blocks` of the rest, and what is left may be in remote storage.
pub fn complete_local_lookup(
    slot: &mut VllmConnectorSlot,
    sequence_hashes: &[SequenceHash],
    host_blocks: Vec<BlockId>,
    disk_blocks: Vec<BlockId>,
) -> (event: VllmSlotEvent)
    requires
        host_blocks@.len() + disk_blocks@.len() <= sequence_hashes@.len(),
    ensures
        final(slot)@ == (SlotView {
            performed_cache_lookup: true,
            total_blocks_queried: sequence_hashes@.len() as usize,
            ..old(slot)@
        }),
        event@ == (EventView::LocalLookupCompleted {
            host_blocks: host_blocks@,
            disk_blocks: disk_blocks@,
            remote_candidates: sequence_hashes@.subrange(
                (host_blocks@.len() + disk_blocks@.len()) as int,
                sequence_hashes@.len() as int,
            ),
        }),
{
    assert(sequence_hashes.len() == sequence_hashes@.len());
    let remote_candidates: Vec<SequenceHash> = disk_candidates(
        sequence_hashes,
        host_blocks.len() + disk_blocks.len(),
    );
    slot.performed_cache_lookup = true;
    slot.total_blocks_queried = sequence_hashes.len();
    SlotEvent::LocalLookupCompleted { host_blocks, disk_blocks, remote_candidates }
}

/// The event of a remote lookup that found `matched`.
pub fn complete_remote_lookup(matched: Vec<SequenceHash>) -> (event: VllmSlotEvent)
    ensures
        event@ == if matched@.len() == 0 {
            EventView::<BlockId, BlockId>::RemoteLookupClosed
        } else {
            EventView::RemoteLookupCompleted {
                matches: matched@.map_values(|hash: SequenceHash| (hash, hash)),
            }
        },
{
    if matched.len() == 0 {
        return SlotEvent::RemoteLookupClosed;
    }
    let ghost all = matched@.map_values(|hash: SequenceHash| (hash, hash));
    let mut matches: Vec<(SequenceHash, SequenceHash)> = Vec::new();
    let mut i: usize = 0;
    while i < matched.len()
        invariant
            i <= matched@.len(),
            all == matched@.map_values(|hash: SequenceHash| (hash, hash)),
            matches@ =~= all.subrange(0, i as int),
        decreases matched@.len() - i,
    {
        matches.push((matched[i], matched[i]));
        i = i + 1;
    }
    assert(matches@ =~= all);
    SlotEvent::RemoteLookupCompleted { matches }
}

/// The blocks that a prefetch is asked for are exactly those that the registry found.
pub proof fn found_blocks_are_prefetched(
    slot: SlotView,
    matched: Seq<SequenceHash>,
    slot_ctx: SlotContext,
    ctx: ContextView,
    draws: Seq<Draw>,
)
    requires
        slot.phase is LookingUp,
        matched.len() > 0,
        ctx.has_remote,
        ctx.open,
        draws.len() > 0,
    ensures
        settle(
            slot,
            EventView::RemoteLookupCompleted {
                matches: matched.map_values(|hash: SequenceHash| (hash, hash)),
            },
            slot_ctx,
            ctx,
            draws,
        ).1 == ctx.send(
            TransferRequestView::Remote(
                remote_onboard(slot, matched, Seq::empty(), draws.last().prefetch_id),
            ),
        ),
{
    let matches = matched.map_values(|hash: SequenceHash| (hash, hash));
    assert(slot_machine::match_hashes(matches) =~= matched);
    reveal_with_fuel(settle, 2);
}

/// A slot after blocks were allocated for its staged tokens, with the transfers started at `now`.
pub open spec fn settle_onboarding(
    slot: SlotView,
    block_ids: Seq<BlockId>,
    num_external_tokens: usize,
    slot_ctx: SlotContext,
    ctx: ContextView,
    draws: Seq<Draw>,
    now: std::time::Instant,
) -> (SlotView, ContextView, Result<Seq<ResultView>, Seq<char>>) {
    let next = slot_machine::step(
        slot.phase,
        EventView::AllocCompleted { block_ids, num_external_tokens },
        slot.local_context(),
        draws.last().prefetch_id,
        now,
    );
    if next.1.len() == 0 {
        (slot.entered(next.0, now), ctx, Ok(Seq::empty()))
    } else {
        settle_effect(next.1[0], slot.entered(next.0, now), slot_ctx, ctx, draws)
    }
}

/// Whether `result` reports the failure, if any, of `outcome`.
pub open spec fn reports(
    result: Result<(), SlotError>,
    outcome: Result<Seq<ResultView>, Seq<char>>,
) -> bool {
    match outcome {
        Ok(results) => result is Ok,
        Err(message) => result matches Err(SlotError::InvalidOperation(text)) && text@ == message,
    }
}

impl VllmConnectorSlot {
    /// Starts onboarding into `alloc_block_ids`, or into all device blocks of the slot.
    pub fn trigger_onboarding_execute_effects(
        &mut self,
        num_external_tokens: usize,
        alloc_block_ids: Option<&[BlockId]>,
        slot_ctx: &SlotContext,
        effect_ctx: &mut EffectContext,
    ) -> (result: Result<(), SlotError>)
        requires
            old(self)@.wf(),
        ensures
            final(self)@.wf(),
            exists|draws: Seq<Draw>, now: std::time::Instant|
                {
                    let out = #[trigger] settle_onboarding(
                        old(self)@,
                        slot_runtime::onboard_target(old(self)@, alloc_block_ids),
                        num_external_tokens,
                        *slot_ctx,
                        old(effect_ctx)@,
                        draws,
                        now,
                    );
                    &&& enough_draws(draws)
                    &&& final(self)@ == out.0
                    &&& final(effect_ctx)@ == out.1
                    &&& reports(result, out.2)
                },
    {
        let ghost start = self@;
        let ghost start_ctx = effect_ctx@;
        let ghost block_ids = slot_runtime::onboard_target(start, alloc_block_ids);
        let ghost event = EventView::<BlockId, BlockId>::AllocCompleted {
            block_ids,
            num_external_tokens,
        };
        let effects: Vec<VllmSlotEffect> = self.begin_onboarding(
            num_external_tokens,
            alloc_block_ids,
        );
        let ghost moved = self@;
        let ghost effect_list = slot_machine::effect_views(effects@);
        let draw: Draw = new_draw();
        let ghost now = choose|now: std::time::Instant| #[trigger]
            start.after_at(event, now, moved);
        proof {
            let next = slot_machine::step(
                start.phase,
                event,
                start.local_context(),
                draw.prefetch_id,
                now,
            );
            assert(moved == start.entered(next.0, now));
            assert(effect_list == next.1);
            assert(effect_list.len() <= 1);
        }
        let outcome: Result<Vec<EffectResult>, String> = execute_effects_recursive(
            effects,
            self,
            slot_ctx,
            effect_ctx,
        );
        proof {
            let each = choose|each: Seq<Seq<Draw>>|
                enough_for_each(each, effects@) && (
                    self@,
                    effect_ctx@,
                    outcomes_view(outcome),
                ) == #[trigger] settle_all(
                    effect_list,
                    effects@.len(),
                    moved,
                    *slot_ctx,
                    start_ctx,
                    each,
                );
            reveal_with_fuel(settle_all, 2);
            let draws = if effects@.len() == 0 {
                seq![draw, draw, draw]
            } else {
                each[0]
            };
            assert(enough_draws(draws));
            let next = slot_machine::step(
                start.phase,
                event,
                start.local_context(),
                draws.last().prefetch_id,
                now,
            );
            assert(moved == start.entered(next.0, now));
            assert(effect_list == next.1);
            let out = settle_onboarding(
                start,
                block_ids,
                num_external_tokens,
                *slot_ctx,
                start_ctx,
                draws,
                now,
            );
            assert(self@ == out.0);
        }
        match outcome {
            Ok(_results) => Ok(()),
            Err(message) => Err(SlotError::InvalidOperation(message)),
        }
    }

    /// Takes over what the scheduler decided and offloads the blocks that the new position
    /// completes, under a fresh operation id. The transition itself has no effects.
    pub fn apply_scheduler_output_execute_effects(
        &mut self,
        tokens: &[u32],
        block_hashes: &[SequenceHash],
        block_ids: &[BlockId],
        num_computed_tokens: usize,
        num_scheduled_tokens: usize,
        priorities: Option<&[u32]>,
        slot_ctx: &SlotContext,
        effect_ctx: &mut EffectContext,
    ) -> (result: Result<(), SlotError>)
        requires
            old(self)@.wf(),
            old(self)@.sequence.hashes.len() + block_hashes@.len() == (
            old(self)@.sequence.tokens.len() + tokens@.len()) as nat
                / old(self)@.sequence.block_size,
        ensures
            final(self)@.wf(),
            exists|middle: SlotView, id: OperationId|
                {
                    let out = #[trigger] middle.offloaded(
                        old(effect_ctx)@,
                        num_computed_tokens,
                        slot_runtime::slice_view(priorities),
                        block_ids@,
                        id,
                    );
                    &&& protocol::is_random_id(id)
                    &&& old(self)@.scheduled(
                        tokens@,
                        block_hashes@,
                        block_ids@,
                        num_computed_tokens,
                        num_scheduled_tokens,
                        middle,
                    )
                    &&& final(self)@ == out.0
                    &&& final(effect_ctx)@ == out.1
                    &&& result is Ok == out.2
                },
            result matches Err(error) ==> slot_runtime::offload_unavailable(error),
    {
        let effects: Vec<VllmSlotEffect> = self.begin_scheduler_output(
            tokens,
            block_hashes,
            block_ids,
            num_computed_tokens,
            num_scheduled_tokens,
        );
        let outcome: Result<Vec<EffectResult>, String> = execute_effects_recursive(
            effects,
            self,
            slot_ctx,
            effect_ctx,
        );
        match outcome {
            Ok(_results) => {},
            Err(message) => {
                return Err(SlotError::InvalidOperation(message));
            },
        }
        self.compute_and_dispatch_offloads(num_computed_tokens, priorities, block_ids, effect_ctx)
    }
}

} // verus!
