//! The per-request state machine: phases, events and effects, and the reducer between them.
//!
//! The reducer is a pure function. It consumes a phase and an event and returns the next phase
//! and the effects that the executor has to carry out. `H` and `D` are what stands for a staged
//! host or disk block; the reducer moves them and counts them and does nothing else with them.

use vstd::prelude::*;

use crate::protocol::{self, new_operation_id, BlockId, OperationId, SequenceHash};
use crate::slot_api::SlotState;
use crate::slot_ops::{OperationTracker, TrackerView};
use crate::tokens::{self, TokenBlock, TokenBlockView};

verus! {

/// `std::time::Instant`: a reading of the monotonic clock. Nothing is known of what is in it.
#[verifier::external_type_specification]
#[verifier::external_body]
pub struct ExInstant(std::time::Instant);

/// Reads the monotonic clock with `std::time::Instant::now`; nothing is claimed of the reading.
#[verifier::external_body]
pub(crate) fn instant_now() -> (now: std::time::Instant) {
    std::time::Instant::now()
}

/// What to do with a request whose remote prefetch failed.
#[derive(Debug, Clone, Copy, PartialEq, Eq, Structural)]
pub enum G4FailPolicy {
    /// Go on with the blocks that the local tiers hold.
    Fallback,
    /// Give the request back to the scheduler.
    Abort,
}

impl Default for G4FailPolicy {
    fn default() -> (policy: Self)
        ensures
            policy == G4FailPolicy::Fallback,
    {
        G4FailPolicy::Fallback
    }
}

/// What the reducer needs to know besides the phase and the event.
#[derive(Debug, Clone, Copy)]
pub struct SlotContext {
    pub block_size: usize,
    pub remote_enabled: bool,
    pub g4_xfer_fail_policy: G4FailPolicy,
}

/// How far the match of a staged request has been reported to the scheduler.
#[derive(Debug, Clone, Copy, PartialEq, Eq, Structural)]
pub enum DisclosureState {
    Pending,
    Disclosed,
    Consumed,
}

/// Severity of a diagnostic.
#[derive(Debug, Clone, Copy, PartialEq, Eq, Structural)]
pub enum DiagLevel {
    Info,
    Warn,
    Error,
}

/// A running prefetch from remote storage.
#[derive(Debug)]
pub struct PrefetchState {
    pub operation_id: OperationId,
    pub sequence_hashes: Vec<SequenceHash>,
    pub num_external_tokens: usize,
    pub started_at: std::time::Instant,
}

/// The mathematical value of a [`PrefetchState`].
#[verifier::ext_equal]
pub struct PrefetchView {
    pub operation_id: OperationId,
    pub sequence_hashes: Seq<SequenceHash>,
    pub num_external_tokens: usize,
    pub started_at: std::time::Instant,
}

impl View for PrefetchState {
    type V = PrefetchView;

    open spec fn view(&self) -> PrefetchView {
        PrefetchView {
            operation_id: self.operation_id,
            sequence_hashes: self.sequence_hashes@,
            num_external_tokens: self.num_external_tokens,
            started_at: self.started_at,
        }
    }
}

/// Device blocks to copy to the lower tiers, with one priority per block.
#[derive(Debug)]
pub struct OffloadBlocks {
    pub block_ids: Vec<BlockId>,
    pub priorities: Vec<u32>,
}

/// The phases of a request.
#[derive(Debug)]
pub enum RequestPhase<H, D> {
    Initialized,
    AwaitingLookup,
    LookingUp { host_blocks: Vec<H>, disk_blocks: Vec<D> },
    Prefetching {
        prefetch: PrefetchState,
        host_staging: Vec<H>,
        disk_staging: Vec<D>,
        prefetched_blocks_for_stats: usize,
    },
    OnboardReady {
        num_external_tokens: usize,
        host_staging: Vec<H>,
        disk_staging: Vec<D>,
        remote_hashes: Vec<SequenceHash>,
        disclosure: DisclosureState,
        prefetched_blocks_for_stats: usize,
    },
    Onboarding { num_external_tokens: usize, ops: OperationTracker },
    Prefilling { iteration_first_scheduled: u64 },
    SkippedPrefill,
    Decoding { ops: OperationTracker, iteration_first_scheduled: u64 },
    SkippedDecode { ops: OperationTracker },
    Finishing { ops: OperationTracker },
    Finished,
    Preempted { recovered_from_failure: bool },
}

/// What can happen to a request.
#[derive(Debug)]
pub enum SlotEvent<H, D> {
    AcquireMatches { num_computed_tokens: usize },
    LocalLookupCompleted {
        host_blocks: Vec<H>,
        disk_blocks: Vec<D>,
        remote_candidates: Vec<SequenceHash>,
    },
    RemoteLookupCompleted { matches: Vec<(SequenceHash, SequenceHash)> },
    RemoteLookupClosed,
    PrefetchReady { blocks: Vec<H> },
    PrefetchTimeout,
    PrefetchFailed,
    PollMatchReport,
    AllocCompleted { block_ids: Vec<BlockId>, num_external_tokens: usize },
    ApplySchedulerOutput {
        tokens: Vec<u32>,
        block_ids: Vec<BlockId>,
        num_computed_tokens: usize,
        num_scheduled_tokens: usize,
        priorities: Option<Vec<u32>>,
        iteration: u64,
    },
    MarkSkipped,
    TransferDispatched { count: usize },
    TransferCompleted { operation_id: OperationId },
    TransferFailed { operation_id: OperationId },
    RequestFinished,
    Preempt,
    Reset,
}

/// What the executor has to do after a transition.
#[derive(Debug)]
pub enum SlotEffect<H, D> {
    RunLocalLookup { num_computed_tokens: usize },
    StartRemoteLookup {
        candidates: Vec<SequenceHash>,
        host_blocks: Vec<H>,
        disk_blocks: Vec<D>,
    },
    StartPrefetch {
        hashes: Vec<SequenceHash>,
        token_blocks: Vec<TokenBlock>,
        operation_id: OperationId,
    },
    EnqueueOnboardTransfer {
        host_staging: Vec<H>,
        disk_staging: Vec<D>,
        remote_hashes: Vec<SequenceHash>,
        dst_blocks: Vec<BlockId>,
        num_external_tokens: usize,
    },
    EnqueueOffloadTransfer(OffloadBlocks),
    MatchReady { num_external_tokens: usize },
    MatchDeferred,
    MatchNone,
    ReleaseStaging,
    RecordCacheStats {
        host_blocks: usize,
        disk_blocks: usize,
        remote_blocks: usize,
        prefetched_blocks: usize,
        total_queried: usize,
    },
    Diag { level: DiagLevel, message: String },
}

/// The mathematical value of a [`RequestPhase`].
#[verifier::ext_equal]
pub enum PhaseView<H, D> {
    Initialized,
    AwaitingLookup,
    LookingUp { host_blocks: Seq<H>, disk_blocks: Seq<D> },
    Prefetching {
        prefetch: PrefetchView,
        host_staging: Seq<H>,
        disk_staging: Seq<D>,
        prefetched_blocks_for_stats: usize,
    },
    OnboardReady {
        num_external_tokens: usize,
        host_staging: Seq<H>,
        disk_staging: Seq<D>,
        remote_hashes: Seq<SequenceHash>,
        disclosure: DisclosureState,
        prefetched_blocks_for_stats: usize,
    },
    Onboarding { num_external_tokens: usize, ops: TrackerView },
    Prefilling { iteration_first_scheduled: u64 },
    SkippedPrefill,
    Decoding { ops: TrackerView, iteration_first_scheduled: u64 },
    SkippedDecode { ops: TrackerView },
    Finishing { ops: TrackerView },
    Finished,
    Preempted { recovered_from_failure: bool },
}

/// The mathematical value of a [`SlotEvent`], as far as the reducer reads it.
#[verifier::ext_equal]
pub enum EventView<H, D> {
    AcquireMatches { num_computed_tokens: usize },
    LocalLookupCompleted {
        host_blocks: Seq<H>,
        disk_blocks: Seq<D>,
        remote_candidates: Seq<SequenceHash>,
    },
    RemoteLookupCompleted { matches: Seq<(SequenceHash, SequenceHash)> },
    RemoteLookupClosed,
    PrefetchReady { blocks: Seq<H> },
    PrefetchTimeout,
    PrefetchFailed,
    PollMatchReport,
    AllocCompleted { block_ids: Seq<BlockId>, num_external_tokens: usize },
    ApplySchedulerOutput { tokens: Seq<u32>, iteration: u64 },
    MarkSkipped,
    TransferDispatched { count: usize },
    TransferCompleted { operation_id: OperationId },
    TransferFailed { operation_id: OperationId },
    RequestFinished,
    Preempt,
    Reset,
}

/// The mathematical value of a [`SlotEffect`].
#[verifier::ext_equal]
pub enum EffectView<H, D> {
    RunLocalLookup { num_computed_tokens: usize },
    StartRemoteLookup {
        candidates: Seq<SequenceHash>,
        host_blocks: Seq<H>,
        disk_blocks: Seq<D>,
    },
    StartPrefetch {
        hashes: Seq<SequenceHash>,
        token_blocks: Seq<TokenBlockView>,
        operation_id: OperationId,
    },
    EnqueueOnboardTransfer {
        host_staging: Seq<H>,
        disk_staging: Seq<D>,
        remote_hashes: Seq<SequenceHash>,
        dst_blocks: Seq<BlockId>,
        num_external_tokens: usize,
    },
    EnqueueOffloadTransfer { block_ids: Seq<BlockId>, priorities: Seq<u32> },
    MatchReady { num_external_tokens: usize },
    MatchDeferred,
    MatchNone,
    ReleaseStaging,
    RecordCacheStats {
        host_blocks: usize,
        disk_blocks: usize,
        remote_blocks: usize,
        prefetched_blocks: usize,
        total_queried: usize,
    },
    Diag { level: DiagLevel, message: Seq<char> },
}

impl<H, D> PhaseView<H, D> {
    /// The state that the scheduler sees.
    pub open spec fn slot_state(self) -> SlotState {
        match self {
            PhaseView::OnboardReady { num_external_tokens, .. } => SlotState::OnboardStaged(
                num_external_tokens,
            ),
            PhaseView::Onboarding { num_external_tokens, .. } => SlotState::Onboarding(
                num_external_tokens,
            ),
            PhaseView::Prefilling { .. } => SlotState::Prefilling,
            PhaseView::SkippedPrefill => SlotState::SkippedPrefill,
            PhaseView::Decoding { .. } => SlotState::Decoding,
            PhaseView::SkippedDecode { .. } => SlotState::SkippedDecode,
            PhaseView::Finishing { .. } => SlotState::Finishing,
            PhaseView::Finished => SlotState::Finished,
            PhaseView::Preempted { .. } => SlotState::Preempted,
            // A request that is still looked up has nothing to show to the scheduler.
            PhaseView::Initialized => SlotState::Initialized,
            PhaseView::AwaitingLookup => SlotState::Initialized,
            PhaseView::LookingUp { .. } => SlotState::Initialized,
            PhaseView::Prefetching { .. } => SlotState::Initialized,
        }
    }
}

impl<H, D> View for RequestPhase<H, D> {
    type V = PhaseView<H, D>;

    open spec fn view(&self) -> PhaseView<H, D> {
        match self {
            RequestPhase::Initialized => PhaseView::Initialized,
            RequestPhase::AwaitingLookup => PhaseView::AwaitingLookup,
            RequestPhase::LookingUp { host_blocks, disk_blocks } => PhaseView::LookingUp {
                host_blocks: host_blocks@,
                disk_blocks: disk_blocks@,
            },
            RequestPhase::Prefetching {
                prefetch,
                host_staging,
                disk_staging,
                prefetched_blocks_for_stats,
            } => PhaseView::Prefetching {
                prefetch: prefetch@,
                host_staging: host_staging@,
                disk_staging: disk_staging@,
                prefetched_blocks_for_stats: *prefetched_blocks_for_stats,
            },
            RequestPhase::OnboardReady {
                num_external_tokens,
                host_staging,
                disk_staging,
                remote_hashes,
                disclosure,
                prefetched_blocks_for_stats,
            } => PhaseView::OnboardReady {
                num_external_tokens: *num_external_tokens,
                host_staging: host_staging@,
                disk_staging: disk_staging@,
                remote_hashes: remote_hashes@,
                disclosure: *disclosure,
                prefetched_blocks_for_stats: *prefetched_blocks_for_stats,
            },
            RequestPhase::Onboarding { num_external_tokens, ops } => PhaseView::Onboarding {
                num_external_tokens: *num_external_tokens,
                ops: ops@,
            },
            RequestPhase::Prefilling { iteration_first_scheduled } => PhaseView::Prefilling {
                iteration_first_scheduled: *iteration_first_scheduled,
            },
            RequestPhase::SkippedPrefill => PhaseView::SkippedPrefill,
            RequestPhase::Decoding { ops, iteration_first_scheduled } => PhaseView::Decoding {
                ops: ops@,
                iteration_first_scheduled: *iteration_first_scheduled,
            },
            RequestPhase::SkippedDecode { ops } => PhaseView::SkippedDecode { ops: ops@ },
            RequestPhase::Finishing { ops } => PhaseView::Finishing { ops: ops@ },
            RequestPhase::Finished => PhaseView::Finished,
            RequestPhase::Preempted { recovered_from_failure } => PhaseView::Preempted {
                recovered_from_failure: *recovered_from_failure,
            },
        }
    }
}

impl<H, D> View for SlotEvent<H, D> {
    type V = EventView<H, D>;

    open spec fn view(&self) -> EventView<H, D> {
        match self {
            SlotEvent::AcquireMatches { num_computed_tokens } => EventView::AcquireMatches {
                num_computed_tokens: *num_computed_tokens,
            },
            SlotEvent::LocalLookupCompleted {
                host_blocks,
                disk_blocks,
                remote_candidates,
            } => EventView::LocalLookupCompleted {
                host_blocks: host_blocks@,
                disk_blocks: disk_blocks@,
                remote_candidates: remote_candidates@,
            },
            SlotEvent::RemoteLookupCompleted { matches } => EventView::RemoteLookupCompleted {
                matches: matches@,
            },
            SlotEvent::RemoteLookupClosed => EventView::RemoteLookupClosed,
            SlotEvent::PrefetchReady { blocks } => EventView::PrefetchReady { blocks: blocks@ },
            SlotEvent::PrefetchTimeout => EventView::PrefetchTimeout,
            SlotEvent::PrefetchFailed => EventView::PrefetchFailed,
            SlotEvent::PollMatchReport => EventView::PollMatchReport,
            SlotEvent::AllocCompleted {
                block_ids,
                num_external_tokens,
            } => EventView::AllocCompleted {
                block_ids: block_ids@,
                num_external_tokens: *num_external_tokens,
            },
            SlotEvent::ApplySchedulerOutput {
                tokens,
                block_ids: _,
                num_computed_tokens: _,
                num_scheduled_tokens: _,
                priorities: _,
                iteration,
            } => EventView::ApplySchedulerOutput { tokens: tokens@, iteration: *iteration },
            SlotEvent::MarkSkipped => EventView::MarkSkipped,
            SlotEvent::TransferDispatched { count } => EventView::TransferDispatched {
                count: *count,
            },
            SlotEvent::TransferCompleted { operation_id } => EventView::TransferCompleted {
                operation_id: *operation_id,
            },
            SlotEvent::TransferFailed { operation_id } => EventView::TransferFailed {
                operation_id: *operation_id,
            },
            SlotEvent::RequestFinished => EventView::RequestFinished,
            SlotEvent::Preempt => EventView::Preempt,
            SlotEvent::Reset => EventView::Reset,
        }
    }
}

impl<H, D> View for SlotEffect<H, D> {
    type V = EffectView<H, D>;

    open spec fn view(&self) -> EffectView<H, D> {
        match self {
            SlotEffect::RunLocalLookup { num_computed_tokens } => EffectView::RunLocalLookup {
                num_computed_tokens: *num_computed_tokens,
            },
            SlotEffect::StartRemoteLookup {
                candidates,
                host_blocks,
                disk_blocks,
            } => EffectView::StartRemoteLookup {
                candidates: candidates@,
                host_blocks: host_blocks@,
                disk_blocks: disk_blocks@,
            },
            SlotEffect::StartPrefetch {
                hashes,
                token_blocks,
                operation_id,
            } => EffectView::StartPrefetch {
                hashes: hashes@,
                token_blocks: tokens::block_views(token_blocks@),
                operation_id: *operation_id,
            },
            SlotEffect::EnqueueOnboardTransfer {
                host_staging,
                disk_staging,
                remote_hashes,
                dst_blocks,
                num_external_tokens,
            } => EffectView::EnqueueOnboardTransfer {
                host_staging: host_staging@,
                disk_staging: disk_staging@,
                remote_hashes: remote_hashes@,
                dst_blocks: dst_blocks@,
                num_external_tokens: *num_external_tokens,
            },
            SlotEffect::EnqueueOffloadTransfer(blocks) => EffectView::EnqueueOffloadTransfer {
                block_ids: blocks.block_ids@,
                priorities: blocks.priorities@,
            },
            SlotEffect::MatchReady { num_external_tokens } => EffectView::MatchReady {
                num_external_tokens: *num_external_tokens,
            },
            SlotEffect::MatchDeferred => EffectView::MatchDeferred,
            SlotEffect::MatchNone => EffectView::MatchNone,
            SlotEffect::ReleaseStaging => EffectView::ReleaseStaging,
            SlotEffect::RecordCacheStats {
                host_blocks,
                disk_blocks,
                remote_blocks,
                prefetched_blocks,
                total_queried,
            } => EffectView::RecordCacheStats {
                host_blocks: *host_blocks,
                disk_blocks: *disk_blocks,
                remote_blocks: *remote_blocks,
                prefetched_blocks: *prefetched_blocks,
                total_queried: *total_queried,
            },
            SlotEffect::Diag { level, message } => EffectView::Diag {
                level: *level,
                message: message@,
            },
        }
    }
}

/// The views of a sequence of effects.
pub open spec fn effect_views<H, D>(effects: Seq<SlotEffect<H, D>>) -> Seq<EffectView<H, D>> {
    effects.map_values(|effect: SlotEffect<H, D>| effect@)
}

/// The number of tokens in `blocks` blocks; it stops at `usize::MAX`.
pub open spec fn tokens_in(blocks: nat, block_size: usize) -> usize {
    if blocks * block_size <= usize::MAX {
        (blocks * block_size) as usize
    } else {
        usize::MAX
    }
}

/// The hashes of a sequence of registry matches.
pub open spec fn match_hashes(matches: Seq<(SequenceHash, SequenceHash)>) -> Seq<SequenceHash> {
    matches.map_values(|m: (SequenceHash, SequenceHash)| m.0)
}

/// The effects of dropping staged blocks: a release where there is something to release.
pub open spec fn release<H, D>(host: Seq<H>, disk: Seq<D>) -> Seq<EffectView<H, D>> {
    if host.len() + disk.len() > 0 {
        seq![EffectView::ReleaseStaging]
    } else {
        Seq::empty()
    }
}

/// The effect of leaving the forward pass for good. The counts are read from the slot by the
/// executor, so they are zero here.
pub open spec fn record_stats<H, D>() -> Seq<EffectView<H, D>> {
    seq![
        EffectView::RecordCacheStats {
            host_blocks: 0,
            disk_blocks: 0,
            remote_blocks: 0,
            prefetched_blocks: 0,
            total_queried: 0,
        },
    ]
}

/// A request whose lookup is over with `host` and `disk` staged and nothing remote: ready to be
/// reported, or back at the start where nothing matched.
pub open spec fn staged<H, D>(host: Seq<H>, disk: Seq<D>, block_size: usize) -> (
    PhaseView<H, D>,
    Seq<EffectView<H, D>>,
) {
    if host.len() + disk.len() > 0 {
        (
            PhaseView::OnboardReady {
                num_external_tokens: tokens_in(host.len() + disk.len(), block_size),
                host_staging: host,
                disk_staging: disk,
                remote_hashes: Seq::empty(),
                disclosure: DisclosureState::Pending,
                prefetched_blocks_for_stats: 0,
            },
            Seq::empty(),
        )
    } else {
        (PhaseView::Initialized, seq![EffectView::MatchNone])
    }
}

/// A request whose prefetch landed in the host tier without block references: the remote hashes
/// stay with it.
pub open spec fn prefetched<H, D>(
    prefetch: PrefetchView,
    host: Seq<H>,
    disk: Seq<D>,
    stats: usize,
) -> PhaseView<H, D> {
    PhaseView::OnboardReady {
        num_external_tokens: prefetch.num_external_tokens,
        host_staging: host,
        disk_staging: disk,
        remote_hashes: prefetch.sequence_hashes,
        disclosure: DisclosureState::Pending,
        prefetched_blocks_for_stats: stats,
    }
}

/// The phase of a request that the scheduler runs for the first time in `iteration`.
pub open spec fn scheduled<H, D>(tokens: Seq<u32>, iteration: u64) -> PhaseView<H, D> {
    if tokens.len() == 0 {
        PhaseView::Prefilling { iteration_first_scheduled: iteration }
    } else {
        PhaseView::Decoding {
            ops: TrackerView::empty(),
            iteration_first_scheduled: iteration,
        }
    }
}

/// The transition function. `operation_id` and `now` are used only by a remote lookup that
/// found something: they become the identity and the start of the prefetch.
pub open spec fn step<H, D>(
    phase: PhaseView<H, D>,
    event: EventView<H, D>,
    ctx: SlotContext,
    operation_id: OperationId,
    now: std::time::Instant,
) -> (PhaseView<H, D>, Seq<EffectView<H, D>>) {
    let none = Seq::<EffectView<H, D>>::empty();
    match (phase, event) {
        (_, EventView::Reset) => (PhaseView::Initialized, none),
        // A finished or preempted request cannot be preempted.
        (PhaseView::Finished, EventView::Preempt) => (phase, none),
        (PhaseView::Preempted { .. }, EventView::Preempt) => (phase, none),
        (PhaseView::LookingUp { host_blocks, disk_blocks }, EventView::Preempt) => (
            PhaseView::Preempted { recovered_from_failure: false },
            release(host_blocks, disk_blocks),
        ),
        (
            PhaseView::Prefetching { host_staging, disk_staging, .. },
            EventView::Preempt,
        ) => (
            PhaseView::Preempted { recovered_from_failure: false },
            release(host_staging, disk_staging),
        ),
        (
            PhaseView::OnboardReady { host_staging, disk_staging, .. },
            EventView::Preempt,
        ) => (
            PhaseView::Preempted { recovered_from_failure: false },
            release(host_staging, disk_staging),
        ),
        (_, EventView::Preempt) => (
            PhaseView::Preempted { recovered_from_failure: false },
            none,
        ),
        // Lookup.
        (PhaseView::Initialized, EventView::AcquireMatches { num_computed_tokens }) => (
            PhaseView::AwaitingLookup,
            seq![EffectView::RunLocalLookup { num_computed_tokens }],
        ),
        (PhaseView::Preempted { .. }, EventView::AcquireMatches { num_computed_tokens }) => (
            PhaseView::AwaitingLookup,
            seq![EffectView::RunLocalLookup { num_computed_tokens }],
        ),
        (
            PhaseView::AwaitingLookup,
            EventView::LocalLookupCompleted { host_blocks, disk_blocks, remote_candidates },
        ) => if ctx.remote_enabled && remote_candidates.len() > 0 {
            (
                PhaseView::LookingUp { host_blocks, disk_blocks },
                seq![
                    EffectView::StartRemoteLookup {
                        candidates: remote_candidates,
                        host_blocks: Seq::empty(),
                        disk_blocks: Seq::empty(),
                    },
                ],
            )
        } else {
            staged(host_blocks, disk_blocks, ctx.block_size)
        },
        (
            PhaseView::LookingUp { host_blocks, disk_blocks },
            EventView::RemoteLookupCompleted { matches },
        ) => if matches.len() > 0 {
            (
                PhaseView::Prefetching {
                    prefetch: PrefetchView {
                        operation_id,
                        sequence_hashes: match_hashes(matches),
                        num_external_tokens: tokens_in(
                            host_blocks.len() + disk_blocks.len() + matches.len(),
                            ctx.block_size,
                        ),
                        started_at: now,
                    },
                    host_staging: host_blocks,
                    disk_staging: disk_blocks,
                    prefetched_blocks_for_stats: matches.len() as usize,
                },
                seq![
                    EffectView::StartPrefetch {
                        hashes: match_hashes(matches),
                        token_blocks: Seq::empty(),
                        operation_id,
                    },
                ],
            )
        } else {
            staged(host_blocks, disk_blocks, ctx.block_size)
        },
        (
            PhaseView::LookingUp { host_blocks, disk_blocks },
            EventView::RemoteLookupClosed,
        ) => staged(host_blocks, disk_blocks, ctx.block_size),
        // Prefetch.
        (
            PhaseView::Prefetching {
                prefetch,
                host_staging,
                disk_staging,
                prefetched_blocks_for_stats,
            },
            EventView::PrefetchReady { blocks },
        ) => if blocks.len() > 0 {
            (
                PhaseView::OnboardReady {
                    num_external_tokens: tokens_in(
                        host_staging.len() + blocks.len() + disk_staging.len(),
                        ctx.block_size,
                    ),
                    host_staging: host_staging + blocks,
                    disk_staging,
                    remote_hashes: Seq::empty(),
                    disclosure: DisclosureState::Pending,
                    prefetched_blocks_for_stats,
                },
                none,
            )
        } else {
            (prefetched(prefetch, host_staging, disk_staging, prefetched_blocks_for_stats), none)
        },
        (
            PhaseView::Prefetching {
                prefetch,
                host_staging,
                disk_staging,
                prefetched_blocks_for_stats,
            },
            EventView::TransferCompleted { operation_id: completed },
        ) => if completed == prefetch.operation_id {
            (prefetched(prefetch, host_staging, disk_staging, prefetched_blocks_for_stats), none)
        } else {
            (phase, none)
        },
        (
            PhaseView::Prefetching { host_staging, disk_staging, .. },
            EventView::PrefetchTimeout,
        ) => (
            PhaseView::Preempted { recovered_from_failure: false },
            release(host_staging, disk_staging),
        ),
        (
            PhaseView::Prefetching { host_staging, disk_staging, .. },
            EventView::PrefetchFailed,
        ) => if ctx.g4_xfer_fail_policy == G4FailPolicy::Fallback && host_staging.len()
            + disk_staging.len() > 0 {
            staged(host_staging, disk_staging, ctx.block_size)
        } else {
            (
                PhaseView::Preempted { recovered_from_failure: true },
                release(host_staging, disk_staging),
            )
        },
        // Match report and allocation.
        (
            PhaseView::OnboardReady {
                num_external_tokens,
                host_staging,
                disk_staging,
                remote_hashes,
                disclosure,
                prefetched_blocks_for_stats,
            },
            EventView::PollMatchReport,
        ) => (
            PhaseView::OnboardReady {
                num_external_tokens,
                host_staging,
                disk_staging,
                remote_hashes,
                disclosure: if disclosure == DisclosureState::Pending {
                    DisclosureState::Disclosed
                } else {
                    DisclosureState::Consumed
                },
                prefetched_blocks_for_stats,
            },
            if disclosure == DisclosureState::Pending {
                seq![EffectView::MatchReady { num_external_tokens }]
            } else {
                seq![EffectView::MatchDeferred]
            },
        ),
        (
            PhaseView::OnboardReady { host_staging, disk_staging, remote_hashes, .. },
            EventView::AllocCompleted { block_ids, num_external_tokens },
        ) => (
            PhaseView::Onboarding { num_external_tokens, ops: TrackerView::empty() },
            seq![
                EffectView::EnqueueOnboardTransfer {
                    host_staging,
                    disk_staging,
                    remote_hashes,
                    dst_blocks: block_ids,
                    num_external_tokens,
                },
            ],
        ),
        // Forward pass.
        (PhaseView::Initialized, EventView::ApplySchedulerOutput { tokens, iteration }) => (
            scheduled(tokens, iteration),
            none,
        ),
        (PhaseView::Onboarding { .. }, EventView::ApplySchedulerOutput { tokens, iteration }) => (
            scheduled(tokens, iteration),
            none,
        ),
        (PhaseView::SkippedPrefill, EventView::ApplySchedulerOutput { tokens, iteration }) => (
            scheduled(tokens, iteration),
            none,
        ),
        (
            PhaseView::Prefilling { iteration_first_scheduled },
            EventView::ApplySchedulerOutput { tokens, .. },
        ) => (scheduled(tokens, iteration_first_scheduled), none),
        (
            PhaseView::SkippedDecode { ops },
            EventView::ApplySchedulerOutput { iteration, .. },
        ) => (PhaseView::Decoding { ops, iteration_first_scheduled: iteration }, none),
        (PhaseView::Prefilling { .. }, EventView::MarkSkipped) => (
            PhaseView::SkippedPrefill,
            none,
        ),
        (PhaseView::Decoding { ops, .. }, EventView::MarkSkipped) => (
            PhaseView::SkippedDecode { ops },
            none,
        ),
        // Transfers and the end of the request.
        (
            PhaseView::Decoding { ops, iteration_first_scheduled },
            EventView::TransferCompleted { .. },
        ) => (PhaseView::Decoding { ops: ops.complete(), iteration_first_scheduled }, none),
        (
            PhaseView::Decoding { ops, iteration_first_scheduled },
            EventView::TransferFailed { .. },
        ) => (PhaseView::Decoding { ops: ops.complete(), iteration_first_scheduled }, none),
        (PhaseView::Finishing { ops }, EventView::TransferCompleted { .. }) => finishing(ops),
        (PhaseView::Finishing { ops }, EventView::TransferFailed { .. }) => finishing(ops),
        (PhaseView::Prefilling { .. }, EventView::RequestFinished) => (
            PhaseView::Finished,
            record_stats(),
        ),
        (PhaseView::SkippedPrefill, EventView::RequestFinished) => (
            PhaseView::Finished,
            record_stats(),
        ),
        (PhaseView::Decoding { ops, .. }, EventView::RequestFinished) => if ops.has_any() {
            (PhaseView::Finishing { ops }, none)
        } else {
            (PhaseView::Finished, record_stats())
        },
        // Every other event comes too late or too early and changes nothing.
        _ => (phase, none),
    }
}

/// A finishing request after one more of its transfers ended.
pub open spec fn finishing<H, D>(ops: TrackerView) -> (PhaseView<H, D>, Seq<EffectView<H, D>>) {
    if ops.complete().has_any() {
        (PhaseView::Finishing { ops: ops.complete() }, Seq::empty())
    } else {
        (PhaseView::Finished, record_stats())
    }
}

fn tokens_in_exec(a: usize, b: usize, c: usize, block_size: usize) -> (tokens: usize)
    ensures
        tokens == tokens_in((a + b + c) as nat, block_size),
{
    let blocks: usize = a.saturating_add(b).saturating_add(c);
    proof {
        let all = a + b + c;
        if block_size > 0 && all > usize::MAX {
            assert(all * block_size > usize::MAX) by (nonlinear_arith)
                requires
                    block_size > 0,
                    all > usize::MAX,
            ;
            assert(blocks * block_size >= usize::MAX) by (nonlinear_arith)
                requires
                    block_size > 0,
                    blocks == usize::MAX,
            ;
        }
        if block_size == 0 {
            assert(all * block_size == 0) by (nonlinear_arith)
                requires
                    block_size == 0,
            ;
            assert(blocks * block_size == 0) by (nonlinear_arith)
                requires
                    block_size == 0,
            ;
        }
    }
    match blocks.checked_mul(block_size) {
        Some(tokens) => tokens,
        None => usize::MAX,
    }
}

fn one_effect<H, D>(effect: SlotEffect<H, D>) -> (effects: Vec<SlotEffect<H, D>>)
    ensures
        effect_views(effects@) == seq![effect@],
{
    let mut effects: Vec<SlotEffect<H, D>> = Vec::new();
    effects.push(effect);
    assert(effect_views(effects@) =~= seq![effect@]);
    effects
}

fn no_effects<H, D>() -> (effects: Vec<SlotEffect<H, D>>)
    ensures
        effect_views(effects@) == Seq::<EffectView<H, D>>::empty(),
{
    let effects: Vec<SlotEffect<H, D>> = Vec::new();
    assert(effect_views(effects@) =~= Seq::<EffectView<H, D>>::empty());
    effects
}

fn release_exec<H, D>(host: &Vec<H>, disk: &Vec<D>) -> (effects: Vec<SlotEffect<H, D>>)
    ensures
        effect_views(effects@) == release(host@, disk@),
{
    if host.len() > 0 || disk.len() > 0 {
        one_effect(SlotEffect::ReleaseStaging)
    } else {
        no_effects()
    }
}

fn record_stats_exec<H, D>() -> (effects: Vec<SlotEffect<H, D>>)
    ensures
        effect_views(effects@) == record_stats::<H, D>(),
{
    one_effect(
        SlotEffect::RecordCacheStats {
            host_blocks: 0,
            disk_blocks: 0,
            remote_blocks: 0,
            prefetched_blocks: 0,
            total_queried: 0,
        },
    )
}

fn staged_exec<H, D>(host: Vec<H>, disk: Vec<D>, block_size: usize) -> (next: (
    RequestPhase<H, D>,
    Vec<SlotEffect<H, D>>,
))
    ensures
        (next.0@, effect_views(next.1@)) == staged(host@, disk@, block_size),
{
    if host.len() > 0 || disk.len() > 0 {
        let num_external_tokens: usize = tokens_in_exec(host.len(), disk.len(), 0, block_size);
        (
            RequestPhase::OnboardReady {
                num_external_tokens,
                host_staging: host,
                disk_staging: disk,
                remote_hashes: Vec::new(),
                disclosure: DisclosureState::Pending,
                prefetched_blocks_for_stats: 0,
            },
            no_effects(),
        )
    } else {
        (RequestPhase::Initialized, one_effect(SlotEffect::MatchNone))
    }
}

fn scheduled_exec<H, D>(tokens: &Vec<u32>, iteration: u64) -> (next: RequestPhase<H, D>)
    ensures
        next@ == scheduled::<H, D>(tokens@, iteration),
{
    if tokens.len() == 0 {
        RequestPhase::Prefilling { iteration_first_scheduled: iteration }
    } else {
        RequestPhase::Decoding {
            ops: OperationTracker::new(),
            iteration_first_scheduled: iteration,
        }
    }
}

fn finishing_exec<H, D>(ops: OperationTracker) -> (next: (
    RequestPhase<H, D>,
    Vec<SlotEffect<H, D>>,
))
    ensures
        (next.0@, effect_views(next.1@)) == finishing::<H, D>(ops@),
{
    let mut ops = ops;
    if ops.complete_one() {
        (RequestPhase::Finished, record_stats_exec())
    } else {
        (RequestPhase::Finishing { ops }, no_effects())
    }
}

fn match_hashes_exec(matches: &Vec<(SequenceHash, SequenceHash)>) -> (hashes: Vec<SequenceHash>)
    ensures
        hashes@ == match_hashes(matches@),
{
    let mut hashes: Vec<SequenceHash> = Vec::new();
    let mut i: usize = 0;
    while i < matches.len()
        invariant
            i <= matches@.len(),
            hashes@ =~= match_hashes(matches@).subrange(0, i as int),
        decreases matches@.len() - i,
    {
        hashes.push(matches[i].0);
        i = i + 1;
    }
    assert(hashes@ =~= match_hashes(matches@));
    hashes
}

impl<H, D> RequestPhase<H, D> {
    /// The next phase and the effects of `event`, where a prefetch that starts now gets a fresh
    /// random id and the current time.
    pub fn apply(self, event: SlotEvent<H, D>, ctx: &SlotContext) -> (next: (
        Self,
        Vec<SlotEffect<H, D>>,
    ))
        ensures
            exists|id: OperationId, now: std::time::Instant|
                protocol::is_random_id(id) && (next.0@, effect_views(next.1@)) == #[trigger] step(
                    self@,
                    event@,
                    *ctx,
                    id,
                    now,
                ),
            !(event@ is RemoteLookupCompleted) ==> forall|
                id: OperationId,
                now: std::time::Instant,
            |
                (next.0@, effect_views(next.1@)) == #[trigger] step(self@, event@, *ctx, id, now),
    {
        let id: OperationId = new_operation_id();
        let now: std::time::Instant = instant_now();
        self.apply_at(event, ctx, id, now)
    }

    /// The next phase and the effects of `event`, where a prefetch that starts now gets
    /// `operation_id` and `now`.
    pub fn apply_at(
        self,
        event: SlotEvent<H, D>,
        ctx: &SlotContext,
        operation_id: OperationId,
        now: std::time::Instant,
    ) -> (next: (Self, Vec<SlotEffect<H, D>>))
        ensures
            (next.0@, effect_views(next.1@)) == step(self@, event@, *ctx, operation_id, now),
    {
        match event {
            SlotEvent::Reset => (RequestPhase::Initialized, no_effects()),
            SlotEvent::Preempt => self.preempt(),
            SlotEvent::AcquireMatches { num_computed_tokens } => match self {
                RequestPhase::Initialized | RequestPhase::Preempted { .. } => (
                    RequestPhase::AwaitingLookup,
                    one_effect(SlotEffect::RunLocalLookup { num_computed_tokens }),
                ),
                phase => (phase, no_effects()),
            },
            SlotEvent::LocalLookupCompleted {
                host_blocks,
                disk_blocks,
                remote_candidates,
            } => match self {
                RequestPhase::AwaitingLookup => if ctx.remote_enabled && remote_candidates.len()
                    > 0 {
                    (
                        RequestPhase::LookingUp { host_blocks, disk_blocks },
                        one_effect(
                            SlotEffect::StartRemoteLookup {
                                candidates: remote_candidates,
                                host_blocks: Vec::new(),
                                disk_blocks: Vec::new(),
                            },
                        ),
                    )
                } else {
                    staged_exec(host_blocks, disk_blocks, ctx.block_size)
                },
                phase => (phase, no_effects()),
            },
            SlotEvent::RemoteLookupCompleted { matches } => match self {
                RequestPhase::LookingUp { host_blocks, disk_blocks } => if matches.len() > 0 {
                    start_prefetch(host_blocks, disk_blocks, &matches, ctx, operation_id, now)
                } else {
                    staged_exec(host_blocks, disk_blocks, ctx.block_size)
                },
                phase => (phase, no_effects()),
            },
            SlotEvent::RemoteLookupClosed => match self {
                RequestPhase::LookingUp { host_blocks, disk_blocks } => staged_exec(
                    host_blocks,
                    disk_blocks,
                    ctx.block_size,
                ),
                phase => (phase, no_effects()),
            },
            SlotEvent::PrefetchReady { blocks } => self.prefetch_ready(blocks, ctx),
            SlotEvent::PrefetchTimeout => match self {
                RequestPhase::Prefetching { prefetch, host_staging, disk_staging, .. } => {
                    let effects = release_exec(&host_staging, &disk_staging);
                    (RequestPhase::Preempted { recovered_from_failure: false }, effects)
                },
                phase => (phase, no_effects()),
            },
            SlotEvent::PrefetchFailed => match self {
                RequestPhase::Prefetching {
                    prefetch,
                    host_staging,
                    disk_staging,
                    ..
                } => if ctx.g4_xfer_fail_policy == G4FailPolicy::Fallback && (host_staging.len() > 0
                    || disk_staging.len() > 0) {
                    staged_exec(host_staging, disk_staging, ctx.block_size)
                } else {
                    let effects = release_exec(&host_staging, &disk_staging);
                    (RequestPhase::Preempted { recovered_from_failure: true }, effects)
                },
                phase => (phase, no_effects()),
            },
            SlotEvent::PollMatchReport => self.poll(),
            SlotEvent::AllocCompleted { block_ids, num_external_tokens } => match self {
                RequestPhase::OnboardReady {
                    num_external_tokens: _,
                    host_staging,
                    disk_staging,
                    remote_hashes,
                    ..
                } => (
                    RequestPhase::Onboarding { num_external_tokens, ops: OperationTracker::new() },
                    one_effect(
                        SlotEffect::EnqueueOnboardTransfer {
                            host_staging,
                            disk_staging,
                            remote_hashes,
                            dst_blocks: block_ids,
                            num_external_tokens,
                        },
                    ),
                ),
                phase => (phase, no_effects()),
            },
            SlotEvent::ApplySchedulerOutput { tokens, iteration, .. } => match self {
                RequestPhase::Initialized
                | RequestPhase::Onboarding { .. }
                | RequestPhase::SkippedPrefill => (
                    scheduled_exec(&tokens, iteration),
                    no_effects(),
                ),
                RequestPhase::Prefilling { iteration_first_scheduled } => (
                    scheduled_exec(&tokens, iteration_first_scheduled),
                    no_effects(),
                ),
                RequestPhase::SkippedDecode { ops } => (
                    RequestPhase::Decoding { ops, iteration_first_scheduled: iteration },
                    no_effects(),
                ),
                phase => (phase, no_effects()),
            },
            SlotEvent::MarkSkipped => match self {
                RequestPhase::Prefilling { .. } => (RequestPhase::SkippedPrefill, no_effects()),
                RequestPhase::Decoding { ops, .. } => (
                    RequestPhase::SkippedDecode { ops },
                    no_effects(),
                ),
                phase => (phase, no_effects()),
            },
            SlotEvent::TransferDispatched { .. } => (self, no_effects()),
            SlotEvent::TransferCompleted { operation_id: completed } => match self {
                RequestPhase::Prefetching {
                    prefetch,
                    host_staging,
                    disk_staging,
                    prefetched_blocks_for_stats,
                } => if completed == prefetch.operation_id {
                    (
                        RequestPhase::OnboardReady {
                            num_external_tokens: prefetch.num_external_tokens,
                            host_staging,
                            disk_staging,
                            remote_hashes: prefetch.sequence_hashes,
                            disclosure: DisclosureState::Pending,
                            prefetched_blocks_for_stats,
                        },
                        no_effects(),
                    )
                } else {
                    (
                        RequestPhase::Prefetching {
                            prefetch,
                            host_staging,
                            disk_staging,
                            prefetched_blocks_for_stats,
                        },
                        no_effects(),
                    )
                },
                phase => phase.transfer_ended(),
            },
            SlotEvent::TransferFailed { .. } => match self {
                RequestPhase::Prefetching { .. } => (self, no_effects()),
                phase => phase.transfer_ended(),
            },
            SlotEvent::RequestFinished => match self {
                RequestPhase::Prefilling { .. } | RequestPhase::SkippedPrefill => (
                    RequestPhase::Finished,
                    record_stats_exec(),
                ),
                RequestPhase::Decoding { ops, .. } => if ops.has_any() {
                    (RequestPhase::Finishing { ops }, no_effects())
                } else {
                    (RequestPhase::Finished, record_stats_exec())
                },
                phase => (phase, no_effects()),
            },
        }
    }

    fn preempt(self) -> (next: (Self, Vec<SlotEffect<H, D>>))
        ensures
            forall|ctx: SlotContext, id: OperationId, now: std::time::Instant|
                (next.0@, effect_views(next.1@)) == #[trigger] step(
                    self@,
                    EventView::Preempt,
                    ctx,
                    id,
                    now,
                ),
    {
        match self {
            RequestPhase::Finished => (RequestPhase::Finished, no_effects()),
            RequestPhase::Preempted { recovered_from_failure } => (
                RequestPhase::Preempted { recovered_from_failure },
                no_effects(),
            ),
            RequestPhase::LookingUp { host_blocks, disk_blocks } => {
                let effects = release_exec(&host_blocks, &disk_blocks);
                (RequestPhase::Preempted { recovered_from_failure: false }, effects)
            },
            RequestPhase::Prefetching { host_staging, disk_staging, .. } => {
                let effects = release_exec(&host_staging, &disk_staging);
                (RequestPhase::Preempted { recovered_from_failure: false }, effects)
            },
            RequestPhase::OnboardReady { host_staging, disk_staging, .. } => {
                let effects = release_exec(&host_staging, &disk_staging);
                (RequestPhase::Preempted { recovered_from_failure: false }, effects)
            },
            _ => (RequestPhase::Preempted { recovered_from_failure: false }, no_effects()),
        }
    }

    fn prefetch_ready(self, blocks: Vec<H>, ctx: &SlotContext) -> (next: (
        Self,
        Vec<SlotEffect<H, D>>,
    ))
        ensures
            forall|id: OperationId, now: std::time::Instant|
                (next.0@, effect_views(next.1@)) == #[trigger] step(
                    self@,
                    EventView::PrefetchReady { blocks: blocks@ },
                    *ctx,
                    id,
                    now,
                ),
    {
        match self {
            RequestPhase::Prefetching {
                prefetch,
                host_staging,
                disk_staging,
                prefetched_blocks_for_stats,
            } => if blocks.len() > 0 {
                let num_external_tokens: usize = tokens_in_exec(
                    host_staging.len(),
                    blocks.len(),
                    disk_staging.len(),
                    ctx.block_size,
                );
                let mut host_staging = host_staging;
                let mut blocks = blocks;
                host_staging.append(&mut blocks);
                (
                    RequestPhase::OnboardReady {
                        num_external_tokens,
                        host_staging,
                        disk_staging,
                        remote_hashes: Vec::new(),
                        disclosure: DisclosureState::Pending,
                        prefetched_blocks_for_stats,
                    },
                    no_effects(),
                )
            } else {
                (
                    RequestPhase::OnboardReady {
                        num_external_tokens: prefetch.num_external_tokens,
                        host_staging,
                        disk_staging,
                        remote_hashes: prefetch.sequence_hashes,
                        disclosure: DisclosureState::Pending,
                        prefetched_blocks_for_stats,
                    },
                    no_effects(),
                )
            },
            phase => (phase, no_effects()),
        }
    }

    fn poll(self) -> (next: (Self, Vec<SlotEffect<H, D>>))
        ensures
            forall|ctx: SlotContext, id: OperationId, now: std::time::Instant|
                (next.0@, effect_views(next.1@)) == #[trigger] step(
                    self@,
                    EventView::PollMatchReport,
                    ctx,
                    id,
                    now,
                ),
    {
        match self {
            RequestPhase::OnboardReady {
                num_external_tokens,
                host_staging,
                disk_staging,
                remote_hashes,
                disclosure,
                prefetched_blocks_for_stats,
            } => {
                let first: bool = disclosure == DisclosureState::Pending;
                let disclosure: DisclosureState = if first {
                    DisclosureState::Disclosed
                } else {
                    DisclosureState::Consumed
                };
                let effects = if first {
                    one_effect(SlotEffect::MatchReady { num_external_tokens })
                } else {
                    one_effect(SlotEffect::MatchDeferred)
                };
                (
                    RequestPhase::OnboardReady {
                        num_external_tokens,
                        host_staging,
                        disk_staging,
                        remote_hashes,
                        disclosure,
                        prefetched_blocks_for_stats,
                    },
                    effects,
                )
            },
            phase => (phase, no_effects()),
        }
    }

    fn transfer_ended(self) -> (next: (Self, Vec<SlotEffect<H, D>>))
        requires
            !(self@ is Prefetching),
        ensures
            forall|ctx: SlotContext, ended: OperationId, id: OperationId, now: std::time::Instant|
                (next.0@, effect_views(next.1@)) == #[trigger] step(
                    self@,
                    EventView::TransferFailed { operation_id: ended },
                    ctx,
                    id,
                    now,
                ),
            forall|ctx: SlotContext, ended: OperationId, id: OperationId, now: std::time::Instant|
                (next.0@, effect_views(next.1@)) == #[trigger] step(
                    self@,
                    EventView::TransferCompleted { operation_id: ended },
                    ctx,
                    id,
                    now,
                ),
    {
        match self {
            RequestPhase::Decoding { ops, iteration_first_scheduled } => {
                let mut ops = ops;
                ops.complete_one();
                (RequestPhase::Decoding { ops, iteration_first_scheduled }, no_effects())
            },
            RequestPhase::Finishing { ops } => finishing_exec(ops),
            phase => (phase, no_effects()),
        }
    }

    /// The state that the scheduler sees.
    pub fn as_slot_state(&self) -> (state: SlotState)
        ensures
            state == self@.slot_state(),
    {
        match self {
            RequestPhase::OnboardReady { num_external_tokens, .. } => SlotState::OnboardStaged(
                *num_external_tokens,
            ),
            RequestPhase::Onboarding { num_external_tokens, .. } => SlotState::Onboarding(
                *num_external_tokens,
            ),
            RequestPhase::Prefilling { .. } => SlotState::Prefilling,
            RequestPhase::SkippedPrefill => SlotState::SkippedPrefill,
            RequestPhase::Decoding { .. } => SlotState::Decoding,
            RequestPhase::SkippedDecode { .. } => SlotState::SkippedDecode,
            RequestPhase::Finishing { .. } => SlotState::Finishing,
            RequestPhase::Finished => SlotState::Finished,
            RequestPhase::Preempted { .. } => SlotState::Preempted,
            _ => SlotState::Initialized,
        }
    }
}

fn start_prefetch<H, D>(
    host_blocks: Vec<H>,
    disk_blocks: Vec<D>,
    matches: &Vec<(SequenceHash, SequenceHash)>,
    ctx: &SlotContext,
    operation_id: OperationId,
    now: std::time::Instant,
) -> (next: (RequestPhase<H, D>, Vec<SlotEffect<H, D>>))
    requires
        matches@.len() > 0,
    ensures
        (next.0@, effect_views(next.1@)) == step(
            PhaseView::LookingUp { host_blocks: host_blocks@, disk_blocks: disk_blocks@ },
            EventView::RemoteLookupCompleted { matches: matches@ },
            *ctx,
            operation_id,
            now,
        ),
{
    let num_external_tokens: usize = tokens_in_exec(
        host_blocks.len(),
        disk_blocks.len(),
        matches.len(),
        ctx.block_size,
    );
    let sequence_hashes: Vec<SequenceHash> = match_hashes_exec(matches);
    let hashes: Vec<SequenceHash> = match_hashes_exec(matches);
    let token_blocks: Vec<TokenBlock> = Vec::new();
    assert(tokens::block_views(token_blocks@) =~= Seq::<TokenBlockView>::empty());
    (
        RequestPhase::Prefetching {
            prefetch: PrefetchState {
                operation_id,
                sequence_hashes,
                num_external_tokens,
                started_at: now,
            },
            host_staging: host_blocks,
            disk_staging: disk_blocks,
            prefetched_blocks_for_stats: matches.len(),
        },
        one_effect(SlotEffect::StartPrefetch { hashes, token_blocks, operation_id }),
    )
}

} // verus!
