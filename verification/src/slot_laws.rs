//! Laws of the request state machine, proved of every phase, event and context.

use vstd::prelude::*;

use crate::protocol::{OperationId, SequenceHash};
use crate::slot_api::SlotState;
use crate::slot_machine::{
    self, DisclosureState, EffectView, EventView, G4FailPolicy, PhaseView, SlotContext,
};
use crate::slot_ops::TrackerView;

verus! {

/// What holds of a phase that the machine reached from [`PhaseView::Initialized`]: a staged
/// request has something staged and reports exactly the tokens that it has, a prefetch has
/// something to fetch, an onboarding request has tokens to onboard, and a finishing request
/// still waits for a transfer.
pub open spec fn phase_inv<H, D>(phase: PhaseView<H, D>, block_size: usize) -> bool {
    match phase {
        PhaseView::Prefetching { prefetch, host_staging, disk_staging, .. } => {
            &&& prefetch.sequence_hashes.len() > 0
            &&& prefetch.num_external_tokens == slot_machine::tokens_in(
                host_staging.len() + disk_staging.len() + prefetch.sequence_hashes.len(),
                block_size,
            )
        },
        PhaseView::OnboardReady {
            num_external_tokens,
            host_staging,
            disk_staging,
            remote_hashes,
            ..
        } => {
            let blocks = host_staging.len() + disk_staging.len() + remote_hashes.len();
            &&& blocks > 0
            &&& num_external_tokens == slot_machine::tokens_in(blocks, block_size)
        },
        PhaseView::Onboarding { num_external_tokens, .. } => num_external_tokens > 0,
        PhaseView::Finishing { ops } => ops.has_any(),
        _ => true,
    }
}

/// The machine starts in a phase that meets the invariant, and every event keeps it, except an
/// allocation that claims to onboard no tokens.
pub proof fn transitions_keep_invariant<H, D>(
    phase: PhaseView<H, D>,
    event: EventView<H, D>,
    ctx: SlotContext,
    id: OperationId,
    now: std::time::Instant,
)
    requires
        phase_inv(phase, ctx.block_size),
        !(event matches EventView::AllocCompleted { num_external_tokens: 0, .. }),
    ensures
        phase_inv(PhaseView::<H, D>::Initialized, ctx.block_size),
        phase_inv(slot_machine::step(phase, event, ctx, id, now).0, ctx.block_size),
{
}

/// Reset leads to the initial phase from everywhere and asks nothing of the executor.
pub proof fn reset_restarts<H, D>(
    phase: PhaseView<H, D>,
    ctx: SlotContext,
    id: OperationId,
    now: std::time::Instant,
)
    ensures
        slot_machine::step(phase, EventView::Reset, ctx, id, now) == (
            PhaseView::<H, D>::Initialized,
            Seq::<EffectView<H, D>>::empty(),
        ),
{
}

/// A finished request stays finished whatever happens to it but a reset.
pub proof fn finished_is_final<H, D>(
    event: EventView<H, D>,
    ctx: SlotContext,
    id: OperationId,
    now: std::time::Instant,
)
    requires
        !(event is Reset),
    ensures
        slot_machine::step(PhaseView::<H, D>::Finished, event, ctx, id, now) == (
            PhaseView::<H, D>::Finished,
            Seq::<EffectView<H, D>>::empty(),
        ),
{
}

/// Only a new lookup or a reset leads out of preemption; every other event leaves a preempted
/// request as it is, with the failure flag kept.
pub proof fn preempted_waits_for_retry<H, D>(
    recovered_from_failure: bool,
    event: EventView<H, D>,
    ctx: SlotContext,
    id: OperationId,
    now: std::time::Instant,
)
    requires
        !(event is Reset),
    ensures
        ({
            let phase = PhaseView::<H, D>::Preempted { recovered_from_failure };
            let next = slot_machine::step(phase, event, ctx, id, now);
            match event {
                EventView::AcquireMatches { num_computed_tokens } => next == (
                    PhaseView::<H, D>::AwaitingLookup,
                    seq![EffectView::<H, D>::RunLocalLookup { num_computed_tokens }],
                ),
                _ => next == (phase, Seq::<EffectView<H, D>>::empty()),
            }
        }),
{
}

/// After a preemption the request holds no staged block, and a request that is neither finished
/// nor already preempted carries no failure flag.
pub proof fn preemption_drops_staging<H, D>(
    phase: PhaseView<H, D>,
    ctx: SlotContext,
    id: OperationId,
    now: std::time::Instant,
)
    ensures
        ({
            let next = slot_machine::step(phase, EventView::Preempt, ctx, id, now);
            &&& phase_host(next.0).len() == 0 && phase_disk(next.0).len() == 0
            &&& next.0 is Preempted || next.0 is Finished
            &&& !(phase is Finished) && !(phase is Preempted) ==> next.0 == PhaseView::<
                H,
                D,
            >::Preempted { recovered_from_failure: false } && next.1 == slot_machine::release(
                phase_host(phase),
                phase_disk(phase),
            )
        }),
{
}

/// A prefetch that timed out cannot come back: neither its late completion, nor late blocks, nor
/// a late failure changes the preempted request, and a retry starts a fresh local lookup.
pub proof fn timed_out_prefetch_stays_preempted<H, D>(
    phase: PhaseView<H, D>,
    late: EventView<H, D>,
    num_computed_tokens: usize,
    ctx: SlotContext,
    id: OperationId,
    now: std::time::Instant,
)
    requires
        phase is Prefetching,
        late is PrefetchReady || late is TransferCompleted || late is TransferFailed
            || late is PrefetchFailed || late is PrefetchTimeout,
    ensures
        ({
            let out = slot_machine::step(phase, EventView::PrefetchTimeout, ctx, id, now).0;
            &&& out == PhaseView::<H, D>::Preempted { recovered_from_failure: false }
            &&& slot_machine::step(out, late, ctx, id, now) == (out, Seq::<EffectView<H, D>>::empty())
            &&& slot_machine::step(
                out,
                EventView::AcquireMatches { num_computed_tokens },
                ctx,
                id,
                now,
            ) == (
                PhaseView::<H, D>::AwaitingLookup,
                seq![EffectView::<H, D>::RunLocalLookup { num_computed_tokens }],
            )
        }),
{
}

/// The completion of the prefetch transfer and a prefetch that hands over no blocks have the
/// same outcome; the completion of another transfer has none.
pub proof fn prefetch_completion_is_prefetch_ready<H, D>(
    phase: PhaseView<H, D>,
    completed: OperationId,
    ctx: SlotContext,
    id: OperationId,
    now: std::time::Instant,
)
    requires
        phase is Prefetching,
    ensures
        ({
            let next = slot_machine::step(
                phase,
                EventView::TransferCompleted { operation_id: completed },
                ctx,
                id,
                now,
            );
            if completed == phase->prefetch.operation_id {
                next == slot_machine::step(phase, EventView::PrefetchReady { blocks: Seq::empty() }, ctx, id, now)
            } else {
                next == (phase, Seq::<EffectView<H, D>>::empty())
            }
        }),
{
}

/// Dispatching a transfer is bookkeeping of the slot and never moves the machine.
pub proof fn dispatch_does_not_move<H, D>(
    phase: PhaseView<H, D>,
    count: usize,
    ctx: SlotContext,
    id: OperationId,
    now: std::time::Instant,
)
    ensures
        slot_machine::step(phase, EventView::TransferDispatched { count }, ctx, id, now) == (
            phase,
            Seq::<EffectView<H, D>>::empty(),
        ),
{
}

/// The host blocks that a phase holds.
pub open spec fn phase_host<H, D>(phase: PhaseView<H, D>) -> Seq<H> {
    match phase {
        PhaseView::LookingUp { host_blocks, .. } => host_blocks,
        PhaseView::Prefetching { host_staging, .. } => host_staging,
        PhaseView::OnboardReady { host_staging, .. } => host_staging,
        _ => Seq::empty(),
    }
}

/// The disk blocks that a phase holds.
pub open spec fn phase_disk<H, D>(phase: PhaseView<H, D>) -> Seq<D> {
    match phase {
        PhaseView::LookingUp { disk_blocks, .. } => disk_blocks,
        PhaseView::Prefetching { disk_staging, .. } => disk_staging,
        PhaseView::OnboardReady { disk_staging, .. } => disk_staging,
        _ => Seq::empty(),
    }
}

/// The host blocks that one transition hands to the executor.
pub open spec fn onboarded_host<H, D>(effects: Seq<EffectView<H, D>>) -> Seq<H> {
    if effects.len() == 1 && effects[0] is EnqueueOnboardTransfer {
        effects[0]->EnqueueOnboardTransfer_host_staging
    } else {
        Seq::empty()
    }
}

/// The disk blocks that one transition hands to the executor.
pub open spec fn onboarded_disk<H, D>(effects: Seq<EffectView<H, D>>) -> Seq<D> {
    if effects.len() == 1 && effects[0] is EnqueueOnboardTransfer {
        effects[0]->EnqueueOnboardTransfer_disk_staging
    } else {
        Seq::empty()
    }
}

/// Staged blocks are kept in order and none is lost or invented: unless the request is reset,
/// preempted, timed out or failed, what the phase held is still there afterwards, followed by
/// the blocks of a completed prefetch, either in the next phase or in the onboard transfer.
pub proof fn staging_is_conserved<H, D>(
    phase: PhaseView<H, D>,
    event: EventView<H, D>,
    ctx: SlotContext,
    id: OperationId,
    now: std::time::Instant,
)
    requires
        !(event is Reset),
        !(event is Preempt),
        !(event is PrefetchTimeout),
        !(event is PrefetchFailed),
        !(phase is AwaitingLookup),
    ensures
        ({
            let (next, effects) = slot_machine::step(phase, event, ctx, id, now);
            let arrived = if phase is Prefetching && event is PrefetchReady {
                event->blocks
            } else {
                Seq::<H>::empty()
            };
            &&& phase_host(next) + onboarded_host(effects) =~= phase_host(phase) + arrived
            &&& phase_disk(next) + onboarded_disk(effects) =~= phase_disk(phase)
        }),
{
}

/// The blocks that the local lookup found are all staged, in order.
pub proof fn lookup_stages_all_matches<H, D>(
    host_blocks: Seq<H>,
    disk_blocks: Seq<D>,
    remote_candidates: Seq<SequenceHash>,
    ctx: SlotContext,
    id: OperationId,
    now: std::time::Instant,
)
    ensures
        ({
            let next = slot_machine::step(
                PhaseView::AwaitingLookup,
                EventView::LocalLookupCompleted { host_blocks, disk_blocks, remote_candidates },
                ctx,
                id,
                now,
            ).0;
            phase_host(next) =~= host_blocks && phase_disk(next) =~= disk_blocks
        }),
{
}

/// A remote lookup with matches asks for exactly the matched hashes, under the id that the
/// prefetch keeps.
pub proof fn prefetch_asks_for_matches<H, D>(
    host_blocks: Seq<H>,
    disk_blocks: Seq<D>,
    matches: Seq<(SequenceHash, SequenceHash)>,
    ctx: SlotContext,
    id: OperationId,
    now: std::time::Instant,
)
    requires
        matches.len() > 0,
    ensures
        ({
            let (next, effects) = slot_machine::step(
                PhaseView::LookingUp { host_blocks, disk_blocks },
                EventView::RemoteLookupCompleted { matches },
                ctx,
                id,
                now,
            );
            &&& next is Prefetching
            &&& effects.len() == 1 && effects[0] is StartPrefetch
            &&& effects[0]->hashes == slot_machine::match_hashes(matches)
            &&& effects[0]->StartPrefetch_operation_id == next->prefetch.operation_id == id
            &&& next->prefetch.sequence_hashes == slot_machine::match_hashes(matches)
        }),
{
}

/// The effects of `n` polls in a row.
pub open spec fn poll_effects<H, D>(
    phase: PhaseView<H, D>,
    ctx: SlotContext,
    id: OperationId,
    now: std::time::Instant,
    n: nat,
) -> Seq<EffectView<H, D>>
    decreases n,
{
    if n == 0 {
        Seq::empty()
    } else {
        let (next, effects) = slot_machine::step(phase, EventView::PollMatchReport, ctx, id, now);
        effects + poll_effects(next, ctx, id, now, (n - 1) as nat)
    }
}

/// A match is reported exactly once: the first poll of a freshly staged request reports its
/// tokens, and every poll after it is deferred.
pub proof fn match_is_disclosed_once<H, D>(
    phase: PhaseView<H, D>,
    ctx: SlotContext,
    id: OperationId,
    now: std::time::Instant,
    n: nat,
)
    requires
        phase is OnboardReady,
    ensures
        ({
            let effects = poll_effects(phase, ctx, id, now, n);
            &&& effects.len() == n
            &&& forall|i: int|
                0 <= i < n ==> #[trigger] effects[i] == if i == 0 && phase->disclosure
                    == DisclosureState::Pending {
                    EffectView::<H, D>::MatchReady {
                        num_external_tokens: phase->OnboardReady_num_external_tokens,
                    }
                } else {
                    EffectView::<H, D>::MatchDeferred
                }
        }),
    decreases n,
{
    if n > 0 {
        let (next, effects) = slot_machine::step(phase, EventView::PollMatchReport, ctx, id, now);
        match_is_disclosed_once(next, ctx, id, now, (n - 1) as nat);
        let rest = poll_effects(next, ctx, id, now, (n - 1) as nat);
        let all = poll_effects(phase, ctx, id, now, n);
        assert(all =~= effects + rest);
        assert forall|i: int| 0 <= i < n implies #[trigger] all[i] == if i == 0
            && phase->disclosure == DisclosureState::Pending {
            EffectView::<H, D>::MatchReady {
                num_external_tokens: phase->OnboardReady_num_external_tokens,
            }
        } else {
            EffectView::<H, D>::MatchDeferred
        } by {
            if i > 0 {
                assert(all[i] == rest[i - 1]);
            }
        }
    }
}

/// A failed prefetch never keeps remote blocks: the request goes on with exactly its local
/// blocks, or is preempted with the failure flag set.
pub proof fn failed_prefetch_falls_back_or_preempts<H, D>(
    phase: PhaseView<H, D>,
    ctx: SlotContext,
    id: OperationId,
    now: std::time::Instant,
)
    requires
        phase is Prefetching,
    ensures
        ({
            let next = slot_machine::step(phase, EventView::PrefetchFailed, ctx, id, now);
            let local = phase_host(phase).len() + phase_disk(phase).len();
            if ctx.g4_xfer_fail_policy == G4FailPolicy::Fallback && local
                > 0 {
                next == slot_machine::staged(phase_host(phase), phase_disk(phase), ctx.block_size)
            } else {
                next.0 == PhaseView::<H, D>::Preempted { recovered_from_failure: true }
            }
        }),
{
}

/// A request that finished waits for its transfers: it is finished at once when none is open,
/// and otherwise after exactly as many transfer ends as operations were handed over.
pub proof fn finishing_drains<H, D>(
    ops: TrackerView,
    ended: OperationId,
    ctx: SlotContext,
    id: OperationId,
    now: std::time::Instant,
)
    requires
        ops.pending is None,
        ops.dispatched > 0,
    ensures
        ({
            let completed = slot_machine::step(
                PhaseView::<H, D>::Finishing { ops },
                EventView::TransferCompleted { operation_id: ended },
                ctx,
                id,
                now,
            );
            let failed = slot_machine::step(
                PhaseView::<H, D>::Finishing { ops },
                EventView::TransferFailed { operation_id: ended },
                ctx,
                id,
                now,
            );
            &&& completed == failed
            &&& completed.0 is Finished <==> ops.dispatched == 1
            &&& ops.dispatched > 1 ==> completed.0 == PhaseView::<H, D>::Finishing {
                ops: TrackerView {
                    pending: None,
                    dispatched: (ops.dispatched - 1) as nat,
                },
            }
        }),
{
}

/// A lookup starts from the initial phase or after a preemption, and from nowhere else: it asks
/// for a local lookup behind what the engine has computed.
pub proof fn lookups_start_from_the_beginning<H, D>(
    phase: PhaseView<H, D>,
    num_computed_tokens: usize,
    ctx: SlotContext,
    id: OperationId,
    now: std::time::Instant,
)
    ensures
        ({
            let (next, effects) = slot_machine::step(
                phase,
                EventView::AcquireMatches { num_computed_tokens },
                ctx,
                id,
                now,
            );
            if phase is Initialized || phase is Preempted {
                &&& next is AwaitingLookup
                &&& effects.len() == 1
                &&& effects[0] is RunLocalLookup
                &&& effects[0]->RunLocalLookup_num_computed_tokens == num_computed_tokens
            } else {
                next == phase && effects.len() == 0
            }
        }),
{
}

/// What the local lookup did not find is looked up remotely exactly if there is a remote tier and
/// something is missing. Otherwise the request is ready with what it has, or back at the start
/// where nothing was found.
pub proof fn missing_blocks_are_looked_up_remotely<H, D>(
    host_blocks: Seq<H>,
    disk_blocks: Seq<D>,
    remote_candidates: Seq<SequenceHash>,
    ctx: SlotContext,
    id: OperationId,
    now: std::time::Instant,
)
    ensures
        ({
            let (next, effects) = slot_machine::step(
                PhaseView::AwaitingLookup,
                EventView::LocalLookupCompleted { host_blocks, disk_blocks, remote_candidates },
                ctx,
                id,
                now,
            );
            &&& next is LookingUp <==> ctx.remote_enabled && remote_candidates.len() > 0
            &&& next is LookingUp ==> {
                &&& effects.len() == 1
                &&& effects[0] is StartRemoteLookup
                &&& effects[0]->candidates == remote_candidates
            }
            &&& !(next is LookingUp) && host_blocks.len() == 0 && disk_blocks.len() == 0 ==> {
                &&& next is Initialized
                &&& effects.len() == 1
                &&& effects[0] is MatchNone
            }
            &&& !(next is LookingUp) && (host_blocks.len() > 0 || disk_blocks.len() > 0) ==> {
                &&& next is OnboardReady
                &&& next->disclosure == DisclosureState::Pending
                &&& next->remote_hashes.len() == 0
                &&& effects.len() == 0
            }
        }),
{
}

/// A remote lookup that was closed counts as one that found nothing: the request goes on with its
/// local blocks, or back to the start where it has none.
pub proof fn closed_remote_lookup_finds_nothing<H, D>(
    host_blocks: Seq<H>,
    disk_blocks: Seq<D>,
    ctx: SlotContext,
    id: OperationId,
    now: std::time::Instant,
)
    ensures
        ({
            let phase = PhaseView::LookingUp { host_blocks, disk_blocks };
            let closed = slot_machine::step(phase, EventView::RemoteLookupClosed, ctx, id, now);
            let empty = slot_machine::step(
                phase,
                EventView::RemoteLookupCompleted { matches: Seq::empty() },
                ctx,
                id,
                now,
            );
            &&& closed == empty
            &&& closed.0 is Initialized <==> host_blocks.len() == 0 && disk_blocks.len() == 0
            &&& closed.0 is Initialized ==> closed.1.len() == 1 && closed.1[0] is MatchNone
            &&& !(closed.0 is Initialized) ==> closed.0 is OnboardReady && closed.1.len() == 0
        }),
{
}

/// The hashes of matches are the first of each pair, in order.
pub proof fn matches_are_named_by_their_hashes(
    matches: Seq<(SequenceHash, SequenceHash)>,
    i: int,
)
    requires
        0 <= i < matches.len(),
    ensures
        slot_machine::match_hashes(matches).len() == matches.len(),
        slot_machine::match_hashes(matches)[i] == matches[i].0,
{
}

/// Events of a lookup or of a prefetch that come in another phase change nothing.
pub proof fn events_out_of_place_change_nothing<H, D>(
    phase: PhaseView<H, D>,
    event: EventView<H, D>,
    ctx: SlotContext,
    id: OperationId,
    now: std::time::Instant,
)
    requires
        event is LocalLookupCompleted ==> !(phase is AwaitingLookup),
        event is RemoteLookupCompleted || event is RemoteLookupClosed ==> !(phase is LookingUp),
        event is PrefetchReady || event is PrefetchTimeout || event is PrefetchFailed ==> !(
        phase is Prefetching),
        event is PollMatchReport || event is AllocCompleted ==> !(phase is OnboardReady),
        event is MarkSkipped ==> !(phase is Prefilling) && !(phase is Decoding),
        event is RequestFinished ==> !(phase is Prefilling) && !(phase is SkippedPrefill) && !(
        phase is Decoding),
        event is TransferCompleted ==> !(phase is Prefetching) && !(phase is Decoding) && !(
        phase is Finishing),
        event is TransferFailed ==> !(phase is Decoding) && !(phase is Finishing),
        event is ApplySchedulerOutput ==> phase is AwaitingLookup || phase is LookingUp
            || phase is Prefetching || phase is OnboardReady || phase is Decoding
            || phase is Finishing || phase is Finished || phase is Preempted,
        !(event is Reset),
        !(event is Preempt),
        !(event is AcquireMatches),
    ensures
        slot_machine::step(phase, event, ctx, id, now) == (phase, Seq::<EffectView<H, D>>::empty()),
{
}

/// A prefetch that brought blocks hands them over behind the staged ones, with nothing remote
/// left; one that landed without handing blocks over leaves the remote hashes to be onboarded.
/// Either way the request is ready and not reported yet.
pub proof fn prefetched_blocks_are_staged<H, D>(
    phase: PhaseView<H, D>,
    blocks: Seq<H>,
    ctx: SlotContext,
    id: OperationId,
    now: std::time::Instant,
)
    requires
        phase is Prefetching,
    ensures
        ({
            let (next, effects) = slot_machine::step(
                phase,
                EventView::PrefetchReady { blocks },
                ctx,
                id,
                now,
            );
            &&& next is OnboardReady
            &&& effects.len() == 0
            &&& next->disclosure == DisclosureState::Pending
            &&& next->OnboardReady_host_staging =~= phase->Prefetching_host_staging + blocks
            &&& next->OnboardReady_disk_staging == phase->Prefetching_disk_staging
            &&& blocks.len() > 0 ==> next->remote_hashes.len() == 0
            &&& blocks.len() == 0 ==> next->remote_hashes == phase->prefetch.sequence_hashes
                && next->OnboardReady_num_external_tokens == phase->prefetch.num_external_tokens
            &&& next->OnboardReady_prefetched_blocks_for_stats
                == phase->Prefetching_prefetched_blocks_for_stats
        }),
{
}

/// Allocated blocks start the onboard of everything that is staged, into the blocks that were
/// allocated, for as many tokens as the engine said.
pub proof fn allocation_starts_the_onboard<H, D>(
    phase: PhaseView<H, D>,
    block_ids: Seq<usize>,
    num_external_tokens: usize,
    ctx: SlotContext,
    id: OperationId,
    now: std::time::Instant,
)
    requires
        phase is OnboardReady,
    ensures
        ({
            let (next, effects) = slot_machine::step(
                phase,
                EventView::AllocCompleted { block_ids, num_external_tokens },
                ctx,
                id,
                now,
            );
            &&& next is Onboarding
            &&& next->Onboarding_num_external_tokens == num_external_tokens
            &&& next->Onboarding_ops.dispatched == 0
            &&& next->Onboarding_ops.pending is None
            &&& effects.len() == 1
            &&& effects[0] is EnqueueOnboardTransfer
            &&& effects[0]->EnqueueOnboardTransfer_host_staging
                == phase->OnboardReady_host_staging
            &&& effects[0]->EnqueueOnboardTransfer_disk_staging
                == phase->OnboardReady_disk_staging
            &&& effects[0]->EnqueueOnboardTransfer_remote_hashes == phase->remote_hashes
            &&& effects[0]->dst_blocks == block_ids
            &&& effects[0]->EnqueueOnboardTransfer_num_external_tokens == num_external_tokens
        }),
{
}

/// What is staged is released when the request is preempted, or when its prefetch takes too long
/// or fails without anything to fall back to: once where something is staged, and not at all where
/// nothing is.
pub proof fn dropped_staging_is_released<H, D>(
    phase: PhaseView<H, D>,
    event: EventView<H, D>,
    ctx: SlotContext,
    id: OperationId,
    now: std::time::Instant,
)
    requires
        event is Preempt || event is PrefetchTimeout || event is PrefetchFailed,
        slot_machine::step(phase, event, ctx, id, now).0 is Preempted,
        !(phase is Preempted),
    ensures
        ({
            let effects = slot_machine::step(phase, event, ctx, id, now).1;
            let held = phase_host(phase).len() + phase_disk(phase).len();
            &&& held > 0 ==> effects.len() == 1 && effects[0] is ReleaseStaging
            &&& held == 0 ==> effects.len() == 0
        }),
{
}

/// Blocks hold `block_size` tokens each; a number of tokens that does not fit stops at the
/// largest.
pub proof fn tokens_are_counted_by_blocks(blocks: nat, block_size: usize)
    ensures
        blocks * block_size <= usize::MAX ==> slot_machine::tokens_in(blocks, block_size) == blocks
            * block_size,
        blocks * block_size > usize::MAX ==> slot_machine::tokens_in(blocks, block_size)
            == usize::MAX,
{
}

/// A forward pass takes a request from its start, from its onboard or from a skipped prefill to
/// prefill, and to decoding once it comes with tokens; a prefill that goes on keeps the iteration
/// in which it was scheduled first, and a skipped decode goes on with its operations.
pub proof fn forward_passes_prefill_and_decode<H, D>(
    phase: PhaseView<H, D>,
    tokens: Seq<u32>,
    iteration: u64,
    ctx: SlotContext,
    id: OperationId,
    now: std::time::Instant,
)
    ensures
        ({
            let (next, effects) = slot_machine::step(
                phase,
                EventView::ApplySchedulerOutput { tokens, iteration },
                ctx,
                id,
                now,
            );
            let starts = phase is Initialized || phase is Onboarding || phase is SkippedPrefill;
            let first = if phase is Prefilling {
                phase->Prefilling_iteration_first_scheduled
            } else {
                iteration
            };
            &&& effects.len() == 0
            &&& starts || phase is Prefilling ==> {
                &&& tokens.len() == 0 ==> next is Prefilling
                    && next->Prefilling_iteration_first_scheduled == first
                &&& tokens.len() > 0 ==> next is Decoding
                    && next->Decoding_iteration_first_scheduled == first
                    && next->Decoding_ops.dispatched == 0 && next->Decoding_ops.pending is None
            }
            &&& phase is SkippedDecode ==> next is Decoding && next->Decoding_ops
                == phase->SkippedDecode_ops && next->Decoding_iteration_first_scheduled == iteration
            &&& !starts && !(phase is Prefilling) && !(phase is SkippedDecode) ==> next == phase
        }),
{
}

/// A request that is passed over is marked, and keeps its operations.
pub proof fn skipped_requests_keep_their_operations<H, D>(
    phase: PhaseView<H, D>,
    ctx: SlotContext,
    id: OperationId,
    now: std::time::Instant,
)
    ensures
        ({
            let (next, effects) = slot_machine::step(phase, EventView::MarkSkipped, ctx, id, now);
            &&& effects.len() == 0
            &&& phase is Prefilling ==> next is SkippedPrefill
            &&& phase is Decoding ==> next is SkippedDecode && next->SkippedDecode_ops
                == phase->Decoding_ops
            &&& !(phase is Prefilling) && !(phase is Decoding) ==> next == phase
        }),
{
}

/// While a request decodes, the end of a transfer, well or not, takes one off the count of
/// running operations and moves nothing else.
pub proof fn ended_transfers_are_counted_off<H, D>(
    phase: PhaseView<H, D>,
    ended: OperationId,
    ctx: SlotContext,
    id: OperationId,
    now: std::time::Instant,
)
    requires
        phase is Decoding,
    ensures
        ({
            let completed = slot_machine::step(
                phase,
                EventView::TransferCompleted { operation_id: ended },
                ctx,
                id,
                now,
            );
            let failed = slot_machine::step(
                phase,
                EventView::TransferFailed { operation_id: ended },
                ctx,
                id,
                now,
            );
            let before = phase->Decoding_ops;
            let after = completed.0->Decoding_ops;
            &&& completed == failed
            &&& completed.0 is Decoding
            &&& completed.1.len() == 0
            &&& completed.0->Decoding_iteration_first_scheduled
                == phase->Decoding_iteration_first_scheduled
            &&& after.pending == before.pending
            &&& before.dispatched > 0 ==> after.dispatched == before.dispatched - 1
            &&& before.dispatched == 0 ==> after.dispatched == 0
        }),
{
}

/// A request ends once: a prefill ends at once, and so does a decode without open operations; a
/// decode with open operations waits for them. Statistics are recorded when it ends, not before.
pub proof fn requests_end_when_nothing_is_open<H, D>(
    phase: PhaseView<H, D>,
    ctx: SlotContext,
    id: OperationId,
    now: std::time::Instant,
)
    requires
        phase is Prefilling || phase is SkippedPrefill || phase is Decoding,
    ensures
        ({
            let (next, effects) = slot_machine::step(
                phase,
                EventView::RequestFinished,
                ctx,
                id,
                now,
            );
            let open = phase is Decoding && (phase->Decoding_ops.dispatched > 0 || (
            phase->Decoding_ops.pending matches Some(ops) && ops.len() > 0));
            &&& open ==> next is Finishing && next->Finishing_ops == phase->Decoding_ops
                && effects.len() == 0
            &&& !open ==> next is Finished && effects.len() == 1 && effects[0] is RecordCacheStats
        }),
{
}

/// What the scheduler sees of a phase. A request that is still looked up looks like one that has
/// not started.
pub proof fn phases_show_their_state<H, D>(phase: PhaseView<H, D>)
    ensures
        phase.slot_state() == SlotState::Initialized <==> phase is Initialized
            || phase is AwaitingLookup || phase is LookingUp || phase is Prefetching,
        phase.slot_state() is OnboardStaged <==> phase is OnboardReady,
        phase.slot_state() matches SlotState::OnboardStaged(tokens) ==> tokens
            == phase->OnboardReady_num_external_tokens,
        phase.slot_state() is Onboarding <==> phase is Onboarding,
        phase.slot_state() matches SlotState::Onboarding(tokens) ==> tokens
            == phase->Onboarding_num_external_tokens,
        phase.slot_state() == SlotState::Prefilling <==> phase is Prefilling,
        phase.slot_state() == SlotState::SkippedPrefill <==> phase is SkippedPrefill,
        phase.slot_state() == SlotState::Decoding <==> phase is Decoding,
        phase.slot_state() == SlotState::SkippedDecode <==> phase is SkippedDecode,
        phase.slot_state() == SlotState::Finishing <==> phase is Finishing,
        phase.slot_state() == SlotState::Finished <==> phase is Finished,
        phase.slot_state() == SlotState::Preempted <==> phase is Preempted,
{
}

} // verus!
