//! The leader of the connector: it follows the engine's scheduler, drives the slots of all
//! requests and tells the workers what to transfer.

use vstd::prelude::*;

use crate::effect_context::ContextView;
use crate::effect_executor::{
    self, apply_and_execute, complete_local_lookup, complete_remote_lookup, Draw, EffectResult,
    LookupRequest, LookupView, ResultView,
};
use crate::protocol::{
    new_operation_id, BlockId, OperationId, SequenceHash, SlotKey, SlotKeyView, NIL_OPERATION_ID,
};
use crate::signals;
use crate::slot_api::{ExternallyManagedDeviceSlot, Slot, SlotManager, SlotState};
use crate::slot_machine::{
    self, EventView, G4FailPolicy, PhaseView, RequestPhase, SlotContext, SlotEvent,
};
use crate::slot_manager::{ConnectorSlotManager, ManagerView};
use crate::slot_ops::TrackerView;
use crate::slot_runtime::{SlotView, VllmConnectorSlot, VllmSlotEvent};
use crate::table::{KeySet, Table};
use crate::transfer_requests::copy_hashes;

verus! {

broadcast use vstd::std_specs::hash::group_hash_axioms;

/// The leader's state.
pub struct KvConnectorLeaderCore {
    pub manager: ConnectorSlotManager,
    /// How long a prefetch or an onboard may take, in seconds.
    pub timeout_secs: u64,
    /// Requests that the engine has not finished.
    pub inflight_requests: KeySet<String>,
    /// Requests whose onboard started since the last metadata.
    pub onboarding_slots: KeySet<String>,
    /// Finished requests with transfers still running.
    pub finishing_requests: KeySet<String>,
    /// The number of metadata that were built.
    pub iteration_counter: u64,
    pub request_traces: Table<String, String>,
    pub request_baggage: Table<String, String>,
    /// The last generation of each request id.
    pub request_generations: Table<String, u64>,
    /// The current key of each request.
    pub active_slot_keys: Table<String, SlotKey>,
}

/// The mathematical value of a [`KvConnectorLeaderCore`].
#[verifier::ext_equal]
pub struct LeaderView {
    pub manager: ManagerView,
    pub timeout_secs: u64,
    pub inflight: Set<Seq<char>>,
    pub onboarding: Set<Seq<char>>,
    pub finishing: Set<Seq<char>>,
    pub iteration: u64,
    pub traces: Map<Seq<char>, Seq<char>>,
    pub baggage: Map<Seq<char>, Seq<char>>,
    pub generations: Map<Seq<char>, u64>,
    pub active: Map<Seq<char>, SlotKeyView>,
}

/// The views of a table of texts.
pub open spec fn text_views(texts: Map<Seq<char>, String>) -> Map<Seq<char>, Seq<char>> {
    texts.map_values(|text: String| text@)
}

/// The views of a table of slot keys.
pub open spec fn slot_key_views(keys: Map<Seq<char>, SlotKey>) -> Map<Seq<char>, SlotKeyView> {
    keys.map_values(|key: SlotKey| key@)
}

/// The value of `key`, where it has one.
pub open spec fn lookup<T>(map: Map<Seq<char>, T>, key: Seq<char>) -> Option<T> {
    if map.dom().contains(key) {
        Some(map[key])
    } else {
        None
    }
}

impl View for KvConnectorLeaderCore {
    type V = LeaderView;

    open spec fn view(&self) -> LeaderView {
        LeaderView {
            manager: self.manager@,
            timeout_secs: self.timeout_secs,
            inflight: self.inflight_requests@,
            onboarding: self.onboarding_slots@,
            finishing: self.finishing_requests@,
            iteration: self.iteration_counter,
            traces: text_views(self.request_traces@),
            baggage: text_views(self.request_baggage@),
            generations: self.request_generations@,
            active: slot_key_views(self.active_slot_keys@),
        }
    }
}

/// The error of a request that has no slot key.
pub open spec fn missing_key(request_id: Seq<char>) -> Seq<char> {
    "missing active SlotKey for request "@ + request_id
}

impl LeaderView {
    /// The manager is well formed, and every active key is that of its request and of the last
    /// generation.
    pub open spec fn wf(self) -> bool {
        &&& self.manager.wf()
        &&& forall|id: Seq<char>|
            #[trigger] self.active.dom().contains(id) ==> {
                &&& self.active[id].0 == id
                &&& self.generations.dom().contains(id)
                &&& self.generations[id] == self.active[id].1
            }
    }

    /// The context in which the slots of the leader take events.
    pub open spec fn context(self) -> SlotContext {
        SlotContext {
            block_size: self.manager.block_size,
            remote_enabled: self.manager.effects.has_remote,
            g4_xfer_fail_policy: G4FailPolicy::Fallback,
        }
    }

    /// The slot of a request, with its key.
    pub open spec fn find(self, request_id: Seq<char>) -> Result<
        (SlotKeyView, SlotView),
        Seq<char>,
    > {
        match lookup(self.active, request_id) {
            None => Err(missing_key(request_id)),
            Some(key) => if self.manager.slots.dom().contains(key) {
                Ok((key, self.manager.slots[key]))
            } else {
                Err("slot not found"@)
            },
        }
    }

    /// Whether there is a slot for a request.
    pub open spec fn has(self, request_id: Seq<char>) -> bool {
        self.find(request_id) is Ok
    }

    /// A slot with the trace context and the baggage of its request.
    pub open spec fn traced(self, request_id: Seq<char>, slot: SlotView) -> SlotView {
        SlotView {
            traceparent: lookup(self.traces, request_id),
            baggage: lookup(self.baggage, request_id),
            ..slot
        }
    }

    /// With `manager` and the slot `slot` under `key`.
    pub open spec fn with_slot(self, manager: ManagerView, key: SlotKeyView, slot: SlotView)
        -> LeaderView {
        LeaderView { manager: manager.with_slot(key, slot), ..self }
    }
}

/// What the engine learns when it asks how many tokens of a request are cached.
#[derive(Debug)]
pub enum MatchPoll {
    /// The number of tokens, or nothing where the engine has to ask again later; and whether
    /// they are loaded in the background.
    Tokens { num_tokens: Option<usize>, is_async: bool },
    /// A pool or the registry has to be asked first.
    Lookup(LookupRequest),
    /// The host pool has to be asked for the blocks of a prefetch that ended.
    Resolve { operation_id: OperationId, sequence_hashes: Vec<SequenceHash> },
}

/// The mathematical value of a [`MatchPoll`].
#[verifier::ext_equal]
pub enum PollView {
    Tokens { num_tokens: Option<usize>, is_async: bool },
    Lookup(LookupView),
    Resolve { operation_id: OperationId, sequence_hashes: Seq<SequenceHash> },
}

impl View for MatchPoll {
    type V = PollView;

    open spec fn view(&self) -> PollView {
        match self {
            MatchPoll::Tokens { num_tokens, is_async } => PollView::Tokens {
                num_tokens: *num_tokens,
                is_async: *is_async,
            },
            MatchPoll::Lookup(request) => PollView::Lookup(request@),
            MatchPoll::Resolve { operation_id, sequence_hashes } => PollView::Resolve {
                operation_id: *operation_id,
                sequence_hashes: sequence_hashes@,
            },
        }
    }
}

/// The view of the outcome of a poll.
pub open spec fn poll_view(outcome: Result<MatchPoll, String>) -> Result<PollView, Seq<char>> {
    match outcome {
        Ok(poll) => Ok(poll@),
        Err(message) => Err(message@),
    }
}

/// No cached tokens.
pub open spec fn no_tokens() -> PollView {
    PollView::Tokens { num_tokens: Some(0), is_async: false }
}

/// Ask again later.
pub open spec fn ask_later() -> PollView {
    PollView::Tokens { num_tokens: None, is_async: false }
}

/// A slot after an event that its manager carries out.
pub open spec fn apply_to(
    manager: ManagerView,
    slot: SlotView,
    event: EventView<BlockId, BlockId>,
    ctx: SlotContext,
    draws: Seq<Draw>,
) -> (SlotView, ManagerView, Result<Seq<ResultView>, Seq<char>>) {
    let out = effect_executor::settle(slot, event, ctx, manager.effects, draws);
    (out.0, ManagerView { effects: out.1, ..manager }, out.2)
}

/// The answer `poll` after an event, unless its effects failed.
pub open spec fn answered(
    out: (SlotView, ManagerView, Result<Seq<ResultView>, Seq<char>>),
    poll: PollView,
) -> (SlotView, ManagerView, Result<PollView, Seq<char>>) {
    (
        out.0,
        out.1,
        match out.2 {
            Ok(results) => Ok(poll),
            Err(message) => Err(message),
        },
    )
}

/// What a poll finds by the phase of the slot. `overdue` says whether the prefetch or the onboard
/// of the slot takes too long.
pub open spec fn poll_phase(
    slot: SlotView,
    manager: ManagerView,
    ctx: SlotContext,
    overdue: bool,
    draws: Seq<Draw>,
) -> (SlotView, ManagerView, Result<PollView, Seq<char>>) {
    match slot.phase {
        PhaseView::AwaitingLookup => (slot, manager, Ok(ask_later())),
        PhaseView::LookingUp { .. } => (slot, manager, Ok(ask_later())),
        PhaseView::Prefetching { prefetch, .. } => {
            let id = prefetch.operation_id;
            match manager.prefetch_outcome(id) {
                Some(true) => (
                    slot,
                    manager.outcome_taken(id),
                    Ok(
                        PollView::Resolve {
                            operation_id: id,
                            sequence_hashes: prefetch.sequence_hashes,
                        },
                    ),
                ),
                Some(false) => answered(
                    apply_to(
                        manager.outcome_taken(id),
                        slot,
                        EventView::PrefetchFailed,
                        ctx,
                        draws,
                    ),
                    ask_later(),
                ),
                None => if overdue {
                    answered(
                        apply_to(manager, slot, EventView::PrefetchTimeout, ctx, draws),
                        ask_later(),
                    )
                } else {
                    (slot, manager, Ok(ask_later()))
                },
            }
        },
        PhaseView::OnboardReady { num_external_tokens, disclosure, .. } => {
            let next = slot_machine::step(
                slot.phase,
                EventView::PollMatchReport,
                ctx,
                draws.last().prefetch_id,
                draws.last().now,
            );
            (
                slot.in_phase(next.0),
                manager,
                Ok(
                    if disclosure == slot_machine::DisclosureState::Pending {
                        PollView::Tokens { num_tokens: Some(num_external_tokens), is_async: true }
                    } else {
                        ask_later()
                    },
                ),
            )
        },
        PhaseView::Onboarding { .. } => if signals::loads_done(
            manager.effects.signals,
            slot.request_id,
        ) == Some(true) {
            // The slot learns that its transfers are over.
            (
                slot.in_phase(
                    slot_machine::step(
                        slot.phase,
                        EventView::TransferCompleted { operation_id: NIL_OPERATION_ID },
                        ctx,
                        draws.last().prefetch_id,
                        draws.last().now,
                    ).0,
                ),
                manager,
                Ok(no_tokens()),
            )
        } else if overdue {
            answered(apply_to(manager, slot, EventView::Preempt, ctx, draws), no_tokens())
        } else {
            (slot, manager, Ok(no_tokens()))
        },
        _ => (slot, manager, Ok(no_tokens())),
    }
}

/// Since when the prefetch or the onboard of a slot runs, where one does.
pub open spec fn running_since(slot: SlotView) -> Option<std::time::Instant> {
    match slot.phase {
        PhaseView::Prefetching { prefetch, .. } => Some(prefetch.started_at),
        PhaseView::Onboarding { .. } => slot.onboarding_since,
        _ => None,
    }
}

/// Whether the prefetch or the onboard of a slot takes too long, where the clock shows that it
/// has run for `elapsed` nanoseconds. A slot in which neither runs is never late.
pub open spec fn overdue_after(slot: SlotView, elapsed: u128, timeout_secs: u64) -> bool {
    running_since(slot) is Some && elapsed > timeout_secs * 1_000_000_000
}

/// What a poll finds after an event of a lookup: nothing where nothing matched, another lookup
/// where one is due, and else what the phase says. By the clock the transfer of the slot has run
/// for `elapsed` nanoseconds.
pub open spec fn poll_results(
    out: (SlotView, ManagerView, Result<Seq<ResultView>, Seq<char>>),
    ctx: SlotContext,
    elapsed: u128,
    timeout_secs: u64,
    draws: Seq<Draw>,
) -> (SlotView, ManagerView, Result<PollView, Seq<char>>) {
    match out.2 {
        Err(message) => (out.0, out.1, Err(message)),
        Ok(results) => if results.len() > 0 && results.last() is MatchNone {
            (out.0, out.1, Ok(no_tokens()))
        } else if results.len() > 0 && results.last() is Lookup {
            (out.0, out.1, Ok(PollView::Lookup(results.last()->Lookup_0)))
        } else {
            poll_phase(
                out.0,
                out.1,
                ctx,
                overdue_after(out.0, elapsed, timeout_secs),
                draws,
            )
        },
    }
}

/// What a poll finds for a slot with `num_computed_tokens` tokens on the device, where by the
/// clock the transfer of the slot has run for `elapsed` nanoseconds.
pub open spec fn poll_slot(
    slot: SlotView,
    manager: ManagerView,
    ctx: SlotContext,
    iteration: u64,
    num_computed_tokens: usize,
    elapsed: u128,
    timeout_secs: u64,
    acquire: Seq<Draw>,
    draws: Seq<Draw>,
) -> (SlotView, ManagerView, Result<PollView, Seq<char>>) {
    match slot.phase {
        // A skipped request goes on where it was.
        PhaseView::SkippedPrefill => (
            slot.in_phase(PhaseView::Prefilling { iteration_first_scheduled: iteration }),
            manager,
            Ok(no_tokens()),
        ),
        PhaseView::SkippedDecode { .. } => (
            slot.in_phase(
                PhaseView::Decoding {
                    ops: TrackerView::empty(),
                    iteration_first_scheduled: iteration,
                },
            ),
            manager,
            Ok(no_tokens()),
        ),
        phase => if slot.sequence.tokens.len() - num_computed_tokens < manager.block_size {
            (slot, manager, Ok(no_tokens()))
        } else {
            match phase {
                // A failed prefetch is not tried again: the request is computed.
                PhaseView::Preempted { recovered_from_failure: true } => (
                    slot,
                    manager,
                    Ok(no_tokens()),
                ),
                PhaseView::Initialized | PhaseView::Preempted { .. } => poll_results(
                    apply_to(
                        manager,
                        slot,
                        EventView::AcquireMatches { num_computed_tokens },
                        ctx,
                        acquire,
                    ),
                    ctx,
                    elapsed,
                    timeout_secs,
                    draws,
                ),
                _ => poll_phase(
                    slot,
                    manager,
                    ctx,
                    overdue_after(slot, elapsed, timeout_secs),
                    draws,
                ),
            }
        },
    }
}

impl LeaderView {
    /// The leader after something happened to the slot of a request, where there is one.
    pub open spec fn on_slot(
        self,
        request_id: Seq<char>,
        out: (SlotView, ManagerView, Result<PollView, Seq<char>>),
    ) -> (LeaderView, Result<PollView, Seq<char>>) {
        match self.find(request_id) {
            Err(message) => (self, Err(message)),
            Ok((key, slot)) => (self.with_slot(out.1, key, out.0), out.2),
        }
    }

    /// What a poll of a request does and finds, where by the clock its transfer has run for
    /// `elapsed` nanoseconds.
    pub open spec fn polled(
        self,
        request_id: Seq<char>,
        num_computed_tokens: usize,
        elapsed: u128,
        acquire: Seq<Draw>,
        draws: Seq<Draw>,
    ) -> (LeaderView, Result<PollView, Seq<char>>) {
        self.on_slot(
            request_id,
            poll_slot(
                self.traced(request_id, (self.find(request_id)->Ok_0).1),
                self.manager,
                self.context(),
                self.iteration,
                num_computed_tokens,
                elapsed,
                self.timeout_secs,
                acquire,
                draws,
            ),
        )
    }

    /// What happens when a lookup of a request is answered with `event`. The slot is `slot` by
    /// then.
    pub open spec fn lookup_answered(
        self,
        request_id: Seq<char>,
        slot: SlotView,
        event: EventView<BlockId, BlockId>,
        elapsed: u128,
        acquire: Seq<Draw>,
        draws: Seq<Draw>,
    ) -> (LeaderView, Result<PollView, Seq<char>>) {
        self.on_slot(
            request_id,
            poll_results(
                apply_to(self.manager, slot, event, self.context(), acquire),
                self.context(),
                elapsed,
                self.timeout_secs,
                draws,
            ),
        )
    }

    /// What happens when the blocks of a prefetch are looked up in the host pool: they are
    /// staged, or, where none is there yet, the prefetch is asked for again.
    pub open spec fn resolved(
        self,
        request_id: Seq<char>,
        operation_id: OperationId,
        blocks: Seq<BlockId>,
        draws: Seq<Draw>,
    ) -> (LeaderView, Result<PollView, Seq<char>>) {
        let slot = (self.find(request_id)->Ok_0).1;
        self.on_slot(
            request_id,
            if blocks.len() > 0 {
                answered(
                    apply_to(
                        self.manager,
                        slot,
                        EventView::PrefetchReady { blocks },
                        self.context(),
                        draws,
                    ),
                    ask_later(),
                )
            } else {
                (
                    slot,
                    ManagerView {
                        prefetch_completed: self.manager.prefetch_completed.insert(operation_id),
                        ..self.manager
                    },
                    Ok(ask_later()),
                )
            },
        )
    }
}

/// Reads with `std::time::Instant::elapsed` how long ago an instant was, in nanoseconds; nothing
/// is claimed of the reading.
#[verifier::external_body]
fn elapsed_nanos(since: &std::time::Instant) -> (nanos: u128) {
    since.elapsed().as_nanos()
}

/// Whether `elapsed` nanoseconds are more than `timeout_secs` seconds.
pub fn is_overdue(elapsed: u128, timeout_secs: u64) -> (overdue: bool)
    ensures
        overdue == (elapsed > timeout_secs * 1_000_000_000),
{
    elapsed > timeout_secs as u128 * 1_000_000_000u128
}

/// Since when the prefetch or the onboard of a slot runs, where one does.
pub fn slot_running_since(slot: &VllmConnectorSlot) -> (since: Option<&std::time::Instant>)
    ensures
        running_since(slot@) == match since {
            Some(since) => Some(*since),
            None => None,
        },
{
    match &slot.phase {
        RequestPhase::Prefetching { prefetch, .. } => Some(&prefetch.started_at),
        RequestPhase::Onboarding { .. } => match &slot.onboarding_since {
            Some(since) => Some(since),
            None => None,
        },
        _ => None,
    }
}

/// Whether the prefetch or the onboard of a slot takes too long, by the clock.
fn slot_overdue(slot: &VllmConnectorSlot, timeout_secs: u64) -> (overdue: bool)
    ensures
        exists|elapsed: u128| overdue == #[trigger] overdue_after(slot@, elapsed, timeout_secs),
{
    match slot_running_since(slot) {
        Some(since) => {
            let elapsed: u128 = elapsed_nanos(since);
            let overdue: bool = is_overdue(elapsed, timeout_secs);
            assert(overdue == overdue_after(slot@, elapsed, timeout_secs));
            overdue
        },
        None => {
            assert(!overdue_after(slot@, 0, timeout_secs));
            false
        },
    }
}

/// Applies an event to a slot of `manager`.
fn apply_event(
    manager: &mut ConnectorSlotManager,
    slot: &mut VllmConnectorSlot,
    event: VllmSlotEvent,
    ctx: &SlotContext,
) -> (outcome: Result<Vec<EffectResult>, String>)
    requires
        old(slot)@.wf(),
    ensures
        exists|draws: Seq<Draw>|
            effect_executor::enough_draws(draws) && (
                final(slot)@,
                final(manager)@,
                effect_executor::outcomes_view(outcome),
            ) == #[trigger] apply_to(old(manager)@, old(slot)@, event@, *ctx, draws),
        final(slot)@.wf(),
        final(slot)@.request_id == old(slot)@.request_id,
        final(slot)@.block_size == old(slot)@.block_size,
{
    let ghost before = manager@;
    let ghost start = slot@;
    let ghost view = event@;
    let outcome = apply_and_execute(slot, event, ctx, &mut manager.effects);
    proof {
        let draws = choose|draws: Seq<Draw>|
            effect_executor::enough_draws(draws) && (
                slot@,
                manager.effects@,
                effect_executor::outcomes_view(outcome),
            ) == #[trigger] effect_executor::settle(start, view, *ctx, before.effects, draws);
        assert(manager@ =~= (ManagerView { effects: manager.effects@, ..before }));
        assert(apply_to(before, start, view, *ctx, draws) == (
            slot@,
            manager@,
            effect_executor::outcomes_view(outcome),
        ));
        effect_executor::settling_keeps_identity(start, view, *ctx, before.effects, draws);
    }
    outcome
}

/// Applies an event that starts nothing to a slot.
pub(crate) fn apply_quietly(slot: &mut VllmConnectorSlot, event: VllmSlotEvent, ctx: &SlotContext)
    requires
        !(event@ is RemoteLookupCompleted),
        !(event@ is AllocCompleted),
    ensures
        forall|id: OperationId, now: std::time::Instant|
            final(slot)@ == old(slot)@.in_phase(
                (#[trigger] slot_machine::step(old(slot)@.phase, event@, *ctx, id, now)).0,
            ),
{
    let _effects = slot.advance(event, ctx, new_operation_id(), slot_machine::instant_now());
}

/// Looks at the phase of a slot for a poll. `overdue` says whether its prefetch or its onboard
/// takes too long.
pub fn poll_by_phase(
    slot: &mut VllmConnectorSlot,
    manager: &mut ConnectorSlotManager,
    ctx: &SlotContext,
    overdue: bool,
) -> (outcome: Result<MatchPoll, String>)
    requires
        old(slot)@.wf(),
    ensures
        final(slot)@.wf(),
        final(slot)@.request_id == old(slot)@.request_id,
        final(slot)@.block_size == old(slot)@.block_size,
        exists|draws: Seq<Draw>|
            effect_executor::enough_draws(draws) && (
                final(slot)@,
                final(manager)@,
                poll_view(outcome),
            ) == #[trigger] poll_phase(old(slot)@, old(manager)@, *ctx, overdue, draws),
{
    let ghost start = slot@;
    let ghost before = manager@;
    let some: Draw = effect_executor::new_draw();
    let ghost any = seq![some, some, some];
    assert(effect_executor::enough_draws(any));
    let poll: Option<(OperationId, Vec<SequenceHash>)> = match &slot.phase {
        RequestPhase::Prefetching { prefetch, .. } => Some(
            (prefetch.operation_id, copy_hashes(prefetch.sequence_hashes.as_slice())),
        ),
        _ => None,
    };
    match poll {
        Some((operation_id, sequence_hashes)) => {
            match manager.check_prefetch_outcome(operation_id) {
                Some(true) => {
                    assert(poll_phase(start, before, *ctx, overdue, any).1 == manager@);
                    return Ok(MatchPoll::Resolve { operation_id, sequence_hashes });
                },
                Some(false) => {
                    let ghost taken = manager@;
                    let outcome = apply_event(manager, slot, SlotEvent::PrefetchFailed, ctx);
                    proof {
                        let draws = choose|draws: Seq<Draw>|
                            effect_executor::enough_draws(draws) && (
                                slot@,
                                manager@,
                                effect_executor::outcomes_view(outcome),
                            ) == #[trigger] apply_to(
                                taken,
                                start,
                                EventView::PrefetchFailed,
                                *ctx,
                                draws,
                            );
                        let out = poll_phase(start, before, *ctx, overdue, draws);
                        assert(slot@ == out.0);
                    }
                    return match outcome {
                        Ok(_results) => Ok(MatchPoll::Tokens { num_tokens: None, is_async: false }),
                        Err(message) => Err(message),
                    };
                },
                None => {
                    if overdue {
                        let outcome = apply_event(manager, slot, SlotEvent::PrefetchTimeout, ctx);
                        proof {
                            let draws = choose|draws: Seq<Draw>|
                                effect_executor::enough_draws(draws) && (
                                    slot@,
                                    manager@,
                                    effect_executor::outcomes_view(outcome),
                                ) == #[trigger] apply_to(
                                    before,
                                    start,
                                    EventView::PrefetchTimeout,
                                    *ctx,
                                    draws,
                                );
                            let out = poll_phase(start, before, *ctx, overdue, draws);
                            assert(slot@ == out.0);
                        }
                        return match outcome {
                            Ok(_results) => Ok(
                                MatchPoll::Tokens { num_tokens: None, is_async: false },
                            ),
                            Err(message) => Err(message),
                        };
                    }
                    assert(poll_phase(start, before, *ctx, overdue, any).1 == manager@);
                    return Ok(MatchPoll::Tokens { num_tokens: None, is_async: false });
                },
            }
        },
        None => {},
    }
    let report: Option<Option<usize>> = match &slot.phase {
        RequestPhase::OnboardReady { num_external_tokens, disclosure, .. } => match disclosure {
            slot_machine::DisclosureState::Pending => Some(Some(*num_external_tokens)),
            _ => Some(None),
        },
        _ => None,
    };
    match report {
        Some(num_tokens) => {
            apply_quietly(slot, SlotEvent::PollMatchReport, ctx);
            proof {
                let next = slot_machine::step(
                    start.phase,
                    EventView::PollMatchReport,
                    *ctx,
                    any.last().prefetch_id,
                    any.last().now,
                );
                assert(slot@ == start.in_phase(next.0));
                assert(poll_phase(start, before, *ctx, overdue, any).0 == slot@);
            }
            return Ok(MatchPoll::Tokens { num_tokens, is_async: num_tokens.is_some() });
        },
        None => {},
    }
    let waiting: bool = match &slot.phase {
        RequestPhase::AwaitingLookup => true,
        RequestPhase::LookingUp { .. } => true,
        _ => false,
    };
    if waiting {
        assert(poll_phase(start, before, *ctx, overdue, any).0 == slot@);
        return Ok(MatchPoll::Tokens { num_tokens: None, is_async: false });
    }
    let onboarding: bool = match &slot.phase {
        RequestPhase::Onboarding { .. } => true,
        _ => false,
    };
    if onboarding {
        if manager.is_loads_done(&slot.request_id) == Some(true) {
            apply_quietly(
                slot,
                SlotEvent::TransferCompleted { operation_id: NIL_OPERATION_ID },
                ctx,
            );
            proof {
                let next = slot_machine::step(
                    start.phase,
                    EventView::TransferCompleted { operation_id: NIL_OPERATION_ID },
                    *ctx,
                    any.last().prefetch_id,
                    any.last().now,
                );
                assert(slot@ == start.in_phase(next.0));
                assert(poll_phase(start, before, *ctx, overdue, any).0 == slot@);
            }
            return Ok(MatchPoll::Tokens { num_tokens: Some(0), is_async: false });
        }
        if overdue {
            let outcome = apply_event(manager, slot, SlotEvent::Preempt, ctx);
            proof {
                let draws = choose|draws: Seq<Draw>|
                    effect_executor::enough_draws(draws) && (
                        slot@,
                        manager@,
                        effect_executor::outcomes_view(outcome),
                    ) == #[trigger] apply_to(before, start, EventView::Preempt, *ctx, draws);
                let out = poll_phase(start, before, *ctx, overdue, draws);
                assert(slot@ == out.0);
            }
            return match outcome {
                Ok(_results) => Ok(MatchPoll::Tokens { num_tokens: Some(0), is_async: false }),
                Err(message) => Err(message),
            };
        }
    }
    assert(poll_phase(start, before, *ctx, overdue, any).0 == slot@);
    Ok(MatchPoll::Tokens { num_tokens: Some(0), is_async: false })
}

/// Looks at what came of a lookup event.
fn poll_by_results(
    outcome: Result<Vec<EffectResult>, String>,
    slot: &mut VllmConnectorSlot,
    manager: &mut ConnectorSlotManager,
    ctx: &SlotContext,
    timeout_secs: u64,
) -> (poll: Result<MatchPoll, String>)
    requires
        old(slot)@.wf(),
    ensures
        final(slot)@.wf(),
        final(slot)@.request_id == old(slot)@.request_id,
        final(slot)@.block_size == old(slot)@.block_size,
        exists|elapsed: u128, draws: Seq<Draw>|
            effect_executor::enough_draws(draws) && (final(slot)@, final(manager)@, poll_view(poll))
                == #[trigger] poll_results(
                (old(slot)@, old(manager)@, effect_executor::outcomes_view(outcome)),
                *ctx,
                elapsed,
                timeout_secs,
                draws,
            ),
{
    let ghost start = slot@;
    let ghost before = manager@;
    let ghost out = (start, before, effect_executor::outcomes_view(outcome));
    let some: Draw = effect_executor::new_draw();
    let ghost any = seq![some, some, some];
    assert(effect_executor::enough_draws(any));
    let ghost plain = poll_results(out, *ctx, 0, timeout_secs, any);
    let results: Vec<EffectResult> = match outcome {
        Err(message) => {
            return Err(message);
        },
        Ok(results) => results,
    };
    let mut results: Vec<EffectResult> = results;
    let ghost views = effect_executor::result_views(results@);
    let last: Option<EffectResult> = results.pop();
    assert(last matches Some(result) ==> views.last() == result@);
    match last {
        Some(EffectResult::MatchNone) => Ok(
            MatchPoll::Tokens { num_tokens: Some(0), is_async: false },
        ),
        Some(EffectResult::Lookup(request)) => Ok(MatchPoll::Lookup(request)),
        _ => {
            let overdue: bool = slot_overdue(&*slot, timeout_secs);
            let poll = poll_by_phase(slot, manager, ctx, overdue);
            proof {
                let elapsed = choose|elapsed: u128|
                    overdue == #[trigger] overdue_after(start, elapsed, timeout_secs);
                let draws = choose|draws: Seq<Draw>|
                    effect_executor::enough_draws(draws) && (slot@, manager@, poll_view(poll))
                        == #[trigger] poll_phase(start, before, *ctx, overdue, draws);
                assert(poll_results(out, *ctx, elapsed, timeout_secs, draws) == poll_phase(
                    start,
                    before,
                    *ctx,
                    overdue,
                    draws,
                ));
            }
            poll
        },
    }
}

impl KvConnectorLeaderCore {
    /// A leader without requests.
    pub fn new(manager: ConnectorSlotManager, timeout_secs: u64) -> (leader: Self)
        requires
            manager@.wf(),
        ensures
            leader@.wf(),
            leader@ == (LeaderView {
                manager: manager@,
                timeout_secs,
                inflight: Set::empty(),
                onboarding: Set::empty(),
                finishing: Set::empty(),
                iteration: 0,
                traces: Map::empty(),
                baggage: Map::empty(),
                generations: Map::empty(),
                active: Map::empty(),
            }),
    {
        let leader = KvConnectorLeaderCore {
            manager,
            timeout_secs,
            inflight_requests: KeySet::new(),
            onboarding_slots: KeySet::new(),
            finishing_requests: KeySet::new(),
            iteration_counter: 0,
            request_traces: Table::new(),
            request_baggage: Table::new(),
            request_generations: Table::new(),
            active_slot_keys: Table::new(),
        };
        assert(leader@ =~= (LeaderView {
            manager: manager@,
            timeout_secs,
            inflight: Set::empty(),
            onboarding: Set::empty(),
            finishing: Set::empty(),
            iteration: 0,
            traces: Map::empty(),
            baggage: Map::empty(),
            generations: Map::empty(),
            active: Map::empty(),
        }));
        leader
    }

    /// The slots of the leader.
    pub fn slot_manager(&self) -> (manager: &ConnectorSlotManager)
        ensures
            *manager == self.manager,
    {
        &self.manager
    }

    /// The trace context of a request.
    pub fn request_traceparent(&self, request_id: &String) -> (traceparent: Option<&str>)
        ensures
            match traceparent {
                Some(text) => lookup(self@.traces, request_id@) == Some(text@),
                None => lookup(self@.traces, request_id@) is None,
            },
    {
        match self.request_traces.get(request_id) {
            Some(text) => Some(text.as_str()),
            None => None,
        }
    }

    /// Sets the trace context of a request.
    pub fn set_request_traceparent(&mut self, request_id: String, traceparent: String)
        ensures
            final(self)@ == (LeaderView {
                traces: old(self)@.traces.insert(request_id@, traceparent@),
                ..old(self)@
            }),
    {
        self.request_traces.insert(request_id, traceparent);
        assert(self@ =~= (LeaderView {
            traces: old(self)@.traces.insert(request_id@, traceparent@),
            ..old(self)@
        }));
    }

    /// Sets the baggage of a request.
    pub fn set_request_baggage(&mut self, request_id: String, baggage: String)
        ensures
            final(self)@ == (LeaderView {
                baggage: old(self)@.baggage.insert(request_id@, baggage@),
                ..old(self)@
            }),
    {
        self.request_baggage.insert(request_id, baggage);
        assert(self@ =~= (LeaderView {
            baggage: old(self)@.baggage.insert(request_id@, baggage@),
            ..old(self)@
        }));
    }

    /// The baggage of a request.
    pub fn request_baggage(&self, request_id: &String) -> (baggage: Option<&str>)
        ensures
            match baggage {
                Some(text) => lookup(self@.baggage, request_id@) == Some(text@),
                None => lookup(self@.baggage, request_id@) is None,
            },
    {
        match self.request_baggage.get(request_id) {
            Some(text) => Some(text.as_str()),
            None => None,
        }
    }

    pub(crate) fn active_slot_key(&self, request_id: &String) -> (key: Option<SlotKey>)
        ensures
            match key {
                Some(key) => lookup(self@.active, request_id@) == Some(key@),
                None => lookup(self@.active, request_id@) is None,
            },
    {
        match self.active_slot_keys.get(request_id) {
            Some(key) => Some(key.clone()),
            None => None,
        }
    }

    pub(crate) fn slot_context(&self) -> (ctx: SlotContext)
        ensures
            ctx == self@.context(),
    {
        SlotContext {
            block_size: self.manager.block_size,
            remote_enabled: self.manager.effects.has_remote,
            g4_xfer_fail_policy: G4FailPolicy::default(),
        }
    }

    /// Takes the slot of a request out, to work on it.
    pub(crate) fn open_slot(&mut self, request_id: &String) -> (opened: Result<
        (SlotKey, VllmConnectorSlot),
        String,
    >)
        requires
            old(self)@.wf(),
        ensures
            match opened {
                Ok((key, slot)) => {
                    &&& old(self)@.find(request_id@) == Ok::<(SlotKeyView, SlotView), Seq<char>>(
                        (key@, slot@),
                    )
                    &&& old(self)@.manager.fits(key@, slot@)
                    &&& key@.0 == request_id@
                    &&& final(self)@ == (LeaderView {
                        manager: ManagerView {
                            slots: old(self)@.manager.slots.remove(key@),
                            ..old(self)@.manager
                        },
                        ..old(self)@
                    })
                    &&& final(self)@.wf()
                },
                Err(message) => {
                    &&& old(self)@.find(request_id@) == Err::<(SlotKeyView, SlotView), Seq<char>>(
                        message@,
                    )
                    &&& final(self)@ == old(self)@
                },
            },
    {
        let key: SlotKey = match self.active_slot_key(request_id) {
            Some(key) => key,
            None => {
                let mut message: String = "missing active SlotKey for request ".to_string();
                message.append(request_id.as_str());
                return Err(message);
            },
        };
        match self.manager.take_slot(&key) {
            Ok(slot) => Ok((key, slot)),
            Err(_error) => {
                assert(self@.manager.slots =~= old(self)@.manager.slots);
                assert(self@ =~= old(self)@);
                Err("slot not found".to_string())
            },
        }
    }

    /// Puts a slot back.
    pub(crate) fn close_slot(&mut self, key: &SlotKey, slot: VllmConnectorSlot)
        requires
            old(self)@.wf(),
            old(self)@.manager.fits(key@, slot@),
        ensures
            final(self)@ == old(self)@.with_slot(old(self)@.manager, key@, slot@),
            final(self)@.wf(),
    {
        self.manager.put_slot(key, slot);
        assert(self@ =~= old(self)@.with_slot(old(self)@.manager, key@, slot@));
    }

    /// Gives a slot the trace context and the baggage of its request.
    pub(crate) fn trace(&self, request_id: &String, slot: &mut VllmConnectorSlot)
        ensures
            final(slot)@ == self@.traced(request_id@, old(slot)@),
    {
        let traceparent: Option<String> = match self.request_traces.get(request_id) {
            Some(text) => Some(text.clone()),
            None => None,
        };
        let baggage: Option<String> = match self.request_baggage.get(request_id) {
            Some(text) => Some(text.clone()),
            None => None,
        };
        slot.set_request_traceparent(traceparent);
        slot.set_request_baggage(baggage);
        assert(slot@ =~= self@.traced(request_id@, old(slot)@));
    }
}

impl KvConnectorLeaderCore {
    /// How many tokens of a request are cached beyond the `num_computed_tokens` that the device
    /// has.
    pub fn get_num_new_matched_tokens(
        &mut self,
        request_id: String,
        _request_num_tokens: usize,
        num_computed_tokens: usize,
    ) -> (outcome: Result<MatchPoll, String>)
        requires
            old(self)@.wf(),
            old(self)@.find(request_id@) matches Ok((key, slot)) ==> slot.is_skipped()
                || num_computed_tokens <= slot.sequence.tokens.len(),
        ensures
            final(self)@.wf(),
            exists|elapsed: u128, acquire: Seq<Draw>, draws: Seq<Draw>|
                effect_executor::enough_draws(acquire) && effect_executor::enough_draws(draws) && (
                    final(self)@,
                    poll_view(outcome),
                ) == #[trigger] old(self)@.polled(
                    request_id@,
                    num_computed_tokens,
                    elapsed,
                    acquire,
                    draws,
                ),
    {
        let ghost before = self@;
        let ctx: SlotContext = self.slot_context();
        let some: Draw = effect_executor::new_draw();
        let ghost any = seq![some, some, some];
        assert(effect_executor::enough_draws(any));
        let (key, slot) = match self.open_slot(&request_id) {
            Err(message) => {
                assert(before.polled(request_id@, num_computed_tokens, 0, any, any).0 == self@);
                return Err(message);
            },
            Ok(opened) => opened,
        };
        let mut slot: VllmConnectorSlot = slot;
        let ghost start = slot@;
        let ghost held = self@;
        self.trace(&request_id, &mut slot);
        let ghost traced = slot@;
        assert(traced == before.traced(request_id@, start));
        let outcome = Self::poll_open_slot(
            &mut self.manager,
            &mut slot,
            &ctx,
            self.iteration_counter,
            num_computed_tokens,
            self.timeout_secs,
        );
        let ghost done = slot@;
        let ghost served = self.manager@;
        assert(self@ =~= (LeaderView { manager: served, ..held }));
        self.close_slot(&key, slot);
        proof {
            let (elapsed, acquire, draws) = choose|
                elapsed: u128,
                acquire: Seq<Draw>,
                draws: Seq<Draw>,
            |
                effect_executor::enough_draws(acquire) && effect_executor::enough_draws(draws) && (
                    done,
                    served,
                    poll_view(outcome),
                ) == #[trigger] poll_slot(
                    traced,
                    held.manager,
                    ctx,
                    before.iteration,
                    num_computed_tokens,
                    elapsed,
                    before.timeout_secs,
                    acquire,
                    draws,
                );
            poll_ignores_slots(
                traced,
                held.manager,
                before.manager,
                ctx,
                before.iteration,
                num_computed_tokens,
                elapsed,
                before.timeout_secs,
                acquire,
                draws,
            );
            let out = before.polled(request_id@, num_computed_tokens, elapsed, acquire, draws);
            assert(self@.manager.slots =~= out.0.manager.slots);
            assert(self@ =~= out.0);
        }
        outcome
    }

    fn poll_open_slot(
        manager: &mut ConnectorSlotManager,
        slot: &mut VllmConnectorSlot,
        ctx: &SlotContext,
        iteration: u64,
        num_computed_tokens: usize,
        timeout_secs: u64,
    ) -> (outcome: Result<MatchPoll, String>)
        requires
            old(manager)@.wf(),
            old(slot)@.wf(),
            old(slot)@.is_skipped() || num_computed_tokens <= old(slot)@.sequence.tokens.len(),
        ensures
            final(manager)@.wf(),
            final(slot)@.wf(),
            final(slot)@.request_id == old(slot)@.request_id,
            final(slot)@.block_size == old(slot)@.block_size,
            exists|elapsed: u128, acquire: Seq<Draw>, draws: Seq<Draw>|
                effect_executor::enough_draws(acquire) && effect_executor::enough_draws(draws) && (
                    final(slot)@,
                    final(manager)@,
                    poll_view(outcome),
                ) == #[trigger] poll_slot(
                    old(slot)@,
                    old(manager)@,
                    *ctx,
                    iteration,
                    num_computed_tokens,
                    elapsed,
                    timeout_secs,
                    acquire,
                    draws,
                ),
    {
        let ghost start = slot@;
        let ghost before = manager@;
        let some: Draw = effect_executor::new_draw();
        let ghost any = seq![some, some, some];
        assert(effect_executor::enough_draws(any));
        let ghost plain = poll_slot(
            start,
            before,
            *ctx,
            iteration,
            num_computed_tokens,
            0,
            timeout_secs,
            any,
            any,
        );
        let state: SlotState = slot.state();
        if state == SlotState::SkippedPrefill {
            let _marked = slot.mark_as_prefilling(iteration);
            assert(slot@ == plain.0);
            return Ok(MatchPoll::Tokens { num_tokens: Some(0), is_async: false });
        }
        if state == SlotState::SkippedDecode {
            let _marked = slot.mark_as_decoding(iteration);
            assert(slot@ == plain.0);
            return Ok(MatchPoll::Tokens { num_tokens: Some(0), is_async: false });
        }
        if slot.sequence.total_tokens() - num_computed_tokens < manager.block_size {
            assert(slot@ == plain.0);
            return Ok(MatchPoll::Tokens { num_tokens: Some(0), is_async: false });
        }
        let acquire: Option<bool> = match &slot.phase {
            RequestPhase::Initialized => Some(true),
            RequestPhase::Preempted { recovered_from_failure } => Some(!*recovered_from_failure),
            _ => None,
        };
        match acquire {
            Some(false) => {
                assert(slot@ == plain.0);
                Ok(MatchPoll::Tokens { num_tokens: Some(0), is_async: false })
            },
            Some(true) => {
                let outcome = apply_event(
                    manager,
                    slot,
                    SlotEvent::AcquireMatches { num_computed_tokens },
                    ctx,
                );
                let ghost moved = (slot@, manager@, effect_executor::outcomes_view(outcome));
                let poll = poll_by_results(outcome, slot, manager, ctx, timeout_secs);
                proof {
                    let event = EventView::<BlockId, BlockId>::AcquireMatches {
                        num_computed_tokens,
                    };
                    let first = choose|draws: Seq<Draw>|
                        effect_executor::enough_draws(draws) && moved == #[trigger] apply_to(
                            before,
                            start,
                            event,
                            *ctx,
                            draws,
                        );
                    let (elapsed, draws) = choose|elapsed: u128, draws: Seq<Draw>|
                        effect_executor::enough_draws(draws) && (slot@, manager@, poll_view(poll))
                            == #[trigger] poll_results(moved, *ctx, elapsed, timeout_secs, draws);
                    let out = poll_slot(
                        start,
                        before,
                        *ctx,
                        iteration,
                        num_computed_tokens,
                        elapsed,
                        timeout_secs,
                        first,
                        draws,
                    );
                    assert(out == (slot@, manager@, poll_view(poll)));
                    poll_keeps_slots(
                        start,
                        before,
                        *ctx,
                        iteration,
                        num_computed_tokens,
                        elapsed,
                        timeout_secs,
                        first,
                        draws,
                    );
                }
                poll
            },
            None => {
                let overdue: bool = slot_overdue(&*slot, timeout_secs);
                let poll = poll_by_phase(slot, manager, ctx, overdue);
                proof {
                    let elapsed = choose|elapsed: u128|
                        overdue == #[trigger] overdue_after(start, elapsed, timeout_secs);
                    let draws = choose|draws: Seq<Draw>|
                        effect_executor::enough_draws(draws) && (slot@, manager@, poll_view(poll))
                            == #[trigger] poll_phase(start, before, *ctx, overdue, draws);
                    let out = poll_slot(
                        start,
                        before,
                        *ctx,
                        iteration,
                        num_computed_tokens,
                        elapsed,
                        timeout_secs,
                        any,
                        draws,
                    );
                    assert(out == (slot@, manager@, poll_view(poll)));
                    poll_keeps_slots(
                        start,
                        before,
                        *ctx,
                        iteration,
                        num_computed_tokens,
                        elapsed,
                        timeout_secs,
                        any,
                        draws,
                    );
                }
                poll
            },
        }
    }
}

/// A poll changes no slot but the one that is polled.
proof fn poll_keeps_slots(
    slot: SlotView,
    manager: ManagerView,
    ctx: SlotContext,
    iteration: u64,
    num_computed_tokens: usize,
    elapsed: u128,
    timeout_secs: u64,
    acquire: Seq<Draw>,
    draws: Seq<Draw>,
)
    ensures
        ({
            let out = poll_slot(
                slot,
                manager,
                ctx,
                iteration,
                num_computed_tokens,
                elapsed,
                timeout_secs,
                acquire,
                draws,
            );
            out.1.slots == manager.slots && out.1.block_size == manager.block_size
        }),
{
}

/// A poll of a slot does not look at the other slots.
proof fn poll_ignores_slots(
    slot: SlotView,
    held: ManagerView,
    manager: ManagerView,
    ctx: SlotContext,
    iteration: u64,
    num_computed_tokens: usize,
    elapsed: u128,
    timeout_secs: u64,
    acquire: Seq<Draw>,
    draws: Seq<Draw>,
)
    requires
        manager == (ManagerView { slots: manager.slots, ..held }),
    ensures
        ({
            let a = poll_slot(
                slot,
                held,
                ctx,
                iteration,
                num_computed_tokens,
                elapsed,
                timeout_secs,
                acquire,
                draws,
            );
            let b = poll_slot(
                slot,
                manager,
                ctx,
                iteration,
                num_computed_tokens,
                elapsed,
                timeout_secs,
                acquire,
                draws,
            );
            &&& b.0 == a.0
            &&& b.1 == (ManagerView { slots: manager.slots, ..a.1 })
            &&& b.2 == a.2
        }),
{
}

impl KvConnectorLeaderCore {
    /// Goes on with the poll of a request whose lookup is answered by `event`.
    fn answer_open_slot(
        &mut self,
        key: SlotKey,
        slot: VllmConnectorSlot,
        event: VllmSlotEvent,
    ) -> (outcome: Result<MatchPoll, String>)
        requires
            old(self)@.wf(),
            old(self)@.manager.fits(key@, slot@),
        ensures
            final(self)@.wf(),
            exists|elapsed: u128, acquire: Seq<Draw>, draws: Seq<Draw>|
                {
                    let out = #[trigger] poll_results(
                        apply_to(
                            old(self)@.manager,
                            slot@,
                            event@,
                            old(self)@.context(),
                            acquire,
                        ),
                        old(self)@.context(),
                        elapsed,
                        old(self)@.timeout_secs,
                        draws,
                    );
                    &&& effect_executor::enough_draws(acquire)
                    &&& effect_executor::enough_draws(draws)
                    &&& final(self)@ == old(self)@.with_slot(out.1, key@, out.0)
                    &&& poll_view(outcome) == out.2
                },
    {
        let ghost before = self@;
        let ghost start = slot@;
        let ghost view = event@;
        let ctx: SlotContext = self.slot_context();
        let mut slot: VllmConnectorSlot = slot;
        let applied = apply_event(&mut self.manager, &mut slot, event, &ctx);
        let ghost moved = (slot@, self.manager@, effect_executor::outcomes_view(applied));
        let outcome = poll_by_results(
            applied,
            &mut slot,
            &mut self.manager,
            &ctx,
            self.timeout_secs,
        );
        let ghost done = slot@;
        let ghost served = self.manager@;
        proof {
            let acquire = choose|acquire: Seq<Draw>|
                effect_executor::enough_draws(acquire) && moved == #[trigger] apply_to(
                    before.manager,
                    start,
                    view,
                    ctx,
                    acquire,
                );
            let (elapsed, draws) = choose|elapsed: u128, draws: Seq<Draw>|
                effect_executor::enough_draws(draws) && (done, served, poll_view(outcome))
                    == #[trigger] poll_results(moved, ctx, elapsed, before.timeout_secs, draws);
            results_keep_slots(
                before.manager,
                start,
                view,
                ctx,
                acquire,
                elapsed,
                before.timeout_secs,
                draws,
            );
            assert(self@ =~= (LeaderView { manager: served, ..before }));
            assert(served.slots == before.manager.slots);
            let out = poll_results(
                apply_to(before.manager, start, view, ctx, acquire),
                ctx,
                elapsed,
                before.timeout_secs,
                draws,
            );
            assert(out == (done, served, poll_view(outcome)));
        }
        self.close_slot(&key, slot);
        outcome
    }

    /// Goes on with a poll once the pools have answered: the host pool has `host_blocks` for the
    /// first of `sequence_hashes`, and the disk pool has `disk_blocks` for the next.
    pub fn local_lookup_answered(
        &mut self,
        request_id: &String,
        sequence_hashes: &[SequenceHash],
        host_blocks: Vec<BlockId>,
        disk_blocks: Vec<BlockId>,
    ) -> (outcome: Result<MatchPoll, String>)
        requires
            old(self)@.wf(),
            host_blocks@.len() + disk_blocks@.len() <= sequence_hashes@.len(),
        ensures
            final(self)@.wf(),
            exists|elapsed: u128, acquire: Seq<Draw>, draws: Seq<Draw>|
                effect_executor::enough_draws(acquire) && effect_executor::enough_draws(draws) && (
                    final(self)@,
                    poll_view(outcome),
                ) == #[trigger] old(self)@.lookup_answered(
                    request_id@,
                    looked_up(
                        (old(self)@.find(request_id@)->Ok_0).1,
                        sequence_hashes@.len() as usize,
                    ),
                    local_matches(sequence_hashes@, host_blocks@, disk_blocks@),
                    elapsed,
                    acquire,
                    draws,
                ),
    {
        let ghost before = self@;
        let some: Draw = effect_executor::new_draw();
        let ghost any = seq![some, some, some];
        assert(effect_executor::enough_draws(any));
        let ghost event = local_matches(sequence_hashes@, host_blocks@, disk_blocks@);
        let ghost found = looked_up(
            (before.find(request_id@)->Ok_0).1,
            sequence_hashes@.len() as usize,
        );
        match self.open_slot(request_id) {
            Err(message) => {
                assert(before.lookup_answered(request_id@, found, event, 0, any, any).0
                    == self@);
                Err(message)
            },
            Ok((key, slot)) => {
                let mut slot: VllmConnectorSlot = slot;
                let ghost held = self@;
                let view = complete_local_lookup(
                    &mut slot,
                    sequence_hashes,
                    host_blocks,
                    disk_blocks,
                );
                assert(slot@ == found);
                let outcome = self.answer_open_slot(key, slot, view);
                proof {
                    answered_ignores_slots(before, held, key@, request_id@, found, event);
                }
                outcome
            },
        }
    }

    /// Goes on with a poll once the registry has answered: every worker has `matched`.
    pub fn remote_lookup_answered(&mut self, request_id: &String, matched: Vec<SequenceHash>) -> (
    outcome: Result<MatchPoll, String>)
        requires
            old(self)@.wf(),
        ensures
            final(self)@.wf(),
            exists|elapsed: u128, acquire: Seq<Draw>, draws: Seq<Draw>|
                effect_executor::enough_draws(acquire) && effect_executor::enough_draws(draws) && (
                    final(self)@,
                    poll_view(outcome),
                ) == #[trigger] old(self)@.lookup_answered(
                    request_id@,
                    (old(self)@.find(request_id@)->Ok_0).1,
                    remote_matches(matched@),
                    elapsed,
                    acquire,
                    draws,
                ),
    {
        let ghost before = self@;
        let some: Draw = effect_executor::new_draw();
        let ghost any = seq![some, some, some];
        assert(effect_executor::enough_draws(any));
        let ghost event = remote_matches(matched@);
        let ghost found = (before.find(request_id@)->Ok_0).1;
        match self.open_slot(request_id) {
            Err(message) => {
                assert(before.lookup_answered(request_id@, found, event, 0, any, any).0
                    == self@);
                Err(message)
            },
            Ok((key, slot)) => {
                let ghost held = self@;
                let view = complete_remote_lookup(matched);
                let outcome = self.answer_open_slot(key, slot, view);
                proof {
                    answered_ignores_slots(before, held, key@, request_id@, found, event);
                }
                outcome
            },
        }
    }

    /// Goes on with a poll once the host pool has been asked for the blocks of a prefetch.
    pub fn prefetch_resolved(
        &mut self,
        request_id: &String,
        operation_id: OperationId,
        blocks: Vec<BlockId>,
    ) -> (outcome: Result<MatchPoll, String>)
        requires
            old(self)@.wf(),
        ensures
            final(self)@.wf(),
            exists|draws: Seq<Draw>|
                effect_executor::enough_draws(draws) && (final(self)@, poll_view(outcome))
                    == #[trigger] old(self)@.resolved(request_id@, operation_id, blocks@, draws),
    {
        let ghost before = self@;
        let ghost ids = blocks@;
        let some: Draw = effect_executor::new_draw();
        let ghost any = seq![some, some, some];
        assert(effect_executor::enough_draws(any));
        let (key, slot) = match self.open_slot(request_id) {
            Err(message) => {
                assert(before.resolved(request_id@, operation_id, ids, any).0 == self@);
                return Err(message);
            },
            Ok(opened) => opened,
        };
        let ghost held = self@;
        let ghost start = slot@;
        if blocks.len() == 0 {
            self.manager.prefetch_completed.insert(operation_id);
            self.close_slot(&key, slot);
            proof {
                let out = before.resolved(request_id@, operation_id, ids, any);
                assert(self@.manager.slots =~= out.0.manager.slots);
                assert(self@ =~= out.0);
            }
            return Ok(MatchPoll::Tokens { num_tokens: None, is_async: false });
        }
        let ctx: SlotContext = self.slot_context();
        let mut slot: VllmConnectorSlot = slot;
        let applied = apply_event(
            &mut self.manager,
            &mut slot,
            SlotEvent::PrefetchReady { blocks },
            &ctx,
        );
        let ghost done = slot@;
        let ghost served = self.manager@;
        assert(self@ =~= (LeaderView { manager: served, ..held }));
        self.close_slot(&key, slot);
        proof {
            let event = EventView::<BlockId, BlockId>::PrefetchReady { blocks: ids };
            let draws = choose|draws: Seq<Draw>|
                effect_executor::enough_draws(draws) && (
                    done,
                    served,
                    effect_executor::outcomes_view(applied),
                ) == #[trigger] apply_to(held.manager, start, event, ctx, draws);
            let out = before.resolved(request_id@, operation_id, ids, draws);
            assert(apply_to(before.manager, start, event, ctx, draws).0 == done);
            assert(self@.manager.slots =~= out.0.manager.slots);
            assert(self@ =~= out.0);
        }
        match applied {
            Ok(_results) => Ok(MatchPoll::Tokens { num_tokens: None, is_async: false }),
            Err(message) => Err(message),
        }
    }
}

/// A slot whose blocks were looked up in the local pools, `total` of them.
pub open spec fn looked_up(slot: SlotView, total: usize) -> SlotView {
    SlotView { performed_cache_lookup: true, total_blocks_queried: total, ..slot }
}

/// The event of a lookup in the local pools.
pub open spec fn local_matches(
    sequence_hashes: Seq<SequenceHash>,
    host_blocks: Seq<BlockId>,
    disk_blocks: Seq<BlockId>,
) -> EventView<BlockId, BlockId> {
    EventView::LocalLookupCompleted {
        host_blocks,
        disk_blocks,
        remote_candidates: sequence_hashes.subrange(
            (host_blocks.len() + disk_blocks.len()) as int,
            sequence_hashes.len() as int,
        ),
    }
}

/// The event of a lookup in the registry.
pub open spec fn remote_matches(matched: Seq<SequenceHash>) -> EventView<BlockId, BlockId> {
    if matched.len() == 0 {
        EventView::RemoteLookupClosed
    } else {
        EventView::RemoteLookupCompleted {
            matches: matched.map_values(|hash: SequenceHash| (hash, hash)),
        }
    }
}

/// The answer to a lookup changes no slot but the one that asked.
proof fn results_keep_slots(
    manager: ManagerView,
    slot: SlotView,
    event: EventView<BlockId, BlockId>,
    ctx: SlotContext,
    acquire: Seq<Draw>,
    elapsed: u128,
    timeout_secs: u64,
    draws: Seq<Draw>,
)
    ensures
        ({
            let out = poll_results(
                apply_to(manager, slot, event, ctx, acquire),
                ctx,
                elapsed,
                timeout_secs,
                draws,
            );
            out.1.slots == manager.slots && out.1.block_size == manager.block_size
        }),
{
}

/// The answer to a lookup does not depend on the other slots.
proof fn answered_ignores_slots(
    before: LeaderView,
    held: LeaderView,
    key: SlotKeyView,
    request_id: Seq<char>,
    slot: SlotView,
    event: EventView<BlockId, BlockId>,
)
    requires
        before.find(request_id) is Ok,
        (before.find(request_id)->Ok_0).0 == key,
        held == (LeaderView {
            manager: ManagerView {
                slots: before.manager.slots.remove(key),
                ..before.manager
            },
            ..before
        }),
    ensures
        forall|acquire: Seq<Draw>, elapsed: u128, draws: Seq<Draw>|
            {
                let out = #[trigger] poll_results(
                    apply_to(held.manager, slot, event, held.context(), acquire),
                    held.context(),
                    elapsed,
                    before.timeout_secs,
                    draws,
                );
                before.lookup_answered(request_id, slot, event, elapsed, acquire, draws) == (
                    held.with_slot(out.1, key, out.0),
                    out.2,
                )
            },
{
    assert forall|acquire: Seq<Draw>, elapsed: u128, draws: Seq<Draw>|
        {
            let out = #[trigger] poll_results(
                apply_to(held.manager, slot, event, held.context(), acquire),
                held.context(),
                elapsed,
                before.timeout_secs,
                draws,
            );
            before.lookup_answered(request_id, slot, event, elapsed, acquire, draws) == (
                held.with_slot(out.1, key, out.0),
                out.2,
            )
        } by {
        let ctx = before.context();
        let a = poll_results(
            apply_to(held.manager, slot, event, ctx, acquire),
            ctx,
            elapsed,
            before.timeout_secs,
            draws,
        );
        let b = poll_results(
            apply_to(before.manager, slot, event, ctx, acquire),
            ctx,
            elapsed,
            before.timeout_secs,
            draws,
        );
        assert(b.0 == a.0);
        assert(b.2 == a.2);
        assert(b.1 =~= (ManagerView { slots: before.manager.slots, ..a.1 }));
        assert(a.1.slots == held.manager.slots);
        assert(before.manager.slots.remove(key).insert(key, a.0) =~= before.manager.slots.insert(
            key,
            a.0,
        ));
    }
}

/// The number of blocks that hold `tokens` tokens.
pub open spec fn blocks_for(tokens: usize, block_size: usize) -> int {
    if tokens as int % block_size as int == 0 {
        tokens as int / block_size as int
    } else {
        tokens as int / block_size as int + 1
    }
}

/// The number of tokens that `blocks` blocks hold besides `staged` tokens; it stops at
/// `usize::MAX`.
pub open spec fn remaining_tokens(blocks: nat, block_size: usize, staged: usize) -> usize {
    let all = slot_machine::tokens_in(blocks, block_size);
    if all >= staged {
        (all - staged) as usize
    } else {
        0
    }
}

/// The error of blocks for external tokens that are not staged.
pub open spec fn not_staged(slot: SlotView) -> Seq<char> {
    "update_state_after_alloc: external tokens but slot not in OnboardReady phase (phase="@
        + slot.phase.slot_state().name_view() + ") for request "@ + slot.request_id
}

/// What happens to a slot whose staged tokens are to be loaded into `block_ids`: whether the
/// onboard starts, or the request is preempted because the blocks are too few.
pub open spec fn start_onboard(
    slot: SlotView,
    manager: ManagerView,
    ctx: SlotContext,
    block_ids: Seq<BlockId>,
    draws: Seq<Draw>,
    now: std::time::Instant,
) -> (SlotView, ManagerView, Result<bool, Seq<char>>) {
    match slot.phase {
        PhaseView::OnboardReady { num_external_tokens, .. } => if (block_ids.len() as int)
            < blocks_for(num_external_tokens, manager.block_size) {
            let out = apply_to(manager, slot, EventView::Preempt, ctx, draws);
            (
                out.0,
                out.1,
                match out.2 {
                    Ok(results) => Ok(false),
                    Err(message) => Err(message),
                },
            )
        } else {
            let ready = SlotView {
                tokens_cached_from_device: remaining_tokens(
                    block_ids.len(),
                    manager.block_size,
                    num_external_tokens,
                ),
                ..slot
            };
            let out = effect_executor::settle_onboarding(
                ready,
                block_ids,
                num_external_tokens,
                ctx,
                manager.effects,
                draws,
                now,
            );
            (
                out.0,
                ManagerView { effects: out.1, ..manager },
                match out.2 {
                    Ok(results) => Ok(true),
                    Err(message) => Err("slot operation failed: "@ + message),
                },
            )
        },
        _ => (slot, manager, Err(not_staged(slot))),
    }
}

impl LeaderView {
    /// What happens when the engine allocated `block_ids` for a request, `num_external_tokens` of
    /// whose tokens are to be loaded.
    pub open spec fn allocated(
        self,
        request_id: Seq<char>,
        block_ids: Seq<BlockId>,
        num_external_tokens: usize,
        draws: Seq<Draw>,
        now: std::time::Instant,
    ) -> (LeaderView, Result<(), Seq<char>>) {
        match self.find(request_id) {
            Err(message) => (self, Err(message)),
            Ok((key, found)) => {
                let slot = self.traced(request_id, found).with_table(block_ids);
                if num_external_tokens == 0 {
                    (self.with_slot(self.manager, key, slot), Ok(()))
                } else {
                    let out = start_onboard(
                        slot,
                        self.manager,
                        self.context(),
                        block_ids,
                        draws,
                        now,
                    );
                    let next = self.with_slot(out.1, key, out.0);
                    match out.2 {
                        Ok(true) => (
                            LeaderView { onboarding: self.onboarding.insert(request_id), ..next },
                            Ok(()),
                        ),
                        Ok(false) => (
                            LeaderView { onboarding: self.onboarding.remove(request_id), ..next },
                            Ok(()),
                        ),
                        Err(message) => (next, Err(message)),
                    }
                }
            },
        }
    }
}

/// The view of an outcome without a value.
pub open spec fn unit_view(outcome: Result<(), String>) -> Result<(), Seq<char>> {
    match outcome {
        Ok(_) => Ok(()),
        Err(message) => Err(message@),
    }
}

fn remaining_tokens_exec(blocks: usize, block_size: usize, staged: usize) -> (tokens: usize)
    ensures
        tokens == remaining_tokens(blocks as nat, block_size, staged),
{
    let all: usize = match blocks.checked_mul(block_size) {
        Some(all) => all,
        None => usize::MAX,
    };
    all.saturating_sub(staged)
}

fn blocks_for_exec(tokens: usize, block_size: usize) -> (blocks: usize)
    requires
        block_size > 0,
    ensures
        blocks == blocks_for(tokens, block_size),
{
    if tokens % block_size == 0 {
        tokens / block_size
    } else {
        proof {
            if block_size == 1 {
                assert(tokens % block_size == 0);
            } else {
                assert(tokens as int / block_size as int <= tokens as int / 2) by (nonlinear_arith)
                    requires
                        block_size >= 2,
                        tokens >= 0,
                ;
            }
        }
        tokens / block_size + 1
    }
}

/// Starts the onboard of the staged tokens of a slot into `block_ids`; false where the request is
/// preempted because the blocks are too few.
pub fn start_onboard_of(
    manager: &mut ConnectorSlotManager,
    slot: &mut VllmConnectorSlot,
    ctx: &SlotContext,
    block_ids: &Vec<BlockId>,
) -> (outcome: Result<bool, String>)
    requires
        old(manager)@.wf(),
        old(slot)@.wf(),
    ensures
        final(manager)@.wf(),
        final(slot)@.wf(),
        final(slot)@.request_id == old(slot)@.request_id,
        final(slot)@.block_size == old(slot)@.block_size,
        exists|draws: Seq<Draw>, now: std::time::Instant|
            {
                let out = #[trigger] start_onboard(
                    old(slot)@,
                    old(manager)@,
                    *ctx,
                    block_ids@,
                    draws,
                    now,
                );
                &&& effect_executor::enough_draws(draws)
                &&& final(slot)@ == out.0
                &&& final(manager)@ == out.1
                &&& match outcome {
                    Ok(started) => out.2 == Ok::<bool, Seq<char>>(started),
                    Err(message) => out.2 == Err::<bool, Seq<char>>(message@),
                }
            },
{
    let ghost start = slot@;
    let ghost before = manager@;
    let some: Draw = effect_executor::new_draw();
    let ghost any = seq![some, some, some];
    assert(effect_executor::enough_draws(any));
    let staged: Option<usize> = match &slot.phase {
        RequestPhase::OnboardReady { num_external_tokens, .. } => Some(*num_external_tokens),
        _ => None,
    };
    let staged: usize = match staged {
        Some(staged) => staged,
        None => {
            let mut message: String =
                "update_state_after_alloc: external tokens but slot not in OnboardReady phase (phase=".to_string();
            message.append(slot.state().name().as_str());
            message.append(") for request ");
            message.append(slot.request_id.as_str());
            assert(start_onboard(start, before, *ctx, block_ids@, any, some.now).0 == slot@);
            return Err(message);
        },
    };
    if block_ids.len() < blocks_for_exec(staged, manager.block_size) {
        let applied = apply_event(manager, slot, SlotEvent::Preempt, ctx);
        proof {
            let draws = choose|draws: Seq<Draw>|
                effect_executor::enough_draws(draws) && (
                    slot@,
                    manager@,
                    effect_executor::outcomes_view(applied),
                ) == #[trigger] apply_to(before, start, EventView::Preempt, *ctx, draws);
            assert(start_onboard(start, before, *ctx, block_ids@, draws, some.now).0 == slot@);
        }
        return match applied {
            Ok(_results) => Ok(false),
            Err(message) => Err(message),
        };
    }
    slot.record_cached_device_tokens(
        remaining_tokens_exec(block_ids.len(), manager.block_size, staged),
    );
    let ghost ready = slot@;
    let result = slot.trigger_onboarding_execute_effects(
        staged,
        Some(block_ids.as_slice()),
        ctx,
        &mut manager.effects,
    );
    let ghost moved = slot@;
    let ghost effects = manager.effects@;
    let ghost (draws, now) = choose|draws: Seq<Draw>, now: std::time::Instant|
        {
            let out = #[trigger] effect_executor::settle_onboarding(
                ready,
                block_ids@,
                staged,
                *ctx,
                before.effects,
                draws,
                now,
            );
            &&& effect_executor::enough_draws(draws)
            &&& moved == out.0
            &&& effects == out.1
            &&& effect_executor::reports(result, out.2)
        };
    proof {
        onboarding_keeps_identity(ready, block_ids@, staged, *ctx, before.effects, draws, now);
        assert(manager@ =~= (ManagerView { effects, ..before }));
    }
    assert(start_onboard(start, before, *ctx, block_ids@, draws, now).1 == manager@);
    match result {
        Ok(_) => Ok(true),
        Err(error) => Err(error.to_string()),
    }
}

impl KvConnectorLeaderCore {
    /// Takes over the blocks that the engine allocated for a request, and starts the onboard of
    /// its staged tokens where `num_external_tokens` says so.
    pub fn update_state_after_alloc(
        &mut self,
        request_id: String,
        block_ids: Vec<BlockId>,
        num_external_tokens: usize,
    ) -> (outcome: Result<(), String>)
        requires
            old(self)@.wf(),
        ensures
            final(self)@.wf(),
            exists|draws: Seq<Draw>, now: std::time::Instant|
                effect_executor::enough_draws(draws) && (final(self)@, unit_view(outcome))
                    == #[trigger] old(self)@.allocated(
                    request_id@,
                    block_ids@,
                    num_external_tokens,
                    draws,
                    now,
                ),
    {
        let ghost before = self@;
        let some: Draw = effect_executor::new_draw();
        let ghost any = seq![some, some, some];
        let ghost plain = before.allocated(
            request_id@,
            block_ids@,
            num_external_tokens,
            any,
            some.now,
        );
        assert(effect_executor::enough_draws(any));
        let (key, slot) = match self.open_slot(&request_id) {
            Err(message) => {
                assert(plain.0 == self@);
                return Err(message);
            },
            Ok(opened) => opened,
        };
        let ghost held = self@;
        let mut slot: VllmConnectorSlot = slot;
        self.trace(&request_id, &mut slot);
        let _appended = slot.append_mutable_device_blocks(block_ids.as_slice());
        let ghost ready = slot@;
        if num_external_tokens == 0 {
            self.close_slot(&key, slot);
            assert(self@.manager.slots =~= plain.0.manager.slots);
            assert(self@ =~= plain.0);
            return Ok(());
        }
        let ctx: SlotContext = self.slot_context();
        let started = start_onboard_of(&mut self.manager, &mut slot, &ctx, &block_ids);
        let ghost done = slot@;
        let ghost served = self.manager@;
        assert(self@ =~= (LeaderView { manager: served, ..held }));
        self.close_slot(&key, slot);
        let ghost closed = self@;
        proof {
            let (draws, now) = choose|draws: Seq<Draw>, now: std::time::Instant|
                {
                    let out = #[trigger] start_onboard(
                        ready,
                        held.manager,
                        ctx,
                        block_ids@,
                        draws,
                        now,
                    );
                    &&& effect_executor::enough_draws(draws)
                    &&& done == out.0
                    &&& served == out.1
                    &&& match started {
                        Ok(started) => out.2 == Ok::<bool, Seq<char>>(started),
                        Err(message) => out.2 == Err::<bool, Seq<char>>(message@),
                    }
                };
            onboard_ignores_slots(
                ready,
                held.manager,
                before.manager,
                ctx,
                block_ids@,
                draws,
                now,
            );
            let out = before.allocated(request_id@, block_ids@, num_external_tokens, draws, now);
            assert(closed.manager.slots =~= out.0.manager.slots);
            assert(closed =~= (LeaderView { onboarding: before.onboarding, ..out.0 }));
        }
        match started {
            Ok(true) => {
                self.onboarding_slots.insert(request_id);
                Ok(())
            },
            Ok(false) => {
                self.onboarding_slots.remove(&request_id);
                Ok(())
            },
            Err(message) => Err(message),
        }
    }
}

/// Starting an onboard does not look at the other slots.
proof fn onboard_ignores_slots(
    slot: SlotView,
    held: ManagerView,
    manager: ManagerView,
    ctx: SlotContext,
    block_ids: Seq<BlockId>,
    draws: Seq<Draw>,
    now: std::time::Instant,
)
    requires
        manager == (ManagerView { slots: manager.slots, ..held }),
    ensures
        ({
            let a = start_onboard(slot, held, ctx, block_ids, draws, now);
            let b = start_onboard(slot, manager, ctx, block_ids, draws, now);
            &&& b.0 == a.0
            &&& b.1 == (ManagerView { slots: manager.slots, ..a.1 })
            &&& b.2 == a.2
            &&& a.1.slots == held.slots
        }),
{
}

/// Starting an onboard changes nothing of a slot but its phase, the start of the onboard and how
/// far it was considered for offload.
proof fn onboarding_keeps_identity(
    slot: SlotView,
    block_ids: Seq<BlockId>,
    num_external_tokens: usize,
    slot_ctx: SlotContext,
    ctx: ContextView,
    draws: Seq<Draw>,
    now: std::time::Instant,
)
    ensures
        ({
            let out = effect_executor::settle_onboarding(
                slot,
                block_ids,
                num_external_tokens,
                slot_ctx,
                ctx,
                draws,
                now,
            );
            out.0 == (SlotView {
                phase: out.0.phase,
                onboarding_since: out.0.onboarding_since,
                evaluated_blocks: out.0.evaluated_blocks,
                ..slot
            })
        }),
{
    let next = slot_machine::step(
        slot.phase,
        EventView::AllocCompleted { block_ids, num_external_tokens },
        slot.local_context(),
        draws.last().prefetch_id,
        now,
    );
    if next.1.len() > 0 && draws.len() > 0 {
        let moved = slot.entered(next.0, now);
        effect_executor::effects_keep_phase(next.1[0], moved, ctx, draws.last());
        let out = effect_executor::run(next.1[0], moved, ctx, draws.last());
        match out.2 {
            Ok(ResultView::FollowUp(follow)) => {
                effect_executor::settling_keeps_identity(
                    out.0,
                    follow,
                    slot_ctx,
                    out.1,
                    draws.drop_last(),
                );
            },
            _ => {},
        }
    }
}

} // verus!
