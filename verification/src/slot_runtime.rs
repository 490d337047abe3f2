//! The slot of one request: its phase, its token sequence and the device blocks that it owns.

use std::collections::HashMap;

use vstd::prelude::*;

use crate::effect_context::{ContextView, EffectContext};
use crate::protocol::{
    self, new_operation_id, BlockId, OperationId, RequestType, SequenceHash, SlotKey, SlotKeyView,
    TransferType, WorkerTransferRequest,
};
use crate::slot_api::{ExternallyManagedDeviceSlot, Slot, SlotError, SlotState};
use crate::slot_machine::{
    self, EventView, G4FailPolicy, PhaseView, RequestPhase, SlotContext, SlotEffect, SlotEvent,
};
use crate::slot_ops::OperationTracker;
use crate::text::{self, append_decimal, clone_text};
use crate::tokens::{SequenceView, TokenBlock, TokenBlockSequence};
use crate::transfer_requests::{
    self, copy_ids, LocalOffloadRequest, LocalTransferRequest, OffloadRequestView,
    TransferRequestView, WorkerRequestView,
};

verus! {

broadcast use vstd::std_specs::hash::group_hash_axioms;

/// The phase of a slot: staged blocks are named by their ids in the host and disk pools.
pub type VllmRequestPhase = RequestPhase<BlockId, BlockId>;

/// An event of a slot.
pub type VllmSlotEvent = SlotEvent<BlockId, BlockId>;

/// An effect of a slot.
pub type VllmSlotEffect = SlotEffect<BlockId, BlockId>;

/// The mathematical value of a slot's phase.
pub type VllmPhaseView = PhaseView<BlockId, BlockId>;

/// The slot of one request.
pub struct VllmConnectorSlot {
    pub request_id: String,
    pub generation: u64,
    pub traceparent: Option<String>,
    pub baggage: Option<String>,
    pub phase: VllmRequestPhase,
    pub sequence: TokenBlockSequence,
    /// The device blocks of the request, in the order of its tokens.
    pub device_blocks: Vec<BlockId>,
    pub tokens_cached_from_device: usize,
    pub block_size: usize,
    /// The number of tokens that the next forward pass will have covered.
    pub current_position: usize,
    /// The number of device blocks that were considered for offload.
    pub evaluated_blocks: usize,
    pub performed_cache_lookup: bool,
    pub total_blocks_queried: usize,
    pub tokens_cached_from_host: usize,
    pub tokens_cached_from_disk: usize,
    pub tokens_cached_from_remote: usize,
    /// Where offloading stopped for good.
    pub offload_terminated_at_block: Option<usize>,
    /// Blocks of a lower priority are not offloaded; zero lets every block through.
    pub offload_min_priority: u32,
    pub g1_residency_unprotected: bool,
    /// The last known priority of each device block.
    pub stored_block_priorities: HashMap<usize, u32>,
    /// When the current onboard started.
    pub onboarding_since: Option<std::time::Instant>,
}

/// The mathematical value of a [`VllmConnectorSlot`].
#[verifier::ext_equal]
pub struct SlotView {
    pub request_id: Seq<char>,
    pub generation: u64,
    pub traceparent: Option<Seq<char>>,
    pub baggage: Option<Seq<char>>,
    pub phase: VllmPhaseView,
    pub sequence: SequenceView,
    pub device_blocks: Seq<BlockId>,
    pub tokens_cached_from_device: usize,
    pub block_size: usize,
    pub current_position: usize,
    pub evaluated_blocks: usize,
    pub performed_cache_lookup: bool,
    pub total_blocks_queried: usize,
    pub tokens_cached_from_host: usize,
    pub tokens_cached_from_disk: usize,
    pub tokens_cached_from_remote: usize,
    pub offload_terminated_at_block: Option<usize>,
    pub offload_min_priority: u32,
    pub g1_residency_unprotected: bool,
    pub priorities: Map<BlockId, u32>,
    /// When the current onboard started.
    pub onboarding_since: Option<std::time::Instant>,
}

impl View for VllmConnectorSlot {
    type V = SlotView;

    open spec fn view(&self) -> SlotView {
        SlotView {
            request_id: self.request_id@,
            generation: self.generation,
            traceparent: text::text_view(self.traceparent),
            baggage: text::text_view(self.baggage),
            phase: self.phase@,
            sequence: self.sequence@,
            device_blocks: self.device_blocks@,
            tokens_cached_from_device: self.tokens_cached_from_device,
            block_size: self.block_size,
            current_position: self.current_position,
            evaluated_blocks: self.evaluated_blocks,
            performed_cache_lookup: self.performed_cache_lookup,
            total_blocks_queried: self.total_blocks_queried,
            tokens_cached_from_host: self.tokens_cached_from_host,
            tokens_cached_from_disk: self.tokens_cached_from_disk,
            tokens_cached_from_remote: self.tokens_cached_from_remote,
            offload_terminated_at_block: self.offload_terminated_at_block,
            offload_min_priority: self.offload_min_priority,
            g1_residency_unprotected: self.g1_residency_unprotected,
            priorities: self.stored_block_priorities@,
            onboarding_since: self.onboarding_since,
        }
    }
}

/// How a reported device block table relates to the one that is known.
#[derive(Debug, Clone, Copy, PartialEq, Eq, Structural)]
pub enum DeviceBlockTableUpdateKind {
    AppendSuffix,
    NoChange,
    Resync,
}

/// A longer table that starts with the known one appends to it; the same table changes nothing;
/// any other table replaces it.
pub open spec fn table_update(existing: Seq<BlockId>, incoming: Seq<BlockId>)
    -> DeviceBlockTableUpdateKind {
    if incoming.len() > existing.len() && incoming.subrange(0, existing.len() as int) == existing {
        DeviceBlockTableUpdateKind::AppendSuffix
    } else if incoming == existing {
        DeviceBlockTableUpdateKind::NoChange
    } else {
        DeviceBlockTableUpdateKind::Resync
    }
}

fn starts_with(table: &[BlockId], prefix: &[BlockId]) -> (found: bool)
    requires
        prefix@.len() <= table@.len(),
    ensures
        found == (table@.subrange(0, prefix@.len() as int) == prefix@),
{
    let mut i: usize = 0;
    while i < prefix.len()
        invariant
            i <= prefix@.len() <= table@.len(),
            forall|j: int| 0 <= j < i ==> table@[j] == prefix@[j],
        decreases prefix@.len() - i,
    {
        if table[i] != prefix[i] {
            assert(table@.subrange(0, prefix@.len() as int)[i as int] != prefix@[i as int]);
            return false;
        }
        i = i + 1;
    }
    assert(table@.subrange(0, prefix@.len() as int) =~= prefix@);
    true
}

/// Classifies a reported device block table.
pub fn classify_device_block_table_update(existing: &[BlockId], incoming: &[BlockId]) -> (kind:
    DeviceBlockTableUpdateKind)
    ensures
        kind == table_update(existing@, incoming@),
{
    if incoming.len() > existing.len() {
        if starts_with(incoming, existing) {
            DeviceBlockTableUpdateKind::AppendSuffix
        } else {
            DeviceBlockTableUpdateKind::Resync
        }
    } else if incoming.len() == existing.len() {
        let same: bool = starts_with(incoming, existing);
        assert(incoming@.subrange(0, existing@.len() as int) =~= incoming@);
        if same {
            DeviceBlockTableUpdateKind::NoChange
        } else {
            DeviceBlockTableUpdateKind::Resync
        }
    } else {
        DeviceBlockTableUpdateKind::Resync
    }
}

/// The last place of `id` in `blocks`, plus one; zero where it does not occur.
pub open spec fn last_place(blocks: Seq<BlockId>, id: BlockId) -> nat
    decreases blocks.len(),
{
    if blocks.len() == 0 {
        0
    } else if blocks.last() == id {
        blocks.len()
    } else {
        last_place(blocks.drop_last(), id)
    }
}

/// How many of the reported blocks are already at the end of the known ones: the known blocks
/// from the last place of the first reported block on, where the report starts with them.
pub open spec fn overlap(known: Seq<BlockId>, reported: Seq<BlockId>) -> nat {
    if reported.len() == 0 || last_place(known, reported[0]) == 0 {
        0
    } else {
        let pos = last_place(known, reported[0]) - 1;
        let suffix = known.subrange(pos, known.len() as int);
        if suffix.len() <= reported.len() && reported.subrange(0, suffix.len() as int) == suffix {
            suffix.len()
        } else {
            0
        }
    }
}

/// The device blocks after the scheduler reported `reported`.
pub open spec fn merged_blocks(known: Seq<BlockId>, reported: Seq<BlockId>) -> Seq<BlockId> {
    known + reported.subrange(overlap(known, reported) as int, reported.len() as int)
}

fn last_place_exec(blocks: &Vec<BlockId>, id: BlockId) -> (place: usize)
    ensures
        place == last_place(blocks@, id),
        place <= blocks@.len(),
{
    let mut n: usize = blocks.len();
    assert(blocks@.subrange(0, n as int) =~= blocks@);
    while n > 0
        invariant
            n <= blocks@.len(),
            last_place(blocks@, id) == last_place(blocks@.subrange(0, n as int), id),
        decreases n,
    {
        let ghost upto = blocks@.subrange(0, n as int);
        assert(upto.last() == blocks@[n - 1]);
        assert(upto.drop_last() =~= blocks@.subrange(0, n - 1));
        if blocks[n - 1] == id {
            return n;
        }
        n = n - 1;
    }
    0
}

fn overlap_exec(known: &Vec<BlockId>, reported: &[BlockId]) -> (n: usize)
    ensures
        n == overlap(known@, reported@),
        n <= reported@.len(),
{
    if reported.len() == 0 {
        return 0;
    }
    let place: usize = last_place_exec(known, reported[0]);
    if place == 0 {
        return 0;
    }
    let pos: usize = place - 1;
    let suffix_len: usize = known.len() - pos;
    let ghost suffix = known@.subrange(pos as int, known@.len() as int);
    if suffix_len > reported.len() {
        return 0;
    }
    let mut i: usize = 0;
    while i < suffix_len
        invariant
            i <= suffix_len <= reported@.len(),
            pos + suffix_len == known@.len(),
            known@.len() <= usize::MAX,
            pos == last_place(known@, reported@[0]) - 1,
            suffix == known@.subrange(pos as int, known@.len() as int),
            forall|j: int| 0 <= j < i ==> reported@[j] == suffix[j],
        decreases suffix_len - i,
    {
        if known[pos + i] != reported[i] {
            assert(reported@.subrange(0, suffix.len() as int)[i as int] != suffix[i as int]);
            assert(overlap(known@, reported@) == 0);
            return 0;
        }
        i = i + 1;
    }
    assert(reported@.subrange(0, suffix.len() as int) =~= suffix);
    suffix_len
}

/// Reporting blocks that are already known changes nothing: a report of the last known blocks,
/// where its first block occurs there for the last time, is recognised as a repetition.
pub proof fn repeated_report_changes_nothing(known: Seq<BlockId>, start: int)
    requires
        0 <= start < known.len(),
        forall|i: int| start < i < known.len() ==> known[i] != known[start],
    ensures
        merged_blocks(known, known.subrange(start, known.len() as int)) == known,
{
    let reported = known.subrange(start, known.len() as int);
    last_place_is(known, start);
    assert(reported.subrange(0, reported.len() as int) =~= reported);
    assert(merged_blocks(known, reported) =~= known);
}

proof fn last_place_is(blocks: Seq<BlockId>, start: int)
    requires
        0 <= start < blocks.len(),
        forall|i: int| start < i < blocks.len() ==> blocks[i] != blocks[start],
    ensures
        last_place(blocks, blocks[start]) == start + 1,
    decreases blocks.len(),
{
    if start < blocks.len() - 1 {
        assert(blocks.last() != blocks[start]);
        last_place_is(blocks.drop_last(), start);
    }
}

impl SlotView {
    /// The key of the slot.
    pub open spec fn key(self) -> SlotKeyView {
        (self.request_id, self.generation)
    }

    /// Blocks hold at least one token, and the slot agrees with its sequence on how many. An
    /// onboard that runs has a start.
    pub open spec fn wf(self) -> bool {
        &&& self.block_size > 0
        &&& self.sequence.wf()
        &&& self.sequence.block_size == self.block_size
        &&& self.phase is Onboarding ==> self.onboarding_since is Some
    }

    /// The context of events that involve no remote tier.
    pub open spec fn local_context(self) -> SlotContext {
        SlotContext {
            block_size: self.block_size,
            remote_enabled: false,
            g4_xfer_fail_policy: G4FailPolicy::Fallback,
        }
    }

    /// With `phase`, where that starts no onboard: one that runs goes on, and its start is
    /// forgotten when it ends.
    pub open spec fn in_phase(self, phase: VllmPhaseView) -> SlotView {
        SlotView {
            phase,
            onboarding_since: if phase is Onboarding {
                self.onboarding_since
            } else {
                None
            },
            ..self
        }
    }

    /// With `phase`, entered at `now`. An onboard that starts has its start there.
    pub open spec fn entered(self, phase: VllmPhaseView, now: std::time::Instant) -> SlotView {
        if phase is Onboarding && !(self.phase is Onboarding) {
            SlotView { phase, onboarding_since: Some(now), ..self }
        } else {
            self.in_phase(phase)
        }
    }

    /// With `phase` put in place at `now`. An onboard whose start is known goes on.
    pub open spec fn placed(self, phase: VllmPhaseView, now: std::time::Instant) -> SlotView {
        if phase is Onboarding && self.onboarding_since is None {
            SlotView { phase, onboarding_since: Some(now), ..self }
        } else {
            self.in_phase(phase)
        }
    }

    /// Whether `next` is the slot after `event`, which may start an onboard at `now`, where the
    /// event starts no prefetch.
    pub open spec fn after_at(
        self,
        event: EventView<BlockId, BlockId>,
        now: std::time::Instant,
        next: SlotView,
    ) -> bool {
        forall|id: OperationId, any: std::time::Instant|
            next == self.entered(
                (#[trigger] slot_machine::step(
                    self.phase,
                    event,
                    self.local_context(),
                    id,
                    any,
                )).0,
                now,
            )
    }

    /// A slot at the start of a request.
    pub open spec fn fresh(request_id: Seq<char>, sequence: SequenceView, block_size: usize)
        -> SlotView {
        SlotView {
            request_id,
            generation: 0,
            traceparent: None,
            baggage: None,
            phase: PhaseView::Initialized,
            sequence,
            device_blocks: Seq::empty(),
            tokens_cached_from_device: 0,
            block_size,
            current_position: 0,
            evaluated_blocks: 0,
            performed_cache_lookup: false,
            total_blocks_queried: 0,
            tokens_cached_from_host: 0,
            tokens_cached_from_disk: 0,
            tokens_cached_from_remote: 0,
            offload_terminated_at_block: None,
            offload_min_priority: 0,
            g1_residency_unprotected: false,
            priorities: Map::empty(),
            onboarding_since: None,
        }
    }

    /// Without device blocks, and with no position and no offload behind it.
    pub open spec fn without_device_blocks(self) -> SlotView {
        SlotView {
            device_blocks: Seq::empty(),
            current_position: 0,
            evaluated_blocks: 0,
            offload_terminated_at_block: None,
            priorities: Map::empty(),
            ..self
        }
    }

    /// With lower tiers that cannot keep its blocks: offloading stops where it is.
    pub open spec fn unprotected(self) -> SlotView {
        SlotView {
            g1_residency_unprotected: true,
            offload_terminated_at_block: Some(self.evaluated_blocks),
            ..self
        }
    }

    /// Whether `next` is the slot after `event`, where the event starts no prefetch and no
    /// onboard.
    pub open spec fn after(self, event: EventView<BlockId, BlockId>, next: SlotView) -> bool {
        forall|id: OperationId, now: std::time::Instant|
            next == self.in_phase(
                (#[trigger] slot_machine::step(
                    self.phase,
                    event,
                    self.local_context(),
                    id,
                    now,
                )).0,
            )
    }

    /// Whether the request was passed over when it was scheduled last.
    pub open spec fn is_skipped(self) -> bool {
        self.phase is SkippedPrefill || self.phase is SkippedDecode
    }

    /// The slot after the engine reported the full device block table `table`.
    pub open spec fn with_table(self, table: Seq<BlockId>) -> SlotView {
        let known = self.device_blocks;
        SlotView {
            device_blocks: if table_update(known, table)
                == DeviceBlockTableUpdateKind::NoChange {
                known
            } else {
                table
            },
            // Only a shorter table takes back what was considered for offload, and only where
            // the lower tiers protect what the device loses.
            evaluated_blocks: if !self.g1_residency_unprotected && table.len() < known.len()
                && self.evaluated_blocks > table.len() {
                table.len() as usize
            } else {
                self.evaluated_blocks
            },
            ..self
        }
    }

    /// The slot after the scheduler reported `block_ids` with `priorities`: each block's
    /// priority is remembered, the later report winning.
    pub open spec fn with_priorities(
        known: Map<BlockId, u32>,
        block_ids: Seq<BlockId>,
        priorities: Seq<u32>,
        n: nat,
    ) -> Map<BlockId, u32>
        decreases n,
    {
        if n == 0 {
            known
        } else {
            Self::with_priorities(known, block_ids, priorities, (n - 1) as nat).insert(
                block_ids[n - 1],
                priorities[n - 1],
            )
        }
    }

    /// The priority of a device block: what was reported last, or zero.
    pub open spec fn priority_of(self, id: BlockId) -> u32 {
        if self.priorities.dom().contains(id) {
            self.priorities[id]
        } else {
            0
        }
    }

    /// The position up to which blocks are complete, in blocks.
    pub open spec fn next_block(self) -> usize {
        self.current_position / self.block_size
    }

    /// How many blocks from `start` on have at least the minimum priority without interruption,
    /// at most `n`.
    pub open spec fn admitted(self, start: int, n: nat) -> nat
        decreases n,
    {
        if n == 0 {
            0
        } else {
            let before = self.admitted(start, (n - 1) as nat);
            if before == n - 1 && self.priority_of(self.device_blocks[start + n - 1])
                >= self.offload_min_priority {
                n
            } else {
                before
            }
        }
    }

    /// How many blocks are offloaded of the `candidates` from `evaluated_blocks` on: those with
    /// sufficient priority, as far as the sequence has full blocks for them.
    pub open spec fn offload_count(self, candidates: nat) -> nat {
        let admitted = if self.offload_min_priority > 0 {
            self.admitted(self.evaluated_blocks as int, candidates)
        } else {
            candidates
        };
        let available = if self.sequence.hashes.len() >= self.evaluated_blocks {
            (self.sequence.hashes.len() - self.evaluated_blocks) as nat
        } else {
            0
        };
        if admitted <= available {
            admitted
        } else {
            available
        }
    }

    /// The offload of the next `n` blocks under the operation `id`.
    pub open spec fn offload_request(self, n: nat, id: OperationId) -> OffloadRequestView {
        let start = self.evaluated_blocks as int;
        let blocks = self.sequence.block_range(start, start + n);
        OffloadRequestView {
            key: self.key(),
            request_id: self.request_id,
            block_ids: self.device_blocks.subrange(start, start + n),
            token_blocks: blocks,
            priorities: Seq::new(n, |i: int| self.priority_of(self.device_blocks[start + i])),
            operation_id: id,
            sequence_hashes: transfer_requests::block_hashes(blocks),
            block_size: self.block_size,
            traceparent: self.traceparent,
            baggage: self.baggage,
        }
    }

    /// The slot after the blocks that the position passed were considered for offload, with `n`
    /// of them offloaded.
    pub open spec fn evaluated(self, n: nat) -> SlotView {
        let candidates = self.next_block() - self.evaluated_blocks;
        SlotView {
            evaluated_blocks: self.next_block(),
            offload_terminated_at_block: if n < candidates && self.offload_min_priority > 0 {
                Some((self.evaluated_blocks + n) as usize)
            } else {
                self.offload_terminated_at_block
            },
            ..self
        }
    }

    /// The slot once priorities are stored and, where offloading goes on, the blocks that are
    /// already computed count as considered.
    pub open spec fn ready_to_offload(
        self,
        num_computed_tokens: usize,
        priorities: Option<Seq<u32>>,
        block_ids: Seq<BlockId>,
    ) -> SlotView {
        let stored = match priorities {
            Some(priorities) => Self::with_priorities(
                self.priorities,
                block_ids,
                priorities,
                if block_ids.len() <= priorities.len() {
                    block_ids.len()
                } else {
                    priorities.len()
                },
            ),
            None => self.priorities,
        };
        let computed = num_computed_tokens / self.block_size;
        SlotView {
            priorities: stored,
            evaluated_blocks: if self.offload_terminated_at_block is None && computed
                > self.evaluated_blocks {
                computed
            } else {
                self.evaluated_blocks
            },
            ..self
        }
    }

    /// What considering the newly passed blocks for offload does, under the operation `id`: the
    /// slot, the context, and whether the transfer engine was still there.
    pub open spec fn offloaded(
        self,
        ctx: ContextView,
        num_computed_tokens: usize,
        priorities: Option<Seq<u32>>,
        block_ids: Seq<BlockId>,
        id: OperationId,
    ) -> (SlotView, ContextView, bool) {
        let slot = self.ready_to_offload(num_computed_tokens, priorities, block_ids);
        if slot.offload_terminated_at_block is Some || slot.next_block() <= slot.evaluated_blocks {
            (slot, ctx, true)
        } else if slot.next_block() > slot.device_blocks.len() {
            // The device blocks are not known yet: the blocks pass without offload.
            (SlotView { evaluated_blocks: slot.next_block(), ..slot }, ctx, true)
        } else {
            let candidates = (slot.next_block() - slot.evaluated_blocks) as nat;
            let n = slot.offload_count(candidates);
            if n == 0 {
                (slot.evaluated(n), ctx, true)
            } else if !ctx.open {
                (slot, ctx, false)
            } else {
                let request = slot.offload_request(n, id);
                (
                    slot.evaluated(n),
                    ctx.dispatch(
                        TransferRequestView::Offload(request),
                        WorkerRequestView {
                            key: slot.key(),
                            uuid: id,
                            transfer_type: TransferType::Store,
                            request_type: RequestType::Scheduled,
                            block_ids: request.block_ids,
                        },
                    ),
                    true,
                )
            }
        }
    }
}

/// The error of a slot whose offload could not be sent.
pub open spec fn offload_unavailable(error: SlotError) -> bool {
    error matches SlotError::InvalidOperation(message) && message@
        == "transfer engine unavailable: channel closed; aborting offload"@
}

/// The error of a slot that cannot be skipped in `phase`.
pub open spec fn skip_refused(error: SlotError, what: Seq<char>, phase: VllmPhaseView) -> bool {
    error matches SlotError::InvalidState(message) && message@
        == "cannot mark slot as skipped "@ + what + " in state "@ + phase.slot_state().name_view()
}

fn skip_error(what: &str, state: SlotState) -> (error: SlotError)
    ensures
        error matches SlotError::InvalidState(message) && message@
            == "cannot mark slot as skipped "@ + what@ + " in state "@ + state.name_view(),
{
    let mut message: String = "cannot mark slot as skipped ".to_string();
    message.append(what);
    message.append(" in state ");
    message.append(state.name().as_str());
    SlotError::InvalidState(message)
}

impl VllmConnectorSlot {
    /// A slot at the start of a request with the given token sequence.
    pub fn new(request_id: String, sequence: TokenBlockSequence, block_size: usize) -> (slot: Self)
        requires
            sequence@.tokens.len() > 0,
            sequence@.block_size == block_size,
        ensures
            slot@ == SlotView::fresh(request_id@, sequence@, block_size),
            slot@.wf(),
    {
        let block_size: usize = sequence.block_size();
        VllmConnectorSlot {
            request_id,
            generation: 0,
            traceparent: None,
            baggage: None,
            phase: RequestPhase::Initialized,
            sequence,
            device_blocks: Vec::new(),
            tokens_cached_from_device: 0,
            block_size,
            current_position: 0,
            evaluated_blocks: 0,
            performed_cache_lookup: false,
            total_blocks_queried: 0,
            tokens_cached_from_host: 0,
            tokens_cached_from_disk: 0,
            tokens_cached_from_remote: 0,
            offload_terminated_at_block: None,
            offload_min_priority: 0,
            g1_residency_unprotected: false,
            stored_block_priorities: HashMap::new(),
            onboarding_since: None,
        }
    }

    /// Sets the generation of the request.
    pub fn set_generation(&mut self, generation: u64)
        ensures
            final(self)@ == (SlotView { generation, ..old(self)@ }),
    {
        self.generation = generation;
    }

    /// The phase.
    pub fn phase(&self) -> (phase: &VllmRequestPhase)
        ensures
            *phase == self.phase,
    {
        &self.phase
    }

    /// Takes the phase out and leaves the initial one. The start of an onboard stays, so that the
    /// onboard goes on when its phase is put back.
    pub fn take_phase(&mut self) -> (phase: VllmRequestPhase)
        ensures
            phase == old(self).phase,
            final(self)@ == (SlotView { phase: PhaseView::Initialized, ..old(self)@ }),
    {
        let mut phase: VllmRequestPhase = RequestPhase::Initialized;
        std::mem::swap(&mut phase, &mut self.phase);
        phase
    }

    /// Sets the phase. An onboard whose start is not known starts now.
    pub fn set_phase(&mut self, phase: VllmRequestPhase)
        ensures
            exists|now: std::time::Instant|
                final(self)@ == #[trigger] old(self)@.placed(phase@, now),
            !(phase@ is Onboarding) ==> final(self)@ == old(self)@.in_phase(phase@),
            final(self).phase == phase,
    {
        let now: std::time::Instant = slot_machine::instant_now();
        self.onboarding_since = match &phase {
            RequestPhase::Onboarding { .. } => match self.onboarding_since {
                Some(since) => Some(since),
                None => Some(now),
            },
            _ => None,
        };
        self.phase = phase;
        assert(self@ =~= old(self)@.placed(phase@, now));
    }

    /// Applies an event at `now`, and returns its effects. A prefetch that starts gets
    /// `prefetch_id`.
    pub fn advance(
        &mut self,
        event: VllmSlotEvent,
        ctx: &SlotContext,
        prefetch_id: OperationId,
        now: std::time::Instant,
    ) -> (effects: Vec<VllmSlotEffect>)
        ensures
            ({
                let next = slot_machine::step(
                    old(self)@.phase,
                    event@,
                    *ctx,
                    prefetch_id,
                    now,
                );
                &&& final(self)@ == old(self)@.entered(next.0, now)
                &&& slot_machine::effect_views(effects@) == next.1
            }),
    {
        let mut phase: VllmRequestPhase = RequestPhase::Initialized;
        std::mem::swap(&mut phase, &mut self.phase);
        let running: bool = match &phase {
            RequestPhase::Onboarding { .. } => true,
            _ => false,
        };
        let (next, effects) = phase.apply_at(event, ctx, prefetch_id, now);
        self.onboarding_since = match &next {
            RequestPhase::Onboarding { .. } => if running {
                self.onboarding_since
            } else {
                Some(now)
            },
            _ => None,
        };
        self.phase = next;
        assert(self@ =~= old(self)@.entered(next@, now));
        effects
    }

    /// The context of events that involve no remote tier.
    pub fn build_slot_context(&self) -> (ctx: SlotContext)
        ensures
            ctx == self@.local_context(),
    {
        SlotContext {
            block_size: self.block_size,
            remote_enabled: false,
            g4_xfer_fail_policy: G4FailPolicy::Fallback,
        }
    }

    /// The key of the slot.
    pub fn slot_key(&self) -> (key: SlotKey)
        ensures
            key@ == self@.key(),
    {
        SlotKey::new(self.request_id.clone(), self.generation)
    }

    /// Lookups in the remote tier are made by the effect executor, never by the slot.
    pub fn has_pending_g4_lookup(&self) -> (pending: bool)
        ensures
            !pending,
    {
        false
    }

    /// Prefetches from the remote tier are made by the effect executor, never by the slot.
    pub fn has_pending_g4_prefetch(&self) -> (pending: bool)
        ensures
            !pending,
    {
        false
    }

    fn apply_local(&mut self, event: VllmSlotEvent) -> (effects: Vec<VllmSlotEffect>)
        requires
            !(event@ is RemoteLookupCompleted),
            !(event@ is AllocCompleted),
        ensures
            old(self)@.after(event@, final(self)@),
            forall|id: OperationId, now: std::time::Instant|
                slot_machine::effect_views(effects@) == (#[trigger] slot_machine::step(
                    old(self)@.phase,
                    event@,
                    old(self)@.local_context(),
                    id,
                    now,
                )).1,
    {
        let ctx: SlotContext = self.build_slot_context();
        self.advance(event, &ctx, new_operation_id(), slot_machine::instant_now())
    }

    /// Lower tiers have no limit that an offload could exceed.
    pub fn offload_capacity_shortage(&self, _requested_blocks: usize) -> (shortage: Result<
        Option<(&'static str, usize)>,
        SlotError,
    >)
        ensures
            shortage matches Ok(None),
    {
        Ok(None)
    }

    /// Notes that the lower tiers cannot keep the blocks of this slot: it stops offloading, and
    /// what the device loses is lost.
    pub fn mark_retention_unavailable(&mut self)
        ensures
            final(self)@ == old(self)@.unprotected(),
    {
        self.g1_residency_unprotected = true;
        self.offload_terminated_at_block = Some(self.evaluated_blocks);
    }

    /// Notes that the scheduler skipped a request that was prefilling; other requests are
    /// refused.
    pub fn mark_as_skipped_prefill(&mut self) -> (result: Result<(), SlotError>)
        ensures
            if old(self)@.phase is Prefilling {
                &&& result is Ok
                &&& final(self)@ == old(self)@.in_phase(PhaseView::SkippedPrefill)
            } else {
                &&& result matches Err(error) && skip_refused(error, "prefill"@, old(self)@.phase)
                &&& final(self)@ == old(self)@
            },
    {
        let current: SlotState = self.state();
        if current != SlotState::Prefilling {
            return Err(skip_error("prefill", current));
        }
        self.set_phase(RequestPhase::SkippedPrefill);
        Ok(())
    }

    /// Notes that the scheduler skipped a request that was decoding; other requests are refused.
    pub fn mark_as_skipped_decode(&mut self) -> (result: Result<(), SlotError>)
        ensures
            match old(self)@.phase {
                PhaseView::Decoding { ops, .. } => {
                    &&& result is Ok
                    &&& final(self)@ == old(self)@.in_phase(PhaseView::SkippedDecode { ops })
                },
                phase => {
                    &&& result matches Err(error) && skip_refused(error, "decode"@, phase)
                    &&& final(self)@ == old(self)@
                },
            },
    {
        let current: SlotState = self.state();
        if current != SlotState::Decoding {
            return Err(skip_error("decode", current));
        }
        if let RequestPhase::Decoding { ops, .. } = self.take_phase() {
            self.set_phase(RequestPhase::SkippedDecode { ops });
        }
        Ok(())
    }

    /// Notes that the scheduler skipped the request in this iteration. A request that was
    /// neither prefilling nor decoding is left as it is.
    pub fn mark_as_skipped(&mut self) -> (result: Result<(), SlotError>)
        ensures
            result is Ok,
            final(self)@ == old(self)@.in_phase(
                match old(self)@.phase {
                    PhaseView::Prefilling { .. } => PhaseView::SkippedPrefill,
                    PhaseView::Decoding { ops, .. } => PhaseView::SkippedDecode { ops },
                    phase => phase,
                },
            ),
    {
        let _effects = self.apply_local(SlotEvent::MarkSkipped);
        proof {
            let id: OperationId = 0;
            let now: std::time::Instant = arbitrary();
            let next = slot_machine::step(
                old(self)@.phase,
                EventView::MarkSkipped,
                old(self)@.local_context(),
                id,
                now,
            );
            assert(self@ == old(self)@.in_phase(next.0));
        }
        match self.state() {
            SlotState::Prefilling => self.mark_as_skipped_prefill(),
            SlotState::Decoding => self.mark_as_skipped_decode(),
            _ => Ok(()),
        }
    }

    /// Starts onboarding into `alloc_block_ids`, or into all device blocks of the slot, and
    /// returns the effects.
    pub fn begin_onboarding(
        &mut self,
        num_external_tokens: usize,
        alloc_block_ids: Option<&[BlockId]>,
    ) -> (effects: Vec<VllmSlotEffect>)
        ensures
            ({
                let event = EventView::<BlockId, BlockId>::AllocCompleted {
                    block_ids: onboard_target(old(self)@, alloc_block_ids),
                    num_external_tokens,
                };
                &&& exists|now: std::time::Instant| #[trigger]
                    old(self)@.after_at(event, now, final(self)@)
                &&& forall|id: OperationId, now: std::time::Instant|
                    slot_machine::effect_views(effects@) == (#[trigger] slot_machine::step(
                        old(self)@.phase,
                        event,
                        old(self)@.local_context(),
                        id,
                        now,
                    )).1
            }),
    {
        let block_ids: Vec<BlockId> = match alloc_block_ids {
            Some(ids) => copy_ids(ids),
            None => copy_ids(self.device_blocks.as_slice()),
        };
        let ctx: SlotContext = self.build_slot_context();
        let now: std::time::Instant = slot_machine::instant_now();
        let event: VllmSlotEvent = SlotEvent::AllocCompleted { block_ids, num_external_tokens };
        let ghost view = event@;
        let effects: Vec<VllmSlotEffect> = self.advance(event, &ctx, new_operation_id(), now);
        assert(old(self)@.after_at(view, now, self@));
        effects
    }

    /// Takes over what the scheduler decided: new tokens, new device blocks, the next phase and
    /// the next position. `block_hashes` identify the blocks that the tokens complete. Returns
    /// the effects of the phase change. A position beyond `usize::MAX` stays there.
    pub fn begin_scheduler_output(
        &mut self,
        tokens: &[u32],
        block_hashes: &[SequenceHash],
        block_ids: &[BlockId],
        num_computed_tokens: usize,
        num_scheduled_tokens: usize,
    ) -> (effects: Vec<VllmSlotEffect>)
        requires
            old(self)@.wf(),
            old(self)@.sequence.hashes.len() + block_hashes@.len() == (
            old(self)@.sequence.tokens.len() + tokens@.len()) as nat
                / old(self)@.sequence.block_size,
        ensures
            final(self)@.wf(),
            old(self)@.scheduled(
                tokens@,
                block_hashes@,
                block_ids@,
                num_computed_tokens,
                num_scheduled_tokens,
                final(self)@,
            ),
            slot_machine::effect_views(effects@).len() == 0,
    {
        if tokens.len() > 0 {
            self.sequence.extend(tokens, block_hashes);
        } else {
            assert(block_hashes@.len() == 0);
            assert(old(self)@.sequence =~= (SequenceView {
                tokens: old(self)@.sequence.tokens + tokens@,
                hashes: old(self)@.sequence.hashes + block_hashes@,
                block_size: old(self)@.sequence.block_size,
            }));
        }
        let known: usize = overlap_exec(&self.device_blocks, block_ids);
        let ghost before = self.device_blocks@;
        let mut blocks: Vec<BlockId> = Vec::new();
        std::mem::swap(&mut blocks, &mut self.device_blocks);
        let mut i: usize = known;
        while i < block_ids.len()
            invariant
                known <= i <= block_ids@.len(),
                blocks@ =~= before + block_ids@.subrange(known as int, i as int),
            decreases block_ids@.len() - i,
        {
            blocks.push(block_ids[i]);
            i = i + 1;
        }
        self.device_blocks = blocks;
        assert(self.device_blocks@ =~= merged_blocks(before, block_ids@));
        let event: VllmSlotEvent = SlotEvent::ApplySchedulerOutput {
            tokens: copy_tokens(tokens),
            block_ids: copy_ids(block_ids),
            num_computed_tokens,
            num_scheduled_tokens,
            priorities: None,
            iteration: 0,
        };
        let ghost merged = self@;
        let ghost extended = self.sequence@;
        assert(merged =~= (SlotView {
            device_blocks: merged_blocks(before, block_ids@),
            sequence: extended,
            ..old(self)@
        }));
        let effects: Vec<VllmSlotEffect> = self.apply_local(event);
        self.current_position = num_computed_tokens.saturating_add(num_scheduled_tokens);
        proof {
            let e = EventView::<BlockId, BlockId>::ApplySchedulerOutput {
                tokens: tokens@,
                iteration: 0,
            };
            assert forall|id: OperationId, now: std::time::Instant|
                self@ == (SlotView {
                    sequence: SequenceView {
                        tokens: old(self)@.sequence.tokens + tokens@,
                        hashes: old(self)@.sequence.hashes + block_hashes@,
                        block_size: old(self)@.sequence.block_size,
                    },
                    device_blocks: merged_blocks(old(self)@.device_blocks, block_ids@),
                    current_position: saturating_sum(num_computed_tokens, num_scheduled_tokens),
                    ..old(self)@.in_phase(
                        (#[trigger] slot_machine::step(
                            old(self)@.phase,
                            e,
                            old(self)@.local_context(),
                            id,
                            now,
                        )).0,
                    )
                }) by {
                let next = slot_machine::step(merged.phase, e, merged.local_context(), id, now);
                assert(merged.local_context() == old(self)@.local_context());
            }
            let id: OperationId = 0;
            let now: std::time::Instant = arbitrary();
            let next = slot_machine::step(merged.phase, e, merged.local_context(), id, now);
            assert(slot_machine::effect_views(effects@) == next.1);
        }
        effects
    }

    /// Considers the blocks that the position passed for offload, under a fresh operation id.
    pub fn compute_and_dispatch_offloads(
        &mut self,
        num_computed_tokens: usize,
        priorities: Option<&[u32]>,
        block_ids: &[BlockId],
        effect_ctx: &mut EffectContext,
    ) -> (result: Result<(), SlotError>)
        requires
            old(self)@.wf(),
        ensures
            final(self)@.wf(),
            exists|id: OperationId|
                {
                    let out = #[trigger] old(self)@.offloaded(
                        old(effect_ctx)@,
                        num_computed_tokens,
                        slice_view(priorities),
                        block_ids@,
                        id,
                    );
                    &&& protocol::is_random_id(id)
                    &&& final(self)@ == out.0
                    &&& final(effect_ctx)@ == out.1
                    &&& result is Ok == out.2
                },
            result matches Err(error) ==> offload_unavailable(error),
    {
        let id: OperationId = new_operation_id();
        self.compute_and_dispatch_offloads_as(
            num_computed_tokens,
            priorities,
            block_ids,
            effect_ctx,
            id,
        )
    }

    fn store_priorities(&mut self, block_ids: &[BlockId], priorities: &[u32])
        ensures
            final(self)@ == (SlotView {
                priorities: SlotView::with_priorities(
                    old(self)@.priorities,
                    block_ids@,
                    priorities@,
                    if block_ids@.len() <= priorities@.len() {
                        block_ids@.len()
                    } else {
                        priorities@.len()
                    },
                ),
                ..old(self)@
            }),
    {
        let mut i: usize = 0;
        let mut stored: HashMap<usize, u32> = HashMap::new();
        std::mem::swap(&mut stored, &mut self.stored_block_priorities);
        while i < block_ids.len() && i < priorities.len()
            invariant
                i <= block_ids@.len(),
                i <= priorities@.len(),
                stored@ == SlotView::with_priorities(
                    old(self)@.priorities,
                    block_ids@,
                    priorities@,
                    i as nat,
                ),
            decreases block_ids@.len() - i,
        {
            stored.insert(block_ids[i], priorities[i]);
            i = i + 1;
        }
        self.stored_block_priorities = stored;
    }

    fn block_priority(&self, id: BlockId) -> (priority: u32)
        ensures
            priority == self@.priority_of(id),
    {
        match self.stored_block_priorities.get(&id) {
            Some(priority) => *priority,
            None => 0,
        }
    }

    fn admitted_exec(&self, start: usize, n: usize) -> (count: usize)
        requires
            start + n <= self@.device_blocks.len(),
        ensures
            count == self@.admitted(start as int, n as nat),
            count <= n,
    {
        assert(self.device_blocks.len() == self@.device_blocks.len());
        let mut i: usize = 0;
        while i < n
            invariant
                i <= n,
                start + n <= self@.device_blocks.len(),
                self@.device_blocks.len() <= usize::MAX,
                self@.admitted(start as int, i as nat) == i,
            decreases n - i,
        {
            if self.block_priority(self.device_blocks[start + i]) < self.offload_min_priority {
                assert(self@.admitted(start as int, (i + 1) as nat) == i);
                proof {
                    admitted_stays(self@, start as int, (i + 1) as nat, n as nat);
                }
                return i;
            }
            i = i + 1;
        }
        n
    }

    /// The offload of the next `n` blocks under the operation `operation_id`.
    fn offload_request(&self, n: usize, operation_id: OperationId) -> (request: LocalOffloadRequest)
        requires
            self@.wf(),
            self@.evaluated_blocks + n <= self@.device_blocks.len(),
            self@.evaluated_blocks + n <= self@.sequence.hashes.len(),
        ensures
            request@ == self@.offload_request(n as nat, operation_id),
    {
        let start: usize = self.evaluated_blocks;
        assert(self.device_blocks.len() == self@.device_blocks.len());
        let mut block_ids: Vec<BlockId> = Vec::new();
        let mut priorities: Vec<u32> = Vec::new();
        let mut i: usize = 0;
        while i < n
            invariant
                i <= n,
                start + n <= self@.device_blocks.len(),
                self@.device_blocks.len() <= usize::MAX,
                block_ids@ =~= self@.device_blocks.subrange(start as int, start + i),
                priorities@ =~= Seq::new(
                    i as nat,
                    |j: int| self@.priority_of(self@.device_blocks[start + j]),
                ),
            decreases n - i,
        {
            let id: BlockId = self.device_blocks[start + i];
            block_ids.push(id);
            priorities.push(self.block_priority(id));
            i = i + 1;
        }
        let token_blocks: Vec<TokenBlock> = self.sequence.block_range(start, start + n);
        let request = LocalOffloadRequest::new(
            self.slot_key(),
            block_ids,
            token_blocks,
            priorities,
            operation_id,
            self.block_size,
            clone_text(&self.traceparent),
            clone_text(&self.baggage),
        );
        assert(request@ =~= self@.offload_request(n as nat, operation_id));
        request
    }

    /// How many of the next `candidates` blocks are offloaded.
    fn offload_count(&self, candidates: usize) -> (n: usize)
        requires
            self@.evaluated_blocks + candidates <= self@.device_blocks.len(),
        ensures
            n == self@.offload_count(candidates as nat),
            n <= candidates,
            n > 0 ==> self@.evaluated_blocks + n <= self@.sequence.hashes.len(),
    {
        let admitted: usize = if self.offload_min_priority > 0 {
            self.admitted_exec(self.evaluated_blocks, candidates)
        } else {
            candidates
        };
        let available: usize = self.sequence.num_blocks().saturating_sub(self.evaluated_blocks);
        if admitted <= available {
            admitted
        } else {
            available
        }
    }

    /// Considers the blocks that the position passed for offload, under the operation
    /// `operation_id`.
    pub fn compute_and_dispatch_offloads_as(
        &mut self,
        num_computed_tokens: usize,
        priorities: Option<&[u32]>,
        block_ids: &[BlockId],
        effect_ctx: &mut EffectContext,
        operation_id: OperationId,
    ) -> (result: Result<(), SlotError>)
        requires
            old(self)@.wf(),
        ensures
            final(self)@.wf(),
            (final(self)@, final(effect_ctx)@, result is Ok) == old(self)@.offloaded(
                old(effect_ctx)@,
                num_computed_tokens,
                slice_view(priorities),
                block_ids@,
                operation_id,
            ),
            result matches Err(error) ==> offload_unavailable(error),
    {
        match priorities {
            Some(priorities) => {
                self.store_priorities(block_ids, priorities);
            },
            None => {},
        }
        let ghost slot = old(self)@.ready_to_offload(
            num_computed_tokens,
            slice_view(priorities),
            block_ids@,
        );
        if self.offload_terminated_at_block.is_some() {
            assert(self@ =~= slot);
            return Ok(());
        }
        let computed: usize = num_computed_tokens / self.block_size;
        if computed > self.evaluated_blocks {
            self.evaluated_blocks = computed;
        }
        assert(self@ =~= slot);
        let next_block: usize = self.current_position / self.block_size;
        if next_block <= self.evaluated_blocks {
            return Ok(());
        }
        let start: usize = self.evaluated_blocks;
        let candidates: usize = next_block - start;
        if next_block > self.device_blocks.len() {
            self.evaluated_blocks = next_block;
            assert(self@ =~= (SlotView { evaluated_blocks: slot.next_block(), ..slot }));
            return Ok(());
        }
        let n: usize = self.offload_count(candidates);
        if n > 0 {
            let request: LocalOffloadRequest = self.offload_request(n, operation_id);
            let worker_blocks: Vec<BlockId> = copy_ids(request.block_ids.as_slice());
            let key: SlotKey = self.slot_key();
            if !effect_ctx.dispatch(
                LocalTransferRequest::Offload(request),
                key,
                operation_id,
                TransferType::Store,
                RequestType::Scheduled,
                worker_blocks,
            ) {
                return Err(
                    SlotError::InvalidOperation(
                        "transfer engine unavailable: channel closed; aborting offload".to_string(),
                    ),
                );
            }
        }
        if n < candidates && self.offload_min_priority > 0 {
            self.offload_terminated_at_block = Some(start + n);
        }
        self.evaluated_blocks = next_block;
        assert(self@ =~= slot.evaluated(n as nat));
        Ok(())
    }

    /// Replaces the device block table by that of the engine. A shorter table takes back what
    /// was considered for offload beyond it.
    fn resync_device_blocks_from_vllm(&mut self, block_ids: &[BlockId])
        ensures
            final(self)@ == (SlotView {
                device_blocks: block_ids@,
                evaluated_blocks: if block_ids@.len() < old(self)@.device_blocks.len()
                    && old(self)@.evaluated_blocks > block_ids@.len() {
                    block_ids@.len() as usize
                } else {
                    old(self)@.evaluated_blocks
                },
                ..old(self)@
            }),
    {
        let old_len: usize = self.device_blocks.len();
        let new_len: usize = block_ids.len();
        self.device_blocks = copy_ids(block_ids);
        if new_len < old_len && self.evaluated_blocks > new_len {
            self.evaluated_blocks = new_len;
        }
    }

    /// Worker operations are collected in the effect context; there is nothing to discard.
    pub fn discard_pending_operations(&mut self)
        ensures
            final(self)@ == old(self)@,
    {
    }

    /// Offloads follow the position; nothing is left to flush.
    pub fn flush_remaining_blocks(&mut self, _all_block_ids: &[BlockId]) -> (result: Result<
        (),
        SlotError,
    >)
        ensures
            result is Ok,
            final(self)@ == old(self)@,
    {
        Ok(())
    }

    /// Sets the trace context of the request.
    pub fn set_request_traceparent(&mut self, traceparent: Option<String>)
        ensures
            final(self)@ == (SlotView { traceparent: text::text_view(traceparent), ..old(self)@ }),
    {
        self.traceparent = traceparent;
    }

}

impl Slot for VllmConnectorSlot {
    fn request_id(&self) -> (id: &str) {
        self.request_id.as_str()
    }

    fn state(&self) -> (state: SlotState) {
        self.phase.as_slot_state()
    }

    fn sequence(&self) -> (sequence: &TokenBlockSequence) {
        &self.sequence
    }

    fn computed_tokens(&self) -> (n: usize) {
        self.current_position
    }

    fn apply_scheduler_output(
        &mut self,
        tokens: &[u32],
        block_hashes: &[SequenceHash],
        block_ids: &[BlockId],
        num_computed_tokens: usize,
        num_scheduled_tokens: usize,
        _priorities: Option<&[u32]>,
    ) -> (result: Result<(), SlotError>) {
        let _effects = self.begin_scheduler_output(
            tokens,
            block_hashes,
            block_ids,
            num_computed_tokens,
            num_scheduled_tokens,
        );
        Ok(())
    }

    fn record_start_iteration(&mut self, _iteration: u64) -> (result: Result<(), SlotError>) {
        Ok(())
    }

    fn mark_as_prefilling(&mut self, iteration: u64) -> (result: Result<(), SlotError>) {
        self.set_phase(RequestPhase::Prefilling { iteration_first_scheduled: iteration });
        Ok(())
    }

    fn mark_as_decoding(&mut self, iteration: u64) -> (result: Result<(), SlotError>) {
        self.set_phase(
            RequestPhase::Decoding {
                ops: OperationTracker::new(),
                iteration_first_scheduled: iteration,
            },
        );
        Ok(())
    }

    fn mark_as_finished(&mut self, _iteration: u64) -> (result: Result<(), SlotError>) {
        let _effects = self.apply_local(SlotEvent::RequestFinished);
        Ok(())
    }

    fn num_device_blocks_allocated(&self) -> (n: usize) {
        self.device_blocks.len()
    }

    fn acquire_local_matches(&mut self, num_computed_tokens: usize) -> (result: Result<
        (),
        SlotError,
    >) {
        let _effects = self.apply_local(SlotEvent::AcquireMatches { num_computed_tokens });
        Ok(())
    }

    fn trigger_onboarding(&mut self, num_external_tokens: usize) -> (result: Result<
        (),
        SlotError,
    >) {
        let _effects = self.begin_onboarding(num_external_tokens, None);
        Ok(())
    }

    fn take_pending_operations(&mut self) -> (ops: Option<Vec<WorkerTransferRequest>>) {
        None
    }

    fn record_cached_device_tokens(&mut self, num_tokens: usize) {
        self.tokens_cached_from_device = num_tokens;
    }

    fn record_cached_host_tokens(&mut self, num_tokens: usize) {
        self.tokens_cached_from_host = num_tokens;
    }

    fn record_cached_disk_tokens(&mut self, num_tokens: usize) {
        self.tokens_cached_from_disk = num_tokens;
    }

    fn reset_after_preemption(&mut self) {
        let _effects = self.apply_local(SlotEvent::Preempt);
        self.device_blocks.clear();
        self.current_position = 0;
        self.evaluated_blocks = 0;
        self.offload_terminated_at_block = None;
        self.stored_block_priorities.clear();
        proof {
            assert forall|id: OperationId, now: std::time::Instant|
                self@ == old(self)@.without_device_blocks().in_phase(
                    (#[trigger] slot_machine::step(
                        old(self)@.without_device_blocks().phase,
                        EventView::Preempt,
                        old(self)@.without_device_blocks().local_context(),
                        id,
                        now,
                    )).0,
                ) by {
                let next = slot_machine::step(
                    old(self)@.phase,
                    EventView::Preempt,
                    old(self)@.local_context(),
                    id,
                    now,
                );
                assert(self@ =~= old(self)@.without_device_blocks().in_phase(next.0));
            }
        }
    }

    fn reset(&mut self) {
        self.set_phase(RequestPhase::Initialized);
        self.device_blocks.clear();
        self.current_position = 0;
        self.evaluated_blocks = 0;
        self.offload_terminated_at_block = None;
        self.stored_block_priorities.clear();
        assert(self@ =~= old(self)@.without_device_blocks().in_phase(PhaseView::Initialized));
    }
}

impl ExternallyManagedDeviceSlot for VllmConnectorSlot {
    fn advance_computed_position(&mut self, num_tokens: usize) -> (result: Result<
        (),
        SlotError,
    >) {
        let total: usize = self.sequence.total_tokens();
        match self.current_position.checked_add(num_tokens) {
            Some(position) => {
                if position <= total {
                    self.current_position = position;
                    return Ok(());
                }
            },
            None => {},
        }
        let mut message: String = "cannot advance computed position from ".to_string();
        append_decimal(&mut message, self.current_position as u64);
        message.append(" by ");
        append_decimal(&mut message, num_tokens as u64);
        message.append(" tokens, total tokens is ");
        append_decimal(&mut message, total as u64);
        Err(SlotError::InvalidOperation(message))
    }

    fn append_mutable_device_blocks(&mut self, block_ids: &[BlockId]) -> (result: Result<
        (),
        SlotError,
    >) {
        let existing: usize = self.device_blocks.len();
        match classify_device_block_table_update(self.device_blocks.as_slice(), block_ids) {
            DeviceBlockTableUpdateKind::AppendSuffix => {
                let mut i: usize = existing;
                let mut blocks: Vec<BlockId> = Vec::new();
                std::mem::swap(&mut blocks, &mut self.device_blocks);
                let ghost known = blocks@;
                while i < block_ids.len()
                    invariant
                        existing <= i <= block_ids@.len(),
                        existing == known.len(),
                        blocks@ =~= known + block_ids@.subrange(existing as int, i as int),
                    decreases block_ids@.len() - i,
                {
                    blocks.push(block_ids[i]);
                    i = i + 1;
                }
                assert(block_ids@ =~= block_ids@.subrange(0, existing as int)
                    + block_ids@.subrange(existing as int, block_ids@.len() as int));
                self.device_blocks = blocks;
            },
            DeviceBlockTableUpdateKind::NoChange => {},
            DeviceBlockTableUpdateKind::Resync => {
                if self.g1_residency_unprotected || block_ids.len() == existing {
                    self.device_blocks = copy_ids(block_ids);
                } else {
                    self.resync_device_blocks_from_vllm(block_ids);
                }
            },
        }
        assert(self@ =~= old(self)@.with_table(block_ids@));
        Ok(())
    }

    fn set_request_baggage(&mut self, baggage: Option<String>) {
        self.baggage = baggage;
    }
}

/// The device blocks that an onboard fills: the allocated ones, or all of the slot.
pub open spec fn onboard_target(slot: SlotView, alloc_block_ids: Option<&[BlockId]>) -> Seq<
    BlockId,
> {
    match alloc_block_ids {
        Some(ids) => ids@,
        None => slot.device_blocks,
    }
}

/// The sum of two numbers; it stops at `usize::MAX`.
pub open spec fn saturating_sum(a: usize, b: usize) -> usize {
    if a + b <= usize::MAX {
        (a + b) as usize
    } else {
        usize::MAX
    }
}

/// The view of an optional list of priorities.
pub open spec fn slice_view(priorities: Option<&[u32]>) -> Option<Seq<u32>> {
    match priorities {
        Some(priorities) => Some(priorities@),
        None => None,
    }
}

impl SlotView {
    /// Whether `next` is the slot after the scheduler output: tokens, blocks, phase and position
    /// are taken over and nothing else changes.
    pub open spec fn scheduled(
        self,
        tokens: Seq<u32>,
        block_hashes: Seq<SequenceHash>,
        block_ids: Seq<BlockId>,
        num_computed_tokens: usize,
        num_scheduled_tokens: usize,
        next: SlotView,
    ) -> bool {
        forall|id: OperationId, now: std::time::Instant|
            next == (SlotView {
                sequence: SequenceView {
                    tokens: self.sequence.tokens + tokens,
                    hashes: self.sequence.hashes + block_hashes,
                    block_size: self.sequence.block_size,
                },
                device_blocks: merged_blocks(self.device_blocks, block_ids),
                current_position: saturating_sum(num_computed_tokens, num_scheduled_tokens),
                ..self.in_phase(
                    (#[trigger] slot_machine::step(
                        self.phase,
                        EventView::ApplySchedulerOutput { tokens, iteration: 0 },
                        self.local_context(),
                        id,
                        now,
                    )).0,
                )
            })
    }
}

proof fn admitted_stays(slot: SlotView, start: int, m: nat, n: nat)
    requires
        m <= n,
        slot.admitted(start, m) < m,
    ensures
        slot.admitted(start, n) == slot.admitted(start, m),
    decreases n - m,
{
    if m < n {
        admitted_stays(slot, start, m, (n - 1) as nat);
    }
}

/// A slot whose offloading has stopped, because a block was not worth keeping or because nothing
/// could keep it, offloads nothing more; and the blocks that it passes are not considered again.
pub proof fn stopped_slot_offloads_nothing(
    slot: SlotView,
    ctx: ContextView,
    num_computed_tokens: usize,
    priorities: Option<Seq<u32>>,
    block_ids: Seq<BlockId>,
    id: OperationId,
)
    requires
        slot.offload_terminated_at_block is Some,
    ensures
        ({
            let out = slot.offloaded(ctx, num_computed_tokens, priorities, block_ids, id);
            &&& out.1 == ctx
            &&& out.2
            &&& out.0 == (SlotView { priorities: out.0.priorities, ..slot })
        }),
{
}

/// No block is offloaded twice: what is offloaded starts where the last consideration ended, and
/// ends where the next one starts.
pub proof fn offloads_follow_each_other(
    slot: SlotView,
    ctx: ContextView,
    num_computed_tokens: usize,
    priorities: Option<Seq<u32>>,
    block_ids: Seq<BlockId>,
    id: OperationId,
)
    requires
        slot.wf(),
        ctx.open,
    ensures
        ({
            let ready = slot.ready_to_offload(num_computed_tokens, priorities, block_ids);
            let out = slot.offloaded(ctx, num_computed_tokens, priorities, block_ids, id);
            &&& ready.evaluated_blocks >= slot.evaluated_blocks
            &&& out.0.evaluated_blocks >= ready.evaluated_blocks
            &&& out.1 == ctx || exists|n: nat|
                {
                    &&& 0 < n <= out.0.evaluated_blocks - ready.evaluated_blocks
                    &&& out.1.requests == ctx.requests.push(
                        TransferRequestView::Offload(#[trigger] ready.offload_request(n, id)),
                    )
                }
        }),
{
    let ready = slot.ready_to_offload(num_computed_tokens, priorities, block_ids);
    let out = slot.offloaded(ctx, num_computed_tokens, priorities, block_ids, id);
    if ready.offload_terminated_at_block is None && ready.evaluated_blocks < ready.next_block()
        <= ready.device_blocks.len() {
        let candidates = (ready.next_block() - ready.evaluated_blocks) as nat;
        admitted_fits(ready, ready.evaluated_blocks as int, candidates);
        let n = ready.offload_count(candidates);
        if n > 0 {
            let request = ready.offload_request(n, id);
            assert(out.1.requests == ctx.requests.push(TransferRequestView::Offload(request)));
        }
    }
}

proof fn admitted_fits(slot: SlotView, start: int, n: nat)
    ensures
        slot.admitted(start, n) <= n,
    decreases n,
{
    if n > 0 {
        admitted_fits(slot, start, (n - 1) as nat);
    }
}

fn copy_tokens(tokens: &[u32]) -> (copy: Vec<u32>)
    ensures
        copy@ == tokens@,
{
    let mut copy: Vec<u32> = Vec::new();
    copy.extend_from_slice(tokens);
    assert(copy@ =~= tokens@);
    copy
}

} // verus!
