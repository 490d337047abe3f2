//! Building the metadata of one iteration from what the scheduler decided.

use vstd::prelude::*;

use crate::effect_context::ContextView;
use crate::leader_core::{self, KvConnectorLeaderCore, LeaderView};
use crate::leader_laws;
use crate::metadata_laws;
use crate::metadata::{
    self, count_immediate_loads, CachedRequestData, ConnectorMetadata, MetadataView, NewRequestData,
    NewSlotKind, SchedulerOutput,
};
use crate::protocol::{
    self, BlockId, OperationId, SequenceHash, SlotKey, SlotKeyView, TransferType,
    WorkerTransferRequest,
};
use crate::signals::{self, SignalState};
use crate::slot_api::{Slot, SlotManager};
use crate::slot_machine::{self, EventView, PhaseView, SlotContext};
use crate::slot_manager::ManagerView;
use crate::slot_runtime::{self, SlotView, VllmConnectorSlot};
use crate::table::{self, KeySet};
use crate::text::{self, append_decimal};
use crate::tokens::SequenceView;
use crate::transfer_requests::{self, WorkerRequestView};

verus! {

impl SlotView {
    /// The slot after the scheduler's decision: tokens, blocks, phase and position are taken
    /// over.
    pub open spec fn output_applied(
        self,
        tokens: Seq<u32>,
        block_hashes: Seq<SequenceHash>,
        block_ids: Seq<BlockId>,
        num_computed_tokens: usize,
        num_scheduled_tokens: usize,
    ) -> SlotView {
        SlotView {
            sequence: SequenceView {
                tokens: self.sequence.tokens + tokens,
                hashes: self.sequence.hashes + block_hashes,
                block_size: self.sequence.block_size,
            },
            device_blocks: slot_runtime::merged_blocks(self.device_blocks, block_ids),
            current_position: slot_runtime::saturating_sum(
                num_computed_tokens,
                num_scheduled_tokens,
            ),
            ..self.in_phase(
                slot_machine::step(
                    self.phase,
                    EventView::ApplySchedulerOutput { tokens, iteration: 0 },
                    self.local_context(),
                    0,
                    arbitrary(),
                ).0,
            )
        }
    }

    /// The slot after the engine preempted its request and freed its blocks.
    pub open spec fn preemption_reset(self) -> SlotView {
        self.without_device_blocks().in_phase(
            slot_machine::step(
                self.phase,
                EventView::Preempt,
                self.local_context(),
                0,
                arbitrary(),
            ).0,
        )
    }

    /// The slot of a request that was not scheduled.
    pub open spec fn skipped(self) -> SlotView {
        self.in_phase(
            match self.phase {
                PhaseView::Prefilling { .. } => PhaseView::SkippedPrefill,
                PhaseView::Decoding { ops, .. } => PhaseView::SkippedDecode { ops },
                phase => phase,
            },
        )
    }
}

/// A leader while it builds metadata: the metadata so far, and the requests in flight that were
/// not met yet.
#[verifier::ext_equal]
pub struct BuildView {
    pub leader: LeaderView,
    pub metadata: MetadataView,
    pub unmet: Set<Seq<char>>,
}

impl LeaderView {
    /// The slot of a request, with its key; `what` names the request in the error.
    pub open spec fn find_as(self, what: Seq<char>, request_id: Seq<char>) -> Result<
        (SlotKeyView, SlotView),
        Seq<char>,
    > {
        if self.active.dom().contains(request_id) {
            self.find(request_id)
        } else {
            Err("missing active SlotKey for "@ + what + " request "@ + request_id)
        }
    }

    /// Without a request whose last transfers are over.
    pub open spec fn dropped(self, request_id: Seq<char>) -> LeaderView {
        LeaderView {
            manager: ManagerView {
                slots: match leader_core::lookup(self.active, request_id) {
                    Some(key) => self.manager.slots.remove(key),
                    None => self.manager.slots,
                },
                ..self.manager
            }.without_signal(request_id),
            active: self.active.remove(request_id),
            ..self
        }
    }

    /// Without the first `n` of some requests.
    pub open spec fn all_dropped(self, request_ids: Seq<Seq<char>>, n: nat) -> LeaderView
        decreases n,
    {
        if n == 0 {
            self
        } else {
            self.all_dropped(request_ids, (n - 1) as nat).dropped(request_ids[n - 1])
        }
    }

    /// With the list of started onboards taken out.
    pub open spec fn onboardings_taken(self) -> LeaderView {
        LeaderView { onboarding: Set::empty(), ..self }
    }

    /// The operations that wait for the workers of `key`, taken out.
    pub open spec fn ops_taken(self, key: SlotKeyView) -> LeaderView {
        LeaderView {
            manager: ManagerView {
                effects: ContextView {
                    worker_ops: self.manager.effects.worker_ops.remove(key),
                    ..self.manager.effects
                },
                ..self.manager
            },
            ..self
        }
    }

    /// The operations that wait for the workers of `key`, where there are any.
    pub open spec fn waiting_ops(self, key: SlotKeyView) -> Option<Seq<WorkerRequestView>> {
        if self.manager.effects.worker_ops.dom().contains(key) {
            Some(self.manager.effects.worker_ops[key])
        } else {
            None
        }
    }
}

impl BuildView {
    /// With the onboard of a request in the metadata, or the reason why it cannot be.
    pub open spec fn flush(self, request_id: Seq<char>) -> (BuildView, Option<Seq<char>>) {
        match self.leader.find_as("onboarding"@, request_id) {
            Err(message) => (self, Some(message)),
            Ok((key, slot)) => match self.leader.waiting_ops(key) {
                None => (
                    BuildView { leader: self.leader.ops_taken(key), ..self },
                    Some(
                        "onboarding metadata contract violated for request "@ + request_id
                            + ": onboarding slot has no pending worker ops"@,
                    ),
                ),
                Some(ops) => {
                    let taken = BuildView { leader: self.leader.ops_taken(key), ..self };
                    let loads = metadata::immediate_loads(ops);
                    if loads == 0 {
                        (
                            taken,
                            Some(
                                "onboarding metadata contract violated for request "@ + request_id
                                    + ": slot is marked for onboarding but emitted zero immediate load ops"@,
                            ),
                        )
                    } else {
                        (
                            BuildView {
                                metadata: self.metadata.with_slot(
                                    key,
                                    NewSlotKind::Onboarding,
                                    loads as u64,
                                ).with_operations(metadata::rekeyed(ops, key)),
                                unmet: self.unmet.remove(request_id),
                                ..taken
                            },
                            None,
                        )
                    }
                },
            },
        }
    }

    /// With the first `n` of some onboards in the metadata.
    pub open spec fn flush_all(self, request_ids: Seq<Seq<char>>, n: nat) -> (
        BuildView,
        Option<Seq<char>>,
    )
        decreases n,
    {
        if n == 0 {
            (self, None)
        } else {
            let before = self.flush_all(request_ids, (n - 1) as nat);
            if before.1 is Some {
                before
            } else {
                before.0.flush(request_ids[n - 1])
            }
        }
    }

    /// With the scheduler's decision applied to the slot under `key`. `id` is the operation of
    /// an offload that starts.
    pub open spec fn scheduled(
        self,
        key: SlotKeyView,
        slot: SlotView,
        tokens: Seq<u32>,
        block_hashes: Seq<SequenceHash>,
        block_ids: Seq<BlockId>,
        num_computed_tokens: usize,
        num_scheduled_tokens: usize,
        priorities: Option<Seq<u32>>,
        id: OperationId,
    ) -> (BuildView, Option<Seq<char>>) {
        let out = slot.output_applied(
            tokens,
            block_hashes,
            block_ids,
            num_computed_tokens,
            num_scheduled_tokens,
        ).offloaded(
            self.leader.manager.effects,
            num_computed_tokens,
            priorities,
            block_ids,
            id,
        );
        (
            BuildView {
                leader: self.leader.with_slot(
                    ManagerView { effects: out.1, ..self.leader.manager },
                    key,
                    out.0,
                ),
                ..self
            },
            if out.2 {
                None
            } else {
                Some(
                    "slot operation failed: transfer engine unavailable: channel closed; aborting offload"@,
                )
            },
        )
    }

    /// With a request that is scheduled for the first time.
    pub open spec fn schedule_new(
        self,
        request: NewRequestData,
        num_scheduled_tokens: usize,
        id: OperationId,
    ) -> (BuildView, Option<Seq<char>>) {
        let request_id = request.request_id@;
        let met = BuildView { unmet: self.unmet.remove(request_id), ..self };
        if self.metadata.creates(request_id) {
            // Its onboard is in the metadata already.
            (met, None)
        } else {
            match self.leader.find_as("new"@, request_id) {
                Err(message) => (met, Some(message)),
                Ok((key, slot)) => {
                    let next = met.scheduled(
                        key,
                        slot,
                        Seq::empty(),
                        Seq::empty(),
                        request.block_ids@,
                        request.num_computed_tokens,
                        num_scheduled_tokens,
                        priorities_view(request.priorities),
                        id,
                    );
                    if next.1 is Some {
                        next
                    } else {
                        next.0.prefill(key, request_id)
                    }
                },
            }
        }
    }

    /// With a slot for prefill and its operations in the metadata. Such a slot has no immediate
    /// loads.
    pub open spec fn prefill(self, key: SlotKeyView, request_id: Seq<char>) -> (
        BuildView,
        Option<Seq<char>>,
    ) {
        let taken = BuildView { leader: self.leader.ops_taken(key), ..self };
        match self.leader.waiting_ops(key) {
            None => (
                BuildView {
                    metadata: self.metadata.with_slot(key, NewSlotKind::Prefill, 0),
                    ..taken
                },
                None,
            ),
            Some(ops) => {
                let loads = metadata::immediate_loads(ops);
                if loads > 0 {
                    (
                        taken,
                        Some(
                            "prefill metadata contract violated for request "@ + request_id
                                + ": prefill slot emitted "@ + text::decimal(loads)
                                + " immediate load ops"@,
                        ),
                    )
                } else {
                    (
                        BuildView {
                            metadata: self.metadata.with_slot(
                                key,
                                NewSlotKind::Prefill,
                                0,
                            ).with_operations(metadata::rekeyed(ops, key)),
                            ..taken
                        },
                        None,
                    )
                }
            },
        }
    }

    /// With the first `n` new requests of `output`.
    pub open spec fn schedule_all_new(
        self,
        output: SchedulerOutput,
        n: nat,
        ids: Seq<OperationId>,
    ) -> (BuildView, Option<Seq<char>>)
        decreases n,
    {
        if n == 0 {
            (self, None)
        } else {
            let before = self.schedule_all_new(output, (n - 1) as nat, ids);
            if before.1 is Some {
                before
            } else {
                let request = output.new_requests@[n - 1];
                before.0.schedule_new(
                    request,
                    output.scheduled_tokens(request.request_id@),
                    ids[n - 1],
                )
            }
        }
    }

    /// With a request that was scheduled before.
    pub open spec fn schedule_cached(
        self,
        request: CachedRequestData,
        num_scheduled_tokens: usize,
        id: OperationId,
    ) -> (BuildView, Option<Seq<char>>) {
        let request_id = request.request_id@;
        match self.leader.find_as("cached"@, request_id) {
            Err(message) => (
                if request.resumed_from_preemption {
                    self
                } else {
                    BuildView { unmet: self.unmet.remove(request_id), ..self }
                },
                Some(message),
            ),
            Ok((key, found)) => {
                let slot = if request.resumed_from_preemption {
                    found.preemption_reset()
                } else {
                    found
                };
                let met = BuildView {
                    leader: self.leader.with_slot(self.leader.manager, key, slot),
                    unmet: self.unmet.remove(request_id),
                    ..self
                };
                if !completes_blocks(slot, request.new_token_ids@, request.new_block_hashes@) {
                    (
                        met,
                        Some(
                            "block hashes do not match the new tokens of request "@ + request_id,
                        ),
                    )
                } else {
                    let next = met.scheduled(
                        key,
                        slot,
                        request.new_token_ids@,
                        request.new_block_hashes@,
                        request.new_block_ids@,
                        request.num_computed_tokens,
                        num_scheduled_tokens,
                        priorities_view(request.priorities),
                        id,
                    );
                    if next.1 is Some {
                        next
                    } else {
                        (
                            BuildView {
                                leader: next.0.leader.ops_taken(key),
                                metadata: match next.0.leader.waiting_ops(key) {
                                    Some(ops) => next.0.metadata.with_operations(
                                        metadata::rekeyed(ops, key),
                                    ),
                                    None => next.0.metadata,
                                },
                                ..next.0
                            },
                            None,
                        )
                    }
                }
            },
        }
    }

    /// With the first `n` cached requests of `output`.
    pub open spec fn schedule_all_cached(
        self,
        output: SchedulerOutput,
        n: nat,
        ids: Seq<OperationId>,
    ) -> (BuildView, Option<Seq<char>>)
        decreases n,
    {
        if n == 0 {
            (self, None)
        } else {
            let before = self.schedule_all_cached(output, (n - 1) as nat, ids);
            if before.1 is Some {
                before
            } else {
                let request = output.cached_requests@[n - 1];
                before.0.schedule_cached(
                    request,
                    output.scheduled_tokens(request.request_id@),
                    ids[n - 1],
                )
            }
        }
    }

    /// With a request that was not scheduled.
    pub open spec fn skip(self, request_id: Seq<char>) -> (BuildView, Option<Seq<char>>) {
        match self.leader.find_as("unscheduled"@, request_id) {
            Err(message) => (self, Some(message)),
            Ok((key, slot)) => (
                BuildView {
                    leader: self.leader.with_slot(self.leader.manager, key, slot.skipped()),
                    ..self
                },
                None,
            ),
        }
    }

    /// With the first `n` of some requests that were not scheduled.
    pub open spec fn skip_all(self, request_ids: Seq<Seq<char>>, n: nat) -> (
        BuildView,
        Option<Seq<char>>,
    )
        decreases n,
    {
        if n == 0 {
            (self, None)
        } else {
            let before = self.skip_all(request_ids, (n - 1) as nat);
            if before.1 is Some {
                before
            } else {
                before.0.skip(request_ids[n - 1])
            }
        }
    }

    /// The metadata with the state of the transfers of every active request.
    pub open spec fn reported(self) -> MetadataView {
        let entries = self.leader.manager.effects.signals;
        let active = self.leader.active.dom();
        MetadataView {
            loads_done: active.filter(
                |id: Seq<char>| signals::loads_done(entries, id) == Some(true),
            ),
            stores_done: active.filter(
                |id: Seq<char>| signals::stores_done(entries, id) == Some(true),
            ),
            failed: active.filter(|id: Seq<char>| signals::failed(entries, id)),
            ..self.metadata
        }
    }
}

/// The view of an optional list of priorities.
pub open spec fn priorities_view(priorities: Option<Vec<u32>>) -> Option<Seq<u32>> {
    match priorities {
        Some(priorities) => Some(priorities@),
        None => None,
    }
}

/// Whether `hashes` are as many as the blocks that `tokens` complete.
pub open spec fn completes_blocks(slot: SlotView, tokens: Seq<u32>, hashes: Seq<SequenceHash>)
    -> bool {
    slot.sequence.hashes.len() + hashes.len() == (slot.sequence.tokens.len() + tokens.len()) as nat
        / slot.sequence.block_size
}

/// Whether `order` lists the members of `set`, each once.
pub open spec fn lists(order: Seq<Seq<char>>, set: Set<Seq<char>>) -> bool {
    order.no_duplicates() && order.to_set() == set
}

/// The view of the failure of a step, if any.
pub open spec fn failure(result: Result<(), String>) -> Option<Seq<char>> {
    match result {
        Ok(_) => None,
        Err(message) => Some(message@),
    }
}

fn missing_key_message(what: &str, request_id: &String) -> (message: String)
    ensures
        message@ == "missing active SlotKey for "@ + what@ + " request "@ + request_id@,
{
    let mut message: String = "missing active SlotKey for ".to_string();
    message.append(what);
    message.append(" request ");
    message.append(request_id.as_str());
    message
}

fn contract_message(start: &str, request_id: &String, end: &str) -> (message: String)
    ensures
        message@ == start@ + request_id@ + end@,
{
    let mut message: String = start.to_string();
    message.append(request_id.as_str());
    message.append(end);
    message
}

proof fn output_is_applied(
    slot: SlotView,
    tokens: Seq<u32>,
    block_hashes: Seq<SequenceHash>,
    block_ids: Seq<BlockId>,
    num_computed_tokens: usize,
    num_scheduled_tokens: usize,
    next: SlotView,
)
    requires
        slot.scheduled(
            tokens,
            block_hashes,
            block_ids,
            num_computed_tokens,
            num_scheduled_tokens,
            next,
        ),
    ensures
        next == slot.output_applied(
            tokens,
            block_hashes,
            block_ids,
            num_computed_tokens,
            num_scheduled_tokens,
        ),
{
    let now: std::time::Instant = arbitrary();
    let after = slot_machine::step(
        slot.phase,
        EventView::ApplySchedulerOutput { tokens, iteration: 0 },
        slot.local_context(),
        0,
        now,
    );
}

impl KvConnectorLeaderCore {
    fn open_slot_as(&mut self, what: &str, request_id: &String) -> (opened: Result<
        (SlotKey, VllmConnectorSlot),
        String,
    >)
        requires
            old(self)@.wf(),
        ensures
            match opened {
                Ok((key, slot)) => {
                    &&& old(self)@.find_as(what@, request_id@) == Ok::<
                        (SlotKeyView, SlotView),
                        Seq<char>,
                    >((key@, slot@))
                    &&& old(self)@.manager.fits(key@, slot@)
                    &&& final(self)@ == (LeaderView {
                        manager: ManagerView {
                            slots: old(self)@.manager.slots.remove(key@),
                            ..old(self)@.manager
                        },
                        ..old(self)@
                    })
                    &&& final(self)@.wf()
                },
                Err(message) => {
                    &&& old(self)@.find_as(what@, request_id@) == Err::<
                        (SlotKeyView, SlotView),
                        Seq<char>,
                    >(message@)
                    &&& final(self)@ == old(self)@
                },
            },
    {
        if self.active_slot_key(request_id).is_none() {
            return Err(missing_key_message(what, request_id));
        }
        self.open_slot(request_id)
    }

    /// Takes the operations that wait for the workers of `key`.
    fn take_ops(&mut self, key: &SlotKey) -> (ops: Option<Vec<WorkerTransferRequest>>)
        requires
            old(self)@.wf(),
        ensures
            match ops {
                Some(ops) => old(self)@.waiting_ops(key@) == Some(
                    transfer_requests::worker_views(ops@),
                ),
                None => old(self)@.waiting_ops(key@) is None,
            },
            final(self)@ == old(self)@.ops_taken(key@),
            final(self)@.wf(),
    {
        let ops = self.manager.take_pending_worker_ops(key);
        assert(self@ =~= old(self)@.ops_taken(key@));
        ops
    }

    /// Puts the onboard of a request into the metadata.
    fn flush_onboarding(
        &mut self,
        md: &mut ConnectorMetadata,
        unmet: &mut KeySet<String>,
        request_id: &String,
    ) -> (result: Result<(), String>)
        requires
            old(self)@.wf(),
        ensures
            final(self)@.wf(),
            (
                BuildView { leader: final(self)@, metadata: final(md)@, unmet: final(unmet)@ },
                failure(result),
            ) == (BuildView {
                leader: old(self)@,
                metadata: old(md)@,
                unmet: old(unmet)@,
            }).flush(request_id@),
    {
        let ghost before = BuildView { leader: self@, metadata: md@, unmet: unmet@ };
        let key: SlotKey = match self.active_slot_key(request_id) {
            Some(key) => key,
            None => {
                return Err(missing_key_message("onboarding", request_id));
            },
        };
        if !self.manager.has_slot(&key) {
            return Err("slot not found".to_string());
        }
        match self.take_ops(&key) {
            None => Err(
                contract_message(
                    "onboarding metadata contract violated for request ",
                    request_id,
                    ": onboarding slot has no pending worker ops",
                ),
            ),
            Some(ops) => {
                let loads: u64 = count_immediate_loads(&ops);
                if loads == 0 {
                    return Err(
                        contract_message(
                            "onboarding metadata contract violated for request ",
                            request_id,
                            ": slot is marked for onboarding but emitted zero immediate load ops",
                        ),
                    );
                }
                md.create_onboarding_slot(key.clone(), loads);
                md.add_operations_for_key(&key, ops);
                unmet.remove(request_id);
                Ok(())
            },
        }
    }

    /// Applies the scheduler's decision to an open slot and puts the slot back.
    fn schedule_open_slot(
        &mut self,
        key: &SlotKey,
        slot: VllmConnectorSlot,
        tokens: &[u32],
        block_hashes: &[SequenceHash],
        block_ids: &[BlockId],
        num_computed_tokens: usize,
        num_scheduled_tokens: usize,
        priorities: &Option<Vec<u32>>,
    ) -> (result: Result<(), String>)
        requires
            old(self)@.wf(),
            old(self)@.manager.fits(key@, slot@),
            completes_blocks(slot@, tokens@, block_hashes@),
        ensures
            final(self)@.wf(),
            exists|id: OperationId|
                protocol::is_random_id(id) && forall|metadata: MetadataView, unmet: Set<Seq<char>>|
                    (
                        BuildView { leader: final(self)@, metadata, unmet },
                        failure(result),
                    ) == #[trigger] (BuildView { leader: old(self)@, metadata, unmet }).scheduled(
                        key@,
                        slot@,
                        tokens@,
                        block_hashes@,
                        block_ids@,
                        num_computed_tokens,
                        num_scheduled_tokens,
                        priorities_view(*priorities),
                        id,
                    ),
    {
        let ghost before = self@;
        let ghost start = slot@;
        let ctx: SlotContext = self.slot_context();
        let mut slot: VllmConnectorSlot = slot;
        let given: Option<&[u32]> = match priorities {
            Some(priorities) => Some(priorities.as_slice()),
            None => None,
        };
        assert(slot_runtime::slice_view(given) == priorities_view(*priorities));
        let result = slot.apply_scheduler_output_execute_effects(
            tokens,
            block_hashes,
            block_ids,
            num_computed_tokens,
            num_scheduled_tokens,
            given,
            &ctx,
            &mut self.manager.effects,
        );
        let ghost done = slot@;
        let ghost served = self.manager@;
        let ghost applied = start.output_applied(
            tokens@,
            block_hashes@,
            block_ids@,
            num_computed_tokens,
            num_scheduled_tokens,
        );
        let ghost id = choose|id: OperationId|
            {
                let out = #[trigger] applied.offloaded(
                    before.manager.effects,
                    num_computed_tokens,
                    priorities_view(*priorities),
                    block_ids@,
                    id,
                );
                &&& protocol::is_random_id(id)
                &&& done == out.0
                &&& served.effects == out.1
                &&& result is Ok == out.2
            };
        proof {
            let (middle, used) = choose|middle: SlotView, used: OperationId|
                {
                    let out = #[trigger] middle.offloaded(
                        before.manager.effects,
                        num_computed_tokens,
                        priorities_view(*priorities),
                        block_ids@,
                        used,
                    );
                    &&& protocol::is_random_id(used)
                    &&& start.scheduled(
                        tokens@,
                        block_hashes@,
                        block_ids@,
                        num_computed_tokens,
                        num_scheduled_tokens,
                        middle,
                    )
                    &&& done == out.0
                    &&& served.effects == out.1
                    &&& result is Ok == out.2
                };
            output_is_applied(
                start,
                tokens@,
                block_hashes@,
                block_ids@,
                num_computed_tokens,
                num_scheduled_tokens,
                middle,
            );
            assert(middle == applied);
            assert(self@ =~= (LeaderView { manager: served, ..before }));
            assert(served =~= (ManagerView { effects: served.effects, ..before.manager }));
            assert(done.request_id == start.request_id && done.block_size == start.block_size);
        }
        self.close_slot(key, slot);
        let outcome: Result<(), String> = match result {
            Ok(_) => Ok(()),
            Err(error) => Err(error.to_string()),
        };
        proof {
            strlit_concat();
            assert forall|metadata: MetadataView, unmet: Set<Seq<char>>|
                (
                    BuildView { leader: self@, metadata, unmet },
                    failure(outcome),
                ) == #[trigger] (BuildView { leader: before, metadata, unmet }).scheduled(
                    key@,
                    start,
                    tokens@,
                    block_hashes@,
                    block_ids@,
                    num_computed_tokens,
                    num_scheduled_tokens,
                    priorities_view(*priorities),
                    id,
                ) by {
                let next = (BuildView { leader: before, metadata, unmet }).scheduled(
                    key@,
                    start,
                    tokens@,
                    block_hashes@,
                    block_ids@,
                    num_computed_tokens,
                    num_scheduled_tokens,
                    priorities_view(*priorities),
                    id,
                );
                assert(self@ =~= next.0.leader);
                assert(next.0 =~= (BuildView { leader: self@, metadata, unmet }));
            }
        }
        outcome
    }
}

proof fn strlit_concat()
    ensures
        "slot operation failed: "@
            + "transfer engine unavailable: channel closed; aborting offload"@
            == "slot operation failed: transfer engine unavailable: channel closed; aborting offload"@,
{
    reveal_strlit("slot operation failed: ");
    reveal_strlit("transfer engine unavailable: channel closed; aborting offload");
    reveal_strlit(
        "slot operation failed: transfer engine unavailable: channel closed; aborting offload",
    );
    assert("slot operation failed: "@
        + "transfer engine unavailable: channel closed; aborting offload"@
        =~= "slot operation failed: transfer engine unavailable: channel closed; aborting offload"@);
}

impl KvConnectorLeaderCore {
    /// Puts a slot for prefill and its operations into the metadata.
    fn add_prefill(&mut self, md: &mut ConnectorMetadata, key: &SlotKey, request_id: &String) -> (
    result: Result<(), String>)
        requires
            old(self)@.wf(),
        ensures
            final(self)@.wf(),
            forall|unmet: Set<Seq<char>>|
                (
                    BuildView { leader: final(self)@, metadata: final(md)@, unmet },
                    failure(result),
                ) == #[trigger] (BuildView {
                    leader: old(self)@,
                    metadata: old(md)@,
                    unmet,
                }).prefill(key@, request_id@),
    {
        match self.take_ops(key) {
            None => {
                md.create_prefill_slot(key.clone());
                Ok(())
            },
            Some(ops) => {
                let loads: u64 = count_immediate_loads(&ops);
                if loads > 0 {
                    let mut message: String = contract_message(
                        "prefill metadata contract violated for request ",
                        request_id,
                        ": prefill slot emitted ",
                    );
                    append_decimal(&mut message, loads);
                    message.append(" immediate load ops");
                    return Err(message);
                }
                md.create_prefill_slot(key.clone());
                md.add_operations_for_key(key, ops);
                Ok(())
            },
        }
    }

    /// Takes over a request that is scheduled for the first time.
    fn schedule_new_request(
        &mut self,
        md: &mut ConnectorMetadata,
        unmet: &mut KeySet<String>,
        request: &NewRequestData,
        num_scheduled_tokens: usize,
    ) -> (result: Result<(), String>)
        requires
            old(self)@.wf(),
        ensures
            final(self)@.wf(),
            exists|id: OperationId|
                protocol::is_random_id(id) && (
                    BuildView { leader: final(self)@, metadata: final(md)@, unmet: final(unmet)@ },
                    failure(result),
                ) == #[trigger] (BuildView {
                    leader: old(self)@,
                    metadata: old(md)@,
                    unmet: old(unmet)@,
                }).schedule_new(*request, num_scheduled_tokens, id),
    {
        let ghost before = BuildView { leader: self@, metadata: md@, unmet: unmet@ };
        let id: OperationId = protocol::new_operation_id();
        let ghost plain = before.schedule_new(*request, num_scheduled_tokens, id);
        unmet.remove(&request.request_id);
        if md.creates_slot_of(&request.request_id) {
            assert(plain.0.leader == self@);
            return Ok(());
        }
        let (key, slot) = match self.open_slot_as("new", &request.request_id) {
            Err(message) => {
                assert(plain.0.leader == self@);
                return Err(message);
            },
            Ok(opened) => opened,
        };
        let ghost held = self@;
        let ghost start = slot@;
        let tokens: Vec<u32> = Vec::new();
        let hashes: Vec<SequenceHash> = Vec::new();
        proof {
            assert(tokens@ =~= Seq::<u32>::empty());
            assert(hashes@ =~= Seq::<SequenceHash>::empty());
        }
        let result = self.schedule_open_slot(
            &key,
            slot,
            tokens.as_slice(),
            hashes.as_slice(),
            request.block_ids.as_slice(),
            request.num_computed_tokens,
            num_scheduled_tokens,
            &request.priorities,
        );
        let ghost moved = self@;
        let ghost used = choose|id: OperationId|
            protocol::is_random_id(id) && forall|metadata: MetadataView, unmet: Set<Seq<char>>|
                (
                    BuildView { leader: moved, metadata, unmet },
                    failure(result),
                ) == #[trigger] (BuildView { leader: held, metadata, unmet }).scheduled(
                    key@,
                    start,
                    Seq::empty(),
                    Seq::empty(),
                    request.block_ids@,
                    request.num_computed_tokens,
                    num_scheduled_tokens,
                    priorities_view(request.priorities),
                    id,
                );
        proof {
            let a = (BuildView { leader: held, metadata: md@, unmet: unmet@ }).scheduled(
                key@,
                start,
                Seq::empty(),
                Seq::empty(),
                request.block_ids@,
                request.num_computed_tokens,
                num_scheduled_tokens,
                priorities_view(request.priorities),
                used,
            );
            let met = BuildView { unmet: unmet@, ..before };
            let b = met.scheduled(
                key@,
                start,
                Seq::empty(),
                Seq::empty(),
                request.block_ids@,
                request.num_computed_tokens,
                num_scheduled_tokens,
                priorities_view(request.priorities),
                used,
            );
            assert(a.0.leader.manager.slots =~= b.0.leader.manager.slots);
            assert(a.0 =~= b.0);
            assert(before.schedule_new(*request, num_scheduled_tokens, used).0 == if b.1 is Some {
                b.0
            } else {
                b.0.prefill(key@, request.request_id@).0
            });
        }
        match result {
            Ok(_) => {},
            Err(message) => {
                return Err(message);
            },
        }
        let ghost ready = BuildView { leader: self@, metadata: md@, unmet: unmet@ };
        let added = self.add_prefill(md, &key, &request.request_id);
        proof {
            let out = ready.prefill(key@, request.request_id@);
            assert(out.0.leader == self@);
        }
        added
    }

    /// Takes over a request that was scheduled before.
    fn schedule_cached_request(
        &mut self,
        md: &mut ConnectorMetadata,
        unmet: &mut KeySet<String>,
        request: &CachedRequestData,
        num_scheduled_tokens: usize,
    ) -> (result: Result<(), String>)
        requires
            old(self)@.wf(),
        ensures
            final(self)@.wf(),
            exists|id: OperationId|
                protocol::is_random_id(id) && (
                    BuildView { leader: final(self)@, metadata: final(md)@, unmet: final(unmet)@ },
                    failure(result),
                ) == #[trigger] (BuildView {
                    leader: old(self)@,
                    metadata: old(md)@,
                    unmet: old(unmet)@,
                }).schedule_cached(*request, num_scheduled_tokens, id),
    {
        let ghost before = BuildView { leader: self@, metadata: md@, unmet: unmet@ };
        let id: OperationId = protocol::new_operation_id();
        let ghost plain = before.schedule_cached(*request, num_scheduled_tokens, id);
        let (key, slot) = match self.open_slot_as("cached", &request.request_id) {
            Err(message) => {
                if !request.resumed_from_preemption {
                    unmet.remove(&request.request_id);
                }
                assert(plain.0.leader == self@);
                return Err(message);
            },
            Ok(opened) => opened,
        };
        let ghost held = self@;
        let ghost found = slot@;
        let mut slot: VllmConnectorSlot = slot;
        if request.resumed_from_preemption {
            slot.reset_after_preemption();
            proof {
                let now: std::time::Instant = arbitrary();
                let next = slot_machine::step(
                    found.without_device_blocks().phase,
                    EventView::Preempt,
                    found.without_device_blocks().local_context(),
                    0,
                    now,
                );
                assert(slot@ == found.preemption_reset());
            }
        }
        unmet.remove(&request.request_id);
        let ghost start = slot@;
        let ghost met = BuildView {
            leader: before.leader.with_slot(before.leader.manager, key@, start),
            unmet: unmet@,
            ..before
        };
        if !completes(&slot, &request.new_token_ids, &request.new_block_hashes) {
            self.close_slot(&key, slot);
            assert(self@.manager.slots =~= met.leader.manager.slots);
            assert(self@ =~= met.leader);
            assert(plain.0 == met);
            let mut message: String =
                "block hashes do not match the new tokens of request ".to_string();
            message.append(request.request_id.as_str());
            return Err(message);
        }
        let result = self.schedule_open_slot(
            &key,
            slot,
            request.new_token_ids.as_slice(),
            request.new_block_hashes.as_slice(),
            request.new_block_ids.as_slice(),
            request.num_computed_tokens,
            num_scheduled_tokens,
            &request.priorities,
        );
        let ghost moved = self@;
        let ghost used = choose|id: OperationId|
            protocol::is_random_id(id) && forall|metadata: MetadataView, unmet: Set<Seq<char>>|
                (
                    BuildView { leader: moved, metadata, unmet },
                    failure(result),
                ) == #[trigger] (BuildView { leader: held, metadata, unmet }).scheduled(
                    key@,
                    start,
                    request.new_token_ids@,
                    request.new_block_hashes@,
                    request.new_block_ids@,
                    request.num_computed_tokens,
                    num_scheduled_tokens,
                    priorities_view(request.priorities),
                    id,
                );
        let ghost next = met.scheduled(
            key@,
            start,
            request.new_token_ids@,
            request.new_block_hashes@,
            request.new_block_ids@,
            request.num_computed_tokens,
            num_scheduled_tokens,
            priorities_view(request.priorities),
            used,
        );
        proof {
            let a = (BuildView { leader: held, metadata: md@, unmet: unmet@ }).scheduled(
                key@,
                start,
                request.new_token_ids@,
                request.new_block_hashes@,
                request.new_block_ids@,
                request.num_computed_tokens,
                num_scheduled_tokens,
                priorities_view(request.priorities),
                used,
            );
            assert(a.0.leader.manager.slots =~= next.0.leader.manager.slots);
            assert(a.0 =~= next.0);
            assert(before.schedule_cached(*request, num_scheduled_tokens, used).1 == next.1);
        }
        match result {
            Ok(_) => {},
            Err(message) => {
                return Err(message);
            },
        }
        match self.take_ops(&key) {
            Some(ops) => {
                md.add_operations_for_key(&key, ops);
            },
            None => {},
        }
        Ok(())
    }

    /// Marks a request as not scheduled.
    fn skip_request(&mut self, request_id: &String) -> (result: Result<(), String>)
        requires
            old(self)@.wf(),
        ensures
            final(self)@.wf(),
            forall|metadata: MetadataView, unmet: Set<Seq<char>>|
                (
                    BuildView { leader: final(self)@, metadata, unmet },
                    failure(result),
                ) == #[trigger] (BuildView { leader: old(self)@, metadata, unmet }).skip(
                    request_id@,
                ),
    {
        let ghost before = self@;
        match self.open_slot_as("unscheduled", request_id) {
            Err(message) => Err(message),
            Ok((key, slot)) => {
                let mut slot: VllmConnectorSlot = slot;
                let ghost start = slot@;
                let _marked = slot.mark_as_skipped();
                assert(slot@ == start.skipped());
                self.close_slot(&key, slot);
                proof {
                    let target = before.with_slot(before.manager, key@, start.skipped());
                    assert(self@.manager.slots =~= target.manager.slots);
                    assert(self@ =~= target);
                }
                Ok(())
            },
        }
    }

    /// Forgets a request whose last transfers are over.
    fn drop_request(&mut self, request_id: &String)
        requires
            old(self)@.wf(),
        ensures
            final(self)@ == old(self)@.dropped(request_id@),
            final(self)@.wf(),
    {
        match self.active_slot_key(request_id) {
            Some(key) => {
                let _removed = self.manager.remove_slot(&key);
            },
            None => {},
        }
        self.active_slot_keys.remove(request_id);
        self.manager.remove_signal(request_id);
        assert(self@.active =~= old(self)@.active.remove(request_id@));
        assert(self@ =~= old(self)@.dropped(request_id@));
    }
}

/// Whether `hashes` are as many as the blocks that `tokens` complete.
fn completes(slot: &VllmConnectorSlot, tokens: &Vec<u32>, hashes: &Vec<SequenceHash>) -> (complete:
    bool)
    ensures
        complete == completes_blocks(slot@, tokens@, hashes@),
{
    let block_size: usize = slot.sequence.block_size();
    let all: u128 = slot.sequence.total_tokens() as u128 + tokens.len() as u128;
    let blocks: u128 = slot.sequence.num_blocks() as u128 + hashes.len() as u128;
    blocks == all / block_size as u128
}

proof fn flush_stops(b: BuildView, order: Seq<Seq<char>>, m: nat, n: nat)
    requires
        m <= n,
        b.flush_all(order, m).1 is Some,
    ensures
        b.flush_all(order, n) == b.flush_all(order, m),
    decreases n,
{
    if m < n {
        flush_stops(b, order, m, (n - 1) as nat);
    }
}

proof fn skip_stops(b: BuildView, order: Seq<Seq<char>>, m: nat, n: nat)
    requires
        m <= n,
        b.skip_all(order, m).1 is Some,
    ensures
        b.skip_all(order, n) == b.skip_all(order, m),
    decreases n,
{
    if m < n {
        skip_stops(b, order, m, (n - 1) as nat);
    }
}

proof fn new_stops(
    b: BuildView,
    output: SchedulerOutput,
    m: nat,
    n: nat,
    ids: Seq<OperationId>,
    more: Seq<OperationId>,
)
    requires
        m <= n,
        m <= ids.len(),
        forall|i: int| 0 <= i < m ==> more[i] == #[trigger] ids[i],
        m == n || b.schedule_all_new(output, m, ids).1 is Some,
    ensures
        b.schedule_all_new(output, n, more) == b.schedule_all_new(output, m, ids),
    decreases n,
{
    if m < n {
        new_stops(b, output, m, (n - 1) as nat, ids, more);
    } else if m > 0 {
        new_stops(b, output, (m - 1) as nat, (m - 1) as nat, ids, more);
    }
}

proof fn cached_stops(
    b: BuildView,
    output: SchedulerOutput,
    m: nat,
    n: nat,
    ids: Seq<OperationId>,
    more: Seq<OperationId>,
)
    requires
        m <= n,
        m <= ids.len(),
        forall|i: int| 0 <= i < m ==> more[i] == #[trigger] ids[i],
        m == n || b.schedule_all_cached(output, m, ids).1 is Some,
    ensures
        b.schedule_all_cached(output, n, more) == b.schedule_all_cached(output, m, ids),
    decreases n,
{
    if m < n {
        cached_stops(b, output, m, (n - 1) as nat, ids, more);
    } else if m > 0 {
        cached_stops(b, output, (m - 1) as nat, (m - 1) as nat, ids, more);
    }
}

/// Whether `ids` are `n` random identities.
pub open spec fn random_ids(ids: Seq<OperationId>, n: nat) -> bool {
    ids.len() == n && forall|i: int| 0 <= i < n ==> protocol::is_random_id(#[trigger] ids[i])
}

impl KvConnectorLeaderCore {
    /// Forgets the finished requests whose slots waited for this metadata.
    fn drop_finishing(&mut self)
        requires
            old(self)@.wf(),
        ensures
            final(self)@.wf(),
            exists|order: Seq<Seq<char>>|
                lists(order, old(self)@.finishing) && final(self)@ == (LeaderView {
                    finishing: Set::empty(),
                    ..#[trigger] old(self)@.all_dropped(order, order.len())
                }),
    {
        let ghost before = self@;
        let requests: Vec<String> = self.finishing_requests.keys();
        let ghost order = table::key_views(requests@);
        let mut i: usize = 0;
        while i < requests.len()
            invariant
                i <= requests@.len(),
                order == table::key_views(requests@),
                self@.wf(),
                self@ == before.all_dropped(order, i as nat),
            decreases requests@.len() - i,
        {
            assert(order[i as int] == requests@[i as int]@);
            self.drop_request(&requests[i]);
            i = i + 1;
        }
        let ghost dropped = self@;
        self.finishing_requests.clear();
        assert(lists(order, before.finishing));
        assert(self@ =~= (LeaderView {
            finishing: Set::empty(),
            ..before.all_dropped(order, order.len())
        }));
    }

    /// Puts the onboards that started since the last metadata into this one.
    fn flush_onboardings(
        &mut self,
        md: &mut ConnectorMetadata,
        unmet: &mut KeySet<String>,
    ) -> (result: Result<(), String>)
        requires
            old(self)@.wf(),
        ensures
            final(self)@.wf(),
            exists|order: Seq<Seq<char>>|
                lists(order, old(self)@.onboarding) && (
                    BuildView { leader: final(self)@, metadata: final(md)@, unmet: final(unmet)@ },
                    failure(result),
                ) == #[trigger] (BuildView {
                    leader: old(self)@.onboardings_taken(),
                    metadata: old(md)@,
                    unmet: old(unmet)@,
                }).flush_all(order, order.len()),
    {
        let requests: Vec<String> = self.onboarding_slots.keys();
        let ghost order = table::key_views(requests@);
        assert(lists(order, self@.onboarding));
        self.onboarding_slots.clear();
        let ghost start = BuildView { leader: self@, metadata: md@, unmet: unmet@ };
        assert(start =~= (BuildView {
            leader: old(self)@.onboardings_taken(),
            metadata: old(md)@,
            unmet: old(unmet)@,
        }));
        let mut i: usize = 0;
        while i < requests.len()
            invariant
                i <= requests@.len(),
                order == table::key_views(requests@),
                order.len() == requests@.len(),
                lists(order, old(self)@.onboarding),
                start == (BuildView {
                    leader: old(self)@.onboardings_taken(),
                    metadata: old(md)@,
                    unmet: old(unmet)@,
                }),
                self@.wf(),
                (
                    BuildView { leader: self@, metadata: md@, unmet: unmet@ },
                    None::<Seq<char>>,
                ) == start.flush_all(order, i as nat),
            decreases requests@.len() - i,
        {
            assert(order[i as int] == requests@[i as int]@);
            match self.flush_onboarding(md, unmet, &requests[i]) {
                Ok(_) => {},
                Err(message) => {
                    proof {
                        flush_stops(start, order, (i + 1) as nat, order.len());
                    }
                    return Err(message);
                },
            }
            i = i + 1;
        }
        Ok(())
    }

    /// Takes over the requests that are scheduled for the first time.
    fn schedule_new_requests(
        &mut self,
        md: &mut ConnectorMetadata,
        unmet: &mut KeySet<String>,
        output: &SchedulerOutput,
    ) -> (result: Result<(), String>)
        requires
            old(self)@.wf(),
        ensures
            final(self)@.wf(),
            exists|ids: Seq<OperationId>|
                random_ids(ids, output.new_requests@.len()) && (
                    BuildView { leader: final(self)@, metadata: final(md)@, unmet: final(unmet)@ },
                    failure(result),
                ) == #[trigger] (BuildView {
                    leader: old(self)@,
                    metadata: old(md)@,
                    unmet: old(unmet)@,
                }).schedule_all_new(*output, output.new_requests@.len(), ids),
    {
        let ghost start = BuildView { leader: self@, metadata: md@, unmet: unmet@ };
        let ghost total = output.new_requests@.len();
        let ghost mut ids = Seq::<OperationId>::empty();
        let mut i: usize = 0;
        while i < output.new_requests.len()
            invariant
                i <= output.new_requests@.len(),
                total == output.new_requests@.len(),
                start == (BuildView {
                    leader: old(self)@,
                    metadata: old(md)@,
                    unmet: old(unmet)@,
                }),
                self@.wf(),
                random_ids(ids, i as nat),
                (
                    BuildView { leader: self@, metadata: md@, unmet: unmet@ },
                    None::<Seq<char>>,
                ) == start.schedule_all_new(*output, i as nat, ids),
            decreases output.new_requests@.len() - i,
        {
            let ghost before = BuildView { leader: self@, metadata: md@, unmet: unmet@ };
            let ghost earlier = ids;
            let request: &NewRequestData = &output.new_requests[i];
            let tokens: usize = output.scheduled_tokens_of(&request.request_id);
            let result = self.schedule_new_request(md, unmet, request, tokens);
            proof {
                let id = choose|id: OperationId|
                    protocol::is_random_id(id) && (
                        BuildView { leader: self@, metadata: md@, unmet: unmet@ },
                        failure(result),
                    ) == #[trigger] before.schedule_new(*request, tokens, id);
                ids = ids.push(id);
                new_stops(start, *output, i as nat, i as nat, earlier, ids);
                assert(random_ids(ids, (i + 1) as nat));
                if result is Err {
                    let padded = ids + Seq::new((total - ids.len()) as nat, |j: int| id);
                    new_stops(start, *output, (i + 1) as nat, total, ids, padded);
                    assert(random_ids(padded, total));
                }
            }
            match result {
                Ok(_) => {},
                Err(message) => {
                    return Err(message);
                },
            }
            i = i + 1;
        }
        Ok(())
    }

    /// Takes over the requests that were scheduled before.
    fn schedule_cached_requests(
        &mut self,
        md: &mut ConnectorMetadata,
        unmet: &mut KeySet<String>,
        output: &SchedulerOutput,
    ) -> (result: Result<(), String>)
        requires
            old(self)@.wf(),
        ensures
            final(self)@.wf(),
            exists|ids: Seq<OperationId>|
                random_ids(ids, output.cached_requests@.len()) && (
                    BuildView { leader: final(self)@, metadata: final(md)@, unmet: final(unmet)@ },
                    failure(result),
                ) == #[trigger] (BuildView {
                    leader: old(self)@,
                    metadata: old(md)@,
                    unmet: old(unmet)@,
                }).schedule_all_cached(*output, output.cached_requests@.len(), ids),
    {
        let ghost start = BuildView { leader: self@, metadata: md@, unmet: unmet@ };
        let ghost total = output.cached_requests@.len();
        let ghost mut ids = Seq::<OperationId>::empty();
        let mut i: usize = 0;
        while i < output.cached_requests.len()
            invariant
                i <= output.cached_requests@.len(),
                total == output.cached_requests@.len(),
                start == (BuildView {
                    leader: old(self)@,
                    metadata: old(md)@,
                    unmet: old(unmet)@,
                }),
                self@.wf(),
                random_ids(ids, i as nat),
                (
                    BuildView { leader: self@, metadata: md@, unmet: unmet@ },
                    None::<Seq<char>>,
                ) == start.schedule_all_cached(*output, i as nat, ids),
            decreases output.cached_requests@.len() - i,
        {
            let ghost before = BuildView { leader: self@, metadata: md@, unmet: unmet@ };
            let ghost earlier = ids;
            let request: &CachedRequestData = &output.cached_requests[i];
            let tokens: usize = output.scheduled_tokens_of(&request.request_id);
            let result = self.schedule_cached_request(md, unmet, request, tokens);
            proof {
                let id = choose|id: OperationId|
                    protocol::is_random_id(id) && (
                        BuildView { leader: self@, metadata: md@, unmet: unmet@ },
                        failure(result),
                    ) == #[trigger] before.schedule_cached(*request, tokens, id);
                ids = ids.push(id);
                cached_stops(start, *output, i as nat, i as nat, earlier, ids);
                assert(random_ids(ids, (i + 1) as nat));
                if result is Err {
                    let padded = ids + Seq::new((total - ids.len()) as nat, |j: int| id);
                    cached_stops(start, *output, (i + 1) as nat, total, ids, padded);
                    assert(random_ids(padded, total));
                }
            }
            match result {
                Ok(_) => {},
                Err(message) => {
                    return Err(message);
                },
            }
            i = i + 1;
        }
        Ok(())
    }

    /// Marks the requests in flight that were not met as not scheduled.
    fn skip_unmet(&mut self, unmet: &KeySet<String>) -> (result: Result<(), String>)
        requires
            old(self)@.wf(),
        ensures
            final(self)@.wf(),
            exists|order: Seq<Seq<char>>|
                lists(order, unmet@) && forall|metadata: MetadataView|
                    (
                        BuildView { leader: final(self)@, metadata, unmet: unmet@ },
                        failure(result),
                    ) == #[trigger] (BuildView {
                        leader: old(self)@,
                        metadata,
                        unmet: unmet@,
                    }).skip_all(order, order.len()),
    {
        let ghost before = self@;
        let requests: Vec<String> = unmet.keys();
        let ghost order = table::key_views(requests@);
        assert(lists(order, unmet@));
        let mut i: usize = 0;
        while i < requests.len()
            invariant
                i <= requests@.len(),
                before == old(self)@,
                order == table::key_views(requests@),
                order.len() == requests@.len(),
                lists(order, unmet@),
                self@.wf(),
                forall|metadata: MetadataView|
                    (
                        BuildView { leader: self@, metadata, unmet: unmet@ },
                        None::<Seq<char>>,
                    ) == #[trigger] (BuildView {
                        leader: before,
                        metadata,
                        unmet: unmet@,
                    }).skip_all(order, i as nat),
            decreases requests@.len() - i,
        {
            let ghost mid = self@;
            assert(order[i as int] == requests@[i as int]@);
            let result = self.skip_request(&requests[i]);
            proof {
                assert forall|metadata: MetadataView|
                    (
                        BuildView { leader: self@, metadata, unmet: unmet@ },
                        failure(result),
                    ) == #[trigger] (BuildView {
                        leader: before,
                        metadata,
                        unmet: unmet@,
                    }).skip_all(order, (i + 1) as nat) by {
                    let start = BuildView { leader: before, metadata, unmet: unmet@ };
                    let so_far = start.skip_all(order, i as nat);
                    assert(so_far.0 == (BuildView { leader: mid, metadata, unmet: unmet@ }));
                    let next = (BuildView { leader: mid, metadata, unmet: unmet@ }).skip(
                        order[i as int],
                    );
                    assert(next == start.skip_all(order, (i + 1) as nat));
                }
            }
            match result {
                Ok(_) => {},
                Err(message) => {
                    proof {
                        assert forall|metadata: MetadataView|
                            (
                                BuildView { leader: self@, metadata, unmet: unmet@ },
                                Some(message@),
                            ) == #[trigger] (BuildView {
                                leader: before,
                                metadata,
                                unmet: unmet@,
                            }).skip_all(order, order.len()) by {
                            let start = BuildView { leader: before, metadata, unmet: unmet@ };
                            assert(start.skip_all(order, (i + 1) as nat).1 == Some(message@));
                            skip_stops(start, order, (i + 1) as nat, order.len());
                        }
                    }
                    return Err(message);
                },
            }
            i = i + 1;
        }
        Ok(())
    }

    /// Reports the state of the transfers of every active request.
    fn report_transfers(&self, md: &mut ConnectorMetadata)
        ensures
            forall|unmet: Set<Seq<char>>|
                final(md)@ == #[trigger] (BuildView {
                    leader: self@,
                    metadata: old(md)@,
                    unmet,
                }).reported(),
    {
        let requests: Vec<String> = self.active_slot_keys.keys();
        let ghost order = table::key_views(requests@);
        let ghost entries = self@.manager.effects.signals;
        let ghost start = md@;
        md.loads_done = KeySet::new();
        md.stores_done = KeySet::new();
        md.failed = KeySet::new();
        let mut i: usize = 0;
        while i < requests.len()
            invariant
                i <= requests@.len(),
                order == table::key_views(requests@),
                entries == self@.manager.effects.signals,
                md@ == (MetadataView {
                    loads_done: md@.loads_done,
                    stores_done: md@.stores_done,
                    failed: md@.failed,
                    ..start
                }),
                forall|id: Seq<char>| #[trigger]
                    md@.loads_done.contains(id) == (order.subrange(0, i as int).contains(id)
                        && signals::loads_done(entries, id) == Some(true)),
                forall|id: Seq<char>| #[trigger]
                    md@.stores_done.contains(id) == (order.subrange(0, i as int).contains(id)
                        && signals::stores_done(entries, id) == Some(true)),
                forall|id: Seq<char>| #[trigger]
                    md@.failed.contains(id) == (order.subrange(0, i as int).contains(id)
                        && signals::failed(entries, id)),
            decreases requests@.len() - i,
        {
            let ghost upto = order.subrange(0, i as int);
            let request_id: &String = &requests[i];
            assert(order[i as int] == request_id@);
            assert(order.subrange(0, i + 1) =~= upto.push(request_id@));
            assert forall|id: Seq<char>| #[trigger]
                upto.push(request_id@).contains(id) == (upto.contains(id) || id == request_id@) by {
                if upto.contains(id) {
                    let k = choose|k: int| 0 <= k < upto.len() && upto[k] == id;
                    assert(upto.push(request_id@)[k] == id);
                }
                if id == request_id@ {
                    assert(upto.push(request_id@)[upto.len() as int] == id);
                }
            }
            let signal = &self.manager.effects.transfer_signal;
            if signal.is_loads_done(request_id) == Some(true) {
                md.loads_done.insert(request_id.clone());
            }
            if signal.is_stores_done(request_id) == Some(true) {
                md.stores_done.insert(request_id.clone());
            }
            if signal.has_failed(request_id) {
                md.failed.insert(request_id.clone());
            }
            i = i + 1;
        }
        proof {
            assert(order.subrange(0, requests@.len() as int) =~= order);
            assert(order.to_set() == self@.active.dom());
            assert forall|unmet: Set<Seq<char>>|
                md@ == #[trigger] (BuildView { leader: self@, metadata: start, unmet }).reported() by {
                let target = (BuildView { leader: self@, metadata: start, unmet }).reported();
                assert(md@.loads_done =~= target.loads_done);
                assert(md@.stores_done =~= target.stores_done);
                assert(md@.failed =~= target.failed);
                assert(md@ =~= target);
            }
        }
    }
}

/// The order in which a build meets requests, and the identities of the offloads that it starts.
pub struct BuildPlan {
    pub finishing: Seq<Seq<char>>,
    pub onboarding: Seq<Seq<char>>,
    pub new_ids: Seq<OperationId>,
    pub cached_ids: Seq<OperationId>,
    pub unmet: Seq<Seq<char>>,
}

impl LeaderView {
    /// The leader at the start of a build: finished requests are gone, the iteration is counted,
    /// and every request in flight is still to be met.
    pub open spec fn build_started(self, finishing: Seq<Seq<char>>) -> BuildView {
        let leader = LeaderView {
            finishing: Set::empty(),
            iteration: (self.iteration + 1) as u64,
            ..self.all_dropped(finishing, finishing.len())
        };
        BuildView {
            leader: leader.onboardings_taken(),
            metadata: MetadataView::empty(leader.iteration),
            unmet: leader.inflight,
        }
    }

    /// The build with the onboards, the new requests and the cached requests taken over.
    pub open spec fn build_scheduled(self, output: SchedulerOutput, plan: BuildPlan) -> (
        BuildView,
        Option<Seq<char>>,
    ) {
        let flushed = self.build_started(plan.finishing).flush_all(
            plan.onboarding,
            plan.onboarding.len(),
        );
        if flushed.1 is Some {
            flushed
        } else {
            let fresh = flushed.0.schedule_all_new(
                output,
                output.new_requests@.len(),
                plan.new_ids,
            );
            if fresh.1 is Some {
                fresh
            } else {
                fresh.0.schedule_all_cached(
                    output,
                    output.cached_requests@.len(),
                    plan.cached_ids,
                )
            }
        }
    }

    /// The build with the requests that were not scheduled marked as skipped.
    pub open spec fn built(self, output: SchedulerOutput, plan: BuildPlan) -> (
        BuildView,
        Option<Seq<char>>,
    ) {
        let scheduled = self.build_scheduled(output, plan);
        if scheduled.1 is Some {
            scheduled
        } else {
            scheduled.0.skip_all(plan.unmet, plan.unmet.len())
        }
    }

    /// Whether a plan lists every request that has to be met, and has random identities.
    pub open spec fn plans(self, output: SchedulerOutput, plan: BuildPlan) -> bool {
        &&& lists(plan.finishing, self.finishing)
        &&& lists(plan.onboarding, self.onboarding)
        &&& random_ids(plan.new_ids, output.new_requests@.len())
        &&& random_ids(plan.cached_ids, output.cached_requests@.len())
        &&& self.build_scheduled(output, plan).1 is None ==> lists(
            plan.unmet,
            self.build_scheduled(output, plan).0.unmet,
        )
    }
}

proof fn dropping_keeps_lists(leader: LeaderView, order: Seq<Seq<char>>, n: nat)
    ensures
        leader.all_dropped(order, n).onboarding == leader.onboarding,
        leader.all_dropped(order, n).inflight == leader.inflight,
        leader.all_dropped(order, n).iteration == leader.iteration,
    decreases n,
{
    if n > 0 {
        dropping_keeps_lists(leader, order, (n - 1) as nat);
    }
}

/// A seq of ids that nothing uses: all alike.
spec fn some_ids(id: OperationId, n: nat) -> Seq<OperationId> {
    Seq::new(n, |i: int| id)
}

impl KvConnectorLeaderCore {
    /// Builds the metadata of the next iteration: finished requests are forgotten, onboards that
    /// started are handed to the workers, the scheduler's decisions are applied, and requests in
    /// flight that it did not schedule are marked. The first failure ends the build. Every new
    /// slot comes with exactly the immediate loads that it declares.
    pub fn build_connector_metadata(&mut self, scheduler_output: SchedulerOutput) -> (outcome:
        Result<ConnectorMetadata, String>)
        requires
            old(self)@.wf(),
            old(self)@.iteration < u64::MAX,
        ensures
            final(self)@.wf(),
            exists|plan: BuildPlan|
                {
                    let out = #[trigger] old(self)@.built(scheduler_output, plan);
                    &&& old(self)@.plans(scheduler_output, plan)
                    &&& final(self)@ == out.0.leader
                    &&& match outcome {
                        Ok(md) => out.1 is None && md@ == out.0.reported(),
                        Err(message) => out.1 == Some(message@),
                    }
                },
            outcome matches Ok(md) ==> {
                &&& md@.iteration == old(self)@.iteration + 1
                &&& leader_laws::creates_once(md@)
                &&& leader_laws::declares_loads(md@)
                &&& leader_laws::carries_declared_loads(md@)
            },
            outcome matches Ok(md) ==> {
                let active = final(self)@.active.dom();
                let entries = final(self)@.manager.effects.signals;
                &&& forall|id: Seq<char>| #[trigger]
                    md@.loads_done.contains(id) <==> {
                        &&& active.contains(id)
                        &&& exists|i: int|
                            0 <= i < entries.len() && (#[trigger] entries[i]).request_id == id
                                && entries[i].transfer_type == TransferType::Load
                        &&& forall|i: int|
                            0 <= i < entries.len() && (#[trigger] entries[i]).request_id == id
                                && entries[i].transfer_type == TransferType::Load
                                ==> entries[i].state != SignalState::Pending
                    }
                &&& forall|id: Seq<char>| #[trigger]
                    md@.stores_done.contains(id) <==> {
                        &&& active.contains(id)
                        &&& exists|i: int|
                            0 <= i < entries.len() && (#[trigger] entries[i]).request_id == id
                                && entries[i].transfer_type == TransferType::Store
                        &&& forall|i: int|
                            0 <= i < entries.len() && (#[trigger] entries[i]).request_id == id
                                && entries[i].transfer_type == TransferType::Store
                                ==> entries[i].state != SignalState::Pending
                    }
                &&& forall|id: Seq<char>| #[trigger]
                    md@.failed.contains(id) <==> {
                        &&& active.contains(id)
                        &&& exists|i: int|
                            0 <= i < entries.len() && (#[trigger] entries[i]).request_id == id
                                && entries[i].state == SignalState::Failed
                    }
            },
    {
        let ghost before = self@;
        proof {
            leader_laws::queues_are_countable(*self);
        }
        let output: SchedulerOutput = scheduler_output;
        let some: OperationId = protocol::new_operation_id();
        self.drop_finishing();
        let ghost finishing = choose|order: Seq<Seq<char>>|
            lists(order, before.finishing) && self@ == (LeaderView {
                finishing: Set::empty(),
                ..#[trigger] before.all_dropped(order, order.len())
            });
        proof {
            dropping_keeps_lists(before, finishing, finishing.len());
        }
        let ghost dropped = self@;
        self.iteration_counter = self.iteration_counter + 1;
        assert(self@ =~= (LeaderView { iteration: (before.iteration + 1) as u64, ..dropped }));
        let mut md = ConnectorMetadata::new(self.iteration_counter);
        let mut unmet: KeySet<String> = self.inflight_requests.copy();
        let ghost counted = self@;
        assert(counted =~= (LeaderView {
            finishing: Set::empty(),
            iteration: (before.iteration + 1) as u64,
            ..before.all_dropped(finishing, finishing.len())
        }));
        let flushed = self.flush_onboardings(&mut md, &mut unmet);
        let ghost at_flush = BuildView { leader: self@, metadata: md@, unmet: unmet@ };
        let ghost onboarding = choose|order: Seq<Seq<char>>|
            lists(order, counted.onboarding) && (at_flush, failure(flushed)) == #[trigger] (
            BuildView {
                leader: counted.onboardings_taken(),
                metadata: MetadataView::empty(counted.iteration),
                unmet: counted.inflight,
            }).flush_all(order, order.len());
        let ghost new_none = some_ids(some, output.new_requests@.len());
        let ghost cached_none = some_ids(some, output.cached_requests@.len());
        match flushed {
            Ok(_) => {},
            Err(message) => {
                proof {
                    let plan = BuildPlan {
                        finishing,
                        onboarding,
                        new_ids: new_none,
                        cached_ids: cached_none,
                        unmet: Seq::empty(),
                    };
                    assert(before.plans(output, plan));
                    assert(before.built(output, plan).0.leader == self@);
                }
                return Err(message);
            },
        }
        let fresh = self.schedule_new_requests(&mut md, &mut unmet, &output);
        let ghost at_new = BuildView { leader: self@, metadata: md@, unmet: unmet@ };
        let ghost new_ids = choose|ids: Seq<OperationId>|
            random_ids(ids, output.new_requests@.len()) && (at_new, failure(fresh))
                == #[trigger] at_flush.schedule_all_new(output, output.new_requests@.len(), ids);
        match fresh {
            Ok(_) => {},
            Err(message) => {
                proof {
                    let plan = BuildPlan {
                        finishing,
                        onboarding,
                        new_ids,
                        cached_ids: cached_none,
                        unmet: Seq::empty(),
                    };
                    assert(before.plans(output, plan));
                    assert(before.built(output, plan).0.leader == self@);
                }
                return Err(message);
            },
        }
        let cached = self.schedule_cached_requests(&mut md, &mut unmet, &output);
        let ghost at_cached = BuildView { leader: self@, metadata: md@, unmet: unmet@ };
        let ghost cached_ids = choose|ids: Seq<OperationId>|
            random_ids(ids, output.cached_requests@.len()) && (at_cached, failure(cached))
                == #[trigger] at_new.schedule_all_cached(
                output,
                output.cached_requests@.len(),
                ids,
            );
        match cached {
            Ok(_) => {},
            Err(message) => {
                proof {
                    let plan = BuildPlan {
                        finishing,
                        onboarding,
                        new_ids,
                        cached_ids,
                        unmet: Seq::empty(),
                    };
                    assert(before.plans(output, plan));
                    assert(before.built(output, plan).0.leader == self@);
                }
                return Err(message);
            },
        }
        let skipped = self.skip_unmet(&unmet);
        let ghost order = choose|order: Seq<Seq<char>>|
            lists(order, unmet@) && forall|metadata: MetadataView|
                (
                    BuildView { leader: self@, metadata, unmet: unmet@ },
                    failure(skipped),
                ) == #[trigger] (BuildView {
                    leader: at_cached.leader,
                    metadata,
                    unmet: unmet@,
                }).skip_all(order, order.len());
        let ghost plan = BuildPlan { finishing, onboarding, new_ids, cached_ids, unmet: order };
        let ghost done = BuildView { leader: self@, metadata: md@, unmet: unmet@ };
        proof {
            let out = at_cached.skip_all(order, order.len());
            assert(out == (done, failure(skipped)));
            assert(before.plans(output, plan));
            assert(before.built(output, plan) == out);
        }
        match skipped {
            Ok(_) => {
                self.report_transfers(&mut md);
                assert(md@ == done.reported());
                proof {
                    leader_laws::metadata_counts_builds(before, output, plan);
                    leader_laws::metadata_keeps_slot_contract(before, output, plan);
                    leader_laws::metadata_carries_declared_loads(before, output, plan);
                    let active = self@.active.dom();
                    let entries = self@.manager.effects.signals;
                    assert forall|id: Seq<char>| #[trigger] md@.loads_done.contains(id) <==> {
                        &&& active.contains(id)
                        &&& exists|i: int|
                            0 <= i < entries.len() && (#[trigger] entries[i]).request_id == id
                                && entries[i].transfer_type == TransferType::Load
                        &&& forall|i: int|
                            0 <= i < entries.len() && (#[trigger] entries[i]).request_id == id
                                && entries[i].transfer_type == TransferType::Load
                                ==> entries[i].state != SignalState::Pending
                    } by {
                        metadata_laws::metadata_reports_ended_transfers(done, id);
                    }
                    assert forall|id: Seq<char>| #[trigger] md@.stores_done.contains(id) <==> {
                        &&& active.contains(id)
                        &&& exists|i: int|
                            0 <= i < entries.len() && (#[trigger] entries[i]).request_id == id
                                && entries[i].transfer_type == TransferType::Store
                        &&& forall|i: int|
                            0 <= i < entries.len() && (#[trigger] entries[i]).request_id == id
                                && entries[i].transfer_type == TransferType::Store
                                ==> entries[i].state != SignalState::Pending
                    } by {
                        metadata_laws::metadata_reports_ended_transfers(done, id);
                    }
                    assert forall|id: Seq<char>| #[trigger] md@.failed.contains(id) <==> {
                        &&& active.contains(id)
                        &&& exists|i: int|
                            0 <= i < entries.len() && (#[trigger] entries[i]).request_id == id
                                && entries[i].state == SignalState::Failed
                    } by {
                        metadata_laws::metadata_reports_ended_transfers(done, id);
                    }
                }
                Ok(md)
            },
            Err(message) => Err(message),
        }
    }
}

} // verus!
