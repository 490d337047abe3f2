//! The life of requests under the leader: from their first slot to the end of their transfers.

use vstd::prelude::*;

use crate::baggage;
use crate::effect_context::ContextView;
use crate::leader_core::{self, apply_quietly, KvConnectorLeaderCore, LeaderView};
use crate::protocol::{BlockId, SequenceHash, SlotKey, SlotKeyView, TransferType};
use crate::signals::{self, SignalEntryView, SignalState};
use crate::slot_api::{Slot, SlotError, SlotManager, SlotState};
use crate::slot_machine::{self, EventView, PhaseView, SlotContext, SlotEvent};
use crate::slot_manager::{self, ManagerView, PoolStatus, PoolTier};
use crate::slot_runtime::{SlotView, VllmConnectorSlot};
use crate::table::Table;
use crate::text;
use crate::tokens::SequenceView;

verus! {

impl LeaderView {
    /// The generation that the next life of a request id gets: one more than the last, or zero.
    /// It stops at `u64::MAX`.
    pub open spec fn next_generation(self, request_id: Seq<char>) -> u64 {
        match leader_core::lookup(self.generations, request_id) {
            Some(last) => if last < u64::MAX {
                (last + 1) as u64
            } else {
                last
            },
            None => 0,
        }
    }

    /// The key under which a slot of a request is created: the active one, or one of the next
    /// generation.
    pub open spec fn key_for(self, request_id: Seq<char>) -> SlotKeyView {
        match leader_core::lookup(self.active, request_id) {
            Some(key) => key,
            None => (request_id, self.next_generation(request_id)),
        }
    }

    /// With a key allocated for a request.
    pub open spec fn with_key(self, request_id: Seq<char>) -> LeaderView {
        if self.active.dom().contains(request_id) {
            self
        } else {
            LeaderView {
                generations: self.generations.insert(
                    request_id,
                    self.next_generation(request_id),
                ),
                active: self.active.insert(request_id, self.key_for(request_id)),
                ..self
            }
        }
    }

    /// With a fresh slot for a request. A trace context that is already known stays.
    pub open spec fn created(
        self,
        request_id: Seq<char>,
        tokens: Seq<u32>,
        hashes: Seq<SequenceHash>,
        traceparent: Option<Seq<char>>,
    ) -> LeaderView {
        let keyed = self.with_key(request_id);
        let traced = LeaderView {
            inflight: self.inflight.insert(request_id),
            traces: match traceparent {
                Some(text) => if self.traces.dom().contains(request_id) {
                    self.traces
                } else {
                    self.traces.insert(request_id, text)
                },
                None => self.traces,
            },
            ..keyed
        };
        let key = self.key_for(request_id);
        let fresh = SlotView::fresh(
            request_id,
            SequenceView { tokens, hashes, block_size: self.manager.block_size as nat },
            self.manager.block_size,
        );
        traced.with_slot(
            self.manager,
            key,
            SlotView { generation: key.1, ..traced.traced(request_id, fresh) },
        )
    }

    /// Without a request that has no slot any more.
    pub open spec fn forgotten(self, request_id: Seq<char>) -> LeaderView {
        LeaderView {
            inflight: self.inflight.remove(request_id),
            active: self.active.remove(request_id),
            manager: self.manager.without_signal(request_id),
            ..self
        }
    }

    /// What happens when the engine finished a request: the leader, and whether the blocks have
    /// to stay because stores are still running.
    pub open spec fn finished(self, request_id: Seq<char>) -> (LeaderView, bool) {
        let left = LeaderView {
            onboarding: self.onboarding.remove(request_id),
            traces: self.traces.remove(request_id),
            baggage: self.baggage.remove(request_id),
            ..self
        };
        match self.find(request_id) {
            Err(_) => (left.forgotten(request_id), false),
            Ok((key, slot)) => {
                let now: std::time::Instant = arbitrary();
                let ended = slot.in_phase(
                    slot_machine::step(
                        slot.phase,
                        EventView::RequestFinished,
                        slot.local_context(),
                        0,
                        now,
                    ).0,
                );
                let running = signals::stores_done(self.manager.effects.signals, request_id)
                    == Some(false);
                if ended.phase is Finishing {
                    // The slot stays until the next metadata.
                    (
                        LeaderView {
                            inflight: self.inflight.remove(request_id),
                            finishing: self.finishing.insert(request_id),
                            ..left.with_slot(self.manager, key, ended)
                        },
                        running,
                    )
                } else {
                    (
                        LeaderView {
                            manager: ManagerView {
                                slots: self.manager.slots.remove(key),
                                ..self.manager
                            },
                            ..left
                        }.forgotten(request_id),
                        running,
                    )
                }
            },
        }
    }

    /// With a preempted request: its slot is preempted and its transfers are forgotten, where
    /// it has a slot.
    pub open spec fn preempted(self, request_id: Seq<char>) -> LeaderView {
        match self.find(request_id) {
            Err(_) => self,
            Ok((key, slot)) => {
                let now: std::time::Instant = arbitrary();
                self.with_slot(
                    self.manager,
                    key,
                    slot.in_phase(
                        slot_machine::step(
                            slot.phase,
                            EventView::Preempt,
                            self.context(),
                            0,
                            now,
                        ).0,
                    ),
                ).silenced(request_id)
            },
        }
    }

    /// With the transfers of a request forgotten.
    pub open spec fn silenced(self, request_id: Seq<char>) -> LeaderView {
        LeaderView { manager: self.manager.without_signal(request_id), ..self }
    }

    /// With the first `n` of some requests preempted in order.
    pub open spec fn all_preempted(self, request_ids: Seq<Seq<char>>, n: nat) -> LeaderView
        decreases n,
    {
        if n == 0 {
            self
        } else {
            self.all_preempted(request_ids, (n - 1) as nat).preempted(request_ids[n - 1])
        }
    }

    /// Without any request. Slots and trace contexts stay.
    pub open spec fn unlisted(self) -> LeaderView {
        LeaderView {
            inflight: Set::empty(),
            onboarding: Set::empty(),
            finishing: Set::empty(),
            generations: Map::empty(),
            active: Map::empty(),
            manager: ManagerView {
                effects: ContextView { signals: Seq::empty(), ..self.manager.effects },
                ..self.manager
            },
            ..self
        }
    }

    /// Without any request or slot. Trace contexts stay.
    pub open spec fn cleared(self) -> LeaderView {
        LeaderView { manager: self.unlisted().manager.without_slots(), ..self.unlisted() }
    }
}

/// The views of a sequence of texts.
pub open spec fn texts(strings: Seq<String>) -> Seq<Seq<char>> {
    strings.map_values(|s: String| s@)
}

impl KvConnectorLeaderCore {
    /// The key of a request; a request without one gets a key of the next generation.
    pub fn allocate_slot_key(&mut self, request_id: &String) -> (key: SlotKey)
        requires
            old(self)@.wf(),
        ensures
            key@ == old(self)@.key_for(request_id@),
            key@.0 == request_id@,
            final(self)@ == old(self)@.with_key(request_id@),
            final(self)@.wf(),
    {
        match self.active_slot_key(request_id) {
            Some(key) => {
                return key;
            },
            None => {},
        }
        let generation: u64 = match self.request_generations.get(request_id) {
            Some(last) => last.saturating_add(1),
            None => 0,
        };
        self.request_generations.insert(request_id.clone(), generation);
        let key = SlotKey::new(request_id.clone(), generation);
        self.active_slot_keys.insert(request_id.clone(), key.clone());
        proof {
            assert(self@.active =~= old(self)@.active.insert(request_id@, key@));
            assert(self@ =~= old(self)@.with_key(request_id@));
        }
        key
    }

    /// The value of `key` in the baggage of a request.
    pub fn baggage_value(&self, request_id: &String, key: &str) -> (value: Option<String>)
        ensures
            match leader_core::lookup(self@.baggage, request_id@) {
                Some(text) => match value {
                    Some(value) => baggage::value_of(text, key@) == Some(value@),
                    None => baggage::value_of(text, key@) is None,
                },
                None => value is None,
            },
    {
        match self.request_baggage.get(request_id) {
            Some(text) => baggage::baggage_value(text.as_str(), key),
            None => None,
        }
    }

    /// Whether there is a slot for a request.
    pub fn has_slot(&self, request_id: &String) -> (found: bool)
        ensures
            found == self@.has(request_id@),
    {
        match self.active_slot_key(request_id) {
            Some(key) => self.manager.has_slot(&key),
            None => false,
        }
    }

    /// Creates the slot of a request with the given tokens, whose full blocks `hashes` identify.
    /// `traceparent` is the trace context of the caller.
    pub fn create_slot(
        &mut self,
        request_id: String,
        tokens: Vec<u32>,
        hashes: Vec<SequenceHash>,
        traceparent: Option<String>,
    ) -> (outcome: Result<(), String>)
        requires
            old(self)@.wf(),
            tokens@.len() > 0,
            hashes@.len() == tokens@.len() / old(self)@.manager.block_size as nat,
        ensures
            outcome is Ok,
            final(self)@ == old(self)@.created(
                request_id@,
                tokens@,
                hashes@,
                text::text_view(traceparent),
            ),
            final(self)@.wf(),
    {
        let ghost before = self@;
        let key: SlotKey = self.allocate_slot_key(&request_id);
        let ghost keyed = self@;
        let _created = self.manager.create_slot(&key, tokens, hashes);
        self.inflight_requests.insert(request_id.clone());
        if !self.request_traces.contains_key(&request_id) {
            match traceparent {
                Some(text) => {
                    self.request_traces.insert(request_id.clone(), text);
                },
                None => {},
            }
        }
        let ghost traces = match text::text_view(traceparent) {
            Some(text) => if before.traces.dom().contains(request_id@) {
                before.traces
            } else {
                before.traces.insert(request_id@, text)
            },
            None => before.traces,
        };
        assert(self@.traces =~= traces);
        let ghost fresh = self@.manager.slots[key@];
        let ghost made = self@;
        match self.open_slot(&request_id) {
            Ok((key, slot)) => {
                let mut slot: VllmConnectorSlot = slot;
                self.trace(&request_id, &mut slot);
                slot.set_generation(key.generation);
                self.close_slot(&key, slot);
            },
            Err(_message) => {},
        }
        proof {
            let target = before.created(
                request_id@,
                tokens@,
                hashes@,
                text::text_view(traceparent),
            );
            assert(made.find(request_id@) is Ok);
            assert(self@.manager.slots =~= target.manager.slots);
            assert(self@ =~= target);
        }
        Ok(())
    }

    /// Takes note that the engine finished a request. The answer says whether its blocks have to
    /// stay because stores are still running.
    pub fn request_finished(&mut self, request_id: String, _block_ids: Vec<BlockId>) -> (outcome:
        Result<bool, String>)
        requires
            old(self)@.wf(),
        ensures
            outcome matches Ok(busy) && (final(self)@, busy) == old(self)@.finished(request_id@),
            final(self)@.wf(),
            outcome == Ok::<bool, String>(true) <==> {
                let entries = old(self)@.manager.effects.signals;
                &&& old(self)@.active.dom().contains(request_id@)
                &&& old(self)@.manager.slots.dom().contains(old(self)@.active[request_id@])
                &&& exists|i: int|
                    0 <= i < entries.len() && (#[trigger] entries[i]).request_id == request_id@
                        && entries[i].transfer_type == TransferType::Store && entries[i].state
                        == SignalState::Pending
            },
    {
        proof {
            blocks_stay_while_stores_run(self@, request_id@);
        }
        let ghost before = self@;
        self.onboarding_slots.remove(&request_id);
        self.request_traces.remove(&request_id);
        self.request_baggage.remove(&request_id);
        let ghost left = LeaderView {
            onboarding: before.onboarding.remove(request_id@),
            traces: before.traces.remove(request_id@),
            baggage: before.baggage.remove(request_id@),
            ..before
        };
        assert(self@.traces =~= left.traces);
        assert(self@.baggage =~= left.baggage);
        assert(self@ =~= left);
        let (key, slot) = match self.open_slot(&request_id) {
            Err(_message) => {
                self.forget(&request_id);
                return Ok(false);
            },
            Ok(opened) => opened,
        };
        let stores_done: bool = match self.manager.effects.transfer_signal.is_stores_done(
            &request_id,
        ) {
            Some(done) => done,
            None => true,
        };
        let mut slot: VllmConnectorSlot = slot;
        if let SlotState::Onboarding(_tokens) = slot.state() {
            slot.discard_pending_operations();
        }
        let ghost start = slot@;
        let _marked = slot.mark_as_finished(self.iteration_counter);
        proof {
            let now: std::time::Instant = arbitrary();
            let next = slot_machine::step(
                start.phase,
                EventView::RequestFinished,
                start.local_context(),
                0,
                now,
            );
            assert(slot@ == start.in_phase(next.0));
        }
        if slot.state() == SlotState::Finishing {
            self.close_slot(&key, slot);
            self.inflight_requests.remove(&request_id);
            self.finishing_requests.insert(request_id);
            proof {
                let target = before.finished(request_id@).0;
                assert(self@.manager.slots =~= target.manager.slots);
                assert(self@ =~= target);
            }
        } else {
            self.forget(&request_id);
            proof {
                let target = before.finished(request_id@).0;
                assert(self@ =~= target);
            }
        }
        Ok(!stores_done)
    }

    /// Forgets a request that has no slot any more.
    fn forget(&mut self, request_id: &String)
        requires
            old(self)@.wf(),
        ensures
            final(self)@ == old(self)@.forgotten(request_id@),
            final(self)@.wf(),
    {
        self.inflight_requests.remove(request_id);
        self.active_slot_keys.remove(request_id);
        self.manager.remove_signal(request_id);
        assert(self@.active =~= old(self)@.active.remove(request_id@));
        assert(self@ =~= old(self)@.forgotten(request_id@));
    }

    /// Preempts the slots of some requests, without carrying out the effects, and forgets their
    /// transfers.
    pub fn handle_preemptions_via_machine(&mut self, preempted_req_ids: &[String])
        requires
            old(self)@.wf(),
        ensures
            final(self)@ == old(self)@.all_preempted(
                texts(preempted_req_ids@),
                preempted_req_ids@.len(),
            ),
            final(self)@.wf(),
    {
        let ghost before = self@;
        let mut i: usize = 0;
        while i < preempted_req_ids.len()
            invariant
                i <= preempted_req_ids@.len(),
                before == old(self)@,
                self@.wf(),
                self@ == before.all_preempted(texts(preempted_req_ids@), i as nat),
            decreases preempted_req_ids@.len() - i,
        {
            assert(texts(preempted_req_ids@)[i as int] == preempted_req_ids@[i as int]@);
            self.preempt_slot(&preempted_req_ids[i]);
            i = i + 1;
        }
    }

    fn preempt_slot(&mut self, request_id: &String)
        requires
            old(self)@.wf(),
        ensures
            final(self)@ == old(self)@.preempted(request_id@),
            final(self)@.wf(),
    {
        let ghost before = self@;
        let ctx: SlotContext = self.slot_context();
        match self.open_slot(request_id) {
            Err(_message) => {},
            Ok((key, slot)) => {
                let mut slot: VllmConnectorSlot = slot;
                let ghost start = slot@;
                apply_quietly(&mut slot, SlotEvent::Preempt, &ctx);
                proof {
                    let now: std::time::Instant = arbitrary();
                    let next = slot_machine::step(start.phase, EventView::Preempt, ctx, 0, now);
                    assert(slot@ == start.in_phase(next.0));
                }
                self.close_slot(&key, slot);
                self.manager.remove_signal(request_id);
                proof {
                    let target = before.preempted(request_id@);
                    assert(self@.manager.slots =~= target.manager.slots);
                    assert(self@ =~= target);
                }
            },
        }
    }

    /// Forgets all requests, drops their slots and names the pool to reset. Outside of
    /// development mode nothing happens. The flags say which pools there are; where there is no
    /// such pool the slots stay.
    pub fn clear_pool(
        &mut self,
        pool: &str,
        dev_mode: bool,
        device: bool,
        host: bool,
        disk: bool,
    ) -> (outcome: Result<PoolTier, String>)
        requires
            old(self)@.wf(),
        ensures
            final(self)@.wf(),
            if dev_mode {
                &&& final(self)@ == match outcome {
                    Ok(_) => old(self)@.cleared(),
                    Err(_) => old(self)@.unlisted(),
                }
                &&& exists|resolved: Result<PoolTier, SlotError>|
                    #[trigger] slot_manager::resolves_pool(
                        resolved,
                        text::lower_case(pool@),
                        device,
                        host,
                        disk,
                    ) && match resolved {
                        Ok(tier) => outcome == Ok::<PoolTier, String>(tier),
                        Err(error) => outcome matches Err(message) && message@
                            == error.message_view(),
                    }
            } else {
                &&& final(self)@ == old(self)@
                &&& outcome matches Err(message)
                &&& message@
                    == "clear_pool called but KVBM_DEV_MODE is not enabled. Set KVBM_DEV_MODE=TRUE to allow destructive pool operations."@
            },
    {
        if !dev_mode {
            return Err(
                "clear_pool called but KVBM_DEV_MODE is not enabled. Set KVBM_DEV_MODE=TRUE to allow destructive pool operations.".to_string(),
            );
        }
        self.inflight_requests.clear();
        self.onboarding_slots.clear();
        self.finishing_requests.clear();
        self.request_generations.clear();
        self.active_slot_keys.clear();
        self.manager.clear_signal();
        assert(self@.active =~= Map::<Seq<char>, SlotKeyView>::empty());
        assert(self@ =~= old(self)@.unlisted());
        match self.manager.clear_pool(pool, device, host, disk) {
            Ok(tier) => {
                assert(self@ =~= old(self)@.cleared());
                Ok(tier)
            },
            Err(error) => Err(error.to_string()),
        }
    }

    /// The status of each pool that is there, by its name.
    pub fn get_pool_status(
        &self,
        device: Option<PoolStatus>,
        host: Option<PoolStatus>,
        disk: Option<PoolStatus>,
    ) -> (pools: Table<String, PoolStatus>)
        ensures
            pools@ == slot_manager::pool_status(device, host, disk),
    {
        self.manager.get_pool_status(device, host, disk)
    }
}

/// A request id that is used again after its request is gone gets a new key: generations grow
/// as long as the counter lasts.
pub proof fn reused_request_gets_new_key(leader: LeaderView, request_id: Seq<char>)
    requires
        leader.wf(),
        leader.active.dom().contains(request_id),
        leader.active[request_id].1 < u64::MAX,
    ensures
        leader.forgotten(request_id).key_for(request_id) != leader.active[request_id],
        leader.forgotten(request_id).key_for(request_id).1 == leader.active[request_id].1 + 1,
{
}

/// Creating a slot twice keeps the key and starts the slot afresh.
pub proof fn created_slot_keeps_key(
    leader: LeaderView,
    request_id: Seq<char>,
    tokens: Seq<u32>,
    hashes: Seq<SequenceHash>,
    traceparent: Option<Seq<char>>,
)
    requires
        leader.wf(),
    ensures
        ({
            let after = leader.created(request_id, tokens, hashes, traceparent);
            &&& after.key_for(request_id) == leader.key_for(request_id)
            &&& after.has(request_id)
            &&& after.inflight.contains(request_id)
        }),
{
}

/// A finished request whose slot had nothing to wait for is gone without a trace: no slot, no
/// key, no transfers, and no place in any list.
pub proof fn finished_request_is_gone(leader: LeaderView, request_id: Seq<char>)
    requires
        leader.wf(),
        !(leader.finished(request_id).0.finishing.contains(request_id)),
    ensures
        ({
            let after = leader.finished(request_id).0;
            &&& !after.has(request_id)
            &&& !after.inflight.contains(request_id)
            &&& !after.onboarding.contains(request_id)
            &&& !after.traces.dom().contains(request_id)
            &&& !after.baggage.dom().contains(request_id)
            &&& signals::loads_done(after.manager.effects.signals, request_id) is None
            &&& signals::stores_done(after.manager.effects.signals, request_id) is None
        }),
{
    let other = request_id.push('x');
    assert(other.len() != request_id.len());
    signals::forgotten_request_is_silent(leader.manager.effects.signals, request_id, other);
}

/// The blocks of a finished request have to stay exactly if the request has a slot and one of its
/// stores is pending.
pub proof fn blocks_stay_while_stores_run(leader: LeaderView, request_id: Seq<char>)
    ensures
        ({
            let entries = leader.manager.effects.signals;
            leader.finished(request_id).1 <==> {
                &&& leader.active.dom().contains(request_id)
                &&& leader.manager.slots.dom().contains(leader.active[request_id])
                &&& exists|i: int|
                    0 <= i < entries.len() && (#[trigger] entries[i]).request_id == request_id
                        && entries[i].transfer_type == TransferType::Store && entries[i].state
                        == SignalState::Pending
            }
        }),
{
    signals::transfers_are_over_when_none_is_pending(leader.manager.effects.signals, request_id);
}

/// A finished request is no longer in flight and has no onboard, no trace context and no baggage.
/// Its slot stays until the next metadata exactly if the request was decoding with transfers of
/// its own still open, or was finishing before; its transfers are then remembered. Otherwise the
/// slot, the key and the transfers are gone.
pub proof fn finished_requests_wait_for_their_transfers(leader: LeaderView, request_id: Seq<char>)
    ensures
        ({
            let after = leader.finished(request_id).0;
            let key = leader.active[request_id];
            let found = leader.active.dom().contains(request_id)
                && leader.manager.slots.dom().contains(key);
            let slot = leader.manager.slots[key];
            let waits = found && match slot.phase {
                PhaseView::Decoding { ops, .. } => ops.dispatched > 0 || (ops.pending matches Some(
                    pending,
                ) && pending.len() > 0),
                PhaseView::Finishing { .. } => true,
                _ => false,
            };
            &&& !after.inflight.contains(request_id)
            &&& !after.onboarding.contains(request_id)
            &&& !after.traces.dom().contains(request_id)
            &&& !after.baggage.dom().contains(request_id)
            &&& waits ==> {
                &&& after.finishing.contains(request_id)
                &&& after.active == leader.active
                &&& after.manager.slots.dom().contains(key)
                &&& after.manager.slots[key].phase is Finishing
                &&& after.manager.effects == leader.manager.effects
            }
            &&& !waits ==> {
                &&& after.finishing == leader.finishing
                &&& !after.active.dom().contains(request_id)
                &&& found ==> !after.manager.slots.dom().contains(key)
            }
            &&& after.iteration == leader.iteration
            &&& after.generations == leader.generations
        }),
{
}

/// Finishing a request leaves the others alone: their keys, slots, transfers and places in the
/// lists.
pub proof fn finishing_leaves_other_requests_alone(
    leader: LeaderView,
    request_id: Seq<char>,
    other: Seq<char>,
    key: SlotKeyView,
    entry: SignalEntryView,
)
    requires
        other != request_id,
        leader.active.dom().contains(request_id) ==> key != leader.active[request_id],
        entry.request_id != request_id,
    ensures
        ({
            let after = leader.finished(request_id).0;
            &&& after.active.dom().contains(other) == leader.active.dom().contains(other)
            &&& leader.active.dom().contains(other) ==> after.active[other] == leader.active[other]
            &&& after.inflight.contains(other) == leader.inflight.contains(other)
            &&& after.onboarding.contains(other) == leader.onboarding.contains(other)
            &&& after.finishing.contains(other) == leader.finishing.contains(other)
            &&& after.manager.slots.dom().contains(key) == leader.manager.slots.dom().contains(key)
            &&& leader.manager.slots.dom().contains(key) ==> after.manager.slots[key]
                == leader.manager.slots[key]
            &&& after.manager.effects.signals.contains(entry)
                == leader.manager.effects.signals.contains(entry)
            &&& after.manager.effects.worker_ops == leader.manager.effects.worker_ops
        }),
{
    signals::forgetting_takes_one_request(leader.manager.effects.signals, request_id, entry);
}

/// A preempted request keeps its slot, which is preempted unless it was finished, and its
/// transfers are forgotten. The transfers of other requests stay, and a request without a slot is
/// left alone.
pub proof fn preempted_requests_are_silenced(
    leader: LeaderView,
    request_id: Seq<char>,
    entry: SignalEntryView,
)
    ensures
        ({
            let after = leader.preempted(request_id);
            let key = leader.active[request_id];
            let found = leader.active.dom().contains(request_id)
                && leader.manager.slots.dom().contains(key);
            &&& !found ==> after == leader
            &&& found ==> {
                &&& after.active == leader.active
                &&& after.manager.slots.dom() =~= leader.manager.slots.dom()
                &&& leader.manager.slots[key].phase is Finished
                    || after.manager.slots[key].phase is Preempted
                &&& after.manager.slots[key].sequence == leader.manager.slots[key].sequence
                &&& after.manager.slots[key].device_blocks
                    == leader.manager.slots[key].device_blocks
                &&& after.manager.effects.signals.contains(entry) <==> {
                    &&& leader.manager.effects.signals.contains(entry)
                    &&& entry.request_id != request_id
                }
            }
        }),
{
    signals::forgetting_takes_one_request(leader.manager.effects.signals, request_id, entry);
}

/// A fresh slot has the tokens of its request and nothing else: no device blocks, no position, no
/// statistics. It stands under the active key, which names the request, and other slots stay.
pub proof fn created_slots_start_afresh(
    leader: LeaderView,
    request_id: Seq<char>,
    tokens: Seq<u32>,
    hashes: Seq<SequenceHash>,
    traceparent: Option<Seq<char>>,
    other: SlotKeyView,
)
    requires
        leader.wf(),
    ensures
        ({
            let after = leader.created(request_id, tokens, hashes, traceparent);
            let key = after.active[request_id];
            let slot = after.manager.slots[key];
            &&& after.active.dom() =~= leader.active.dom().insert(request_id)
            &&& leader.active.dom().contains(request_id) ==> key == leader.active[request_id]
            &&& key.0 == request_id
            &&& after.manager.slots.dom() =~= leader.manager.slots.dom().insert(key)
            &&& slot.request_id == request_id
            &&& slot.generation == key.1
            &&& slot.phase is Initialized
            &&& slot.sequence.tokens == tokens
            &&& slot.sequence.hashes == hashes
            &&& slot.block_size == leader.manager.block_size
            &&& slot.sequence.block_size == leader.manager.block_size
            &&& slot.device_blocks.len() == 0
            &&& slot.current_position == 0
            &&& slot.evaluated_blocks == 0
            &&& slot.offload_terminated_at_block is None
            &&& !slot.performed_cache_lookup
            &&& slot.traceparent == if leader.traces.dom().contains(request_id) {
                Some(leader.traces[request_id])
            } else {
                traceparent
            }
            &&& after.inflight =~= leader.inflight.insert(request_id)
            &&& after.manager.effects == leader.manager.effects
            &&& other != key && leader.manager.slots.dom().contains(other)
                ==> after.manager.slots[other] == leader.manager.slots[other]
        }),
{
}

/// Clearing forgets every request and every transfer; the slots go too, and nothing else does.
pub proof fn clearing_forgets_every_request(leader: LeaderView, request_id: Seq<char>)
    ensures
        ({
            let unlisted = leader.unlisted();
            let cleared = leader.cleared();
            &&& unlisted.active.dom() =~= Set::empty() && cleared.active.dom() =~= Set::empty()
            &&& unlisted.inflight =~= Set::empty() && cleared.inflight =~= Set::empty()
            &&& unlisted.onboarding =~= Set::empty() && cleared.onboarding =~= Set::empty()
            &&& unlisted.finishing =~= Set::empty() && cleared.finishing =~= Set::empty()
            &&& unlisted.generations.dom() =~= Set::empty()
            &&& cleared.generations.dom() =~= Set::empty()
            &&& unlisted.manager.effects.signals.len() == 0
            &&& cleared.manager.effects.signals.len() == 0
            &&& cleared.manager.slots.dom() =~= Set::empty()
            &&& unlisted.manager.slots == leader.manager.slots
            &&& cleared.traces == leader.traces
            &&& cleared.iteration == leader.iteration
            &&& cleared.key_for(request_id) == (request_id, 0u64)
        }),
{
}

} // verus!
