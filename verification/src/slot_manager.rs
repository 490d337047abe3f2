//! The slots of all requests, with what their effects work on.

use std::collections::HashSet;

use vstd::prelude::*;

use crate::effect_context::{ContextView, EffectContext};
use crate::protocol::{self, OperationId, SequenceHash, SlotKey, SlotKeyView, WorkerTransferRequest};
use crate::signals;
use crate::slot_api::{SlotError, SlotManager};
use crate::slot_machine;
use crate::slot_runtime::{SlotView, VllmConnectorSlot, VllmSlotEffect, VllmSlotEvent};
use crate::table::Table;
use crate::text::{self, to_lowercase};
use crate::tokens::TokenBlockSequence;
use crate::transfer_requests;

verus! {

broadcast use vstd::std_specs::hash::group_hash_axioms;

/// `dashmap::DashMap`: the concurrent hash map that holds the slots.
#[verifier::external_type_specification]
#[verifier::external_body]
#[verifier::reject_recursive_types(K)]
#[verifier::reject_recursive_types(V)]
#[verifier::reject_recursive_types(S)]
pub struct ExDashMap<K, V, S>(dashmap::DashMap<K, V, S>);

/// The slots by request id and generation.
pub type SlotMap = dashmap::DashMap<
    (String, u64),
    VllmConnectorSlot,
    std::collections::hash_map::RandomState,
>;

/// What a slot map holds.
pub uninterp spec fn slot_entries(
    map: dashmap::DashMap<
        (String, u64),
        VllmConnectorSlot,
        std::collections::hash_map::RandomState,
    >,
) -> Map<(Seq<char>, u64), VllmConnectorSlot>;

/// `dashmap::DashMap::new`: an empty map.
#[verifier::external_body]
fn new_slot_map() -> (map: SlotMap)
    ensures
        slot_entries(map).dom() == Set::<SlotKeyView>::empty(),
{
    dashmap::DashMap::new()
}

/// `dashmap::DashMap::insert`: the key has the new value afterwards, whatever it had before, and
/// no other key changes.
#[verifier::external_body]
fn insert_entry(map: &mut SlotMap, key: (String, u64), slot: VllmConnectorSlot)
    ensures
        slot_entries(*final(map)) == slot_entries(*old(map)).insert((key.0@, key.1), slot),
{
    map.insert(key, slot);
}

/// `dashmap::DashMap::remove`: the key is absent afterwards, its value is handed out where it had
/// one, and no other key changes.
#[verifier::external_body]
fn remove_entry(map: &mut SlotMap, key: &(String, u64)) -> (slot: Option<VllmConnectorSlot>)
    ensures
        slot_entries(*final(map)) == slot_entries(*old(map)).remove((key.0@, key.1)),
        match slot {
            Some(slot) => slot_entries(*old(map)).dom().contains((key.0@, key.1)) && slot
                == slot_entries(*old(map))[(key.0@, key.1)],
            None => !slot_entries(*old(map)).dom().contains((key.0@, key.1)),
        },
{
    map.remove(key).map(|entry| entry.1)
}

/// `dashmap::DashMap::contains_key`: whether the key has a value.
#[verifier::external_body]
fn contains_entry(map: &SlotMap, key: &(String, u64)) -> (found: bool)
    ensures
        found == slot_entries(*map).dom().contains((key.0@, key.1)),
{
    map.contains_key(key)
}

/// The pools of a block manager.
#[derive(Debug, Clone, Copy, PartialEq, Eq, Structural)]
pub enum PoolTier {
    Device,
    Host,
    Disk,
}

/// The slots of all requests.
pub struct ConnectorSlotManager {
    pub slots: SlotMap,
    pub block_size: usize,
    pub effects: EffectContext,
    /// Prefetches that ended well.
    pub prefetch_completed: HashSet<OperationId>,
    /// Prefetches that failed.
    pub prefetch_failed: HashSet<OperationId>,
}

/// The mathematical value of a [`ConnectorSlotManager`].
#[verifier::ext_equal]
pub struct ManagerView {
    pub slots: Map<SlotKeyView, SlotView>,
    pub block_size: usize,
    pub effects: ContextView,
    pub prefetch_completed: Set<OperationId>,
    pub prefetch_failed: Set<OperationId>,
}

/// The views of the slots of a map.
pub open spec fn slot_views(slots: Map<SlotKeyView, VllmConnectorSlot>) -> Map<
    SlotKeyView,
    SlotView,
> {
    slots.map_values(|slot: VllmConnectorSlot| slot@)
}

impl View for ConnectorSlotManager {
    type V = ManagerView;

    open spec fn view(&self) -> ManagerView {
        ManagerView {
            slots: slot_views(slot_entries(self.slots)),
            block_size: self.block_size,
            effects: self.effects@,
            prefetch_completed: self.prefetch_completed@,
            prefetch_failed: self.prefetch_failed@,
        }
    }
}

impl ManagerView {
    /// Whether `slot` fits under `key`: it belongs to that request and has the block size of the
    /// manager.
    pub open spec fn fits(self, key: SlotKeyView, slot: SlotView) -> bool {
        slot.wf() && slot.block_size == self.block_size && slot.request_id == key.0
    }

    /// Every slot fits under its key.
    pub open spec fn wf(self) -> bool {
        self.block_size > 0 && forall|key: SlotKeyView|
            #[trigger] self.slots.dom().contains(key) ==> self.fits(key, self.slots[key])
    }

    /// With `slot` under `key`.
    pub open spec fn with_slot(self, key: SlotKeyView, slot: SlotView) -> ManagerView {
        ManagerView { slots: self.slots.insert(key, slot), ..self }
    }

    /// With no slot.
    pub open spec fn without_slots(self) -> ManagerView {
        ManagerView { slots: Map::empty(), ..self }
    }

    /// With everything about the transfers of `request_id` forgotten.
    pub open spec fn without_signal(self, request_id: Seq<char>) -> ManagerView {
        ManagerView {
            effects: ContextView {
                signals: signals::without(self.effects.signals, request_id),
                ..self.effects
            },
            ..self
        }
    }

    /// How a prefetch ended, where it did: well, or with a failure.
    pub open spec fn prefetch_outcome(self, operation_id: OperationId) -> Option<bool> {
        if self.prefetch_completed.contains(operation_id) {
            Some(true)
        } else if self.prefetch_failed.contains(operation_id) {
            Some(false)
        } else {
            None
        }
    }

    /// With the outcome of a prefetch taken.
    pub open spec fn outcome_taken(self, operation_id: OperationId) -> ManagerView {
        match self.prefetch_outcome(operation_id) {
            Some(true) => ManagerView {
                prefetch_completed: self.prefetch_completed.remove(operation_id),
                ..self
            },
            Some(false) => ManagerView {
                prefetch_failed: self.prefetch_failed.remove(operation_id),
                ..self
            },
            None => self,
        }
    }
}

fn entry_key(key: &SlotKey) -> (entry: (String, u64))
    ensures
        (entry.0@, entry.1) == key@,
{
    (key.request_id.clone(), key.generation)
}

impl ConnectorSlotManager {
    /// A manager without slots for blocks of `block_size` tokens.
    pub fn new(block_size: usize, has_remote: bool, world_size: usize) -> (manager: Self)
        requires
            block_size > 0,
        ensures
            manager@.wf(),
            manager@.slots == Map::<SlotKeyView, SlotView>::empty(),
            manager@.block_size == block_size,
            manager@.effects == (ContextView {
                requests: Seq::empty(),
                open: true,
                stats: Seq::empty(),
                has_remote,
                world_size,
                worker_ops: Map::empty(),
                signals: Seq::empty(),
            }),
            manager@.prefetch_completed == Set::<OperationId>::empty(),
            manager@.prefetch_failed == Set::<OperationId>::empty(),
    {
        let manager = ConnectorSlotManager {
            slots: new_slot_map(),
            block_size,
            effects: EffectContext::new(has_remote, world_size),
            prefetch_completed: HashSet::new(),
            prefetch_failed: HashSet::new(),
        };
        assert(manager@.slots =~= Map::<SlotKeyView, SlotView>::empty());
        manager
    }

    /// Puts a slot under `key`.
    pub fn put_slot(&mut self, key: &SlotKey, slot: VllmConnectorSlot)
        requires
            old(self)@.wf(),
            old(self)@.fits(key@, slot@),
        ensures
            final(self)@.wf(),
            final(self)@ == old(self)@.with_slot(key@, slot@),
    {
        let ghost view = slot@;
        insert_entry(&mut self.slots, entry_key(key), slot);
        proof {
            assert(self@.slots =~= old(self)@.slots.insert(key@, view));
            assert(self@ =~= old(self)@.with_slot(key@, view));
        }
    }

    /// What the effects of the slots work on.
    pub fn effect_context(&mut self) -> (ctx: &mut EffectContext)
        ensures
            ctx@ == old(self)@.effects,
            final(self)@ == (ManagerView { effects: final(ctx)@, ..old(self)@ }),
    {
        &mut self.effects
    }

    /// How a prefetch ended; the outcome is handed out once.
    pub fn check_prefetch_outcome(&mut self, operation_id: OperationId) -> (outcome: Option<bool>)
        ensures
            outcome == old(self)@.prefetch_outcome(operation_id),
            final(self)@ == old(self)@.outcome_taken(operation_id),
    {
        if self.prefetch_completed.remove(&operation_id) {
            return Some(true);
        }
        assert(self@.prefetch_completed =~= old(self)@.prefetch_completed);
        if self.prefetch_failed.remove(&operation_id) {
            return Some(false);
        }
        assert(self@ =~= old(self)@);
        None
    }

    /// Whether the loads of a request are over: nothing where it has none.
    pub fn is_loads_done(&self, request_id: &String) -> (done: Option<bool>)
        ensures
            done == signals::loads_done(self@.effects.signals, request_id@),
    {
        self.effects.transfer_signal.is_loads_done(request_id)
    }

    /// Whether some transfer of a request failed.
    pub fn has_transfer_failed(&self, request_id: &String) -> (failed: bool)
        ensures
            failed == signals::failed(self@.effects.signals, request_id@),
    {
        self.effects.transfer_signal.has_failed(request_id)
    }

    /// Forgets the transfers of a request.
    pub fn remove_signal(&mut self, request_id: &String)
        ensures
            final(self)@ == old(self)@.without_signal(request_id@),
    {
        self.effects.transfer_signal.remove(request_id);
        assert(self@ =~= old(self)@.without_signal(request_id@));
    }

    /// Forgets the transfers of all requests.
    pub fn clear_signal(&mut self)
        ensures
            final(self)@ == (ManagerView {
                effects: ContextView { signals: Seq::empty(), ..old(self)@.effects },
                ..old(self)@
            }),
    {
        self.effects.transfer_signal.clear();
        assert(self@ =~= (ManagerView {
            effects: ContextView { signals: Seq::empty(), ..old(self)@.effects },
            ..old(self)@
        }));
    }

    /// Takes the operations that wait for the workers of `key`.
    pub fn take_pending_worker_ops(&mut self, key: &SlotKey) -> (ops: Option<
        Vec<WorkerTransferRequest>,
    >)
        ensures
            match ops {
                Some(ops) => old(self)@.effects.worker_ops.dom().contains(key@)
                    && transfer_requests::worker_views(ops@)
                    == old(self)@.effects.worker_ops[key@],
                None => !old(self)@.effects.worker_ops.dom().contains(key@),
            },
            final(self)@ == (ManagerView {
                effects: ContextView {
                    worker_ops: old(self)@.effects.worker_ops.remove(key@),
                    ..old(self)@.effects
                },
                ..old(self)@
            }),
    {
        self.effects.take_pending_worker_ops(key)
    }

    /// Applies an event to the slot under `key`, without carrying out its effects, and returns
    /// them.
    pub fn apply_event_to_slot(&mut self, key: &SlotKey, event: VllmSlotEvent) -> (effects: Result<
        Vec<VllmSlotEffect>,
        SlotError,
    >)
        requires
            old(self)@.wf(),
        ensures
            final(self)@.wf(),
            match effects {
                Ok(effects) => {
                    &&& old(self)@.slots.dom().contains(key@)
                    &&& exists|id: OperationId, now: std::time::Instant|
                        {
                            let next = #[trigger] slot_machine::step(
                                old(self)@.slots[key@].phase,
                                event@,
                                old(self)@.slots[key@].local_context(),
                                id,
                                now,
                            );
                            &&& protocol::is_random_id(id)
                            &&& final(self)@ == old(self)@.with_slot(
                                key@,
                                old(self)@.slots[key@].entered(next.0, now),
                            )
                            &&& slot_machine::effect_views(effects@) == next.1
                        }
                },
                Err(error) => {
                    &&& !old(self)@.slots.dom().contains(key@)
                    &&& error == SlotError::NotFound
                    &&& final(self)@ == old(self)@
                },
            },
    {
        match self.take_slot(key) {
            Err(error) => {
                assert(self@ =~= old(self)@);
                Err(error)
            },
            Ok(slot) => {
                let mut slot = slot;
                let ghost before = slot@;
                let ctx = slot.build_slot_context();
                let ghost view = event@;
                let id: OperationId = protocol::new_operation_id();
                let now: std::time::Instant = slot_machine::instant_now();
                let effects: Vec<VllmSlotEffect> = slot.advance(event, &ctx, id, now);
                let ghost next = slot_machine::step(before.phase, view, ctx, id, now);
                assert(slot@ == before.entered(next.0, now));
                self.put_slot(key, slot);
                assert(self@ =~= old(self)@.with_slot(key@, slot@));
                Ok(effects)
            },
        }
    }
}

impl SlotManager for ConnectorSlotManager {
    type SlotType = VllmConnectorSlot;

    fn has_slot(&self, key: &SlotKey) -> (found: bool) {
        contains_entry(&self.slots, &entry_key(key))
    }

    fn create_slot(
        &mut self,
        key: &SlotKey,
        tokens: Vec<u32>,
        hashes: Vec<SequenceHash>,
    ) -> (result: Result<(), SlotError>) {
        let sequence = TokenBlockSequence::new(tokens, self.block_size, hashes);
        let slot = VllmConnectorSlot::new(key.request_id.clone(), sequence, self.block_size);
        self.put_slot(key, slot);
        Ok(())
    }

    fn take_slot(&mut self, key: &SlotKey) -> (slot: Result<VllmConnectorSlot, SlotError>) {
        let taken: Option<VllmConnectorSlot> = remove_entry(&mut self.slots, &entry_key(key));
        proof {
            assert(self@.slots =~= old(self)@.slots.remove(key@));
            assert(self@ =~= (ManagerView { slots: old(self)@.slots.remove(key@), ..old(self)@ }));
        }
        match taken {
            Some(slot) => Ok(slot),
            None => Err(SlotError::NotFound),
        }
    }

    fn remove_slot(&mut self, key: &SlotKey) -> (result: Result<(), SlotError>) {
        let _slot = self.take_slot(key);
        Ok(())
    }
}

/// The pool that a name in lower case stands for.
pub open spec fn pool_named(name: Seq<char>) -> Option<PoolTier> {
    if name == "gpu"@ || name == "device"@ {
        Some(PoolTier::Device)
    } else if name == "cpu"@ || name == "host"@ {
        Some(PoolTier::Host)
    } else if name == "disk"@ {
        Some(PoolTier::Disk)
    } else {
        None
    }
}

/// Whether a pool is there.
pub open spec fn configured(tier: PoolTier, device: bool, host: bool, disk: bool) -> bool {
    match tier {
        PoolTier::Device => device,
        PoolTier::Host => host,
        PoolTier::Disk => disk,
    }
}

/// The error of a pool that is not there.
pub open spec fn not_configured(tier: PoolTier) -> Seq<char> {
    match tier {
        PoolTier::Device => "device pool is not configured"@,
        PoolTier::Host => "host pool is not configured"@,
        PoolTier::Disk => "disk pool is not configured"@,
    }
}

/// Whether `result` names the pool that `name` stands for, or says why there is none.
pub open spec fn resolves_pool(
    result: Result<PoolTier, SlotError>,
    name: Seq<char>,
    device: bool,
    host: bool,
    disk: bool,
) -> bool {
    match pool_named(name) {
        Some(tier) => if configured(tier, device, host, disk) {
            result == Ok::<PoolTier, SlotError>(tier)
        } else {
            result matches Err(SlotError::InvalidOperation(message)) && message@ == not_configured(
                tier,
            )
        },
        None => result matches Err(SlotError::InvalidOperation(message)) && message@
            == "unknown pool '"@ + name
            + "': expected one of 'gpu', 'device', 'cpu', 'host', 'disk'"@,
    }
}

/// The pool to clear, by its name in lower case.
pub fn resolve_pool(name: &str, device: bool, host: bool, disk: bool) -> (result: Result<
    PoolTier,
    SlotError,
>)
    ensures
        resolves_pool(result, name@, device, host, disk),
{
    let name: String = name.to_string();
    let tier: PoolTier = if name.eq(&"gpu".to_string()) || name.eq(&"device".to_string()) {
        PoolTier::Device
    } else if name.eq(&"cpu".to_string()) || name.eq(&"host".to_string()) {
        PoolTier::Host
    } else if name.eq(&"disk".to_string()) {
        PoolTier::Disk
    } else {
        let mut message: String = "unknown pool '".to_string();
        message.append(name.as_str());
        message.append("': expected one of 'gpu', 'device', 'cpu', 'host', 'disk'");
        return Err(SlotError::InvalidOperation(message));
    };
    match tier {
        PoolTier::Device => if device {
            Ok(tier)
        } else {
            Err(SlotError::InvalidOperation("device pool is not configured".to_string()))
        },
        PoolTier::Host => if host {
            Ok(tier)
        } else {
            Err(SlotError::InvalidOperation("host pool is not configured".to_string()))
        },
        PoolTier::Disk => if disk {
            Ok(tier)
        } else {
            Err(SlotError::InvalidOperation("disk pool is not configured".to_string()))
        },
    }
}

/// The size of a pool and how much of it is free.
#[derive(Debug, Clone, Copy, PartialEq, Eq, Structural)]
pub struct PoolStatus {
    pub total_blocks: u64,
    pub available_blocks: u64,
}

/// The status of each pool that is there, by its name.
pub open spec fn pool_status(
    device: Option<PoolStatus>,
    host: Option<PoolStatus>,
    disk: Option<PoolStatus>,
) -> Map<Seq<char>, PoolStatus> {
    let none = Map::<Seq<char>, PoolStatus>::empty();
    let a = match device {
        Some(status) => none.insert("device"@, status),
        None => none,
    };
    let b = match host {
        Some(status) => a.insert("host"@, status),
        None => a,
    };
    match disk {
        Some(status) => b.insert("disk"@, status),
        None => b,
    }
}

impl ConnectorSlotManager {
    /// Drops all slots, and with them their blocks, and names the pool to reset, by its name in
    /// any case: `gpu` or `device`, `cpu` or `host`, or `disk`. The flags say which pools there
    /// are. Where no such pool is there, nothing changes.
    pub fn clear_pool(&mut self, pool: &str, device: bool, host: bool, disk: bool) -> (result:
        Result<PoolTier, SlotError>)
        ensures
            resolves_pool(result, text::lower_case(pool@), device, host, disk),
            match result {
                Ok(_) => final(self)@ == old(self)@.without_slots(),
                Err(_) => final(self)@ == old(self)@,
            },
    {
        let name: String = to_lowercase(pool);
        let result = resolve_pool(name.as_str(), device, host, disk);
        match &result {
            Ok(_) => {
                self.slots = new_slot_map();
                assert(self@ =~= old(self)@.without_slots());
            },
            Err(_) => {},
        }
        result
    }

    /// The status of each pool that is there, by its name.
    pub fn get_pool_status(
        &self,
        device: Option<PoolStatus>,
        host: Option<PoolStatus>,
        disk: Option<PoolStatus>,
    ) -> (pools: Table<String, PoolStatus>)
        ensures
            pools@ == pool_status(device, host, disk),
    {
        let mut pools: Table<String, PoolStatus> = Table::new();
        match device {
            Some(status) => {
                pools.insert("device".to_string(), status);
            },
            None => {},
        }
        match host {
            Some(status) => {
                pools.insert("host".to_string(), status);
            },
            None => {},
        }
        match disk {
            Some(status) => {
                pools.insert("disk".to_string(), status);
            },
            None => {},
        }
        pools
    }
}

} // verus!
