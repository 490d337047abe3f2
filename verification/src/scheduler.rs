//! Pairs the worker's and the leader's halves of every transfer, and counts completions.
//!
//! The scheduler keeps one epoch per [`SlotKey`]. An epoch collects the worker bindings of a
//! request, the immediate transfers that completed, and its phase. Completion counters are
//! shared with the workers: the scheduler names them by [`CounterId`] and says by how much each
//! one grows.

use std::collections::{HashMap, HashSet};

use vstd::prelude::*;

use crate::protocol::{
    ImmediateTransferResult, LeaderTransferRequest, OperationId, SlotKey, SlotKeyView,
    WorkerTransferRequest,
};
use crate::table::{KeySet, Table};

verus! {

broadcast use vstd::std_specs::hash::group_hash_axioms;

/// The scheduler's counterpart is gone.
#[derive(Debug, Clone, Copy, PartialEq, Eq, Structural)]
pub enum SchedulerError {
    Disconnected,
}

impl SchedulerError {
    /// The text that describes the error.
    pub fn to_string(&self) -> (text: String)
        ensures
            text@
                == "runtime error: connections between components were lost; likely tearing down"@,
    {
        "runtime error: connections between components were lost; likely tearing down".to_string()
    }
}

/// Whether a scheduled transfer may run.
#[derive(Debug, Clone, Copy, PartialEq, Eq, Structural)]
pub enum SchedulingDecision {
    Execute,
    Cancel,
}

/// Whether a scheduled task goes on.
#[derive(Debug, Clone, Copy, PartialEq, Eq, Structural)]
pub enum TaskReady {
    Continue,
    Cancel,
}

/// What drives the iterations of an engine.
pub trait TaskScheduler {
    /// Begins an iteration.
    fn start_iteration(&mut self, iteration: u64) -> Result<(), SchedulerError>;
}

/// The phases of an epoch.
#[derive(Debug, Clone, Copy, PartialEq, Eq, Structural)]
pub enum EpochPhase {
    Onboarding,
    Active,
    Draining,
    Closed,
}

/// Why an epoch was closed.
#[derive(Debug, Clone, Copy, PartialEq, Eq, Structural)]
pub enum CloseReason {
    Completed,
    Cancelled,
    Failed,
}

/// What became of an immediate result.
#[derive(Debug, Clone, Copy, PartialEq, Eq, Structural)]
pub enum ImmediateResultOutcome {
    Applied,
    Duplicate,
    Buffered,
    Stale,
}

/// A forward pass of the engine.
pub type Iteration = u64;

/// The name of a model layer.
pub type LayerName = String;

/// A number of model layers.
pub type LayerIndex = u32;

/// Names a completion counter that a worker shares with the scheduler.
pub type CounterId = u64;

/// Names the channel on which a scheduled transfer waits for its decision.
pub type DecisionId = u64;

/// The shared completion counters. A counter that was never written reads zero.
pub struct CounterBank {
    values: HashMap<u64, u64>,
    /// Every id below this one is in use.
    next: u64,
}

/// The value of a counter.
pub open spec fn count(bank: Map<CounterId, u64>, id: CounterId) -> u64 {
    if bank.dom().contains(id) {
        bank[id]
    } else {
        0
    }
}

/// `a + b`, wrapping at the width of a counter.
pub open spec fn wrapping_sum(a: u64, b: u64) -> u64 {
    a.wrapping_add(b)
}

/// With every counter of `ids` grown by `delta`, one after the other.
pub open spec fn grow_each(bank: Map<CounterId, u64>, ids: Seq<CounterId>, delta: u64) -> Map<
    CounterId,
    u64,
>
    decreases ids.len(),
{
    if ids.len() == 0 {
        bank
    } else {
        let before = grow_each(bank, ids.drop_last(), delta);
        before.insert(ids.last(), wrapping_sum(count(before, ids.last()), delta))
    }
}

impl View for CounterBank {
    type V = Map<CounterId, u64>;

    closed spec fn view(&self) -> Map<CounterId, u64> {
        self.values@
    }
}

/// The ids below `n`.
spec fn ids_below(n: u64) -> Set<CounterId> {
    Set::new(|j: u64| j < n)
}

proof fn ids_below_are_counted(n: u64)
    ensures
        ids_below(n).finite(),
        ids_below(n).len() == n,
    decreases n,
{
    if n == 0 {
        assert(ids_below(n) =~= Set::empty());
    } else {
        let m = (n - 1) as u64;
        ids_below_are_counted(m);
        assert(ids_below(m).insert(m) =~= ids_below(n));
    }
}

/// A bank that has every id below `n` in use has at least `n` ids in use.
proof fn ids_in_use_are_at_least(bank: Map<CounterId, u64>, n: u64)
    requires
        bank.dom().finite(),
        forall|j: u64| j < n ==> #[trigger] bank.dom().contains(j),
    ensures
        n <= bank.dom().len(),
{
    ids_below_are_counted(n);
    vstd::set_lib::lemma_len_subset(ids_below(n), bank.dom());
}

impl CounterBank {
    #[verifier::type_invariant]
    spec fn inv(self) -> bool {
        forall|j: u64| j < self.next ==> #[trigger] self.values@.dom().contains(j)
    }

    /// A bank in which every counter reads zero.
    pub fn new() -> (bank: Self)
        ensures
            bank@ == Map::<CounterId, u64>::empty(),
    {
        CounterBank { values: HashMap::new(), next: 0 }
    }

    /// Hands out a counter that is not in use yet. It reads zero, and is in use from then on.
    pub fn allocate(&mut self) -> (id: CounterId)
        ensures
            !old(self)@.dom().contains(id),
            final(self)@ == old(self)@.insert(id, 0),
            count(final(self)@, id) == 0,
    {
        proof {
            use_type_invariant(&*self);
        }
        let used: usize = self.values.len();
        let mut id: u64 = self.next;
        proof {
            ids_in_use_are_at_least(self.values@, id);
        }
        while self.values.contains_key(&id)
            invariant
                self@ == old(self)@,
                used == self.values@.dom().len(),
                id <= used,
                forall|j: u64| j < id ==> #[trigger] self.values@.dom().contains(j),
            decreases used - id,
        {
            assert(id < used) by {
                ids_below_are_counted(id);
                assert(ids_below(id).insert(id).subset_of(self.values@.dom()));
                vstd::set_lib::lemma_len_subset(ids_below(id).insert(id), self.values@.dom());
            }
            id = id + 1;
        }
        self.store(id, 0);
        proof {
            use_type_invariant(&*self);
        }
        if id < u64::MAX {
            self.next = id + 1;
        }
        id
    }

    /// Reads a counter.
    pub fn load(&self, id: CounterId) -> (value: u64)
        ensures
            value == count(self@, id),
    {
        match self.values.get(&id) {
            Some(value) => *value,
            None => 0,
        }
    }

    /// Sets a counter.
    pub fn store(&mut self, id: CounterId, value: u64)
        ensures
            final(self)@ == old(self)@.insert(id, value),
    {
        proof {
            use_type_invariant(&*self);
        }
        let next: u64 = self.next;
        self.next = 0;
        let mut values: HashMap<u64, u64> = HashMap::new();
        std::mem::swap(&mut self.values, &mut values);
        values.insert(id, value);
        self.values = values;
        self.next = next;
    }

    /// Grows a counter; it wraps at the width of a counter.
    pub fn fetch_add(&mut self, id: CounterId, delta: u64)
        ensures
            final(self)@ == old(self)@.insert(id, wrapping_sum(count(old(self)@, id), delta)),
    {
        let value: u64 = self.load(id);
        self.store(id, value.wrapping_add(delta));
    }

    /// Grows each counter of `ids`, as a finished transfer does with the counters it was given.
    pub fn fetch_add_each(&mut self, ids: &Vec<CounterId>, delta: u64)
        ensures
            final(self)@ == grow_each(old(self)@, ids@, delta),
    {
        let mut i: usize = 0;
        assert(ids@.subrange(0, 0) =~= Seq::<CounterId>::empty());
        while i < ids.len()
            invariant
                i <= ids@.len(),
                self@ == grow_each(old(self)@, ids@.subrange(0, i as int), delta),
            decreases ids@.len() - i,
        {
            let ghost upto = ids@.subrange(0, i + 1);
            assert(upto.drop_last() =~= ids@.subrange(0, i as int));
            self.fetch_add(ids[i], delta);
            i = i + 1;
        }
        assert(ids@.subrange(0, ids@.len() as int) =~= ids@);
    }
}

/// The shared state that a worker asks the scheduler to create.
#[derive(Debug)]
pub struct SchedulerCreateSlotDetails {
    pub key: SlotKey,
    pub worker_id: String,
    pub completed: CounterId,
    /// The number of immediate operations that will be reported for the slot.
    pub expected_immediate_ops: u64,
}

/// The binding that a worker gives up.
#[derive(Debug)]
pub struct SchedulerRemoveSlotDetails {
    pub key: SlotKey,
    pub worker_id: String,
}

/// What a worker tells the scheduler.
#[derive(Debug)]
pub enum SchedulerMessage {
    CreateSlot(SchedulerCreateSlotDetails),
    EnqueueRequest(WorkerTransferRequest),
    StartIteration(Iteration),
    EndIteration(Iteration),
    UpdateLayersCompleted(LayerName, LayerIndex),
    RequestFinished(SchedulerRemoveSlotDetails),
}

/// A scheduled transfer that waits for its decision.
#[derive(Debug)]
pub struct ScheduledTaskController {
    pub request: LeaderTransferRequest,
    pub decision: DecisionId,
}

/// The half of a scheduled transfer that arrived.
#[derive(Debug)]
pub enum TransferRequestSource {
    Worker,
    Transfer(ScheduledTaskController),
}

/// Everything that can reach the scheduler.
#[derive(Debug)]
pub enum SchedulerEvent {
    StartIteration(Iteration),
    EndIteration(Iteration),
    UpdateLayersCompleted(LayerName, LayerIndex),
    CreateSlot(SchedulerCreateSlotDetails),
    RequestFinished(SchedulerRemoveSlotDetails),
    EnqueueRequest(WorkerTransferRequest),
    ScheduleRequest(ScheduledTaskController),
    ImmediateResult(ImmediateTransferResult),
}

impl SchedulerMessage {
    /// What the message is to the scheduler.
    pub open spec fn event(self) -> SchedulerEvent {
        match self {
            SchedulerMessage::CreateSlot(request) => SchedulerEvent::CreateSlot(request),
            SchedulerMessage::EnqueueRequest(request) => SchedulerEvent::EnqueueRequest(request),
            SchedulerMessage::StartIteration(iteration) => SchedulerEvent::StartIteration(
                iteration,
            ),
            SchedulerMessage::EndIteration(iteration) => SchedulerEvent::EndIteration(iteration),
            SchedulerMessage::UpdateLayersCompleted(name, layers) => {
                SchedulerEvent::UpdateLayersCompleted(name, layers)
            },
            SchedulerMessage::RequestFinished(request) => SchedulerEvent::RequestFinished(request),
        }
    }

    /// What the message is to the scheduler.
    pub fn into_event(self) -> (event: SchedulerEvent)
        ensures
            event == self.event(),
    {
        match self {
            SchedulerMessage::CreateSlot(request) => SchedulerEvent::CreateSlot(request),
            SchedulerMessage::EnqueueRequest(request) => SchedulerEvent::EnqueueRequest(request),
            SchedulerMessage::StartIteration(iteration) => SchedulerEvent::StartIteration(
                iteration,
            ),
            SchedulerMessage::EndIteration(iteration) => SchedulerEvent::EndIteration(iteration),
            SchedulerMessage::UpdateLayersCompleted(name, layers) => {
                SchedulerEvent::UpdateLayersCompleted(name, layers)
            },
            SchedulerMessage::RequestFinished(request) => SchedulerEvent::RequestFinished(request),
        }
    }
}

/// What a transition of the scheduler asks for.
#[derive(Debug)]
pub enum SchedulerEffect {
    ScheduleTransfer(ScheduledTaskController),
    StoreCount(CounterId, u64),
    IncrementBindings(SlotKey, u64),
    NotifyFailure(String, OperationId),
}

/// The mathematical value of a [`SchedulerEffect`].
pub enum SchedulerEffectView {
    ScheduleTransfer(ScheduledTaskController),
    StoreCount(CounterId, u64),
    IncrementBindings(SlotKeyView, u64),
    NotifyFailure(Seq<char>, OperationId),
}

impl View for SchedulerEffect {
    type V = SchedulerEffectView;

    open spec fn view(&self) -> SchedulerEffectView {
        match self {
            SchedulerEffect::ScheduleTransfer(controller) => SchedulerEffectView::ScheduleTransfer(
                *controller,
            ),
            SchedulerEffect::StoreCount(id, value) => SchedulerEffectView::StoreCount(*id, *value),
            SchedulerEffect::IncrementBindings(key, delta) => {
                SchedulerEffectView::IncrementBindings(key@, *delta)
            },
            SchedulerEffect::NotifyFailure(request_id, uuid) => SchedulerEffectView::NotifyFailure(
                request_id@,
                *uuid,
            ),
        }
    }
}

/// The views of a sequence of effects.
pub open spec fn effect_views(effects: Seq<SchedulerEffect>) -> Seq<SchedulerEffectView> {
    effects.map_values(|effect: SchedulerEffect| effect@)
}

/// What carrying out one effect asks of the owner of the channels.
#[derive(Debug)]
pub enum SchedulerAction {
    /// Nothing: the counters were updated.
    Counted,
    /// Let the transfer run, and grow these counters by one when its end is reported.
    Execute { controller: ScheduledTaskController, counters: Vec<CounterId> },
    /// Tell the worker that the operation failed.
    ReportFailure(String, OperationId),
}

/// One worker's share in an epoch.
#[derive(Debug)]
pub struct SchedulerSlot {
    worker_id: String,
    completed: CounterId,
}

struct RequestEpoch {
    phase: EpochPhase,
    close_reason: Option<CloseReason>,
    expected_immediate_ops: u64,
    completed_immediate_ops: u64,
    seen_immediate_ops: HashSet<u128>,
    bindings: Table<String, SchedulerSlot>,
}

/// The mathematical value of an epoch.
#[verifier::ext_equal]
pub struct EpochView {
    pub phase: EpochPhase,
    pub close_reason: Option<CloseReason>,
    pub expected_immediate_ops: u64,
    pub completed_immediate_ops: u64,
    pub seen_immediate_ops: Set<OperationId>,
    /// The completion counter of every bound worker.
    pub bindings: Map<Seq<char>, CounterId>,
}

impl EpochView {
    /// An epoch that nothing has happened to.
    pub open spec fn fresh(expected_immediate_ops: u64) -> EpochView {
        EpochView {
            phase: EpochPhase::Onboarding,
            close_reason: None,
            expected_immediate_ops,
            completed_immediate_ops: 0,
            seen_immediate_ops: Set::empty(),
            bindings: Map::empty(),
        }
    }

    /// With the phase that follows from the counts: a closed epoch is closed, a draining epoch
    /// stays draining, and otherwise the epoch is onboarding until every expected immediate
    /// operation completed.
    pub open spec fn with_phase(self) -> EpochView {
        EpochView {
            phase: if self.close_reason is Some {
                EpochPhase::Closed
            } else if self.phase == EpochPhase::Draining {
                EpochPhase::Draining
            } else if self.completed_immediate_ops < self.expected_immediate_ops {
                EpochPhase::Onboarding
            } else {
                EpochPhase::Active
            },
            ..self
        }
    }
}

spec fn binding_counters(bindings: Map<Seq<char>, SchedulerSlot>) -> Map<Seq<char>, CounterId> {
    bindings.map_values(|slot: SchedulerSlot| slot.completed)
}

impl RequestEpoch {
    spec fn view(&self) -> EpochView {
        EpochView {
            phase: self.phase,
            close_reason: self.close_reason,
            expected_immediate_ops: self.expected_immediate_ops,
            completed_immediate_ops: self.completed_immediate_ops,
            seen_immediate_ops: self.seen_immediate_ops@,
            bindings: binding_counters(self.bindings@),
        }
    }

    fn update_phase(&mut self)
        ensures
            final(self)@ == old(self)@.with_phase(),
    {
        if self.close_reason.is_some() {
            self.phase = EpochPhase::Closed;
        } else if self.phase == EpochPhase::Draining {
        } else if self.completed_immediate_ops < self.expected_immediate_ops {
            self.phase = EpochPhase::Onboarding;
        } else {
            self.phase = EpochPhase::Active;
        }
    }

    fn counters(&self) -> (counters: Vec<CounterId>)
        ensures
            enumerates(counters@, self@.bindings),
    {
        let workers: Vec<String> = self.bindings.keys();
        let ghost names = crate::table::key_views(workers@);
        let mut counters: Vec<CounterId> = Vec::new();
        let mut i: usize = 0;
        while i < workers.len()
            invariant
                i <= workers@.len(),
                i == counters@.len(),
                names == crate::table::key_views(workers@),
                names.to_set() == self.bindings@.dom(),
                forall|j: int| 0 <= j < i ==> #[trigger] counters@[j] == self@.bindings[names[j]],
            decreases workers@.len() - i,
        {
            assert(names.contains(names[i as int]));
            assert(names.to_set().contains(workers@[i as int]@));
            match self.bindings.get(&workers[i]) {
                Some(slot) => {
                    counters.push(slot.completed);
                },
                None => {
                    counters.push(0);
                },
            }
            i = i + 1;
        }
        assert(counters@ =~= Seq::new(names.len(), |i: int| self@.bindings[names[i]]));
        assert(self@.bindings.dom() =~= self.bindings@.dom());
        counters
    }
}

/// Whether `counters` lists the counter of each bound worker once, in some order of the workers.
pub open spec fn enumerates(
    counters: Seq<CounterId>,
    bindings: Map<Seq<char>, CounterId>,
) -> bool {
    exists|workers: Seq<Seq<char>>|
        {
            &&& #[trigger] workers.no_duplicates()
            &&& workers.to_set() == bindings.dom()
            &&& counters == Seq::new(workers.len(), |i: int| bindings[workers[i]])
        }
}

struct ClosedEpochMeta {
    close_reason: CloseReason,
}

/// The scheduler.
pub struct Scheduler {
    epochs: Table<SlotKey, RequestEpoch>,
    latest_generation: Table<String, u64>,
    tombstones: Table<SlotKey, ClosedEpochMeta>,
    cancel_tokens: KeySet<SlotKey>,
    pending_immediate_results: Table<SlotKey, HashSet<u128>>,
    enqueued_requests: Table<SlotKey, HashMap<u128, TransferRequestSource>>,
    iteration: u64,
    layers_complete: u32,
    iteration_complete: bool,
}

/// The mathematical value of a [`Scheduler`].
#[verifier::ext_equal]
pub struct SchedulerView {
    /// The open epochs.
    pub epochs: Map<SlotKeyView, EpochView>,
    /// The newest generation seen of each request id.
    pub latest_generation: Map<Seq<char>, u64>,
    /// The closed epochs and why they were closed.
    pub tombstones: Map<SlotKeyView, CloseReason>,
    /// The epochs for which a cancellation token was handed out.
    pub cancel_tokens: Set<SlotKeyView>,
    /// Immediate results that came before their epoch.
    pub buffered: Map<SlotKeyView, Set<OperationId>>,
    /// Scheduled transfers of which one half arrived.
    pub enqueued: Map<SlotKeyView, Map<OperationId, TransferRequestSource>>,
    pub iteration: u64,
    pub layers_complete: u32,
    pub iteration_complete: bool,
}

spec fn epoch_map(epochs: Map<SlotKeyView, RequestEpoch>) -> Map<SlotKeyView, EpochView> {
    epochs.map_values(|epoch: RequestEpoch| epoch@)
}

spec fn tombstone_map(tombstones: Map<SlotKeyView, ClosedEpochMeta>) -> Map<
    SlotKeyView,
    CloseReason,
> {
    tombstones.map_values(|meta: ClosedEpochMeta| meta.close_reason)
}

spec fn buffered_map(buffered: Map<SlotKeyView, HashSet<u128>>) -> Map<
    SlotKeyView,
    Set<OperationId>,
> {
    buffered.map_values(|ids: HashSet<u128>| ids@)
}

spec fn enqueued_map(enqueued: Map<SlotKeyView, HashMap<u128, TransferRequestSource>>) -> Map<
    SlotKeyView,
    Map<OperationId, TransferRequestSource>,
> {
    enqueued.map_values(|sources: HashMap<u128, TransferRequestSource>| sources@)
}

impl View for Scheduler {
    type V = SchedulerView;

    closed spec fn view(&self) -> SchedulerView {
        SchedulerView {
            epochs: epoch_map(self.epochs@),
            latest_generation: self.latest_generation@,
            tombstones: tombstone_map(self.tombstones@),
            cancel_tokens: self.cancel_tokens@,
            buffered: buffered_map(self.pending_immediate_results@),
            enqueued: enqueued_map(self.enqueued_requests@),
            iteration: self.iteration,
            layers_complete: self.layers_complete,
            iteration_complete: self.iteration_complete,
        }
    }
}

impl SchedulerView {
    /// A scheduler that nothing has happened to.
    pub open spec fn fresh() -> SchedulerView {
        SchedulerView {
            epochs: Map::empty(),
            latest_generation: Map::empty(),
            tombstones: Map::empty(),
            cancel_tokens: Set::empty(),
            buffered: Map::empty(),
            enqueued: Map::empty(),
            iteration: 0,
            layers_complete: 0,
            iteration_complete: true,
        }
    }

    /// Whether a newer generation of the same request was seen.
    pub open spec fn is_stale(self, key: SlotKeyView) -> bool {
        self.latest_generation.dom().contains(key.0) && key.1 < self.latest_generation[key.0]
    }

    /// The immediate results that wait for the epoch `key`.
    pub open spec fn buffered_ids(self, key: SlotKeyView) -> Set<OperationId> {
        if self.buffered.dom().contains(key) {
            self.buffered[key]
        } else {
            Set::empty()
        }
    }

    /// The halves of scheduled transfers that wait in the epoch `key`.
    pub open spec fn waiting(self, key: SlotKeyView) -> Map<OperationId, TransferRequestSource> {
        if self.enqueued.dom().contains(key) {
            self.enqueued[key]
        } else {
            Map::empty()
        }
    }

    /// A worker joins the epoch `key`.
    pub open spec fn create_slot(
        self,
        key: SlotKeyView,
        worker: Seq<char>,
        counter: CounterId,
        expected: u64,
    ) -> (SchedulerView, Seq<SchedulerEffectView>) {
        let known = self.latest_generation.dom().contains(key.0);
        let newest = if known && self.latest_generation[key.0] >= key.1 {
            self.latest_generation[key.0]
        } else {
            key.1
        };
        let epoch = if self.epochs.dom().contains(key) {
            self.epochs[key]
        } else {
            EpochView::fresh(expected)
        };
        let arrived = self.buffered_ids(key).len();
        let completed = if epoch.completed_immediate_ops >= arrived {
            epoch.completed_immediate_ops
        } else {
            arrived as u64
        };
        let joined = (EpochView {
            expected_immediate_ops: expected,
            completed_immediate_ops: completed,
            bindings: epoch.bindings.insert(worker, counter),
            ..epoch
        }).with_phase();
        (
            SchedulerView {
                latest_generation: self.latest_generation.insert(key.0, newest),
                epochs: self.epochs.insert(key, joined),
                ..self
            },
            seq![SchedulerEffectView::StoreCount(counter, completed)],
        )
    }

    /// A worker leaves the epoch `key`. The last one to leave closes it.
    pub open spec fn finish(self, key: SlotKeyView, worker: Seq<char>) -> SchedulerView {
        if self.is_stale(key) || !self.epochs.dom().contains(key) {
            self
        } else {
            let epoch = self.epochs[key];
            let left = epoch.bindings.remove(worker);
            if left.dom().len() > 0 {
                SchedulerView {
                    epochs: self.epochs.insert(
                        key,
                        EpochView { bindings: left, phase: EpochPhase::Draining, ..epoch },
                    ),
                    ..self
                }
            } else {
                SchedulerView {
                    epochs: self.epochs.remove(key),
                    tombstones: self.tombstones.insert(key, CloseReason::Completed),
                    cancel_tokens: self.cancel_tokens.remove(key),
                    enqueued: self.enqueued.remove(key),
                    buffered: self.buffered.remove(key),
                    ..self
                }
            }
        }
    }

    /// One half of the scheduled transfer `id` arrives: it waits for the other half, or meets it.
    pub open spec fn pair(
        self,
        key: SlotKeyView,
        id: OperationId,
        incoming: TransferRequestSource,
    ) -> (SchedulerView, Option<ScheduledTaskController>) {
        let waiting = self.waiting(key);
        if waiting.dom().contains(id) {
            (
                SchedulerView { enqueued: self.enqueued.insert(key, waiting.remove(id)), ..self },
                match incoming {
                    TransferRequestSource::Transfer(controller) => Some(controller),
                    TransferRequestSource::Worker => match waiting[id] {
                        TransferRequestSource::Transfer(controller) => Some(controller),
                        TransferRequestSource::Worker => None,
                    },
                },
            )
        } else {
            (
                SchedulerView {
                    enqueued: self.enqueued.insert(key, waiting.insert(id, incoming)),
                    ..self
                },
                None,
            )
        }
    }

    /// An immediate result is counted once per epoch, waits where the epoch does not exist yet,
    /// and is dropped where the epoch is over.
    pub open spec fn record(self, key: SlotKeyView, id: OperationId) -> (
        SchedulerView,
        ImmediateResultOutcome,
    ) {
        if self.is_stale(key) || self.tombstones.dom().contains(key) {
            (self, ImmediateResultOutcome::Stale)
        } else if self.epochs.dom().contains(key) {
            let epoch = self.epochs[key];
            if epoch.seen_immediate_ops.contains(id) {
                (self, ImmediateResultOutcome::Duplicate)
            } else {
                let counted = (EpochView {
                    seen_immediate_ops: epoch.seen_immediate_ops.insert(id),
                    completed_immediate_ops: if epoch.completed_immediate_ops < u64::MAX {
                        (epoch.completed_immediate_ops + 1) as u64
                    } else {
                        u64::MAX
                    },
                    ..epoch
                }).with_phase();
                (
                    SchedulerView { epochs: self.epochs.insert(key, counted), ..self },
                    ImmediateResultOutcome::Applied,
                )
            }
        } else {
            (
                SchedulerView {
                    buffered: self.buffered.insert(key, self.buffered_ids(key).insert(id)),
                    ..self
                },
                ImmediateResultOutcome::Buffered,
            )
        }
    }

    /// With the phase of the epoch `key` brought up to date, where it exists.
    pub open spec fn refresh(self, key: SlotKeyView) -> SchedulerView {
        if self.epochs.dom().contains(key) {
            SchedulerView {
                epochs: self.epochs.insert(key, self.epochs[key].with_phase()),
                ..self
            }
        } else {
            self
        }
    }

    /// The next state and the effects of an event.
    pub open spec fn apply(self, event: SchedulerEvent) -> (
        SchedulerView,
        Seq<SchedulerEffectView>,
    ) {
        let none = Seq::<SchedulerEffectView>::empty();
        match event {
            SchedulerEvent::StartIteration(iteration) => (
                SchedulerView { iteration, layers_complete: 0, iteration_complete: false, ..self },
                none,
            ),
            SchedulerEvent::EndIteration(_) => (
                SchedulerView { iteration_complete: true, ..self },
                none,
            ),
            SchedulerEvent::UpdateLayersCompleted(_, layers) => (
                SchedulerView { layers_complete: layers, ..self },
                none,
            ),
            SchedulerEvent::CreateSlot(request) => self.create_slot(
                request.key@,
                request.worker_id@,
                request.completed,
                request.expected_immediate_ops,
            ),
            SchedulerEvent::RequestFinished(request) => (
                self.finish(request.key@, request.worker_id@),
                none,
            ),
            SchedulerEvent::EnqueueRequest(request) => {
                let (next, ready) = self.refresh(request.key@).pair(
                    request.key@,
                    request.uuid,
                    TransferRequestSource::Worker,
                );
                (next, scheduled(ready))
            },
            SchedulerEvent::ScheduleRequest(controller) => {
                let key = controller.request.key@;
                let (next, ready) = (SchedulerView {
                    cancel_tokens: self.cancel_tokens.insert(key),
                    ..self
                }).pair(
                    key,
                    controller.request.uuid,
                    TransferRequestSource::Transfer(controller),
                );
                (next, scheduled(ready))
            },
            SchedulerEvent::ImmediateResult(result) => {
                let failure = if result.status is Err {
                    seq![
                        SchedulerEffectView::NotifyFailure(result.key.request_id@, result.uuid),
                    ]
                } else {
                    none
                };
                if result.chained {
                    (self, failure)
                } else {
                    let (next, outcome) = self.record(result.key@, result.uuid);
                    (
                        next,
                        if outcome == ImmediateResultOutcome::Applied {
                            failure.push(
                                SchedulerEffectView::IncrementBindings(result.key@, 1),
                            )
                        } else {
                            failure
                        },
                    )
                }
            },
        }
    }

    /// Whether each half of a scheduled transfer arrives at most once.
    pub open spec fn accepts(self, event: SchedulerEvent) -> bool {
        match event {
            SchedulerEvent::EnqueueRequest(request) => {
                let waiting = self.waiting(request.key@);
                waiting.dom().contains(request.uuid) ==> waiting[request.uuid] is Transfer
            },
            SchedulerEvent::ScheduleRequest(controller) => {
                let waiting = self.waiting(controller.request.key@);
                waiting.dom().contains(controller.request.uuid)
                    ==> waiting[controller.request.uuid] is Worker
            },
            _ => true,
        }
    }
}

/// The effect of two halves having met.
pub open spec fn scheduled(ready: Option<ScheduledTaskController>) -> Seq<SchedulerEffectView> {
    match ready {
        Some(controller) => seq![SchedulerEffectView::ScheduleTransfer(controller)],
        None => Seq::empty(),
    }
}

fn scheduled_exec(ready: Option<ScheduledTaskController>) -> (effects: Vec<SchedulerEffect>)
    ensures
        effect_views(effects@) == scheduled(ready),
{
    let mut effects: Vec<SchedulerEffect> = Vec::new();
    match ready {
        Some(controller) => {
            effects.push(SchedulerEffect::ScheduleTransfer(controller));
            assert(effect_views(effects@) =~= seq![
                SchedulerEffectView::ScheduleTransfer(controller),
            ]);
        },
        None => {
            assert(effect_views(effects@) =~= Seq::<SchedulerEffectView>::empty());
        },
    }
    effects
}

impl Scheduler {
    /// A scheduler that nothing has happened to.
    pub fn new() -> (scheduler: Self)
        ensures
            scheduler@ == SchedulerView::fresh(),
    {
        let scheduler = Scheduler {
            epochs: Table::new(),
            latest_generation: Table::new(),
            tombstones: Table::new(),
            cancel_tokens: KeySet::new(),
            pending_immediate_results: Table::new(),
            enqueued_requests: Table::new(),
            iteration: 0,
            layers_complete: 0,
            iteration_complete: true,
        };
        assert(scheduler@ =~= SchedulerView::fresh());
        scheduler
    }

    /// The forward pass that is running or ran last.
    pub fn iteration(&self) -> (iteration: u64)
        ensures
            iteration == self@.iteration,
    {
        self.iteration
    }

    /// Whether the forward pass is over.
    pub fn iteration_complete(&self) -> (complete: bool)
        ensures
            complete == self@.iteration_complete,
    {
        self.iteration_complete
    }

    /// The number of layers that the forward pass completed.
    pub fn layers_complete(&self) -> (layers: u32)
        ensures
            layers == self@.layers_complete,
    {
        self.layers_complete
    }

    /// Whether the epoch `key` is open.
    pub fn has_epoch(&self, key: &SlotKey) -> (open: bool)
        ensures
            open == self@.epochs.dom().contains(key@),
    {
        self.epochs.contains_key(key)
    }

    /// Whether the epoch `key` was closed.
    pub fn is_closed(&self, key: &SlotKey) -> (closed: bool)
        ensures
            closed == self@.tombstones.dom().contains(key@),
    {
        self.tombstones.contains_key(key)
    }

    /// The phase of an open epoch.
    pub fn epoch_phase(&self, key: &SlotKey) -> (phase: Option<EpochPhase>)
        ensures
            match phase {
                Some(phase) => self@.epochs.dom().contains(key@) && self@.epochs[key@].phase
                    == phase,
                None => !self@.epochs.dom().contains(key@),
            },
    {
        match self.epochs.get(key) {
            Some(epoch) => Some(epoch.phase),
            None => None,
        }
    }

    /// The number of immediate operations that an open epoch counted.
    pub fn completed_immediate_ops(&self, key: &SlotKey) -> (completed: Option<u64>)
        ensures
            match completed {
                Some(n) => self@.epochs.dom().contains(key@)
                    && self@.epochs[key@].completed_immediate_ops == n,
                None => !self@.epochs.dom().contains(key@),
            },
    {
        match self.epochs.get(key) {
            Some(epoch) => Some(epoch.completed_immediate_ops),
            None => None,
        }
    }

    /// The counter of a bound worker.
    pub fn binding(&self, key: &SlotKey, worker_id: &String) -> (counter: Option<CounterId>)
        ensures
            match counter {
                Some(counter) => self@.epochs.dom().contains(key@)
                    && self@.epochs[key@].bindings.dom().contains(worker_id@)
                    && self@.epochs[key@].bindings[worker_id@] == counter,
                None => self@.epochs.dom().contains(key@)
                    ==> !self@.epochs[key@].bindings.dom().contains(worker_id@),
            },
    {
        match self.epochs.get(key) {
            Some(epoch) => match epoch.bindings.get(worker_id) {
                Some(slot) => Some(slot.completed),
                None => None,
            },
            None => None,
        }
    }

    /// The number of immediate results that wait for the epoch `key`.
    pub fn buffered_results(&self, key: &SlotKey) -> (n: usize)
        ensures
            n == self@.buffered_ids(key@).len(),
    {
        match self.pending_immediate_results.get(key) {
            Some(ids) => ids.len(),
            None => {
                assert(self@.buffered_ids(key@) =~= Set::<OperationId>::empty());
                0
            },
        }
    }

    /// The number of half-arrived scheduled transfers of the epoch `key`.
    pub fn waiting_requests(&self, key: &SlotKey) -> (n: usize)
        ensures
            n == self@.waiting(key@).dom().len(),
    {
        match self.enqueued_requests.get(key) {
            Some(sources) => sources.len(),
            None => {
                assert(self@.waiting(key@).dom() =~= Set::<OperationId>::empty());
                0
            },
        }
    }

    /// The half of the scheduled transfer `uuid` that waits for its other half.
    pub fn waiting_half(&self, key: &SlotKey, uuid: OperationId) -> (half: Option<
        &TransferRequestSource,
    >)
        ensures
            match half {
                Some(half) => self@.waiting(key@).dom().contains(uuid)
                    && *half == self@.waiting(key@)[uuid],
                None => !self@.waiting(key@).dom().contains(uuid),
            },
    {
        match self.enqueued_requests.get(key) {
            Some(sources) => sources.get(&uuid),
            None => None,
        }
    }

    /// Whether a newer generation of the same request was seen.
    pub fn is_stale_key(&self, key: &SlotKey) -> (stale: bool)
        ensures
            stale == self@.is_stale(key@),
    {
        match self.latest_generation.get(&key.request_id) {
            Some(latest) => key.generation < *latest,
            None => false,
        }
    }

    /// Whether [`Scheduler::step`] takes `event`: a half of a scheduled transfer must not arrive
    /// twice, and a transfer runs only inside an open epoch.
    pub fn can_take(&self, event: &SchedulerEvent) -> (possible: bool)
        ensures
            possible == (self@.accepts(*event) && self@.apply(*event).0.can_run(
                self@.apply(*event).1,
            )),
    {
        match event {
            SchedulerEvent::EnqueueRequest(request) => {
                let ghost waiting = self@.waiting(request.key@);
                let ghost after = self@.apply(*event);
                let source: Option<&TransferRequestSource> = match self.enqueued_requests.get(
                    &request.key,
                ) {
                    Some(sources) => sources.get(&request.uuid),
                    None => None,
                };
                match source {
                    None => true,
                    Some(TransferRequestSource::Worker) => false,
                    Some(TransferRequestSource::Transfer(controller)) => {
                        assert(after.0.epochs.dom() =~= self@.epochs.dom());
                        assert(after.1 == seq![SchedulerEffectView::ScheduleTransfer(*controller)]);
                        assert(after.1[0] is ScheduleTransfer);
                        self.has_epoch(&controller.request.key)
                    },
                }
            },
            SchedulerEvent::ScheduleRequest(controller) => {
                let ghost after = self@.apply(*event);
                let source: Option<&TransferRequestSource> = match self.enqueued_requests.get(
                    &controller.request.key,
                ) {
                    Some(sources) => sources.get(&controller.request.uuid),
                    None => None,
                };
                match source {
                    None => true,
                    Some(TransferRequestSource::Transfer(_)) => false,
                    Some(TransferRequestSource::Worker) => {
                        assert(after.1 == seq![SchedulerEffectView::ScheduleTransfer(*controller)]);
                        assert(after.1[0] is ScheduleTransfer);
                        self.has_epoch(&controller.request.key)
                    },
                }
            },
            _ => true,
        }
    }

    fn create_slot(&mut self, request: SchedulerCreateSlotDetails) -> (effects: Vec<
        SchedulerEffect,
    >)
        ensures
            (final(self)@, effect_views(effects@)) == old(self)@.create_slot(
                request.key@,
                request.worker_id@,
                request.completed,
                request.expected_immediate_ops,
            ),
    {
        let key: SlotKey = request.key;
        let newest: u64 = match self.latest_generation.get(&key.request_id) {
            Some(latest) => if *latest < key.generation {
                key.generation
            } else {
                *latest
            },
            None => key.generation,
        };
        self.latest_generation.insert(key.request_id.clone(), newest);

        let arrived: usize = self.buffered_results(&key);
        let mut epoch: RequestEpoch = match self.epochs.remove(&key) {
            Some(epoch) => epoch,
            None => {
                let fresh = RequestEpoch {
                    phase: EpochPhase::Onboarding,
                    close_reason: None,
                    expected_immediate_ops: request.expected_immediate_ops,
                    completed_immediate_ops: 0,
                    seen_immediate_ops: HashSet::new(),
                    bindings: Table::new(),
                };
                assert(fresh@ =~= EpochView::fresh(request.expected_immediate_ops));
                fresh
            },
        };
        let ghost before = epoch@;
        epoch.expected_immediate_ops = request.expected_immediate_ops;
        if epoch.completed_immediate_ops < arrived as u64 {
            epoch.completed_immediate_ops = arrived as u64;
        }
        let completed: u64 = epoch.completed_immediate_ops;
        let slot = SchedulerSlot {
            worker_id: request.worker_id.clone(),
            completed: request.completed,
        };
        let ghost bindings = epoch.bindings@;
        epoch.bindings.insert(request.worker_id, slot);
        assert(binding_counters(epoch.bindings@) =~= binding_counters(bindings).insert(
            request.worker_id@,
            request.completed,
        ));
        epoch.update_phase();
        let ghost joined = epoch@;
        let ghost key_view = key@;
        self.epochs.insert(key, epoch);
        let mut effects: Vec<SchedulerEffect> = Vec::new();
        effects.push(SchedulerEffect::StoreCount(request.completed, completed));
        proof {
            assert(epoch_map(self.epochs@) =~= old(self)@.epochs.insert(key_view, joined));
            assert(effect_views(effects@) =~= seq![
                SchedulerEffectView::StoreCount(request.completed, completed),
            ]);
            assert(self@ =~= old(self)@.create_slot(
                request.key@,
                request.worker_id@,
                request.completed,
                request.expected_immediate_ops,
            ).0);
        }
        effects
    }

    fn request_finished(&mut self, request: SchedulerRemoveSlotDetails)
        ensures
            final(self)@ == old(self)@.finish(request.key@, request.worker_id@),
    {
        let key: SlotKey = request.key;
        if self.is_stale_key(&key) {
            return;
        }
        match self.epochs.remove(&key) {
            None => {
                assert(self.epochs@ =~= old(self).epochs@);
            },
            Some(mut epoch) => {
                let ghost bindings = epoch.bindings@;
                let ghost before = epoch@;
                epoch.bindings.remove(&request.worker_id);
                assert(binding_counters(epoch.bindings@) =~= binding_counters(bindings).remove(
                    request.worker_id@,
                ));
                assert(epoch@.bindings.dom() =~= epoch.bindings@.dom());
                if epoch.bindings.len() > 0 {
                    epoch.phase = EpochPhase::Draining;
                    let ghost draining = epoch@;
                    self.epochs.insert(key, epoch);
                    assert(epoch_map(self.epochs@) =~= old(self)@.epochs.insert(
                        request.key@,
                        draining,
                    ));
                } else {
                    self.cancel_tokens.remove(&key);
                    self.enqueued_requests.remove(&key);
                    self.pending_immediate_results.remove(&key);
                    self.tombstones.insert(
                        key,
                        ClosedEpochMeta { close_reason: CloseReason::Completed },
                    );
                    proof {
                        assert(epoch_map(self.epochs@) =~= old(self)@.epochs.remove(request.key@));
                        assert(tombstone_map(self.tombstones@) =~= old(self)@.tombstones.insert(
                            request.key@,
                            CloseReason::Completed,
                        ));
                        assert(enqueued_map(self.enqueued_requests@)
                            =~= old(self)@.enqueued.remove(request.key@));
                        assert(buffered_map(self.pending_immediate_results@)
                            =~= old(self)@.buffered.remove(request.key@));
                    }
                }
            },
        }
        assert(self@ =~= old(self)@.finish(request.key@, request.worker_id@));
    }

    fn refresh(&mut self, key: &SlotKey)
        ensures
            final(self)@ == old(self)@.refresh(key@),
    {
        match self.epochs.remove(key) {
            Some(mut epoch) => {
                epoch.update_phase();
                let ghost updated = epoch@;
                self.epochs.insert(key.clone(), epoch);
                assert(epoch_map(self.epochs@) =~= old(self)@.epochs.insert(key@, updated));
            },
            None => {
                assert(self.epochs@ =~= old(self).epochs@);
            },
        }
        assert(self@ =~= old(self)@.refresh(key@));
    }

    /// Joins one half of a scheduled transfer with the other, or keeps it until that arrives.
    fn try_prepare_controller(
        &mut self,
        key: SlotKey,
        uuid: OperationId,
        incoming: TransferRequestSource,
    ) -> (ready: Option<ScheduledTaskController>)
        requires
            old(self)@.waiting(key@).dom().contains(uuid) ==> (incoming is Worker
                <==> old(self)@.waiting(key@)[uuid] is Transfer),
        ensures
            (final(self)@, ready) == old(self)@.pair(key@, uuid, incoming),
    {
        let ghost key_view = key@;
        let mut sources: HashMap<u128, TransferRequestSource> =
            match self.enqueued_requests.remove(&key) {
            Some(sources) => sources,
            None => HashMap::new(),
        };
        let ghost waiting = sources@;
        assert(waiting =~= old(self)@.waiting(key_view));
        let ready: Option<ScheduledTaskController> = match sources.remove(&uuid) {
            Some(TransferRequestSource::Worker) => match incoming {
                TransferRequestSource::Transfer(controller) => Some(controller),
                TransferRequestSource::Worker => None,
            },
            Some(TransferRequestSource::Transfer(controller)) => Some(controller),
            None => {
                sources.insert(uuid, incoming);
                None
            },
        };
        let ghost after = sources@;
        self.enqueued_requests.insert(key, sources);
        proof {
            assert(after =~= if waiting.dom().contains(uuid) {
                waiting.remove(uuid)
            } else {
                waiting.insert(uuid, incoming)
            });
            assert(enqueued_map(self.enqueued_requests@) =~= old(self)@.enqueued.insert(
                key_view,
                after,
            ));
            assert(self@ =~= old(self)@.pair(key_view, uuid, incoming).0);
        }
        ready
    }

    fn record_immediate_result(&mut self, key: SlotKey, uuid: OperationId) -> (outcome:
        ImmediateResultOutcome)
        ensures
            (final(self)@, outcome) == old(self)@.record(key@, uuid),
    {
        let ghost key_view = key@;
        if self.is_stale_key(&key) || self.tombstones.contains_key(&key) {
            return ImmediateResultOutcome::Stale;
        }
        match self.epochs.remove(&key) {
            Some(mut epoch) => {
                let ghost before = epoch@;
                if epoch.seen_immediate_ops.contains(&uuid) {
                    self.epochs.insert(key, epoch);
                    assert(epoch_map(self.epochs@) =~= old(self)@.epochs);
                    assert(self@ =~= old(self)@);
                    return ImmediateResultOutcome::Duplicate;
                }
                epoch.seen_immediate_ops.insert(uuid);
                epoch.completed_immediate_ops = epoch.completed_immediate_ops.saturating_add(1);
                epoch.update_phase();
                let ghost counted = epoch@;
                self.epochs.insert(key, epoch);
                assert(epoch_map(self.epochs@) =~= old(self)@.epochs.insert(key_view, counted));
                assert(self@ =~= old(self)@.record(key_view, uuid).0);
                ImmediateResultOutcome::Applied
            },
            None => {
                assert(self.epochs@ =~= old(self).epochs@);
                let mut ids: HashSet<u128> = match self.pending_immediate_results.remove(&key) {
                    Some(ids) => ids,
                    None => HashSet::new(),
                };
                assert(ids@ =~= old(self)@.buffered_ids(key_view));
                ids.insert(uuid);
                let ghost after = ids@;
                self.pending_immediate_results.insert(key, ids);
                assert(buffered_map(self.pending_immediate_results@)
                    =~= old(self)@.buffered.insert(key_view, after));
                assert(self@ =~= old(self)@.record(key_view, uuid).0);
                ImmediateResultOutcome::Buffered
            },
        }
    }

    /// Moves the scheduler by one event and returns what has to be done.
    pub fn apply(&mut self, event: SchedulerEvent) -> (effects: Vec<SchedulerEffect>)
        requires
            old(self)@.accepts(event),
        ensures
            (final(self)@, effect_views(effects@)) == old(self)@.apply(event),
    {
        let none: Vec<SchedulerEffect> = Vec::new();
        assert(effect_views(none@) =~= Seq::<SchedulerEffectView>::empty());
        match event {
            SchedulerEvent::StartIteration(iteration) => {
                self.iteration = iteration;
                self.layers_complete = 0;
                self.iteration_complete = false;
                none
            },
            SchedulerEvent::EndIteration(_) => {
                self.iteration_complete = true;
                none
            },
            SchedulerEvent::UpdateLayersCompleted(_, layers) => {
                self.layers_complete = layers;
                none
            },
            SchedulerEvent::CreateSlot(request) => self.create_slot(request),
            SchedulerEvent::RequestFinished(request) => {
                self.request_finished(request);
                none
            },
            SchedulerEvent::EnqueueRequest(request) => {
                self.refresh(&request.key);
                let ready = self.try_prepare_controller(
                    request.key,
                    request.uuid,
                    TransferRequestSource::Worker,
                );
                scheduled_exec(ready)
            },
            SchedulerEvent::ScheduleRequest(controller) => {
                let key: SlotKey = controller.request.key.clone();
                let uuid: OperationId = controller.request.uuid;
                self.cancel_tokens.insert(key.clone());
                let ready = self.try_prepare_controller(
                    key,
                    uuid,
                    TransferRequestSource::Transfer(controller),
                );
                scheduled_exec(ready)
            },
            SchedulerEvent::ImmediateResult(result) => {
                let mut effects: Vec<SchedulerEffect> = none;
                if result.status.is_err() {
                    effects.push(
                        SchedulerEffect::NotifyFailure(result.key.request_id.clone(), result.uuid),
                    );
                    assert(effect_views(effects@) =~= seq![
                        SchedulerEffectView::NotifyFailure(result.key.request_id@, result.uuid),
                    ]);
                }
                if result.chained {
                    return effects;
                }
                let key: SlotKey = result.key.clone();
                let ghost failure = effect_views(effects@);
                match self.record_immediate_result(result.key, result.uuid) {
                    ImmediateResultOutcome::Applied => {
                        effects.push(SchedulerEffect::IncrementBindings(key, 1));
                        assert(effect_views(effects@) =~= failure.push(
                            SchedulerEffectView::IncrementBindings(key@, 1),
                        ));
                    },
                    _ => {},
                }
                effects
            },
        }
    }

    /// Carries out one effect: counters are updated here, the rest is handed to the caller.
    fn run_effect(&self, effect: SchedulerEffect, bank: &mut CounterBank) -> (action:
        SchedulerAction)
        requires
            effect matches SchedulerEffect::ScheduleTransfer(controller)
                ==> self@.epochs.dom().contains(controller.request.key@),
        ensures
            self@.effect_ran(effect@, old(bank)@, final(bank)@, action),
    {
        match effect {
            SchedulerEffect::ScheduleTransfer(controller) => {
                let counters: Vec<CounterId> = match self.epochs.get(&controller.request.key) {
                    Some(epoch) => epoch.counters(),
                    None => Vec::new(),
                };
                SchedulerAction::Execute { controller, counters }
            },
            SchedulerEffect::StoreCount(id, value) => {
                bank.store(id, value);
                SchedulerAction::Counted
            },
            SchedulerEffect::IncrementBindings(key, delta) => {
                match self.epochs.get(&key) {
                    Some(epoch) => {
                        let counters: Vec<CounterId> = epoch.counters();
                        bank.fetch_add_each(&counters, delta);
                        assert(enumerates(counters@, self@.epochs[key@].bindings) && bank@
                            == grow_each(old(bank)@, counters@, delta));
                    },
                    None => {},
                }
                SchedulerAction::Counted
            },
            SchedulerEffect::NotifyFailure(request_id, uuid) => SchedulerAction::ReportFailure(
                request_id,
                uuid,
            ),
        }
    }

    /// Carries out effects in order: counters are updated here, and one action per effect is
    /// handed to the caller.
    pub fn run_effects(&self, effects: Vec<SchedulerEffect>, bank: &mut CounterBank) -> (actions:
        Vec<SchedulerAction>)
        requires
            self@.can_run(effect_views(effects@)),
        ensures
            self@.effects_ran(effect_views(effects@), old(bank)@, final(bank)@, actions@),
    {
        let ghost views = effect_views(effects@);
        let ghost mut banks: Seq<Map<CounterId, u64>> = seq![bank@];
        let mut actions: Vec<SchedulerAction> = Vec::new();
        let mut rest: Vec<SchedulerEffect> = effects;
        while rest.len() > 0
            invariant
                self@.can_run(views),
                views.len() == actions@.len() + rest@.len(),
                forall|j: int|
                    0 <= j < rest@.len() ==> (#[trigger] rest@[j])@ == views[actions@.len() + j],
                banks.len() == actions@.len() + 1,
                banks[0] == old(bank)@,
                banks.last() == bank@,
                forall|j: int|
                    0 <= j < actions@.len() ==> self@.effect_ran(
                        #[trigger] views[j],
                        banks[j],
                        banks[j + 1],
                        actions@[j],
                    ),
            decreases rest@.len(),
        {
            let ghost left = rest@;
            let effect: SchedulerEffect = rest.remove(0);
            let ghost before = bank@;
            assert(left[0]@ == views[actions@.len() as int]);
            assert(self@.can_run_one(views[actions@.len() as int]));
            let action: SchedulerAction = self.run_effect(effect, bank);
            let ghost done = actions@;
            actions.push(action);
            proof {
                let old_banks = banks;
                banks = banks.push(bank@);
                assert forall|j: int| 0 <= j < rest@.len() implies (#[trigger] rest@[j])@
                    == views[actions@.len() + j] by {
                    assert(rest@[j] == left[j + 1]);
                }
                assert forall|j: int| 0 <= j < actions@.len() implies self@.effect_ran(
                    #[trigger] views[j],
                    banks[j],
                    banks[j + 1],
                    actions@[j],
                ) by {
                    if j < done.len() {
                        assert(banks[j] == old_banks[j] && banks[j + 1] == old_banks[j + 1]);
                    }
                }
            }
        }
        proof {
            assert(banks.len() == views.len() + 1 && banks[0] == old(bank)@ && banks.last()
                == bank@);
        }
        actions
    }

    /// Moves the scheduler by one event and carries out what follows from it.
    pub fn step(&mut self, event: SchedulerEvent, bank: &mut CounterBank) -> (actions: Vec<
        SchedulerAction,
    >)
        requires
            old(self)@.accepts(event),
            old(self)@.apply(event).0.can_run(old(self)@.apply(event).1),
        ensures
            final(self)@ == old(self)@.apply(event).0,
            final(self)@.effects_ran(
                old(self)@.apply(event).1,
                old(bank)@,
                final(bank)@,
                actions@,
            ),
    {
        let effects: Vec<SchedulerEffect> = self.apply(event);
        self.run_effects(effects, bank)
    }
}

impl SchedulerView {
    /// Whether an effect can be carried out: a transfer runs only inside an open epoch.
    pub open spec fn can_run_one(self, effect: SchedulerEffectView) -> bool {
        effect matches SchedulerEffectView::ScheduleTransfer(controller)
            ==> self.epochs.dom().contains(controller.request.key@)
    }

    /// Whether every effect can be carried out.
    pub open spec fn can_run(self, effects: Seq<SchedulerEffectView>) -> bool {
        forall|i: int| 0 <= i < effects.len() ==> self.can_run_one(#[trigger] effects[i])
    }

    /// What carrying out one effect does to the counters, and what it asks of the caller.
    pub open spec fn effect_ran(
        self,
        effect: SchedulerEffectView,
        before: Map<CounterId, u64>,
        after: Map<CounterId, u64>,
        action: SchedulerAction,
    ) -> bool {
        match effect {
            SchedulerEffectView::ScheduleTransfer(controller) => {
                &&& after == before
                &&& action matches SchedulerAction::Execute { controller: c, counters }
                &&& c == controller
                &&& enumerates(counters@, self.epochs[controller.request.key@].bindings)
            },
            SchedulerEffectView::StoreCount(id, value) => {
                &&& after == before.insert(id, value)
                &&& action is Counted
            },
            SchedulerEffectView::IncrementBindings(key, delta) => {
                &&& action is Counted
                &&& if self.epochs.dom().contains(key) {
                    exists|counters: Seq<CounterId>|
                        #[trigger] enumerates(counters, self.epochs[key].bindings) && after
                            == grow_each(before, counters, delta)
                } else {
                    after == before
                }
            },
            SchedulerEffectView::NotifyFailure(request_id, uuid) => {
                &&& after == before
                &&& action matches SchedulerAction::ReportFailure(id, failed)
                &&& id@ == request_id
                &&& failed == uuid
            },
        }
    }

    /// What carrying out effects in order does: one action per effect, and a chain of counter
    /// values from before to after.
    pub open spec fn effects_ran(
        self,
        effects: Seq<SchedulerEffectView>,
        before: Map<CounterId, u64>,
        after: Map<CounterId, u64>,
        actions: Seq<SchedulerAction>,
    ) -> bool {
        &&& actions.len() == effects.len()
        &&& exists|banks: Seq<Map<CounterId, u64>>|
            {
                &&& #[trigger] banks.len() == effects.len() + 1
                &&& banks[0] == before
                &&& banks.last() == after
                &&& forall|i: int|
                    0 <= i < effects.len() ==> self.effect_ran(
                        #[trigger] effects[i],
                        banks[i],
                        banks[i + 1],
                        actions[i],
                    )
            }
    }
}

} // verus!
