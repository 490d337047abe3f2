//! The worker's side of the transfer scheduler.

use std::collections::HashSet;

use vstd::prelude::*;

use crate::outbox::{Outbox, OutboxView};
use crate::protocol::{
    LeaderTransferRequest, OperationId, RequestType, SlotKey, SlotKeyView, WorkerTransferRequest,
};
use crate::scheduler::{
    self, CounterBank, CounterId, SchedulerCreateSlotDetails, SchedulerError, SchedulerMessage,
    SchedulerRemoveSlotDetails,
};
use crate::table::Table;

verus! {

broadcast use vstd::std_specs::hash::group_hash_axioms;

/// What a worker knows of one slot: the operations that it issued, and the counter that the
/// scheduler grows as they complete.
#[derive(Debug)]
pub struct WorkerSchedulerClientSlot {
    operations: Vec<OperationId>,
    completed: CounterId,
}

/// The mathematical value of a [`WorkerSchedulerClientSlot`].
#[verifier::ext_equal]
pub struct ClientSlotView {
    pub operations: Seq<OperationId>,
    pub completed: CounterId,
}

impl ClientSlotView {
    /// Whether as many operations completed as were issued.
    pub open spec fn is_complete(self, bank: Map<CounterId, u64>) -> bool {
        scheduler::count(bank, self.completed) == self.operations.len()
    }
}

impl View for WorkerSchedulerClientSlot {
    type V = ClientSlotView;

    closed spec fn view(&self) -> ClientSlotView {
        ClientSlotView { operations: self.operations@, completed: self.completed }
    }
}

impl WorkerSchedulerClientSlot {
    fn new(completed: CounterId) -> (slot: Self)
        ensures
            slot@ == (ClientSlotView { operations: Seq::empty(), completed }),
    {
        WorkerSchedulerClientSlot { operations: Vec::new(), completed }
    }

    fn make_scheduler_slot_request(
        &self,
        key: SlotKey,
        worker_id: String,
        expected_immediate_ops: u64,
    ) -> (details: SchedulerCreateSlotDetails)
        ensures
            details == (SchedulerCreateSlotDetails {
                key,
                worker_id,
                completed: self@.completed,
                expected_immediate_ops,
            }),
    {
        SchedulerCreateSlotDetails {
            key,
            worker_id,
            completed: self.completed,
            expected_immediate_ops,
        }
    }

    /// Whether as many operations completed as were issued.
    pub fn is_complete(&self, bank: &CounterBank) -> (complete: bool)
        ensures
            complete == self@.is_complete(bank@),
    {
        bank.load(self.completed) == self.operations.len() as u64
    }

    /// The number of operations that were issued.
    pub fn num_operations(&self) -> (n: usize)
        ensures
            n == self@.operations.len(),
    {
        self.operations.len()
    }
}

/// The worker's handle on the scheduler.
pub struct WorkerSchedulerClient {
    slots: Table<SlotKey, WorkerSchedulerClientSlot>,
    worker_id: String,
    messages: Outbox<SchedulerMessage>,
    iteration: u64,
    iteration_complete: bool,
    layers_complete: u32,
}

/// The mathematical value of a [`WorkerSchedulerClient`].
#[verifier::ext_equal]
pub struct WorkerClientView {
    pub slots: Map<SlotKeyView, ClientSlotView>,
    pub worker_id: String,
    /// What the scheduler has yet to receive.
    pub messages: OutboxView<SchedulerMessage>,
    pub iteration: u64,
    pub iteration_complete: bool,
    pub layers_complete: u32,
}

impl WorkerClientView {
    /// With `message` on its way to the scheduler.
    pub open spec fn send(self, message: SchedulerMessage) -> WorkerClientView {
        WorkerClientView { messages: self.messages.send(message), ..self }
    }

    /// With a slot that counts its completions in `completed`, and with its announcement on its
    /// way to the scheduler.
    pub open spec fn with_slot(
        self,
        key: SlotKey,
        expected_immediate_ops: u64,
        completed: CounterId,
    ) -> WorkerClientView {
        WorkerClientView {
            slots: self.slots.insert(
                key@,
                ClientSlotView { operations: Seq::empty(), completed },
            ),
            ..self
        }.send(
            SchedulerMessage::CreateSlot(
                SchedulerCreateSlotDetails {
                    key,
                    worker_id: self.worker_id,
                    completed,
                    expected_immediate_ops,
                },
            ),
        )
    }

    /// Whether every slot counts in a counter of `bank` that no other slot counts in.
    pub open spec fn counts_apart(self, bank: Map<CounterId, u64>) -> bool {
        &&& forall|key: SlotKeyView| #[trigger]
            self.slots.dom().contains(key) ==> bank.dom().contains(self.slots[key].completed)
        &&& forall|a: SlotKeyView, b: SlotKeyView|
            #![trigger self.slots.dom().contains(a), self.slots.dom().contains(b)]
            self.slots.dom().contains(a) && self.slots.dom().contains(b) && a != b
                ==> self.slots[a].completed != self.slots[b].completed
    }

    /// With `operation` issued in the slot `key`.
    pub open spec fn issue(self, key: SlotKeyView, operation: OperationId) -> WorkerClientView {
        if self.slots.dom().contains(key) {
            let slot = self.slots[key];
            WorkerClientView {
                slots: self.slots.insert(
                    key,
                    ClientSlotView { operations: slot.operations.push(operation), ..slot },
                ),
                ..self
            }
        } else {
            self
        }
    }
}

spec fn slot_map(slots: Map<SlotKeyView, WorkerSchedulerClientSlot>) -> Map<
    SlotKeyView,
    ClientSlotView,
> {
    slots.map_values(|slot: WorkerSchedulerClientSlot| slot@)
}

impl View for WorkerSchedulerClient {
    type V = WorkerClientView;

    closed spec fn view(&self) -> WorkerClientView {
        WorkerClientView {
            slots: slot_map(self.slots@),
            worker_id: self.worker_id,
            messages: self.messages@,
            iteration: self.iteration,
            iteration_complete: self.iteration_complete,
            layers_complete: self.layers_complete,
        }
    }
}

/// The result of sending through `outbox`.
pub open spec fn sent(outbox: OutboxView<SchedulerMessage>) -> Result<(), SchedulerError> {
    if outbox.open {
        Ok(())
    } else {
        Err(SchedulerError::Disconnected)
    }
}

impl WorkerSchedulerClient {
    /// A client without slots, before the first forward pass.
    pub fn new(worker_id: String) -> (client: Self)
        ensures
            client@ == (WorkerClientView {
                slots: Map::empty(),
                worker_id,
                messages: OutboxView { items: Seq::empty(), open: true },
                iteration: 0,
                iteration_complete: true,
                layers_complete: 0,
            }),
    {
        let client = WorkerSchedulerClient {
            slots: Table::new(),
            worker_id,
            messages: Outbox::new(),
            iteration: 0,
            iteration_complete: true,
            layers_complete: 0,
        };
        assert(slot_map(client.slots@) =~= Map::<SlotKeyView, ClientSlotView>::empty());
        client
    }

    /// The forward pass that is running or ran last.
    pub fn iteration(&self) -> (iteration: u64)
        ensures
            iteration == self@.iteration,
    {
        self.iteration
    }

    fn send(&mut self, message: SchedulerMessage) -> (result: Result<(), SchedulerError>)
        ensures
            final(self)@ == old(self)@.send(message),
            result == sent(old(self)@.messages),
    {
        if self.messages.send(message) {
            Ok(())
        } else {
            Err(SchedulerError::Disconnected)
        }
    }

    /// Takes the messages that the scheduler has yet to receive, oldest first.
    pub fn drain_messages(&mut self) -> (messages: Vec<SchedulerMessage>)
        ensures
            messages@ == old(self)@.messages.items,
            final(self)@ == (WorkerClientView {
                messages: OutboxView { items: Seq::empty(), open: old(self)@.messages.open },
                ..old(self)@
            }),
    {
        self.messages.drain()
    }

    /// Notes that the scheduler is gone.
    pub fn disconnect(&mut self)
        ensures
            final(self)@ == (WorkerClientView {
                messages: OutboxView { items: old(self)@.messages.items, open: false },
                ..old(self)@
            }),
    {
        self.messages.close();
    }

    /// Starts the next forward pass.
    pub fn start_next_iteration(&mut self) -> (result: Result<(), SchedulerError>)
        requires
            old(self)@.iteration < u64::MAX,
        ensures
            result == sent(old(self)@.messages),
            final(self)@ == (WorkerClientView {
                iteration: (old(self)@.iteration + 1) as u64,
                iteration_complete: false,
                layers_complete: 0,
                ..old(self)@
            }).send(SchedulerMessage::StartIteration((old(self)@.iteration + 1) as u64)),
    {
        self.iteration = self.iteration + 1;
        self.iteration_complete = false;
        self.layers_complete = 0;
        let iteration: u64 = self.iteration;
        self.send(SchedulerMessage::StartIteration(iteration))
    }

    /// Counts one more complete layer of the running forward pass.
    pub fn mark_layer_complete(&mut self, layer_name: String) -> (result: Result<
        (),
        SchedulerError,
    >)
        requires
            old(self)@.layers_complete < u32::MAX,
        ensures
            result == sent(old(self)@.messages),
            final(self)@ == (WorkerClientView {
                layers_complete: (old(self)@.layers_complete + 1) as u32,
                ..old(self)@
            }).send(
                SchedulerMessage::UpdateLayersCompleted(
                    layer_name,
                    (old(self)@.layers_complete + 1) as u32,
                ),
            ),
    {
        self.layers_complete = self.layers_complete + 1;
        let layers: u32 = self.layers_complete;
        self.send(SchedulerMessage::UpdateLayersCompleted(layer_name, layers))
    }

    /// Ends the running forward pass.
    pub fn mark_iteration_complete(&mut self) -> (result: Result<(), SchedulerError>)
        ensures
            result == sent(old(self)@.messages),
            final(self)@ == (WorkerClientView {
                iteration_complete: true,
                ..old(self)@
            }).send(SchedulerMessage::EndIteration(old(self)@.iteration)),
    {
        self.iteration_complete = true;
        let iteration: u64 = self.iteration;
        self.send(SchedulerMessage::EndIteration(iteration))
    }

    /// Creates a slot and announces it together with the number of immediate operations that
    /// will be reported for it. Its completions are counted in a counter of its own, which `bank`
    /// hands out and which reads zero.
    pub fn create_slot_with_key_and_immediate_ops(
        &mut self,
        key: SlotKey,
        expected_immediate_ops: u64,
        bank: &mut CounterBank,
    ) -> (result: Result<(), SchedulerError>)
        ensures
            result == sent(old(self)@.messages),
            ({
                let completed = final(self)@.slots[key@].completed;
                &&& !old(bank)@.dom().contains(completed)
                &&& final(bank)@ == old(bank)@.insert(completed, 0)
                &&& final(self)@ == old(self)@.with_slot(key, expected_immediate_ops, completed)
            }),
    {
        let completed: CounterId = bank.allocate();
        let slot = WorkerSchedulerClientSlot::new(completed);
        let request = slot.make_scheduler_slot_request(
            key.clone(),
            self.worker_id.clone(),
            expected_immediate_ops,
        );
        let ghost added = slot@;
        self.slots.insert(key, slot);
        assert(slot_map(self.slots@) =~= old(self)@.slots.insert(key@, added));
        self.send(SchedulerMessage::CreateSlot(request))
    }

    /// Whether the slot exists.
    pub fn has_key(&self, key: &SlotKey) -> (found: bool)
        ensures
            found == self@.slots.dom().contains(key@),
    {
        self.slots.contains_key(key)
    }

    /// Whether every operation of the slot completed; a slot that does not exist has none.
    pub fn is_key_complete(&self, key: &SlotKey, bank: &CounterBank) -> (complete: bool)
        ensures
            complete == (self@.slots.dom().contains(key@) ==> self@.slots[key@].is_complete(bank@)),
    {
        match self.slots.get(key) {
            Some(slot) => slot.is_complete(bank),
            None => true,
        }
    }

    /// The number of operations issued in the slot.
    pub fn num_operations(&self, key: &SlotKey) -> (n: Option<usize>)
        ensures
            match n {
                Some(n) => self@.slots.dom().contains(key@) && n
                    == self@.slots[key@].operations.len(),
                None => !self@.slots.dom().contains(key@),
            },
    {
        match self.slots.get(key) {
            Some(slot) => Some(slot.num_operations()),
            None => None,
        }
    }

    /// Gives up a complete slot; nothing happens where it does not exist.
    pub fn remove_key(&mut self, key: &SlotKey, bank: &CounterBank) -> (result: Result<
        (),
        SchedulerError,
    >)
        requires
            old(self)@.slots.dom().contains(key@) ==> old(self)@.slots[key@].is_complete(bank@),
        ensures
            if old(self)@.slots.dom().contains(key@) {
                &&& result == sent(old(self)@.messages)
                &&& final(self)@ == (WorkerClientView {
                    slots: old(self)@.slots.remove(key@),
                    ..old(self)@
                }).send(
                    SchedulerMessage::RequestFinished(
                        SchedulerRemoveSlotDetails {
                            key: *key,
                            worker_id: old(self)@.worker_id,
                        },
                    ),
                )
            } else {
                result == Ok::<(), SchedulerError>(()) && final(self)@ == old(self)@
            },
    {
        match self.slots.remove(key) {
            None => {
                assert(self.slots@ =~= old(self).slots@);
                Ok(())
            },
            Some(_) => {
                assert(slot_map(self.slots@) =~= old(self)@.slots.remove(key@));
                let worker_id: String = self.worker_id.clone();
                self.send(
                    SchedulerMessage::RequestFinished(
                        SchedulerRemoveSlotDetails { key: key.clone(), worker_id },
                    ),
                )
            },
        }
    }

    /// Notes an operation in its slot without telling the scheduler; nothing happens where the
    /// slot does not exist.
    pub fn record_operation_key(&mut self, key: &SlotKey, uuid: OperationId)
        ensures
            final(self)@ == old(self)@.issue(key@, uuid),
    {
        match self.slots.remove(key) {
            Some(mut slot) => {
                slot.operations.push(uuid);
                let ghost after = slot@;
                self.slots.insert(key.clone(), slot);
                assert(slot_map(self.slots@) =~= old(self)@.slots.insert(key@, after));
            },
            None => {
                assert(self.slots@ =~= old(self).slots@);
            },
        }
        assert(self@ =~= old(self)@.issue(key@, uuid));
    }

    /// Issues a transfer: it is noted in its slot, and the scheduler is told of one that waits
    /// for it. A transfer of a slot that does not exist is dropped.
    pub fn enqueue_request(&mut self, request: WorkerTransferRequest) -> (result: Result<
        (),
        SchedulerError,
    >)
        ensures
            ({
                let known = old(self)@.slots.dom().contains(request.key@);
                let issued = old(self)@.issue(request.key@, request.uuid);
                if known && request.request_type == RequestType::Scheduled {
                    &&& final(self)@ == issued.send(SchedulerMessage::EnqueueRequest(request))
                    &&& result == sent(old(self)@.messages)
                } else {
                    &&& final(self)@ == issued
                    &&& result == Ok::<(), SchedulerError>(())
                }
            }),
    {
        if !self.slots.contains_key(&request.key) {
            return Ok(());
        }
        self.record_operation_key(&request.key, request.uuid);
        match request.request_type {
            RequestType::Immediate => Ok(()),
            RequestType::Scheduled => self.send(SchedulerMessage::EnqueueRequest(request)),
        }
    }
}

/// Failure notices, in the order they came: request id and operation.
pub open spec fn failed_operations(
    notices: Seq<(String, OperationId)>,
    request_id: Seq<char>,
) -> Set<OperationId> {
    Set::new(
        |uuid: OperationId|
            exists|i: int|
                0 <= i < notices.len() && (#[trigger] notices[i]).0@ == request_id && notices[i].1
                    == uuid,
    )
}

/// Groups failure notices by request id.
pub fn group_failures(notices: Vec<(String, OperationId)>) -> (groups: Table<
    String,
    HashSet<u128>,
>)
    ensures
        forall|id: Seq<char>|
            #[trigger] groups@.dom().contains(id) <==> exists|i: int|
                0 <= i < notices@.len() && (#[trigger] notices@[i]).0@ == id,
        forall|id: Seq<char>|
            groups@.dom().contains(id) ==> (#[trigger] groups@[id])@ == failed_operations(
                notices@,
                id,
            ),
{
    let mut groups: Table<String, HashSet<u128>> = Table::new();
    let mut i: usize = 0;
    while i < notices.len()
        invariant
            i <= notices@.len(),
            forall|id: Seq<char>|
                #[trigger] groups@.dom().contains(id) <==> exists|j: int|
                    0 <= j < i && (#[trigger] notices@[j]).0@ == id,
            forall|id: Seq<char>|
                groups@.dom().contains(id) ==> (#[trigger] groups@[id])@ == failed_operations(
                    notices@.subrange(0, i as int),
                    id,
                ),
        decreases notices@.len() - i,
    {
        let ghost before = groups@;
        let ghost seen = notices@.subrange(0, i as int);
        let ghost upto = notices@.subrange(0, i + 1);
        let request_id: String = notices[i].0.clone();
        let uuid: OperationId = notices[i].1;
        let mut ids: HashSet<u128> = match groups.remove(&request_id) {
            Some(ids) => ids,
            None => HashSet::new(),
        };
        proof {
            if !before.dom().contains(request_id@) {
                assert(failed_operations(seen, request_id@) =~= Set::<OperationId>::empty()) by {
                    assert forall|u: OperationId| !failed_operations(seen, request_id@).contains(u) by {
                        if failed_operations(seen, request_id@).contains(u) {
                            let j = choose|j: int|
                                0 <= j < seen.len() && (#[trigger] seen[j]).0@ == request_id@
                                    && seen[j].1 == u;
                            assert(notices@[j].0@ == request_id@);
                        }
                    }
                }
            }
            assert(ids@ =~= failed_operations(seen, request_id@));
        }
        ids.insert(uuid);
        proof {
            assert forall|id: Seq<char>|
                #![trigger failed_operations(upto, id)]
                failed_operations(upto, id) =~= if id == request_id@ {
                    failed_operations(seen, id).insert(uuid)
                } else {
                    failed_operations(seen, id)
                } by {
                assert forall|u: OperationId| #[trigger]
                    failed_operations(upto, id).contains(u) == (failed_operations(seen, id).contains(
                        u,
                    ) || (id == request_id@ && u == uuid)) by {
                    if failed_operations(seen, id).contains(u) {
                        let j = choose|j: int|
                            0 <= j < seen.len() && (#[trigger] seen[j]).0@ == id && seen[j].1 == u;
                        assert(upto[j].0@ == id && upto[j].1 == u);
                    }
                    if failed_operations(upto, id).contains(u) {
                        let j = choose|j: int|
                            0 <= j < upto.len() && (#[trigger] upto[j]).0@ == id && upto[j].1 == u;
                        if j < i {
                            assert(seen[j].0@ == id && seen[j].1 == u);
                        }
                    }
                    assert(upto[i as int].0@ == request_id@ && upto[i as int].1 == uuid);
                }
            }
            assert(ids@ =~= failed_operations(upto, request_id@));
        }
        groups.insert(request_id, ids);
        proof {
            assert forall|id: Seq<char>|
                #[trigger] groups@.dom().contains(id) <==> exists|j: int|
                    0 <= j < i + 1 && (#[trigger] notices@[j]).0@ == id by {
                if groups@.dom().contains(id) && id == request_id@ {
                    assert(notices@[i as int].0@ == id);
                }
            }
        }
        i = i + 1;
    }
    assert(notices@.subrange(0, notices@.len() as int) =~= notices@);
    groups
}

/// Where a transfer that the leader announces goes.
#[derive(Debug)]
pub enum TransferRoute {
    /// It runs at once, and its result is reported as an immediate result.
    Immediate(LeaderTransferRequest),
    /// It is announced to the scheduler and waits for the decision.
    Scheduled(LeaderTransferRequest),
}

/// Decides where a transfer goes by its request type.
pub fn route_transfer(request: LeaderTransferRequest) -> (route: TransferRoute)
    ensures
        route == match request.request_type {
            RequestType::Immediate => TransferRoute::Immediate(request),
            RequestType::Scheduled => TransferRoute::Scheduled(request),
        },
{
    match request.request_type {
        RequestType::Immediate => TransferRoute::Immediate(request),
        RequestType::Scheduled => TransferRoute::Scheduled(request),
    }
}

} // verus!
