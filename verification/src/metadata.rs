//! What the scheduler decides in one iteration, and what the workers learn of it.

use vstd::prelude::*;

use crate::protocol::{
    BlockId, RequestType, SequenceHash, SlotKey, SlotKeyView, TransferType, WorkerTransferRequest,
};
use crate::table::{KeySet, Table};
use crate::transfer_requests::{self, WorkerRequestView};

verus! {

/// The decisions of the scheduler in one iteration.
#[derive(Clone)]
pub struct SchedulerOutput {
    pub new_requests: Vec<NewRequestData>,
    pub cached_requests: Vec<CachedRequestData>,
    pub num_scheduled_tokens: Table<String, usize>,
}

/// A request that is scheduled for the first time.
#[derive(Debug, Clone)]
pub struct NewRequestData {
    pub request_id: String,
    pub prompt_token_ids: Vec<u32>,
    pub block_ids: Vec<BlockId>,
    pub num_computed_tokens: usize,
    pub priorities: Option<Vec<u32>>,
}

/// A request that was scheduled before. `new_block_hashes` identify the blocks that
/// `new_token_ids` complete.
#[derive(Debug, Clone)]
pub struct CachedRequestData {
    pub request_id: String,
    pub resumed_from_preemption: bool,
    pub new_token_ids: Vec<u32>,
    pub new_block_hashes: Vec<SequenceHash>,
    pub new_block_ids: Vec<BlockId>,
    pub num_computed_tokens: usize,
    pub priorities: Option<Vec<u32>>,
}

impl SchedulerOutput {
    /// How many tokens of a request are scheduled: none where nothing is said of it.
    pub open spec fn scheduled_tokens(&self, request_id: Seq<char>) -> usize {
        if self.num_scheduled_tokens@.dom().contains(request_id) {
            self.num_scheduled_tokens@[request_id]
        } else {
            0
        }
    }

    /// How many tokens of a request are scheduled.
    pub fn scheduled_tokens_of(&self, request_id: &String) -> (n: usize)
        ensures
            n == self.scheduled_tokens(request_id@),
    {
        match self.num_scheduled_tokens.get(request_id) {
            Some(n) => *n,
            None => 0,
        }
    }
}

/// What a new slot is for.
#[derive(Debug, Clone, Copy, PartialEq, Eq, Structural)]
pub enum NewSlotKind {
    /// Prefill and decode. Such a slot has no immediate loads in the same metadata.
    Prefill,
    /// Onboarding. Such a slot has at least one immediate load in the same metadata.
    Onboarding,
}

/// A slot that the workers have to create.
#[derive(Debug)]
pub struct NewSlotInfo {
    pub key: SlotKey,
    pub kind: NewSlotKind,
    /// How many immediate loads come with the slot.
    pub expected_immediate_ops: u64,
}

/// The mathematical value of a [`NewSlotInfo`].
pub struct NewSlotView {
    pub key: SlotKeyView,
    pub kind: NewSlotKind,
    pub expected_immediate_ops: u64,
}

impl View for NewSlotInfo {
    type V = NewSlotView;

    open spec fn view(&self) -> NewSlotView {
        NewSlotView {
            key: self.key@,
            kind: self.kind,
            expected_immediate_ops: self.expected_immediate_ops,
        }
    }
}

impl Clone for NewSlotInfo {
    fn clone(&self) -> (copy: Self)
        ensures
            copy == *self,
    {
        NewSlotInfo {
            key: self.key.clone(),
            kind: self.kind,
            expected_immediate_ops: self.expected_immediate_ops,
        }
    }
}

/// The views of a sequence of new slots.
pub open spec fn new_slot_views(slots: Seq<NewSlotInfo>) -> Seq<NewSlotView> {
    slots.map_values(|slot: NewSlotInfo| slot@)
}

/// What the workers learn of one iteration.
#[derive(Clone)]
pub struct ConnectorMetadata {
    pub iteration: u64,
    pub new_slots: Vec<NewSlotInfo>,
    pub operations: Vec<WorkerTransferRequest>,
    /// Requests whose loads are over.
    pub loads_done: KeySet<String>,
    /// Requests whose stores are over.
    pub stores_done: KeySet<String>,
    /// Requests with a failed transfer.
    pub failed: KeySet<String>,
}

/// The mathematical value of a [`ConnectorMetadata`].
#[verifier::ext_equal]
pub struct MetadataView {
    pub iteration: u64,
    pub new_slots: Seq<NewSlotView>,
    pub operations: Seq<WorkerRequestView>,
    pub loads_done: Set<Seq<char>>,
    pub stores_done: Set<Seq<char>>,
    pub failed: Set<Seq<char>>,
}

impl View for ConnectorMetadata {
    type V = MetadataView;

    open spec fn view(&self) -> MetadataView {
        MetadataView {
            iteration: self.iteration,
            new_slots: new_slot_views(self.new_slots@),
            operations: transfer_requests::worker_views(self.operations@),
            loads_done: self.loads_done@,
            stores_done: self.stores_done@,
            failed: self.failed@,
        }
    }
}

/// Operations that belong to `key`, whatever key they carried.
pub open spec fn rekeyed(ops: Seq<WorkerRequestView>, key: SlotKeyView) -> Seq<WorkerRequestView> {
    ops.map_values(|op: WorkerRequestView| WorkerRequestView { key, ..op })
}

/// Whether an operation is a load that starts at once.
pub open spec fn is_immediate_load(op: WorkerRequestView) -> bool {
    op.transfer_type == TransferType::Load && op.request_type == RequestType::Immediate
}

/// The number of loads that start at once.
pub open spec fn immediate_loads(ops: Seq<WorkerRequestView>) -> nat {
    ops.filter(|op: WorkerRequestView| is_immediate_load(op)).len()
}

impl MetadataView {
    /// Metadata of an iteration in which nothing happens.
    pub open spec fn empty(iteration: u64) -> MetadataView {
        MetadataView {
            iteration,
            new_slots: Seq::empty(),
            operations: Seq::empty(),
            loads_done: Set::empty(),
            stores_done: Set::empty(),
            failed: Set::empty(),
        }
    }

    /// With a slot to create.
    pub open spec fn with_slot(self, key: SlotKeyView, kind: NewSlotKind, expected: u64)
        -> MetadataView {
        MetadataView {
            new_slots: self.new_slots.push(
                NewSlotView { key, kind, expected_immediate_ops: expected },
            ),
            ..self
        }
    }

    /// With more operations.
    pub open spec fn with_operations(self, ops: Seq<WorkerRequestView>) -> MetadataView {
        MetadataView { operations: self.operations + ops, ..self }
    }

    /// Whether a slot of `request_id` is created.
    pub open spec fn creates(self, request_id: Seq<char>) -> bool {
        exists|i: int|
            0 <= i < self.new_slots.len() && (#[trigger] self.new_slots[i]).key.0 == request_id
    }
}

impl ConnectorMetadata {
    /// Metadata of an iteration in which nothing happens.
    pub fn new(iteration: u64) -> (metadata: Self)
        ensures
            metadata@ == MetadataView::empty(iteration),
    {
        let metadata = ConnectorMetadata {
            iteration,
            new_slots: Vec::new(),
            operations: Vec::new(),
            loads_done: KeySet::new(),
            stores_done: KeySet::new(),
            failed: KeySet::new(),
        };
        assert(metadata@ =~= MetadataView::empty(iteration));
        metadata
    }

    fn push_slot(&mut self, key: SlotKey, kind: NewSlotKind, expected_immediate_ops: u64)
        ensures
            final(self)@ == old(self)@.with_slot(key@, kind, expected_immediate_ops),
    {
        let slot = NewSlotInfo { key, kind, expected_immediate_ops };
        let ghost view = slot@;
        self.new_slots.push(slot);
        assert(new_slot_views(self.new_slots@) =~= old(self)@.new_slots.push(view));
        assert(self@ =~= old(self)@.with_slot(key@, kind, expected_immediate_ops));
    }

    /// Adds a slot for prefill and decode.
    pub fn create_prefill_slot(&mut self, key: SlotKey)
        ensures
            final(self)@ == old(self)@.with_slot(key@, NewSlotKind::Prefill, 0),
    {
        self.push_slot(key, NewSlotKind::Prefill, 0);
    }

    /// Adds a slot for onboarding, which comes with `expected_immediate_ops` immediate loads.
    pub fn create_onboarding_slot(&mut self, key: SlotKey, expected_immediate_ops: u64)
        ensures
            final(self)@ == old(self)@.with_slot(
                key@,
                NewSlotKind::Onboarding,
                expected_immediate_ops,
            ),
    {
        self.push_slot(key, NewSlotKind::Onboarding, expected_immediate_ops);
    }

    /// Adds operations as they are.
    pub fn add_operations(&mut self, xfer_reqs: Vec<WorkerTransferRequest>)
        ensures
            final(self)@ == old(self)@.with_operations(
                transfer_requests::worker_views(xfer_reqs@),
            ),
    {
        let mut xfer_reqs: Vec<WorkerTransferRequest> = xfer_reqs;
        let ghost added = xfer_reqs@;
        self.operations.append(&mut xfer_reqs);
        assert(transfer_requests::worker_views(self.operations@) =~= old(self)@.operations
            + transfer_requests::worker_views(added));
        assert(self@ =~= old(self)@.with_operations(transfer_requests::worker_views(added)));
    }

    /// Adds operations under `key`.
    pub fn add_operations_for_key(&mut self, key: &SlotKey, xfer_reqs: Vec<WorkerTransferRequest>)
        ensures
            final(self)@ == old(self)@.with_operations(
                rekeyed(transfer_requests::worker_views(xfer_reqs@), key@),
            ),
    {
        let ghost wanted = rekeyed(transfer_requests::worker_views(xfer_reqs@), key@);
        let mut rest: Vec<WorkerTransferRequest> = xfer_reqs;
        let mut own: Vec<WorkerTransferRequest> = Vec::new();
        assert(transfer_requests::worker_views(own@) =~= wanted.subrange(0, 0));
        while rest.len() > 0
            invariant
                wanted == rekeyed(transfer_requests::worker_views(xfer_reqs@), key@),
                xfer_reqs@.len() == own@.len() + rest@.len(),
                forall|j: int| 0 <= j < rest@.len() ==> rest@[j] == xfer_reqs@[own@.len() + j],
                transfer_requests::worker_views(own@) == wanted.subrange(0, own@.len() as int),
            decreases rest@.len(),
        {
            let ghost before = own@;
            let mut op: WorkerTransferRequest = rest.remove(0);
            assert(op == xfer_reqs@[before.len() as int]);
            op.key = key.clone();
            assert(op@ == wanted[before.len() as int]);
            own.push(op);
            assert(transfer_requests::worker_views(own@) =~= transfer_requests::worker_views(
                before,
            ).push(op@));
            assert(wanted.subrange(0, own@.len() as int) =~= wanted.subrange(
                0,
                before.len() as int,
            ).push(op@));
        }
        assert(wanted.subrange(0, own@.len() as int) =~= wanted);
        self.add_operations(own);
    }

    /// Whether a slot of `request_id` is created.
    pub fn creates_slot_of(&self, request_id: &String) -> (found: bool)
        ensures
            found == self@.creates(request_id@),
    {
        let mut i: usize = 0;
        while i < self.new_slots.len()
            invariant
                i <= self.new_slots@.len(),
                forall|j: int|
                    0 <= j < i ==> (#[trigger] self@.new_slots[j]).key.0 != request_id@,
            decreases self.new_slots@.len() - i,
        {
            assert(self@.new_slots[i as int] == self.new_slots@[i as int]@);
            if self.new_slots[i].key.request_id.eq(request_id) {
                return true;
            }
            i = i + 1;
        }
        false
    }
}

/// The number of loads that start at once.
pub fn count_immediate_loads(ops: &Vec<WorkerTransferRequest>) -> (n: u64)
    ensures
        n == immediate_loads(transfer_requests::worker_views(ops@)),
{
    let ghost all = transfer_requests::worker_views(ops@);
    let mut n: u64 = 0;
    let mut i: usize = 0;
    proof {
        assert(ops.len() == ops@.len());
        assert(all.subrange(0, 0) =~= Seq::<WorkerRequestView>::empty());
        reveal(Seq::filter);
    }
    while i < ops.len()
        invariant
            i <= ops@.len(),
            ops@.len() <= usize::MAX,
            all == transfer_requests::worker_views(ops@),
            n <= i,
            n == immediate_loads(all.subrange(0, i as int)),
        decreases ops@.len() - i,
    {
        proof {
            reveal(Seq::filter);
            let upto = all.subrange(0, i + 1);
            assert(upto.drop_last() =~= all.subrange(0, i as int));
            assert(upto.last() == ops@[i as int]@);
        }
        if ops[i].transfer_type == TransferType::Load && ops[i].request_type
            == RequestType::Immediate {
            n = n + 1;
        }
        i = i + 1;
    }
    assert(all.subrange(0, ops@.len() as int) =~= all);
    n
}

} // verus!
