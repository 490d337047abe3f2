//! Identifiers and messages shared by the leader, the workers and the transfer scheduler.

use vstd::prelude::*;

use crate::table::TableKey;
use crate::text::append_decimal;

verus! {

/// Index of a block within its pool.
pub type BlockId = usize;

/// Identity of a block's contents together with everything before it in the sequence.
pub type SequenceHash = u64;

/// Identity of one transfer operation: the 128 bits of a UUID.
pub type OperationId = u128;

/// The operation id with every bit zero, which no generated id equals.
pub const NIL_OPERATION_ID: OperationId = 0;

/// The bits that every random operation id has: version four, RFC 4122 variant.
pub open spec fn is_random_id(id: OperationId) -> bool {
    id & 0xf000_c000_0000_0000_0000u128 == 0x4000_8000_0000_0000_0000u128
}

/// Draws a random operation id with `uuid::Uuid::new_v4` and takes its bits with `as_u128`.
///
/// The contract claims the version and variant bits that a version four UUID carries; the
/// remaining 122 bits are random and nothing is claimed of them.
#[verifier::external_body]
pub(crate) fn new_operation_id() -> (id: OperationId)
    ensures
        is_random_id(id),
{
    uuid::Uuid::new_v4().as_u128()
}

/// A generated operation id is never the nil id.
pub proof fn random_id_is_not_nil(id: OperationId)
    requires
        is_random_id(id),
    ensures
        id != NIL_OPERATION_ID,
{
    assert(0u128 & 0xf000_c000_0000_0000_0000u128 == 0) by (bit_vector);
}

/// Identity of one life of a request: the request id and a generation that grows on reuse.
#[derive(Debug, Eq, Hash)]
pub struct SlotKey {
    pub request_id: String,
    pub generation: u64,
}

/// The mathematical value of a [`SlotKey`]: request id and generation.
pub type SlotKeyView = (Seq<char>, u64);

impl View for SlotKey {
    type V = (Seq<char>, u64);

    open spec fn view(&self) -> (Seq<char>, u64) {
        (self.request_id@, self.generation)
    }
}

impl PartialEq for SlotKey {
    fn eq(&self, other: &Self) -> (same: bool) {
        self.request_id.eq(&other.request_id) && self.generation == other.generation
    }
}

impl vstd::std_specs::cmp::PartialEqSpecImpl for SlotKey {
    open spec fn obeys_eq_spec() -> bool {
        true
    }

    open spec fn eq_spec(&self, other: &Self) -> bool {
        self@ == other@
    }
}

impl Clone for SlotKey {
    fn clone(&self) -> (copy: Self)
        ensures
            copy == *self,
    {
        SlotKey { request_id: self.request_id.clone(), generation: self.generation }
    }
}

impl TableKey for SlotKey {
    fn same_key(&self, other: &Self) -> (same: bool) {
        self.request_id.eq(&other.request_id) && self.generation == other.generation
    }

    fn duplicate(&self) -> (copy: Self) {
        self.clone()
    }
}

/// The printed form of a slot key: request id, colon, generation.
pub open spec fn slot_key_text(key: SlotKeyView) -> Seq<char> {
    key.0 + seq![':'] + crate::text::decimal(key.1 as nat)
}

impl SlotKey {
    /// The key of generation `generation` of request `request_id`.
    pub fn new(request_id: String, generation: u64) -> (key: Self)
        ensures
            key.request_id == request_id,
            key.generation == generation,
    {
        SlotKey { request_id, generation }
    }

    /// The printed form, `request_id:generation`.
    pub fn to_string(&self) -> (text: String)
        ensures
            text@ == slot_key_text(self@),
    {
        let mut text = self.request_id.clone();
        proof {
            reveal_strlit(":");
        }
        text.append(":");
        append_decimal(&mut text, self.generation);
        assert(":"@ =~= seq![':']);
        text
    }
}

/// Direction of a transfer between the cache tiers and the device.
#[derive(Debug, Clone, Copy, PartialEq, Eq, Structural)]
pub enum TransferType {
    Load,
    Store,
}

/// Whether a transfer runs at once or waits for the scheduler.
#[derive(Debug, Clone, Copy, PartialEq, Eq, Structural)]
pub enum RequestType {
    Immediate,
    Scheduled,
}

/// A transfer that the leader asks the workers to carry out.
#[derive(Debug, Clone)]
pub struct WorkerTransferRequest {
    pub key: SlotKey,
    pub uuid: OperationId,
    pub transfer_type: TransferType,
    pub request_type: RequestType,
    pub block_ids: Vec<BlockId>,
}

/// A transfer as the leader announces it to the scheduler.
#[derive(Debug)]
pub struct LeaderTransferRequest {
    pub key: SlotKey,
    pub uuid: OperationId,
    pub request_type: RequestType,
    /// Whether the transfer is one link of a longer chain and does not count by itself.
    pub chained: bool,
}

/// The outcome of a transfer that ran without waiting for the scheduler.
#[derive(Debug)]
pub struct ImmediateTransferResult {
    pub key: SlotKey,
    pub uuid: OperationId,
    pub status: Result<(), String>,
    pub chained: bool,
}

} // verus!
