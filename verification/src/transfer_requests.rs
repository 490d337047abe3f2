//! Requests to the transfer engine.

use vstd::prelude::*;

use crate::protocol::{
    self, new_operation_id, BlockId, OperationId, RequestType, SequenceHash, SlotKey, SlotKeyView,
    TransferType, WorkerTransferRequest,
};
use crate::text;
use crate::tokens::{self, TokenBlock, TokenBlockView};

verus! {

/// Copies device blocks to the lower tiers.
#[derive(Debug)]
pub struct LocalOffloadRequest {
    pub key: SlotKey,
    pub request_id: String,
    pub block_ids: Vec<BlockId>,
    pub token_blocks: Vec<TokenBlock>,
    pub priorities: Vec<u32>,
    pub operation_id: OperationId,
    pub sequence_hashes: Vec<SequenceHash>,
    pub block_size: usize,
    pub traceparent: Option<String>,
    pub baggage: Option<String>,
}

/// The mathematical value of a [`LocalOffloadRequest`].
#[verifier::ext_equal]
pub struct OffloadRequestView {
    pub key: SlotKeyView,
    pub request_id: Seq<char>,
    pub block_ids: Seq<BlockId>,
    pub token_blocks: Seq<TokenBlockView>,
    pub priorities: Seq<u32>,
    pub operation_id: OperationId,
    pub sequence_hashes: Seq<SequenceHash>,
    pub block_size: usize,
    pub traceparent: Option<Seq<char>>,
    pub baggage: Option<Seq<char>>,
}

impl View for LocalOffloadRequest {
    type V = OffloadRequestView;

    open spec fn view(&self) -> OffloadRequestView {
        OffloadRequestView {
            key: self.key@,
            request_id: self.request_id@,
            block_ids: self.block_ids@,
            token_blocks: tokens::block_views(self.token_blocks@),
            priorities: self.priorities@,
            operation_id: self.operation_id,
            sequence_hashes: self.sequence_hashes@,
            block_size: self.block_size,
            traceparent: text::text_view(self.traceparent),
            baggage: text::text_view(self.baggage),
        }
    }
}

/// The hashes of a sequence of token blocks.
pub open spec fn block_hashes(blocks: Seq<TokenBlockView>) -> Seq<SequenceHash> {
    blocks.map_values(|block: TokenBlockView| block.sequence_hash)
}

impl LocalOffloadRequest {
    /// An offload of `block_ids`, which hold `token_blocks`.
    pub fn new(
        key: SlotKey,
        block_ids: Vec<BlockId>,
        token_blocks: Vec<TokenBlock>,
        priorities: Vec<u32>,
        operation_id: OperationId,
        block_size: usize,
        traceparent: Option<String>,
        baggage: Option<String>,
    ) -> (request: Self)
        ensures
            request@ == (OffloadRequestView {
                key: key@,
                request_id: key.request_id@,
                block_ids: block_ids@,
                token_blocks: tokens::block_views(token_blocks@),
                priorities: priorities@,
                operation_id,
                sequence_hashes: block_hashes(tokens::block_views(token_blocks@)),
                block_size,
                traceparent: text::text_view(traceparent),
                baggage: text::text_view(baggage),
            }),
    {
        let request_id: String = key.request_id.clone();
        let ghost all = block_hashes(tokens::block_views(token_blocks@));
        let mut sequence_hashes: Vec<SequenceHash> = Vec::new();
        let mut i: usize = 0;
        while i < token_blocks.len()
            invariant
                i <= token_blocks@.len(),
                all == block_hashes(tokens::block_views(token_blocks@)),
                sequence_hashes@ =~= all.subrange(0, i as int),
            decreases token_blocks@.len() - i,
        {
            sequence_hashes.push(token_blocks[i].sequence_hash());
            i = i + 1;
        }
        assert(sequence_hashes@ =~= all);
        LocalOffloadRequest {
            key,
            request_id,
            block_ids,
            token_blocks,
            priorities,
            operation_id,
            sequence_hashes,
            block_size,
            traceparent,
            baggage,
        }
    }
}

/// The local tier that holds staged blocks.
#[derive(Debug, Clone, Copy, PartialEq, Eq, Structural)]
pub enum StagingTier {
    Host,
    Disk,
}

/// Copies staged blocks to the device.
#[derive(Debug)]
pub struct LocalOnboardRequest {
    pub key: SlotKey,
    pub request_id: String,
    pub tier: StagingTier,
    pub src_blocks: Vec<BlockId>,
    pub dst_block_ids: Vec<BlockId>,
    pub operation_id: OperationId,
    pub traceparent: Option<String>,
}

/// The mathematical value of a [`LocalOnboardRequest`].
#[verifier::ext_equal]
pub struct OnboardRequestView {
    pub key: SlotKeyView,
    pub request_id: Seq<char>,
    pub tier: StagingTier,
    pub src_blocks: Seq<BlockId>,
    pub dst_block_ids: Seq<BlockId>,
    pub operation_id: OperationId,
    pub traceparent: Option<Seq<char>>,
}

impl View for LocalOnboardRequest {
    type V = OnboardRequestView;

    open spec fn view(&self) -> OnboardRequestView {
        OnboardRequestView {
            key: self.key@,
            request_id: self.request_id@,
            tier: self.tier,
            src_blocks: self.src_blocks@,
            dst_block_ids: self.dst_block_ids@,
            operation_id: self.operation_id,
            traceparent: text::text_view(self.traceparent),
        }
    }
}

impl LocalOnboardRequest {
    /// A copy of the staged `src_blocks` to `dst_block_ids`.
    pub fn new(
        key: SlotKey,
        tier: StagingTier,
        src_blocks: Vec<BlockId>,
        dst_block_ids: Vec<BlockId>,
        operation_id: OperationId,
        traceparent: Option<String>,
    ) -> (request: Self)
        ensures
            request@ == (OnboardRequestView {
                key: key@,
                request_id: key.request_id@,
                tier,
                src_blocks: src_blocks@,
                dst_block_ids: dst_block_ids@,
                operation_id,
                traceparent: text::text_view(traceparent),
            }),
    {
        let request_id: String = key.request_id.clone();
        LocalOnboardRequest {
            key,
            request_id,
            tier,
            src_blocks,
            dst_block_ids,
            operation_id,
            traceparent,
        }
    }
}

/// Parameters of an onboard from remote storage.
#[derive(Debug, Clone)]
pub struct G4OnboardParams {
    pub key: SlotKey,
    pub request_id: String,
    pub sequence_hashes: Vec<SequenceHash>,
    pub device_block_ids: Vec<BlockId>,
    pub operation_id: OperationId,
    pub block_size: usize,
    pub token_blocks: Vec<TokenBlock>,
}

/// Moves blocks between remote storage and the host or the device.
#[derive(Debug)]
pub struct RemoteTransferRequest {
    pub key: SlotKey,
    pub request_id: String,
    pub sequence_hashes: Vec<SequenceHash>,
    pub device_block_ids: Vec<BlockId>,
    pub host_block_ids: Option<Vec<BlockId>>,
    pub operation_id: OperationId,
    pub block_size: usize,
    pub is_onboard: bool,
    pub pin_id: Option<OperationId>,
    pub token_blocks: Option<Vec<TokenBlock>>,
    pub traceparent: Option<String>,
    pub baggage: Option<String>,
}

/// The mathematical value of a [`RemoteTransferRequest`].
#[verifier::ext_equal]
pub struct RemoteRequestView {
    pub key: SlotKeyView,
    pub request_id: Seq<char>,
    pub sequence_hashes: Seq<SequenceHash>,
    pub device_block_ids: Seq<BlockId>,
    pub host_block_ids: Option<Seq<BlockId>>,
    pub operation_id: OperationId,
    pub block_size: usize,
    pub is_onboard: bool,
    pub pin_id: Option<OperationId>,
    pub token_blocks: Option<Seq<TokenBlockView>>,
    pub traceparent: Option<Seq<char>>,
    pub baggage: Option<Seq<char>>,
}

impl View for RemoteTransferRequest {
    type V = RemoteRequestView;

    open spec fn view(&self) -> RemoteRequestView {
        RemoteRequestView {
            key: self.key@,
            request_id: self.request_id@,
            sequence_hashes: self.sequence_hashes@,
            device_block_ids: self.device_block_ids@,
            host_block_ids: match self.host_block_ids {
                Some(ids) => Some(ids@),
                None => None,
            },
            operation_id: self.operation_id,
            block_size: self.block_size,
            is_onboard: self.is_onboard,
            pin_id: self.pin_id,
            token_blocks: match self.token_blocks {
                Some(blocks) => Some(tokens::block_views(blocks@)),
                None => None,
            },
            traceparent: text::text_view(self.traceparent),
            baggage: text::text_view(self.baggage),
        }
    }
}

/// A copy of a list of numbers.
pub fn copy_ids(ids: &[usize]) -> (copy: Vec<usize>)
    ensures
        copy@ == ids@,
{
    let mut copy: Vec<usize> = Vec::new();
    copy.extend_from_slice(ids);
    assert(copy@ =~= ids@);
    copy
}

/// A copy of a list of hashes.
pub fn copy_hashes(hashes: &[SequenceHash]) -> (copy: Vec<SequenceHash>)
    ensures
        copy@ == hashes@,
{
    let mut copy: Vec<SequenceHash> = Vec::new();
    copy.extend_from_slice(hashes);
    assert(copy@ =~= hashes@);
    copy
}

/// A copy of a list of token blocks.
pub fn copy_blocks(blocks: &[TokenBlock]) -> (copy: Vec<TokenBlock>)
    ensures
        tokens::block_views(copy@) == tokens::block_views(blocks@),
{
    let mut copy: Vec<TokenBlock> = Vec::new();
    let ghost all = tokens::block_views(blocks@);
    let mut i: usize = 0;
    while i < blocks.len()
        invariant
            i <= blocks@.len(),
            all == tokens::block_views(blocks@),
            tokens::block_views(copy@) =~= all.subrange(0, i as int),
        decreases blocks@.len() - i,
    {
        let ghost before = tokens::block_views(copy@);
        let block: TokenBlock = blocks[i].clone();
        copy.push(block);
        assert(tokens::block_views(copy@) =~= before.push(block@));
        i = i + 1;
    }
    assert(all.subrange(0, blocks@.len() as int) =~= all);
    copy
}

impl RemoteTransferRequest {
    /// A transfer of pinned host blocks to remote storage.
    pub fn new_h2o(
        key: SlotKey,
        sequence_hashes: Vec<SequenceHash>,
        host_block_ids: Vec<BlockId>,
        operation_id: OperationId,
        block_size: usize,
        pin_id: OperationId,
        traceparent: Option<String>,
        baggage: Option<String>,
    ) -> (request: Self)
        ensures
            request@ == (RemoteRequestView {
                key: key@,
                request_id: key.request_id@,
                sequence_hashes: sequence_hashes@,
                device_block_ids: Seq::empty(),
                host_block_ids: Some(host_block_ids@),
                operation_id,
                block_size,
                is_onboard: false,
                pin_id: Some(pin_id),
                token_blocks: None,
                traceparent: text::text_view(traceparent),
                baggage: text::text_view(baggage),
            }),
    {
        let request_id: String = key.request_id.clone();
        RemoteTransferRequest {
            key,
            request_id,
            sequence_hashes,
            device_block_ids: Vec::new(),
            host_block_ids: Some(host_block_ids),
            operation_id,
            block_size,
            is_onboard: false,
            pin_id: Some(pin_id),
            token_blocks: None,
            traceparent,
            baggage,
        }
    }

    /// The onboard that `params` describe. Its blocks are not pinned in the host tier.
    pub fn from_g4_params(
        params: &G4OnboardParams,
        traceparent: Option<String>,
        baggage: Option<String>,
    ) -> (request: Self)
        ensures
            request@ == (RemoteRequestView {
                key: params.key@,
                request_id: params.request_id@,
                sequence_hashes: params.sequence_hashes@,
                device_block_ids: params.device_block_ids@,
                host_block_ids: None,
                operation_id: params.operation_id,
                block_size: params.block_size,
                is_onboard: true,
                pin_id: None,
                token_blocks: Some(tokens::block_views(params.token_blocks@)),
                traceparent: text::text_view(traceparent),
                baggage: text::text_view(baggage),
            }),
    {
        RemoteTransferRequest {
            key: params.key.clone(),
            request_id: params.request_id.clone(),
            sequence_hashes: copy_hashes(params.sequence_hashes.as_slice()),
            device_block_ids: copy_ids(params.device_block_ids.as_slice()),
            host_block_ids: None,
            operation_id: params.operation_id,
            block_size: params.block_size,
            is_onboard: true,
            pin_id: None,
            token_blocks: Some(copy_blocks(params.token_blocks.as_slice())),
            traceparent,
            baggage,
        }
    }

    /// Whether host blocks go to remote storage.
    pub fn is_h2o(&self) -> (h2o: bool)
        ensures
            h2o == (!self@.is_onboard && self@.host_block_ids is Some),
    {
        !self.is_onboard && self.host_block_ids.is_some()
    }
}

/// A request to the transfer engine.
#[derive(Debug)]
pub enum LocalTransferRequest {
    Offload(LocalOffloadRequest),
    Onboard(LocalOnboardRequest),
    Remote(RemoteTransferRequest),
}

/// The mathematical value of a [`LocalTransferRequest`].
#[verifier::ext_equal]
pub enum TransferRequestView {
    Offload(OffloadRequestView),
    Onboard(OnboardRequestView),
    Remote(RemoteRequestView),
}

impl View for LocalTransferRequest {
    type V = TransferRequestView;

    open spec fn view(&self) -> TransferRequestView {
        match self {
            LocalTransferRequest::Offload(request) => TransferRequestView::Offload(request@),
            LocalTransferRequest::Onboard(request) => TransferRequestView::Onboard(request@),
            LocalTransferRequest::Remote(request) => TransferRequestView::Remote(request@),
        }
    }
}

/// The mathematical value of a [`WorkerTransferRequest`].
#[verifier::ext_equal]
pub struct WorkerRequestView {
    pub key: SlotKeyView,
    pub uuid: OperationId,
    pub transfer_type: TransferType,
    pub request_type: RequestType,
    pub block_ids: Seq<BlockId>,
}

impl View for WorkerTransferRequest {
    type V = WorkerRequestView;

    open spec fn view(&self) -> WorkerRequestView {
        WorkerRequestView {
            key: self.key@,
            uuid: self.uuid,
            transfer_type: self.transfer_type,
            request_type: self.request_type,
            block_ids: self.block_ids@,
        }
    }
}

/// The views of a sequence of worker requests.
pub open spec fn worker_views(requests: Seq<WorkerTransferRequest>) -> Seq<WorkerRequestView> {
    requests.map_values(|request: WorkerTransferRequest| request@)
}

/// Whether `params` and `requests` prepare an onboard of the given blocks under the operation
/// `id`: one immediate load on the workers, or none where no device block is involved.
pub open spec fn prepares_onboard(
    params: G4OnboardParams,
    requests: Seq<WorkerRequestView>,
    key: SlotKeyView,
    sequence_hashes: Seq<SequenceHash>,
    device_block_ids: Seq<BlockId>,
    block_size: usize,
    token_blocks: Seq<TokenBlockView>,
    id: OperationId,
) -> bool {
    &&& params.key@ == key
    &&& params.request_id@ == key.0
    &&& params.sequence_hashes@ == sequence_hashes
    &&& params.device_block_ids@ == device_block_ids
    &&& params.operation_id == id
    &&& params.block_size == block_size
    &&& tokens::block_views(params.token_blocks@) == token_blocks
    &&& requests == if device_block_ids.len() == 0 {
        Seq::empty()
    } else {
        seq![
            WorkerRequestView {
                key,
                uuid: id,
                transfer_type: TransferType::Load,
                request_type: RequestType::Immediate,
                block_ids: device_block_ids,
            },
        ]
    }
}

/// Prepares an onboard from remote storage under a fresh operation id.
pub fn onboard_from_g4(
    key: SlotKey,
    sequence_hashes: Vec<SequenceHash>,
    device_block_ids: Vec<BlockId>,
    block_size: usize,
    token_blocks: Vec<TokenBlock>,
) -> (prepared: (G4OnboardParams, Vec<WorkerTransferRequest>))
    ensures
        protocol::is_random_id(prepared.0.operation_id),
        prepares_onboard(
            prepared.0,
            worker_views(prepared.1@),
            key@,
            sequence_hashes@,
            device_block_ids@,
            block_size,
            tokens::block_views(token_blocks@),
            prepared.0.operation_id,
        ),
{
    let id: OperationId = new_operation_id();
    onboard_from_g4_as(key, sequence_hashes, device_block_ids, block_size, token_blocks, id)
}

/// Prepares an onboard from remote storage under the operation `operation_id`.
pub fn onboard_from_g4_as(
    key: SlotKey,
    sequence_hashes: Vec<SequenceHash>,
    device_block_ids: Vec<BlockId>,
    block_size: usize,
    token_blocks: Vec<TokenBlock>,
    operation_id: OperationId,
) -> (prepared: (G4OnboardParams, Vec<WorkerTransferRequest>))
    ensures
        prepared.0.operation_id == operation_id,
        prepares_onboard(
            prepared.0,
            worker_views(prepared.1@),
            key@,
            sequence_hashes@,
            device_block_ids@,
            block_size,
            tokens::block_views(token_blocks@),
            operation_id,
        ),
{
    let mut requests: Vec<WorkerTransferRequest> = Vec::new();
    if device_block_ids.len() > 0 {
        let request = WorkerTransferRequest {
            key: key.clone(),
            uuid: operation_id,
            transfer_type: TransferType::Load,
            request_type: RequestType::Immediate,
            block_ids: copy_ids(device_block_ids.as_slice()),
        };
        let ghost view = request@;
        requests.push(request);
        assert(worker_views(requests@) =~= seq![view]);
    } else {
        assert(worker_views(requests@) =~= Seq::<WorkerRequestView>::empty());
    }
    let request_id: String = key.request_id.clone();
    let params = G4OnboardParams {
        key,
        request_id,
        sequence_hashes,
        device_block_ids,
        operation_id,
        block_size,
        token_blocks,
    };
    (params, requests)
}

} // verus!
