//! What the executor of slot effects works on besides the slot itself.

use vstd::prelude::*;

use crate::outbox::Outbox;
use crate::protocol::{
    BlockId, OperationId, RequestType, SlotKey, SlotKeyView, TransferType, WorkerTransferRequest,
};
use crate::signals::{SignalEntryView, SignalState, TransferSignal};
use crate::table::Table;
use crate::transfer_requests::{
    self, LocalTransferRequest, TransferRequestView, WorkerRequestView,
};

verus! {

/// The blocks that one request found in each tier, of all that it asked for.
#[derive(Debug, Clone, Copy, PartialEq, Eq, Structural)]
pub struct CacheStatsRecord {
    pub host: usize,
    pub disk: usize,
    pub remote: usize,
    pub total: usize,
}

/// Everything that effects reach: the queue to the transfer engine, the cache statistics, the
/// remote tier, the worker operations that wait for the next metadata, and the completion
/// signals.
pub struct EffectContext {
    pub xfer_tx: Outbox<LocalTransferRequest>,
    pub cache_stats: Vec<CacheStatsRecord>,
    pub has_remote: bool,
    pub world_size: usize,
    pub pending_worker_ops: Table<SlotKey, Vec<WorkerTransferRequest>>,
    pub transfer_signal: TransferSignal,
}

/// The mathematical value of an [`EffectContext`].
#[verifier::ext_equal]
pub struct ContextView {
    /// What the transfer engine has yet to receive.
    pub requests: Seq<TransferRequestView>,
    /// Whether the transfer engine still listens.
    pub open: bool,
    pub stats: Seq<CacheStatsRecord>,
    pub has_remote: bool,
    pub world_size: usize,
    pub worker_ops: Map<SlotKeyView, Seq<WorkerRequestView>>,
    pub signals: Seq<SignalEntryView>,
}

/// The views of a sequence of transfer requests.
pub open spec fn request_views(requests: Seq<LocalTransferRequest>) -> Seq<TransferRequestView> {
    requests.map_values(|request: LocalTransferRequest| request@)
}

/// The views of the worker operations of all slots.
pub open spec fn op_views(ops: Map<SlotKeyView, Vec<WorkerTransferRequest>>) -> Map<
    SlotKeyView,
    Seq<WorkerRequestView>,
> {
    ops.map_values(
        |requests: Vec<WorkerTransferRequest>| transfer_requests::worker_views(requests@),
    )
}

impl View for EffectContext {
    type V = ContextView;

    open spec fn view(&self) -> ContextView {
        ContextView {
            requests: request_views(self.xfer_tx@.items),
            open: self.xfer_tx@.open,
            stats: self.cache_stats@,
            has_remote: self.has_remote,
            world_size: self.world_size,
            worker_ops: op_views(self.pending_worker_ops@),
            signals: self.transfer_signal@,
        }
    }
}

impl ContextView {
    /// The operations that wait for the workers of `key`.
    pub open spec fn ops_of(self, key: SlotKeyView) -> Seq<WorkerRequestView> {
        if self.worker_ops.dom().contains(key) {
            self.worker_ops[key]
        } else {
            Seq::empty()
        }
    }

    /// With a request on its way to the transfer engine, where the engine listens.
    pub open spec fn send(self, request: TransferRequestView) -> ContextView {
        if self.open {
            ContextView { requests: self.requests.push(request), ..self }
        } else {
            self
        }
    }

    /// With a transfer started, where the engine listens: the request is on its way, the workers
    /// will learn of it, and its completion is signalled.
    pub open spec fn dispatch(
        self,
        request: TransferRequestView,
        op: WorkerRequestView,
    ) -> ContextView {
        if self.open {
            ContextView {
                requests: self.requests.push(request),
                worker_ops: self.worker_ops.insert(op.key, self.ops_of(op.key).push(op)),
                signals: self.signals.push(
                    SignalEntryView {
                        operation_id: op.uuid,
                        request_id: op.key.0,
                        transfer_type: op.transfer_type,
                        state: SignalState::Pending,
                    },
                ),
                ..self
            }
        } else {
            self
        }
    }
}

impl EffectContext {
    /// A context in which nothing has happened.
    pub fn new(has_remote: bool, world_size: usize) -> (ctx: Self)
        ensures
            ctx@ == (ContextView {
                requests: Seq::empty(),
                open: true,
                stats: Seq::empty(),
                has_remote,
                world_size,
                worker_ops: Map::empty(),
                signals: Seq::empty(),
            }),
    {
        let ctx = EffectContext {
            xfer_tx: Outbox::new(),
            cache_stats: Vec::new(),
            has_remote,
            world_size,
            pending_worker_ops: Table::new(),
            transfer_signal: TransferSignal::new(),
        };
        assert(request_views(ctx.xfer_tx@.items) =~= Seq::<TransferRequestView>::empty());
        assert(op_views(ctx.pending_worker_ops@) =~= Map::<
            SlotKeyView,
            Seq<WorkerRequestView>,
        >::empty());
        ctx
    }

    /// Queues a request for the transfer engine; false when the engine is gone.
    pub fn send(&mut self, request: LocalTransferRequest) -> (sent: bool)
        ensures
            sent == old(self)@.open,
            final(self)@ == old(self)@.send(request@),
    {
        let ghost view = request@;
        let sent: bool = self.xfer_tx.send(request);
        proof {
            if sent {
                assert(request_views(self.xfer_tx@.items) =~= old(self)@.requests.push(view));
            }
            assert(self@ =~= old(self)@.send(view));
        }
        sent
    }

    /// Starts a transfer: queues the request, notes the operation for the workers and registers
    /// it for completion. False when the engine is gone, and then nothing is noted.
    pub fn dispatch(
        &mut self,
        request: LocalTransferRequest,
        key: SlotKey,
        operation_id: OperationId,
        transfer_type: TransferType,
        request_type: RequestType,
        block_ids: Vec<BlockId>,
    ) -> (sent: bool)
        ensures
            sent == old(self)@.open,
            final(self)@ == old(self)@.dispatch(
                request@,
                WorkerRequestView {
                    key: key@,
                    uuid: operation_id,
                    transfer_type,
                    request_type,
                    block_ids: block_ids@,
                },
            ),
    {
        if !self.send(request) {
            return false;
        }
        let ghost sent = self@;
        let ghost key_view = key@;
        let request_id: String = key.request_id.clone();
        let op = WorkerTransferRequest {
            key: key.clone(),
            uuid: operation_id,
            transfer_type,
            request_type,
            block_ids,
        };
        let ghost op_view = op@;
        let mut ops: Vec<WorkerTransferRequest> = match self.pending_worker_ops.remove(&key) {
            Some(ops) => ops,
            None => Vec::new(),
        };
        let ghost waiting = transfer_requests::worker_views(ops@);
        assert(waiting =~= old(self)@.ops_of(key_view));
        ops.push(op);
        assert(transfer_requests::worker_views(ops@) =~= waiting.push(op_view));
        self.pending_worker_ops.insert(key, ops);
        self.transfer_signal.register(operation_id, request_id, transfer_type);
        proof {
            assert(op_views(self.pending_worker_ops@) =~= old(self)@.worker_ops.insert(
                key_view,
                waiting.push(op_view),
            ));
            assert(self@ =~= old(self)@.dispatch(request@, op_view));
        }
        true
    }

    /// Takes the operations that wait for the workers of `key`.
    pub fn take_pending_worker_ops(&mut self, key: &SlotKey) -> (ops: Option<
        Vec<WorkerTransferRequest>,
    >)
        ensures
            match ops {
                Some(ops) => old(self)@.worker_ops.dom().contains(key@)
                    && transfer_requests::worker_views(ops@) == old(self)@.worker_ops[key@],
                None => !old(self)@.worker_ops.dom().contains(key@),
            },
            final(self)@ == (ContextView {
                worker_ops: old(self)@.worker_ops.remove(key@),
                ..old(self)@
            }),
    {
        let ops: Option<Vec<WorkerTransferRequest>> = self.pending_worker_ops.remove(key);
        proof {
            assert(op_views(self.pending_worker_ops@) =~= old(self)@.worker_ops.remove(key@));
            assert(self@ =~= (ContextView {
                worker_ops: old(self)@.worker_ops.remove(key@),
                ..old(self)@
            }));
        }
        ops
    }

    /// Notes the cache statistics of one request.
    pub fn record_stats(&mut self, record: CacheStatsRecord)
        ensures
            final(self)@ == (ContextView { stats: old(self)@.stats.push(record), ..old(self)@ }),
    {
        self.cache_stats.push(record);
    }
}

} // verus!
