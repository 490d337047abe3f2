//! Accounting of the transfer operations of one request.

use vstd::prelude::*;

use crate::protocol::WorkerTransferRequest;

verus! {

/// Operations that wait to be handed to the workers, and the number already handed over.
#[derive(Debug)]
pub struct OperationTracker {
    pending_operations: Option<Vec<WorkerTransferRequest>>,
    dispatched_operations_count: usize,
}

/// The mathematical value of an [`OperationTracker`].
#[verifier::ext_equal]
pub struct TrackerView {
    /// The waiting operations in the order they were added; `None` when none was added since
    /// they were last taken.
    pub pending: Option<Seq<WorkerTransferRequest>>,
    pub dispatched: nat,
}

impl TrackerView {
    /// Nothing waits and nothing was handed over.
    pub open spec fn empty() -> TrackerView {
        TrackerView { pending: None, dispatched: 0 }
    }

    /// The number of waiting operations.
    pub open spec fn pending_count(self) -> nat {
        match self.pending {
            Some(ops) => ops.len(),
            None => 0,
        }
    }

    /// Whether any operation waits or is still running.
    pub open spec fn has_any(self) -> bool {
        self.pending_count() > 0 || self.dispatched > 0
    }

    /// With `op` added behind the waiting operations.
    pub open spec fn append(self, op: WorkerTransferRequest) -> TrackerView {
        TrackerView {
            pending: match self.pending {
                Some(ops) => Some(ops.push(op)),
                None => Some(seq![op]),
            },
            dispatched: self.dispatched,
        }
    }

    /// With every waiting operation counted as handed over. The count stops at `usize::MAX`.
    pub open spec fn dispatch(self) -> TrackerView {
        let total = self.dispatched + self.pending_count();
        TrackerView {
            pending: None,
            dispatched: if total <= usize::MAX {
                total
            } else {
                usize::MAX as nat
            },
        }
    }

    /// With one running operation complete.
    pub open spec fn complete(self) -> TrackerView {
        TrackerView {
            pending: self.pending,
            dispatched: if self.dispatched > 0 {
                (self.dispatched - 1) as nat
            } else {
                0
            },
        }
    }
}

impl View for OperationTracker {
    type V = TrackerView;

    closed spec fn view(&self) -> TrackerView {
        TrackerView {
            pending: match self.pending_operations {
                Some(ops) => Some(ops@),
                None => None,
            },
            dispatched: self.dispatched_operations_count as nat,
        }
    }
}

impl Default for OperationTracker {
    fn default() -> (tracker: Self)
        ensures
            tracker@ == TrackerView::empty(),
    {
        OperationTracker { pending_operations: None, dispatched_operations_count: 0 }
    }
}

impl OperationTracker {
    /// A list of waiting operations is never empty.
    #[verifier::type_invariant]
    spec fn wf(self) -> bool {
        self.pending_operations matches Some(ops) ==> ops@.len() > 0
    }

    /// A tracker with nothing waiting and nothing handed over.
    pub fn new() -> (tracker: Self)
        ensures
            tracker@ == TrackerView::empty(),
    {
        OperationTracker { pending_operations: None, dispatched_operations_count: 0 }
    }

    /// Whether any operation waits or is still running.
    pub fn has_any(&self) -> (any: bool)
        ensures
            any == self@.has_any(),
    {
        self.pending_count() > 0 || self.dispatched_operations_count > 0
    }

    /// The number of waiting operations.
    pub fn pending_count(&self) -> (n: usize)
        ensures
            n == self@.pending_count(),
    {
        match &self.pending_operations {
            Some(ops) => ops.len(),
            None => 0,
        }
    }

    /// The number of operations handed over and not complete.
    pub fn dispatched_count(&self) -> (n: usize)
        ensures
            n == self@.dispatched,
    {
        self.dispatched_operations_count
    }

    fn take_pending(&mut self) -> (taken: Option<Vec<WorkerTransferRequest>>)
        ensures
            final(self)@ == (TrackerView { pending: None, dispatched: old(self)@.dispatched }),
            old(self)@.pending == match taken {
                Some(ops) => Some(ops@),
                None => None,
            },
    {
        let mut taken: Option<Vec<WorkerTransferRequest>> = None;
        std::mem::swap(&mut taken, &mut self.pending_operations);
        taken
    }

    /// Adds `operation` behind those that wait.
    pub fn append_pending(&mut self, operation: WorkerTransferRequest)
        ensures
            final(self)@ == old(self)@.append(operation),
    {
        match self.take_pending() {
            Some(mut ops) => {
                ops.push(operation);
                self.pending_operations = Some(ops);
            },
            None => {
                let mut ops: Vec<WorkerTransferRequest> = Vec::new();
                ops.push(operation);
                assert(ops@ =~= seq![operation]);
                self.pending_operations = Some(ops);
            },
        }
    }

    /// Takes the waiting operations, in the order they were added, and counts them as handed
    /// over. Nothing is taken exactly if nothing waits.
    pub fn take_pending_for_dispatch(&mut self) -> (taken: Option<Vec<WorkerTransferRequest>>)
        ensures
            final(self)@ == old(self)@.dispatch(),
            match taken {
                Some(ops) => old(self)@.pending == Some(ops@),
                None => old(self)@.pending is None,
            },
            taken is None <==> old(self)@.pending_count() == 0,
    {
        proof {
            use_type_invariant(&*self);
        }
        let taken: Option<Vec<WorkerTransferRequest>> = self.take_pending();
        match &taken {
            Some(ops) => {
                self.dispatched_operations_count =
                self.dispatched_operations_count.saturating_add(ops.len());
            },
            None => {},
        }
        taken
    }

    /// Drops the waiting operations without counting them, and says how many there were.
    pub fn discard_pending(&mut self) -> (dropped: usize)
        ensures
            dropped == old(self)@.pending_count(),
            final(self)@ == (TrackerView { pending: None, dispatched: old(self)@.dispatched }),
    {
        match self.take_pending() {
            Some(ops) => ops.len(),
            None => 0,
        }
    }

    /// Marks one running operation as complete; true when nothing waits or runs any more.
    pub fn complete_one(&mut self) -> (drained: bool)
        ensures
            final(self)@ == old(self)@.complete(),
            drained == !final(self)@.has_any(),
    {
        proof {
            use_type_invariant(&*self);
        }
        self.dispatched_operations_count = self.dispatched_operations_count.saturating_sub(1);
        !self.has_any()
    }

    /// Forgets every operation.
    pub fn clear_all(&mut self)
        ensures
            final(self)@ == TrackerView::empty(),
    {
        self.pending_operations = None;
        self.dispatched_operations_count = 0;
    }
}

/// `n` completions in a row.
pub open spec fn complete_times(tracker: TrackerView, n: nat) -> TrackerView
    decreases n,
{
    if n == 0 {
        tracker
    } else {
        complete_times(tracker.complete(), (n - 1) as nat)
    }
}

/// A tracker whose operations were all handed over is drained by exactly as many completions,
/// and by no fewer.
pub proof fn dispatched_operations_drain(tracker: TrackerView, n: nat)
    requires
        tracker.pending is None,
        n <= tracker.dispatched,
    ensures
        complete_times(tracker, n).pending is None,
        complete_times(tracker, n).dispatched == tracker.dispatched - n,
        complete_times(tracker, n).has_any() == (n < tracker.dispatched),
    decreases n,
{
    if n > 0 {
        dispatched_operations_drain(tracker.complete(), (n - 1) as nat);
    }
}

/// Operations are handed over once: right after they were, there is nothing to hand over, and
/// trying changes nothing.
pub proof fn dispatch_happens_once(tracker: TrackerView)
    ensures
        tracker.dispatch().pending_count() == 0,
        tracker.dispatch().dispatch() == tracker.dispatch(),
{
}

/// Handing operations over moves them from waiting to running and loses none, as long as the
/// count fits.
pub proof fn dispatch_loses_nothing(tracker: TrackerView)
    requires
        tracker.dispatched + tracker.pending_count() <= usize::MAX,
    ensures
        tracker.dispatch().pending_count() + tracker.dispatch().dispatched
            == tracker.pending_count() + tracker.dispatched,
        tracker.dispatch().has_any() == tracker.has_any(),
{
}

/// Operations wait in the order in which they were added, and adding one leaves those that run.
/// Something is open exactly if an operation waits or runs.
pub proof fn operations_wait_in_order(tracker: TrackerView, op: WorkerTransferRequest)
    ensures
        ({
            let next = tracker.append(op);
            &&& next.pending is Some
            &&& (next.pending->0).last() == op
            &&& (next.pending->0).drop_last() =~= match tracker.pending {
                Some(ops) => ops,
                None => Seq::empty(),
            }
            &&& next.dispatched == tracker.dispatched
            &&& next.has_any()
        }),
        TrackerView::empty().pending is None && TrackerView::empty().dispatched == 0,
        tracker.has_any() <==> tracker.dispatched > 0 || (tracker.pending matches Some(ops)
            && ops.len() > 0),
        tracker.complete().pending == tracker.pending,
        tracker.dispatched > 0 ==> tracker.complete().dispatched == tracker.dispatched - 1,
        tracker.dispatched == 0 ==> tracker.complete().dispatched == 0,
        tracker.dispatch().pending is None,
        tracker.pending is None && tracker.dispatched <= usize::MAX
            ==> tracker.dispatch().dispatched == tracker.dispatched,
        tracker.pending matches Some(ops) ==> tracker.dispatched + ops.len() <= usize::MAX
            ==> tracker.dispatch().dispatched == tracker.dispatched + ops.len(),
{
}

} // verus!
