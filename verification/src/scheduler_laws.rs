//! Laws of the transfer scheduler.

use vstd::prelude::*;

use crate::protocol::{
    ImmediateTransferResult, OperationId, SlotKey, SlotKeyView, WorkerTransferRequest,
};
use crate::scheduler::{
    self, CloseReason, CounterId, EpochPhase, EpochView, ImmediateResultOutcome,
    ScheduledTaskController, SchedulerEffectView, SchedulerEvent, SchedulerMessage, SchedulerView,
};
use crate::scheduler_client::{self, WorkerClientView};

verus! {

/// Generations never go back: every request id that was seen stays known, under the same or a
/// newer generation, whatever happens.
pub proof fn generations_are_monotone(
    state: SchedulerView,
    event: SchedulerEvent,
    request_id: Seq<char>,
)
    requires
        state.latest_generation.dom().contains(request_id),
    ensures
        state.apply(event).0.latest_generation.dom().contains(request_id),
        state.apply(event).0.latest_generation[request_id] >= state.latest_generation[request_id],
{
}

/// Once a key is stale it stays stale.
pub proof fn staleness_is_permanent(state: SchedulerView, event: SchedulerEvent, key: SlotKeyView)
    requires
        state.is_stale(key),
    ensures
        state.apply(event).0.is_stale(key),
{
    generations_are_monotone(state, event, key.0);
}

/// A result of an outdated generation, or of a closed epoch, is dropped: it changes nothing and
/// reaches no counter.
pub proof fn stale_results_are_dropped(state: SchedulerView, result: ImmediateTransferResult)
    requires
        state.is_stale(result.key@) || state.tombstones.dom().contains(result.key@),
        result.status is Ok,
    ensures
        state.apply(SchedulerEvent::ImmediateResult(result)) == (
            state,
            Seq::<SchedulerEffectView>::empty(),
        ),
{
}

/// A failed transfer is always reported, whether or not it still counts.
pub proof fn failures_are_reported(state: SchedulerView, result: ImmediateTransferResult)
    requires
        result.status is Err,
    ensures
        ({
            let effects = state.apply(SchedulerEvent::ImmediateResult(result)).1;
            effects.len() > 0 && effects[0] == SchedulerEffectView::NotifyFailure(
                result.key.request_id@,
                result.uuid,
            )
        }),
{
}

/// A link of a chain never counts by itself.
pub proof fn chained_results_do_not_count(state: SchedulerView, result: ImmediateTransferResult)
    requires
        result.chained,
    ensures
        state.apply(SchedulerEvent::ImmediateResult(result)).0 == state,
{
}

/// An operation counts at most once per epoch: the second report of an operation that counted is
/// recognised as a duplicate and changes nothing.
pub proof fn duplicates_count_once(state: SchedulerView, key: SlotKeyView, id: OperationId)
    requires
        state.record(key, id).1 == ImmediateResultOutcome::Applied,
    ensures
        ({
            let once = state.record(key, id).0;
            once.record(key, id) == (once, ImmediateResultOutcome::Duplicate)
        }),
{
    let once = state.record(key, id).0;
    assert(once.epochs[key].seen_immediate_ops.contains(id));
}

/// A counted operation brings the epoch exactly one step closer to being active.
pub proof fn counted_operation_advances_epoch(
    state: SchedulerView,
    key: SlotKeyView,
    id: OperationId,
)
    requires
        state.record(key, id).1 == ImmediateResultOutcome::Applied,
        state.epochs[key].completed_immediate_ops < u64::MAX,
        state.epochs[key].close_reason is None,
        state.epochs[key].phase != EpochPhase::Draining,
    ensures
        ({
            let before = state.epochs[key];
            let after = state.record(key, id).0.epochs[key];
            &&& after.completed_immediate_ops == before.completed_immediate_ops + 1
            &&& after.phase == EpochPhase::Active <==> after.completed_immediate_ops
                >= after.expected_immediate_ops
        }),
{
}

/// The two halves of a scheduled transfer meet in either order with the same outcome: the first
/// half asks for nothing, the second one schedules the transfer, and the state is the same.
pub proof fn halves_meet_in_either_order(
    state: SchedulerView,
    worker: WorkerTransferRequest,
    leader: ScheduledTaskController,
)
    requires
        worker.key@ == leader.request.key@,
        worker.uuid == leader.request.uuid,
        !state.waiting(worker.key@).dom().contains(worker.uuid),
    ensures
        ({
            let w = SchedulerEvent::EnqueueRequest(worker);
            let l = SchedulerEvent::ScheduleRequest(leader);
            let after_w = state.apply(w).0;
            let after_l = state.apply(l).0;
            &&& state.accepts(w) && state.accepts(l)
            &&& state.apply(w).1 == Seq::<SchedulerEffectView>::empty()
            &&& state.apply(l).1 == Seq::<SchedulerEffectView>::empty()
            &&& after_w.accepts(l) && after_l.accepts(w)
            &&& after_w.apply(l).1 == seq![SchedulerEffectView::ScheduleTransfer(leader)]
            &&& after_l.apply(w).1 == seq![SchedulerEffectView::ScheduleTransfer(leader)]
            &&& after_w.apply(l).0 =~= after_l.apply(w).0
        }),
{
    let w = SchedulerEvent::EnqueueRequest(worker);
    let l = SchedulerEvent::ScheduleRequest(leader);
    let key = worker.key@;
    let after_w = state.apply(w).0;
    let after_l = state.apply(l).0;
    assert(after_w.waiting(key).dom().contains(worker.uuid));
    assert(after_l.waiting(key).dom().contains(worker.uuid));
    assert(after_w.waiting(key).remove(worker.uuid) =~= state.waiting(key));
    assert(after_l.waiting(key).remove(worker.uuid) =~= state.waiting(key));
    assert(after_w.apply(l).0.enqueued =~= state.enqueued.insert(key, state.waiting(key)));
    assert(after_l.apply(w).0.enqueued =~= state.enqueued.insert(key, state.waiting(key)));
    assert(after_w.apply(l).0.epochs =~= after_l.apply(w).0.epochs);
}

/// The last worker to leave closes the epoch: it is gone with everything that waited in it, and
/// whatever is reported of it afterwards is dropped.
pub proof fn last_worker_closes_epoch(
    state: SchedulerView,
    key: SlotKeyView,
    worker: Seq<char>,
    late: OperationId,
)
    requires
        !state.is_stale(key),
        state.epochs.dom().contains(key),
        state.epochs[key].bindings.dom() =~= set![worker],
    ensures
        ({
            let closed = state.finish(key, worker);
            &&& !closed.epochs.dom().contains(key)
            &&& closed.tombstones.dom().contains(key) && closed.tombstones[key]
                == CloseReason::Completed
            &&& !closed.cancel_tokens.contains(key)
            &&& closed.waiting(key) =~= Map::empty()
            &&& closed.buffered_ids(key) =~= Set::empty()
            &&& closed.record(key, late) == (closed, ImmediateResultOutcome::Stale)
        }),
{
    assert(state.epochs[key].bindings.remove(worker).dom() =~= Set::<Seq<char>>::empty());
}

/// A worker that leaves while others are bound takes only its own binding along.
pub proof fn leaving_worker_keeps_others_bound(
    state: SchedulerView,
    key: SlotKeyView,
    worker: Seq<char>,
    other: Seq<char>,
)
    requires
        !state.is_stale(key),
        state.epochs.dom().contains(key),
        state.epochs[key].bindings.dom().finite(),
        state.epochs[key].bindings.dom().contains(other),
        other != worker,
    ensures
        ({
            let left = state.finish(key, worker);
            &&& left.epochs.dom().contains(key)
            &&& left.epochs[key].phase == EpochPhase::Draining
            &&& left.epochs[key].bindings =~= state.epochs[key].bindings.remove(worker)
            &&& left.epochs[key].bindings[other] == state.epochs[key].bindings[other]
        }),
{
    let left = state.epochs[key].bindings.remove(worker).dom();
    assert(left.contains(other));
    assert(left =~= state.epochs[key].bindings.dom().remove(worker));
    if left.len() == 0 {
        vstd::set_lib::axiom_is_empty(left);
        assert(false);
    }
}

/// A worker that joins reads at once how many immediate operations completed before it came:
/// those that the epoch counted and those that waited for it.
pub proof fn joining_worker_sees_earlier_results(
    state: SchedulerView,
    key: SlotKeyView,
    worker: Seq<char>,
    counter: CounterId,
    expected: u64,
)
    requires
        !state.epochs.dom().contains(key),
        state.buffered_ids(key).len() <= u64::MAX,
    ensures
        ({
            let (joined, effects) = state.create_slot(key, worker, counter, expected);
            let arrived = state.buffered_ids(key).len() as u64;
            &&& effects == seq![SchedulerEffectView::StoreCount(counter, arrived)]
            &&& joined.epochs[key].completed_immediate_ops == arrived
            &&& joined.epochs[key].bindings =~= map![worker => counter]
            &&& joined.epochs[key].phase == EpochPhase::Active <==> arrived >= expected
            &&& joined.buffered == state.buffered
        }),
{
    let epoch = EpochView::fresh(expected);
    assert(epoch.bindings.insert(worker, counter) =~= map![worker => counter]);
}

/// Workers of one epoch do not disturb each other: joining adds one binding and leaves the rest.
pub proof fn bindings_are_keyed_by_worker(
    state: SchedulerView,
    key: SlotKeyView,
    worker: Seq<char>,
    counter: CounterId,
    expected: u64,
    other: Seq<char>,
)
    requires
        state.epochs.dom().contains(key),
        state.epochs[key].bindings.dom().contains(other),
        other != worker,
    ensures
        ({
            let joined = state.create_slot(key, worker, counter, expected).0.epochs[key];
            &&& joined.bindings[worker] == counter
            &&& joined.bindings.dom().contains(other)
            &&& joined.bindings[other] == state.epochs[key].bindings[other]
        }),
{
}

/// Growing a list of distinct counters grows each of them once and no other.
proof fn grow_each_distinct(
    bank: Map<CounterId, u64>,
    ids: Seq<CounterId>,
    delta: u64,
    id: CounterId,
)
    requires
        ids.no_duplicates(),
    ensures
        scheduler::count(scheduler::grow_each(bank, ids, delta), id) == if ids.contains(id) {
            scheduler::wrapping_sum(scheduler::count(bank, id), delta)
        } else {
            scheduler::count(bank, id)
        },
    decreases ids.len(),
{
    if ids.len() > 0 {
        let front = ids.drop_last();
        assert(front.no_duplicates());
        grow_each_distinct(bank, front, delta, id);
        assert(ids.contains(id) <==> (front.contains(id) || id == ids.last())) by {
            if ids.contains(id) {
                let i = ids.index_of(id);
                if i < front.len() {
                    assert(front[i] == id);
                }
            }
            if front.contains(id) {
                let i = front.index_of(id);
                assert(ids[i] == id);
            }
            assert(ids[ids.len() - 1] == ids.last());
        }
        if front.contains(ids.last()) {
            let i = front.index_of(ids.last());
            assert(ids[i] == ids[ids.len() - 1]);
        }
    }
}

/// A counted result reaches every worker of the epoch: where no two workers share a counter,
/// each bound worker's counter grows by exactly the increment, and every other counter keeps
/// its value.
pub proof fn increments_fan_out(
    state: SchedulerView,
    key: SlotKeyView,
    delta: u64,
    before: Map<CounterId, u64>,
    after: Map<CounterId, u64>,
    action: scheduler::SchedulerAction,
    id: CounterId,
)
    requires
        state.epochs.dom().contains(key),
        state.epochs[key].bindings.is_injective(),
        state.effect_ran(SchedulerEffectView::IncrementBindings(key, delta), before, after, action),
    ensures
        scheduler::count(after, id) == if state.epochs[key].bindings.contains_value(id) {
            scheduler::wrapping_sum(scheduler::count(before, id), delta)
        } else {
            scheduler::count(before, id)
        },
{
    let bindings = state.epochs[key].bindings;
    let counters = choose|counters: Seq<CounterId>| #[trigger]
        scheduler::enumerates(counters, bindings) && after == scheduler::grow_each(
            before,
            counters,
            delta,
        );
    let workers = choose|workers: Seq<Seq<char>>|
        {
            &&& #[trigger] workers.no_duplicates()
            &&& workers.to_set() == bindings.dom()
            &&& counters == Seq::new(workers.len(), |i: int| bindings[workers[i]])
        };
    assert forall|i: int, j: int|
        0 <= i < counters.len() && 0 <= j < counters.len() && i != j implies counters[i]
        != counters[j] by {
        assert(workers.contains(workers[i]) && workers.contains(workers[j]));
        assert(workers.to_set().contains(workers[i]) && workers.to_set().contains(workers[j]));
        assert(workers[i] != workers[j]);
    }
    grow_each_distinct(before, counters, delta, id);
    assert(counters.contains(id) <==> bindings.contains_value(id)) by {
        if counters.contains(id) {
            let i = counters.index_of(id);
            assert(workers.contains(workers[i]));
            assert(workers.to_set().contains(workers[i]));
            assert(bindings[workers[i]] == id);
        }
        if bindings.contains_value(id) {
            let w = choose|w: Seq<char>| #[trigger] bindings.dom().contains(w) && bindings[w] == id;
            assert(workers.to_set().contains(w));
            let i = workers.index_of(w);
            assert(counters[i] == id);
        }
    }
}

/// A new slot starts complete, with nothing issued and nothing counted, and takes no part of what
/// the other slots have counted: where the slots count apart, they still do, and every other slot
/// is complete exactly when it was.
pub proof fn new_slots_count_from_zero(
    client: WorkerClientView,
    bank: Map<CounterId, u64>,
    key: SlotKey,
    expected_immediate_ops: u64,
    completed: CounterId,
    other: SlotKeyView,
)
    requires
        client.counts_apart(bank),
        !bank.dom().contains(completed),
    ensures
        ({
            let next = client.with_slot(key, expected_immediate_ops, completed);
            let counted = bank.insert(completed, 0);
            &&& next.slots[key@].operations.len() == 0
            &&& scheduler::count(counted, next.slots[key@].completed) == 0
            &&& next.slots[key@].is_complete(counted)
            &&& next.counts_apart(counted)
            &&& client.slots.dom().contains(other) && other != key@
                ==> next.slots[other].is_complete(counted)
                == client.slots[other].is_complete(bank)
        }),
{
}

/// A worker that joins an open epoch takes nothing away from it: the count of completed operations
/// does not go down, the operations that counted are remembered, the other workers stay bound, and
/// the new worker's counter is set to the count, so that it reads at least what the others were
/// shown.
pub proof fn joining_never_uncounts(
    state: SchedulerView,
    key: SlotKeyView,
    worker: Seq<char>,
    counter: CounterId,
    expected: u64,
)
    requires
        state.epochs.dom().contains(key),
        state.buffered_ids(key).len() <= u64::MAX,
    ensures
        ({
            let before = state.epochs[key];
            let (next, effects) = state.create_slot(key, worker, counter, expected);
            let joined = next.epochs[key];
            &&& next.epochs.dom().contains(key)
            &&& joined.completed_immediate_ops >= before.completed_immediate_ops
            &&& joined.completed_immediate_ops >= state.buffered_ids(key).len()
            &&& joined.completed_immediate_ops == before.completed_immediate_ops
                || joined.completed_immediate_ops == state.buffered_ids(key).len()
            &&& effects.len() == 1
            &&& effects[0] == SchedulerEffectView::StoreCount(
                counter,
                joined.completed_immediate_ops,
            )
            &&& joined.seen_immediate_ops == before.seen_immediate_ops
            &&& joined.expected_immediate_ops == expected
            &&& joined.close_reason == before.close_reason
            &&& joined.bindings.dom() =~= before.bindings.dom().insert(worker)
            &&& joined.bindings[worker] == counter
            &&& forall|other: Seq<char>|
                other != worker && #[trigger] before.bindings.dom().contains(other)
                    ==> joined.bindings[other] == before.bindings[other]
        }),
{
}

/// An open epoch is active exactly when every expected operation completed, unless it drains or is
/// closed; draining goes on until the epoch is closed.
pub proof fn phases_follow_the_counts(epoch: EpochView)
    ensures
        ({
            let now = epoch.with_phase();
            &&& now == (EpochView { phase: now.phase, ..epoch })
            &&& epoch.close_reason is Some ==> now.phase == EpochPhase::Closed
            &&& epoch.close_reason is None && epoch.phase == EpochPhase::Draining ==> now.phase
                == EpochPhase::Draining
            &&& epoch.close_reason is None && epoch.phase != EpochPhase::Draining ==> {
                &&& now.phase == EpochPhase::Active <==> epoch.completed_immediate_ops
                    >= epoch.expected_immediate_ops
                &&& now.phase == EpochPhase::Onboarding <==> epoch.completed_immediate_ops
                    < epoch.expected_immediate_ops
            }
        }),
{
}

/// A slot makes its generation known. Older generations of the request are stale from then on, and
/// its own is stale only where a newer one was known.
pub proof fn newer_generations_outdate_older_ones(
    state: SchedulerView,
    key: SlotKeyView,
    worker: Seq<char>,
    counter: CounterId,
    expected: u64,
    generation: u64,
)
    ensures
        ({
            let next = state.create_slot(key, worker, counter, expected).0;
            &&& generation < key.1 ==> next.is_stale((key.0, generation))
            &&& generation >= key.1 ==> next.is_stale((key.0, generation)) == state.is_stale(
                (key.0, generation),
            )
            &&& next.latest_generation.dom() =~= state.latest_generation.dom().insert(key.0)
        }),
{
}

/// The first report of an operation counts: in an open epoch it is remembered, the count goes up
/// by one, and every bound worker's counter is to grow by one. A second report, and a report to an
/// epoch that is over, change nothing and reach no counter.
pub proof fn first_reports_count(state: SchedulerView, result: ImmediateTransferResult)
    requires
        result.status is Ok,
        !result.chained,
        !state.is_stale(result.key@),
        !state.tombstones.dom().contains(result.key@),
        state.epochs.dom().contains(result.key@),
    ensures
        ({
            let key = result.key@;
            let before = state.epochs[key];
            let (next, effects) = state.apply(SchedulerEvent::ImmediateResult(result));
            if before.seen_immediate_ops.contains(result.uuid) {
                next == state && effects.len() == 0
            } else {
                let after = next.epochs[key];
                &&& effects.len() == 1
                &&& effects[0] == SchedulerEffectView::IncrementBindings(key, 1)
                &&& next.epochs.dom().contains(key)
                &&& after.seen_immediate_ops =~= before.seen_immediate_ops.insert(result.uuid)
                &&& before.completed_immediate_ops < u64::MAX ==> after.completed_immediate_ops
                    == before.completed_immediate_ops + 1
                &&& after.completed_immediate_ops >= before.completed_immediate_ops
                &&& after.bindings == before.bindings
                &&& after.expected_immediate_ops == before.expected_immediate_ops
                &&& next.buffered == state.buffered
            }
        }),
{
}

/// A report that comes before its epoch waits for it, once.
pub proof fn early_reports_wait(state: SchedulerView, result: ImmediateTransferResult)
    requires
        result.status is Ok,
        !result.chained,
        !state.is_stale(result.key@),
        !state.tombstones.dom().contains(result.key@),
        !state.epochs.dom().contains(result.key@),
    ensures
        ({
            let key = result.key@;
            let (next, effects) = state.apply(SchedulerEvent::ImmediateResult(result));
            &&& effects.len() == 0
            &&& next.epochs == state.epochs
            &&& next.buffered.dom().contains(key)
            &&& next.buffered[key].contains(result.uuid)
            &&& forall|id: OperationId|
                id != result.uuid ==> (#[trigger] next.buffered[key].contains(id)
                    <==> state.buffered.dom().contains(key) && state.buffered[key].contains(id))
        }),
{
}

/// It makes no difference whether a result comes before the slot or after it: the epoch counts the
/// same, its phase is the same, and the worker's counter ends with the same number.
pub proof fn results_count_before_or_after_the_slot(
    state: SchedulerView,
    key: SlotKeyView,
    worker: Seq<char>,
    counter: CounterId,
    expected: u64,
    id: OperationId,
)
    requires
        !state.is_stale(key),
        !state.tombstones.dom().contains(key),
        !state.epochs.dom().contains(key),
        state.buffered_ids(key).finite(),
        state.buffered_ids(key).len() < u64::MAX,
        !state.buffered_ids(key).contains(id),
    ensures
        ({
            let early = state.record(key, id).0.create_slot(key, worker, counter, expected);
            let joined = state.create_slot(key, worker, counter, expected);
            let late = joined.0.record(key, id);
            &&& late.1 == ImmediateResultOutcome::Applied
            &&& early.0.epochs[key].completed_immediate_ops
                == late.0.epochs[key].completed_immediate_ops
            &&& early.0.epochs[key].phase == late.0.epochs[key].phase
            &&& early.0.epochs[key].bindings == late.0.epochs[key].bindings
            &&& early.1.len() == 1 && joined.1.len() == 1
            &&& early.1[0] is StoreCount && joined.1[0] is StoreCount
            &&& early.1[0]->StoreCount_1 == joined.1[0]->StoreCount_1 + 1
        }),
{
    let early = state.record(key, id).0;
    assert(early.buffered_ids(key) =~= state.buffered_ids(key).insert(id));
}

/// The epoch that an event is about.
pub open spec fn epoch_of(event: SchedulerEvent) -> Option<SlotKeyView> {
    match event {
        SchedulerEvent::CreateSlot(request) => Some(request.key@),
        SchedulerEvent::RequestFinished(request) => Some(request.key@),
        SchedulerEvent::EnqueueRequest(request) => Some(request.key@),
        SchedulerEvent::ScheduleRequest(controller) => Some(controller.request.key@),
        SchedulerEvent::ImmediateResult(result) => Some(result.key@),
        _ => None,
    }
}

/// An event touches its own epoch only: whatever else is open, closed, buffered or waiting stays.
pub proof fn events_touch_their_own_epoch(
    state: SchedulerView,
    event: SchedulerEvent,
    other: SlotKeyView,
)
    requires
        epoch_of(event) != Some(other),
    ensures
        ({
            let next = state.apply(event).0;
            &&& next.epochs.dom().contains(other) == state.epochs.dom().contains(other)
            &&& state.epochs.dom().contains(other) ==> next.epochs[other] == state.epochs[other]
            &&& next.tombstones.dom().contains(other) == state.tombstones.dom().contains(other)
            &&& next.cancel_tokens.contains(other) == state.cancel_tokens.contains(other)
            &&& next.buffered_ids(other) == state.buffered_ids(other)
            &&& next.waiting(other) == state.waiting(other)
        }),
{
}

/// The forward pass is where the worker says it is: a pass that starts has no layer done and is
/// not over, layers are taken as reported, and a pass that ended is over. No other event moves it,
/// and none of these touches an epoch.
pub proof fn iterations_are_tracked(state: SchedulerView, event: SchedulerEvent)
    ensures
        ({
            let (next, effects) = state.apply(event);
            match event {
                SchedulerEvent::StartIteration(iteration) => {
                    &&& next.iteration == iteration
                    &&& next.layers_complete == 0
                    &&& !next.iteration_complete
                    &&& next.epochs == state.epochs
                    &&& effects.len() == 0
                },
                SchedulerEvent::UpdateLayersCompleted(_, layers) => {
                    &&& next.layers_complete == layers
                    &&& next.iteration == state.iteration
                    &&& next.iteration_complete == state.iteration_complete
                    &&& next.epochs == state.epochs
                    &&& effects.len() == 0
                },
                SchedulerEvent::EndIteration(_) => {
                    &&& next.iteration_complete
                    &&& next.iteration == state.iteration
                    &&& next.layers_complete == state.layers_complete
                    &&& next.epochs == state.epochs
                    &&& effects.len() == 0
                },
                _ => {
                    &&& next.iteration == state.iteration
                    &&& next.layers_complete == state.layers_complete
                    &&& next.iteration_complete == state.iteration_complete
                },
            }
        }),
{
}

/// A worker that leaves an epoch which does not exist, or which is outdated, changes nothing. One
/// that leaves while others are bound keeps what was counted.
pub proof fn leaving_keeps_the_count(state: SchedulerView, key: SlotKeyView, worker: Seq<char>)
    ensures
        !state.epochs.dom().contains(key) || state.is_stale(key) ==> state.finish(key, worker)
            == state,
        ({
            let next = state.finish(key, worker);
            next.epochs.dom().contains(key) ==> {
                &&& state.epochs.dom().contains(key)
                &&& next.epochs[key].completed_immediate_ops
                    == state.epochs[key].completed_immediate_ops
                &&& next.epochs[key].seen_immediate_ops == state.epochs[key].seen_immediate_ops
                &&& next.epochs[key].expected_immediate_ops
                    == state.epochs[key].expected_immediate_ops
                &&& next.waiting(key) == state.waiting(key)
                &&& next.buffered_ids(key) == state.buffered_ids(key)
            }
        }),
        state.finish(key, worker).latest_generation == state.latest_generation,
{
}

/// One half of a transfer waits for the other half of the same transfer: halves of other transfers
/// neither meet it nor are lost.
pub proof fn halves_wait_for_their_own_other_half(
    state: SchedulerView,
    event: SchedulerEvent,
    id: OperationId,
    other: OperationId,
)
    requires
        event matches SchedulerEvent::EnqueueRequest(request) ==> request.uuid == id,
        event matches SchedulerEvent::ScheduleRequest(controller) ==> controller.request.uuid == id,
        event is EnqueueRequest || event is ScheduleRequest,
        other != id,
    ensures
        ({
            let key = epoch_of(event)->0;
            let (next, effects) = state.apply(event);
            let met = state.waiting(key).dom().contains(id);
            &&& next.waiting(key).dom().contains(other) == state.waiting(key).dom().contains(other)
            &&& state.waiting(key).dom().contains(other) ==> next.waiting(key)[other]
                == state.waiting(key)[other]
            &&& next.waiting(key).dom().contains(id) == !met
            &&& !met ==> effects.len() == 0
            &&& met && state.accepts(event) ==> {
                &&& effects.len() == 1
                &&& effects[0] is ScheduleTransfer
                &&& effects[0]->ScheduleTransfer_0 == match event {
                    SchedulerEvent::ScheduleRequest(controller) => controller,
                    _ => state.waiting(key)[id]->Transfer_0,
                }
            }
        }),
{
}

/// A transfer that may run is the one that was asked for, and its end counts for every bound
/// worker: the counters that grow are those of the bound workers, each once.
pub proof fn transfers_count_for_every_worker(
    state: SchedulerView,
    controller: ScheduledTaskController,
    before: Map<CounterId, u64>,
    after: Map<CounterId, u64>,
    action: scheduler::SchedulerAction,
)
    requires
        state.effect_ran(
            SchedulerEffectView::ScheduleTransfer(controller),
            before,
            after,
            action,
        ),
        state.epochs[controller.request.key@].bindings.dom().finite(),
    ensures
        ({
            let bindings = state.epochs[controller.request.key@].bindings;
            &&& after == before
            &&& action is Execute
            &&& action->controller == controller
            &&& action->counters@.len() == bindings.dom().len()
            &&& forall|worker: Seq<char>| #[trigger]
                bindings.dom().contains(worker) ==> action->counters@.contains(bindings[worker])
            &&& forall|i: int|
                0 <= i < action->counters@.len() ==> bindings.contains_value(
                    #[trigger] action->counters@[i],
                )
        }),
{
    let bindings = state.epochs[controller.request.key@].bindings;
    let counters = action->counters@;
    let workers = choose|workers: Seq<Seq<char>>|
        {
            &&& #[trigger] workers.no_duplicates()
            &&& workers.to_set() == bindings.dom()
            &&& counters == Seq::new(workers.len(), |i: int| bindings[workers[i]])
        };
    workers.unique_seq_to_set();
    assert forall|worker: Seq<char>| #[trigger]
        bindings.dom().contains(worker) implies counters.contains(bindings[worker]) by {
        assert(workers.to_set().contains(worker));
        let i = workers.index_of(worker);
        assert(counters[i] == bindings[worker]);
    }
    assert forall|i: int| 0 <= i < counters.len() implies bindings.contains_value(
        #[trigger] counters[i],
    ) by {
        assert(workers.contains(workers[i]));
        assert(workers.to_set().contains(workers[i]));
    }
}

/// Counters add up as numbers do, as long as the sum fits.
pub proof fn counters_add_up(bank: Map<CounterId, u64>, id: CounterId, value: u64, delta: u64)
    requires
        value + delta <= u64::MAX,
    ensures
        scheduler::wrapping_sum(value, delta) == value + delta,
        scheduler::count(bank.insert(id, value), id) == value,
        !bank.dom().contains(id) ==> scheduler::count(bank, id) == 0,
{
}

/// What a worker says reaches the scheduler as it was said.
pub proof fn messages_arrive_as_they_were_sent(message: SchedulerMessage)
    ensures
        match message {
            SchedulerMessage::CreateSlot(request) => message.event() matches
                SchedulerEvent::CreateSlot(same) && same == request,
            SchedulerMessage::EnqueueRequest(request) => message.event() matches
                SchedulerEvent::EnqueueRequest(same) && same == request,
            SchedulerMessage::StartIteration(iteration) => message.event() matches
                SchedulerEvent::StartIteration(same) && same == iteration,
            SchedulerMessage::EndIteration(iteration) => message.event() matches
                SchedulerEvent::EndIteration(same) && same == iteration,
            SchedulerMessage::UpdateLayersCompleted(name, layers) => message.event() matches
                SchedulerEvent::UpdateLayersCompleted(same_name, same_layers) && same_name == name
                && same_layers == layers,
            SchedulerMessage::RequestFinished(request) => message.event() matches
                SchedulerEvent::RequestFinished(same) && same == request,
        },
{
}

/// Every worker that is bound to an epoch reads at least what the epoch counted.
pub open spec fn results_are_shown(state: SchedulerView, bank: Map<CounterId, u64>) -> bool {
    forall|key: SlotKeyView, worker: Seq<char>|
        #![trigger state.epochs[key].bindings.dom().contains(worker)]
        state.epochs.dom().contains(key) && state.epochs[key].bindings.dom().contains(worker)
            ==> scheduler::count(bank, state.epochs[key].bindings[worker])
            >= state.epochs[key].completed_immediate_ops
}

/// An open epoch counted every result that waited for it.
pub open spec fn early_results_are_counted(state: SchedulerView) -> bool {
    forall|key: SlotKeyView| #[trigger]
        state.epochs.dom().contains(key) ==> state.buffered_ids(key).len()
            <= state.epochs[key].completed_immediate_ops
}

/// Every bound worker has a counter that no other binding uses.
pub open spec fn counters_are_apart(state: SchedulerView) -> bool {
    forall|a: SlotKeyView, v: Seq<char>, b: SlotKeyView, w: Seq<char>|
        #![trigger state.epochs[a].bindings.dom().contains(v), state.epochs[b].bindings.dom().contains(w)]
        state.epochs.dom().contains(a) && state.epochs[a].bindings.dom().contains(v)
            && state.epochs.dom().contains(b) && state.epochs[b].bindings.dom().contains(w) && (a, v)
            != (b, w) ==> state.epochs[a].bindings[v] != state.epochs[b].bindings[w]
}

/// At any time every worker that is bound to an epoch was shown every immediate result that the
/// epoch counted, whenever the worker joined and whenever the results came: a slot whose counter is
/// its own keeps this, and so does every result until a counter is full.
pub proof fn workers_are_shown_every_result(
    state: SchedulerView,
    event: SchedulerEvent,
    before: Map<CounterId, u64>,
    after: Map<CounterId, u64>,
    actions: Seq<scheduler::SchedulerAction>,
)
    requires
        results_are_shown(state, before),
        early_results_are_counted(state),
        counters_are_apart(state),
        event matches SchedulerEvent::CreateSlot(request) ==> {
            &&& state.buffered_ids(request.key@).len() <= u64::MAX
            &&& forall|key: SlotKeyView, worker: Seq<char>|
                #![trigger state.epochs[key].bindings.dom().contains(worker)]
                state.epochs.dom().contains(key) && state.epochs[key].bindings.dom().contains(
                    worker,
                ) && (key, worker) != (request.key@, request.worker_id@)
                    ==> state.epochs[key].bindings[worker] != request.completed
        },
        event matches SchedulerEvent::ImmediateResult(result) ==> {
            let epoch = state.epochs[result.key@];
            &&& epoch.completed_immediate_ops < u64::MAX
            &&& forall|worker: Seq<char>| #[trigger]
                epoch.bindings.dom().contains(worker) ==> scheduler::count(
                    before,
                    epoch.bindings[worker],
                ) < u64::MAX
        },
        state.apply(event).0.effects_ran(state.apply(event).1, before, after, actions),
    ensures
        results_are_shown(state.apply(event).0, after),
        early_results_are_counted(state.apply(event).0),
        counters_are_apart(state.apply(event).0),
{
    let (next, effects) = state.apply(event);
    let banks = choose|banks: Seq<Map<CounterId, u64>>|
        {
            &&& #[trigger] banks.len() == effects.len() + 1
            &&& banks[0] == before
            &&& banks.last() == after
            &&& forall|i: int|
                0 <= i < effects.len() ==> next.effect_ran(
                    #[trigger] effects[i],
                    banks[i],
                    banks[i + 1],
                    actions[i],
                )
        };
    match event {
        SchedulerEvent::CreateSlot(request) => {
            let key = request.key@;
            let worker = request.worker_id@;
            assert(effects[0] is StoreCount);
            assert(next.effect_ran(effects[0], banks[0], banks[1], actions[0]));
            assert(after == before.insert(
                request.completed,
                next.epochs[key].completed_immediate_ops,
            ));
            assert forall|k: SlotKeyView, w: Seq<char>|
                #![trigger next.epochs[k].bindings.dom().contains(w)]
                next.epochs.dom().contains(k) && next.epochs[k].bindings.dom().contains(
                    w,
                ) implies scheduler::count(after, next.epochs[k].bindings[w])
                >= next.epochs[k].completed_immediate_ops by {
                if (k, w) != (key, worker) {
                    assert(state.epochs[k].bindings.dom().contains(w));
                    assert(state.epochs.dom().contains(k));
                }
            }
            assert forall|a: SlotKeyView, v: Seq<char>, b: SlotKeyView, w: Seq<char>|
                #![trigger next.epochs[a].bindings.dom().contains(v), next.epochs[b].bindings.dom().contains(w)]
                next.epochs.dom().contains(a) && next.epochs[a].bindings.dom().contains(v)
                    && next.epochs.dom().contains(b) && next.epochs[b].bindings.dom().contains(w)
                    && (a, v) != (b, w) implies next.epochs[a].bindings[v]
                != next.epochs[b].bindings[w] by {
                if (a, v) != (key, worker) {
                    assert(state.epochs[a].bindings.dom().contains(v));
                }
                if (b, w) != (key, worker) {
                    assert(state.epochs[b].bindings.dom().contains(w));
                }
            }
            assert forall|k: SlotKeyView| #[trigger]
                next.epochs.dom().contains(k) implies next.buffered_ids(k).len()
                <= next.epochs[k].completed_immediate_ops by {
                if k != key {
                    assert(state.epochs.dom().contains(k));
                }
            }
        },
        SchedulerEvent::ImmediateResult(result) => {
            result_is_shown(state, result, before, after, actions, banks);
        },
        _ => {
            assert(after == before) by {
                if effects.len() == 1 {
                    assert(effects[0] is ScheduleTransfer);
                    assert(next.effect_ran(effects[0], banks[0], banks[1], actions[0]));
                }
            }
            bindings_only_shrink(state, event);
            assert forall|k: SlotKeyView, w: Seq<char>|
                #![trigger next.epochs[k].bindings.dom().contains(w)]
                next.epochs.dom().contains(k) && next.epochs[k].bindings.dom().contains(
                    w,
                ) implies scheduler::count(after, next.epochs[k].bindings[w])
                >= next.epochs[k].completed_immediate_ops by {
                assert(state.epochs[k].bindings.dom().contains(w));
            }
            assert forall|a: SlotKeyView, v: Seq<char>, b: SlotKeyView, w: Seq<char>|
                #![trigger next.epochs[a].bindings.dom().contains(v), next.epochs[b].bindings.dom().contains(w)]
                next.epochs.dom().contains(a) && next.epochs[a].bindings.dom().contains(v)
                    && next.epochs.dom().contains(b) && next.epochs[b].bindings.dom().contains(w)
                    && (a, v) != (b, w) implies next.epochs[a].bindings[v]
                != next.epochs[b].bindings[w] by {
                assert(state.epochs[a].bindings.dom().contains(v));
                assert(state.epochs[b].bindings.dom().contains(w));
            }
        },
    }
}

/// An event that neither creates a slot nor reports a result leaves the counts, and binds nobody.
proof fn bindings_only_shrink(state: SchedulerView, event: SchedulerEvent)
    requires
        !(event is CreateSlot),
        !(event is ImmediateResult),
    ensures
        forall|key: SlotKeyView| #[trigger]
            state.apply(event).0.epochs.dom().contains(key) ==> {
                let next = state.apply(event).0;
                &&& state.epochs.dom().contains(key)
                &&& next.epochs[key].completed_immediate_ops
                    == state.epochs[key].completed_immediate_ops
                &&& next.buffered_ids(key) == state.buffered_ids(key)
                &&& forall|worker: Seq<char>| #[trigger]
                    next.epochs[key].bindings.dom().contains(worker) ==> {
                        &&& state.epochs[key].bindings.dom().contains(worker)
                        &&& next.epochs[key].bindings[worker] == state.epochs[key].bindings[worker]
                    }
            },
{
}

proof fn result_is_shown(
    state: SchedulerView,
    result: ImmediateTransferResult,
    before: Map<CounterId, u64>,
    after: Map<CounterId, u64>,
    actions: Seq<scheduler::SchedulerAction>,
    banks: Seq<Map<CounterId, u64>>,
)
    requires
        results_are_shown(state, before),
        early_results_are_counted(state),
        counters_are_apart(state),
        state.epochs[result.key@].completed_immediate_ops < u64::MAX,
        forall|worker: Seq<char>| #[trigger]
            state.epochs[result.key@].bindings.dom().contains(worker) ==> scheduler::count(
                before,
                state.epochs[result.key@].bindings[worker],
            ) < u64::MAX,
        ({
            let (next, effects) = state.apply(SchedulerEvent::ImmediateResult(result));
            &&& banks.len() == effects.len() + 1
            &&& banks[0] == before
            &&& banks.last() == after
            &&& forall|i: int|
                0 <= i < effects.len() ==> next.effect_ran(
                    #[trigger] effects[i],
                    banks[i],
                    banks[i + 1],
                    actions[i],
                )
        }),
    ensures
        results_are_shown(state.apply(SchedulerEvent::ImmediateResult(result)).0, after),
        early_results_are_counted(state.apply(SchedulerEvent::ImmediateResult(result)).0),
        counters_are_apart(state.apply(SchedulerEvent::ImmediateResult(result)).0),
{
    let key = result.key@;
    let (next, effects) = state.apply(SchedulerEvent::ImmediateResult(result));
    let failures: int = if result.status is Err {
        1
    } else {
        0
    };
    if result.status is Err {
        assert(effects[0] is NotifyFailure);
        assert(next.effect_ran(effects[0], banks[0], banks[1], actions[0]));
    }
    assert(banks[failures] == before);
    assert forall|k: SlotKeyView| #[trigger] next.epochs.dom().contains(k) implies {
        &&& state.epochs.dom().contains(k)
        &&& next.epochs[k].bindings == state.epochs[k].bindings
        &&& next.buffered_ids(k) == state.buffered_ids(k)
    } by {
        assert(state.epochs.dom().contains(k));
    }
    if effects.len() == failures {
        assert(after == before);
        assert(next.epochs == state.epochs);
        assert forall|k: SlotKeyView, w: Seq<char>|
            #![trigger next.epochs[k].bindings.dom().contains(w)]
            next.epochs.dom().contains(k) && next.epochs[k].bindings.dom().contains(
                w,
            ) implies scheduler::count(after, next.epochs[k].bindings[w])
            >= next.epochs[k].completed_immediate_ops by {
            assert(state.epochs[k].bindings.dom().contains(w));
        }
    } else {
        let effect = effects[failures];
        assert(effect == SchedulerEffectView::IncrementBindings(key, 1));
        assert(next.effect_ran(effect, before, after, actions[failures]));
        let bindings = next.epochs[key].bindings;
        assert(bindings.is_injective()) by {
            assert forall|v: Seq<char>, w: Seq<char>|
                v != w && bindings.dom().contains(v) && bindings.dom().contains(
                    w,
                ) implies #[trigger] bindings[v] != #[trigger] bindings[w] by {
                assert(state.epochs[key].bindings.dom().contains(v));
                assert(state.epochs[key].bindings.dom().contains(w));
            }
        }
        assert forall|k: SlotKeyView, w: Seq<char>|
            #![trigger next.epochs[k].bindings.dom().contains(w)]
            next.epochs.dom().contains(k) && next.epochs[k].bindings.dom().contains(
                w,
            ) implies scheduler::count(after, next.epochs[k].bindings[w])
            >= next.epochs[k].completed_immediate_ops by {
            let counter = next.epochs[k].bindings[w];
            increments_fan_out(next, key, 1, before, after, actions[failures], counter);
            assert(state.epochs[k].bindings.dom().contains(w));
            if k == key {
                assert(bindings.contains_value(counter));
            } else if bindings.contains_value(counter) {
                let v = choose|v: Seq<char>| #[trigger]
                    bindings.dom().contains(v) && bindings[v] == counter;
                assert(state.epochs[key].bindings.dom().contains(v));
                assert(false);
            }
        }
    }
    assert forall|a: SlotKeyView, v: Seq<char>, b: SlotKeyView, w: Seq<char>|
        #![trigger next.epochs[a].bindings.dom().contains(v), next.epochs[b].bindings.dom().contains(w)]
        next.epochs.dom().contains(a) && next.epochs[a].bindings.dom().contains(v)
            && next.epochs.dom().contains(b) && next.epochs[b].bindings.dom().contains(w) && (a, v)
            != (b, w) implies next.epochs[a].bindings[v] != next.epochs[b].bindings[w] by {
        assert(state.epochs[a].bindings.dom().contains(v));
        assert(state.epochs[b].bindings.dom().contains(w));
    }
}

/// A scheduler starts without epochs, with nothing buffered and nothing waiting, between two
/// forward passes; so everything that has to hold of its counts holds.
pub proof fn new_schedulers_know_nothing(bank: Map<CounterId, u64>)
    ensures
        ({
            let state = SchedulerView::fresh();
            &&& state.epochs.dom() =~= Set::empty()
            &&& state.tombstones.dom() =~= Set::empty()
            &&& state.latest_generation.dom() =~= Set::empty()
            &&& state.buffered.dom() =~= Set::empty()
            &&& state.enqueued.dom() =~= Set::empty()
            &&& state.cancel_tokens =~= Set::empty()
            &&& state.iteration == 0
            &&& state.layers_complete == 0
            &&& state.iteration_complete
            &&& results_are_shown(state, bank)
            &&& early_results_are_counted(state)
            &&& counters_are_apart(state)
        }),
{
}

/// An operation that is issued is noted last in its slot, and nothing else changes; one of a slot
/// that does not exist is dropped. A slot is complete exactly when its counter reads as many as
/// were issued.
pub proof fn issued_operations_are_noted(
    client: WorkerClientView,
    key: SlotKeyView,
    id: OperationId,
    other: SlotKeyView,
    bank: Map<CounterId, u64>,
)
    ensures
        ({
            let after = client.issue(key, id);
            &&& !client.slots.dom().contains(key) ==> after == client
            &&& client.slots.dom().contains(key) ==> {
                &&& after.slots.dom() =~= client.slots.dom()
                &&& after.slots[key].operations.last() == id
                &&& after.slots[key].operations.drop_last() =~= client.slots[key].operations
                &&& after.slots[key].completed == client.slots[key].completed
                &&& other != key && client.slots.dom().contains(other) ==> after.slots[other]
                    == client.slots[other]
                &&& after.messages == client.messages
                &&& client.slots[key].is_complete(bank) ==> !after.slots[key].is_complete(bank)
            }
        }),
        client.slots[key].is_complete(bank) <==> (if bank.dom().contains(
            client.slots[key].completed,
        ) {
            bank[client.slots[key].completed]
        } else {
            0
        }) == client.slots[key].operations.len(),
{
}

/// A message reaches the scheduler behind those sent before, as long as it listens; a client whose
/// scheduler is gone is told so.
pub proof fn clients_learn_whether_they_were_heard(
    client: WorkerClientView,
    message: SchedulerMessage,
)
    ensures
        ({
            let after = client.send(message);
            &&& client.messages.open ==> after.messages.items == client.messages.items.push(message)
            &&& !client.messages.open ==> after.messages.items == client.messages.items
            &&& after.messages.open == client.messages.open
            &&& after.slots == client.slots
            &&& after.iteration == client.iteration
            &&& after.layers_complete == client.layers_complete
            &&& after.iteration_complete == client.iteration_complete
        }),
        scheduler_client::sent(client.messages) is Ok <==> client.messages.open,
        scheduler_client::sent(client.messages) is Err ==> scheduler_client::sent(client.messages)
            == Err::<(), scheduler::SchedulerError>(scheduler::SchedulerError::Disconnected),
{
}

/// A slot is announced with its own key, its own counter and the number of operations that it
/// expects, by the worker that creates it.
pub proof fn slots_are_announced_as_created(
    client: WorkerClientView,
    key: SlotKey,
    expected_immediate_ops: u64,
    completed: CounterId,
)
    requires
        client.messages.open,
    ensures
        ({
            let after = client.with_slot(key, expected_immediate_ops, completed);
            &&& after.slots.dom().contains(key@)
            &&& after.slots[key@].completed == completed
            &&& after.slots[key@].operations.len() == 0
            &&& after.messages.items.len() == client.messages.items.len() + 1
            &&& after.messages.items.last() is CreateSlot
            &&& after.messages.items.last()->CreateSlot_0.key == key
            &&& after.messages.items.last()->CreateSlot_0.completed == completed
            &&& after.messages.items.last()->CreateSlot_0.expected_immediate_ops
                == expected_immediate_ops
            &&& after.messages.items.last()->CreateSlot_0.worker_id == client.worker_id
        }),
{
}

/// An operation is listed as failed exactly if a notice of its request named it.
pub proof fn failures_are_grouped_by_request(
    notices: Seq<(String, OperationId)>,
    request_id: Seq<char>,
    id: OperationId,
)
    ensures
        scheduler_client::failed_operations(notices, request_id).contains(id) <==> exists|i: int|
            0 <= i < notices.len() && (#[trigger] notices[i]).0@ == request_id && notices[i].1
                == id,
{
}

/// The scheduler takes every event but the second report of the same half of a transfer while the
/// first one waits.
pub proof fn events_are_taken_but_repeated_halves(
    state: SchedulerView,
    request: WorkerTransferRequest,
    event: SchedulerEvent,
)
    ensures
        !(event is EnqueueRequest) && !(event is ScheduleRequest) ==> state.accepts(event),
        !state.waiting(request.key@).dom().contains(request.uuid) ==> state.accepts(
            SchedulerEvent::EnqueueRequest(request),
        ),
        state.waiting(request.key@).dom().contains(request.uuid) ==> (state.accepts(
            SchedulerEvent::EnqueueRequest(request),
        ) <==> state.waiting(request.key@)[request.uuid] is Transfer),
{
}

} // verus!
