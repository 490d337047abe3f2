//! Laws of the metadata: which transfers it reports as over, which slots it creates, and which
//! operations it hands to the workers.

use vstd::prelude::*;

use crate::leader_core::LeaderView;
use crate::leader_metadata::{BuildPlan, BuildView};
use crate::metadata::{self, CachedRequestData, NewRequestData, NewSlotKind, SchedulerOutput};
use crate::protocol::{
    BlockId, OperationId, RequestType, SequenceHash, SlotKeyView, TransferType,
};
use crate::signals::{self, SignalEntryView, SignalState};
use crate::slot_machine::PhaseView;
use crate::slot_runtime::SlotView;
use crate::transfer_requests::WorkerRequestView;

verus! {

/// A metadata reports the transfers of active requests as the signals have them. The loads of a
/// request are reported as done exactly if one of them is registered and none of them is pending;
/// so are its stores; and the request is reported as failed exactly if one of its transfers
/// failed.
pub proof fn metadata_reports_ended_transfers(b: BuildView, id: Seq<char>)
    ensures
        ({
            let entries = b.leader.manager.effects.signals;
            let md = b.reported();
            &&& md.loads_done.contains(id) <==> {
                &&& b.leader.active.dom().contains(id)
                &&& exists|i: int|
                    0 <= i < entries.len() && (#[trigger] entries[i]).request_id == id
                        && entries[i].transfer_type == TransferType::Load
                &&& forall|i: int|
                    0 <= i < entries.len() && (#[trigger] entries[i]).request_id == id
                        && entries[i].transfer_type == TransferType::Load ==> entries[i].state
                        != SignalState::Pending
            }
            &&& md.stores_done.contains(id) <==> {
                &&& b.leader.active.dom().contains(id)
                &&& exists|i: int|
                    0 <= i < entries.len() && (#[trigger] entries[i]).request_id == id
                        && entries[i].transfer_type == TransferType::Store
                &&& forall|i: int|
                    0 <= i < entries.len() && (#[trigger] entries[i]).request_id == id
                        && entries[i].transfer_type == TransferType::Store ==> entries[i].state
                        != SignalState::Pending
            }
            &&& md.failed.contains(id) <==> {
                &&& b.leader.active.dom().contains(id)
                &&& exists|i: int|
                    0 <= i < entries.len() && (#[trigger] entries[i]).request_id == id
                        && entries[i].state == SignalState::Failed
            }
            &&& md.iteration == b.metadata.iteration
            &&& md.new_slots == b.metadata.new_slots
            &&& md.operations == b.metadata.operations
        }),
{
    signals::transfers_are_over_when_none_is_pending(b.leader.manager.effects.signals, id);
}

/// Whether `after` is `before` with pending stores behind it.
spec fn stores_started(before: Seq<SignalEntryView>, after: Seq<SignalEntryView>) -> bool {
    &&& before.len() <= after.len()
    &&& forall|i: int| 0 <= i < before.len() ==> #[trigger] after[i] == before[i]
    &&& forall|i: int|
        before.len() <= i < after.len() ==> (#[trigger] after[i]).transfer_type
            == TransferType::Store && after[i].state == SignalState::Pending
}

/// What a step of the build does to the rest of the leader.
spec fn goes_on(before: LeaderView, after: LeaderView) -> bool {
    &&& after.active == before.active
    &&& stores_started(before.manager.effects.signals, after.manager.effects.signals)
}

proof fn flushing_goes_on(b: BuildView, order: Seq<Seq<char>>, n: nat)
    ensures
        goes_on(b.leader, b.flush_all(order, n).0.leader),
    decreases n,
{
    if n > 0 {
        flushing_goes_on(b, order, (n - 1) as nat);
    }
}

proof fn scheduling_new_goes_on(b: BuildView, output: SchedulerOutput, n: nat, ids: Seq<OperationId>)
    ensures
        goes_on(b.leader, b.schedule_all_new(output, n, ids).0.leader),
    decreases n,
{
    if n > 0 {
        scheduling_new_goes_on(b, output, (n - 1) as nat, ids);
        let before = b.schedule_all_new(output, (n - 1) as nat, ids);
        let after = b.schedule_all_new(output, n, ids);
        assert(goes_on(before.0.leader, after.0.leader));
    }
}

proof fn scheduling_cached_goes_on(
    b: BuildView,
    output: SchedulerOutput,
    n: nat,
    ids: Seq<OperationId>,
)
    ensures
        goes_on(b.leader, b.schedule_all_cached(output, n, ids).0.leader),
    decreases n,
{
    if n > 0 {
        scheduling_cached_goes_on(b, output, (n - 1) as nat, ids);
        let before = b.schedule_all_cached(output, (n - 1) as nat, ids);
        let after = b.schedule_all_cached(output, n, ids);
        assert(goes_on(before.0.leader, after.0.leader));
    }
}

proof fn skipping_goes_on(b: BuildView, order: Seq<Seq<char>>, n: nat)
    ensures
        goes_on(b.leader, b.skip_all(order, n).0.leader),
    decreases n,
{
    if n > 0 {
        skipping_goes_on(b, order, (n - 1) as nat);
    }
}

proof fn building_goes_on(leader: LeaderView, output: SchedulerOutput, plan: BuildPlan)
    ensures
        goes_on(
            leader.build_started(plan.finishing).leader,
            leader.built(output, plan).0.leader,
        ),
{
    let started = leader.build_started(plan.finishing);
    flushing_goes_on(started, plan.onboarding, plan.onboarding.len());
    let flushed = started.flush_all(plan.onboarding, plan.onboarding.len()).0;
    scheduling_new_goes_on(flushed, output, output.new_requests@.len(), plan.new_ids);
    let fresh = flushed.schedule_all_new(output, output.new_requests@.len(), plan.new_ids).0;
    scheduling_cached_goes_on(fresh, output, output.cached_requests@.len(), plan.cached_ids);
    let scheduled = leader.build_scheduled(output, plan).0;
    skipping_goes_on(scheduled, plan.unmet, plan.unmet.len());
}

proof fn dropping_takes_requests_out(
    leader: LeaderView,
    order: Seq<Seq<char>>,
    n: nat,
    entry: SignalEntryView,
    id: Seq<char>,
)
    requires
        n <= order.len(),
    ensures
        leader.all_dropped(order, n).manager.effects.signals.contains(entry) <==> {
            &&& leader.manager.effects.signals.contains(entry)
            &&& !order.subrange(0, n as int).contains(entry.request_id)
        },
        leader.all_dropped(order, n).active.dom().contains(id) <==> {
            &&& leader.active.dom().contains(id)
            &&& !order.subrange(0, n as int).contains(id)
        },
        leader.all_dropped(order, n).active.dom().contains(id) ==> leader.all_dropped(
            order,
            n,
        ).active[id] == leader.active[id],
    decreases n,
{
    if n > 0 {
        let m = (n - 1) as nat;
        dropping_takes_requests_out(leader, order, m, entry, id);
        let before = leader.all_dropped(order, m);
        signals::forgetting_takes_one_request(before.manager.effects.signals, order[m as int], entry);
        let shorter = order.subrange(0, m as int);
        let longer = order.subrange(0, n as int);
        assert(longer =~= shorter.push(order[m as int]));
        assert forall|x: Seq<char>| #[trigger]
            longer.contains(x) <==> shorter.contains(x) || x == order[m as int] by {
            if shorter.contains(x) {
                let k = shorter.index_of(x);
                assert(longer[k] == x);
            }
            assert(longer[m as int] == order[m as int]);
            if longer.contains(x) {
                let k = longer.index_of(x);
                if k < m {
                    assert(shorter[k] == x);
                }
            }
        }
    }
}

/// A build forgets the transfers of the requests that finished, and no others. What it adds are
/// stores that start now. A request stays active unless it finished.
pub proof fn builds_keep_the_transfers_of_live_requests(
    leader: LeaderView,
    output: SchedulerOutput,
    plan: BuildPlan,
    entry: SignalEntryView,
    id: Seq<char>,
)
    requires
        leader.plans(output, plan),
    ensures
        ({
            let before = leader.manager.effects.signals;
            let next = leader.built(output, plan).0.leader;
            let after = next.manager.effects.signals;
            &&& before.contains(entry) && !leader.finishing.contains(entry.request_id)
                ==> after.contains(entry)
            &&& after.contains(entry) ==> (before.contains(entry) && !leader.finishing.contains(
                entry.request_id,
            )) || (entry.transfer_type == TransferType::Store && entry.state
                == SignalState::Pending)
            &&& next.active.dom().contains(id) <==> leader.active.dom().contains(id)
                && !leader.finishing.contains(id)
            &&& next.active.dom().contains(id) ==> next.active[id] == leader.active[id]
        }),
{
    let n = plan.finishing.len();
    dropping_takes_requests_out(leader, plan.finishing, n, entry, id);
    building_goes_on(leader, output, plan);
    let started = leader.build_started(plan.finishing).leader;
    let next = leader.built(output, plan).0.leader;
    let start = started.manager.effects.signals;
    let after = next.manager.effects.signals;
    assert(start == leader.all_dropped(plan.finishing, n).manager.effects.signals);
    assert(plan.finishing.subrange(0, n as int) =~= plan.finishing);
    assert(forall|x: Seq<char>|
        plan.finishing.contains(x) <==> #[trigger] plan.finishing.to_set().contains(x));
    assert(leader.finishing.contains(entry.request_id) <==> plan.finishing.to_set().contains(
        entry.request_id,
    ));
    assert(leader.finishing.contains(id) <==> plan.finishing.to_set().contains(id));
    if start.contains(entry) {
        let i = start.index_of(entry);
        assert(after[i] == entry);
    }
    if after.contains(entry) {
        let i = after.index_of(entry);
        if i < start.len() {
            assert(start[i] == entry);
        }
    }
}

/// What the metadata says of the transfers of a request follows from the signals at the call. Its
/// loads are reported as done exactly if the request is active and not finished, one of its loads
/// is registered and none is pending. A request with a pending load is never reported as loaded,
/// and one with a pending store never as stored.
pub proof fn running_transfers_are_not_reported_as_done(
    leader: LeaderView,
    output: SchedulerOutput,
    plan: BuildPlan,
    id: Seq<char>,
)
    requires
        leader.plans(output, plan),
    ensures
        ({
            let before = leader.manager.effects.signals;
            let md = leader.built(output, plan).0.reported();
            let live = leader.active.dom().contains(id) && !leader.finishing.contains(id);
            &&& md.loads_done.contains(id) <==> {
                &&& live
                &&& exists|i: int|
                    0 <= i < before.len() && (#[trigger] before[i]).request_id == id
                        && before[i].transfer_type == TransferType::Load
                &&& forall|i: int|
                    0 <= i < before.len() && (#[trigger] before[i]).request_id == id
                        && before[i].transfer_type == TransferType::Load ==> before[i].state
                        != SignalState::Pending
            }
            &&& md.stores_done.contains(id) ==> {
                &&& live
                &&& exists|i: int|
                    0 <= i < before.len() && (#[trigger] before[i]).request_id == id
                        && before[i].transfer_type == TransferType::Store
                &&& forall|i: int|
                    0 <= i < before.len() && (#[trigger] before[i]).request_id == id
                        && before[i].transfer_type == TransferType::Store ==> before[i].state
                        != SignalState::Pending
            }
            &&& md.failed.contains(id) <==> {
                &&& live
                &&& exists|i: int|
                    0 <= i < before.len() && (#[trigger] before[i]).request_id == id
                        && before[i].state == SignalState::Failed
            }
        }),
{
    let b = leader.built(output, plan).0;
    let before = leader.manager.effects.signals;
    let after = b.leader.manager.effects.signals;
    metadata_reports_ended_transfers(b, id);
    builds_keep_the_transfers_of_live_requests(leader, output, plan, arbitrary(), id);
    assert forall|i: int|
        0 <= i < before.len() && (#[trigger] before[i]).request_id == id
            && !leader.finishing.contains(id) implies after.contains(before[i]) by {
        builds_keep_the_transfers_of_live_requests(leader, output, plan, before[i], id);
        assert(before.contains(before[i]));
    }
    assert forall|i: int|
        0 <= i < after.len() && (#[trigger] after[i]).request_id == id implies before.contains(
        after[i],
    ) || (after[i].transfer_type == TransferType::Store && after[i].state
        == SignalState::Pending) by {
        builds_keep_the_transfers_of_live_requests(leader, output, plan, after[i], id);
        assert(after.contains(after[i]));
    }
    if leader.active.dom().contains(id) && !leader.finishing.contains(id) {
        same_entries(before, after, id);
    }
}

proof fn same_entries(
    before: Seq<SignalEntryView>,
    after: Seq<SignalEntryView>,
    id: Seq<char>,
)
    requires
        forall|i: int|
            0 <= i < before.len() && (#[trigger] before[i]).request_id == id ==> after.contains(
                before[i],
            ),
        forall|i: int|
            0 <= i < after.len() && (#[trigger] after[i]).request_id == id ==> before.contains(
                after[i],
            ) || (after[i].transfer_type == TransferType::Store && after[i].state
                == SignalState::Pending),
    ensures
        forall|i: int|
            0 <= i < before.len() && (#[trigger] before[i]).request_id == id ==> exists|j: int|
                0 <= j < after.len() && #[trigger] after[j] == before[i],
        forall|j: int|
            0 <= j < after.len() && (#[trigger] after[j]).request_id == id && !(
            after[j].transfer_type == TransferType::Store && after[j].state
                == SignalState::Pending) ==> exists|i: int|
                0 <= i < before.len() && #[trigger] before[i] == after[j],
{
    assert forall|i: int|
        0 <= i < before.len() && (#[trigger] before[i]).request_id == id implies exists|j: int|
        0 <= j < after.len() && #[trigger] after[j] == before[i] by {
        assert(after.contains(before[i]));
    }
    assert forall|j: int|
        0 <= j < after.len() && (#[trigger] after[j]).request_id == id && !(after[j].transfer_type
            == TransferType::Store && after[j].state == SignalState::Pending) implies exists|
        i: int,
    |
        0 <= i < before.len() && #[trigger] before[i] == after[j] by {
        assert(before.contains(after[j]));
    }
}

/// The active keys are those of their requests.
spec fn own_keys(leader: LeaderView) -> bool {
    forall|id: Seq<char>| #[trigger]
        leader.active.dom().contains(id) ==> leader.active[id].0 == id
}

/// Every slot to create is the active slot of its request.
spec fn slots_are_active(b: BuildView) -> bool {
    forall|i: int|
        #![trigger b.metadata.new_slots[i]]
        0 <= i < b.metadata.new_slots.len() ==> b.leader.active.dom().contains(
            b.metadata.new_slots[i].key.0,
        ) && b.leader.active[b.metadata.new_slots[i].key.0] == b.metadata.new_slots[i].key
}

proof fn pushed_slot_is_created(b: BuildView, after: BuildView, key: SlotKeyView, id: Seq<char>)
    requires
        after.metadata.new_slots.len() == b.metadata.new_slots.len() + 1,
        after.metadata.new_slots.drop_last() == b.metadata.new_slots,
        after.metadata.new_slots.last().key == key,
    ensures
        after.metadata.creates(id) <==> b.metadata.creates(id) || id == key.0,
{
    let now = after.metadata.new_slots;
    let old = b.metadata.new_slots;
    assert(forall|i: int| 0 <= i < old.len() ==> #[trigger] now[i] == now.drop_last()[i]);
    if b.metadata.creates(id) {
        let i = choose|i: int| 0 <= i < old.len() && (#[trigger] old[i]).key.0 == id;
        assert(now[i].key.0 == id);
    }
    assert(now[old.len() as int].key == key);
    if after.metadata.creates(id) && id != key.0 {
        let i = choose|i: int| 0 <= i < now.len() && (#[trigger] now[i]).key.0 == id;
        assert(old[i].key.0 == id);
    }
}

proof fn flushing_creates(b: BuildView, order: Seq<Seq<char>>, n: nat, id: Seq<char>)
    requires
        n <= order.len(),
        own_keys(b.leader),
        slots_are_active(b),
        b.flush_all(order, n).1 is None,
    ensures
        b.flush_all(order, n).0.metadata.creates(id) <==> b.metadata.creates(id) || order.subrange(
            0,
            n as int,
        ).contains(id),
        slots_are_active(b.flush_all(order, n).0),
        b.flush_all(order, n).0.leader.active == b.leader.active,
    decreases n,
{
    if n > 0 {
        let m = (n - 1) as nat;
        flushing_creates(b, order, m, id);
        let before = b.flush_all(order, m).0;
        let after = b.flush_all(order, n).0;
        let key = before.leader.active[order[m as int]];
        assert(after.metadata.new_slots.drop_last() =~= before.metadata.new_slots);
        pushed_slot_is_created(before, after, key, id);
        let now = after.metadata.new_slots;
        assert(forall|i: int|
            0 <= i < now.len() - 1 ==> #[trigger] now[i] == before.metadata.new_slots[i]);
        let shorter = order.subrange(0, m as int);
        let longer = order.subrange(0, n as int);
        assert(longer =~= shorter.push(order[m as int]));
        if shorter.contains(id) {
            let k = shorter.index_of(id);
            assert(longer[k] == id);
        }
        assert(longer[m as int] == order[m as int]);
        if longer.contains(id) {
            let k = longer.index_of(id);
            if k < m {
                assert(shorter[k] == id);
            }
        }
    }
}

proof fn scheduling_new_creates(
    b: BuildView,
    output: SchedulerOutput,
    n: nat,
    ids: Seq<OperationId>,
    id: Seq<char>,
)
    requires
        n <= output.new_requests@.len(),
        own_keys(b.leader),
        slots_are_active(b),
        b.schedule_all_new(output, n, ids).1 is None,
    ensures
        b.schedule_all_new(output, n, ids).0.metadata.creates(id) <==> b.metadata.creates(id)
            || exists|k: int| 0 <= k < n && (#[trigger] output.new_requests@[k]).request_id@ == id,
        slots_are_active(b.schedule_all_new(output, n, ids).0),
        b.schedule_all_new(output, n, ids).0.leader.active == b.leader.active,
    decreases n,
{
    if n > 0 {
        let m = (n - 1) as nat;
        scheduling_new_creates(b, output, m, ids, id);
        let before = b.schedule_all_new(output, m, ids).0;
        let after = b.schedule_all_new(output, n, ids).0;
        let request = output.new_requests@[m as int];
        let now = after.metadata.new_slots;
        if !before.metadata.creates(request.request_id@) {
            let key = before.leader.active[request.request_id@];
            assert(now.drop_last() =~= before.metadata.new_slots);
            pushed_slot_is_created(before, after, key, id);
            assert(forall|i: int|
                0 <= i < now.len() - 1 ==> #[trigger] now[i] == before.metadata.new_slots[i]);
        }
    }
}

/// A metadata creates a slot for every onboard that started and for every new request, and for no
/// other request. Each is the active slot of its request.
pub proof fn metadata_creates_the_new_slots(
    leader: LeaderView,
    output: SchedulerOutput,
    plan: BuildPlan,
    id: Seq<char>,
)
    requires
        leader.wf(),
        leader.plans(output, plan),
        leader.built(output, plan).1 is None,
    ensures
        ({
            let md = leader.built(output, plan).0.reported();
            &&& (exists|i: int|
                0 <= i < md.new_slots.len() && (#[trigger] md.new_slots[i]).key.0 == id)
                <==> leader.onboarding.contains(id) || exists|k: int|
                0 <= k < output.new_requests@.len() && (
                #[trigger] output.new_requests@[k]).request_id@ == id
            &&& forall|i: int|
                0 <= i < md.new_slots.len() ==> leader.active.dom().contains(
                    (#[trigger] md.new_slots[i]).key.0,
                ) && leader.active[md.new_slots[i].key.0] == md.new_slots[i].key
        }),
{
    let started = leader.build_started(plan.finishing);
    let n = plan.finishing.len();
    assert forall|x: Seq<char>| #[trigger]
        started.leader.active.dom().contains(x) implies leader.active.dom().contains(x)
        && started.leader.active[x] == leader.active[x] by {
        dropping_takes_requests_out(leader, plan.finishing, n, arbitrary(), x);
    }
    assert(own_keys(started.leader));
    flushing_creates(started, plan.onboarding, plan.onboarding.len(), id);
    let flushed = started.flush_all(plan.onboarding, plan.onboarding.len()).0;
    assert(plan.onboarding.subrange(0, plan.onboarding.len() as int) =~= plan.onboarding);
    assert(leader.onboarding.contains(id) <==> plan.onboarding.to_set().contains(id));
    scheduling_new_creates(flushed, output, output.new_requests@.len(), plan.new_ids, id);
    let fresh = flushed.schedule_all_new(output, output.new_requests@.len(), plan.new_ids).0;
    cached_requests_create_nothing(
        fresh,
        output,
        output.cached_requests@.len(),
        plan.cached_ids,
    );
    let scheduled = leader.build_scheduled(output, plan).0;
    skipped_requests_create_nothing(scheduled, plan.unmet, plan.unmet.len());
    assert(leader.built(output, plan).0.metadata.new_slots == fresh.metadata.new_slots);
    assert(fresh.metadata.creates(id) <==> leader.built(output, plan).0.reported().creates(id));
    let md = leader.built(output, plan).0.reported();
    assert forall|i: int| 0 <= i < md.new_slots.len() implies leader.active.dom().contains(
        (#[trigger] md.new_slots[i]).key.0,
    ) && leader.active[md.new_slots[i].key.0] == md.new_slots[i].key by {
        assert(fresh.metadata.new_slots[i] == md.new_slots[i]);
    }
}

proof fn cached_requests_create_nothing(
    b: BuildView,
    output: SchedulerOutput,
    n: nat,
    ids: Seq<OperationId>,
)
    ensures
        b.schedule_all_cached(output, n, ids).0.metadata.new_slots == b.metadata.new_slots,
    decreases n,
{
    if n > 0 {
        cached_requests_create_nothing(b, output, (n - 1) as nat, ids);
    }
}

proof fn skipped_requests_create_nothing(b: BuildView, order: Seq<Seq<char>>, n: nat)
    ensures
        b.skip_all(order, n).0.metadata == b.metadata,
    decreases n,
{
    if n > 0 {
        skipped_requests_create_nothing(b, order, (n - 1) as nat);
    }
}

/// Whether `after` is `before` with `ops` behind it, all under `key` and otherwise unchanged.
pub open spec fn hands_over(
    before: Seq<WorkerRequestView>,
    after: Seq<WorkerRequestView>,
    ops: Seq<WorkerRequestView>,
    key: SlotKeyView,
) -> bool {
    &&& after.len() == before.len() + ops.len()
    &&& forall|i: int| 0 <= i < before.len() ==> #[trigger] after[i] == before[i]
    &&& forall|i: int|
        #![trigger ops[i]]
        0 <= i < ops.len() ==> {
            let op = after[before.len() + i];
            &&& op.key == key
            &&& op.uuid == ops[i].uuid
            &&& op.transfer_type == ops[i].transfer_type
            &&& op.request_type == ops[i].request_type
            &&& op.block_ids == ops[i].block_ids
        }
}

/// The operations of an onboard are handed over as they were queued, in order, and none is left in
/// the queue. What is queued for others stays.
pub proof fn queued_operations_are_handed_over(
    b: BuildView,
    request_id: Seq<char>,
    other: SlotKeyView,
)
    requires
        b.flush(request_id).1 is None,
    ensures
        ({
            let after = b.flush(request_id).0;
            let key = b.leader.active[request_id];
            let queues = b.leader.manager.effects.worker_ops;
            let left = after.leader.manager.effects.worker_ops;
            &&& b.leader.active.dom().contains(request_id)
            &&& queues.dom().contains(key)
            &&& hands_over(b.metadata.operations, after.metadata.operations, queues[key], key)
            &&& after.metadata.new_slots.len() == b.metadata.new_slots.len() + 1
            &&& after.metadata.new_slots.last().key == key
            &&& after.metadata.new_slots.last().kind == NewSlotKind::Onboarding
            &&& !left.dom().contains(key)
            &&& other != key ==> left.dom().contains(other) == queues.dom().contains(other)
            &&& other != key && queues.dom().contains(other) ==> left[other] == queues[other]
            &&& !after.unmet.contains(request_id)
        }),
{
}

/// A slot for prefill is created with what is queued for it, which holds no immediate load.
pub proof fn prefill_slots_take_their_queue(b: BuildView, key: SlotKeyView, request_id: Seq<char>)
    ensures
        ({
            let (after, failure) = b.prefill(key, request_id);
            let queues = b.leader.manager.effects.worker_ops;
            let ops = if queues.dom().contains(key) {
                queues[key]
            } else {
                Seq::empty()
            };
            &&& !after.leader.manager.effects.worker_ops.dom().contains(key)
            &&& failure is None <==> metadata::immediate_loads(ops) == 0
            &&& failure is None ==> {
                &&& hands_over(b.metadata.operations, after.metadata.operations, ops, key)
                &&& after.metadata.new_slots.len() == b.metadata.new_slots.len() + 1
                &&& after.metadata.new_slots.last().key == key
                &&& after.metadata.new_slots.last().kind == NewSlotKind::Prefill
                &&& after.metadata.new_slots.last().expected_immediate_ops == 0
            }
            &&& failure is Some ==> after.metadata == b.metadata
        }),
{
    reveal(Seq::filter);
}

/// The loads that start at once are the loads that do not wait for the scheduler.
pub proof fn immediate_loads_are_counted(ops: Seq<WorkerRequestView>, op: WorkerRequestView)
    ensures
        metadata::immediate_loads(Seq::empty()) == 0,
        metadata::immediate_loads(ops.push(op)) == metadata::immediate_loads(ops) + if
            op.transfer_type == TransferType::Load && op.request_type
            == RequestType::Immediate {
            1nat
        } else {
            0nat
        },
{
    reveal(Seq::filter);
    assert(ops.push(op).drop_last() =~= ops);
}

/// A cached request that was scheduled leaves nothing in its queue, creates no slot, and is met.
pub proof fn cached_requests_empty_their_queue(
    b: BuildView,
    request: CachedRequestData,
    num_scheduled_tokens: usize,
    id: OperationId,
)
    requires
        b.schedule_cached(request, num_scheduled_tokens, id).1 is None,
    ensures
        ({
            let after = b.schedule_cached(request, num_scheduled_tokens, id).0;
            let key = b.leader.active[request.request_id@];
            &&& b.leader.active.dom().contains(request.request_id@)
            &&& !after.leader.manager.effects.worker_ops.dom().contains(key)
            &&& after.metadata.new_slots == b.metadata.new_slots
            &&& !after.unmet.contains(request.request_id@)
            &&& forall|i: int|
                0 <= i < b.metadata.operations.len() ==> #[trigger] after.metadata.operations[i]
                    == b.metadata.operations[i]
            &&& forall|i: int|
                b.metadata.operations.len() <= i < after.metadata.operations.len() ==> (
                #[trigger] after.metadata.operations[i]).key == key
        }),
{
}

/// A new request that was scheduled is met, and nothing is left in its queue unless its onboard is
/// in the metadata already.
pub proof fn new_requests_are_met(
    b: BuildView,
    request: NewRequestData,
    num_scheduled_tokens: usize,
    id: OperationId,
)
    requires
        b.schedule_new(request, num_scheduled_tokens, id).1 is None,
    ensures
        ({
            let after = b.schedule_new(request, num_scheduled_tokens, id).0;
            let request_id = request.request_id@;
            &&& !after.unmet.contains(request_id)
            &&& if b.metadata.creates(request_id) {
                after.leader == b.leader && after.metadata == b.metadata
            } else {
                &&& b.leader.active.dom().contains(request_id)
                &&& !after.leader.manager.effects.worker_ops.dom().contains(
                    b.leader.active[request_id],
                )
                &&& after.metadata.new_slots.last().key == b.leader.active[request_id]
                &&& after.metadata.new_slots.last().kind == NewSlotKind::Prefill
            }
        }),
{
}

/// What the scheduler decided is taken over by the slot: the tokens and hashes come behind those
/// that were known, known device blocks stay at the front, and the position is behind what was
/// computed and what is scheduled. Who the request is does not change.
pub proof fn scheduled_slots_take_the_output_over(
    slot: SlotView,
    tokens: Seq<u32>,
    block_hashes: Seq<SequenceHash>,
    block_ids: Seq<BlockId>,
    num_computed_tokens: usize,
    num_scheduled_tokens: usize,
)
    ensures
        ({
            let next = slot.output_applied(
                tokens,
                block_hashes,
                block_ids,
                num_computed_tokens,
                num_scheduled_tokens,
            );
            &&& next.sequence.tokens.len() == slot.sequence.tokens.len() + tokens.len()
            &&& next.sequence.tokens.subrange(0, slot.sequence.tokens.len() as int)
                == slot.sequence.tokens
            &&& next.sequence.tokens.subrange(
                slot.sequence.tokens.len() as int,
                next.sequence.tokens.len() as int,
            ) == tokens
            &&& next.sequence.hashes.subrange(0, slot.sequence.hashes.len() as int)
                == slot.sequence.hashes
            &&& next.sequence.hashes.subrange(
                slot.sequence.hashes.len() as int,
                next.sequence.hashes.len() as int,
            ) == block_hashes
            &&& next.sequence.block_size == slot.sequence.block_size
            &&& next.device_blocks.len() >= slot.device_blocks.len()
            &&& next.device_blocks.subrange(0, slot.device_blocks.len() as int)
                == slot.device_blocks
            &&& num_computed_tokens + num_scheduled_tokens <= usize::MAX ==> next.current_position
                == num_computed_tokens + num_scheduled_tokens
            &&& next.request_id == slot.request_id
            &&& next.generation == slot.generation
            &&& next.evaluated_blocks == slot.evaluated_blocks
            &&& next.offload_terminated_at_block == slot.offload_terminated_at_block
            &&& slot.phase is Initialized && tokens.len() == 0 ==> next.phase is Prefilling
            &&& slot.phase is Onboarding && tokens.len() == 0 ==> next.phase is Prefilling
            &&& slot.phase is Prefilling && tokens.len() > 0 ==> next.phase is Decoding
            &&& slot.phase is SkippedDecode ==> next.phase is Decoding
            &&& !(next.phase is Onboarding) ==> next.onboarding_since is None
        }),
{
    let next = slot.output_applied(
        tokens,
        block_hashes,
        block_ids,
        num_computed_tokens,
        num_scheduled_tokens,
    );
    let known = slot.sequence.tokens.len() as int;
    let hashed = slot.sequence.hashes.len() as int;
    assert(next.sequence.tokens.subrange(0, known) =~= slot.sequence.tokens);
    assert(next.sequence.tokens.subrange(known, next.sequence.tokens.len() as int) =~= tokens);
    assert(next.sequence.hashes.subrange(0, hashed) =~= slot.sequence.hashes);
    assert(next.sequence.hashes.subrange(hashed, next.sequence.hashes.len() as int)
        =~= block_hashes);
    assert(next.device_blocks.subrange(0, slot.device_blocks.len() as int) =~= slot.device_blocks);
}

/// A request that is resumed after a preemption has no device block and nothing behind it; its
/// tokens stay.
pub proof fn resumed_requests_start_without_blocks(slot: SlotView)
    ensures
        ({
            let next = slot.preemption_reset();
            &&& next.device_blocks.len() == 0
            &&& next.current_position == 0
            &&& next.evaluated_blocks == 0
            &&& next.offload_terminated_at_block is None
            &&& next.priorities.dom() =~= Set::empty()
            &&& next.sequence == slot.sequence
            &&& next.request_id == slot.request_id
            &&& next.phase is Preempted || next.phase is Finished
        }),
{
}

/// A request that was not scheduled is marked as skipped where it was running, and is otherwise
/// left alone. A skipped decode keeps its operations.
pub proof fn unscheduled_requests_are_marked(b: BuildView, request_id: Seq<char>)
    requires
        b.skip(request_id).1 is None,
    ensures
        ({
            let key = b.leader.active[request_id];
            let before = b.leader.manager.slots[key];
            let after = b.skip(request_id).0.leader.manager.slots[key];
            &&& b.leader.active.dom().contains(request_id)
            &&& b.leader.manager.slots.dom().contains(key)
            &&& match before.phase {
                PhaseView::Prefilling { .. } => after.phase is SkippedPrefill,
                PhaseView::Decoding { ops, .. } => after.phase is SkippedDecode
                    && after.phase->SkippedDecode_ops == ops,
                _ => after.phase == before.phase,
            }
            &&& after == (SlotView {
                phase: after.phase,
                onboarding_since: after.onboarding_since,
                ..before
            })
            &&& b.skip(request_id).0.metadata == b.metadata
            &&& forall|other: SlotKeyView|
                other != key && #[trigger] b.leader.manager.slots.dom().contains(other)
                    ==> b.skip(request_id).0.leader.manager.slots[other]
                    == b.leader.manager.slots[other]
        }),
{
}

/// How many tokens of a request are scheduled is what the scheduler said of it.
pub proof fn scheduled_tokens_are_those_of_the_request(
    output: SchedulerOutput,
    request_id: Seq<char>,
)
    ensures
        output.num_scheduled_tokens@.dom().contains(request_id) ==> output.scheduled_tokens(
            request_id,
        ) == output.num_scheduled_tokens@[request_id],
        !output.num_scheduled_tokens@.dom().contains(request_id) ==> output.scheduled_tokens(
            request_id,
        ) == 0,
{
}

/// A request can be scheduled exactly if it has an active key and a slot under it.
pub proof fn requests_with_slots_are_found(leader: LeaderView, what: Seq<char>, id: Seq<char>)
    ensures
        leader.find_as(what, id) is Ok <==> leader.active.dom().contains(id)
            && leader.manager.slots.dom().contains(leader.active[id]),
        leader.find_as(what, id) matches Ok(found) ==> found.0 == leader.active[id] && found.1
            == leader.manager.slots[found.0],
        leader.has(id) <==> leader.active.dom().contains(id) && leader.manager.slots.dom().contains(
            leader.active[id],
        ),
{
}

/// A finished request that is dropped leaves no slot, no key and no transfer behind; the slots, keys
/// and transfers of other requests stay.
pub proof fn dropped_requests_leave_nothing_behind(
    leader: LeaderView,
    request_id: Seq<char>,
    other: Seq<char>,
    key: SlotKeyView,
    entry: SignalEntryView,
)
    ensures
        ({
            let after = leader.dropped(request_id);
            &&& !after.active.dom().contains(request_id)
            &&& leader.active.dom().contains(request_id) ==> !after.manager.slots.dom().contains(
                leader.active[request_id],
            )
            &&& key != leader.active[request_id] || !leader.active.dom().contains(request_id)
                ==> after.manager.slots.dom().contains(key)
                == leader.manager.slots.dom().contains(key) && after.manager.slots[key]
                == leader.manager.slots[key]
            &&& other != request_id ==> after.active.dom().contains(other)
                == leader.active.dom().contains(other) && after.active[other]
                == leader.active[other]
            &&& after.manager.effects.signals.contains(entry) <==> {
                &&& leader.manager.effects.signals.contains(entry)
                &&& entry.request_id != request_id
            }
            &&& after.inflight == leader.inflight
            &&& after.onboarding == leader.onboarding
        }),
{
    signals::forgetting_takes_one_request(leader.manager.effects.signals, request_id, entry);
}

/// Once all of a list of requests are dropped, none of them has a slot.
pub proof fn all_dropped_requests_lose_their_slots(
    leader: LeaderView,
    request_ids: Seq<Seq<char>>,
    n: nat,
    request_id: Seq<char>,
)
    requires
        n <= request_ids.len(),
        leader.active.dom().contains(request_id),
        request_ids.subrange(0, n as int).contains(request_id),
    ensures
        !leader.all_dropped(request_ids, n).active.dom().contains(request_id),
        !leader.all_dropped(request_ids, n).manager.slots.dom().contains(
            leader.active[request_id],
        ),
    decreases n,
{
    let upto = request_ids.subrange(0, n as int);
    let i = upto.index_of(request_id);
    assert(n > 0);
    let m = (n - 1) as nat;
    let head = request_ids.subrange(0, m as int);
    if head.contains(request_id) {
        all_dropped_requests_lose_their_slots(leader, request_ids, m, request_id);
    } else {
        keys_stay_until_dropped(leader, request_ids, m, request_id);
        if i < m {
            assert(head[i] == request_id);
        }
        assert(request_ids[m as int] == request_id);
    }
}

proof fn keys_stay_until_dropped(
    leader: LeaderView,
    request_ids: Seq<Seq<char>>,
    n: nat,
    request_id: Seq<char>,
)
    requires
        n <= request_ids.len(),
        leader.active.dom().contains(request_id),
        !request_ids.subrange(0, n as int).contains(request_id),
    ensures
        leader.all_dropped(request_ids, n).active.dom().contains(request_id),
        leader.all_dropped(request_ids, n).active[request_id] == leader.active[request_id],
    decreases n,
{
    if n > 0 {
        let m = (n - 1) as nat;
        let upto = request_ids.subrange(0, n as int);
        let head = request_ids.subrange(0, m as int);
        assert(upto[m as int] == request_ids[m as int]);
        if head.contains(request_id) {
            let i = head.index_of(request_id);
            assert(upto[i] == request_id);
        }
        keys_stay_until_dropped(leader, request_ids, m, request_id);
    }
}

} // verus!
