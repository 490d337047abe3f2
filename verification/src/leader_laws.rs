//! Laws of the leader: what every metadata keeps, and what successive polls report.

use vstd::prelude::*;

use crate::effect_executor::Draw;
use crate::leader_core::{self, KvConnectorLeaderCore, LeaderView, PollView};
use crate::leader_metadata::{self, BuildPlan, BuildView};
use crate::metadata::{
    self, CachedRequestData, MetadataView, NewRequestData, NewSlotKind, SchedulerOutput,
};
use crate::protocol::{BlockId, OperationId};
use crate::slot_machine::{self, DisclosureState, EventView, PhaseView, SlotContext};
use crate::slot_manager::ManagerView;
use crate::slot_runtime::SlotView;
use crate::transfer_requests::WorkerRequestView;

verus! {

/// Every new slot declares its immediate loads: an onboarding slot at least one, a prefill slot
/// none.
pub open spec fn declares_loads(md: MetadataView) -> bool {
    forall|i: int|
        0 <= i < md.new_slots.len() ==> ((#[trigger] md.new_slots[i]).expected_immediate_ops > 0)
            == (md.new_slots[i].kind == NewSlotKind::Onboarding)
}

/// No request gets two slots in one metadata.
pub open spec fn creates_once(md: MetadataView) -> bool {
    forall|i: int, j: int|
        0 <= i < j < md.new_slots.len() ==> (#[trigger] md.new_slots[i]).key.0 != (
        #[trigger] md.new_slots[j]).key.0
}

/// The operations that wait for workers are as many as a counter can count.
pub open spec fn countable(leader: LeaderView) -> bool {
    forall|key: (Seq<char>, u64)|
        leader.manager.effects.worker_ops.dom().contains(key) ==> (
        #[trigger] leader.manager.effects.worker_ops[key]).len() <= u64::MAX
}

/// The operations that wait for the workers of a leader are countable: they are held in memory.
pub proof fn queues_are_countable(leader: KvConnectorLeaderCore)
    ensures
        countable(leader@),
{
    let queues = leader.manager.effects.pending_worker_ops@;
    let ops = leader@.manager.effects.worker_ops;
    assert forall|key: (Seq<char>, u64)| ops.dom().contains(key) implies (
    #[trigger] ops[key]).len() <= u64::MAX by {
        assert(ops[key].len() == queues[key]@.len());
        assert(queues[key].len() == queues[key]@.len());
    }
}

/// The active keys are those of their requests.
spec fn own_keys(leader: LeaderView) -> bool {
    forall|id: Seq<char>| #[trigger]
        leader.active.dom().contains(id) ==> leader.active[id].0 == id
}

proof fn filter_is_shorter(ops: Seq<WorkerRequestView>)
    ensures
        metadata::immediate_loads(ops) <= ops.len(),
    decreases ops.len(),
{
    reveal(Seq::filter);
    if ops.len() > 0 {
        filter_is_shorter(ops.drop_last());
    }
}

proof fn dropping_keeps(leader: LeaderView, order: Seq<Seq<char>>, n: nat)
    requires
        own_keys(leader),
        countable(leader),
    ensures
        own_keys(leader.all_dropped(order, n)),
        countable(leader.all_dropped(order, n)),
    decreases n,
{
    if n > 0 {
        dropping_keeps(leader, order, (n - 1) as nat);
    }
}

proof fn flushing_keeps(b: BuildView, order: Seq<Seq<char>>, n: nat)
    requires
        n <= order.len(),
        order.no_duplicates(),
        own_keys(b.leader),
        countable(b.leader),
        b.metadata.new_slots.len() == 0,
    ensures
        own_keys(b.flush_all(order, n).0.leader),
        countable(b.flush_all(order, n).0.leader),
        declares_loads(b.flush_all(order, n).0.metadata),
        creates_once(b.flush_all(order, n).0.metadata),
        forall|i: int|
            #![trigger b.flush_all(order, n).0.metadata.new_slots[i]]
            0 <= i < b.flush_all(order, n).0.metadata.new_slots.len() ==> order.subrange(
                0,
                n as int,
            ).contains(b.flush_all(order, n).0.metadata.new_slots[i].key.0),
    decreases n,
{
    if n > 0 {
        flushing_keeps(b, order, (n - 1) as nat);
        let before = b.flush_all(order, (n - 1) as nat).0;
        let after = b.flush_all(order, n).0;
        let id = order[n - 1];
        let shorter = order.subrange(0, n - 1);
        let longer = order.subrange(0, n as int);
        assert forall|x: Seq<char>| shorter.contains(x) implies longer.contains(x) by {
            let k = choose|k: int| 0 <= k < shorter.len() && shorter[k] == x;
            assert(longer[k] == x);
        }
        assert(!shorter.contains(id)) by {
            if shorter.contains(id) {
                let k = choose|k: int| 0 <= k < shorter.len() && shorter[k] == id;
                assert(order[k] == order[n - 1]);
            }
        }
        assert(longer[n - 1] == id);
        match before.leader.find_as("onboarding"@, id) {
            Ok((key, slot)) => match before.leader.waiting_ops(key) {
                Some(ops) => {
                    filter_is_shorter(ops);
                },
                None => {},
            },
            Err(message) => {},
        }
        let slots = before.metadata.new_slots;
        assert(forall|i: int| 0 <= i < slots.len() ==> #[trigger] after.metadata.new_slots[i] == slots[i]);
    }
}

proof fn scheduling_new_keeps(
    b: BuildView,
    request: NewRequestData,
    num_scheduled_tokens: usize,
    id: OperationId,
)
    requires
        own_keys(b.leader),
        declares_loads(b.metadata),
        creates_once(b.metadata),
    ensures
        ({
            let after = b.schedule_new(request, num_scheduled_tokens, id).0;
            &&& own_keys(after.leader)
            &&& declares_loads(after.metadata)
            &&& creates_once(after.metadata)
        }),
{
    let after = b.schedule_new(request, num_scheduled_tokens, id).0;
    let slots = b.metadata.new_slots;
    assert(forall|i: int| 0 <= i < slots.len() ==> #[trigger] after.metadata.new_slots[i] == slots[i]);
    assert(forall|i: int|
        0 <= i < slots.len() && !b.metadata.creates(request.request_id@) ==> (#[trigger] slots[i]).key.0
            != request.request_id@);
}

proof fn scheduling_all_new_keeps(
    b: BuildView,
    output: SchedulerOutput,
    n: nat,
    ids: Seq<OperationId>,
)
    requires
        own_keys(b.leader),
        declares_loads(b.metadata),
        creates_once(b.metadata),
    ensures
        ({
            let after = b.schedule_all_new(output, n, ids).0;
            &&& own_keys(after.leader)
            &&& declares_loads(after.metadata)
            &&& creates_once(after.metadata)
        }),
    decreases n,
{
    if n > 0 {
        scheduling_all_new_keeps(b, output, (n - 1) as nat, ids);
        let before = b.schedule_all_new(output, (n - 1) as nat, ids).0;
        let request = output.new_requests@[n - 1];
        scheduling_new_keeps(
            before,
            request,
            output.scheduled_tokens(request.request_id@),
            ids[n - 1],
        );
    }
}

proof fn scheduling_cached_keeps_slots(
    b: BuildView,
    output: SchedulerOutput,
    n: nat,
    ids: Seq<OperationId>,
)
    ensures
        b.schedule_all_cached(output, n, ids).0.metadata.new_slots == b.metadata.new_slots,
    decreases n,
{
    if n > 0 {
        scheduling_cached_keeps_slots(b, output, (n - 1) as nat, ids);
    }
}

proof fn skipping_keeps_metadata(b: BuildView, order: Seq<Seq<char>>, n: nat)
    ensures
        b.skip_all(order, n).0.metadata == b.metadata,
    decreases n,
{
    if n > 0 {
        skipping_keeps_metadata(b, order, (n - 1) as nat);
    }
}

/// Every metadata creates at most one slot for a request. An onboarding slot declares at least
/// one immediate load, and a prefill slot declares none.
pub proof fn metadata_keeps_slot_contract(
    leader: LeaderView,
    output: SchedulerOutput,
    plan: BuildPlan,
)
    requires
        leader.wf(),
        leader.plans(output, plan),
        countable(leader),
    ensures
        declares_loads(leader.built(output, plan).0.reported()),
        creates_once(leader.built(output, plan).0.reported()),
{
    assert(own_keys(leader));
    dropping_keeps(leader, plan.finishing, plan.finishing.len());
    let started = leader.build_started(plan.finishing);
    assert(own_keys(started.leader));
    assert(countable(started.leader));
    flushing_keeps(started, plan.onboarding, plan.onboarding.len());
    let flushed = started.flush_all(plan.onboarding, plan.onboarding.len()).0;
    scheduling_all_new_keeps(flushed, output, output.new_requests@.len(), plan.new_ids);
    let fresh = flushed.schedule_all_new(output, output.new_requests@.len(), plan.new_ids).0;
    scheduling_cached_keeps_slots(
        fresh,
        output,
        output.cached_requests@.len(),
        plan.cached_ids,
    );
    let scheduled = leader.build_scheduled(output, plan).0;
    skipping_keeps_metadata(scheduled, plan.unmet, plan.unmet.len());
}

/// The number of immediate loads among `ops` under `key`.
pub open spec fn loads_under(
    ops: Seq<WorkerRequestView>,
    key: (Seq<char>, u64),
) -> nat {
    ops.filter(
        |op: WorkerRequestView|
            op.key == key && metadata::is_immediate_load(op),
    ).len()
}

/// Every new slot comes with exactly the immediate loads that it declares.
pub open spec fn carries_declared_loads(md: MetadataView) -> bool {
    forall|i: int|
        0 <= i < md.new_slots.len() ==> loads_under(
            md.operations,
            (#[trigger] md.new_slots[i]).key,
        ) == md.new_slots[i].expected_immediate_ops
}

/// The number of immediate loads that wait for the workers of `key`.
spec fn queued_loads(leader: LeaderView, key: (Seq<char>, u64)) -> nat {
    match leader.waiting_ops(key) {
        Some(ops) => metadata::immediate_loads(ops),
        None => 0,
    }
}

/// No immediate load waits for a slot that is in the metadata already.
spec fn queues_are_flushed(b: BuildView) -> bool {
    forall|i: int|
        0 <= i < b.metadata.new_slots.len() ==> queued_loads(
            b.leader,
            (#[trigger] b.metadata.new_slots[i]).key,
        ) == 0
}

/// The metadata holds immediate loads of requests whose slots it creates only.
spec fn loads_have_slots(md: MetadataView) -> bool {
    forall|key: (Seq<char>, u64)|
        !md.creates(key.0) ==> #[trigger] loads_under(md.operations, key) == 0
}

proof fn loads_add_up(
    a: Seq<WorkerRequestView>,
    b: Seq<WorkerRequestView>,
    key: (Seq<char>, u64),
)
    ensures
        loads_under(a + b, key) == loads_under(a, key) + loads_under(b, key),
{
    Seq::filter_distributes_over_add(
        a,
        b,
        |op: WorkerRequestView|
            op.key == key && metadata::is_immediate_load(op),
    );
}

proof fn rekeyed_loads_are_under_key(
    ops: Seq<WorkerRequestView>,
    key: (Seq<char>, u64),
    other: (Seq<char>, u64),
)
    ensures
        loads_under(metadata::rekeyed(ops, key), other) == if other == key {
            metadata::immediate_loads(ops)
        } else {
            0
        },
    decreases ops.len(),
{
    reveal(Seq::filter);
    let own = metadata::rekeyed(ops, key);
    if ops.len() > 0 {
        rekeyed_loads_are_under_key(ops.drop_last(), key, other);
        assert(own.drop_last() =~= metadata::rekeyed(ops.drop_last(), key));
        assert(own.last() == (WorkerRequestView { key, ..ops.last() }));
        assert(metadata::is_immediate_load(own.last()) == metadata::is_immediate_load(ops.last()));
    }
}

/// Operations that join the metadata under `key` change the loads of no other key.
proof fn joining_loads(
    md: MetadataView,
    ops: Seq<WorkerRequestView>,
    key: (Seq<char>, u64),
)
    ensures
        forall|other: (Seq<char>, u64)| #[trigger]
            loads_under(md.operations + metadata::rekeyed(ops, key), other) == loads_under(
                md.operations,
                other,
            ) + if other == key {
                metadata::immediate_loads(ops)
            } else {
                0
            },
{
    assert forall|other: (Seq<char>, u64)| #[trigger]
        loads_under(md.operations + metadata::rekeyed(ops, key), other) == loads_under(
            md.operations,
            other,
        ) + if other == key {
            metadata::immediate_loads(ops)
        } else {
            0
        } by {
        loads_add_up(md.operations, metadata::rekeyed(ops, key), other);
        rekeyed_loads_are_under_key(ops, key, other);
    }
}

proof fn stores_are_no_loads(
    ops: Seq<WorkerRequestView>,
    op: WorkerRequestView,
)
    requires
        !metadata::is_immediate_load(op),
    ensures
        metadata::immediate_loads(ops.push(op)) == metadata::immediate_loads(ops),
        metadata::immediate_loads(Seq::empty()) == 0,
{
    reveal(Seq::filter);
    assert(ops.push(op).drop_last() =~= ops);
}

/// The scheduler's decision on a slot queues stores at most.
proof fn scheduling_queues_no_loads(
    b: BuildView,
    slot_key: (Seq<char>, u64),
    slot: SlotView,
    tokens: Seq<u32>,
    block_hashes: Seq<u64>,
    block_ids: Seq<usize>,
    num_computed_tokens: usize,
    num_scheduled_tokens: usize,
    priorities: Option<Seq<u32>>,
    id: OperationId,
)
    ensures
        ({
            let after = b.scheduled(
                slot_key,
                slot,
                tokens,
                block_hashes,
                block_ids,
                num_computed_tokens,
                num_scheduled_tokens,
                priorities,
                id,
            ).0;
            &&& after.metadata == b.metadata
            &&& after.leader.active == b.leader.active
            &&& forall|key: (Seq<char>, u64)| #[trigger]
                queued_loads(after.leader, key) == queued_loads(b.leader, key)
        }),
{
    let after = b.scheduled(
        slot_key,
        slot,
        tokens,
        block_hashes,
        block_ids,
        num_computed_tokens,
        num_scheduled_tokens,
        priorities,
        id,
    ).0;
    let before = b.leader.manager.effects;
    let effects = after.leader.manager.effects;
    assert forall|key: (Seq<char>, u64)| #[trigger]
        queued_loads(after.leader, key) == queued_loads(b.leader, key) by {
        let ready = slot.output_applied(
            tokens,
            block_hashes,
            block_ids,
            num_computed_tokens,
            num_scheduled_tokens,
        ).ready_to_offload(num_computed_tokens, priorities, block_ids);
        if effects.worker_ops != before.worker_ops && key == ready.key() {
            stores_are_no_loads(before.ops_of(key), effects.worker_ops[key].last());
        }
    }
}

proof fn flushing_carries(b: BuildView, request_id: Seq<char>)
    requires
        own_keys(b.leader),
        countable(b.leader),
        !b.metadata.creates(request_id),
        carries_declared_loads(b.metadata),
        queues_are_flushed(b),
        loads_have_slots(b.metadata),
    ensures
        carries_declared_loads(b.flush(request_id).0.metadata),
        queues_are_flushed(b.flush(request_id).0),
        loads_have_slots(b.flush(request_id).0.metadata),
{
    let after = b.flush(request_id).0;
    match b.leader.find_as("onboarding"@, request_id) {
        Err(message) => {},
        Ok((key, slot)) => match b.leader.waiting_ops(key) {
            None => {},
            Some(ops) => {
                filter_is_shorter(ops);
                if metadata::immediate_loads(ops) > 0 {
                    assert(after.metadata.new_slots.drop_last() =~= b.metadata.new_slots);
                    creating_carries(b, after, key, ops);
                }
            },
        },
    }
}

/// A slot that is created together with what waits for it carries its loads.
proof fn creating_carries(
    b: BuildView,
    after: BuildView,
    key: (Seq<char>, u64),
    ops: Seq<WorkerRequestView>,
)
    requires
        !b.metadata.creates(key.0),
        carries_declared_loads(b.metadata),
        loads_have_slots(b.metadata),
        after.metadata.new_slots.len() == b.metadata.new_slots.len() + 1,
        after.metadata.new_slots.drop_last() == b.metadata.new_slots,
        after.metadata.new_slots.last().key == key,
        after.metadata.new_slots.last().expected_immediate_ops == metadata::immediate_loads(ops),
        after.metadata.operations == b.metadata.operations + metadata::rekeyed(ops, key),
        queues_are_flushed(b),
        forall|other: (Seq<char>, u64)|
            other != key ==> #[trigger] queued_loads(after.leader, other) == queued_loads(
                b.leader,
                other,
            ),
        queued_loads(after.leader, key) == 0,
    ensures
        carries_declared_loads(after.metadata),
        queues_are_flushed(after),
        loads_have_slots(after.metadata),
{
    joining_loads(b.metadata, ops, key);
    let slots = b.metadata.new_slots;
    let now = after.metadata.new_slots;
    assert forall|i: int| 0 <= i < now.len() implies loads_under(
        after.metadata.operations,
        (#[trigger] now[i]).key,
    ) == now[i].expected_immediate_ops && queued_loads(after.leader, now[i].key) == 0 by {
        if i < slots.len() {
            assert(now.drop_last()[i] == slots[i]);
            assert(slots[i].key.0 != key.0);
        }
    }
    assert forall|other: (Seq<char>, u64)|
        !after.metadata.creates(other.0) implies #[trigger] loads_under(
        after.metadata.operations,
        other,
    ) == 0 by {
        if b.metadata.creates(other.0) {
            let i = choose|i: int| 0 <= i < slots.len() && (#[trigger] slots[i]).key.0 == other.0;
            assert(now.drop_last()[i] == slots[i]);
            assert(now[i].key.0 == other.0);
        }
        assert(now[slots.len() as int].key == key);
        assert(other != key);
    }
}

proof fn flushing_all_carries(b: BuildView, order: Seq<Seq<char>>, n: nat)
    requires
        n <= order.len(),
        order.no_duplicates(),
        own_keys(b.leader),
        countable(b.leader),
        b.metadata.new_slots.len() == 0,
        b.metadata.operations.len() == 0,
    ensures
        carries_declared_loads(b.flush_all(order, n).0.metadata),
        queues_are_flushed(b.flush_all(order, n).0),
        loads_have_slots(b.flush_all(order, n).0.metadata),
    decreases n,
{
    if n == 0 {
        reveal(Seq::filter);
    } else {
        flushing_all_carries(b, order, (n - 1) as nat);
        flushing_keeps(b, order, (n - 1) as nat);
        let before = b.flush_all(order, (n - 1) as nat);
        let slots = before.0.metadata.new_slots;
        let id = order[n - 1];
        assert(!before.0.metadata.creates(id)) by {
            if before.0.metadata.creates(id) {
                let i = choose|i: int| 0 <= i < slots.len() && (#[trigger] slots[i]).key.0 == id;
                let met = order.subrange(0, n - 1);
                assert(met.contains(slots[i].key.0));
                let k = choose|k: int| 0 <= k < met.len() && met[k] == id;
                assert(order[k] == order[n - 1]);
            }
        }
        if before.1 is None {
            flushing_carries(before.0, id);
        }
    }
}

proof fn scheduling_new_carries(
    b: BuildView,
    request: NewRequestData,
    num_scheduled_tokens: usize,
    id: OperationId,
)
    requires
        own_keys(b.leader),
        carries_declared_loads(b.metadata),
        queues_are_flushed(b),
        loads_have_slots(b.metadata),
    ensures
        ({
            let after = b.schedule_new(request, num_scheduled_tokens, id).0;
            &&& carries_declared_loads(after.metadata)
            &&& queues_are_flushed(after)
            &&& loads_have_slots(after.metadata)
        }),
{
    let request_id = request.request_id@;
    let after = b.schedule_new(request, num_scheduled_tokens, id).0;
    let met = BuildView { unmet: b.unmet.remove(request_id), ..b };
    if !b.metadata.creates(request_id) {
        match b.leader.find_as("new"@, request_id) {
            Err(message) => {},
            Ok((key, slot)) => {
                let priorities = leader_metadata::priorities_view(request.priorities);
                scheduling_queues_no_loads(
                    met,
                    key,
                    slot,
                    Seq::empty(),
                    Seq::empty(),
                    request.block_ids@,
                    request.num_computed_tokens,
                    num_scheduled_tokens,
                    priorities,
                    id,
                );
                let next = met.scheduled(
                    key,
                    slot,
                    Seq::empty(),
                    Seq::empty(),
                    request.block_ids@,
                    request.num_computed_tokens,
                    num_scheduled_tokens,
                    priorities,
                    id,
                );
                assert forall|other: (Seq<char>, u64)| #[trigger]
                    queued_loads(after.leader, other) <= queued_loads(b.leader, other) by {
                    assert(queued_loads(next.0.leader, other) == queued_loads(met.leader, other));
                }
                if next.1 is None {
                    let ops = match next.0.leader.waiting_ops(key) {
                        Some(ops) => ops,
                        None => Seq::empty(),
                    };
                    reveal(Seq::filter);
                    if metadata::immediate_loads(ops) == 0 {
                        assert(after.metadata.operations =~= b.metadata.operations
                            + metadata::rekeyed(ops, key));
                        assert(after.metadata.new_slots.drop_last() =~= b.metadata.new_slots);
                        assert forall|other: (Seq<char>, u64)| other != key implies
                            #[trigger] queued_loads(after.leader, other) == queued_loads(
                            b.leader,
                            other,
                        ) by {
                            assert(queued_loads(next.0.leader, other) == queued_loads(
                                met.leader,
                                other,
                            ));
                        }
                        creating_carries(b, after, key, ops);
                    }
                }
            },
        }
    }
}

proof fn scheduling_all_new_carries(
    b: BuildView,
    output: SchedulerOutput,
    n: nat,
    ids: Seq<OperationId>,
)
    requires
        own_keys(b.leader),
        declares_loads(b.metadata),
        creates_once(b.metadata),
        carries_declared_loads(b.metadata),
        queues_are_flushed(b),
        loads_have_slots(b.metadata),
    ensures
        ({
            let after = b.schedule_all_new(output, n, ids).0;
            &&& carries_declared_loads(after.metadata)
            &&& queues_are_flushed(after)
            &&& loads_have_slots(after.metadata)
        }),
    decreases n,
{
    if n > 0 {
        scheduling_all_new_carries(b, output, (n - 1) as nat, ids);
        scheduling_all_new_keeps(b, output, (n - 1) as nat, ids);
        let before = b.schedule_all_new(output, (n - 1) as nat, ids).0;
        let request = output.new_requests@[n - 1];
        scheduling_new_carries(
            before,
            request,
            output.scheduled_tokens(request.request_id@),
            ids[n - 1],
        );
    }
}

proof fn scheduling_cached_carries(
    b: BuildView,
    request: CachedRequestData,
    num_scheduled_tokens: usize,
    id: OperationId,
)
    requires
        carries_declared_loads(b.metadata),
        queues_are_flushed(b),
    ensures
        ({
            let after = b.schedule_cached(request, num_scheduled_tokens, id).0;
            &&& carries_declared_loads(after.metadata)
            &&& queues_are_flushed(after)
        }),
{
    let request_id = request.request_id@;
    let after = b.schedule_cached(request, num_scheduled_tokens, id).0;
    match b.leader.find_as("cached"@, request_id) {
        Err(message) => {},
        Ok((key, found)) => {
            let slot = if request.resumed_from_preemption {
                found.preemption_reset()
            } else {
                found
            };
            let met = BuildView {
                leader: b.leader.with_slot(b.leader.manager, key, slot),
                unmet: b.unmet.remove(request_id),
                ..b
            };
            assert(forall|other: (Seq<char>, u64)|
                queued_loads(met.leader, other) == queued_loads(b.leader, other));
            let priorities = leader_metadata::priorities_view(request.priorities);
            scheduling_queues_no_loads(
                met,
                key,
                slot,
                request.new_token_ids@,
                request.new_block_hashes@,
                request.new_block_ids@,
                request.num_computed_tokens,
                num_scheduled_tokens,
                priorities,
                id,
            );
            let next = met.scheduled(
                key,
                slot,
                request.new_token_ids@,
                request.new_block_hashes@,
                request.new_block_ids@,
                request.num_computed_tokens,
                num_scheduled_tokens,
                priorities,
                id,
            );
            match next.0.leader.waiting_ops(key) {
                Some(ops) => {
                    joining_loads(b.metadata, ops, key);
                    assert(queued_loads(next.0.leader, key) == metadata::immediate_loads(ops));
                },
                None => {},
            }
            let slots = b.metadata.new_slots;
            assert forall|i: int| 0 <= i < slots.len() implies loads_under(
                after.metadata.operations,
                (#[trigger] slots[i]).key,
            ) == slots[i].expected_immediate_ops && queued_loads(after.leader, slots[i].key)
                == 0 by {
                assert(queued_loads(next.0.leader, slots[i].key) == queued_loads(
                    met.leader,
                    slots[i].key,
                ));
            }
        },
    }
}

proof fn scheduling_all_cached_carries(
    b: BuildView,
    output: SchedulerOutput,
    n: nat,
    ids: Seq<OperationId>,
)
    requires
        carries_declared_loads(b.metadata),
        queues_are_flushed(b),
    ensures
        ({
            let after = b.schedule_all_cached(output, n, ids).0;
            &&& carries_declared_loads(after.metadata)
            &&& queues_are_flushed(after)
        }),
    decreases n,
{
    if n > 0 {
        scheduling_all_cached_carries(b, output, (n - 1) as nat, ids);
        let before = b.schedule_all_cached(output, (n - 1) as nat, ids).0;
        let request = output.cached_requests@[n - 1];
        scheduling_cached_carries(
            before,
            request,
            output.scheduled_tokens(request.request_id@),
            ids[n - 1],
        );
    }
}

/// Every new slot of a metadata comes with exactly the immediate loads that it declares: the
/// operations of the whole metadata under the key of a slot hold as many immediate loads as the
/// slot expects, none for a prefill slot and at least one for an onboarding slot.
pub proof fn metadata_carries_declared_loads(
    leader: LeaderView,
    output: SchedulerOutput,
    plan: BuildPlan,
)
    requires
        leader.wf(),
        leader.plans(output, plan),
        countable(leader),
    ensures
        ({
            let md = leader.built(output, plan).0.reported();
            &&& carries_declared_loads(md)
            &&& forall|i: int|
                0 <= i < md.new_slots.len() ==> match (#[trigger] md.new_slots[i]).kind {
                    NewSlotKind::Prefill => md.new_slots[i].expected_immediate_ops == 0
                        && loads_under(md.operations, md.new_slots[i].key) == 0,
                    NewSlotKind::Onboarding => loads_under(md.operations, md.new_slots[i].key) > 0,
                }
        }),
{
    assert(own_keys(leader));
    dropping_keeps(leader, plan.finishing, plan.finishing.len());
    let started = leader.build_started(plan.finishing);
    assert(own_keys(started.leader));
    assert(countable(started.leader));
    flushing_keeps(started, plan.onboarding, plan.onboarding.len());
    flushing_all_carries(started, plan.onboarding, plan.onboarding.len());
    let flushed = started.flush_all(plan.onboarding, plan.onboarding.len()).0;
    scheduling_all_new_carries(flushed, output, output.new_requests@.len(), plan.new_ids);
    let fresh = flushed.schedule_all_new(output, output.new_requests@.len(), plan.new_ids).0;
    scheduling_all_cached_carries(
        fresh,
        output,
        output.cached_requests@.len(),
        plan.cached_ids,
    );
    let scheduled = leader.build_scheduled(output, plan).0;
    skipping_keeps_metadata(scheduled, plan.unmet, plan.unmet.len());
    metadata_keeps_slot_contract(leader, output, plan);
    let md = leader.built(output, plan).0.reported();
    assert(carries_declared_loads(md));
    assert forall|i: int| 0 <= i < md.new_slots.len() implies match (
    #[trigger] md.new_slots[i]).kind {
        NewSlotKind::Prefill => md.new_slots[i].expected_immediate_ops == 0 && loads_under(
            md.operations,
            md.new_slots[i].key,
        ) == 0,
        NewSlotKind::Onboarding => loads_under(md.operations, md.new_slots[i].key) > 0,
    } by {
        assert((md.new_slots[i].expected_immediate_ops > 0) == (md.new_slots[i].kind
            == NewSlotKind::Onboarding));
    }
}

proof fn flushing_keeps_iteration(b: BuildView, order: Seq<Seq<char>>, n: nat)
    ensures
        b.flush_all(order, n).0.leader.iteration == b.leader.iteration,
        b.flush_all(order, n).0.metadata.iteration == b.metadata.iteration,
    decreases n,
{
    if n > 0 {
        flushing_keeps_iteration(b, order, (n - 1) as nat);
    }
}

proof fn scheduling_new_keeps_iteration(
    b: BuildView,
    output: SchedulerOutput,
    n: nat,
    ids: Seq<OperationId>,
)
    ensures
        b.schedule_all_new(output, n, ids).0.leader.iteration == b.leader.iteration,
        b.schedule_all_new(output, n, ids).0.metadata.iteration == b.metadata.iteration,
    decreases n,
{
    if n > 0 {
        scheduling_new_keeps_iteration(b, output, (n - 1) as nat, ids);
    }
}

proof fn scheduling_cached_keeps_iteration(
    b: BuildView,
    output: SchedulerOutput,
    n: nat,
    ids: Seq<OperationId>,
)
    ensures
        b.schedule_all_cached(output, n, ids).0.leader.iteration == b.leader.iteration,
        b.schedule_all_cached(output, n, ids).0.metadata.iteration == b.metadata.iteration,
    decreases n,
{
    if n > 0 {
        scheduling_cached_keeps_iteration(b, output, (n - 1) as nat, ids);
    }
}

proof fn skipping_keeps_iteration(b: BuildView, order: Seq<Seq<char>>, n: nat)
    ensures
        b.skip_all(order, n).0.leader.iteration == b.leader.iteration,
        b.skip_all(order, n).0.metadata.iteration == b.metadata.iteration,
    decreases n,
{
    if n > 0 {
        skipping_keeps_iteration(b, order, (n - 1) as nat);
    }
}

proof fn dropping_keeps_iteration(leader: LeaderView, order: Seq<Seq<char>>, n: nat)
    ensures
        leader.all_dropped(order, n).iteration == leader.iteration,
    decreases n,
{
    if n > 0 {
        dropping_keeps_iteration(leader, order, (n - 1) as nat);
    }
}

/// Metadata is numbered by the builds: each build counts one iteration, also where it fails, and
/// its metadata carries the new count.
pub proof fn metadata_counts_builds(leader: LeaderView, output: SchedulerOutput, plan: BuildPlan)
    requires
        leader.iteration < u64::MAX,
    ensures
        leader.built(output, plan).0.leader.iteration == leader.iteration + 1,
        leader.built(output, plan).0.reported().iteration == leader.iteration + 1,
{
    dropping_keeps_iteration(leader, plan.finishing, plan.finishing.len());
    let started = leader.build_started(plan.finishing);
    flushing_keeps_iteration(started, plan.onboarding, plan.onboarding.len());
    let flushed = started.flush_all(plan.onboarding, plan.onboarding.len()).0;
    scheduling_new_keeps_iteration(flushed, output, output.new_requests@.len(), plan.new_ids);
    let fresh = flushed.schedule_all_new(output, output.new_requests@.len(), plan.new_ids).0;
    scheduling_cached_keeps_iteration(
        fresh,
        output,
        output.cached_requests@.len(),
        plan.cached_ids,
    );
    let scheduled = leader.build_scheduled(output, plan).0;
    skipping_keeps_iteration(scheduled, plan.unmet, plan.unmet.len());
}

/// The number of immediate loads that an onboarding slot declares is the number that its
/// operations hold, and those operations carry its key.
pub proof fn onboarding_slot_counts_its_loads(b: BuildView, request_id: Seq<char>)
    requires
        countable(b.leader),
        b.flush(request_id).1 is None,
    ensures
        ({
            let after = b.flush(request_id).0.metadata;
            let slot = after.new_slots.last();
            let added = after.operations.subrange(
                b.metadata.operations.len() as int,
                after.operations.len() as int,
            );
            &&& slot.kind == NewSlotKind::Onboarding
            &&& slot.expected_immediate_ops == metadata::immediate_loads(added)
            &&& forall|i: int| 0 <= i < added.len() ==> (#[trigger] added[i]).key == slot.key
        }),
{
    let key = (b.leader.find_as("onboarding"@, request_id)->Ok_0).0;
    let ops = b.leader.waiting_ops(key)->0;
    let after = b.flush(request_id).0.metadata;
    let added = after.operations.subrange(
        b.metadata.operations.len() as int,
        after.operations.len() as int,
    );
    assert(added =~= metadata::rekeyed(ops, key));
    filter_is_shorter(ops);
    rekeying_keeps_loads(ops, key);
}

proof fn rekeying_keeps_loads(
    ops: Seq<WorkerRequestView>,
    key: (Seq<char>, u64),
)
    ensures
        metadata::immediate_loads(metadata::rekeyed(ops, key)) == metadata::immediate_loads(ops),
    decreases ops.len(),
{
    reveal(Seq::filter);
    let own = metadata::rekeyed(ops, key);
    if ops.len() > 0 {
        rekeying_keeps_loads(ops.drop_last(), key);
        assert(own.drop_last() =~= metadata::rekeyed(ops.drop_last(), key));
        assert(metadata::is_immediate_load(own.last()) == metadata::is_immediate_load(ops.last()));
    }
}

/// Every onboard is timed from its start, whatever event starts it: a slot that begins to onboard
/// counts from then, one that goes on keeps its start, and one that is over has none. So every
/// slot that onboards can take too long.
pub proof fn onboards_are_timed_from_their_start(
    slot: SlotView,
    event: EventView<BlockId, BlockId>,
    ctx: SlotContext,
    id: OperationId,
    now: std::time::Instant,
)
    requires
        slot.wf(),
    ensures
        ({
            let next = slot.entered(
                slot_machine::step(slot.phase, event, ctx, id, now).0,
                now,
            );
            &&& if next.phase is Onboarding {
                leader_core::running_since(next) == if slot.phase is Onboarding {
                    leader_core::running_since(slot)
                } else {
                    Some(now)
                }
            } else {
                next.onboarding_since is None
            }
            &&& next.phase is Onboarding ==> forall|elapsed: u128, timeout_secs: u64|
                #[trigger] leader_core::overdue_after(next, elapsed, timeout_secs) == (elapsed
                    > timeout_secs * 1_000_000_000)
            &&& next.wf()
        }),
{
}

/// Staged tokens are reported once: a poll that reports them is followed by polls that tell the
/// engine to ask later, until blocks are allocated.
pub proof fn staged_tokens_are_reported_once(
    slot: SlotView,
    manager: ManagerView,
    ctx: SlotContext,
    overdue: bool,
    draws: Seq<Draw>,
    overdue_again: bool,
    draws_again: Seq<Draw>,
)
    requires
        slot.phase is OnboardReady,
    ensures
        ({
            let first = leader_core::poll_phase(slot, manager, ctx, overdue, draws);
            let second = leader_core::poll_phase(
                first.0,
                first.1,
                ctx,
                overdue_again,
                draws_again,
            );
            &&& slot.phase->disclosure == DisclosureState::Pending ==> first.2 == Ok::<
                PollView,
                Seq<char>,
            >(
                PollView::Tokens {
                    num_tokens: Some(slot.phase->OnboardReady_num_external_tokens),
                    is_async: true,
                },
            )
            &&& second.2 == Ok::<PollView, Seq<char>>(leader_core::ask_later())
        }),
{
}

/// A request whose prefetch failed without anything staged is computed: polls report nothing and
/// start nothing.
pub proof fn failed_prefetch_is_not_retried(
    slot: SlotView,
    manager: ManagerView,
    ctx: SlotContext,
    iteration: u64,
    num_computed_tokens: usize,
    elapsed: u128,
    timeout_secs: u64,
    acquire: Seq<Draw>,
    draws: Seq<Draw>,
)
    requires
        slot.phase matches PhaseView::Preempted { recovered_from_failure } && recovered_from_failure,
    ensures
        leader_core::poll_slot(
            slot,
            manager,
            ctx,
            iteration,
            num_computed_tokens,
            elapsed,
            timeout_secs,
            acquire,
            draws,
        ) == (slot, manager, Ok::<PollView, Seq<char>>(leader_core::no_tokens())),
{
}

} // verus!
