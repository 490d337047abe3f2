//! The scheduler of transfers and its clients.

use kvbm::protocol::{
    ImmediateTransferResult, LeaderTransferRequest, RequestType, SlotKey, TransferType,
    WorkerTransferRequest,
};
use kvbm::scheduler::{
    CounterBank, EpochPhase, ScheduledTaskController, Scheduler, SchedulerAction,
    SchedulerCreateSlotDetails, SchedulerError, SchedulerEvent, SchedulerMessage,
    SchedulerRemoveSlotDetails, TransferRequestSource,
};
use kvbm::scheduler_client::{
    group_failures, route_transfer, TransferRoute, WorkerSchedulerClient,
};

const WORKER_0_COUNTER: u64 = 1000;
const WORKER_1_COUNTER: u64 = 1001;

fn new_id() -> u128 {
    uuid::Uuid::new_v4().as_u128()
}

fn test_key() -> SlotKey {
    SlotKey::new("test".to_string(), 0)
}

fn leader_request(uuid: u128, request_type: RequestType) -> LeaderTransferRequest {
    LeaderTransferRequest { key: test_key(), uuid, request_type, chained: false }
}

fn worker_request(
    uuid: u128,
    transfer_type: TransferType,
    request_type: RequestType,
) -> WorkerTransferRequest {
    WorkerTransferRequest { key: test_key(), uuid, transfer_type, request_type, block_ids: vec![] }
}

fn immediate_result(key: SlotKey, status: Result<(), String>) -> SchedulerEvent {
    SchedulerEvent::ImmediateResult(ImmediateTransferResult {
        key,
        uuid: new_id(),
        status,
        chained: false,
    })
}

fn create_slot(key: SlotKey, worker_id: &str, completed: u64, expected: u64) -> SchedulerEvent {
    SchedulerEvent::CreateSlot(SchedulerCreateSlotDetails {
        key,
        worker_id: worker_id.to_string(),
        completed,
        expected_immediate_ops: expected,
    })
}

/// Hands the oldest waiting message of the client to the scheduler.
fn step_worker(
    scheduler: &mut Scheduler,
    client: &mut WorkerSchedulerClient,
    bank: &mut CounterBank,
) -> Vec<SchedulerAction> {
    let mut actions = Vec::new();
    for message in client.drain_messages() {
        actions.extend(scheduler.step(message.into_event(), bank));
    }
    actions
}

/// Lets every transfer that the scheduler released succeed.
fn complete(actions: Vec<SchedulerAction>, bank: &mut CounterBank) -> usize {
    let mut executed = 0;
    for action in actions {
        if let SchedulerAction::Execute { counters, .. } = action {
            bank.fetch_add_each(&counters, 1);
            executed += 1;
        }
    }
    executed
}

#[test]
fn test_scheduler_lifecycle() {
    let mut bank = CounterBank::new();
    let mut scheduler = Scheduler::new();
    let mut worker_client = WorkerSchedulerClient::new("worker-0".to_string());
    let key = test_key();

    worker_client.create_slot_with_key_and_immediate_ops(key.clone(), 0, &mut bank).unwrap();

    assert!(!scheduler.has_epoch(&key));
    step_worker(&mut scheduler, &mut worker_client, &mut bank);
    assert!(scheduler.has_epoch(&key));

    worker_client.start_next_iteration().unwrap();
    step_worker(&mut scheduler, &mut worker_client, &mut bank);
    assert_eq!(scheduler.iteration(), 1);
    assert!(!scheduler.iteration_complete());

    worker_client.mark_layer_complete("layer".to_string()).unwrap();
    step_worker(&mut scheduler, &mut worker_client, &mut bank);
    assert_eq!(scheduler.layers_complete(), 1);

    worker_client.mark_iteration_complete().unwrap();
    step_worker(&mut scheduler, &mut worker_client, &mut bank);
    assert_eq!(scheduler.iteration(), 1);
    assert!(scheduler.iteration_complete());
}

#[test]
fn test_transfer_immediate_arrives_first() {
    let mut bank = CounterBank::new();
    let mut scheduler = Scheduler::new();
    let mut worker_client = WorkerSchedulerClient::new("worker-0".to_string());
    let key = test_key();
    let operation_id = new_id();

    let route = route_transfer(leader_request(operation_id, RequestType::Immediate));
    let request = match route {
        TransferRoute::Immediate(request) => request,
        other => panic!("an immediate transfer must not wait: {other:?}"),
    };

    assert_eq!(scheduler.buffered_results(&key), 0);
    scheduler.step(
        SchedulerEvent::ImmediateResult(ImmediateTransferResult {
            key: request.key,
            uuid: request.uuid,
            status: Ok(()),
            chained: request.chained,
        }),
        &mut bank,
    );
    assert_eq!(scheduler.buffered_results(&key), 1);

    worker_client.create_slot_with_key_and_immediate_ops(key.clone(), 1, &mut bank).unwrap();
    assert!(!scheduler.has_epoch(&key));
    step_worker(&mut scheduler, &mut worker_client, &mut bank);
    assert!(scheduler.has_epoch(&key));

    assert_eq!(scheduler.buffered_results(&key), 1);

    let counter = scheduler.binding(&key, &"worker-0".to_string()).unwrap();
    assert_eq!(bank.load(counter), 1);

    assert_eq!(worker_client.num_operations(&key), Some(0));
    assert!(!worker_client.is_key_complete(&key, &bank));

    worker_client
        .enqueue_request(worker_request(operation_id, TransferType::Load, RequestType::Immediate))
        .unwrap();
    assert_eq!(worker_client.num_operations(&key), Some(1));
    assert!(worker_client.is_key_complete(&key, &bank));

    assert_eq!(scheduler.buffered_results(&key), 1);
    worker_client.remove_key(&key, &bank).unwrap();
    step_worker(&mut scheduler, &mut worker_client, &mut bank);

    assert_eq!(scheduler.buffered_results(&key), 0);
    assert!(!scheduler.has_epoch(&key));
}

#[test]
fn test_transfer_immediate_arrives_last() {
    let mut bank = CounterBank::new();
    let mut scheduler = Scheduler::new();
    let mut worker_client = WorkerSchedulerClient::new("worker-0".to_string());
    let key = test_key();
    let operation_id = new_id();

    worker_client.create_slot_with_key_and_immediate_ops(key.clone(), 0, &mut bank).unwrap();
    assert!(!scheduler.has_epoch(&key));
    step_worker(&mut scheduler, &mut worker_client, &mut bank);
    assert!(scheduler.has_epoch(&key));
    assert_eq!(scheduler.buffered_results(&key), 0);

    worker_client
        .enqueue_request(worker_request(operation_id, TransferType::Load, RequestType::Immediate))
        .unwrap();
    assert!(worker_client.drain_messages().is_empty(), "immediate requests stay with the worker");

    let counter = scheduler.binding(&key, &"worker-0".to_string()).unwrap();
    assert_eq!(worker_client.num_operations(&key), Some(1));
    assert_eq!(bank.load(counter), 0);

    assert_eq!(scheduler.buffered_results(&key), 0);
    scheduler.step(
        SchedulerEvent::ImmediateResult(ImmediateTransferResult {
            key: key.clone(),
            uuid: operation_id,
            status: Ok(()),
            chained: false,
        }),
        &mut bank,
    );
    assert_eq!(scheduler.buffered_results(&key), 0);
    assert_eq!(bank.load(counter), 1);
    assert_eq!(worker_client.num_operations(&key), Some(1));
    assert!(worker_client.is_key_complete(&key, &bank));
}

#[test]
fn test_transfer_scheduled_arrives_first() {
    let mut bank = CounterBank::new();
    let mut scheduler = Scheduler::new();
    let mut worker_client = WorkerSchedulerClient::new("worker-0".to_string());
    let key = test_key();
    let operation_id = new_id();

    let request = match route_transfer(leader_request(operation_id, RequestType::Scheduled)) {
        TransferRoute::Scheduled(request) => request,
        other => panic!("a scheduled transfer must wait: {other:?}"),
    };
    let actions = scheduler.step(
        SchedulerEvent::ScheduleRequest(ScheduledTaskController { request, decision: 5 }),
        &mut bank,
    );
    assert_eq!(complete(actions, &mut bank), 0);
    assert_eq!(scheduler.waiting_requests(&key), 1);
    assert!(matches!(
        scheduler.waiting_half(&key, operation_id),
        Some(TransferRequestSource::Transfer(controller)) if controller.decision == 5
    ));

    worker_client.create_slot_with_key_and_immediate_ops(key.clone(), 0, &mut bank).unwrap();
    assert!(!scheduler.has_epoch(&key));
    step_worker(&mut scheduler, &mut worker_client, &mut bank);
    assert!(scheduler.has_epoch(&key));
    assert!(!scheduler.can_take(&SchedulerEvent::ScheduleRequest(ScheduledTaskController {
        request: leader_request(operation_id, RequestType::Scheduled),
        decision: 6,
    })));

    worker_client
        .enqueue_request(worker_request(operation_id, TransferType::Store, RequestType::Scheduled))
        .unwrap();
    let actions = step_worker(&mut scheduler, &mut worker_client, &mut bank);
    assert_eq!(scheduler.waiting_requests(&key), 0);

    let counter = scheduler.binding(&key, &"worker-0".to_string()).unwrap();
    assert_eq!(bank.load(counter), 0);
    assert_eq!(complete(actions, &mut bank), 1);
    assert_eq!(bank.load(counter), 1);
    assert!(worker_client.is_key_complete(&key, &bank));
}

#[test]
fn test_transfer_scheduled_arrives_last() {
    let mut bank = CounterBank::new();
    let mut scheduler = Scheduler::new();
    let mut worker_client = WorkerSchedulerClient::new("worker-0".to_string());
    let key = test_key();
    let operation_id = new_id();

    worker_client.create_slot_with_key_and_immediate_ops(key.clone(), 0, &mut bank).unwrap();
    assert!(!scheduler.has_epoch(&key));
    step_worker(&mut scheduler, &mut worker_client, &mut bank);
    assert!(scheduler.has_epoch(&key));

    worker_client
        .enqueue_request(worker_request(operation_id, TransferType::Store, RequestType::Scheduled))
        .unwrap();
    step_worker(&mut scheduler, &mut worker_client, &mut bank);
    assert_eq!(scheduler.waiting_requests(&key), 1);
    assert!(matches!(
        scheduler.waiting_half(&key, operation_id),
        Some(TransferRequestSource::Worker)
    ));
    assert!(!scheduler.can_take(&SchedulerEvent::EnqueueRequest(worker_request(
        operation_id,
        TransferType::Store,
        RequestType::Scheduled,
    ))));

    let actions = scheduler.step(
        SchedulerEvent::ScheduleRequest(ScheduledTaskController {
            request: leader_request(operation_id, RequestType::Scheduled),
            decision: 6,
        }),
        &mut bank,
    );
    match &actions[0] {
        SchedulerAction::Execute { controller, .. } => {
            assert_eq!(controller.decision, 6);
            assert_eq!(controller.request.uuid, operation_id);
        }
        other => panic!("unexpected action {other:?}"),
    }
    assert_eq!(scheduler.waiting_requests(&key), 0);

    assert_eq!(complete(actions, &mut bank), 1);
    let counter = scheduler.binding(&key, &"worker-0".to_string()).unwrap();
    assert_eq!(bank.load(counter), 1);
    assert!(worker_client.is_key_complete(&key, &bank));
}

#[test]
fn new_slots_count_in_counters_of_their_own() {
    let mut bank = CounterBank::new();
    bank.store(0, 7);
    bank.store(1, 7);
    bank.store(3, 7);
    let first = bank.allocate();
    let second = bank.allocate();
    assert_eq!((first, second), (2, 4));
    assert_eq!((bank.load(first), bank.load(second)), (0, 0));
    bank.fetch_add(first, 3);
    assert_eq!((bank.load(first), bank.load(second), bank.load(3)), (3, 0, 7));
    bank.store(u64::MAX, 1);
    assert_eq!(bank.allocate(), 5);

    let mut client = WorkerSchedulerClient::new("worker-0".to_string());
    let key = test_key();
    let other = SlotKey::new("other".to_string(), 0);
    client.create_slot_with_key_and_immediate_ops(key.clone(), 0, &mut bank).unwrap();
    client.create_slot_with_key_and_immediate_ops(other.clone(), 0, &mut bank).unwrap();
    assert!(client.is_key_complete(&key, &bank));
    assert!(client.is_key_complete(&other, &bank));
    let counters: Vec<u64> = client
        .drain_messages()
        .into_iter()
        .map(|message| match message {
            SchedulerMessage::CreateSlot(details) => details.completed,
            other => panic!("unexpected message {other:?}"),
        })
        .collect();
    assert_eq!(counters, vec![6, 7]);
    bank.fetch_add(counters[0], 1);
    assert!(!client.is_key_complete(&key, &bank));
    assert!(client.is_key_complete(&other, &bank));
}

#[test]
fn test_tp_bindings_are_keyed_by_worker_id() {
    let mut bank = CounterBank::new();
    let mut scheduler = Scheduler::new();
    let key = test_key();

    scheduler.step(create_slot(key.clone(), "worker-0", WORKER_0_COUNTER, 1), &mut bank);
    scheduler.step(create_slot(key.clone(), "worker-1", WORKER_1_COUNTER, 1), &mut bank);

    assert_eq!(scheduler.binding(&key, &"worker-0".to_string()), Some(WORKER_0_COUNTER));
    assert_eq!(scheduler.binding(&key, &"worker-1".to_string()), Some(WORKER_1_COUNTER));
    assert_eq!(scheduler.binding(&key, &"worker-2".to_string()), None);
    assert_eq!(bank.load(WORKER_0_COUNTER), 0);
    assert_eq!(bank.load(WORKER_1_COUNTER), 0);
}

#[test]
fn test_stale_immediate_result_is_dropped_after_new_generation() {
    let mut bank = CounterBank::new();
    let mut scheduler = Scheduler::new();
    let old_key = SlotKey::new("test".to_string(), 0);
    let new_key = SlotKey::new("test".to_string(), 1);

    scheduler.step(create_slot(new_key.clone(), "worker-0", WORKER_0_COUNTER, 1), &mut bank);
    scheduler.step(immediate_result(old_key.clone(), Ok(())), &mut bank);

    assert_eq!(scheduler.buffered_results(&old_key), 0);
    assert!(scheduler.is_stale_key(&old_key));
    assert_eq!(bank.load(WORKER_0_COUNTER), 0);
    assert_eq!(scheduler.completed_immediate_ops(&new_key), Some(0));
}

#[test]
fn test_immediate_result_fans_out_to_all_epoch_bindings() {
    let mut bank = CounterBank::new();
    let mut scheduler = Scheduler::new();
    let key = test_key();

    scheduler.step(create_slot(key.clone(), "worker-0", WORKER_0_COUNTER, 1), &mut bank);
    scheduler.step(create_slot(key.clone(), "worker-1", WORKER_1_COUNTER, 1), &mut bank);
    scheduler.step(immediate_result(key.clone(), Ok(())), &mut bank);

    assert_eq!(bank.load(WORKER_0_COUNTER), 1);
    assert_eq!(bank.load(WORKER_1_COUNTER), 1);
    assert_eq!(scheduler.epoch_phase(&key), Some(EpochPhase::Active));
}

#[test]
fn test_request_finished_detaches_one_binding_before_closing_epoch() {
    let mut bank = CounterBank::new();
    let mut scheduler = Scheduler::new();
    let key = test_key();
    bank.store(WORKER_0_COUNTER, 1);
    bank.store(WORKER_1_COUNTER, 1);

    scheduler.step(create_slot(key.clone(), "worker-0", WORKER_0_COUNTER, 0), &mut bank);
    scheduler.step(create_slot(key.clone(), "worker-1", WORKER_1_COUNTER, 0), &mut bank);

    let finished = |worker_id: &str| {
        SchedulerEvent::RequestFinished(SchedulerRemoveSlotDetails {
            key: test_key(),
            worker_id: worker_id.to_string(),
        })
    };
    scheduler.step(finished("worker-0"), &mut bank);

    assert_eq!(scheduler.epoch_phase(&key), Some(EpochPhase::Draining));
    assert_eq!(scheduler.binding(&key, &"worker-0".to_string()), None);
    assert!(scheduler.binding(&key, &"worker-1".to_string()).is_some());

    scheduler.step(finished("worker-1"), &mut bank);

    assert!(!scheduler.has_epoch(&key));
    assert!(scheduler.is_closed(&key));
}

fn high_concurrency(num_requests: usize, num_bindings: usize, num_immediate_ops: usize) {
    let mut bank = CounterBank::new();
    let mut scheduler = Scheduler::new();

    // Results of the current and of a stale generation arrive in turn, before, between and after
    // the bindings.
    for request_index in 0..num_requests {
        let request_id = format!("req-{request_index}");
        let key = SlotKey::new(request_id.clone(), 1);
        let stale_key = SlotKey::new(request_id, 0);
        let first = num_immediate_ops / 2;
        for _ in 0..first {
            scheduler.step(immediate_result(key.clone(), Ok(())), &mut bank);
            scheduler.step(immediate_result(stale_key.clone(), Ok(())), &mut bank);
        }
        for binding_index in 0..num_bindings {
            scheduler.step(
                create_slot(
                    key.clone(),
                    &format!("worker-{binding_index}"),
                    (request_index * num_bindings + binding_index) as u64,
                    num_immediate_ops as u64,
                ),
                &mut bank,
            );
        }
        for _ in first..num_immediate_ops {
            scheduler.step(immediate_result(key.clone(), Ok(())), &mut bank);
            scheduler.step(immediate_result(stale_key.clone(), Ok(())), &mut bank);
        }
    }

    for counter in 0..num_requests * num_bindings {
        assert_eq!(bank.load(counter as u64), num_immediate_ops as u64);
    }
}

#[test]
fn test_high_concurrency_epoch_fanout_and_stale_drop() {
    high_concurrency(8, 2, 4);
    high_concurrency(32, 4, 8);
}

#[test]
fn a_result_counts_once() {
    let mut bank = CounterBank::new();
    let mut scheduler = Scheduler::new();
    let key = test_key();
    let uuid = new_id();
    scheduler.step(create_slot(key.clone(), "worker-0", WORKER_0_COUNTER, 1), &mut bank);
    for _ in 0..2 {
        scheduler.step(
            SchedulerEvent::ImmediateResult(ImmediateTransferResult {
                key: key.clone(),
                uuid,
                status: Ok(()),
                chained: false,
            }),
            &mut bank,
        );
    }
    assert_eq!(bank.load(WORKER_0_COUNTER), 1);
}

#[test]
fn a_failed_result_is_reported_to_the_worker() {
    let mut bank = CounterBank::new();
    let mut scheduler = Scheduler::new();
    let key = test_key();
    scheduler.step(create_slot(key.clone(), "worker-0", WORKER_0_COUNTER, 1), &mut bank);
    let actions = scheduler.step(immediate_result(key, Err("boom".to_string())), &mut bank);
    let failures: Vec<String> = actions
        .into_iter()
        .filter_map(|action| match action {
            SchedulerAction::ReportFailure(request_id, _) => Some(request_id),
            _ => None,
        })
        .collect();
    assert_eq!(failures, vec!["test".to_string()]);
}

#[test]
fn failures_are_grouped_by_request() {
    let groups = group_failures(vec![
        ("a".to_string(), 1),
        ("b".to_string(), 2),
        ("a".to_string(), 3),
        ("a".to_string(), 1),
    ]);
    assert_eq!(groups.len(), 2);
    let a = groups.get(&"a".to_string()).unwrap();
    assert!(a.contains(&1) && a.contains(&3));
    assert_eq!(a.len(), 2);
}

#[test]
fn a_client_without_a_scheduler_reports_it() {
    let mut client = WorkerSchedulerClient::new("worker-0".to_string());
    client.disconnect();
    let error = client.start_next_iteration().unwrap_err();
    assert!(matches!(error, SchedulerError::Disconnected));
    assert_eq!(
        error.to_string(),
        "runtime error: connections between components were lost; likely tearing down"
    );
}

#[test]
fn messages_become_events() {
    assert!(matches!(
        SchedulerMessage::StartIteration(3).into_event(),
        SchedulerEvent::StartIteration(3)
    ));
    assert!(matches!(
        SchedulerMessage::UpdateLayersCompleted("l".to_string(), 4).into_event(),
        SchedulerEvent::UpdateLayersCompleted(_, 4)
    ));
}

#[test]
fn a_half_must_not_arrive_twice() {
    let (mut scheduler, mut bank) = (Scheduler::new(), CounterBank::new());
    let uuid = new_id();
    let enqueue = || {
        SchedulerEvent::EnqueueRequest(worker_request(
            uuid,
            TransferType::Store,
            RequestType::Scheduled,
        ))
    };
    let schedule = || {
        SchedulerEvent::ScheduleRequest(ScheduledTaskController {
            request: leader_request(uuid, RequestType::Scheduled),
            decision: 5,
        })
    };
    assert!(scheduler.can_take(&schedule()));
    scheduler.step(schedule(), &mut bank);
    assert!(!scheduler.can_take(&schedule()));
    // A transfer runs only inside an open epoch.
    assert!(!scheduler.can_take(&enqueue()));
    scheduler.step(create_slot(test_key(), "w", WORKER_0_COUNTER, 0), &mut bank);
    assert!(scheduler.can_take(&enqueue()));
    let actions = scheduler.step(enqueue(), &mut bank);
    assert_eq!(complete(actions, &mut bank), 1);
    assert_eq!(bank.load(WORKER_0_COUNTER), 1);
}
