//! Slot keys, operation trackers, slot states and metadata.

use std::collections::HashSet;

use kvbm::metadata::{ConnectorMetadata, NewSlotKind};
use kvbm::protocol::{RequestType, SlotKey, TransferType, WorkerTransferRequest};
use kvbm::slot_api::SlotState;
use kvbm::slot_machine::{G4FailPolicy, PrefetchState, RequestPhase, SlotContext, SlotEvent};
use kvbm::slot_ops::OperationTracker;
use kvbm::tokens::{TokenBlock, TokenBlockSequence};

type TestPhase = RequestPhase<(), ()>;

fn new_id() -> u128 {
    uuid::Uuid::new_v4().as_u128()
}

fn test_slot_key(req_id: &str, generation: u64) -> SlotKey {
    SlotKey::new(req_id.to_string(), generation)
}

fn mock_worker_request(
    req_id: &str,
    transfer_type: TransferType,
    block_ids: Vec<usize>,
) -> WorkerTransferRequest {
    WorkerTransferRequest {
        key: test_slot_key(req_id, 0),
        uuid: new_id(),
        transfer_type,
        request_type: RequestType::Immediate,
        block_ids,
    }
}

fn mock_load_request(req_id: &str, block_ids: Vec<usize>) -> WorkerTransferRequest {
    mock_worker_request(req_id, TransferType::Load, block_ids)
}

fn mock_store_request(req_id: &str, block_ids: Vec<usize>) -> WorkerTransferRequest {
    mock_worker_request(req_id, TransferType::Store, block_ids)
}

fn make_token_blocks(tokens: &[u32]) -> Vec<TokenBlock> {
    let hashes: Vec<u64> = tokens.iter().map(|&token| token as u64).collect();
    TokenBlockSequence::new(tokens.to_vec(), 1, hashes).blocks()
}

fn tracker_with_pending_loads(req_id: &str, n: usize) -> OperationTracker {
    let mut tracker = OperationTracker::new();
    for i in 0..n {
        tracker.append_pending(mock_load_request(req_id, vec![i]));
    }
    tracker
}

fn tracker_with_dispatched(req_id: &str, n: usize) -> OperationTracker {
    let mut tracker = tracker_with_pending_loads(req_id, n);
    let _ = tracker.take_pending_for_dispatch();
    tracker
}

#[test]
fn test_operation_tracker_empty_initially() {
    let tracker = OperationTracker::new();
    assert!(!tracker.has_any());
    assert_eq!(tracker.pending_count(), 0);
    assert_eq!(tracker.dispatched_count(), 0);
}

#[test]
fn test_operation_tracker_append_and_dispatch() {
    let mut tracker = OperationTracker::new();

    let op1 = WorkerTransferRequest {
        key: SlotKey::new("req-1".into(), 0),
        uuid: new_id(),
        transfer_type: TransferType::Load,
        request_type: RequestType::Immediate,
        block_ids: vec![],
    };
    let op2 = WorkerTransferRequest {
        key: SlotKey::new("req-1".into(), 0),
        uuid: new_id(),
        transfer_type: TransferType::Store,
        request_type: RequestType::Scheduled,
        block_ids: vec![1, 2],
    };

    tracker.append_pending(op1);
    tracker.append_pending(op2);
    assert_eq!(tracker.pending_count(), 2);
    assert_eq!(tracker.dispatched_count(), 0);
    assert!(tracker.has_any());

    let taken = tracker.take_pending_for_dispatch();
    assert!(taken.is_some());
    assert_eq!(taken.unwrap().len(), 2);
    assert_eq!(tracker.pending_count(), 0);
    assert_eq!(tracker.dispatched_count(), 2);
    assert!(tracker.has_any());
}

#[test]
fn test_operation_tracker_discard_pending() {
    let mut tracker = OperationTracker::new();

    let op = WorkerTransferRequest {
        key: SlotKey::new("req-2".into(), 0),
        uuid: new_id(),
        transfer_type: TransferType::Load,
        request_type: RequestType::Immediate,
        block_ids: vec![],
    };
    tracker.append_pending(op);
    assert_eq!(tracker.pending_count(), 1);

    let discarded = tracker.discard_pending();
    assert_eq!(discarded, 1);
    assert!(!tracker.has_any());
    assert_eq!(tracker.pending_count(), 0);
    assert_eq!(tracker.dispatched_count(), 0);
}

#[test]
fn test_operation_tracker_clear_all() {
    let mut tracker = OperationTracker::new();

    let op = WorkerTransferRequest {
        key: SlotKey::new("req-3".into(), 0),
        uuid: new_id(),
        transfer_type: TransferType::Load,
        request_type: RequestType::Immediate,
        block_ids: vec![],
    };
    tracker.append_pending(op);
    tracker.take_pending_for_dispatch();
    assert!(tracker.has_any());

    tracker.clear_all();
    assert!(!tracker.has_any());
    assert_eq!(tracker.pending_count(), 0);
    assert_eq!(tracker.dispatched_count(), 0);
}

#[test]
fn test_operation_tracker_take_pending_when_none() {
    let mut tracker = OperationTracker::new();
    assert!(tracker.take_pending_for_dispatch().is_none());
    assert_eq!(tracker.dispatched_count(), 0);
}

#[test]
fn test_operation_tracker_discard_when_none() {
    let mut tracker = OperationTracker::new();
    assert_eq!(tracker.discard_pending(), 0);
}

#[test]
fn test_operation_tracker_simulates_finishing_to_finished() {
    let mut tracker = tracker_with_dispatched("req-1", 3);
    assert!(tracker.has_any());
    assert_eq!(tracker.dispatched_count(), 3);
    assert_eq!(tracker.pending_count(), 0);

    tracker.clear_all();
    assert!(!tracker.has_any());
    assert_eq!(tracker.dispatched_count(), 0);
    assert_eq!(tracker.pending_count(), 0);
}

#[test]
fn test_operation_tracker_mixed_pending_and_dispatched() {
    let mut tracker = tracker_with_pending_loads("req-mix", 4);
    assert_eq!(tracker.pending_count(), 4);

    let taken = tracker.take_pending_for_dispatch().unwrap();
    assert_eq!(taken.len(), 4);
    assert_eq!(tracker.dispatched_count(), 4);

    tracker.append_pending(mock_store_request("req-mix", vec![100]));
    assert_eq!(tracker.pending_count(), 1);
    assert_eq!(tracker.dispatched_count(), 4);
    assert!(tracker.has_any());

    let taken2 = tracker.take_pending_for_dispatch().unwrap();
    assert_eq!(taken2.len(), 1);
    assert_eq!(tracker.dispatched_count(), 5);
    assert_eq!(tracker.pending_count(), 0);
}

#[test]
fn test_slot_key_equality() {
    let k1 = SlotKey::new("req-1".into(), 0);
    let k2 = SlotKey::new("req-1".into(), 0);
    let k3 = SlotKey::new("req-1".into(), 1);
    let k4 = SlotKey::new("req-2".into(), 0);

    assert_eq!(k1, k2);
    assert_ne!(k1, k3);
    assert_ne!(k1, k4);
}

#[test]
fn test_slot_key_display() {
    let key = SlotKey::new("req-abc".into(), 7);
    assert_eq!(key.to_string(), "req-abc:7");
}

#[test]
fn test_slot_key_display_generation_zero() {
    let key = SlotKey::new("r".into(), 0);
    assert_eq!(key.to_string(), "r:0");
}

#[test]
fn test_slot_key_hash_consistency() {
    let k1 = SlotKey::new("req-1".into(), 0);
    let k2 = SlotKey::new("req-1".into(), 0);

    let mut set = HashSet::new();
    set.insert(k1);
    assert!(set.contains(&k2));
}

#[test]
fn test_slot_keys_are_unique_across_generations() {
    let mut keys = HashSet::new();
    for generation in 0..100u64 {
        let key = SlotKey::new("req-1".to_string(), generation);
        assert!(keys.insert(key), "Duplicate key at generation {generation}");
    }
}

#[test]
fn test_slot_keys_are_unique_across_request_ids() {
    let mut keys = HashSet::new();
    for i in 0..100u32 {
        let key = SlotKey::new(format!("req-{i}"), 0);
        assert!(keys.insert(key), "Duplicate key for request id req-{i}");
    }
}

#[test]
fn slot_states_are_copies_of_themselves() {
    let states = vec![
        SlotState::Initialized,
        SlotState::OnboardStaged(256),
        SlotState::Onboarding(256),
        SlotState::Prefilling,
        SlotState::SkippedPrefill,
        SlotState::Decoding,
        SlotState::SkippedDecode,
        SlotState::Finishing,
        SlotState::Finished,
        SlotState::Preempted,
    ];
    for state in states {
        let copy = state;
        assert_eq!(state, copy);
    }
}

#[test]
fn test_valid_state_sequences() {
    let states = vec![
        SlotState::Initialized,
        SlotState::OnboardStaged(1024),
        SlotState::Onboarding(1024),
        SlotState::Prefilling,
        SlotState::Decoding,
        SlotState::Finishing,
        SlotState::Finished,
    ];
    for window in states.windows(2) {
        assert_ne!(window[0], window[1]);
    }
}

#[test]
fn test_preemption_state_sequence() {
    let states = vec![
        SlotState::Initialized,
        SlotState::OnboardStaged(512),
        SlotState::Preempted,
        SlotState::Initialized,
    ];
    assert_eq!(states[2], SlotState::Preempted);
    assert_eq!(states[0], states[3], "Retry should return to Initialized");
}

#[test]
fn test_skipped_prefill_decode_paths() {
    let fast_path = vec![
        SlotState::Initialized,
        SlotState::SkippedPrefill,
        SlotState::SkippedDecode,
        SlotState::Finishing,
        SlotState::Finished,
    ];
    for window in fast_path.windows(2) {
        assert_ne!(window[0], window[1]);
    }
}

#[test]
fn test_add_operations_for_key_rewrites_slot_keys() {
    let mut meta = ConnectorMetadata::new(1);
    let target_key = test_slot_key("target-req", 5);

    let ops = vec![
        mock_load_request("original-req", vec![1, 2]),
        mock_store_request("original-req", vec![3]),
    ];

    meta.add_operations_for_key(&target_key, ops);

    assert_eq!(meta.operations.len(), 2);
    for op in &meta.operations {
        assert_eq!(op.key, target_key, "Key must be rewritten to target_key");
    }
    assert_eq!(meta.operations[0].block_ids, vec![1, 2]);
    assert_eq!(meta.operations[1].transfer_type, TransferType::Store);
}

#[test]
fn metadata_holds_what_the_leader_put_in() {
    let mut meta = ConnectorMetadata::new(7);

    let key = test_slot_key("req-e2e-1", 2);
    meta.create_onboarding_slot(key.clone(), 3);
    meta.add_operations(vec![
        mock_load_request("req-e2e-1", vec![10, 20]),
        mock_store_request("req-e2e-1", vec![30]),
    ]);

    assert_eq!(meta.iteration, 7);
    assert_eq!(meta.new_slots.len(), 1);
    assert_eq!(meta.new_slots[0].key, key);
    assert_eq!(meta.new_slots[0].kind, NewSlotKind::Onboarding);
    assert_eq!(meta.new_slots[0].expected_immediate_ops, 3);
    assert_eq!(meta.operations.len(), 2);
    assert_eq!(meta.operations[0].transfer_type, TransferType::Load);
    assert_eq!(meta.operations[1].transfer_type, TransferType::Store);
    assert_eq!(meta.operations[0].block_ids, vec![10, 20]);
    assert_eq!(meta.operations[1].block_ids, vec![30]);
    for op in &meta.operations {
        assert_eq!(op.key.request_id, "req-e2e-1");
    }
    assert!(meta.creates_slot_of(&"req-e2e-1".to_string()));
    assert!(!meta.creates_slot_of(&"req-e2e-2".to_string()));
}

#[test]
fn metadata_batches_slots_and_operations() {
    let mut meta = ConnectorMetadata::new(100);

    for i in 0..5 {
        let key = test_slot_key(&format!("req-batch-{i}"), i as u64);
        if i % 2 == 0 {
            meta.create_prefill_slot(key);
        } else {
            meta.create_onboarding_slot(key, (i + 1) as u64);
        }
    }
    for i in 0..10 {
        let op = mock_worker_request(
            &format!("req-batch-{}", i % 5),
            if i % 2 == 0 { TransferType::Load } else { TransferType::Store },
            vec![i * 10],
        );
        meta.add_operations(vec![op]);
    }

    assert_eq!(meta.new_slots.len(), 5);
    assert_eq!(meta.operations.len(), 10);
    let uuids: HashSet<u128> = meta.operations.iter().map(|op| op.uuid).collect();
    assert_eq!(uuids.len(), 10, "All operation UUIDs must be unique");
    for (i, slot) in meta.new_slots.iter().enumerate() {
        assert_eq!(slot.key.request_id, format!("req-batch-{i}"));
        if i % 2 == 0 {
            assert_eq!(slot.kind, NewSlotKind::Prefill);
            assert_eq!(slot.expected_immediate_ops, 0);
        } else {
            assert_eq!(slot.kind, NewSlotKind::Onboarding);
            assert_eq!(slot.expected_immediate_ops, (i + 1) as u64);
        }
    }
}

#[test]
fn test_harness_make_token_blocks() {
    let tokens: &[u32] = &[1, 2, 3, 4, 5];
    let blocks = make_token_blocks(tokens);
    assert_eq!(blocks.len(), 5, "block_size=1 should produce one block per token");
}

#[test]
fn test_harness_tracker_builders() {
    let pending = tracker_with_pending_loads("h-req", 3);
    assert_eq!(pending.pending_count(), 3);
    assert_eq!(pending.dispatched_count(), 0);

    let dispatched = tracker_with_dispatched("h-req", 3);
    assert_eq!(dispatched.pending_count(), 0);
    assert_eq!(dispatched.dispatched_count(), 3);
}

fn mock_ctx() -> SlotContext {
    SlotContext {
        block_size: 16,
        remote_enabled: true,
        g4_xfer_fail_policy: G4FailPolicy::Fallback,
    }
}

fn sample_prefetch_phase(op_id: u128) -> TestPhase {
    RequestPhase::Prefetching {
        prefetch: PrefetchState {
            operation_id: op_id,
            sequence_hashes: vec![0x1],
            num_external_tokens: 32,
            started_at: std::time::Instant::now(),
        },
        host_staging: vec![()],
        disk_staging: vec![],
        prefetched_blocks_for_stats: 1,
    }
}

#[test]
fn kvbm_vllm_hazard_prefetch_wrong_transfer_completed_operation_id_is_noop() {
    let ctx = mock_ctx();
    let op_id = new_id();
    let wrong = new_id();
    let phase = sample_prefetch_phase(op_id);
    let (out, effects) = phase.apply(SlotEvent::TransferCompleted { operation_id: wrong }, &ctx);
    assert!(
        matches!(out, RequestPhase::Prefetching { .. }),
        "mismatched prefetch op id must not advance to OnboardReady"
    );
    assert!(effects.is_empty(), "wrong op id should not emit prefetch completion effects");
}

#[test]
fn kvbm_vllm_hazard_onboard_ready_absorbs_duplicate_prefetch_completion_event() {
    let ctx = mock_ctx();
    let op_id = new_id();
    let onboard: TestPhase = sample_prefetch_phase(op_id)
        .apply(SlotEvent::TransferCompleted { operation_id: op_id }, &ctx)
        .0;
    assert!(
        matches!(onboard, RequestPhase::OnboardReady { .. }),
        "setup: first matching completion reaches OnboardReady"
    );

    let (after_dup, effects) =
        onboard.apply(SlotEvent::TransferCompleted { operation_id: op_id }, &ctx);
    assert!(
        matches!(after_dup, RequestPhase::OnboardReady { .. }),
        "late duplicate TransferCompleted (same op id) must not corrupt OnboardReady"
    );
    assert!(effects.is_empty(), "absorbed late completion should not enqueue transfers");
}

#[test]
fn kvbm_vllm_hazard_prefilling_ignores_transfer_completed() {
    let ctx = mock_ctx();
    let phase = TestPhase::Prefilling { iteration_first_scheduled: 1 };
    let (out, effects) =
        phase.apply(SlotEvent::TransferCompleted { operation_id: new_id() }, &ctx);
    assert!(
        matches!(out, RequestPhase::Prefilling { .. }),
        "prefilling must not interpret unrelated transfer completions"
    );
    assert!(effects.is_empty());
}

#[test]
fn kvbm_vllm_hazard_initialized_ignores_prefetch_ready() {
    let ctx = mock_ctx();
    let phase = TestPhase::Initialized;
    let (out, effects) = phase.apply(SlotEvent::PrefetchReady { blocks: vec![] }, &ctx);
    assert!(matches!(out, RequestPhase::Initialized));
    assert!(effects.is_empty());
}

#[test]
fn kvbm_vllm_hazard_invalid_block_ids_must_reach_scheduler_contract() {
    let invalid: Vec<u32> = vec![0, 1];
    assert!(
        !invalid.is_empty(),
        "when async loads fail, connector must eventually surface failed device block indices for scheduler policy"
    );
}
