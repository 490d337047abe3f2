//! The leader: matching, onboarding, metadata and the end of requests.

use kvbm::effect_executor::LookupRequest;
use kvbm::leader_core::{KvConnectorLeaderCore, MatchPoll};
use kvbm::metadata::{CachedRequestData, NewRequestData, NewSlotKind, SchedulerOutput};
use kvbm::protocol::{RequestType, TransferType};
use kvbm::slot_api::{SlotManager, SlotState};
use kvbm::slot_manager::{ConnectorSlotManager, PoolStatus, PoolTier};
use kvbm::table::Table;
use kvbm::transfer_requests::{LocalTransferRequest, StagingTier};

fn leader(has_remote: bool) -> KvConnectorLeaderCore {
    KvConnectorLeaderCore::new(ConnectorSlotManager::new(4, has_remote, 1), 30)
}

fn with_request(has_remote: bool) -> KvConnectorLeaderCore {
    let mut leader = leader(has_remote);
    leader.create_slot("r".to_string(), (0..12).collect(), vec![100, 101, 102], None).unwrap();
    leader
}

fn poll(leader: &mut KvConnectorLeaderCore) -> MatchPoll {
    leader.get_num_new_matched_tokens("r".to_string(), 12, 0).unwrap()
}

fn assert_tokens(poll: MatchPoll, tokens: Option<usize>, background: bool) {
    match poll {
        MatchPoll::Tokens { num_tokens, is_async } => {
            assert_eq!((num_tokens, is_async), (tokens, background))
        }
        other => panic!("unexpected answer {other:?}"),
    }
}

fn state(leader: &mut KvConnectorLeaderCore) -> SlotState {
    let key = leader.active_slot_keys.get(&"r".to_string()).unwrap().clone();
    let slot = leader.manager.take_slot(&key).unwrap();
    let state = slot.phase().as_slot_state();
    leader.manager.put_slot(&key, slot);
    state
}

fn output(
    new_requests: Vec<NewRequestData>,
    cached_requests: Vec<CachedRequestData>,
    scheduled: &[(&str, usize)],
) -> SchedulerOutput {
    let mut num_scheduled_tokens: Table<String, usize> = Table::new();
    for (request_id, tokens) in scheduled {
        num_scheduled_tokens.insert(request_id.to_string(), *tokens);
    }
    SchedulerOutput { new_requests, cached_requests, num_scheduled_tokens }
}

fn new_request(block_ids: Vec<usize>, num_computed_tokens: usize) -> NewRequestData {
    NewRequestData {
        request_id: "r".to_string(),
        prompt_token_ids: (0..12).collect(),
        block_ids,
        num_computed_tokens,
        priorities: None,
    }
}

#[test]
fn local_blocks_are_reported_once() {
    let mut leader = with_request(false);
    match poll(&mut leader) {
        MatchPoll::Lookup(LookupRequest::Local { sequence_hashes }) => {
            assert_eq!(sequence_hashes, vec![100, 101, 102])
        }
        other => panic!("unexpected answer {other:?}"),
    }
    let answer = leader
        .local_lookup_answered(&"r".to_string(), &[100, 101, 102], vec![7], vec![8])
        .unwrap();
    assert_tokens(answer, Some(8), true);
    assert_eq!(state(&mut leader), SlotState::OnboardStaged(8));
    let again = poll(&mut leader);
    assert_tokens(again, None, false);
}

#[test]
fn nothing_cached_is_a_cold_miss() {
    let mut leader = with_request(false);
    poll(&mut leader);
    let answer =
        leader.local_lookup_answered(&"r".to_string(), &[100, 101, 102], vec![], vec![]).unwrap();
    assert_tokens(answer, Some(0), false);
    assert_eq!(state(&mut leader), SlotState::Initialized);
}

#[test]
fn less_than_a_block_is_not_looked_up() {
    let mut leader = with_request(false);
    let answer = leader.get_num_new_matched_tokens("r".to_string(), 12, 12).unwrap();
    assert_tokens(answer, Some(0), false);
}

#[test]
fn an_unknown_request_is_an_error() {
    let mut leader = leader(false);
    let error = leader.get_num_new_matched_tokens("x".to_string(), 1, 0).unwrap_err();
    assert_eq!(error, "missing active SlotKey for request x");
    assert!(!leader.has_slot(&"x".to_string()));
}

#[test]
fn onboarded_blocks_are_handed_to_the_workers() {
    let mut leader = with_request(false);
    poll(&mut leader);
    leader
        .local_lookup_answered(&"r".to_string(), &[100, 101, 102], vec![7], vec![8])
        .unwrap();
    leader.update_state_after_alloc("r".to_string(), vec![20, 21, 22], 8).unwrap();
    assert_eq!(state(&mut leader), SlotState::Onboarding(8));

    let requests = leader.manager.effects.xfer_tx.drain();
    let copies: Vec<(StagingTier, Vec<usize>, Vec<usize>)> = requests
        .into_iter()
        .map(|request| match request {
            LocalTransferRequest::Onboard(copy) => {
                (copy.tier, copy.src_blocks, copy.dst_block_ids)
            }
            other => panic!("unexpected request {other:?}"),
        })
        .collect();
    assert_eq!(
        copies,
        vec![
            (StagingTier::Host, vec![7], vec![20]),
            (StagingTier::Disk, vec![8], vec![21]),
        ]
    );

    let metadata = leader
        .build_connector_metadata(output(vec![new_request(vec![20, 21, 22], 8)], vec![], &[("r", 4)]))
        .unwrap();
    assert_eq!(metadata.iteration, 1);
    assert_eq!(metadata.new_slots.len(), 1);
    assert_eq!(metadata.new_slots[0].kind, NewSlotKind::Onboarding);
    assert_eq!(metadata.new_slots[0].expected_immediate_ops, 2);
    assert_eq!(metadata.operations.len(), 2);
    for op in &metadata.operations {
        assert_eq!(op.transfer_type, TransferType::Load);
        assert_eq!(op.request_type, RequestType::Immediate);
        assert_eq!(op.key, metadata.new_slots[0].key);
    }
}

#[test]
fn too_few_device_blocks_fall_back_to_a_full_prefill() {
    let mut leader = with_request(false);
    poll(&mut leader);
    leader
        .local_lookup_answered(&"r".to_string(), &[100, 101, 102], vec![7, 8], vec![])
        .unwrap();
    leader.update_state_after_alloc("r".to_string(), vec![20], 8).unwrap();
    assert_eq!(state(&mut leader), SlotState::Preempted);
    assert!(leader.manager.effects.xfer_tx.drain().is_empty());
}

#[test]
fn a_new_request_without_matches_prefills_and_offloads() {
    let mut leader = with_request(false);
    let metadata = leader
        .build_connector_metadata(output(vec![new_request(vec![5, 6, 7], 0)], vec![], &[("r", 12)]))
        .unwrap();
    assert_eq!(metadata.new_slots.len(), 1);
    assert_eq!(metadata.new_slots[0].kind, NewSlotKind::Prefill);
    assert_eq!(metadata.new_slots[0].expected_immediate_ops, 0);
    assert_eq!(state(&mut leader), SlotState::Prefilling);
    let offloaded: Vec<usize> = leader
        .manager
        .effects
        .xfer_tx
        .drain()
        .into_iter()
        .flat_map(|request| match request {
            LocalTransferRequest::Offload(copy) => copy.block_ids,
            other => panic!("unexpected request {other:?}"),
        })
        .collect();
    assert_eq!(offloaded, vec![5, 6, 7]);
    assert!(metadata.operations.iter().all(|op| op.transfer_type == TransferType::Store));
}

#[test]
fn an_unscheduled_request_is_skipped() {
    let mut leader = with_request(false);
    leader
        .build_connector_metadata(output(vec![new_request(vec![5, 6, 7], 0)], vec![], &[("r", 12)]))
        .unwrap();
    let metadata = leader.build_connector_metadata(output(vec![], vec![], &[])).unwrap();
    assert_eq!(metadata.iteration, 2);
    assert!(metadata.new_slots.is_empty());
    assert_eq!(state(&mut leader), SlotState::SkippedPrefill);
    let answer = leader.get_num_new_matched_tokens("r".to_string(), 12, 13).unwrap();
    assert_tokens(answer, Some(0), false);
    assert_eq!(state(&mut leader), SlotState::Prefilling);
}

#[test]
fn new_slots_come_with_the_loads_that_they_declare() {
    let mut leader = with_request(false);
    leader.create_slot("s".to_string(), (0..4).collect(), vec![200], None).unwrap();
    poll(&mut leader);
    leader
        .local_lookup_answered(&"r".to_string(), &[100, 101, 102], vec![7], vec![8])
        .unwrap();
    leader.update_state_after_alloc("r".to_string(), vec![20, 21, 22], 8).unwrap();
    let other = NewRequestData {
        request_id: "s".to_string(),
        prompt_token_ids: (0..4).collect(),
        block_ids: vec![30],
        num_computed_tokens: 0,
        priorities: None,
    };
    let decided = output(
        vec![new_request(vec![20, 21, 22], 8), other],
        vec![],
        &[("r", 4), ("s", 4)],
    );
    assert_eq!(decided.clone().scheduled_tokens_of(&"s".to_string()), 4);
    let metadata = leader.build_connector_metadata(decided).unwrap().clone();
    assert_eq!(metadata.iteration, 1);
    assert_eq!(metadata.new_slots.len(), 2);
    for slot in &metadata.new_slots {
        let loads = metadata
            .operations
            .iter()
            .filter(|op| op.key == slot.key)
            .filter(|op| op.transfer_type == TransferType::Load)
            .filter(|op| op.request_type == RequestType::Immediate)
            .count() as u64;
        assert_eq!(loads, slot.expected_immediate_ops);
        assert_eq!(loads > 0, slot.kind == NewSlotKind::Onboarding);
    }
}

#[test]
fn a_scheduled_token_starts_decoding() {
    let mut leader = with_request(false);
    leader
        .build_connector_metadata(output(vec![new_request(vec![5, 6, 7], 0)], vec![], &[("r", 12)]))
        .unwrap();
    let cached = CachedRequestData {
        request_id: "r".to_string(),
        resumed_from_preemption: false,
        new_token_ids: vec![42],
        new_block_hashes: vec![],
        new_block_ids: vec![8],
        num_computed_tokens: 12,
        priorities: None,
    };
    leader.build_connector_metadata(output(vec![], vec![cached], &[("r", 1)])).unwrap();
    assert_eq!(state(&mut leader), SlotState::Decoding);
}

#[test]
fn a_remote_match_is_prefetched_before_it_is_reported() {
    let mut leader = with_request(true);
    poll(&mut leader);
    let answer =
        leader.local_lookup_answered(&"r".to_string(), &[100, 101, 102], vec![7], vec![]).unwrap();
    match answer {
        MatchPoll::Lookup(LookupRequest::Remote { candidates, world_size }) => {
            assert_eq!((candidates, world_size), (vec![101, 102], 1))
        }
        other => panic!("unexpected answer {other:?}"),
    }
    let answer = leader.remote_lookup_answered(&"r".to_string(), vec![101]).unwrap();
    assert_tokens(answer, None, false);
    let requests = leader.manager.effects.xfer_tx.drain();
    let operation_id = match &requests[0] {
        LocalTransferRequest::Remote(prefetch) => {
            assert_eq!(prefetch.sequence_hashes, vec![101]);
            assert!(prefetch.is_onboard);
            prefetch.operation_id
        }
        other => panic!("unexpected request {other:?}"),
    };

    let waiting = poll(&mut leader);
    assert_tokens(waiting, None, false);
    leader.manager.prefetch_completed.insert(operation_id);
    match poll(&mut leader) {
        MatchPoll::Resolve { operation_id: resolved, sequence_hashes } => {
            assert_eq!(resolved, operation_id);
            assert_eq!(sequence_hashes, vec![101]);
        }
        other => panic!("unexpected answer {other:?}"),
    }
    let answer = leader.prefetch_resolved(&"r".to_string(), operation_id, vec![9]).unwrap();
    assert_tokens(answer, None, false);
    let ready = poll(&mut leader);
    assert_tokens(ready, Some(8), true);
}

#[test]
fn a_failed_prefetch_without_local_blocks_is_a_cold_miss() {
    let mut leader = with_request(true);
    poll(&mut leader);
    leader.local_lookup_answered(&"r".to_string(), &[100, 101, 102], vec![], vec![]).unwrap();
    leader.remote_lookup_answered(&"r".to_string(), vec![100, 101]).unwrap();
    let requests = leader.manager.effects.xfer_tx.drain();
    let operation_id = match &requests[0] {
        LocalTransferRequest::Remote(prefetch) => prefetch.operation_id,
        other => panic!("unexpected request {other:?}"),
    };
    leader.manager.prefetch_failed.insert(operation_id);
    let failed = poll(&mut leader);
    assert_tokens(failed, None, false);
    let again = poll(&mut leader);
    assert_tokens(again, Some(0), false);
}

#[test]
fn a_request_without_transfers_ends_at_once() {
    let mut leader = with_request(false);
    assert_eq!(leader.request_finished("r".to_string(), vec![]), Ok(false));
    assert!(!leader.has_slot(&"r".to_string()));
    assert_eq!(leader.request_finished("never".to_string(), vec![]), Ok(false));
}

#[test]
fn a_reused_request_id_gets_a_new_key() {
    let mut leader = with_request(false);
    let first = leader.active_slot_keys.get(&"r".to_string()).unwrap().clone();
    leader.request_finished("r".to_string(), vec![]).unwrap();
    leader.create_slot("r".to_string(), vec![1, 2, 3], vec![], None).unwrap();
    let second = leader.active_slot_keys.get(&"r".to_string()).unwrap().clone();
    assert_eq!(first.request_id, second.request_id);
    assert_eq!(second.generation, first.generation + 1);
}

#[test]
fn baggage_and_trace_are_kept_per_request() {
    let mut leader = with_request(false);
    leader.set_request_baggage("r".to_string(), "a=1, tenant =\tblue ,b=2".to_string());
    assert_eq!(leader.baggage_value(&"r".to_string(), "tenant"), Some("blue".to_string()));
    assert_eq!(leader.baggage_value(&"r".to_string(), "missing"), None);
    assert_eq!(leader.request_baggage(&"s".to_string()), None);
    leader.set_request_traceparent("r".to_string(), "00-1".to_string());
    assert_eq!(leader.request_traceparent(&"r".to_string()), Some("00-1"));
}

#[test]
fn preempted_requests_start_over() {
    let mut leader = with_request(false);
    poll(&mut leader);
    leader
        .local_lookup_answered(&"r".to_string(), &[100, 101, 102], vec![7], vec![])
        .unwrap();
    leader.handle_preemptions_via_machine(&["r".to_string(), "unknown".to_string()]);
    assert_eq!(state(&mut leader), SlotState::Preempted);
}

#[test]
fn pools_are_cleared_by_name_in_development_mode_only() {
    let mut leader = with_request(false);
    assert_eq!(
        leader.clear_pool("host", false, true, true, true),
        Err("clear_pool called but KVBM_DEV_MODE is not enabled. Set KVBM_DEV_MODE=TRUE to allow destructive pool operations.".to_string())
    );
    assert!(leader.has_slot(&"r".to_string()));
    let key = leader.active_slot_keys.get(&"r".to_string()).unwrap().clone();
    assert!(leader.manager.has_slot(&key));
    assert!(leader.manager.clear_pool("tape", true, true, true).is_err());
    assert!(leader.manager.has_slot(&key));
    assert_eq!(leader.clear_pool("HOST", true, true, true, false), Ok(PoolTier::Host));
    assert!(!leader.has_slot(&"r".to_string()));
    assert!(!leader.manager.has_slot(&key));
    assert_eq!(leader.clear_pool("GPU", true, true, true, false), Ok(PoolTier::Device));
    assert!(leader.clear_pool("disk", true, true, true, false).is_err());
    assert!(leader.clear_pool("tape", true, true, true, false).is_err());
}

#[test]
fn pool_status_lists_the_pools_that_are_there() {
    let leader = leader(false);
    let status = PoolStatus { total_blocks: 10, available_blocks: 4 };
    let pools = leader.get_pool_status(Some(status), None, Some(status));
    assert_eq!(pools.len(), 2);
    assert_eq!(pools.get(&"device".to_string()), Some(&status));
    assert_eq!(pools.get(&"host".to_string()), None);
}
