//! Slots at work: device blocks, offloads, effects and timeouts.

use kvbm::effect_context::EffectContext;
use kvbm::effect_executor::{
    apply_and_execute, complete_remote_lookup, execute_effect, execute_effects,
    execute_effects_recursive, EffectResult, LookupRequest,
};
use kvbm::leader_core::{is_overdue, slot_running_since, KvConnectorLeaderCore, MatchPoll};
use kvbm::protocol::{RequestType, TransferType};
use kvbm::slot_api::{ExternallyManagedDeviceSlot, Slot, SlotError, SlotManager, SlotState};
use kvbm::slot_machine::{
    DisclosureState, G4FailPolicy, OffloadBlocks, RequestPhase, SlotContext, SlotEffect, SlotEvent,
};
use kvbm::slot_manager::ConnectorSlotManager;
use kvbm::slot_runtime::{VllmConnectorSlot, VllmSlotEffect};
use kvbm::tokens::TokenBlockSequence;
use kvbm::transfer_requests::{LocalTransferRequest, StagingTier};

const BLOCK: usize = 4;

/// A slot with `blocks` full blocks whose hashes are 100, 101 and so on.
fn slot(blocks: usize) -> VllmConnectorSlot {
    let tokens: Vec<u32> = (0..(blocks * BLOCK) as u32).collect();
    let hashes: Vec<u64> = (0..blocks as u64).map(|i| 100 + i).collect();
    VllmConnectorSlot::new("r".to_string(), TokenBlockSequence::new(tokens, BLOCK, hashes), BLOCK)
}

fn ctx(remote_enabled: bool) -> SlotContext {
    SlotContext { block_size: BLOCK, remote_enabled, g4_xfer_fail_policy: G4FailPolicy::Fallback }
}

fn staged(host: Vec<usize>, disk: Vec<usize>, remote: Vec<u64>) -> RequestPhase<usize, usize> {
    RequestPhase::OnboardReady {
        num_external_tokens: (host.len() + disk.len() + remote.len()) * BLOCK,
        host_staging: host,
        disk_staging: disk,
        remote_hashes: remote,
        disclosure: DisclosureState::Disclosed,
        prefetched_blocks_for_stats: 0,
    }
}

fn offload(request: &LocalTransferRequest) -> (&Vec<usize>, &Vec<u32>, &Vec<u64>) {
    match request {
        LocalTransferRequest::Offload(request) => {
            (&request.block_ids, &request.priorities, &request.sequence_hashes)
        }
        other => panic!("unexpected request {other:?}"),
    }
}

/// Takes over `scheduled` tokens after `computed` ones, on the device blocks `ids`.
fn schedule(
    slot: &mut VllmConnectorSlot,
    effects: &mut EffectContext,
    ids: &[usize],
    computed: usize,
    scheduled: usize,
    priorities: Option<&[u32]>,
) -> Result<(), SlotError> {
    slot.apply_scheduler_output_execute_effects(
        &[],
        &[],
        ids,
        computed,
        scheduled,
        priorities,
        &ctx(false),
        effects,
    )
}

#[test]
fn blocks_are_offloaded_once() {
    let (mut slot, mut effects) = (slot(3), EffectContext::new(false, 1));
    schedule(&mut slot, &mut effects, &[10, 11, 12], 0, 9, None).unwrap();
    assert_eq!(slot.evaluated_blocks, 2);
    schedule(&mut slot, &mut effects, &[12], 9, 3, None).unwrap();
    assert_eq!(slot.device_blocks, vec![10, 11, 12]);
    let requests = effects.xfer_tx.drain();
    assert_eq!(requests.len(), 2);
    assert_eq!(offload(&requests[0]), (&vec![10, 11], &vec![0, 0], &vec![100, 101]));
    assert_eq!(offload(&requests[1]), (&vec![12], &vec![0], &vec![102]));
    let ops = effects.take_pending_worker_ops(&slot.slot_key()).unwrap();
    assert_eq!(ops.len(), 2);
    assert_eq!(ops[0].transfer_type, TransferType::Store);
    assert_eq!(ops[0].request_type, RequestType::Scheduled);
    assert_eq!(ops[1].block_ids, vec![12]);
    assert_ne!(ops[0].uuid, ops[1].uuid);
    assert_eq!(effects.transfer_signal.is_stores_done(&"r".to_string()), Some(false));
}

#[test]
fn a_block_of_low_priority_ends_the_offload() {
    let (mut slot, mut effects) = (slot(3), EffectContext::new(false, 1));
    slot.offload_min_priority = 5;
    schedule(&mut slot, &mut effects, &[10, 11, 12], 0, 12, Some(&[9, 3, 9])).unwrap();
    assert_eq!(slot.offload_terminated_at_block, Some(1));
    assert_eq!(slot.evaluated_blocks, 3);
    let requests = effects.xfer_tx.drain();
    assert_eq!(offload(&requests[0]), (&vec![10], &vec![9], &vec![100]));
    schedule(&mut slot, &mut effects, &[13], 12, 4, Some(&[9])).unwrap();
    assert!(effects.xfer_tx.drain().is_empty());
}

#[test]
fn priorities_of_the_first_chunk_hold_for_later_ones() {
    let (mut slot, mut effects) = (slot(2), EffectContext::new(false, 1));
    slot.offload_min_priority = 5;
    schedule(&mut slot, &mut effects, &[10, 11], 0, 4, Some(&[7, 8])).unwrap();
    schedule(&mut slot, &mut effects, &[], 4, 4, None).unwrap();
    let requests = effects.xfer_tx.drain();
    assert_eq!(offload(&requests[1]), (&vec![11], &vec![8], &vec![101]));
    assert_eq!(slot.offload_terminated_at_block, None);
}

#[test]
fn blocks_that_are_not_known_pass_without_offload() {
    let (mut slot, mut effects) = (slot(2), EffectContext::new(false, 1));
    schedule(&mut slot, &mut effects, &[10], 0, 8, None).unwrap();
    assert_eq!(slot.evaluated_blocks, 2);
    assert!(effects.xfer_tx.drain().is_empty());
}

#[test]
fn a_slot_that_nothing_can_keep_stops_offloading() {
    let (mut slot, mut effects) = (slot(2), EffectContext::new(false, 1));
    assert!(matches!(slot.offload_capacity_shortage(2), Ok(None)));
    slot.mark_retention_unavailable();
    assert_eq!(slot.offload_terminated_at_block, Some(0));
    schedule(&mut slot, &mut effects, &[10, 11], 0, 8, None).unwrap();
    assert!(effects.xfer_tx.drain().is_empty());
    slot.evaluated_blocks = 2;
    slot.append_mutable_device_blocks(&[20]).unwrap();
    assert_eq!((slot.device_blocks.clone(), slot.evaluated_blocks), (vec![20], 2));
}

#[test]
fn an_offload_needs_the_transfer_engine() {
    let (mut slot, mut effects) = (slot(2), EffectContext::new(false, 1));
    effects.xfer_tx.close();
    let error = schedule(&mut slot, &mut effects, &[10, 11], 0, 8, None).unwrap_err();
    assert_eq!(
        error.to_string(),
        "slot operation failed: transfer engine unavailable: channel closed; aborting offload"
    );
    assert_eq!(slot.evaluated_blocks, 0);
    assert!(effects.take_pending_worker_ops(&slot.slot_key()).is_none());
}

#[test]
fn a_shorter_table_takes_back_what_was_considered() {
    let mut slot = slot(3);
    slot.append_mutable_device_blocks(&[10, 11, 12]).unwrap();
    slot.evaluated_blocks = 3;
    slot.append_mutable_device_blocks(&[10, 11, 12, 13]).unwrap();
    assert_eq!((slot.num_device_blocks_allocated(), slot.evaluated_blocks), (4, 3));
    slot.append_mutable_device_blocks(&[20, 21, 22, 23]).unwrap();
    assert_eq!((slot.device_blocks.clone(), slot.evaluated_blocks), (vec![20, 21, 22, 23], 3));
    slot.append_mutable_device_blocks(&[20, 21]).unwrap();
    assert_eq!((slot.device_blocks.clone(), slot.evaluated_blocks), (vec![20, 21], 2));
}

#[test]
fn reported_blocks_that_overlap_are_merged() {
    let mut slot = slot(4);
    slot.device_blocks = vec![1, 2, 3];
    let none: &[u64] = &[];
    slot.apply_scheduler_output(&[], none, &[2, 3, 4], 0, 4, None).unwrap();
    assert_eq!(slot.device_blocks, vec![1, 2, 3, 4]);
    slot.apply_scheduler_output(&[], none, &[3, 9], 0, 4, None).unwrap();
    assert_eq!(slot.device_blocks, vec![1, 2, 3, 4, 3, 9]);
    assert_eq!(slot.computed_tokens(), 4);
}

#[test]
fn only_a_running_request_is_skipped() {
    let mut slot = slot(1);
    assert_eq!(
        slot.mark_as_skipped_prefill().unwrap_err().to_string(),
        "slot is in an invalid state: cannot mark slot as skipped prefill in state Initialized"
    );
    slot.mark_as_prefilling(3).unwrap();
    assert_eq!(
        slot.mark_as_skipped_decode().unwrap_err().to_string(),
        "slot is in an invalid state: cannot mark slot as skipped decode in state Prefilling"
    );
    slot.mark_as_skipped_prefill().unwrap();
    assert_eq!(slot.state(), SlotState::SkippedPrefill);
    slot.mark_as_decoding(4).unwrap();
    slot.mark_as_skipped_decode().unwrap();
    assert_eq!(slot.state(), SlotState::SkippedDecode);
    slot.mark_as_skipped().unwrap();
    assert_eq!(slot.state(), SlotState::SkippedDecode);
}

#[test]
fn the_position_stays_inside_the_sequence() {
    let mut slot = slot(2);
    slot.advance_computed_position(8).unwrap();
    assert_eq!(
        slot.advance_computed_position(1).unwrap_err().to_string(),
        "slot operation failed: cannot advance computed position from 8 by 1 tokens, \
         total tokens is 8"
    );
    assert_eq!(slot.computed_tokens(), 8);
}

#[test]
fn a_preempted_slot_forgets_its_device() {
    let mut slot = slot(2);
    slot.append_mutable_device_blocks(&[10, 11]).unwrap();
    slot.evaluated_blocks = 2;
    slot.mark_as_decoding(1).unwrap();
    slot.reset_after_preemption();
    assert_eq!(slot.state(), SlotState::Preempted);
    assert_eq!((slot.num_device_blocks_allocated(), slot.evaluated_blocks), (0, 0));
    slot.reset();
    assert_eq!(slot.state(), SlotState::Initialized);
    assert!(slot.take_pending_operations().is_none());
}

#[test]
fn an_onboard_fills_the_destination_tier_by_tier() {
    let (mut slot, mut effects) = (slot(4), EffectContext::new(true, 1));
    slot.set_phase(staged(vec![1, 2], vec![3], vec![103]));
    slot.trigger_onboarding_execute_effects(
        16,
        Some(&[20, 21, 22, 23]),
        &ctx(true),
        &mut effects,
    )
    .unwrap();
    assert_eq!(slot.state(), SlotState::Onboarding(16));
    assert_eq!(slot.evaluated_blocks, 4);
    let requests = effects.xfer_tx.drain();
    match &requests[0] {
        LocalTransferRequest::Onboard(request) => {
            assert_eq!(request.tier, StagingTier::Host);
            assert_eq!((&request.src_blocks, &request.dst_block_ids), (&vec![1, 2], &vec![20, 21]));
        }
        other => panic!("unexpected request {other:?}"),
    }
    match &requests[1] {
        LocalTransferRequest::Onboard(request) => {
            assert_eq!(request.tier, StagingTier::Disk);
            assert_eq!((&request.src_blocks, &request.dst_block_ids), (&vec![3], &vec![22]));
        }
        other => panic!("unexpected request {other:?}"),
    }
    match &requests[2] {
        LocalTransferRequest::Remote(request) => {
            assert_eq!(request.sequence_hashes, vec![103]);
            assert_eq!(request.device_block_ids, vec![23]);
            let blocks = request.token_blocks.as_ref().unwrap();
            assert_eq!(blocks.len(), 1);
            assert_eq!(blocks[0].sequence_hash(), 103);
        }
        other => panic!("unexpected request {other:?}"),
    }
    let ops = effects.take_pending_worker_ops(&slot.slot_key()).unwrap();
    let blocks: Vec<Vec<usize>> = ops.into_iter().map(|op| op.block_ids).collect();
    assert_eq!(blocks, vec![vec![20, 21], vec![22], vec![23]]);
    assert_eq!(effects.transfer_signal.is_loads_done(&"r".to_string()), Some(false));
}

#[test]
fn an_onboard_that_does_not_fit_preempts_the_request() {
    let (mut slot, mut effects) = (slot(2), EffectContext::new(false, 1));
    slot.set_phase(staged(vec![1, 2], vec![], vec![]));
    slot.trigger_onboarding_execute_effects(8, Some(&[20]), &ctx(false), &mut effects).unwrap();
    assert_eq!(slot.state(), SlotState::Preempted);
    assert!(effects.xfer_tx.drain().is_empty());
}

#[test]
fn an_onboard_without_the_transfer_engine_fails() {
    for (host, disk, remote, tier) in [
        (vec![1], vec![], vec![], "host"),
        (vec![], vec![1], vec![], "disk"),
        (vec![], vec![], vec![100], "remote"),
    ] {
        let (mut slot, mut effects) = (slot(1), EffectContext::new(false, 1));
        effects.xfer_tx.close();
        slot.set_phase(staged(host, disk, remote));
        let error = slot
            .trigger_onboarding_execute_effects(4, Some(&[20]), &ctx(false), &mut effects)
            .unwrap_err();
        assert_eq!(
            error.to_string(),
            format!("slot operation failed: failed to send {tier} onboard request: channel closed")
        );
    }
}

#[test]
fn onboards_are_timed_whichever_way_they_start() {
    let before = std::time::Instant::now();
    let mut slots = Vec::new();

    let (mut carried_out, mut effects) = (slot(1), EffectContext::new(false, 1));
    carried_out.set_phase(staged(vec![1], vec![], vec![]));
    carried_out
        .trigger_onboarding_execute_effects(4, Some(&[20]), &ctx(false), &mut effects)
        .unwrap();
    slots.push(carried_out);

    let mut refused = slot(1);
    effects.xfer_tx.close();
    refused.set_phase(staged(vec![1], vec![], vec![]));
    assert!(refused
        .trigger_onboarding_execute_effects(4, Some(&[20]), &ctx(false), &mut effects)
        .is_err());
    slots.push(refused);

    let mut without_effects = slot(1);
    without_effects.append_mutable_device_blocks(&[20]).unwrap();
    without_effects.set_phase(staged(vec![1], vec![], vec![]));
    assert!(slot_running_since(&without_effects).is_none());
    without_effects.trigger_onboarding(4).unwrap();
    slots.push(without_effects);

    let after = std::time::Instant::now();
    for mut slot in slots {
        assert_eq!(slot.state(), SlotState::Onboarding(4));
        let since = *slot_running_since(&slot).unwrap();
        assert!(before <= since && since <= after);
        let phase = slot.take_phase();
        assert!(slot_running_since(&slot).is_none());
        slot.set_phase(phase);
        assert_eq!(slot_running_since(&slot), Some(&since));

        slot.mark_as_decoding(1).unwrap();
        assert!(slot_running_since(&slot).is_none());
        slot.set_phase(staged(vec![1], vec![], vec![]));
        slot.trigger_onboarding(4).unwrap();
        assert!(*slot_running_since(&slot).unwrap() >= after);
    }
}

#[test]
fn an_onboard_event_starts_the_clock_of_its_slot() {
    let mut manager = ConnectorSlotManager::new(BLOCK, false, 1);
    let key = kvbm::protocol::SlotKey::new("r".to_string(), 0);
    manager.create_slot(&key, vec![1, 2, 3, 4], vec![100]).unwrap();
    let mut slot = manager.take_slot(&key).unwrap();
    slot.set_phase(staged(vec![1], vec![], vec![]));
    manager.put_slot(&key, slot);
    let event = SlotEvent::AllocCompleted { block_ids: vec![20], num_external_tokens: 4 };
    manager.apply_event_to_slot(&key, event).unwrap();
    let slot = manager.take_slot(&key).unwrap();
    assert_eq!(slot.state(), SlotState::Onboarding(4));
    assert!(slot_running_since(&slot).is_some());
}

#[test]
fn an_onboard_that_was_never_sent_is_given_up() {
    let id = "r".to_string();
    for (timeout_secs, expected) in [(3600, SlotState::Onboarding(4)), (0, SlotState::Preempted)] {
        let manager = ConnectorSlotManager::new(BLOCK, false, 1);
        let mut leader = KvConnectorLeaderCore::new(manager, timeout_secs);
        leader.create_slot(id.clone(), (0..8).collect(), vec![100, 101], None).unwrap();
        leader.get_num_new_matched_tokens(id.clone(), 8, 0).unwrap();
        leader.local_lookup_answered(&id, &[100, 101], vec![7], vec![]).unwrap();
        leader.manager.effects.xfer_tx.close();
        assert!(leader.update_state_after_alloc(id.clone(), vec![20, 21], 4).is_err());
        assert_eq!(state(&mut leader), SlotState::Onboarding(4));
        let start = std::time::Instant::now();
        while start.elapsed().as_nanos() == 0 {}
        let _ = leader.get_num_new_matched_tokens(id.clone(), 8, 0);
        assert_eq!(state(&mut leader), expected);
    }
}

#[test]
fn an_offload_effect_covers_the_blocks_evaluated_last() {
    let (mut slot, mut effects) = (slot(3), EffectContext::new(false, 1));
    slot.evaluated_blocks = 3;
    let blocks = OffloadBlocks { block_ids: vec![11, 12], priorities: vec![1, 2] };
    let result =
        execute_effect(SlotEffect::EnqueueOffloadTransfer(blocks), &mut slot, &mut effects);
    assert!(matches!(result, Ok(EffectResult::Done)));
    let requests = effects.xfer_tx.drain();
    assert_eq!(offload(&requests[0]), (&vec![11, 12], &vec![1, 2], &vec![101, 102]));
    effects.xfer_tx.close();
    let blocks = OffloadBlocks { block_ids: vec![11], priorities: vec![1] };
    let error =
        execute_effect(SlotEffect::EnqueueOffloadTransfer(blocks), &mut slot, &mut effects);
    assert_eq!(error.unwrap_err(), "failed to send offload request: channel closed");
}

#[test]
fn statistics_are_read_from_the_slot() {
    let (mut slot, mut effects) = (slot(3), EffectContext::new(false, 1));
    slot.record_cached_host_tokens(8);
    slot.record_cached_disk_tokens(4);
    slot.tokens_cached_from_remote = 5;
    slot.total_blocks_queried = 9;
    let record: VllmSlotEffect = SlotEffect::RecordCacheStats {
        host_blocks: 0,
        disk_blocks: 0,
        remote_blocks: 0,
        prefetched_blocks: 0,
        total_queried: 0,
    };
    let results = execute_effects(
        vec![record, SlotEffect::MatchDeferred, SlotEffect::ReleaseStaging],
        &mut slot,
        &mut effects,
    )
    .unwrap();
    assert!(matches!(
        results.as_slice(),
        [EffectResult::Done, EffectResult::MatchDeferred, EffectResult::Done]
    ));
    let stats = effects.cache_stats[0];
    assert_eq!((stats.host, stats.disk, stats.remote, stats.total), (2, 1, 1, 9));
}

#[test]
fn a_lookup_without_blocks_is_over_at_once() {
    let (mut slot, mut effects) = (slot(2), EffectContext::new(false, 1));
    let event = SlotEvent::AcquireMatches { num_computed_tokens: 8 };
    let results = apply_and_execute(&mut slot, event, &ctx(false), &mut effects).unwrap();
    assert!(matches!(results.as_slice(), [EffectResult::MatchNone]));
    assert_eq!(slot.state(), SlotState::Initialized);
}

#[test]
fn a_lookup_asks_for_what_is_not_computed() {
    let (mut slot, mut effects) = (slot(3), EffectContext::new(false, 1));
    let effect: VllmSlotEffect = SlotEffect::RunLocalLookup { num_computed_tokens: 5 };
    let mut results =
        execute_effects_recursive(vec![effect], &mut slot, &ctx(false), &mut effects).unwrap();
    match results.pop() {
        Some(EffectResult::Lookup(LookupRequest::Local { sequence_hashes })) => {
            assert_eq!(sequence_hashes, vec![101, 102])
        }
        other => panic!("unexpected result {other:?}"),
    }
}

#[test]
fn found_blocks_are_prefetched_without_a_destination() {
    let (mut slot, mut effects) = (slot(3), EffectContext::new(true, 1));
    slot.set_phase(RequestPhase::LookingUp { host_blocks: vec![7], disk_blocks: vec![] });
    let event = complete_remote_lookup(vec![101, 102]);
    let results = apply_and_execute(&mut slot, event, &ctx(true), &mut effects).unwrap();
    assert!(matches!(results.as_slice(), [EffectResult::Done]));
    let requests = effects.xfer_tx.drain();
    match &requests[0] {
        LocalTransferRequest::Remote(request) => {
            assert_eq!(request.sequence_hashes, vec![101, 102]);
            assert!(request.device_block_ids.is_empty() && request.is_onboard);
            // A random id of version four.
            assert_eq!((request.operation_id >> 76) & 0xf, 4);
        }
        other => panic!("unexpected request {other:?}"),
    }
}

#[test]
fn a_prefetch_without_remote_storage_falls_back() {
    let (mut slot, mut effects) = (slot(3), EffectContext::new(false, 1));
    slot.set_phase(RequestPhase::LookingUp { host_blocks: vec![7], disk_blocks: vec![] });
    let event = complete_remote_lookup(vec![101]);
    apply_and_execute(&mut slot, event, &ctx(true), &mut effects).unwrap();
    assert_eq!(slot.state(), SlotState::OnboardStaged(4));
}

#[test]
fn a_prefetch_without_the_transfer_engine_fails() {
    let (mut slot, mut effects) = (slot(3), EffectContext::new(true, 1));
    effects.xfer_tx.close();
    slot.set_phase(RequestPhase::LookingUp { host_blocks: vec![], disk_blocks: vec![] });
    let event = complete_remote_lookup(vec![101]);
    let error = apply_and_execute(&mut slot, event, &ctx(true), &mut effects).unwrap_err();
    assert_eq!(error, "failed to send prefetch request: channel closed");
}

#[test]
fn token_blocks_are_cut_from_the_sequence() {
    let mut sequence = TokenBlockSequence::new((0..6).collect(), 4, vec![100]);
    assert_eq!((sequence.total_tokens(), sequence.num_blocks(), sequence.block_size()), (6, 1, 4));
    sequence.extend(&[6, 7], &[101]);
    assert_eq!(sequence.hashes_from(1), vec![101]);
    assert!(sequence.hashes_from(9).is_empty());
    assert_eq!(sequence.sequence_hash(0), 100);
    let blocks = sequence.resolve(&[101, 7, 100]);
    let hashes: Vec<u64> = blocks.iter().map(|block| block.sequence_hash()).collect();
    assert_eq!(hashes, vec![101, 100]);
}

#[test]
fn an_event_reaches_the_slot_of_its_key() {
    let mut manager = ConnectorSlotManager::new(BLOCK, false, 1);
    let key = kvbm::protocol::SlotKey::new("r".to_string(), 0);
    let event = || SlotEvent::AcquireMatches { num_computed_tokens: 0 };
    assert!(matches!(manager.apply_event_to_slot(&key, event()), Err(SlotError::NotFound)));
    manager.create_slot(&key, vec![1, 2, 3, 4], vec![100]).unwrap();
    let effects = manager.apply_event_to_slot(&key, event()).unwrap();
    assert!(matches!(effects.as_slice(), [SlotEffect::RunLocalLookup { num_computed_tokens: 0 }]));
    assert!(manager.has_slot(&key));
    assert_eq!(manager.effect_context().world_size, 1);
    manager.remove_slot(&key).unwrap();
    assert!(!manager.has_slot(&key));
}

fn waiting_for_prefetch(timeout_secs: u64) -> KvConnectorLeaderCore {
    let manager = ConnectorSlotManager::new(BLOCK, true, 1);
    let mut leader = KvConnectorLeaderCore::new(manager, timeout_secs);
    let id = "r".to_string();
    leader.create_slot(id.clone(), (0..8).collect(), vec![100, 101], None).unwrap();
    leader.get_num_new_matched_tokens(id.clone(), 8, 0).unwrap();
    leader.local_lookup_answered(&id, &[100, 101], vec![], vec![]).unwrap();
    leader.remote_lookup_answered(&id, vec![100]).unwrap();
    let start = std::time::Instant::now();
    while start.elapsed().as_nanos() == 0 {}
    leader
}

fn state(leader: &mut KvConnectorLeaderCore) -> SlotState {
    let key = leader.active_slot_keys.get(&"r".to_string()).unwrap().clone();
    let slot = leader.manager.take_slot(&key).unwrap();
    let state = slot.state();
    leader.manager.put_slot(&key, slot);
    state
}

#[test]
fn a_prefetch_that_takes_too_long_is_given_up() {
    assert!(is_overdue(2_000_000_001, 2));
    assert!(!is_overdue(2_000_000_000, 2));
    let id = "r".to_string();
    let mut patient = waiting_for_prefetch(3600);
    let answer = patient.get_num_new_matched_tokens(id.clone(), 8, 0).unwrap();
    assert!(matches!(answer, MatchPoll::Tokens { num_tokens: None, is_async: false }));
    assert_eq!(state(&mut patient), SlotState::Initialized);
    // The poll that started the prefetch may have given it up already.
    let mut hasty = waiting_for_prefetch(0);
    if state(&mut hasty) != SlotState::Preempted {
        let answer = hasty.get_num_new_matched_tokens(id, 8, 0).unwrap();
        assert!(matches!(answer, MatchPoll::Tokens { num_tokens: None, is_async: false }));
    }
    assert_eq!(state(&mut hasty), SlotState::Preempted);
}

#[test]
fn a_prefetch_whose_blocks_are_not_there_yet_is_asked_for_again() {
    let id = "r".to_string();
    let mut leader = waiting_for_prefetch(3600);
    let operation_id = match &leader.manager.effects.xfer_tx.drain()[0] {
        LocalTransferRequest::Remote(request) => request.operation_id,
        other => panic!("unexpected request {other:?}"),
    };
    leader.manager.prefetch_completed.insert(operation_id);
    let answer = leader.get_num_new_matched_tokens(id.clone(), 8, 0).unwrap();
    assert!(matches!(answer, MatchPoll::Resolve { .. }));
    assert!(!leader.manager.prefetch_completed.contains(&operation_id));
    leader.prefetch_resolved(&id, operation_id, vec![]).unwrap();
    assert!(leader.manager.prefetch_completed.contains(&operation_id));
}
