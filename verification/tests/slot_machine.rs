//! The phases of a request, event by event.

use kvbm::protocol::{RequestType, SlotKey, TransferType, WorkerTransferRequest, NIL_OPERATION_ID};
use kvbm::slot_api::SlotState;
use kvbm::slot_machine::{
    DisclosureState, G4FailPolicy, PrefetchState, RequestPhase, SlotContext, SlotEffect, SlotEvent,
};
use kvbm::slot_ops::OperationTracker;

type TestPhase = RequestPhase<(), ()>;
type TestEvent = SlotEvent<(), ()>;

fn new_id() -> u128 {
    uuid::Uuid::new_v4().as_u128()
}

fn mock_load_request(req_id: &str, block_ids: Vec<usize>) -> WorkerTransferRequest {
    WorkerTransferRequest {
        key: SlotKey::new(req_id.to_string(), 0),
        uuid: new_id(),
        transfer_type: TransferType::Load,
        request_type: RequestType::Immediate,
        block_ids,
    }
}

fn tracker_with_dispatched(req_id: &str, n: usize) -> OperationTracker {
    let mut tracker = OperationTracker::new();
    for i in 0..n {
        tracker.append_pending(mock_load_request(req_id, vec![i]));
    }
    let _ = tracker.take_pending_for_dispatch();
    tracker
}

fn mock_ctx() -> SlotContext {
    SlotContext {
        block_size: 16,
        remote_enabled: true,
        g4_xfer_fail_policy: G4FailPolicy::Fallback,
    }
}

fn mock_ctx_abort() -> SlotContext {
    SlotContext {
        block_size: 16,
        remote_enabled: true,
        g4_xfer_fail_policy: G4FailPolicy::Abort,
    }
}

fn mock_ctx_no_remote() -> SlotContext {
    SlotContext {
        block_size: 16,
        remote_enabled: false,
        g4_xfer_fail_policy: G4FailPolicy::Fallback,
    }
}

fn mock_prefetch() -> PrefetchState {
    PrefetchState {
        operation_id: new_id(),
        sequence_hashes: vec![0x1234, 0x5678],
        num_external_tokens: 256,
        started_at: std::time::Instant::now(),
    }
}

fn mock_remote_match() -> (u64, u64) {
    (0xABCD, 0x1234)
}

fn make_scheduler_output_prefill() -> TestEvent {
    SlotEvent::ApplySchedulerOutput {
        tokens: vec![],
        block_ids: vec![1, 2],
        num_computed_tokens: 0,
        num_scheduled_tokens: 128,
        priorities: None,
        iteration: 1,
    }
}

fn make_scheduler_output_decode() -> TestEvent {
    SlotEvent::ApplySchedulerOutput {
        tokens: vec![42, 43, 44],
        block_ids: vec![1, 2, 3],
        num_computed_tokens: 128,
        num_scheduled_tokens: 1,
        priorities: Some(vec![10, 20, 30]),
        iteration: 1,
    }
}

fn onboard_ready_pending(n_host: usize, n_disk: usize, n_tokens: usize) -> TestPhase {
    RequestPhase::OnboardReady {
        num_external_tokens: n_tokens,
        host_staging: vec![(); n_host],
        disk_staging: vec![(); n_disk],
        remote_hashes: vec![0x1111; n_host],
        disclosure: DisclosureState::Pending,
        prefetched_blocks_for_stats: 0,
    }
}

#[test]
fn test_initialized_acquire_matches() {
    let phase: TestPhase = RequestPhase::Initialized;
    let (new_phase, effects) = phase.apply(
        SlotEvent::AcquireMatches {
            num_computed_tokens: 0,
        },
        &mock_ctx(),
    );
    assert!(matches!(new_phase, RequestPhase::AwaitingLookup));
    assert_eq!(effects.len(), 1);
    assert!(matches!(
        effects[0],
        SlotEffect::RunLocalLookup {
            num_computed_tokens: 0
        }
    ));
}

#[test]
fn test_awaiting_lookup_completed_with_remote() {
    let phase: TestPhase = RequestPhase::AwaitingLookup;
    let (new_phase, effects) = phase.apply(
        SlotEvent::LocalLookupCompleted {
            host_blocks: vec![(), ()],
            disk_blocks: vec![()],
            remote_candidates: vec![0xAAAA, 0xBBBB],
        },
        &mock_ctx(),
    );

    assert!(matches!(new_phase, RequestPhase::LookingUp { .. }));
    if let RequestPhase::LookingUp {
        host_blocks,
        disk_blocks,
    } = &new_phase
    {
        assert_eq!(host_blocks.len(), 2);
        assert_eq!(disk_blocks.len(), 1);
    }

    assert!(effects
        .iter()
        .any(|e| matches!(e, SlotEffect::StartRemoteLookup { .. })));
    if let Some(SlotEffect::StartRemoteLookup {
        candidates,
        host_blocks,
        disk_blocks,
    }) = effects
        .iter()
        .find(|e| matches!(e, SlotEffect::StartRemoteLookup { .. }))
    {
        assert_eq!(candidates, &[0xAAAA, 0xBBBB]);
        assert!(host_blocks.is_empty());
        assert!(disk_blocks.is_empty());
    }
}

#[test]
fn test_awaiting_lookup_completed_local_only() {
    let phase: TestPhase = RequestPhase::AwaitingLookup;
    let (new_phase, effects) = phase.apply(
        SlotEvent::LocalLookupCompleted {
            host_blocks: vec![(), (), ()],
            disk_blocks: vec![()],
            remote_candidates: vec![],
        },
        &mock_ctx(),
    );

    assert!(matches!(new_phase, RequestPhase::OnboardReady { .. }));
    if let RequestPhase::OnboardReady {
        host_staging,
        disk_staging,
        disclosure,
        ..
    } = &new_phase
    {
        assert_eq!(host_staging.len(), 3);
        assert_eq!(disk_staging.len(), 1);
        assert_eq!(*disclosure, DisclosureState::Pending);
    }
    assert!(!effects
        .iter()
        .any(|e| matches!(e, SlotEffect::StartRemoteLookup { .. })));
}

#[test]
fn test_awaiting_lookup_completed_nothing_matched() {
    let phase: TestPhase = RequestPhase::AwaitingLookup;
    let (new_phase, effects) = phase.apply(
        SlotEvent::LocalLookupCompleted {
            host_blocks: vec![],
            disk_blocks: vec![],
            remote_candidates: vec![],
        },
        &mock_ctx(),
    );

    assert!(matches!(new_phase, RequestPhase::Initialized));
    assert!(effects
        .iter()
        .any(|e| matches!(e, SlotEffect::MatchNone)));
}

#[test]
fn test_awaiting_lookup_remote_disabled_falls_back_to_local() {
    let phase: TestPhase = RequestPhase::AwaitingLookup;
    let (new_phase, effects) = phase.apply(
        SlotEvent::LocalLookupCompleted {
            host_blocks: vec![()],
            disk_blocks: vec![],
            remote_candidates: vec![0xDEAD, 0xBEEF],
        },
        &mock_ctx_no_remote(),
    );

    assert!(matches!(new_phase, RequestPhase::OnboardReady { .. }));
    assert!(!effects
        .iter()
        .any(|e| matches!(e, SlotEffect::StartRemoteLookup { .. })));
}

#[test]
fn test_looking_up_remote_completed_with_hashes() {
    let phase: TestPhase = RequestPhase::LookingUp {
        host_blocks: vec![(), ()],
        disk_blocks: vec![()],
    };
    let (new_phase, effects) = phase.apply(
        SlotEvent::RemoteLookupCompleted {
            matches: vec![mock_remote_match(), mock_remote_match()],
        },
        &mock_ctx(),
    );

    assert!(matches!(new_phase, RequestPhase::Prefetching { .. }));
    if let RequestPhase::Prefetching {
        host_staging,
        disk_staging,
        ..
    } = &new_phase
    {
        assert_eq!(host_staging.len(), 2);
        assert_eq!(disk_staging.len(), 1);
    }
    assert!(effects
        .iter()
        .any(|e| matches!(e, SlotEffect::StartPrefetch { .. })));
}

#[test]
fn test_looking_up_remote_completed_no_hashes() {
    let phase: TestPhase = RequestPhase::LookingUp {
        host_blocks: vec![(), ()],
        disk_blocks: vec![()],
    };
    let (new_phase, _effects) = phase.apply(
        SlotEvent::RemoteLookupCompleted { matches: vec![] },
        &mock_ctx(),
    );

    assert!(matches!(new_phase, RequestPhase::OnboardReady { .. }));
    if let RequestPhase::OnboardReady {
        host_staging,
        disk_staging,
        disclosure,
        ..
    } = &new_phase
    {
        assert_eq!(host_staging.len(), 2);
        assert_eq!(disk_staging.len(), 1);
        assert_eq!(*disclosure, DisclosureState::Pending);
    }
}

#[test]
fn test_looking_up_remote_closed() {
    let phase: TestPhase = RequestPhase::LookingUp {
        host_blocks: vec![(), (), ()],
        disk_blocks: vec![()],
    };
    let (new_phase, _effects) = phase.apply(SlotEvent::RemoteLookupClosed, &mock_ctx());

    assert!(matches!(new_phase, RequestPhase::OnboardReady { .. }));
    if let RequestPhase::OnboardReady {
        host_staging,
        disk_staging,
        remote_hashes,
        disclosure,
        ..
    } = &new_phase
    {
        assert_eq!(host_staging.len(), 3);
        assert_eq!(disk_staging.len(), 1);
        assert!(remote_hashes.is_empty(), "no remote when lookup closed");
        assert_eq!(*disclosure, DisclosureState::Pending);
    }
}

#[test]
fn test_prefetching_ready() {
    let phase: TestPhase = RequestPhase::Prefetching {
        prefetch: mock_prefetch(),
        host_staging: vec![(), ()],
        disk_staging: vec![()],
        prefetched_blocks_for_stats: 2,
    };
    let (new_phase, _effects) = phase.apply(
        SlotEvent::PrefetchReady {
            blocks: vec![(), ()],
        },
        &mock_ctx(),
    );

    assert!(matches!(new_phase, RequestPhase::OnboardReady { .. }));
    if let RequestPhase::OnboardReady {
        host_staging,
        disk_staging,
        disclosure,
        prefetched_blocks_for_stats,
        ..
    } = &new_phase
    {
        assert_eq!(host_staging.len(), 4, "2 original + 2 prefetched");
        assert_eq!(disk_staging.len(), 1);
        assert_eq!(*disclosure, DisclosureState::Pending);
        assert_eq!(*prefetched_blocks_for_stats, 2);
    }
}

#[test]
fn test_prefetching_ready_with_empty_blocks() {
    let phase: TestPhase = RequestPhase::Prefetching {
        prefetch: mock_prefetch(),
        host_staging: vec![(), ()],
        disk_staging: vec![],
        prefetched_blocks_for_stats: 0,
    };
    let (new_phase, _effects) =
        phase.apply(SlotEvent::PrefetchReady { blocks: vec![] }, &mock_ctx());

    assert!(matches!(new_phase, RequestPhase::OnboardReady { .. }));
    if let RequestPhase::OnboardReady {
        host_staging,
        disk_staging,
        ..
    } = &new_phase
    {
        assert_eq!(host_staging.len(), 2, "unchanged when no blocks prefetched");
        assert!(disk_staging.is_empty());
    }
}

#[test]
fn test_prefetching_timeout() {
    let phase: TestPhase = RequestPhase::Prefetching {
        prefetch: mock_prefetch(),
        host_staging: vec![(), (), ()],
        disk_staging: vec![(), ()],
        prefetched_blocks_for_stats: 3,
    };
    let (new_phase, effects) = phase.apply(SlotEvent::PrefetchTimeout, &mock_ctx());

    assert!(matches!(
        new_phase,
        RequestPhase::Preempted {
            recovered_from_failure: false
        }
    ));
    assert!(
        effects.is_empty()
            || effects
                .iter()
                .all(|e| matches!(e, SlotEffect::ReleaseStaging | SlotEffect::Diag { .. }))
    );
}

#[test]
fn test_g4_prefetch_timeout_then_late_prefetch_ready_stays_preempted() {
    let ctx = mock_ctx();
    let phase = RequestPhase::Prefetching {
        prefetch: mock_prefetch(),
        host_staging: vec![(); 3],
        disk_staging: vec![(); 2],
        prefetched_blocks_for_stats: 3,
    };
    let (phase, _) = phase.apply(SlotEvent::PrefetchTimeout, &ctx);
    assert!(matches!(
        phase,
        RequestPhase::Preempted {
            recovered_from_failure: false
        }
    ));

    let (phase, effects) = phase.apply(
        SlotEvent::PrefetchReady {
            blocks: vec![(), ()],
        },
        &ctx,
    );
    assert!(matches!(
        phase,
        RequestPhase::Preempted {
            recovered_from_failure: false
        }
    ));
    assert!(
        effects.is_empty(),
        "late PrefetchReady after timeout must not apply (would desync engine)"
    );
}

#[test]
fn test_g4_prefetch_timeout_then_late_transfer_completed_stays_preempted() {
    let ctx = mock_ctx();
    let op_id = new_id();
    let prefetch = PrefetchState {
        operation_id: op_id,
        sequence_hashes: vec![0xAAAA, 0xBBBB],
        num_external_tokens: 256,
        started_at: std::time::Instant::now(),
    };
    let phase: TestPhase = RequestPhase::Prefetching {
        prefetch,
        host_staging: vec![(); 2],
        disk_staging: vec![],
        prefetched_blocks_for_stats: 2,
    };
    let (phase, _) = phase.apply(SlotEvent::PrefetchTimeout, &ctx);
    let (phase, effects) = phase.apply(SlotEvent::TransferCompleted { operation_id: op_id }, &ctx);
    assert!(matches!(
        phase,
        RequestPhase::Preempted {
            recovered_from_failure: false
        }
    ));
    assert!(
        effects.is_empty(),
        "late TransferCompleted after prefetch timeout must not mutate phase"
    );
}

#[test]
fn test_g4_prefetch_race_full_sequence_retry_after_timeout() {
    let ctx = mock_ctx();
    let phase = RequestPhase::LookingUp {
        host_blocks: vec![(), ()],
        disk_blocks: vec![()],
    };
    let (phase, _) = phase.apply(
        SlotEvent::RemoteLookupCompleted {
            matches: vec![mock_remote_match()],
        },
        &ctx,
    );
    assert!(matches!(phase, RequestPhase::Prefetching { .. }));

    let (phase, _) = phase.apply(SlotEvent::PrefetchTimeout, &ctx);
    assert!(matches!(
        phase,
        RequestPhase::Preempted {
            recovered_from_failure: false
        }
    ));

    let (phase, _) = phase.apply(
        SlotEvent::PrefetchReady {
            blocks: vec![(), (), ()],
        },
        &ctx,
    );
    assert!(matches!(
        phase,
        RequestPhase::Preempted {
            recovered_from_failure: false
        }
    ));

    let (phase, effects) = phase.apply(
        SlotEvent::AcquireMatches {
            num_computed_tokens: 0,
        },
        &ctx,
    );
    assert!(matches!(phase, RequestPhase::AwaitingLookup));
    assert!(
        effects
            .iter()
            .any(|e| matches!(e, SlotEffect::RunLocalLookup { num_computed_tokens: 0 })),
        "after G4 prefetch timeout, AcquireMatches should restart local lookup"
    );
}

#[test]
fn test_g4_prefetch_error_log_timeline_reducer_only() {
    let ctx = mock_ctx();

    let phase = RequestPhase::LookingUp {
        host_blocks: vec![(), ()],
        disk_blocks: vec![()],
    };
    let (phase, effects) = phase.apply(
        SlotEvent::RemoteLookupCompleted {
            matches: vec![mock_remote_match()],
        },
        &ctx,
    );
    assert!(matches!(phase, RequestPhase::Prefetching { .. }));
    assert!(effects
        .iter()
        .any(|e| matches!(e, SlotEffect::StartPrefetch { .. })));

    let (phase, _) = phase.apply(SlotEvent::PrefetchTimeout, &ctx);
    assert!(matches!(
        phase,
        RequestPhase::Preempted {
            recovered_from_failure: false
        }
    ));

    let late_op = new_id();
    let (phase, _) = phase.apply(SlotEvent::TransferCompleted { operation_id: late_op }, &ctx);
    assert!(matches!(
        phase,
        RequestPhase::Preempted {
            recovered_from_failure: false
        }
    ));
    let (phase, _) = phase.apply(
        SlotEvent::PrefetchReady {
            blocks: vec![(), ()],
        },
        &ctx,
    );
    assert!(matches!(
        phase,
        RequestPhase::Preempted {
            recovered_from_failure: false
        }
    ));

    let (phase, effects) = phase.apply(
        SlotEvent::AcquireMatches {
            num_computed_tokens: 0,
        },
        &ctx,
    );
    assert!(matches!(phase, RequestPhase::AwaitingLookup));
    assert!(
        effects
            .iter()
            .any(|e| matches!(e, SlotEffect::RunLocalLookup { num_computed_tokens: 0 })),
        "post-timeout recovery should re-run local lookup"
    );
}

#[test]
fn test_prefetching_transfer_completed_matching_operation_id_onboards() {
    let ctx = mock_ctx();
    let op_id = new_id();
    let prefetch = PrefetchState {
        operation_id: op_id,
        sequence_hashes: vec![0x1111],
        num_external_tokens: 16,
        started_at: std::time::Instant::now(),
    };
    let phase: TestPhase = RequestPhase::Prefetching {
        prefetch,
        host_staging: vec![()],
        disk_staging: vec![],
        prefetched_blocks_for_stats: 1,
    };
    let (new_phase, effects) =
        phase.apply(SlotEvent::TransferCompleted { operation_id: op_id }, &ctx);

    assert!(
        effects.is_empty(),
        "onboard-from-prefetch should not emit extra effects"
    );
    let RequestPhase::OnboardReady {
        num_external_tokens,
        host_staging,
        disk_staging,
        remote_hashes,
        disclosure,
        prefetched_blocks_for_stats,
    } = new_phase
    else {
        panic!(
            "expected OnboardReady after matching TransferCompleted; got {new_phase:?}"
        );
    };
    assert_eq!(num_external_tokens, 16);
    assert_eq!(host_staging.len(), 1);
    assert_eq!(disk_staging.len(), 0);
    assert_eq!(remote_hashes, vec![0x1111u64]);
    assert_eq!(disclosure, DisclosureState::Pending);
    assert_eq!(prefetched_blocks_for_stats, 1);
}

#[test]
fn test_prefetching_transfer_completed_mismatched_operation_id_is_noop() {
    let ctx = mock_ctx();
    let prefetch = PrefetchState {
        operation_id: new_id(),
        sequence_hashes: vec![0x1111],
        num_external_tokens: 16,
        started_at: std::time::Instant::now(),
    };
    let phase: TestPhase = RequestPhase::Prefetching {
        prefetch,
        host_staging: vec![()],
        disk_staging: vec![],
        prefetched_blocks_for_stats: 1,
    };
    let (new_phase, effects) = phase.apply(
        SlotEvent::TransferCompleted {
            operation_id: new_id(),
        },
        &ctx,
    );
    assert!(
        matches!(new_phase, RequestPhase::Prefetching { .. }),
        "unrelated transfer completion should not affect prefetch"
    );
    assert!(effects.is_empty());
}

#[test]
fn test_prefetching_failed_fallback_with_staging() {
    let phase: TestPhase = RequestPhase::Prefetching {
        prefetch: mock_prefetch(),
        host_staging: vec![(), ()],
        disk_staging: vec![()],
        prefetched_blocks_for_stats: 2,
    };
    let (new_phase, _effects) = phase.apply(SlotEvent::PrefetchFailed, &mock_ctx());

    assert!(
        matches!(new_phase, RequestPhase::OnboardReady { .. }),
        "fallback with local staging -> OnboardReady"
    );
    if let RequestPhase::OnboardReady {
        host_staging,
        disk_staging,
        disclosure,
        ..
    } = &new_phase
    {
        assert_eq!(host_staging.len(), 2, "host staging preserved");
        assert_eq!(disk_staging.len(), 1, "disk staging preserved");
        assert_eq!(*disclosure, DisclosureState::Pending);
    }
}

#[test]
fn test_prefetching_failed_fallback_no_staging() {
    let phase: TestPhase = RequestPhase::Prefetching {
        prefetch: mock_prefetch(),
        host_staging: vec![],
        disk_staging: vec![],
        prefetched_blocks_for_stats: 0,
    };
    let (new_phase, _effects) = phase.apply(SlotEvent::PrefetchFailed, &mock_ctx());

    assert!(
        matches!(
            new_phase,
            RequestPhase::Preempted {
                recovered_from_failure: true
            }
        ),
        "no local staging to fall back to -> preempted"
    );
}

#[test]
fn test_prefetching_failed_abort_policy() {
    let phase: TestPhase = RequestPhase::Prefetching {
        prefetch: mock_prefetch(),
        host_staging: vec![(), ()],
        disk_staging: vec![()],
        prefetched_blocks_for_stats: 2,
    };
    let (new_phase, _effects) = phase.apply(SlotEvent::PrefetchFailed, &mock_ctx_abort());

    assert!(
        matches!(
            new_phase,
            RequestPhase::Preempted {
                recovered_from_failure: true
            }
        ),
        "abort policy ignores local staging"
    );
}

#[test]
fn test_onboard_ready_pending_poll() {
    let phase: TestPhase = RequestPhase::OnboardReady {
        num_external_tokens: 512,
        host_staging: vec![(), ()],
        disk_staging: vec![()],
        remote_hashes: vec![],
        disclosure: DisclosureState::Pending,
        prefetched_blocks_for_stats: 0,
    };
    let (new_phase, effects) = phase.apply(SlotEvent::PollMatchReport, &mock_ctx());

    assert!(matches!(
        new_phase,
        RequestPhase::OnboardReady {
            disclosure: DisclosureState::Disclosed,
            ..
        }
    ));
    assert!(effects
        .iter()
        .any(|e| matches!(e, SlotEffect::MatchReady { num_external_tokens: 512 })));
}

#[test]
fn test_onboard_ready_disclosed_poll() {
    let phase: TestPhase = RequestPhase::OnboardReady {
        num_external_tokens: 256,
        host_staging: vec![()],
        disk_staging: vec![],
        remote_hashes: vec![],
        disclosure: DisclosureState::Disclosed,
        prefetched_blocks_for_stats: 0,
    };
    let (new_phase, effects) = phase.apply(SlotEvent::PollMatchReport, &mock_ctx());

    assert!(matches!(
        new_phase,
        RequestPhase::OnboardReady {
            disclosure: DisclosureState::Consumed,
            ..
        }
    ));
    assert!(effects
        .iter()
        .any(|e| matches!(e, SlotEffect::MatchDeferred)));
}

#[test]
fn test_onboard_ready_consumed_poll() {
    let phase: TestPhase = RequestPhase::OnboardReady {
        num_external_tokens: 128,
        host_staging: vec![],
        disk_staging: vec![],
        remote_hashes: vec![],
        disclosure: DisclosureState::Consumed,
        prefetched_blocks_for_stats: 0,
    };
    let (new_phase, effects) = phase.apply(SlotEvent::PollMatchReport, &mock_ctx());

    assert!(matches!(
        new_phase,
        RequestPhase::OnboardReady {
            disclosure: DisclosureState::Consumed,
            ..
        }
    ));
    assert!(effects
        .iter()
        .any(|e| matches!(e, SlotEffect::MatchDeferred)));
}

#[test]
fn test_full_disclosure_lifecycle() {
    let phase: TestPhase = onboard_ready_pending(2, 1, 768);

    let (phase, effects) = phase.apply(SlotEvent::PollMatchReport, &mock_ctx());
    assert!(matches!(
        phase,
        RequestPhase::OnboardReady {
            disclosure: DisclosureState::Disclosed,
            ..
        }
    ));
    assert!(effects
        .iter()
        .any(|e| matches!(e, SlotEffect::MatchReady { num_external_tokens: 768 })));

    let (phase, effects) = phase.apply(SlotEvent::PollMatchReport, &mock_ctx());
    assert!(matches!(
        phase,
        RequestPhase::OnboardReady {
            disclosure: DisclosureState::Consumed,
            ..
        }
    ));
    assert!(effects
        .iter()
        .any(|e| matches!(e, SlotEffect::MatchDeferred)));

    let (phase, effects) = phase.apply(SlotEvent::PollMatchReport, &mock_ctx());
    assert!(matches!(
        phase,
        RequestPhase::OnboardReady {
            disclosure: DisclosureState::Consumed,
            ..
        }
    ));
    assert!(effects
        .iter()
        .any(|e| matches!(e, SlotEffect::MatchDeferred)));
}

#[test]
fn test_onboard_ready_alloc_completed() {
    let phase: TestPhase = RequestPhase::OnboardReady {
        num_external_tokens: 256,
        host_staging: vec![(), ()],
        disk_staging: vec![()],
        remote_hashes: vec![0xAAAA, 0xBBBB],
        disclosure: DisclosureState::Consumed,
        prefetched_blocks_for_stats: 2,
    };
    let (new_phase, effects) = phase.apply(
        SlotEvent::AllocCompleted {
            block_ids: vec![10, 11, 12],
            num_external_tokens: 256,
        },
        &mock_ctx(),
    );

    assert!(matches!(new_phase, RequestPhase::Onboarding { .. }));
    if let RequestPhase::Onboarding {
        num_external_tokens,
        ..
    } = &new_phase
    {
        assert_eq!(*num_external_tokens, 256);
    }

    assert!(effects
        .iter()
        .any(|e| matches!(e, SlotEffect::EnqueueOnboardTransfer { .. })));
    if let Some(SlotEffect::EnqueueOnboardTransfer {
        host_staging,
        disk_staging,
        remote_hashes,
        dst_blocks,
        num_external_tokens,
    }) = effects
        .iter()
        .find(|e| matches!(e, SlotEffect::EnqueueOnboardTransfer { .. }))
    {
        assert_eq!(host_staging.len(), 2);
        assert_eq!(disk_staging.len(), 1);
        assert_eq!(remote_hashes, &[0xAAAA, 0xBBBB]);
        assert_eq!(dst_blocks, &[10, 11, 12]);
        assert_eq!(*num_external_tokens, 256);
    }
}

#[test]
fn test_onboarding_scheduler_output_prefilling() {
    let phase: TestPhase = RequestPhase::Onboarding {
        num_external_tokens: 256,
        ops: OperationTracker::new(),
    };
    let (new_phase, _effects) = phase.apply(make_scheduler_output_prefill(), &mock_ctx());

    assert!(matches!(new_phase, RequestPhase::Prefilling { .. }));
}

#[test]
fn test_onboarding_scheduler_output_decoding() {
    let phase: TestPhase = RequestPhase::Onboarding {
        num_external_tokens: 256,
        ops: OperationTracker::new(),
    };
    let (new_phase, _effects) = phase.apply(make_scheduler_output_decode(), &mock_ctx());

    assert!(matches!(new_phase, RequestPhase::Decoding { .. }));
    if let RequestPhase::Decoding {
        iteration_first_scheduled,
        ..
    } = &new_phase
    {
        assert!(*iteration_first_scheduled > 0 || *iteration_first_scheduled == 0);
    }
}

#[test]
fn test_decoding_scheduler_output() {
    let phase: TestPhase = RequestPhase::Decoding {
        ops: OperationTracker::new(),
        iteration_first_scheduled: 1,
    };
    let (new_phase, _effects) = phase.apply(make_scheduler_output_decode(), &mock_ctx());

    assert!(matches!(new_phase, RequestPhase::Decoding { .. }));
    if let RequestPhase::Decoding {
        iteration_first_scheduled,
        ..
    } = &new_phase
    {
        assert_eq!(*iteration_first_scheduled, 1, "preserves first-scheduled");
    }
}

#[test]
fn test_decoding_request_finished_with_ops() {
    let phase: TestPhase = RequestPhase::Decoding {
        ops: tracker_with_dispatched("finish-test", 2),
        iteration_first_scheduled: 5,
    };
    let (new_phase, _effects) = phase.apply(SlotEvent::RequestFinished, &mock_ctx());

    assert!(matches!(new_phase, RequestPhase::Finishing { .. }));
    if let RequestPhase::Finishing { ops } = &new_phase {
        assert!(ops.has_any());
    }
}

#[test]
fn test_decoding_request_finished_no_ops() {
    let phase: TestPhase = RequestPhase::Decoding {
        ops: OperationTracker::new(),
        iteration_first_scheduled: 5,
    };
    let (new_phase, effects) = phase.apply(SlotEvent::RequestFinished, &mock_ctx());

    assert!(matches!(new_phase, RequestPhase::Finished));
    assert!(effects
        .iter()
        .any(|e| matches!(e, SlotEffect::RecordCacheStats { .. })));
}

#[test]
fn test_prefilling_mark_skipped() {
    let phase: TestPhase = RequestPhase::Prefilling {
        iteration_first_scheduled: 10,
    };
    let (new_phase, effects) = phase.apply(SlotEvent::MarkSkipped, &mock_ctx());

    assert!(matches!(new_phase, RequestPhase::SkippedPrefill));
    assert!(effects.is_empty());
}

#[test]
fn test_skipped_prefill_scheduler_output_empty_tokens() {
    let phase: TestPhase = RequestPhase::SkippedPrefill;
    let (new_phase, _effects) = phase.apply(make_scheduler_output_prefill(), &mock_ctx());

    assert!(matches!(new_phase, RequestPhase::Prefilling { .. }));
}

#[test]
fn test_skipped_prefill_scheduler_output_with_tokens() {
    let phase: TestPhase = RequestPhase::SkippedPrefill;
    let (new_phase, _effects) = phase.apply(make_scheduler_output_decode(), &mock_ctx());

    assert!(matches!(new_phase, RequestPhase::Decoding { .. }));
}

#[test]
fn test_decoding_mark_skipped() {
    let phase: TestPhase = RequestPhase::Decoding {
        ops: OperationTracker::new(),
        iteration_first_scheduled: 15,
    };
    let (new_phase, effects) = phase.apply(SlotEvent::MarkSkipped, &mock_ctx());

    assert!(matches!(new_phase, RequestPhase::SkippedDecode { .. }));
    assert!(effects.is_empty());
}

#[test]
fn test_skipped_decode_scheduler_output() {
    let phase: TestPhase = RequestPhase::SkippedDecode { ops: OperationTracker::new() };
    let (new_phase, _effects) = phase.apply(make_scheduler_output_decode(), &mock_ctx());

    assert!(matches!(new_phase, RequestPhase::Decoding { .. }));
}

#[test]
fn operations_are_taken_once() {
    let mut tracker = OperationTracker::new();
    assert!(tracker.take_pending_for_dispatch().is_none());
    tracker.append_pending(mock_load_request("once", vec![1]));
    tracker.append_pending(mock_load_request("once", vec![2]));
    let taken: Vec<Vec<usize>> = tracker
        .take_pending_for_dispatch()
        .unwrap()
        .into_iter()
        .map(|op| op.block_ids)
        .collect();
    assert_eq!(taken, vec![vec![1], vec![2]]);
    assert_eq!((tracker.pending_count(), tracker.dispatched_count()), (0, 2));
    assert!(tracker.take_pending_for_dispatch().is_none());
    assert_eq!((tracker.pending_count(), tracker.dispatched_count()), (0, 2));
}

#[test]
fn test_finishing_transfer_completed_drained() {
    let op_id = new_id();
    let mut tracker = OperationTracker::new();
    tracker.append_pending(mock_load_request("finish-drain", vec![1]));
    let _ = tracker.take_pending_for_dispatch();

    let phase: TestPhase = RequestPhase::Finishing { ops: tracker };
    let (new_phase, effects) = phase.apply(
        SlotEvent::TransferCompleted {
            operation_id: op_id,
        },
        &mock_ctx(),
    );

    assert!(
        matches!(new_phase, RequestPhase::Finished),
        "single dispatched op completed -> Finished"
    );
    assert!(effects
        .iter()
        .any(|e| matches!(e, SlotEffect::RecordCacheStats { .. })));
}

#[test]
fn test_finishing_transfer_completed_not_drained() {
    let mut tracker = OperationTracker::new();
    tracker.append_pending(mock_load_request("finish-partial", vec![1]));
    tracker.append_pending(mock_load_request("finish-partial", vec![2]));
    let _ = tracker.take_pending_for_dispatch();

    let phase: TestPhase = RequestPhase::Finishing { ops: tracker };
    let (new_phase, effects) = phase.apply(
        SlotEvent::TransferCompleted {
            operation_id: new_id(),
        },
        &mock_ctx(),
    );

    assert!(
        matches!(new_phase, RequestPhase::Finishing { .. }),
        "one of two ops completed -> still Finishing"
    );
    assert!(!effects
        .iter()
        .any(|e| matches!(e, SlotEffect::RecordCacheStats { .. })));
}

#[test]
fn test_preempted_acquire_matches() {
    let phase: TestPhase = RequestPhase::Preempted {
        recovered_from_failure: false,
    };
    let (new_phase, effects) = phase.apply(
        SlotEvent::AcquireMatches {
            num_computed_tokens: 64,
        },
        &mock_ctx(),
    );

    assert!(matches!(new_phase, RequestPhase::AwaitingLookup));
    assert!(effects
        .iter()
        .any(|e| matches!(e, SlotEffect::RunLocalLookup { num_computed_tokens: 64 })));
}

#[test]
fn test_preempted_recovered_acquire_matches() {
    let phase: TestPhase = RequestPhase::Preempted {
        recovered_from_failure: true,
    };
    let (new_phase, effects) = phase.apply(
        SlotEvent::AcquireMatches {
            num_computed_tokens: 128,
        },
        &mock_ctx(),
    );

    assert!(matches!(new_phase, RequestPhase::AwaitingLookup));
    assert!(effects
        .iter()
        .any(|e| matches!(e, SlotEffect::RunLocalLookup { .. })));
}

#[test]
fn test_preempt_during_prefetching() {
    let phase: TestPhase = RequestPhase::Prefetching {
        prefetch: mock_prefetch(),
        host_staging: vec![(), ()],
        disk_staging: vec![()],
        prefetched_blocks_for_stats: 2,
    };
    let (new_phase, _effects) = phase.apply(SlotEvent::Preempt, &mock_ctx());

    assert!(matches!(new_phase, RequestPhase::Preempted { .. }));
}

#[test]
fn test_preempt_during_onboard_ready() {
    let phase: TestPhase = onboard_ready_pending(3, 1, 512);
    let (new_phase, _effects) = phase.apply(SlotEvent::Preempt, &mock_ctx());

    assert!(matches!(new_phase, RequestPhase::Preempted { .. }));
}

#[test]
fn test_preempt_during_decoding() {
    let phase: TestPhase = RequestPhase::Decoding {
        ops: tracker_with_dispatched("preempt-decode", 1),
        iteration_first_scheduled: 3,
    };
    let (new_phase, _effects) = phase.apply(SlotEvent::Preempt, &mock_ctx());

    assert!(matches!(new_phase, RequestPhase::Preempted { .. }));
}

#[test]
fn test_preempt_during_onboarding() {
    let phase: TestPhase = RequestPhase::Onboarding {
        num_external_tokens: 256,
        ops: OperationTracker::new(),
    };
    let (new_phase, _effects) = phase.apply(SlotEvent::Preempt, &mock_ctx());

    assert!(matches!(new_phase, RequestPhase::Preempted { .. }));
}

#[test]
fn test_preempt_during_prefilling() {
    let phase: TestPhase = RequestPhase::Prefilling {
        iteration_first_scheduled: 7,
    };
    let (new_phase, _effects) = phase.apply(SlotEvent::Preempt, &mock_ctx());

    assert!(matches!(new_phase, RequestPhase::Preempted { .. }));
}

#[test]
fn test_preempt_during_looking_up() {
    let phase: TestPhase = RequestPhase::LookingUp {
        host_blocks: vec![(), ()],
        disk_blocks: vec![()],
    };
    let (new_phase, _effects) = phase.apply(SlotEvent::Preempt, &mock_ctx());

    assert!(matches!(new_phase, RequestPhase::Preempted { .. }));
}

#[test]
fn test_reset_from_any_phase() {
    let phases: Vec<TestPhase> = vec![
        RequestPhase::Initialized,
        RequestPhase::AwaitingLookup,
        RequestPhase::LookingUp {
            host_blocks: vec![()],
            disk_blocks: vec![],
        },
        RequestPhase::Prefetching {
            prefetch: mock_prefetch(),
            host_staging: vec![()],
            disk_staging: vec![],
            prefetched_blocks_for_stats: 0,
        },
        RequestPhase::OnboardReady {
            num_external_tokens: 256,
            host_staging: vec![()],
            disk_staging: vec![],
            remote_hashes: vec![],
            disclosure: DisclosureState::Pending,
            prefetched_blocks_for_stats: 0,
        },
        RequestPhase::Onboarding {
            num_external_tokens: 256,
            ops: OperationTracker::new(),
        },
        RequestPhase::Prefilling {
            iteration_first_scheduled: 1,
        },
        RequestPhase::SkippedPrefill,
        RequestPhase::Decoding {
            ops: OperationTracker::new(),
            iteration_first_scheduled: 1,
        },
        RequestPhase::SkippedDecode { ops: OperationTracker::new() },
        RequestPhase::Finishing {
            ops: OperationTracker::new(),
        },
        RequestPhase::Finished,
        RequestPhase::Preempted {
            recovered_from_failure: false,
        },
        RequestPhase::Preempted {
            recovered_from_failure: true,
        },
    ];

    for (i, phase) in phases.into_iter().enumerate() {
        let (new_phase, _effects) = phase.apply(SlotEvent::Reset, &mock_ctx());
        assert!(
            matches!(new_phase, RequestPhase::Initialized),
            "phase index {} did not reset to Initialized",
            i
        );
    }
}

fn assert_late_event_is_noop(phase: TestPhase, event: TestEvent) {
    let (_new_phase, effects) = phase.apply(event, &mock_ctx());
    assert!(
        effects.is_empty() || effects.iter().all(|e| matches!(e, SlotEffect::Diag { .. })),
        "late events should produce no effects (or diagnostics only)"
    );
}

#[test]
fn late_event_prefetch_ready_in_initialized() {
    assert_late_event_is_noop(
        RequestPhase::Initialized,
        SlotEvent::PrefetchReady { blocks: vec![] },
    );
}

#[test]
fn late_event_transfer_completed_in_initialized() {
    assert_late_event_is_noop(
        RequestPhase::Initialized,
        SlotEvent::TransferCompleted { operation_id: NIL_OPERATION_ID },
    );
}

#[test]
fn late_event_poll_in_finished() {
    assert_late_event_is_noop(
        RequestPhase::Finished,
        SlotEvent::PollMatchReport,
    );
}

#[test]
fn late_event_prefetch_timeout_in_finished() {
    assert_late_event_is_noop(
        RequestPhase::Finished,
        SlotEvent::PrefetchTimeout,
    );
}

#[test]
fn late_event_prefetch_ready_in_preempted() {
    assert_late_event_is_noop(
        RequestPhase::Preempted { recovered_from_failure: false },
        SlotEvent::PrefetchReady { blocks: vec![] },
    );
}

#[test]
fn late_event_transfer_completed_in_preempted() {
    assert_late_event_is_noop(
        RequestPhase::Preempted { recovered_from_failure: true },
        SlotEvent::TransferCompleted { operation_id: NIL_OPERATION_ID },
    );
}

#[test]
fn late_event_prefetch_failed_in_finished() {
    assert_late_event_is_noop(
        RequestPhase::Finished,
        SlotEvent::PrefetchFailed,
    );
}

#[test]
fn late_event_remote_lookup_closed_in_finished() {
    assert_late_event_is_noop(
        RequestPhase::Finished,
        SlotEvent::RemoteLookupClosed,
    );
}

#[test]
fn late_event_mark_skipped_in_initialized() {
    assert_late_event_is_noop(
        RequestPhase::Initialized,
        SlotEvent::MarkSkipped,
    );
}

#[test]
fn late_event_alloc_completed_in_finished() {
    assert_late_event_is_noop(
        RequestPhase::Finished,
        SlotEvent::AllocCompleted { block_ids: vec![], num_external_tokens: 0 },
    );
}

#[test]
fn late_event_request_finished_in_preempted() {
    assert_late_event_is_noop(
        RequestPhase::Preempted { recovered_from_failure: false },
        SlotEvent::RequestFinished,
    );
}

#[test]
fn test_late_prefetch_ready_after_preempt_preserves_flag() {
    let phase: TestPhase = RequestPhase::Preempted {
        recovered_from_failure: true,
    };
    let (new_phase, effects) = phase.apply(
        SlotEvent::PrefetchReady {
            blocks: vec![(), ()],
        },
        &mock_ctx(),
    );
    assert!(matches!(
        new_phase,
        RequestPhase::Preempted {
            recovered_from_failure: true
        }
    ));
    assert!(effects.is_empty() || effects.iter().all(|e| matches!(e, SlotEffect::Diag { .. })));
}

#[test]
fn test_late_transfer_completed_in_preempted() {
    let phase: TestPhase = RequestPhase::Preempted {
        recovered_from_failure: false,
    };
    let (new_phase, effects) = phase.apply(
        SlotEvent::TransferCompleted {
            operation_id: new_id(),
        },
        &mock_ctx(),
    );
    assert!(matches!(
        new_phase,
        RequestPhase::Preempted {
            recovered_from_failure: false
        }
    ));
    assert!(effects.is_empty() || effects.iter().all(|e| matches!(e, SlotEffect::Diag { .. })));
}

#[test]
fn test_late_poll_match_report_in_decoding() {
    let phase: TestPhase = RequestPhase::Decoding {
        ops: OperationTracker::new(),
        iteration_first_scheduled: 5,
    };
    let (new_phase, effects) = phase.apply(SlotEvent::PollMatchReport, &mock_ctx());
    assert!(matches!(new_phase, RequestPhase::Decoding { .. }));
    assert!(effects.is_empty() || effects.iter().all(|e| matches!(e, SlotEffect::Diag { .. })));
}

#[test]
fn test_slot_state_compatibility_view() {
    let cases: Vec<(TestPhase, SlotState)> = vec![
        (RequestPhase::Initialized, SlotState::Initialized),
        (
            RequestPhase::OnboardReady {
                num_external_tokens: 512,
                host_staging: vec![],
                disk_staging: vec![],
                remote_hashes: vec![],
                disclosure: DisclosureState::Pending,
                prefetched_blocks_for_stats: 0,
            },
            SlotState::OnboardStaged(512),
        ),
        (
            RequestPhase::Onboarding {
                num_external_tokens: 256,
                ops: OperationTracker::new(),
            },
            SlotState::Onboarding(256),
        ),
        (
            RequestPhase::Prefilling {
                iteration_first_scheduled: 1,
            },
            SlotState::Prefilling,
        ),
        (RequestPhase::SkippedPrefill, SlotState::SkippedPrefill),
        (
            RequestPhase::Decoding {
                ops: OperationTracker::new(),
                iteration_first_scheduled: 1,
            },
            SlotState::Decoding,
        ),
        (RequestPhase::SkippedDecode { ops: OperationTracker::new() }, SlotState::SkippedDecode),
        (
            RequestPhase::Finishing {
                ops: OperationTracker::new(),
            },
            SlotState::Finishing,
        ),
        (RequestPhase::Finished, SlotState::Finished),
        (
            RequestPhase::Preempted {
                recovered_from_failure: false,
            },
            SlotState::Preempted,
        ),
    ];

    for (i, (phase, expected_state)) in cases.into_iter().enumerate() {
        let actual = phase.as_slot_state();
        assert_eq!(
            actual, expected_state,
            "case {}: {:?} != {:?}",
            i, actual, expected_state
        );
    }
}

#[test]
fn test_slot_state_onboard_staged_carries_token_count() {
    for n in [0_usize, 1, 128, 120064, usize::MAX] {
        let phase: TestPhase = RequestPhase::OnboardReady {
            num_external_tokens: n,
            host_staging: vec![],
            disk_staging: vec![],
            remote_hashes: vec![],
            disclosure: DisclosureState::Pending,
            prefetched_blocks_for_stats: 0,
        };
        assert_eq!(phase.as_slot_state(), SlotState::OnboardStaged(n));
    }
}

#[test]
fn test_initialized_is_pure_no_effects_on_construction() {
    let phase: TestPhase = RequestPhase::Initialized;
    let (new_phase, effects) = phase.apply(
        SlotEvent::AcquireMatches {
            num_computed_tokens: 42,
        },
        &mock_ctx(),
    );
    assert!(matches!(new_phase, RequestPhase::AwaitingLookup));
    assert_eq!(effects.len(), 1);
    if let SlotEffect::RunLocalLookup {
        num_computed_tokens,
    } = &effects[0]
    {
        assert_eq!(*num_computed_tokens, 42);
    } else {
        panic!("expected RunLocalLookup effect");
    }
}

#[test]
fn test_onboard_ready_zero_external_tokens() {
    let phase: TestPhase = RequestPhase::OnboardReady {
        num_external_tokens: 0,
        host_staging: vec![],
        disk_staging: vec![],
        remote_hashes: vec![],
        disclosure: DisclosureState::Pending,
        prefetched_blocks_for_stats: 0,
    };
    let (new_phase, effects) = phase.apply(SlotEvent::PollMatchReport, &mock_ctx());

    assert!(matches!(
        new_phase,
        RequestPhase::OnboardReady {
            disclosure: DisclosureState::Disclosed,
            ..
        }
    ));
    assert!(effects
        .iter()
        .any(|e| matches!(e, SlotEffect::MatchReady { num_external_tokens: 0 })));
}

#[test]
fn test_preempt_from_awaiting_lookup() {
    let phase: TestPhase = RequestPhase::AwaitingLookup;
    let (new_phase, _effects) = phase.apply(SlotEvent::Preempt, &mock_ctx());

    assert!(matches!(new_phase, RequestPhase::Preempted { .. }));
}

#[test]
fn test_full_happy_path_local_only() {
    let ctx = mock_ctx();

    let phase: TestPhase = RequestPhase::Initialized;
    let (phase, effects) = phase.apply(
        SlotEvent::AcquireMatches {
            num_computed_tokens: 0,
        },
        &ctx,
    );
    assert!(matches!(phase, RequestPhase::AwaitingLookup));
    assert!(effects
        .iter()
        .any(|e| matches!(e, SlotEffect::RunLocalLookup { .. })));

    let (phase, _effects) = phase.apply(
        SlotEvent::LocalLookupCompleted {
            host_blocks: vec![(), (), ()],
            disk_blocks: vec![()],
            remote_candidates: vec![],
        },
        &ctx,
    );
    assert!(matches!(
        phase,
        RequestPhase::OnboardReady {
            disclosure: DisclosureState::Pending,
            ..
        }
    ));

    let (phase, effects) = phase.apply(SlotEvent::PollMatchReport, &ctx);
    assert!(matches!(
        phase,
        RequestPhase::OnboardReady {
            disclosure: DisclosureState::Disclosed,
            ..
        }
    ));
    assert!(effects
        .iter()
        .any(|e| matches!(e, SlotEffect::MatchReady { .. })));

    let (phase, effects) = phase.apply(
        SlotEvent::AllocCompleted {
            block_ids: vec![10, 11, 12, 13],
            num_external_tokens: 64,
        },
        &ctx,
    );
    assert!(matches!(phase, RequestPhase::Onboarding { .. }));
    assert!(effects
        .iter()
        .any(|e| matches!(e, SlotEffect::EnqueueOnboardTransfer { .. })));

    let (phase, _effects) = phase.apply(make_scheduler_output_prefill(), &ctx);
    assert!(matches!(phase, RequestPhase::Prefilling { .. }));

    let (phase, _effects) = phase.apply(make_scheduler_output_decode(), &ctx);
    assert!(matches!(phase, RequestPhase::Decoding { .. }));

    let (phase, effects) = phase.apply(SlotEvent::RequestFinished, &ctx);
    assert!(matches!(phase, RequestPhase::Finished));
    assert!(effects
        .iter()
        .any(|e| matches!(e, SlotEffect::RecordCacheStats { .. })));
}

#[test]
fn test_full_happy_path_with_remote_prefetch() {
    let ctx = mock_ctx();

    let phase: TestPhase = RequestPhase::Initialized;
    let (phase, _) = phase.apply(
        SlotEvent::AcquireMatches {
            num_computed_tokens: 0,
        },
        &ctx,
    );

    let (phase, effects) = phase.apply(
        SlotEvent::LocalLookupCompleted {
            host_blocks: vec![(), ()],
            disk_blocks: vec![],
            remote_candidates: vec![0x1111, 0x2222],
        },
        &ctx,
    );
    assert!(matches!(phase, RequestPhase::LookingUp { .. }));
    assert!(effects
        .iter()
        .any(|e| matches!(e, SlotEffect::StartRemoteLookup { .. })));

    let (phase, effects) = phase.apply(
        SlotEvent::RemoteLookupCompleted {
            matches: vec![mock_remote_match()],
        },
        &ctx,
    );
    assert!(matches!(phase, RequestPhase::Prefetching { .. }));
    assert!(effects
        .iter()
        .any(|e| matches!(e, SlotEffect::StartPrefetch { .. })));

    let (phase, _) = phase.apply(
        SlotEvent::PrefetchReady {
            blocks: vec![(), ()],
        },
        &ctx,
    );
    assert!(matches!(
        phase,
        RequestPhase::OnboardReady {
            disclosure: DisclosureState::Pending,
            ..
        }
    ));

    let (phase, _) = phase.apply(SlotEvent::PollMatchReport, &ctx);
    let (phase, _) = phase.apply(
        SlotEvent::AllocCompleted {
            block_ids: vec![20, 21],
            num_external_tokens: 128,
        },
        &ctx,
    );
    assert!(matches!(phase, RequestPhase::Onboarding { .. }));

    let (phase, _) = phase.apply(make_scheduler_output_decode(), &ctx);
    assert!(matches!(phase, RequestPhase::Decoding { .. }));

    let (phase, _) = phase.apply(SlotEvent::RequestFinished, &ctx);
    assert!(matches!(phase, RequestPhase::Finished));
}

#[test]
fn test_preempt_and_retry_cycle() {
    let ctx = mock_ctx();

    let phase: TestPhase = RequestPhase::Initialized;
    let (phase, _) = phase.apply(
        SlotEvent::AcquireMatches {
            num_computed_tokens: 0,
        },
        &ctx,
    );

    let (phase, _) = phase.apply(
        SlotEvent::LocalLookupCompleted {
            host_blocks: vec![()],
            disk_blocks: vec![],
            remote_candidates: vec![],
        },
        &ctx,
    );

    let (phase, _) = phase.apply(SlotEvent::Preempt, &ctx);
    assert!(matches!(phase, RequestPhase::Preempted { .. }));

    let (phase, effects) = phase.apply(
        SlotEvent::AcquireMatches {
            num_computed_tokens: 32,
        },
        &ctx,
    );
    assert!(matches!(phase, RequestPhase::AwaitingLookup));
    assert!(effects
        .iter()
        .any(|e| matches!(e, SlotEffect::RunLocalLookup { num_computed_tokens: 32 })));
}

#[test]
fn test_skipped_prefill_then_decode_preserves_iteration() {
    let ctx = mock_ctx();

    let phase: TestPhase = RequestPhase::SkippedPrefill;

    let (phase, _) = phase.apply(make_scheduler_output_prefill(), &ctx);
    assert!(matches!(phase, RequestPhase::Prefilling { .. }));

    let (phase, _) = phase.apply(SlotEvent::MarkSkipped, &ctx);
    assert!(matches!(phase, RequestPhase::SkippedPrefill));

    let (phase, _) = phase.apply(make_scheduler_output_decode(), &ctx);
    assert!(matches!(phase, RequestPhase::Decoding { .. }));
}

#[test]
fn test_skipped_decode_round_trip() {
    let ctx = mock_ctx();

    let phase: TestPhase = RequestPhase::Decoding {
        ops: OperationTracker::new(),
        iteration_first_scheduled: 10,
    };

    let (phase, _) = phase.apply(SlotEvent::MarkSkipped, &ctx);
    assert!(matches!(phase, RequestPhase::SkippedDecode { .. }));

    let (phase, _) = phase.apply(make_scheduler_output_decode(), &ctx);
    assert!(matches!(phase, RequestPhase::Decoding { .. }));
}

#[test]
fn test_finishing_with_multiple_completions() {
    let mut tracker = OperationTracker::new();
    tracker.append_pending(mock_load_request("multi-fin", vec![1]));
    tracker.append_pending(mock_load_request("multi-fin", vec![2]));
    let _ = tracker.take_pending_for_dispatch();

    let phase: TestPhase = RequestPhase::Finishing { ops: tracker };

    let (phase, effects) = phase.apply(
        SlotEvent::TransferCompleted {
            operation_id: new_id(),
        },
        &mock_ctx(),
    );
    assert!(
        matches!(phase, RequestPhase::Finishing { .. }),
        "one of two -> still finishing"
    );
    assert!(!effects
        .iter()
        .any(|e| matches!(e, SlotEffect::RecordCacheStats { .. })));

    let (phase, effects) = phase.apply(
        SlotEvent::TransferCompleted {
            operation_id: new_id(),
        },
        &mock_ctx(),
    );
    assert!(
        matches!(phase, RequestPhase::Finished),
        "both completed -> Finished"
    );
    assert!(effects
        .iter()
        .any(|e| matches!(e, SlotEffect::RecordCacheStats { .. })));
}

fn make_phase(name: &str) -> TestPhase {
    match name {
        "Initialized" => RequestPhase::Initialized,
        "AwaitingLookup" => RequestPhase::AwaitingLookup,
        "LookingUp" => RequestPhase::LookingUp {
            host_blocks: vec![()],
            disk_blocks: vec![()],
        },
        "Prefetching" => RequestPhase::Prefetching {
            prefetch: mock_prefetch(),
            host_staging: vec![()],
            disk_staging: vec![],
            prefetched_blocks_for_stats: 1,
        },
        "OnboardReady" => RequestPhase::OnboardReady {
            num_external_tokens: 16,
            host_staging: vec![()],
            disk_staging: vec![],
            remote_hashes: vec![0x1111],
            disclosure: DisclosureState::Pending,
            prefetched_blocks_for_stats: 0,
        },
        "Onboarding" => RequestPhase::Onboarding {
            num_external_tokens: 16,
            ops: OperationTracker::new(),
        },
        "Prefilling" => RequestPhase::Prefilling {
            iteration_first_scheduled: 1,
        },
        "SkippedPrefill" => RequestPhase::SkippedPrefill,
        "Decoding" => RequestPhase::Decoding {
            ops: OperationTracker::new(),
            iteration_first_scheduled: 1,
        },
        "SkippedDecode" => RequestPhase::SkippedDecode {
            ops: OperationTracker::new(),
        },
        "Finishing" => RequestPhase::Finishing {
            ops: {
                let mut t = OperationTracker::new();
                t.append_pending(mock_load_request("matrix", vec![1]));
                let _ = t.take_pending_for_dispatch();
                t
            },
        },
        "Finished" => RequestPhase::Finished,
        "Preempted" => RequestPhase::Preempted {
            recovered_from_failure: false,
        },
        _ => panic!("unknown phase: {name}"),
    }
}

fn make_event(name: &str) -> TestEvent {
    match name {
        "AcquireMatches" => SlotEvent::AcquireMatches { num_computed_tokens: 0 },
        "LocalLookupCompleted" => SlotEvent::LocalLookupCompleted {
            host_blocks: vec![()],
            disk_blocks: vec![],
            remote_candidates: vec![],
        },
        "RemoteLookupCompleted" => SlotEvent::RemoteLookupCompleted {
            matches: vec![(0xAB, 0xCD)],
        },
        "RemoteLookupClosed" => SlotEvent::RemoteLookupClosed,
        "PrefetchReady" => SlotEvent::PrefetchReady { blocks: vec![()] },
        "PrefetchTimeout" => SlotEvent::PrefetchTimeout,
        "PrefetchFailed" => SlotEvent::PrefetchFailed,
        "PollMatchReport" => SlotEvent::PollMatchReport,
        "AllocCompleted" => SlotEvent::AllocCompleted {
            block_ids: vec![10, 11],
            num_external_tokens: 32,
        },
        "ApplySchedulerOutput" => SlotEvent::ApplySchedulerOutput {
            tokens: vec![42],
            block_ids: vec![1, 2],
            num_computed_tokens: 16,
            num_scheduled_tokens: 1,
            priorities: None,
            iteration: 1,
        },
        "MarkSkipped" => SlotEvent::MarkSkipped,
        "TransferDispatched" => SlotEvent::TransferDispatched { count: 1 },
        "TransferCompleted" => SlotEvent::TransferCompleted {
            operation_id: NIL_OPERATION_ID,
        },
        "TransferFailed" => SlotEvent::TransferFailed {
            operation_id: NIL_OPERATION_ID,
        },
        "RequestFinished" => SlotEvent::RequestFinished,
        "Preempt" => SlotEvent::Preempt,
        "Reset" => SlotEvent::Reset,
        _ => panic!("unknown event: {name}"),
    }
}

const ALL_PHASE_NAMES: &[&str] = &[
    "Initialized", "AwaitingLookup", "LookingUp", "Prefetching",
    "OnboardReady", "Onboarding", "Prefilling", "SkippedPrefill",
    "Decoding", "SkippedDecode", "Finishing", "Finished", "Preempted",
];

const ALL_EVENT_NAMES: &[&str] = &[
    "AcquireMatches", "LocalLookupCompleted", "RemoteLookupCompleted",
    "RemoteLookupClosed", "PrefetchReady", "PrefetchTimeout", "PrefetchFailed",
    "PollMatchReport", "AllocCompleted", "ApplySchedulerOutput", "MarkSkipped",
    "TransferDispatched", "TransferCompleted", "TransferFailed", "RequestFinished",
    "Preempt", "Reset",
];

#[derive(Debug, Clone, Copy, PartialEq, Eq)]
enum Expectation {
    Transitions,
    NoOp,
    DataDependent,
}

fn transition_table() -> std::collections::HashMap<(&'static str, &'static str), Expectation> {
    let entries: Vec<((&str, &str), Expectation)> = vec![
        (("Initialized", "Reset"), Expectation::Transitions),
        (("AwaitingLookup", "Reset"), Expectation::Transitions),
        (("LookingUp", "Reset"), Expectation::Transitions),
        (("Prefetching", "Reset"), Expectation::Transitions),
        (("OnboardReady", "Reset"), Expectation::Transitions),
        (("Onboarding", "Reset"), Expectation::Transitions),
        (("Prefilling", "Reset"), Expectation::Transitions),
        (("SkippedPrefill", "Reset"), Expectation::Transitions),
        (("Decoding", "Reset"), Expectation::Transitions),
        (("SkippedDecode", "Reset"), Expectation::Transitions),
        (("Finishing", "Reset"), Expectation::Transitions),
        (("Finished", "Reset"), Expectation::Transitions),
        (("Preempted", "Reset"), Expectation::Transitions),
        (("Finished", "Preempt"), Expectation::NoOp),
        (("Preempted", "Preempt"), Expectation::NoOp),
        (("LookingUp", "Preempt"), Expectation::Transitions),
        (("Prefetching", "Preempt"), Expectation::Transitions),
        (("OnboardReady", "Preempt"), Expectation::Transitions),
        (("Initialized", "Preempt"), Expectation::Transitions),
        (("AwaitingLookup", "Preempt"), Expectation::Transitions),
        (("Onboarding", "Preempt"), Expectation::Transitions),
        (("Prefilling", "Preempt"), Expectation::Transitions),
        (("SkippedPrefill", "Preempt"), Expectation::Transitions),
        (("Decoding", "Preempt"), Expectation::Transitions),
        (("SkippedDecode", "Preempt"), Expectation::Transitions),
        (("Finishing", "Preempt"), Expectation::Transitions),
        (("Initialized", "AcquireMatches"), Expectation::Transitions),
        (("Initialized", "ApplySchedulerOutput"), Expectation::DataDependent),
        (("Initialized", "LocalLookupCompleted"), Expectation::NoOp),
        (("Initialized", "RemoteLookupCompleted"), Expectation::NoOp),
        (("Initialized", "RemoteLookupClosed"), Expectation::NoOp),
        (("Initialized", "PrefetchReady"), Expectation::NoOp),
        (("Initialized", "PrefetchTimeout"), Expectation::NoOp),
        (("Initialized", "PrefetchFailed"), Expectation::NoOp),
        (("Initialized", "PollMatchReport"), Expectation::NoOp),
        (("Initialized", "AllocCompleted"), Expectation::NoOp),
        (("Initialized", "MarkSkipped"), Expectation::NoOp),
        (("Initialized", "TransferDispatched"), Expectation::NoOp),
        (("Initialized", "TransferCompleted"), Expectation::NoOp),
        (("Initialized", "TransferFailed"), Expectation::NoOp),
        (("Initialized", "RequestFinished"), Expectation::NoOp),
        (("AwaitingLookup", "LocalLookupCompleted"), Expectation::DataDependent),
        (("AwaitingLookup", "AcquireMatches"), Expectation::NoOp),
        (("AwaitingLookup", "RemoteLookupCompleted"), Expectation::NoOp),
        (("AwaitingLookup", "RemoteLookupClosed"), Expectation::NoOp),
        (("AwaitingLookup", "PrefetchReady"), Expectation::NoOp),
        (("AwaitingLookup", "PrefetchTimeout"), Expectation::NoOp),
        (("AwaitingLookup", "PrefetchFailed"), Expectation::NoOp),
        (("AwaitingLookup", "PollMatchReport"), Expectation::NoOp),
        (("AwaitingLookup", "AllocCompleted"), Expectation::NoOp),
        (("AwaitingLookup", "ApplySchedulerOutput"), Expectation::NoOp),
        (("AwaitingLookup", "MarkSkipped"), Expectation::NoOp),
        (("AwaitingLookup", "TransferDispatched"), Expectation::NoOp),
        (("AwaitingLookup", "TransferCompleted"), Expectation::NoOp),
        (("AwaitingLookup", "TransferFailed"), Expectation::NoOp),
        (("AwaitingLookup", "RequestFinished"), Expectation::NoOp),
        (("LookingUp", "RemoteLookupCompleted"), Expectation::DataDependent),
        (("LookingUp", "RemoteLookupClosed"), Expectation::DataDependent),
        (("LookingUp", "AcquireMatches"), Expectation::NoOp),
        (("LookingUp", "LocalLookupCompleted"), Expectation::NoOp),
        (("LookingUp", "PrefetchReady"), Expectation::NoOp),
        (("LookingUp", "PrefetchTimeout"), Expectation::NoOp),
        (("LookingUp", "PrefetchFailed"), Expectation::NoOp),
        (("LookingUp", "PollMatchReport"), Expectation::NoOp),
        (("LookingUp", "AllocCompleted"), Expectation::NoOp),
        (("LookingUp", "ApplySchedulerOutput"), Expectation::NoOp),
        (("LookingUp", "MarkSkipped"), Expectation::NoOp),
        (("LookingUp", "TransferDispatched"), Expectation::NoOp),
        (("LookingUp", "TransferCompleted"), Expectation::NoOp),
        (("LookingUp", "TransferFailed"), Expectation::NoOp),
        (("LookingUp", "RequestFinished"), Expectation::NoOp),
        (("Prefetching", "PrefetchReady"), Expectation::Transitions),
        (("Prefetching", "TransferCompleted"), Expectation::DataDependent),
        (("Prefetching", "PrefetchTimeout"), Expectation::Transitions),
        (("Prefetching", "PrefetchFailed"), Expectation::DataDependent),
        (("Prefetching", "AcquireMatches"), Expectation::NoOp),
        (("Prefetching", "LocalLookupCompleted"), Expectation::NoOp),
        (("Prefetching", "RemoteLookupCompleted"), Expectation::NoOp),
        (("Prefetching", "RemoteLookupClosed"), Expectation::NoOp),
        (("Prefetching", "PollMatchReport"), Expectation::NoOp),
        (("Prefetching", "AllocCompleted"), Expectation::NoOp),
        (("Prefetching", "ApplySchedulerOutput"), Expectation::NoOp),
        (("Prefetching", "MarkSkipped"), Expectation::NoOp),
        (("Prefetching", "TransferDispatched"), Expectation::NoOp),
        (("Prefetching", "TransferFailed"), Expectation::NoOp),
        (("Prefetching", "RequestFinished"), Expectation::NoOp),
        (("OnboardReady", "PollMatchReport"), Expectation::Transitions),
        (("OnboardReady", "AllocCompleted"), Expectation::Transitions),
        (("OnboardReady", "AcquireMatches"), Expectation::NoOp),
        (("OnboardReady", "LocalLookupCompleted"), Expectation::NoOp),
        (("OnboardReady", "RemoteLookupCompleted"), Expectation::NoOp),
        (("OnboardReady", "RemoteLookupClosed"), Expectation::NoOp),
        (("OnboardReady", "PrefetchReady"), Expectation::NoOp),
        (("OnboardReady", "PrefetchTimeout"), Expectation::NoOp),
        (("OnboardReady", "PrefetchFailed"), Expectation::NoOp),
        (("OnboardReady", "ApplySchedulerOutput"), Expectation::NoOp),
        (("OnboardReady", "MarkSkipped"), Expectation::NoOp),
        (("OnboardReady", "TransferDispatched"), Expectation::NoOp),
        (("OnboardReady", "TransferCompleted"), Expectation::NoOp),
        (("OnboardReady", "TransferFailed"), Expectation::NoOp),
        (("OnboardReady", "RequestFinished"), Expectation::NoOp),
        (("Onboarding", "ApplySchedulerOutput"), Expectation::DataDependent),
        (("Onboarding", "AcquireMatches"), Expectation::NoOp),
        (("Onboarding", "LocalLookupCompleted"), Expectation::NoOp),
        (("Onboarding", "RemoteLookupCompleted"), Expectation::NoOp),
        (("Onboarding", "RemoteLookupClosed"), Expectation::NoOp),
        (("Onboarding", "PrefetchReady"), Expectation::NoOp),
        (("Onboarding", "PrefetchTimeout"), Expectation::NoOp),
        (("Onboarding", "PrefetchFailed"), Expectation::NoOp),
        (("Onboarding", "PollMatchReport"), Expectation::NoOp),
        (("Onboarding", "AllocCompleted"), Expectation::NoOp),
        (("Onboarding", "MarkSkipped"), Expectation::NoOp),
        (("Onboarding", "TransferDispatched"), Expectation::NoOp),
        (("Onboarding", "TransferCompleted"), Expectation::NoOp),
        (("Onboarding", "TransferFailed"), Expectation::NoOp),
        (("Onboarding", "RequestFinished"), Expectation::NoOp),
        (("Prefilling", "ApplySchedulerOutput"), Expectation::DataDependent),
        (("Prefilling", "MarkSkipped"), Expectation::Transitions),
        (("Prefilling", "AcquireMatches"), Expectation::NoOp),
        (("Prefilling", "LocalLookupCompleted"), Expectation::NoOp),
        (("Prefilling", "RemoteLookupCompleted"), Expectation::NoOp),
        (("Prefilling", "RemoteLookupClosed"), Expectation::NoOp),
        (("Prefilling", "PrefetchReady"), Expectation::NoOp),
        (("Prefilling", "PrefetchTimeout"), Expectation::NoOp),
        (("Prefilling", "PrefetchFailed"), Expectation::NoOp),
        (("Prefilling", "PollMatchReport"), Expectation::NoOp),
        (("Prefilling", "AllocCompleted"), Expectation::NoOp),
        (("Prefilling", "TransferDispatched"), Expectation::NoOp),
        (("Prefilling", "TransferCompleted"), Expectation::NoOp),
        (("Prefilling", "TransferFailed"), Expectation::NoOp),
        (("Prefilling", "RequestFinished"), Expectation::Transitions),
        (("SkippedPrefill", "ApplySchedulerOutput"), Expectation::DataDependent),
        (("SkippedPrefill", "AcquireMatches"), Expectation::NoOp),
        (("SkippedPrefill", "LocalLookupCompleted"), Expectation::NoOp),
        (("SkippedPrefill", "RemoteLookupCompleted"), Expectation::NoOp),
        (("SkippedPrefill", "RemoteLookupClosed"), Expectation::NoOp),
        (("SkippedPrefill", "PrefetchReady"), Expectation::NoOp),
        (("SkippedPrefill", "PrefetchTimeout"), Expectation::NoOp),
        (("SkippedPrefill", "PrefetchFailed"), Expectation::NoOp),
        (("SkippedPrefill", "PollMatchReport"), Expectation::NoOp),
        (("SkippedPrefill", "AllocCompleted"), Expectation::NoOp),
        (("SkippedPrefill", "MarkSkipped"), Expectation::NoOp),
        (("SkippedPrefill", "TransferDispatched"), Expectation::NoOp),
        (("SkippedPrefill", "TransferCompleted"), Expectation::NoOp),
        (("SkippedPrefill", "TransferFailed"), Expectation::NoOp),
        (("SkippedPrefill", "RequestFinished"), Expectation::Transitions),
        (("Decoding", "ApplySchedulerOutput"), Expectation::NoOp),
        (("Decoding", "MarkSkipped"), Expectation::Transitions),
        (("Decoding", "RequestFinished"), Expectation::DataDependent),
        (("Decoding", "TransferCompleted"), Expectation::Transitions),
        (("Decoding", "TransferFailed"), Expectation::Transitions),
        (("Decoding", "TransferDispatched"), Expectation::NoOp),
        (("Decoding", "AcquireMatches"), Expectation::NoOp),
        (("Decoding", "LocalLookupCompleted"), Expectation::NoOp),
        (("Decoding", "RemoteLookupCompleted"), Expectation::NoOp),
        (("Decoding", "RemoteLookupClosed"), Expectation::NoOp),
        (("Decoding", "PrefetchReady"), Expectation::NoOp),
        (("Decoding", "PrefetchTimeout"), Expectation::NoOp),
        (("Decoding", "PrefetchFailed"), Expectation::NoOp),
        (("Decoding", "PollMatchReport"), Expectation::NoOp),
        (("Decoding", "AllocCompleted"), Expectation::NoOp),
        (("SkippedDecode", "ApplySchedulerOutput"), Expectation::Transitions),
        (("SkippedDecode", "AcquireMatches"), Expectation::NoOp),
        (("SkippedDecode", "LocalLookupCompleted"), Expectation::NoOp),
        (("SkippedDecode", "RemoteLookupCompleted"), Expectation::NoOp),
        (("SkippedDecode", "RemoteLookupClosed"), Expectation::NoOp),
        (("SkippedDecode", "PrefetchReady"), Expectation::NoOp),
        (("SkippedDecode", "PrefetchTimeout"), Expectation::NoOp),
        (("SkippedDecode", "PrefetchFailed"), Expectation::NoOp),
        (("SkippedDecode", "PollMatchReport"), Expectation::NoOp),
        (("SkippedDecode", "AllocCompleted"), Expectation::NoOp),
        (("SkippedDecode", "MarkSkipped"), Expectation::NoOp),
        (("SkippedDecode", "TransferDispatched"), Expectation::NoOp),
        (("SkippedDecode", "TransferCompleted"), Expectation::NoOp),
        (("SkippedDecode", "TransferFailed"), Expectation::NoOp),
        (("SkippedDecode", "RequestFinished"), Expectation::NoOp),
        (("Finishing", "TransferCompleted"), Expectation::DataDependent),
        (("Finishing", "TransferFailed"), Expectation::DataDependent),
        (("Finishing", "TransferDispatched"), Expectation::NoOp),
        (("Finishing", "AcquireMatches"), Expectation::NoOp),
        (("Finishing", "LocalLookupCompleted"), Expectation::NoOp),
        (("Finishing", "RemoteLookupCompleted"), Expectation::NoOp),
        (("Finishing", "RemoteLookupClosed"), Expectation::NoOp),
        (("Finishing", "PrefetchReady"), Expectation::NoOp),
        (("Finishing", "PrefetchTimeout"), Expectation::NoOp),
        (("Finishing", "PrefetchFailed"), Expectation::NoOp),
        (("Finishing", "PollMatchReport"), Expectation::NoOp),
        (("Finishing", "AllocCompleted"), Expectation::NoOp),
        (("Finishing", "ApplySchedulerOutput"), Expectation::NoOp),
        (("Finishing", "MarkSkipped"), Expectation::NoOp),
        (("Finishing", "RequestFinished"), Expectation::NoOp),
        (("Finished", "AcquireMatches"), Expectation::NoOp),
        (("Finished", "LocalLookupCompleted"), Expectation::NoOp),
        (("Finished", "RemoteLookupCompleted"), Expectation::NoOp),
        (("Finished", "RemoteLookupClosed"), Expectation::NoOp),
        (("Finished", "PrefetchReady"), Expectation::NoOp),
        (("Finished", "PrefetchTimeout"), Expectation::NoOp),
        (("Finished", "PrefetchFailed"), Expectation::NoOp),
        (("Finished", "PollMatchReport"), Expectation::NoOp),
        (("Finished", "AllocCompleted"), Expectation::NoOp),
        (("Finished", "ApplySchedulerOutput"), Expectation::NoOp),
        (("Finished", "MarkSkipped"), Expectation::NoOp),
        (("Finished", "TransferDispatched"), Expectation::NoOp),
        (("Finished", "TransferCompleted"), Expectation::NoOp),
        (("Finished", "TransferFailed"), Expectation::NoOp),
        (("Finished", "RequestFinished"), Expectation::NoOp),
        (("Preempted", "AcquireMatches"), Expectation::Transitions),
        (("Preempted", "LocalLookupCompleted"), Expectation::NoOp),
        (("Preempted", "RemoteLookupCompleted"), Expectation::NoOp),
        (("Preempted", "RemoteLookupClosed"), Expectation::NoOp),
        (("Preempted", "PrefetchReady"), Expectation::NoOp),
        (("Preempted", "PrefetchTimeout"), Expectation::NoOp),
        (("Preempted", "PrefetchFailed"), Expectation::NoOp),
        (("Preempted", "PollMatchReport"), Expectation::NoOp),
        (("Preempted", "AllocCompleted"), Expectation::NoOp),
        (("Preempted", "ApplySchedulerOutput"), Expectation::NoOp),
        (("Preempted", "MarkSkipped"), Expectation::NoOp),
        (("Preempted", "TransferDispatched"), Expectation::NoOp),
        (("Preempted", "TransferCompleted"), Expectation::NoOp),
        (("Preempted", "TransferFailed"), Expectation::NoOp),
        (("Preempted", "RequestFinished"), Expectation::NoOp),
    ];
    entries.into_iter().collect()
}

fn phase_name(phase: &TestPhase) -> &'static str {
    match phase {
        RequestPhase::Initialized => "Initialized",
        RequestPhase::AwaitingLookup => "AwaitingLookup",
        RequestPhase::LookingUp { .. } => "LookingUp",
        RequestPhase::Prefetching { .. } => "Prefetching",
        RequestPhase::OnboardReady { .. } => "OnboardReady",
        RequestPhase::Onboarding { .. } => "Onboarding",
        RequestPhase::Prefilling { .. } => "Prefilling",
        RequestPhase::SkippedPrefill => "SkippedPrefill",
        RequestPhase::Decoding { .. } => "Decoding",
        RequestPhase::SkippedDecode { .. } => "SkippedDecode",
        RequestPhase::Finishing { .. } => "Finishing",
        RequestPhase::Finished => "Finished",
        RequestPhase::Preempted { .. } => "Preempted",
    }
}

#[test]
fn exhaustive_transition_matrix() {
    let table = transition_table();

    assert_eq!(
        table.len(),
        ALL_PHASE_NAMES.len() * ALL_EVENT_NAMES.len(),
        "transition table must have exactly phases*events entries ({}*{}={}); got {}",
        ALL_PHASE_NAMES.len(), ALL_EVENT_NAMES.len(),
        ALL_PHASE_NAMES.len() * ALL_EVENT_NAMES.len(), table.len(),
    );

    let ctx = mock_ctx();
    let mut noop_tested = 0;

    for &p_name in ALL_PHASE_NAMES {
        for &e_name in ALL_EVENT_NAMES {
            let key = (p_name, e_name);
            let expectation = table.get(&key).unwrap_or_else(|| {
                panic!("MISSING from transition table: ({}, {})", p_name, e_name);
            });

            if *expectation == Expectation::NoOp {
                let phase = make_phase(p_name);
                let event = make_event(e_name);
                let (new_phase, effects) = phase.apply(event, &ctx);
                let new_name = phase_name(&new_phase);
                assert_eq!(
                    new_name, p_name,
                    "NoOp ({}, {}) changed phase from {} to {}",
                    p_name, e_name, p_name, new_name,
                );
                assert!(
                    effects.is_empty()
                        || effects.iter().all(|e| matches!(e, SlotEffect::Diag { .. })),
                    "NoOp ({}, {}) produced non-Diag effects: {:?}",
                    p_name, e_name, effects,
                );
                noop_tested += 1;
            }
        }
    }

    assert!(
        noop_tested > 100,
        "expected >100 NoOp pairs tested, got {}",
        noop_tested,
    );
}

fn check_invariants(phase: &TestPhase, block_size: usize) {
    match phase {
        RequestPhase::OnboardReady {
            num_external_tokens,
            host_staging,
            disk_staging,
            ..
        } => {
            let actual_blocks = host_staging.len() + disk_staging.len();
            assert!(
                actual_blocks > 0,
                "invariant: OnboardReady with zero staging blocks"
            );
            assert_eq!(
                *num_external_tokens,
                actual_blocks * block_size,
                "invariant: OnboardReady num_external_tokens ({}) != staging blocks ({}) * block_size ({})",
                num_external_tokens, actual_blocks, block_size,
            );
        }
        RequestPhase::Onboarding {
            num_external_tokens,
            ..
        } => {
            assert!(
                *num_external_tokens > 0,
                "invariant: Onboarding with zero external tokens"
            );
        }
        RequestPhase::Finishing { ops } => {
            assert!(
                ops.has_any(),
                "invariant: Finishing must have pending ops (otherwise should be Finished)"
            );
        }
        _ => {}
    }
}

fn apply_checked(
    phase: TestPhase,
    event: TestEvent,
    ctx: &SlotContext,
) -> (TestPhase, Vec<SlotEffect<(), ()>>) {
    let (new_phase, effects) = phase.apply(event, ctx);
    check_invariants(&new_phase, ctx.block_size);
    (new_phase, effects)
}

#[test]
fn invariant_checker_accepts_valid_onboard_ready() {
    let good = RequestPhase::<(), ()>::OnboardReady {
        num_external_tokens: 32,
        host_staging: vec![(), ()],
        disk_staging: vec![],
        remote_hashes: vec![],
        disclosure: DisclosureState::Pending,
        prefetched_blocks_for_stats: 0,
    };
    check_invariants(&good, 16);
}

#[test]
fn invariants_hold_along_the_local_path() {
    let ctx = mock_ctx();
    let phase: TestPhase = RequestPhase::Initialized;
    let (phase, _) = apply_checked(phase, SlotEvent::AcquireMatches { num_computed_tokens: 0 }, &ctx);
    let (phase, _) = apply_checked(
        phase,
        SlotEvent::LocalLookupCompleted {
            host_blocks: vec![(), (), ()],
            disk_blocks: vec![()],
            remote_candidates: vec![],
        },
        &ctx,
    );
    assert_eq!(phase.as_slot_state(), SlotState::OnboardStaged(64));
    let (phase, _) = apply_checked(phase, SlotEvent::PollMatchReport, &ctx);
    let (phase, _) = apply_checked(
        phase,
        SlotEvent::AllocCompleted { block_ids: vec![1, 2, 3, 4], num_external_tokens: 64 },
        &ctx,
    );
    assert_eq!(phase.as_slot_state(), SlotState::Onboarding(64));
    let (phase, _) = apply_checked(phase, make_scheduler_output_decode(), &ctx);
    let (phase, _) = apply_checked(phase, SlotEvent::RequestFinished, &ctx);
    assert!(matches!(phase, RequestPhase::Finished));
}
