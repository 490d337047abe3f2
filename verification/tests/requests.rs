//! Requests to the transfer engine, block tables and checksums.

use kvbm::checksum::{
    compute_checksum, compute_g4_checksums, g4_checksum_enabled, verify_checksum,
    verify_g4_checksums, ChecksumBuilder, G4ChecksumError,
};
use kvbm::protocol::{RequestType, SlotKey, TransferType};
use kvbm::slot_runtime::{classify_device_block_table_update, DeviceBlockTableUpdateKind};
use kvbm::tokens::{TokenBlock, TokenBlockSequence};
use kvbm::transfer_requests::{
    onboard_from_g4, G4OnboardParams, LocalOffloadRequest, LocalOnboardRequest,
    RemoteTransferRequest, StagingTier,
};

fn new_id() -> u128 {
    uuid::Uuid::new_v4().as_u128()
}

fn make_token_blocks(tokens: &[u32]) -> Vec<TokenBlock> {
    let hashes: Vec<u64> = tokens.iter().map(|&token| token as u64).collect();
    TokenBlockSequence::new(tokens.to_vec(), 1, hashes).blocks()
}

#[test]
fn test_h2o_request_creation() {
    let request_id = "test-request-001".to_string();
    let sequence_hashes = vec![0x1234, 0x5678, 0x9ABC];
    let host_block_ids = vec![42, 17, 88];
    let operation_id = new_id();
    let block_size = 16;

    let pin_id = new_id();
    let req = RemoteTransferRequest::new_h2o(
        SlotKey::new(request_id.clone(), 7),
        sequence_hashes.clone(),
        host_block_ids.clone(),
        operation_id,
        block_size,
        pin_id,
        None,
        None,
    );

    assert!(!req.is_onboard);
    assert!(req.is_h2o());
    assert_eq!(req.sequence_hashes, sequence_hashes);
    assert_eq!(req.host_block_ids, Some(host_block_ids));
    assert!(req.device_block_ids.is_empty());
    assert_eq!(req.block_size, block_size);
    assert_eq!(req.key.request_id, request_id);
    assert_eq!(req.key.generation, 7);
    assert_eq!(req.pin_id, Some(pin_id));
}

#[test]
fn test_g4_onboard_request_creation_for_host_prefetch() {
    let request_id = "test-request-g4-prefetch".to_string();
    let key = SlotKey::new(request_id.clone(), 0);
    let sequence_hashes = vec![0x1111, 0x2222, 0x3333];
    let device_block_ids = vec![];
    let operation_id = new_id();
    let block_size = 16;
    let token_blocks = make_token_blocks(&[0x1111, 0x2222, 0x3333]);
    let traceparent = Some("00-0123456789abcdef0123456789abcdef-0123456789abcdef-01".to_string());

    let params = G4OnboardParams {
        key: key.clone(),
        request_id: request_id.clone(),
        sequence_hashes: sequence_hashes.clone(),
        device_block_ids: device_block_ids.clone(),
        operation_id,
        block_size,
        token_blocks: token_blocks.clone(),
    };

    let req = RemoteTransferRequest::from_g4_params(&params, traceparent.clone(), None);

    assert!(req.is_onboard);
    assert!(!req.is_h2o());
    assert_eq!(req.key.request_id, request_id);
    assert_eq!(req.key, key);
    assert_eq!(req.sequence_hashes, sequence_hashes);
    assert_eq!(req.device_block_ids, device_block_ids);
    assert_eq!(req.host_block_ids, None);
    assert_eq!(req.operation_id, operation_id);
    assert_eq!(req.block_size, block_size);
    assert_eq!(req.token_blocks, Some(token_blocks));
    assert_eq!(req.traceparent, traceparent);
}

#[test]
fn test_local_offload_request_has_block_size() {
    let request_id = "test-request".to_string();
    let key = SlotKey::new(request_id.clone(), 0);
    let block_ids = vec![0, 1, 2];
    let operation_id = new_id();
    let block_size = 16;

    let req = LocalOffloadRequest {
        key: key.clone(),
        request_id: request_id.clone(),
        block_ids: block_ids.clone(),
        token_blocks: vec![],
        priorities: vec![],
        operation_id,
        sequence_hashes: vec![0x1234, 0x5678, 0x9ABC],
        block_size,
        traceparent: None,
        baggage: None,
    };

    assert_eq!(req.block_size, block_size);
    assert_eq!(req.block_ids.len(), 3);
    assert_eq!(req.key, key);
}

#[test]
fn test_local_offload_request_new_derives_sequence_hashes_and_traceparent() {
    let request_id = "test-offload-request".to_string();
    let key = SlotKey::new(request_id.clone(), 0);
    let block_ids = vec![7, 8];
    let operation_id = new_id();
    let block_size = 16;
    let traceparent = Some("00-fedcba9876543210fedcba9876543210-fedcba9876543210-01".to_string());

    let token_blocks = make_token_blocks(&[0xAAAA, 0xBBBB]);
    let priorities = vec![10, 20];

    let req = LocalOffloadRequest::new(
        key.clone(),
        block_ids.clone(),
        token_blocks.clone(),
        priorities.clone(),
        operation_id,
        block_size,
        traceparent.clone(),
        None,
    );

    assert_eq!(req.key.request_id, request_id);
    assert_eq!(req.key, key);
    assert_eq!(req.block_ids, block_ids);
    assert_eq!(req.operation_id, operation_id);
    assert_eq!(req.block_size, block_size);
    assert_eq!(req.priorities, priorities);
    assert_eq!(req.traceparent, traceparent);
    assert_eq!(
        req.sequence_hashes,
        token_blocks.iter().map(|tb| tb.sequence_hash()).collect::<Vec<_>>()
    );
}

#[test]
fn an_onboard_request_carries_its_blocks() {
    let req = LocalOnboardRequest::new(
        SlotKey::new("r".to_string(), 1),
        StagingTier::Disk,
        vec![1, 2],
        vec![3, 4],
        9,
        None,
    );
    assert_eq!(req.request_id, "r");
    assert_eq!(req.tier, StagingTier::Disk);
    assert_eq!((req.src_blocks, req.dst_block_ids), (vec![1, 2], vec![3, 4]));
}

#[test]
fn a_remote_onboard_is_one_immediate_load() {
    let key = SlotKey::new("r".to_string(), 1);
    let (params, ops) =
        onboard_from_g4(key.clone(), vec![1, 2], vec![30, 31], 16, make_token_blocks(&[1, 2]));
    assert_eq!(params.device_block_ids, vec![30, 31]);
    assert_eq!(ops.len(), 1);
    assert_eq!(ops[0].uuid, params.operation_id);
    assert_eq!(ops[0].key, key);
    assert_eq!(ops[0].transfer_type, TransferType::Load);
    assert_eq!(ops[0].request_type, RequestType::Immediate);
    let (again, _) = onboard_from_g4(key, vec![1], vec![30], 16, make_token_blocks(&[1]));
    assert_ne!(again.operation_id, params.operation_id);
}

#[test]
fn test_classify_device_block_table_update_append_suffix() {
    let existing = vec![100, 101, 102];
    let incoming = vec![100, 101, 102, 103, 104];
    assert_eq!(
        classify_device_block_table_update(&existing, &incoming),
        DeviceBlockTableUpdateKind::AppendSuffix
    );
}

#[test]
fn test_classify_device_block_table_update_no_change() {
    let existing = vec![10, 11, 12];
    let incoming = vec![10, 11, 12];
    assert_eq!(
        classify_device_block_table_update(&existing, &incoming),
        DeviceBlockTableUpdateKind::NoChange
    );
}

#[test]
fn test_classify_device_block_table_update_resync_reorder() {
    let existing = vec![364, 365, 366, 927];
    let incoming = vec![8, 5, 7, 9];
    assert_eq!(
        classify_device_block_table_update(&existing, &incoming),
        DeviceBlockTableUpdateKind::Resync
    );
}

#[test]
fn test_classify_device_block_table_update_resync_shrink() {
    let existing = vec![1, 2, 3, 4, 5];
    let incoming = vec![1, 2, 3];
    assert_eq!(
        classify_device_block_table_update(&existing, &incoming),
        DeviceBlockTableUpdateKind::Resync
    );
}

#[test]
fn test_classify_device_block_update() {
    let cases: Vec<(Vec<usize>, Vec<usize>, DeviceBlockTableUpdateKind)> = vec![
        (vec![1, 2, 3], vec![1, 2, 3, 4, 5], DeviceBlockTableUpdateKind::AppendSuffix),
        (vec![1, 2, 3], vec![1, 2, 3], DeviceBlockTableUpdateKind::NoChange),
        (vec![1, 2, 3], vec![4, 5, 6], DeviceBlockTableUpdateKind::Resync),
        (vec![1, 2, 3], vec![1, 2, 4], DeviceBlockTableUpdateKind::Resync),
        (vec![1, 2, 3], vec![1, 2], DeviceBlockTableUpdateKind::Resync),
        (vec![], vec![1, 2], DeviceBlockTableUpdateKind::AppendSuffix),
        (vec![], vec![], DeviceBlockTableUpdateKind::NoChange),
    ];
    for (existing, incoming, expected) in cases {
        assert_eq!(classify_device_block_table_update(&existing, &incoming), expected);
    }
}

#[test]
fn test_compute_checksum() {
    let data = b"hello world";
    let checksum = compute_checksum(data);

    assert_eq!(checksum.len(), 64);
    assert_eq!(checksum, compute_checksum(data));
}

#[test]
fn test_verify_checksum() {
    let data = b"test data";
    let checksum = compute_checksum(data);

    assert!(verify_checksum(data, &checksum));
    assert!(!verify_checksum(b"different data", &checksum));
}

#[test]
fn test_checksum_builder() {
    let data1 = b"hello ";
    let data2 = b"world";

    let mut builder = ChecksumBuilder::new();
    builder.update(data1);
    builder.update(data2);
    let incremental = builder.finalize();

    let full = compute_checksum(b"hello world");

    assert_eq!(incremental, full);
}

#[test]
fn the_checksum_of_nothing_is_the_published_one() {
    let empty = "af1349b9f5f9a1a6a0404dea36dcc9499bcb25c9adc112b7cc9a93cae41f3262";
    assert_eq!(compute_checksum(b""), empty);
    assert_eq!(ChecksumBuilder::default().finalize(), empty);
}

#[test]
fn written_blocks_are_verified_block_by_block() {
    let blocks = vec![vec![1u8, 2], vec![3u8, 4]];
    let records = compute_g4_checksums(&blocks, 2, &[0x10, 0x20]);
    assert_eq!(records.len(), 2);
    assert_eq!(records[1].sequence_hash, 0x20);
    assert_eq!(records[1].checksum, compute_checksum(&[3, 4]));
    assert_eq!(records[1].block_size, 2);
    assert!(verify_g4_checksums(&blocks, &records).is_ok());

    let damaged = vec![vec![1u8, 2], vec![3u8, 5]];
    match verify_g4_checksums(&damaged, &records) {
        Err(G4ChecksumError::Mismatch { block_index, sequence_hash, expected, actual }) => {
            assert_eq!((block_index, sequence_hash), (1, 0x20));
            assert_eq!(expected, compute_checksum(&[3, 4]));
            assert_eq!(actual, compute_checksum(&[3, 5]));
        }
        other => panic!("unexpected outcome {other:?}"),
    }
    match verify_g4_checksums(&blocks[..1], &records) {
        Err(G4ChecksumError::CountMismatch { actual, expected }) => {
            assert_eq!((actual, expected), (1, 2))
        }
        other => panic!("unexpected outcome {other:?}"),
    }
}

#[test]
fn checksums_are_switched_on_by_one_or_true() {
    for (value, on) in [("1", true), ("true", true), ("TRUE", true), ("tRuE", true)] {
        assert_eq!(g4_checksum_enabled(&Some(value.to_string())), on);
    }
    for value in ["0", "false", "truer", "11", "", "yes"] {
        assert!(!g4_checksum_enabled(&Some(value.to_string())));
    }
    assert!(!g4_checksum_enabled(&None));
}
