//! Lookups in the registry of remote blocks, and what is offloaded to it.

use kvbm::config::{RemoteStorageConfig, DISK_FLAGS_POSIX_BOTH};
use kvbm::offload_planner::{
    create_descriptors, create_transfer_pipeline, filter_for_offload, filter_offload_hashes,
    should_trigger_h2o,
};
use kvbm::protocol::SequenceHash;
use kvbm::registry_ops::{
    build_entries, find_common_prefix, match_prefix_tp_blocking, match_prefix_tp_query,
    register_tp, PositionalKey, RegistryQuery,
};
use kvbm::remote::{RemoteBlockDescriptor, RemoteTransferDirection, RemoteTransferPipeline};

#[test]
fn test_find_common_prefix_all_match() {
    let results: Vec<Vec<SequenceHash>> = vec![
        vec![1, 2, 3, 4],
        vec![1, 2, 3, 4],
        vec![1, 2, 3, 4],
    ];
    assert_eq!(find_common_prefix(&results), vec![1u64, 2, 3, 4]);
}

#[test]
fn test_find_common_prefix_partial() {
    let results: Vec<Vec<SequenceHash>> = vec![
        vec![1, 2, 3, 4],
        vec![1, 2, 3],
        vec![1, 2],
    ];
    assert_eq!(find_common_prefix(&results), vec![1u64, 2]);
}

#[test]
fn test_find_common_prefix_mismatch() {
    let results: Vec<Vec<SequenceHash>> = vec![
        vec![1, 2, 3],
        vec![1, 9, 3], // different at position 1
    ];
    assert_eq!(find_common_prefix(&results), vec![1u64]);
}

#[test]
fn test_find_common_prefix_empty() {
    let results: Vec<Vec<SequenceHash>> = vec![vec![], vec![1, 2]];
    let expected: Vec<SequenceHash> = vec![];
    assert_eq!(find_common_prefix(&results), expected);
}

#[test]
fn test_find_common_prefix_no_results() {
    let results: Vec<Vec<SequenceHash>> = vec![];
    let expected: Vec<SequenceHash> = vec![];
    assert_eq!(find_common_prefix(&results), expected);
}

#[test]
fn test_filter_offload_hashes_all_can_offload() {
    let sequence: Vec<SequenceHash> = vec![1, 2, 3, 4];
    let can_offload: Vec<SequenceHash> = vec![1, 2, 3, 4];
    let already_stored: Vec<SequenceHash> = vec![];

    let result = filter_offload_hashes(&sequence, &can_offload, &already_stored, None);
    assert!(result.is_some());

    let (hashes_with_pos, host_ids) = result.unwrap();
    assert_eq!(
        hashes_with_pos,
        vec![(1, 0), (2, 1), (3, 2), (4, 3)]
    );
    assert!(host_ids.is_none());
}

#[test]
fn test_filter_offload_hashes_partial() {
    let sequence: Vec<SequenceHash> = vec![1, 2, 3, 4];
    let can_offload: Vec<SequenceHash> = vec![1, 3]; // 2 and 4 already stored
    let already_stored: Vec<SequenceHash> = vec![2, 4];

    let result = filter_offload_hashes(&sequence, &can_offload, &already_stored, None);
    assert!(result.is_some());

    let (hashes_with_pos, _) = result.unwrap();
    // Positions preserved: 1 at pos 0, 3 at pos 2
    assert_eq!(hashes_with_pos, vec![(1, 0), (3, 2)]);
}

#[test]
fn test_filter_offload_hashes_with_host_ids() {
    let sequence: Vec<SequenceHash> = vec![1, 2, 3, 4];
    let can_offload: Vec<SequenceHash> = vec![1, 3];
    let already_stored: Vec<SequenceHash> = vec![2, 4];
    let host_ids: Vec<usize> = vec![10, 20, 30, 40];

    let result = filter_offload_hashes(&sequence, &can_offload, &already_stored, Some(&host_ids));
    assert!(result.is_some());

    let (_, filtered_host_ids) = result.unwrap();
    // Host IDs for hashes 1 and 3 (not in already_stored)
    assert_eq!(filtered_host_ids, Some(vec![10, 30]));
}

#[test]
fn test_filter_offload_hashes_all_stored() {
    let sequence: Vec<SequenceHash> = vec![1, 2];
    let can_offload: Vec<SequenceHash> = vec![]; // Nothing to offload
    let already_stored: Vec<SequenceHash> = vec![1, 2];

    let result = filter_offload_hashes(&sequence, &can_offload, &already_stored, None);
    assert!(result.is_none());
}

#[test]
fn test_should_trigger_h2o() {
    // All conditions met
    assert!(should_trigger_h2o(true, true, 0, 8));
    assert!(should_trigger_h2o(true, true, 7, 8));

    // At max concurrent
    assert!(!should_trigger_h2o(true, true, 8, 8));
    assert!(!should_trigger_h2o(true, true, 10, 8));

    // Not host transfer
    assert!(!should_trigger_h2o(false, true, 0, 8));

    // Registry disabled
    assert!(!should_trigger_h2o(true, false, 0, 8));
}

fn always_matches(hashes: &[u64], world_size: usize) -> Vec<u64> {
    match match_prefix_tp_query(hashes, world_size) {
        RegistryQuery::Nothing => match_prefix_tp_blocking(hashes, world_size, &[], &[]),
        RegistryQuery::Lookup(asked) => match_prefix_tp_blocking(hashes, world_size, &asked, &[]),
        RegistryQuery::MatchPrefix(keys) => match_prefix_tp_blocking(hashes, world_size, &[], &keys),
    }
}

#[test]
fn g4_match_prefix_tp_blocking_world_size_1_mock_hits() {
    let hashes = vec![0x1111_u64, 0x2222, 0x3333];
    assert_eq!(always_matches(&hashes, 1), hashes);
}

#[test]
fn g4_match_prefix_tp_blocking_world_size_2_consensus() {
    let hashes = vec![0xaa_u64, 0xbb];
    assert_eq!(always_matches(&hashes, 2), hashes);
}

#[test]
fn nothing_is_looked_up_for_no_hash_or_no_rank() {
    assert!(always_matches(&[], 2).is_empty());
    assert!(always_matches(&[1, 2], 0).is_empty());
}

#[test]
fn only_what_every_rank_has_is_a_match() {
    let key = |worker_id: u64, sequence_hash: u64, position: u32| PositionalKey {
        worker_id,
        sequence_hash,
        position,
    };
    let answer = vec![key(0, 1, 0), key(0, 2, 1), key(1, 1, 0)];
    assert_eq!(match_prefix_tp_blocking(&[1, 2], 2, &[], &answer), vec![1u64]);
    let disagree = vec![key(0, 1, 0), key(1, 7, 0)];
    assert!(match_prefix_tp_blocking(&[1, 2], 2, &[], &disagree).is_empty());
}

#[test]
fn a_lookup_for_two_ranks_asks_rank_by_rank() {
    match match_prefix_tp_query(&[5, 6], 2) {
        RegistryQuery::MatchPrefix(keys) => {
            let plain: Vec<(u64, u64, u32)> =
                keys.iter().map(|k| (k.worker_id, k.sequence_hash, k.position)).collect();
            assert_eq!(plain, vec![(0, 5, 0), (0, 6, 1), (1, 5, 0), (1, 6, 1)]);
        }
        other => panic!("unexpected query {other:?}"),
    }
}

#[test]
fn entries_name_the_stored_blocks() {
    let disk = RemoteStorageConfig::disk("/kv/{worker_id}", DISK_FLAGS_POSIX_BOTH);
    let entries = build_entries(&[(0xabcd, 3)], &disk, 1, 4);
    assert_eq!(entries.len(), 1);
    assert_eq!((entries[0].0, entries[0].1), (0xabcd, 3));
    assert_eq!(entries[0].2.location(), "/kv/1");
    assert_eq!(entries[0].2.key_str(), "000000000000abcd_1_4");

    let object = RemoteStorageConfig::object("kv-{worker_id}");
    let entries = build_entries(&[(0x10, 0)], &object, 2, 4);
    assert_eq!(entries[0].2.location(), "kv-2");
    assert_eq!(entries[0].2.key_str(), "0000000000000010");

    let nameless = RemoteStorageConfig::object_with_options(None, None, None);
    assert_eq!(build_entries(&[(1, 0)], &nameless, 0, 1)[0].2.location(), "dynamo-kv-cache");
}

#[test]
fn every_rank_registers_its_own_entries() {
    let object = RemoteStorageConfig::object("kv-{worker_id}");
    let batches = register_tp(&[(1, 0), (2, 1)], &object, 3);
    assert_eq!(batches.len(), 3);
    for (rank, batch) in batches.iter().enumerate() {
        assert_eq!(batch.len(), 2);
        assert_eq!(batch[1].2.location(), format!("kv-{rank}"));
    }
    assert!(register_tp(&[], &object, 3).is_empty());
    assert!(register_tp(&[(1, 0)], &object, 0).is_empty());
}

#[test]
fn descriptors_name_files_and_objects() {
    let disk = RemoteStorageConfig::disk("/kv", DISK_FLAGS_POSIX_BOTH);
    let descriptors = create_descriptors(&[0x1234, 0x5678], &disk, 4096, 1, 2);
    assert_eq!(descriptors.len(), 2);
    assert_eq!(descriptors[0].key().location(), "/kv");
    assert_eq!(descriptors[0].key().key_str(), "0000000000001234_1_2");
    assert_eq!(descriptors[1].size(), 4096);
    assert_eq!(descriptors[1].sequence_hash(), Some(0x5678));

    let object = RemoteStorageConfig::object("b-{worker_id}");
    let descriptors = create_descriptors(&[0xff], &object, 16, 3, 4);
    assert_eq!(descriptors[0].key().location(), "b-{worker_id}");
    assert_eq!(descriptors[0].key().key_str(), "00000000000000ff");
}

#[test]
fn an_onboard_is_not_filtered() {
    let filtered = filter_for_offload(&[1, 2], Some(&[10, 20]), true, &[], &[1, 2]);
    assert_eq!(filtered, Some((vec![(1, 0), (2, 1)], None)));
    assert_eq!(filter_for_offload(&[1, 2], None, false, &[], &[1, 2]), None);
}

#[test]
fn pipelines_pass_through_the_host() {
    let disk = RemoteStorageConfig::disk("/kv", DISK_FLAGS_POSIX_BOTH);
    let onboard =
        create_transfer_pipeline(&[1, 2], &disk, 16, 0, 1, true, false, vec![5, 6], vec![7, 8]);
    assert_eq!(onboard.direction(), RemoteTransferDirection::Onboard);
    assert_eq!(onboard.bounce_block_ids(), Some([5usize, 6].as_slice()));
    assert_eq!(onboard.device_block_ids(), Some([7usize, 8].as_slice()));
    let h2o = create_transfer_pipeline(&[1], &disk, 16, 0, 1, false, true, vec![5], vec![7]);
    assert_eq!(h2o.direction(), RemoteTransferDirection::Offload);
    assert_eq!(h2o.device_block_ids(), Some([].as_slice()));
}

#[test]
fn test_h2o_pipeline_uses_host_block_ids() {
    let host_block_ids = vec![42, 17, 88];
    let descriptors = vec![
        RemoteBlockDescriptor::object_from_hash("test-bucket", 0x1234, 4096),
        RemoteBlockDescriptor::object_from_hash("test-bucket", 0x5678, 4096),
        RemoteBlockDescriptor::object_from_hash("test-bucket", 0x9ABC, 4096),
    ];

    let pipeline = RemoteTransferPipeline::offload_with_bounce(
        descriptors,
        host_block_ids.clone(),
        vec![],
    );

    assert!(pipeline.has_bounce());
    assert_eq!(pipeline.bounce_block_ids(), Some(host_block_ids.as_slice()));
    assert_eq!(pipeline.device_block_ids(), Some([].as_slice()));
    assert_eq!(pipeline.num_blocks(), 3);
}

#[test]
fn test_h2o_filtering_removes_already_stored() {
    let all_hashes: Vec<u64> = vec![0x1111, 0x2222, 0x3333, 0x4444];
    let already_stored: Vec<u64> = vec![0x2222, 0x4444];
    let stored_set: std::collections::HashSet<u64> = already_stored.into_iter().collect();

    let can_offload_hashes: Vec<u64> =
        all_hashes.iter().filter(|h| !stored_set.contains(h)).copied().collect();

    assert_eq!(can_offload_hashes, vec![0x1111, 0x3333]);

    let (filtered, _) =
        filter_offload_hashes(&all_hashes, &can_offload_hashes, &[0x2222, 0x4444], None).unwrap();
    assert_eq!(filtered, vec![(0x1111, 0), (0x3333, 2)]);
}

#[test]
fn test_h2o_host_block_id_filtering() {
    let sequence_hashes: Vec<u64> = vec![0x1111, 0x2222, 0x3333, 0x4444];
    let host_block_ids: Vec<usize> = vec![10, 20, 30, 40];
    let already_stored: Vec<u64> = vec![0x2222, 0x4444];

    let stored_set: std::collections::HashSet<u64> = already_stored.into_iter().collect();

    let (filtered_hashes, filtered_host_ids): (Vec<u64>, Vec<usize>) = sequence_hashes
        .iter()
        .zip(host_block_ids.iter())
        .filter(|(hash, _)| !stored_set.contains(hash))
        .map(|(&hash, &id)| (hash, id))
        .unzip();

    assert_eq!(filtered_hashes, vec![0x1111, 0x3333]);
    assert_eq!(filtered_host_ids, vec![10, 30]);

    let (hashes, ids) = filter_offload_hashes(
        &sequence_hashes,
        &filtered_hashes,
        &[0x2222, 0x4444],
        Some(&host_block_ids),
    )
    .unwrap();
    assert_eq!(hashes, vec![(0x1111, 0), (0x3333, 2)]);
    assert_eq!(ids, Some(vec![10, 30]));
}

#[test]
fn test_h2o_skip_when_all_stored() {
    let all_hashes: Vec<u64> = vec![0x1111, 0x2222];
    let already_stored: Vec<u64> = vec![0x1111, 0x2222];

    let stored_set: std::collections::HashSet<u64> = already_stored.into_iter().collect();

    let can_offload_hashes: Vec<u64> =
        all_hashes.iter().filter(|h| !stored_set.contains(h)).copied().collect();

    assert!(can_offload_hashes.is_empty());
    assert_eq!(
        filter_offload_hashes(&all_hashes, &can_offload_hashes, &[0x1111, 0x2222], None),
        None
    );
}

#[test]
fn a_registry_that_has_every_key_matches_everything() {
    let hashes = [11, 12, 13];
    let keys = match match_prefix_tp_query(&hashes, 3) {
        RegistryQuery::MatchPrefix(keys) => keys,
        other => panic!("unexpected query {other:?}"),
    };
    assert_eq!(match_prefix_tp_blocking(&hashes, 3, &[], &keys), hashes.to_vec());
}
