//! The leader of a worker group: configuration, handshake, transfers in flight and signals.

use kvbm::config::{
    RemoteStorageConfig, DISK_FLAGS_GDS_BOTH, DISK_FLAGS_GDS_READS_ONLY, DISK_FLAGS_POSIX_BOTH,
};
use kvbm::kvbm_leader::{
    bytes_per_block, compute_num_blocks, min_device_blocks, G4InflightTracker, KvbmLeader, KvbmLeaderConfig, KvbmLeaderNumBlocksConfig, RemoteStorageEnv,
    WorkerMetadata,
};
use kvbm::protocol::TransferType;
use kvbm::signals::TransferSignal;
use kvbm::slot_config::{
    flush_batch_size, g4_min_candidate_blocks, g4_transfer_timeout, set_flush_batch_size,
    set_g4_transfer_timeout_secs, SlotConfig, SlotEnv,
};
use kvbm::tier::{G4State, TierState};

fn empty_env() -> RemoteStorageEnv {
    RemoteStorageEnv {
        storage_type: None,
        object_bucket: None,
        aws_default_bucket: None,
        object_endpoint: None,
        aws_endpoint_url: None,
        aws_endpoint_override: None,
        object_region: None,
        aws_region: None,
        object_access_key: None,
        aws_access_key_id: None,
        object_secret_key: None,
        aws_secret_access_key: None,
        object_session_token: None,
        aws_session_token: None,
        object_scheme: None,
        object_use_virtual_addressing: None,
        object_req_checksum: None,
        object_ca_bundle: None,
        disk_path: None,
        disk_paths: None,
        disk_use_gds: None,
        disk_gds_reads_only: None,
    }
}

fn remote_storage_config(env: &RemoteStorageEnv) -> Option<RemoteStorageConfig> {
    KvbmLeader::new(KvbmLeaderConfig::builder().build()).remote_storage_config(env)
}

fn text(value: &str) -> Option<String> {
    Some(value.to_string())
}

#[test]
fn no_setting_means_no_remote_storage() {
    assert!(remote_storage_config(&empty_env()).is_none());
}

#[test]
fn a_bucket_means_object_storage() {
    let mut env = empty_env();
    env.aws_default_bucket = text("cloud");
    env.object_region = text("here");
    env.aws_region = text("there");
    env.object_use_virtual_addressing = text("TRUE");
    match remote_storage_config(&env) {
        Some(RemoteStorageConfig::Object {
            bucket_template, region, use_virtual_addressing, ..
        }) => {
            assert_eq!(bucket_template, text("cloud"));
            assert_eq!(region, text("here"));
            assert_eq!(use_virtual_addressing, Some(true));
        }
        other => panic!("unexpected storage {other:?}"),
    }
}

#[test]
fn a_path_means_disk_storage() {
    let flags_of = |env: &RemoteStorageEnv| match remote_storage_config(env) {
        Some(RemoteStorageConfig::Disk { base_path, transfer_flags }) => {
            (base_path, transfer_flags)
        }
        other => panic!("unexpected storage {other:?}"),
    };
    let mut env = empty_env();
    env.disk_paths = text(" /first , /second");
    assert_eq!(flags_of(&env), ("/first".to_string(), DISK_FLAGS_GDS_BOTH));
    env.disk_path = text("/own");
    env.disk_gds_reads_only = text("1");
    assert_eq!(flags_of(&env), ("/own".to_string(), DISK_FLAGS_GDS_READS_ONLY));
    env.disk_use_gds = text("0");
    assert_eq!(flags_of(&env), ("/own".to_string(), DISK_FLAGS_POSIX_BOTH));
    env.object_bucket = text("bucket");
    assert!(matches!(remote_storage_config(&env), Some(RemoteStorageConfig::Object { .. })));
    env.storage_type = text("Disk");
    assert_eq!(flags_of(&env).0, "/own");
}

#[test]
fn the_leader_configuration_has_defaults() {
    let config = KvbmLeaderConfig::builder().build();
    assert_eq!(config.rank, 0);
    assert_eq!(config.world_size, 1);
    assert_eq!(config.leader_init_timeout_secs, 120);
    assert_eq!(config.leader_pub_url, "tcp://127.0.0.1:56001");
    assert_eq!(config.leader_ack_url, "tcp://127.0.0.1:56002");
}

#[test]
fn one_address_cannot_be_bound_twice() {
    let host = KvbmLeaderNumBlocksConfig { num_blocks_overriden: 4, has_cache_size: false };
    let good = KvbmLeaderConfig::builder().host_blocks_config(host).build();
    assert!(good.sanity_check().is_ok());
    let bad = KvbmLeaderConfig::builder()
        .leader_pub_url("tcp://x:1".to_string())
        .leader_ack_url("tcp://x:1".to_string())
        .build();
    assert_eq!(
        bad.sanity_check(),
        Err("leader_pub_url and leader_ack_url must differ (same endpoint would fail to bind)."
            .to_string())
    );
}

#[test]
fn the_handshake_takes_the_smallest_device() {
    let workers = vec![
        WorkerMetadata { num_device_blocks: 10, bytes_per_block: 100 },
        WorkerMetadata { num_device_blocks: 7, bytes_per_block: 50 },
    ];
    assert_eq!(min_device_blocks(&workers), Some(7));
    assert_eq!(min_device_blocks(&[]), None);
    assert_eq!(bytes_per_block(&workers), 150);

    let config = KvbmLeaderConfig::builder()
        .world_size(2)
        .host_blocks_config(KvbmLeaderNumBlocksConfig {
            num_blocks_overriden: 33,
            has_cache_size: true,
        })
        .build();
    assert_eq!(compute_num_blocks(&config.host_blocks_config, 5), 33);
    assert_eq!(compute_num_blocks(&config.disk_blocks_config, 5), 5);
    let mut leader = KvbmLeader::new(config);
    let answer = leader.handshake(&workers, 5, 6);
    assert_eq!((answer.num_host_blocks, answer.num_disk_blocks, answer.world_size), (33, 6, 2));
    assert_eq!(leader.num_device_blocks(), 7);
    assert_eq!(leader.num_host_blocks(), 33);
    assert_eq!(leader.num_disk_blocks(), 6);
}

#[test]
fn the_registry_is_set_once() {
    let mut leader = KvbmLeader::new(KvbmLeaderConfig::builder().build());
    assert!(!leader.schedules_match_prefix(3));
    assert!(leader.set_remote_registry());
    assert!(!leader.set_remote_registry());
    assert!(leader.schedules_match_prefix(3));
    assert!(!leader.schedules_match_prefix(0));
}

#[test]
fn failed_requests_are_remembered_until_cleared() {
    let mut leader = KvbmLeader::new(KvbmLeaderConfig::builder().build());
    leader.mark_g4_failed("r");
    assert!(leader.has_g4_failed("r"));
    assert!(!leader.has_g4_failed("s"));
    leader.clear_g4_failed("r");
    assert!(!leader.has_g4_failed("r"));
}

#[test]
fn a_block_is_loaded_by_one_transfer() {
    let mut tracker = G4InflightTracker::new();
    let first = tracker.register(&[1, 2]);
    let second = tracker.register(&[2, 3]);
    assert_eq!(first.hashes, vec![1, 2]);
    assert_eq!(second.hashes, vec![3]);
    assert_eq!(tracker.check_inflight(&[1, 2, 3, 4]), vec![0, 0, 1]);
    tracker.release(first);
    assert_eq!(tracker.check_inflight(&[1, 2, 3]), vec![1]);
    tracker.release(second);
    assert!(tracker.check_inflight(&[1, 2, 3]).is_empty());
}

#[test]
fn signals_follow_the_transfers_of_a_request() {
    let mut signal = TransferSignal::new();
    let (r, s) = ("r".to_string(), "s".to_string());
    assert_eq!(signal.is_loads_done(&r), None);
    signal.register(1, "r".to_string(), TransferType::Load);
    signal.register(2, "r".to_string(), TransferType::Load);
    signal.register(3, "s".to_string(), TransferType::Store);
    signal.finish(1, true);
    assert_eq!(signal.is_loads_done(&r), Some(false));
    signal.finish(2, false);
    assert_eq!(signal.is_loads_done(&r), Some(true));
    assert!(signal.has_failed(&r));
    assert!(!signal.has_failed(&s));
    assert_eq!(signal.is_stores_done(&s), Some(false));
    signal.remove(&r);
    assert_eq!(signal.is_loads_done(&r), None);
    signal.clear();
    assert_eq!(signal.is_stores_done(&s), None);
}

fn slot_env(timeout: Option<String>, batch: Option<String>) -> SlotEnv {
    SlotEnv {
        g4_transfer_timeout_secs: timeout,
        g4_min_candidate_blocks: text("12"),
        flush_batch_size: batch,
    }
}

#[test]
fn slot_settings_have_defaults() {
    let env = slot_env(None, text("many"));
    let mut config = SlotConfig::default();
    assert_eq!(g4_transfer_timeout(&mut config, &env), 30);
    assert_eq!(g4_min_candidate_blocks(&mut config, &env), 12);
    assert_eq!(flush_batch_size(&mut config, &env), 512);
    set_g4_transfer_timeout_secs(&mut config, 7);
    set_flush_batch_size(&mut config, 9);
    assert_eq!(g4_transfer_timeout(&mut config, &env), 7);
    assert_eq!(flush_batch_size(&mut config, &env), 9);
}

#[test]
fn slot_settings_are_read_once() {
    let env = slot_env(text("60"), text("4"));
    let mut config = SlotConfig::default();
    set_g4_transfer_timeout_secs(&mut config, 7);
    assert_eq!(g4_transfer_timeout(&mut config, &env), 60);
    assert_eq!(flush_batch_size(&mut config, &env), 4);
    let later = slot_env(text("90"), text("5"));
    assert_eq!(g4_transfer_timeout(&mut config, &later), 60);
    set_g4_transfer_timeout_secs(&mut config, 8);
    assert_eq!(g4_transfer_timeout(&mut config, &later), 8);
}

#[test]
fn a_tier_stages_what_is_not_empty() {
    let mut tier: TierState<Vec<u64>> = TierState::new();
    tier.stage_non_empty(vec![]);
    assert_eq!(tier.staging, None);
    tier.stage_non_empty(vec![1]);
    tier.record_cached_tokens(9);
    assert_eq!(tier.cached_blocks(4), 3);
    assert_eq!(tier.take_staged(), Some(vec![1]));
    assert_eq!(tier.take_staged(), None);
    tier.reset();
    assert_eq!(tier.tokens_cached, 0);

    let mut state: G4State<u64> = G4State::new();
    assert!(!state.has_pending_lookup());
    state.pending_lookup = Some(1);
    assert!(state.has_pending_lookup());
    state.clear_all("r");
    assert!(!state.has_pending_lookup());
}
