//! Configuration of the cache and of remote storage.

use kvbm::config::{
    cpu_cache_lookup_dirty, cpu_cache_lookup_disabled, set_cpu_cache_lookup_disabled,
    should_bypass_cpu_cache, should_disable_cpu_cache_lookup, BuilderError, CpuCacheLookup,
    EventSource, KvBlockManagerConfig, KvManagerLayoutConfig, KvManagerModelConfig, KvManagerRuntimeConfig, NixlNotificationSender,
    NixlOptions, RegistrationError, RemoteContextConfig, RemoteStorageConfig,
    RemoteTransferContext, TransferContext, DISK_FLAGS_GDS_BOTH, DISK_FLAGS_GDS_READS_ONLY,
    DISK_FLAGS_POSIX_BOTH, DISK_FLAG_GDS_READ, DISK_FLAG_GDS_WRITE,
};

#[test]
fn test_object_with_bucket() {
    let config = RemoteStorageConfig::object("my-bucket");
    match config {
        RemoteStorageConfig::Object {
            bucket_template,
            endpoint,
            region,
            ..
        } => {
            assert_eq!(bucket_template, Some("my-bucket".to_string()));
            assert!(endpoint.is_none());
            assert!(region.is_none());
        }
        _ => panic!("Expected Object variant"),
    }
}

#[test]
fn test_object_with_options() {
    let config = RemoteStorageConfig::object_with_options(
        Some("test-bucket".to_string()),
        Some("http://localhost:9000".to_string()),
        Some("us-west-2".to_string()),
    );
    match config {
        RemoteStorageConfig::Object {
            bucket_template,
            endpoint,
            region,
            ..
        } => {
            assert_eq!(bucket_template, Some("test-bucket".to_string()));
            assert_eq!(endpoint, Some("http://localhost:9000".to_string()));
            assert_eq!(region, Some("us-west-2".to_string()));
        }
        _ => panic!("Expected Object variant"),
    }
}

#[test]
fn test_object_with_no_bucket() {
    let config = RemoteStorageConfig::object_with_options(None, None, None);
    match config {
        RemoteStorageConfig::Object {
            bucket_template,
            endpoint,
            region,
            ..
        } => {
            assert!(bucket_template.is_none());
            assert!(endpoint.is_none());
            assert!(region.is_none());
        }
        _ => panic!("Expected Object variant"),
    }
}

#[test]
fn test_resolve_bucket_with_worker_id() {
    let config = RemoteStorageConfig::object("kvcache-{worker_id}");
    assert_eq!(config.resolve_bucket(0), Some("kvcache-0".to_string()));
    assert_eq!(config.resolve_bucket(3), Some("kvcache-3".to_string()));
}

#[test]
fn test_resolve_bucket_without_template() {
    let config = RemoteStorageConfig::object("flat-bucket");
    assert_eq!(config.resolve_bucket(0), Some("flat-bucket".to_string()));
    assert_eq!(config.resolve_bucket(5), Some("flat-bucket".to_string()));
}

#[test]
fn test_disk_config_posix() {
    let config = RemoteStorageConfig::disk("/mnt/kv-cache", DISK_FLAGS_POSIX_BOTH);
    match config {
        RemoteStorageConfig::Disk {
            base_path,
            transfer_flags,
        } => {
            assert_eq!(base_path, "/mnt/kv-cache");
            assert_eq!(transfer_flags, DISK_FLAGS_POSIX_BOTH);
        }
        _ => panic!("Expected Disk variant"),
    }
}

#[test]
fn test_disk_config_gds() {
    let config = RemoteStorageConfig::disk("/mnt/nvme", DISK_FLAGS_GDS_BOTH);
    match config {
        RemoteStorageConfig::Disk {
            base_path,
            transfer_flags,
        } => {
            assert_eq!(base_path, "/mnt/nvme");
            assert_eq!(transfer_flags, DISK_FLAGS_GDS_BOTH);
        }
        _ => panic!("Expected Disk variant"),
    }
}

#[test]
fn test_disk_config_gds_reads_only() {
    let config = RemoteStorageConfig::disk("/mnt/nfs", DISK_FLAGS_GDS_READS_ONLY);
    match config {
        RemoteStorageConfig::Disk {
            base_path,
            transfer_flags,
        } => {
            assert_eq!(base_path, "/mnt/nfs");
            assert_eq!(transfer_flags & DISK_FLAG_GDS_READ, DISK_FLAG_GDS_READ);
            assert_eq!(transfer_flags & DISK_FLAG_GDS_WRITE, 0);
        }
        _ => panic!("Expected Disk variant"),
    }
}

#[test]
fn test_config_clone() {
    let config = RemoteStorageConfig::object("bucket");
    let cloned = config.clone();
    match (config, cloned) {
        (
            RemoteStorageConfig::Object {
                bucket_template: b1,
                ..
            },
            RemoteStorageConfig::Object {
                bucket_template: b2,
                ..
            },
        ) => {
            assert_eq!(b1, b2);
        }
        _ => panic!("Clone should preserve variant"),
    }
}

#[test]
fn test_config_debug() {
    let config = RemoteStorageConfig::object("debug-bucket");
    let debug_str = format!("{:?}", config);
    assert!(debug_str.contains("Object"));
    assert!(debug_str.contains("debug-bucket"));
}

#[test]
fn test_remote_context_config_object() {
    let config = RemoteContextConfig {
        remote_storage_config: RemoteStorageConfig::object("test-bucket"),
        worker_id: 42,
    };
    assert_eq!(config.worker_id, 42);
    match config.remote_storage_config {
        RemoteStorageConfig::Object {
            bucket_template, ..
        } => {
            assert_eq!(bucket_template, Some("test-bucket".to_string()));
        }
        _ => panic!("Expected Object variant"),
    }
}

#[test]
fn test_remote_context_config_disk() {
    let config = RemoteContextConfig {
        remote_storage_config: RemoteStorageConfig::disk(
            "/data/cache",
            DISK_FLAGS_GDS_BOTH,
        ),
        worker_id: 7,
    };
    assert_eq!(config.worker_id, 7);
    match config.remote_storage_config {
        RemoteStorageConfig::Disk {
            base_path,
            transfer_flags,
        } => {
            assert_eq!(base_path, "/data/cache");
            assert_eq!(transfer_flags, DISK_FLAGS_GDS_BOTH);
        }
        _ => panic!("Expected Disk variant"),
    }
}

#[test]
fn test_remote_context_config_clone() {
    let config = RemoteContextConfig {
        remote_storage_config: RemoteStorageConfig::object("clone-bucket"),
        worker_id: 123,
    };
    let cloned = config.clone();
    assert_eq!(cloned.worker_id, 123);
}

#[test]
fn a_runtime_needs_a_worker() {
    let built = KvManagerRuntimeConfig::builder().worker_id(3).build().unwrap();
    assert_eq!(built.worker_id, 3);
    assert!(matches!(built.nixl, NixlOptions::Enabled));
    let built = KvManagerRuntimeConfig::builder().worker_id(3).disable_nixl().build().unwrap();
    assert!(matches!(built.nixl, NixlOptions::Disabled));
    assert!(matches!(
        KvManagerRuntimeConfig::builder().enable_nixl().build(),
        Err(BuilderError::UninitializedField("worker_id"))
    ));
}

#[test]
fn a_model_needs_its_dimensions() {
    let builder = || KvManagerModelConfig::builder().num_layers(2).outer_dim(1).page_size(4);
    let built = builder().inner_dim(64).build().unwrap();
    assert_eq!(built.dtype_width_bytes, 2);
    assert!(built.is_valid());
    assert!(matches!(builder().build(), Err(BuilderError::UninitializedField("inner_dim"))));
    assert!(!builder().inner_dim(0).build().unwrap().is_valid());
}

#[test]
fn a_layout_has_exactly_one_source() {
    let builder = || KvManagerLayoutConfig::<u8>::builder().num_blocks(4);
    assert!(builder().storage(Some(vec![1])).build().is_ok());
    assert!(matches!(builder().build(), Err(BuilderError::ValidationError(_))));
    assert_eq!(
        builder().allocator(1).logical(None).validate(),
        Err("Only one selection of either `storage` and `allocator` or `logical`.".to_string())
    );
    assert!(matches!(
        KvManagerLayoutConfig::<u8>::builder().allocator(1).build(),
        Err(BuilderError::UninitializedField("num_blocks"))
    ));
}

#[test]
fn a_block_manager_needs_runtime_and_model() {
    let runtime = || KvManagerRuntimeConfig::builder().worker_id(3).build().unwrap();
    let model = || {
        let dimensions = KvManagerModelConfig::builder().num_layers(2).outer_dim(1).page_size(4);
        dimensions.inner_dim(64).build().unwrap()
    };
    let layout = |blocks| {
        KvManagerLayoutConfig::<u64>::builder().num_blocks(blocks).allocator(1).build().unwrap()
    };
    let built = KvBlockManagerConfig::builder()
        .runtime(runtime())
        .model(model())
        .device_layout(layout(8))
        .disk_layout(layout(32))
        .consolidator_config(
            "tcp://engine".to_string(),
            Some("tcp://out".to_string()),
            EventSource::Trtllm,
        )
        .build()
        .unwrap();
    assert_eq!(built.device_layout.map(|layout| layout.num_blocks), Some(8));
    assert!(built.host_layout.is_none());
    assert_eq!(built.disk_layout.map(|layout| layout.num_blocks), Some(32));
    let consolidator = built.consolidator_config.unwrap();
    assert_eq!(consolidator.engine_endpoint, "tcp://engine");
    assert_eq!(consolidator.output_endpoint, "tcp://out");
    assert_eq!(consolidator.engine_source, EventSource::Trtllm);
    assert!(matches!(
        KvBlockManagerConfig::builder().model(model()).build(),
        Err(BuilderError::UninitializedField("runtime"))
    ));
    assert!(matches!(
        KvBlockManagerConfig::builder().runtime(runtime()).build(),
        Err(BuilderError::UninitializedField("model"))
    ));
}

#[test]
fn device_blocks_bypass_a_host_tier_that_is_not_there() {
    let text = |value: &str| Some(value.to_string());
    assert!(should_bypass_cpu_cache(&None, &None, &text("10"), &None));
    assert!(should_bypass_cpu_cache(&text("0"), &text("x"), &None, &text("3")));
    assert!(!should_bypass_cpu_cache(&text("1"), &None, &text("10"), &None));
    assert!(!should_bypass_cpu_cache(&None, &None, &None, &None));
}

#[test]
fn the_host_lookup_is_decided_once() {
    let mut lookup = CpuCacheLookup::new();
    assert!(!should_disable_cpu_cache_lookup(&mut lookup, Some(false), Some(true)));
    assert!(should_disable_cpu_cache_lookup(&mut lookup, Some(true), Some(true)));
    assert!(cpu_cache_lookup_disabled(&mut lookup, Some(false)));
    assert!(!cpu_cache_lookup_dirty(&lookup));
    set_cpu_cache_lookup_disabled(&mut lookup, false);
    assert!(cpu_cache_lookup_dirty(&lookup));
    assert!(!cpu_cache_lookup_disabled(&mut lookup, Some(true)));
}

#[test]
fn a_transfer_is_announced_where_the_channel_has_room() {
    let ctx = RemoteTransferContext::for_object(
        TransferContext { nixl_agent: None },
        Some("b-{worker_id}".to_string()),
        NixlNotificationSender::Polling(1),
    );
    assert_eq!(ctx.bucket_template(), Some("b-{worker_id}"));
    assert_eq!((ctx.worker_id(), ctx.world_size()), (0, 1));
    assert_eq!(ctx.register_nixl_transfer(3), Ok(NixlNotificationSender::Polling(1)));
    let ctx = RemoteTransferContext::with_notification_sender(
        TransferContext { nixl_agent: None },
        RemoteStorageConfig::object("b"),
        NixlNotificationSender::Events(4),
    );
    assert!(ctx.has_notification_handler());
    assert_eq!(ctx.register_nixl_transfer(0), Err(RegistrationError::ChannelUnavailable));
    assert_eq!(ctx.register_nixl_transfer(1), Ok(NixlNotificationSender::Events(4)));
}
