//! Remote and local transfers: files, objects, batches and chunks.

use std::time::Duration;

use kvbm::block_transfer::{
    checksum_line, chunk_pipeline, g4_pipeline_chunk_size, transfer_backend,
    BlockTransferHandler, BlockTransferPool, BlockTransferRequest, ChunkedTransfer,
    ConnectorTransferBatcher, LocalPools, ParsedTransfer, RemoteTransferMessage,
    RemoteTransferPlan, TransferWork,
};
use kvbm::checksum::compute_checksum;
use kvbm::config::{
    NixlAgent, NixlNotificationSender, RemoteStorageConfig, RemoteTransferContext,
    TransferContext, DISK_FLAGS_GDS_BOTH, DISK_FLAGS_GDS_READS_ONLY, DISK_FLAGS_POSIX_BOTH,
};
use kvbm::fd_cache::{
    fd_cache_max_entries, open_failure_string, register_failure_string, take_fd_open_durations,
    RemoteDiskFdCache, RemoteDiskFdCacheKey,
};
use kvbm::nixl_transfer::{
    begin_remote_transfer, disk_backend, disk_xfer_lists, local_poll_is_over, object_xfer_lists,
    plan_disk_transfer, plan_object_transfer, wait_step, DiskBackend, RemoteDiskAlignmentConfig,
    RemoteTransferStart, TransferError, WaitEvent, XferDescriptor, XferLists, XferOp, XferStatus,
};
use kvbm::protocol::{LeaderTransferRequest, RequestType, SlotKey};
use kvbm::remote::{
    DiskKey, ObjectKey, RemoteBlockDescriptor, RemoteKey, RemoteStorageKind,
    RemoteTransferDirection, RemoteTransferPipeline,
};
use kvbm::xfer_blocks::{append_xfer_request, write_blocks_to, MissingRegion, XferBlock};

const NO_CHECK: RemoteDiskAlignmentConfig =
    RemoteDiskAlignmentConfig { quantum: 4096, validate: false };
const CHECK: RemoteDiskAlignmentConfig =
    RemoteDiskAlignmentConfig { quantum: 4096, validate: true };

fn agent() -> Option<NixlAgent> {
    Some(NixlAgent { name: "agent".to_string() })
}

fn disk_context(path: &str, flags: u8) -> RemoteTransferContext {
    RemoteTransferContext::new(
        TransferContext { nixl_agent: agent() },
        RemoteStorageConfig::disk(path, flags),
        NixlNotificationSender::Polling(0),
    )
}

fn object_context(bucket: &str) -> RemoteTransferContext {
    RemoteTransferContext::new(
        TransferContext { nixl_agent: agent() },
        RemoteStorageConfig::object(bucket),
        NixlNotificationSender::Polling(0),
    )
}

fn message(error: TransferError) -> String {
    match error {
        TransferError::ExecutionError(text) => text,
        TransferError::IncompatibleTypes(text) => text,
        other => panic!("unexpected error {other:?}"),
    }
}

#[test]
fn test_execute_remote_transfer_empty_descriptors() {
    let ctx = disk_context("/tmp/nixl-test", DISK_FLAGS_POSIX_BOTH);
    let result = begin_remote_transfer(RemoteStorageKind::Disk, &[], 0, &ctx, false);
    assert!(matches!(result, Ok(RemoteTransferStart::Done)));
}

#[test]
fn test_execute_remote_transfer_count_mismatch() {
    let ctx = disk_context("/tmp/nixl-test", DISK_FLAGS_POSIX_BOTH);
    let descriptors = vec![
        RemoteBlockDescriptor::disk_from_hash("/tmp", 0x1234, 1024, 0, 1),
        RemoteBlockDescriptor::disk_from_hash("/tmp", 0x5678, 1024, 0, 1),
    ];
    let result = begin_remote_transfer(RemoteStorageKind::Disk, &descriptors, 1, &ctx, false);
    assert!(matches!(result, Err(TransferError::CountMismatch(2, 1))));
}

#[test]
fn test_execute_remote_transfer_early_cancellation() {
    let ctx = disk_context("/tmp/nixl-test", DISK_FLAGS_POSIX_BOTH);
    let descriptors = vec![RemoteBlockDescriptor::disk_from_hash("/tmp", 0x1234, 1024, 0, 1)];
    let result = begin_remote_transfer(RemoteStorageKind::Disk, &descriptors, 1, &ctx, true);
    assert!(matches!(result, Err(TransferError::Cancelled)));
}

#[test]
fn a_remote_transfer_needs_an_agent() {
    let ctx = RemoteTransferContext::new(
        TransferContext { nixl_agent: None },
        RemoteStorageConfig::object("b"),
        NixlNotificationSender::Polling(0),
    );
    let descriptors = vec![RemoteBlockDescriptor::object_from_hash("b", 1, 16)];
    let error =
        begin_remote_transfer(RemoteStorageKind::Object, &descriptors, 1, &ctx, false).unwrap_err();
    assert_eq!(message(error), "NIXL agent not available");
    let ctx = object_context("b");
    assert!(matches!(
        begin_remote_transfer(RemoteStorageKind::Object, &descriptors, 1, &ctx, false),
        Ok(RemoteTransferStart::Run(RemoteStorageKind::Object))
    ));
}

#[test]
fn a_disk_offload_creates_its_files() {
    let ctx = disk_context("/kv", DISK_FLAGS_GDS_BOTH).with_topology(3, 8);
    let descriptors = vec![
        RemoteBlockDescriptor::disk_from_hash("/elsewhere", 0xabc, 4096, 0, 1),
        RemoteBlockDescriptor::disk_from_hash("/elsewhere", 0x1, 4096, 0, 1),
    ];
    let plan = plan_disk_transfer(
        RemoteTransferDirection::Offload,
        &descriptors,
        4096,
        &ctx,
        false,
        false,
        CHECK,
    )
    .unwrap();
    assert_eq!(
        plan.paths,
        vec!["/kv/0000000000000abc_3_8".to_string(), "/kv/0000000000000001_3_8".to_string()]
    );
    assert!(plan.create && plan.use_odirect && plan.preallocate);
    assert_eq!(plan.op, XferOp::Write);
    assert_eq!(plan.backend.name(), "GDS_MT");

    let read = plan_disk_transfer(
        RemoteTransferDirection::Onboard,
        &descriptors,
        4096,
        &ctx,
        false,
        true,
        CHECK,
    )
    .unwrap();
    assert_eq!(read.paths, plan.paths);
    assert!(!read.create && read.use_odirect && !read.preallocate);
    assert_eq!((read.op, read.backend.name()), (XferOp::Read, "POSIX"));
}

#[test]
fn the_flags_pick_the_backend_of_each_direction() {
    let offload = RemoteTransferDirection::Offload;
    let onboard = RemoteTransferDirection::Onboard;
    assert_eq!(disk_backend(offload, DISK_FLAGS_GDS_BOTH, false), DiskBackend::GdsMt);
    assert_eq!(disk_backend(onboard, DISK_FLAGS_GDS_BOTH, false), DiskBackend::Posix);
    assert_eq!(disk_backend(onboard, DISK_FLAGS_GDS_BOTH, true), DiskBackend::GdsMt);
    assert_eq!(disk_backend(offload, DISK_FLAGS_GDS_READS_ONLY, true), DiskBackend::Posix);
    assert_eq!(disk_backend(onboard, DISK_FLAGS_GDS_READS_ONLY, true), DiskBackend::GdsMt);
    assert_eq!(disk_backend(onboard, DISK_FLAGS_POSIX_BOTH, true), DiskBackend::Posix);
}

#[test]
fn a_misaligned_block_size_is_refused_where_it_is_checked() {
    let ctx = disk_context("/kv", DISK_FLAGS_GDS_BOTH);
    let plan = |alignment| {
        plan_disk_transfer(
            RemoteTransferDirection::Offload,
            &[],
            100,
            &ctx,
            false,
            false,
            alignment,
        )
    };
    assert_eq!(
        message(plan(CHECK).unwrap_err()),
        "O_DIRECT alignment validation failed: block_size must be 4096-byte aligned (got 100). \
         Set DYN_KVBM_REMOTE_DISK_VALIDATE_ALIGNMENT=false to disable validation."
    );
    assert!(plan(NO_CHECK).is_ok());
}

#[test]
fn a_block_that_is_no_file_is_refused() {
    let ctx = disk_context("/kv", DISK_FLAGS_POSIX_BOTH);
    let plan = |descriptors: &[RemoteBlockDescriptor]| {
        plan_disk_transfer(
            RemoteTransferDirection::Onboard,
            descriptors,
            16,
            &ctx,
            false,
            false,
            NO_CHECK,
        )
    };
    let object = RemoteBlockDescriptor::object_from_hash("b", 1, 16);
    assert!(matches!(plan(&[object.clone()]), Err(TransferError::IncompatibleTypes(_))));
    assert_eq!(
        message(plan(&[object]).unwrap_err()),
        "Expected Disk key for disk storage transfer"
    );
    let nameless = RemoteBlockDescriptor::new(
        RemoteKey::Disk(DiskKey { path: "/p".to_string(), key: "k".to_string() }),
        16,
        None,
    );
    assert_eq!(
        message(plan(&[nameless]).unwrap_err()),
        "Disk descriptor missing sequence_hash metadata"
    );
}

#[test]
fn disk_regions_pair_buffers_and_files() {
    let lists = disk_xfer_lists(&[8192, 4096], &[7, 8, 9], 512, true, CHECK).unwrap();
    assert_eq!(
        lists.local,
        vec![
            XferDescriptor { addr: 8192, size: 512, device_id: 0 },
            XferDescriptor { addr: 4096, size: 512, device_id: 0 },
        ]
    );
    assert_eq!(
        lists.remote,
        vec![
            XferDescriptor { addr: 0, size: 512, device_id: 7 },
            XferDescriptor { addr: 0, size: 512, device_id: 8 },
        ]
    );
    let error = disk_xfer_lists(&[8192, 0x1abc], &[7, 8], 512, true, CHECK).unwrap_err();
    assert_eq!(
        message(error),
        "O_DIRECT alignment validation failed: host buffer address must be 4096-byte aligned; \
         got 0x1abc. Set DYN_KVBM_REMOTE_DISK_VALIDATE_ALIGNMENT=false to disable validation."
    );
    assert!(disk_xfer_lists(&[0x1abc], &[7], 512, false, CHECK).is_ok());
}

#[test]
fn the_alignment_comes_from_the_settings_or_the_page_size() {
    let text = |value: &str| Some(value.to_string());
    let config =
        RemoteDiskAlignmentConfig::from_settings(Some(16384), &text("512"), &text("True"));
    assert_eq!((config.quantum, config.validate), (512, true));
    let config = RemoteDiskAlignmentConfig::from_settings(Some(16384), &text("0"), &None);
    assert_eq!((config.quantum, config.validate), (16384, false));
    let config = RemoteDiskAlignmentConfig::from_settings(Some(-1), &None, &text("no"));
    assert_eq!((config.quantum, config.validate), (4096, false));
}

#[test]
fn objects_are_planned_up_to_the_first_that_is_none() {
    let good = RemoteBlockDescriptor::object_from_hash("b", 0xff, 16);
    let plan =
        plan_object_transfer(RemoteTransferDirection::Offload, &[good.clone(), good.clone()]);
    assert!(plan.refused.is_none());
    assert_eq!(plan.targets.len(), 2);
    assert_eq!((plan.targets[0].bucket.as_str(), plan.targets[0].key), ("b", 0xff));
    let lists = object_xfer_lists(&[64, 128], &plan.targets, 16);
    assert_eq!(lists.local[1], XferDescriptor { addr: 128, size: 16, device_id: 0 });
    assert_eq!(lists.remote[1], XferDescriptor { addr: 0, size: 16, device_id: 0xff });

    let nameless = RemoteBlockDescriptor::new(
        RemoteKey::Object(ObjectKey { bucket: "q\"b".to_string(), key: "k".to_string() }),
        16,
        None,
    );
    let expected = format!("Descriptor missing sequence_hash: {:?}", nameless.key());
    let plan = plan_object_transfer(RemoteTransferDirection::Onboard, &[good.clone(), nameless]);
    assert_eq!(plan.op, XferOp::Read);
    assert_eq!(plan.targets.len(), 1);
    assert_eq!(message(plan.refused.unwrap()), expected);

    let file = RemoteBlockDescriptor::disk_from_hash("/p", 1, 16, 0, 1);
    let plan = plan_object_transfer(RemoteTransferDirection::Onboard, &[file]);
    assert_eq!(
        message(plan.refused.unwrap()),
        "Expected Object key for object storage transfer"
    );
}

#[test]
fn a_wait_ends_with_the_transfer() {
    assert!(wait_step(WaitEvent::Polled(XferStatus::InProgress)).is_none());
    assert!(matches!(wait_step(WaitEvent::Polled(XferStatus::Success)), Some(Ok(()))));
    assert!(matches!(wait_step(WaitEvent::Notified(Ok(()))), Some(Ok(()))));
    assert!(matches!(
        wait_step(WaitEvent::Cancelled),
        Some(Err(TransferError::Cancelled))
    ));
    let failed = wait_step(WaitEvent::Polled(XferStatus::Failed("boom".to_string())));
    assert_eq!(message(failed.unwrap().unwrap_err()), "Transfer status check failed: boom");
    let failed = wait_step(WaitEvent::Notified(Err("boom".to_string())));
    assert_eq!(message(failed.unwrap().unwrap_err()), "boom");
    assert!(local_poll_is_over(&XferStatus::Failed("x".to_string())));
    assert!(!local_poll_is_over(&XferStatus::InProgress));
}

fn key(path: &str) -> RemoteDiskFdCacheKey {
    RemoteDiskFdCacheKey { path: path.to_string(), use_odirect: true }
}

#[test]
fn the_least_recently_used_file_gives_way() {
    let mut cache = RemoteDiskFdCache::new(2);
    assert_eq!(cache.insert(key("a"), 1), 1);
    assert_eq!(cache.insert(key("b"), 2), 2);
    assert_eq!(cache.get(&key("a")), Some(1));
    cache.insert(key("c"), 3);
    assert_eq!(cache.get(&key("b")), None);
    assert_eq!(cache.get(&key("a")), Some(1));
    assert_eq!(cache.get(&key("c")), Some(3));
    let buffered = RemoteDiskFdCacheKey { path: "a".to_string(), use_odirect: false };
    assert_eq!(cache.get(&buffered), None);
    cache.clear();
    assert_eq!(cache.get(&key("a")), None);
}

#[test]
fn a_file_that_another_task_opened_is_kept() {
    let mut cache = RemoteDiskFdCache::new(0);
    assert_eq!(cache.opened(key("a"), 1), 1);
    assert_eq!(cache.opened(key("a"), 2), 1);
    for i in 0..100 {
        cache.insert(key(&format!("f{i}")), i);
    }
    assert_eq!(cache.get(&key("a")), Some(1));
    cache.evict_lru();
    assert_eq!(cache.get(&key("f0")), None);
}

#[test]
fn file_failures_name_the_file() {
    assert_eq!(
        open_failure_string(true, "/kv/a", "Denied"),
        "Failed to create RemoteDiskStorage at /kv/a: Denied"
    );
    assert_eq!(
        open_failure_string(false, "/kv/a", "Denied"),
        "Failed to open RemoteDiskStorage at /kv/a: Denied"
    );
    assert_eq!(
        register_failure_string("/kv/a", "Busy"),
        "Failed to register disk storage /kv/a: Busy"
    );
    assert_eq!(fd_cache_max_entries(&None), 131_072);
    assert_eq!(fd_cache_max_entries(&Some("5".to_string())), 5);
}

#[test]
fn recorded_times_are_taken_once() {
    let mut recorded = vec![Duration::from_millis(3)];
    assert_eq!(take_fd_open_durations(&mut recorded), vec![Duration::from_millis(3)]);
    assert!(take_fd_open_durations(&mut recorded).is_empty());
}

fn region(addr: usize) -> XferDescriptor {
    XferDescriptor { addr, size: 8, device_id: 1 }
}

#[test]
fn contiguous_blocks_are_one_region() {
    let src = XferBlock { whole: Some(region(1)), layers: vec![] };
    let dst = XferBlock { whole: Some(region(2)), layers: vec![] };
    let lists = write_blocks_to(&[src], &[dst]).unwrap().unwrap();
    assert_eq!((lists.local, lists.remote), (vec![region(1)], vec![region(2)]));
    assert!(matches!(write_blocks_to(&[], &[]), Ok(None)));
}

#[test]
fn layered_blocks_are_copied_region_by_region() {
    let src = XferBlock {
        whole: None,
        layers: vec![vec![region(1), region(2)], vec![region(3), region(4)]],
    };
    let dst = XferBlock {
        whole: Some(region(9)),
        layers: vec![vec![region(11), region(12)], vec![region(13), region(14)]],
    };
    let mut lists = XferLists { local: vec![], remote: vec![] };
    append_xfer_request(&src, &dst, &mut lists).unwrap();
    assert_eq!(lists.local, vec![region(1), region(2), region(3), region(4)]);
    assert_eq!(lists.remote, vec![region(11), region(12), region(13), region(14)]);

    let short = XferBlock {
        whole: None,
        layers: vec![vec![region(11), region(12)], vec![region(13)]],
    };
    let missing = write_blocks_to(&[src], &[short]).unwrap_err();
    assert_eq!(missing, MissingRegion { layer: 1, index: 1 });
}

fn copy(n: usize) -> BlockTransferRequest {
    BlockTransferRequest {
        from_pool: BlockTransferPool::Device,
        to_pool: BlockTransferPool::Host,
        blocks: (0..n).map(|i| (i, i + 100)).collect(),
        connector_req: None,
        sequence_hashes: None,
    }
}

#[test]
fn large_copies_are_split_into_batches() {
    let batcher = ConnectorTransferBatcher::new(4);
    assert_eq!(batcher.execute_batched_transfer(copy(4)).len(), 1);
    let batches = batcher.execute_batched_transfer(copy(10));
    let sizes: Vec<usize> = batches.iter().map(|batch| batch.blocks.len()).collect();
    assert_eq!(sizes, vec![4, 4, 2]);
    let all: Vec<(usize, usize)> = batches.into_iter().flat_map(|batch| batch.blocks).collect();
    assert_eq!(all, copy(10).blocks);
    assert_eq!(batcher.execute_batched_transfer(copy(0)).len(), 1);
}

fn handler(remote: bool) -> BlockTransferHandler {
    let pools = LocalPools { device: Some(8), host: Some(200), disk: None };
    let ctx = if remote { Some(object_context("b")) } else { None };
    BlockTransferHandler::new(pools, 16, ctx, true)
}

#[test]
fn copies_go_between_initialized_tiers() {
    let handler = handler(false);
    let plan = handler.execute_transfer_direct(&copy(3)).unwrap();
    assert_eq!((plan.sources, plan.targets), (vec![0, 1, 2], vec![100, 101, 102]));
    let mut request = copy(1);
    request.to_pool = BlockTransferPool::Device;
    assert_eq!(handler.execute_transfer_direct(&request).unwrap_err(), "Invalid transfer type.");
    request.to_pool = BlockTransferPool::Disk;
    assert_eq!(
        handler.execute_transfer_direct(&request).unwrap_err(),
        "Target pool manager not initialized"
    );
    request.from_pool = BlockTransferPool::Disk;
    request.to_pool = BlockTransferPool::Device;
    assert_eq!(
        handler.execute_transfer_direct(&request).unwrap_err(),
        "Source pool manager not initialized"
    );
    request.to_pool = BlockTransferPool::Host;
    assert_eq!(handler.execute_transfer_direct(&request).unwrap_err(), "Invalid transfer type.");
    assert_eq!(handler.execute_transfer(copy(20)).len(), 2);
}

fn onboard(n: u64) -> RemoteTransferPipeline {
    RemoteTransferPipeline::onboard_with_bounce(
        (0..n).map(|hash| RemoteBlockDescriptor::object_from_hash("b", hash, 16)).collect(),
        (50..50 + n as usize).collect(),
        (0..n as usize).collect(),
    )
}

#[test]
fn a_small_onboard_runs_in_one_piece() {
    match handler(true).execute_remote_transfer(&onboard(3), 3, true).unwrap() {
        RemoteTransferPlan::Serial { checksums_before, checksums_after, copy } => {
            assert!(!checksums_before && checksums_after);
            let copy = copy.unwrap();
            assert_eq!(copy.from_pool, BlockTransferPool::Host);
            assert_eq!(copy.to_pool, BlockTransferPool::Device);
            assert_eq!(copy.blocks, vec![(50, 0), (51, 1), (52, 2)]);
        }
        other => panic!("unexpected plan {other:?}"),
    }
    let offload = RemoteTransferPipeline::offload_with_bounce(
        vec![RemoteBlockDescriptor::object_from_hash("b", 1, 16)],
        vec![5],
        vec![6],
    );
    match handler(true).execute_remote_transfer(&offload, 0, true).unwrap() {
        RemoteTransferPlan::Serial { checksums_before, checksums_after, copy } => {
            assert!(checksums_before && !checksums_after);
            assert!(copy.is_none());
        }
        other => panic!("unexpected plan {other:?}"),
    }
}

#[test]
fn a_large_onboard_runs_in_chunks() {
    let pipeline = onboard(5);
    let chunks = match handler(true).execute_remote_transfer(&pipeline, 2, false).unwrap() {
        RemoteTransferPlan::Chunked { chunks } => chunks,
        other => panic!("unexpected plan {other:?}"),
    };
    let ranges: Vec<(usize, usize, usize)> =
        chunks.iter().map(|chunk| (chunk.index, chunk.start, chunk.end)).collect();
    assert_eq!(ranges, vec![(0, 0, 2), (1, 2, 4), (2, 4, 5)]);
    let part = chunk_pipeline(&pipeline, chunks[1]);
    assert_eq!(part.num_blocks(), 2);
    assert_eq!(part.descriptors()[0].sequence_hash(), Some(2));
    assert!(!part.has_bounce());

    let mut transfer = ChunkedTransfer::new();
    let first = transfer.chunk_read(&pipeline, chunks[1], Ok(())).unwrap();
    assert_eq!(first.blocks, vec![(52, 2), (53, 3)]);
    assert!(transfer.chunk_read(&pipeline, chunks[2], Err("lost".to_string())).is_none());
    transfer.chunk_copied(1, Err("late".to_string()));
    transfer.copy_panicked("later");
    assert_eq!(transfer.finish(), Err("R2H chunk 2: lost".to_string()));

    let mut transfer = ChunkedTransfer::new();
    transfer.chunk_copied(0, Ok(()));
    transfer.copy_panicked("worker gone");
    transfer.chunk_copied(1, Err("late".to_string()));
    assert_eq!(transfer.finish(), Err("H2D task panicked: worker gone".to_string()));
    let mut transfer = ChunkedTransfer::new();
    transfer.chunk_copied(0, Err("a".to_string()));
    assert!(transfer.chunk_read(&pipeline, chunks[1], Err("b".to_string())).is_none());
    assert_eq!(transfer.finish(), Err("R2H chunk 1: b".to_string()));
    let mut transfer = ChunkedTransfer::new();
    transfer.chunk_copied(7, Err("late".to_string()));
    assert_eq!(transfer.finish(), Err("H2D chunk 7: late".to_string()));
    assert_eq!(ChunkedTransfer::new().finish(), Ok(()));
}

#[test]
fn a_remote_transfer_needs_storage_and_host_blocks() {
    assert_eq!(
        handler(false).execute_remote_transfer(&onboard(1), 0, false).unwrap_err(),
        "Remote transfer context not configured"
    );
    let no_host = BlockTransferHandler::new(
        LocalPools { device: Some(8), host: None, disk: None },
        16,
        Some(object_context("b")),
        false,
    );
    assert_eq!(
        no_host.execute_remote_transfer(&onboard(1), 0, false).unwrap_err(),
        "Host blocks required for remote transfers"
    );
    let direct = RemoteTransferPipeline::onboard_direct(vec![]);
    assert_eq!(
        handler(true).execute_remote_transfer(&direct, 0, false).unwrap_err(),
        "Remote transfer requires bounce buffer block IDs"
    );
}

#[test]
fn messages_are_handled_one_at_a_time() {
    let handler = handler(true);
    assert_eq!(
        handler.handle(2, ParsedTransfer::Local(copy(1))).unwrap_err(),
        "Block transfer request must have exactly one data element"
    );
    assert_eq!(
        handler.handle(1, ParsedTransfer::Invalid("no json".to_string())).unwrap_err(),
        "no json"
    );
    let mut request = copy(1);
    request.connector_req = Some(LeaderTransferRequest {
        key: SlotKey::new("r".to_string(), 0),
        uuid: 7,
        request_type: RequestType::Immediate,
        chained: false,
    });
    let plan = handler.handle(1, ParsedTransfer::Local(request)).unwrap();
    assert_eq!(plan.schedule.unwrap().uuid, 7);
    match plan.work {
        TransferWork::Local(request) => assert!(request.connector_req.is_none()),
        other => panic!("unexpected work {other:?}"),
    }
    let remote = RemoteTransferMessage {
        request_id: "r".to_string(),
        pipeline: onboard(1),
        connector_req: None,
    };
    let plan = handler.handle(1, ParsedTransfer::Remote(remote)).unwrap();
    assert!(plan.schedule.is_none());
    assert!(matches!(plan.work, TransferWork::Remote(_)));
}

#[test]
fn reports_name_the_backend_and_the_block() {
    assert_eq!(transfer_backend(&RemoteStorageConfig::object("b")), "object");
    assert_eq!(transfer_backend(&RemoteStorageConfig::disk("/p", DISK_FLAGS_GDS_BOTH)), "gds_mt");
    assert_eq!(
        transfer_backend(&RemoteStorageConfig::disk("/p", DISK_FLAGS_GDS_READS_ONLY)),
        "posix"
    );
    let block = RemoteBlockDescriptor::object_from_hash("b", 0x10, 3);
    let line = checksum_line(&block, b"abc");
    assert_eq!(line.block_idx, 0x10);
    assert_eq!(line.remote_key, "b/0000000000000010");
    assert_eq!(line.checksum, compute_checksum(b"abc"));
    assert_eq!(g4_pipeline_chunk_size(&None), 0);
    assert_eq!(g4_pipeline_chunk_size(&Some("64".to_string())), 64);
    assert_eq!(g4_pipeline_chunk_size(&Some("x".to_string())), 0);
}
