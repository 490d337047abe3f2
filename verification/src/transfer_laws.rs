//! Laws of transfers: between which tiers blocks are copied, in which pieces, and which way remote
//! blocks travel.

use vstd::prelude::*;

use crate::block_transfer::{
    self, BlockCopyView, BlockTransferPool, BlockTransferRequest, ChunkFailures,
    ConnectorTransferBatcher, LocalPools, ParsedTransfer, TransferChunk, TransferWork,
};
use crate::config::RemoteStorageConfig;
use crate::offload_planner;
use crate::protocol::SequenceHash;
use crate::remote::{self, DescriptorView, PipelineView, RemoteTransferDirection};

verus! {

/// Blocks can be copied between any two different tiers, except from disk to the host.
pub proof fn tiers_are_connected(from: BlockTransferPool, to: BlockTransferPool)
    ensures
        block_transfer::is_route(from, to) <==> from != to && !(from == BlockTransferPool::Disk
            && to == BlockTransferPool::Host),
        block_transfer::is_route(BlockTransferPool::Host, BlockTransferPool::Device),
        block_transfer::is_route(BlockTransferPool::Device, BlockTransferPool::Host),
        block_transfer::is_route(BlockTransferPool::Device, BlockTransferPool::Disk),
        block_transfer::is_route(BlockTransferPool::Host, BlockTransferPool::Disk),
        block_transfer::is_route(BlockTransferPool::Disk, BlockTransferPool::Device),
{
}

/// The size of a tier is that of its own pool.
pub proof fn tiers_have_their_own_pools(pools: LocalPools)
    ensures
        pools.size_of(BlockTransferPool::Device) == pools.device,
        pools.size_of(BlockTransferPool::Host) == pools.host,
        pools.size_of(BlockTransferPool::Disk) == pools.disk,
{
}

/// Every copy that ends an onboard can be carried out: it goes from the host to the device, which
/// are connected, so that it is refused only where a pool is missing.
pub proof fn onboard_copies_are_accepted(
    pools: LocalPools,
    pipeline: PipelineView,
    pairs: Seq<(usize, usize)>,
)
    requires
        pools.host is Some,
        pools.device is Some,
    ensures
        ({
            let copy = block_transfer::to_device(pairs);
            &&& copy.blocks == pairs
            &&& copy.from_pool == BlockTransferPool::Host
            &&& copy.to_pool == BlockTransferPool::Device
            &&& block_transfer::is_route(copy.from_pool, copy.to_pool)
            &&& pools.size_of(copy.from_pool) == pools.host
            &&& pools.size_of(copy.to_pool) == pools.device
        }),
        block_transfer::following_copy(pipeline) matches Some(copy) ==> {
            &&& copy.from_pool == BlockTransferPool::Host
            &&& copy.to_pool == BlockTransferPool::Device
            &&& block_transfer::is_route(copy.from_pool, copy.to_pool)
            &&& pools.size_of(copy.from_pool) is Some
            &&& pools.size_of(copy.to_pool) is Some
        },
{
}

/// Host and device blocks are paired by their places, as far as both lists reach.
pub proof fn staged_blocks_are_paired_by_place(hosts: Seq<usize>, devices: Seq<usize>, i: int)
    ensures
        ({
            let pairs = block_transfer::staged_pairs(hosts, devices);
            &&& pairs.len() <= hosts.len() && pairs.len() <= devices.len()
            &&& pairs.len() == hosts.len() || pairs.len() == devices.len()
            &&& 0 <= i < hosts.len() && i < devices.len() ==> i < pairs.len() && pairs[i] == (
                hosts[i],
                devices[i],
            )
        }),
{
}

/// What an onboard brought to the host reaches the device: in one piece, every staged pair is
/// copied unless there is none.
pub proof fn onboards_reach_the_device(pipeline: PipelineView, i: int)
    requires
        pipeline.direction == RemoteTransferDirection::Onboard,
        pipeline.staging is Some,
        0 <= i < (pipeline.staging->0).0.len(),
        i < (pipeline.staging->0).1.len(),
    ensures
        block_transfer::following_copy(pipeline) matches Some(copy) && copy.blocks[i] == (
            (pipeline.staging->0).0[i],
            (pipeline.staging->0).1[i],
        ) && i < copy.blocks.len(),
{
}

/// An onboard without staged pairs copies nothing.
pub proof fn nothing_staged_is_not_copied(pipeline: PipelineView)
    requires
        pipeline.staging is None || (pipeline.staging->0).0.len() == 0 || (
        pipeline.staging->0).1.len() == 0,
    ensures
        block_transfer::following_copy(pipeline) is None,
{
}

/// An offload leaves the device alone: it is never split and never followed by a copy to the
/// device, whatever it stages.
pub proof fn offloads_leave_the_device_alone(pipeline: PipelineView, chunk_size: usize)
    requires
        pipeline.direction == RemoteTransferDirection::Offload,
    ensures
        !block_transfer::is_chunked(pipeline, chunk_size),
        block_transfer::following_copy(pipeline) is None,
{
}

/// An onboard is split exactly where it has more blocks than a chunk takes; a chunk size of zero
/// turns splitting off.
pub proof fn long_onboards_are_split(pipeline: PipelineView, chunk_size: usize)
    requires
        pipeline.direction == RemoteTransferDirection::Onboard,
    ensures
        chunk_size == 0 ==> !block_transfer::is_chunked(pipeline, chunk_size),
        chunk_size > 0 ==> (block_transfer::is_chunked(pipeline, chunk_size)
            <==> pipeline.descriptors.len() > chunk_size),
{
}

/// The chunks of a transfer follow each other without a gap, from the first block to the last:
/// none is empty, and none is longer than asked for.
pub proof fn chunks_follow_each_other(chunks: Seq<TransferChunk>, n: nat, size: nat, i: int)
    requires
        size > 0,
        n > 0,
        block_transfer::are_chunks_of(chunks, n, size),
        0 <= i < chunks.len(),
    ensures
        chunks[i].index == i,
        chunks[i].start < chunks[i].end <= n,
        chunks[i].end - chunks[i].start <= size,
        i == 0 ==> chunks[i].start == 0,
        i + 1 < chunks.len() ==> chunks[i].end == chunks[i + 1].start && chunks[i].end
            - chunks[i].start == size,
        i + 1 == chunks.len() ==> chunks[i].end == n,
{
    block_transfer::part_bounds(i as nat, size, n);
    assert((i + 1) * size == i * size + size) by (nonlinear_arith);
    assert(0 * size == 0) by (nonlinear_arith);
    if i + 1 < chunks.len() {
        assert(chunks[i + 1].start == block_transfer::part_start((i + 1) as nat, size));
    }
}

/// Batches move blocks between the tiers of their request, in its order. None is longer than the
/// batcher allows, and a request that fits is handed on as it is.
pub proof fn batches_keep_the_tiers(
    batcher: ConnectorTransferBatcher,
    request: BlockTransferRequest,
    batches: Seq<BlockTransferRequest>,
    i: int,
)
    requires
        batcher.batch_size() > 0,
        batcher.batched(request, batches),
        0 <= i < batches.len(),
    ensures
        batches[i].from_pool == request.from_pool,
        batches[i].to_pool == request.to_pool,
        batches[i].blocks@.len() <= batcher.batch_size(),
        request.blocks@.len() <= batcher.batch_size() ==> batches.len() == 1 && batches[i] == request,
        request.blocks@.len() > batcher.batch_size() ==> batches[i].connector_req is None
            && batches[i].blocks@.len() > 0 && (i + 1 < batches.len()
            ==> batches[i].blocks@.len() == batcher.batch_size()),
{
    if request.blocks@.len() > batcher.batch_size() {
        block_transfer::parts_make_up_the_whole(request.blocks@, batcher.batch_size());
        let all = block_transfer::parts(request.blocks@, batcher.batch_size());
        assert(batches[i].is_plain_copy(
            BlockCopyView {
                from_pool: request.from_pool,
                to_pool: request.to_pool,
                blocks: all[i],
            },
        ));
    }
}

/// A transfer in chunks fails exactly if some read or some copy failed. Of several failed reads
/// the first is kept, and so is the first of several failed copies.
pub proof fn chunk_failures_are_kept(
    failures: ChunkFailures,
    first: Seq<char>,
    later: Seq<char>,
)
    ensures
        failures.reported() is None <==> failures.read is None && failures.copy is None,
        failures.reported() matches Some(error) ==> failures.read == Some(error) || failures.copy
            == Some(error),
        failures.read_failed(first).read is Some,
        failures.read is None ==> failures.read_failed(first).read_failed(later).read == Some(
            first,
        ),
        failures.read_failed(first).copy == failures.copy,
        failures.copy_failed(first).copy is Some,
        failures.copy is None ==> failures.copy_failed(first).copy_failed(later).copy == Some(
            first,
        ),
        failures.copy_failed(first).read == failures.read,
{
}

/// The report of a failed chunk begins with the stage and ends with the reason.
pub proof fn chunk_failures_name_stage_and_reason(
    stage: Seq<char>,
    index: usize,
    reason: Seq<char>,
)
    ensures
        ({
            let report = block_transfer::chunk_failure(stage, index, reason);
            &&& report.len() > stage.len() + reason.len()
            &&& report.subrange(0, stage.len() as int) == stage
            &&& report.subrange(report.len() - reason.len(), report.len() as int) == reason
        }),
{
    reveal_strlit(": ");
    let report = block_transfer::chunk_failure(stage, index, reason);
    assert(report.subrange(0, stage.len() as int) =~= stage);
    assert(report.subrange(report.len() - reason.len(), report.len() as int) =~= reason);
}

/// The work of a message is what the message asks for: the same pipeline or the same copy. Only
/// what ties it to the scheduler is taken out, and that is what the scheduler is asked with.
pub proof fn messages_are_carried_out_as_asked(parsed: ParsedTransfer)
    ensures
        match parsed {
            ParsedTransfer::Remote(message) => {
                &&& block_transfer::scheduled_as(parsed) == message.connector_req
                &&& block_transfer::work_of(parsed) matches Some(TransferWork::Remote(work))
                &&& work.pipeline == message.pipeline
                &&& work.request_id == message.request_id
                &&& work.connector_req is None
            },
            ParsedTransfer::Local(request) => {
                &&& block_transfer::scheduled_as(parsed) == request.connector_req
                &&& block_transfer::work_of(parsed) matches Some(TransferWork::Local(work))
                &&& work.from_pool == request.from_pool
                &&& work.to_pool == request.to_pool
                &&& work.blocks == request.blocks
                &&& work.sequence_hashes == request.sequence_hashes
                &&& work.connector_req is None
            },
            ParsedTransfer::Invalid(_) => block_transfer::work_of(parsed) is None
                && block_transfer::scheduled_as(parsed) is None,
        },
{
}

/// Only an onboard that is no transfer from the host tier reads remote blocks; every other
/// pipeline writes them. What writes remote blocks is never split and never followed by a copy to
/// the device.
pub proof fn pipelines_go_the_way_they_were_asked_for(
    descriptors: Seq<DescriptorView>,
    is_onboard: bool,
    is_h2o: bool,
    bounce: Seq<usize>,
    device: Seq<usize>,
    chunk_size: usize,
)
    ensures
        ({
            let pipeline = offload_planner::pipeline_for(
                descriptors,
                is_onboard,
                is_h2o,
                bounce,
                device,
            );
            &&& pipeline.direction == RemoteTransferDirection::Onboard <==> is_onboard && !is_h2o
            &&& !is_onboard ==> pipeline.direction == RemoteTransferDirection::Offload
            &&& is_h2o ==> pipeline.direction == RemoteTransferDirection::Offload
            &&& !is_onboard || is_h2o ==> !block_transfer::is_chunked(pipeline, chunk_size)
                && block_transfer::following_copy(pipeline) is None
        }),
{
}

/// A pipeline moves the blocks it was made for through the host blocks it was given. It knows the
/// device blocks too, unless it starts at the host tier.
pub proof fn pipelines_hold_what_they_were_made_of(
    descriptors: Seq<DescriptorView>,
    is_onboard: bool,
    is_h2o: bool,
    bounce: Seq<usize>,
    device: Seq<usize>,
)
    ensures
        ({
            let pipeline = offload_planner::pipeline_for(
                descriptors,
                is_onboard,
                is_h2o,
                bounce,
                device,
            );
            &&& pipeline.descriptors == descriptors
            &&& pipeline.staging is Some
            &&& (pipeline.staging->0).0 == bounce
            &&& !is_h2o ==> (pipeline.staging->0).1 == device
            &&& is_h2o ==> (pipeline.staging->0).1.len() == 0
        }),
{
}

/// Every hash has one remote block, at its place in the list: of the size of a block, under its
/// own hash, in the storage that is configured.
pub proof fn remote_blocks_stand_for_their_hashes(
    hashes: Seq<SequenceHash>,
    storage: RemoteStorageConfig,
    block_size: usize,
    worker_id: usize,
    world_size: usize,
    i: int,
)
    requires
        0 <= i < hashes.len(),
    ensures
        ({
            let blocks = offload_planner::descriptors_for(
                hashes,
                storage,
                block_size,
                worker_id,
                world_size,
            );
            &&& blocks.len() == hashes.len()
            &&& blocks[i].sequence_hash == Some(hashes[i])
            &&& blocks[i].size == block_size
            &&& match storage {
                RemoteStorageConfig::Object { bucket_template, .. } => {
                    &&& blocks[i].key is Object
                    &&& bucket_template matches Some(template) ==> blocks[i].key->bucket
                        == template@
                },
                RemoteStorageConfig::Disk { base_path, .. } => {
                    &&& blocks[i].key is Disk
                    &&& blocks[i].key->path == base_path@
                },
            }
        }),
{
}

/// Different hashes have different remote blocks, and on disk so have different ranks.
pub proof fn remote_blocks_are_distinct(
    a: SequenceHash,
    b: SequenceHash,
    storage: RemoteStorageConfig,
    block_size: usize,
    worker_a: usize,
    worker_b: usize,
    world_size: usize,
)
    requires
        a != b || (storage is Disk && worker_a != worker_b),
    ensures
        offload_planner::descriptor_for(a, storage, block_size, worker_a, world_size).key
            != offload_planner::descriptor_for(b, storage, block_size, worker_b, world_size).key,
{
    let key_a = offload_planner::descriptor_for(a, storage, block_size, worker_a, world_size).key;
    let key_b = offload_planner::descriptor_for(b, storage, block_size, worker_b, world_size).key;
    if key_a == key_b {
        match storage {
            RemoteStorageConfig::Object { .. } => {
                remote::object_names_are_distinct(a, b);
            },
            RemoteStorageConfig::Disk { .. } => {
                remote::file_names_are_distinct(
                    a,
                    worker_a,
                    world_size,
                    b,
                    worker_b,
                    world_size,
                );
            },
        }
    }
}

/// An onboard takes every block, each at its place.
pub proof fn onboards_take_every_block(hashes: Seq<SequenceHash>, i: int)
    requires
        hashes.len() <= u32::MAX,
        0 <= i < hashes.len(),
    ensures
        offload_planner::all_with_positions(hashes).len() == hashes.len(),
        offload_planner::all_with_positions(hashes)[i].0 == hashes[i],
        offload_planner::all_with_positions(hashes)[i].1 == i,
{
}

/// A host block is kept exactly if its hash is not stored yet.
pub proof fn stored_blocks_are_left_out(
    hashes: Seq<SequenceHash>,
    ids: Seq<usize>,
    stored: Seq<SequenceHash>,
    n: nat,
)
    requires
        n <= hashes.len(),
        n <= ids.len(),
    ensures
        ({
            let kept = offload_planner::unstored_ids(hashes, ids, stored, n);
            &&& kept.len() <= n
            &&& forall|i: int|
                #![trigger ids[i]]
                0 <= i < n && !stored.contains(hashes[i]) ==> kept.contains(ids[i])
            &&& forall|k: int|
                0 <= k < kept.len() ==> exists|i: int|
                    0 <= i < n && !stored.contains(hashes[i]) && #[trigger] ids[i]
                        == #[trigger] kept[k]
        }),
    decreases n,
{
    let kept = offload_planner::unstored_ids(hashes, ids, stored, n);
    if n > 0 {
        let m = (n - 1) as nat;
        stored_blocks_are_left_out(hashes, ids, stored, m);
        let head = offload_planner::unstored_ids(hashes, ids, stored, m);
        assert forall|i: int|
            #![trigger ids[i]]
            0 <= i < n && !stored.contains(hashes[i]) implies kept.contains(ids[i]) by {
            if i < m {
                let k = head.index_of(ids[i]);
                assert(kept[k] == ids[i]);
            } else {
                assert(kept[kept.len() - 1] == ids[i]);
            }
        }
        assert forall|k: int| 0 <= k < kept.len() implies exists|i: int|
            0 <= i < n && !stored.contains(hashes[i]) && #[trigger] ids[i] == #[trigger] kept[k] by {
            if k < head.len() {
                assert(kept[k] == head[k]);
                let i = choose|i: int|
                    0 <= i < m && !stored.contains(hashes[i]) && #[trigger] ids[i] == head[k];
                assert(ids[i] == kept[k]);
            } else {
                assert(ids[n - 1] == kept[k]);
            }
        }
    }
}

/// Two lists run side by side to the end of the shorter one.
pub proof fn lists_end_with_the_shorter(a: nat, b: nat)
    ensures
        offload_planner::common_len(a, b) <= a,
        offload_planner::common_len(a, b) <= b,
        offload_planner::common_len(a, b) == a || offload_planner::common_len(a, b) == b,
{
}

} // verus!
