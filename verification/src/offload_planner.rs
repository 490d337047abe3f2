//! Which blocks go to remote storage, and under which names.

use std::collections::HashSet;

use vstd::prelude::*;

use crate::config::RemoteStorageConfig;
use crate::protocol::SequenceHash;
use crate::remote::{
    self, DescriptorView, PipelineView, RemoteBlockDescriptor, RemoteTransferDirection,
    RemoteTransferPipeline,
};

verus! {

broadcast use vstd::std_specs::hash::group_hash_axioms;

/// The bucket that is used where none is configured.
pub open spec fn default_bucket() -> Seq<char> {
    "dynamo-kv-cache"@
}

/// The remote block of `hash` in `storage`. The bucket template is kept as it is: the rank is
/// filled in by whoever transfers the block.
pub open spec fn descriptor_for(
    hash: SequenceHash,
    storage: RemoteStorageConfig,
    block_size: usize,
    worker_id: usize,
    world_size: usize,
) -> DescriptorView {
    match storage {
        RemoteStorageConfig::Object { .. } => remote::object_descriptor(
            match storage.bucket_template_spec() {
                Some(template) => template,
                None => default_bucket(),
            },
            hash,
            block_size,
        ),
        RemoteStorageConfig::Disk { base_path, .. } => remote::disk_descriptor(
            base_path@,
            hash,
            block_size,
            worker_id,
            world_size,
        ),
    }
}

fn descriptor_for_exec(
    hash: SequenceHash,
    storage_config: &RemoteStorageConfig,
    block_size: usize,
    worker_id: usize,
    world_size: usize,
) -> (descriptor: RemoteBlockDescriptor)
    ensures
        descriptor@ == descriptor_for(hash, *storage_config, block_size, worker_id, world_size),
{
    match storage_config {
        RemoteStorageConfig::Object { bucket_template, .. } => {
            let bucket: &str = match bucket_template {
                Some(template) => template.as_str(),
                None => "dynamo-kv-cache",
            };
            RemoteBlockDescriptor::object_from_hash(bucket, hash, block_size)
        },
        RemoteStorageConfig::Disk { base_path, .. } => RemoteBlockDescriptor::disk_from_hash(
            base_path.as_str(),
            hash,
            block_size,
            worker_id,
            world_size,
        ),
    }
}

/// The remote blocks of `hashes`, in order.
pub open spec fn descriptors_for(
    hashes: Seq<SequenceHash>,
    storage: RemoteStorageConfig,
    block_size: usize,
    worker_id: usize,
    world_size: usize,
) -> Seq<DescriptorView> {
    Seq::new(
        hashes.len(),
        |i: int| descriptor_for(hashes[i], storage, block_size, worker_id, world_size),
    )
}

/// The remote blocks of `hashes`, in order.
pub fn create_descriptors(
    hashes: &[SequenceHash],
    storage_config: &RemoteStorageConfig,
    block_size: usize,
    worker_id: usize,
    world_size: usize,
) -> (descriptors: Vec<RemoteBlockDescriptor>)
    ensures
        remote::descriptor_views(descriptors@) == descriptors_for(
            hashes@,
            *storage_config,
            block_size,
            worker_id,
            world_size,
        ),
{
    let mut descriptors: Vec<RemoteBlockDescriptor> = Vec::new();
    let ghost all = descriptors_for(hashes@, *storage_config, block_size, worker_id, world_size);
    let mut i: usize = 0;
    while i < hashes.len()
        invariant
            i <= hashes@.len(),
            all == descriptors_for(hashes@, *storage_config, block_size, worker_id, world_size),
            remote::descriptor_views(descriptors@) =~= all.subrange(0, i as int),
        decreases hashes@.len() - i,
    {
        let ghost before = remote::descriptor_views(descriptors@);
        let descriptor = descriptor_for_exec(
            hashes[i],
            storage_config,
            block_size,
            worker_id,
            world_size,
        );
        descriptors.push(descriptor);
        assert(remote::descriptor_views(descriptors@) =~= before.push(descriptor@));
        i = i + 1;
    }
    assert(all.subrange(0, hashes@.len() as int) =~= all);
    descriptors
}

/// The hashes of the first `n` that are wanted, each with its position.
pub open spec fn wanted_with_positions(
    hashes: Seq<SequenceHash>,
    wanted: Seq<SequenceHash>,
    n: nat,
) -> Seq<(SequenceHash, u32)>
    decreases n,
{
    if n == 0 {
        Seq::empty()
    } else {
        let head = wanted_with_positions(hashes, wanted, (n - 1) as nat);
        if wanted.contains(hashes[n - 1]) {
            head.push((hashes[n - 1], (n - 1) as u32))
        } else {
            head
        }
    }
}

/// The block ids of the first `n` hashes that are not stored yet.
pub open spec fn unstored_ids(
    hashes: Seq<SequenceHash>,
    ids: Seq<usize>,
    stored: Seq<SequenceHash>,
    n: nat,
) -> Seq<usize>
    decreases n,
{
    if n == 0 {
        Seq::empty()
    } else {
        let head = unstored_ids(hashes, ids, stored, (n - 1) as nat);
        if stored.contains(hashes[n - 1]) {
            head
        } else {
            head.push(ids[n - 1])
        }
    }
}

/// The smaller of two lengths: how far two sequences run side by side.
pub open spec fn common_len(a: nat, b: nat) -> nat {
    if a <= b {
        a
    } else {
        b
    }
}

fn hash_set(hashes: &[SequenceHash]) -> (set: HashSet<u64>)
    ensures
        forall|hash: SequenceHash| #[trigger] set@.contains(hash) <==> hashes@.contains(hash),
{
    let mut set: HashSet<u64> = HashSet::new();
    let mut i: usize = 0;
    while i < hashes.len()
        invariant
            i <= hashes@.len(),
            forall|hash: SequenceHash| #[trigger]
                set@.contains(hash) <==> hashes@.subrange(0, i as int).contains(hash),
        decreases hashes@.len() - i,
    {
        let ghost seen = hashes@.subrange(0, i as int);
        let ghost upto = hashes@.subrange(0, i + 1);
        set.insert(hashes[i]);
        assert forall|hash: SequenceHash| #[trigger]
            set@.contains(hash) <==> upto.contains(hash) by {
            assert(upto =~= seen.push(hashes@[i as int]));
            if seen.contains(hash) {
                let j = seen.index_of(hash);
                assert(upto[j] == hash);
            }
            assert(upto[i as int] == hashes@[i as int]);
            if upto.contains(hash) && hash != hashes@[i as int] {
                let j = upto.index_of(hash);
                assert(seen[j] == hash);
            }
        }
        i = i + 1;
    }
    assert(hashes@.subrange(0, hashes@.len() as int) =~= hashes@);
    set
}

/// Keeps the hashes that the registry lets us offload, with their positions in the sequence, and
/// the ids of the host blocks that are not stored yet. Nothing is returned where the registry
/// lets us offload nothing.
pub fn filter_offload_hashes(
    sequence_hashes: &[SequenceHash],
    can_offload_hashes: &[SequenceHash],
    already_stored: &[SequenceHash],
    host_block_ids: Option<&[usize]>,
) -> (filtered: Option<(Vec<(SequenceHash, u32)>, Option<Vec<usize>>)>)
    ensures
        match filtered {
            None => can_offload_hashes@.len() == 0,
            Some((hashes, ids)) => {
                &&& can_offload_hashes@.len() > 0
                &&& hashes@ == wanted_with_positions(
                    sequence_hashes@,
                    can_offload_hashes@,
                    sequence_hashes@.len(),
                )
                &&& match (host_block_ids, ids) {
                    (None, None) => true,
                    (Some(all), Some(kept)) => kept@ == if already_stored@.len() == 0 {
                        all@
                    } else {
                        unstored_ids(
                            sequence_hashes@,
                            all@,
                            already_stored@,
                            common_len(sequence_hashes@.len(), all@.len()),
                        )
                    },
                    _ => false,
                }
            },
        },
{
    if can_offload_hashes.len() == 0 {
        return None;
    }
    let can_offload_set: HashSet<u64> = hash_set(can_offload_hashes);
    let mut hashes_with_positions: Vec<(SequenceHash, u32)> = Vec::new();
    let mut pos: usize = 0;
    while pos < sequence_hashes.len()
        invariant
            pos <= sequence_hashes@.len(),
            forall|hash: SequenceHash| #[trigger]
                can_offload_set@.contains(hash) <==> can_offload_hashes@.contains(hash),
            hashes_with_positions@ == wanted_with_positions(
                sequence_hashes@,
                can_offload_hashes@,
                pos as nat,
            ),
        decreases sequence_hashes@.len() - pos,
    {
        let hash: SequenceHash = sequence_hashes[pos];
        if can_offload_set.contains(&hash) {
            hashes_with_positions.push((hash, pos as u32));
        }
        pos = pos + 1;
    }
    let filtered_host_ids: Option<Vec<usize>> = match host_block_ids {
        None => None,
        Some(ids) => Some(keep_unstored_ids(sequence_hashes, ids, already_stored)),
    };
    Some((hashes_with_positions, filtered_host_ids))
}

fn keep_unstored_ids(
    sequence_hashes: &[SequenceHash],
    ids: &[usize],
    already_stored: &[SequenceHash],
) -> (kept: Vec<usize>)
    ensures
        kept@ == if already_stored@.len() == 0 {
            ids@
        } else {
            unstored_ids(
                sequence_hashes@,
                ids@,
                already_stored@,
                common_len(sequence_hashes@.len(), ids@.len()),
            )
        },
{
    let mut kept: Vec<usize> = Vec::new();
    if already_stored.len() == 0 {
        kept.extend_from_slice(ids);
        assert(kept@ =~= ids@);
        return kept;
    }
    let stored_set: HashSet<u64> = hash_set(already_stored);
    let mut pos: usize = 0;
    while pos < sequence_hashes.len() && pos < ids.len()
        invariant
            pos <= sequence_hashes@.len(),
            pos <= ids@.len(),
            forall|hash: SequenceHash| #[trigger]
                stored_set@.contains(hash) <==> already_stored@.contains(hash),
            kept@ == unstored_ids(sequence_hashes@, ids@, already_stored@, pos as nat),
        decreases ids@.len() - pos,
    {
        if !stored_set.contains(&sequence_hashes[pos]) {
            kept.push(ids[pos]);
        }
        pos = pos + 1;
    }
    kept
}

/// Whether blocks that reached the host tier go on to the object store: the registry is in use
/// and fewer such transfers run than are allowed at once.
pub fn should_trigger_h2o(
    is_host_transfer: bool,
    remote_registry_enabled: bool,
    current_h2o_count: usize,
    max_concurrent_h2o: usize,
) -> (trigger: bool)
    ensures
        trigger == (is_host_transfer && remote_registry_enabled && current_h2o_count
            < max_concurrent_h2o),
{
    is_host_transfer && remote_registry_enabled && current_h2o_count < max_concurrent_h2o
}

/// All hashes with their positions.
pub open spec fn all_with_positions(hashes: Seq<SequenceHash>) -> Seq<(SequenceHash, u32)> {
    Seq::new(hashes.len(), |i: int| (hashes[i], i as u32))
}

/// Picks the blocks of a remote transfer. An onboard takes every block; an offload takes those
/// that the registry's answer allows, and nothing is returned where it allows none.
pub fn filter_for_offload(
    sequence_hashes: &[SequenceHash],
    host_block_ids: Option<&[usize]>,
    is_onboard: bool,
    can_offload_hashes: &[SequenceHash],
    already_stored: &[SequenceHash],
) -> (filtered: Option<(Vec<(SequenceHash, u32)>, Option<Vec<usize>>)>)
    ensures
        is_onboard ==> (filtered matches Some((hashes, ids)) && hashes@ == all_with_positions(
            sequence_hashes@,
        ) && ids is None),
        !is_onboard ==> match filtered {
            None => can_offload_hashes@.len() == 0,
            Some((hashes, ids)) => {
                &&& can_offload_hashes@.len() > 0
                &&& hashes@ == wanted_with_positions(
                    sequence_hashes@,
                    can_offload_hashes@,
                    sequence_hashes@.len(),
                )
                &&& match (host_block_ids, ids) {
                    (None, None) => true,
                    (Some(all), Some(kept)) => kept@ == if already_stored@.len() == 0 {
                        all@
                    } else {
                        unstored_ids(
                            sequence_hashes@,
                            all@,
                            already_stored@,
                            common_len(sequence_hashes@.len(), all@.len()),
                        )
                    },
                    _ => false,
                }
            },
        },
{
    if is_onboard {
        let mut hashes: Vec<(SequenceHash, u32)> = Vec::new();
        let mut pos: usize = 0;
        while pos < sequence_hashes.len()
            invariant
                pos <= sequence_hashes@.len(),
                hashes@ =~= all_with_positions(sequence_hashes@).subrange(0, pos as int),
            decreases sequence_hashes@.len() - pos,
        {
            hashes.push((sequence_hashes[pos], pos as u32));
            pos = pos + 1;
        }
        assert(hashes@ =~= all_with_positions(sequence_hashes@));
        return Some((hashes, None));
    }
    filter_offload_hashes(sequence_hashes, can_offload_hashes, already_stored, host_block_ids)
}

/// The pipeline of a remote transfer. A transfer from the host tier touches no device block.
pub open spec fn pipeline_for(
    descriptors: Seq<DescriptorView>,
    is_onboard: bool,
    is_h2o: bool,
    bounce: Seq<usize>,
    device: Seq<usize>,
) -> PipelineView {
    PipelineView {
        direction: if is_onboard && !is_h2o {
            RemoteTransferDirection::Onboard
        } else {
            RemoteTransferDirection::Offload
        },
        descriptors,
        staging: Some(
            (
                bounce,
                if is_h2o {
                    Seq::empty()
                } else {
                    device
                },
            ),
        ),
    }
}

/// The pipeline of a remote transfer.
pub fn create_pipeline(
    descriptors: Vec<RemoteBlockDescriptor>,
    is_onboard: bool,
    is_h2o: bool,
    bounce_block_ids: Vec<usize>,
    device_block_ids: Vec<usize>,
) -> (pipeline: RemoteTransferPipeline)
    ensures
        pipeline@ == pipeline_for(
            remote::descriptor_views(descriptors@),
            is_onboard,
            is_h2o,
            bounce_block_ids@,
            device_block_ids@,
        ),
        pipeline@.direction == RemoteTransferDirection::Onboard <==> is_onboard && !is_h2o,
        pipeline@.direction == RemoteTransferDirection::Offload <==> !is_onboard || is_h2o,
{
    if is_h2o {
        RemoteTransferPipeline::offload_with_bounce(descriptors, bounce_block_ids, Vec::new())
    } else if is_onboard {
        RemoteTransferPipeline::onboard_with_bounce(descriptors, bounce_block_ids, device_block_ids)
    } else {
        RemoteTransferPipeline::offload_with_bounce(descriptors, bounce_block_ids, device_block_ids)
    }
}

/// The pipeline that moves the remote blocks of `hashes`.
pub fn create_transfer_pipeline(
    hashes: &[SequenceHash],
    storage_config: &RemoteStorageConfig,
    block_size: usize,
    worker_id: usize,
    world_size: usize,
    is_onboard: bool,
    is_h2o: bool,
    bounce_block_ids: Vec<usize>,
    device_block_ids: Vec<usize>,
) -> (pipeline: RemoteTransferPipeline)
    ensures
        pipeline@ == pipeline_for(
            descriptors_for(hashes@, *storage_config, block_size, worker_id, world_size),
            is_onboard,
            is_h2o,
            bounce_block_ids@,
            device_block_ids@,
        ),
{
    let descriptors = create_descriptors(hashes, storage_config, block_size, worker_id, world_size);
    create_pipeline(descriptors, is_onboard, is_h2o, bounce_block_ids, device_block_ids)
}

/// Filtering keeps a hash exactly if it is wanted, pairs it with the place it had in the
/// sequence, and keeps the order of the places.
pub proof fn filtering_preserves_positions(
    hashes: Seq<SequenceHash>,
    wanted: Seq<SequenceHash>,
    n: nat,
)
    requires
        n <= hashes.len() <= u32::MAX,
    ensures
        ({
            let kept = wanted_with_positions(hashes, wanted, n);
            &&& forall|i: int|
                0 <= i < kept.len() ==> {
                    let (hash, pos) = #[trigger] kept[i];
                    &&& pos < n
                    &&& hashes[pos as int] == hash
                    &&& wanted.contains(hash)
                }
            &&& forall|i: int, j: int|
                0 <= i < j < kept.len() ==> (#[trigger] kept[i]).1 < (#[trigger] kept[j]).1
            &&& forall|p: int|
                0 <= p < n && wanted.contains(#[trigger] hashes[p]) ==> kept.contains(
                    (hashes[p], p as u32),
                )
        }),
    decreases n,
{
    if n > 0 {
        let m = (n - 1) as nat;
        filtering_preserves_positions(hashes, wanted, m);
        let head = wanted_with_positions(hashes, wanted, m);
        let kept = wanted_with_positions(hashes, wanted, n);
        assert forall|p: int|
            0 <= p < n && wanted.contains(#[trigger] hashes[p]) implies kept.contains(
            (hashes[p], p as u32),
        ) by {
            if p < m {
                assert(head.contains((hashes[p], p as u32)));
                let i = head.index_of((hashes[p], p as u32));
                assert(kept[i] == (hashes[p], p as u32));
            } else {
                assert(kept[kept.len() - 1] == (hashes[p], p as u32));
            }
        }
    }
}

/// The kept host blocks belong to the kept hashes: where everything is either stored or may be
/// offloaded, block ids and hashes are filtered alike.
pub proof fn ids_are_filtered_like_hashes(
    hashes: Seq<SequenceHash>,
    ids: Seq<usize>,
    can_offload: Seq<SequenceHash>,
    stored: Seq<SequenceHash>,
    n: nat,
)
    requires
        n <= hashes.len() <= u32::MAX,
        n <= ids.len(),
        forall|i: int|
            0 <= i < n ==> (can_offload.contains(#[trigger] hashes[i]) <==> !stored.contains(
                hashes[i],
            )),
    ensures
        ({
            let kept = wanted_with_positions(hashes, can_offload, n);
            unstored_ids(hashes, ids, stored, n) =~= Seq::new(
                kept.len(),
                |i: int| ids[kept[i].1 as int],
            )
        }),
    decreases n,
{
    if n > 0 {
        let m = (n - 1) as nat;
        ids_are_filtered_like_hashes(hashes, ids, can_offload, stored, m);
        assert(can_offload.contains(hashes[n - 1]) <==> !stored.contains(hashes[n - 1]));
    }
}

} // verus!
