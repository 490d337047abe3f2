//! What holds of the transfers to and from remote storage, of the cache of opened files and of
//! the regions of local copies.

use vstd::prelude::*;

use crate::config::{
    self, DiskTransferFlags, KvManagerLayoutConfigBuilder, RemoteContextParts, RemoteStorageConfig,
    DISK_FLAGS_GDS_BOTH, DISK_FLAGS_GDS_READS_ONLY, DISK_FLAGS_POSIX_BOTH,
};
use crate::fd_cache::{self, DiskStorageId, FdCacheKeyView, FdCacheView, RemoteDiskFdCacheEntry};
use crate::nixl_transfer::{
    self, DiskBackend, ObjectTarget, RemoteDiskAlignmentConfig, RemoteTransferStart,
    TransferErrorView, WaitEvent, XferDescriptor, XferStatus,
};
use crate::remote::{self, DescriptorView, RemoteStorageKind, RemoteTransferDirection};
use crate::text;
use crate::xfer_blocks::{self, MissingRegion, XferBlockView};

verus! {

/// What goes out is written and what comes in is read.
pub proof fn offloads_write_and_onboards_read(direction: RemoteTransferDirection)
    ensures
        nixl_transfer::op_of(direction) is Write <==> direction is Offload,
        nixl_transfer::op_of(direction) is Read <==> direction is Onboard,
{
}

/// The flags of a store decide the backend of either direction. What comes in needs the backend
/// to be loaded as well; what goes out does not look.
pub proof fn flags_pick_the_backend(flags: DiskTransferFlags, gds_available: bool)
    ensures
        ({
            let out = nixl_transfer::backend_of(
                RemoteTransferDirection::Offload,
                flags,
                gds_available,
            );
            let back = nixl_transfer::backend_of(
                RemoteTransferDirection::Onboard,
                flags,
                gds_available,
            );
            &&& flags == DISK_FLAGS_GDS_BOTH ==> out is GdsMt && (back is GdsMt <==> gds_available)
            &&& flags == DISK_FLAGS_POSIX_BOTH ==> out is Posix && back is Posix
            &&& flags == DISK_FLAGS_GDS_READS_ONLY ==> out is Posix && (back is GdsMt
                <==> gds_available)
            &&& !gds_available ==> back is Posix
        }),
{
    assert(3u8 & 1u8 == 1 && 3u8 & 2u8 == 2 && 0u8 & 1u8 == 0 && 0u8 & 2u8 == 0 && 2u8 & 1u8 == 0
        && 2u8 & 2u8 == 2) by (bit_vector);
}

/// Without the page cache there is GPU-direct storage, or the setting for plain files.
pub proof fn direct_transfers_bypass_the_page_cache(backend: DiskBackend, posix_odirect: bool)
    ensures
        backend is GdsMt ==> nixl_transfer::bypasses_page_cache(backend, posix_odirect),
        backend is Posix ==> nixl_transfer::bypasses_page_cache(backend, posix_odirect)
            == posix_odirect,
{
}

/// Only unbuffered transfers whose alignment is checked can be refused, and only at what is no
/// multiple of the alignment.
pub proof fn multiples_of_the_alignment_pass(
    alignment: RemoteDiskAlignmentConfig,
    use_odirect: bool,
    n: usize,
    factor: nat,
)
    ensures
        n == factor * alignment.quantum ==> !alignment.refuses(use_odirect, n),
        alignment.quantum > 0 && factor * alignment.quantum < n < (factor + 1) * alignment.quantum
            ==> alignment.refuses(use_odirect, n) == (use_odirect && alignment.validate),
        !use_odirect || !alignment.validate ==> !alignment.refuses(use_odirect, n),
{
    let q = alignment.quantum as int;
    if n == factor * q {
        if q == 0 {
            assert(n == 0) by (nonlinear_arith)
                requires
                    n == factor * q,
                    q == 0,
            ;
        } else {
            vstd::arithmetic::div_mod::lemma_mod_multiples_basic(factor as int, q);
        }
    }
    if q > 0 && factor * q < n < (factor + 1) * q {
        let r = n - factor * q;
        assert((factor + 1) * q == factor * q + q) by (nonlinear_arith);
        vstd::arithmetic::div_mod::lemma_fundamental_div_mod_converse(
            n as int,
            q,
            factor as int,
            r,
        );
    }
}

/// The page size is what the system reports, and 4096 where that is no size.
pub proof fn page_sizes_are_those_reported(reported: Option<i64>, size: usize)
    requires
        size > 0,
        size <= i64::MAX,
    ensures
        nixl_transfer::page_size_of(Some(size as i64)) == size,
        nixl_transfer::page_size_of(None) == 4096,
        reported matches Some(n) ==> n <= 0 ==> nixl_transfer::page_size_of(reported) == 4096,
{
}

/// A setting replaces the alignment where it is a positive number that fits.
pub proof fn alignments_can_be_set(setting: Seq<char>)
    ensures
        nixl_transfer::alignment_override(None) is None,
        nixl_transfer::alignment_override(Some(setting)) matches Some(n) ==> n > 0
            && text::parsed_number(setting) == Some(n as u64),
        text::parsed_number(setting) matches Some(n) ==> 0 < n <= usize::MAX
            ==> nixl_transfer::alignment_override(Some(setting)) == Some(n as usize),
{
}

/// A block on disk with a known hash has a file in the directory of the store, named by its hash
/// and rank. A block without a hash, or of an object store, has none.
pub proof fn disk_blocks_have_files(
    block: DescriptorView,
    ctx: RemoteContextParts,
    directory: String,
    flags: DiskTransferFlags,
)
    requires
        ctx.config == (RemoteStorageConfig::Disk { base_path: directory, transfer_flags: flags }),
    ensures
        ({
            let file = nixl_transfer::file_of(block, ctx);
            &&& file is Ok <==> block.key is Disk && block.sequence_hash is Some
            &&& file is Ok ==> (forall|i: int|
                0 <= i < directory@.len() ==> #[trigger] file->Ok_0[i] == directory@[i])
            &&& file is Ok ==> file->Ok_0[directory@.len() as int] == '/'
            &&& file is Ok ==> file->Ok_0.subrange(
                directory@.len() as int + 1,
                file->Ok_0.len() as int,
            ) == remote::file_name(
                block.sequence_hash->0,
                ctx.worker_id as usize,
                ctx.world_size,
            )
            &&& block.key is Object ==> file->Err_0 is IncompatibleTypes
            &&& block.key is Disk && block.sequence_hash is None ==> file->Err_0 is ExecutionError
        }),
{
    reveal_strlit("/");
    let file = nixl_transfer::file_of(block, ctx);
    if file is Ok {
        let name = remote::file_name(
            block.sequence_hash->0,
            ctx.worker_id as usize,
            ctx.world_size,
        );
        let path = file->Ok_0;
        assert(path == directory@ + "/"@ + name);
        assert(path.subrange(directory@.len() as int + 1, path.len() as int) =~= name);
    }
}

/// An object is transferred under the hash of its block, in the bucket of its key. A block
/// without a hash, or on disk, is no object.
pub proof fn object_blocks_have_keys(block: DescriptorView)
    ensures
        ({
            let object = nixl_transfer::object_of(block);
            &&& object is Ok <==> block.key is Object && block.sequence_hash is Some
            &&& object is Ok ==> object->Ok_0.1 == block.sequence_hash->0 && object->Ok_0.0
                == block.key->bucket
            &&& block.key is Disk ==> object->Err_0 is IncompatibleTypes
            &&& block.key is Object && block.sequence_hash is None
                ==> object->Err_0 is ExecutionError
        }),
{
}

/// Region by region: a host buffer at its own address, and what is stored under its own number
/// from its start, each as long as a block.
pub proof fn regions_are_listed_in_order(
    addrs: Seq<usize>,
    ids: Seq<u64>,
    targets: Seq<ObjectTarget>,
    size: usize,
    i: int,
)
    ensures
        nixl_transfer::host_regions(addrs, size).len() == addrs.len(),
        nixl_transfer::stored_regions(ids, size).len() == ids.len(),
        nixl_transfer::object_keys(targets).len() == targets.len(),
        0 <= i < addrs.len() ==> nixl_transfer::host_regions(addrs, size)[i].addr == addrs[i]
            && nixl_transfer::host_regions(addrs, size)[i].size == size,
        0 <= i < ids.len() ==> nixl_transfer::stored_regions(ids, size)[i].device_id == ids[i]
            && nixl_transfer::stored_regions(ids, size)[i].size == size
            && nixl_transfer::stored_regions(ids, size)[i].addr == 0,
        0 <= i < targets.len() ==> nixl_transfer::object_keys(targets)[i] == targets[i].key,
{
}

/// Lists end with the shorter of the two.
pub proof fn pairs_end_with_the_shorter_list(a: nat, b: nat)
    ensures
        nixl_transfer::shorter(a, b) <= a,
        nixl_transfer::shorter(a, b) <= b,
        nixl_transfer::shorter(a, b) == a || nixl_transfer::shorter(a, b) == b,
{
}

/// A transfer runs where there are as many buffers as blocks, nobody cancelled it and there is an
/// agent; it runs on the storage that was asked for. Nothing to move is no failure.
pub proof fn transfers_run_where_they_can(
    kind: RemoteStorageKind,
    remote: nat,
    local: nat,
    cancelled: bool,
    has_agent: bool,
)
    requires
        remote <= usize::MAX,
        local <= usize::MAX,
    ensures
        ({
            let start = nixl_transfer::start_of(kind, remote, local, cancelled, has_agent);
            &&& remote == 0 || local == 0 ==> (start matches Ok(RemoteTransferStart::Done))
            &&& start matches Ok(RemoteTransferStart::Run(on)) ==> on == kind && remote == local
                && remote > 0 && !cancelled && has_agent
            &&& remote == local && remote > 0 && !cancelled && has_agent ==> start is Ok
                && start->Ok_0 is Run
            &&& remote > 0 && local > 0 && remote != local ==> (start matches Err(
                TransferErrorView::CountMismatch(a, b),
            ) && a == remote && b == local)
            &&& remote > 0 && remote == local && cancelled ==> (start matches Err(
                TransferErrorView::Cancelled,
            ))
            &&& remote > 0 && remote == local && !cancelled && !has_agent ==> (start matches Err(
                TransferErrorView::ExecutionError(_),
            ))
        }),
{
}

/// The wait goes on only while the storage reports progress. It ends well with success or with
/// the news of it, and else with a failure that names its reason.
pub proof fn waits_end_with_the_transfer(event: WaitEvent)
    ensures
        ({
            let outcome = nixl_transfer::outcome_of(event);
            &&& outcome is None <==> (event matches WaitEvent::Polled(XferStatus::InProgress))
            &&& outcome is Some && outcome->0 is Ok <==> (event matches WaitEvent::Polled(
                XferStatus::Success,
            )) || (event matches WaitEvent::Notified(Ok(_)))
            &&& event is Cancelled ==> outcome is Some && outcome->0 is Err
                && outcome->0->Err_0 is Cancelled
            &&& event matches WaitEvent::Notified(Err(reason)) ==> outcome is Some
                && outcome->0 is Err && outcome->0->Err_0 == TransferErrorView::ExecutionError(
                reason@,
            )
        }),
{
}

/// Every lookup and every insertion moves the clock by one, and stamps the file with the new time.
pub proof fn uses_are_stamped(
    cache: FdCacheView,
    key: FdCacheKeyView,
    storage: DiskStorageId,
    room: Map<FdCacheKeyView, RemoteDiskFdCacheEntry>,
)
    requires
        cache.access_tick < u64::MAX,
    ensures
        cache.looked_up(key).access_tick == cache.access_tick + 1,
        cache.put(room, key, storage).access_tick == cache.access_tick + 1,
        cache.put(room, key, storage).entries[key].last_access_tick == cache.access_tick + 1,
        cache.entries.dom().contains(key) ==> cache.looked_up(key).entries[key].last_access_tick
            == cache.access_tick + 1,
{
}

/// A lookup opens and closes nothing, and touches no other file.
pub proof fn lookups_keep_the_files(
    cache: FdCacheView,
    key: FdCacheKeyView,
    other: FdCacheKeyView,
)
    ensures
        cache.looked_up(key).entries.dom() == cache.entries.dom(),
        cache.looked_up(key).max_entries == cache.max_entries,
        cache.entries.dom().contains(other) ==> cache.looked_up(key).entries[other].storage
            == cache.entries[other].storage,
        cache.entries.dom().contains(other) && other != key ==> cache.looked_up(key).entries[other]
            == cache.entries[other],
{
    assert(cache.looked_up(key).entries.dom() =~= cache.entries.dom());
}

/// Room is made only where the cache is full: then a single file gives way, none of the others
/// was used before it, and the others stay as they are.
pub proof fn one_old_file_gives_way(
    cache: FdCacheView,
    room: Map<FdCacheKeyView, RemoteDiskFdCacheEntry>,
)
    requires
        cache.makes_room(room),
    ensures
        cache.max_entries == 0 || cache.entries.dom().len() < cache.max_entries ==> room
            == cache.entries,
        forall|key: FdCacheKeyView| #[trigger]
            room.dom().contains(key) ==> cache.entries.dom().contains(key) && room[key]
                == cache.entries[key],
        forall|gone: FdCacheKeyView, key: FdCacheKeyView|
            #![trigger cache.entries.dom().contains(gone), room.dom().contains(key)]
            cache.entries.dom().contains(gone) && !room.dom().contains(gone)
                && room.dom().contains(key) ==> cache.entries[gone].last_access_tick
                <= cache.entries[key].last_access_tick,
        forall|gone: FdCacheKeyView, key: FdCacheKeyView|
            #![trigger cache.entries.dom().contains(gone), cache.entries.dom().contains(key)]
            cache.entries.dom().contains(gone) && !room.dom().contains(gone)
                && cache.entries.dom().contains(key) && !room.dom().contains(key) ==> gone == key,
        cache.max_entries > 0 && cache.entries.dom().finite() && cache.entries.dom().len()
            >= cache.max_entries ==> room.dom().len() == cache.entries.dom().len() - 1,
{
    if cache.is_full() {
        let before = cache.entries;
        if before.dom() != Set::<FdCacheKeyView>::empty() {
            let oldest = choose|key: FdCacheKeyView| #[trigger]
                fd_cache::is_oldest(before, key) && room == before.remove(key);
            assert(room.dom() =~= before.dom().remove(oldest));
        } else {
            assert(before.dom().len() == 0);
        }
    }
}

/// The failures of opening and registering a file name the file and the reason.
pub proof fn file_failures_name_their_file(
    create: bool,
    path: Seq<char>,
    reason: Seq<char>,
)
    ensures
        ({
            let open = fd_cache::open_failure(create, path, reason);
            let register = fd_cache::register_failure(path, reason);
            let tail = path + ": "@ + reason;
            &&& open.subrange(open.len() - tail.len(), open.len() as int) == tail
            &&& register.subrange(register.len() - tail.len(), register.len() as int) == tail
        }),
{
    let open = fd_cache::open_failure(create, path, reason);
    let register = fd_cache::register_failure(path, reason);
    let tail = path + ": "@ + reason;
    assert(open.subrange(open.len() - tail.len(), open.len() as int) =~= tail);
    assert(register.subrange(register.len() - tail.len(), register.len() as int) =~= tail);
}

/// Two blocks in one piece are copied as one region, at their own places, whatever their layers
/// are.
pub proof fn whole_blocks_are_one_region(
    src: XferBlockView,
    dst: XferBlockView,
    from: XferDescriptor,
    to: XferDescriptor,
)
    requires
        src.whole == Some(from),
        dst.whole == Some(to),
    ensures
        xfer_blocks::can_copy(src, dst),
        xfer_blocks::same_layers(src, dst),
        xfer_blocks::regions_of(src, dst).0 == seq![from],
        xfer_blocks::regions_of(src, dst).1 == seq![to],
{
}

/// How many regions the first `layer` layers hold.
pub open spec fn regions_before(layers: Seq<Seq<XferDescriptor>>, layer: nat) -> nat
    decreases layer,
{
    if layer == 0 {
        0
    } else {
        regions_before(layers, (layer - 1) as nat) + layers[layer - 1].len()
    }
}

/// Blocks in pieces are copied layer by layer: the region `i` of a layer of the source goes to
/// the region `i` of the same layer of the destination.
pub proof fn layers_are_copied_region_by_region(
    src: XferBlockView,
    dst: XferBlockView,
    layer: int,
    i: int,
)
    requires
        src.whole is None || dst.whole is None,
        xfer_blocks::can_copy(src, dst),
        0 <= layer < src.layers.len(),
        0 <= i < src.layers[layer].len(),
    ensures
        ({
            let at = regions_before(src.layers, layer as nat) + i;
            let (from, to) = xfer_blocks::regions_of(src, dst);
            &&& from.len() == regions_before(src.layers, src.layers.len())
            &&& to.len() == from.len()
            &&& at < from.len()
            &&& from[at] == src.layers[layer][i]
            &&& to[at] == dst.layers[layer][i]
        }),
{
    regions_stand_at_their_places(src.layers, dst.layers, src.layers.len(), layer, i);
}

proof fn regions_stand_at_their_places(
    src: Seq<Seq<XferDescriptor>>,
    dst: Seq<Seq<XferDescriptor>>,
    n: nat,
    layer: int,
    i: int,
)
    requires
        n <= src.len(),
        xfer_blocks::has_room(src, dst, src.len()),
        0 <= layer < n ==> 0 <= i < src[layer].len(),
    ensures
        xfer_blocks::flattened(src, n).len() == regions_before(src, n),
        xfer_blocks::matched(src, dst, n).len() == regions_before(src, n),
        0 <= layer < n ==> {
            let at = regions_before(src, layer as nat) + i;
            &&& at < regions_before(src, n)
            &&& xfer_blocks::flattened(src, n)[at] == src[layer][i]
            &&& xfer_blocks::matched(src, dst, n)[at] == dst[layer][i]
        },
    decreases n,
{
    if n > 0 {
        regions_stand_at_their_places(src, dst, (n - 1) as nat, layer, i);
        assert(src[n - 1].len() <= dst[n - 1].len());
    }
}

/// The regions of a copy of blocks are those of its blocks, one after the other.
pub proof fn blocks_are_copied_one_after_the_other(
    src: Seq<XferBlockView>,
    dst: Seq<XferBlockView>,
    n: nat,
)
    ensures
        xfer_blocks::all_sources(src, dst, 0).len() == 0,
        xfer_blocks::all_targets(src, dst, 0).len() == 0,
        xfer_blocks::all_sources(src, dst, n + 1) == xfer_blocks::all_sources(src, dst, n)
            + xfer_blocks::regions_of(src[n as int], dst[n as int]).0,
        xfer_blocks::all_targets(src, dst, n + 1) == xfer_blocks::all_targets(src, dst, n)
            + xfer_blocks::regions_of(src[n as int], dst[n as int]).1,
{
}

/// The region that is reported missing is one that the source has and the destination lacks, and
/// before it nothing is missing.
pub proof fn missing_regions_are_missing(
    src: Seq<Seq<XferDescriptor>>,
    dst: Seq<Seq<XferDescriptor>>,
    missing: MissingRegion,
    layer: int,
)
    requires
        xfer_blocks::is_first_missing(src, dst, missing),
    ensures
        0 <= missing.layer < src.len(),
        missing.index < src[missing.layer as int].len(),
        missing.index >= dst[missing.layer as int].len(),
        0 <= layer < missing.layer ==> src[layer].len() <= dst[layer].len(),
        !xfer_blocks::has_room(src, dst, src.len()),
{
    assert(!(src[missing.layer as int].len() <= dst[missing.layer as int].len()));
}

/// The bucket of a rank is the template with the rank filled in; a template that does not name
/// the rank is the bucket of every rank, and a disk store has no bucket.
pub proof fn buckets_follow_the_template(config: RemoteStorageConfig, a: usize, b: usize)
    ensures
        config is Disk ==> config.bucket_of(a) is None,
        config is Object ==> (config.bucket_of(a) is Some <==> config->bucket_template is Some),
        config is Object && config->bucket_template is Some ==> config.bucket_of(a) == Some(
            text::replace_all(
                config->bucket_template->0@,
                "{worker_id}"@,
                text::decimal(a as nat),
            ),
        ),
        config is Object && config->bucket_template is Some && config->bucket_template->0@.len()
            < "{worker_id}"@.len() ==> config.bucket_of(a) == config.bucket_of(b)
            && config.bucket_of(a) == Some(config->bucket_template->0@),
{
}

/// A tier counts as set up by a number greater than zero and by nothing else.
pub proof fn tiers_are_set_up_by_positive_numbers(setting: Option<String>)
    ensures
        setting is None ==> !config::is_positive(setting),
        setting matches Some(value) ==> (config::is_positive(setting) <==> exists|n: u64|
            n > 0 && #[trigger] text::parsed_number(value@) == Some(n)),
{
    if let Some(value) = setting {
        if config::is_positive(setting) {
            let n = text::parsed_number(value@)->0;
            assert(n > 0 && text::parsed_number(value@) == Some(n));
        }
    }
}

/// A layout has one source of storage exactly if one of the three was set and the others were not,
/// and none exactly if none was.
pub proof fn sources_of_storage_are_counted<S>(builder: KvManagerLayoutConfigBuilder<S>)
    ensures
        builder.sources() == 0 <==> builder.storage is None && builder.allocator is None
            && builder.logical is None,
        builder.sources() == 1 <==> {
            ||| builder.storage is Some && builder.allocator is None && builder.logical is None
            ||| builder.storage is None && builder.allocator is Some && builder.logical is None
            ||| builder.storage is None && builder.allocator is None && builder.logical is Some
        },
        0 <= builder.sources() <= 3,
{
}

/// A disk transfer that fails at a block fails at the first one without a file, and for its reason.
pub proof fn disk_plans_fail_at_the_first_block_without_a_file(
    blocks: Seq<DescriptorView>,
    ctx: RemoteContextParts,
    error: TransferErrorView,
)
    requires
        nixl_transfer::first_file_error(blocks, ctx, error),
    ensures
        exists|i: int|
            0 <= i < blocks.len() && #[trigger] nixl_transfer::file_of(blocks[i], ctx) == Err::<
                Seq<char>,
                TransferErrorView,
            >(error) && forall|j: int|
                0 <= j < i ==> nixl_transfer::file_of(#[trigger] blocks[j], ctx) is Ok,
{
    let i = choose|i: int| #[trigger]
        nixl_transfer::is_first_without_file(blocks, ctx, i) && nixl_transfer::file_of(
            blocks[i],
            ctx,
        ) == Err::<Seq<char>, TransferErrorView>(error);
    assert(0 <= i < blocks.len() && nixl_transfer::file_of(blocks[i], ctx) == Err::<
        Seq<char>,
        TransferErrorView,
    >(error));
}

/// The planned files and objects are those of their blocks, in order.
pub proof fn planned_targets_follow_the_blocks(
    blocks: Seq<DescriptorView>,
    ctx: RemoteContextParts,
    paths: Seq<Seq<char>>,
    targets: Seq<ObjectTarget>,
    i: int,
)
    ensures
        nixl_transfer::files_of(blocks, ctx, paths) && 0 <= i < blocks.len() ==> paths.len()
            == blocks.len() && nixl_transfer::file_of(blocks[i], ctx) == Ok::<
            Seq<char>,
            TransferErrorView,
        >(paths[i]),
        nixl_transfer::objects_of(blocks, targets) && 0 <= i < targets.len() ==> targets.len()
            <= blocks.len() && nixl_transfer::object_of(blocks[i]) is Ok && targets[i].key
            == blocks[i].sequence_hash->0 && targets[i].bucket@ == blocks[i].key->bucket,
{
    if nixl_transfer::files_of(blocks, ctx, paths) && 0 <= i < blocks.len() {
        assert(nixl_transfer::file_of(blocks[i], ctx) == Ok::<Seq<char>, TransferErrorView>(
            paths[i],
        ));
    }
    if nixl_transfer::objects_of(blocks, targets) && 0 <= i < targets.len() {
        assert(nixl_transfer::object_of(blocks[i]) == Ok::<
            nixl_transfer::ObjectTargetView,
            TransferErrorView,
        >(targets[i]@));
    }
}

/// The address that is reported is refused, and none before it is.
pub proof fn first_refused_addresses_are_reported(
    alignment: RemoteDiskAlignmentConfig,
    use_odirect: bool,
    addrs: Seq<usize>,
    i: int,
    j: int,
)
    requires
        nixl_transfer::is_first_refused(alignment, use_odirect, addrs, i),
    ensures
        0 <= i < addrs.len(),
        use_odirect && alignment.validate,
        alignment.quantum > 0 ==> addrs[i] % alignment.quantum != 0,
        0 <= j < i && alignment.quantum > 0 ==> addrs[j] % alignment.quantum == 0,
{
    if 0 <= j < i {
        assert(!alignment.refuses(use_odirect, addrs[j]));
    }
}

/// The copy that is reported is impossible, and none before it is.
pub proof fn first_impossible_copies_are_reported(
    src: Seq<XferBlockView>,
    dst: Seq<XferBlockView>,
    i: int,
    j: int,
)
    requires
        xfer_blocks::is_first_impossible(src, dst, i),
    ensures
        0 <= i < src.len(),
        src[i].whole is None || dst[i].whole is None,
        exists|layer: int|
            0 <= layer < src[i].layers.len() && (#[trigger] src[i].layers[layer]).len()
                > dst[i].layers[layer].len(),
        0 <= j < i ==> xfer_blocks::can_copy(src[j], dst[j]),
{
    assert(!xfer_blocks::has_room(src[i].layers, dst[i].layers, src[i].layers.len()));
}

/// A file is held exactly if it is the file of an entry.
pub proof fn held_files_are_those_of_entries(
    entries: Map<FdCacheKeyView, RemoteDiskFdCacheEntry>,
    key: FdCacheKeyView,
    storage: DiskStorageId,
)
    ensures
        entries.dom().contains(key) ==> fd_cache::holds_storage(entries, entries[key].storage),
        fd_cache::holds_storage(entries, storage) ==> exists|held: FdCacheKeyView| #[trigger]
            entries.dom().contains(held) && entries[held].storage == storage,
        !fd_cache::holds_storage(Map::empty(), storage),
{
}

} // verus!
