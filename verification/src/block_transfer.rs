//! Transfers between the local cache tiers, and the remote transfers that pass through them.

use vstd::prelude::*;

use crate::checksum::{self, compute_checksum};
use crate::config::{RemoteStorageConfig, RemoteTransferContext, DISK_FLAG_GDS_WRITE};
use crate::protocol::{LeaderTransferRequest, SequenceHash};
use crate::remote::{
    self, PipelineView, RemoteBlockDescriptor, RemoteTransferDirection, RemoteTransferPipeline,
};
use crate::text::{self, append_decimal, parse_number};

verus! {

/// The tiers between which blocks are copied.
#[derive(Debug, Clone, Copy, PartialEq, Eq, Structural)]
pub enum BlockTransferPool {
    Device,
    Host,
    Disk,
}

/// A copy of blocks between two tiers: pairs of a source index and a target index.
#[derive(Debug)]
pub struct BlockTransferRequest {
    pub from_pool: BlockTransferPool,
    pub to_pool: BlockTransferPool,
    pub blocks: Vec<(usize, usize)>,
    /// How the scheduler knows the transfer, where it takes part.
    pub connector_req: Option<LeaderTransferRequest>,
    pub sequence_hashes: Option<Vec<SequenceHash>>,
}

/// What a copy moves: the tiers and the pairs.
#[verifier::ext_equal]
pub struct BlockCopyView {
    pub from_pool: BlockTransferPool,
    pub to_pool: BlockTransferPool,
    pub blocks: Seq<(usize, usize)>,
}

impl BlockTransferRequest {
    /// What the request copies.
    pub open spec fn copy_view(self) -> BlockCopyView {
        BlockCopyView { from_pool: self.from_pool, to_pool: self.to_pool, blocks: self.blocks@ }
    }

    /// Whether the request copies `copy` and nobody waits for it.
    pub open spec fn is_plain_copy(self, copy: BlockCopyView) -> bool {
        self.copy_view() == copy && self.connector_req is None && self.sequence_hashes is None
    }
}

/// The number of parts of at most `size` items that `n` items fill.
pub open spec fn num_parts(n: nat, size: nat) -> nat
    recommends
        size > 0,
{
    if n == 0 {
        0
    } else {
        ((n - 1) as nat / size + 1) as nat
    }
}

/// Where part `i` begins.
pub open spec fn part_start(i: nat, size: nat) -> nat {
    i * size
}

/// Where part `i` of `n` items ends.
pub open spec fn part_end(i: nat, size: nat, n: nat) -> nat {
    if (i + 1) * size <= n {
        (i + 1) * size
    } else {
        n
    }
}

pub(crate) proof fn part_bounds(i: nat, size: nat, n: nat)
    requires
        size > 0,
        i < num_parts(n, size),
    ensures
        part_start(i, size) < part_end(i, size, n) <= n,
        part_end(i, size, n) - part_start(i, size) <= size,
        i + 1 < num_parts(n, size) ==> part_end(i, size, n) == part_start(i + 1, size),
        i + 1 == num_parts(n, size) ==> part_end(i, size, n) == n,
{
    let last = (n - 1) as nat / size;
    vstd::arithmetic::div_mod::lemma_fundamental_div_mod(n - 1, size as int);
    assert((i + 1) * size == i * size + size) by (nonlinear_arith);
    assert(i * size <= last * size) by (nonlinear_arith)
        requires
            i <= last,
    ;
    assert(last * size == size * last) by (nonlinear_arith);
    if i < last {
        assert((i + 1) * size <= last * size) by (nonlinear_arith)
            requires
                i + 1 <= last,
        ;
    } else {
        assert((n - 1) % (size as int) < size);
    }
}

/// The parts of a sequence, each but the last of `size` items.
pub open spec fn parts<T>(items: Seq<T>, size: nat) -> Seq<Seq<T>> {
    Seq::new(
        num_parts(items.len(), size),
        |i: int|
            items.subrange(
                part_start(i as nat, size) as int,
                part_end(i as nat, size, items.len()) as int,
            ),
    )
}

/// The first `n` parts, one after the other.
pub open spec fn joined<T>(parts: Seq<Seq<T>>, n: nat) -> Seq<T>
    decreases n,
{
    if n == 0 {
        Seq::empty()
    } else {
        joined(parts, (n - 1) as nat) + parts[n - 1]
    }
}

/// Splitting loses nothing, repeats nothing and keeps the order: the parts, one after the other,
/// are the whole. Every part holds an item, none more than `size`, and all but the last exactly
/// `size`.
pub proof fn parts_make_up_the_whole<T>(items: Seq<T>, size: nat)
    requires
        size > 0,
    ensures
        joined(parts(items, size), parts(items, size).len()) == items,
        forall|i: int|
            0 <= i < parts(items, size).len() ==> 0 < (#[trigger] parts(items, size)[i]).len()
                <= size,
        forall|i: int|
            0 <= i < parts(items, size).len() - 1 ==> (#[trigger] parts(items, size)[i]).len()
                == size,
{
    let all = parts(items, size);
    assert forall|i: int| 0 <= i < all.len() implies 0 < (#[trigger] all[i]).len() <= size by {
        part_bounds(i as nat, size, items.len());
    }
    assert forall|i: int| 0 <= i < all.len() - 1 implies (#[trigger] all[i]).len() == size by {
        part_bounds(i as nat, size, items.len());
        assert((i + 1) * size == i * size + size) by (nonlinear_arith);
    }
    first_parts_joined(items, size, all.len());
    if all.len() > 0 {
        part_bounds((all.len() - 1) as nat, size, items.len());
    }
    assert(items.subrange(0, items.len() as int) =~= items);
}

proof fn first_parts_joined<T>(items: Seq<T>, size: nat, n: nat)
    requires
        size > 0,
        n <= parts(items, size).len(),
    ensures
        joined(parts(items, size), n) == items.subrange(
            0,
            if n == 0 {
                0
            } else {
                part_end((n - 1) as nat, size, items.len()) as int
            },
        ),
    decreases n,
{
    let all = parts(items, size);
    if n == 0 {
        assert(joined(all, 0) =~= items.subrange(0, 0));
    } else {
        first_parts_joined(items, size, (n - 1) as nat);
        part_bounds((n - 1) as nat, size, items.len());
        if n > 1 {
            part_bounds((n - 2) as nat, size, items.len());
        } else {
            assert(part_start(0, size) == 0);
        }
        assert(joined(all, n) =~= items.subrange(
            0,
            part_end((n - 1) as nat, size, items.len()) as int,
        ));
    }
}

/// Splits copies into batches that the resource pools can serve.
#[derive(Debug)]
pub struct ConnectorTransferBatcher {
    max_batch_size: usize,
}

impl ConnectorTransferBatcher {
    /// The most pairs of a batch.
    pub closed spec fn batch_size(&self) -> nat {
        self.max_batch_size as nat
    }

    #[verifier::type_invariant]
    spec fn wf(self) -> bool {
        self.max_batch_size > 0
    }

    /// Whether `batches` carry out `request`: the request itself where it is small enough, and
    /// else batches between the same tiers, each of at most as many pairs as fit, that nobody
    /// waits for one by one.
    pub open spec fn batched(
        &self,
        request: BlockTransferRequest,
        batches: Seq<BlockTransferRequest>,
    ) -> bool {
        if request.blocks@.len() <= self.batch_size() {
            batches == seq![request]
        } else {
            let blocks = parts(request.blocks@, self.batch_size());
            batches.len() == blocks.len() && forall|i: int|
                0 <= i < batches.len() ==> (#[trigger] batches[i]).is_plain_copy(
                    BlockCopyView {
                        from_pool: request.from_pool,
                        to_pool: request.to_pool,
                        blocks: blocks[i],
                    },
                )
        }
    }

    /// A batcher of at most `max_batch_size` pairs.
    pub fn new(max_batch_size: usize) -> (batcher: Self)
        requires
            max_batch_size > 0,
        ensures
            batcher.batch_size() == max_batch_size,
    {
        ConnectorTransferBatcher { max_batch_size }
    }

    /// The copies that carry out `request`: the request itself where it is small enough, and else
    /// batches between the same tiers that nobody waits for one by one.
    pub fn execute_batched_transfer(&self, request: BlockTransferRequest) -> (batches: Vec<BlockTransferRequest>)
        ensures
            self.batched(request, batches@),
    {
        proof {
            use_type_invariant(self);
        }
        let mut batches: Vec<BlockTransferRequest> = Vec::new();
        let n: usize = request.blocks.len();
        let size: usize = self.max_batch_size;
        if n <= size {
            batches.push(request);
            assert(batches@ =~= seq![request]);
            return batches;
        }
        let ghost all = parts(request.blocks@, size as nat);
        let count: usize = (n - 1) / size + 1;
        let mut i: usize = 0;
        while i < count
            invariant
                i <= count,
                count == num_parts(n as nat, size as nat),
                n == request.blocks@.len(),
                size > 0,
                all == parts(request.blocks@, size as nat),
                batches@.len() == i,
                forall|j: int|
                    0 <= j < i ==> (#[trigger] batches@[j]).is_plain_copy(
                        BlockCopyView {
                            from_pool: request.from_pool,
                            to_pool: request.to_pool,
                            blocks: all[j],
                        },
                    ),
            decreases count - i,
        {
            let range: (usize, usize) = part_range(i, size, n);
            let blocks: Vec<(usize, usize)> = copy_pairs(&request.blocks, range.0, range.1);
            assert(blocks@ =~= all[i as int]);
            batches.push(
                BlockTransferRequest {
                    from_pool: request.from_pool,
                    to_pool: request.to_pool,
                    blocks,
                    connector_req: None,
                    sequence_hashes: None,
                },
            );
            i = i + 1;
        }
        batches
    }
}

impl Clone for ConnectorTransferBatcher {
    fn clone(&self) -> (copy: Self)
        ensures
            copy == *self,
    {
        proof {
            use_type_invariant(self);
        }
        ConnectorTransferBatcher { max_batch_size: self.max_batch_size }
    }
}

fn part_range(i: usize, size: usize, n: usize) -> (range: (usize, usize))
    requires
        size > 0,
        i < num_parts(n as nat, size as nat),
    ensures
        range.0 == part_start(i as nat, size as nat),
        range.1 == part_end(i as nat, size as nat, n as nat),
        range.0 < range.1 <= n,
{
    proof {
        part_bounds(i as nat, size as nat, n as nat);
        assert((i + 1) * size == i * size + size) by (nonlinear_arith);
    }
    let start: usize = i * size;
    let end: usize = if n - start > size {
        start + size
    } else {
        n
    };
    (start, end)
}

fn copy_pairs(pairs: &Vec<(usize, usize)>, start: usize, end: usize) -> (copy: Vec<(usize, usize)>)
    requires
        start <= end <= pairs@.len(),
    ensures
        copy@ == pairs@.subrange(start as int, end as int),
{
    let mut copy: Vec<(usize, usize)> = Vec::new();
    let mut i: usize = start;
    while i < end
        invariant
            start <= i <= end,
            end <= pairs@.len(),
            copy@ =~= pairs@.subrange(start as int, i as int),
        decreases end - i,
    {
        copy.push(pairs[i]);
        i = i + 1;
    }
    copy
}

/// The number of blocks of each tier, where the tier is initialized.
#[derive(Debug, Clone, Copy, PartialEq, Eq, Structural)]
pub struct LocalPools {
    pub device: Option<usize>,
    pub host: Option<usize>,
    pub disk: Option<usize>,
}

impl LocalPools {
    /// The size of a tier.
    pub open spec fn size_of(self, pool: BlockTransferPool) -> Option<usize> {
        match pool {
            BlockTransferPool::Device => self.device,
            BlockTransferPool::Host => self.host,
            BlockTransferPool::Disk => self.disk,
        }
    }

    fn size(&self, pool: BlockTransferPool) -> (size: Option<usize>)
        ensures
            size == self.size_of(pool),
    {
        match pool {
            BlockTransferPool::Device => self.device,
            BlockTransferPool::Host => self.host,
            BlockTransferPool::Disk => self.disk,
        }
    }
}

/// Whether blocks can be copied from one tier to the other.
pub open spec fn is_route(from: BlockTransferPool, to: BlockTransferPool) -> bool {
    match from {
        BlockTransferPool::Device => to != BlockTransferPool::Device,
        BlockTransferPool::Host => to != BlockTransferPool::Host,
        BlockTransferPool::Disk => to == BlockTransferPool::Device,
    }
}

/// Whether every pair names a block of each tier.
pub open spec fn in_range(blocks: Seq<(usize, usize)>, sources: usize, targets: usize) -> bool {
    forall|i: int|
        0 <= i < blocks.len() ==> (#[trigger] blocks[i]).0 < sources && blocks[i].1 < targets
}

/// The blocks of a copy, in order: where they come from and where they go.
#[derive(Debug)]
pub struct BlockCopy {
    pub sources: Vec<usize>,
    pub targets: Vec<usize>,
}

/// The number of blocks of a chunk of a remote transfer, by the setting of the environment; zero
/// stands for no chunks.
pub fn g4_pipeline_chunk_size(setting: &Option<String>) -> (size: usize)
    ensures
        size == crate::slot_config::size_or(text::text_view(*setting), 0),
{
    match setting {
        Some(value) => match parse_number(value.as_str()) {
            Some(number) => if number <= usize::MAX as u64 {
                number as usize
            } else {
                0
            },
            None => 0,
        },
        None => 0,
    }
}

/// How a remote transfer is labelled in reports.
pub fn transfer_backend(config: &RemoteStorageConfig) -> (label: &'static str)
    ensures
        label@ == match *config {
            RemoteStorageConfig::Object { .. } => "object"@,
            RemoteStorageConfig::Disk { transfer_flags, .. } => if transfer_flags
                & DISK_FLAG_GDS_WRITE != 0 {
                "gds_mt"@
            } else {
                "posix"@
            },
        },
{
    match config {
        RemoteStorageConfig::Object { .. } => "object",
        RemoteStorageConfig::Disk { transfer_flags, .. } => if *transfer_flags
            & DISK_FLAG_GDS_WRITE != 0 {
            "gds_mt"
        } else {
            "posix"
        },
    }
}

/// Pairs of host and device blocks, as far as there are both.
pub open spec fn staged_pairs(hosts: Seq<usize>, devices: Seq<usize>) -> Seq<(usize, usize)> {
    Seq::new(
        if hosts.len() <= devices.len() {
            hosts.len()
        } else {
            devices.len()
        },
        |i: int| (hosts[i], devices[i]),
    )
}

/// A copy of staged blocks from the host to the device.
pub open spec fn to_device(pairs: Seq<(usize, usize)>) -> BlockCopyView {
    BlockCopyView {
        from_pool: BlockTransferPool::Host,
        to_pool: BlockTransferPool::Device,
        blocks: pairs,
    }
}

fn pair_up(hosts: &[usize], devices: &[usize], start: usize, end: usize) -> (pairs: Vec<
    (usize, usize),
>)
    requires
        start <= end <= hosts@.len(),
        end <= devices@.len(),
    ensures
        pairs@ == staged_pairs(hosts@, devices@).subrange(start as int, end as int),
{
    let ghost all = staged_pairs(hosts@, devices@);
    let mut pairs: Vec<(usize, usize)> = Vec::new();
    let mut i: usize = start;
    while i < end
        invariant
            start <= i <= end,
            end <= hosts@.len(),
            end <= devices@.len(),
            all == staged_pairs(hosts@, devices@),
            pairs@ =~= all.subrange(start as int, i as int),
        decreases end - i,
    {
        pairs.push((hosts[i], devices[i]));
        i = i + 1;
    }
    pairs
}

/// A range of the blocks of a remote transfer.
#[derive(Debug, Clone, Copy, PartialEq, Eq, Structural)]
pub struct TransferChunk {
    pub index: usize,
    pub start: usize,
    pub end: usize,
}

/// How a remote transfer runs.
#[derive(Debug)]
pub enum RemoteTransferPlan {
    /// All blocks at once, then the copy to the device, where there is one.
    Serial {
        /// Whether the checksums of the host blocks are reported before the transfer.
        checksums_before: bool,
        /// Whether they are reported after it.
        checksums_after: bool,
        copy: Option<BlockTransferRequest>,
    },
    /// Chunk by chunk: each is copied to the device as soon as it is on the host.
    Chunked { chunks: Vec<TransferChunk> },
}

/// Whether a remote transfer is split into chunks.
pub open spec fn is_chunked(pipeline: PipelineView, chunk_size: usize) -> bool {
    chunk_size > 0 && pipeline.descriptors.len() > chunk_size && pipeline.direction
        == RemoteTransferDirection::Onboard
}

/// The copy that follows a transfer in one piece.
pub open spec fn following_copy(pipeline: PipelineView) -> Option<BlockCopyView> {
    match pipeline.staging {
        Some(staging) => {
            let pairs = staged_pairs(staging.0, staging.1);
            if pipeline.direction == RemoteTransferDirection::Onboard && pairs.len() > 0 {
                Some(to_device(pairs))
            } else {
                None
            }
        },
        None => None,
    }
}

/// Whether `chunks` are the ranges of `n` blocks in chunks of `size`.
pub open spec fn are_chunks_of(chunks: Seq<TransferChunk>, n: nat, size: nat) -> bool {
    chunks.len() == num_parts(n, size) && forall|i: int|
        0 <= i < chunks.len() ==> (#[trigger] chunks[i]).index == i && chunks[i].start
            == part_start(i as nat, size) && chunks[i].end == part_end(i as nat, size, n)
}

fn chunk_ranges(n: usize, size: usize) -> (chunks: Vec<TransferChunk>)
    requires
        0 < size < n,
    ensures
        are_chunks_of(chunks@, n as nat, size as nat),
{
    let count: usize = (n - 1) / size + 1;
    let mut chunks: Vec<TransferChunk> = Vec::new();
    let mut i: usize = 0;
    while i < count
        invariant
            i <= count,
            count == num_parts(n as nat, size as nat),
            size > 0,
            chunks@.len() == i,
            forall|j: int|
                0 <= j < i ==> (#[trigger] chunks@[j]).index == j && chunks@[j].start == part_start(
                    j as nat,
                    size as nat,
                ) && chunks@[j].end == part_end(j as nat, size as nat, n as nat),
        decreases count - i,
    {
        let range: (usize, usize) = part_range(i, size, n);
        chunks.push(TransferChunk { index: i, start: range.0, end: range.1 });
        i = i + 1;
    }
    chunks
}

/// The transfer of one chunk straight into its host blocks.
pub fn chunk_pipeline(pipeline: &RemoteTransferPipeline, chunk: TransferChunk) -> (part:
    RemoteTransferPipeline)
    requires
        chunk.start <= chunk.end <= pipeline@.descriptors.len(),
    ensures
        part@ == (PipelineView {
            direction: RemoteTransferDirection::Onboard,
            descriptors: pipeline@.descriptors.subrange(chunk.start as int, chunk.end as int),
            staging: None,
        }),
{
    let all: &[RemoteBlockDescriptor] = pipeline.descriptors();
    let ghost wanted = pipeline@.descriptors.subrange(chunk.start as int, chunk.end as int);
    let mut descriptors: Vec<RemoteBlockDescriptor> = Vec::new();
    let mut i: usize = chunk.start;
    while i < chunk.end
        invariant
            chunk.start <= i <= chunk.end,
            chunk.end <= all@.len(),
            remote::descriptor_views(all@) == pipeline@.descriptors,
            wanted == pipeline@.descriptors.subrange(chunk.start as int, chunk.end as int),
            remote::descriptor_views(descriptors@) =~= wanted.subrange(0, i - chunk.start),
        decreases chunk.end - i,
    {
        let ghost before = descriptors@;
        descriptors.push(all[i].clone());
        proof {
            let views = remote::descriptor_views(descriptors@);
            assert(views.drop_last() =~= remote::descriptor_views(before));
            assert(views.last() == remote::descriptor_views(all@)[i as int]);
            assert forall|j: int| 0 <= j < views.len() implies views[j] == wanted.subrange(
                0,
                i + 1 - chunk.start,
            )[j] by {
                if j < before.len() {
                    assert(views[j] == views.drop_last()[j]);
                }
            }
        }
        i = i + 1;
    }
    assert(remote::descriptor_views(descriptors@) =~= wanted);
    RemoteTransferPipeline::onboard_direct(descriptors)
}

/// The failures of a transfer in chunks so far: the first of a read and the first of a copy.
#[derive(Debug)]
pub struct ChunkedTransfer {
    read_error: Option<String>,
    copy_error: Option<String>,
}

/// The mathematical value of a [`ChunkedTransfer`].
#[verifier::ext_equal]
pub struct ChunkFailures {
    pub read: Option<Seq<char>>,
    pub copy: Option<Seq<char>>,
}

impl ChunkFailures {
    /// With a failed read.
    pub open spec fn read_failed(self, error: Seq<char>) -> ChunkFailures {
        ChunkFailures { read: first_error(self.read, Some(error)), ..self }
    }

    /// With a failed copy.
    pub open spec fn copy_failed(self, error: Seq<char>) -> ChunkFailures {
        ChunkFailures { copy: first_error(self.copy, Some(error)), ..self }
    }

    /// What is reported of the whole transfer: the first failed read, or else the first failed
    /// copy.
    pub open spec fn reported(self) -> Option<Seq<char>> {
        first_error(self.read, self.copy)
    }
}

/// What is reported of the read or the copy of a chunk that failed.
pub open spec fn chunk_failure(stage: Seq<char>, index: usize, reason: Seq<char>) -> Seq<char> {
    stage + text::decimal(index as nat) + ": "@ + reason
}

/// The first of two errors.
pub open spec fn first_error(first: Option<Seq<char>>, next: Option<Seq<char>>) -> Option<
    Seq<char>,
> {
    if first is Some {
        first
    } else {
        next
    }
}

impl View for ChunkedTransfer {
    type V = ChunkFailures;

    closed spec fn view(&self) -> ChunkFailures {
        ChunkFailures {
            read: text::text_view(self.read_error),
            copy: text::text_view(self.copy_error),
        }
    }
}

fn chunk_failure_string(stage: &str, index: usize, reason: &str) -> (report: String)
    ensures
        report@ == chunk_failure(stage@, index, reason@),
{
    let mut report: String = stage.to_string();
    append_decimal(&mut report, index as u64);
    report.append(": ");
    report.append(reason);
    report
}

impl ChunkedTransfer {
    /// A transfer in chunks of which none is done yet.
    pub fn new() -> (transfer: Self)
        ensures
            transfer@ == (ChunkFailures { read: None, copy: None }),
    {
        ChunkedTransfer { read_error: None, copy_error: None }
    }

    fn copy_fails(&mut self, error: String)
        ensures
            final(self)@ == old(self)@.copy_failed(error@),
    {
        if self.copy_error.is_none() {
            self.copy_error = Some(error);
        }
    }

    /// A chunk was read, or failed to be: what was read is copied to the device, and the first
    /// failed read is kept.
    pub fn chunk_read(
        &mut self,
        pipeline: &RemoteTransferPipeline,
        chunk: TransferChunk,
        result: Result<(), String>,
    ) -> (copy: Option<BlockTransferRequest>)
        requires
            chunk.start <= chunk.end,
            pipeline@.staging is Some ==> chunk.end <= (pipeline@.staging->0).0.len() && chunk.end
                <= (pipeline@.staging->0).1.len(),
        ensures
            match result {
                Ok(_) => {
                    &&& final(self)@ == old(self)@
                    &&& match copy {
                        Some(request) => pipeline@.staging is Some && chunk.start < chunk.end
                            && request.is_plain_copy(
                            to_device(
                                staged_pairs(
                                    (pipeline@.staging->0).0,
                                    (pipeline@.staging->0).1,
                                ).subrange(chunk.start as int, chunk.end as int),
                            ),
                        ),
                        None => pipeline@.staging is None || chunk.start == chunk.end,
                    }
                },
                Err(reason) => {
                    &&& copy is None
                    &&& final(self)@ == old(self)@.read_failed(
                        chunk_failure("R2H chunk "@, chunk.index, reason@),
                    )
                },
            },
    {
        match result {
            Ok(_) => {
                let hosts: &[usize] = match pipeline.bounce_block_ids() {
                    Some(ids) => ids,
                    None => {
                        return None;
                    },
                };
                let devices: &[usize] = match pipeline.device_block_ids() {
                    Some(ids) => ids,
                    None => {
                        return None;
                    },
                };
                if chunk.start == chunk.end {
                    return None;
                }
                let blocks: Vec<(usize, usize)> = pair_up(hosts, devices, chunk.start, chunk.end);
                Some(
                    BlockTransferRequest {
                        from_pool: BlockTransferPool::Host,
                        to_pool: BlockTransferPool::Device,
                        blocks,
                        connector_req: None,
                        sequence_hashes: None,
                    },
                )
            },
            Err(reason) => {
                let report: String = chunk_failure_string(
                    "R2H chunk ",
                    chunk.index,
                    reason.as_str(),
                );
                if self.read_error.is_none() {
                    self.read_error = Some(report);
                }
                None
            },
        }
    }

    /// The copy of a chunk ended; the first failed copy is kept.
    pub fn chunk_copied(&mut self, index: usize, result: Result<(), String>)
        ensures
            final(self)@ == match result {
                Ok(_) => old(self)@,
                Err(reason) => old(self)@.copy_failed(
                    chunk_failure("H2D chunk "@, index, reason@),
                ),
            },
    {
        match result {
            Ok(_) => {},
            Err(reason) => {
                let report: String = chunk_failure_string("H2D chunk ", index, reason.as_str());
                self.copy_fails(report);
            },
        }
    }

    /// The task that copied a chunk broke down.
    pub fn copy_panicked(&mut self, reason: &str)
        ensures
            final(self)@ == old(self)@.copy_failed("H2D task panicked: "@ + reason@),
    {
        let mut report: String = "H2D task panicked: ".to_string();
        report.append(reason);
        self.copy_fails(report);
    }

    /// The outcome once all chunks are done: the first failed read, or else the first failed
    /// copy, where there was one.
    pub fn finish(self) -> (outcome: Result<(), String>)
        ensures
            match outcome {
                Ok(_) => self@.reported() is None,
                Err(error) => self@.reported() == Some(error@),
            },
    {
        match self.read_error {
            Some(error) => Err(error),
            None => match self.copy_error {
                Some(error) => Err(error),
                None => Ok(()),
            },
        }
    }
}

/// A failed read is reported before any failed copy, whichever came first.
pub proof fn reads_are_reported_first(failures: ChunkFailures, copy: Seq<char>, read: Seq<char>)
    requires
        failures.read is None,
    ensures
        failures.copy_failed(copy).read_failed(read).reported() == Some(read),
        failures.read_failed(read).copy_failed(copy).reported() == Some(read),
{
}

/// The chunks of a remote transfer copy exactly the staged blocks to the device, each once and in
/// order: the copies of the chunks, one after the other, are the copy in one piece.
pub proof fn chunks_copy_every_block(
    chunks: Seq<TransferChunk>,
    hosts: Seq<usize>,
    devices: Seq<usize>,
    size: nat,
)
    requires
        size > 0,
        hosts.len() == devices.len(),
        are_chunks_of(chunks, hosts.len(), size),
    ensures
        joined(
            chunks.map_values(
                |chunk: TransferChunk|
                    staged_pairs(hosts, devices).subrange(chunk.start as int, chunk.end as int),
            ),
            chunks.len(),
        ) == staged_pairs(hosts, devices),
{
    let pairs = staged_pairs(hosts, devices);
    parts_make_up_the_whole(pairs, size);
    assert(chunks.map_values(
        |chunk: TransferChunk| pairs.subrange(chunk.start as int, chunk.end as int),
    ) =~= parts(pairs, size));
}

/// The report of the checksum of one block of a remote transfer.
#[derive(Debug)]
pub struct ChecksumLine {
    pub block_idx: SequenceHash,
    pub remote_key: String,
    pub checksum: String,
}

/// The checksum of a host block that a remote transfer moves, under the name of the remote block.
pub fn checksum_line(block: &RemoteBlockDescriptor, data: &[u8]) -> (line: ChecksumLine)
    ensures
        line.block_idx == match block@.sequence_hash {
            Some(hash) => hash,
            None => 0,
        },
        line.remote_key@ == match block@.key {
            remote::RemoteKeyView::Object { bucket, key } => bucket + "/"@ + key,
            remote::RemoteKeyView::Disk { path, key } => path + "/"@ + key,
        },
        line.checksum@ == checksum::blake3_hex(data@),
{
    let mut remote_key: String = block.key().location().to_string();
    remote_key.append("/");
    remote_key.append(block.key().key_str());
    let block_idx: SequenceHash = match block.sequence_hash() {
        Some(hash) => hash,
        None => 0,
    };
    ChecksumLine { block_idx, remote_key, checksum: compute_checksum(data) }
}

/// A remote transfer as a worker is asked for it.
#[derive(Debug)]
pub struct RemoteTransferMessage {
    pub request_id: String,
    pub pipeline: RemoteTransferPipeline,
    pub connector_req: Option<LeaderTransferRequest>,
}

/// What the only part of a message holds.
#[derive(Debug)]
pub enum ParsedTransfer {
    Remote(RemoteTransferMessage),
    Local(BlockTransferRequest),
    /// Neither: why it is no local request.
    Invalid(String),
}

/// The work that a message asks for.
#[derive(Debug)]
pub enum TransferWork {
    Remote(RemoteTransferMessage),
    Local(BlockTransferRequest),
}

/// What a worker does with a message: it waits for the scheduler, where the transfer takes part,
/// and then does the work.
#[derive(Debug)]
pub struct HandlePlan {
    pub schedule: Option<LeaderTransferRequest>,
    pub work: TransferWork,
}

/// How the scheduler knows a transfer.
pub open spec fn scheduled_as(parsed: ParsedTransfer) -> Option<LeaderTransferRequest> {
    match parsed {
        ParsedTransfer::Remote(message) => message.connector_req,
        ParsedTransfer::Local(request) => request.connector_req,
        ParsedTransfer::Invalid(_) => None,
    }
}

/// The work of a message, without what only the scheduler reads.
pub open spec fn work_of(parsed: ParsedTransfer) -> Option<TransferWork> {
    match parsed {
        ParsedTransfer::Remote(message) => Some(
            TransferWork::Remote(RemoteTransferMessage { connector_req: None, ..message }),
        ),
        ParsedTransfer::Local(request) => Some(
            TransferWork::Local(BlockTransferRequest { connector_req: None, ..request }),
        ),
        ParsedTransfer::Invalid(_) => None,
    }
}

/// Carries out the transfers that a worker is asked for.
pub struct BlockTransferHandler {
    pub pools: LocalPools,
    pub batcher: ConnectorTransferBatcher,
    /// Where remote blocks are, where remote storage is configured.
    pub remote_context: Option<RemoteTransferContext>,
    /// Whether there is a scheduler to wait for.
    pub has_scheduler: bool,
}

impl Clone for BlockTransferHandler {
    fn clone(&self) -> (copy: Self)
        ensures
            copy == *self,
    {
        let remote_context: Option<RemoteTransferContext> = match &self.remote_context {
            Some(context) => Some(context.clone()),
            None => None,
        };
        BlockTransferHandler {
            pools: self.pools,
            batcher: self.batcher.clone(),
            remote_context,
            has_scheduler: self.has_scheduler,
        }
    }
}

impl BlockTransferHandler {
    /// A handler of transfers between the tiers in `pools`, in batches of at most
    /// `max_batch_size` pairs.
    pub fn new(
        pools: LocalPools,
        max_batch_size: usize,
        remote_context: Option<RemoteTransferContext>,
        has_scheduler: bool,
    ) -> (handler: Self)
        requires
            max_batch_size > 0,
        ensures
            handler.pools == pools,
            handler.batcher.batch_size() == max_batch_size,
            handler.remote_context == remote_context,
            handler.has_scheduler == has_scheduler,
    {
        BlockTransferHandler {
            pools,
            batcher: ConnectorTransferBatcher::new(max_batch_size),
            remote_context,
            has_scheduler,
        }
    }

    /// The copies that carry out `request`, in batches.
    pub fn execute_transfer(&self, request: BlockTransferRequest) -> (batches: Vec<
        BlockTransferRequest,
    >)
        ensures
            self.batcher.batched(request, batches@),
    {
        self.batcher.execute_batched_transfer(request)
    }

    /// Plans a copy between two tiers.
    pub fn execute_transfer_direct(&self, request: &BlockTransferRequest) -> (copy: Result<
        BlockCopy,
        String,
    >)
        requires
            is_route(request.from_pool, request.to_pool) && self.pools.size_of(request.from_pool) is Some
                && self.pools.size_of(request.to_pool) is Some ==> in_range(
                request.blocks@,
                self.pools.size_of(request.from_pool)->0,
                self.pools.size_of(request.to_pool)->0,
            ),
        ensures
            match copy {
                Ok(copy) => {
                    &&& is_route(request.from_pool, request.to_pool)
                    &&& self.pools.size_of(request.from_pool) is Some
                    &&& self.pools.size_of(request.to_pool) is Some
                    &&& copy.sources@ == request.blocks@.map_values(|pair: (usize, usize)| pair.0)
                    &&& copy.targets@ == request.blocks@.map_values(|pair: (usize, usize)| pair.1)
                },
                Err(error) => if !is_route(request.from_pool, request.to_pool) {
                    error@ == "Invalid transfer type."@
                } else if self.pools.size_of(request.from_pool) is None {
                    error@ == "Source pool manager not initialized"@
                } else {
                    self.pools.size_of(request.to_pool) is None && error@
                        == "Target pool manager not initialized"@
                },
            },
            request.from_pool == BlockTransferPool::Host && request.to_pool
                == BlockTransferPool::Device && self.pools.host is Some && self.pools.device is Some
                ==> copy is Ok,
            request.from_pool == BlockTransferPool::Device && request.to_pool
                == BlockTransferPool::Host && self.pools.device is Some && self.pools.host is Some
                ==> copy is Ok,
            request.from_pool == BlockTransferPool::Device && request.to_pool
                == BlockTransferPool::Disk && self.pools.device is Some && self.pools.disk is Some
                ==> copy is Ok,
            request.from_pool == BlockTransferPool::Host && request.to_pool
                == BlockTransferPool::Disk && self.pools.host is Some && self.pools.disk is Some
                ==> copy is Ok,
            request.from_pool == BlockTransferPool::Disk && request.to_pool
                == BlockTransferPool::Device && self.pools.disk is Some && self.pools.device is Some
                ==> copy is Ok,
            copy matches Ok(copy) ==> copy.sources@.len() == request.blocks@.len()
                && copy.targets@.len() == request.blocks@.len() && forall|i: int|
                0 <= i < request.blocks@.len() ==> (#[trigger] request.blocks@[i]) == (
                    copy.sources@[i],
                    copy.targets@[i],
                ),
    {
        let routed: bool = match request.from_pool {
            BlockTransferPool::Device => request.to_pool != BlockTransferPool::Device,
            BlockTransferPool::Host => request.to_pool != BlockTransferPool::Host,
            BlockTransferPool::Disk => request.to_pool == BlockTransferPool::Device,
        };
        if !routed {
            return Err("Invalid transfer type.".to_string());
        }
        if self.pools.size(request.from_pool).is_none() {
            return Err("Source pool manager not initialized".to_string());
        }
        if self.pools.size(request.to_pool).is_none() {
            return Err("Target pool manager not initialized".to_string());
        }
        let ghost from = request.blocks@.map_values(|pair: (usize, usize)| pair.0);
        let ghost to = request.blocks@.map_values(|pair: (usize, usize)| pair.1);
        let mut sources: Vec<usize> = Vec::new();
        let mut targets: Vec<usize> = Vec::new();
        let mut i: usize = 0;
        while i < request.blocks.len()
            invariant
                i <= request.blocks@.len(),
                from == request.blocks@.map_values(|pair: (usize, usize)| pair.0),
                to == request.blocks@.map_values(|pair: (usize, usize)| pair.1),
                sources@ =~= from.subrange(0, i as int),
                targets@ =~= to.subrange(0, i as int),
            decreases request.blocks@.len() - i,
        {
            let pair: (usize, usize) = request.blocks[i];
            sources.push(pair.0);
            targets.push(pair.1);
            i = i + 1;
        }
        assert(sources@ =~= from);
        assert(targets@ =~= to);
        Ok(BlockCopy { sources, targets })
    }

    /// Plans a remote transfer through host blocks.
    pub fn execute_remote_transfer(
        &self,
        pipeline: &RemoteTransferPipeline,
        chunk_size: usize,
        checksums: bool,
    ) -> (plan: Result<RemoteTransferPlan, String>)
        requires
            self.remote_context is Some && self.pools.host is Some && pipeline@.staging is Some ==> forall|i: int|
                0 <= i < (pipeline@.staging->0).0.len() ==> #[trigger] (pipeline@.staging->0).0[i]
                    < self.pools.host->0,
            self.remote_context is Some && self.pools.host is Some && pipeline@.staging is Some && is_chunked(
                pipeline@,
                chunk_size,
            ) ==> pipeline@.descriptors.len() <= (pipeline@.staging->0).0.len()
                && pipeline@.descriptors.len() <= (pipeline@.staging->0).1.len(),
        ensures
            match plan {
                Err(error) => if self.remote_context is None {
                    error@ == "Remote transfer context not configured"@
                } else if self.pools.host is None {
                    error@ == "Host blocks required for remote transfers"@
                } else {
                    pipeline@.staging is None && error@
                        == "Remote transfer requires bounce buffer block IDs"@
                },
                Ok(plan) => {
                    &&& self.remote_context is Some && self.pools.host is Some && pipeline@.staging is Some
                    &&& match plan {
                        RemoteTransferPlan::Chunked { chunks } => is_chunked(pipeline@, chunk_size)
                            && are_chunks_of(chunks@, pipeline@.descriptors.len(), chunk_size as nat),
                        RemoteTransferPlan::Serial { checksums_before, checksums_after, copy } => {
                            &&& !is_chunked(pipeline@, chunk_size)
                            &&& checksums_before == (checksums && pipeline@.direction
                                == RemoteTransferDirection::Offload)
                            &&& checksums_after == (checksums && pipeline@.direction
                                == RemoteTransferDirection::Onboard)
                            &&& match copy {
                                Some(request) => following_copy(pipeline@) is Some
                                    && request.is_plain_copy(following_copy(pipeline@)->0),
                                None => following_copy(pipeline@) is None,
                            }
                        },
                    }
                },
            },
    {
        if self.remote_context.is_none() {
            return Err("Remote transfer context not configured".to_string());
        }
        if self.pools.host.is_none() {
            return Err("Host blocks required for remote transfers".to_string());
        }
        let hosts: &[usize] = match pipeline.bounce_block_ids() {
            Some(ids) => ids,
            None => {
                return Err("Remote transfer requires bounce buffer block IDs".to_string());
            },
        };
        let devices: &[usize] = match pipeline.device_block_ids() {
            Some(ids) => ids,
            None => {
                return Err("Remote transfer requires bounce buffer block IDs".to_string());
            },
        };
        let n: usize = pipeline.num_blocks();
        let onboard: bool = pipeline.direction().is_onboard();
        if chunk_size > 0 && n > chunk_size && onboard {
            return Ok(RemoteTransferPlan::Chunked { chunks: chunk_ranges(n, chunk_size) });
        }
        let count: usize = if hosts.len() <= devices.len() {
            hosts.len()
        } else {
            devices.len()
        };
        let copy: Option<BlockTransferRequest> = if onboard && count > 0 {
            let blocks: Vec<(usize, usize)> = pair_up(hosts, devices, 0, count);
            assert(blocks@ =~= staged_pairs(hosts@, devices@));
            Some(
                BlockTransferRequest {
                    from_pool: BlockTransferPool::Host,
                    to_pool: BlockTransferPool::Device,
                    blocks,
                    connector_req: None,
                    sequence_hashes: None,
                },
            )
        } else {
            None
        };
        Ok(
            RemoteTransferPlan::Serial {
                checksums_before: checksums && !onboard,
                checksums_after: checksums && onboard,
                copy,
            },
        )
    }

    /// Decides what a worker does with a message of `parts` parts. A message that is refused is not
    /// acknowledged.
    pub fn handle(&self, parts: usize, parsed: ParsedTransfer) -> (plan: Result<
        HandlePlan,
        String,
    >)
        requires
            parts == 1 && scheduled_as(parsed) is Some ==> self.has_scheduler,
        ensures
            match plan {
                Ok(plan) => {
                    &&& parts == 1
                    &&& work_of(parsed) == Some(plan.work)
                    &&& plan.schedule == scheduled_as(parsed)
                },
                Err(error) => if parts != 1 {
                    error@ == "Block transfer request must have exactly one data element"@
                } else {
                    parsed matches ParsedTransfer::Invalid(reason) && error == reason
                },
            },
    {
        if parts != 1 {
            return Err("Block transfer request must have exactly one data element".to_string());
        }
        match parsed {
            ParsedTransfer::Remote(message) => Ok(
                HandlePlan {
                    schedule: message.connector_req,
                    work: TransferWork::Remote(
                        RemoteTransferMessage {
                            request_id: message.request_id,
                            pipeline: message.pipeline,
                            connector_req: None,
                        },
                    ),
                },
            ),
            ParsedTransfer::Local(request) => Ok(
                HandlePlan {
                    schedule: request.connector_req,
                    work: TransferWork::Local(
                        BlockTransferRequest {
                            from_pool: request.from_pool,
                            to_pool: request.to_pool,
                            blocks: request.blocks,
                            connector_req: None,
                            sequence_hashes: request.sequence_hashes,
                        },
                    ),
                },
            ),
            ParsedTransfer::Invalid(reason) => Err(reason),
        }
    }
}

/// Batching loses nothing, repeats nothing and keeps the order: the pairs of the batches, one
/// after the other, are the pairs of the request.
pub proof fn batches_copy_every_pair(
    batcher: ConnectorTransferBatcher,
    request: BlockTransferRequest,
    batches: Seq<BlockTransferRequest>,
)
    requires
        batcher.batch_size() > 0,
        batcher.batched(request, batches),
    ensures
        joined(batches.map_values(|batch: BlockTransferRequest| batch.blocks@), batches.len())
            == request.blocks@,
{
    let blocks = batches.map_values(|batch: BlockTransferRequest| batch.blocks@);
    if request.blocks@.len() <= batcher.batch_size() {
        reveal_with_fuel(joined, 2);
        assert(joined(blocks, 1) =~= request.blocks@);
    } else {
        let all = parts(request.blocks@, batcher.batch_size());
        parts_make_up_the_whole(request.blocks@, batcher.batch_size());
        assert forall|i: int| 0 <= i < blocks.len() implies blocks[i] == all[i] by {
            assert(batches[i].is_plain_copy(
                BlockCopyView {
                    from_pool: request.from_pool,
                    to_pool: request.to_pool,
                    blocks: all[i],
                },
            ));
        }
        assert(blocks =~= all);
    }
}

} // verus!
