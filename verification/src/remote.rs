//! Names of blocks in remote storage, and the pipelines that move them.

use vstd::prelude::*;

use crate::protocol::SequenceHash;
use crate::text::{self, append_decimal, append_hex};

verus! {

/// The name of a block in an object store.
#[derive(Debug)]
pub struct ObjectKey {
    pub bucket: String,
    pub key: String,
}

/// The name of a block on a remote disk.
#[derive(Debug)]
pub struct DiskKey {
    pub path: String,
    pub key: String,
}

/// The name of a block in remote storage.
#[derive(Debug)]
pub enum RemoteKey {
    Object(ObjectKey),
    Disk(DiskKey),
}

/// The mathematical value of a [`RemoteKey`].
#[verifier::ext_equal]
pub enum RemoteKeyView {
    Object { bucket: Seq<char>, key: Seq<char> },
    Disk { path: Seq<char>, key: Seq<char> },
}

impl View for RemoteKey {
    type V = RemoteKeyView;

    open spec fn view(&self) -> RemoteKeyView {
        match self {
            RemoteKey::Object(key) => RemoteKeyView::Object { bucket: key.bucket@, key: key.key@ },
            RemoteKey::Disk(key) => RemoteKeyView::Disk { path: key.path@, key: key.key@ },
        }
    }
}

/// The object name of a block: its hash in sixteen hexadecimal digits.
pub open spec fn object_name(hash: SequenceHash) -> Seq<char> {
    text::hex_digits(hash as nat, 16)
}

/// The file name of a block: its hash in sixteen hexadecimal digits, the rank that wrote it, and
/// the number of ranks.
pub open spec fn file_name(hash: SequenceHash, worker_id: usize, world_size: usize) -> Seq<char> {
    text::hex_digits(hash as nat, 16) + seq!['_'] + text::decimal(worker_id as nat) + seq!['_']
        + text::decimal(world_size as nat)
}

/// The object name of a block.
pub fn object_name_string(hash: SequenceHash) -> (name: String)
    ensures
        name@ == object_name(hash),
{
    let mut name = String::new();
    append_hex(&mut name, hash, 16);
    assert(name@ =~= object_name(hash));
    name
}

/// The file name of a block.
pub fn file_name_string(hash: SequenceHash, worker_id: usize, world_size: usize) -> (name: String)
    ensures
        name@ == file_name(hash, worker_id, world_size),
{
    let mut name = String::new();
    proof {
        reveal_strlit("_");
    }
    append_hex(&mut name, hash, 16);
    name.append("_");
    append_decimal(&mut name, worker_id as u64);
    name.append("_");
    append_decimal(&mut name, world_size as u64);
    assert("_"@ =~= seq!['_']);
    assert(name@ =~= file_name(hash, worker_id, world_size));
    name
}

/// Different blocks have different object names.
pub proof fn object_names_are_distinct(a: SequenceHash, b: SequenceHash)
    requires
        object_name(a) == object_name(b),
    ensures
        a == b,
{
    text::hex_digits_injective(a, b);
}

/// Blocks that differ in hash, rank or number of ranks have different file names.
pub proof fn file_names_are_distinct(
    hash_a: SequenceHash,
    worker_a: usize,
    world_a: usize,
    hash_b: SequenceHash,
    worker_b: usize,
    world_b: usize,
)
    requires
        file_name(hash_a, worker_a, world_a) == file_name(hash_b, worker_b, world_b),
    ensures
        hash_a == hash_b,
        worker_a == worker_b,
        world_a == world_b,
{
    let a = file_name(hash_a, worker_a, world_a);
    let b = file_name(hash_b, worker_b, world_b);
    let hex_a = text::hex_digits(hash_a as nat, 16);
    let hex_b = text::hex_digits(hash_b as nat, 16);
    text::hex_digits_len(hash_a as nat, 16);
    text::hex_digits_len(hash_b as nat, 16);
    assert(a.subrange(0, 16) =~= hex_a);
    assert(b.subrange(0, 16) =~= hex_b);
    text::hex_digits_injective(hash_a, hash_b);
    let wa = text::decimal(worker_a as nat);
    let wb = text::decimal(worker_b as nat);
    let sa = text::decimal(world_a as nat);
    let sb = text::decimal(world_b as nat);
    text::decimal_holds_digits(worker_a as nat);
    text::decimal_holds_digits(worker_b as nat);
    text::decimal_holds_digits(world_a as nat);
    text::decimal_holds_digits(world_b as nat);
    // The second underscore stands right behind the rank, and a rank holds no underscore.
    if wa.len() < wb.len() {
        assert(a[17 + wa.len() as int] == '_');
        assert(b[17 + wa.len() as int] == wb[wa.len() as int]);
        assert(false);
    }
    if wb.len() < wa.len() {
        assert(b[17 + wb.len() as int] == '_');
        assert(a[17 + wb.len() as int] == wa[wb.len() as int]);
        assert(false);
    }
    assert(a.subrange(17, 17 + wa.len() as int) =~= wa);
    assert(b.subrange(17, 17 + wb.len() as int) =~= wb);
    assert(a.subrange(18 + wa.len() as int, a.len() as int) =~= sa);
    assert(b.subrange(18 + wb.len() as int, b.len() as int) =~= sb);
    text::decimal_is_injective(worker_a as nat, worker_b as nat);
    text::decimal_is_injective(world_a as nat, world_b as nat);
}

impl Clone for RemoteKey {
    fn clone(&self) -> (copy: Self)
        ensures
            copy == *self,
    {
        match self {
            RemoteKey::Object(key) => RemoteKey::Object(
                ObjectKey { bucket: key.bucket.clone(), key: key.key.clone() },
            ),
            RemoteKey::Disk(key) => RemoteKey::Disk(
                DiskKey { path: key.path.clone(), key: key.key.clone() },
            ),
        }
    }
}

impl RemoteKey {
    /// The object of the block `hash` in `bucket`.
    pub fn object_from_hash(bucket: &str, hash: SequenceHash) -> (key: Self)
        ensures
            key@ == (RemoteKeyView::Object { bucket: bucket@, key: object_name(hash) }),
    {
        RemoteKey::Object(ObjectKey { bucket: bucket.to_owned(), key: object_name_string(hash) })
    }

    /// The bucket or the directory.
    pub fn location(&self) -> (location: &str)
        ensures
            location@ == match self@ {
                RemoteKeyView::Object { bucket, .. } => bucket,
                RemoteKeyView::Disk { path, .. } => path,
            },
    {
        match self {
            RemoteKey::Object(key) => key.bucket.as_str(),
            RemoteKey::Disk(key) => key.path.as_str(),
        }
    }

    /// The name within the bucket or the directory.
    pub fn key_str(&self) -> (name: &str)
        ensures
            name@ == match self@ {
                RemoteKeyView::Object { key, .. } => key,
                RemoteKeyView::Disk { key, .. } => key,
            },
    {
        match self {
            RemoteKey::Object(key) => key.key.as_str(),
            RemoteKey::Disk(key) => key.key.as_str(),
        }
    }
}

/// A block in remote storage: its name, its size in bytes and its hash.
#[derive(Debug)]
pub struct RemoteBlockDescriptor {
    key: RemoteKey,
    size: usize,
    sequence_hash: Option<SequenceHash>,
}

/// The mathematical value of a [`RemoteBlockDescriptor`].
#[verifier::ext_equal]
pub struct DescriptorView {
    pub key: RemoteKeyView,
    pub size: usize,
    pub sequence_hash: Option<SequenceHash>,
}

impl View for RemoteBlockDescriptor {
    type V = DescriptorView;

    closed spec fn view(&self) -> DescriptorView {
        DescriptorView { key: self.key@, size: self.size, sequence_hash: self.sequence_hash }
    }
}

/// The views of a sequence of descriptors.
pub open spec fn descriptor_views(descriptors: Seq<RemoteBlockDescriptor>) -> Seq<DescriptorView> {
    descriptors.map_values(|descriptor: RemoteBlockDescriptor| descriptor@)
}

/// The object of the block `hash`.
pub open spec fn object_descriptor(
    bucket: Seq<char>,
    hash: SequenceHash,
    size: usize,
) -> DescriptorView {
    DescriptorView {
        key: RemoteKeyView::Object { bucket, key: object_name(hash) },
        size,
        sequence_hash: Some(hash),
    }
}

/// The file of the block `hash` as rank `worker_id` of `world_size` writes it.
pub open spec fn disk_descriptor(
    base_path: Seq<char>,
    hash: SequenceHash,
    size: usize,
    worker_id: usize,
    world_size: usize,
) -> DescriptorView {
    DescriptorView {
        key: RemoteKeyView::Disk { path: base_path, key: file_name(hash, worker_id, world_size) },
        size,
        sequence_hash: Some(hash),
    }
}

impl Clone for RemoteBlockDescriptor {
    fn clone(&self) -> (copy: Self)
        ensures
            copy == *self,
    {
        RemoteBlockDescriptor {
            key: self.key.clone(),
            size: self.size,
            sequence_hash: self.sequence_hash,
        }
    }
}

impl RemoteBlockDescriptor {
    /// A block under an arbitrary name.
    pub fn new(key: RemoteKey, size: usize, sequence_hash: Option<SequenceHash>) -> (descriptor:
        Self)
        ensures
            descriptor@ == (DescriptorView { key: key@, size, sequence_hash }),
    {
        RemoteBlockDescriptor { key, size, sequence_hash }
    }

    /// The object of the block `hash` in `bucket`.
    pub fn object_from_hash(bucket: &str, hash: SequenceHash, size: usize) -> (descriptor: Self)
        ensures
            descriptor@ == object_descriptor(bucket@, hash, size),
    {
        RemoteBlockDescriptor {
            key: RemoteKey::object_from_hash(bucket, hash),
            size,
            sequence_hash: Some(hash),
        }
    }

    /// The file of the block `hash` under `base_path` as rank `worker_id` of `world_size` writes
    /// it.
    pub fn disk_from_hash(
        base_path: &str,
        hash: SequenceHash,
        size: usize,
        worker_id: usize,
        world_size: usize,
    ) -> (descriptor: Self)
        ensures
            descriptor@ == disk_descriptor(base_path@, hash, size, worker_id, world_size),
    {
        RemoteBlockDescriptor {
            key: RemoteKey::Disk(
                DiskKey {
                    path: base_path.to_owned(),
                    key: file_name_string(hash, worker_id, world_size),
                },
            ),
            size,
            sequence_hash: Some(hash),
        }
    }

    /// The name of the block.
    pub fn key(&self) -> (key: &RemoteKey)
        ensures
            key@ == self@.key,
    {
        &self.key
    }

    /// The size of the block in bytes.
    pub fn size(&self) -> (size: usize)
        ensures
            size == self@.size,
    {
        self.size
    }

    /// The hash of the block, where it is known.
    pub fn sequence_hash(&self) -> (hash: Option<SequenceHash>)
        ensures
            hash == self@.sequence_hash,
    {
        self.sequence_hash
    }
}

/// The kinds of remote storage.
#[derive(Debug, Clone, Copy, PartialEq, Eq, Structural)]
pub enum RemoteStorageKind {
    Object,
    Disk,
}

/// Which way a remote transfer goes.
#[derive(Debug, Clone, Copy, PartialEq, Eq, Structural)]
pub enum RemoteTransferDirection {
    /// From host memory to remote storage.
    Offload,
    /// From remote storage to host memory.
    Onboard,
}

impl RemoteTransferDirection {
    /// Whether blocks come from remote storage.
    pub fn is_onboard(&self) -> (onboard: bool)
        ensures
            onboard == (*self == RemoteTransferDirection::Onboard),
    {
        *self == RemoteTransferDirection::Onboard
    }
}

/// A remote transfer: the blocks, the host blocks they pass through, and the device blocks at
/// the other end.
#[derive(Debug)]
pub struct RemoteTransferPipeline {
    direction: RemoteTransferDirection,
    descriptors: Vec<RemoteBlockDescriptor>,
    staging: Option<(Vec<usize>, Vec<usize>)>,
}

/// The mathematical value of a [`RemoteTransferPipeline`].
#[verifier::ext_equal]
pub struct PipelineView {
    pub direction: RemoteTransferDirection,
    pub descriptors: Seq<DescriptorView>,
    /// Host blocks and device blocks, where the transfer passes through host memory.
    pub staging: Option<(Seq<usize>, Seq<usize>)>,
}

impl View for RemoteTransferPipeline {
    type V = PipelineView;

    closed spec fn view(&self) -> PipelineView {
        PipelineView {
            direction: self.direction,
            descriptors: descriptor_views(self.descriptors@),
            staging: match self.staging {
                Some(staging) => Some((staging.0@, staging.1@)),
                None => None,
            },
        }
    }
}

impl RemoteTransferPipeline {
    /// An offload through the host blocks `bounce_block_ids`.
    pub fn offload_with_bounce(
        descriptors: Vec<RemoteBlockDescriptor>,
        bounce_block_ids: Vec<usize>,
        device_block_ids: Vec<usize>,
    ) -> (pipeline: Self)
        ensures
            pipeline@ == (PipelineView {
                direction: RemoteTransferDirection::Offload,
                descriptors: descriptor_views(descriptors@),
                staging: Some((bounce_block_ids@, device_block_ids@)),
            }),
    {
        RemoteTransferPipeline {
            direction: RemoteTransferDirection::Offload,
            descriptors,
            staging: Some((bounce_block_ids, device_block_ids)),
        }
    }

    /// An onboard through the host blocks `bounce_block_ids`.
    pub fn onboard_with_bounce(
        descriptors: Vec<RemoteBlockDescriptor>,
        bounce_block_ids: Vec<usize>,
        device_block_ids: Vec<usize>,
    ) -> (pipeline: Self)
        ensures
            pipeline@ == (PipelineView {
                direction: RemoteTransferDirection::Onboard,
                descriptors: descriptor_views(descriptors@),
                staging: Some((bounce_block_ids@, device_block_ids@)),
            }),
    {
        RemoteTransferPipeline {
            direction: RemoteTransferDirection::Onboard,
            descriptors,
            staging: Some((bounce_block_ids, device_block_ids)),
        }
    }

    /// An onboard straight into the blocks that the caller hands over.
    pub fn onboard_direct(descriptors: Vec<RemoteBlockDescriptor>) -> (pipeline: Self)
        ensures
            pipeline@ == (PipelineView {
                direction: RemoteTransferDirection::Onboard,
                descriptors: descriptor_views(descriptors@),
                staging: None,
            }),
    {
        RemoteTransferPipeline {
            direction: RemoteTransferDirection::Onboard,
            descriptors,
            staging: None,
        }
    }

    /// Which way the transfer goes.
    pub fn direction(&self) -> (direction: RemoteTransferDirection)
        ensures
            direction == self@.direction,
    {
        self.direction
    }

    /// The blocks.
    pub fn descriptors(&self) -> (descriptors: &[RemoteBlockDescriptor])
        ensures
            descriptor_views(descriptors@) == self@.descriptors,
    {
        self.descriptors.as_slice()
    }

    /// The number of blocks.
    pub fn num_blocks(&self) -> (n: usize)
        ensures
            n == self@.descriptors.len(),
    {
        self.descriptors.len()
    }

    /// Whether the transfer passes through host blocks.
    pub fn has_bounce(&self) -> (bounce: bool)
        ensures
            bounce == (self@.staging is Some),
    {
        self.staging.is_some()
    }

    /// The host blocks that the transfer passes through.
    pub fn bounce_block_ids(&self) -> (ids: Option<&[usize]>)
        ensures
            match ids {
                Some(ids) => self@.staging is Some && ids@ == (self@.staging->0).0,
                None => self@.staging is None,
            },
    {
        match &self.staging {
            Some(staging) => Some(staging.0.as_slice()),
            None => None,
        }
    }

    /// The device blocks at the other end.
    pub fn device_block_ids(&self) -> (ids: Option<&[usize]>)
        ensures
            match ids {
                Some(ids) => self@.staging is Some && ids@ == (self@.staging->0).1,
                None => self@.staging is None,
            },
    {
        match &self.staging {
            Some(staging) => Some(staging.1.as_slice()),
            None => None,
        }
    }
}

} // verus!
