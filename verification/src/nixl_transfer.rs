//! Plans of the transfers between host memory and remote storage: which files and objects they
//! touch, which memory regions they list, and when they are over.

use vstd::prelude::*;

use crate::config::{
    self, DiskTransferFlags, RemoteContextParts, RemoteStorageConfig, RemoteTransferContext,
    DISK_FLAG_GDS_READ, DISK_FLAG_GDS_WRITE,
};
use crate::protocol::SequenceHash;
use crate::remote::{
    self, file_name_string, DescriptorView, RemoteBlockDescriptor, RemoteKey, RemoteKeyView,
    RemoteStorageKind, RemoteTransferDirection,
};
use crate::text::{self, append_decimal, append_plain_hex, is_switched_on, parse_number, quote};

verus! {

/// The alignment of unbuffered I/O where the page size is unknown.
pub const DEFAULT_O_DIRECT_ALIGNMENT_FALLBACK: usize = 4096;

/// Why a transfer did not happen.
#[derive(Debug)]
pub enum TransferError {
    /// The numbers of remote and local blocks differ.
    CountMismatch(usize, usize),
    Cancelled,
    IncompatibleTypes(String),
    ExecutionError(String),
}

/// The mathematical value of a [`TransferError`].
#[verifier::ext_equal]
pub enum TransferErrorView {
    CountMismatch(usize, usize),
    Cancelled,
    IncompatibleTypes(Seq<char>),
    ExecutionError(Seq<char>),
}

impl View for TransferError {
    type V = TransferErrorView;

    open spec fn view(&self) -> TransferErrorView {
        match self {
            TransferError::CountMismatch(a, b) => TransferErrorView::CountMismatch(*a, *b),
            TransferError::Cancelled => TransferErrorView::Cancelled,
            TransferError::IncompatibleTypes(text) => TransferErrorView::IncompatibleTypes(text@),
            TransferError::ExecutionError(text) => TransferErrorView::ExecutionError(text@),
        }
    }
}

/// The alignment that unbuffered I/O needs, and whether it is checked.
#[derive(Debug, Clone, Copy, PartialEq, Eq, Structural)]
pub struct RemoteDiskAlignmentConfig {
    pub quantum: usize,
    pub validate: bool,
}

/// The size of a page: what the system reports, where that is a positive size.
pub open spec fn page_size_of(reported: Option<i64>) -> usize {
    match reported {
        Some(size) => if 0 < size <= usize::MAX {
            size as usize
        } else {
            DEFAULT_O_DIRECT_ALIGNMENT_FALLBACK
        },
        None => DEFAULT_O_DIRECT_ALIGNMENT_FALLBACK,
    }
}

/// The alignment that a setting holds, where it holds a positive size.
pub open spec fn alignment_override(setting: Option<Seq<char>>) -> Option<usize> {
    match setting {
        Some(value) => match text::parsed_number(value) {
            Some(number) => if 0 < number <= usize::MAX {
                Some(number as usize)
            } else {
                None
            },
            None => None,
        },
        None => None,
    }
}

impl RemoteDiskAlignmentConfig {
    /// The alignment that the system and the settings of the environment ask for: the setting
    /// comes first, then the page size that the system reports.
    pub fn from_settings(
        page_size: Option<i64>,
        alignment: &Option<String>,
        validate: &Option<String>,
    ) -> (config: Self)
        ensures
            config.quantum == match alignment_override(text::text_view(*alignment)) {
                Some(quantum) => quantum,
                None => page_size_of(page_size),
            },
            config.validate == text::switches_on(text::text_view(*validate)),
            config.quantum > 0,
    {
        let page: usize = match page_size {
            Some(size) => if size > 0 && size as u64 <= usize::MAX as u64 {
                size as usize
            } else {
                DEFAULT_O_DIRECT_ALIGNMENT_FALLBACK
            },
            None => DEFAULT_O_DIRECT_ALIGNMENT_FALLBACK,
        };
        let quantum: usize = match alignment {
            Some(value) => match parse_number(value.as_str()) {
                Some(number) => if number > 0 && number <= usize::MAX as u64 {
                    number as usize
                } else {
                    page
                },
                None => page,
            },
            None => page,
        };
        RemoteDiskAlignmentConfig { quantum, validate: is_switched_on(validate) }
    }

    /// Whether `n` keeps the alignment; only zero keeps an alignment of zero.
    pub open spec fn aligns(self, n: usize) -> bool {
        if self.quantum == 0 {
            n == 0
        } else {
            n % self.quantum == 0
        }
    }

    /// Whether `n` is refused: it is checked, and does not keep the alignment.
    pub open spec fn refuses(self, use_odirect: bool, n: usize) -> bool {
        use_odirect && self.validate && !self.aligns(n)
    }

    fn is_refused(&self, use_odirect: bool, n: usize) -> (refused: bool)
        ensures
            refused == self.refuses(use_odirect, n),
    {
        if !use_odirect || !self.validate {
            false
        } else if self.quantum == 0 {
            n != 0
        } else {
            n % self.quantum != 0
        }
    }
}

/// What is reported of a block size that does not keep the alignment.
pub open spec fn misaligned_size(quantum: usize, size: usize) -> Seq<char> {
    "O_DIRECT alignment validation failed: block_size must be "@ + text::decimal(quantum as nat)
        + "-byte aligned (got "@ + text::decimal(size as nat)
        + "). Set DYN_KVBM_REMOTE_DISK_VALIDATE_ALIGNMENT=false to disable validation."@
}

fn misaligned_size_string(quantum: usize, size: usize) -> (report: String)
    ensures
        report@ == misaligned_size(quantum, size),
{
    let mut report: String =
        "O_DIRECT alignment validation failed: block_size must be ".to_string();
    append_decimal(&mut report, quantum as u64);
    report.append("-byte aligned (got ");
    append_decimal(&mut report, size as u64);
    report.append(
        "). Set DYN_KVBM_REMOTE_DISK_VALIDATE_ALIGNMENT=false to disable validation.",
    );
    report
}

/// What is reported of a host buffer that does not keep the alignment.
pub open spec fn misaligned_address(quantum: usize, addr: usize) -> Seq<char> {
    "O_DIRECT alignment validation failed: host buffer address must be "@ + text::decimal(
        quantum as nat,
    ) + "-byte aligned; got 0x"@ + text::hex(addr as nat)
        + ". Set DYN_KVBM_REMOTE_DISK_VALIDATE_ALIGNMENT=false to disable validation."@
}

fn misaligned_address_string(quantum: usize, addr: usize) -> (report: String)
    ensures
        report@ == misaligned_address(quantum, addr),
{
    let mut report: String =
        "O_DIRECT alignment validation failed: host buffer address must be ".to_string();
    append_decimal(&mut report, quantum as u64);
    report.append("-byte aligned; got 0x");
    append_plain_hex(&mut report, addr as u64);
    report.append(
        ". Set DYN_KVBM_REMOTE_DISK_VALIDATE_ALIGNMENT=false to disable validation.",
    );
    report
}

/// What the storage does with the listed regions.
#[derive(Debug, Clone, Copy, PartialEq, Eq, Structural)]
pub enum XferOp {
    Write,
    Read,
}

/// An offload writes, an onboard reads.
pub open spec fn op_of(direction: RemoteTransferDirection) -> XferOp {
    match direction {
        RemoteTransferDirection::Offload => XferOp::Write,
        RemoteTransferDirection::Onboard => XferOp::Read,
    }
}

/// The operation of a direction.
pub fn xfer_op(direction: RemoteTransferDirection) -> (op: XferOp)
    ensures
        op == op_of(direction),
{
    match direction {
        RemoteTransferDirection::Offload => XferOp::Write,
        RemoteTransferDirection::Onboard => XferOp::Read,
    }
}

/// The backends of a disk transfer.
#[derive(Debug, Clone, Copy, PartialEq, Eq, Structural)]
pub enum DiskBackend {
    GdsMt,
    Posix,
}

impl DiskBackend {
    /// The name of the backend.
    pub open spec fn name_view(self) -> Seq<char> {
        match self {
            DiskBackend::GdsMt => "GDS_MT"@,
            DiskBackend::Posix => "POSIX"@,
        }
    }

    /// The name of the backend.
    pub fn name(&self) -> (name: &'static str)
        ensures
            name@ == self.name_view(),
    {
        match self {
            DiskBackend::GdsMt => "GDS_MT",
            DiskBackend::Posix => "POSIX",
        }
    }
}

/// The backend of a disk transfer: an offload uses GPU-direct storage where its flag is set, an
/// onboard where its flag is set and the backend is loaded.
pub open spec fn backend_of(
    direction: RemoteTransferDirection,
    flags: DiskTransferFlags,
    gds_available: bool,
) -> DiskBackend {
    let gds = match direction {
        RemoteTransferDirection::Offload => flags & DISK_FLAG_GDS_WRITE != 0,
        RemoteTransferDirection::Onboard => flags & DISK_FLAG_GDS_READ != 0 && gds_available,
    };
    if gds {
        DiskBackend::GdsMt
    } else {
        DiskBackend::Posix
    }
}

/// Picks the backend of a disk transfer.
pub fn disk_backend(
    direction: RemoteTransferDirection,
    flags: DiskTransferFlags,
    gds_available: bool,
) -> (backend: DiskBackend)
    ensures
        backend == backend_of(direction, flags, gds_available),
{
    let gds: bool = match direction {
        RemoteTransferDirection::Offload => flags & DISK_FLAG_GDS_WRITE != 0,
        RemoteTransferDirection::Onboard => flags & DISK_FLAG_GDS_READ != 0 && gds_available,
    };
    if gds {
        DiskBackend::GdsMt
    } else {
        DiskBackend::Posix
    }
}

/// The directory of the files of a disk transfer: that of the context, or else that of the block.
pub open spec fn directory_of(ctx: RemoteContextParts, own: Seq<char>) -> Seq<char> {
    match ctx.config {
        RemoteStorageConfig::Disk { base_path, .. } => base_path@,
        RemoteStorageConfig::Object { .. } => own,
    }
}

/// The file of a block, where it is a block on disk with a known hash.
pub open spec fn file_of(block: DescriptorView, ctx: RemoteContextParts) -> Result<
    Seq<char>,
    TransferErrorView,
> {
    match block.key {
        RemoteKeyView::Disk { path, .. } => match block.sequence_hash {
            Some(hash) => Ok(
                directory_of(ctx, path) + "/"@ + remote::file_name(
                    hash,
                    ctx.worker_id as usize,
                    ctx.world_size,
                ),
            ),
            None => Err(
                TransferErrorView::ExecutionError("Disk descriptor missing sequence_hash metadata"@),
            ),
        },
        RemoteKeyView::Object { .. } => Err(
            TransferErrorView::IncompatibleTypes("Expected Disk key for disk storage transfer"@),
        ),
    }
}

/// The file of a block.
pub fn disk_file(block: &RemoteBlockDescriptor, ctx: &RemoteTransferContext) -> (file: Result<
    String,
    TransferError,
>)
    ensures
        match file {
            Ok(path) => file_of(block@, ctx@) == Ok::<Seq<char>, TransferErrorView>(path@),
            Err(error) => file_of(block@, ctx@) == Err::<Seq<char>, TransferErrorView>(error@),
        },
{
    match block.key() {
        RemoteKey::Disk(key) => match block.sequence_hash() {
            Some(hash) => {
                let mut path: String = match ctx.base_path() {
                    Some(base) => base.to_string(),
                    None => key.path.clone(),
                };
                path.append("/");
                let name: String = file_name_string(
                    hash,
                    ctx.worker_id() as usize,
                    ctx.world_size(),
                );
                path.append(name.as_str());
                Ok(path)
            },
            None => Err(
                TransferError::ExecutionError(
                    "Disk descriptor missing sequence_hash metadata".to_string(),
                ),
            ),
        },
        RemoteKey::Object(_) => Err(
            TransferError::IncompatibleTypes(
                "Expected Disk key for disk storage transfer".to_string(),
            ),
        ),
    }
}

/// A disk transfer: the files in the order of the blocks, and how they are opened.
#[derive(Debug)]
pub struct DiskTransferPlan {
    pub paths: Vec<String>,
    /// Whether the files are created, and not only opened.
    pub create: bool,
    pub use_odirect: bool,
    pub preallocate: bool,
    pub op: XferOp,
    pub backend: DiskBackend,
}

/// The views of a sequence of texts.
pub open spec fn text_views(texts: Seq<String>) -> Seq<Seq<char>> {
    texts.map_values(|text: String| text@)
}

/// Whether `error` is why the first of the blocks without a file has none.
pub open spec fn first_file_error(
    blocks: Seq<DescriptorView>,
    ctx: RemoteContextParts,
    error: TransferErrorView,
) -> bool {
    exists|i: int| #[trigger] is_first_without_file(blocks, ctx, i) && file_of(blocks[i], ctx)
        == Err::<Seq<char>, TransferErrorView>(error)
}

/// Whether the block at `i` is the first one without a file.
pub open spec fn is_first_without_file(
    blocks: Seq<DescriptorView>,
    ctx: RemoteContextParts,
    i: int,
) -> bool {
    &&& 0 <= i < blocks.len()
    &&& file_of(blocks[i], ctx) is Err
    &&& forall|j: int| 0 <= j < i ==> file_of(#[trigger] blocks[j], ctx) is Ok
}

/// Whether `paths` are the files of `blocks`, in order.
pub open spec fn files_of(
    blocks: Seq<DescriptorView>,
    ctx: RemoteContextParts,
    paths: Seq<Seq<char>>,
) -> bool {
    paths.len() == blocks.len() && forall|i: int|
        0 <= i < blocks.len() ==> file_of(#[trigger] blocks[i], ctx) == Ok::<
            Seq<char>,
            TransferErrorView,
        >(paths[i])
}

/// Whether a disk transfer bypasses the page cache: always with GPU-direct storage, and else
/// where the setting says so.
pub open spec fn bypasses_page_cache(backend: DiskBackend, posix_odirect: bool) -> bool {
    backend == DiskBackend::GdsMt || posix_odirect
}

/// Plans a disk transfer. `gds_available` tells whether the agent has loaded the backend of
/// GPU-direct storage, `posix_odirect` whether plain file I/O bypasses the page cache too.
pub fn plan_disk_transfer(
    direction: RemoteTransferDirection,
    descriptors: &[RemoteBlockDescriptor],
    block_size: usize,
    ctx: &RemoteTransferContext,
    gds_available: bool,
    posix_odirect: bool,
    alignment: RemoteDiskAlignmentConfig,
) -> (plan: Result<DiskTransferPlan, TransferError>)
    ensures
        ({
            let flags = match ctx@.config {
                RemoteStorageConfig::Disk { transfer_flags, .. } => transfer_flags,
                RemoteStorageConfig::Object { .. } => config::DISK_FLAGS_GDS_BOTH,
            };
            let backend = backend_of(direction, flags, gds_available);
            let odirect = bypasses_page_cache(backend, posix_odirect);
            let blocks = remote::descriptor_views(descriptors@);
            if alignment.refuses(odirect, block_size) {
                plan matches Err(error) && error@ == TransferErrorView::ExecutionError(
                    misaligned_size(alignment.quantum, block_size),
                )
            } else {
                match plan {
                    Ok(plan) => {
                        &&& files_of(blocks, ctx@, text_views(plan.paths@))
                        &&& plan.create == (direction == RemoteTransferDirection::Offload)
                        &&& plan.use_odirect == odirect
                        &&& plan.preallocate == (backend == DiskBackend::GdsMt)
                        &&& plan.op == op_of(direction)
                        &&& plan.backend == backend
                    },
                    Err(error) => first_file_error(blocks, ctx@, error@),
                }
            }
        }),
{
    let backend: DiskBackend = disk_backend(direction, ctx.disk_transfer_flags(), gds_available);
    let use_gds: bool = backend == DiskBackend::GdsMt;
    let use_odirect: bool = use_gds || posix_odirect;
    if alignment.is_refused(use_odirect, block_size) {
        return Err(
            TransferError::ExecutionError(misaligned_size_string(alignment.quantum, block_size)),
        );
    }
    let ghost blocks = remote::descriptor_views(descriptors@);
    let mut paths: Vec<String> = Vec::new();
    let mut i: usize = 0;
    while i < descriptors.len()
        invariant
            i <= descriptors@.len(),
            blocks == remote::descriptor_views(descriptors@),
            paths@.len() == i,
            forall|j: int|
                0 <= j < i ==> file_of(#[trigger] blocks[j], ctx@) == Ok::<
                    Seq<char>,
                    TransferErrorView,
                >(paths@[j]@),
            !alignment.refuses(bypasses_page_cache(backend, posix_odirect), block_size),
            backend == backend_of(
                direction,
                match ctx@.config {
                    RemoteStorageConfig::Disk { transfer_flags, .. } => transfer_flags,
                    RemoteStorageConfig::Object { .. } => config::DISK_FLAGS_GDS_BOTH,
                },
                gds_available,
            ),
        decreases descriptors@.len() - i,
    {
        assert(blocks[i as int] == descriptors@[i as int]@);
        match disk_file(&descriptors[i], ctx) {
            Ok(path) => {
                paths.push(path);
            },
            Err(error) => {
                assert(is_first_without_file(blocks, ctx@, i as int));
                return Err(error);
            },
        }
        i = i + 1;
    }
    let ghost views = text_views(paths@);
    assert(files_of(blocks, ctx@, views)) by {
        assert forall|j: int| 0 <= j < blocks.len() implies file_of(#[trigger] blocks[j], ctx@)
            == Ok::<Seq<char>, TransferErrorView>(views[j]) by {
            assert(views[j] == paths@[j]@);
        }
    }
    Ok(
        DiskTransferPlan {
            paths,
            create: direction == RemoteTransferDirection::Offload,
            use_odirect,
            preallocate: use_gds,
            op: xfer_op(direction),
            backend,
        },
    )
}

/// A region of memory or of storage, as a transfer lists it.
#[derive(Debug, Clone, Copy, PartialEq, Eq, Structural)]
pub struct XferDescriptor {
    pub addr: usize,
    pub size: usize,
    /// The device of memory, the descriptor of a file, or the key of an object.
    pub device_id: u64,
}

/// The two lists of a transfer: region by region, one end and the other.
#[derive(Debug)]
pub struct XferLists {
    pub local: Vec<XferDescriptor>,
    pub remote: Vec<XferDescriptor>,
}

/// The shorter of two lengths.
pub open spec fn shorter(a: nat, b: nat) -> nat {
    if a <= b {
        a
    } else {
        b
    }
}

/// Host buffers of `size` bytes at `addrs`.
pub open spec fn host_regions(addrs: Seq<usize>, size: usize) -> Seq<XferDescriptor> {
    addrs.map_values(|addr: usize| XferDescriptor { addr, size, device_id: 0 })
}

/// Stored blocks of `size` bytes under `ids`, each from its start.
pub open spec fn stored_regions(ids: Seq<u64>, size: usize) -> Seq<XferDescriptor> {
    ids.map_values(|id: u64| XferDescriptor { addr: 0, size, device_id: id })
}

/// Whether the address at `i` is the first one that is refused.
pub open spec fn is_first_refused(
    alignment: RemoteDiskAlignmentConfig,
    use_odirect: bool,
    addrs: Seq<usize>,
    i: int,
) -> bool {
    &&& 0 <= i < addrs.len()
    &&& alignment.refuses(use_odirect, addrs[i])
    &&& forall|j: int| 0 <= j < i ==> !alignment.refuses(use_odirect, #[trigger] addrs[j])
}

/// Lists the host buffers at `addrs` and the opened files `fds` of a disk transfer, pair by pair.
pub fn disk_xfer_lists(
    addrs: &[usize],
    fds: &[u64],
    block_size: usize,
    use_odirect: bool,
    alignment: RemoteDiskAlignmentConfig,
) -> (lists: Result<XferLists, TransferError>)
    ensures
        ({
            let n = shorter(addrs@.len(), fds@.len()) as int;
            match lists {
                Ok(lists) => {
                    &&& lists.local@ == host_regions(addrs@.subrange(0, n), block_size)
                    &&& lists.remote@ == stored_regions(fds@.subrange(0, n), block_size)
                    &&& forall|i: int|
                        0 <= i < n ==> !alignment.refuses(use_odirect, #[trigger] addrs@[i])
                },
                Err(error) => exists|i: int| #[trigger]
                    is_first_refused(alignment, use_odirect, addrs@.subrange(0, n), i) && error@
                        == TransferErrorView::ExecutionError(
                        misaligned_address(alignment.quantum, addrs@[i]),
                    ),
            }
        }),
{
    let n: usize = if addrs.len() <= fds.len() {
        addrs.len()
    } else {
        fds.len()
    };
    let mut local: Vec<XferDescriptor> = Vec::new();
    let mut remote: Vec<XferDescriptor> = Vec::new();
    let mut i: usize = 0;
    while i < n
        invariant
            i <= n,
            n == shorter(addrs@.len(), fds@.len()),
            local@ =~= host_regions(addrs@.subrange(0, i as int), block_size),
            remote@ =~= stored_regions(fds@.subrange(0, i as int), block_size),
            forall|j: int| 0 <= j < i ==> !alignment.refuses(use_odirect, #[trigger] addrs@[j]),
        decreases n - i,
    {
        let addr: usize = addrs[i];
        if alignment.is_refused(use_odirect, addr) {
            proof {
                let seen = addrs@.subrange(0, n as int);
                assert(seen[i as int] == addr);
                assert forall|j: int| 0 <= j < i implies !alignment.refuses(
                    use_odirect,
                    #[trigger] seen[j],
                ) by {
                    assert(seen[j] == addrs@[j]);
                }
                assert(is_first_refused(alignment, use_odirect, seen, i as int));
            }
            return Err(
                TransferError::ExecutionError(misaligned_address_string(alignment.quantum, addr)),
            );
        }
        local.push(XferDescriptor { addr, size: block_size, device_id: 0 });
        remote.push(XferDescriptor { addr: 0, size: block_size, device_id: fds[i] });
        i = i + 1;
    }
    Ok(XferLists { local, remote })
}

/// An object that takes part in a transfer.
#[derive(Debug)]
pub struct ObjectTarget {
    pub bucket: String,
    pub key: SequenceHash,
}

/// The mathematical value of an [`ObjectTarget`]: its bucket and its key.
pub type ObjectTargetView = (Seq<char>, SequenceHash);

impl View for ObjectTarget {
    type V = ObjectTargetView;

    open spec fn view(&self) -> ObjectTargetView {
        (self.bucket@, self.key)
    }
}

/// What is reported of an object without a hash.
pub open spec fn missing_hash(bucket: Seq<char>, key: Seq<char>) -> Seq<char> {
    "Descriptor missing sequence_hash: Object(ObjectKey { bucket: "@ + text::quoted(bucket)
        + ", key: "@ + text::quoted(key) + " })"@
}

/// The object of a block, where it is a block in an object store with a known hash.
pub open spec fn object_of(block: DescriptorView) -> Result<ObjectTargetView, TransferErrorView> {
    match block.key {
        RemoteKeyView::Object { bucket, key } => match block.sequence_hash {
            Some(hash) => Ok((bucket, hash)),
            None => Err(TransferErrorView::ExecutionError(missing_hash(bucket, key))),
        },
        RemoteKeyView::Disk { .. } => Err(
            TransferErrorView::IncompatibleTypes("Expected Object key for object storage transfer"@),
        ),
    }
}

/// The object of a block.
pub fn object_target(block: &RemoteBlockDescriptor) -> (target: Result<
    ObjectTarget,
    TransferError,
>)
    ensures
        match target {
            Ok(target) => object_of(block@) == Ok::<ObjectTargetView, TransferErrorView>(target@),
            Err(error) => object_of(block@) == Err::<ObjectTargetView, TransferErrorView>(error@),
        },
{
    match block.key() {
        RemoteKey::Object(key) => match block.sequence_hash() {
            Some(hash) => Ok(ObjectTarget { bucket: key.bucket.clone(), key: hash }),
            None => {
                let mut report: String =
                    "Descriptor missing sequence_hash: Object(ObjectKey { bucket: ".to_string();
                let bucket: String = quote(key.bucket.as_str());
                report.append(bucket.as_str());
                report.append(", key: ");
                let name: String = quote(key.key.as_str());
                report.append(name.as_str());
                report.append(" })");
                Err(TransferError::ExecutionError(report))
            },
        },
        RemoteKey::Disk(_) => Err(
            TransferError::IncompatibleTypes(
                "Expected Object key for object storage transfer".to_string(),
            ),
        ),
    }
}

/// An object-store transfer: the objects to register, and the error that ends the transfer once
/// they are, where a block is not an object.
#[derive(Debug)]
pub struct ObjectTransferPlan {
    pub targets: Vec<ObjectTarget>,
    pub refused: Option<TransferError>,
    pub op: XferOp,
}

/// Whether `targets` are the objects of the first blocks, in order.
pub open spec fn objects_of(blocks: Seq<DescriptorView>, targets: Seq<ObjectTarget>) -> bool {
    targets.len() <= blocks.len() && forall|i: int|
        0 <= i < targets.len() ==> object_of(blocks[i]) == Ok::<
            ObjectTargetView,
            TransferErrorView,
        >((#[trigger] targets[i])@)
}

/// Plans an object-store transfer: the objects in the order of the blocks, up to the first block
/// that is none.
pub fn plan_object_transfer(
    direction: RemoteTransferDirection,
    descriptors: &[RemoteBlockDescriptor],
) -> (plan: ObjectTransferPlan)
    ensures
        objects_of(remote::descriptor_views(descriptors@), plan.targets@),
        plan.op == op_of(direction),
        match plan.refused {
            None => plan.targets@.len() == descriptors@.len(),
            Some(error) => plan.targets@.len() < descriptors@.len() && object_of(
                remote::descriptor_views(descriptors@)[plan.targets@.len() as int],
            ) == Err::<ObjectTargetView, TransferErrorView>(error@),
        },
{
    let ghost blocks = remote::descriptor_views(descriptors@);
    let op: XferOp = xfer_op(direction);
    let mut targets: Vec<ObjectTarget> = Vec::new();
    let mut i: usize = 0;
    while i < descriptors.len()
        invariant
            i <= descriptors@.len(),
            blocks == remote::descriptor_views(descriptors@),
            targets@.len() == i,
            objects_of(blocks, targets@),
            op == op_of(direction),
        decreases descriptors@.len() - i,
    {
        assert(blocks[i as int] == descriptors@[i as int]@);
        match object_target(&descriptors[i]) {
            Ok(target) => {
                targets.push(target);
            },
            Err(error) => {
                return ObjectTransferPlan { targets, refused: Some(error), op };
            },
        }
        i = i + 1;
    }
    ObjectTransferPlan { targets, refused: None, op }
}

/// The keys of a sequence of objects.
pub open spec fn object_keys(targets: Seq<ObjectTarget>) -> Seq<u64> {
    targets.map_values(|target: ObjectTarget| target.key)
}

/// Lists the host buffers at `addrs` and the objects of an object-store transfer, pair by pair.
pub fn object_xfer_lists(addrs: &[usize], targets: &[ObjectTarget], block_size: usize) -> (lists:
    XferLists)
    ensures
        ({
            let n = shorter(addrs@.len(), targets@.len()) as int;
            &&& lists.local@ == host_regions(addrs@.subrange(0, n), block_size)
            &&& lists.remote@ == stored_regions(object_keys(targets@.subrange(0, n)), block_size)
        }),
{
    let n: usize = if addrs.len() <= targets.len() {
        addrs.len()
    } else {
        targets.len()
    };
    let mut local: Vec<XferDescriptor> = Vec::new();
    let mut remote: Vec<XferDescriptor> = Vec::new();
    let mut i: usize = 0;
    while i < n
        invariant
            i <= n,
            n == shorter(addrs@.len(), targets@.len()),
            local@ =~= host_regions(addrs@.subrange(0, i as int), block_size),
            remote@ =~= stored_regions(object_keys(targets@.subrange(0, i as int)), block_size),
        decreases n - i,
    {
        local.push(XferDescriptor { addr: addrs[i], size: block_size, device_id: 0 });
        remote.push(XferDescriptor { addr: 0, size: block_size, device_id: targets[i].key });
        i = i + 1;
    }
    XferLists { local, remote }
}

/// What a remote transfer does first.
#[derive(Debug, Clone, Copy, PartialEq, Eq, Structural)]
pub enum RemoteTransferStart {
    /// Nothing: there is no block to move.
    Done,
    /// The transfer runs on the storage of this kind.
    Run(RemoteStorageKind),
}

/// How a remote transfer of `remote` blocks to or from `local` buffers begins.
pub open spec fn start_of(
    kind: RemoteStorageKind,
    remote: nat,
    local: nat,
    cancelled: bool,
    has_agent: bool,
) -> Result<RemoteTransferStart, TransferErrorView> {
    if remote == 0 || local == 0 {
        Ok(RemoteTransferStart::Done)
    } else if remote != local {
        Err(TransferErrorView::CountMismatch(remote as usize, local as usize))
    } else if cancelled {
        Err(TransferErrorView::Cancelled)
    } else if !has_agent {
        Err(TransferErrorView::ExecutionError("NIXL agent not available"@))
    } else {
        Ok(RemoteTransferStart::Run(kind))
    }
}

/// Checks a remote transfer before it runs.
pub fn begin_remote_transfer(
    kind: RemoteStorageKind,
    descriptors: &[RemoteBlockDescriptor],
    local_blocks: usize,
    ctx: &RemoteTransferContext,
    cancelled: bool,
) -> (start: Result<RemoteTransferStart, TransferError>)
    ensures
        ({
            let expected = start_of(
                kind,
                descriptors@.len(),
                local_blocks as nat,
                cancelled,
                ctx@.base.nixl_agent is Some,
            );
            match start {
                Ok(start) => expected == Ok::<RemoteTransferStart, TransferErrorView>(start),
                Err(error) => expected == Err::<RemoteTransferStart, TransferErrorView>(error@),
            }
        }),
{
    let n: usize = descriptors.len();
    if n == 0 || local_blocks == 0 {
        return Ok(RemoteTransferStart::Done);
    }
    if n != local_blocks {
        return Err(TransferError::CountMismatch(n, local_blocks));
    }
    if cancelled {
        return Err(TransferError::Cancelled);
    }
    match ctx.nixl_agent() {
        Some(_) => Ok(RemoteTransferStart::Run(kind)),
        None => Err(TransferError::ExecutionError("NIXL agent not available".to_string())),
    }
}

/// What the storage reports of a posted transfer.
#[derive(Debug)]
pub enum XferStatus {
    Success,
    InProgress,
    Failed(String),
}

/// What happened while a posted transfer was awaited.
#[derive(Debug)]
pub enum WaitEvent {
    /// The end of the transfer was announced.
    Notified(Result<(), String>),
    /// The transfers were told to stop.
    Cancelled,
    /// The storage was asked.
    Polled(XferStatus),
}

/// The outcome that an event brings; none where the wait goes on.
pub open spec fn outcome_of(event: WaitEvent) -> Option<Result<(), TransferErrorView>> {
    match event {
        WaitEvent::Notified(Ok(_)) => Some(Ok(())),
        WaitEvent::Notified(Err(reason)) => Some(
            Err(TransferErrorView::ExecutionError(reason@)),
        ),
        WaitEvent::Cancelled => Some(Err(TransferErrorView::Cancelled)),
        WaitEvent::Polled(XferStatus::Success) => Some(Ok(())),
        WaitEvent::Polled(XferStatus::InProgress) => None,
        WaitEvent::Polled(XferStatus::Failed(reason)) => Some(
            Err(TransferErrorView::ExecutionError("Transfer status check failed: "@ + reason@)),
        ),
    }
}

/// Decides whether the wait for a posted transfer is over.
pub fn wait_step(event: WaitEvent) -> (outcome: Option<Result<(), TransferError>>)
    ensures
        match outcome {
            None => outcome_of(event) is None,
            Some(Ok(_)) => outcome_of(event) == Some(Ok::<(), TransferErrorView>(())),
            Some(Err(error)) => outcome_of(event) == Some(Err::<(), TransferErrorView>(error@)),
        },
{
    match event {
        WaitEvent::Notified(Ok(_)) => Some(Ok(())),
        WaitEvent::Notified(Err(reason)) => Some(Err(TransferError::ExecutionError(reason))),
        WaitEvent::Cancelled => Some(Err(TransferError::Cancelled)),
        WaitEvent::Polled(XferStatus::Success) => Some(Ok(())),
        WaitEvent::Polled(XferStatus::InProgress) => None,
        WaitEvent::Polled(XferStatus::Failed(reason)) => {
            let mut report: String = "Transfer status check failed: ".to_string();
            report.append(reason.as_str());
            Some(Err(TransferError::ExecutionError(report)))
        },
    }
}

/// Whether the poll of a local transfer ends with this status; a failure ends it too.
pub fn local_poll_is_over(status: &XferStatus) -> (over: bool)
    ensures
        over == !(status is InProgress),
{
    match status {
        XferStatus::InProgress => false,
        _ => true,
    }
}

/// An onboard reads the very files that an offload of the same blocks wrote: the files depend on
/// the blocks and the context alone.
pub proof fn onboard_reads_what_offload_wrote(
    blocks: Seq<DescriptorView>,
    ctx: RemoteContextParts,
    written: Seq<Seq<char>>,
    read: Seq<Seq<char>>,
)
    requires
        files_of(blocks, ctx, written),
        files_of(blocks, ctx, read),
    ensures
        read == written,
{
    assert forall|i: int| 0 <= i < blocks.len() implies read[i] == written[i] by {
        assert(file_of(blocks[i], ctx) == Ok::<Seq<char>, TransferErrorView>(read[i]));
    }
    assert(read =~= written);
}

/// Blocks with different hashes never share a file.
pub proof fn blocks_do_not_share_files(
    a: DescriptorView,
    b: DescriptorView,
    ctx: RemoteContextParts,
)
    requires
        file_of(a, ctx) is Ok,
        file_of(b, ctx) is Ok,
        a.sequence_hash != b.sequence_hash,
    ensures
        file_of(a, ctx) != file_of(b, ctx),
{
    let hash_a = a.sequence_hash->0;
    let hash_b = b.sequence_hash->0;
    let worker = ctx.worker_id as usize;
    let name_a = remote::file_name(hash_a, worker, ctx.world_size);
    let name_b = remote::file_name(hash_b, worker, ctx.world_size);
    if file_of(a, ctx) == file_of(b, ctx) {
        let directory_a = directory_of(ctx, a.key->Disk_path) + "/"@;
        let directory_b = directory_of(ctx, b.key->Disk_path) + "/"@;
        let path_a = directory_a + name_a;
        let path_b = directory_b + name_b;
        assert(file_of(a, ctx) == Ok::<Seq<char>, TransferErrorView>(path_a));
        assert(file_of(b, ctx) == Ok::<Seq<char>, TransferErrorView>(path_b));
        // The names differ in the digits of the hash only, so they are equally long.
        text::hex_digits_len(hash_a as nat, 16);
        text::hex_digits_len(hash_b as nat, 16);
        assert(name_a.len() == name_b.len());
        assert(path_a.subrange(directory_a.len() as int, path_a.len() as int) =~= name_a);
        assert(path_b.subrange(directory_b.len() as int, path_b.len() as int) =~= name_b);
        remote::file_names_are_distinct(
            hash_a,
            worker,
            ctx.world_size,
            hash_b,
            worker,
            ctx.world_size,
        );
    }
}

} // verus!
