//! The memory regions of local block copies.

use vstd::prelude::*;

use crate::nixl_transfer::{XferDescriptor, XferLists};

verus! {

/// The memory of a block.
#[derive(Debug)]
pub struct XferBlock {
    /// The whole block, where it is one region.
    pub whole: Option<XferDescriptor>,
    /// The regions of the block, layer by layer.
    pub layers: Vec<Vec<XferDescriptor>>,
}

/// The mathematical value of an [`XferBlock`].
#[verifier::ext_equal]
pub struct XferBlockView {
    pub whole: Option<XferDescriptor>,
    pub layers: Seq<Seq<XferDescriptor>>,
}

impl View for XferBlock {
    type V = XferBlockView;

    open spec fn view(&self) -> XferBlockView {
        XferBlockView {
            whole: self.whole,
            layers: self.layers@.map_values(|layer: Vec<XferDescriptor>| layer@),
        }
    }
}

/// The views of a sequence of blocks.
pub open spec fn block_views(blocks: Seq<XferBlock>) -> Seq<XferBlockView> {
    blocks.map_values(|block: XferBlock| block@)
}

/// A region that the destination lacks.
#[derive(Debug, Clone, Copy, PartialEq, Eq, Structural)]
pub struct MissingRegion {
    pub layer: usize,
    pub index: usize,
}

/// Whether two blocks can be copied into each other region by region.
pub open spec fn same_layers(src: XferBlockView, dst: XferBlockView) -> bool {
    (src.whole is Some && dst.whole is Some) || src.layers.len() == dst.layers.len()
}

/// The regions of the first `n` layers, one after the other.
pub open spec fn flattened(layers: Seq<Seq<XferDescriptor>>, n: nat) -> Seq<XferDescriptor>
    decreases n,
{
    if n == 0 {
        Seq::empty()
    } else {
        flattened(layers, (n - 1) as nat) + layers[n - 1]
    }
}

/// The regions of the first `n` layers of a destination that take up the regions of the source.
pub open spec fn matched(
    src: Seq<Seq<XferDescriptor>>,
    dst: Seq<Seq<XferDescriptor>>,
    n: nat,
) -> Seq<XferDescriptor>
    decreases n,
{
    if n == 0 {
        Seq::empty()
    } else {
        matched(src, dst, (n - 1) as nat) + dst[n - 1].subrange(0, src[n - 1].len() as int)
    }
}

/// Whether the destination has a region for every region of the first `n` layers of the source.
pub open spec fn has_room(
    src: Seq<Seq<XferDescriptor>>,
    dst: Seq<Seq<XferDescriptor>>,
    n: nat,
) -> bool {
    forall|i: int| 0 <= i < n ==> (#[trigger] src[i]).len() <= dst[i].len()
}

/// Whether `missing` is the first region of the source that the destination lacks.
pub open spec fn is_first_missing(
    src: Seq<Seq<XferDescriptor>>,
    dst: Seq<Seq<XferDescriptor>>,
    missing: MissingRegion,
) -> bool {
    &&& missing.layer < src.len()
    &&& has_room(src, dst, missing.layer as nat)
    &&& dst[missing.layer as int].len() < src[missing.layer as int].len()
    &&& missing.index == dst[missing.layer as int].len()
}

/// The regions of a copy of one block, source and destination, where it is possible.
pub open spec fn regions_of(src: XferBlockView, dst: XferBlockView) -> (
    Seq<XferDescriptor>,
    Seq<XferDescriptor>,
) {
    if src.whole is Some && dst.whole is Some {
        (seq![src.whole->0], seq![dst.whole->0])
    } else {
        (flattened(src.layers, src.layers.len()), matched(src.layers, dst.layers, src.layers.len()))
    }
}

/// Whether a copy of one block is possible.
pub open spec fn can_copy(src: XferBlockView, dst: XferBlockView) -> bool {
    (src.whole is Some && dst.whole is Some) || has_room(src.layers, dst.layers, src.layers.len())
}

/// Adds the regions of a copy of one block to the lists: one region where both blocks are in one
/// piece, and else the regions of every layer, pair by pair.
pub fn append_xfer_request(src: &XferBlock, dst: &XferBlock, lists: &mut XferLists) -> (added:
    Result<(), MissingRegion>)
    requires
        same_layers(src@, dst@),
    ensures
        match added {
            Ok(_) => {
                &&& can_copy(src@, dst@)
                &&& final(lists).local@ == old(lists).local@ + regions_of(src@, dst@).0
                &&& final(lists).remote@ == old(lists).remote@ + regions_of(src@, dst@).1
            },
            Err(missing) => {
                &&& !can_copy(src@, dst@)
                &&& is_first_missing(src@.layers, dst@.layers, missing)
                &&& final(lists).local@ == old(lists).local@ + flattened(
                    src@.layers,
                    missing.layer as nat,
                ) + src@.layers[missing.layer as int].subrange(0, missing.index as int)
                &&& final(lists).remote@ == old(lists).remote@ + matched(
                    src@.layers,
                    dst@.layers,
                    missing.layer as nat,
                ) + dst@.layers[missing.layer as int]
            },
        },
{
    match src.whole {
        Some(from) => match dst.whole {
            Some(to) => {
                lists.local.push(from);
                lists.remote.push(to);
                assert(lists.local@ =~= old(lists).local@ + regions_of(src@, dst@).0);
                assert(lists.remote@ =~= old(lists).remote@ + regions_of(src@, dst@).1);
                return Ok(());
            },
            None => {},
        },
        None => {},
    }
    let ghost from = src@.layers;
    let ghost to = dst@.layers;
    let n: usize = src.layers.len();
    let mut layer: usize = 0;
    while layer < n
        invariant
            layer <= n,
            n == src.layers@.len(),
            n == dst.layers@.len(),
            from == src@.layers,
            to == dst@.layers,
            !(src.whole is Some && dst.whole is Some),
            has_room(from, to, layer as nat),
            lists.local@ =~= old(lists).local@ + flattened(from, layer as nat),
            lists.remote@ =~= old(lists).remote@ + matched(from, to, layer as nat),
        decreases n - layer,
    {
        let sources: &Vec<XferDescriptor> = &src.layers[layer];
        let targets: &Vec<XferDescriptor> = &dst.layers[layer];
        assert(from[layer as int] == sources@);
        assert(to[layer as int] == targets@);
        let mut index: usize = 0;
        while index < sources.len()
            invariant
                index <= sources@.len(),
                index <= targets@.len(),
                layer < n,
                n == src.layers@.len(),
                n == dst.layers@.len(),
                from == src@.layers,
                to == dst@.layers,
                !(src.whole is Some && dst.whole is Some),
                from[layer as int] == sources@,
                to[layer as int] == targets@,
                has_room(from, to, layer as nat),
                lists.local@ =~= old(lists).local@ + flattened(from, layer as nat)
                    + sources@.subrange(0, index as int),
                lists.remote@ =~= old(lists).remote@ + matched(from, to, layer as nat)
                    + targets@.subrange(0, index as int),
            decreases sources@.len() - index,
        {
            if index >= targets.len() {
                assert(!has_room(from, to, from.len())) by {
                    assert(from[layer as int].len() > to[layer as int].len());
                }
                assert(targets@.subrange(0, index as int) =~= targets@);
                return Err(MissingRegion { layer, index });
            }
            lists.local.push(sources[index]);
            lists.remote.push(targets[index]);
            index = index + 1;
        }
        assert(sources@.subrange(0, index as int) =~= sources@);
        assert(flattened(from, (layer + 1) as nat) =~= flattened(from, layer as nat) + sources@);
        assert(matched(from, to, (layer + 1) as nat) =~= matched(from, to, layer as nat)
            + targets@.subrange(0, index as int));
        layer = layer + 1;
    }
    Ok(())
}

/// The source regions of the copies of the first `n` blocks.
pub open spec fn all_sources(src: Seq<XferBlockView>, dst: Seq<XferBlockView>, n: nat) -> Seq<
    XferDescriptor,
>
    decreases n,
{
    if n == 0 {
        Seq::empty()
    } else {
        all_sources(src, dst, (n - 1) as nat) + regions_of(src[n - 1], dst[n - 1]).0
    }
}

/// The destination regions of the copies of the first `n` blocks.
pub open spec fn all_targets(src: Seq<XferBlockView>, dst: Seq<XferBlockView>, n: nat) -> Seq<
    XferDescriptor,
>
    decreases n,
{
    if n == 0 {
        Seq::empty()
    } else {
        all_targets(src, dst, (n - 1) as nat) + regions_of(src[n - 1], dst[n - 1]).1
    }
}

/// Whether the copy of the block at `i` is the first one that is impossible.
pub open spec fn is_first_impossible(
    src: Seq<XferBlockView>,
    dst: Seq<XferBlockView>,
    i: int,
) -> bool {
    &&& 0 <= i < src.len()
    &&& !can_copy(src[i], dst[i])
    &&& forall|j: int| 0 <= j < i ==> can_copy(#[trigger] src[j], dst[j])
}

/// Lists the regions of a copy of blocks, block by block; nothing where there is no block.
pub fn write_blocks_to(src: &[XferBlock], dst: &[XferBlock]) -> (lists: Result<
    Option<XferLists>,
    MissingRegion,
>)
    requires
        src@.len() > 0 && dst@.len() > 0 ==> src@.len() == dst@.len() && forall|i: int|
            0 <= i < src@.len() ==> same_layers((#[trigger] src@[i])@, dst@[i]@),
    ensures
        ({
            let from = block_views(src@);
            let to = block_views(dst@);
            if src@.len() == 0 || dst@.len() == 0 {
                lists matches Ok(None)
            } else {
                match lists {
                    Ok(Some(lists)) => {
                        &&& forall|i: int|
                            0 <= i < from.len() ==> can_copy(#[trigger] from[i], to[i])
                        &&& lists.local@ == all_sources(from, to, from.len())
                        &&& lists.remote@ == all_targets(from, to, from.len())
                    },
                    Ok(None) => false,
                    Err(missing) => exists|i: int| #[trigger]
                        is_first_impossible(from, to, i) && is_first_missing(
                            from[i].layers,
                            to[i].layers,
                            missing,
                        ),
                }
            }
        }),
{
    if src.len() == 0 || dst.len() == 0 {
        return Ok(None);
    }
    let ghost from = block_views(src@);
    let ghost to = block_views(dst@);
    let mut lists = XferLists { local: Vec::new(), remote: Vec::new() };
    let mut i: usize = 0;
    while i < src.len()
        invariant
            i <= src@.len(),
            src@.len() == dst@.len(),
            src@.len() > 0,
            from == block_views(src@),
            to == block_views(dst@),
            forall|j: int| 0 <= j < src@.len() ==> same_layers((#[trigger] src@[j])@, dst@[j]@),
            forall|j: int| 0 <= j < i ==> can_copy(#[trigger] from[j], to[j]),
            lists.local@ =~= all_sources(from, to, i as nat),
            lists.remote@ =~= all_targets(from, to, i as nat),
        decreases src@.len() - i,
    {
        assert(from[i as int] == src@[i as int]@);
        assert(to[i as int] == dst@[i as int]@);
        match append_xfer_request(&src[i], &dst[i], &mut lists) {
            Ok(_) => {},
            Err(missing) => {
                assert(is_first_impossible(from, to, i as int));
                return Err(missing);
            },
        }
        i = i + 1;
    }
    Ok(Some(lists))
}

/// The lists of a copy pair every source region with a destination region.
pub proof fn regions_come_in_pairs(src: Seq<XferBlockView>, dst: Seq<XferBlockView>, n: nat)
    requires
        n <= src.len(),
        src.len() == dst.len(),
        forall|i: int| 0 <= i < n ==> can_copy(#[trigger] src[i], dst[i]),
    ensures
        all_sources(src, dst, n).len() == all_targets(src, dst, n).len(),
    decreases n,
{
    if n > 0 {
        regions_come_in_pairs(src, dst, (n - 1) as nat);
        assert(can_copy(src[n - 1], dst[n - 1]));
        layers_come_in_pairs(src[n - 1].layers, dst[n - 1].layers, src[n - 1].layers.len());
    }
}

proof fn layers_come_in_pairs(
    src: Seq<Seq<XferDescriptor>>,
    dst: Seq<Seq<XferDescriptor>>,
    n: nat,
)
    requires
        n <= src.len(),
    ensures
        has_room(src, dst, n) ==> flattened(src, n).len() == matched(src, dst, n).len(),
    decreases n,
{
    if n > 0 && has_room(src, dst, n) {
        assert(has_room(src, dst, (n - 1) as nat));
        layers_come_in_pairs(src, dst, (n - 1) as nat);
        assert(src[n - 1].len() <= dst[n - 1].len());
    }
}

} // verus!
