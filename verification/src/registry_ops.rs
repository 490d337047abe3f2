//! Lookup and registration of blocks for all tensor-parallel ranks.

use vstd::prelude::*;

use crate::config::{self, fill_worker_id_exec, RemoteStorageConfig};
use crate::offload_planner;
use crate::protocol::SequenceHash;
use crate::remote::{
    self, file_name_string, object_name_string, DiskKey, ObjectKey, RemoteKey, RemoteKeyView,
};

verus! {

/// Names a block of one rank at a place in its sequence.
#[derive(Debug, Clone, Copy, PartialEq, Eq, Structural)]
pub struct PositionalKey {
    pub worker_id: u64,
    pub sequence_hash: SequenceHash,
    pub position: u32,
}

/// What a lookup asks the registry.
#[derive(Debug)]
pub enum RegistryQuery {
    /// Nothing: the answer is that nothing matches.
    Nothing,
    /// The longest prefix of `hashes` that the only rank has.
    Lookup(Vec<SequenceHash>),
    /// Which of these keys are registered.
    MatchPrefix(Vec<PositionalKey>),
}

/// The keys of `hashes` for every rank, rank by rank.
pub open spec fn positional_keys(hashes: Seq<SequenceHash>, world_size: nat) -> Seq<PositionalKey>
    decreases world_size,
{
    if world_size == 0 {
        Seq::empty()
    } else {
        positional_keys(hashes, (world_size - 1) as nat) + Seq::new(
            hashes.len(),
            |i: int|
                PositionalKey {
                    worker_id: (world_size - 1) as u64,
                    sequence_hash: hashes[i],
                    position: i as u32,
                },
        )
    }
}

fn positional_keys_exec(hashes: &[SequenceHash], world_size: usize) -> (keys: Vec<PositionalKey>)
    ensures
        keys@ == positional_keys(hashes@, world_size as nat),
{
    let mut keys: Vec<PositionalKey> = Vec::new();
    let mut wid: usize = 0;
    while wid < world_size
        invariant
            wid <= world_size,
            keys@ == positional_keys(hashes@, wid as nat),
        decreases world_size - wid,
    {
        let ghost before = keys@;
        let ghost row = Seq::new(
            hashes@.len(),
            |i: int|
                PositionalKey {
                    worker_id: wid as u64,
                    sequence_hash: hashes@[i],
                    position: i as u32,
                },
        );
        let mut pos: usize = 0;
        while pos < hashes.len()
            invariant
                pos <= hashes@.len(),
                row == Seq::new(
                    hashes@.len(),
                    |i: int|
                        PositionalKey {
                            worker_id: wid as u64,
                            sequence_hash: hashes@[i],
                            position: i as u32,
                        },
                ),
                keys@ =~= before + row.subrange(0, pos as int),
            decreases hashes@.len() - pos,
        {
            keys.push(
                PositionalKey {
                    worker_id: wid as u64,
                    sequence_hash: hashes[pos],
                    position: pos as u32,
                },
            );
            pos = pos + 1;
        }
        assert(row.subrange(0, hashes@.len() as int) =~= row);
        wid = wid + 1;
        assert(keys@ =~= positional_keys(hashes@, wid as nat));
    }
    keys
}

/// Decides what a lookup of `hashes` for `world_size` ranks asks the registry.
pub fn match_prefix_tp_query(hashes: &[SequenceHash], world_size: usize) -> (query: RegistryQuery)
    ensures
        match query {
            RegistryQuery::Nothing => hashes@.len() == 0 || world_size == 0,
            RegistryQuery::Lookup(asked) => hashes@.len() > 0 && world_size == 1 && asked@
                == hashes@,
            RegistryQuery::MatchPrefix(keys) => hashes@.len() > 0 && world_size > 1 && keys@
                == positional_keys(hashes@, world_size as nat),
        },
{
    if hashes.len() == 0 || world_size == 0 {
        return RegistryQuery::Nothing;
    }
    if world_size == 1 {
        let mut asked: Vec<SequenceHash> = Vec::new();
        asked.extend_from_slice(hashes);
        assert(asked@ =~= hashes@);
        return RegistryQuery::Lookup(asked);
    }
    RegistryQuery::MatchPrefix(positional_keys_exec(hashes, world_size))
}

/// The hashes that the registry matched for one rank, in the order of the answer.
pub open spec fn hashes_of_worker(matches: Seq<PositionalKey>, worker: nat) -> Seq<SequenceHash>
    decreases matches.len(),
{
    if matches.len() == 0 {
        Seq::empty()
    } else {
        let head = hashes_of_worker(matches.drop_last(), worker);
        if matches.last().worker_id == worker {
            head.push(matches.last().sequence_hash)
        } else {
            head
        }
    }
}

/// The views of the hashes of several ranks.
pub open spec fn rows(results: Seq<Vec<SequenceHash>>) -> Seq<Seq<SequenceHash>> {
    results.map_values(|row: Vec<SequenceHash>| row@)
}

fn group_by_worker(matches: &[PositionalKey], world_size: usize) -> (results: Vec<
    Vec<SequenceHash>,
>)
    ensures
        rows(results@) == Seq::new(
            world_size as nat,
            |w: int| hashes_of_worker(matches@, w as nat),
        ),
{
    let mut results: Vec<Vec<SequenceHash>> = Vec::new();
    let mut wid: usize = 0;
    while wid < world_size
        invariant
            wid <= world_size,
            results@.len() == wid,
            forall|w: int|
                0 <= w < wid ==> (#[trigger] results@[w])@ == hashes_of_worker(matches@, w as nat),
        decreases world_size - wid,
    {
        let mut row: Vec<SequenceHash> = Vec::new();
        let mut i: usize = 0;
        assert(matches@.subrange(0, 0) =~= Seq::<PositionalKey>::empty());
        while i < matches.len()
            invariant
                i <= matches@.len(),
                row@ == hashes_of_worker(matches@.subrange(0, i as int), wid as nat),
            decreases matches@.len() - i,
        {
            let ghost upto = matches@.subrange(0, i + 1);
            assert(upto.drop_last() =~= matches@.subrange(0, i as int));
            if matches[i].worker_id == wid as u64 {
                row.push(matches[i].sequence_hash);
            }
            i = i + 1;
        }
        assert(matches@.subrange(0, matches@.len() as int) =~= matches@);
        results.push(row);
        wid = wid + 1;
    }
    assert(rows(results@) =~= Seq::new(
        world_size as nat,
        |w: int| hashes_of_worker(matches@, w as nat),
    ));
    results
}

/// Whether all ranks agree on their first `n` hashes.
pub open spec fn agree_on(results: Seq<Seq<SequenceHash>>, n: nat) -> bool {
    forall|w: int|
        0 <= w < results.len() ==> {
            &&& n <= (#[trigger] results[w]).len()
            &&& results[w].subrange(0, n as int) == results[0].subrange(0, n as int)
        }
}

/// Whether `prefix` is the longest prefix that all ranks have in common.
pub open spec fn is_longest_common_prefix(
    results: Seq<Seq<SequenceHash>>,
    prefix: Seq<SequenceHash>,
) -> bool {
    if results.len() == 0 {
        prefix.len() == 0
    } else {
        &&& agree_on(results, prefix.len())
        &&& prefix == results[0].subrange(0, prefix.len() as int)
        &&& !agree_on(results, prefix.len() + 1)
    }
}

proof fn agreement_shrinks(results: Seq<Seq<SequenceHash>>, n: nat, m: nat)
    requires
        agree_on(results, n),
        m <= n,
    ensures
        agree_on(results, m),
{
    assert forall|w: int| 0 <= w < results.len() implies {
        &&& m <= (#[trigger] results[w]).len()
        &&& results[w].subrange(0, m as int) == results[0].subrange(0, m as int)
    } by {
        let long = results[w].subrange(0, n as int);
        let first = results[0].subrange(0, n as int);
        assert(long.subrange(0, m as int) =~= results[w].subrange(0, m as int));
        assert(first.subrange(0, m as int) =~= results[0].subrange(0, m as int));
    }
}

/// The longest prefix that all ranks have in common.
pub fn find_common_prefix(results: &[Vec<SequenceHash>]) -> (common: Vec<SequenceHash>)
    ensures
        is_longest_common_prefix(rows(results@), common@),
{
    let ghost all = rows(results@);
    let mut common: Vec<SequenceHash> = Vec::new();
    if results.len() == 0 {
        return common;
    }
    assert(agree_on(all, 0)) by {
        assert forall|w: int| 0 <= w < all.len() implies (#[trigger] all[w]).subrange(0, 0)
            == all[0].subrange(0, 0) by {
            assert(all[w].subrange(0, 0) =~= all[0].subrange(0, 0));
        }
    }
    assert(common@ =~= all[0].subrange(0, 0));
    loop
        invariant
            results@.len() > 0,
            all == rows(results@),
            common@.len() <= all[0].len(),
            agree_on(all, common@.len()),
            common@ == all[0].subrange(0, common@.len() as int),
        ensures
            is_longest_common_prefix(all, common@),
        decreases all[0].len() - common@.len(),
    {
        let n: usize = common.len();
        if n >= results[0].len() {
            assert(!(n + 1 <= all[0].len()));
            break;
        }
        let hash: SequenceHash = results[0][n];
        let mut w: usize = 1;
        let mut same: bool = true;
        while w < results.len() && same
            invariant
                1 <= w <= results@.len(),
                results@.len() > 0,
                all == rows(results@),
                n < all[0].len(),
                hash == all[0][n as int],
                agree_on(all, n as nat),
                same ==> forall|v: int|
                    0 <= v < w ==> n < (#[trigger] all[v]).len() && all[v][n as int] == hash,
                !same ==> !agree_on(all, (n + 1) as nat),
            decreases results@.len() - w + if same {
                1int
            } else {
                0
            },
        {
            assert(all[w as int] == results@[w as int]@);
            if n < results[w].len() && results[w][n] == hash {
                w = w + 1;
            } else {
                proof {
                    if agree_on(all, (n + 1) as nat) {
                        let mine = all[w as int].subrange(0, n + 1);
                        let first = all[0].subrange(0, n + 1);
                        assert(n + 1 <= all[w as int].len());
                        assert(mine == first);
                        assert(mine[n as int] == all[w as int][n as int]);
                        assert(first[n as int] == all[0][n as int]);
                    }
                }
                same = false;
            }
        }
        if !same {
            break;
        }
        proof {
            assert forall|v: int| 0 <= v < all.len() implies {
                &&& n + 1 <= (#[trigger] all[v]).len()
                &&& all[v].subrange(0, n + 1) == all[0].subrange(0, n + 1)
            } by {
                assert(all[v].subrange(0, n as int) == all[0].subrange(0, n as int));
                assert(all[v].subrange(0, n + 1) =~= all[v].subrange(0, n as int).push(
                    all[v][n as int],
                ));
                assert(all[0].subrange(0, n + 1) =~= all[0].subrange(0, n as int).push(
                    all[0][n as int],
                ));
            }
        }
        common.push(hash);
        assert(common@ =~= all[0].subrange(0, n + 1));
    }
    common
}

/// Evaluates the registry's answer to a lookup. `looked_up` answers a lookup for one rank,
/// `matches` a query over several. Only what every rank has is a match.
pub fn match_prefix_tp_blocking(
    hashes: &[SequenceHash],
    world_size: usize,
    looked_up: &[SequenceHash],
    matches: &[PositionalKey],
) -> (matched: Vec<SequenceHash>)
    ensures
        if hashes@.len() == 0 || world_size == 0 {
            matched@.len() == 0
        } else if world_size == 1 {
            matched@ == looked_up@
        } else {
            is_longest_common_prefix(
                Seq::new(world_size as nat, |w: int| hashes_of_worker(matches@, w as nat)),
                matched@,
            )
        },
{
    let mut matched: Vec<SequenceHash> = Vec::new();
    if hashes.len() == 0 || world_size == 0 {
        return matched;
    }
    if world_size == 1 {
        matched.extend_from_slice(looked_up);
        assert(matched@ =~= looked_up@);
        return matched;
    }
    let per_worker: Vec<Vec<SequenceHash>> = group_by_worker(matches, world_size);
    find_common_prefix(per_worker.as_slice())
}

/// What a match means: every rank reported the matched hashes, first and in this order.
pub proof fn consensus_is_held_by_every_rank(
    results: Seq<Seq<SequenceHash>>,
    prefix: Seq<SequenceHash>,
    w: int,
)
    requires
        is_longest_common_prefix(results, prefix),
        0 <= w < results.len(),
    ensures
        prefix.len() <= results[w].len(),
        prefix == results[w].subrange(0, prefix.len() as int),
{
}

/// No longer prefix is common to all ranks.
pub proof fn consensus_is_maximal(
    results: Seq<Seq<SequenceHash>>,
    prefix: Seq<SequenceHash>,
    n: nat,
)
    requires
        is_longest_common_prefix(results, prefix),
        results.len() > 0,
        n > prefix.len(),
    ensures
        !agree_on(results, n),
{
    if agree_on(results, n) {
        agreement_shrinks(results, n, prefix.len() + 1);
    }
}

proof fn hashes_of_appended(a: Seq<PositionalKey>, b: Seq<PositionalKey>, worker: nat)
    ensures
        hashes_of_worker(a + b, worker) == hashes_of_worker(a, worker) + hashes_of_worker(
            b,
            worker,
        ),
    decreases b.len(),
{
    if b.len() == 0 {
        assert(a + b =~= a);
    } else {
        assert((a + b).drop_last() =~= a + b.drop_last());
        hashes_of_appended(a, b.drop_last(), worker);
    }
    assert(hashes_of_worker(a + b, worker) =~= hashes_of_worker(a, worker) + hashes_of_worker(
        b,
        worker,
    ));
}

proof fn hashes_of_row(row: Seq<PositionalKey>, id: u64, worker: nat)
    requires
        forall|i: int| 0 <= i < row.len() ==> (#[trigger] row[i]).worker_id == id,
    ensures
        hashes_of_worker(row, worker) == if id == worker {
            row.map_values(|key: PositionalKey| key.sequence_hash)
        } else {
            Seq::empty()
        },
    decreases row.len(),
{
    let hash = |key: PositionalKey| key.sequence_hash;
    if row.len() > 0 {
        assert(row.last().worker_id == id);
        hashes_of_row(row.drop_last(), id, worker);
        assert(row.map_values(hash) =~= row.drop_last().map_values(hash).push(hash(row.last())));
    } else {
        assert(row.map_values(hash) =~= Seq::empty());
    }
}

proof fn keys_hold_hashes(hashes: Seq<SequenceHash>, world_size: nat, worker: nat)
    requires
        world_size <= u64::MAX,
    ensures
        hashes_of_worker(positional_keys(hashes, world_size), worker) == if worker < world_size {
            hashes
        } else {
            Seq::empty()
        },
    decreases world_size,
{
    if world_size > 0 {
        let last = (world_size - 1) as u64;
        let row = Seq::new(
            hashes.len(),
            |i: int|
                PositionalKey { worker_id: last, sequence_hash: hashes[i], position: i as u32 },
        );
        let head = positional_keys(hashes, (world_size - 1) as nat);
        assert(positional_keys(hashes, world_size) =~= head + row);
        keys_hold_hashes(hashes, (world_size - 1) as nat, worker);
        hashes_of_appended(head, row, worker);
        hashes_of_row(row, last, worker);
        assert(row.map_values(|key: PositionalKey| key.sequence_hash) =~= hashes);
        assert(hashes_of_worker(positional_keys(hashes, world_size), worker) =~= if worker
            < world_size {
            hashes
        } else {
            Seq::empty()
        });
    }
}

/// Where the registry has every key that a lookup asks for, the lookup matches every hash.
pub proof fn full_registry_matches_everything(
    hashes: Seq<SequenceHash>,
    world_size: usize,
    matched: Seq<SequenceHash>,
)
    requires
        world_size > 0,
        is_longest_common_prefix(
            Seq::new(
                world_size as nat,
                |w: int|
                    hashes_of_worker(positional_keys(hashes, world_size as nat), w as nat),
            ),
            matched,
        ),
    ensures
        matched == hashes,
{
    let keys = positional_keys(hashes, world_size as nat);
    let results = Seq::new(world_size as nat, |w: int| hashes_of_worker(keys, w as nat));
    assert forall|w: int| 0 <= w < results.len() implies #[trigger] results[w] == hashes by {
        keys_hold_hashes(hashes, world_size as nat, w as nat);
    }
    assert(results[0] == hashes);
    assert(agree_on(results, hashes.len()));
    if matched.len() < hashes.len() {
        consensus_is_maximal(results, matched, hashes.len());
    }
    assert(hashes.subrange(0, hashes.len() as int) =~= hashes);
}

/// A registry entry: hash, position and the name under which the block is stored.
pub type RegistryEntry = (SequenceHash, u32, RemoteKey);

/// The mathematical value of a [`RegistryEntry`].
pub type RegistryEntryView = (SequenceHash, u32, RemoteKeyView);

/// The views of a sequence of entries.
pub open spec fn entry_views(entries: Seq<RegistryEntry>) -> Seq<RegistryEntryView> {
    entries.map_values(|entry: RegistryEntry| (entry.0, entry.1, entry.2@))
}

/// The name under which rank `worker_id` stores the block `hash`.
pub open spec fn stored_name(
    hash: SequenceHash,
    storage: RemoteStorageConfig,
    worker_id: usize,
    world_size: usize,
) -> RemoteKeyView {
    match storage {
        RemoteStorageConfig::Object { .. } => RemoteKeyView::Object {
            bucket: match storage.bucket_of(worker_id) {
                Some(bucket) => bucket,
                None => offload_planner::default_bucket(),
            },
            key: remote::object_name(hash),
        },
        RemoteStorageConfig::Disk { base_path, .. } => RemoteKeyView::Disk {
            path: config::fill_worker_id(base_path@, worker_id),
            key: remote::file_name(hash, worker_id, world_size),
        },
    }
}

/// The entries of one rank, in order.
pub open spec fn entries_for(
    blocks: Seq<(SequenceHash, u32)>,
    storage: RemoteStorageConfig,
    worker_id: usize,
    world_size: usize,
) -> Seq<RegistryEntryView> {
    Seq::new(
        blocks.len(),
        |i: int|
            (blocks[i].0, blocks[i].1, stored_name(blocks[i].0, storage, worker_id, world_size)),
    )
}

/// The registry entries of one rank.
pub fn build_entries(
    hashes_with_positions: &[(SequenceHash, u32)],
    storage_config: &RemoteStorageConfig,
    worker_id: usize,
    world_size: usize,
) -> (entries: Vec<RegistryEntry>)
    ensures
        entry_views(entries@) == entries_for(
            hashes_with_positions@,
            *storage_config,
            worker_id,
            world_size,
        ),
{
    let location: String = match storage_config {
        RemoteStorageConfig::Object { .. } => match storage_config.resolve_bucket(worker_id) {
            Some(bucket) => bucket,
            None => "dynamo-kv-cache".to_string(),
        },
        RemoteStorageConfig::Disk { base_path, .. } => fill_worker_id_exec(
            base_path.as_str(),
            worker_id,
        ),
    };
    let ghost all = entries_for(hashes_with_positions@, *storage_config, worker_id, world_size);
    let mut entries: Vec<RegistryEntry> = Vec::new();
    let mut i: usize = 0;
    while i < hashes_with_positions.len()
        invariant
            i <= hashes_with_positions@.len(),
            all == entries_for(hashes_with_positions@, *storage_config, worker_id, world_size),
            location@ == match *storage_config {
                RemoteStorageConfig::Object { .. } => match storage_config.bucket_of(worker_id) {
                    Some(bucket) => bucket,
                    None => offload_planner::default_bucket(),
                },
                RemoteStorageConfig::Disk { base_path, .. } => config::fill_worker_id(
                    base_path@,
                    worker_id,
                ),
            },
            entry_views(entries@) =~= all.subrange(0, i as int),
        decreases hashes_with_positions@.len() - i,
    {
        let ghost before = entry_views(entries@);
        let hash: SequenceHash = hashes_with_positions[i].0;
        let pos: u32 = hashes_with_positions[i].1;
        let key: RemoteKey = match storage_config {
            RemoteStorageConfig::Object { .. } => RemoteKey::Object(
                ObjectKey { bucket: location.clone(), key: object_name_string(hash) },
            ),
            RemoteStorageConfig::Disk { .. } => RemoteKey::Disk(
                DiskKey {
                    path: location.clone(),
                    key: file_name_string(hash, worker_id, world_size),
                },
            ),
        };
        assert(key@ =~= stored_name(hash, *storage_config, worker_id, world_size));
        let ghost view = key@;
        entries.push((hash, pos, key));
        assert(entry_views(entries@) =~= before.push((hash, pos, view)));
        i = i + 1;
    }
    assert(all.subrange(0, hashes_with_positions@.len() as int) =~= all);
    entries
}

/// The entries to register, rank by rank; nothing where there is no block or no rank.
pub fn register_tp(
    hashes_with_positions: &[(SequenceHash, u32)],
    storage_config: &RemoteStorageConfig,
    world_size: usize,
) -> (batches: Vec<Vec<RegistryEntry>>)
    ensures
        batches@.len() == if hashes_with_positions@.len() == 0 {
            0
        } else {
            world_size as nat
        },
        forall|w: int|
            0 <= w < batches@.len() ==> entry_views((#[trigger] batches@[w])@) == entries_for(
                hashes_with_positions@,
                *storage_config,
                w as usize,
                world_size,
            ),
{
    let mut batches: Vec<Vec<RegistryEntry>> = Vec::new();
    if hashes_with_positions.len() == 0 || world_size == 0 {
        return batches;
    }
    let mut worker_id: usize = 0;
    while worker_id < world_size
        invariant
            worker_id <= world_size,
            batches@.len() == worker_id,
            forall|w: int|
                0 <= w < batches@.len() ==> entry_views((#[trigger] batches@[w])@) == entries_for(
                    hashes_with_positions@,
                    *storage_config,
                    w as usize,
                    world_size,
                ),
        decreases world_size - worker_id,
    {
        batches.push(build_entries(hashes_with_positions, storage_config, worker_id, world_size));
        worker_id = worker_id + 1;
    }
    batches
}

/// A lookup asks for every hash on every rank, rank by rank, each at its place.
pub proof fn every_rank_is_asked_for_every_hash(
    hashes: Seq<SequenceHash>,
    world_size: nat,
    worker: nat,
    i: int,
)
    requires
        world_size <= u64::MAX,
        hashes.len() <= u32::MAX,
        worker < world_size,
        0 <= i < hashes.len(),
    ensures
        positional_keys(hashes, world_size).len() == world_size * hashes.len(),
        0 <= worker * hashes.len() + i < world_size * hashes.len(),
        positional_keys(hashes, world_size)[worker * hashes.len() + i].worker_id == worker,
        positional_keys(hashes, world_size)[worker * hashes.len() + i].sequence_hash == hashes[i],
        positional_keys(hashes, world_size)[worker * hashes.len() + i].position == i,
    decreases world_size,
{
    let m = (world_size - 1) as nat;
    let n = hashes.len();
    keys_are_counted(hashes, world_size);
    keys_are_counted(hashes, m);
    assert(world_size * n == m * n + n) by (nonlinear_arith)
        requires
            world_size == m + 1,
    ;
    assert(worker * n + i >= 0) by (nonlinear_arith)
        requires
            i >= 0,
    ;
    if worker < m {
        every_rank_is_asked_for_every_hash(hashes, m, worker, i);
    }
}

proof fn keys_are_counted(hashes: Seq<SequenceHash>, world_size: nat)
    ensures
        positional_keys(hashes, world_size).len() == world_size * hashes.len(),
    decreases world_size,
{
    if world_size > 0 {
        let m = (world_size - 1) as nat;
        keys_are_counted(hashes, m);
        assert(world_size * hashes.len() == m * hashes.len() + hashes.len()) by (nonlinear_arith)
            requires
                world_size == m + 1,
        ;
    } else {
        assert(world_size * hashes.len() == 0) by (nonlinear_arith)
            requires
                world_size == 0,
        ;
    }
}

/// A match counts for the rank that it names, in the order of the answer, and for no other.
pub proof fn matches_count_for_their_rank(
    matches: Seq<PositionalKey>,
    key: PositionalKey,
    worker: nat,
)
    ensures
        hashes_of_worker(Seq::empty(), worker).len() == 0,
        key.worker_id == worker ==> hashes_of_worker(matches.push(key), worker)
            == hashes_of_worker(matches, worker).push(key.sequence_hash),
        key.worker_id != worker ==> hashes_of_worker(matches.push(key), worker)
            == hashes_of_worker(matches, worker),
{
    assert(matches.push(key).drop_last() =~= matches);
}

/// The hashes that all ranks have in common: every rank has each of them at its place, and behind
/// them some rank has nothing more or another hash than the first rank.
pub proof fn common_hashes_are_on_every_rank(
    results: Seq<Seq<SequenceHash>>,
    prefix: Seq<SequenceHash>,
)
    requires
        is_longest_common_prefix(results, prefix),
        results.len() > 0,
    ensures
        forall|w: int, i: int|
            #![trigger results[w][i]]
            0 <= w < results.len() && 0 <= i < prefix.len() ==> i < results[w].len()
                && results[w][i] == prefix[i],
        exists|w: int|
            0 <= w < results.len() && ((#[trigger] results[w]).len() == prefix.len() || (
            results[0].len() > prefix.len() && results[w].len() > prefix.len()
                && results[w][prefix.len() as int] != results[0][prefix.len() as int])),
{
    let n = prefix.len() as int;
    assert forall|w: int, i: int|
        #![trigger results[w][i]]
        0 <= w < results.len() && 0 <= i < prefix.len() implies i < results[w].len()
        && results[w][i] == prefix[i] by {
        assert(results[w].subrange(0, n)[i] == results[0].subrange(0, n)[i]);
    }
    let w = choose|w: int|
        0 <= w < results.len() && !({
            &&& n + 1 <= (#[trigger] results[w]).len()
            &&& results[w].subrange(0, n + 1) == results[0].subrange(0, n + 1)
        });
    assert(n <= results[w].len());
    assert(n <= results[0].len());
    if results[w].len() > n && results[0].len() > n {
        if results[w][n] == results[0][n] {
            let these = results[w].subrange(0, n + 1);
            let first = results[0].subrange(0, n + 1);
            assert forall|i: int| 0 <= i < n + 1 implies these[i] == first[i] by {
                if i < n {
                    assert(results[w][i] == prefix[i]);
                    assert(results[0][i] == prefix[i]);
                }
            }
            assert(these =~= first);
        }
    } else if results[w].len() > n {
        assert(results[0].len() == prefix.len());
    }
}

/// Every block is registered once, in order, under its own hash and position, and under a name
/// that no other block of the rank has.
pub proof fn blocks_are_registered_under_their_names(
    blocks: Seq<(SequenceHash, u32)>,
    storage: RemoteStorageConfig,
    worker_id: usize,
    world_size: usize,
    i: int,
    j: int,
)
    requires
        0 <= i < blocks.len(),
        0 <= j < blocks.len(),
    ensures
        ({
            let entries = entries_for(blocks, storage, worker_id, world_size);
            &&& entries.len() == blocks.len()
            &&& entries[i].0 == blocks[i].0
            &&& entries[i].1 == blocks[i].1
            &&& storage is Object <==> entries[i].2 is Object
            &&& blocks[i].0 != blocks[j].0 ==> entries[i].2 != entries[j].2
        }),
{
    let entries = entries_for(blocks, storage, worker_id, world_size);
    if blocks[i].0 != blocks[j].0 && entries[i].2 == entries[j].2 {
        match storage {
            RemoteStorageConfig::Object { .. } => {
                remote::object_names_are_distinct(blocks[i].0, blocks[j].0);
            },
            RemoteStorageConfig::Disk { .. } => {
                remote::file_names_are_distinct(
                    blocks[i].0,
                    worker_id,
                    world_size,
                    blocks[j].0,
                    worker_id,
                    world_size,
                );
            },
        }
    }
}

} // verus!
