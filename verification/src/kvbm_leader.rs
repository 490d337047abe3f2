//! The leader of the block manager: its configuration, what it learns from its workers, and
//! which remote transfers are under way.

use vstd::prelude::*;

use crate::baggage::{self, first_list_item};
use crate::config::{
    DiskTransferFlags, RemoteStorageConfig, DISK_FLAGS_GDS_BOTH, DISK_FLAGS_GDS_READS_ONLY,
    DISK_FLAGS_POSIX_BOTH,
};
use crate::protocol::SequenceHash;
use crate::table::KeySet;
use crate::text::{self, clone_text, to_lowercase};

verus! {

/// How large a tier is: a number of blocks, or else a cache size. The cache size itself is a
/// fraction of gigabytes; here it counts only whether there is one.
#[derive(Debug, Clone, Copy, PartialEq, Eq, Structural)]
pub struct KvbmLeaderNumBlocksConfig {
    pub num_blocks_overriden: usize,
    pub has_cache_size: bool,
}

impl Default for KvbmLeaderNumBlocksConfig {
    fn default() -> (config: Self)
        ensures
            config == (KvbmLeaderNumBlocksConfig {
                num_blocks_overriden: 0,
                has_cache_size: false,
            }),
    {
        KvbmLeaderNumBlocksConfig { num_blocks_overriden: 0, has_cache_size: false }
    }
}

impl KvbmLeaderNumBlocksConfig {
    /// Whether there is a tier.
    pub open spec fn is_configured(&self) -> bool {
        self.num_blocks_overriden > 0 || self.has_cache_size
    }

    /// Whether there is a tier.
    pub fn configured(&self) -> (configured: bool)
        ensures
            configured == self.is_configured(),
    {
        self.num_blocks_overriden > 0 || self.has_cache_size
    }
}

/// The number of blocks of a tier: the given number where there is one, and else the number
/// `by_cache_size` that its cache size makes.
pub fn compute_num_blocks(config: &KvbmLeaderNumBlocksConfig, by_cache_size: usize) -> (blocks:
    usize)
    ensures
        blocks == if config.num_blocks_overriden > 0 {
            config.num_blocks_overriden
        } else {
            by_cache_size
        },
{
    if config.num_blocks_overriden > 0 {
        config.num_blocks_overriden
    } else {
        by_cache_size
    }
}

/// The configuration of a leader.
#[derive(Debug)]
pub struct KvbmLeaderConfig {
    /// The rank of the worker that the leader runs with.
    pub rank: usize,
    /// The number of workers.
    pub world_size: usize,
    /// How long the leader waits for its workers.
    pub leader_init_timeout_secs: u64,
    pub host_blocks_config: KvbmLeaderNumBlocksConfig,
    pub disk_blocks_config: KvbmLeaderNumBlocksConfig,
    pub leader_pub_url: String,
    pub leader_ack_url: String,
}

impl Clone for KvbmLeaderConfig {
    fn clone(&self) -> (copy: Self)
        ensures
            copy == *self,
    {
        KvbmLeaderConfig {
            rank: self.rank,
            world_size: self.world_size,
            leader_init_timeout_secs: self.leader_init_timeout_secs,
            host_blocks_config: self.host_blocks_config,
            disk_blocks_config: self.disk_blocks_config,
            leader_pub_url: self.leader_pub_url.clone(),
            leader_ack_url: self.leader_ack_url.clone(),
        }
    }
}

impl KvbmLeaderConfig {
    /// A configuration whose fields have their defaults until they are set.
    pub fn builder() -> (builder: KvbmLeaderConfigBuilder)
        ensures
            builder == (KvbmLeaderConfigBuilder {
                rank: None,
                world_size: None,
                leader_init_timeout_secs: None,
                host_blocks_config: None,
                disk_blocks_config: None,
                leader_pub_url: None,
                leader_ack_url: None,
            }),
    {
        KvbmLeaderConfigBuilder {
            rank: None,
            world_size: None,
            leader_init_timeout_secs: None,
            host_blocks_config: None,
            disk_blocks_config: None,
            leader_pub_url: None,
            leader_ack_url: None,
        }
    }

    /// Whether a leader can start with this configuration: it must not listen twice on one
    /// address.
    pub fn sanity_check(&self) -> (result: Result<(), String>)
        requires
            self.leader_pub_url@ == self.leader_ack_url@ || self.host_blocks_config.is_configured()
                || self.disk_blocks_config.is_configured(),
        ensures
            match result {
                Ok(_) => self.leader_pub_url@ != self.leader_ack_url@,
                Err(message) => self.leader_pub_url@ == self.leader_ack_url@ && message@
                    == "leader_pub_url and leader_ack_url must differ (same endpoint would fail to bind)."@,
            },
    {
        if self.leader_pub_url.eq(&self.leader_ack_url) {
            return Err(
                "leader_pub_url and leader_ack_url must differ (same endpoint would fail to bind).".to_string(),
            );
        }
        Ok(())
    }
}

/// Sets the fields of a [`KvbmLeaderConfig`].
#[derive(Debug)]
pub struct KvbmLeaderConfigBuilder {
    pub rank: Option<usize>,
    pub world_size: Option<usize>,
    pub leader_init_timeout_secs: Option<u64>,
    pub host_blocks_config: Option<KvbmLeaderNumBlocksConfig>,
    pub disk_blocks_config: Option<KvbmLeaderNumBlocksConfig>,
    pub leader_pub_url: Option<String>,
    pub leader_ack_url: Option<String>,
}

/// The text that was set, or `default`.
pub open spec fn text_or(text: Option<String>, default: Seq<char>) -> Seq<char> {
    match text {
        Some(text) => text@,
        None => default,
    }
}

/// The value that was set, or `default`.
pub open spec fn value_or<T>(value: Option<T>, default: T) -> T {
    match value {
        Some(value) => value,
        None => default,
    }
}

impl KvbmLeaderConfigBuilder {
    /// Sets the rank.
    pub fn rank(self, rank: usize) -> (builder: Self)
        ensures
            builder == (KvbmLeaderConfigBuilder { rank: Some(rank), ..self }),
    {
        KvbmLeaderConfigBuilder { rank: Some(rank), ..self }
    }

    /// Sets the number of workers.
    pub fn world_size(self, world_size: usize) -> (builder: Self)
        ensures
            builder == (KvbmLeaderConfigBuilder { world_size: Some(world_size), ..self }),
    {
        KvbmLeaderConfigBuilder { world_size: Some(world_size), ..self }
    }

    /// Sets how long the leader waits for its workers.
    pub fn leader_init_timeout_secs(self, secs: u64) -> (builder: Self)
        ensures
            builder == (KvbmLeaderConfigBuilder { leader_init_timeout_secs: Some(secs), ..self }),
    {
        KvbmLeaderConfigBuilder { leader_init_timeout_secs: Some(secs), ..self }
    }

    /// Sets the size of the host tier.
    pub fn host_blocks_config(self, config: KvbmLeaderNumBlocksConfig) -> (builder: Self)
        ensures
            builder == (KvbmLeaderConfigBuilder { host_blocks_config: Some(config), ..self }),
    {
        KvbmLeaderConfigBuilder { host_blocks_config: Some(config), ..self }
    }

    /// Sets the size of the disk tier.
    pub fn disk_blocks_config(self, config: KvbmLeaderNumBlocksConfig) -> (builder: Self)
        ensures
            builder == (KvbmLeaderConfigBuilder { disk_blocks_config: Some(config), ..self }),
    {
        KvbmLeaderConfigBuilder { disk_blocks_config: Some(config), ..self }
    }

    /// Sets where the leader publishes.
    pub fn leader_pub_url(self, url: String) -> (builder: Self)
        ensures
            builder == (KvbmLeaderConfigBuilder { leader_pub_url: Some(url), ..self }),
    {
        KvbmLeaderConfigBuilder { leader_pub_url: Some(url), ..self }
    }

    /// Sets where the leader collects acknowledgements.
    pub fn leader_ack_url(self, url: String) -> (builder: Self)
        ensures
            builder == (KvbmLeaderConfigBuilder { leader_ack_url: Some(url), ..self }),
    {
        KvbmLeaderConfigBuilder { leader_ack_url: Some(url), ..self }
    }

    /// The configuration; fields that were not set have their defaults.
    pub fn build(self) -> (config: KvbmLeaderConfig)
        ensures
            config.rank == value_or(self.rank, 0),
            config.world_size == value_or(self.world_size, 1),
            config.leader_init_timeout_secs == value_or(self.leader_init_timeout_secs, 120),
            config.host_blocks_config == value_or(
                self.host_blocks_config,
                KvbmLeaderNumBlocksConfig { num_blocks_overriden: 0, has_cache_size: false },
            ),
            config.disk_blocks_config == value_or(
                self.disk_blocks_config,
                KvbmLeaderNumBlocksConfig { num_blocks_overriden: 0, has_cache_size: false },
            ),
            config.leader_pub_url@ == text_or(self.leader_pub_url, "tcp://127.0.0.1:56001"@),
            config.leader_ack_url@ == text_or(self.leader_ack_url, "tcp://127.0.0.1:56002"@),
    {
        KvbmLeaderConfig {
            rank: match self.rank {
                Some(rank) => rank,
                None => 0,
            },
            world_size: match self.world_size {
                Some(world_size) => world_size,
                None => 1,
            },
            leader_init_timeout_secs: match self.leader_init_timeout_secs {
                Some(secs) => secs,
                None => 120,
            },
            host_blocks_config: match self.host_blocks_config {
                Some(config) => config,
                None => KvbmLeaderNumBlocksConfig::default(),
            },
            disk_blocks_config: match self.disk_blocks_config {
                Some(config) => config,
                None => KvbmLeaderNumBlocksConfig::default(),
            },
            leader_pub_url: match self.leader_pub_url {
                Some(url) => url,
                None => "tcp://127.0.0.1:56001".to_string(),
            },
            leader_ack_url: match self.leader_ack_url {
                Some(url) => url,
                None => "tcp://127.0.0.1:56002".to_string(),
            },
        }
    }
}

/// The transfers under way: which transfer loads which block.
pub type InflightMap = dashmap::DashMap<u64, u64, std::collections::hash_map::RandomState>;

/// What a map of transfers holds.
pub uninterp spec fn inflight_entries(
    map: dashmap::DashMap<u64, u64, std::collections::hash_map::RandomState>,
) -> Map<u64, u64>;

/// `dashmap::DashMap::new`: an empty map.
#[verifier::external_body]
fn new_inflight_map() -> (map: InflightMap)
    ensures
        inflight_entries(map).dom() == Set::<u64>::empty(),
{
    dashmap::DashMap::new()
}

/// `dashmap::DashMap::insert`: the key has the new value afterwards, and no other key changes.
#[verifier::external_body]
fn insert_inflight(map: &mut InflightMap, hash: u64, transfer: u64)
    ensures
        inflight_entries(*final(map)) == inflight_entries(*old(map)).insert(hash, transfer),
{
    map.insert(hash, transfer);
}

/// `dashmap::DashMap::remove`: the key is absent afterwards, and no other key changes.
#[verifier::external_body]
fn remove_inflight(map: &mut InflightMap, hash: u64)
    ensures
        inflight_entries(*final(map)) == inflight_entries(*old(map)).remove(hash),
{
    map.remove(&hash);
}

/// `dashmap::DashMap::get`: a copy of the value of the key, where it has one.
#[verifier::external_body]
fn get_inflight(map: &InflightMap, hash: u64) -> (transfer: Option<u64>)
    ensures
        match transfer {
            Some(transfer) => inflight_entries(*map).dom().contains(hash) && transfer
                == inflight_entries(*map)[hash],
            None => !inflight_entries(*map).dom().contains(hash),
        },
{
    map.get(&hash).map(|entry| *entry.value())
}

/// Keeps blocks from being loaded twice at the same time: the first transfer that asks for a
/// block gets it, and later ones wait for that transfer.
pub struct G4InflightTracker {
    pub inflight: InflightMap,
    pub next_transfer: u64,
}

/// The blocks that a transfer got.
#[derive(Debug)]
pub struct InflightGuard {
    pub hashes: Vec<SequenceHash>,
    pub transfer: u64,
}

/// The blocks of `hashes` that no transfer loads yet, each once, in order.
pub open spec fn unclaimed(hashes: Seq<SequenceHash>, claimed: Map<u64, u64>) -> Seq<SequenceHash>
    decreases hashes.len(),
{
    if hashes.len() == 0 {
        Seq::empty()
    } else {
        let head = unclaimed(hashes.drop_last(), claimed);
        let hash = hashes.last();
        if claimed.dom().contains(hash) || head.contains(hash) {
            head
        } else {
            head.push(hash)
        }
    }
}

/// With `transfer` loading `hashes`.
pub open spec fn claimed_by(claimed: Map<u64, u64>, hashes: Seq<SequenceHash>, transfer: u64) -> Map<
    u64,
    u64,
>
    decreases hashes.len(),
{
    if hashes.len() == 0 {
        claimed
    } else {
        claimed_by(claimed, hashes.drop_last(), transfer).insert(hashes.last(), transfer)
    }
}

/// Without `hashes`.
pub open spec fn released(claimed: Map<u64, u64>, hashes: Seq<SequenceHash>) -> Map<u64, u64>
    decreases hashes.len(),
{
    if hashes.len() == 0 {
        claimed
    } else {
        released(claimed, hashes.drop_last()).remove(hashes.last())
    }
}

/// The transfers that load `hashes`, in the order of `hashes`; blocks that nobody loads are left
/// out.
pub open spec fn loaders(hashes: Seq<SequenceHash>, claimed: Map<u64, u64>) -> Seq<u64>
    decreases hashes.len(),
{
    if hashes.len() == 0 {
        Seq::empty()
    } else {
        let head = loaders(hashes.drop_last(), claimed);
        if claimed.dom().contains(hashes.last()) {
            head.push(claimed[hashes.last()])
        } else {
            head
        }
    }
}

proof fn claimed_by_dom(claimed: Map<u64, u64>, hashes: Seq<SequenceHash>, transfer: u64)
    ensures
        forall|hash: u64| #[trigger]
            claimed_by(claimed, hashes, transfer).dom().contains(hash) == (claimed.dom().contains(
                hash,
            ) || hashes.contains(hash)),
        forall|hash: u64| #[trigger]
            hashes.contains(hash) ==> claimed_by(claimed, hashes, transfer)[hash] == transfer,
        forall|hash: u64|
            claimed.dom().contains(hash) && !hashes.contains(hash) ==> #[trigger] claimed_by(
                claimed,
                hashes,
                transfer,
            )[hash] == claimed[hash],
    decreases hashes.len(),
{
    if hashes.len() > 0 {
        let front = hashes.drop_last();
        let last = hashes.last();
        claimed_by_dom(claimed, front, transfer);
        let before = claimed_by(claimed, front, transfer);
        let after = claimed_by(claimed, hashes, transfer);
        assert(after == before.insert(last, transfer));
        assert forall|hash: u64| #[trigger]
            after.dom().contains(hash) == (claimed.dom().contains(hash) || hashes.contains(hash)) by {
            last_is_contained(hashes, hash);
            assert(after.dom().contains(hash) == (before.dom().contains(hash) || hash == last));
        }
        assert forall|hash: u64| #[trigger] hashes.contains(hash) implies after[hash] == transfer by {
            last_is_contained(hashes, hash);
        }
        assert forall|hash: u64|
            claimed.dom().contains(hash) && !hashes.contains(hash) implies #[trigger] after[hash]
            == claimed[hash] by {
            last_is_contained(hashes, hash);
            assert(before[hash] == claimed[hash]);
        }
    }
}

proof fn last_is_contained(hashes: Seq<SequenceHash>, hash: u64)
    requires
        hashes.len() > 0,
    ensures
        hashes.contains(hash) == (hashes.drop_last().contains(hash) || hash == hashes.last()),
{
    let front = hashes.drop_last();
    if front.contains(hash) {
        let i = choose|i: int| 0 <= i < front.len() && front[i] == hash;
        assert(hashes[i] == hash);
    }
    if hashes.contains(hash) {
        let i = choose|i: int| 0 <= i < hashes.len() && hashes[i] == hash;
        if i < front.len() {
            assert(front[i] == hash);
        }
    }
    if hash == hashes.last() {
        assert(hashes[hashes.len() - 1] == hash);
    }
}

impl G4InflightTracker {
    /// No transfer is under way.
    pub fn new() -> (tracker: Self)
        ensures
            inflight_entries(tracker.inflight) == Map::<u64, u64>::empty(),
            tracker.next_transfer == 0,
    {
        let tracker = G4InflightTracker { inflight: new_inflight_map(), next_transfer: 0 };
        assert(inflight_entries(tracker.inflight) =~= Map::<u64, u64>::empty());
        tracker
    }

    /// Starts a transfer of those of `hashes` that no other transfer loads. Its number is new,
    /// until the numbers start again after the last.
    pub fn register(&mut self, hashes: &[SequenceHash]) -> (guard: InflightGuard)
        ensures
            guard.hashes@ == unclaimed(hashes@, inflight_entries(old(self).inflight)),
            guard.transfer == old(self).next_transfer,
            inflight_entries(final(self).inflight) == claimed_by(
                inflight_entries(old(self).inflight),
                guard.hashes@,
                guard.transfer,
            ),
            final(self).next_transfer == if old(self).next_transfer == u64::MAX {
                0
            } else {
                (old(self).next_transfer + 1) as u64
            },
    {
        let transfer: u64 = self.next_transfer;
        self.next_transfer = if transfer == u64::MAX {
            0
        } else {
            transfer + 1
        };
        let ghost before = inflight_entries(self.inflight);
        let mut registered: Vec<SequenceHash> = Vec::new();
        let mut i: usize = 0;
        assert(hashes@.subrange(0, 0) =~= Seq::<u64>::empty());
        while i < hashes.len()
            invariant
                i <= hashes@.len(),
                before == inflight_entries(old(self).inflight),
                self.next_transfer == if transfer == u64::MAX {
                    0
                } else {
                    (transfer + 1) as u64
                },
                registered@ == unclaimed(hashes@.subrange(0, i as int), before),
                inflight_entries(self.inflight) == claimed_by(before, registered@, transfer),
            decreases hashes@.len() - i,
        {
            let hash: SequenceHash = hashes[i];
            let ghost upto = hashes@.subrange(0, i + 1);
            let ghost head = registered@;
            proof {
                assert(upto.drop_last() =~= hashes@.subrange(0, i as int));
                claimed_by_dom(before, head, transfer);
            }
            if get_inflight(&self.inflight, hash).is_none() {
                insert_inflight(&mut self.inflight, hash, transfer);
                registered.push(hash);
                assert(registered@.drop_last() =~= head);
            }
            i = i + 1;
        }
        assert(hashes@.subrange(0, hashes@.len() as int) =~= hashes@);
        InflightGuard { hashes: registered, transfer }
    }

    /// The transfers that load some of `hashes`.
    pub fn check_inflight(&self, hashes: &[SequenceHash]) -> (transfers: Vec<u64>)
        ensures
            transfers@ == loaders(hashes@, inflight_entries(self.inflight)),
    {
        let mut transfers: Vec<u64> = Vec::new();
        let mut i: usize = 0;
        assert(hashes@.subrange(0, 0) =~= Seq::<u64>::empty());
        while i < hashes.len()
            invariant
                i <= hashes@.len(),
                transfers@ == loaders(
                    hashes@.subrange(0, i as int),
                    inflight_entries(self.inflight),
                ),
            decreases hashes@.len() - i,
        {
            assert(hashes@.subrange(0, i + 1).drop_last() =~= hashes@.subrange(0, i as int));
            match get_inflight(&self.inflight, hashes[i]) {
                Some(transfer) => {
                    transfers.push(transfer);
                },
                None => {},
            }
            i = i + 1;
        }
        assert(hashes@.subrange(0, hashes@.len() as int) =~= hashes@);
        transfers
    }

    /// Ends a transfer: its blocks are free again.
    pub fn release(&mut self, guard: InflightGuard)
        ensures
            inflight_entries(final(self).inflight) == released(
                inflight_entries(old(self).inflight),
                guard.hashes@,
            ),
            final(self).next_transfer == old(self).next_transfer,
    {
        let mut i: usize = 0;
        assert(guard.hashes@.subrange(0, 0) =~= Seq::<u64>::empty());
        while i < guard.hashes.len()
            invariant
                i <= guard.hashes@.len(),
                self.next_transfer == old(self).next_transfer,
                inflight_entries(self.inflight) == released(
                    inflight_entries(old(self).inflight),
                    guard.hashes@.subrange(0, i as int),
                ),
            decreases guard.hashes@.len() - i,
        {
            assert(guard.hashes@.subrange(0, i + 1).drop_last() =~= guard.hashes@.subrange(
                0,
                i as int,
            ));
            remove_inflight(&mut self.inflight, guard.hashes[i]);
            i = i + 1;
        }
        assert(guard.hashes@.subrange(0, guard.hashes@.len() as int) =~= guard.hashes@);
    }
}

proof fn unclaimed_members(hashes: Seq<SequenceHash>, claimed: Map<u64, u64>)
    ensures
        forall|hash: u64| #[trigger]
            unclaimed(hashes, claimed).contains(hash) ==> hashes.contains(hash)
                && !claimed.dom().contains(hash),
    decreases hashes.len(),
{
    if hashes.len() > 0 {
        let front = hashes.drop_last();
        unclaimed_members(front, claimed);
        let head = unclaimed(front, claimed);
        assert forall|hash: u64| #[trigger] unclaimed(hashes, claimed).contains(hash) implies
            hashes.contains(hash) && !claimed.dom().contains(hash) by {
            let all = unclaimed(hashes, claimed);
            let i = choose|i: int| 0 <= i < all.len() && all[i] == hash;
            if i < head.len() {
                assert(head[i] == hash);
                assert(head.contains(hash));
                let j = choose|j: int| 0 <= j < front.len() && front[j] == hash;
                assert(hashes[j] == hash);
            } else {
                assert(hashes[hashes.len() - 1] == hash);
            }
        }
    }
}

/// No block is loaded twice: what one transfer got, a later transfer does not get before the
/// first has ended.
pub proof fn block_is_loaded_once(
    claimed: Map<u64, u64>,
    first: Seq<SequenceHash>,
    first_transfer: u64,
    second: Seq<SequenceHash>,
    hash: SequenceHash,
)
    requires
        unclaimed(first, claimed).contains(hash),
    ensures
        !unclaimed(
            second,
            claimed_by(claimed, unclaimed(first, claimed), first_transfer),
        ).contains(hash),
{
    let got = unclaimed(first, claimed);
    claimed_by_dom(claimed, got, first_transfer);
    unclaimed_members(second, claimed_by(claimed, got, first_transfer));
}

proof fn released_dom(claimed: Map<u64, u64>, hashes: Seq<SequenceHash>)
    ensures
        forall|hash: u64| #[trigger]
            released(claimed, hashes).dom().contains(hash) == (claimed.dom().contains(hash)
                && !hashes.contains(hash)),
        forall|hash: u64|
            claimed.dom().contains(hash) && !hashes.contains(hash) ==> #[trigger] released(
                claimed,
                hashes,
            )[hash] == claimed[hash],
    decreases hashes.len(),
{
    if hashes.len() > 0 {
        let front = hashes.drop_last();
        let last = hashes.last();
        released_dom(claimed, front);
        let before = released(claimed, front);
        let after = released(claimed, hashes);
        assert(after == before.remove(last));
        assert forall|hash: u64| #[trigger]
            after.dom().contains(hash) == (claimed.dom().contains(hash) && !hashes.contains(hash)) by {
            last_is_contained(hashes, hash);
            assert(after.dom().contains(hash) == (before.dom().contains(hash) && hash != last));
        }
        assert forall|hash: u64|
            claimed.dom().contains(hash) && !hashes.contains(hash) implies #[trigger] after[hash]
            == claimed[hash] by {
            last_is_contained(hashes, hash);
            assert(before[hash] == claimed[hash]);
        }
    }
}

/// The end of a transfer undoes its start: its blocks are free again, and those of other
/// transfers stay theirs.
pub proof fn release_undoes_register(
    claimed: Map<u64, u64>,
    hashes: Seq<SequenceHash>,
    transfer: u64,
)
    ensures
        released(
            claimed_by(claimed, unclaimed(hashes, claimed), transfer),
            unclaimed(hashes, claimed),
        ) == claimed,
{
    let got = unclaimed(hashes, claimed);
    claimed_by_dom(claimed, got, transfer);
    unclaimed_members(hashes, claimed);
    released_dom(claimed_by(claimed, got, transfer), got);
    assert(released(claimed_by(claimed, got, transfer), got) =~= claimed);
}

/// What the environment says of remote storage. A field is nothing where its variable is not
/// set.
#[derive(Debug)]
pub struct RemoteStorageEnv {
    pub storage_type: Option<String>,
    pub object_bucket: Option<String>,
    pub aws_default_bucket: Option<String>,
    pub object_endpoint: Option<String>,
    pub aws_endpoint_url: Option<String>,
    pub aws_endpoint_override: Option<String>,
    pub object_region: Option<String>,
    pub aws_region: Option<String>,
    pub object_access_key: Option<String>,
    pub aws_access_key_id: Option<String>,
    pub object_secret_key: Option<String>,
    pub aws_secret_access_key: Option<String>,
    pub object_session_token: Option<String>,
    pub aws_session_token: Option<String>,
    pub object_scheme: Option<String>,
    pub object_use_virtual_addressing: Option<String>,
    pub object_req_checksum: Option<String>,
    pub object_ca_bundle: Option<String>,
    pub disk_path: Option<String>,
    pub disk_paths: Option<String>,
    pub disk_use_gds: Option<String>,
    pub disk_gds_reads_only: Option<String>,
}

/// The first text that is there.
pub open spec fn first_set(a: Option<String>, b: Option<String>) -> Option<String> {
    match a {
        Some(text) => Some(text),
        None => b,
    }
}

/// Whether a text means yes: `1`, or `true` in any case.
pub open spec fn means_yes(value: Seq<char>) -> bool {
    value == "1"@ || text::lower_case(value) == "true"@
}

/// Whether a setting means yes, or `default` where it is not set.
pub open spec fn flag_or(setting: Option<String>, default: bool) -> bool {
    match setting {
        Some(value) => means_yes(value@),
        None => default,
    }
}

/// The base path of disk storage: the path where it is set and not empty, and else the first of
/// the paths where they are set and not empty.
pub open spec fn disk_base_path(env: RemoteStorageEnv) -> Option<Seq<char>> {
    if env.disk_path is Some && env.disk_path->0@.len() > 0 {
        Some(env.disk_path->0@)
    } else if env.disk_paths is Some && env.disk_paths->0@.len() > 0 {
        Some(baggage::first_item(env.disk_paths->0@))
    } else {
        None
    }
}

/// How disk transfers go: through the GPU's direct path both ways, for reads only, or not at
/// all.
pub open spec fn disk_transfer_flags(env: RemoteStorageEnv) -> DiskTransferFlags {
    if !flag_or(env.disk_use_gds, true) {
        DISK_FLAGS_POSIX_BOTH
    } else if flag_or(env.disk_gds_reads_only, false) {
        DISK_FLAGS_GDS_READS_ONLY
    } else {
        DISK_FLAGS_GDS_BOTH
    }
}

/// The object storage that the environment describes. The variables of this library go before
/// those of the cloud provider.
pub open spec fn object_storage(env: RemoteStorageEnv) -> RemoteStorageConfig {
    RemoteStorageConfig::Object {
        bucket_template: first_set(env.object_bucket, env.aws_default_bucket),
        endpoint: first_set(
            env.object_endpoint,
            first_set(env.aws_endpoint_url, env.aws_endpoint_override),
        ),
        region: first_set(env.object_region, env.aws_region),
        access_key: first_set(env.object_access_key, env.aws_access_key_id),
        secret_key: first_set(env.object_secret_key, env.aws_secret_access_key),
        session_token: first_set(env.object_session_token, env.aws_session_token),
        scheme: env.object_scheme,
        use_virtual_addressing: match env.object_use_virtual_addressing {
            Some(value) => Some(means_yes(value@)),
            None => None,
        },
        req_checksum: env.object_req_checksum,
        ca_bundle: env.object_ca_bundle,
    }
}

/// Whether `config` is the disk storage that the environment describes, where it describes one.
pub open spec fn is_disk_storage(config: Option<RemoteStorageConfig>, env: RemoteStorageEnv)
    -> bool {
    match disk_base_path(env) {
        Some(path) => config matches Some(RemoteStorageConfig::Disk { base_path, transfer_flags })
            && base_path@ == path && transfer_flags == disk_transfer_flags(env),
        None => config is None,
    }
}

/// Whether `config` is the storage of the type `kind`, given in lower case: disk or object
/// storage where the type says so, and else object storage where there is a bucket, disk storage
/// where there is a path, and none where there is neither.
pub open spec fn is_storage_of(
    config: Option<RemoteStorageConfig>,
    kind: Seq<char>,
    env: RemoteStorageEnv,
) -> bool {
    if kind == "disk"@ {
        is_disk_storage(config, env)
    } else if kind == "object"@ || first_set(env.object_bucket, env.aws_default_bucket) is Some {
        config == Some(object_storage(env))
    } else {
        is_disk_storage(config, env)
    }
}

fn first_set_exec(a: &Option<String>, b: &Option<String>) -> (text: Option<String>)
    ensures
        text == first_set(*a, *b),
{
    match a {
        Some(text) => Some(text.clone()),
        None => clone_text(b),
    }
}

fn means_yes_exec(value: &String) -> (yes: bool)
    ensures
        yes == means_yes(value@),
{
    value.eq(&"1".to_string()) || to_lowercase(value.as_str()).eq(&"true".to_string())
}

fn flag_or_exec(setting: &Option<String>, default: bool) -> (flag: bool)
    ensures
        flag == flag_or(*setting, default),
{
    match setting {
        Some(value) => means_yes_exec(value),
        None => default,
    }
}

fn disk_storage(env: &RemoteStorageEnv) -> (config: Option<RemoteStorageConfig>)
    ensures
        is_disk_storage(config, *env),
{
    let transfer_flags: DiskTransferFlags = if !flag_or_exec(&env.disk_use_gds, true) {
        DISK_FLAGS_POSIX_BOTH
    } else if flag_or_exec(&env.disk_gds_reads_only, false) {
        DISK_FLAGS_GDS_READS_ONLY
    } else {
        DISK_FLAGS_GDS_BOTH
    };
    match &env.disk_path {
        Some(path) => {
            if path.as_str().unicode_len() > 0 {
                return Some(
                    RemoteStorageConfig::Disk { base_path: path.clone(), transfer_flags },
                );
            }
        },
        None => {},
    }
    match &env.disk_paths {
        Some(paths) => {
            if paths.as_str().unicode_len() > 0 {
                return Some(
                    RemoteStorageConfig::Disk {
                        base_path: first_list_item(paths.as_str()),
                        transfer_flags,
                    },
                );
            }
        },
        None => {},
    }
    None
}

/// The storage of the type `kind`, given in lower case, that the environment describes.
pub fn storage_of_type(kind: &String, env: &RemoteStorageEnv) -> (config: Option<
    RemoteStorageConfig,
>)
    ensures
        is_storage_of(config, kind@, *env),
{
    if kind.eq(&"disk".to_string()) {
        return disk_storage(env);
    }
    let bucket_template: Option<String> = first_set_exec(
        &env.object_bucket,
        &env.aws_default_bucket,
    );
    if kind.eq(&"object".to_string()) || bucket_template.is_some() {
        return Some(
            RemoteStorageConfig::Object {
                bucket_template,
                endpoint: first_set_exec(
                    &env.object_endpoint,
                    &first_set_exec(&env.aws_endpoint_url, &env.aws_endpoint_override),
                ),
                region: first_set_exec(&env.object_region, &env.aws_region),
                access_key: first_set_exec(&env.object_access_key, &env.aws_access_key_id),
                secret_key: first_set_exec(&env.object_secret_key, &env.aws_secret_access_key),
                session_token: first_set_exec(&env.object_session_token, &env.aws_session_token),
                scheme: clone_text(&env.object_scheme),
                use_virtual_addressing: match &env.object_use_virtual_addressing {
                    Some(value) => Some(means_yes_exec(value)),
                    None => None,
                },
                req_checksum: clone_text(&env.object_req_checksum),
                ca_bundle: clone_text(&env.object_ca_bundle),
            },
        );
    }
    disk_storage(env)
}

/// What a worker tells the leader.
#[derive(Debug, Clone, Copy, PartialEq, Eq, Structural)]
pub struct WorkerMetadata {
    pub num_device_blocks: usize,
    pub bytes_per_block: usize,
}

/// What the leader tells its workers.
#[derive(Debug, Clone, Copy, PartialEq, Eq, Structural)]
pub struct LeaderMetadata {
    pub num_host_blocks: usize,
    pub num_disk_blocks: usize,
    pub world_size: usize,
}

/// The bytes of a block on the first `n` workers together.
pub open spec fn total_bytes(workers: Seq<WorkerMetadata>, n: nat) -> nat
    decreases n,
{
    if n == 0 {
        0
    } else {
        total_bytes(workers, (n - 1) as nat) + workers[n - 1].bytes_per_block as nat
    }
}

/// Whether `least` is the smallest number of device blocks of a worker.
pub open spec fn is_least(workers: Seq<WorkerMetadata>, least: usize) -> bool {
    &&& forall|i: int| 0 <= i < workers.len() ==> least <= (#[trigger] workers[i]).num_device_blocks
    &&& exists|i: int| 0 <= i < workers.len() && (#[trigger] workers[i]).num_device_blocks == least
}

/// The bytes of a block on all workers together.
pub fn bytes_per_block(workers: &[WorkerMetadata]) -> (bytes: usize)
    requires
        total_bytes(workers@, workers@.len()) <= usize::MAX,
    ensures
        bytes == total_bytes(workers@, workers@.len()),
{
    let mut bytes: usize = 0;
    let mut i: usize = 0;
    while i < workers.len()
        invariant
            i <= workers@.len(),
            total_bytes(workers@, workers@.len()) <= usize::MAX,
            bytes == total_bytes(workers@, i as nat),
        decreases workers@.len() - i,
    {
        proof {
            total_bytes_grows(workers@, (i + 1) as nat, workers@.len());
        }
        bytes = bytes + workers[i].bytes_per_block;
        i = i + 1;
    }
    bytes
}

proof fn total_bytes_grows(workers: Seq<WorkerMetadata>, m: nat, n: nat)
    requires
        m <= n,
    ensures
        total_bytes(workers, m) <= total_bytes(workers, n),
    decreases n,
{
    if m < n {
        total_bytes_grows(workers, m, (n - 1) as nat);
    }
}

/// The smallest number of device blocks of a worker, where there is one.
pub fn min_device_blocks(workers: &[WorkerMetadata]) -> (least: Option<usize>)
    ensures
        match least {
            Some(least) => is_least(workers@, least),
            None => workers@.len() == 0,
        },
{
    if workers.len() == 0 {
        return None;
    }
    let mut least: usize = workers[0].num_device_blocks;
    let mut i: usize = 1;
    while i < workers.len()
        invariant
            1 <= i <= workers@.len(),
            forall|j: int|
                0 <= j < i ==> least <= (#[trigger] workers@[j]).num_device_blocks,
            exists|j: int| 0 <= j < i && (#[trigger] workers@[j]).num_device_blocks == least,
        decreases workers@.len() - i,
    {
        if workers[i].num_device_blocks < least {
            least = workers[i].num_device_blocks;
            assert(workers@[i as int].num_device_blocks == least);
        }
        i = i + 1;
    }
    Some(least)
}

/// The leader.
pub struct KvbmLeader {
    pub config: KvbmLeaderConfig,
    pub num_device_blocks: usize,
    pub num_host_blocks: usize,
    pub num_disk_blocks: usize,
    pub workers_allocation_ready: bool,
    pub remote_registry: bool,
    pub failed_g4_requests: KeySet<String>,
    pub g4_inflight: G4InflightTracker,
}

impl KvbmLeader {
    /// A leader whose workers are not known yet.
    pub fn new(config: KvbmLeaderConfig) -> (leader: Self)
        ensures
            leader.config == config,
            leader.num_device_blocks == 0,
            leader.num_host_blocks == 0,
            leader.num_disk_blocks == 0,
            !leader.workers_allocation_ready,
            !leader.remote_registry,
            leader.failed_g4_requests@ == Set::<Seq<char>>::empty(),
            inflight_entries(leader.g4_inflight.inflight) == Map::<u64, u64>::empty(),
    {
        KvbmLeader {
            config,
            num_device_blocks: 0,
            num_host_blocks: 0,
            num_disk_blocks: 0,
            workers_allocation_ready: false,
            remote_registry: false,
            failed_g4_requests: KeySet::new(),
            g4_inflight: G4InflightTracker::new(),
        }
    }

    /// Takes over what the workers tell, and answers them. `host_by_size` and `disk_by_size` are
    /// the numbers of blocks that the cache sizes of the tiers make.
    pub fn handshake(
        &mut self,
        workers: &[WorkerMetadata],
        host_by_size: usize,
        disk_by_size: usize,
    ) -> (answer: LeaderMetadata)
        ensures
            answer.num_host_blocks == if old(self).config.host_blocks_config.num_blocks_overriden
                > 0 {
                old(self).config.host_blocks_config.num_blocks_overriden
            } else {
                host_by_size
            },
            answer.num_disk_blocks == if old(self).config.disk_blocks_config.num_blocks_overriden
                > 0 {
                old(self).config.disk_blocks_config.num_blocks_overriden
            } else {
                disk_by_size
            },
            answer.world_size == old(self).config.world_size,
            workers@.len() == 0 ==> final(self).num_device_blocks == old(self).num_device_blocks,
            workers@.len() > 0 ==> is_least(workers@, final(self).num_device_blocks),
            *final(self) == (KvbmLeader {
                num_device_blocks: final(self).num_device_blocks,
                num_host_blocks: answer.num_host_blocks,
                num_disk_blocks: answer.num_disk_blocks,
                ..*old(self)
            }),
    {
        match min_device_blocks(workers) {
            Some(least) => {
                self.num_device_blocks = least;
            },
            None => {},
        }
        self.num_host_blocks = compute_num_blocks(&self.config.host_blocks_config, host_by_size);
        self.num_disk_blocks = compute_num_blocks(&self.config.disk_blocks_config, disk_by_size);
        LeaderMetadata {
            num_host_blocks: self.num_host_blocks,
            num_disk_blocks: self.num_disk_blocks,
            world_size: self.config.world_size,
        }
    }

    /// Notes that the remote registry is there; false where it already was.
    pub fn set_remote_registry(&mut self) -> (set: bool)
        ensures
            set == !old(self).remote_registry,
            *final(self) == (KvbmLeader { remote_registry: true, ..*old(self) }),
    {
        let set: bool = !self.remote_registry;
        self.remote_registry = true;
        set
    }

    /// Whether the remote registry is there.
    pub fn remote_registry_enabled(&self) -> (enabled: bool)
        ensures
            enabled == self.remote_registry,
    {
        self.remote_registry
    }

    /// Whether a lookup of `num_keys` keys has to go to the registry: it is empty without keys or
    /// without a registry.
    pub fn schedules_match_prefix(&self, num_keys: usize) -> (scheduled: bool)
        ensures
            scheduled == (num_keys > 0 && self.remote_registry),
    {
        num_keys > 0 && self.remote_registry
    }

    /// The worker id in registry keys.
    pub fn worker_id(&self) -> (id: u64)
        ensures
            id == self.config.rank,
    {
        self.config.rank as u64
    }

    /// The number of workers.
    pub fn world_size(&self) -> (n: usize)
        ensures
            n == self.config.world_size,
    {
        self.config.world_size
    }

    /// The remote storage that the environment describes. Without a type the storage is found by
    /// what is described.
    pub fn remote_storage_config(&self, env: &RemoteStorageEnv) -> (config: Option<
        RemoteStorageConfig,
    >)
        ensures
            is_storage_of(
                config,
                text::lower_case(
                    match env.storage_type {
                        Some(kind) => kind@,
                        None => "auto"@,
                    },
                ),
                *env,
            ),
    {
        let kind: String = match &env.storage_type {
            Some(kind) => to_lowercase(kind.as_str()),
            None => to_lowercase("auto"),
        };
        storage_of_type(&kind, env)
    }

    /// The number of device blocks.
    pub fn num_device_blocks(&self) -> (n: usize)
        ensures
            n == self.num_device_blocks,
    {
        self.num_device_blocks
    }

    /// The number of host blocks.
    pub fn num_host_blocks(&self) -> (n: usize)
        ensures
            n == self.num_host_blocks,
    {
        self.num_host_blocks
    }

    /// The number of disk blocks.
    pub fn num_disk_blocks(&self) -> (n: usize)
        ensures
            n == self.num_disk_blocks,
    {
        self.num_disk_blocks
    }

    /// Notes that a transfer of a request from remote storage failed.
    pub fn mark_g4_failed(&mut self, request_id: &str)
        ensures
            final(self).failed_g4_requests@ == old(self).failed_g4_requests@.insert(request_id@),
            *final(self) == (KvbmLeader {
                failed_g4_requests: final(self).failed_g4_requests,
                ..*old(self)
            }),
    {
        self.failed_g4_requests.insert(request_id.to_string());
    }

    /// Whether a transfer of a request from remote storage failed.
    pub fn has_g4_failed(&self, request_id: &str) -> (failed: bool)
        ensures
            failed == self.failed_g4_requests@.contains(request_id@),
    {
        self.failed_g4_requests.contains(&request_id.to_string())
    }

    /// Forgets the failure of a request.
    pub fn clear_g4_failed(&mut self, request_id: &str)
        ensures
            final(self).failed_g4_requests@ == old(self).failed_g4_requests@.remove(request_id@),
            *final(self) == (KvbmLeader {
                failed_g4_requests: final(self).failed_g4_requests,
                ..*old(self)
            }),
    {
        self.failed_g4_requests.remove(&request_id.to_string());
    }

    /// The transfers from remote storage that are under way.
    pub fn g4_inflight(&self) -> (tracker: &G4InflightTracker)
        ensures
            *tracker == self.g4_inflight,
    {
        &self.g4_inflight
    }
}

/// A transfer gets exactly the blocks that it asked for and that no transfer loads yet, each once.
pub proof fn free_blocks_are_claimed(
    hashes: Seq<SequenceHash>,
    claimed: Map<u64, u64>,
    hash: SequenceHash,
)
    ensures
        unclaimed(hashes, claimed).contains(hash) <==> hashes.contains(hash)
            && !claimed.dom().contains(hash),
        unclaimed(hashes, claimed).no_duplicates(),
    decreases hashes.len(),
{
    if hashes.len() > 0 {
        let front = hashes.drop_last();
        let last = hashes.last();
        free_blocks_are_claimed(front, claimed, hash);
        free_blocks_are_claimed(front, claimed, last);
        unclaimed_members(hashes, claimed);
        let head = unclaimed(front, claimed);
        let all = unclaimed(hashes, claimed);
        last_is_contained(hashes, hash);
        if hashes.contains(hash) && !claimed.dom().contains(hash) {
            if front.contains(hash) {
                let i = head.index_of(hash);
                assert(all[i] == hash);
            } else if head.contains(last) {
                let i = head.index_of(last);
                assert(all[i] == hash);
            } else {
                assert(all[head.len() as int] == hash);
            }
        }
    }
}

/// A block that a transfer got is loaded by that transfer; blocks of other transfers stay theirs.
/// Once it is released it is nobody's.
pub proof fn claims_belong_to_their_transfer(
    claimed: Map<u64, u64>,
    hashes: Seq<SequenceHash>,
    transfer: u64,
    hash: SequenceHash,
)
    ensures
        hashes.contains(hash) ==> claimed_by(claimed, hashes, transfer).dom().contains(hash)
            && claimed_by(claimed, hashes, transfer)[hash] == transfer,
        !hashes.contains(hash) ==> claimed_by(claimed, hashes, transfer).dom().contains(hash)
            == claimed.dom().contains(hash),
        !hashes.contains(hash) && claimed.dom().contains(hash) ==> claimed_by(
            claimed,
            hashes,
            transfer,
        )[hash] == claimed[hash] && released(claimed, hashes)[hash] == claimed[hash],
        released(claimed, hashes).dom().contains(hash) <==> claimed.dom().contains(hash)
            && !hashes.contains(hash),
{
    claimed_by_dom(claimed, hashes, transfer);
    released_dom(claimed, hashes);
}

/// Who waits for blocks waits for the transfers that load them, in the order of the blocks.
pub proof fn waiting_is_for_the_loading_transfers(
    hashes: Seq<SequenceHash>,
    claimed: Map<u64, u64>,
    hash: SequenceHash,
)
    ensures
        loaders(Seq::empty(), claimed).len() == 0,
        claimed.dom().contains(hash) ==> loaders(hashes.push(hash), claimed) == loaders(
            hashes,
            claimed,
        ).push(claimed[hash]),
        !claimed.dom().contains(hash) ==> loaders(hashes.push(hash), claimed) == loaders(
            hashes,
            claimed,
        ),
{
    assert(hashes.push(hash).drop_last() =~= hashes);
}

/// A setting of this library goes before one of the cloud provider, and one that is not set is
/// left out.
pub proof fn own_settings_go_first(a: Option<String>, b: Option<String>, default: bool)
    ensures
        a is Some ==> first_set(a, b) == a,
        a is None ==> first_set(a, b) == b,
        a is None ==> flag_or(a, default) == default,
        a is Some && a->0@ == "1"@ ==> flag_or(a, default),
        a is Some && text::lower_case(a->0@) == "true"@ ==> flag_or(a, default),
        a is Some && a->0@ != "1"@ && text::lower_case(a->0@) != "true"@ ==> !flag_or(a, default),
{
}

/// Object storage is described by the settings of this library, and by those of the cloud provider
/// where this library has none.
pub proof fn object_storage_takes_the_settings(env: RemoteStorageEnv)
    ensures
        ({
            let config = object_storage(env);
            &&& config is Object
            &&& config->bucket_template == if env.object_bucket is Some {
                env.object_bucket
            } else {
                env.aws_default_bucket
            }
            &&& config->endpoint == if env.object_endpoint is Some {
                env.object_endpoint
            } else if env.aws_endpoint_url is Some {
                env.aws_endpoint_url
            } else {
                env.aws_endpoint_override
            }
            &&& config->region == if env.object_region is Some {
                env.object_region
            } else {
                env.aws_region
            }
            &&& config->access_key == if env.object_access_key is Some {
                env.object_access_key
            } else {
                env.aws_access_key_id
            }
            &&& config->secret_key == if env.object_secret_key is Some {
                env.object_secret_key
            } else {
                env.aws_secret_access_key
            }
            &&& config->session_token == if env.object_session_token is Some {
                env.object_session_token
            } else {
                env.aws_session_token
            }
            &&& config->scheme == env.object_scheme
            &&& config->req_checksum == env.object_req_checksum
            &&& config->ca_bundle == env.object_ca_bundle
            &&& config->use_virtual_addressing is Some
                <==> env.object_use_virtual_addressing is Some
        }),
{
}

/// Disk storage lies at the path that is set, or at the first of the paths, and goes through the
/// direct path unless that is switched off: both ways, or for reads only where that is asked for.
pub proof fn disk_storage_takes_the_settings(
    env: RemoteStorageEnv,
    config: Option<RemoteStorageConfig>,
)
    requires
        is_disk_storage(config, env),
    ensures
        ({
            let has_path = env.disk_path is Some && env.disk_path->0@.len() > 0;
            let has_paths = env.disk_paths is Some && env.disk_paths->0@.len() > 0;
            &&& config is Some <==> has_path || has_paths
            &&& config matches Some(config) ==> {
                &&& config is Disk
                &&& has_path ==> config->base_path@ == env.disk_path->0@
                &&& !has_path ==> config->base_path@ == baggage::first_item(env.disk_paths->0@)
                &&& env.disk_use_gds is None && env.disk_gds_reads_only is None
                    ==> config->transfer_flags == DISK_FLAGS_GDS_BOTH
                &&& env.disk_use_gds is Some && !means_yes(env.disk_use_gds->0@)
                    ==> config->transfer_flags == DISK_FLAGS_POSIX_BOTH
                &&& (env.disk_use_gds is None || means_yes(env.disk_use_gds->0@))
                    && env.disk_gds_reads_only is Some && means_yes(env.disk_gds_reads_only->0@)
                    ==> config->transfer_flags == DISK_FLAGS_GDS_READS_ONLY
            }
        }),
{
}

/// The type of storage decides where it is given. Without it a bucket means object storage, and
/// else a path means disk storage.
pub proof fn storage_types_decide(
    config: Option<RemoteStorageConfig>,
    kind: Seq<char>,
    env: RemoteStorageEnv,
)
    requires
        is_storage_of(config, kind, env),
    ensures
        kind == "disk"@ ==> is_disk_storage(config, env),
        kind == "object"@ ==> config is Some && config->0 is Object,
        kind != "disk"@ && kind != "object"@ && (env.object_bucket is Some
            || env.aws_default_bucket is Some) ==> config is Some && config->0 is Object,
        kind != "disk"@ && kind != "object"@ && env.object_bucket is None
            && env.aws_default_bucket is None ==> is_disk_storage(config, env),
{
    reveal_strlit("disk");
    reveal_strlit("object");
    assert("disk"@.len() != "object"@.len());
}

/// The bytes of a block add up over the workers, and the leader uses no more device blocks than
/// every worker has.
pub proof fn workers_add_up(workers: Seq<WorkerMetadata>, worker: WorkerMetadata, least: usize)
    requires
        is_least(workers, least),
    ensures
        total_bytes(workers, 0) == 0,
        total_bytes(workers.push(worker), workers.len() + 1) == total_bytes(workers, workers.len())
            + worker.bytes_per_block,
        forall|i: int| 0 <= i < workers.len() ==> (#[trigger] workers[i]).num_device_blocks >= least,
        exists|i: int| 0 <= i < workers.len() && (#[trigger] workers[i]).num_device_blocks == least,
{
    prefix_bytes(workers, worker, workers.len());
    assert(workers.push(worker)[workers.len() as int] == worker);
}

proof fn prefix_bytes(workers: Seq<WorkerMetadata>, worker: WorkerMetadata, n: nat)
    requires
        n <= workers.len(),
    ensures
        total_bytes(workers.push(worker), n) == total_bytes(workers, n),
    decreases n,
{
    if n > 0 {
        prefix_bytes(workers, worker, (n - 1) as nat);
    }
}

/// What was set holds, and else the default.
pub proof fn settings_go_before_defaults(
    config: KvbmLeaderNumBlocksConfig,
    text: Option<String>,
    value: Option<usize>,
    default_text: Seq<char>,
    default: usize,
)
    ensures
        text is Some ==> text_or(text, default_text) == text->0@,
        text is None ==> text_or(text, default_text) == default_text,
        value is Some ==> value_or(value, default) == value->0,
        value is None ==> value_or(value, default) == default,
        config.is_configured() <==> config.num_blocks_overriden > 0 || config.has_cache_size,
{
}

} // verus!
