//! The cache of opened remote-disk files.

use std::time::Duration;

use vstd::prelude::*;

use crate::table::{self, Table, TableKey};
use crate::text::parse_number;

verus! {

/// The number of files that stay open where the environment says nothing.
pub const DEFAULT_REMOTE_DISK_FD_CACHE_MAX_ENTRIES: usize = 131_072;

/// Names an opened and registered file.
pub type DiskStorageId = u64;

/// The most files that stay open, by the setting of the environment.
pub fn fd_cache_max_entries(setting: &Option<String>) -> (max_entries: usize)
    ensures
        max_entries == crate::slot_config::size_or(
            crate::text::text_view(*setting),
            DEFAULT_REMOTE_DISK_FD_CACHE_MAX_ENTRIES,
        ),
{
    match setting {
        Some(value) => match parse_number(value.as_str()) {
            Some(number) => if number <= usize::MAX as u64 {
                number as usize
            } else {
                DEFAULT_REMOTE_DISK_FD_CACHE_MAX_ENTRIES
            },
            None => DEFAULT_REMOTE_DISK_FD_CACHE_MAX_ENTRIES,
        },
        None => DEFAULT_REMOTE_DISK_FD_CACHE_MAX_ENTRIES,
    }
}

/// A file, and whether it is opened past the page cache.
#[derive(Debug)]
pub struct RemoteDiskFdCacheKey {
    pub path: String,
    pub use_odirect: bool,
}

/// The mathematical value of a [`RemoteDiskFdCacheKey`].
pub type FdCacheKeyView = (Seq<char>, bool);

impl View for RemoteDiskFdCacheKey {
    type V = FdCacheKeyView;

    open spec fn view(&self) -> FdCacheKeyView {
        (self.path@, self.use_odirect)
    }
}

impl TableKey for RemoteDiskFdCacheKey {
    fn same_key(&self, other: &Self) -> (same: bool) {
        self.path.eq(&other.path) && self.use_odirect == other.use_odirect
    }

    fn duplicate(&self) -> (copy: Self) {
        RemoteDiskFdCacheKey { path: self.path.clone(), use_odirect: self.use_odirect }
    }
}

/// An opened file, and when it was last used.
#[derive(Debug, Clone, Copy, PartialEq, Eq, Structural)]
pub struct RemoteDiskFdCacheEntry {
    pub storage: DiskStorageId,
    pub last_access_tick: u64,
}

/// Opened files, of which the least recently used one gives way where the cache is full.
pub struct RemoteDiskFdCache {
    entries: Table<RemoteDiskFdCacheKey, RemoteDiskFdCacheEntry>,
    access_tick: u64,
    max_entries: usize,
}

/// The mathematical value of a [`RemoteDiskFdCache`].
#[verifier::ext_equal]
pub struct FdCacheView {
    pub entries: Map<FdCacheKeyView, RemoteDiskFdCacheEntry>,
    pub access_tick: u64,
    /// The most entries, or zero where there is no limit.
    pub max_entries: usize,
}

/// Whether no entry was used less recently than `key`.
pub open spec fn is_oldest(
    entries: Map<FdCacheKeyView, RemoteDiskFdCacheEntry>,
    key: FdCacheKeyView,
) -> bool {
    entries.dom().contains(key) && forall|other: FdCacheKeyView| #[trigger]
        entries.dom().contains(other) ==> entries[key].last_access_tick
            <= entries[other].last_access_tick
}

/// Whether `after` is `before` without one of its least recently used entries.
pub open spec fn evicts_oldest(
    before: Map<FdCacheKeyView, RemoteDiskFdCacheEntry>,
    after: Map<FdCacheKeyView, RemoteDiskFdCacheEntry>,
) -> bool {
    if before.dom() == Set::<FdCacheKeyView>::empty() {
        after == before
    } else {
        exists|key: FdCacheKeyView| #[trigger] is_oldest(before, key) && after == before.remove(key)
    }
}

/// Whether some entry is the file `storage`.
pub open spec fn holds_storage(
    entries: Map<FdCacheKeyView, RemoteDiskFdCacheEntry>,
    storage: DiskStorageId,
) -> bool {
    exists|key: FdCacheKeyView| #[trigger]
        entries.dom().contains(key) && entries[key].storage == storage
}

impl FdCacheView {
    /// Whether another entry takes the place of an old one.
    pub open spec fn is_full(self) -> bool {
        self.max_entries > 0 && self.entries.dom().len() >= self.max_entries
    }

    /// Whether the limit is kept.
    pub open spec fn within_limit(self) -> bool {
        self.entries.dom().finite() && (self.max_entries > 0 ==> self.entries.dom().len()
            <= self.max_entries)
    }

    /// Whether `room` is what stays when another entry comes.
    pub open spec fn makes_room(self, room: Map<FdCacheKeyView, RemoteDiskFdCacheEntry>) -> bool {
        if self.is_full() {
            evicts_oldest(self.entries, room)
        } else {
            room == self.entries
        }
    }

    /// The next point in time; the clock starts over after its last one.
    pub open spec fn next_tick(self) -> u64 {
        if self.access_tick == u64::MAX {
            0
        } else {
            (self.access_tick + 1) as u64
        }
    }

    /// The cache after a lookup of `key`.
    pub open spec fn looked_up(self, key: FdCacheKeyView) -> FdCacheView {
        FdCacheView {
            entries: if self.entries.dom().contains(key) {
                self.entries.insert(
                    key,
                    RemoteDiskFdCacheEntry {
                        storage: self.entries[key].storage,
                        last_access_tick: self.next_tick(),
                    },
                )
            } else {
                self.entries
            },
            access_tick: self.next_tick(),
            max_entries: self.max_entries,
        }
    }

    /// The cache after `storage` was put next to what is in `room`.
    pub open spec fn put(
        self,
        room: Map<FdCacheKeyView, RemoteDiskFdCacheEntry>,
        key: FdCacheKeyView,
        storage: DiskStorageId,
    ) -> FdCacheView {
        FdCacheView {
            entries: room.insert(
                key,
                RemoteDiskFdCacheEntry { storage, last_access_tick: self.next_tick() },
            ),
            access_tick: self.next_tick(),
            max_entries: self.max_entries,
        }
    }

    /// Whether no entry was used later than now.
    pub open spec fn ticks_past(self) -> bool {
        forall|key: FdCacheKeyView| #[trigger]
            self.entries.dom().contains(key) ==> self.entries[key].last_access_tick
                <= self.access_tick
    }
}

impl View for RemoteDiskFdCache {
    type V = FdCacheView;

    closed spec fn view(&self) -> FdCacheView {
        FdCacheView {
            entries: self.entries@,
            access_tick: self.access_tick,
            max_entries: self.max_entries,
        }
    }
}

impl RemoteDiskFdCache {
    /// An empty cache of at most `max_entries` files; zero stands for no limit.
    pub fn new(max_entries: usize) -> (cache: Self)
        ensures
            cache@ == (FdCacheView { entries: Map::empty(), access_tick: 0, max_entries }),
    {
        RemoteDiskFdCache { entries: Table::new(), access_tick: 0, max_entries }
    }

    fn next_tick(&mut self) -> (tick: u64)
        ensures
            tick == old(self)@.next_tick(),
            final(self)@ == (FdCacheView { access_tick: tick, ..old(self)@ }),
    {
        self.access_tick = self.access_tick.wrapping_add(1);
        self.access_tick
    }

    /// The file under `key`, which counts as used now.
    pub fn get(&mut self, key: &RemoteDiskFdCacheKey) -> (storage: Option<DiskStorageId>)
        ensures
            final(self)@ == old(self)@.looked_up(key@),
            match storage {
                Some(storage) => old(self)@.entries.dom().contains(key@) && storage
                    == old(self)@.entries[key@].storage,
                None => !old(self)@.entries.dom().contains(key@),
            },
    {
        let tick: u64 = self.next_tick();
        let entry: Option<RemoteDiskFdCacheEntry> = match self.entries.get(key) {
            Some(entry) => Some(*entry),
            None => None,
        };
        match entry {
            Some(entry) => {
                let used = RemoteDiskFdCacheEntry { storage: entry.storage, last_access_tick: tick };
                self.entries.insert(key.duplicate(), used);
                Some(entry.storage)
            },
            None => None,
        }
    }

    /// Puts an opened file into the cache, which gives up its least recently used file where it
    /// is full.
    pub fn insert(&mut self, key: RemoteDiskFdCacheKey, storage: DiskStorageId) -> (kept:
        DiskStorageId)
        ensures
            kept == storage,
            exists|room: Map<FdCacheKeyView, RemoteDiskFdCacheEntry>| #[trigger]
                old(self)@.makes_room(room) && final(self)@ == old(self)@.put(room, key@, storage),
            old(self)@.within_limit() ==> final(self)@.within_limit(),
    {
        let n: usize = self.entries.len();
        if self.max_entries > 0 && n >= self.max_entries {
            self.evict_lru();
        }
        let ghost room = self@.entries;
        assert(old(self)@.makes_room(room));
        let tick: u64 = self.next_tick();
        let ghost k = key@;
        self.entries.insert(key, RemoteDiskFdCacheEntry { storage, last_access_tick: tick });
        proof {
            assert(self@ =~= old(self)@.put(room, k, storage));
            if old(self)@.within_limit() {
                if old(self)@.is_full() && old(self)@.entries.dom()
                    != Set::<FdCacheKeyView>::empty() {
                    let oldest = choose|key: FdCacheKeyView| #[trigger]
                        is_oldest(old(self)@.entries, key) && room == old(self)@.entries.remove(key);
                    assert(room.dom() =~= old(self)@.entries.dom().remove(oldest));
                }
                assert(self@.entries.dom() =~= room.dom().insert(k));
            }
        }
        storage
    }

    /// Drops one of the least recently used files.
    pub fn evict_lru(&mut self)
        ensures
            final(self)@.access_tick == old(self)@.access_tick,
            final(self)@.max_entries == old(self)@.max_entries,
            evicts_oldest(old(self)@.entries, final(self)@.entries),
    {
        let keys: Vec<RemoteDiskFdCacheKey> = self.entries.keys();
        let ghost views = table::key_views(keys@);
        if keys.len() == 0 {
            assert(views.to_set() =~= Set::<FdCacheKeyView>::empty());
            return;
        }
        let ghost entries = self@.entries;
        let mut oldest: usize = 0;
        assert(views.to_set().contains(views[0]));
        let mut least: u64 = match self.entries.get(&keys[0]) {
            Some(entry) => entry.last_access_tick,
            None => 0,
        };
        let mut i: usize = 1;
        while i < keys.len()
            invariant
                1 <= i <= keys@.len(),
                oldest < i,
                entries == self@.entries,
                views == table::key_views(keys@),
                views.to_set() == entries.dom(),
                entries.dom().contains(views[oldest as int]),
                least == entries[views[oldest as int]].last_access_tick,
                forall|j: int|
                    0 <= j < i ==> least <= entries[#[trigger] views[j]].last_access_tick,
            decreases keys@.len() - i,
        {
            assert(views.to_set().contains(views[i as int]));
            match self.entries.get(&keys[i]) {
                Some(entry) => {
                    if entry.last_access_tick < least {
                        least = entry.last_access_tick;
                        oldest = i;
                    }
                },
                None => {},
            }
            i = i + 1;
        }
        proof {
            let key = views[oldest as int];
            assert forall|other: FdCacheKeyView| #[trigger]
                entries.dom().contains(other) implies entries[key].last_access_tick
                <= entries[other].last_access_tick by {
                assert(views.to_set().contains(other));
                let j = choose|j: int| 0 <= j < views.len() && views[j] == other;
                assert(least <= entries[views[j]].last_access_tick);
            }
            assert(is_oldest(entries, key));
        }
        self.entries.remove(&keys[oldest]);
    }

    /// Whether the cache still holds a file; one that it gave up can be closed.
    pub fn holds(&self, storage: DiskStorageId) -> (held: bool)
        ensures
            held == holds_storage(self@.entries, storage),
    {
        let keys: Vec<RemoteDiskFdCacheKey> = self.entries.keys();
        let ghost views = table::key_views(keys@);
        let mut i: usize = 0;
        while i < keys.len()
            invariant
                i <= keys@.len(),
                views == table::key_views(keys@),
                views.to_set() == self@.entries.dom(),
                forall|j: int|
                    0 <= j < i ==> self@.entries[#[trigger] views[j]].storage != storage,
            decreases keys@.len() - i,
        {
            assert(views.to_set().contains(views[i as int]));
            match self.entries.get(&keys[i]) {
                Some(entry) => {
                    if entry.storage == storage {
                        return true;
                    }
                },
                None => {},
            }
            i = i + 1;
        }
        proof {
            assert forall|key: FdCacheKeyView| #[trigger]
                self@.entries.dom().contains(key) implies self@.entries[key].storage != storage by {
                assert(views.to_set().contains(key));
                let j = choose|j: int| 0 <= j < views.len() && views[j] == key;
                assert(self@.entries[views[j]].storage != storage);
            }
        }
        false
    }

    /// Drops every file.
    pub fn clear(&mut self)
        ensures
            final(self)@ == (FdCacheView {
                entries: Map::empty(),
                access_tick: 0,
                max_entries: old(self)@.max_entries,
            }),
    {
        self.entries.clear();
        self.access_tick = 0;
    }

    /// The file to use once `storage` was opened under `key`: the one that another task put into
    /// the cache meanwhile, where there is one, and else `storage`, which the cache takes in.
    pub fn opened(&mut self, key: RemoteDiskFdCacheKey, storage: DiskStorageId) -> (kept:
        DiskStorageId)
        ensures
            old(self)@.entries.dom().contains(key@) ==> kept == old(self)@.entries[key@].storage
                && final(self)@ == old(self)@.looked_up(key@),
            !old(self)@.entries.dom().contains(key@) ==> kept == storage && exists|
                room: Map<FdCacheKeyView, RemoteDiskFdCacheEntry>,
            | #[trigger]
                old(self)@.looked_up(key@).makes_room(room) && final(self)@ == old(self)@.looked_up(
                    key@,
                ).put(room, key@, storage),
    {
        match self.get(&key) {
            Some(existing) => existing,
            None => self.insert(key, storage),
        }
    }
}

/// A file that was just looked up stays when the next one comes, as long as there is another to
/// give way.
pub proof fn just_used_file_stays(
    cache: FdCacheView,
    key: FdCacheKeyView,
    other: FdCacheKeyView,
    room: Map<FdCacheKeyView, RemoteDiskFdCacheEntry>,
)
    requires
        cache.ticks_past(),
        cache.access_tick < u64::MAX,
        cache.entries.dom().contains(key),
        cache.entries.dom().contains(other),
        other != key,
        cache.looked_up(key).makes_room(room),
    ensures
        room.dom().contains(key),
        room[key].storage == cache.entries[key].storage,
{
    let after = cache.looked_up(key);
    if after.is_full() {
        assert(after.entries.dom().contains(key));
        let oldest = choose|k: FdCacheKeyView| #[trigger]
            is_oldest(after.entries, k) && room == after.entries.remove(k);
        assert(after.entries.dom().contains(other));
        assert(after.entries[other] == cache.entries[other]);
    }
}

/// No entry is ever used later than now: a lookup and an insertion keep it so, as long as the
/// clock does not wrap.
pub proof fn use_is_never_in_the_future(
    cache: FdCacheView,
    key: FdCacheKeyView,
    storage: DiskStorageId,
    room: Map<FdCacheKeyView, RemoteDiskFdCacheEntry>,
)
    requires
        cache.ticks_past(),
        cache.access_tick < u64::MAX,
        cache.makes_room(room),
    ensures
        cache.looked_up(key).ticks_past(),
        cache.put(room, key, storage).ticks_past(),
{
    let put = cache.put(room, key, storage);
    if cache.is_full() && cache.entries.dom() != Set::<FdCacheKeyView>::empty() {
        let oldest = choose|k: FdCacheKeyView| #[trigger]
            is_oldest(cache.entries, k) && room == cache.entries.remove(k);
    }
    assert forall|k: FdCacheKeyView| #[trigger]
        put.entries.dom().contains(k) implies put.entries[k].last_access_tick
        <= put.access_tick by {
        if k != key {
            assert(cache.entries.dom().contains(k));
        }
    }
}

/// A file that was put into the cache is the one that the next lookup finds.
pub proof fn stored_file_is_found(
    cache: FdCacheView,
    room: Map<FdCacheKeyView, RemoteDiskFdCacheEntry>,
    key: FdCacheKeyView,
    storage: DiskStorageId,
)
    ensures
        cache.put(room, key, storage).entries.dom().contains(key),
        cache.put(room, key, storage).entries[key].storage == storage,
{
}

/// Takes the recorded times of opening and registering files, and leaves none behind.
pub fn take_fd_open_durations(recorded: &mut Vec<Duration>) -> (durations: Vec<Duration>)
    ensures
        durations@ == old(recorded)@,
        final(recorded)@ == Seq::<Duration>::empty(),
{
    let mut durations: Vec<Duration> = Vec::new();
    std::mem::swap(&mut durations, recorded);
    durations
}

/// What is reported of a file that cannot be opened.
pub open spec fn open_failure(create: bool, path: Seq<char>, reason: Seq<char>) -> Seq<char> {
    (if create {
        "Failed to create RemoteDiskStorage at "@
    } else {
        "Failed to open RemoteDiskStorage at "@
    }) + path + ": "@ + reason
}

/// The report of a file that cannot be opened.
pub fn open_failure_string(create: bool, path: &str, reason: &str) -> (text: String)
    ensures
        text@ == open_failure(create, path@, reason@),
{
    let mut text: String = if create {
        "Failed to create RemoteDiskStorage at ".to_string()
    } else {
        "Failed to open RemoteDiskStorage at ".to_string()
    };
    text.append(path);
    text.append(": ");
    text.append(reason);
    text
}

/// What is reported of a file that cannot be registered.
pub open spec fn register_failure(path: Seq<char>, reason: Seq<char>) -> Seq<char> {
    "Failed to register disk storage "@ + path + ": "@ + reason
}

/// The report of a file that cannot be registered.
pub fn register_failure_string(path: &str, reason: &str) -> (text: String)
    ensures
        text@ == register_failure(path@, reason@),
{
    let mut text: String = "Failed to register disk storage ".to_string();
    text.append(path);
    text.append(": ");
    text.append(reason);
    text
}

} // verus!
