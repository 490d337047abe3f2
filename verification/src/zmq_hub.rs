//! The registry hub: what it stores, and how it answers queries.

use std::marker::PhantomData;

use vstd::prelude::*;

use crate::table::{Table, TableKey};
use crate::zmq_transport::{self, frame, tcp_address_string, unframe};

verus! {

/// Where the hub listens, and how much it holds.
#[derive(Debug)]
pub struct ZmqHubConfig {
    pub query_addr: String,
    pub pull_addr: String,
    pub capacity: u64,
}

impl ZmqHubConfig {
    /// A hub at the given addresses.
    pub fn new(query_addr: &str, pull_addr: &str) -> (config: Self)
        ensures
            config.query_addr@ == query_addr@,
            config.pull_addr@ == pull_addr@,
            config.capacity == 100_000,
    {
        ZmqHubConfig {
            query_addr: query_addr.to_string(),
            pull_addr: pull_addr.to_string(),
            capacity: 100_000,
        }
    }

    /// A hub at two ports of a host.
    pub fn with_ports(host: &str, query_port: u16, pull_port: u16) -> (config: Self)
        ensures
            config.query_addr@ == zmq_transport::tcp_address(host@, query_port),
            config.pull_addr@ == zmq_transport::tcp_address(host@, pull_port),
            config.capacity == 100_000,
    {
        let query_addr: String = tcp_address_string(host, query_port);
        let pull_addr: String = tcp_address_string(host, pull_port);
        Self::new(query_addr.as_str(), pull_addr.as_str())
    }

    /// A hub at two ports of all interfaces.
    pub fn bind_all(query_port: u16, pull_port: u16) -> (config: Self)
        ensures
            config.query_addr@ == zmq_transport::tcp_address("*"@, query_port),
            config.pull_addr@ == zmq_transport::tcp_address("*"@, pull_port),
            config.capacity == 100_000,
    {
        Self::with_ports("*", query_port, pull_port)
    }
}

impl Clone for ZmqHubConfig {
    fn clone(&self) -> (copy: Self)
        ensures
            copy == *self,
    {
        ZmqHubConfig {
            query_addr: self.query_addr.clone(),
            pull_addr: self.pull_addr.clone(),
            capacity: self.capacity,
        }
    }
}

impl Default for ZmqHubConfig {
    fn default() -> (config: Self)
        ensures
            config.query_addr@ == zmq_transport::tcp_address("*"@, 5555),
            config.pull_addr@ == zmq_transport::tcp_address("*"@, 5556),
            config.capacity == 100_000,
    {
        Self::bind_all(5555, 5556)
    }
}

/// A question to the hub.
#[derive(Debug)]
pub enum QueryType<K> {
    /// Which of the keys may be stored.
    CanOffload(Vec<K>),
    /// Which of the keys are stored, and what under them.
    Match(Vec<K>),
    /// Forget the keys.
    Remove(Vec<K>),
    /// The keys are in use.
    Touch(Vec<K>),
}

/// Whether a key may be stored.
#[derive(Debug, Clone, Copy, PartialEq, Eq, Structural)]
pub enum OffloadStatus {
    Granted,
    AlreadyStored,
}

/// The metadata of a registry whose entries have none.
#[derive(Debug, Clone, Copy, PartialEq, Eq, Structural)]
pub struct NoMetadata;

impl Default for NoMetadata {
    fn default() -> (metadata: Self)
        ensures
            metadata == NoMetadata,
    {
        NoMetadata
    }
}

/// An answer of the hub.
#[derive(Debug)]
pub enum ResponseType<K, V, M> {
    CanOffload(Vec<OffloadStatus>),
    /// The keys that are stored, what is stored under them, and their metadata.
    Match(Vec<(K, V, M)>),
    Remove(usize),
    Touch(usize),
}

/// The views of a sequence of keys.
pub open spec fn keys_of<K: TableKey>(keys: Seq<K>) -> Seq<K::V> {
    keys.map_values(|key: K| key@)
}

/// Whether each of `keys` may be stored: it may unless it is.
pub open spec fn offload_statuses<T, V>(keys: Seq<T>, stored: Map<T, V>) -> Seq<OffloadStatus> {
    keys.map_values(
        |key: T|
            if stored.dom().contains(key) {
                OffloadStatus::AlreadyStored
            } else {
                OffloadStatus::Granted
            },
    )
}

/// What is stored under `keys`, in the order of `keys`; a key without a value is left out.
pub open spec fn stored_entries<T, V>(keys: Seq<T>, stored: Map<T, V>) -> Seq<(T, V)>
    decreases keys.len(),
{
    if keys.len() == 0 {
        Seq::empty()
    } else {
        let head = stored_entries(keys.drop_last(), stored);
        if stored.dom().contains(keys.last()) {
            head.push((keys.last(), stored[keys.last()]))
        } else {
            head
        }
    }
}

/// What is stored once the first `n` of `keys` are forgotten, and how many of them were there.
pub open spec fn forgotten<T, V>(keys: Seq<T>, stored: Map<T, V>, n: nat) -> (Map<T, V>, nat)
    decreases n,
{
    if n == 0 {
        (stored, 0)
    } else {
        let before = forgotten(keys, stored, (n - 1) as nat);
        let key = keys[n - 1];
        (
            before.0.remove(key),
            if before.0.dom().contains(key) {
                before.1 + 1
            } else {
                before.1
            },
        )
    }
}

/// What is stored once the first `n` of `entries` are registered, later ones winning. Metadata is
/// not stored.
pub open spec fn registered<K: TableKey, V, M>(
    entries: Seq<(K, V, M)>,
    stored: Map<K::V, V>,
    n: nat,
) -> Map<K::V, V>
    decreases n,
{
    if n == 0 {
        stored
    } else {
        registered(entries, stored, (n - 1) as nat).insert(entries[n - 1].0@, entries[n - 1].1)
    }
}

/// The keys and values of the entries of an answer.
pub open spec fn entry_views<K: TableKey, V, M>(entries: Seq<(K, V, M)>) -> Seq<(K::V, V)> {
    entries.map_values(|entry: (K, V, M)| (entry.0@, entry.1))
}

/// Whether each of `entries` has the default metadata of its type.
pub open spec fn have_default_metadata<K, V, M: Default>(entries: Seq<(K, V, M)>) -> bool {
    forall|i: int|
        #![trigger entries[i]]
        0 <= i < entries.len() ==> call_ensures(M::default, (), entries[i].2)
}

/// The hub. It stores no metadata: `M` is what the entries on the wire carry.
pub struct ZmqHub<K: TableKey, V, M> {
    pub config: ZmqHubConfig,
    pub storage: Table<K, V>,
    pub metadata: PhantomData<M>,
}

impl<K: TableKey, V: Copy, M: Default> ZmqHub<K, V, M> {
    /// A hub that holds `storage`.
    pub fn new(config: ZmqHubConfig, storage: Table<K, V>) -> (hub: Self)
        ensures
            hub.config == config,
            hub.storage == storage,
    {
        ZmqHub { config, storage, metadata: PhantomData }
    }

    /// What the hub holds.
    pub fn storage(&self) -> (storage: &Table<K, V>)
        ensures
            *storage == self.storage,
    {
        &self.storage
    }

    /// Answers a query. Only a removal changes what the hub holds. A query that could not be
    /// decoded has no answer.
    pub fn handle_query(&mut self, query: Option<&QueryType<K>>) -> (response: Option<
        ResponseType<K, V, M>,
    >)
        ensures
            final(self).config == old(self).config,
            match query {
                None => response is None && final(self).storage@ == old(self).storage@,
                Some(query) => match *query {
                    QueryType::CanOffload(keys) => {
                        &&& response matches Some(ResponseType::CanOffload(statuses))
                        &&& statuses@ == offload_statuses(keys_of(keys@), old(self).storage@)
                        &&& final(self).storage@ == old(self).storage@
                    },
                    QueryType::Match(keys) => {
                        &&& response matches Some(ResponseType::Match(entries))
                        &&& entry_views(entries@) == stored_entries(
                            keys_of(keys@),
                            old(self).storage@,
                        )
                        &&& have_default_metadata(entries@)
                        &&& final(self).storage@ == old(self).storage@
                    },
                    QueryType::Remove(keys) => {
                        let after = forgotten(keys_of(keys@), old(self).storage@, keys@.len());
                        &&& response matches Some(ResponseType::Remove(count))
                        &&& count == after.1
                        &&& final(self).storage@ == after.0
                    },
                    QueryType::Touch(keys) => {
                        &&& response matches Some(ResponseType::Touch(count))
                        &&& count == keys@.len()
                        &&& final(self).storage@ == old(self).storage@
                    },
                },
            },
    {
        match query {
            None => None,
            Some(QueryType::CanOffload(keys)) => Some(
                ResponseType::CanOffload(self.can_offload(keys)),
            ),
            Some(QueryType::Match(keys)) => Some(ResponseType::Match(self.match_keys(keys))),
            Some(QueryType::Remove(keys)) => Some(ResponseType::Remove(self.remove_keys(keys))),
            Some(QueryType::Touch(keys)) => Some(ResponseType::Touch(keys.len())),
        }
    }

    fn can_offload(&self, keys: &Vec<K>) -> (statuses: Vec<OffloadStatus>)
        ensures
            statuses@ == offload_statuses(keys_of(keys@), self.storage@),
    {
        let ghost all = offload_statuses(keys_of(keys@), self.storage@);
        let mut statuses: Vec<OffloadStatus> = Vec::new();
        let mut i: usize = 0;
        while i < keys.len()
            invariant
                i <= keys@.len(),
                all == offload_statuses(keys_of(keys@), self.storage@),
                statuses@ =~= all.subrange(0, i as int),
            decreases keys@.len() - i,
        {
            if self.storage.contains_key(&keys[i]) {
                statuses.push(OffloadStatus::AlreadyStored);
            } else {
                statuses.push(OffloadStatus::Granted);
            }
            i = i + 1;
        }
        assert(statuses@ =~= all);
        statuses
    }

    fn match_keys(&self, keys: &Vec<K>) -> (entries: Vec<(K, V, M)>)
        ensures
            entry_views(entries@) == stored_entries(keys_of(keys@), self.storage@),
            have_default_metadata(entries@),
    {
        let ghost all = keys_of(keys@);
        let mut entries: Vec<(K, V, M)> = Vec::new();
        let mut i: usize = 0;
        assert(all.subrange(0, 0) =~= Seq::<K::V>::empty());
        assert(entry_views(entries@) =~= Seq::<(K::V, V)>::empty());
        while i < keys.len()
            invariant
                i <= keys@.len(),
                all == keys_of(keys@),
                entry_views(entries@) == stored_entries(
                    all.subrange(0, i as int),
                    self.storage@,
                ),
                have_default_metadata(entries@),
            decreases keys@.len() - i,
        {
            let ghost before = entries@;
            let ghost upto = all.subrange(0, i + 1);
            assert(upto.drop_last() =~= all.subrange(0, i as int));
            assert(upto.last() == keys@[i as int]@);
            match self.storage.get(&keys[i]) {
                Some(value) => {
                    let entry: (K, V, M) = (keys[i].duplicate(), *value, M::default());
                    entries.push(entry);
                    assert(entry_views(entries@) =~= entry_views(before).push(
                        (entry.0@, entry.1),
                    ));
                },
                None => {},
            }
            i = i + 1;
        }
        assert(all.subrange(0, keys@.len() as int) =~= all);
        entries
    }

    fn remove_keys(&mut self, keys: &Vec<K>) -> (count: usize)
        ensures
            (final(self).storage@, count as nat) == forgotten(
                keys_of(keys@),
                old(self).storage@,
                keys@.len(),
            ),
            final(self).config == old(self).config,
    {
        let ghost all = keys_of(keys@);
        let mut count: usize = 0;
        let mut i: usize = 0;
        while i < keys.len()
            invariant
                i <= keys@.len(),
                all == keys_of(keys@),
                count <= i,
                self.config == old(self).config,
                (self.storage@, count as nat) == forgotten(all, old(self).storage@, i as nat),
            decreases keys@.len() - i,
        {
            assert(all[i as int] == keys@[i as int]@);
            if self.storage.remove(&keys[i]).is_some() {
                count = count + 1;
            }
            i = i + 1;
        }
        count
    }

    /// Stores entries in order, without their metadata; a later entry replaces an earlier one
    /// with the same key. A registration that could not be decoded stores nothing.
    pub fn handle_registration(&mut self, entries: Option<Vec<(K, V, M)>>)
        ensures
            final(self).storage@ == match entries {
                Some(entries) => registered(entries@, old(self).storage@, entries@.len()),
                None => old(self).storage@,
            },
            final(self).config == old(self).config,
    {
        let entries: Vec<(K, V, M)> = match entries {
            Some(entries) => entries,
            None => {
                return;
            },
        };
        let mut i: usize = 0;
        while i < entries.len()
            invariant
                i <= entries@.len(),
                self.config == old(self).config,
                self.storage@ == registered(entries@, old(self).storage@, i as nat),
            decreases entries@.len() - i,
        {
            let key: K = entries[i].0.duplicate();
            let value: V = entries[i].1;
            self.storage.insert(key, value);
            i = i + 1;
        }
    }
}

/// A query as it reaches the hub: who asks, under which request id, and what.
#[derive(Debug)]
pub struct RoutedQuery {
    pub identity: Vec<u8>,
    pub request_id: u32,
    pub query: Vec<u8>,
}

/// The query in the frames of a message: the first frame names the asker, the last one holds the
/// request id and the query. Messages with fewer frames or a shorter last frame hold none.
pub open spec fn routed(frames: Seq<Vec<u8>>) -> Option<(Seq<u8>, u32, Seq<u8>)> {
    if frames.len() < 2 {
        None
    } else {
        match zmq_transport::unframed(frames.last()@) {
            Some((request_id, query)) => Some((frames[0]@, request_id, query)),
            None => None,
        }
    }
}

/// The query in the frames of a message.
pub fn route_query(frames: &[Vec<u8>]) -> (query: Option<RoutedQuery>)
    ensures
        match query {
            Some(query) => routed(frames@) == Some(
                (query.identity@, query.request_id, query.query@),
            ),
            None => routed(frames@) is None,
        },
{
    if frames.len() < 2 {
        return None;
    }
    match unframe(frames[frames.len() - 1].as_slice()) {
        Some((request_id, query)) => {
            let identity: Vec<u8> = frames[0].clone();
            assert(identity@ =~= frames@[0]@);
            Some(RoutedQuery { identity, request_id, query })
        },
        None => None,
    }
}

/// The frames of a reply: who asked, and the response behind the request id of the query.
pub fn reply_frames(query: &RoutedQuery, response: &[u8]) -> (frames: Vec<Vec<u8>>)
    ensures
        frames@.len() == 2,
        frames@[0]@ == query.identity@,
        frames@[1]@ == zmq_transport::framed(query.request_id, response@),
{
    let identity: Vec<u8> = query.identity.clone();
    assert(identity@ =~= query.identity@);
    let mut frames: Vec<Vec<u8>> = Vec::new();
    frames.push(identity);
    frames.push(frame(query.request_id, response));
    frames
}

/// The hub answers under the request id that the client sent: whatever the response is, the
/// client finds its own id in front of it.
pub proof fn hub_echoes_request_id(
    request_id: u32,
    query: Seq<u8>,
    response: Seq<u8>,
    frames: Seq<Vec<u8>>,
)
    requires
        frames.len() >= 2,
        frames.last()@ == zmq_transport::framed(request_id, query),
    ensures
        routed(frames) == Some((frames[0]@, request_id, query)),
        zmq_transport::unframed(zmq_transport::framed(request_id, response)) == Some(
            (request_id, response),
        ),
{
    zmq_transport::framing_round_trips(request_id, query);
    zmq_transport::framing_round_trips(request_id, response);
}

/// A key that was registered is found, with what was registered last and whatever its metadata
/// was, and may not be stored again.
pub proof fn registered_key_is_found<K: TableKey, V, M>(
    entries: Seq<(K, V, M)>,
    stored: Map<K::V, V>,
    key: K,
    value: V,
    metadata: M,
)
    ensures
        ({
            let after = registered(
                entries.push((key, value, metadata)),
                stored,
                (entries.len() + 1) as nat,
            );
            &&& stored_entries(seq![key@], after) == seq![(key@, value)]
            &&& offload_statuses(seq![key@], after) == seq![OffloadStatus::AlreadyStored]
        }),
{
    let all = entries.push((key, value, metadata));
    let after = registered(all, stored, (entries.len() + 1) as nat);
    assert(all[entries.len() as int] == (key, value, metadata));
    assert(after.dom().contains(key@) && after[key@] == value);
    let keys = seq![key@];
    assert(keys.drop_last() =~= Seq::<K::V>::empty());
    reveal_with_fuel(stored_entries, 2);
    assert(stored_entries(keys, after) =~= seq![(key@, value)]);
    assert(offload_statuses(keys, after) =~= seq![OffloadStatus::AlreadyStored]);
}

/// A key that was removed is gone and may be stored again.
pub proof fn removed_key_is_granted<T, V>(stored: Map<T, V>, key: T)
    ensures
        ({
            let after = forgotten(seq![key], stored, 1).0;
            &&& !after.dom().contains(key)
            &&& offload_statuses(seq![key], after) == seq![OffloadStatus::Granted]
        }),
{
    reveal_with_fuel(forgotten, 2);
    let after = forgotten(seq![key], stored, 1).0;
    assert(offload_statuses(seq![key], after) =~= seq![OffloadStatus::Granted]);
}

} // verus!
