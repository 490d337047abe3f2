//! The client side of the registry transport: addresses, framing, and which caller a response
//! belongs to.

use vstd::prelude::*;

use crate::table::{self, Table, TableKey};
use crate::text::{self, append_decimal};

verus! {

/// The size of the request id in front of every query and response.
pub const REQUEST_ID_SIZE: usize = 4;

/// How many messages a socket queues.
pub const DEFAULT_HWM: i32 = 10_000;

/// How many queries wait for the socket.
pub const DEALER_CHANNEL_SIZE: usize = 256;

/// How many registrations wait for the socket.
pub const PUSH_CHANNEL_SIZE: usize = 256;

/// The address of a port of a host.
pub open spec fn tcp_address(host: Seq<char>, port: u16) -> Seq<char> {
    "tcp://"@ + host + ":"@ + text::decimal(port as nat)
}

/// The address of a port of a host.
pub fn tcp_address_string(host: &str, port: u16) -> (address: String)
    ensures
        address@ == tcp_address(host@, port),
{
    let mut address: String = "tcp://".to_string();
    address.append(host);
    address.append(":");
    append_decimal(&mut address, port as u64);
    address
}

/// Where the hub is, and how much its sockets queue.
#[derive(Debug)]
pub struct ZmqTransportConfig {
    pub query_addr: String,
    pub publish_addr: String,
    /// How many queries are queued.
    pub dealer_hwm: i32,
    /// How many registrations are queued.
    pub push_hwm: i32,
}

impl ZmqTransportConfig {
    /// A hub at the given addresses, with the default queues.
    pub fn new(query_addr: &str, publish_addr: &str) -> (config: Self)
        ensures
            config.query_addr@ == query_addr@,
            config.publish_addr@ == publish_addr@,
            config.dealer_hwm == DEFAULT_HWM,
            config.push_hwm == DEFAULT_HWM,
    {
        ZmqTransportConfig {
            query_addr: query_addr.to_string(),
            publish_addr: publish_addr.to_string(),
            dealer_hwm: DEFAULT_HWM,
            push_hwm: DEFAULT_HWM,
        }
    }

    /// A hub at two ports of a host.
    pub fn for_host(host: &str, query_port: u16, publish_port: u16) -> (config: Self)
        ensures
            config.query_addr@ == tcp_address(host@, query_port),
            config.publish_addr@ == tcp_address(host@, publish_port),
            config.dealer_hwm == DEFAULT_HWM,
            config.push_hwm == DEFAULT_HWM,
    {
        ZmqTransportConfig {
            query_addr: tcp_address_string(host, query_port),
            publish_addr: tcp_address_string(host, publish_port),
            dealer_hwm: DEFAULT_HWM,
            push_hwm: DEFAULT_HWM,
        }
    }

    /// Sets the queues of both sockets.
    pub fn with_hwm(self, hwm: i32) -> (config: Self)
        ensures
            config == (ZmqTransportConfig { dealer_hwm: hwm, push_hwm: hwm, ..self }),
    {
        ZmqTransportConfig { dealer_hwm: hwm, push_hwm: hwm, ..self }
    }

    /// Sets the queue of queries.
    pub fn with_dealer_hwm(self, hwm: i32) -> (config: Self)
        ensures
            config == (ZmqTransportConfig { dealer_hwm: hwm, ..self }),
    {
        ZmqTransportConfig { dealer_hwm: hwm, ..self }
    }

    /// Sets the queue of registrations.
    pub fn with_push_hwm(self, hwm: i32) -> (config: Self)
        ensures
            config == (ZmqTransportConfig { push_hwm: hwm, ..self }),
    {
        ZmqTransportConfig { push_hwm: hwm, ..self }
    }
}

impl Clone for ZmqTransportConfig {
    fn clone(&self) -> (copy: Self)
        ensures
            copy == *self,
    {
        ZmqTransportConfig {
            query_addr: self.query_addr.clone(),
            publish_addr: self.publish_addr.clone(),
            dealer_hwm: self.dealer_hwm,
            push_hwm: self.push_hwm,
        }
    }
}

impl Default for ZmqTransportConfig {
    fn default() -> (config: Self)
        ensures
            config.query_addr@ == "tcp://localhost:5555"@,
            config.publish_addr@ == "tcp://localhost:5556"@,
            config.dealer_hwm == DEFAULT_HWM,
            config.push_hwm == DEFAULT_HWM,
    {
        ZmqTransportConfig::new("tcp://localhost:5555", "tcp://localhost:5556")
    }
}

/// A message with a request id in front: the id in little-endian bytes, then the payload.
pub open spec fn framed(request_id: u32, payload: Seq<u8>) -> Seq<u8> {
    vstd::bytes::spec_u32_to_le_bytes(request_id) + payload
}

/// The request id and the payload of a message, unless it is too short for an id.
pub open spec fn unframed(message: Seq<u8>) -> Option<(u32, Seq<u8>)> {
    if message.len() < REQUEST_ID_SIZE {
        None
    } else {
        Some(
            (
                vstd::bytes::spec_u32_from_le_bytes(message.subrange(0, REQUEST_ID_SIZE as int)),
                message.subrange(REQUEST_ID_SIZE as int, message.len() as int),
            ),
        )
    }
}

/// What was framed comes out as it went in.
pub proof fn framing_round_trips(request_id: u32, payload: Seq<u8>)
    ensures
        unframed(framed(request_id, payload)) == Some((request_id, payload)),
{
    vstd::bytes::lemma_auto_spec_u32_to_from_le_bytes();
    let id = vstd::bytes::spec_u32_to_le_bytes(request_id);
    let message = framed(request_id, payload);
    assert(id.len() == REQUEST_ID_SIZE);
    assert(message.subrange(0, REQUEST_ID_SIZE as int) =~= id);
    assert(message.subrange(REQUEST_ID_SIZE as int, message.len() as int) =~= payload);
}

/// Every message that is long enough is the frame of its own id and payload.
pub proof fn frames_are_unambiguous(message: Seq<u8>)
    requires
        message.len() >= REQUEST_ID_SIZE,
    ensures
        unframed(message) matches Some((request_id, payload)) && framed(request_id, payload)
            == message,
{
    vstd::bytes::lemma_auto_spec_u32_to_from_le_bytes();
    let id = message.subrange(0, REQUEST_ID_SIZE as int);
    assert(id.len() == 4);
    assert(vstd::bytes::spec_u32_to_le_bytes(vstd::bytes::spec_u32_from_le_bytes(id)) == id);
    assert(id + message.subrange(REQUEST_ID_SIZE as int, message.len() as int) =~= message);
}

/// Puts a request id in front of a payload.
pub fn frame(request_id: u32, payload: &[u8]) -> (message: Vec<u8>)
    ensures
        message@ == framed(request_id, payload@),
{
    let mut message: Vec<u8> = vstd::bytes::u32_to_le_bytes(request_id);
    message.extend_from_slice(payload);
    assert(message@ =~= framed(request_id, payload@));
    message
}

/// Takes a message apart into its request id and its payload, unless it is too short.
pub fn unframe(message: &[u8]) -> (parts: Option<(u32, Vec<u8>)>)
    ensures
        match parts {
            Some((request_id, payload)) => unframed(message@) == Some((request_id, payload@)),
            None => unframed(message@) is None,
        },
{
    if message.len() < REQUEST_ID_SIZE {
        return None;
    }
    let mut id: Vec<u8> = Vec::new();
    let mut payload: Vec<u8> = Vec::new();
    let mut i: usize = 0;
    while i < message.len()
        invariant
            i <= message@.len(),
            message@.len() >= REQUEST_ID_SIZE,
            id@ =~= message@.subrange(
                0,
                if i < REQUEST_ID_SIZE {
                    i as int
                } else {
                    REQUEST_ID_SIZE as int
                },
            ),
            payload@ =~= if i < REQUEST_ID_SIZE {
                Seq::empty()
            } else {
                message@.subrange(REQUEST_ID_SIZE as int, i as int)
            },
        decreases message@.len() - i,
    {
        if i < REQUEST_ID_SIZE {
            id.push(message[i]);
        } else {
            payload.push(message[i]);
        }
        i = i + 1;
    }
    let request_id: u32 = vstd::bytes::u32_from_le_bytes(id.as_slice());
    Some((request_id, payload))
}

impl TableKey for u32 {
    fn same_key(&self, other: &Self) -> (same: bool) {
        *self == *other
    }

    fn duplicate(&self) -> (copy: Self) {
        *self
    }
}

/// Why the task of the query socket ends.
#[derive(Debug)]
pub enum DealerStop {
    /// The socket failed.
    ReceiveError(String),
    /// The socket was closed.
    SocketClosed,
    /// Nobody can ask any more.
    ShuttingDown,
}

impl DealerStop {
    /// What callers that still wait are told.
    pub open spec fn message_view(&self) -> Seq<char> {
        match self {
            DealerStop::ReceiveError(detail) => "Socket error: "@ + detail@,
            DealerStop::SocketClosed => "Socket closed"@,
            DealerStop::ShuttingDown => "DEALER task shutting down"@,
        }
    }

    /// What callers that still wait are told.
    pub fn message(&self) -> (text: String)
        ensures
            text@ == self.message_view(),
    {
        match self {
            DealerStop::ReceiveError(detail) => {
                let mut text: String = "Socket error: ".to_string();
                text.append(detail.as_str());
                text
            },
            DealerStop::SocketClosed => "Socket closed".to_string(),
            DealerStop::ShuttingDown => "DEALER task shutting down".to_string(),
        }
    }
}

/// Requests on their way, and who waits for their responses. Callers are known by numbers.
pub struct Dealer {
    pub in_flight: Table<u32, u64>,
    pub next_request_id: u32,
}

/// The mathematical value of a [`Dealer`].
#[verifier::ext_equal]
pub struct DealerView {
    pub in_flight: Map<u32, u64>,
    pub next_request_id: u32,
}

impl View for Dealer {
    type V = DealerView;

    open spec fn view(&self) -> DealerView {
        DealerView { in_flight: self.in_flight@, next_request_id: self.next_request_id }
    }
}

impl DealerView {
    /// Who gets a response, and what of it: nobody where there is no frame, where the first
    /// frame is too short for an id, or where the id is not on its way.
    pub open spec fn addressee(self, frames: Seq<Vec<u8>>) -> Option<(u64, Seq<u8>)> {
        if frames.len() == 0 {
            None
        } else {
            match unframed(frames[0]@) {
                Some((request_id, payload)) => if self.in_flight.dom().contains(request_id) {
                    Some((self.in_flight[request_id], payload))
                } else {
                    None
                },
                None => None,
            }
        }
    }

    /// After a response.
    pub open spec fn answered(self, frames: Seq<Vec<u8>>) -> DealerView {
        if self.addressee(frames) is Some {
            DealerView {
                in_flight: self.in_flight.remove((unframed(frames[0]@)->0).0),
                ..self
            }
        } else {
            self
        }
    }
}

/// Whether `replies` tell each waiting caller `message`, each once.
pub open spec fn tells_all(
    replies: Seq<(u64, String)>,
    waiting: Map<u32, u64>,
    message: Seq<char>,
) -> bool {
    exists|ids: Seq<u32>| #[trigger]
        ids.no_duplicates() && ids.to_set() == waiting.dom() && replies.len() == ids.len()
            && forall|i: int|
            0 <= i < replies.len() ==> (#[trigger] replies[i]).0 == waiting[ids[i]]
                && replies[i].1@ == message
}

impl Dealer {
    /// No request on its way; the first gets the id 1.
    pub fn new() -> (dealer: Self)
        ensures
            dealer@ == (DealerView { in_flight: Map::empty(), next_request_id: 1 }),
    {
        Dealer { in_flight: Table::new(), next_request_id: 1 }
    }

    /// The id of the next request; ids start again at zero after the last.
    pub fn allocate_id(&mut self) -> (request_id: u32)
        ensures
            request_id == old(self)@.next_request_id,
            final(self)@ == (DealerView {
                next_request_id: if request_id == u32::MAX {
                    0
                } else {
                    (request_id + 1) as u32
                },
                ..old(self)@
            }),
    {
        let request_id: u32 = self.next_request_id;
        self.next_request_id = if request_id == u32::MAX {
            0
        } else {
            request_id + 1
        };
        request_id
    }

    /// What a caller is told whose request could not be sent.
    pub fn send_failed(error: &str) -> (message: String)
        ensures
            message@ == "Failed to send request: "@ + error@,
    {
        let mut message: String = "Failed to send request: ".to_string();
        message.append(error);
        message
    }

    /// Notes that a request was sent, and who waits for the response.
    pub fn sent(&mut self, request_id: u32, caller: u64)
        ensures
            final(self)@ == (DealerView {
                in_flight: old(self)@.in_flight.insert(request_id, caller),
                ..old(self)@
            }),
    {
        self.in_flight.insert(request_id, caller);
    }

    /// Who gets a response, and what of it. The request is no longer on its way then.
    pub fn response(&mut self, frames: &[Vec<u8>]) -> (delivery: Option<(u64, Vec<u8>)>)
        ensures
            match delivery {
                Some((caller, payload)) => old(self)@.addressee(frames@) == Some(
                    (caller, payload@),
                ),
                None => old(self)@.addressee(frames@) is None,
            },
            final(self)@ == old(self)@.answered(frames@),
    {
        if frames.len() == 0 {
            return None;
        }
        match unframe(frames[0].as_slice()) {
            Some((request_id, payload)) => match self.in_flight.remove(&request_id) {
                Some(caller) => Some((caller, payload)),
                None => {
                    assert(self@ =~= old(self)@);
                    None
                },
            },
            None => None,
        }
    }

    /// Ends the task: every caller that still waits is told why.
    pub fn stop(&mut self, why: &DealerStop) -> (replies: Vec<(u64, String)>)
        ensures
            tells_all(replies@, old(self)@.in_flight, why.message_view()),
            final(self)@ == (DealerView { in_flight: Map::empty(), ..old(self)@ }),
    {
        let ids: Vec<u32> = self.in_flight.keys();
        let ghost order = table::key_views(ids@);
        let mut replies: Vec<(u64, String)> = Vec::new();
        let mut i: usize = 0;
        while i < ids.len()
            invariant
                i <= ids@.len(),
                order == table::key_views(ids@),
                order.to_set() == self@.in_flight.dom(),
                replies@.len() == i,
                forall|j: int|
                    0 <= j < i ==> (#[trigger] replies@[j]).0 == self@.in_flight[order[j]]
                        && replies@[j].1@ == why.message_view(),
            decreases ids@.len() - i,
        {
            assert(order[i as int] == ids@[i as int]@);
            assert(order.to_set().contains(order[i as int]));
            match self.in_flight.get(&ids[i]) {
                Some(caller) => {
                    replies.push((*caller, why.message()));
                },
                None => {},
            }
            i = i + 1;
        }
        assert(order.no_duplicates());
        self.in_flight.clear();
        replies
    }
}

/// A response that carries the id of a request on its way reaches the caller of that request,
/// and only once.
pub proof fn response_reaches_its_caller(
    dealer: DealerView,
    request_id: u32,
    caller: u64,
    payload: Seq<u8>,
    frames: Seq<Vec<u8>>,
)
    requires
        frames.len() > 0,
        frames[0]@ == framed(request_id, payload),
    ensures
        ({
            let waiting = DealerView {
                in_flight: dealer.in_flight.insert(request_id, caller),
                ..dealer
            };
            &&& waiting.addressee(frames) == Some((caller, payload))
            &&& waiting.answered(frames).addressee(frames) is None
        }),
{
    framing_round_trips(request_id, payload);
}

} // verus!
