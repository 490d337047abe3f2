//! The hub of the registry and the transport to it.

use kvbm::table::Table;
use kvbm::zmq_hub::{
    reply_frames, route_query, NoMetadata, OffloadStatus, QueryType, ResponseType, ZmqHub,
    ZmqHubConfig,
};
use kvbm::zmq_transport::{
    frame, unframe, Dealer, DealerStop, ZmqTransportConfig, DEFAULT_HWM,
};

#[test]
fn zmq_hub_test_config_builder() {
    let config = ZmqHubConfig::bind_all(6000, 6001);
    assert_eq!(config.query_addr, "tcp://*:6000");
    assert_eq!(config.pull_addr, "tcp://*:6001");
}

#[test]
fn zmq_transport_test_config_builder() {
    let config = ZmqTransportConfig::new("tcp://host:1234", "tcp://host:5678").with_hwm(5000);

    assert_eq!(config.query_addr, "tcp://host:1234");
    assert_eq!(config.publish_addr, "tcp://host:5678");
    assert_eq!(config.dealer_hwm, 5000);
    assert_eq!(config.push_hwm, 5000);
}

#[test]
fn test_separate_hwm() {
    let config = ZmqTransportConfig::new("tcp://host:1234", "tcp://host:5678")
        .with_dealer_hwm(1000)
        .with_push_hwm(2000);

    assert_eq!(config.dealer_hwm, 1000);
    assert_eq!(config.push_hwm, 2000);
}

#[test]
fn test_default_hwm() {
    let config = ZmqTransportConfig::default();
    assert_eq!(config.dealer_hwm, DEFAULT_HWM);
    assert_eq!(config.push_hwm, DEFAULT_HWM);
}

#[test]
fn addresses_name_host_and_port() {
    let config = ZmqTransportConfig::for_host("leader", 5555, 5556);
    assert_eq!(config.query_addr, "tcp://leader:5555");
    assert_eq!(config.publish_addr, "tcp://leader:5556");
    let config = ZmqHubConfig::with_ports("leader", 5555, 5556);
    assert_eq!(config.query_addr, "tcp://leader:5555");
    assert_eq!(config.pull_addr, "tcp://leader:5556");
}

#[test]
fn frames_carry_id_and_payload() {
    let message = frame(0x0102_0304, b"abc");
    assert_eq!(message, vec![4, 3, 2, 1, b'a', b'b', b'c']);
    assert_eq!(unframe(&message), Some((0x0102_0304, b"abc".to_vec())));
    assert_eq!(unframe(&[1, 2, 3]), None);
    assert_eq!(unframe(&[7, 0, 0, 0]), Some((7, vec![])));
}

#[test]
fn responses_reach_their_callers() {
    let mut dealer = Dealer::new();
    let a = dealer.allocate_id();
    dealer.sent(a, 100);
    let b = dealer.allocate_id();
    dealer.sent(b, 200);
    assert_eq!((a, b), (1, 2));

    assert_eq!(dealer.response(&[frame(b, b"second")]), Some((200, b"second".to_vec())));
    assert_eq!(dealer.response(&[frame(b, b"again")]), None);
    assert_eq!(dealer.response(&[]), None);
    assert_eq!(dealer.response(&[vec![1, 2]]), None);
    assert_eq!(dealer.response(&[frame(a, b"first")]), Some((100, b"first".to_vec())));
}

#[test]
fn a_stop_tells_everyone_who_waits() {
    let mut dealer = Dealer::new();
    let id = dealer.allocate_id();
    dealer.sent(id, 7);
    let replies = dealer.stop(&DealerStop::SocketClosed);
    assert_eq!(replies, vec![(7, "Socket closed".to_string())]);
    assert!(dealer.stop(&DealerStop::SocketClosed).is_empty());
    assert_eq!(DealerStop::ReceiveError("boom".to_string()).message(), "Socket error: boom");
    assert_eq!(Dealer::send_failed("boom"), "Failed to send request: boom");
}

fn hub() -> ZmqHub<u32, u64, NoMetadata> {
    let mut storage: Table<u32, u64> = Table::new();
    storage.insert(1, 100);
    storage.insert(2, 200);
    ZmqHub::new(ZmqHubConfig::bind_all(16555, 16556), storage)
}

#[test]
fn stored_keys_are_not_granted() {
    let mut hub = hub();
    match hub.handle_query(Some(&QueryType::CanOffload(vec![1, 3]))) {
        Some(ResponseType::CanOffload(statuses)) => {
            assert_eq!(statuses[0], OffloadStatus::AlreadyStored);
            assert_eq!(statuses[1], OffloadStatus::Granted);
        }
        other => panic!("Wrong response type {other:?}"),
    }
}

#[test]
fn registered_keys_match_and_removed_keys_are_granted() {
    let mut hub = hub();
    hub.handle_registration(Some(vec![(3, 300, NoMetadata)]));
    match hub.handle_query(Some(&QueryType::Match(vec![1, 3, 9]))) {
        Some(ResponseType::Match(found)) => {
            assert_eq!(found, vec![(1, 100, NoMetadata), (3, 300, NoMetadata)])
        }
        other => panic!("Wrong response type {other:?}"),
    }
    match hub.handle_query(Some(&QueryType::Remove(vec![1, 9]))) {
        Some(ResponseType::Remove(n)) => assert_eq!(n, 1),
        other => panic!("Wrong response type {other:?}"),
    }
    match hub.handle_query(Some(&QueryType::CanOffload(vec![1]))) {
        Some(ResponseType::CanOffload(statuses)) => assert_eq!(statuses[0], OffloadStatus::Granted),
        other => panic!("Wrong response type {other:?}"),
    }
}

#[test]
fn matches_carry_the_default_metadata() {
    let storage: Table<u32, u64> = Table::new();
    let mut hub: ZmqHub<u32, u64, u16> =
        ZmqHub::new(ZmqHubConfig::bind_all(16555, 16556), storage);
    hub.handle_registration(Some(vec![(3, 300, 8), (4, 400, 9), (3, 301, 10)]));
    match hub.handle_query(Some(&QueryType::Match(vec![4, 5, 3]))) {
        Some(ResponseType::Match(found)) => assert_eq!(found, vec![(4, 400, 0), (3, 301, 0)]),
        other => panic!("Wrong response type {other:?}"),
    }
}

#[test]
fn configurations_are_cloned_whole() {
    let hub = ZmqHubConfig::bind_all(6000, 6001);
    let copy = hub.clone();
    assert_eq!((copy.query_addr, copy.pull_addr), (hub.query_addr, hub.pull_addr));
    assert_eq!(copy.capacity, hub.capacity);
}

#[test]
fn what_cannot_be_decoded_changes_nothing() {
    let mut hub = hub();
    assert!(hub.handle_query(None).is_none());
    hub.handle_registration(None);
    assert_eq!(hub.storage().get(&1), Some(&100));
    assert_eq!(hub.storage().get(&2), Some(&200));
    assert_eq!(hub.storage().keys().len(), 2);
    match hub.handle_query(Some(&QueryType::Touch(vec![1, 9]))) {
        Some(ResponseType::Touch(n)) => assert_eq!(n, 2),
        other => panic!("Wrong response type {other:?}"),
    }
}

#[test]
fn a_reply_goes_back_to_the_one_who_asked() {
    let frames = vec![b"client".to_vec(), frame(9, b"query")];
    let routed = route_query(&frames).unwrap();
    assert_eq!(routed.identity, b"client".to_vec());
    assert_eq!(routed.request_id, 9);
    assert_eq!(routed.query, b"query".to_vec());
    assert_eq!(
        reply_frames(&routed, b"answer"),
        vec![b"client".to_vec(), frame(9, b"answer")]
    );
    assert!(route_query(&[b"client".to_vec()]).is_none());
}
