use richiedrop::discovery::{
    DiscoveryMessage, DiscoveryService, Peer, Receipt, SocketSetup, BROADCAST_INTERVAL_MS,
    DISCOVERY_PORT, PEER_TIMEOUT_SECS, PROTOCOL_VERSION, SWEEP_INTERVAL_MS,
};
use richiedrop::Device;

fn message(t: &str, app: &str, id: &str, name: &str, tcp: u16) -> DiscoveryMessage {
    DiscoveryMessage {
        t: t.to_string(),
        app: app.to_string(),
        v: 1,
        id: id.to_string(),
        name: name.to_string(),
        tcp,
    }
}

fn find<'a>(peers: &'a [Peer], id: &str) -> Option<&'a Peer> {
    peers.iter().find(|p| p.id == id)
}

#[test]
fn constants_have_their_values() {
    assert_eq!(DISCOVERY_PORT, 41234);
    assert_eq!(BROADCAST_INTERVAL_MS, 1000);
    assert_eq!(SWEEP_INTERVAL_MS, 2000);
    assert_eq!(PEER_TIMEOUT_SECS, 8);
    assert_eq!(PROTOCOL_VERSION, 1);
}

#[test]
fn device_id_joins_name_and_start_time() {
    let service = DiscoveryService::with_start_time("My Work Laptop".to_string(), 9000, 1_700_001_234);
    assert_eq!(service.device_id(), "My Work Laptop-1700001234");
    assert_eq!(service.device_name(), "My Work Laptop");
    assert_eq!(service.tcp_port(), 9000);
    assert!(!service.is_running());
    assert!(service.get_peers().is_empty());
}

#[test]
fn device_id_writes_the_whole_start_time() {
    let service = DiscoveryService::with_start_time("alice".to_string(), 9000, 42);
    assert_eq!(service.device_id(), "alice-42");
    let service = DiscoveryService::with_start_time("alice".to_string(), 9000, 0);
    assert_eq!(service.device_id(), "alice-0");
    let service = DiscoveryService::with_start_time("alice".to_string(), 9000, u64::MAX);
    assert_eq!(service.device_id(), "alice-18446744073709551615");
    let service = DiscoveryService::with_start_time(String::new(), 9000, 7);
    assert_eq!(service.device_id(), "-7");
}

#[test]
fn different_instances_have_different_ids() {
    let id = |name: &str, start: u64| {
        DiscoveryService::with_start_time(name.to_string(), 9000, start).device_id()
    };
    assert_ne!(id("alice", 1234), id("alice", 11234));
    assert_ne!(id("alice", 1234), id("alice", 1235));
    assert_ne!(id("a b", 1234), id("a-b", 1234));
    assert_ne!(id("a-1", 2), id("a", 12));
    assert_ne!(id("a", 12), id("a-", 12));
    assert_ne!(id("a-1", 2), id("a", 1));
    assert_eq!(id("alice", 1234), id("alice", 1234));
}

#[test]
fn instances_that_differ_hear_each_other() {
    let mut first = DiscoveryService::with_start_time("alice".to_string(), 9000, 1234);
    let mut second = DiscoveryService::with_start_time("alice".to_string(), 9000, 11234);
    let hello = first.discover_message();
    assert!(matches!(second.handle_message(&hello, "10.0.0.1", 5), Receipt::RecordedAndReply(_)));
    let hello = second.discover_message();
    assert!(matches!(first.handle_message(&hello, "10.0.0.2", 5), Receipt::RecordedAndReply(_)));
    assert_eq!(first.get_peers()[0].id, "alice-11234");
    assert_eq!(second.get_peers()[0].id, "alice-1234");
}

#[test]
fn new_derives_the_id_from_the_clock() {
    let service = DiscoveryService::new("Bob Phone".to_string(), 9001);
    let id = service.device_id();
    let tail = id.strip_prefix("Bob Phone-").expect("the id starts with the name");
    assert!(!tail.is_empty());
    assert!(tail.chars().all(|c| c.is_ascii_digit()));
    assert_eq!(tail.parse::<u64>().unwrap().to_string(), tail);
    assert!(tail.parse::<u64>().unwrap() > 1_000_000_000);
    assert!(service.get_peers().is_empty());
    assert!(!service.is_running());
}

#[test]
fn start_and_stop_toggle_running() {
    let mut service = DiscoveryService::with_start_time("alice".to_string(), 9000, 1234);
    assert_eq!(service.start(SocketSetup::Ready), Ok(()));
    assert!(service.is_running());
    service.stop();
    assert!(!service.is_running());
}

#[test]
fn start_reports_a_taken_port() {
    let mut service = DiscoveryService::with_start_time("alice".to_string(), 9000, 1234);
    let started = service.start(SocketSetup::BindFailed("Address already in use".to_string()));
    assert_eq!(started, Err("Failed to bind UDP socket: Address already in use".to_string()));
    assert!(!service.is_running());
}

#[test]
fn start_reports_a_refused_broadcast() {
    let mut service = DiscoveryService::with_start_time("alice".to_string(), 9000, 1234);
    let started = service.start(SocketSetup::BroadcastRefused("Permission denied".to_string()));
    assert_eq!(started, Err("Failed to set broadcast: Permission denied".to_string()));
    assert!(!service.is_running());
}

#[test]
fn discover_and_announce_carry_the_local_identity() {
    let service = DiscoveryService::with_start_time("alice".to_string(), 9000, 1234);
    let discover = service.discover_message();
    assert_eq!(discover.t, "DISCOVER");
    assert_eq!(discover.app, "RichieDrop");
    assert_eq!(discover.v, 1);
    assert_eq!(discover.id, "alice-1234");
    assert_eq!(discover.name, "alice");
    assert_eq!(discover.tcp, 9000);
    let announce = service.announce_message();
    assert_eq!(announce.t, "ANNOUNCE");
    assert_eq!(announce.app, "RichieDrop");
    assert_eq!(announce.v, 1);
    assert_eq!(announce.id, "alice-1234");
    assert_eq!(announce.name, "alice");
    assert_eq!(announce.tcp, 9000);
}

#[test]
fn two_devices_converge_within_one_broadcast() {
    let mut a = DiscoveryService::with_start_time("alice".to_string(), 9000, 1234);
    let mut b = DiscoveryService::with_start_time("bob".to_string(), 9001, 5678);
    assert_eq!(a.device_id(), "alice-1234");
    assert_eq!(b.device_id(), "bob-5678");

    let discover = a.discover_message();
    // A hears its own broadcast and drops it.
    assert!(matches!(a.handle_message(&discover, "192.168.1.10", 100), Receipt::Ignored));
    assert!(a.get_peers().is_empty());

    let reply = match b.handle_message(&discover, "192.168.1.10", 100) {
        Receipt::RecordedAndReply(reply) => reply,
        other => panic!("expected a reply, got {:?}", other),
    };
    assert_eq!(reply.t, "ANNOUNCE");
    assert_eq!(reply.id, "bob-5678");
    assert_eq!(reply.tcp, 9001);

    assert!(matches!(a.handle_message(&reply, "192.168.1.11", 100), Receipt::Recorded));

    let at_a = a.get_peers();
    assert_eq!(at_a.len(), 1);
    assert_eq!(at_a[0].id, "bob-5678");
    assert_eq!(at_a[0].name, "bob");
    assert_eq!(at_a[0].ip, "192.168.1.11");
    assert_eq!(at_a[0].port, 9001);
    assert_eq!(at_a[0].last_seen, 100);

    let at_b = b.get_peers();
    assert_eq!(at_b.len(), 1);
    assert_eq!(at_b[0].id, "alice-1234");
    assert_eq!(at_b[0].name, "alice");
    assert_eq!(at_b[0].ip, "192.168.1.10");
    assert_eq!(at_b[0].port, 9000);
    assert_eq!(at_b[0].last_seen, 100);
}

#[test]
fn one_record_per_sender_with_the_latest_time() {
    let mut service = DiscoveryService::with_start_time("alice".to_string(), 9000, 1234);
    service.handle_message(&message("DISCOVER", "RichieDrop", "bob-1", "bob", 9001), "10.0.0.2", 10);
    service.handle_message(&message("ANNOUNCE", "RichieDrop", "carol-2", "carol", 9002), "10.0.0.3", 11);
    service.handle_message(&message("DISCOVER", "RichieDrop", "bob-1", "bobby", 9011), "10.0.0.4", 12);
    service.handle_message(&message("ANNOUNCE", "RichieDrop", "dave-3", "dave", 9003), "10.0.0.5", 13);
    service.handle_message(&message("ANNOUNCE", "RichieDrop", "carol-2", "carol", 9002), "10.0.0.3", 14);

    let peers = service.get_peers();
    assert_eq!(peers.len(), 3);
    let bob = find(&peers, "bob-1").unwrap();
    assert_eq!(bob.last_seen, 12);
    assert_eq!(bob.name, "bobby");
    assert_eq!(bob.ip, "10.0.0.4");
    assert_eq!(bob.port, 9011);
    assert_eq!(find(&peers, "carol-2").unwrap().last_seen, 14);
    assert_eq!(find(&peers, "dave-3").unwrap().last_seen, 13);
}

#[test]
fn refresh_keeps_the_place_in_the_snapshot() {
    let mut service = DiscoveryService::with_start_time("alice".to_string(), 9000, 1234);
    service.handle_message(&message("ANNOUNCE", "RichieDrop", "bob-1", "bob", 9001), "10.0.0.2", 10);
    service.handle_message(&message("ANNOUNCE", "RichieDrop", "carol-2", "carol", 9002), "10.0.0.3", 11);
    service.handle_message(&message("ANNOUNCE", "RichieDrop", "bob-1", "bob", 9001), "10.0.0.2", 12);
    let ids: Vec<String> = service.get_peers().into_iter().map(|p| p.id).collect();
    assert_eq!(ids, vec!["bob-1".to_string(), "carol-2".to_string()]);
}

#[test]
fn own_messages_never_enter_the_table() {
    let mut service = DiscoveryService::with_start_time("alice".to_string(), 9000, 1234);
    let own = message("DISCOVER", "RichieDrop", "alice-1234", "mallory", 1);
    assert!(!service.accepts(&own));
    assert!(matches!(service.handle_message(&own, "10.0.0.66", 10), Receipt::Ignored));
    let own = message("ANNOUNCE", "RichieDrop", "alice-1234", "alice", 9000);
    assert!(matches!(service.handle_message(&own, "10.0.0.1", 11), Receipt::Ignored));
    assert!(service.get_peers().is_empty());
}

#[test]
fn foreign_applications_are_dropped() {
    let mut service = DiscoveryService::with_start_time("alice".to_string(), 9000, 1234);
    let foreign = message("DISCOVER", "OtherDrop", "bob-1", "bob", 9001);
    assert!(!service.accepts(&foreign));
    assert!(matches!(service.handle_message(&foreign, "10.0.0.2", 10), Receipt::Ignored));
    let lower = message("DISCOVER", "richiedrop", "bob-1", "bob", 9001);
    assert!(matches!(service.handle_message(&lower, "10.0.0.2", 10), Receipt::Ignored));
    assert!(service.get_peers().is_empty());
}

#[test]
fn only_discover_is_answered() {
    let mut service = DiscoveryService::with_start_time("alice".to_string(), 9000, 1234);
    let announce = message("ANNOUNCE", "RichieDrop", "bob-1", "bob", 9001);
    assert!(service.accepts(&announce));
    assert!(matches!(service.handle_message(&announce, "10.0.0.2", 10), Receipt::Recorded));
    let odd = message("HELLO", "RichieDrop", "carol-2", "carol", 9002);
    assert!(matches!(service.handle_message(&odd, "10.0.0.3", 10), Receipt::Recorded));
    let discover = message("DISCOVER", "RichieDrop", "dave-3", "dave", 9003);
    assert!(matches!(
        service.handle_message(&discover, "10.0.0.4", 10),
        Receipt::RecordedAndReply(_)
    ));
    assert_eq!(service.get_peers().len(), 3);
}

#[test]
fn address_comes_from_the_source_not_the_payload() {
    let mut service = DiscoveryService::with_start_time("alice".to_string(), 9000, 1234);
    let msg = message("ANNOUNCE", "RichieDrop", "bob-1", "1.2.3.4", 9001);
    service.handle_message(&msg, "10.0.0.2", 10);
    let peers = service.get_peers();
    assert_eq!(peers[0].ip, "10.0.0.2");
    assert_eq!(peers[0].name, "1.2.3.4");
}

#[test]
fn sweep_drops_at_the_timeout_and_not_before() {
    let mut service = DiscoveryService::with_start_time("alice".to_string(), 9000, 1234);
    service.handle_message(&message("ANNOUNCE", "RichieDrop", "bob-1", "bob", 9001), "10.0.0.2", 100);
    service.handle_message(&message("ANNOUNCE", "RichieDrop", "carol-2", "carol", 9002), "10.0.0.3", 101);

    service.sweep(107);
    assert_eq!(service.get_peers().len(), 2);

    // bob: 108 - 100 = 8, gone; carol: 108 - 101 = 7, stays.
    service.sweep(108);
    let peers = service.get_peers();
    assert_eq!(peers.len(), 1);
    assert_eq!(peers[0].id, "carol-2");
    assert_eq!(peers[0].last_seen, 101);

    service.sweep(109);
    assert!(service.get_peers().is_empty());
}

#[test]
fn sweep_keeps_a_peer_stamped_after_now() {
    let mut service = DiscoveryService::with_start_time("alice".to_string(), 9000, 1234);
    service.handle_message(&message("ANNOUNCE", "RichieDrop", "bob-1", "bob", 9001), "10.0.0.2", 200);
    service.sweep(100);
    assert_eq!(service.get_peers().len(), 1);
    service.handle_message(&message("ANNOUNCE", "RichieDrop", "carol-2", "carol", 9002), "10.0.0.3", u64::MAX);
    service.sweep(0);
    assert_eq!(service.get_peers().len(), 2);
    service.sweep(u64::MAX);
    let peers = service.get_peers();
    assert_eq!(peers.len(), 1);
    assert_eq!(peers[0].id, "carol-2");
}

#[test]
fn repeated_sweeps_change_nothing() {
    let mut service = DiscoveryService::with_start_time("alice".to_string(), 9000, 1234);
    service.handle_message(&message("ANNOUNCE", "RichieDrop", "bob-1", "bob", 9001), "10.0.0.2", 100);
    service.handle_message(&message("ANNOUNCE", "RichieDrop", "carol-2", "carol", 9002), "10.0.0.3", 105);
    service.handle_message(&message("ANNOUNCE", "RichieDrop", "dave-3", "dave", 9003), "10.0.0.4", 99);
    service.sweep(108);
    let first: Vec<(String, u64)> = service.get_peers().into_iter().map(|p| (p.id, p.last_seen)).collect();
    assert_eq!(first, vec![("carol-2".to_string(), 105)]);
    service.sweep(108);
    service.sweep(108);
    let again: Vec<(String, u64)> = service.get_peers().into_iter().map(|p| (p.id, p.last_seen)).collect();
    assert_eq!(again, first);
}

#[test]
fn sweep_and_stop_keep_the_identity() {
    let mut service = DiscoveryService::with_start_time("alice".to_string(), 9000, 1234);
    service.start(SocketSetup::Ready).unwrap();
    service.handle_message(&message("ANNOUNCE", "RichieDrop", "bob-1", "bob", 9001), "10.0.0.2", 100);
    service.sweep(200);
    assert!(service.is_running());
    assert_eq!(service.device_id(), "alice-1234");
    service.stop();
    assert_eq!(service.tcp_port(), 9000);
    assert_eq!(service.device_name(), "alice");
}

#[test]
fn a_swept_peer_can_come_back() {
    let mut service = DiscoveryService::with_start_time("alice".to_string(), 9000, 1234);
    let bob = message("DISCOVER", "RichieDrop", "bob-1", "bob", 9001);
    service.handle_message(&bob, "10.0.0.2", 100);
    service.sweep(120);
    assert!(service.get_peers().is_empty());
    service.handle_message(&bob, "10.0.0.2", 121);
    let peers = service.get_peers();
    assert_eq!(peers.len(), 1);
    assert_eq!(peers[0].last_seen, 121);
}

#[test]
fn messages_and_peers_clone_field_by_field() {
    let msg = message("DISCOVER", "RichieDrop", "bob-1", "bob", 9001);
    let copy = msg.clone();
    assert_eq!(copy.t, "DISCOVER");
    assert_eq!(copy.app, "RichieDrop");
    assert_eq!(copy.v, 1);
    assert_eq!(copy.id, "bob-1");
    assert_eq!(copy.name, "bob");
    assert_eq!(copy.tcp, 9001);
    let peer = Peer { id: "bob-1".to_string(), name: "bob".to_string(), ip: "10.0.0.2".to_string(), port: 9001, last_seen: 7 };
    let copy = peer.clone();
    assert_eq!(copy.id, "bob-1");
    assert_eq!(copy.name, "bob");
    assert_eq!(copy.ip, "10.0.0.2");
    assert_eq!(copy.port, 9001);
    assert_eq!(copy.last_seen, 7);
}

#[test]
fn device_mirrors_a_peer() {
    let peer = Peer { id: "bob-1".to_string(), name: "bob".to_string(), ip: "10.0.0.2".to_string(), port: 9001, last_seen: 7 };
    let device = Device::from_peer(&peer);
    let back = device.clone().to_peer();
    assert_eq!(back.id, "bob-1");
    assert_eq!(back.name, "bob");
    assert_eq!(back.ip, "10.0.0.2");
    assert_eq!(back.port, 9001);
    assert_eq!(back.last_seen, 7);
}

#[test]
fn sweep_keeps_the_order_of_the_survivors() {
    let mut service = DiscoveryService::with_start_time("alice".to_string(), 9000, 1234);
    service.handle_message(&message("ANNOUNCE", "RichieDrop", "p1", "one", 1), "10.0.0.1", 105);
    service.handle_message(&message("ANNOUNCE", "RichieDrop", "p2", "two", 2), "10.0.0.2", 90);
    service.handle_message(&message("ANNOUNCE", "RichieDrop", "p3", "three", 3), "10.0.0.3", 104);
    service.handle_message(&message("ANNOUNCE", "RichieDrop", "p4", "four", 4), "10.0.0.4", 100);
    service.handle_message(&message("ANNOUNCE", "RichieDrop", "p5", "five", 5), "10.0.0.5", 101);
    service.sweep(108);
    let ids: Vec<String> = service.get_peers().into_iter().map(|p| p.id).collect();
    assert_eq!(ids, vec!["p1".to_string(), "p3".to_string(), "p5".to_string()]);
}
