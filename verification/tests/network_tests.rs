use maccy::network::{agent_device_name, is_own_addr, parse_host_port_to_multiaddr, NetworkAction, NetworkEvent, NetworkState};
use maccy::types::{PairingMessage, SyncCommand, SyncEvent, SyncMessage, LISTEN_PORT, PAIRING_TOPIC, TOPIC_NAME};

fn peer() -> String {
    libp2p::PeerId::random().to_string()
}

fn state(local: &str) -> NetworkState {
    NetworkState::new(local.to_string(), "MacBook".to_string(), "device-1".to_string(), LISTEN_PORT)
}

fn sync_from(source: &str, msg: SyncMessage) -> NetworkEvent {
    NetworkEvent::GossipMessage { topic: TOPIC_NAME.to_string(), source: source.to_string(), pairing: None, sync: Some(msg) }
}

fn pairing_from(source: &str, msg: PairingMessage) -> NetworkEvent {
    NetworkEvent::GossipMessage { topic: PAIRING_TOPIC.to_string(), source: source.to_string(), pairing: Some(msg), sync: None }
}

fn added(json: &str) -> SyncMessage {
    SyncMessage::ItemAdded { item_json: json.to_string() }
}

#[test]
fn host_port_to_multiaddr() {
    assert_eq!(parse_host_port_to_multiaddr("127.0.0.1:31775"), "/ip4/127.0.0.1/tcp/31775");
    assert_eq!(parse_host_port_to_multiaddr("  192.168.1.2:80 "), "/ip4/192.168.1.2/tcp/80");
    assert_eq!(parse_host_port_to_multiaddr("[::1]:4001"), "/ip6/::1/tcp/4001");
    assert_eq!(parse_host_port_to_multiaddr("[::1]"), "/ip4/[:/tcp/1]");
    assert_eq!(parse_host_port_to_multiaddr("localhost"), "localhost");
}

#[test]
fn own_addresses_ignore_peer_suffix() {
    let local = vec!["/ip4/127.0.0.1/tcp/31774".to_string()];
    assert!(is_own_addr("/ip4/127.0.0.1/tcp/31774/p2p/12D3KooW", &local));
    assert!(is_own_addr("/ip4/127.0.0.1/tcp/31774", &local));
    assert!(!is_own_addr("/ip4/127.0.0.1/tcp/31775", &local));
    assert!(!is_own_addr("/ip4/127.0.0.1/tcp/31774", &[]));
}

#[test]
fn device_name_is_last_agent_segment() {
    assert_eq!(agent_device_name("maccy/1.0/Work Mac"), "Work Mac");
    assert_eq!(agent_device_name("plain"), "plain");
    assert_eq!(agent_device_name("trailing/"), "");
}

#[test]
fn peer_ids_are_parsed_canonically() {
    let mut st = state("me");
    let p = peer();
    let acts = st.handle_command(SyncCommand::RequestPairing { peer_id: format!("  {}", p) }, "s".to_string(), "n".to_string());
    assert!(acts.is_empty());
    let acts = st.handle_command(SyncCommand::RequestPairing { peer_id: p.clone() }, "s".to_string(), "n".to_string());
    assert!(matches!(&acts[1], NetworkAction::Emit(SyncEvent::PairingComplete { peer_id, .. }) if *peer_id == p));
}

#[test]
fn new_state_keeps_port() {
    assert_eq!(state("me").listen_port(), 31774);
}

#[test]
fn sync_from_unpaired_peer_is_ignored() {
    let mut st = state("me");
    let stranger = peer();
    let acts = st.handle_event(sync_from(&stranger, added("{}")), 0);
    assert!(acts.is_empty());
}

#[test]
fn requested_pairing_is_heard_until_unpaired() {
    let mut st = state("me");
    let p = peer();
    let acts = st.handle_command(SyncCommand::RequestPairing { peer_id: p.clone() }, "session-1".to_string(), "now".to_string());
    assert_eq!(acts.len(), 2);
    match &acts[0] {
        NetworkAction::PublishPairing(PairingMessage::Request { session_id, device_name, device_id, public_key }) => {
            assert_eq!(session_id, "session-1");
            assert_eq!(device_name, "MacBook");
            assert_eq!(device_id, "device-1");
            assert!(public_key.is_empty());
        }
        other => panic!("unexpected action {:?}", other),
    }
    assert!(matches!(&acts[1], NetworkAction::Emit(SyncEvent::PairingComplete { peer_id, success: true }) if *peer_id == p));

    let acts = st.handle_event(sync_from(&p, added("{\"id\":\"1\"}")), 0);
    assert_eq!(acts.len(), 1);
    assert!(matches!(&acts[0], NetworkAction::Emit(SyncEvent::ItemReceived { item_json }) if item_json == "{\"id\":\"1\"}"));

    let acts = st.handle_event(sync_from(&p, SyncMessage::ItemDeleted { id: "7".to_string(), timestamp: "t".to_string() }), 0);
    assert!(matches!(&acts[0], NetworkAction::Emit(SyncEvent::ItemDeleted { item_id }) if item_id == "7"));

    let acts = st.handle_event(sync_from(&p, SyncMessage::Heartbeat { device_id: "d".to_string(), timestamp: "t".to_string() }), 0);
    assert!(acts.is_empty());

    let acts = st.handle_command(SyncCommand::Unpair { peer_id: p.clone() }, "s".to_string(), "now".to_string());
    assert!(acts.is_empty());
    let acts = st.handle_event(sync_from(&p, added("{}")), 0);
    assert!(acts.is_empty());
}

#[test]
fn accept_message_pairs_the_peer() {
    let mut st = state("me");
    let p = peer();
    let acts = st.handle_event(pairing_from(&p, PairingMessage::Accept { session_id: "s".to_string() }), 0);
    assert!(matches!(&acts[0], NetworkAction::Emit(SyncEvent::PairingComplete { success: true, .. })));
    let acts = st.handle_event(sync_from(&p, SyncMessage::ItemUpdated { item_json: "u".to_string() }), 0);
    assert!(matches!(&acts[0], NetworkAction::Emit(SyncEvent::ItemUpdated { item_json }) if item_json == "u"));
}

#[test]
fn reject_message_is_reported() {
    let mut st = state("me");
    let p = peer();
    let acts = st.handle_event(pairing_from(&p, PairingMessage::Reject { session_id: "s".to_string() }), 0);
    assert!(matches!(&acts[0], NetworkAction::Emit(SyncEvent::PairingComplete { success: false, .. })));
    assert!(st.handle_event(sync_from(&p, added("{}")), 0).is_empty());
}

#[test]
fn pairing_request_is_shown_once_with_pin() {
    let mut st = state("me");
    let p = peer();
    let req = PairingMessage::Request {
        session_id: "abc".to_string(),
        device_name: "Other".to_string(),
        device_id: "d2".to_string(),
        public_key: vec![],
    };
    let acts = st.handle_event(pairing_from(&p, req.clone()), 1_234_567);
    assert_eq!(acts.len(), 1);
    assert!(matches!(&acts[0], NetworkAction::Emit(SyncEvent::PairingRequest { display_name, pin, .. })
        if display_name == "Other" && pin == "234567"));
    let again = st.handle_event(pairing_from(&p, req), 7);
    assert!(again.is_empty());
}

#[test]
fn accept_command_pairs_and_publishes() {
    let mut st = state("me");
    let p = peer();
    let acts = st.handle_command(SyncCommand::AcceptPairing { peer_id: p.clone(), pin: "000000".to_string() }, "s".to_string(), "n".to_string());
    assert_eq!(acts.len(), 2);
    assert!(matches!(&acts[0], NetworkAction::PublishPairing(PairingMessage::Accept { .. })));
    assert_eq!(st.handle_event(sync_from(&p, added("x")), 0).len(), 1);
}

#[test]
fn commands_on_bad_peer_ids_do_nothing() {
    let mut st = state("me");
    for cmd in [
        SyncCommand::RequestPairing { peer_id: "bogus".to_string() },
        SyncCommand::AcceptPairing { peer_id: "bogus".to_string(), pin: "1".to_string() },
        SyncCommand::RejectPairing { peer_id: "bogus".to_string() },
        SyncCommand::Unpair { peer_id: "bogus".to_string() },
        SyncCommand::StartDiscovery,
        SyncCommand::StopDiscovery,
    ] {
        assert!(st.handle_command(cmd, "s".to_string(), "n".to_string()).is_empty());
    }
}

#[test]
fn broadcast_commands_publish() {
    let mut st = state("me");
    let acts = st.handle_command(SyncCommand::BroadcastDeletion { item_id: "9".to_string() }, "s".to_string(), "2024".to_string());
    assert!(matches!(&acts[0], NetworkAction::PublishSync(SyncMessage::ItemDeleted { id, timestamp }) if id == "9" && timestamp == "2024"));
    let acts = st.handle_command(SyncCommand::BroadcastItem { item_json: "j".to_string() }, "s".to_string(), "n".to_string());
    assert!(matches!(&acts[0], NetworkAction::PublishSync(SyncMessage::ItemAdded { item_json }) if item_json == "j"));
    let acts = st.handle_command(SyncCommand::Shutdown, "s".to_string(), "n".to_string());
    assert!(matches!(&acts[0], NetworkAction::Stop));
}

#[test]
fn add_peer_address_dials_or_reports() {
    let mut st = state("me");
    let acts = st.handle_command(SyncCommand::AddPeerAddress { address: "127.0.0.1:31775".to_string() }, "s".to_string(), "n".to_string());
    assert!(matches!(&acts[0], NetworkAction::DialAddress { address } if address == "/ip4/127.0.0.1/tcp/31775"));
    let acts = st.handle_command(SyncCommand::AddPeerAddress { address: "/ip4/10.0.0.1/tcp/1".to_string() }, "s".to_string(), "n".to_string());
    assert!(matches!(&acts[0], NetworkAction::DialAddress { address } if address == "/ip4/10.0.0.1/tcp/1"));
    let acts = st.handle_command(SyncCommand::AddPeerAddress { address: "nonsense".to_string() }, "s".to_string(), "n".to_string());
    assert!(matches!(&acts[0], NetworkAction::Emit(SyncEvent::Error { code: 4, message }) if message == "Invalid address: nonsense"));
}

#[test]
fn discovery_skips_self_and_own_addresses() {
    let me = peer();
    let mut st = state(&me);
    let acts = st.handle_event(NetworkEvent::NewListenAddr { address: "/ip4/127.0.0.1/tcp/31774".to_string() }, 0);
    assert!(matches!(&acts[0], NetworkAction::Emit(SyncEvent::Listening { address }) if address == "/ip4/127.0.0.1/tcp/31774"));
    let other = peer();
    let third = peer();
    let acts = st.handle_event(
        NetworkEvent::MdnsDiscovered {
            peers: vec![
                (me.clone(), "/ip4/10.0.0.2/tcp/31774".to_string()),
                (other.clone(), "/ip4/127.0.0.1/tcp/31774".to_string()),
                (third.clone(), "/ip4/10.0.0.3/tcp/31774".to_string()),
            ],
        },
        0,
    );
    assert_eq!(acts.len(), 1);
    assert!(matches!(&acts[0], NetworkAction::Dial { peer_id } if *peer_id == third));

    let acts = st.handle_event(NetworkEvent::MdnsExpired { peers: vec![third.clone(), other.clone()] }, 0);
    assert_eq!(acts.len(), 1);
    assert!(matches!(&acts[0], NetworkAction::Emit(SyncEvent::PeerLost { peer_id }) if *peer_id == third));
}

#[test]
fn identified_peer_is_named_and_reported() {
    let mut st = state("me");
    let other = peer();
    let acts = st.handle_event(
        NetworkEvent::Identified {
            peer_id: other.clone(),
            agent_version: "maccy/1.0/Desk".to_string(),
            observed_addr: "/ip4/1.2.3.4/tcp/5".to_string(),
            listen_addrs: vec![],
        },
        0,
    );
    match &acts[0] {
        NetworkAction::Emit(SyncEvent::PeerDiscovered { peer }) => {
            assert_eq!(peer.peer_id, other);
            assert_eq!(peer.display_name, "Desk");
            assert_eq!(peer.addresses, vec!["/ip4/1.2.3.4/tcp/5".to_string()]);
            assert!(peer.is_connected);
        }
        a => panic!("unexpected action {:?}", a),
    }
    let acts = st.handle_event(NetworkEvent::ConnectionClosed { peer_id: other.clone() }, 0);
    assert!(matches!(&acts[0], NetworkAction::Emit(SyncEvent::PeerDiscovered { peer }) if !peer.is_connected));
    let acts = st.handle_event(NetworkEvent::ConnectionClosed { peer_id: "unknown".to_string() }, 0);
    assert!(acts.is_empty());
}

#[test]
fn connection_error_is_reported() {
    let mut st = state("me");
    let acts = st.handle_event(NetworkEvent::OutgoingConnectionError { error: "refused".to_string() }, 0);
    assert!(matches!(&acts[0], NetworkAction::Emit(SyncEvent::Error { code: 3, message }) if message == "Connection failed: refused"));
}

#[test]
fn restored_pairings_are_heard() {
    let mut st = state("me");
    let p = peer();
    st.set_initial_paired_peers(vec![p.clone(), "garbage".to_string()]);
    assert_eq!(st.handle_event(sync_from(&p, added("x")), 0).len(), 1);
}
