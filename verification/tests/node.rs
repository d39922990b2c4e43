//! Addresses and the events of a node.
use clawshake::addr::{
    dedup_announce_addrs, has_bad_ip, has_transport, is_globally_reachable, is_public_addr, relay_circuit_key,
    Multiaddr, Part,
};
use clawshake::node::{
    bootstrap_peers, dial_bootstrap, listeners, on_autonat_status_changed, services, Action, EventContext,
    IdentifyInfo, NatStatus, NodeEvent, NodeState, Registration, RendezvousEvent,
};

fn ip4(a: u8, b: u8, c: u8, d: u8) -> Part {
    Part::Ip4(u32::from_be_bytes([a, b, c, d]))
}

fn addr(parts: Vec<Part>) -> Multiaddr {
    Multiaddr { parts }
}

fn tcp(ip: Part) -> Multiaddr {
    addr(vec![ip, Part::Other("/tcp/7474".to_string())])
}

fn circuit(relay: &str) -> Multiaddr {
    addr(vec![ip4(8, 8, 8, 8), Part::P2p(relay.to_string()), Part::P2pCircuit])
}

fn context(relay_server: bool) -> EventContext {
    EventContext { relay_server, local_peer_id: "me".to_string() }
}

#[test]
fn addresses_are_classified() {
    assert!(is_public_addr(&tcp(ip4(8, 8, 8, 8))));
    for private in [ip4(127, 0, 0, 1), ip4(10, 1, 2, 3), ip4(172, 16, 0, 1), ip4(192, 168, 1, 1), ip4(169, 254, 0, 1), ip4(0, 0, 0, 0)] {
        assert!(!is_public_addr(&tcp(private)));
    }
    assert!(is_public_addr(&tcp(ip4(172, 32, 0, 1))));
    assert!(is_public_addr(&tcp(Part::Ip6(0x2001_0db8u128 << 96))));
    assert!(!is_public_addr(&tcp(Part::Ip6(1))));
    assert!(!is_public_addr(&tcp(Part::Ip6(0xfe80u128 << 112))));
    assert!(!is_public_addr(&tcp(Part::Ip6(0xfd00u128 << 112))));
    assert!(!is_public_addr(&circuit("r")) && is_globally_reachable(&circuit("r")));
    assert!(!is_public_addr(&addr(vec![Part::Dns("x".to_string())])));
    assert!(has_transport(&addr(vec![Part::Dns("x".to_string())])));
    assert!(!has_transport(&addr(vec![Part::P2p("p".to_string())])));
    assert!(has_bad_ip(&tcp(ip4(127, 0, 0, 1))) && !has_bad_ip(&tcp(ip4(10, 0, 0, 1))));
    assert_eq!(relay_circuit_key(&circuit("r")), Some("r"));
    assert_eq!(relay_circuit_key(&tcp(ip4(8, 8, 8, 8))), None);
}

#[test]
fn each_relay_is_announced_once() {
    let raw = vec![
        tcp(ip4(127, 0, 0, 1)),
        circuit("r1"),
        tcp(ip4(8, 8, 8, 8)),
        addr(vec![ip4(9, 9, 9, 9), Part::P2p("r1".to_string()), Part::P2pCircuit]),
        circuit("r2"),
    ];
    let kept = dedup_announce_addrs(&raw);
    assert_eq!(kept.len(), 3);
    assert!(kept[0].same_as(&raw[1]) && kept[1].same_as(&raw[2]) && kept[2].same_as(&raw[4]));
}

fn established(state: &mut NodeState, peer: &str, connection: u64, remote: Multiaddr, n: u32) -> Vec<Action> {
    state.handle_event(
        &context(false),
        NodeEvent::ConnectionEstablished { peer: peer.to_string(), connection, remote, num_established: n },
    )
}

#[test]
fn direct_connections_take_over() {
    let mut state = NodeState::new();
    let actions = established(&mut state, "p", 1, circuit("r"), 1);
    assert!(matches!(&actions[0], Action::RemoveAddress { peer, .. } if peer == "p"));
    assert!(matches!(&actions[1], Action::FetchRecord { peer } if peer == "p"));
    let actions = established(&mut state, "p", 2, tcp(ip4(8, 8, 8, 8)), 2);
    assert_eq!(actions.len(), 1);
    assert!(matches!(actions[0], Action::Close { connection: 1 }));
    assert!(state.connected.contains("p"));
    let closed = |state: &mut NodeState, connection: u64, n: u32| {
        state.handle_event(
            &context(false),
            NodeEvent::ConnectionClosed { peer: "p".to_string(), connection, num_established: n },
        )
    };
    assert!(closed(&mut state, 1, 1).is_empty());
    let actions = closed(&mut state, 2, 0);
    assert!(matches!(&actions[0], Action::DialPeer { peer } if peer == "p"));
    assert!(!state.connected.contains("p"));
}

#[test]
fn identified_servers_are_used_once() {
    let mut state = NodeState::new();
    let info = || IdentifyInfo {
        observed_addr: tcp(ip4(8, 8, 4, 4)),
        listen_addrs: vec![tcp(ip4(9, 9, 9, 9)), tcp(ip4(127, 0, 0, 1))],
        protocols: vec![
            "/rendezvous/1.0.0".to_string(),
            "/libp2p/circuit/relay/0.2.0/hop".to_string(),
        ],
    };
    let ctx = context(false);
    let first = state.handle_event(&ctx, NodeEvent::Identified { peer: "s".to_string(), info: info() });
    let has = |actions: &Vec<Action>, f: fn(&Action) -> bool| actions.iter().any(f);
    assert!(has(&first, |a| matches!(a, Action::AddAddress { .. })));
    assert!(has(&first, |a| matches!(a, Action::RemoveAddress { .. })));
    assert!(has(&first, |a| matches!(a, Action::Discover { cookie: None, .. })));
    assert!(has(&first, |a| matches!(a, Action::Register { .. })));
    assert!(has(&first, |a| matches!(a, Action::Listen { .. })));
    let again = state.handle_event(&ctx, NodeEvent::Identified { peer: "s".to_string(), info: info() });
    assert!(!has(&again, |a| matches!(a, Action::Listen { .. })));
    let found = RendezvousEvent::Discovered {
        server: "s".to_string(),
        registrations: vec![Registration { peer: "q".to_string(), addrs: vec![tcp(ip4(9, 9, 9, 8))] }],
        cookie: vec![1],
    };
    let actions = state.handle_event(&ctx, NodeEvent::Rendezvous { event: found });
    assert!(has(&actions, |a| matches!(a, Action::AddAddress { .. })));
    let tick = state.on_rendezvous_tick();
    assert_eq!(tick.len(), 1);
    assert!(matches!(&tick[0], Action::Discover { cookie: Some(c), .. } if c == &vec![1]));
}

#[test]
fn relay_servers_show_their_address_once() {
    let mut state = NodeState::new();
    let ctx = context(true);
    let confirmed = || NodeEvent::ExternalAddrConfirmed { addr: tcp(ip4(8, 8, 8, 8)) };
    let first = state.handle_event(&ctx, confirmed());
    assert!(matches!(&first[0], Action::RelayReady { addr } if addr.last_part_peer() == Some("me")));
    assert!(matches!(first[1], Action::Announce));
    let second = state.handle_event(&ctx, confirmed());
    assert_eq!(second.len(), 1);
    assert!(matches!(second[0], Action::Announce));
}

#[test]
fn nat_decides_who_serves() {
    assert!(matches!(
        on_autonat_status_changed(&context(false), NatStatus::Public)[0],
        Action::SetServing { serving: true }
    ));
    assert!(matches!(
        on_autonat_status_changed(&context(false), NatStatus::Private)[0],
        Action::SetServing { serving: false }
    ));
    assert!(matches!(
        on_autonat_status_changed(&context(true), NatStatus::Private)[0],
        Action::WarnRelayBehindNat
    ));
    assert!(on_autonat_status_changed(&context(false), NatStatus::Unknown).is_empty());
}

#[test]
fn listening_and_dialing_follow_the_flags() {
    let l = listeners(7474);
    assert_eq!(l.tcp4, "/ip4/0.0.0.0/tcp/7474");
    assert_eq!(l.quic6, "/ip6/::/udp/7474/quic-v1");
    let relay = services(true);
    assert!(relay.relay && relay.rendezvous && relay.serving && !relay.port_mapping);
    let both = bootstrap_peers(&vec!["a".to_string()], &vec!["b".to_string()]);
    assert_eq!(both, ["a", "b"]);
    let boot = addr(vec![ip4(8, 8, 8, 8), Part::P2p("b".to_string())]);
    let actions = dial_bootstrap(&boot);
    assert!(matches!(&actions[0], Action::AddAddress { peer, addr } if peer == "b" && addr.parts.len() == 1));
    assert!(matches!(&actions[1], Action::DialAddr { addr } if addr.same_as(&boot)));
    let mut state = NodeState::new();
    assert_eq!(state.retry_bootstrap(&vec![boot.clone()]).len(), 1);
    state.connected.insert("p");
    assert!(state.retry_bootstrap(&vec![boot]).is_empty());
}

#[test]
fn listen_addresses_are_kept_once() {
    let mut state = NodeState::new();
    let here = || tcp(ip4(8, 8, 8, 8));
    state.on_new_listen_addr(&here());
    state.on_new_listen_addr(&here());
    assert_eq!(state.listen_addrs.len(), 1);
    state.on_expired_listen_addr(&here());
    assert!(state.listen_addrs.is_empty());
}
