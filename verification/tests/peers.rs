//! The texts of addresses, identifiers and keys.
use clawshake::addr::{Multiaddr, Part};
use clawshake::node::{bootstrap_addrs, dial_bootstrap, Action};
use clawshake::peer_id::{key_path, peer_id_from_disk, record_key};
use clawshake::tunnel::call_target;
use libp2p::identity::Keypair;
use libp2p::PeerId;

fn key_and_peer() -> (Vec<u8>, PeerId) {
    let keypair = Keypair::generate_ed25519();
    (keypair.to_protobuf_encoding().unwrap(), keypair.public().to_peer_id())
}

#[test]
fn addresses_are_read_and_written() {
    let (_, peer) = key_and_peer();
    let text = format!("/ip4/192.168.7.25/tcp/7474/p2p/{peer}/p2p-circuit");
    let addr = Multiaddr::from_text(&text).unwrap();
    assert_eq!(addr.parts.len(), 4);
    assert!(matches!(addr.parts[0], Part::Ip4(0xC0A8_0719)));
    assert!(matches!(&addr.parts[1], Part::Other(t) if t == "/tcp/7474"));
    assert!(matches!(&addr.parts[2], Part::P2p(id) if *id == peer.to_string()));
    assert!(matches!(addr.parts[3], Part::P2pCircuit));
    assert_eq!(addr.to_text(), text);
}

#[test]
fn every_kind_of_part_is_written_as_it_is_read() {
    for text in [
        "/ip4/0.0.0.0/udp/0/quic-v1",
        "/ip4/255.10.0.99/tcp/65535",
        "/ip6/::/tcp/1",
        "/ip6/2001:db8::1/udp/7474/quic-v1",
        "/dns/relay.example.org/tcp/443",
        "/dns4/relay.example.org/tcp/443",
        "/dns6/relay.example.org/tcp/443",
        "/ip4/1.2.3.4/tcp/80/ws",
    ] {
        assert_eq!(Multiaddr::from_text(text).unwrap().to_text(), text);
        assert_eq!(text.parse::<libp2p::Multiaddr>().unwrap().to_string(), text);
    }
    let addr = Multiaddr::from_text("/ip6/2001:db8:0:0:0:0:0:1/tcp/1").unwrap();
    assert!(matches!(addr.parts[0], Part::Ip6(0x2001_0db8_0000_0000_0000_0000_0000_0001)));
    assert_eq!(addr.to_text(), "/ip6/2001:db8::1/tcp/1");
}

#[test]
fn bad_addresses_are_told() {
    assert_eq!(Multiaddr::from_text("ip4/1.2.3.4").err().unwrap(), "invalid multiaddr");
    assert!(Multiaddr::from_text("/ip4/1.2.3").is_err());
    assert!(Multiaddr::from_text("").unwrap().parts.is_empty());
}

#[test]
fn bad_bootstrap_addresses_are_passed_over() {
    let (_, peer) = key_and_peer();
    let good = format!("/ip4/1.2.3.4/tcp/7474/p2p/{peer}");
    let texts = vec!["nonsense".to_string(), good.clone(), "/tcp/x".to_string(), "/ip4/5.6.7.8".to_string()];
    let addrs = bootstrap_addrs(&texts);
    assert_eq!(addrs.len(), 2);
    assert_eq!(addrs[0].to_text(), good);
    let actions = dial_bootstrap(&addrs[0]);
    assert_eq!(actions.len(), 2);
    assert!(matches!(&actions[0], Action::AddAddress { peer: p, addr }
        if *p == peer.to_string() && addr.to_text() == "/ip4/1.2.3.4/tcp/7474"));
    assert!(matches!(&actions[1], Action::DialAddr { addr } if addr.to_text() == good));
    assert_eq!(dial_bootstrap(&addrs[1]).len(), 1);
}

#[test]
fn identifiers_are_read() {
    let (_, peer) = key_and_peer();
    assert_eq!(record_key(&peer.to_string()).unwrap(), peer.to_bytes());
    assert_eq!(call_target(&peer.to_string()).unwrap(), peer.to_bytes());
    let error = record_key("not a peer").unwrap_err();
    assert_eq!(call_target("not a peer").unwrap_err(), format!("invalid peer_id 'not a peer': {error}"));
}

#[test]
fn keys_name_their_peers() {
    let (key, peer) = key_and_peer();
    assert_eq!(peer_id_from_disk("/k/identity.key", Some(&key)).unwrap(), peer.to_string());
    assert_eq!(
        peer_id_from_disk("/k/identity.key", None).unwrap_err(),
        "Identity key not found at /k/identity.key"
    );
    let error = peer_id_from_disk("/k/identity.key", Some(&vec![1, 2, 3])).unwrap_err();
    assert!(error.starts_with("decoding keypair: "));
    assert_eq!(key_path(Some("/k"), None).unwrap(), "/k");
    assert_eq!(key_path(None, Some("/home/u/.clawshake")).unwrap(), "/home/u/.clawshake/identity.key");
    assert_eq!(key_path(None, None).unwrap_err(), "Cannot determine home directory");
}
