//! Agent identities.
use clawshake::identity::AgentId;

#[test]
fn agent_id_as_str() {
    assert_eq!(AgentId::Local.as_str(), "local");
    assert_eq!(AgentId::P2p("abc".into()).as_str(), "p2p:abc");
    assert_eq!(AgentId::Tailscale("mynode".into()).as_str(), "tailscale:mynode");
}

#[test]
fn agent_id_display() {
    assert_eq!(AgentId::Local.to_string(), "local");
    assert_eq!(AgentId::P2p("abc".into()).to_string(), "p2p:abc");
    assert_eq!(AgentId::Tailscale("mynode".into()).to_string(), "tailscale:mynode");
}

#[test]
fn agent_id_equality() {
    assert_eq!(AgentId::Local, AgentId::Local);
    assert_ne!(AgentId::P2p("a".into()), AgentId::P2p("b".into()));
    assert_ne!(AgentId::P2p("a".into()), AgentId::Local);
    assert_eq!(AgentId::P2p("x".into()), AgentId::P2p("x".into()));
    assert_ne!(AgentId::Tailscale("n".into()), AgentId::Local);
}

#[test]
fn only_the_local_agent_is_local() {
    assert!(AgentId::Local.is_local());
    assert!(!AgentId::P2p("local".into()).is_local());
    assert_eq!(AgentId::P2p("a".into()).class(), "p2p:*");
}
