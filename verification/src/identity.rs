//! Who is calling.
use vstd::prelude::*;

verus! {

/// The stamped identity of a caller, derived from which transport the
/// connection arrived on.  The caller has no say in this value.
#[derive(Debug, PartialEq, Eq, Hash)]
pub enum AgentId {
    /// TCP loopback / stdio: physically impossible to spoof from outside the host.
    Local,
    /// libp2p Noise handshake: identity is the verified Ed25519 public key.
    P2p(String),
    /// Tailscale WireGuard interface: identity is the Tailscale-issued node name.
    Tailscale(String),
}

impl Clone for AgentId {
    fn clone(&self) -> (r: AgentId)
        ensures
            r == *self,
    {
        match self {
            AgentId::Local => AgentId::Local,
            AgentId::P2p(key) => AgentId::P2p(key.clone()),
            AgentId::Tailscale(node) => AgentId::Tailscale(node.clone()),
        }
    }
}

/// The name under which permission rules know an agent.
pub open spec fn agent_name(agent: AgentId) -> Seq<char> {
    match agent {
        AgentId::Local => "local"@,
        AgentId::P2p(key) => "p2p:"@ + key@,
        AgentId::Tailscale(node) => "tailscale:"@ + node@,
    }
}

/// The wildcard name of an agent's transport class; the local agent has none.
pub open spec fn agent_class(agent: AgentId) -> Seq<char> {
    match agent {
        AgentId::Local => Seq::empty(),
        AgentId::P2p(_) => "p2p:*"@,
        AgentId::Tailscale(_) => "tailscale:*"@,
    }
}

impl AgentId {
    /// The name under which permission rules know this agent.
    pub fn as_str(&self) -> (r: String)
        ensures
            r@ == agent_name(*self),
    {
        match self {
            AgentId::Local => "local".to_owned(),
            AgentId::P2p(key) => {
                let mut r = "p2p:".to_owned();
                r.push_str(key.as_str());
                r
            },
            AgentId::Tailscale(node) => {
                let mut r = "tailscale:".to_owned();
                r.push_str(node.as_str());
                r
            },
        }
    }

    /// The name that is shown to people: the same as [`AgentId::as_str`].
    pub fn to_string(&self) -> (r: String)
        ensures
            r@ == agent_name(*self),
    {
        self.as_str()
    }

    /// The wildcard name of this agent's transport class.
    pub fn class(&self) -> (r: String)
        ensures
            r@ == agent_class(*self),
    {
        match self {
            AgentId::Local => String::new(),
            AgentId::P2p(_) => "p2p:*".to_owned(),
            AgentId::Tailscale(_) => "tailscale:*".to_owned(),
        }
    }

    /// Whether this is the local agent.
    pub fn is_local(&self) -> (r: bool)
        ensures
            r == (*self is Local),
    {
        matches!(self, AgentId::Local)
    }
}

/// Different agents of one class have different names, and no name is shared
/// between classes.
pub proof fn law_names_tell_agents_apart(a: AgentId, b: AgentId)
    requires
        agent_name(a) == agent_name(b),
    ensures
        match (a, b) {
            (AgentId::Local, AgentId::Local) => true,
            (AgentId::P2p(x), AgentId::P2p(y)) => x@ == y@,
            (AgentId::Tailscale(x), AgentId::Tailscale(y)) => x@ == y@,
            _ => false,
        },
{
    reveal_strlit("local");
    reveal_strlit("p2p:");
    reveal_strlit("tailscale:");
    assert("local"@[0] == 'l' && "p2p:"@[0] == 'p' && "tailscale:"@[0] == 't');
    assert("local"@.len() == 5 && "p2p:"@.len() == 4 && "tailscale:"@.len() == 10);
    assert forall|x: AgentId| #![auto] agent_name(x)[0] == (match x {
        AgentId::Local => 'l',
        AgentId::P2p(_) => 'p',
        AgentId::Tailscale(_) => 't',
    }) by {
        match x {
            AgentId::Local => {},
            AgentId::P2p(key) => assert(("p2p:"@ + key@)[0] == "p2p:"@[0]),
            AgentId::Tailscale(node) => assert(("tailscale:"@ + node@)[0] == "tailscale:"@[0]),
        }
    }
    assert(agent_name(a)[0] == agent_name(b)[0]);
    match (a, b) {
        (AgentId::P2p(x), AgentId::P2p(y)) => {
            assert(x@ =~= agent_name(a).skip(4));
            assert(y@ =~= agent_name(b).skip(4));
        },
        (AgentId::Tailscale(x), AgentId::Tailscale(y)) => {
            assert(x@ =~= agent_name(a).skip(10));
            assert(y@ =~= agent_name(b).skip(10));
        },
        _ => {},
    }
}

} // verus!
