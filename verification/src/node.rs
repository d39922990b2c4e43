//! What a P2P node does when something happens on the network.
//!
//! Each handler takes an event, updates the node's state and says which
//! actions the swarm has to perform, in order.  The swarm itself (sockets,
//! handshakes, queries) is driven from outside.
use vstd::prelude::*;

use crate::addr::{
    addrs_view, has_bad_ip, has_circuit, has_ip, has_transport, ip4_loopback, is_globally_reachable, is_ip,
    is_public_addr, own_host, own_host_addr, public_addr, reachable_addr, read_addr, transport_addr, without_peers,
    Multiaddr, Part, PartView,
};
use crate::json::texts_view;
use crate::table::{lemma_set_order, seq_with, seq_without, NameSet, Table};
use crate::text::{decimal, decimal_text, same};

verus! {

/// Relay hop protocol: advertised by nodes that can relay traffic.
pub const RELAY_HOP_PROTOCOL: &'static str = "/libp2p/circuit/relay/0.2.0/hop";

/// Rendezvous protocol: advertised by nodes running a rendezvous server.
pub const RENDEZVOUS_PROTOCOL: &'static str = "/rendezvous/1.0.0";

/// Namespace used for peer discovery via rendezvous.
pub const RENDEZVOUS_NAMESPACE: &'static str = "clawshake";

/// Default port of relay nodes (stable so the address is predictable).
pub const RELAY_DEFAULT_PORT: u16 = 7474;

// ---------------------------------------------------------------------------
// Actions
// ---------------------------------------------------------------------------

/// What the swarm is asked to do.
pub enum Action {
    /// Add an address of a peer to the routing table.
    AddAddress { peer: String, addr: Multiaddr },
    /// Remove an address of a peer from the routing table.
    RemoveAddress { peer: String, addr: Multiaddr },
    /// Dial a peer at its known addresses.
    DialPeer { peer: String },
    /// Dial a peer at these addresses, connected or not.
    DialAt { peer: String, addrs: Vec<Multiaddr> },
    /// Dial an address.
    DialAddr { addr: Multiaddr },
    /// Close one connection.
    Close { connection: u64 },
    /// Look up the announcement record of a peer.
    FetchRecord { peer: String },
    /// Confirm an external address.
    AddExternal { addr: Multiaddr },
    /// Withdraw an external address.
    RemoveExternal { addr: Multiaddr },
    /// Ask a rendezvous server for peers.
    Discover { server: String, cookie: Option<Vec<u8>> },
    /// Register with a rendezvous server.
    Register { server: String },
    /// Listen on an address.
    Listen { addr: Multiaddr },
    /// Serve the routing table to others, or only use it.
    SetServing { serving: bool },
    /// Publish the announcement record now.
    Announce,
    /// Tell the operator that the relay is ready at this address.
    RelayReady { addr: Multiaddr },
    /// Warn the operator that the relay is behind NAT.
    WarnRelayBehindNat,
}

/// The model of an action.
pub enum ActionView {
    AddAddress { peer: Seq<char>, addr: Seq<PartView> },
    RemoveAddress { peer: Seq<char>, addr: Seq<PartView> },
    DialPeer { peer: Seq<char> },
    DialAt { peer: Seq<char>, addrs: Seq<Seq<PartView>> },
    DialAddr { addr: Seq<PartView> },
    Close { connection: u64 },
    FetchRecord { peer: Seq<char> },
    AddExternal { addr: Seq<PartView> },
    RemoveExternal { addr: Seq<PartView> },
    Discover { server: Seq<char>, cookie: Option<Seq<u8>> },
    Register { server: Seq<char> },
    Listen { addr: Seq<PartView> },
    SetServing { serving: bool },
    Announce,
    RelayReady { addr: Seq<PartView> },
    WarnRelayBehindNat,
}

/// The model of an optional cookie.
pub open spec fn cookie_view(c: Option<Vec<u8>>) -> Option<Seq<u8>> {
    match c {
        Some(v) => Some(v@),
        None => None,
    }
}

impl View for Action {
    type V = ActionView;

    open spec fn view(&self) -> ActionView {
        match self {
            Action::AddAddress { peer, addr } => ActionView::AddAddress { peer: peer@, addr: addr@ },
            Action::RemoveAddress { peer, addr } => ActionView::RemoveAddress { peer: peer@, addr: addr@ },
            Action::DialPeer { peer } => ActionView::DialPeer { peer: peer@ },
            Action::DialAt { peer, addrs } => ActionView::DialAt { peer: peer@, addrs: addrs_view(addrs@) },
            Action::DialAddr { addr } => ActionView::DialAddr { addr: addr@ },
            Action::Close { connection } => ActionView::Close { connection: *connection },
            Action::FetchRecord { peer } => ActionView::FetchRecord { peer: peer@ },
            Action::AddExternal { addr } => ActionView::AddExternal { addr: addr@ },
            Action::RemoveExternal { addr } => ActionView::RemoveExternal { addr: addr@ },
            Action::Discover { server, cookie } => ActionView::Discover {
                server: server@,
                cookie: cookie_view(*cookie),
            },
            Action::Register { server } => ActionView::Register { server: server@ },
            Action::Listen { addr } => ActionView::Listen { addr: addr@ },
            Action::SetServing { serving } => ActionView::SetServing { serving: *serving },
            Action::Announce => ActionView::Announce,
            Action::RelayReady { addr } => ActionView::RelayReady { addr: addr@ },
            Action::WarnRelayBehindNat => ActionView::WarnRelayBehindNat,
        }
    }
}

/// The models of a list of actions.
pub open spec fn actions_view(actions: Seq<Action>) -> Seq<ActionView> {
    Seq::new(actions.len(), |i: int| actions[i]@)
}

/// Adds an action to a list.
fn act(actions: &mut Vec<Action>, action: Action)
    ensures
        actions_view(final(actions)@) == actions_view(old(actions)@).push(action@),
{
    actions.push(action);
    assert(actions_view(actions@) =~= actions_view(old(actions)@).push(action@));
}

/// An empty list of actions.
fn no_actions() -> (r: Vec<Action>)
    ensures
        actions_view(r@) == Seq::<ActionView>::empty(),
{
    let r: Vec<Action> = Vec::new();
    assert(actions_view(r@) =~= Seq::<ActionView>::empty());
    r
}

// ---------------------------------------------------------------------------
// State
// ---------------------------------------------------------------------------

/// What the node is: fixed while it runs.
pub struct EventContext {
    pub relay_server: bool,
    pub local_peer_id: String,
}

/// State tracked across events.
pub struct NodeState {
    pub relay_banner_shown: bool,
    pub relay_reserved_peers: NameSet,
    pub rendezvous_cookies: Table<Vec<u8>>,
    pub rendezvous_registered: NameSet,
    pub rendezvous_servers: NameSet,
    /// Each connection to a peer and whether it goes through a relay.
    pub peer_connections: Table<Vec<(u64, bool)>>,
    /// Addresses that the node listens on.
    pub listen_addrs: Vec<Multiaddr>,
    /// Peers with at least one open connection.
    pub connected: NameSet,
}

/// The model of the state.
pub struct NodeView {
    pub banner_shown: bool,
    pub reserved: Set<Seq<char>>,
    pub cookies: Map<Seq<char>, Seq<u8>>,
    pub registered: Set<Seq<char>>,
    pub servers: Seq<Seq<char>>,
    pub connections: Map<Seq<char>, Seq<(u64, bool)>>,
    pub listen: Seq<Seq<PartView>>,
    pub connected: Set<Seq<char>>,
}

/// The contents of each list in a table.
pub open spec fn lists<T>(m: Map<Seq<char>, Vec<T>>) -> Map<Seq<char>, Seq<T>> {
    Map::new(|k: Seq<char>| m.contains_key(k), |k: Seq<char>| m[k]@)
}

impl View for NodeState {
    type V = NodeView;

    open spec fn view(&self) -> NodeView {
        NodeView {
            banner_shown: self.relay_banner_shown,
            reserved: self.relay_reserved_peers@,
            cookies: lists(self.rendezvous_cookies@),
            registered: self.rendezvous_registered@,
            servers: self.rendezvous_servers.order(),
            connections: lists(self.peer_connections@),
            listen: addrs_view(self.listen_addrs@),
            connected: self.connected@,
        }
    }
}

impl NodeState {
    /// Every table and set is well-formed.
    pub open spec fn wf(&self) -> bool {
        &&& self.relay_reserved_peers.wf()
        &&& self.rendezvous_cookies.wf()
        &&& self.rendezvous_registered.wf()
        &&& self.rendezvous_servers.wf()
        &&& self.peer_connections.wf()
        &&& self.connected.wf()
    }

    /// A node that has seen nothing yet.
    pub fn new() -> (r: NodeState)
        ensures
            r.wf(),
            r@ == (NodeView {
                banner_shown: false,
                reserved: Set::empty(),
                cookies: Map::empty(),
                registered: Set::empty(),
                servers: Seq::empty(),
                connections: Map::empty(),
                listen: Seq::empty(),
                connected: Set::empty(),
            }),
    {
        let r = NodeState {
            relay_banner_shown: false,
            relay_reserved_peers: NameSet::new(),
            rendezvous_cookies: Table::new(),
            rendezvous_registered: NameSet::new(),
            rendezvous_servers: NameSet::new(),
            peer_connections: Table::new(),
            listen_addrs: Vec::new(),
            connected: NameSet::new(),
        };
        assert(r@.cookies =~= Map::empty());
        assert(r@.connections =~= Map::empty());
        assert(r@.listen =~= Seq::empty());
        r
    }
}

proof fn lemma_lists_insert<T>(m: Map<Seq<char>, Vec<T>>, k: Seq<char>, v: Vec<T>)
    ensures
        lists(m.insert(k, v)) == lists(m).insert(k, v@),
{
    assert(lists(m.insert(k, v)) =~= lists(m).insert(k, v@));
}

proof fn lemma_lists_remove<T>(m: Map<Seq<char>, Vec<T>>, k: Seq<char>)
    ensures
        lists(m.remove(k)) == lists(m).remove(k),
{
    assert(lists(m.remove(k)) =~= lists(m).remove(k));
}

// ---------------------------------------------------------------------------
// Listening
// ---------------------------------------------------------------------------

/// `addrs` without `addr`.
pub open spec fn addrs_without(addrs: Seq<Seq<PartView>>, addr: Seq<PartView>) -> Seq<Seq<PartView>>
    decreases addrs.len(),
{
    if addrs.len() == 0 {
        Seq::empty()
    } else if addrs.last() == addr {
        addrs_without(addrs.drop_last(), addr)
    } else {
        addrs_without(addrs.drop_last(), addr).push(addrs.last())
    }
}

/// Listening on an address begins: it is added, once.
pub open spec fn listening(s: NodeView, addr: Seq<PartView>) -> NodeView {
    NodeView {
        listen: if s.listen.contains(addr) {
            s.listen
        } else {
            s.listen.push(addr)
        },
        ..s
    }
}

/// Listening on an address ends.
pub open spec fn listening_ended(s: NodeView, addr: Seq<PartView>) -> NodeView {
    NodeView { listen: addrs_without(s.listen, addr), ..s }
}

impl NodeState {
    /// The node listens on a new address.
    pub fn on_new_listen_addr(&mut self, addr: &Multiaddr)
        requires
            old(self).wf(),
        ensures
            final(self).wf(),
            final(self)@ == listening(old(self)@, addr@),
    {
        let ghost before = self@.listen;
        let mut i: usize = 0;
        while i < self.listen_addrs.len()
            invariant
                *self == *old(self),
                self.wf(),
                before == self@.listen,
                i <= self.listen_addrs@.len(),
                forall|j: int| 0 <= j < i ==> #[trigger] before[j] != addr@,
            decreases self.listen_addrs@.len() - i,
        {
            if self.listen_addrs[i].same_as(addr) {
                assert(before[i as int] == addr@);
                return;
            }
            i += 1;
        }
        assert(!before.contains(addr@));
        self.listen_addrs.push(addr.clone());
        assert(self@.listen =~= before.push(addr@));
    }

    /// The node no longer listens on an address.
    pub fn on_expired_listen_addr(&mut self, addr: &Multiaddr)
        requires
            old(self).wf(),
        ensures
            final(self).wf(),
            final(self)@ == listening_ended(old(self)@, addr@),
    {
        let ghost before = self@.listen;
        let mut kept: Vec<Multiaddr> = Vec::new();
        let mut i: usize = 0;
        assert(before.take(0) =~= Seq::empty());
        assert(addrs_view(kept@) =~= Seq::empty());
        while i < self.listen_addrs.len()
            invariant
                *self == *old(self),
                self.wf(),
                before == self@.listen,
                i <= self.listen_addrs@.len(),
                addrs_view(kept@) == addrs_without(before.take(i as int), addr@),
            decreases self.listen_addrs@.len() - i,
        {
            assert(before.take(i + 1).drop_last() =~= before.take(i as int));
            assert(before.take(i + 1).last() == self.listen_addrs@[i as int]@);
            if !self.listen_addrs[i].same_as(addr) {
                let ghost was = addrs_view(kept@);
                kept.push(self.listen_addrs[i].clone());
                assert(addrs_view(kept@) =~= was.push(self.listen_addrs@[i as int]@));
            }
            i += 1;
        }
        assert(before.take(i as int) =~= before);
        self.listen_addrs = kept;
    }
}

// ---------------------------------------------------------------------------
// Connections
// ---------------------------------------------------------------------------

/// The connections to `peer`.
pub open spec fn conns(s: NodeView, peer: Seq<char>) -> Seq<(u64, bool)> {
    if s.connections.contains_key(peer) {
        s.connections[peer]
    } else {
        Seq::empty()
    }
}

/// A connection at this remote address goes through a relay: the address has
/// a circuit, or nothing that could be dialed.
pub open spec fn through_relay(remote: Seq<PartView>) -> bool {
    has_circuit(remote) || !transport_addr(remote)
}

/// Closing every relayed connection other than `keep`.
pub open spec fn close_relayed(cs: Seq<(u64, bool)>, keep: u64) -> Seq<ActionView>
    decreases cs.len(),
{
    if cs.len() == 0 {
        Seq::empty()
    } else {
        let before = close_relayed(cs.drop_last(), keep);
        if cs.last().1 && cs.last().0 != keep {
            before.push(ActionView::Close { connection: cs.last().0 })
        } else {
            before
        }
    }
}

/// The state after a connection is established.
pub open spec fn connected_state(s: NodeView, peer: Seq<char>, connection: u64, remote: Seq<PartView>) -> NodeView {
    NodeView {
        connections: s.connections.insert(peer, conns(s, peer).push((connection, through_relay(remote)))),
        connected: s.connected.insert(peer),
        ..s
    }
}

/// What to do when a connection is established: keep a relayed address out of
/// the routing table, give up relayed connections where a direct one exists,
/// and look up a peer's record on the first connection to it.
pub open spec fn connected_actions(
    s: NodeView,
    peer: Seq<char>,
    connection: u64,
    remote: Seq<PartView>,
    num_established: u32,
) -> Seq<ActionView> {
    let scrub = if through_relay(remote) {
        seq![ActionView::RemoveAddress { peer, addr: remote }]
    } else {
        close_relayed(conns(s, peer).push((connection, false)), connection)
    };
    if num_established == 1 {
        scrub.push(ActionView::FetchRecord { peer })
    } else {
        scrub
    }
}

/// The first connection with this identifier.
pub open spec fn conn_relayed(cs: Seq<(u64, bool)>, connection: u64) -> Option<bool>
    decreases cs.len(),
{
    if cs.len() == 0 {
        None
    } else if cs[0].0 == connection {
        Some(cs[0].1)
    } else {
        conn_relayed(cs.skip(1), connection)
    }
}

/// The connections other than this one.
pub open spec fn conns_without(cs: Seq<(u64, bool)>, connection: u64) -> Seq<(u64, bool)>
    decreases cs.len(),
{
    if cs.len() == 0 {
        Seq::empty()
    } else if cs.last().0 == connection {
        conns_without(cs.drop_last(), connection)
    } else {
        conns_without(cs.drop_last(), connection).push(cs.last())
    }
}

/// The state after a connection is closed; when it was the last one to the
/// peer, nothing is remembered of the peer.
pub open spec fn closed_state(s: NodeView, peer: Seq<char>, connection: u64, num_established: u32) -> NodeView {
    let left = conns_without(conns(s, peer), connection);
    let t = NodeView {
        connections: if left.len() == 0 {
            s.connections.remove(peer)
        } else {
            s.connections.insert(peer, left)
        },
        ..s
    };
    if num_established == 0 {
        NodeView {
            connected: t.connected.remove(peer),
            reserved: t.reserved.remove(peer),
            cookies: t.cookies.remove(peer),
            registered: t.registered.remove(peer),
            servers: seq_without(t.servers, peer),
            ..t
        }
    } else {
        t
    }
}

/// What to do when a connection is closed: when it was direct and the last
/// one, dial the peer again so that a relay can take over.
pub open spec fn closed_actions(
    ctx: EventContext,
    s: NodeView,
    peer: Seq<char>,
    connection: u64,
    num_established: u32,
) -> Seq<ActionView> {
    if conn_relayed(conns(s, peer), connection) == Some(false) && num_established == 0 && !ctx.relay_server && peer
        != ctx.local_peer_id@ {
        seq![ActionView::DialPeer { peer }]
    } else {
        Seq::empty()
    }
}

impl NodeState {
    /// A copy of the connections to `peer`.
    fn connections_of(&self, peer: &str) -> (r: Vec<(u64, bool)>)
        requires
            self.wf(),
        ensures
            r@ == conns(self@, peer@),
    {
        let mut out: Vec<(u64, bool)> = Vec::new();
        match self.peer_connections.get(peer) {
            Some(list) => {
                let mut i: usize = 0;
                while i < list.len()
                    invariant
                        i <= list@.len(),
                        out@ =~= list@.take(i as int),
                    decreases list@.len() - i,
                {
                    out.push(list[i]);
                    i += 1;
                }
                assert(out@ =~= list@);
            },
            None => {
                assert(out@ =~= Seq::empty());
            },
        }
        out
    }

    /// A new connection: classify it (direct or relayed), track it, prefer
    /// direct paths, and look up the peer's record on first contact.
    pub fn on_connection_established(
        &mut self,
        peer: &str,
        connection: u64,
        remote: &Multiaddr,
        num_established: u32,
    ) -> (r: Vec<Action>)
        requires
            old(self).wf(),
        ensures
            final(self).wf(),
            final(self)@ == connected_state(old(self)@, peer@, connection, remote@),
            actions_view(r@) == connected_actions(old(self)@, peer@, connection, remote@, num_established),
    {
        let mut actions = no_actions();
        let relayed = remote.has_circuit() || !has_transport(remote);
        if relayed {
            act(&mut actions, Action::RemoveAddress { peer: peer.to_owned(), addr: remote.clone() });
            assert(actions_view(actions@) =~= seq![ActionView::RemoveAddress { peer: peer@, addr: remote@ }]);
        }
        let mut list = self.connections_of(peer);
        list.push((connection, relayed));
        if !relayed {
            let mut i: usize = 0;
            assert(list@.take(0) =~= Seq::empty());
            while i < list.len()
                invariant
                    i <= list@.len(),
                    actions_view(actions@) == close_relayed(list@.take(i as int), connection),
                decreases list@.len() - i,
            {
                assert(list@.take(i + 1).drop_last() =~= list@.take(i as int));
                assert(list@.take(i + 1).last() == list@[i as int]);
                if list[i].1 && list[i].0 != connection {
                    act(&mut actions, Action::Close { connection: list[i].0 });
                }
                i += 1;
            }
            assert(list@.take(i as int) =~= list@);
        }
        proof {
            lemma_lists_insert(self.peer_connections@, peer@, list);
        }
        self.peer_connections.insert(peer, list);
        let _new = self.connected.insert(peer);
        if num_established == 1 {
            act(&mut actions, Action::FetchRecord { peer: peer.to_owned() });
        }
        actions
    }

    /// A connection is gone: update tracking, fall back to a relay when a
    /// direct path was lost, forget the peer when no connection is left.
    pub fn on_connection_closed(
        &mut self,
        ctx: &EventContext,
        peer: &str,
        connection: u64,
        num_established: u32,
    ) -> (r: Vec<Action>)
        requires
            old(self).wf(),
        ensures
            final(self).wf(),
            final(self)@ == closed_state(old(self)@, peer@, connection, num_established),
            actions_view(r@) == closed_actions(*ctx, old(self)@, peer@, connection, num_established),
    {
        let mut actions = no_actions();
        let list = self.connections_of(peer);
        let mut was_direct = false;
        let mut seen = false;
        let mut left: Vec<(u64, bool)> = Vec::new();
        let mut i: usize = 0;
        assert(list@.take(0) =~= Seq::empty());
        assert(list@.skip(0) =~= list@);
        while i < list.len()
            invariant
                i <= list@.len(),
                left@ == conns_without(list@.take(i as int), connection),
                !seen ==> !was_direct && conn_relayed(list@, connection) == conn_relayed(
                    list@.skip(i as int),
                    connection,
                ),
                seen ==> conn_relayed(list@, connection) == Some(!was_direct),
            decreases list@.len() - i,
        {
            assert(list@.take(i + 1).drop_last() =~= list@.take(i as int));
            assert(list@.take(i + 1).last() == list@[i as int]);
            assert(list@.skip(i as int)[0] == list@[i as int]);
            assert(list@.skip(i as int).skip(1) =~= list@.skip(i + 1));
            if list[i].0 == connection {
                if !seen {
                    seen = true;
                    was_direct = !list[i].1;
                }
            } else {
                left.push(list[i]);
            }
            i += 1;
        }
        assert(list@.take(i as int) =~= list@);
        if left.len() == 0 {
            proof {
                lemma_lists_remove(self.peer_connections@, peer@);
            }
            let _gone = self.peer_connections.remove(peer);
        } else {
            proof {
                lemma_lists_insert(self.peer_connections@, peer@, left);
            }
            self.peer_connections.insert(peer, left);
        }
        if was_direct && num_established == 0 && !ctx.relay_server && !same(peer, ctx.local_peer_id.as_str()) {
            act(&mut actions, Action::DialPeer { peer: peer.to_owned() });
            assert(actions_view(actions@) =~= seq![ActionView::DialPeer { peer: peer@ }]);
        }
        if num_established == 0 {
            proof {
                lemma_lists_remove(self.rendezvous_cookies@, peer@);
            }
            let _a = self.connected.remove(peer);
            let _b = self.relay_reserved_peers.remove(peer);
            let _c = self.rendezvous_cookies.remove(peer);
            let _d = self.rendezvous_registered.remove(peer);
            let _e = self.rendezvous_servers.remove(peer);
        }
        actions
    }
}

// ---------------------------------------------------------------------------
// Discovery on the local network
// ---------------------------------------------------------------------------

/// What to do with peers found on the local network.
pub open spec fn found_actions(peers: Seq<(String, Multiaddr)>) -> Seq<ActionView>
    decreases peers.len(),
{
    if peers.len() == 0 {
        Seq::empty()
    } else {
        let (peer, addr) = peers.last();
        found_actions(peers.drop_last()).push(ActionView::AddAddress { peer: peer@, addr: addr@ }).push(
            ActionView::DialPeer { peer: peer@ },
        )
    }
}

/// What to do with peers that are no longer on the local network.
pub open spec fn lost_actions(peers: Seq<(String, Multiaddr)>) -> Seq<ActionView>
    decreases peers.len(),
{
    if peers.len() == 0 {
        Seq::empty()
    } else {
        let (peer, addr) = peers.last();
        lost_actions(peers.drop_last()).push(ActionView::RemoveAddress { peer: peer@, addr: addr@ })
    }
}

/// Some action comes before another.
pub open spec fn comes_before(actions: Seq<ActionView>, first: ActionView, second: ActionView) -> bool {
    exists|a: int, b: int|
        0 <= a < b < actions.len() && #[trigger] actions[a] == first && #[trigger] actions[b] == second
}

/// Every peer that is found on the local network is dialed, after its address
/// has been remembered.
pub proof fn law_found_peers_are_dialed(peers: Seq<(String, Multiaddr)>, i: int)
    requires
        0 <= i < peers.len(),
    ensures
        comes_before(
            found_actions(peers),
            ActionView::AddAddress { peer: peers[i].0@, addr: peers[i].1@ },
            ActionView::DialPeer { peer: peers[i].0@ },
        ),
    decreases peers.len(),
{
    let all = found_actions(peers);
    let before = found_actions(peers.drop_last());
    let first = ActionView::AddAddress { peer: peers[i].0@, addr: peers[i].1@ };
    let second = ActionView::DialPeer { peer: peers[i].0@ };
    if i < peers.len() - 1 {
        law_found_peers_are_dialed(peers.drop_last(), i);
        let (a, b) = choose|a: int, b: int|
            0 <= a < b < before.len() && #[trigger] before[a] == first && #[trigger] before[b] == second;
        assert(all[a] == first);
        assert(all[b] == second);
    } else {
        assert(all[all.len() - 2] == first);
        assert(all[all.len() - 1] == second);
    }
}

/// Nothing is remembered or dialed but what was found.
pub proof fn law_only_found_peers_are_dialed(peers: Seq<(String, Multiaddr)>, k: int)
    requires
        0 <= k < found_actions(peers).len(),
    ensures
        exists|i: int|
            0 <= i < peers.len() && (found_actions(peers)[k] == (ActionView::AddAddress {
                peer: (#[trigger] peers[i]).0@,
                addr: peers[i].1@,
            }) || found_actions(peers)[k] == (ActionView::DialPeer { peer: peers[i].0@ })),
    decreases peers.len(),
{
    let before = found_actions(peers.drop_last());
    let n = peers.len() - 1;
    if k < before.len() {
        law_only_found_peers_are_dialed(peers.drop_last(), k);
        let i = choose|i: int|
            0 <= i < n && (before[k] == (ActionView::AddAddress {
                peer: (#[trigger] peers.drop_last()[i]).0@,
                addr: peers.drop_last()[i].1@,
            }) || before[k] == (ActionView::DialPeer { peer: peers.drop_last()[i].0@ }));
        assert(peers.drop_last()[i] == peers[i]);
        assert(found_actions(peers)[k] == before[k]);
    } else {
        assert(peers[n] == peers.last());
    }
}

/// The address of every peer that has left the local network is forgotten,
/// and nothing else is done.
pub proof fn law_lost_peers_are_forgotten(peers: Seq<(String, Multiaddr)>, i: int)
    requires
        0 <= i < peers.len(),
    ensures
        lost_actions(peers).len() == peers.len(),
        lost_actions(peers)[i] == (ActionView::RemoveAddress { peer: peers[i].0@, addr: peers[i].1@ }),
    decreases peers.len(),
{
    if peers.len() > 1 {
        law_lost_peers_are_forgotten(
            peers.drop_last(),
            if i < peers.len() - 1 {
                i
            } else {
                0
            },
        );
    } else {
        assert(lost_actions(peers.drop_last()) =~= Seq::empty());
    }
}

/// Peers were found on the local network: remember their addresses and dial.
pub fn on_mdns_discovered(peers: &Vec<(String, Multiaddr)>) -> (r: Vec<Action>)
    ensures
        actions_view(r@) == found_actions(peers@),
        forall|i: int|
            0 <= i < peers@.len() ==> comes_before(
                actions_view(r@),
                ActionView::AddAddress { peer: (#[trigger] peers@[i]).0@, addr: peers@[i].1@ },
                ActionView::DialPeer { peer: peers@[i].0@ },
            ),
{
    let mut actions = no_actions();
    let mut i: usize = 0;
    assert(peers@.take(0) =~= Seq::empty());
    while i < peers.len()
        invariant
            i <= peers@.len(),
            actions_view(actions@) == found_actions(peers@.take(i as int)),
        decreases peers@.len() - i,
    {
        assert(peers@.take(i + 1).drop_last() =~= peers@.take(i as int));
        assert(peers@.take(i + 1).last() == peers@[i as int]);
        act(&mut actions, Action::AddAddress { peer: peers[i].0.clone(), addr: peers[i].1.clone() });
        act(&mut actions, Action::DialPeer { peer: peers[i].0.clone() });
        i += 1;
    }
    assert(peers@.take(i as int) =~= peers@);
    proof {
        assert forall|i: int| 0 <= i < peers@.len() implies comes_before(
            actions_view(actions@),
            ActionView::AddAddress { peer: (#[trigger] peers@[i]).0@, addr: peers@[i].1@ },
            ActionView::DialPeer { peer: peers@[i].0@ },
        ) by {
            law_found_peers_are_dialed(peers@, i);
        }
    }
    actions
}

/// Peers on the local network expired: forget their addresses.
pub fn on_mdns_expired(peers: &Vec<(String, Multiaddr)>) -> (r: Vec<Action>)
    ensures
        actions_view(r@) == lost_actions(peers@),
{
    let mut actions = no_actions();
    let mut i: usize = 0;
    assert(peers@.take(0) =~= Seq::empty());
    while i < peers.len()
        invariant
            i <= peers@.len(),
            actions_view(actions@) == lost_actions(peers@.take(i as int)),
        decreases peers@.len() - i,
    {
        assert(peers@.take(i + 1).drop_last() =~= peers@.take(i as int));
        assert(peers@.take(i + 1).last() == peers@[i as int]);
        act(&mut actions, Action::RemoveAddress { peer: peers[i].0.clone(), addr: peers[i].1.clone() });
        i += 1;
    }
    assert(peers@.take(i as int) =~= peers@);
    actions
}

// ---------------------------------------------------------------------------
// Identify
// ---------------------------------------------------------------------------

/// What a peer says of itself and of us.
pub struct IdentifyInfo {
    pub observed_addr: Multiaddr,
    pub listen_addrs: Vec<Multiaddr>,
    pub protocols: Vec<String>,
}

/// The publicly routable addresses go into the routing table.
pub open spec fn public_adds(peer: Seq<char>, addrs: Seq<Seq<PartView>>) -> Seq<ActionView>
    decreases addrs.len(),
{
    if addrs.len() == 0 {
        Seq::empty()
    } else {
        let before = public_adds(peer, addrs.drop_last());
        if public_addr(addrs.last()) {
            before.push(ActionView::AddAddress { peer, addr: addrs.last() })
        } else {
            before
        }
    }
}

/// The addresses that cannot be dialed leave the routing table.
pub open spec fn scrubs(peer: Seq<char>, addrs: Seq<Seq<PartView>>) -> Seq<ActionView>
    decreases addrs.len(),
{
    if addrs.len() == 0 {
        Seq::empty()
    } else {
        let before = scrubs(peer, addrs.drop_last());
        if !transport_addr(addrs.last()) || own_host_addr(addrs.last()) {
            before.push(ActionView::RemoveAddress { peer, addr: addrs.last() })
        } else {
            before
        }
    }
}

/// An IP address other than loopback and unspecified.
pub open spec fn foreign_ip(p: PartView) -> bool {
    is_ip(p) && !own_host(p)
}

/// A private address at which a peer on the same network could be dialed.
pub open spec fn private_addr(a: Seq<PartView>) -> bool {
    &&& !public_addr(a)
    &&& !has_circuit(a)
    &&& exists|i: int| 0 <= i < a.len() && foreign_ip(#[trigger] a[i])
}

/// The private addresses.
pub open spec fn private_addrs(addrs: Seq<Seq<PartView>>) -> Seq<Seq<PartView>>
    decreases addrs.len(),
{
    if addrs.len() == 0 {
        Seq::empty()
    } else if private_addr(addrs.last()) {
        private_addrs(addrs.drop_last()).push(addrs.last())
    } else {
        private_addrs(addrs.drop_last())
    }
}

/// An address without loopback IPv4 and without circuit.
pub open spec fn plain_addr(a: Seq<PartView>) -> bool {
    !has_circuit(a) && forall|i: int|
        0 <= i < a.len() ==> !(#[trigger] a[i] matches PartView::Ip4(ip) && ip4_loopback(ip))
}

/// The first publicly routable address.
pub open spec fn first_public(addrs: Seq<Seq<PartView>>) -> Option<Seq<PartView>>
    decreases addrs.len(),
{
    if addrs.len() == 0 {
        None
    } else if public_addr(addrs[0]) {
        Some(addrs[0])
    } else {
        first_public(addrs.skip(1))
    }
}

/// The first address without loopback and without circuit.
pub open spec fn first_plain(addrs: Seq<Seq<PartView>>) -> Option<Seq<PartView>>
    decreases addrs.len(),
{
    if addrs.len() == 0 {
        None
    } else if plain_addr(addrs[0]) {
        Some(addrs[0])
    } else {
        first_plain(addrs.skip(1))
    }
}

/// The address on which to reserve a slot at a relay.
pub open spec fn circuit_base(addrs: Seq<Seq<PartView>>) -> Option<Seq<PartView>> {
    if first_public(addrs) is Some {
        first_public(addrs)
    } else {
        first_plain(addrs)
    }
}

/// The circuit through `relay` that begins at `base`.
pub open spec fn circuit_through(base: Seq<PartView>, relay: Seq<char>) -> Seq<PartView> {
    without_peers(base).push(PartView::P2p(relay)).push(PartView::P2pCircuit)
}

/// The peer advertises `protocol`.
pub open spec fn speaks(info: IdentifyInfo, protocol: Seq<char>) -> bool {
    texts_view(info.protocols@).contains(protocol)
}

/// Rendezvous: the peer is a server that this node uses.
pub open spec fn uses_rendezvous(ctx: EventContext, info: IdentifyInfo) -> bool {
    !ctx.relay_server && speaks(info, RENDEZVOUS_PROTOCOL@)
}

/// Relay: a slot at the peer is to be reserved on this address.
pub open spec fn reserve_at(ctx: EventContext, s: NodeView, peer: Seq<char>, info: IdentifyInfo) -> Option<Seq<PartView>> {
    if !ctx.relay_server && !s.reserved.contains(peer) && speaks(info, RELAY_HOP_PROTOCOL@) {
        circuit_base(addrs_view(info.listen_addrs@))
    } else {
        None
    }
}

/// Step one: a relay server confirms its public address at once.
pub open spec fn confirm_step(ctx: EventContext, info: IdentifyInfo) -> Seq<ActionView> {
    if ctx.relay_server && public_addr(info.observed_addr@) {
        seq![ActionView::AddExternal { addr: info.observed_addr@ }]
    } else {
        Seq::empty()
    }
}

/// Step four: over a relay, try the peer's private addresses directly.
pub open spec fn direct_step(peer: Seq<char>, info: IdentifyInfo) -> Seq<ActionView> {
    let addrs = private_addrs(addrs_view(info.listen_addrs@));
    if !has_ip(info.observed_addr@) && addrs.len() > 0 {
        seq![ActionView::DialAt { peer, addrs }]
    } else {
        Seq::empty()
    }
}

/// The cookie of a rendezvous server.
pub open spec fn cookie_of(s: NodeView, server: Seq<char>) -> Option<Seq<u8>> {
    if s.cookies.contains_key(server) {
        Some(s.cookies[server])
    } else {
        None
    }
}

/// Step five: discover peers at a rendezvous server and register with it.
pub open spec fn rendezvous_step(ctx: EventContext, s: NodeView, peer: Seq<char>, info: IdentifyInfo) -> Seq<ActionView> {
    if uses_rendezvous(ctx, info) {
        let discover = seq![ActionView::Discover { server: peer, cookie: cookie_of(s, peer) }];
        if s.registered.contains(peer) {
            discover
        } else {
            discover.push(ActionView::Register { server: peer })
        }
    } else {
        Seq::empty()
    }
}

/// Step six: reserve a slot at a relay.
pub open spec fn relay_step(ctx: EventContext, s: NodeView, peer: Seq<char>, info: IdentifyInfo) -> Seq<ActionView> {
    match reserve_at(ctx, s, peer, info) {
        Some(base) => seq![ActionView::Listen { addr: circuit_through(base, peer) }],
        None => Seq::empty(),
    }
}

/// What to do when a peer has identified itself, in six steps.
pub open spec fn identify_actions(ctx: EventContext, s: NodeView, peer: Seq<char>, info: IdentifyInfo) -> Seq<ActionView> {
    let addrs = addrs_view(info.listen_addrs@);
    confirm_step(ctx, info) + public_adds(peer, addrs) + scrubs(peer, addrs) + direct_step(peer, info) + rendezvous_step(
        ctx,
        s,
        peer,
        info,
    ) + relay_step(ctx, s, peer, info)
}

/// The state after a peer has identified itself.
pub open spec fn identify_state(ctx: EventContext, s: NodeView, peer: Seq<char>, info: IdentifyInfo) -> NodeView {
    NodeView {
        servers: if uses_rendezvous(ctx, info) {
            seq_with(s.servers, peer)
        } else {
            s.servers
        },
        reserved: if reserve_at(ctx, s, peer, info) is Some {
            s.reserved.insert(peer)
        } else {
            s.reserved
        },
        ..s
    }
}

impl IdentifyInfo {
    /// Whether the peer advertises `protocol`.
    fn speaks(&self, protocol: &str) -> (r: bool)
        ensures
            r == speaks(*self, protocol@),
    {
        let ghost all = texts_view(self.protocols@);
        let mut i: usize = 0;
        while i < self.protocols.len()
            invariant
                all == texts_view(self.protocols@),
                i <= self.protocols@.len(),
                forall|j: int| 0 <= j < i ==> #[trigger] all[j] != protocol@,
            decreases self.protocols@.len() - i,
        {
            if same(self.protocols[i].as_str(), protocol) {
                assert(all[i as int] == protocol@);
                return true;
            }
            i += 1;
        }
        false
    }

    /// The private addresses that the peer listens on.
    fn private_addrs(&self) -> (r: Vec<Multiaddr>)
        ensures
            addrs_view(r@) == private_addrs(addrs_view(self.listen_addrs@)),
    {
        let ghost all = addrs_view(self.listen_addrs@);
        let mut out: Vec<Multiaddr> = Vec::new();
        let mut i: usize = 0;
        assert(all.take(0) =~= Seq::empty());
        assert(addrs_view(out@) =~= Seq::empty());
        while i < self.listen_addrs.len()
            invariant
                all == addrs_view(self.listen_addrs@),
                i <= self.listen_addrs@.len(),
                addrs_view(out@) == private_addrs(all.take(i as int)),
            decreases self.listen_addrs@.len() - i,
        {
            assert(all.take(i + 1).drop_last() =~= all.take(i as int));
            let a = &self.listen_addrs[i];
            assert(all.take(i + 1).last() == a@);
            if is_private_addr(a) {
                let ghost was = addrs_view(out@);
                out.push(a.clone());
                assert(addrs_view(out@) =~= was.push(a@));
            }
            i += 1;
        }
        assert(all.take(i as int) =~= all);
        out
    }

    /// The address on which to reserve a slot at the peer.
    fn circuit_base(&self) -> (r: Option<&Multiaddr>)
        ensures
            r is Some <==> circuit_base(addrs_view(self.listen_addrs@)) is Some,
            r is Some ==> r->0@ == circuit_base(addrs_view(self.listen_addrs@))->0,
    {
        let ghost all = addrs_view(self.listen_addrs@);
        let mut i: usize = 0;
        assert(all.skip(0) =~= all);
        while i < self.listen_addrs.len()
            invariant
                all == addrs_view(self.listen_addrs@),
                i <= self.listen_addrs@.len(),
                first_public(all.skip(i as int)) == first_public(all),
            decreases self.listen_addrs@.len() - i,
        {
            assert(all.skip(i as int)[0] == self.listen_addrs@[i as int]@);
            assert(all.skip(i as int).skip(1) =~= all.skip(i + 1));
            if is_public_addr(&self.listen_addrs[i]) {
                return Some(&self.listen_addrs[i]);
            }
            i += 1;
        }
        assert(first_public(all) is None);
        let mut k: usize = 0;
        while k < self.listen_addrs.len()
            invariant
                all == addrs_view(self.listen_addrs@),
                k <= self.listen_addrs@.len(),
                first_public(all) is None,
                first_plain(all.skip(k as int)) == first_plain(all),
            decreases self.listen_addrs@.len() - k,
        {
            assert(all.skip(k as int)[0] == self.listen_addrs@[k as int]@);
            assert(all.skip(k as int).skip(1) =~= all.skip(k + 1));
            if is_plain_addr(&self.listen_addrs[k]) {
                return Some(&self.listen_addrs[k]);
            }
            k += 1;
        }
        None
    }
}

/// Whether a peer on the same network could be dialed at `addr`.
fn is_private_addr(addr: &Multiaddr) -> (r: bool)
    ensures
        r == private_addr(addr@),
{
    if is_public_addr(addr) || addr.has_circuit() {
        return false;
    }
    let mut i: usize = 0;
    while i < addr.parts.len()
        invariant
            i <= addr.parts@.len(),
            !public_addr(addr@),
            !has_circuit(addr@),
            forall|j: int| 0 <= j < i ==> !foreign_ip(#[trigger] addr@[j]),
        decreases addr.parts@.len() - i,
    {
        assert(addr@[i as int] == addr.parts@[i as int]@);
        let foreign = match &addr.parts[i] {
            Part::Ip4(ip) => *ip / 0x100_0000 != 127 && *ip != 0,
            Part::Ip6(ip) => *ip != 1 && *ip != 0,
            _ => false,
        };
        if foreign {
            assert(foreign_ip(addr@[i as int]));
            return true;
        }
        i += 1;
    }
    false
}

/// Whether `addr` has neither a loopback IPv4 address nor a circuit.
fn is_plain_addr(addr: &Multiaddr) -> (r: bool)
    ensures
        r == plain_addr(addr@),
{
    let mut i: usize = 0;
    while i < addr.parts.len()
        invariant
            i <= addr.parts@.len(),
            forall|j: int|
                0 <= j < i ==> !(#[trigger] addr@[j] is P2pCircuit) && !(addr@[j] matches PartView::Ip4(ip)
                    && ip4_loopback(ip)),
        decreases addr.parts@.len() - i,
    {
        assert(addr@[i as int] == addr.parts@[i as int]@);
        match &addr.parts[i] {
            Part::Ip4(ip) => {
                if *ip / 0x100_0000 == 127 {
                    return false;
                }
            },
            Part::P2pCircuit => {
                return false;
            },
            _ => {},
        }
        i += 1;
    }
    true
}

impl NodeState {
    /// A copy of a server's cookie.
    fn cookie(&self, server: &str) -> (r: Option<Vec<u8>>)
        requires
            self.wf(),
        ensures
            cookie_view(r) == cookie_of(self@, server@),
    {
        match self.rendezvous_cookies.get(server) {
            Some(c) => {
                let mut out: Vec<u8> = Vec::new();
                let mut i: usize = 0;
                while i < c.len()
                    invariant
                        i <= c@.len(),
                        out@ =~= c@.take(i as int),
                    decreases c@.len() - i,
                {
                    out.push(c[i]);
                    i += 1;
                }
                assert(out@ =~= c@);
                Some(out)
            },
            None => None,
        }
    }

    /// A peer has identified itself: its addresses and protocols are known.
    pub fn on_identify_received(&mut self, ctx: &EventContext, peer: &str, info: &IdentifyInfo) -> (r: Vec<Action>)
        requires
            old(self).wf(),
        ensures
            final(self).wf(),
            final(self)@ == identify_state(*ctx, old(self)@, peer@, *info),
            actions_view(r@) == identify_actions(*ctx, old(self)@, peer@, *info),
    {
        let mut actions = no_actions();
        let ghost s = self@;
        let ghost all = addrs_view(info.listen_addrs@);
        let ghost a1 = confirm_step(*ctx, *info);
        let ghost a2 = public_adds(peer@, all);
        let ghost a3 = scrubs(peer@, all);

        if ctx.relay_server && is_public_addr(&info.observed_addr) {
            act(&mut actions, Action::AddExternal { addr: info.observed_addr.clone() });
        }
        assert(actions_view(actions@) =~= a1);

        let mut i: usize = 0;
        assert(all.take(0) =~= Seq::empty());
        assert(a1 + public_adds(peer@, all.take(0)) =~= a1);
        while i < info.listen_addrs.len()
            invariant
                i <= info.listen_addrs@.len(),
                all == addrs_view(info.listen_addrs@),
                actions_view(actions@) == a1 + public_adds(peer@, all.take(i as int)),
            decreases info.listen_addrs@.len() - i,
        {
            assert(all.take(i + 1).drop_last() =~= all.take(i as int));
            let a = &info.listen_addrs[i];
            assert(all.take(i + 1).last() == a@);
            let ghost was = actions_view(actions@);
            if is_public_addr(a) {
                act(&mut actions, Action::AddAddress { peer: peer.to_owned(), addr: a.clone() });
            }
            assert(actions_view(actions@) =~= a1 + public_adds(peer@, all.take(i + 1)));
            i += 1;
        }
        assert(all.take(i as int) =~= all);

        let mut k: usize = 0;
        assert(a1 + a2 + scrubs(peer@, all.take(0)) =~= a1 + a2);
        while k < info.listen_addrs.len()
            invariant
                k <= info.listen_addrs@.len(),
                all == addrs_view(info.listen_addrs@),
                actions_view(actions@) == a1 + a2 + scrubs(peer@, all.take(k as int)),
            decreases info.listen_addrs@.len() - k,
        {
            assert(all.take(k + 1).drop_last() =~= all.take(k as int));
            let a = &info.listen_addrs[k];
            assert(all.take(k + 1).last() == a@);
            if !has_transport(a) || has_bad_ip(a) {
                act(&mut actions, Action::RemoveAddress { peer: peer.to_owned(), addr: a.clone() });
            }
            assert(actions_view(actions@) =~= a1 + a2 + scrubs(peer@, all.take(k + 1)));
            k += 1;
        }
        assert(all.take(k as int) =~= all);

        if !info.observed_addr.has_ip() {
            let private = info.private_addrs();
            if private.len() > 0 {
                act(&mut actions, Action::DialAt { peer: peer.to_owned(), addrs: private });
            }
        }
        let ghost a4 = direct_step(peer@, *info);
        assert(actions_view(actions@) =~= a1 + a2 + a3 + a4);

        if !ctx.relay_server && info.speaks(RENDEZVOUS_PROTOCOL) {
            proof {
                lemma_set_order(&self.rendezvous_servers);
            }
            let _new = self.rendezvous_servers.insert(peer);
            let cookie = self.cookie(peer);
            act(&mut actions, Action::Discover { server: peer.to_owned(), cookie });
            if !self.rendezvous_registered.contains(peer) {
                act(&mut actions, Action::Register { server: peer.to_owned() });
            }
        }
        let ghost a5 = rendezvous_step(*ctx, s, peer@, *info);
        assert(actions_view(actions@) =~= a1 + a2 + a3 + a4 + a5);

        if !ctx.relay_server && !self.relay_reserved_peers.contains(peer) && info.speaks(RELAY_HOP_PROTOCOL) {
            match info.circuit_base() {
                Some(base) => {
                    let mut circuit = base.without_peers();
                    let ghost bare = circuit@;
                    circuit.parts.push(Part::P2p(peer.to_owned()));
                    circuit.parts.push(Part::P2pCircuit);
                    assert(circuit@ =~= bare.push(PartView::P2p(peer@)).push(PartView::P2pCircuit));
                    act(&mut actions, Action::Listen { addr: circuit });
                    let _new = self.relay_reserved_peers.insert(peer);
                },
                None => {},
            }
        }
        let ghost a6 = relay_step(*ctx, s, peer@, *info);
        assert(actions_view(actions@) =~= a1 + a2 + a3 + a4 + a5 + a6);
        actions
    }
}

// ---------------------------------------------------------------------------
// Reachability
// ---------------------------------------------------------------------------

/// What is known of the node's reachability.
#[derive(Debug, Clone, Copy, PartialEq, Eq, Structural)]
pub enum NatStatus {
    Public,
    Private,
    Unknown,
}

/// A publicly reachable node serves the routing table; a node behind NAT only
/// uses it, unless it is a relay server, which is warned instead.
pub open spec fn nat_actions(ctx: EventContext, status: NatStatus) -> Seq<ActionView> {
    match status {
        NatStatus::Public => seq![ActionView::SetServing { serving: true }],
        NatStatus::Private => if ctx.relay_server {
            seq![ActionView::WarnRelayBehindNat]
        } else {
            seq![ActionView::SetServing { serving: false }]
        },
        NatStatus::Unknown => Seq::empty(),
    }
}

/// The node's reachability has changed.
pub fn on_autonat_status_changed(ctx: &EventContext, status: NatStatus) -> (r: Vec<Action>)
    ensures
        actions_view(r@) == nat_actions(*ctx, status),
{
    let mut actions = no_actions();
    match status {
        NatStatus::Public => {
            act(&mut actions, Action::SetServing { serving: true });
        },
        NatStatus::Private => {
            if ctx.relay_server {
                act(&mut actions, Action::WarnRelayBehindNat);
            } else {
                act(&mut actions, Action::SetServing { serving: false });
            }
        },
        NatStatus::Unknown => {},
    }
    assert(actions_view(actions@) =~= nat_actions(*ctx, status));
    actions
}

/// Registering with every server that the node is not registered with.
pub open spec fn register_missing(servers: Seq<Seq<char>>, registered: Set<Seq<char>>) -> Seq<ActionView>
    decreases servers.len(),
{
    if servers.len() == 0 {
        Seq::empty()
    } else {
        let before = register_missing(servers.drop_last(), registered);
        if registered.contains(servers.last()) {
            before
        } else {
            before.push(ActionView::Register { server: servers.last() })
        }
    }
}

/// The full address of this node at `addr`.
pub open spec fn own_addr(ctx: EventContext, addr: Seq<PartView>) -> Seq<PartView> {
    without_peers(addr).push(PartView::P2p(ctx.local_peer_id@))
}

/// What to do when an external address is confirmed: a relay server shows its
/// address once; the record is announced; other nodes register with the
/// rendezvous servers that are still missing.
pub open spec fn confirmed_actions(ctx: EventContext, s: NodeView, addr: Seq<PartView>) -> Seq<ActionView> {
    if ctx.relay_server {
        if s.banner_shown {
            seq![ActionView::Announce]
        } else {
            seq![ActionView::RelayReady { addr: own_addr(ctx, addr) }, ActionView::Announce]
        }
    } else {
        seq![ActionView::Announce] + register_missing(s.servers, s.registered)
    }
}

/// The state after an external address is confirmed.
pub open spec fn confirmed_state(ctx: EventContext, s: NodeView) -> NodeView {
    NodeView { banner_shown: s.banner_shown || ctx.relay_server, ..s }
}

impl NodeState {
    /// An external address is confirmed.
    pub fn on_external_addr_confirmed(&mut self, ctx: &EventContext, addr: &Multiaddr) -> (r: Vec<Action>)
        requires
            old(self).wf(),
        ensures
            final(self).wf(),
            final(self)@ == confirmed_state(*ctx, old(self)@),
            actions_view(r@) == confirmed_actions(*ctx, old(self)@, addr@),
    {
        let mut actions = no_actions();
        if ctx.relay_server && !self.relay_banner_shown {
            let mut full = addr.without_peers();
            let ghost bare = full@;
            full.parts.push(Part::P2p(ctx.local_peer_id.clone()));
            assert(full@ =~= bare.push(PartView::P2p(ctx.local_peer_id@)));
            act(&mut actions, Action::RelayReady { addr: full });
            self.relay_banner_shown = true;
        }
        act(&mut actions, Action::Announce);
        if ctx.relay_server {
            assert(actions_view(actions@) =~= confirmed_actions(*ctx, old(self)@, addr@));
            return actions;
        }
        let ghost servers = self.rendezvous_servers.order();
        let mut i: usize = 0;
        let n: usize = self.rendezvous_servers.len();
        assert(servers.take(0) =~= Seq::empty());
        assert(actions_view(actions@) =~= seq![ActionView::Announce] + register_missing(
            servers.take(0),
            self.rendezvous_registered@,
        ));
        while i < n
            invariant
                i <= n == servers.len(),
                servers == self.rendezvous_servers.order(),
                actions_view(actions@) == seq![ActionView::Announce] + register_missing(
                    servers.take(i as int),
                    self.rendezvous_registered@,
                ),
            decreases n - i,
        {
            assert(servers.take(i + 1).drop_last() =~= servers.take(i as int));
            let server = self.rendezvous_servers.at(i);
            assert(servers.take(i + 1).last() == server@);
            if !self.rendezvous_registered.contains(server) {
                act(&mut actions, Action::Register { server: server.to_owned() });
            }
            assert(actions_view(actions@) =~= seq![ActionView::Announce] + register_missing(
                servers.take(i + 1),
                self.rendezvous_registered@,
            ));
            i += 1;
        }
        assert(servers.take(i as int) =~= servers);
        actions
    }

    /// A registration that was asked for is under way.
    pub fn on_register_accepted(&mut self, server: &str)
        requires
            old(self).wf(),
        ensures
            final(self).wf(),
            final(self)@ == (NodeView { registered: old(self)@.registered.insert(server@), ..old(self)@ }),
    {
        let _new = self.rendezvous_registered.insert(server);
    }
}

// ---------------------------------------------------------------------------
// Rendezvous
// ---------------------------------------------------------------------------

/// A peer that a rendezvous server knows of.
pub struct Registration {
    pub peer: String,
    pub addrs: Vec<Multiaddr>,
}

/// What a rendezvous server answers.
pub enum RendezvousEvent {
    Discovered { server: String, registrations: Vec<Registration>, cookie: Vec<u8> },
    Registered { server: String },
    RegisterFailed { server: String },
    DiscoverFailed { server: String },
    Expired { server: String },
}

/// The globally reachable addresses go into the routing table.
pub open spec fn reachable_adds(peer: Seq<char>, addrs: Seq<Seq<PartView>>) -> Seq<ActionView>
    decreases addrs.len(),
{
    if addrs.len() == 0 {
        Seq::empty()
    } else {
        let before = reachable_adds(peer, addrs.drop_last());
        if reachable_addr(addrs.last()) {
            before.push(ActionView::AddAddress { peer, addr: addrs.last() })
        } else {
            before
        }
    }
}

/// What to do with a registered peer, other than oneself.
pub open spec fn registration_actions(ctx: EventContext, r: Registration) -> Seq<ActionView> {
    if r.peer@ == ctx.local_peer_id@ {
        Seq::empty()
    } else {
        reachable_adds(r.peer@, addrs_view(r.addrs@)).push(ActionView::DialPeer { peer: r.peer@ })
    }
}

/// What to do with the registered peers.
pub open spec fn registrations_actions(ctx: EventContext, rs: Seq<Registration>) -> Seq<ActionView>
    decreases rs.len(),
{
    if rs.len() == 0 {
        Seq::empty()
    } else {
        registrations_actions(ctx, rs.drop_last()) + registration_actions(ctx, rs.last())
    }
}

/// What to do on an answer of a rendezvous server.
pub open spec fn rendezvous_actions(ctx: EventContext, event: RendezvousEvent) -> Seq<ActionView> {
    match event {
        RendezvousEvent::Discovered { server, registrations, cookie } => registrations_actions(ctx, registrations@),
        RendezvousEvent::Expired { server } => seq![ActionView::Register { server: server@ }],
        _ => Seq::empty(),
    }
}

/// The state after an answer of a rendezvous server.
pub open spec fn rendezvous_state(s: NodeView, event: RendezvousEvent) -> NodeView {
    match event {
        RendezvousEvent::Discovered { server, registrations, cookie } => NodeView {
            cookies: s.cookies.insert(server@, cookie@),
            ..s
        },
        RendezvousEvent::RegisterFailed { server } => NodeView { registered: s.registered.remove(server@), ..s },
        RendezvousEvent::Expired { server } => NodeView { registered: s.registered.remove(server@), ..s },
        _ => s,
    }
}

/// Asking every known server for peers.
pub open spec fn discover_all(s: NodeView, servers: Seq<Seq<char>>) -> Seq<ActionView> {
    Seq::new(
        servers.len(),
        |i: int| ActionView::Discover { server: servers[i], cookie: cookie_of(s, servers[i]) },
    )
}

/// What to do with the registered peers.
fn use_registrations(ctx: &EventContext, registrations: &Vec<Registration>) -> (r: Vec<Action>)
    ensures
        actions_view(r@) == registrations_actions(*ctx, registrations@),
{
    let mut actions = no_actions();
    let mut i: usize = 0;
    assert(registrations@.take(0) =~= Seq::empty());
    while i < registrations.len()
        invariant
            i <= registrations@.len(),
            actions_view(actions@) == registrations_actions(*ctx, registrations@.take(i as int)),
        decreases registrations@.len() - i,
    {
        assert(registrations@.take(i + 1).drop_last() =~= registrations@.take(i as int));
        assert(registrations@.take(i + 1).last() == registrations@[i as int]);
        let reg = &registrations[i];
        let ghost before = actions_view(actions@);
        if !same(reg.peer.as_str(), ctx.local_peer_id.as_str()) {
            let ghost all = addrs_view(reg.addrs@);
            let mut k: usize = 0;
            assert(all.take(0) =~= Seq::empty());
            assert(before + reachable_adds(reg.peer@, all.take(0)) =~= before);
            while k < reg.addrs.len()
                invariant
                    k <= reg.addrs@.len(),
                    all == addrs_view(reg.addrs@),
                    actions_view(actions@) == before + reachable_adds(reg.peer@, all.take(k as int)),
                decreases reg.addrs@.len() - k,
            {
                assert(all.take(k + 1).drop_last() =~= all.take(k as int));
                let a = &reg.addrs[k];
                assert(all.take(k + 1).last() == a@);
                if is_globally_reachable(a) {
                    act(&mut actions, Action::AddAddress { peer: reg.peer.clone(), addr: a.clone() });
                }
                assert(actions_view(actions@) =~= before + reachable_adds(reg.peer@, all.take(k + 1)));
                k += 1;
            }
            assert(all.take(k as int) =~= all);
            act(&mut actions, Action::DialPeer { peer: reg.peer.clone() });
        }
        assert(actions_view(actions@) =~= before + registration_actions(*ctx, *reg));
        i += 1;
    }
    assert(registrations@.take(i as int) =~= registrations@);
    actions
}

impl NodeState {
    /// A rendezvous server has answered.
    pub fn on_rendezvous_client(&mut self, ctx: &EventContext, event: RendezvousEvent) -> (r: Vec<Action>)
        requires
            old(self).wf(),
        ensures
            final(self).wf(),
            final(self)@ == rendezvous_state(old(self)@, event),
            actions_view(r@) == rendezvous_actions(*ctx, event),
    {
        match event {
            RendezvousEvent::Discovered { server, registrations, cookie } => {
                proof {
                    lemma_lists_insert(self.rendezvous_cookies@, server@, cookie);
                }
                self.rendezvous_cookies.insert(server.as_str(), cookie);
                use_registrations(ctx, &registrations)
            },
            RendezvousEvent::RegisterFailed { server } => {
                let _was = self.rendezvous_registered.remove(server.as_str());
                no_actions()
            },
            RendezvousEvent::Expired { server } => {
                let _was = self.rendezvous_registered.remove(server.as_str());
                let mut actions = no_actions();
                act(&mut actions, Action::Register { server });
                assert(actions_view(actions@) =~= seq![ActionView::Register { server: server@ }]);
                actions
            },
            _ => no_actions(),
        }
    }

    /// Time to ask the known rendezvous servers for newly registered peers.
    pub fn on_rendezvous_tick(&self) -> (r: Vec<Action>)
        requires
            self.wf(),
        ensures
            actions_view(r@) == discover_all(self@, self@.servers),
    {
        let mut actions = no_actions();
        let n: usize = self.rendezvous_servers.len();
        let ghost servers = self@.servers;
        let mut i: usize = 0;
        assert(discover_all(self@, servers.take(0)) =~= Seq::empty());
        while i < n
            invariant
                self.wf(),
                i <= n == servers.len(),
                servers == self.rendezvous_servers.order(),
                actions_view(actions@) == discover_all(self@, servers.take(i as int)),
            decreases n - i,
        {
            let server = self.rendezvous_servers.at(i);
            let cookie = self.cookie(server);
            act(&mut actions, Action::Discover { server: server.to_owned(), cookie });
            assert(actions_view(actions@) =~= discover_all(self@, servers.take(i + 1)));
            i += 1;
        }
        assert(servers.take(i as int) =~= servers);
        actions
    }
}

// ---------------------------------------------------------------------------
// Bootstrap
// ---------------------------------------------------------------------------

/// The peers to dial at start: the configured ones, then the ones given on
/// the command line.
pub fn bootstrap_peers(configured: &Vec<String>, given: &Vec<String>) -> (r: Vec<String>)
    ensures
        r@ == configured@ + given@,
{
    let mut out: Vec<String> = Vec::new();
    let mut i: usize = 0;
    while i < configured.len()
        invariant
            i <= configured@.len(),
            out@ =~= configured@.take(i as int),
        decreases configured@.len() - i,
    {
        out.push(configured[i].clone());
        i += 1;
    }
    let mut k: usize = 0;
    assert(out@ =~= configured@ + given@.take(0));
    while k < given.len()
        invariant
            k <= given@.len(),
            out@ =~= configured@ + given@.take(k as int),
        decreases given@.len() - k,
    {
        out.push(given[k].clone());
        k += 1;
    }
    assert(given@.take(k as int) =~= given@);
    out
}

/// The addresses in some texts, without the texts that are none.
pub open spec fn readable_addrs(texts: Seq<Seq<char>>) -> Seq<Seq<PartView>>
    decreases texts.len(),
{
    if texts.len() == 0 {
        Seq::empty()
    } else {
        match read_addr(texts.last()) {
            Ok(a) => readable_addrs(texts.drop_last()).push(a),
            Err(_) => readable_addrs(texts.drop_last()),
        }
    }
}

/// Reads the addresses of the bootstrap peers.  A text that is no address is
/// passed over.
pub fn bootstrap_addrs(texts: &Vec<String>) -> (r: Vec<Multiaddr>)
    ensures
        addrs_view(r@) == readable_addrs(texts_view(texts@)),
{
    let mut out: Vec<Multiaddr> = Vec::new();
    let ghost all = texts_view(texts@);
    let mut i: usize = 0;
    assert(all.take(0) =~= Seq::empty());
    assert(addrs_view(out@) =~= readable_addrs(all.take(0)));
    while i < texts.len()
        invariant
            all == texts_view(texts@),
            i <= texts@.len(),
            addrs_view(out@) == readable_addrs(all.take(i as int)),
        decreases texts@.len() - i,
    {
        proof {
            assert(all.take(i + 1).drop_last() =~= all.take(i as int));
            assert(all.take(i + 1).last() == texts@[i as int]@);
        }
        match Multiaddr::from_text(texts[i].as_str()) {
            Ok(a) => {
                let ghost was = addrs_view(out@);
                let ghost read = a@;
                out.push(a);
                assert(addrs_view(out@) =~= was.push(read));
            },
            Err(_) => {},
        }
        i += 1;
    }
    assert(all.take(i as int) =~= all);
    out
}

/// What to do with one bootstrap address: remember it under the peer that it
/// ends in, and dial it.
pub open spec fn bootstrap_actions(addr: Seq<PartView>) -> Seq<ActionView> {
    if addr.len() > 0 && addr.last() is P2p {
        seq![
            ActionView::AddAddress { peer: addr.last()->P2p_0, addr: without_peers(addr) },
            ActionView::DialAddr { addr },
        ]
    } else {
        seq![ActionView::DialAddr { addr }]
    }
}

/// Dials one bootstrap address.
pub fn dial_bootstrap(addr: &Multiaddr) -> (r: Vec<Action>)
    ensures
        actions_view(r@) == bootstrap_actions(addr@),
{
    let mut actions = no_actions();
    match addr.last_part_peer() {
        Some(peer) => {
            act(&mut actions, Action::AddAddress { peer: peer.to_owned(), addr: addr.without_peers() });
        },
        None => {},
    }
    act(&mut actions, Action::DialAddr { addr: addr.clone() });
    assert(actions_view(actions@) =~= bootstrap_actions(addr@));
    actions
}

/// Dialing each address.
pub open spec fn dial_all(addrs: Seq<Seq<PartView>>) -> Seq<ActionView> {
    Seq::new(addrs.len(), |i: int| ActionView::DialAddr { addr: addrs[i] })
}

impl NodeState {
    /// Time to look whether the node is isolated: if no peer is connected,
    /// the bootstrap peers are dialed again.
    pub fn retry_bootstrap(&self, addrs: &Vec<Multiaddr>) -> (r: Vec<Action>)
        ensures
            actions_view(r@) == (if self@.connected == Set::<Seq<char>>::empty() {
                dial_all(addrs_view(addrs@))
            } else {
                Seq::empty()
            }),
    {
        let mut actions = no_actions();
        if !self.connected.is_empty() {
            return actions;
        }
        let ghost all = addrs_view(addrs@);
        let mut i: usize = 0;
        assert(dial_all(all.take(0)) =~= Seq::empty());
        while i < addrs.len()
            invariant
                all == addrs_view(addrs@),
                i <= addrs@.len(),
                actions_view(actions@) == dial_all(all.take(i as int)),
            decreases addrs@.len() - i,
        {
            act(&mut actions, Action::DialAddr { addr: addrs[i].clone() });
            assert(actions_view(actions@) =~= dial_all(all.take(i + 1)));
            i += 1;
        }
        assert(all.take(i as int) =~= all);
        actions
    }
}

/// The text of a listener: a prefix, the port and a suffix.
fn listener(prefix: &str, port: u16, suffix: &str) -> (r: String)
    ensures
        r@ == prefix@ + decimal(port as nat) + suffix@,
{
    let mut r = prefix.to_owned();
    r.push_str(decimal_text(port as u64).as_str());
    r.push_str(suffix);
    r
}

/// The addresses that a node listens on.  The node does not start without the
/// IPv4 ones; the IPv6 ones are optional.
pub struct Listeners {
    pub tcp4: String,
    pub quic4: String,
    pub tcp6: String,
    pub quic6: String,
}

/// The addresses that a node listens on at `port`.
pub fn listeners(port: u16) -> (r: Listeners)
    ensures
        r.tcp4@ == "/ip4/0.0.0.0/tcp/"@ + decimal(port as nat) + ""@,
        r.quic4@ == "/ip4/0.0.0.0/udp/"@ + decimal(port as nat) + "/quic-v1"@,
        r.tcp6@ == "/ip6/::/tcp/"@ + decimal(port as nat) + ""@,
        r.quic6@ == "/ip6/::/udp/"@ + decimal(port as nat) + "/quic-v1"@,
{
    Listeners {
        tcp4: listener("/ip4/0.0.0.0/tcp/", port, ""),
        quic4: listener("/ip4/0.0.0.0/udp/", port, "/quic-v1"),
        tcp6: listener("/ip6/::/tcp/", port, ""),
        quic6: listener("/ip6/::/udp/", port, "/quic-v1"),
    }
}

/// Which services a node offers besides its own traffic.
pub struct Services {
    /// Relaying for others, and the rendezvous server that goes with it.
    pub relay: bool,
    pub rendezvous: bool,
    /// Asking the gateway for a port mapping.
    pub port_mapping: bool,
    /// Serving the routing table from the start.
    pub serving: bool,
}

/// The services of a node: a relay server relays, keeps registrations and
/// serves the routing table; any other node asks its gateway for a port.
pub fn services(relay_server: bool) -> (r: Services)
    ensures
        r.relay == relay_server,
        r.rendezvous == relay_server,
        r.port_mapping == !relay_server,
        r.serving == relay_server,
{
    Services { relay: relay_server, rendezvous: relay_server, port_mapping: !relay_server, serving: relay_server }
}

// ---------------------------------------------------------------------------
// Dispatch
// ---------------------------------------------------------------------------

/// What can happen on the network.  Anything that asks for no reaction is
/// `Other`.
pub enum NodeEvent {
    NewListenAddr { addr: Multiaddr },
    ExpiredListenAddr { addr: Multiaddr },
    ConnectionEstablished { peer: String, connection: u64, remote: Multiaddr, num_established: u32 },
    ConnectionClosed { peer: String, connection: u64, num_established: u32 },
    MdnsDiscovered { peers: Vec<(String, Multiaddr)> },
    MdnsExpired { peers: Vec<(String, Multiaddr)> },
    Identified { peer: String, info: IdentifyInfo },
    NatChanged { status: NatStatus },
    ExternalAddrConfirmed { addr: Multiaddr },
    PortMapped { addr: Multiaddr },
    PortMappingExpired { addr: Multiaddr },
    Rendezvous { event: RendezvousEvent },
    Other,
}

/// What to do when something happens.
pub open spec fn reaction(ctx: EventContext, s: NodeView, event: NodeEvent) -> Seq<ActionView> {
    match event {
        NodeEvent::NewListenAddr { addr } => Seq::empty(),
        NodeEvent::ExpiredListenAddr { addr } => Seq::empty(),
        NodeEvent::ConnectionEstablished { peer, connection, remote, num_established } => connected_actions(
            s,
            peer@,
            connection,
            remote@,
            num_established,
        ),
        NodeEvent::ConnectionClosed { peer, connection, num_established } => closed_actions(
            ctx,
            s,
            peer@,
            connection,
            num_established,
        ),
        NodeEvent::MdnsDiscovered { peers } => found_actions(peers@),
        NodeEvent::MdnsExpired { peers } => lost_actions(peers@),
        NodeEvent::Identified { peer, info } => identify_actions(ctx, s, peer@, info),
        NodeEvent::NatChanged { status } => nat_actions(ctx, status),
        NodeEvent::ExternalAddrConfirmed { addr } => confirmed_actions(ctx, s, addr@),
        NodeEvent::PortMapped { addr } => seq![ActionView::AddExternal { addr: addr@ }],
        NodeEvent::PortMappingExpired { addr } => seq![ActionView::RemoveExternal { addr: addr@ }],
        NodeEvent::Rendezvous { event } => rendezvous_actions(ctx, event),
        NodeEvent::Other => Seq::empty(),
    }
}

/// The state after something has happened.
pub open spec fn next_state(ctx: EventContext, s: NodeView, event: NodeEvent) -> NodeView {
    match event {
        NodeEvent::NewListenAddr { addr } => listening(s, addr@),
        NodeEvent::ExpiredListenAddr { addr } => listening_ended(s, addr@),
        NodeEvent::ConnectionEstablished { peer, connection, remote, num_established } => connected_state(
            s,
            peer@,
            connection,
            remote@,
        ),
        NodeEvent::ConnectionClosed { peer, connection, num_established } => closed_state(
            s,
            peer@,
            connection,
            num_established,
        ),
        NodeEvent::Identified { peer, info } => identify_state(ctx, s, peer@, info),
        NodeEvent::ExternalAddrConfirmed { addr } => confirmed_state(ctx, s),
        NodeEvent::Rendezvous { event } => rendezvous_state(s, event),
        _ => s,
    }
}

impl NodeState {
    /// Something has happened on the network.
    pub fn handle_event(&mut self, ctx: &EventContext, event: NodeEvent) -> (r: Vec<Action>)
        requires
            old(self).wf(),
        ensures
            final(self).wf(),
            final(self)@ == next_state(*ctx, old(self)@, event),
            actions_view(r@) == reaction(*ctx, old(self)@, event),
    {
        match event {
            NodeEvent::NewListenAddr { addr } => {
                self.on_new_listen_addr(&addr);
                no_actions()
            },
            NodeEvent::ExpiredListenAddr { addr } => {
                self.on_expired_listen_addr(&addr);
                no_actions()
            },
            NodeEvent::ConnectionEstablished { peer, connection, remote, num_established } => {
                self.on_connection_established(peer.as_str(), connection, &remote, num_established)
            },
            NodeEvent::ConnectionClosed { peer, connection, num_established } => {
                self.on_connection_closed(ctx, peer.as_str(), connection, num_established)
            },
            NodeEvent::MdnsDiscovered { peers } => on_mdns_discovered(&peers),
            NodeEvent::MdnsExpired { peers } => on_mdns_expired(&peers),
            NodeEvent::Identified { peer, info } => self.on_identify_received(ctx, peer.as_str(), &info),
            NodeEvent::NatChanged { status } => on_autonat_status_changed(ctx, status),
            NodeEvent::ExternalAddrConfirmed { addr } => self.on_external_addr_confirmed(ctx, &addr),
            NodeEvent::PortMapped { addr } => {
                let mut actions = no_actions();
                act(&mut actions, Action::AddExternal { addr });
                assert(actions_view(actions@) =~= seq![ActionView::AddExternal { addr: addr@ }]);
                actions
            },
            NodeEvent::PortMappingExpired { addr } => {
                let mut actions = no_actions();
                act(&mut actions, Action::RemoveExternal { addr });
                assert(actions_view(actions@) =~= seq![ActionView::RemoveExternal { addr: addr@ }]);
                actions
            },
            NodeEvent::Rendezvous { event } => self.on_rendezvous_client(ctx, event),
            NodeEvent::Other => no_actions(),
        }
    }
}

// ---------------------------------------------------------------------------
// Laws
// ---------------------------------------------------------------------------

/// A relay server never becomes a client of another relay or of a rendezvous
/// server.
pub proof fn law_relay_server_is_no_client(ctx: EventContext, s: NodeView, event: NodeEvent)
    requires
        ctx.relay_server,
        event !is Rendezvous,
    ensures
        next_state(ctx, s, event).reserved.subset_of(s.reserved),
        forall|n: Seq<char>| next_state(ctx, s, event).servers.contains(n) ==> s.servers.contains(n),
        forall|i: int|
            0 <= i < reaction(ctx, s, event).len() ==> !(#[trigger] reaction(ctx, s, event)[i] is Discover) && !(
            reaction(ctx, s, event)[i] is Register) && !(reaction(ctx, s, event)[i] is Listen),
{
    match event {
        NodeEvent::ConnectionEstablished { peer, connection, remote, num_established } => {
            lemma_close_only(conns(s, peer@).push((connection, false)), connection);
        },
        NodeEvent::ConnectionClosed { peer, connection, num_established } => {
            let gone = seq_without(s.servers, peer@);
            assert forall|n: Seq<char>| gone.contains(n) implies s.servers.contains(n) by {
                if s.servers.contains(peer@) {
                    let at = s.servers.index_of(peer@);
                    let j = choose|j: int| 0 <= j < gone.len() && gone[j] == n;
                    let p = if j < at { j } else { j + 1 };
                    assert(s.servers[p] == n);
                }
            }
        },
        NodeEvent::MdnsDiscovered { peers } => lemma_found_only(peers@),
        NodeEvent::MdnsExpired { peers } => lemma_lost_only(peers@),
        NodeEvent::Identified { peer, info } => {
            lemma_adds_only(peer@, addrs_view(info.listen_addrs@));
        },
        _ => {},
    }
}

proof fn lemma_close_only(cs: Seq<(u64, bool)>, keep: u64)
    ensures
        forall|i: int| 0 <= i < close_relayed(cs, keep).len() ==> #[trigger] close_relayed(cs, keep)[i] is Close,
    decreases cs.len(),
{
    if cs.len() > 0 {
        lemma_close_only(cs.drop_last(), keep);
    }
}

proof fn lemma_found_only(peers: Seq<(String, Multiaddr)>)
    ensures
        forall|i: int|
            0 <= i < found_actions(peers).len() ==> #[trigger] found_actions(peers)[i] is AddAddress || found_actions(
                peers,
            )[i] is DialPeer,
    decreases peers.len(),
{
    if peers.len() > 0 {
        lemma_found_only(peers.drop_last());
    }
}

proof fn lemma_lost_only(peers: Seq<(String, Multiaddr)>)
    ensures
        forall|i: int| 0 <= i < lost_actions(peers).len() ==> #[trigger] lost_actions(peers)[i] is RemoveAddress,
    decreases peers.len(),
{
    if peers.len() > 0 {
        lemma_lost_only(peers.drop_last());
    }
}

proof fn lemma_adds_only(peer: Seq<char>, addrs: Seq<Seq<PartView>>)
    ensures
        forall|i: int| 0 <= i < public_adds(peer, addrs).len() ==> #[trigger] public_adds(peer, addrs)[i] is AddAddress,
        forall|i: int| 0 <= i < scrubs(peer, addrs).len() ==> #[trigger] scrubs(peer, addrs)[i] is RemoveAddress,
    decreases addrs.len(),
{
    if addrs.len() > 0 {
        lemma_adds_only(peer, addrs.drop_last());
    }
}

/// When the last connection to a peer closes, nothing is remembered of it.
pub proof fn law_last_close_forgets(s: NodeView, peer: Seq<char>, connection: u64)
    requires
        s.servers.no_duplicates(),
    ensures
        ({
            let t = closed_state(s, peer, connection, 0);
            &&& !t.connected.contains(peer)
            &&& !t.reserved.contains(peer)
            &&& !t.cookies.contains_key(peer)
            &&& !t.registered.contains(peer)
            &&& !t.servers.contains(peer)
        }),
{
    let gone = seq_without(s.servers, peer);
    if s.servers.contains(peer) {
        let at = s.servers.index_of(peer);
        assert(s.servers[at] == peer);
        if gone.contains(peer) {
            let j = choose|j: int| 0 <= j < gone.len() && gone[j] == peer;
            let p = if j < at { j } else { j + 1 };
            assert(s.servers[p] == peer);
        }
    }
}

/// A slot at a relay is reserved once: while the reservation is remembered,
/// identifying the peer again asks for no second one.
pub proof fn law_reserve_once(ctx: EventContext, s: NodeView, peer: Seq<char>, info: IdentifyInfo, again: IdentifyInfo)
    requires
        reserve_at(ctx, s, peer, info) is Some,
    ensures
        relay_step(ctx, identify_state(ctx, s, peer, info), peer, again) == Seq::<ActionView>::empty(),
{
}

/// The relay's address is shown once.
pub proof fn law_banner_once(ctx: EventContext, s: NodeView, first: Seq<PartView>, second: Seq<PartView>)
    requires
        ctx.relay_server,
    ensures
        confirmed_actions(ctx, confirmed_state(ctx, s), second) == seq![ActionView::Announce],
{
}

/// A listen address is held at most once.
pub proof fn law_listen_once(s: NodeView, addr: Seq<PartView>)
    ensures
        listening(listening(s, addr), addr) == listening(s, addr),
        listening(s, addr).listen.contains(addr),
        !listening_ended(s, addr).listen.contains(addr),
{
    let l = listening(s, addr).listen;
    if !s.listen.contains(addr) {
        assert(l[s.listen.len() as int] == addr);
    }
    assert(l.contains(addr));
    lemma_addrs_without(s.listen, addr);
}

proof fn lemma_addrs_without(addrs: Seq<Seq<PartView>>, addr: Seq<PartView>)
    ensures
        !addrs_without(addrs, addr).contains(addr),
    decreases addrs.len(),
{
    if addrs.len() > 0 {
        lemma_addrs_without(addrs.drop_last(), addr);
        let before = addrs_without(addrs.drop_last(), addr);
        if addrs.last() != addr && before.push(addrs.last()).contains(addr) {
            let j = choose|j: int| 0 <= j < before.len() + 1 && before.push(addrs.last())[j] == addr;
            assert(before[j] == addr);
        }
    }
}

} // verus!
