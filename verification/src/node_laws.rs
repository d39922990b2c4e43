//! What a node does about what happens on the network, told by what it is
//! for: which peers are dialed, which addresses are kept, what is registered
//! and what is announced.
use vstd::prelude::*;

use crate::addr::{
    addrs_view, has_circuit, has_ip, own_host_addr, public_addr, reachable_addr, read_addr, transport_addr,
    without_peers, PartView,
};
use crate::json::texts_view;
use crate::node::{
    addrs_without, bootstrap_actions, circuit_base, close_relayed, comes_before, conn_relayed, conns, conns_without,
    cookie_of, direct_step, discover_all, first_plain, first_public, identify_actions, law_found_peers_are_dialed,
    law_lost_peers_are_forgotten, next_state, private_addr, private_addrs, public_adds, reachable_adds, reaction,
    readable_addrs, register_missing, registration_actions, registrations_actions, scrubs, ActionView, EventContext,
    IdentifyInfo, NatStatus, NodeEvent, NodeView, Registration, RendezvousEvent,
};
use crate::table::seq_with;

verus! {

// ---------------------------------------------------------------------------
// Lists of actions
// ---------------------------------------------------------------------------

/// What one list holds, a longer one does.
proof fn lemma_holds_in_more<T>(a: Seq<T>, b: Seq<T>, c: Seq<T>, x: T)
    ensures
        b.contains(x) ==> (a + b).contains(x) && (b + c).contains(x) && (a + b + c).contains(x),
{
    if b.contains(x) {
        let i = choose|i: int| 0 <= i < b.len() && b[i] == x;
        assert((a + b)[a.len() + i] == x);
        assert((b + c)[i] == x);
        assert((a + b + c)[a.len() + i] == x);
    }
}

proof fn lemma_pushed_holds<T>(a: Seq<T>, y: T, x: T)
    ensures
        a.push(y).contains(x) <==> a.contains(x) || x == y,
{
    if a.contains(x) {
        let i = choose|i: int| 0 <= i < a.len() && a[i] == x;
        assert(a.push(y)[i] == x);
    }
    if x == y {
        assert(a.push(y)[a.len() as int] == x);
    }
}

proof fn lemma_dropped_holds<T>(a: Seq<T>, x: T)
    requires
        a.len() > 0,
    ensures
        a.contains(x) <==> a.drop_last().contains(x) || x == a.last(),
{
    assert(a.drop_last().push(a.last()) =~= a);
    lemma_pushed_holds(a.drop_last(), a.last(), x);
}

proof fn lemma_public_adds(peer: Seq<char>, addrs: Seq<Seq<PartView>>, a: Seq<PartView>)
    ensures
        public_adds(peer, addrs).contains(ActionView::AddAddress { peer, addr: a }) <==> addrs.contains(a)
            && public_addr(a),
    decreases addrs.len(),
{
    if addrs.len() > 0 {
        lemma_public_adds(peer, addrs.drop_last(), a);
        lemma_dropped_holds(addrs, a);
        lemma_pushed_holds(
            public_adds(peer, addrs.drop_last()),
            ActionView::AddAddress { peer, addr: addrs.last() },
            ActionView::AddAddress { peer, addr: a },
        );
    }
}

proof fn lemma_scrubs(peer: Seq<char>, addrs: Seq<Seq<PartView>>, a: Seq<PartView>)
    ensures
        scrubs(peer, addrs).contains(ActionView::RemoveAddress { peer, addr: a }) <==> addrs.contains(a) && (
        !transport_addr(a) || own_host_addr(a)),
    decreases addrs.len(),
{
    if addrs.len() > 0 {
        lemma_scrubs(peer, addrs.drop_last(), a);
        lemma_dropped_holds(addrs, a);
        lemma_pushed_holds(
            scrubs(peer, addrs.drop_last()),
            ActionView::RemoveAddress { peer, addr: addrs.last() },
            ActionView::RemoveAddress { peer, addr: a },
        );
    }
}

proof fn lemma_adds_are_adds(peer: Seq<char>, addrs: Seq<Seq<PartView>>)
    ensures
        forall|i: int|
            0 <= i < public_adds(peer, addrs).len() ==> (#[trigger] public_adds(peer, addrs)[i] matches
                ActionView::AddAddress { peer: p, addr: _ } && p == peer),
        forall|i: int|
            0 <= i < scrubs(peer, addrs).len() ==> (#[trigger] scrubs(peer, addrs)[i] matches
                ActionView::RemoveAddress { peer: p, addr: _ } && p == peer),
    decreases addrs.len(),
{
    if addrs.len() > 0 {
        lemma_adds_are_adds(peer, addrs.drop_last());
    }
}

proof fn lemma_private_addrs(addrs: Seq<Seq<PartView>>, a: Seq<PartView>)
    ensures
        private_addrs(addrs).contains(a) <==> addrs.contains(a) && private_addr(a),
    decreases addrs.len(),
{
    if addrs.len() > 0 {
        lemma_private_addrs(addrs.drop_last(), a);
        lemma_dropped_holds(addrs, a);
        lemma_pushed_holds(private_addrs(addrs.drop_last()), addrs.last(), a);
    }
}

proof fn lemma_first_public(addrs: Seq<Seq<PartView>>)
    ensures
        (exists|i: int| 0 <= i < addrs.len() && public_addr(#[trigger] addrs[i])) <==> first_public(addrs) is Some,
        first_public(addrs) is Some ==> addrs.contains(first_public(addrs)->0) && public_addr(first_public(addrs)->0),
    decreases addrs.len(),
{
    if addrs.len() > 0 && !public_addr(addrs[0]) {
        let rest = addrs.skip(1);
        lemma_first_public(rest);
        if exists|i: int| 0 <= i < addrs.len() && public_addr(#[trigger] addrs[i]) {
            let i = choose|i: int| 0 <= i < addrs.len() && public_addr(#[trigger] addrs[i]);
            assert(rest[i - 1] == addrs[i]);
        }
        if first_public(rest) is Some {
            let k = choose|k: int| 0 <= k < rest.len() && rest[k] == first_public(rest)->0;
            assert(addrs[k + 1] == rest[k]);
        }
    }
}

proof fn lemma_first_plain(addrs: Seq<Seq<PartView>>)
    ensures
        first_plain(addrs) is Some ==> addrs.contains(first_plain(addrs)->0) && !has_circuit(first_plain(addrs)->0),
    decreases addrs.len(),
{
    if addrs.len() > 0 {
        let rest = addrs.skip(1);
        lemma_first_plain(rest);
        assert(addrs.contains(addrs[0]));
        if first_plain(rest) is Some {
            let k = choose|k: int| 0 <= k < rest.len() && rest[k] == first_plain(rest)->0;
            assert(addrs[k + 1] == rest[k]);
        }
    }
}

proof fn lemma_close_relayed(cs: Seq<(u64, bool)>, keep: u64, c: u64)
    ensures
        close_relayed(cs, keep).contains(ActionView::Close { connection: c }) <==> cs.contains((c, true)) && c != keep,
    decreases cs.len(),
{
    if cs.len() > 0 {
        lemma_close_relayed(cs.drop_last(), keep, c);
        lemma_dropped_holds(cs, (c, true));
        lemma_pushed_holds(
            close_relayed(cs.drop_last(), keep),
            ActionView::Close { connection: cs.last().0 },
            ActionView::Close { connection: c },
        );
    }
}

proof fn lemma_closes_are_closes(cs: Seq<(u64, bool)>, keep: u64)
    ensures
        forall|i: int| 0 <= i < close_relayed(cs, keep).len() ==> #[trigger] close_relayed(cs, keep)[i] is Close,
    decreases cs.len(),
{
    if cs.len() > 0 {
        lemma_closes_are_closes(cs.drop_last(), keep);
    }
}

proof fn lemma_conns_without(cs: Seq<(u64, bool)>, connection: u64, c: (u64, bool))
    ensures
        conns_without(cs, connection).contains(c) <==> cs.contains(c) && c.0 != connection,
    decreases cs.len(),
{
    if cs.len() > 0 {
        lemma_conns_without(cs.drop_last(), connection, c);
        lemma_dropped_holds(cs, c);
        lemma_pushed_holds(conns_without(cs.drop_last(), connection), cs.last(), c);
    }
}

proof fn lemma_addrs_without(addrs: Seq<Seq<PartView>>, addr: Seq<PartView>, a: Seq<PartView>)
    ensures
        addrs_without(addrs, addr).contains(a) <==> addrs.contains(a) && a != addr,
    decreases addrs.len(),
{
    if addrs.len() > 0 {
        lemma_addrs_without(addrs.drop_last(), addr, a);
        lemma_dropped_holds(addrs, a);
        lemma_pushed_holds(addrs_without(addrs.drop_last(), addr), addrs.last(), a);
    }
}

proof fn lemma_register_missing(servers: Seq<Seq<char>>, registered: Set<Seq<char>>, server: Seq<char>)
    ensures
        register_missing(servers, registered).contains(ActionView::Register { server }) <==> servers.contains(server)
            && !registered.contains(server),
    decreases servers.len(),
{
    if servers.len() > 0 {
        lemma_register_missing(servers.drop_last(), registered, server);
        lemma_dropped_holds(servers, server);
        lemma_pushed_holds(
            register_missing(servers.drop_last(), registered),
            ActionView::Register { server: servers.last() },
            ActionView::Register { server },
        );
    }
}

proof fn lemma_reachable_adds(peer: Seq<char>, addrs: Seq<Seq<PartView>>, a: Seq<PartView>)
    ensures
        reachable_adds(peer, addrs).contains(ActionView::AddAddress { peer, addr: a }) <==> addrs.contains(a)
            && reachable_addr(a),
    decreases addrs.len(),
{
    if addrs.len() > 0 {
        lemma_reachable_adds(peer, addrs.drop_last(), a);
        lemma_dropped_holds(addrs, a);
        lemma_pushed_holds(
            reachable_adds(peer, addrs.drop_last()),
            ActionView::AddAddress { peer, addr: addrs.last() },
            ActionView::AddAddress { peer, addr: a },
        );
    }
}

proof fn lemma_reachable_adds_only(peer: Seq<char>, addrs: Seq<Seq<PartView>>)
    ensures
        forall|i: int|
            0 <= i < reachable_adds(peer, addrs).len() ==> (#[trigger] reachable_adds(peer, addrs)[i] matches
                ActionView::AddAddress { peer: p, addr: _ } && p == peer),
    decreases addrs.len(),
{
    if addrs.len() > 0 {
        lemma_reachable_adds_only(peer, addrs.drop_last());
    }
}

/// What is done about each registered peer is done.
proof fn lemma_registrations_order(
    ctx: EventContext,
    rs: Seq<Registration>,
    i: int,
    first: ActionView,
    second: ActionView,
)
    requires
        0 <= i < rs.len(),
        comes_before(registration_actions(ctx, rs[i]), first, second),
    ensures
        comes_before(registrations_actions(ctx, rs), first, second),
    decreases rs.len(),
{
    let before = registrations_actions(ctx, rs.drop_last());
    let last = registration_actions(ctx, rs.last());
    let all = registrations_actions(ctx, rs);
    if i < rs.len() - 1 {
        lemma_registrations_order(ctx, rs.drop_last(), i, first, second);
        let (a, b) = choose|a: int, b: int|
            0 <= a < b < before.len() && #[trigger] before[a] == first && #[trigger] before[b] == second;
        assert(all[a] == first && all[b] == second);
    } else {
        let (a, b) = choose|a: int, b: int|
            0 <= a < b < last.len() && #[trigger] last[a] == first && #[trigger] last[b] == second;
        assert(all[before.len() + a] == first && all[before.len() + b] == second);
    }
}

proof fn lemma_registrations_hold(ctx: EventContext, rs: Seq<Registration>, i: int, x: ActionView)
    requires
        0 <= i < rs.len(),
        registration_actions(ctx, rs[i]).contains(x),
    ensures
        registrations_actions(ctx, rs).contains(x),
    decreases rs.len(),
{
    let before = registrations_actions(ctx, rs.drop_last());
    let last = registration_actions(ctx, rs.last());
    if i < rs.len() - 1 {
        lemma_registrations_hold(ctx, rs.drop_last(), i, x);
        lemma_holds_in_more(Seq::empty(), before, last, x);
    } else {
        lemma_holds_in_more(before, last, Seq::empty(), x);
    }
}

// ---------------------------------------------------------------------------
// Found and lost peers
// ---------------------------------------------------------------------------

/// A node dials every peer that it finds on the local network, after it has
/// remembered the address at which the peer was found.
pub proof fn law_local_peers_are_dialed(ctx: EventContext, s: NodeView, event: NodeEvent, i: int)
    requires
        event is MdnsDiscovered,
        0 <= i < event->MdnsDiscovered_peers@.len(),
    ensures
        ({
            let (peer, addr) = event->MdnsDiscovered_peers@[i];
            comes_before(
                reaction(ctx, s, event),
                ActionView::AddAddress { peer: peer@, addr: addr@ },
                ActionView::DialPeer { peer: peer@ },
            )
        }),
        next_state(ctx, s, event) == s,
{
    law_found_peers_are_dialed(event->MdnsDiscovered_peers@, i);
}

/// A node forgets the address of every peer that has left the local network.
pub proof fn law_local_peers_are_forgotten(ctx: EventContext, s: NodeView, event: NodeEvent, i: int)
    requires
        event is MdnsExpired,
        0 <= i < event->MdnsExpired_peers@.len(),
    ensures
        reaction(ctx, s, event).contains(
            ActionView::RemoveAddress {
                peer: event->MdnsExpired_peers@[i].0@,
                addr: event->MdnsExpired_peers@[i].1@,
            },
        ),
        next_state(ctx, s, event) == s,
{
    let peers = event->MdnsExpired_peers@;
    law_lost_peers_are_forgotten(peers, i);
    assert(reaction(ctx, s, event)[i] == (ActionView::RemoveAddress { peer: peers[i].0@, addr: peers[i].1@ }));
}

// ---------------------------------------------------------------------------
// Connections
// ---------------------------------------------------------------------------

/// A new connection is remembered, with whether it goes through a relay; the
/// peer counts as connected; and no other peer is touched.
pub proof fn law_connections_are_remembered(
    ctx: EventContext,
    s: NodeView,
    event: NodeEvent,
    other: Seq<char>,
    old_one: (u64, bool),
)
    requires
        event is ConnectionEstablished,
    ensures
        ({
            let peer = event->ConnectionEstablished_peer@;
            let remote = event->ConnectionEstablished_remote@;
            let c = event->ConnectionEstablished_connection;
            let t = next_state(ctx, s, event);
            &&& t.connected == s.connected.insert(peer)
            &&& has_circuit(remote) ==> conns(t, peer).contains((c, true))
            &&& !has_circuit(remote) && transport_addr(remote) ==> conns(t, peer).contains((c, false))
            &&& conns(t, peer).len() == conns(s, peer).len() + 1
            &&& conns(s, peer).contains(old_one) ==> conns(t, peer).contains(old_one)
            &&& other != peer ==> conns(t, other) == conns(s, other)
            &&& t.listen == s.listen && t.servers == s.servers && t.cookies == s.cookies
        }),
{
    let peer = event->ConnectionEstablished_peer@;
    let c = event->ConnectionEstablished_connection;
    let remote = event->ConnectionEstablished_remote@;
    let had = conns(s, peer);
    lemma_pushed_holds(had, (c, true), old_one);
    lemma_pushed_holds(had, (c, false), old_one);
    lemma_pushed_holds(had, (c, true), (c, true));
    lemma_pushed_holds(had, (c, false), (c, false));
}

/// Where a direct connection is established, every relayed one to the same
/// peer is given up, and no direct one is.
pub proof fn law_direct_connections_replace_relayed(ctx: EventContext, s: NodeView, event: NodeEvent, c: u64)
    requires
        event is ConnectionEstablished,
        !has_circuit(event->ConnectionEstablished_remote@),
        transport_addr(event->ConnectionEstablished_remote@),
        c != event->ConnectionEstablished_connection,
    ensures
        reaction(ctx, s, event).contains(ActionView::Close { connection: c }) <==> conns(
            s,
            event->ConnectionEstablished_peer@,
        ).contains((c, true)),
        !reaction(ctx, s, event).contains(ActionView::Close { connection: event->ConnectionEstablished_connection }),
        forall|peer: Seq<char>, addr: Seq<PartView>|
            !reaction(ctx, s, event).contains(ActionView::RemoveAddress { peer, addr }),
{
    let peer = event->ConnectionEstablished_peer@;
    let mine = event->ConnectionEstablished_connection;
    let all = conns(s, peer).push((mine, false));
    let closes = close_relayed(all, mine);
    lemma_close_relayed(all, mine, c);
    lemma_close_relayed(all, mine, mine);
    lemma_closes_are_closes(all, mine);
    lemma_pushed_holds(conns(s, peer), (mine, false), (c, true));
    lemma_pushed_holds(closes, ActionView::FetchRecord { peer }, ActionView::Close { connection: c });
    lemma_pushed_holds(closes, ActionView::FetchRecord { peer }, ActionView::Close { connection: mine });
}

/// A relayed connection closes nothing, and its address is kept out of the
/// routing table.
pub proof fn law_relayed_addresses_are_kept_out(ctx: EventContext, s: NodeView, event: NodeEvent)
    requires
        event is ConnectionEstablished,
        has_circuit(event->ConnectionEstablished_remote@) || !transport_addr(event->ConnectionEstablished_remote@),
    ensures
        reaction(ctx, s, event).contains(
            ActionView::RemoveAddress {
                peer: event->ConnectionEstablished_peer@,
                addr: event->ConnectionEstablished_remote@,
            },
        ),
        forall|c: u64| !reaction(ctx, s, event).contains(ActionView::Close { connection: c }),
{
    assert(reaction(ctx, s, event)[0] == (ActionView::RemoveAddress {
        peer: event->ConnectionEstablished_peer@,
        addr: event->ConnectionEstablished_remote@,
    }));
}

/// The record of a peer is looked up when the first connection to it is
/// established, and only then.
pub proof fn law_records_are_looked_up_once(ctx: EventContext, s: NodeView, event: NodeEvent, peer: Seq<char>)
    requires
        event is ConnectionEstablished,
    ensures
        reaction(ctx, s, event).contains(ActionView::FetchRecord { peer }) <==> peer
            == event->ConnectionEstablished_peer@ && event->ConnectionEstablished_num_established == 1,
{
    let p = event->ConnectionEstablished_peer@;
    let mine = event->ConnectionEstablished_connection;
    let all = conns(s, p).push((mine, false));
    lemma_closes_are_closes(all, mine);
    let r = reaction(ctx, s, event);
    if event->ConnectionEstablished_num_established == 1 {
        assert(r[r.len() - 1] == (ActionView::FetchRecord { peer: p }));
    }
}

/// A closed connection is forgotten, and the others to its peer are not.
pub proof fn law_closed_connections_are_forgotten(
    ctx: EventContext,
    s: NodeView,
    event: NodeEvent,
    c: (u64, bool),
    other: Seq<char>,
)
    requires
        event is ConnectionClosed,
    ensures
        conns(next_state(ctx, s, event), event->ConnectionClosed_peer@).contains(c) <==> conns(
            s,
            event->ConnectionClosed_peer@,
        ).contains(c) && c.0 != event->ConnectionClosed_connection,
        other != event->ConnectionClosed_peer@ ==> conns(next_state(ctx, s, event), other) == conns(s, other),
        event->ConnectionClosed_num_established > 0 ==> next_state(ctx, s, event).connected == s.connected
            && next_state(ctx, s, event).reserved == s.reserved && next_state(ctx, s, event).registered == s.registered
            && next_state(ctx, s, event).servers == s.servers && next_state(ctx, s, event).cookies == s.cookies,
        event->ConnectionClosed_num_established == 0 ==> next_state(ctx, s, event).connected == s.connected.remove(
            event->ConnectionClosed_peer@,
        ),
{
    lemma_conns_without(
        conns(s, event->ConnectionClosed_peer@),
        event->ConnectionClosed_connection,
        c,
    );
}

/// The first connection under an identifier tells whether it was relayed.
proof fn lemma_conn_relayed(cs: Seq<(u64, bool)>, connection: u64, relayed: bool)
    requires
        cs.contains((connection, relayed)),
        !cs.contains((connection, !relayed)),
    ensures
        conn_relayed(cs, connection) == Some(relayed),
    decreases cs.len(),
{
    let i = choose|i: int| 0 <= i < cs.len() && cs[i] == (connection, relayed);
    if cs[0].0 == connection {
        assert(cs.contains(cs[0]));
    } else {
        let rest = cs.skip(1);
        assert(rest[i - 1] == (connection, relayed));
        if rest.contains((connection, !relayed)) {
            let k = choose|k: int| 0 <= k < rest.len() && rest[k] == (connection, !relayed);
            assert(cs[k + 1] == rest[k]);
        }
        lemma_conn_relayed(rest, connection, relayed);
    }
}

/// When the last connection to a peer closes and was direct, the peer is
/// dialed again, unless this node is a relay server or the peer itself; where
/// it was relayed, or another one is left, nothing is done.
pub proof fn law_lost_peers_are_dialed_again(ctx: EventContext, s: NodeView, event: NodeEvent, relayed: bool)
    requires
        event is ConnectionClosed,
        conns(s, event->ConnectionClosed_peer@).contains((event->ConnectionClosed_connection, relayed)),
        !conns(s, event->ConnectionClosed_peer@).contains((event->ConnectionClosed_connection, !relayed)),
    ensures
        reaction(ctx, s, event).contains(ActionView::DialPeer { peer: event->ConnectionClosed_peer@ }) <==> !relayed
            && event->ConnectionClosed_num_established == 0 && !ctx.relay_server && event->ConnectionClosed_peer@
            != ctx.local_peer_id@,
        reaction(ctx, s, event).len() <= 1,
{
    let peer = event->ConnectionClosed_peer@;
    lemma_conn_relayed(conns(s, peer), event->ConnectionClosed_connection, relayed);
    if reaction(ctx, s, event).len() > 0 {
        assert(reaction(ctx, s, event)[0] == (ActionView::DialPeer { peer }));
    }
}

// ---------------------------------------------------------------------------
// Identified peers
// ---------------------------------------------------------------------------

/// What one of the six steps does is done.
proof fn lemma_steps_hold(a: Seq<ActionView>, b: Seq<ActionView>, c: Seq<ActionView>, d: Seq<ActionView>, e: Seq<
    ActionView,
>, f: Seq<ActionView>, x: ActionView)
    ensures
        (a + b + c + d + e + f).contains(x) <==> a.contains(x) || b.contains(x) || c.contains(x) || d.contains(x)
            || e.contains(x) || f.contains(x),
{
    lemma_both_hold(a, b, x);
    lemma_both_hold(a + b, c, x);
    lemma_both_hold(a + b + c, d, x);
    lemma_both_hold(a + b + c + d, e, x);
    lemma_both_hold(a + b + c + d + e, f, x);
}

proof fn lemma_both_hold(a: Seq<ActionView>, b: Seq<ActionView>, x: ActionView)
    ensures
        (a + b).contains(x) <==> a.contains(x) || b.contains(x),
{
    lemma_holds_in_more(Seq::empty(), a, b, x);
    lemma_holds_in_more(a, b, Seq::empty(), x);
    if (a + b).contains(x) {
        let i = choose|i: int| 0 <= i < (a + b).len() && (a + b)[i] == x;
        if i < a.len() {
            assert(a[i] == x);
        } else {
            assert(b[i - a.len()] == x);
        }
    }
}

/// Of the addresses that a peer says it listens on, exactly the publicly
/// routable ones go into the routing table, under that peer; those that
/// cannot be dialed, or lead to the own host, leave it.
pub proof fn law_public_addresses_are_kept(
    ctx: EventContext,
    s: NodeView,
    event: NodeEvent,
    peer: Seq<char>,
    a: Seq<PartView>,
)
    requires
        event is Identified,
    ensures
        ({
            let listed = addrs_view(event->Identified_info.listen_addrs@).contains(a) && peer
                == event->Identified_peer@;
            &&& reaction(ctx, s, event).contains(ActionView::AddAddress { peer, addr: a }) <==> listed && public_addr(
                a,
            )
            &&& reaction(ctx, s, event).contains(ActionView::RemoveAddress { peer, addr: a }) <==> listed && (
            !transport_addr(a) || own_host_addr(a))
        }),
{
    let info = event->Identified_info;
    let p = event->Identified_peer@;
    let addrs = addrs_view(info.listen_addrs@);
    lemma_public_adds(p, addrs, a);
    lemma_scrubs(p, addrs, a);
    lemma_adds_are_adds(p, addrs);
    let add = ActionView::AddAddress { peer, addr: a };
    let remove = ActionView::RemoveAddress { peer, addr: a };
    lemma_identified(ctx, s, p, info, add);
    lemma_identified(ctx, s, p, info, remove);
}

/// What is done about an identified peer, step by step.
proof fn lemma_identified(ctx: EventContext, s: NodeView, peer: Seq<char>, info: IdentifyInfo, x: ActionView)
    ensures
        identify_actions(ctx, s, peer, info).contains(x) <==> {
            ||| crate::node::confirm_step(ctx, info).contains(x)
            ||| public_adds(peer, addrs_view(info.listen_addrs@)).contains(x)
            ||| scrubs(peer, addrs_view(info.listen_addrs@)).contains(x)
            ||| direct_step(peer, info).contains(x)
            ||| crate::node::rendezvous_step(ctx, s, peer, info).contains(x)
            ||| crate::node::relay_step(ctx, s, peer, info).contains(x)
        },
{
    let addrs = addrs_view(info.listen_addrs@);
    lemma_steps_hold(
        crate::node::confirm_step(ctx, info),
        public_adds(peer, addrs),
        scrubs(peer, addrs),
        direct_step(peer, info),
        crate::node::rendezvous_step(ctx, s, peer, info),
        crate::node::relay_step(ctx, s, peer, info),
        x,
    );
}

/// A relay server takes the public address at which a peer sees it for its
/// own; another node does not.
pub proof fn law_relay_servers_confirm_their_address(ctx: EventContext, s: NodeView, event: NodeEvent, a: Seq<PartView>)
    requires
        event is Identified,
    ensures
        reaction(ctx, s, event).contains(ActionView::AddExternal { addr: a }) <==> ctx.relay_server && a
            == event->Identified_info.observed_addr@ && public_addr(a),
{
    let info = event->Identified_info;
    let p = event->Identified_peer@;
    let x = ActionView::AddExternal { addr: a };
    lemma_identified(ctx, s, p, info, x);
    lemma_adds_are_adds(p, addrs_view(info.listen_addrs@));
    if ctx.relay_server && public_addr(info.observed_addr@) {
        assert(crate::node::confirm_step(ctx, info)[0] == (ActionView::AddExternal { addr: info.observed_addr@ }));
    }
}

/// A peer that is seen over a relay is tried at every private address it
/// listens on, and at nothing else.
pub proof fn law_relayed_peers_are_tried_directly(ctx: EventContext, s: NodeView, event: NodeEvent, a: Seq<PartView>)
    requires
        event is Identified,
        !has_ip(event->Identified_info.observed_addr@),
        addrs_view(event->Identified_info.listen_addrs@).contains(a),
        private_addr(a),
    ensures
        exists|addrs: Seq<Seq<PartView>>|
            addrs.contains(a) && #[trigger] reaction(ctx, s, event).contains(
                ActionView::DialAt { peer: event->Identified_peer@, addrs },
            ) && forall|b: Seq<PartView>| #[trigger]
                addrs.contains(b) ==> private_addr(b) && addrs_view(event->Identified_info.listen_addrs@).contains(b),
{
    let info = event->Identified_info;
    let p = event->Identified_peer@;
    let listed = addrs_view(info.listen_addrs@);
    let addrs = private_addrs(listed);
    lemma_private_addrs(listed, a);
    let x = ActionView::DialAt { peer: p, addrs };
    assert(addrs.len() > 0);
    assert(direct_step(p, info)[0] == x);
    lemma_identified(ctx, s, p, info, x);
    assert forall|b: Seq<PartView>| #[trigger] addrs.contains(b) implies private_addr(b) && listed.contains(b) by {
        lemma_private_addrs(listed, b);
    }
    assert(reaction(ctx, s, event).contains(x));
}

/// At a rendezvous server a node asks for peers, from where it left off, and
/// registers where it is not registered; it knows the server from then on.
/// A relay server, or a peer that is no rendezvous server, is not asked.
pub proof fn law_rendezvous_servers_are_used(ctx: EventContext, s: NodeView, event: NodeEvent)
    requires
        event is Identified,
    ensures
        ({
            let peer = event->Identified_peer@;
            let serves = texts_view(event->Identified_info.protocols@).contains("/rendezvous/1.0.0"@);
            let r = reaction(ctx, s, event);
            let cookie = if s.cookies.contains_key(peer) {
                Some(s.cookies[peer])
            } else {
                None
            };
            &&& r.contains(ActionView::Discover { server: peer, cookie }) <==> serves && !ctx.relay_server
            &&& r.contains(ActionView::Register { server: peer }) <==> serves && !ctx.relay_server
                && !s.registered.contains(peer)
            &&& serves && !ctx.relay_server ==> next_state(ctx, s, event).servers.contains(peer)
            &&& !serves || ctx.relay_server ==> next_state(ctx, s, event).servers == s.servers
        }),
{
    let info = event->Identified_info;
    let peer = event->Identified_peer@;
    let x = ActionView::Discover { server: peer, cookie: cookie_of(s, peer) };
    let y = ActionView::Register { server: peer };
    lemma_identified(ctx, s, peer, info, x);
    lemma_identified(ctx, s, peer, info, y);
    lemma_adds_are_adds(peer, addrs_view(info.listen_addrs@));
    let step = crate::node::rendezvous_step(ctx, s, peer, info);
    if crate::node::uses_rendezvous(ctx, info) {
        assert(step[0] == x);
        if !s.registered.contains(peer) {
            assert(step[1] == y);
        }
        assert(seq_with(s.servers, peer).contains(peer)) by {
            if !s.servers.contains(peer) {
                assert(s.servers.push(peer)[s.servers.len() as int] == peer);
            }
        }
    }
}

/// A node that is no relay server reserves a slot at a relay that has a
/// public address: it listens on a circuit through that relay, and remembers
/// that it does.
pub proof fn law_relays_are_reserved(ctx: EventContext, s: NodeView, event: NodeEvent, i: int)
    requires
        event is Identified,
        !ctx.relay_server,
        !s.reserved.contains(event->Identified_peer@),
        texts_view(event->Identified_info.protocols@).contains("/libp2p/circuit/relay/0.2.0/hop"@),
        0 <= i < event->Identified_info.listen_addrs@.len(),
        public_addr(event->Identified_info.listen_addrs@[i]@),
    ensures
        exists|base: Seq<PartView>|
            #![trigger without_peers(base)]
            addrs_view(event->Identified_info.listen_addrs@).contains(base) && public_addr(base) && reaction(
                ctx,
                s,
                event,
            ).contains(
                ActionView::Listen {
                    addr: without_peers(base).push(PartView::P2p(event->Identified_peer@)).push(PartView::P2pCircuit),
                },
            ),
        next_state(ctx, s, event).reserved == s.reserved.insert(event->Identified_peer@),
{
    let info = event->Identified_info;
    let peer = event->Identified_peer@;
    let listed = addrs_view(info.listen_addrs@);
    assert(listed[i] == info.listen_addrs@[i]@);
    lemma_first_public(listed);
    let base = circuit_base(listed)->0;
    let x = ActionView::Listen {
        addr: without_peers(base).push(PartView::P2p(peer)).push(PartView::P2pCircuit),
    };
    assert(crate::node::relay_step(ctx, s, peer, info)[0] == x);
    lemma_identified(ctx, s, peer, info, x);
}

/// A slot is reserved only at a peer that relays, by a node that is no relay
/// server, and on an address that the peer listens on without a circuit.
pub proof fn law_only_relays_are_reserved(ctx: EventContext, s: NodeView, event: NodeEvent, addr: Seq<PartView>)
    requires
        event is Identified,
        reaction(ctx, s, event).contains(ActionView::Listen { addr }),
    ensures
        !ctx.relay_server,
        !s.reserved.contains(event->Identified_peer@),
        texts_view(event->Identified_info.protocols@).contains("/libp2p/circuit/relay/0.2.0/hop"@),
        exists|base: Seq<PartView>|
            #![trigger without_peers(base)]
            addrs_view(event->Identified_info.listen_addrs@).contains(base) && !has_circuit(base) && addr
                == without_peers(base).push(PartView::P2p(event->Identified_peer@)).push(PartView::P2pCircuit),
{
    let info = event->Identified_info;
    let peer = event->Identified_peer@;
    let listed = addrs_view(info.listen_addrs@);
    lemma_identified(ctx, s, peer, info, ActionView::Listen { addr });
    lemma_adds_are_adds(peer, listed);
    lemma_first_public(listed);
    lemma_first_plain(listed);
    let base = circuit_base(listed)->0;
    assert(addr == without_peers(base).push(PartView::P2p(peer)).push(PartView::P2pCircuit));
}

// ---------------------------------------------------------------------------
// Reachability
// ---------------------------------------------------------------------------

/// A publicly reachable node serves the routing table; one behind NAT only
/// uses it, but for a relay server, which goes on serving and is warned.
pub proof fn law_serving_follows_reachability(ctx: EventContext, s: NodeView, event: NodeEvent, serving: bool)
    requires
        event is NatChanged,
    ensures
        reaction(ctx, s, event).contains(ActionView::SetServing { serving }) <==> {
            ||| event->NatChanged_status is Public && serving
            ||| event->NatChanged_status is Private && !serving && !ctx.relay_server
        },
        reaction(ctx, s, event).contains(ActionView::WarnRelayBehindNat) <==> event->NatChanged_status is Private
            && ctx.relay_server,
        next_state(ctx, s, event) == s,
{
    let r = reaction(ctx, s, event);
    match event->NatChanged_status {
        NatStatus::Public => {
            assert(r[0] == (ActionView::SetServing { serving: true }));
        },
        NatStatus::Private => {
            if ctx.relay_server {
                assert(r[0] == ActionView::WarnRelayBehindNat);
            } else {
                assert(r[0] == (ActionView::SetServing { serving: false }));
            }
        },
        NatStatus::Unknown => {},
    }
}

/// A confirmed external address is announced at once.  A relay server shows
/// its address, the first time; another node registers with every rendezvous
/// server that it knows and is not registered with.
pub proof fn law_confirmed_addresses_are_announced(
    ctx: EventContext,
    s: NodeView,
    event: NodeEvent,
    server: Seq<char>,
)
    requires
        event is ExternalAddrConfirmed,
    ensures
        reaction(ctx, s, event).contains(ActionView::Announce),
        reaction(ctx, s, event).contains(ActionView::Register { server }) <==> !ctx.relay_server
            && s.servers.contains(server) && !s.registered.contains(server),
        ctx.relay_server && !s.banner_shown ==> reaction(ctx, s, event).contains(
            ActionView::RelayReady {
                addr: without_peers(event->ExternalAddrConfirmed_addr@).push(PartView::P2p(ctx.local_peer_id@)),
            },
        ) && next_state(ctx, s, event).banner_shown,
{
    let r = reaction(ctx, s, event);
    let missing = register_missing(s.servers, s.registered);
    lemma_register_missing(s.servers, s.registered, server);
    if ctx.relay_server {
        if s.banner_shown {
            assert(r[0] == ActionView::Announce);
        } else {
            assert(r[0] == (ActionView::RelayReady {
                addr: without_peers(event->ExternalAddrConfirmed_addr@).push(PartView::P2p(ctx.local_peer_id@)),
            }));
            assert(r[1] == ActionView::Announce);
        }
    } else {
        assert(r[0] == ActionView::Announce);
        lemma_both_hold(seq![ActionView::Announce], missing, ActionView::Register { server });
    }
}

/// An address that the gateway maps is an external address while it does.
pub proof fn law_mapped_ports_are_external(ctx: EventContext, s: NodeView, event: NodeEvent, a: Seq<PartView>)
    ensures
        event is PortMapped ==> (reaction(ctx, s, event).contains(ActionView::AddExternal { addr: a }) <==> a
            == event->PortMapped_addr@),
        event is PortMappingExpired ==> (reaction(ctx, s, event).contains(ActionView::RemoveExternal { addr: a })
            <==> a == event->PortMappingExpired_addr@),
{
    let r = reaction(ctx, s, event);
    if event is PortMapped {
        assert(r[0] == (ActionView::AddExternal { addr: event->PortMapped_addr@ }));
    }
    if event is PortMappingExpired {
        assert(r[0] == (ActionView::RemoveExternal { addr: event->PortMappingExpired_addr@ }));
    }
}

/// The listen addresses are those that were reported, without those that
/// have ended.
pub proof fn law_listen_addresses_are_tracked(ctx: EventContext, s: NodeView, event: NodeEvent, a: Seq<PartView>)
    ensures
        event is NewListenAddr ==> (next_state(ctx, s, event).listen.contains(a) <==> s.listen.contains(a) || a
            == event->NewListenAddr_addr@),
        event is ExpiredListenAddr ==> (next_state(ctx, s, event).listen.contains(a) <==> s.listen.contains(a) && a
            != event->ExpiredListenAddr_addr@),
        event !is NewListenAddr && event !is ExpiredListenAddr ==> next_state(ctx, s, event).listen == s.listen,
{
    if event is NewListenAddr {
        lemma_pushed_holds(s.listen, event->NewListenAddr_addr@, a);
    }
    if event is ExpiredListenAddr {
        lemma_addrs_without(s.listen, event->ExpiredListenAddr_addr@, a);
    }
}

// ---------------------------------------------------------------------------
// Rendezvous
// ---------------------------------------------------------------------------

/// Every other peer that a rendezvous server knows of is dialed, after its
/// reachable addresses have been remembered; and where the answer ends is
/// kept, so that the next question goes on from there.
pub proof fn law_registered_peers_are_dialed(ctx: EventContext, s: NodeView, event: NodeEvent, i: int, a: Seq<PartView>)
    requires
        event is Rendezvous,
        event->Rendezvous_event is Discovered,
        0 <= i < event->Rendezvous_event->Discovered_registrations@.len(),
        event->Rendezvous_event->Discovered_registrations@[i].peer@ != ctx.local_peer_id@,
    ensures
        ({
            let found = event->Rendezvous_event->Discovered_registrations@[i];
            let server = event->Rendezvous_event->Discovered_server@;
            &&& reaction(ctx, s, event).contains(ActionView::DialPeer { peer: found.peer@ })
            &&& addrs_view(found.addrs@).contains(a) && reachable_addr(a) ==> comes_before(
                reaction(ctx, s, event),
                ActionView::AddAddress { peer: found.peer@, addr: a },
                ActionView::DialPeer { peer: found.peer@ },
            )
            &&& cookie_of(next_state(ctx, s, event), server) == Some(event->Rendezvous_event->Discovered_cookie@)
        }),
{
    let rs = event->Rendezvous_event->Discovered_registrations@;
    let found = rs[i];
    let dial = ActionView::DialPeer { peer: found.peer@ };
    let add = ActionView::AddAddress { peer: found.peer@, addr: a };
    let listed = addrs_view(found.addrs@);
    let adds = reachable_adds(found.peer@, listed);
    let mine = registration_actions(ctx, found);
    assert(mine[adds.len() as int] == dial);
    lemma_registrations_hold(ctx, rs, i, dial);
    if listed.contains(a) && reachable_addr(a) {
        lemma_reachable_adds(found.peer@, listed, a);
        let k = choose|k: int| 0 <= k < adds.len() && adds[k] == add;
        assert(mine[k] == add);
        lemma_registrations_order(ctx, rs, i, add, dial);
    }
}

/// A node does not dial itself, nor remembers what cannot be reached, when a
/// rendezvous server names it.
pub proof fn law_own_registration_is_passed_over(ctx: EventContext, s: NodeView, event: NodeEvent)
    requires
        event is Rendezvous,
        event->Rendezvous_event is Discovered,
    ensures
        !reaction(ctx, s, event).contains(ActionView::DialPeer { peer: ctx.local_peer_id@ }),
        forall|peer: Seq<char>, a: Seq<PartView>| #[trigger]
            reaction(ctx, s, event).contains(ActionView::AddAddress { peer, addr: a }) ==> reachable_addr(a),
{
    let rs = event->Rendezvous_event->Discovered_registrations@;
    lemma_no_self(ctx, rs);
    let r = reaction(ctx, s, event);
    assert forall|peer: Seq<char>, a: Seq<PartView>| #[trigger]
        r.contains(ActionView::AddAddress { peer, addr: a }) implies reachable_addr(a) by {
        let k = choose|k: int| 0 <= k < r.len() && r[k] == (ActionView::AddAddress { peer, addr: a });
        assert(r[k] is AddAddress);
    }
}

proof fn lemma_no_self(ctx: EventContext, rs: Seq<Registration>)
    ensures
        forall|k: int|
            0 <= k < registrations_actions(ctx, rs).len() ==> match #[trigger] registrations_actions(ctx, rs)[k] {
                ActionView::DialPeer { peer } => peer != ctx.local_peer_id@,
                ActionView::AddAddress { peer, addr } => reachable_addr(addr),
                _ => false,
            },
    decreases rs.len(),
{
    if rs.len() > 0 {
        lemma_no_self(ctx, rs.drop_last());
        let r = rs.last();
        let before = registrations_actions(ctx, rs.drop_last());
        let listed = addrs_view(r.addrs@);
        let adds = reachable_adds(r.peer@, listed);
        lemma_reachable_adds_only(r.peer@, listed);
        let all = registrations_actions(ctx, rs);
        assert forall|k: int| 0 <= k < all.len() implies match #[trigger] all[k] {
            ActionView::DialPeer { peer } => peer != ctx.local_peer_id@,
            ActionView::AddAddress { peer, addr } => reachable_addr(addr),
            _ => false,
        } by {
            if k < before.len() {
                assert(all[k] == before[k]);
            } else {
                let j = k - before.len();
                if j < adds.len() {
                    assert(all[k] == adds[j]);
                    let addr = adds[j]->AddAddress_addr;
                    assert(adds.contains(adds[j]));
                    lemma_reachable_adds(r.peer@, listed, addr);
                }
            }
        }
    }
}

/// A registration that has expired is made anew; one that failed counts as
/// missing, so that the next confirmed address makes it again.
pub proof fn law_registrations_are_renewed(
    ctx: EventContext,
    s: NodeView,
    event: NodeEvent,
    confirmed: NodeEvent,
    server: Seq<char>,
)
    requires
        event is Rendezvous,
        confirmed is ExternalAddrConfirmed,
        !ctx.relay_server,
        s.servers.contains(server),
    ensures
        match event->Rendezvous_event {
            RendezvousEvent::Expired { server: gone } => gone@ == server ==> reaction(ctx, s, event).contains(
                ActionView::Register { server },
            ) && !next_state(ctx, s, event).registered.contains(server),
            RendezvousEvent::RegisterFailed { server: gone } => gone@ == server ==> reaction(
                ctx,
                next_state(ctx, s, event),
                confirmed,
            ).contains(ActionView::Register { server }),
            _ => next_state(ctx, s, event).registered == s.registered,
        },
{
    let t = next_state(ctx, s, event);
    law_confirmed_addresses_are_announced(ctx, t, confirmed, server);
    match event->Rendezvous_event {
        RendezvousEvent::Expired { server: gone } => {
            assert(reaction(ctx, s, event)[0] == (ActionView::Register { server: gone@ }));
        },
        _ => {},
    }
}

/// On every tick each known rendezvous server is asked for peers, from where
/// its last answer ended.
pub proof fn law_known_servers_are_asked(s: NodeView, server: Seq<char>)
    requires
        s.servers.contains(server),
    ensures
        s.cookies.contains_key(server) ==> discover_all(s, s.servers).contains(
            ActionView::Discover { server, cookie: Some(s.cookies[server]) },
        ),
        !s.cookies.contains_key(server) ==> discover_all(s, s.servers).contains(
            ActionView::Discover { server, cookie: None },
        ),
        discover_all(s, s.servers).len() == s.servers.len(),
{
    let i = choose|i: int| 0 <= i < s.servers.len() && s.servers[i] == server;
    assert(discover_all(s, s.servers)[i] == (ActionView::Discover { server, cookie: cookie_of(s, server) }));
}

// ---------------------------------------------------------------------------
// Bootstrap
// ---------------------------------------------------------------------------

/// Every text that is an address is one of the bootstrap addresses, and
/// nothing else is.
pub proof fn law_bootstrap_addresses_are_read(texts: Seq<Seq<char>>, a: Seq<PartView>)
    ensures
        readable_addrs(texts).contains(a) <==> exists|i: int|
            0 <= i < texts.len() && read_addr(#[trigger] texts[i]) == Ok::<Seq<PartView>, Seq<char>>(a),
    decreases texts.len(),
{
    if texts.len() > 0 {
        let head = texts.drop_last();
        law_bootstrap_addresses_are_read(head, a);
        match read_addr(texts.last()) {
            Ok(x) => {
                lemma_pushed_holds(readable_addrs(head), x, a);
            },
            Err(_) => {},
        }
        if exists|i: int| 0 <= i < texts.len() && read_addr(#[trigger] texts[i]) == Ok::<Seq<PartView>, Seq<char>>(a) {
            let i = choose|i: int|
                0 <= i < texts.len() && read_addr(#[trigger] texts[i]) == Ok::<Seq<PartView>, Seq<char>>(a);
            if i < head.len() {
                assert(head[i] == texts[i]);
            }
        }
        if exists|i: int| 0 <= i < head.len() && read_addr(#[trigger] head[i]) == Ok::<Seq<PartView>, Seq<char>>(a) {
            let i = choose|i: int|
                0 <= i < head.len() && read_addr(#[trigger] head[i]) == Ok::<Seq<PartView>, Seq<char>>(a);
            assert(texts[i] == head[i]);
        }
        assert(texts[texts.len() - 1] == texts.last());
    }
}

/// A bootstrap address is dialed as it is; where it names its peer, the
/// address is remembered under that peer first.
pub proof fn law_bootstrap_addresses_are_dialed(addr: Seq<PartView>, peer: Seq<char>)
    ensures
        bootstrap_actions(addr).contains(ActionView::DialAddr { addr }),
        comes_before(
            bootstrap_actions(addr.push(PartView::P2p(peer))),
            ActionView::AddAddress { peer, addr: without_peers(addr) },
            ActionView::DialAddr { addr: addr.push(PartView::P2p(peer)) },
        ),
{
    let r = bootstrap_actions(addr);
    assert(r[r.len() - 1] == (ActionView::DialAddr { addr }));
    let named = addr.push(PartView::P2p(peer));
    assert(named.drop_last() =~= addr);
    let all = bootstrap_actions(named);
    assert(all[0] == (ActionView::AddAddress { peer, addr: without_peers(addr) }));
    assert(all[1] == (ActionView::DialAddr { addr: named }));
}

} // verus!
