//! Multiaddress classification.
//!
//! These helpers determine which addresses are useful for announcements, for
//! the routing table and for direct dial attempts.
use vstd::prelude::*;

use libp2p::multiaddr::Protocol;

use crate::table::NameSet;
use crate::text::{decimal, decimal_text, same};

verus! {

/// One part of a multiaddress.  An IP address is its number; a peer is its
/// identifier; a part that nothing here looks into is its text.
pub enum Part {
    Ip4(u32),
    Ip6(u128),
    Dns(String),
    Dns4(String),
    Dns6(String),
    P2p(String),
    P2pCircuit,
    Other(String),
}

/// The model of a part.
pub enum PartView {
    Ip4(int),
    Ip6(int),
    Dns(Seq<char>),
    Dns4(Seq<char>),
    Dns6(Seq<char>),
    P2p(Seq<char>),
    P2pCircuit,
    Other(Seq<char>),
}

impl View for Part {
    type V = PartView;

    open spec fn view(&self) -> PartView {
        match self {
            Part::Ip4(ip) => PartView::Ip4(*ip as int),
            Part::Ip6(ip) => PartView::Ip6(*ip as int),
            Part::Dns(n) => PartView::Dns(n@),
            Part::Dns4(n) => PartView::Dns4(n@),
            Part::Dns6(n) => PartView::Dns6(n@),
            Part::P2p(id) => PartView::P2p(id@),
            Part::P2pCircuit => PartView::P2pCircuit,
            Part::Other(t) => PartView::Other(t@),
        }
    }
}

impl Clone for Part {
    fn clone(&self) -> (r: Part)
        ensures
            r@ == self@,
    {
        match self {
            Part::Ip4(ip) => Part::Ip4(*ip),
            Part::Ip6(ip) => Part::Ip6(*ip),
            Part::Dns(n) => Part::Dns(n.clone()),
            Part::Dns4(n) => Part::Dns4(n.clone()),
            Part::Dns6(n) => Part::Dns6(n.clone()),
            Part::P2p(id) => Part::P2p(id.clone()),
            Part::P2pCircuit => Part::P2pCircuit,
            Part::Other(t) => Part::Other(t.clone()),
        }
    }
}

impl Part {
    /// Whether two parts are the same.
    pub fn same_as(&self, other: &Part) -> (r: bool)
        ensures
            r == (self@ == other@),
    {
        match (self, other) {
            (Part::Ip4(a), Part::Ip4(b)) => *a == *b,
            (Part::Ip6(a), Part::Ip6(b)) => *a == *b,
            (Part::Dns(a), Part::Dns(b)) => same(a.as_str(), b.as_str()),
            (Part::Dns4(a), Part::Dns4(b)) => same(a.as_str(), b.as_str()),
            (Part::Dns6(a), Part::Dns6(b)) => same(a.as_str(), b.as_str()),
            (Part::P2p(a), Part::P2p(b)) => same(a.as_str(), b.as_str()),
            (Part::P2pCircuit, Part::P2pCircuit) => true,
            (Part::Other(a), Part::Other(b)) => same(a.as_str(), b.as_str()),
            _ => false,
        }
    }
}

/// A multiaddress: its parts, outermost first.
pub struct Multiaddr {
    pub parts: Vec<Part>,
}

impl View for Multiaddr {
    type V = Seq<PartView>;

    open spec fn view(&self) -> Seq<PartView> {
        Seq::new(self.parts@.len(), |i: int| self.parts@[i]@)
    }
}

impl Clone for Multiaddr {
    fn clone(&self) -> (r: Multiaddr)
        ensures
            r@ == self@,
    {
        let mut parts: Vec<Part> = Vec::new();
        let mut i: usize = 0;
        while i < self.parts.len()
            invariant
                i <= self.parts@.len(),
                parts@.len() == i,
                forall|j: int| 0 <= j < i ==> (#[trigger] parts@[j])@ == self.parts@[j]@,
            decreases self.parts@.len() - i,
        {
            parts.push(self.parts[i].clone());
            i += 1;
        }
        let r = Multiaddr { parts };
        assert(r@ =~= self@);
        r
    }
}

// ---------------------------------------------------------------------------
// Texts
// ---------------------------------------------------------------------------

/// `libp2p::multiaddr::Protocol`, one part of an address.
#[verifier::external_type_specification]
#[verifier::external_body]
pub struct ExProtocol<'a>(libp2p::multiaddr::Protocol<'a>);

/// What the `FromStr` of `libp2p::Multiaddr` reads from a text: the parts, or
/// the text of its error.
pub uninterp spec fn read_addr(text: Seq<char>) -> Result<Seq<PartView>, Seq<char>>;

/// What the `Display` of `libp2p::multiaddr::Protocol` writes for an IPv6
/// address.
pub uninterp spec fn ip6_text(ip: int) -> Seq<char>;

/// A `libp2p::multiaddr::Protocol` as a [`Part`], variant by variant.  Nothing
/// is claimed of it.
#[verifier::external_body]
fn from_protocol(part: Protocol<'_>) -> (r: Part) {
    match part {
        Protocol::Ip4(ip) => Part::Ip4(ip.into()),
        Protocol::Ip6(ip) => Part::Ip6(ip.into()),
        Protocol::Dns(name) => Part::Dns(name.to_string()),
        Protocol::Dns4(name) => Part::Dns4(name.to_string()),
        Protocol::Dns6(name) => Part::Dns6(name.to_string()),
        Protocol::P2p(peer) => Part::P2p(peer.to_string()),
        Protocol::P2pCircuit => Part::P2pCircuit,
        other => Part::Other(other.to_string()),
    }
}

/// The `FromStr` of `libp2p::Multiaddr`: what it returns is a function of the
/// text alone; the grammar of addresses is left unsaid.
#[verifier::external_body]
fn parse_addr(text: &str) -> (r: Result<Multiaddr, String>)
    ensures
        match r {
            Ok(a) => read_addr(text@) == Ok::<Seq<PartView>, Seq<char>>(a@),
            Err(e) => read_addr(text@) == Err::<Seq<PartView>, Seq<char>>(e@),
        },
{
    match text.parse::<libp2p::Multiaddr>() {
        Ok(addr) => Ok(Multiaddr { parts: addr.iter().map(from_protocol).collect() }),
        Err(e) => Err(e.to_string()),
    }
}

/// The `Display` of `libp2p::multiaddr::Protocol` on an IPv6 address: what it
/// writes is a function of the address alone; how groups of zeros are
/// shortened is left unsaid.
#[verifier::external_body]
fn print_ip6(ip: u128) -> (r: String)
    ensures
        r@ == ip6_text(ip as int),
{
    Protocol::Ip6(ip.into()).to_string()
}

/// The dotted form of an IPv4 address.
pub open spec fn ip4_text(ip: int) -> Seq<char> {
    decimal((ip / 0x100_0000) as nat) + "."@ + decimal((ip / 0x1_0000 % 256) as nat) + "."@ + decimal(
        (ip / 0x100 % 256) as nat,
    ) + "."@ + decimal((ip % 256) as nat)
}

/// The text of a part.
pub open spec fn part_text(part: PartView) -> Seq<char> {
    match part {
        PartView::Ip4(ip) => "/ip4/"@ + ip4_text(ip),
        PartView::Ip6(ip) => ip6_text(ip),
        PartView::Dns(n) => "/dns/"@ + n,
        PartView::Dns4(n) => "/dns4/"@ + n,
        PartView::Dns6(n) => "/dns6/"@ + n,
        PartView::P2p(id) => "/p2p/"@ + id,
        PartView::P2pCircuit => "/p2p-circuit"@,
        PartView::Other(t) => t,
    }
}

/// The text of an address: the texts of its parts.
pub open spec fn addr_text(addr: Seq<PartView>) -> Seq<char>
    decreases addr.len(),
{
    if addr.len() == 0 {
        Seq::empty()
    } else {
        addr_text(addr.drop_last()) + part_text(addr.last())
    }
}

fn after(prefix: &str, text: &str) -> (r: String)
    ensures
        r@ == prefix@ + text@,
{
    let mut r = prefix.to_owned();
    r.push_str(text);
    r
}

fn print_ip4(ip: u32) -> (r: String)
    ensures
        r@ == ip4_text(ip as int),
{
    let mut r = decimal_text((ip / 0x100_0000) as u64);
    r.push_str(".");
    r.push_str(decimal_text((ip / 0x1_0000 % 256) as u64).as_str());
    r.push_str(".");
    r.push_str(decimal_text((ip / 0x100 % 256) as u64).as_str());
    r.push_str(".");
    r.push_str(decimal_text((ip % 256) as u64).as_str());
    r
}

impl Part {
    /// The text of the part.
    pub fn to_text(&self) -> (r: String)
        ensures
            r@ == part_text(self@),
    {
        match self {
            Part::Ip4(ip) => after("/ip4/", print_ip4(*ip).as_str()),
            Part::Ip6(ip) => print_ip6(*ip),
            Part::Dns(n) => after("/dns/", n.as_str()),
            Part::Dns4(n) => after("/dns4/", n.as_str()),
            Part::Dns6(n) => after("/dns6/", n.as_str()),
            Part::P2p(id) => after("/p2p/", id.as_str()),
            Part::P2pCircuit => "/p2p-circuit".to_owned(),
            Part::Other(t) => t.clone(),
        }
    }
}

impl Multiaddr {
    /// Reads an address, or tells what is wrong with it.
    pub fn from_text(text: &str) -> (r: Result<Multiaddr, String>)
        ensures
            match r {
                Ok(a) => read_addr(text@) == Ok::<Seq<PartView>, Seq<char>>(a@),
                Err(e) => read_addr(text@) == Err::<Seq<PartView>, Seq<char>>(e@),
            },
    {
        parse_addr(text)
    }

    /// The text of the address.
    pub fn to_text(&self) -> (r: String)
        ensures
            r@ == addr_text(self@),
    {
        let mut r = String::new();
        let mut i: usize = 0;
        assert(self@.take(0) =~= Seq::empty());
        assert(r@ =~= addr_text(self@.take(0)));
        while i < self.parts.len()
            invariant
                i <= self.parts@.len(),
                r@ == addr_text(self@.take(i as int)),
            decreases self.parts@.len() - i,
        {
            proof {
                assert(self@.take(i + 1).drop_last() =~= self@.take(i as int));
                assert(self@.take(i + 1).last() == self.parts@[i as int]@);
            }
            r.push_str(self.parts[i].to_text().as_str());
            i += 1;
        }
        assert(self@.take(i as int) =~= self@);
        r
    }
}

/// The models of a list of addresses.
pub open spec fn addrs_view(addrs: Seq<Multiaddr>) -> Seq<Seq<PartView>> {
    Seq::new(addrs.len(), |i: int| addrs[i]@)
}

// ---------------------------------------------------------------------------
// IP addresses
// ---------------------------------------------------------------------------

/// Loopback: 127.0.0.0/8.
pub open spec fn ip4_loopback(ip: int) -> bool {
    ip / 0x100_0000 == 127
}

/// Private networks: 10.0.0.0/8, 172.16.0.0/12 and 192.168.0.0/16.
pub open spec fn ip4_private(ip: int) -> bool {
    ip / 0x100_0000 == 10 || ip / 0x10_0000 == 172 * 16 + 1 || ip / 0x1_0000 == 192 * 256 + 168
}

/// Link-local: 169.254.0.0/16.
pub open spec fn ip4_link_local(ip: int) -> bool {
    ip / 0x1_0000 == 169 * 256 + 254
}

/// The first sixteen bits of an IPv6 address.
pub open spec fn ip6_head(ip: int) -> int {
    ip / 0x1_0000_0000_0000_0000_0000_0000_0000
}

/// An IP address that resolves to the own host: loopback or unspecified.
pub open spec fn own_host(p: PartView) -> bool {
    match p {
        PartView::Ip4(ip) => ip4_loopback(ip) || ip == 0,
        PartView::Ip6(ip) => ip == 1 || ip == 0,
        _ => false,
    }
}

/// An IP address that is not publicly routable.
pub open spec fn unroutable(p: PartView) -> bool {
    match p {
        PartView::Ip4(ip) => ip4_loopback(ip) || ip4_private(ip) || ip4_link_local(ip) || ip == 0,
        PartView::Ip6(ip) => ip == 1 || ip == 0 || ip6_head(ip) == 0xfe80 || 0xfc00 <= ip6_head(ip) < 0xfe00,
        _ => false,
    }
}

/// An IP address.
pub open spec fn is_ip(p: PartView) -> bool {
    p is Ip4 || p is Ip6
}

impl Part {
    fn is_own_host(&self) -> (r: bool)
        ensures
            r == own_host(self@),
    {
        match self {
            Part::Ip4(ip) => *ip / 0x100_0000 == 127 || *ip == 0,
            Part::Ip6(ip) => *ip == 1 || *ip == 0,
            _ => false,
        }
    }

    fn is_unroutable(&self) -> (r: bool)
        ensures
            r == unroutable(self@),
    {
        match self {
            Part::Ip4(ip) => {
                let ip: u32 = *ip;
                ip / 0x100_0000 == 127 || ip / 0x100_0000 == 10 || ip / 0x10_0000 == 172 * 16 + 1 || ip / 0x1_0000 == 192
                    * 256 + 168 || ip / 0x1_0000 == 169 * 256 + 254 || ip == 0
            },
            Part::Ip6(ip) => {
                let ip: u128 = *ip;
                let head: u128 = ip / 0x1_0000_0000_0000_0000_0000_0000_0000u128;
                ip == 1 || ip == 0 || head == 0xfe80 || (0xfc00 <= head && head < 0xfe00)
            },
            _ => false,
        }
    }

    fn is_ip(&self) -> (r: bool)
        ensures
            r == is_ip(self@),
    {
        matches!(self, Part::Ip4(_) | Part::Ip6(_))
    }
}

// ---------------------------------------------------------------------------
// Classification
// ---------------------------------------------------------------------------

/// Some part of the address is a relay circuit.
pub open spec fn has_circuit(a: Seq<PartView>) -> bool {
    exists|i: int| 0 <= i < a.len() && #[trigger] a[i] is P2pCircuit
}

/// Some part of the address is an IP address.
pub open spec fn has_ip(a: Seq<PartView>) -> bool {
    exists|i: int| 0 <= i < a.len() && is_ip(#[trigger] a[i])
}

/// The address has a publicly routable IP: at least one IP, none of them
/// loopback, link-local, private or unspecified, and no relay circuit.
pub open spec fn public_addr(a: Seq<PartView>) -> bool {
    has_ip(a) && !has_circuit(a) && forall|i: int| 0 <= i < a.len() ==> !unroutable(#[trigger] a[i])
}

/// The address is useful for remote peers: publicly routable, or through a
/// relay.
pub open spec fn reachable_addr(a: Seq<PartView>) -> bool {
    has_circuit(a) || public_addr(a)
}

/// A part that an address can be dialed by.
pub open spec fn is_transport(p: PartView) -> bool {
    p is Ip4 || p is Ip6 || p is Dns || p is Dns4 || p is Dns6
}

/// The address has an IP or a DNS name.
pub open spec fn transport_addr(a: Seq<PartView>) -> bool {
    exists|i: int| 0 <= i < a.len() && is_transport(#[trigger] a[i])
}

/// The address has an IP that resolves to the own host.
pub open spec fn own_host_addr(a: Seq<PartView>) -> bool {
    exists|i: int| 0 <= i < a.len() && own_host(#[trigger] a[i])
}

/// The last peer in the address.
pub open spec fn last_peer(a: Seq<PartView>) -> Option<Seq<char>>
    decreases a.len(),
{
    if a.len() == 0 {
        None
    } else {
        match a.last() {
            PartView::P2p(id) => Some(id),
            _ => last_peer(a.drop_last()),
        }
    }
}

/// The position of the first relay circuit, or the length.
pub open spec fn first_circuit(a: Seq<PartView>) -> int
    decreases a.len(),
{
    if a.len() == 0 || a[0] is P2pCircuit {
        0
    } else {
        1 + first_circuit(a.skip(1))
    }
}

/// The relay of a relay circuit address: the last peer before the circuit.
pub open spec fn circuit_relay(a: Seq<PartView>) -> Option<Seq<char>> {
    if has_circuit(a) {
        last_peer(a.take(first_circuit(a)))
    } else {
        None
    }
}

proof fn lemma_first_circuit(a: Seq<PartView>, i: int)
    requires
        0 <= i < a.len(),
        a[i] is P2pCircuit,
        forall|j: int| 0 <= j < i ==> !(#[trigger] a[j] is P2pCircuit),
    ensures
        first_circuit(a) == i,
    decreases a.len(),
{
    if i > 0 {
        assert(!(a[0] is P2pCircuit));
        let b = a.skip(1);
        assert(b[i - 1] == a[i]);
        assert forall|j: int| 0 <= j < i - 1 implies !(#[trigger] b[j] is P2pCircuit) by {
            assert(b[j] == a[j + 1]);
        }
        lemma_first_circuit(b, i - 1);
    }
}

/// The address without its peer parts.
pub open spec fn without_peers(a: Seq<PartView>) -> Seq<PartView>
    decreases a.len(),
{
    if a.len() == 0 {
        Seq::empty()
    } else if a.last() is P2p {
        without_peers(a.drop_last())
    } else {
        without_peers(a.drop_last()).push(a.last())
    }
}

impl Multiaddr {
    /// Whether two addresses are the same.
    pub fn same_as(&self, other: &Multiaddr) -> (r: bool)
        ensures
            r == (self@ == other@),
    {
        if self.parts.len() != other.parts.len() {
            assert(self@.len() != other@.len());
            return false;
        }
        let mut i: usize = 0;
        while i < self.parts.len()
            invariant
                i <= self.parts@.len(),
                self.parts@.len() == other.parts@.len(),
                forall|j: int| 0 <= j < i ==> (#[trigger] self.parts@[j])@ == other.parts@[j]@,
            decreases self.parts@.len() - i,
        {
            if !self.parts[i].same_as(&other.parts[i]) {
                assert(self@[i as int] != other@[i as int]);
                return false;
            }
            i += 1;
        }
        assert(self@ =~= other@);
        true
    }

    /// Whether some part is a relay circuit.
    pub fn has_circuit(&self) -> (r: bool)
        ensures
            r == has_circuit(self@),
    {
        let mut i: usize = 0;
        while i < self.parts.len()
            invariant
                i <= self.parts@.len(),
                forall|j: int| 0 <= j < i ==> !(#[trigger] self@[j] is P2pCircuit),
            decreases self.parts@.len() - i,
        {
            if matches!(self.parts[i], Part::P2pCircuit) {
                assert(self@[i as int] is P2pCircuit);
                return true;
            }
            i += 1;
        }
        false
    }

    /// Whether some part is an IP address.
    pub fn has_ip(&self) -> (r: bool)
        ensures
            r == has_ip(self@),
    {
        let mut i: usize = 0;
        while i < self.parts.len()
            invariant
                i <= self.parts@.len(),
                forall|j: int| 0 <= j < i ==> !is_ip(#[trigger] self@[j]),
            decreases self.parts@.len() - i,
        {
            if self.parts[i].is_ip() {
                assert(is_ip(self@[i as int]));
                return true;
            }
            i += 1;
        }
        false
    }

    /// This address without its peer parts.
    pub fn without_peers(&self) -> (r: Multiaddr)
        ensures
            r@ == without_peers(self@),
    {
        let mut parts: Vec<Part> = Vec::new();
        let mut i: usize = 0;
        let ghost mut out: Seq<PartView> = Seq::empty();
        assert(self@.take(0) =~= Seq::empty());
        while i < self.parts.len()
            invariant
                i <= self.parts@.len(),
                out == without_peers(self@.take(i as int)),
                out.len() == parts@.len(),
                forall|j: int| 0 <= j < out.len() ==> out[j] == (#[trigger] parts@[j])@,
            decreases self.parts@.len() - i,
        {
            assert(self@.take(i + 1).drop_last() =~= self@.take(i as int));
            assert(self@.take(i + 1).last() == self.parts@[i as int]@);
            if !matches!(self.parts[i], Part::P2p(_)) {
                parts.push(self.parts[i].clone());
                proof {
                    out = out.push(self@[i as int]);
                }
            }
            i += 1;
        }
        let r = Multiaddr { parts };
        assert(self@.take(i as int) =~= self@);
        assert(r@ =~= out);
        r
    }

    /// The peer in the last part, if the last part is one.
    pub fn last_part_peer(&self) -> (r: Option<&str>)
        ensures
            match r {
                Some(id) => self@.len() > 0 && self@.last() == PartView::P2p(id@),
                None => self@.len() == 0 || !(self@.last() is P2p),
            },
    {
        if self.parts.len() == 0 {
            return None;
        }
        match &self.parts[self.parts.len() - 1] {
            Part::P2p(id) => Some(id.as_str()),
            _ => None,
        }
    }
}

/// Whether `addr` is publicly routable.
pub fn is_public_addr(addr: &Multiaddr) -> (r: bool)
    ensures
        r == public_addr(addr@),
{
    let mut found = false;
    let mut i: usize = 0;
    while i < addr.parts.len()
        invariant
            i <= addr.parts@.len(),
            found <==> exists|j: int| 0 <= j < i && is_ip(#[trigger] addr@[j]),
            forall|j: int| 0 <= j < i ==> !(#[trigger] addr@[j] is P2pCircuit) && !unroutable(addr@[j]),
        decreases addr.parts@.len() - i,
    {
        let part = &addr.parts[i];
        assert(addr@[i as int] == part@);
        if matches!(part, Part::P2pCircuit) || part.is_unroutable() {
            return false;
        }
        if part.is_ip() {
            found = true;
        }
        i += 1;
    }
    found
}

/// Whether `addr` is useful for remote peers.
pub fn is_globally_reachable(addr: &Multiaddr) -> (r: bool)
    ensures
        r == reachable_addr(addr@),
{
    if addr.has_circuit() {
        return true;
    }
    is_public_addr(addr)
}

/// The relay of a relay circuit address.
pub fn relay_circuit_key(addr: &Multiaddr) -> (r: Option<&str>)
    ensures
        r is Some <==> circuit_relay(addr@) is Some,
        r is Some ==> r->0@ == circuit_relay(addr@)->0,
{
    let mut last: Option<&str> = None;
    let mut i: usize = 0;
    assert(addr@.take(0) =~= Seq::empty());
    while i < addr.parts.len()
        invariant
            i <= addr.parts@.len(),
            last is Some <==> last_peer(addr@.take(i as int)) is Some,
            last is Some ==> last->0@ == last_peer(addr@.take(i as int))->0,
            forall|j: int| 0 <= j < i ==> !(#[trigger] addr@[j] is P2pCircuit),
        decreases addr.parts@.len() - i,
    {
        assert(addr@.take(i + 1).drop_last() =~= addr@.take(i as int));
        assert(addr@.take(i + 1).last() == addr.parts@[i as int]@);
        assert(addr@[i as int] == addr.parts@[i as int]@);
        match &addr.parts[i] {
            Part::P2p(id) => {
                last = Some(id.as_str());
            },
            Part::P2pCircuit => {
                proof {
                    lemma_first_circuit(addr@, i as int);
                }
                return last;
            },
            _ => {},
        }
        i += 1;
    }
    None
}

/// Whether `addr` has an IP or a DNS name.
pub fn has_transport(addr: &Multiaddr) -> (r: bool)
    ensures
        r == transport_addr(addr@),
{
    let mut i: usize = 0;
    while i < addr.parts.len()
        invariant
            i <= addr.parts@.len(),
            forall|j: int| 0 <= j < i ==> !is_transport(#[trigger] addr@[j]),
        decreases addr.parts@.len() - i,
    {
        let part = &addr.parts[i];
        assert(addr@[i as int] == part@);
        if matches!(part, Part::Ip4(_) | Part::Ip6(_) | Part::Dns(_) | Part::Dns4(_) | Part::Dns6(_)) {
            return true;
        }
        i += 1;
    }
    false
}

/// Whether `addr` has a loopback or unspecified IP.
pub fn has_bad_ip(addr: &Multiaddr) -> (r: bool)
    ensures
        r == own_host_addr(addr@),
{
    let mut i: usize = 0;
    while i < addr.parts.len()
        invariant
            i <= addr.parts@.len(),
            forall|j: int| 0 <= j < i ==> !own_host(#[trigger] addr@[j]),
        decreases addr.parts@.len() - i,
    {
        let part = &addr.parts[i];
        assert(addr@[i as int] == part@);
        if part.is_own_host() {
            return true;
        }
        i += 1;
    }
    false
}

// ---------------------------------------------------------------------------
// Announced addresses
// ---------------------------------------------------------------------------

/// Some address in the list is a circuit through `relay`.
pub open spec fn relay_named(addrs: Seq<Seq<PartView>>, relay: Seq<char>) -> bool {
    exists|i: int| 0 <= i < addrs.len() && circuit_relay(#[trigger] addrs[i]) == Some(relay)
}

/// The reachable addresses, of each relay only the first circuit.
pub open spec fn announced(addrs: Seq<Seq<PartView>>) -> Seq<Seq<PartView>>
    decreases addrs.len(),
{
    if addrs.len() == 0 {
        Seq::empty()
    } else {
        let before = addrs.drop_last();
        let a = addrs.last();
        if !reachable_addr(a) || (circuit_relay(a) is Some && relay_named(before, circuit_relay(a)->0)) {
            announced(before)
        } else {
            announced(before).push(a)
        }
    }
}

/// The addresses to announce: the globally reachable ones, and at most one
/// relay circuit for each relay.
pub fn dedup_announce_addrs(raw: &Vec<Multiaddr>) -> (r: Vec<Multiaddr>)
    ensures
        addrs_view(r@) == announced(addrs_view(raw@)),
{
    let mut relays = NameSet::new();
    let mut out: Vec<Multiaddr> = Vec::new();
    let ghost all = addrs_view(raw@);
    let mut i: usize = 0;
    assert(all.take(0) =~= Seq::empty());
    assert(addrs_view(out@) =~= Seq::empty());
    while i < raw.len()
        invariant
            i <= raw@.len(),
            all == addrs_view(raw@),
            relays.wf(),
            forall|n: Seq<char>| relays@.contains(n) <==> relay_named(all.take(i as int), n),
            addrs_view(out@) == announced(all.take(i as int)),
        decreases raw@.len() - i,
    {
        let ghost before = all.take(i as int);
        assert(all.take(i + 1).drop_last() =~= before);
        let a = &raw[i];
        assert(all.take(i + 1).last() == a@);
        assert(all[i as int] == a@);
        let ghost kept = out@;
        let ghost named = relays@;
        let mut keep = is_globally_reachable(a);
        match relay_circuit_key(a) {
            Some(relay) => {
                if !relays.insert(relay) {
                    keep = false;
                }
            },
            None => {},
        }
        if keep {
            out.push(a.clone());
            assert(addrs_view(out@) =~= addrs_view(kept).push(a@));
        }
        proof {
            let after = all.take(i + 1);
            assert forall|n: Seq<char>| relays@.contains(n) <==> relay_named(after, n) by {
                if relay_named(before, n) {
                    let j = choose|j: int| 0 <= j < before.len() && circuit_relay(#[trigger] before[j]) == Some(n);
                    assert(after[j] == before[j]);
                }
                if relay_named(after, n) {
                    let j = choose|j: int| 0 <= j < after.len() && circuit_relay(#[trigger] after[j]) == Some(n);
                    if j < i {
                        assert(before[j] == after[j]);
                    }
                }
                if circuit_relay(a@) == Some(n) {
                    assert(circuit_relay(after[i as int]) == Some(n));
                }
            }
        }
        i += 1;
    }
    assert(all.take(i as int) =~= all);
    out
}

/// A relay circuit address is reachable.
proof fn lemma_relay_is_reachable(a: Seq<PartView>)
    requires
        circuit_relay(a) is Some,
    ensures
        reachable_addr(a),
{
}

/// Every announced address is reachable and was in the list.
pub proof fn law_announced_are_reachable(addrs: Seq<Seq<PartView>>, i: int)
    requires
        0 <= i < announced(addrs).len(),
    ensures
        reachable_addr(announced(addrs)[i]),
        addrs.contains(announced(addrs)[i]),
    decreases addrs.len(),
{
    let before = addrs.drop_last();
    if i < announced(before).len() {
        law_announced_are_reachable(before, i);
        let x = announced(addrs)[i];
        assert(x == announced(before)[i]);
        let j = choose|j: int| 0 <= j < before.len() && before[j] == x;
        assert(addrs[j] == x);
    } else {
        assert(announced(addrs)[i] == addrs.last());
        assert(addrs[addrs.len() - 1] == addrs.last());
    }
}

/// No relay is announced twice.
pub proof fn law_one_circuit_per_relay(addrs: Seq<Seq<PartView>>, i: int, j: int)
    requires
        0 <= i < j < announced(addrs).len(),
        circuit_relay(announced(addrs)[i]) is Some,
    ensures
        circuit_relay(announced(addrs)[i]) != circuit_relay(announced(addrs)[j]),
    decreases addrs.len(),
{
    let before = addrs.drop_last();
    if j < announced(before).len() {
        law_one_circuit_per_relay(before, i, j);
    } else {
        law_announced_are_reachable(before, i);
        let x = announced(before)[i];
        let k = choose|k: int| 0 <= k < before.len() && before[k] == x;
        assert(circuit_relay(before[k]) == circuit_relay(x));
    }
}

/// Every relay of the list is announced, and every reachable address that
/// names no relay is.
pub proof fn law_announced_cover(addrs: Seq<Seq<PartView>>, i: int)
    requires
        0 <= i < addrs.len(),
        reachable_addr(addrs[i]),
    ensures
        match circuit_relay(addrs[i]) {
            Some(relay) => relay_named(announced(addrs), relay),
            None => announced(addrs).contains(addrs[i]),
        },
    decreases addrs.len(),
{
    let before = addrs.drop_last();
    let a = addrs.last();
    let out = announced(addrs);
    if i < before.len() {
        law_announced_cover(before, i);
        assert(before[i] == addrs[i]);
        match circuit_relay(addrs[i]) {
            Some(relay) => {
                let k = choose|k: int|
                    0 <= k < announced(before).len() && circuit_relay(#[trigger] announced(before)[k]) == Some(relay);
                assert(out[k] == announced(before)[k]);
            },
            None => {
                let k = choose|k: int| 0 <= k < announced(before).len() && announced(before)[k] == addrs[i];
                assert(out[k] == addrs[i]);
            },
        }
    } else {
        assert(addrs[i] == a);
        if circuit_relay(a) is Some && relay_named(before, circuit_relay(a)->0) {
            let relay = circuit_relay(a)->0;
            let k = choose|k: int| 0 <= k < before.len() && circuit_relay(#[trigger] before[k]) == Some(relay);
            lemma_relay_is_reachable(before[k]);
            law_announced_cover(before, k);
            let q = choose|q: int|
                0 <= q < announced(before).len() && circuit_relay(#[trigger] announced(before)[q]) == Some(relay);
            assert(out[q] == announced(before)[q]);
        } else {
            assert(out[out.len() - 1] == a);
        }
    }
}

} // verus!
