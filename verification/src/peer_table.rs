//! The table of discovered peers.
use vstd::prelude::*;

use crate::config::copy_texts;
use crate::json::{json_option, string_view, texts_view, Json, JsonView};
use crate::models::{copy_models, models_view, ModelAnnounce, ModelView};
use crate::table::{lemma_table_order, Table};

verus! {

/// A tool of a remote peer.
#[derive(Debug)]
pub struct ToolSummary {
    pub name: String,
    pub description: String,
    /// The schema of its parameters, if known.
    pub input_schema: Option<Json>,
}

/// Where a peer was found.
#[derive(Debug, Clone, Copy, PartialEq, Eq, Structural)]
pub enum PeerSource {
    Libp2p,
    Tailscale,
}

/// A discovered peer.
#[derive(Debug)]
pub struct PeerInfo {
    pub peer_id: String,
    /// A description in words, where the peer gives one.
    pub description: Option<String>,
    /// Its addresses.
    pub addrs: Vec<String>,
    /// The tools it has announced.
    pub tools: Vec<ToolSummary>,
    /// The models it serves.
    pub models: Vec<ModelAnnounce>,
    pub source: PeerSource,
    /// Unix time in seconds when it was last observed.
    pub last_seen: u64,
    /// Its announcement as it was received, where it came from the DHT.
    pub raw_record: Option<Json>,
}

/// The model of [`ToolSummary`].
pub struct SummaryView {
    pub name: Seq<char>,
    pub description: Seq<char>,
    pub input_schema: Option<JsonView>,
}

/// The model of [`PeerInfo`].
#[verifier::ext_equal]
pub struct PeerView {
    pub peer_id: Seq<char>,
    pub description: Option<Seq<char>>,
    pub addrs: Seq<Seq<char>>,
    pub tools: Seq<SummaryView>,
    pub models: Seq<ModelView>,
    pub source: PeerSource,
    pub last_seen: int,
    pub raw_record: Option<JsonView>,
}

impl View for ToolSummary {
    type V = SummaryView;

    open spec fn view(&self) -> SummaryView {
        SummaryView {
            name: self.name@,
            description: self.description@,
            input_schema: json_option(self.input_schema),
        }
    }
}

/// The models of a list of tools.
pub open spec fn summaries_view(v: Seq<ToolSummary>) -> Seq<SummaryView> {
    Seq::new(v.len(), |i: int| v[i]@)
}

impl View for PeerInfo {
    type V = PeerView;

    open spec fn view(&self) -> PeerView {
        PeerView {
            peer_id: self.peer_id@,
            description: string_view(self.description),
            addrs: texts_view(self.addrs@),
            tools: summaries_view(self.tools@),
            models: models_view(self.models@),
            source: self.source,
            last_seen: self.last_seen as int,
            raw_record: json_option(self.raw_record),
        }
    }
}

/// The models of a list of peers.
pub open spec fn peers_view(v: Seq<PeerInfo>) -> Seq<PeerView> {
    Seq::new(v.len(), |i: int| v[i]@)
}

/// A copy of an optional value.
pub(crate) fn copy_json(j: &Option<Json>) -> (r: Option<Json>)
    ensures
        json_option(r) == json_option(*j),
{
    match j {
        Some(v) => Some(v.clone()),
        None => None,
    }
}

impl Clone for ToolSummary {
    fn clone(&self) -> (r: ToolSummary)
        ensures
            r@ == self@,
    {
        ToolSummary {
            name: self.name.clone(),
            description: self.description.clone(),
            input_schema: copy_json(&self.input_schema),
        }
    }
}

impl Clone for PeerInfo {
    fn clone(&self) -> (r: PeerInfo)
        ensures
            r@ == self@,
    {
        let mut tools: Vec<ToolSummary> = Vec::new();
        let mut i: usize = 0;
        while i < self.tools.len()
            invariant
                i <= self.tools@.len(),
                tools@.len() == i,
                forall|j: int| 0 <= j < i ==> (#[trigger] tools@[j])@ == self.tools@[j]@,
            decreases self.tools@.len() - i,
        {
            tools.push(self.tools[i].clone());
            i += 1;
        }
        assert(summaries_view(tools@) =~= summaries_view(self.tools@));
        PeerInfo {
            peer_id: self.peer_id.clone(),
            description: match &self.description {
                Some(d) => Some(d.clone()),
                None => None,
            },
            addrs: copy_texts(self.addrs.as_slice()),
            tools,
            models: copy_models(&self.models),
            source: self.source,
            last_seen: self.last_seen,
            raw_record: copy_json(&self.raw_record),
        }
    }
}

/// The discovered peers by their identifiers.
pub struct PeerTable {
    peers: Table<PeerInfo>,
}

impl View for PeerTable {
    type V = Map<Seq<char>, PeerView>;

    closed spec fn view(&self) -> Map<Seq<char>, PeerView> {
        self.peers@.map_values(|p: PeerInfo| p@)
    }
}

impl PeerTable {
    /// Every peer stands under its identifier.
    pub closed spec fn wf(&self) -> bool {
        self.peers.wf() && forall|n: Seq<char>| #[trigger]
            self.peers@.contains_key(n) ==> self.peers@[n].peer_id@ == n
    }

    /// The identifiers, each once.
    pub closed spec fn order(&self) -> Seq<Seq<char>> {
        self.peers.order()
    }

    /// The peers in the order of their identifiers above.
    pub open spec fn listed(&self) -> Seq<PeerView> {
        Seq::new(self.order().len(), |i: int| self@[self.order()[i]])
    }

    /// A table without peers.
    pub fn new() -> (r: PeerTable)
        ensures
            r.wf(),
            r@ == Map::<Seq<char>, PeerView>::empty(),
    {
        let r = PeerTable { peers: Table::new() };
        assert(r@ =~= Map::<Seq<char>, PeerView>::empty());
        r
    }

    /// Adds a peer, in place of what was known of it.
    pub fn upsert(&mut self, info: PeerInfo)
        requires
            old(self).wf(),
        ensures
            final(self).wf(),
            final(self)@ == old(self)@.insert(info@.peer_id, info@),
    {
        let ghost p = info;
        let id = info.peer_id.clone();
        self.peers.insert(id.as_str(), info);
        assert(self@ =~= old(self)@.insert(p@.peer_id, p@));
    }

    /// Removes a peer.
    pub fn remove(&mut self, peer_id: &str)
        requires
            old(self).wf(),
        ensures
            final(self).wf(),
            final(self)@ == old(self)@.remove(peer_id@),
    {
        let _ = self.peers.remove(peer_id);
        assert(self@ =~= old(self)@.remove(peer_id@));
    }

    /// All peers, each once.
    pub fn all(&self) -> (r: Vec<PeerInfo>)
        requires
            self.wf(),
        ensures
            peers_view(r@) == self.listed(),
            r@.len() == self.order().len(),
            forall|i: int|
                0 <= i < r@.len() ==> (#[trigger] r@[i])@.peer_id == self.order()[i] && self@.contains_key(
                    self.order()[i],
                ) && r@[i]@ == self@[self.order()[i]],
            self.order().no_duplicates(),
            forall|n: Seq<char>| #[trigger] self@.contains_key(n) ==> self.order().contains(n),
    {
        proof {
            lemma_table_order(&self.peers);
        }
        let mut out: Vec<PeerInfo> = Vec::new();
        let mut i: usize = 0;
        let n: usize = self.peers.len();
        while i < n
            invariant
                self.wf(),
                n == self.peers.order().len(),
                i <= n,
                out@.len() == i,
                forall|k: int|
                    0 <= k < i ==> (#[trigger] out@[k])@.peer_id == self.order()[k] && self@.contains_key(
                        self.order()[k],
                    ) && out@[k]@ == self@[self.order()[k]],
            decreases n - i,
        {
            let (_, p) = self.peers.at(i);
            out.push(p.clone());
            i += 1;
        }
        assert(peers_view(out@) =~= self.listed());
        out
    }

    /// The peer with this identifier.
    pub fn get(&self, peer_id: &str) -> (r: Option<PeerInfo>)
        requires
            self.wf(),
        ensures
            match r {
                Some(p) => self@.contains_key(peer_id@) && p@ == self@[peer_id@] && p@.peer_id == peer_id@,
                None => !self@.contains_key(peer_id@),
            },
    {
        match self.peers.get(peer_id) {
            Some(p) => Some(p.clone()),
            None => None,
        }
    }

    /// How many peers there are.
    pub fn len(&self) -> (r: usize)
        requires
            self.wf(),
        ensures
            r == self.order().len(),
            r == 0 <==> self@ == Map::<Seq<char>, PeerView>::empty(),
    {
        proof {
            lemma_table_order(&self.peers);
            if self.order().len() == 0 {
                assert forall|n: Seq<char>| !self@.contains_key(n) by {
                    if self@.contains_key(n) {
                        assert(self.peers@.contains_key(n));
                        assert(self.order().contains(n));
                    }
                }
                assert(self@ =~= Map::<Seq<char>, PeerView>::empty());
            } else {
                assert(self.peers@.contains_key(self.peers.order()[0]));
                assert(self@.contains_key(self.order()[0]));
            }
        }
        self.peers.len()
    }

    /// Whether there is no peer.
    pub fn is_empty(&self) -> (r: bool)
        requires
            self.wf(),
        ensures
            r == (self@ == Map::<Seq<char>, PeerView>::empty()),
    {
        self.len() == 0
    }
}

} // verus!
