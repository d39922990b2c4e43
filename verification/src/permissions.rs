//! Permission rules: (agent, resource) → decision.
//!
//! Waterfall lookup (first match wins, most specific first):
//!   1. (exact agent,    exact resource)
//!   2. (exact agent,    `*`)
//!   3. (wildcard agent, exact resource)
//!   4. (wildcard agent, `*`)
//!   5. not found → local: ask; P2P and Tailscale: deny
//!
//! Resources can be tool names (`read_file`) or tunnel names
//! (`tunnel:models`).  The wildcard `*` matches all resources.
use vstd::prelude::*;

use crate::identity::{agent_class, agent_name, AgentId};
use crate::text::{
    chars_of, ends_with, lemma_text_lt_irreflexive, lemma_text_lt_transitive, relate, same, starts_with, text_lt,
    Relation,
};

verus! {

// ---------------------------------------------------------------------------
// Decisions and rules
// ---------------------------------------------------------------------------

/// What is decided for one (agent, resource) pair.
#[derive(Debug, Clone, Copy, PartialEq, Eq, Structural)]
pub enum Decision {
    Allow,
    Deny,
    /// Prompt the user (local callers only; remote callers are denied).
    Ask,
}

/// The word that stands for a decision in the database.
pub open spec fn decision_word(d: Decision) -> Seq<char> {
    match d {
        Decision::Allow => "allow"@,
        Decision::Deny => "deny"@,
        Decision::Ask => "ask"@,
    }
}

/// The decision that a word from the database stands for.  An unknown word
/// denies.
pub open spec fn decision_of_word(s: Seq<char>) -> Decision {
    if s == "allow"@ {
        Decision::Allow
    } else if s == "ask"@ {
        Decision::Ask
    } else {
        Decision::Deny
    }
}

proof fn lemma_decision_words()
    ensures
        "allow"@ != "deny"@,
        "allow"@ != "ask"@,
        "deny"@ != "ask"@,
{
    reveal_strlit("deny");
    reveal_strlit("ask");
    reveal_strlit("allow");
    assert("allow"@.len() == 5 && "deny"@.len() == 4 && "ask"@.len() == 3);
}

impl Decision {
    /// The decision that a word from the database stands for.
    pub fn from_db(s: &str) -> (r: Decision)
        ensures
            r == decision_of_word(s@),
    {
        if same(s, "allow") {
            Decision::Allow
        } else if same(s, "deny") {
            proof {
                lemma_decision_words();
            }
            Decision::Deny
        } else if same(s, "ask") {
            Decision::Ask
        } else {
            Decision::Deny
        }
    }

    /// The word that stands for the decision.
    pub fn to_string(&self) -> (r: String)
        ensures
            r@ == decision_word(*self),
    {
        match self {
            Decision::Allow => "allow".to_owned(),
            Decision::Deny => "deny".to_owned(),
            Decision::Ask => "ask".to_owned(),
        }
    }
}

/// A decision read back from its own word is the same decision.
pub proof fn law_decision_words_read_back(d: Decision)
    ensures
        decision_of_word(decision_word(d)) == d,
{
    lemma_decision_words();
}

/// One rule, as a row of the table.
#[derive(Debug)]
pub struct PermissionRecord {
    pub agent_id: String,
    pub resource: String,
    pub decision: Decision,
    pub granted_at: Option<i64>,
}

impl Clone for PermissionRecord {
    fn clone(&self) -> (r: PermissionRecord)
        ensures
            r == *self,
    {
        PermissionRecord {
            agent_id: self.agent_id.clone(),
            resource: self.resource.clone(),
            decision: self.decision,
            granted_at: self.granted_at,
        }
    }
}

/// What a rule is about.
pub struct RuleKey {
    pub agent: Seq<char>,
    pub resource: Seq<char>,
}

/// What a rule says.
pub struct Rule {
    pub decision: Decision,
    pub granted_at: Option<i64>,
}

/// The key of `agent` and `resource`.
pub open spec fn key(agent: Seq<char>, resource: Seq<char>) -> RuleKey {
    RuleKey { agent, resource }
}

/// The key of a row.
pub open spec fn row_key(row: PermissionRecord) -> RuleKey {
    key(row.agent_id@, row.resource@)
}

/// What a row says.
pub open spec fn row_rule(row: PermissionRecord) -> Rule {
    Rule { decision: row.decision, granted_at: row.granted_at }
}

/// The order of the table: by agent, then by resource.
pub open spec fn key_lt(a: RuleKey, b: RuleKey) -> bool {
    text_lt(a.agent, b.agent) || (a.agent == b.agent && text_lt(a.resource, b.resource))
}

/// Each row's key comes before the keys of the rows that follow.
pub open spec fn in_order(rows: Seq<PermissionRecord>) -> bool {
    forall|i: int, j: int|
        0 <= i < j < rows.len() ==> key_lt(#[trigger] row_key(rows[i]), #[trigger] row_key(rows[j]))
}

/// Row `i` has key `k`.
pub open spec fn row_has(rows: Seq<PermissionRecord>, k: RuleKey, i: int) -> bool {
    0 <= i < rows.len() && row_key(rows[i]) == k
}

/// The rules that the rows state.
pub open spec fn rules_of(rows: Seq<PermissionRecord>) -> Map<RuleKey, Rule> {
    Map::new(
        |k: RuleKey| exists|i: int| row_has(rows, k, i),
        |k: RuleKey| row_rule(rows[choose|i: int| row_has(rows, k, i)]),
    )
}

proof fn lemma_key_lt_irreflexive(a: RuleKey)
    ensures
        !key_lt(a, a),
{
    lemma_text_lt_irreflexive(a.agent);
    lemma_text_lt_irreflexive(a.resource);
}

proof fn lemma_key_lt_transitive(a: RuleKey, b: RuleKey, c: RuleKey)
    requires
        key_lt(a, b),
        key_lt(b, c),
    ensures
        key_lt(a, c),
{
    if text_lt(a.agent, b.agent) && text_lt(b.agent, c.agent) {
        lemma_text_lt_transitive(a.agent, b.agent, c.agent);
    } else if a.agent == b.agent && b.agent == c.agent {
        lemma_text_lt_transitive(a.resource, b.resource, c.resource);
    }
}

proof fn lemma_row_in_rules(rows: Seq<PermissionRecord>, i: int)
    requires
        in_order(rows),
        0 <= i < rows.len(),
    ensures
        rules_of(rows).contains_key(row_key(rows[i])),
        rules_of(rows)[row_key(rows[i])] == row_rule(rows[i]),
{
    let k = row_key(rows[i]);
    assert(row_has(rows, k, i));
    let j = choose|j: int| row_has(rows, k, j);
    if i < j {
        assert(key_lt(row_key(rows[i]), row_key(rows[j])));
        lemma_key_lt_irreflexive(k);
    } else if j < i {
        assert(key_lt(row_key(rows[j]), row_key(rows[i])));
        lemma_key_lt_irreflexive(k);
    }
}

// ---------------------------------------------------------------------------
// What the rules mean
// ---------------------------------------------------------------------------

/// The decision of the rule for exactly this agent and resource.
pub open spec fn decided(m: Map<RuleKey, Rule>, agent: Seq<char>, resource: Seq<char>) -> Option<Decision> {
    if m.contains_key(key(agent, resource)) {
        Some(m[key(agent, resource)].decision)
    } else {
        None
    }
}

/// The first of two that is there.
pub open spec fn or_else(a: Option<Decision>, b: Option<Decision>) -> Option<Decision> {
    if a is Some {
        a
    } else {
        b
    }
}

/// The first match of the waterfall.
pub open spec fn matched(
    m: Map<RuleKey, Rule>,
    agent: Seq<char>,
    class: Seq<char>,
    resource: Seq<char>,
) -> Option<Decision> {
    or_else(
        decided(m, agent, resource),
        or_else(decided(m, agent, "*"@), or_else(decided(m, class, resource), decided(m, class, "*"@))),
    )
}

/// The decision for an agent and a resource.
pub open spec fn effective(m: Map<RuleKey, Rule>, agent: AgentId, resource: Seq<char>) -> Decision {
    match matched(m, agent_name(agent), agent_class(agent), resource) {
        Some(d) => d,
        None => if agent is Local {
            Decision::Ask
        } else {
            Decision::Deny
        },
    }
}

/// `agent` matches `p2p:%`, letters compared without regard to case.
pub open spec fn like_p2p(agent: Seq<char>) -> bool {
    &&& agent.len() >= 4
    &&& agent[0] == 'p' || agent[0] == 'P'
    &&& agent[1] == '2'
    &&& agent[2] == 'p' || agent[2] == 'P'
    &&& agent[3] == ':'
}

/// The rules give a P2P agent called `agent` an allow for `resource`: its rule
/// for exactly that, or else its rule for everything.
pub open spec fn exposes(m: Map<RuleKey, Rule>, agent: Seq<char>, resource: Seq<char>) -> bool {
    &&& like_p2p(agent)
    &&& decided(m, agent, resource) == Some(Decision::Allow) || (decided(m, agent, resource) is None && decided(
        m,
        agent,
        "*"@,
    ) == Some(Decision::Allow))
}

/// Some P2P agent has access to `resource`.
pub open spec fn exposed(m: Map<RuleKey, Rule>, resource: Seq<char>) -> bool {
    exists|agent: Seq<char>| exposes(m, agent, resource)
}

/// `agent` is a particular P2P peer with at least one allow rule.
pub open spec fn allowed_peer(m: Map<RuleKey, Rule>, agent: Seq<char>) -> bool {
    &&& like_p2p(agent)
    &&& agent != "p2p:*"@
    &&& exists|resource: Seq<char>| #[trigger] decided(m, agent, resource) == Some(Decision::Allow)
}

// ---------------------------------------------------------------------------
// PermissionStore
// ---------------------------------------------------------------------------

/// The permission rules, in the order of their keys.
pub struct PermissionStore {
    rows: Vec<PermissionRecord>,
}

impl View for PermissionStore {
    type V = Map<RuleKey, Rule>;

    closed spec fn view(&self) -> Map<RuleKey, Rule> {
        rules_of(self.rows@)
    }
}

impl PermissionStore {
    /// No two rows share a key, and they stand in order.
    pub closed spec fn wf(&self) -> bool {
        in_order(self.rows@)
    }

    /// The rules in order.
    pub closed spec fn listed(&self) -> Seq<PermissionRecord> {
        self.rows@
    }

    /// How many rules there are.
    pub open spec fn count(&self) -> nat {
        self.listed().len()
    }

    /// A store without rules.
    pub fn new() -> (r: PermissionStore)
        ensures
            r.wf(),
            r@ == Map::<RuleKey, Rule>::empty(),
    {
        let r = PermissionStore { rows: Vec::new() };
        assert(r@ =~= Map::<RuleKey, Rule>::empty());
        r
    }

    /// The place of a key: where its row stands, or where it would be put.
    fn position(&self, agent_id: &str, resource: &str) -> (r: (usize, bool))
        requires
            self.wf(),
        ensures
            r.0 <= self.rows@.len(),
            forall|i: int| 0 <= i < r.0 ==> key_lt(#[trigger] row_key(self.rows@[i]), key(agent_id@, resource@)),
            r.1 ==> r.0 < self.rows@.len() && row_key(self.rows@[r.0 as int]) == key(agent_id@, resource@),
            !r.1 ==> forall|i: int|
                r.0 <= i < self.rows@.len() ==> key_lt(
                    key(agent_id@, resource@),
                    #[trigger] row_key(self.rows@[i]),
                ),
            r.1 == self@.contains_key(key(agent_id@, resource@)),
    {
        let ghost k = key(agent_id@, resource@);
        let mut i: usize = 0;
        while i < self.rows.len()
            invariant
                self.wf(),
                i <= self.rows@.len(),
                k == key(agent_id@, resource@),
                forall|j: int| 0 <= j < i ==> key_lt(#[trigger] row_key(self.rows@[j]), k),
            decreases self.rows@.len() - i,
        {
            let row = &self.rows[i];
            let ghost rk = row_key(*row);
            let before: bool;
            let equal: bool;
            match relate(row.agent_id.as_str(), agent_id) {
                Relation::Before => {
                    before = true;
                    equal = false;
                    assert(key_lt(rk, k));
                },
                Relation::After => {
                    before = false;
                    equal = false;
                    assert(key_lt(k, rk));
                },
                Relation::Same => {
                    match relate(row.resource.as_str(), resource) {
                        Relation::Before => {
                            before = true;
                            equal = false;
                            assert(key_lt(rk, k));
                        },
                        Relation::After => {
                            before = false;
                            equal = false;
                            assert(key_lt(k, rk));
                        },
                        Relation::Same => {
                            before = false;
                            equal = true;
                            assert(rk == k);
                        },
                    }
                },
            }
            if equal {
                proof {
                    lemma_row_in_rules(self.rows@, i as int);
                }
                return (i, true);
            }
            if !before {
                proof {
                    assert forall|j: int| i <= j < self.rows@.len() implies key_lt(
                        k,
                        #[trigger] row_key(self.rows@[j]),
                    ) by {
                        if i < j {
                            lemma_key_lt_transitive(k, rk, row_key(self.rows@[j]));
                        }
                    }
                    lemma_key_absent(self.rows@, k, i as int);
                }
                return (i, false);
            }
            i += 1;
        }
        proof {
            lemma_key_absent(self.rows@, k, i as int);
        }
        (i, false)
    }

    /// The decision of the rule for exactly this agent and resource.
    fn find(&self, agent_id: &str, resource: &str) -> (r: Option<Decision>)
        requires
            self.wf(),
        ensures
            r == decided(self@, agent_id@, resource@),
    {
        let (i, found) = self.position(agent_id, resource);
        if found {
            proof {
                lemma_row_in_rules(self.rows@, i as int);
            }
            Some(self.rows[i].decision)
        } else {
            None
        }
    }

    /// Waterfall lookup: the first matching decision, or `Ask` for the local
    /// agent and `Deny` for any other when no rule matches.
    pub fn check(&self, agent_id: &AgentId, resource: &str) -> (r: Decision)
        requires
            self.wf(),
        ensures
            r == effective(self@, *agent_id, resource@),
    {
        let exact = agent_id.as_str();
        let class = agent_id.class();
        match self.find(exact.as_str(), resource) {
            Some(d) => return d,
            None => {},
        }
        match self.find(exact.as_str(), "*") {
            Some(d) => return d,
            None => {},
        }
        match self.find(class.as_str(), resource) {
            Some(d) => return d,
            None => {},
        }
        match self.find(class.as_str(), "*") {
            Some(d) => return d,
            None => {},
        }
        if agent_id.is_local() {
            Decision::Ask
        } else {
            Decision::Deny
        }
    }

    /// Puts a row in, in place of the one with its key if there is one.
    fn put(&mut self, row: PermissionRecord)
        requires
            old(self).wf(),
        ensures
            final(self).wf(),
            final(self)@ == old(self)@.insert(row_key(row), row_rule(row)),
    {
        let ghost before = self.rows@;
        let ghost k = row_key(row);
        let (i, found) = self.position(row.agent_id.as_str(), row.resource.as_str());
        if found {
            self.rows.set(i, row);
            proof {
                assert forall|a: int, b: int| 0 <= a < b < self.rows@.len() implies key_lt(
                    #[trigger] row_key(self.rows@[a]),
                    #[trigger] row_key(self.rows@[b]),
                ) by {
                    assert(row_key(self.rows@[a]) == row_key(before[a]));
                    assert(row_key(self.rows@[b]) == row_key(before[b]));
                }
                lemma_rules_after_replace(before, self.rows@, i as int, row);
            }
        } else {
            self.rows.insert(i, row);
            proof {
                assert forall|a: int, b: int| 0 <= a < b < self.rows@.len() implies key_lt(
                    #[trigger] row_key(self.rows@[a]),
                    #[trigger] row_key(self.rows@[b]),
                ) by {
                    let pa = if a < i { a } else { a - 1 };
                    let pb = if b < i { b } else { b - 1 };
                    if a != i && b != i {
                        assert(row_key(self.rows@[a]) == row_key(before[pa]));
                        assert(row_key(self.rows@[b]) == row_key(before[pb]));
                    } else if a == i {
                        assert(row_key(self.rows@[b]) == row_key(before[pb]));
                    } else {
                        assert(row_key(self.rows@[a]) == row_key(before[pa]));
                    }
                }
                lemma_rules_after_insert(before, self.rows@, i as int, row);
            }
        }
    }

    /// Sets the rule for `agent_id` and `resource`, granted at `now` (seconds
    /// since the epoch), in place of any earlier one.
    pub fn set(&mut self, agent_id: &str, resource: &str, decision: Decision, now: i64)
        requires
            old(self).wf(),
        ensures
            final(self).wf(),
            final(self)@ == old(self)@.insert(
                key(agent_id@, resource@),
                (Rule { decision, granted_at: Some(now) }),
            ),
    {
        self.put(
            PermissionRecord {
                agent_id: agent_id.to_owned(),
                resource: resource.to_owned(),
                decision,
                granted_at: Some(now),
            },
        );
    }

    /// The store that holds `rows`; of rows with one key the last one counts.
    pub fn from_rows(rows: &Vec<PermissionRecord>) -> (r: PermissionStore)
        ensures
            r.wf(),
            r@ == loaded(rows@),
    {
        let mut store = PermissionStore::new();
        let mut i: usize = 0;
        assert(rows@.take(0) =~= Seq::empty());
        while i < rows.len()
            invariant
                i <= rows@.len(),
                store.wf(),
                store@ == loaded(rows@.take(i as int)),
            decreases rows@.len() - i,
        {
            assert(rows@.take(i + 1).drop_last() =~= rows@.take(i as int));
            store.put(rows[i].clone());
            i += 1;
        }
        assert(rows@.take(i as int) =~= rows@);
        store
    }

    /// Removes the rule for exactly this agent and resource, if there is one.
    pub fn remove(&mut self, agent_id: &str, resource: &str)
        requires
            old(self).wf(),
        ensures
            final(self).wf(),
            final(self)@ == old(self)@.remove(key(agent_id@, resource@)),
    {
        let ghost before = self.rows@;
        let ghost k = key(agent_id@, resource@);
        let (i, found) = self.position(agent_id, resource);
        if found {
            let _gone = self.rows.remove(i);
            proof {
                let after = self.rows@;
                assert forall|a: int, b: int| 0 <= a < b < after.len() implies key_lt(
                    #[trigger] row_key(after[a]),
                    #[trigger] row_key(after[b]),
                ) by {
                    let pa = if a < i { a } else { a + 1 };
                    let pb = if b < i { b } else { b + 1 };
                    assert(row_key(after[a]) == row_key(before[pa]));
                    assert(row_key(after[b]) == row_key(before[pb]));
                }
                lemma_rules_after_remove(before, after, i as int);
            }
        } else {
            assert(self@ =~= old(self)@.remove(k));
        }
    }

    /// All rules, by agent and then by resource.
    pub fn list(&self) -> (r: Vec<PermissionRecord>)
        requires
            self.wf(),
        ensures
            r@ == self.listed(),
            in_order(r@),
            rules_of(r@) == self@,
    {
        let mut out: Vec<PermissionRecord> = Vec::new();
        let mut i: usize = 0;
        while i < self.rows.len()
            invariant
                i <= self.rows@.len(),
                out@ =~= self.rows@.take(i as int),
            decreases self.rows@.len() - i,
        {
            out.push(self.rows[i].clone());
            i += 1;
        }
        assert(out@ =~= self.rows@);
        out
    }

    /// Allows the local agent everything, unless a rule for (`local`, `*`) is
    /// there already.
    pub fn seed_local_allow_default(&mut self, now: i64)
        requires
            old(self).wf(),
        ensures
            final(self).wf(),
            final(self)@ == seeded(old(self)@, "local"@, Decision::Allow, now),
    {
        if self.find("local", "*").is_none() {
            self.set("local", "*", Decision::Allow, now);
        }
    }

    /// Denies every P2P caller everything, unless a rule for (`p2p:*`, `*`)
    /// is there already.
    pub fn seed_p2p_deny_default(&mut self, now: i64)
        requires
            old(self).wf(),
        ensures
            final(self).wf(),
            final(self)@ == seeded(old(self)@, "p2p:*"@, Decision::Deny, now),
    {
        if self.find("p2p:*", "*").is_none() {
            self.set("p2p:*", "*", Decision::Deny, now);
        }
    }

    /// The number of particular P2P peers that have at least one allow rule.
    pub fn count_allowed_peers(&self) -> (r: usize)
        requires
            self.wf(),
        ensures
            exists|peers: Set<Seq<char>>| #[trigger]
                peers.finite() && peers.len() == r && forall|a: Seq<char>|
                    peers.contains(a) <==> allowed_peer(self@, a),
    {
        let mut seen: Vec<String> = Vec::new();
        let ghost mut peers: Set<Seq<char>> = Set::empty();
        let mut i: usize = 0;
        while i < self.rows.len()
            invariant
                self.wf(),
                i <= self.rows@.len(),
                peers.finite(),
                peers.len() == seen@.len(),
                seen@.len() <= i,
                forall|a: Seq<char>| peers.contains(a) <==> exists|j: int| 0 <= j < seen@.len() && (#[trigger] seen@[j])@ == a,
                forall|a: Seq<char>| peers.contains(a) <==> exists|j: int|
                    0 <= j < i && counts_for(#[trigger] self.rows@[j], a),
            decreases self.rows@.len() - i,
        {
            let row = &self.rows[i];
            let counted = matches!(row.decision, Decision::Allow) && is_p2p_name(row.agent_id.as_str()) && !same(
                row.agent_id.as_str(),
                "p2p:*",
            );
            assert(counted <==> counts_for(*row, row.agent_id@));
            if counted {
                let mut known = false;
                let mut j: usize = 0;
                while j < seen.len()
                    invariant
                        j <= seen@.len(),
                        known <==> exists|k: int| 0 <= k < j && (#[trigger] seen@[k])@ == row.agent_id@,
                    decreases seen@.len() - j,
                {
                    if same(seen[j].as_str(), row.agent_id.as_str()) {
                        known = true;
                    }
                    j += 1;
                }
                if !known {
                    let ghost was = seen@;
                    seen.push(row.agent_id.clone());
                    proof {
                        let name = row.agent_id@;
                        assert(!peers.contains(name));
                        assert forall|a: Seq<char>| peers.insert(name).contains(a) <==> exists|j: int|
                            0 <= j < seen@.len() && (#[trigger] seen@[j])@ == a by {
                            if a == name {
                                assert(seen@[was.len() as int]@ == a);
                            } else {
                                if peers.contains(a) {
                                    let j = choose|j: int| 0 <= j < was.len() && (#[trigger] was[j])@ == a;
                                    assert(seen@[j]@ == a);
                                }
                                if exists|j: int| 0 <= j < seen@.len() && (#[trigger] seen@[j])@ == a {
                                    let j = choose|j: int| 0 <= j < seen@.len() && (#[trigger] seen@[j])@ == a;
                                    assert(was[j]@ == a);
                                }
                            }
                        }
                        peers = peers.insert(name);
                    }
                }
            }
            proof {
                assert forall|a: Seq<char>| peers.contains(a) <==> exists|j: int|
                    0 <= j < i + 1 && counts_for(#[trigger] self.rows@[j], a) by {
                    if counts_for(self.rows@[i as int], a) {
                        assert(a == row.agent_id@);
                    }
                }
            }
            i += 1;
        }
        proof {
            assert forall|a: Seq<char>| peers.contains(a) <==> allowed_peer(self@, a) by {
                if peers.contains(a) {
                    let j = choose|j: int| 0 <= j < i && counts_for(#[trigger] self.rows@[j], a);
                    lemma_row_in_rules(self.rows@, j);
                    assert(decided(self@, a, self.rows@[j].resource@) == Some(Decision::Allow));
                }
                if allowed_peer(self@, a) {
                    let t = choose|t: Seq<char>| #[trigger] decided(self@, a, t) == Some(Decision::Allow);
                    let j = choose|j: int| row_has(self.rows@, key(a, t), j);
                    lemma_row_in_rules(self.rows@, j);
                    assert(counts_for(self.rows@[j], a));
                }
            }
            assert(peers.finite());
        }
        seen.len()
    }

    /// Whether a resource should be published to the network: some P2P agent,
    /// the class wildcard or a particular peer, has an allow for it.  A rule for
    /// exactly the resource beats the same agent's rule for everything.
    pub fn is_network_exposed(&self, resource: &str) -> (r: bool)
        requires
            self.wf(),
        ensures
            r == exposed(self@, resource@),
    {
        let mut i: usize = 0;
        while i < self.rows.len()
            invariant
                self.wf(),
                i <= self.rows@.len(),
                forall|j: int| 0 <= j < i ==> !exposes(self@, (#[trigger] self.rows@[j]).agent_id@, resource@),
            decreases self.rows@.len() - i,
        {
            let agent = &self.rows[i].agent_id;
            if is_p2p_name(agent.as_str()) {
                let exact = self.find(agent.as_str(), resource);
                let any = self.find(agent.as_str(), "*");
                let exact_allow = matches!(exact, Some(Decision::Allow));
                let any_allow = matches!(any, Some(Decision::Allow));
                if exact_allow || (exact.is_none() && any_allow) {
                    assert(exposes(self@, agent@, resource@));
                    return true;
                }
            }
            i += 1;
        }
        proof {
            assert forall|a: Seq<char>| !exposes(self@, a, resource@) by {
                if exposes(self@, a, resource@) {
                    let t = if decided(self@, a, resource@) == Some(Decision::Allow) { resource@ } else { "*"@ };
                    let j = choose|j: int| row_has(self.rows@, key(a, t), j);
                    assert(row_has(self.rows@, key(a, t), j));
                    assert(!exposes(self@, self.rows@[j].agent_id@, resource@));
                }
            }
        }
        false
    }
}

/// The row makes `agent` a peer that counts as allowed.
spec fn counts_for(row: PermissionRecord, agent: Seq<char>) -> bool {
    row.agent_id@ == agent && row.decision is Allow && like_p2p(agent) && agent != "p2p:*"@
}

/// The rules that loading rows one after the other gives.
pub open spec fn loaded(rows: Seq<PermissionRecord>) -> Map<RuleKey, Rule>
    decreases rows.len(),
{
    if rows.len() == 0 {
        Map::empty()
    } else {
        loaded(rows.drop_last()).insert(row_key(rows.last()), row_rule(rows.last()))
    }
}

/// The rules with a rule for (`agent`, `*`) added, unless there is one.
pub open spec fn seeded(m: Map<RuleKey, Rule>, agent: Seq<char>, decision: Decision, now: i64) -> Map<RuleKey, Rule> {
    if m.contains_key(key(agent, "*"@)) {
        m
    } else {
        m.insert(key(agent, "*"@), Rule { decision, granted_at: Some(now) })
    }
}

/// Whether `agent` matches `p2p:%`.
fn is_p2p_name(agent: &str) -> (r: bool)
    ensures
        r == like_p2p(agent@),
{
    let c = chars_of(agent);
    c.len() >= 4 && (c[0] == 'p' || c[0] == 'P') && c[1] == '2' && (c[2] == 'p' || c[2] == 'P') && c[3] == ':'
}

proof fn lemma_key_absent(rows: Seq<PermissionRecord>, k: RuleKey, i: int)
    requires
        0 <= i <= rows.len(),
        forall|j: int| 0 <= j < i ==> key_lt(#[trigger] row_key(rows[j]), k),
        forall|j: int| i <= j < rows.len() ==> key_lt(k, #[trigger] row_key(rows[j])),
    ensures
        !rules_of(rows).contains_key(k),
{
    if exists|j: int| row_has(rows, k, j) {
        let j = choose|j: int| row_has(rows, k, j);
        lemma_key_lt_irreflexive(k);
        assert(row_key(rows[j]) == k);
    }
}

proof fn lemma_rules_after_replace(before: Seq<PermissionRecord>, after: Seq<PermissionRecord>, i: int, row: PermissionRecord)
    requires
        in_order(before),
        in_order(after),
        0 <= i < before.len(),
        after == before.update(i, row),
        row_key(row) == row_key(before[i]),
    ensures
        rules_of(after) == rules_of(before).insert(row_key(row), row_rule(row)),
{
    let k = row_key(row);
    assert forall|x: RuleKey| rules_of(after).contains_key(x) == rules_of(before).insert(k, row_rule(row)).contains_key(x) by {
        if rules_of(after).contains_key(x) {
            let j = choose|j: int| row_has(after, x, j);
            assert(row_has(before, x, j));
        }
        if rules_of(before).contains_key(x) {
            let j = choose|j: int| row_has(before, x, j);
            assert(row_has(after, x, j));
        }
        lemma_row_in_rules(after, i);
    }
    assert forall|x: RuleKey| rules_of(after).contains_key(x) implies rules_of(after)[x] == rules_of(before).insert(k, row_rule(row))[x] by {
        let j = choose|j: int| row_has(after, x, j);
        lemma_row_in_rules(after, j);
        if x != k {
            lemma_row_in_rules(before, j);
        }
    }
    assert(rules_of(after) =~= rules_of(before).insert(k, row_rule(row)));
}

proof fn lemma_rules_after_insert(before: Seq<PermissionRecord>, after: Seq<PermissionRecord>, i: int, row: PermissionRecord)
    requires
        in_order(before),
        in_order(after),
        0 <= i <= before.len(),
        after == before.insert(i, row),
    ensures
        rules_of(after) == rules_of(before).insert(row_key(row), row_rule(row)),
{
    let k = row_key(row);
    lemma_row_in_rules(after, i);
    assert forall|x: RuleKey| rules_of(after).contains_key(x) == rules_of(before).insert(k, row_rule(row)).contains_key(x) by {
        if rules_of(after).contains_key(x) && x != k {
            let j = choose|j: int| row_has(after, x, j);
            let p = if j < i { j } else { j - 1 };
            assert(row_has(before, x, p));
        }
        if rules_of(before).contains_key(x) {
            let j = choose|j: int| row_has(before, x, j);
            let p = if j < i { j } else { j + 1 };
            assert(row_has(after, x, p));
        }
    }
    assert forall|x: RuleKey| rules_of(after).contains_key(x) implies rules_of(after)[x] == rules_of(before).insert(k, row_rule(row))[x] by {
        let j = choose|j: int| row_has(after, x, j);
        lemma_row_in_rules(after, j);
        if x != k {
            let p = if j < i { j } else { j - 1 };
            lemma_row_in_rules(before, p);
        }
    }
    assert(rules_of(after) =~= rules_of(before).insert(k, row_rule(row)));
}

proof fn lemma_rules_after_remove(before: Seq<PermissionRecord>, after: Seq<PermissionRecord>, i: int)
    requires
        in_order(before),
        in_order(after),
        0 <= i < before.len(),
        after == before.remove(i),
    ensures
        rules_of(after) == rules_of(before).remove(row_key(before[i])),
{
    let k = row_key(before[i]);
    lemma_key_lt_irreflexive(k);
    assert forall|x: RuleKey| rules_of(after).contains_key(x) == rules_of(before).remove(k).contains_key(x) by {
        if rules_of(after).contains_key(x) {
            let j = choose|j: int| row_has(after, x, j);
            let p = if j < i { j } else { j + 1 };
            assert(row_has(before, x, p));
            if p < i {
                assert(key_lt(row_key(before[p]), row_key(before[i])));
            } else {
                assert(key_lt(row_key(before[i]), row_key(before[p])));
            }
        }
        if rules_of(before).remove(k).contains_key(x) {
            let j = choose|j: int| row_has(before, x, j);
            let p = if j < i { j } else { j - 1 };
            assert(row_has(after, x, p));
        }
    }
    assert forall|x: RuleKey| rules_of(after).contains_key(x) implies rules_of(after)[x] == rules_of(before).remove(k)[x] by {
        let j = choose|j: int| row_has(after, x, j);
        lemma_row_in_rules(after, j);
        let p = if j < i { j } else { j + 1 };
        lemma_row_in_rules(before, p);
    }
    assert(rules_of(after) =~= rules_of(before).remove(k));
}

// ---------------------------------------------------------------------------
// Consolidation
// ---------------------------------------------------------------------------

/// The class wildcard of a particular agent: `p2p:abc` → `p2p:*`.
pub open spec fn class_of(agent: Seq<char>) -> Option<Seq<char>> {
    if "p2p:"@.is_prefix_of(agent) && agent != "p2p:*"@ {
        Some("p2p:*"@)
    } else if "tailscale:"@.is_prefix_of(agent) && agent != "tailscale:*"@ {
        Some("tailscale:*"@)
    } else {
        None
    }
}

/// Rules for all agents of a class and for the local agent.
pub open spec fn broad_agent(agent: Seq<char>) -> bool {
    class_of(agent) is None && (":*"@.is_suffix_of(agent) || agent == "local"@)
}

/// The decision for a particular agent and resource if there were no rule for
/// exactly this pair.
pub open spec fn next_broader(m: Map<RuleKey, Rule>, agent: Seq<char>, class: Seq<char>, resource: Seq<char>) -> Option<
    Decision,
> {
    or_else(decided(m, agent, "*"@), or_else(decided(m, class, resource), decided(m, class, "*"@)))
}

/// The rule for a particular agent and resource says what the next broader
/// rule says.
pub open spec fn shadowed(m: Map<RuleKey, Rule>, agent: Seq<char>, resource: Seq<char>) -> bool {
    &&& resource != "*"@
    &&& class_of(agent) is Some
    &&& decided(m, agent, resource) is Some
    &&& next_broader(m, agent, class_of(agent)->0, resource) == decided(m, agent, resource)
}

/// A rule for the particular agent and resource that stays.
pub open spec fn shielded(m: Map<RuleKey, Rule>, agent: Seq<char>, resource: Seq<char>) -> bool {
    decided(m, agent, resource) is Some && !shadowed(m, agent, resource)
}

/// The class's rule for `resource` says what the agent's own rule for
/// everything says, or a rule that stays keeps it from the agent.
pub open spec fn covered(m: Map<RuleKey, Rule>, agent: Seq<char>, resource: Seq<char>) -> bool {
    let class = class_of(agent)->0;
    resource != "*"@ && decided(m, class, resource) is Some ==> shielded(m, agent, resource) || decided(
        m,
        class,
        resource,
    ) == decided(m, agent, "*"@)
}

/// The agent's rule for everything adds nothing to the rules of its class.
pub open spec fn dominated(m: Map<RuleKey, Rule>, agent: Seq<char>) -> bool {
    &&& class_of(agent) is Some
    &&& decided(m, agent, "*"@) is Some
    &&& decided(m, class_of(agent)->0, "*"@) == decided(m, agent, "*"@)
    &&& forall|resource: Seq<char>| #[trigger] covered(m, agent, resource)
}

/// The class's or the local agent's rule for `resource` says what its rule
/// for everything says.
pub open spec fn implied(m: Map<RuleKey, Rule>, agent: Seq<char>, resource: Seq<char>) -> bool {
    &&& resource != "*"@
    &&& broad_agent(agent)
    &&& decided(m, agent, resource) is Some
    &&& decided(m, agent, "*"@) == decided(m, agent, resource)
}

/// The rule with this key can go.
pub open spec fn redundant(m: Map<RuleKey, Rule>, k: RuleKey) -> bool {
    ||| shadowed(m, k.agent, k.resource)
    ||| k.resource == "*"@ && dominated(m, k.agent)
    ||| implied(m, k.agent, k.resource)
}

#[verifier::opaque]
spec fn goes(m: Map<RuleKey, Rule>, k: RuleKey) -> bool {
    redundant(m, k)
}

/// `kept` is the rows of `before` at the rising positions `from`, all below
/// `end`.
spec fn kept_from(before: Seq<PermissionRecord>, kept: Seq<PermissionRecord>, from: Seq<int>, end: int) -> bool {
    &&& kept.len() == from.len()
    &&& forall|p: int| 0 <= p < from.len() ==> 0 <= #[trigger] from[p] < end && kept[p] == before[from[p]]
    &&& forall|p: int, q: int| 0 <= p < q < from.len() ==> #[trigger] from[p] < #[trigger] from[q]
}

proof fn lemma_kept_rules(before: Seq<PermissionRecord>, kept: Seq<PermissionRecord>, from: Seq<int>, m: Map<RuleKey, Rule>)
    requires
        in_order(before),
        m == rules_of(before),
        kept_from(before, kept, from, before.len() as int),
        forall|p: int| 0 <= p < from.len() ==> !goes(m, row_key(before[#[trigger] from[p]])),
        forall|j: int| 0 <= j < before.len() && !goes(m, row_key(#[trigger] before[j])) ==> from.contains(j),
    ensures
        in_order(kept),
        rules_of(kept) == consolidated(m),
{
    assert forall|a: int, b: int| 0 <= a < b < kept.len() implies key_lt(
        #[trigger] row_key(kept[a]),
        #[trigger] row_key(kept[b]),
    ) by {
        assert(from[a] < from[b]);
        assert(key_lt(row_key(before[from[a]]), row_key(before[from[b]])));
    }
    let after = rules_of(kept);
    assert forall|k: RuleKey| consolidated(m).contains_key(k) <==> (m.contains_key(k) && !goes(m, k)) by {
        reveal(goes);
    }
    assert forall|k: RuleKey| after.contains_key(k) == consolidated(m).contains_key(k) by {
        if after.contains_key(k) {
            let p = choose|p: int| row_has(kept, k, p);
            assert(row_has(before, k, from[p]));
        }
        if consolidated(m).contains_key(k) {
            let j = choose|j: int| row_has(before, k, j);
            assert(row_key(before[j]) == k);
            assert(from.contains(j));
            let p = choose|p: int| 0 <= p < from.len() && from[p] == j;
            assert(row_has(kept, k, p));
        }
    }
    assert forall|k: RuleKey| after.contains_key(k) implies after[k] == consolidated(m)[k] by {
        let p = choose|p: int| row_has(kept, k, p);
        lemma_row_in_rules(kept, p);
        lemma_row_in_rules(before, from[p]);
    }
    assert(after =~= consolidated(m));
}

/// The rules without the redundant ones.
pub open spec fn consolidated(m: Map<RuleKey, Rule>) -> Map<RuleKey, Rule> {
    m.restrict(Set::new(|k: RuleKey| !redundant(m, k)))
}

/// The class wildcard of a particular agent.
pub fn class_wildcard(agent: &str) -> (r: Option<&'static str>)
    ensures
        r is Some <==> class_of(agent@) is Some,
        r is Some ==> r->0@ == class_of(agent@)->0,
{
    if starts_with(agent, "p2p:") && !same(agent, "p2p:*") {
        Some("p2p:*")
    } else if starts_with(agent, "tailscale:") && !same(agent, "tailscale:*") {
        Some("tailscale:*")
    } else {
        None
    }
}

/// The first of two that is there.
fn first_of(a: Option<Decision>, b: Option<Decision>) -> (r: Option<Decision>)
    ensures
        r == or_else(a, b),
{
    match a {
        Some(_) => a,
        None => b,
    }
}

/// Whether two optional decisions are the same.
fn same_decision(a: Option<Decision>, b: Option<Decision>) -> (r: bool)
    ensures
        r == (a == b),
{
    match (a, b) {
        (Some(x), Some(y)) => x == y,
        (None, None) => true,
        _ => false,
    }
}

impl PermissionStore {
    /// Whether the rule for this particular agent and resource is shadowed.
    fn is_shadowed(&self, agent: &str, resource: &str) -> (r: bool)
        requires
            self.wf(),
        ensures
            r == shadowed(self@, agent@, resource@),
    {
        if same(resource, "*") {
            return false;
        }
        match class_wildcard(agent) {
            None => false,
            Some(class) => {
                let own = self.find(agent, resource);
                let next = first_of(
                    self.find(agent, "*"),
                    first_of(self.find(class, resource), self.find(class, "*")),
                );
                own.is_some() && same_decision(next, own)
            },
        }
    }

    /// Whether the agent's rule for everything is dominated by its class.
    fn is_dominated(&self, agent: &str) -> (r: bool)
        requires
            self.wf(),
        ensures
            r == dominated(self@, agent@),
    {
        match class_wildcard(agent) {
            None => false,
            Some(class) => {
                let own = self.find(agent, "*");
                if own.is_none() || !same_decision(self.find(class, "*"), own) {
                    return false;
                }
                let mut i: usize = 0;
                while i < self.rows.len()
                    invariant
                        self.wf(),
                        i <= self.rows@.len(),
                        class_of(agent@) == Some(class@),
                        own == decided(self@, agent@, "*"@),
                        own is Some,
                        forall|j: int|
                            0 <= j < i && (#[trigger] self.rows@[j]).agent_id@ == class@ ==> covered(
                                self@,
                                agent@,
                                self.rows@[j].resource@,
                            ),
                    decreases self.rows@.len() - i,
                {
                    let row = &self.rows[i];
                    proof {
                        lemma_row_in_rules(self.rows@, i as int);
                    }
                    if same(row.agent_id.as_str(), class) && !same(row.resource.as_str(), "*") {
                        let shield = self.find(agent, row.resource.as_str()).is_some() && !self.is_shadowed(
                            agent,
                            row.resource.as_str(),
                        );
                        if !shield && !same_decision(Some(row.decision), own) {
                            assert(!covered(self@, agent@, row.resource@));
                            return false;
                        }
                    }
                    i += 1;
                }
                proof {
                    assert forall|t: Seq<char>| #[trigger] covered(self@, agent@, t) by {
                        if decided(self@, class@, t) is Some {
                            let j = choose|j: int| row_has(self.rows@, key(class@, t), j);
                            assert(row_has(self.rows@, key(class@, t), j));
                            assert(self.rows@[j].agent_id@ == class@);
                        }
                    }
                }
                true
            },
        }
    }

    /// Whether the class's or the local agent's rule for `resource` is implied
    /// by its rule for everything.
    fn is_implied(&self, agent: &str, resource: &str) -> (r: bool)
        requires
            self.wf(),
        ensures
            r == implied(self@, agent@, resource@),
    {
        if same(resource, "*") || class_wildcard(agent).is_some() {
            return false;
        }
        if !ends_with(agent, ":*") && !same(agent, "local") {
            return false;
        }
        let own = self.find(agent, resource);
        own.is_some() && same_decision(self.find(agent, "*"), own)
    }

    /// Whether the rule in row `i` is redundant.
    fn is_redundant(&self, i: usize) -> (r: bool)
        requires
            self.wf(),
            i < self.rows@.len(),
        ensures
            r == goes(self@, row_key(self.rows@[i as int])),
    {
        reveal(goes);
        let agent = self.rows[i].agent_id.as_str();
        let resource = self.rows[i].resource.as_str();
        self.is_shadowed(agent, resource) || (same(resource, "*") && self.is_dominated(agent)) || self.is_implied(
            agent,
            resource,
        )
    }

    /// Removes redundant rules and returns how many they were.
    ///
    /// The levels of the waterfall, most specific first:
    ///   1. (exact agent, exact resource): redundant if the next broader match
    ///      has the same decision.
    ///   2. (exact agent, `*`): redundant if (class, `*`) has the same decision
    ///      and so has every rule (class, resource) that no remaining rule of
    ///      level 1 keeps from the agent.
    ///   3. (class or local, exact resource): redundant if (same agent, `*`)
    ///      has the same decision.
    ///   4. (class, `*`): never redundant.
    pub fn consolidate(&mut self) -> (r: usize)
        requires
            old(self).wf(),
        ensures
            final(self).wf(),
            final(self)@ == consolidated(old(self)@),
            final(self).count() + r == old(self).count(),
    {
        let mut kept: Vec<PermissionRecord> = Vec::new();
        let ghost mut from: Seq<int> = Seq::empty();
        let ghost m = self@;
        let ghost before = self.rows@;
        let mut i: usize = 0;
        while i < self.rows.len()
            invariant
                self.wf(),
                *self == *old(self),
                m == self@,
                before == self.rows@,
                i <= before.len(),
                kept@.len() <= i,
                kept_from(before, kept@, from, i as int),
                forall|p: int| 0 <= p < from.len() ==> !goes(m, row_key(before[#[trigger] from[p]])),
                forall|j: int| 0 <= j < i && !goes(m, row_key(#[trigger] before[j])) ==> from.contains(j),
            decreases before.len() - i,
        {
            let redundant = self.is_redundant(i);
            if !redundant {
                let ghost was = from;
                kept.push(self.rows[i].clone());
                proof {
                    from = from.push(i as int);
                    assert forall|j: int| 0 <= j < i + 1 && !goes(m, row_key(#[trigger] before[j])) implies from.contains(
                        j,
                    ) by {
                        if j == i {
                            assert(from[was.len() as int] == j);
                        } else {
                            assert(was.contains(j));
                            let p = choose|p: int| 0 <= p < was.len() && was[p] == j;
                            assert(from[p] == j);
                        }
                    }
                }
            }
            i += 1;
        }
        let removed: usize = self.rows.len() - kept.len();
        proof {
            lemma_kept_rules(before, kept@, from, m);
        }
        self.rows = kept;
        removed
    }
}

// ---------------------------------------------------------------------------
// Laws
// ---------------------------------------------------------------------------

proof fn lemma_class_names()
    ensures
        class_of("p2p:*"@) is None,
        class_of("tailscale:*"@) is None,
        class_of("local"@) is None,
        class_of(Seq::empty()) is None,
        broad_agent("p2p:*"@),
        broad_agent("tailscale:*"@),
        broad_agent("local"@),
        !broad_agent(Seq::empty()),
        "p2p:*"@ != "tailscale:*"@,
        "p2p:*"@.len() == 5,
        "tailscale:*"@.len() == 11,
        "p2p:"@.len() == 4,
        "tailscale:"@.len() == 10,
{
    reveal_strlit("p2p:*");
    reveal_strlit("p2p:");
    reveal_strlit("tailscale:*");
    reveal_strlit("tailscale:");
    reveal_strlit("local");
    reveal_strlit(":*");
    assert("p2p:"@.len() == 4 && "tailscale:"@.len() == 10 && ":*"@.len() == 2 && "local"@.len() == 5);
    assert("p2p:*"@.len() == 5 && "tailscale:*"@.len() == 11);
    assert("p2p:"@[0] == 'p' && "tailscale:"@[0] == 't' && "local"@[0] == 'l');
    assert("p2p:*"@[0] == 'p' && "tailscale:*"@[0] == 't');
    assert(!"p2p:"@.is_prefix_of("tailscale:*"@));
    assert(!"tailscale:"@.is_prefix_of("p2p:*"@));
    assert(!"p2p:"@.is_prefix_of("local"@));
    assert(!"tailscale:"@.is_prefix_of("local"@));
    assert(":*"@ =~= "p2p:*"@.subrange(3, 5));
    assert(":*"@ =~= "tailscale:*"@.subrange(9, 11));
    assert(":*"@.is_suffix_of("p2p:*"@));
    assert(":*"@.is_suffix_of("tailscale:*"@));
}

/// The class of an agent's name is the agent's class, unless the name is the
/// class wildcard itself or the agent is local.
proof fn lemma_agent_class(agent: AgentId)
    ensures
        agent is Local ==> class_of(agent_name(agent)) is None,
        !(agent is Local) ==> agent_name(agent) == agent_class(agent) || class_of(agent_name(agent)) == Some(
            agent_class(agent),
        ),
        class_of(agent_class(agent)) is None,
        agent is Local <==> !broad_agent(agent_class(agent)),
{
    lemma_class_names();
    reveal_strlit("p2p:");
    reveal_strlit("tailscale:");
    let name = agent_name(agent);
    match agent {
        AgentId::Local => {},
        AgentId::P2p(k) => {
            assert(name.subrange(0, 4) =~= "p2p:"@);
            assert("p2p:"@.is_prefix_of(name));
        },
        AgentId::Tailscale(n) => {
            assert(name.subrange(0, 10) =~= "tailscale:"@);
            assert("tailscale:"@.is_prefix_of(name));
            assert("p2p:"@[0] == 'p' && "tailscale:"@[0] == 't' && name[0] == "tailscale:"@[0]);
            assert(!"p2p:"@.is_prefix_of(name));
        },
    }
}

/// Consolidation changes no decision: every agent gets the same answer for
/// every resource as before.
pub proof fn law_consolidation_preserves_decisions(m: Map<RuleKey, Rule>, agent: AgentId, resource: Seq<char>)
    ensures
        effective(consolidated(m), agent, resource) == effective(m, agent, resource),
{
    lemma_class_names();
    lemma_agent_class(agent);
    let c = consolidated(m);
    let a = agent_name(agent);
    let w = agent_class(agent);
    let star = "*"@;
    assert forall|x: Seq<char>, t: Seq<char>| #[trigger] decided(c, x, t) == (if redundant(m, key(x, t)) {
        None
    } else {
        decided(m, x, t)
    }) by {}
    if !(agent is Local) && a != w {
        assert(class_of(a) == Some(w));
        if dominated(m, a) {
            assert(covered(m, a, resource));
        }
    }
}

/// Some rule of a particular agent for a resource says what the rule of its
/// class says, only the agent's own rule for everything stands between them,
/// and that rule is itself dominated.
pub open spec fn freed(m: Map<RuleKey, Rule>, agent: Seq<char>, resource: Seq<char>) -> bool {
    &&& resource != "*"@
    &&& dominated(m, agent)
    &&& shielded(m, agent, resource)
    &&& decided(m, class_of(agent)->0, resource) == decided(m, agent, resource)
}

/// A second consolidation finds nothing to remove, unless (and only unless)
/// the first one removed a rule (agent, `*`) from between a rule (agent,
/// resource) and an equal rule (class, resource).
pub proof fn law_consolidation_is_idempotent(m: Map<RuleKey, Rule>)
    ensures
        consolidated(consolidated(m)) == consolidated(m) <==> forall|agent: Seq<char>, resource: Seq<char>|
            !freed(m, agent, resource),
{
    if exists|agent: Seq<char>, resource: Seq<char>| freed(m, agent, resource) {
        let (a, t) = choose|agent: Seq<char>, resource: Seq<char>| freed(m, agent, resource);
        lemma_freed_goes(m, a, t);
    } else {
        lemma_nothing_freed(m);
    }
}

proof fn lemma_freed_goes(m: Map<RuleKey, Rule>, a: Seq<char>, t: Seq<char>)
    requires
        freed(m, a, t),
    ensures
        consolidated(consolidated(m)) != consolidated(m),
{
    lemma_class_names();
    let c = consolidated(m);
    let w = class_of(a)->0;
    assert forall|x: Seq<char>, t: Seq<char>| #[trigger] decided(c, x, t) == (if redundant(m, key(x, t)) {
        None
    } else {
        decided(m, x, t)
    }) by {}
    assert(decided(c, a, "*"@) is None);
    assert(decided(c, w, t) == decided(m, w, t));
    assert(decided(c, a, t) == decided(m, a, t));
    assert(redundant(c, key(a, t)));
    assert(c.contains_key(key(a, t)));
    assert(!consolidated(c).contains_key(key(a, t)));
}

proof fn lemma_nothing_freed(m: Map<RuleKey, Rule>)
    requires
        forall|agent: Seq<char>, resource: Seq<char>| !freed(m, agent, resource),
    ensures
        consolidated(consolidated(m)) == consolidated(m),
{
    lemma_class_names();
    let c = consolidated(m);
    assert forall|x: Seq<char>, t: Seq<char>| #[trigger] decided(c, x, t) == (if redundant(m, key(x, t)) {
        None
    } else {
        decided(m, x, t)
    }) by {}
    assert forall|k: RuleKey| #[trigger] c.contains_key(k) implies !redundant(c, k) by {
        let a = k.agent;
        let t = k.resource;
        assert(key(a, t) == k);
        assert(decided(c, a, t) == decided(m, a, t));
        if class_of(a) is Some {
            let w = class_of(a)->0;
            assert(class_of(w) is None && broad_agent(w));
            assert(decided(c, w, "*"@) == decided(m, w, "*"@));
            if t != "*"@ {
                assert(!freed(m, a, t));
                if dominated(m, a) {
                    assert(covered(m, a, t));
                }
            } else if dominated(c, a) {
                assert(exists|r: Seq<char>| !covered(m, a, r));
                let r = choose|r: Seq<char>| !covered(m, a, r);
                assert(covered(c, a, r));
                assert(decided(c, w, r) == decided(m, w, r));
                assert(decided(c, a, r) is None);
            }
        } else {
            assert(decided(c, a, "*"@) == decided(m, a, "*"@));
        }
    }
    assert(consolidated(c) =~= c);
}

/// Consolidation changes nothing of what is published.
pub proof fn law_consolidation_and_exposure(m: Map<RuleKey, Rule>, resource: Seq<char>)
    ensures
        exposed(consolidated(m), resource) == exposed(m, resource),
{
    lemma_class_names();
    let c = consolidated(m);
    assert forall|x: Seq<char>, t: Seq<char>| #[trigger] decided(c, x, t) == (if redundant(m, key(x, t)) {
        None
    } else {
        decided(m, x, t)
    }) by {}
    if exposed(c, resource) {
        let a = choose|a: Seq<char>| exposes(c, a, resource);
        assert(exposes(m, a, resource));
    }
    if exposed(m, resource) {
        let a = choose|a: Seq<char>| exposes(m, a, resource);
        if class_of(a) is Some {
            let w = class_of(a)->0;
            lemma_like_p2p_class(a);
            if dominated(m, a) {
                assert(covered(m, a, resource));
            }
            assert(exposes(c, a, resource) || exposes(c, w, resource));
        } else {
            assert(exposes(c, a, resource));
        }
    }
}

proof fn lemma_like_p2p_class(agent: Seq<char>)
    requires
        like_p2p(agent),
        class_of(agent) is Some,
    ensures
        like_p2p(class_of(agent)->0),
{
    reveal_strlit("p2p:*");
    reveal_strlit("tailscale:");
    assert("p2p:*"@.len() == 5 && "p2p:*"@[0] == 'p' && "p2p:*"@[1] == '2' && "p2p:*"@[2] == 'p' && "p2p:*"@[3] == ':');
    assert("tailscale:"@.len() == 10 && "tailscale:"@[0] == 't');
    assert(!"tailscale:"@.is_prefix_of(agent)) by {
        if "tailscale:"@.is_prefix_of(agent) {
            assert(agent.subrange(0, 10)[0] == 't');
        }
    }
}

/// What is set for an agent and a resource is what the check answers.
pub proof fn law_set_then_check(m: Map<RuleKey, Rule>, agent: AgentId, resource: Seq<char>, rule: Rule)
    ensures
        effective(m.insert(key(agent_name(agent), resource), rule), agent, resource) == rule.decision,
{
}

/// A rule for one agent and resource leaves every other agent's decisions and
/// every other resource's decisions alone, where neither is a wildcard.
pub proof fn law_set_is_local(m: Map<RuleKey, Rule>, agent: Seq<char>, resource: Seq<char>, rule: Rule, other: AgentId, asked: Seq<char>)
    requires
        agent_name(other) != agent && agent_class(other) != agent || asked != resource && resource != "*"@,
    ensures
        effective(m.insert(key(agent, resource), rule), other, asked) == effective(m, other, asked),
        effective(m.remove(key(agent, resource)), other, asked) == effective(m, other, asked),
{
}

/// Without a rule that could match, the local agent is asked and every remote
/// agent is denied.
pub proof fn law_no_match_fails_closed(m: Map<RuleKey, Rule>, agent: AgentId, resource: Seq<char>)
    requires
        matched(m, agent_name(agent), agent_class(agent), resource) is None,
    ensures
        effective(m, agent, resource) == (if agent is Local { Decision::Ask } else { Decision::Deny }),
{
}

/// On a fresh store with the defaults seeded, the local agent may do
/// everything and every P2P agent nothing.
pub proof fn law_fresh_store_is_closed(agent: AgentId, resource: Seq<char>, now: i64)
    ensures
        ({
            let m = seeded(seeded(Map::empty(), "local"@, Decision::Allow, now), "p2p:*"@, Decision::Deny, now);
            &&& effective(m, AgentId::Local, resource) == Decision::Allow
            &&& !(agent is Local) ==> effective(m, agent, resource) == Decision::Deny
            &&& !exposed(m, resource)
        }),
{
    lemma_class_names();
    reveal_strlit("local");
    assert("local"@.len() == 5 && "local"@[0] == 'l');
    let m = seeded(seeded(Map::empty(), "local"@, Decision::Allow, now), "p2p:*"@, Decision::Deny, now);
    reveal_strlit("p2p:*");
    assert("p2p:*"@[0] == 'p');
    lemma_agent_class(agent);
    lemma_agent_class(AgentId::Local);
    crate::identity::law_names_tell_agents_apart(AgentId::Local, AgentId::Local);
    if !(agent is Local) && agent_name(agent) == "local"@ {
        crate::identity::law_names_tell_agents_apart(agent, AgentId::Local);
    }
    if exposed(m, resource) {
        let a = choose|a: Seq<char>| exposes(m, a, resource);
        assert(a != "local"@);
    }
}

/// Seeding twice is seeding once, and a seed never changes a rule that is
/// there.
pub proof fn law_seeding_is_idempotent(m: Map<RuleKey, Rule>, agent: Seq<char>, decision: Decision, now: i64, later: i64, k: RuleKey)
    ensures
        seeded(seeded(m, agent, decision, now), agent, decision, later) == seeded(m, agent, decision, now),
        m.contains_key(k) ==> seeded(m, agent, decision, now).contains_key(k) && seeded(m, agent, decision, now)[k] == m[k],
{
}

/// The first rule that matches decides, the most specific first: the agent's
/// own for the resource, its own for everything, that of all peers for the
/// resource, that of all peers for everything; without any a peer is denied.
pub proof fn law_most_specific_rule_decides(m: Map<RuleKey, Rule>, peer: String, resource: Seq<char>)
    ensures
        ({
            let own = RuleKey { agent: "p2p:"@ + peer@, resource };
            let own_any = RuleKey { agent: "p2p:"@ + peer@, resource: "*"@ };
            let class = RuleKey { agent: "p2p:*"@, resource };
            let class_any = RuleKey { agent: "p2p:*"@, resource: "*"@ };
            let d = effective(m, AgentId::P2p(peer), resource);
            &&& m.contains_key(own) ==> d == m[own].decision
            &&& !m.contains_key(own) && m.contains_key(own_any) ==> d == m[own_any].decision
            &&& !m.contains_key(own) && !m.contains_key(own_any) && m.contains_key(class) ==> d == m[class].decision
            &&& !m.contains_key(own) && !m.contains_key(own_any) && !m.contains_key(class) && m.contains_key(class_any)
                ==> d == m[class_any].decision
            &&& !m.contains_key(own) && !m.contains_key(own_any) && !m.contains_key(class) && !m.contains_key(class_any)
                ==> d is Deny
        }),
{
}

/// The same holds of a Tailscale node, with its own names.
pub proof fn law_most_specific_rule_decides_for_nodes(m: Map<RuleKey, Rule>, node: String, resource: Seq<char>)
    ensures
        ({
            let own = RuleKey { agent: "tailscale:"@ + node@, resource };
            let own_any = RuleKey { agent: "tailscale:"@ + node@, resource: "*"@ };
            let class = RuleKey { agent: "tailscale:*"@, resource };
            let class_any = RuleKey { agent: "tailscale:*"@, resource: "*"@ };
            let d = effective(m, AgentId::Tailscale(node), resource);
            &&& m.contains_key(own) ==> d == m[own].decision
            &&& !m.contains_key(own) && m.contains_key(own_any) ==> d == m[own_any].decision
            &&& !m.contains_key(own) && !m.contains_key(own_any) && m.contains_key(class) ==> d == m[class].decision
            &&& !m.contains_key(own) && !m.contains_key(own_any) && !m.contains_key(class) && m.contains_key(class_any)
                ==> d == m[class_any].decision
            &&& !m.contains_key(own) && !m.contains_key(own_any) && !m.contains_key(class) && !m.contains_key(class_any)
                ==> d is Deny
        }),
{
}

/// The local agent has its own rules: for the resource, then for everything;
/// without either it is asked.
pub proof fn law_local_rules_decide(m: Map<RuleKey, Rule>, resource: Seq<char>)
    requires
        forall|k: RuleKey| #[trigger] m.contains_key(k) ==> k.agent.len() > 0,
    ensures
        ({
            let own = RuleKey { agent: "local"@, resource };
            let own_any = RuleKey { agent: "local"@, resource: "*"@ };
            let d = effective(m, AgentId::Local, resource);
            &&& m.contains_key(own) ==> d == m[own].decision
            &&& !m.contains_key(own) && m.contains_key(own_any) ==> d == m[own_any].decision
            &&& !m.contains_key(own) && !m.contains_key(own_any) ==> d is Ask
        }),
{
    assert(!m.contains_key(key(Seq::empty(), resource)));
    assert(!m.contains_key(key(Seq::empty(), "*"@)));
}

/// What some peer may call counts as exposed, so that it is announced.
pub proof fn law_callable_is_exposed(m: Map<RuleKey, Rule>, peer: String, resource: Seq<char>)
    requires
        effective(m, AgentId::P2p(peer), resource) is Allow,
    ensures
        exposed(m, resource),
{
    reveal_strlit("p2p:");
    reveal_strlit("p2p:*");
    let name = "p2p:"@ + peer@;
    assert(like_p2p(name));
    assert(like_p2p("p2p:*"@));
    assert(exposes(m, name, resource) || exposes(m, "p2p:*"@, resource));
}

/// What is exposed, some rule for a peer or for all peers allows, of the
/// resource or of everything.
pub proof fn law_exposed_is_allowed_by_a_rule(m: Map<RuleKey, Rule>, resource: Seq<char>)
    requires
        exposed(m, resource),
    ensures
        exists|k: RuleKey|
            #[trigger] m.contains_key(k) && m[k].decision is Allow && (k.resource == resource || k.resource == "*"@)
                && k.agent.len() >= 4 && k.agent[1] == '2' && k.agent[3] == ':',
{
    let a = choose|a: Seq<char>| exposes(m, a, resource);
    if decided(m, a, resource) == Some(Decision::Allow) {
        assert(m.contains_key(key(a, resource)));
    } else {
        assert(m.contains_key(key(a, "*"@)));
    }
}

/// A peer's rule that repeats what the next broader rule says is dropped; so
/// is a rule of all peers, or of the local agent, for one resource that repeats
/// the one for everything.
pub proof fn law_repeated_rules_are_dropped(m: Map<RuleKey, Rule>, peer: Seq<char>, resource: Seq<char>)
    requires
        resource != "*"@,
        peer != "*"@,
    ensures
        ({
            let own = RuleKey { agent: "p2p:"@ + peer, resource };
            let own_any = RuleKey { agent: "p2p:"@ + peer, resource: "*"@ };
            let class = RuleKey { agent: "p2p:*"@, resource };
            let class_any = RuleKey { agent: "p2p:*"@, resource: "*"@ };
            let local = RuleKey { agent: "local"@, resource };
            let local_any = RuleKey { agent: "local"@, resource: "*"@ };
            let c = consolidated(m);
            &&& m.contains_key(own) && m.contains_key(own_any) && m[own].decision == m[own_any].decision
                ==> !c.contains_key(own)
            &&& m.contains_key(own) && !m.contains_key(own_any) && m.contains_key(class) && m[own].decision
                == m[class].decision ==> !c.contains_key(own)
            &&& m.contains_key(own) && !m.contains_key(own_any) && !m.contains_key(class) && m.contains_key(class_any)
                && m[own].decision == m[class_any].decision ==> !c.contains_key(own)
            &&& m.contains_key(class) && m.contains_key(class_any) && m[class].decision == m[class_any].decision
                ==> !c.contains_key(class)
            &&& m.contains_key(local) && m.contains_key(local_any) && m[local].decision == m[local_any].decision
                ==> !c.contains_key(local)
            &&& m.contains_key(own) && m.contains_key(own_any) && m[own].decision != m[own_any].decision
                ==> c.contains_key(own) && c[own] == m[own]
        }),
{
    reveal_strlit("p2p:");
    reveal_strlit("p2p:*");
    reveal_strlit("tailscale:");
    reveal_strlit("tailscale:*");
    reveal_strlit("*");
    reveal_strlit(":*");
    reveal_strlit("local");
    let name = "p2p:"@ + peer;
    assert("p2p:"@ =~= name.subrange(0, 4));
    if name == "p2p:*"@ {
        assert(peer =~= name.skip(4));
        assert("p2p:*"@.skip(4) =~= "*"@);
    }
    assert(class_of(name) == Some("p2p:*"@));
    assert("p2p:*"@[0] == 'p' && "tailscale:"@[0] == 't' && "tailscale:*"@[0] == 't');
    if "tailscale:"@.is_prefix_of("p2p:*"@) {
        assert("tailscale:"@.len() == 10);
    }
    assert(class_of("p2p:*"@) is None);
    assert(":*"@ =~= "p2p:*"@.subrange(3, 5));
    assert("local"@[0] == 'l');
    if "p2p:"@.is_prefix_of("local"@) {
        assert("local"@.subrange(0, 4)[0] == 'l');
        assert("p2p:"@[0] == 'p');
    }
    if "tailscale:"@.is_prefix_of("local"@) {
        assert("tailscale:"@.len() == 10);
    }
    assert(class_of("local"@) is None);
    assert(broad_agent("p2p:*"@) && broad_agent("local"@));
    assert(!broad_agent(name));
}

/// A word for a decision means it, and any other word denies.
pub proof fn law_unknown_words_deny(s: Seq<char>)
    ensures
        decision_of_word("allow"@) is Allow,
        decision_of_word("deny"@) is Deny,
        decision_of_word("ask"@) is Ask,
        s != "allow"@ && s != "ask"@ ==> decision_of_word(s) is Deny,
{
    reveal_strlit("allow");
    reveal_strlit("deny");
    reveal_strlit("ask");
    assert("allow"@.len() == 5 && "deny"@.len() == 4 && "ask"@.len() == 3);
}

/// Of the rows of a database the last one for an agent and a resource decides,
/// and there is no rule without a row.
pub proof fn law_rows_become_rules(rows: Seq<PermissionRecord>, i: int, k: RuleKey)
    requires
        0 <= i < rows.len(),
        forall|j: int| i < j < rows.len() ==> #[trigger] row_key(rows[j]) != row_key(rows[i]),
    ensures
        loaded(rows).contains_key(key(rows[i].agent_id@, rows[i].resource@)),
        loaded(rows)[key(rows[i].agent_id@, rows[i].resource@)].decision == rows[i].decision,
        loaded(rows)[key(rows[i].agent_id@, rows[i].resource@)].granted_at == rows[i].granted_at,
        loaded(rows).contains_key(k) ==> exists|j: int|
            0 <= j < rows.len() && (#[trigger] rows[j]).agent_id@ == k.agent && rows[j].resource@ == k.resource,
    decreases rows.len(),
{
    let head = rows.drop_last();
    if i < rows.len() - 1 {
        assert(row_key(rows[rows.len() - 1]) != row_key(rows[i]));
        assert forall|j: int| i < j < head.len() implies #[trigger] row_key(head[j]) != row_key(head[i]) by {
            assert(head[j] == rows[j]);
        }
        law_rows_become_rules(head, i, k);
        assert(head[i] == rows[i]);
    }
    lemma_rules_have_rows(rows, k);
}

proof fn lemma_rules_have_rows(rows: Seq<PermissionRecord>, k: RuleKey)
    ensures
        loaded(rows).contains_key(k) ==> exists|j: int|
            0 <= j < rows.len() && (#[trigger] rows[j]).agent_id@ == k.agent && rows[j].resource@ == k.resource,
    decreases rows.len(),
{
    if rows.len() > 0 && loaded(rows).contains_key(k) {
        let last: int = rows.len() - 1;
        if row_key(rows[last]) == k {
            assert(rows[last].agent_id@ == k.agent);
        } else {
            let head = rows.drop_last();
            lemma_rules_have_rows(head, k);
            let j = choose|j: int|
                0 <= j < head.len() && (#[trigger] head[j]).agent_id@ == k.agent && head[j].resource@ == k.resource;
            assert(rows[j].agent_id@ == k.agent);
        }
    }
}

/// A listing, which has every rule once and in order, loads back as the rules
/// that it lists.
pub proof fn law_listings_load_back(rows: Seq<PermissionRecord>)
    requires
        in_order(rows),
    ensures
        loaded(rows) == rules_of(rows),
{
    let all = loaded(rows);
    let listed = rules_of(rows);
    assert forall|k: RuleKey| #[trigger] all.contains_key(k) == listed.contains_key(k) && (all.contains_key(k)
        ==> all[k] == listed[k]) by {
        lemma_rules_have_rows(rows, k);
        if all.contains_key(k) {
            let j = choose|j: int|
                0 <= j < rows.len() && (#[trigger] rows[j]).agent_id@ == k.agent && rows[j].resource@ == k.resource;
            assert(row_has(rows, k, j));
        }
        if listed.contains_key(k) {
            let i = choose|i: int| row_has(rows, k, i);
            assert forall|j: int| i < j < rows.len() implies #[trigger] row_key(rows[j]) != row_key(rows[i]) by {
                assert(key_lt(row_key(rows[i]), row_key(rows[j])));
                lemma_text_lt_irreflexive(row_key(rows[i]).agent);
                lemma_text_lt_irreflexive(row_key(rows[i]).resource);
            }
            law_rows_become_rules(rows, i, k);
        }
    }
    assert(all =~= listed);
}

/// A peer counts as allowed when one of its own rules allows something; the rule
/// for all peers makes no peer count.
pub proof fn law_peers_with_an_allow_rule_count(m: Map<RuleKey, Rule>, peer: Seq<char>, resource: Seq<char>)
    ensures
        peer != "*"@ && m.contains_key(key("p2p:"@ + peer, resource)) && m[key("p2p:"@ + peer, resource)].decision
            is Allow ==> allowed_peer(m, "p2p:"@ + peer),
        !allowed_peer(m, "p2p:*"@),
        (forall|r: Seq<char>| #[trigger]
            m.contains_key(key("p2p:"@ + peer, r)) ==> !(m[key("p2p:"@ + peer, r)].decision is Allow))
            ==> !allowed_peer(m, "p2p:"@ + peer),
{
    let agent = "p2p:"@ + peer;
    reveal_strlit("p2p:");
    reveal_strlit("p2p:*");
    reveal_strlit("*");
    assert("p2p:*"@ =~= "p2p:"@ + "*"@);
    if agent == "p2p:*"@ {
        assert(peer =~= agent.skip(4));
        assert("*"@ =~= "p2p:*"@.skip(4));
    }
    if m.contains_key(key(agent, resource)) && m[key(agent, resource)].decision is Allow {
        assert(decided(m, agent, resource) == Some(Decision::Allow));
    }
    if forall|r: Seq<char>| #[trigger] m.contains_key(key(agent, r)) ==> !(m[key(agent, r)].decision is Allow) {
        assert forall|r: Seq<char>| #[trigger] decided(m, agent, r) != Some(Decision::Allow) by {
            assert(m.contains_key(key(agent, r)) ==> !(m[key(agent, r)].decision is Allow));
        }
    }
}

/// A rule exposes a tool to the network only if it is one for P2P peers: the
/// rules of local and Tailscale agents expose nothing.
pub proof fn law_only_peer_rules_expose(m: Map<RuleKey, Rule>, agent: Seq<char>, name: Seq<char>, resource: Seq<char>)
    ensures
        !exposes(m, "local"@, resource),
        !exposes(m, "tailscale:"@ + name, resource),
        exposes(m, agent, resource) ==> agent.len() >= 4 && agent[1] == '2' && agent[3] == ':' && (agent[0] == 'p'
            || agent[0] == 'P') && (agent[2] == 'p' || agent[2] == 'P'),
        m.contains_key(key("p2p:"@ + name, resource)) && m[key("p2p:"@ + name, resource)].decision is Allow ==> exposes(
            m,
            "p2p:"@ + name,
            resource,
        ),
{
    reveal_strlit("local");
    reveal_strlit("tailscale:");
    reveal_strlit("p2p:");
    assert(("tailscale:"@ + name)[0] == 't');
    assert("local"@[0] == 'l');
    let peer = "p2p:"@ + name;
    assert(peer[0] == 'p' && peer[1] == '2' && peer[2] == 'p' && peer[3] == ':');
}

} // verus!
