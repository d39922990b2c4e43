//! The permission store: the waterfall, exposure and consolidation.
use clawshake::identity::AgentId;
use clawshake::permissions::{class_wildcard, Decision, PermissionRecord, PermissionStore};

const NOW: i64 = 1_700_000_000;

#[test]
fn waterfall_exact_agent_exact_tool() {
    let mut store = PermissionStore::new();
    store.set("local", "read_file", Decision::Allow, NOW);
    assert_eq!(
        store.check(&AgentId::Local, "read_file"),
        Decision::Allow
    );
}

#[test]
fn waterfall_exact_agent_wildcard_tool() {
    let mut store = PermissionStore::new();
    store.set("local", "*", Decision::Allow, NOW);
    assert_eq!(
        store.check(&AgentId::Local, "any_tool"),
        Decision::Allow
    );
}

#[test]
fn waterfall_wildcard_agent_exact_tool() {
    let mut store = PermissionStore::new();
    store.set("p2p:*", "read_file", Decision::Allow, NOW);
    assert_eq!(
        store
            .check(&AgentId::P2p("12D3KooWxxxx".into()), "read_file"),
        Decision::Allow
    );
}

#[test]
fn waterfall_wildcard_agent_wildcard_tool() {
    let mut store = PermissionStore::new();
    store.set("p2p:*", "*", Decision::Deny, NOW);
    assert_eq!(
        store
            .check(&AgentId::P2p("12D3KooWxxxx".into()), "any_tool"),
        Decision::Deny
    );
}

#[test]
fn waterfall_specificity_order() {
    let mut store = PermissionStore::new();
    // Blanket allow for all p2p tools.
    store.set("p2p:*", "*", Decision::Allow, NOW);
    // Specific deny for network_call overrides the blanket allow.
    store.set("p2p:*", "network_call", Decision::Deny, NOW);

    let peer = AgentId::P2p("12D3KooWxxxx".into());
    assert_eq!(
        store.check(&peer, "network_call"),
        Decision::Deny,
        "exact tool rule must beat wildcard tool rule"
    );
    assert_eq!(
        store.check(&peer, "read_file"),
        Decision::Allow,
        "wildcard still applies for tools without a specific rule"
    );
}

#[test]
fn waterfall_exact_agent_beats_wildcard_agent() {
    let mut store = PermissionStore::new();
    let peer_id = "12D3KooWspecific";
    let exact_agent = format!("p2p:{peer_id}");

    // Blanket deny for all p2p agents.
    store.set("p2p:*", "*", Decision::Deny, NOW);
    // Specific allow for just this one peer.
    store.set(&exact_agent, "*", Decision::Allow, NOW);

    assert_eq!(
        store.check(&AgentId::P2p(peer_id.into()), "any_tool"),
        Decision::Allow,
        "exact agent rule must beat wildcard agent rule"
    );
    assert_eq!(
        store
            .check(&AgentId::P2p("12D3KooWother".into()), "any_tool"),
        Decision::Deny,
        "wildcard deny must still apply to other peers"
    );
}

#[test]
fn waterfall_no_match_local_defaults_to_ask() {
    let mut store = PermissionStore::new();
    assert_eq!(store.check(&AgentId::Local, "foo"), Decision::Ask);
}

#[test]
fn waterfall_no_match_p2p_defaults_to_deny() {
    let mut store = PermissionStore::new();
    assert_eq!(
        store.check(&AgentId::P2p("x".into()), "foo"),
        Decision::Deny
    );
}

#[test]
fn waterfall_no_match_tailscale_defaults_to_deny() {
    let mut store = PermissionStore::new();
    assert_eq!(
        store.check(&AgentId::Tailscale("node".into()), "foo"),
        Decision::Deny
    );
}

#[test]
fn unknown_decision_string_defaults_to_deny() {
    // A row as the database holds it, with a decision nobody knows.
    let row = PermissionRecord {
        agent_id: "local".into(),
        resource: "badtool".into(),
        decision: Decision::from_db("invalid"),
        granted_at: None,
    };
    let store = PermissionStore::from_rows(&vec![row]);
    assert_eq!(
        store.check(&AgentId::Local, "badtool"),
        Decision::Deny,
        "unrecognised decision strings must fail-closed to Deny"
    );
}

#[test]
fn set_and_remove() {
    let mut store = PermissionStore::new();
    store.set("local", "foo", Decision::Allow, NOW);
    assert_eq!(store.check(&AgentId::Local, "foo"), Decision::Allow);
    store.remove("local", "foo");
    // Local default is Ask when no rule exists.
    assert_eq!(store.check(&AgentId::Local, "foo"), Decision::Ask);
}

#[test]
fn remove_p2p_rule_falls_back_to_deny() {
    let mut store = PermissionStore::new();
    let peer = AgentId::P2p("somepeer".into());
    store.set("p2p:*", "foo", Decision::Allow, NOW);
    assert_eq!(store.check(&peer, "foo"), Decision::Allow);
    store.remove("p2p:*", "foo");
    assert_eq!(
        store.check(&peer, "foo"),
        Decision::Deny,
        "P2P default after removal must be Deny, not Ask"
    );
}

#[test]
fn set_replaces_existing() {
    let mut store = PermissionStore::new();
    store.set("local", "foo", Decision::Allow, NOW);
    store.set("local", "foo", Decision::Deny, NOW);
    assert_eq!(store.check(&AgentId::Local, "foo"), Decision::Deny);
}

#[test]
fn list_returns_all_rows() {
    let mut store = PermissionStore::new();
    store.set("local", "alpha", Decision::Allow, NOW);
    store.set("local", "beta", Decision::Deny, NOW);
    store.set("p2p:*", "*", Decision::Deny, NOW);
    let rows = store.list();
    assert_eq!(rows.len(), 3);
    assert_eq!(rows[0].agent_id, "local");
    assert_eq!(rows[0].resource, "alpha");
    assert_eq!(rows[1].agent_id, "local");
    assert_eq!(rows[1].resource, "beta");
    assert_eq!(rows[2].agent_id, "p2p:*");
    assert_eq!(rows[2].resource, "*");
}

#[test]
fn seed_p2p_deny_default() {
    let mut store = PermissionStore::new();
    store.seed_p2p_deny_default(NOW);
    assert_eq!(
        store
            .check(&AgentId::P2p("anypeer".into()), "anything"),
        Decision::Deny
    );
    // Second call must not error (INSERT OR IGNORE).
    store.seed_p2p_deny_default(NOW);
}

#[test]
fn is_network_exposed_empty_db_returns_false() {
    let mut store = PermissionStore::new();
    assert!(
        !store.is_network_exposed("read_file"),
        "empty permission DB must not expose any tool to the network"
    );
}

#[test]
fn is_network_exposed_reflects_p2p_wildcard_rules() {
    let mut store = PermissionStore::new();
    store.set("p2p:*", "*", Decision::Allow, NOW);
    assert!(store.is_network_exposed("read_file"));

    store.set("p2p:*", "network_call", Decision::Deny, NOW);
    assert!(!store.is_network_exposed("network_call"));
    assert!(store.is_network_exposed("read_file"));
}

#[test]
fn is_network_exposed_specific_peer_wildcard_allow() {
    let mut store = PermissionStore::new();
    store.set("p2p:*", "*", Decision::Deny, NOW);
    store.set("p2p:12D3KooWxxxx", "*", Decision::Allow, NOW);
    assert!(store.is_network_exposed("read_file"));
    assert!(store.is_network_exposed("write_file"));
}

#[test]
fn is_network_exposed_specific_peer_exact_allow() {
    let mut store = PermissionStore::new();
    store.set("p2p:*", "*", Decision::Deny, NOW);
    store.set("p2p:12D3KooWxxxx", "read_file", Decision::Allow, NOW);
    assert!(store.is_network_exposed("read_file"));
    assert!(!store.is_network_exposed("write_file"));
}

#[test]
fn is_network_exposed_specific_peer_exact_deny_overrides_wildcard() {
    let mut store = PermissionStore::new();
    store.set("p2p:*", "*", Decision::Deny, NOW);
    store.set("p2p:12D3KooWxxxx", "*", Decision::Allow, NOW);
    store.set("p2p:12D3KooWxxxx", "network_call", Decision::Deny, NOW);
    assert!(!store.is_network_exposed("network_call"));
    assert!(store.is_network_exposed("read_file"));
}

#[test]
fn decision_display_roundtrip() {
    assert_eq!(Decision::Allow.to_string(), "allow");
    assert_eq!(Decision::Deny.to_string(), "deny");
    assert_eq!(Decision::Ask.to_string(), "ask");

    assert_eq!(Decision::from_db("allow"), Decision::Allow);
    assert_eq!(Decision::from_db("deny"), Decision::Deny);
    assert_eq!(Decision::from_db("ask"), Decision::Ask);
    assert_eq!(Decision::from_db("unknown"), Decision::Deny);
}

#[test]
fn count_allowed_peers_excludes_wildcards_and_local() {
    let mut store = PermissionStore::new();
    // p2p wildcard and local should not be counted.
    store.set("p2p:*", "*", Decision::Allow, NOW);
    store.set("local", "foo", Decision::Allow, NOW);
    assert_eq!(store.count_allowed_peers(), 0);

    // Specific peers with allow rules should be counted.
    store.set("p2p:12D3KooWaaaa", "read_file", Decision::Allow, NOW);
    store.set("p2p:12D3KooWbbbb", "*", Decision::Allow, NOW);
    assert_eq!(store.count_allowed_peers(), 2);

    // A peer with only deny rules should not be counted.
    store.set("p2p:12D3KooWcccc", "read_file", Decision::Deny, NOW);
    assert_eq!(store.count_allowed_peers(), 2);

    // Multiple allow rules for the same peer count as one.
    store.set("p2p:12D3KooWaaaa", "write_file", Decision::Allow, NOW);
    assert_eq!(store.count_allowed_peers(), 2);
}

// -----------------------------------------------------------------------
// Consolidation tests
// -----------------------------------------------------------------------

#[test]
fn consolidate_empty_store() {
    let mut store = PermissionStore::new();
    assert_eq!(store.consolidate(), 0);
}

#[test]
fn consolidate_no_redundancy() {
    let mut store = PermissionStore::new();
    store.set("p2p:*", "*", Decision::Deny, NOW);
    store.set("p2p:peer1", "read_file", Decision::Allow, NOW);
    assert_eq!(store.consolidate(), 0);
    assert_eq!(store.list().len(), 2);
}

#[test]
fn consolidate_specific_shadowed_by_agent_wildcard_tool() {
    let mut store = PermissionStore::new();
    store.set("p2p:peer1", "*", Decision::Allow, NOW);
    store.set("p2p:peer1", "read_file", Decision::Allow, NOW);
    assert_eq!(store.consolidate(), 1);
    let rules = store.list();
    assert_eq!(rules.len(), 1);
    assert_eq!(rules[0].resource, "*");
}

#[test]
fn consolidate_specific_shadowed_by_class_wildcard() {
    let mut store = PermissionStore::new();
    store.set("p2p:*", "*", Decision::Deny, NOW);
    store.set("p2p:peer1", "read_file", Decision::Deny, NOW);
    assert_eq!(store.consolidate(), 1);
    let rules = store.list();
    assert_eq!(rules.len(), 1);
    assert_eq!(rules[0].agent_id, "p2p:*");
}

#[test]
fn consolidate_keeps_different_decision() {
    let mut store = PermissionStore::new();
    store.set("p2p:*", "*", Decision::Deny, NOW);
    store.set("p2p:peer1", "read_file", Decision::Allow, NOW);
    assert_eq!(store.consolidate(), 0);
    assert_eq!(store.list().len(), 2);
}

#[test]
fn consolidate_preserves_system_default_baseline() {
    let mut store = PermissionStore::new();
    // deny p2p:* * matches the system default for P2P, but since
    // there's no other explicit rule covering it, it should be kept.
    store.set("p2p:*", "*", Decision::Deny, NOW);
    assert_eq!(store.consolidate(), 0);
    assert_eq!(store.list().len(), 1);
}

#[test]
fn consolidate_cascading_removal() {
    let mut store = PermissionStore::new();
    // deny p2p:* * → deny p2p:* read_file → deny p2p:peer1 read_file
    // The most-specific is shadowed by the mid-level, which is shadowed
    // by the broadest.  Both should be removed in cascading passes.
    store.set("p2p:*", "*", Decision::Deny, NOW);
    store.set("p2p:*", "read_file", Decision::Deny, NOW);
    store.set("p2p:peer1", "read_file", Decision::Deny, NOW);
    assert_eq!(store.consolidate(), 2);
    let rules = store.list();
    assert_eq!(rules.len(), 1);
    assert_eq!(rules[0].agent_id, "p2p:*");
    assert_eq!(rules[0].resource, "*");
}

#[test]
fn consolidate_keeps_peer_wildcard_overriding_class_exception() {
    let mut store = PermissionStore::new();
    // allow p2p:* *
    // deny  p2p:* network_call
    // allow p2p:peer1 *          ← NOT redundant! Needed to override
    //                               the deny on network_call for peer1.
    store.set("p2p:*", "*", Decision::Allow, NOW);
    store.set("p2p:*", "network_call", Decision::Deny, NOW);
    store.set("p2p:peer1", "*", Decision::Allow, NOW);
    assert_eq!(store.consolidate(), 0);
    assert_eq!(store.list().len(), 3);
}

#[test]
fn consolidate_multiple_peers_mixed() {
    let mut store = PermissionStore::new();
    store.set("p2p:*", "*", Decision::Allow, NOW);
    // These are all shadowed by the class wildcard.
    store.set("p2p:peer1", "read_file", Decision::Allow, NOW);
    store.set("p2p:peer2", "write_file", Decision::Allow, NOW);
    store.set("p2p:peer2", "*", Decision::Allow, NOW);
    // This one is NOT shadowed — different decision.
    store.set("p2p:peer3", "shell", Decision::Deny, NOW);
    assert_eq!(store.consolidate(), 3);
    let rules = store.list();
    assert_eq!(rules.len(), 2);
    let names: Vec<&str> = rules.iter().map(|r| r.agent_id.as_str()).collect();
    assert!(names.contains(&"p2p:*"));
    assert!(names.contains(&"p2p:peer3"));
}

#[test]
fn consolidate_tailscale_class() {
    let mut store = PermissionStore::new();
    // Tailscale wildcard covers the specific rule.
    store.set("tailscale:*", "*", Decision::Allow, NOW);
    store.set("tailscale:node1", "read_file", Decision::Allow, NOW);
    assert_eq!(store.consolidate(), 1);
    let rules = store.list();
    assert_eq!(rules.len(), 1);
    assert_eq!(rules[0].agent_id, "tailscale:*");
}

#[test]
fn consolidate_local_agent() {
    let mut store = PermissionStore::new();
    // (local, read_file, allow) is redundant when (local, *, allow) exists.
    store.set("local", "*", Decision::Allow, NOW);
    store.set("local", "read_file", Decision::Allow, NOW);
    assert_eq!(store.consolidate(), 1);
    let rules = store.list();
    assert_eq!(rules.len(), 1);
    assert_eq!(rules[0].agent_id, "local");
    assert_eq!(rules[0].resource, "*");
}

#[test]
fn consolidate_local_keeps_different_decision() {
    let mut store = PermissionStore::new();
    store.set("local", "*", Decision::Allow, NOW);
    store.set("local", "shell", Decision::Ask, NOW);
    assert_eq!(store.consolidate(), 0);
    assert_eq!(store.list().len(), 2);
}

#[test]
fn consolidate_cross_class_isolation() {
    let mut store = PermissionStore::new();
    // p2p deny-all, tailscale allow-all.  Neither should affect the other.
    store.set("p2p:*", "*", Decision::Deny, NOW);
    store.set("tailscale:*", "*", Decision::Allow, NOW);
    // Redundant within its own class.
    store.set("p2p:peer1", "read_file", Decision::Deny, NOW);
    // NOT redundant — different decision from its class wildcard.
    store.set("tailscale:node1", "shell", Decision::Deny, NOW);
    assert_eq!(store.consolidate(), 1);
    let rules = store.list();
    assert_eq!(rules.len(), 3);
    // p2p:peer1/read_file removed; tailscale:node1/shell kept.
    assert!(rules
        .iter()
        .any(|r| r.agent_id == "tailscale:node1" && r.resource == "shell"));
}

#[test]
fn consolidate_orphan_l1_no_broader_levels() {
    let mut store = PermissionStore::new();
    // Single L1 rule with no L2/L3/L4.  Must be kept.
    store.set("p2p:peer1", "read_file", Decision::Allow, NOW);
    assert_eq!(store.consolidate(), 0);
    assert_eq!(store.list().len(), 1);
}

#[test]
fn consolidate_l1_falls_through_l2_to_l3() {
    let mut store = PermissionStore::new();
    // No L2 for peer1.  L1 matches L3 → redundant.
    store.set("p2p:*", "read_file", Decision::Deny, NOW);
    store.set("p2p:peer1", "read_file", Decision::Deny, NOW);
    assert_eq!(store.consolidate(), 1);
    let rules = store.list();
    assert_eq!(rules.len(), 1);
    assert_eq!(rules[0].agent_id, "p2p:*");
}

#[test]
fn consolidate_l2_kept_when_one_l3_disagrees() {
    let mut store = PermissionStore::new();
    // L4: allow p2p:* *
    // L3: allow p2p:* read_file   (agrees with L2)
    // L3: deny  p2p:* shell       (disagrees with L2!)
    // L2: allow p2p:peer1 *       ← must be kept
    store.set("p2p:*", "*", Decision::Allow, NOW);
    store.set("p2p:*", "read_file", Decision::Allow, NOW);
    store.set("p2p:*", "shell", Decision::Deny, NOW);
    store.set("p2p:peer1", "*", Decision::Allow, NOW);

    store.consolidate();

    // L2 must survive because 'shell' L3 disagrees.
    let peer1 = AgentId::P2p("peer1".into());
    assert_eq!(store.check(&peer1, "shell"), Decision::Allow);
    assert!(store
        .list()
        
        .iter()
        .any(|r| r.agent_id == "p2p:peer1" && r.resource == "*"));
}

#[test]
fn consolidate_is_idempotent() {
    let mut store = PermissionStore::new();
    store.set("p2p:*", "*", Decision::Deny, NOW);
    store.set("p2p:*", "read_file", Decision::Deny, NOW);
    store.set("p2p:peer1", "read_file", Decision::Deny, NOW);
    store.set("p2p:peer1", "*", Decision::Deny, NOW);

    let first = store.consolidate();
    assert!(first > 0);
    let second = store.consolidate();
    assert_eq!(second, 0, "second consolidation must be a no-op");
}

#[test]
fn consolidate_l1_shield_must_not_cause_l2_removal() {
    let mut store = PermissionStore::new();
    // L4: allow p2p:* *
    // L3: deny  p2p:* read_file
    // L2: allow p2p:peer1 *
    // L1: allow p2p:peer1 read_file
    //
    // Before: peer1/read_file → L1 allow.
    // L1 is redundant (L2 has same decision), but L2 must NOT be removed
    // because without L1 *and* L2, peer1/read_file falls to L3 (deny).
    store.set("p2p:*", "*", Decision::Allow, NOW);
    store.set("p2p:*", "read_file", Decision::Deny, NOW);
    store.set("p2p:peer1", "*", Decision::Allow, NOW);
    store.set("p2p:peer1", "read_file", Decision::Allow, NOW);

    store.consolidate();

    // After consolidation, peer1/read_file must still resolve to Allow.
    let peer1 = AgentId::P2p("peer1".into());
    assert_eq!(
        store.check(&peer1, "read_file"),
        Decision::Allow,
        "consolidation must not change effective decisions"
    );
}

#[test]
fn consolidate_l2_removed_when_surviving_l1_shields() {
    let mut store = PermissionStore::new();
    // L4: allow p2p:* *
    // L3: deny  p2p:* read_file
    // L2: allow p2p:peer1 *
    // L1: deny  p2p:peer1 read_file  ← kept (differs from L2)
    //
    // L1 survives because it overrides L2. With L1 still shielding
    // peer1/read_file, L2 is genuinely redundant — without it,
    // peer1/read_file → L1 (deny), peer1/other → L4 (allow).
    store.set("p2p:*", "*", Decision::Allow, NOW);
    store.set("p2p:*", "read_file", Decision::Deny, NOW);
    store.set("p2p:peer1", "*", Decision::Allow, NOW);
    store.set("p2p:peer1", "read_file", Decision::Deny, NOW);

    assert_eq!(
        store.consolidate(),
        1,
        "L2 should be removed"
    );
    let rules = store.list();
    assert_eq!(rules.len(), 3);

    // Verify effective decisions are preserved.
    let peer1 = AgentId::P2p("peer1".into());
    let other = AgentId::P2p("other".into());
    assert_eq!(store.check(&peer1, "read_file"), Decision::Deny);
    assert_eq!(store.check(&peer1, "other_tool"), Decision::Allow);
    assert_eq!(store.check(&other, "read_file"), Decision::Deny);
    assert_eq!(store.check(&other, "other_tool"), Decision::Allow);
}

// ---------------------------------------------------------------------------
// More of the waterfall
// ---------------------------------------------------------------------------

#[test]
fn set_then_check_follows_the_waterfall() {
    let mut store = PermissionStore::new();
    store.set("p2p:*", "shell", Decision::Allow, NOW);
    let peer = AgentId::P2p("abc".into());
    assert_eq!(store.check(&peer, "shell"), Decision::Allow);
    // An exact agent with a wildcard beats the class rule for the tool.
    store.set("p2p:abc", "*", Decision::Deny, NOW);
    assert_eq!(store.check(&peer, "shell"), Decision::Deny);
    assert_eq!(store.check(&AgentId::P2p("abd".into()), "shell"), Decision::Allow);
    // Another resource is untouched by a rule for one.
    assert_eq!(store.check(&AgentId::P2p("abd".into()), "read_file"), Decision::Deny);
}

#[test]
fn class_wildcards() {
    assert_eq!(class_wildcard("p2p:abc"), Some("p2p:*"));
    assert_eq!(class_wildcard("tailscale:abc"), Some("tailscale:*"));
    assert_eq!(class_wildcard("local"), None);
}

#[test]
fn seeding_keeps_what_is_there() {
    let mut store = PermissionStore::new();
    store.seed_local_allow_default(NOW);
    store.seed_p2p_deny_default(NOW);
    assert_eq!(store.check(&AgentId::Local, "anything"), Decision::Allow);
    store.set("p2p:*", "*", Decision::Allow, NOW);
    store.seed_p2p_deny_default(NOW);
    assert_eq!(store.check(&AgentId::P2p("x".into()), "anything"), Decision::Allow);
    assert_eq!(store.list().len(), 2);
}

#[test]
fn set_records_the_time() {
    let mut store = PermissionStore::new();
    store.set("local", "foo", Decision::Deny, NOW);
    let rows = store.list();
    assert_eq!(rows.len(), 1);
    assert_eq!(rows[0].granted_at, Some(NOW));
    assert_eq!(rows[0].decision, Decision::Deny);
}

#[test]
fn consolidation_preserves_decisions_on_a_freed_rule() {
    // One pass removes the exact denial of peer1, which shielded nothing, and
    // only a second pass could remove more: the decisions never change.
    let mut store = PermissionStore::new();
    store.set("p2p:*", "*", Decision::Allow, NOW);
    store.set("p2p:*", "read_file", Decision::Deny, NOW);
    store.set("p2p:peer1", "*", Decision::Allow, NOW);
    store.set("p2p:peer1", "read_file", Decision::Deny, NOW);
    let peer = AgentId::P2p("peer1".into());
    let other = AgentId::P2p("peer2".into());
    let before: Vec<Decision> = vec![
        store.check(&peer, "read_file"),
        store.check(&peer, "shell"),
        store.check(&other, "read_file"),
        store.check(&other, "shell"),
    ];
    store.consolidate();
    store.consolidate();
    let after: Vec<Decision> = vec![
        store.check(&peer, "read_file"),
        store.check(&peer, "shell"),
        store.check(&other, "read_file"),
        store.check(&other, "shell"),
    ];
    assert_eq!(before, after);
    assert_eq!(before, vec![Decision::Deny, Decision::Allow, Decision::Deny, Decision::Allow]);
}

#[test]
fn a_tool_to_be_asked_about_is_not_exposed() {
    let mut store = PermissionStore::new();
    store.set("p2p:*", "*", Decision::Allow, NOW);
    store.set("p2p:*", "read_file", Decision::Ask, NOW);
    assert!(!store.is_network_exposed("read_file"));
    assert!(store.is_network_exposed("write_file"));
}
