//! What the texts of a node say: numbers, words, addresses and hints.
use vstd::prelude::*;

use crate::addr::{
    addr_text, circuit_relay, first_circuit, has_circuit, ip4_text, part_text, public_addr, reachable_addr, unroutable,
    without_peers, PartView,
};
use crate::codemode::{ident_char, js_ident, param_hint, param_part, script_answer, ScriptEnd};
use crate::manifest::SchemaView;
use crate::text::{
    ascii_digit, decimal, digit, first_at, joined_by, lemma_first_at, lemma_joined_hold, lemma_occurs_between,
    lemma_placed, lemma_text_lt_asymmetric, less_at, occurs, occurs_at, placed, rising, signed_decimal, split_at, text_in, text_lt, trimmed, trimmed_end, trimmed_start, whitespace, words,
};

verus! {

// ---------------------------------------------------------------------------
// Numbers
// ---------------------------------------------------------------------------

/// The number that a row of decimal digits stands for.
pub open spec fn number_of(s: Seq<char>) -> int
    decreases s.len(),
{
    if s.len() == 0 {
        0
    } else {
        number_of(s.drop_last()) * 10 + (s.last() as int - '0' as int)
    }
}

/// A number is written in decimal digits, without a zero before it, and reads
/// back as it was.
pub proof fn law_numbers_read_back(n: nat)
    ensures
        number_of(decimal(n)) == n,
        decimal(n).len() > 0,
        forall|i: int| 0 <= i < decimal(n).len() ==> ascii_digit(#[trigger] decimal(n)[i]),
        n > 0 ==> decimal(n)[0] != '0',
        n == 0 ==> decimal(n) == seq!['0'],
    decreases n,
{
    if n < 10 {
        let s = decimal(n);
        assert(s.drop_last() =~= Seq::empty());
        assert(number_of(s.drop_last()) == 0);
        assert(s.last() == digit(n as int));
        assert(number_of(s) == digit(n as int) as int - '0' as int);
    } else {
        law_numbers_read_back(n / 10);
        let s = decimal(n);
        assert(s.drop_last() =~= decimal(n / 10));
        assert(s.last() == digit((n % 10) as int));
        assert(s[0] == decimal(n / 10)[0]);
        assert forall|i: int| 0 <= i < s.len() implies ascii_digit(#[trigger] s[i]) by {
            if i < s.len() - 1 {
                assert(s[i] == decimal(n / 10)[i]);
            }
        }
    }
}

/// Two numbers have two texts.
pub proof fn law_numbers_are_told_apart(a: nat, b: nat)
    requires
        decimal(a) == decimal(b),
    ensures
        a == b,
{
    law_numbers_read_back(a);
    law_numbers_read_back(b);
}

/// A negative number has a minus before its digits.
pub proof fn law_signed_numbers(n: nat)
    ensures
        signed_decimal(n as int) == decimal(n),
        n > 0 ==> signed_decimal(-(n as int)) == seq!['-'] + decimal(n),
{
}

// ---------------------------------------------------------------------------
// White space and separators
// ---------------------------------------------------------------------------

proof fn lemma_trimmed_start(pre: Seq<char>, s: Seq<char>)
    requires
        forall|i: int| 0 <= i < pre.len() ==> whitespace(#[trigger] pre[i]),
        s.len() > 0,
        !whitespace(s[0]),
    ensures
        trimmed_start(pre + s) == s,
    decreases pre.len(),
{
    let all = pre + s;
    if pre.len() == 0 {
        assert(all =~= s);
    } else {
        let rest = pre.skip(1);
        assert forall|i: int| 0 <= i < rest.len() implies whitespace(#[trigger] rest[i]) by {
            assert(rest[i] == pre[i + 1]);
        }
        lemma_trimmed_start(rest, s);
        assert(all[0] == pre[0]);
        assert(all.skip(1) =~= rest + s);
    }
}

proof fn lemma_trimmed_end(s: Seq<char>, post: Seq<char>)
    requires
        forall|i: int| 0 <= i < post.len() ==> whitespace(#[trigger] post[i]),
        s.len() > 0,
        !whitespace(s.last()),
    ensures
        trimmed_end(s + post) == s,
    decreases post.len(),
{
    let all = s + post;
    if post.len() == 0 {
        assert(all =~= s);
    } else {
        let rest = post.drop_last();
        assert forall|i: int| 0 <= i < rest.len() implies whitespace(#[trigger] rest[i]) by {
            assert(rest[i] == post[i]);
        }
        lemma_trimmed_end(s, rest);
        assert(all.last() == post.last());
        assert(all.drop_last() =~= s + rest);
    }
}

/// The white space around a text is cut off, and nothing else.
pub proof fn law_white_space_is_cut_off(pre: Seq<char>, s: Seq<char>, post: Seq<char>)
    requires
        forall|i: int| 0 <= i < pre.len() ==> whitespace(#[trigger] pre[i]),
        forall|i: int| 0 <= i < post.len() ==> whitespace(#[trigger] post[i]),
        s.len() > 0,
        !whitespace(s[0]),
        !whitespace(s.last()),
    ensures
        trimmed(pre + s + post) == s,
        trimmed_end(pre + s + post) == pre + s,
{
    assert(pre + s + post =~= pre + (s + post));
    assert((s + post)[0] == s[0]);
    lemma_trimmed_start(pre, s + post);
    lemma_trimmed_end(s, post);
    assert((pre + s).last() == s.last());
    lemma_trimmed_end(pre + s, post);
}

/// A text of white space alone has nothing left.
pub proof fn law_blank_texts_are_empty(s: Seq<char>)
    requires
        forall|i: int| 0 <= i < s.len() ==> whitespace(#[trigger] s[i]),
    ensures
        trimmed(s).len() == 0,
        trimmed_start(s).len() == 0,
    decreases s.len(),
{
    if s.len() > 0 {
        let rest = s.skip(1);
        assert forall|i: int| 0 <= i < rest.len() implies whitespace(#[trigger] rest[i]) by {
            assert(rest[i] == s[i + 1]);
        }
        law_blank_texts_are_empty(rest);
        assert(whitespace(s[0]));
    }
}

/// A word alone is the only word of itself.
pub proof fn law_a_word_is_one_word(w: Seq<char>)
    requires
        w.len() > 0,
        forall|i: int| 0 <= i < w.len() ==> !whitespace(#[trigger] w[i]),
    ensures
        words(w) == seq![w],
    decreases w.len(),
{
    let head = w.drop_last();
    assert(!whitespace(w[w.len() - 1]));
    if w.len() >= 2 {
        assert forall|i: int| 0 <= i < head.len() implies !whitespace(#[trigger] head[i]) by {
            assert(head[i] == w[i]);
        }
        law_a_word_is_one_word(head);
        assert(!whitespace(w[w.len() - 2]));
        let before = words(head);
        assert(before.drop_last() =~= Seq::empty());
        assert(before.last() == head);
        assert(head.push(w.last()) =~= w);
        assert(words(w) =~= seq![w]);
    } else {
        assert(words(head) =~= Seq::empty());
        assert(seq![w.last()] =~= w);
        assert(words(w) =~= seq![w]);
    }
}

/// A word behind white space is one more word, and the words before it stay.
pub proof fn law_words_are_parted_by_white_space(s: Seq<char>, space: char, w: Seq<char>)
    requires
        whitespace(space),
        w.len() > 0,
        forall|i: int| 0 <= i < w.len() ==> !whitespace(#[trigger] w[i]),
    ensures
        words(s.push(space)) == words(s),
        words(s.push(space) + w) == words(s).push(w),
    decreases w.len(),
{
    let spaced = s.push(space);
    assert(spaced.drop_last() =~= s);
    let all = spaced + w;
    let head = w.drop_last();
    assert(all.last() == w.last());
    assert(!whitespace(w[w.len() - 1]));
    assert(all.drop_last() =~= spaced + head);
    if w.len() >= 2 {
        assert forall|i: int| 0 <= i < head.len() implies !whitespace(#[trigger] head[i]) by {
            assert(head[i] == w[i]);
        }
        law_words_are_parted_by_white_space(s, space, head);
        assert(all[all.len() - 2] == w[w.len() - 2]);
        let before = words(spaced + head);
        assert(before.drop_last() =~= words(s));
        assert(before.last() == head);
        assert(head.push(w.last()) =~= w);
    } else {
        assert(spaced + head =~= spaced);
        assert(all[all.len() - 2] == space);
        assert(seq![w.last()] =~= w);
    }
}

/// The parts of a text, with the separator between them, are the text; and no
/// part holds the separator.
pub proof fn law_split_texts_join(s: Seq<char>, c: char)
    ensures
        split_at(s, c).len() > 0,
        joined_by(split_at(s, c), seq![c]) == s,
        forall|i: int| 0 <= i < split_at(s, c).len() ==> !(#[trigger] split_at(s, c)[i]).contains(c),
    decreases s.len(),
{
    let parts = split_at(s, c);
    let sep = seq![c];
    if s.len() == 0 {
        assert(joined_by(parts, sep) =~= s);
    } else {
        let head = s.drop_last();
        law_split_texts_join(head, c);
        let before = split_at(head, c);
        if s.last() == c {
            assert(parts.drop_last() =~= before);
            assert(parts.last() =~= Seq::empty());
            assert(joined_by(parts, sep) =~= joined_by(before, sep) + sep + Seq::empty());
            assert(head + sep =~= s);
        } else {
            let last = before.last().push(s.last());
            assert(parts.drop_last() =~= before.drop_last());
            assert(parts.last() == last);
            if before.len() == 1 {
                assert(joined_by(before, sep) == before[0]);
                assert(parts[0] == last);
                assert(head.push(s.last()) =~= s);
            } else {
                assert(joined_by(parts, sep) == joined_by(before.drop_last(), sep) + sep + last);
                assert(joined_by(before, sep) == joined_by(before.drop_last(), sep) + sep + before.last());
                assert(joined_by(parts, sep) =~= head.push(s.last()));
                assert(head.push(s.last()) =~= s);
            }
            assert forall|i: int| 0 <= i < parts.len() implies !(#[trigger] parts[i]).contains(c) by {
                if i < parts.len() - 1 {
                    assert(parts[i] == before[i]);
                } else {
                    assert(!before[before.len() - 1].contains(c));
                    if last.contains(c) {
                        let k = choose|k: int| 0 <= k < last.len() && last[k] == c;
                        assert(before.last()[k] == c);
                    }
                }
            }
        }
    }
}

// ---------------------------------------------------------------------------
// Addresses
// ---------------------------------------------------------------------------

/// An IPv4 address is written octet by octet, from the first.
pub proof fn law_octets_are_written(a: int, b: int, c: int, d: int)
    requires
        0 <= a < 256,
        0 <= b < 256,
        0 <= c < 256,
        0 <= d < 256,
    ensures
        ip4_text(a * 0x100_0000 + b * 0x1_0000 + c * 0x100 + d) == decimal(a as nat) + "."@ + decimal(b as nat) + "."@
            + decimal(c as nat) + "."@ + decimal(d as nat),
{
    let ip = a * 0x100_0000 + b * 0x1_0000 + c * 0x100 + d;
    assert(ip / 0x100_0000 == a);
    assert(ip / 0x1_0000 % 256 == b);
    assert(ip / 0x100 % 256 == c);
    assert(ip % 256 == d);
}

/// The text of an address is that of its first parts and then that of the
/// others, and each part is written under its own name.
pub proof fn law_addresses_are_written_in_order(a: Seq<PartView>, b: Seq<PartView>, name: Seq<char>)
    ensures
        addr_text(a + b) == addr_text(a) + addr_text(b),
        addr_text(a.push(PartView::P2p(name))) == addr_text(a) + "/p2p/"@ + name,
        addr_text(a.push(PartView::P2pCircuit)) == addr_text(a) + "/p2p-circuit"@,
        addr_text(a.push(PartView::Dns(name))) == addr_text(a) + "/dns/"@ + name,
        addr_text(a.push(PartView::Dns4(name))) == addr_text(a) + "/dns4/"@ + name,
        addr_text(a.push(PartView::Dns6(name))) == addr_text(a) + "/dns6/"@ + name,
        addr_text(a.push(PartView::Other(name))) == addr_text(a) + name,
    decreases b.len(),
{
    let parts = seq![
        PartView::P2p(name),
        PartView::P2pCircuit,
        PartView::Dns(name),
        PartView::Dns4(name),
        PartView::Dns6(name),
        PartView::Other(name),
    ];
    assert forall|i: int| 0 <= i < parts.len() implies addr_text(a.push(#[trigger] parts[i])) == addr_text(a)
        + part_text(parts[i]) by {
        assert(a.push(parts[i]).drop_last() =~= a);
    }
    assert(addr_text(a.push(parts[0])) =~= addr_text(a) + "/p2p/"@ + name);
    assert(addr_text(a.push(parts[1])) =~= addr_text(a) + "/p2p-circuit"@);
    assert(addr_text(a.push(parts[2])) =~= addr_text(a) + "/dns/"@ + name);
    assert(addr_text(a.push(parts[3])) =~= addr_text(a) + "/dns4/"@ + name);
    assert(addr_text(a.push(parts[4])) =~= addr_text(a) + "/dns6/"@ + name);
    assert(addr_text(a.push(parts[5])) =~= addr_text(a) + name);
    if b.len() == 0 {
        assert(a + b =~= a);
        assert(addr_text(a) + addr_text(b) =~= addr_text(a));
    } else {
        law_addresses_are_written_in_order(a, b.drop_last(), name);
        assert((a + b).drop_last() =~= a + b.drop_last());
        assert((a + b).last() == b.last());
        assert(addr_text(a) + (addr_text(b.drop_last()) + part_text(b.last())) =~= addr_text(a) + addr_text(
            b.drop_last(),
        ) + part_text(b.last()));
    }
}

/// Without its peers an address keeps every other part, in its order.
pub proof fn law_only_peers_are_taken_out(a: Seq<PartView>, p: PartView)
    ensures
        without_peers(Seq::empty()) == Seq::<PartView>::empty(),
        p is P2p ==> without_peers(a.push(p)) == without_peers(a),
        p !is P2p ==> without_peers(a.push(p)) == without_peers(a).push(p),
        forall|i: int| 0 <= i < without_peers(a).len() ==> !(#[trigger] without_peers(a)[i] is P2p),
    decreases a.len(),
{
    assert(a.push(p).drop_last() =~= a);
    if a.len() > 0 {
        law_only_peers_are_taken_out(a.drop_last(), p);
    }
}

proof fn lemma_first_circuit_at(a: Seq<PartView>, i: int)
    requires
        0 <= i < a.len(),
        a[i] is P2pCircuit,
        forall|k: int| 0 <= k < i ==> !(#[trigger] a[k] is P2pCircuit),
    ensures
        first_circuit(a) == i,
    decreases a.len(),
{
    if i > 0 {
        let rest = a.skip(1);
        assert(rest[i - 1] == a[i]);
        assert forall|k: int| 0 <= k < i - 1 implies !(#[trigger] rest[k] is P2pCircuit) by {
            assert(rest[k] == a[k + 1]);
        }
        assert(!(a[0] is P2pCircuit));
        lemma_first_circuit_at(rest, i - 1);
    }
}

/// The relay of a circuit is the peer before it.
pub proof fn law_circuits_name_their_relay(base: Seq<PartView>, relay: Seq<char>, rest: Seq<PartView>)
    requires
        !has_circuit(base),
    ensures
        circuit_relay(base.push(PartView::P2p(relay)).push(PartView::P2pCircuit) + rest) == Some(relay),
        circuit_relay(base) is None,
        has_circuit(base.push(PartView::P2p(relay)).push(PartView::P2pCircuit) + rest),
{
    let named = base.push(PartView::P2p(relay));
    let a = named.push(PartView::P2pCircuit) + rest;
    let i: int = named.len() as int;
    assert(a[i] is P2pCircuit);
    assert forall|k: int| 0 <= k < i implies !(#[trigger] a[k] is P2pCircuit) by {
        if k < base.len() {
            assert(a[k] == base[k]);
        }
    }
    lemma_first_circuit_at(a, i);
    assert(a.take(i) =~= named);
    assert(named.last() == PartView::P2p(relay));
}

/// A circuit is reachable but not public; an address with a part that leads
/// nowhere is not public; one whose only IP is routable, without a circuit, is.
pub proof fn law_public_addresses(a: Seq<PartView>, i: int)
    requires
        0 <= i < a.len(),
    ensures
        a[i] is P2pCircuit ==> reachable_addr(a) && !public_addr(a),
        unroutable(a[i]) ==> !public_addr(a),
        (a[i] is Ip4 || a[i] is Ip6) && (forall|k: int|
            0 <= k < a.len() ==> !(#[trigger] a[k] is P2pCircuit) && !unroutable(a[k])) ==> public_addr(a)
            && reachable_addr(a),
        (forall|k: int| 0 <= k < a.len() ==> !(#[trigger] a[k] is Ip4) && !(a[k] is Ip6)) ==> !public_addr(a),
        public_addr(a) ==> reachable_addr(a),
{
}

// ---------------------------------------------------------------------------
// Code mode
// ---------------------------------------------------------------------------

/// A hint names every parameter with its type, and marks those that may be
/// left out.
pub proof fn law_parameters_are_hinted(schema: SchemaView, i: int)
    requires
        0 <= i < schema.properties.len(),
    ensures
        ({
            let (name, property) = schema.properties[i];
            let kind = property.text_at("type"@);
            &&& schema.required.contains(name) && kind is Some ==> occurs(param_hint(schema), name + ": "@ + kind->0)
            &&& !schema.required.contains(name) && kind is Some ==> occurs(param_hint(schema), name + "?: "@ + kind->0)
            &&& schema.required.contains(name) && kind is None ==> occurs(param_hint(schema), name + ": "@ + "any"@)
            &&& !schema.required.contains(name) && kind is None ==> occurs(param_hint(schema), name + "?: "@ + "any"@)
        }),
{
    let parts = Seq::new(schema.properties.len(), |k: int| param_part(schema.properties[k], schema.required));
    lemma_joined_hold(parts, ", "@, i);
    assert(parts[i] == param_part(schema.properties[i], schema.required));
}

/// An identifier keeps what it can of a name, in its place.
pub proof fn law_identifiers_keep_the_name(s: Seq<char>, i: int)
    requires
        0 <= i < s.len(),
        !ascii_digit(s[0]),
    ensures
        js_ident(s).len() == s.len(),
        ident_char(s[i]) ==> js_ident(s)[i] == s[i],
        !ident_char(s[i]) ==> js_ident(s)[i] == '_',
{
    let out = Seq::new(s.len(), |k: int| crate::codemode::ident_for(s[k]));
    assert(out[0] == crate::codemode::ident_for(s[0]));
    assert(js_ident(s) == out);
}

/// A script gives what it printed; one that failed gives what it complained
/// of, or how it ended; one that ran too long is told so.
pub proof fn law_scripts_are_answered(end: ScriptEnd)
    ensures
        match end {
            ScriptEnd::Exited { success, status, stdout, stderr } => {
                &&& success ==> script_answer(end) == Ok::<Seq<char>, Seq<char>>(text_in(stdout@))
                &&& !success ==> script_answer(end) is Err
                &&& !success && text_in(stderr@).len() > 0 ==> script_answer(end)->Err_0 == text_in(stderr@)
                &&& !success && text_in(stderr@).len() == 0 ==> occurs(script_answer(end)->Err_0, status@)
            },
            ScriptEnd::NotStarted { node, error } => script_answer(end) is Err && occurs(
                script_answer(end)->Err_0,
                error@,
            ),
            ScriptEnd::Lost { error } => script_answer(end) is Err && occurs(script_answer(end)->Err_0, error@),
            ScriptEnd::TimedOut { timeout_secs } => script_answer(end) is Err && occurs(
                script_answer(end)->Err_0,
                decimal(timeout_secs as nat),
            ),
        },
{
    let none = Seq::<char>::empty();
    match end {
        ScriptEnd::Exited { success, status, stdout, stderr } => {
            lemma_occurs_between("Script exited with code "@, status@, none);
            assert("Script exited with code "@ + status@ + none =~= "Script exited with code "@ + status@);
        },
        ScriptEnd::NotStarted { node, error } => {
            lemma_occurs_between("Failed to spawn node ("@ + node@ + "): "@, error@, ". Is Node.js installed?"@);
        },
        ScriptEnd::Lost { error } => {
            lemma_occurs_between("Failed to wait for node process: "@, error@, none);
            assert("Failed to wait for node process: "@ + error@ + none =~= "Failed to wait for node process: "@
                + error@);
        },
        ScriptEnd::TimedOut { timeout_secs } => {
            lemma_occurs_between("Script timed out after "@, decimal(timeout_secs as nat), " seconds"@);
        },
    }
}

/// What is sought is found where it stands first, and nowhere if it does not
/// stand in the text.
pub proof fn law_the_first_is_found(hay: Seq<char>, needle: Seq<char>, from: int, k: int)
    requires
        0 <= from <= k,
    ensures
        occurs_at(hay, needle, k) ==> first_at(hay, needle, from) is Some && from <= first_at(hay, needle, from)->0 <= k,
        first_at(hay, needle, from) matches Some(i) ==> occurs_at(hay, needle, i),
{
    lemma_first_at(hay, needle, from);
}

/// Among texts, one that differs from another first by a smaller character
/// comes before it, and so does one that the other starts with.
pub proof fn law_texts_have_an_order(common: Seq<char>, a: char, b: char, x: Seq<char>, y: Seq<char>)
    ensures
        a < b ==> text_lt(common.push(a) + x, common.push(b) + y),
        a < b ==> !text_lt(common.push(b) + y, common.push(a) + x),
        text_lt(common, common.push(a) + x),
        !text_lt(common.push(a) + x, common),
{
    let k: int = common.len() as int;
    let l = common.push(a) + x;
    let r = common.push(b) + y;
    if a < b {
        assert(less_at(l, r, k));
        lemma_text_lt_asymmetric(l, r);
    }
    assert(less_at(common, l, k));
    lemma_text_lt_asymmetric(common, l);
}

/// A name that is placed among names in order is there, the others stay, and the
/// order is kept.
pub proof fn law_names_stay_in_order(names: Seq<Seq<char>>, name: Seq<char>, other: Seq<char>)
    requires
        rising(names),
    ensures
        placed(names, name).contains(name),
        other != name ==> placed(names, name).contains(other) == names.contains(other),
        rising(placed(names, name)),
{
    lemma_placed(names, name);
}

/// A text that was written as bytes is read as it was.
pub proof fn law_written_texts_are_read(s: Seq<char>)
    ensures
        text_in(vstd::utf8::encode_utf8(s)) == s,
{
    vstd::utf8::encode_utf8_valid_utf8(s);
    vstd::utf8::encode_utf8_decode_utf8(s);
}

} // verus!
