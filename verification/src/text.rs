//! Text: characters, prefixes, searching, replacing and decimal numerals.
//!
//! A string is modelled by its sequence of characters.  Everything here is
//! verified except the handful of `std` calls at the top of the file.
use vstd::prelude::*;
use vstd::utf8::{decode_utf8, valid_utf8};

use crate::json::texts_view;

verus! {

// ---------------------------------------------------------------------------
// std
// ---------------------------------------------------------------------------

/// `String::push`: appends one character.
pub assume_specification[ String::push ](s: &mut String, c: char)
    ensures
        final(s)@ == old(s)@.push(c),
;

/// `String::push_str`: appends the characters of `t`.
pub assume_specification[ String::push_str ](s: &mut String, t: &str)
    ensures
        final(s)@ == old(s)@ + t@,
;

/// `str` equality: two strings are equal exactly when their characters are.
#[verifier::external_body]
pub(crate) fn same(a: &str, b: &str) -> (r: bool)
    ensures
        r == (a@ == b@),
{
    a == b
}

/// What `str::to_lowercase` makes of a text.
pub uninterp spec fn lowercased(s: Seq<char>) -> Seq<char>;

/// `str::to_lowercase`: the result is a function of the characters alone;
/// which function it is (the Unicode tables) is left unsaid.
#[verifier::external_body]
pub(crate) fn to_lowercase(s: &str) -> (r: String)
    ensures
        r@ == lowercased(s@),
{
    s.to_lowercase()
}

/// Whether `char::is_alphanumeric` holds of a character.
pub uninterp spec fn alphanumeric(c: char) -> bool;

/// `char::is_alphanumeric`: a function of the character alone; the Unicode
/// categories behind it are left unsaid, the ASCII ones are stated.
#[verifier::external_body]
pub(crate) fn is_alphanumeric(c: char) -> (r: bool)
    ensures
        r == alphanumeric(c),
        ascii_letter(c) || ascii_digit(c) ==> r,
        (c as u32) < 128 && !ascii_letter(c) && !ascii_digit(c) ==> !r,
{
    c.is_alphanumeric()
}

/// Whether `char::is_whitespace` holds of a character beyond ASCII.
pub uninterp spec fn wide_space(c: char) -> bool;

/// White space: the blank and the control characters from tab to carriage
/// return, and the white space beyond ASCII.
pub open spec fn whitespace(c: char) -> bool {
    if (c as u32) < 128 {
        9 <= c as u32 <= 13 || c == ' '
    } else {
        wide_space(c)
    }
}

/// `char::is_whitespace`: a function of the character alone; which characters
/// beyond ASCII have the `White_Space` property is left unsaid.
#[verifier::external_body]
pub(crate) fn is_whitespace(c: char) -> (r: bool)
    ensures
        (c as u32) < 128 ==> r == (9 <= c as u32 <= 13 || c == ' '),
        (c as u32) >= 128 ==> r == wide_space(c),
{
    c.is_whitespace()
}

/// What `str::to_uppercase` makes of a text.
pub uninterp spec fn uppercased(s: Seq<char>) -> Seq<char>;

/// `str::to_uppercase`: the result is a function of the characters alone;
/// which function it is (the Unicode tables) is left unsaid.
#[verifier::external_body]
pub(crate) fn to_uppercase(s: &str) -> (r: String)
    ensures
        r@ == uppercased(s@),
{
    s.to_uppercase()
}

/// What `String::from_utf8_lossy` makes of some bytes.
pub uninterp spec fn lossy(bytes: Seq<u8>) -> Seq<char>;

/// `String::from_utf8_lossy`: a function of the bytes alone, and the text they
/// encode where they are valid UTF-8; where invalid sequences are replaced is
/// left unsaid.
#[verifier::external_body]
pub(crate) fn from_utf8_lossy(bytes: &[u8]) -> (r: String)
    ensures
        r@ == lossy(bytes@),
        valid_utf8(bytes@) ==> r@ == decode_utf8(bytes@),
{
    String::from_utf8_lossy(bytes).into_owned()
}

/// The text in some bytes: what they encode, where they are valid UTF-8.
pub open spec fn text_in(bytes: Seq<u8>) -> Seq<char> {
    if valid_utf8(bytes) {
        decode_utf8(bytes)
    } else {
        lossy(bytes)
    }
}

// ---------------------------------------------------------------------------
// Characters
// ---------------------------------------------------------------------------

/// `a`..`z` or `A`..`Z`.
pub open spec fn ascii_letter(c: char) -> bool {
    ('a' <= c && c <= 'z') || ('A' <= c && c <= 'Z')
}

/// `0`..`9`.
pub open spec fn ascii_digit(c: char) -> bool {
    '0' <= c && c <= '9'
}

/// Whether `c` is an ASCII letter or digit.
pub(crate) fn is_ascii_word(c: char) -> (r: bool)
    ensures
        r == (ascii_letter(c) || ascii_digit(c)),
{
    ('a' <= c && c <= 'z') || ('A' <= c && c <= 'Z') || ('0' <= c && c <= '9')
}

/// Whether `c` is an ASCII digit.
pub(crate) fn is_ascii_digit(c: char) -> (r: bool)
    ensures
        r == ascii_digit(c),
{
    '0' <= c && c <= '9'
}

/// The characters of `s`, in order.
pub(crate) fn chars_of(s: &str) -> (r: Vec<char>)
    ensures
        r@ == s@,
{
    let mut out: Vec<char> = Vec::new();
    for c in it: s.chars()
        invariant
            out@ =~= it.seq().take(it.index()),
            it.seq() == s@,
    {
        out.push(c);
    }
    out
}

/// The text made of `chars[from..to]`.
pub(crate) fn text_of(chars: &Vec<char>, from: usize, to: usize) -> (r: String)
    requires
        from <= to <= chars@.len(),
    ensures
        r@ == chars@.subrange(from as int, to as int),
{
    let mut out = String::new();
    let mut i: usize = from;
    while i < to
        invariant
            from <= i <= to <= chars@.len(),
            out@ =~= chars@.subrange(from as int, i as int),
        decreases to - i,
    {
        out.push(chars[i]);
        i += 1;
    }
    out
}

// ---------------------------------------------------------------------------
// Searching
// ---------------------------------------------------------------------------

/// `needle` stands in `hay` at position `i`.
pub open spec fn occurs_at(hay: Seq<char>, needle: Seq<char>, i: int) -> bool {
    0 <= i && i + needle.len() <= hay.len() && hay.subrange(i, i + needle.len()) =~= needle
}

/// `needle` stands somewhere in `hay`.
pub open spec fn occurs(hay: Seq<char>, needle: Seq<char>) -> bool {
    exists|i: int| occurs_at(hay, needle, i)
}

/// What is written between two texts stands in the whole.
pub proof fn lemma_occurs_between(a: Seq<char>, needle: Seq<char>, b: Seq<char>)
    ensures
        occurs(a + needle + b, needle),
{
    let hay = a + needle + b;
    assert(hay.subrange(a.len() as int, (a.len() + needle.len()) as int) =~= needle);
    assert(occurs_at(hay, needle, a.len() as int));
}

/// What stands in a text still does when more is written around it.
pub proof fn lemma_occurs_in_more(a: Seq<char>, hay: Seq<char>, b: Seq<char>, needle: Seq<char>)
    requires
        occurs(hay, needle),
    ensures
        occurs(a + hay + b, needle),
        occurs(a + hay, needle),
        occurs(hay + b, needle),
{
    let i = choose|i: int| occurs_at(hay, needle, i);
    let n = needle.len();
    assert((a + hay + b).subrange(a.len() + i, a.len() + i + n) =~= hay.subrange(i, i + n));
    assert((a + hay).subrange(a.len() + i, a.len() + i + n) =~= hay.subrange(i, i + n));
    assert((hay + b).subrange(i, i + n) =~= hay.subrange(i, i + n));
    assert(occurs_at(a + hay + b, needle, a.len() + i));
    assert(occurs_at(a + hay, needle, a.len() + i));
    assert(occurs_at(hay + b, needle, i));
}

/// What stands in a part of a text stands in the text.
pub proof fn lemma_occurs_through(hay: Seq<char>, part: Seq<char>, needle: Seq<char>)
    requires
        occurs(hay, part),
        occurs(part, needle),
    ensures
        occurs(hay, needle),
{
    let i = choose|i: int| occurs_at(hay, part, i);
    let k = choose|k: int| occurs_at(part, needle, k);
    let n = needle.len();
    assert(part =~= hay.subrange(i, i + part.len()));
    assert(hay.subrange(i + k, i + k + n) =~= part.subrange(k, k + n));
    assert(occurs_at(hay, needle, i + k));
}

/// Whether `needle` stands in `hay` at position `at`.
pub(crate) fn stands_at(hay: &Vec<char>, needle: &Vec<char>, at: usize) -> (r: bool)
    ensures
        r == occurs_at(hay@, needle@, at as int),
{
    if at > hay.len() || needle.len() > hay.len() - at {
        return false;
    }
    let mut i: usize = 0;
    while i < needle.len()
        invariant
            i <= needle@.len(),
            at + needle@.len() <= hay.len(),
            forall|k: int| 0 <= k < i ==> hay@[at + k] == needle@[k],
        decreases needle@.len() - i,
    {
        if hay[at + i] != needle[i] {
            assert(hay@.subrange(at as int, at + needle@.len())[i as int] != needle@[i as int]);
            return false;
        }
        i += 1;
    }
    true
}

/// The first position at or after `from` where `needle` stands in `hay`.
pub(crate) fn find_from(hay: &Vec<char>, needle: &Vec<char>, from: usize) -> (r: Option<usize>)
    ensures
        match r {
            Some(i) => from <= i && occurs_at(hay@, needle@, i as int) && forall|k: int|
                from <= k < i ==> !occurs_at(hay@, needle@, k),
            None => forall|k: int| from <= k ==> !occurs_at(hay@, needle@, k),
        },
{
    let mut i: usize = from;
    while i < hay.len()
        invariant
            from <= i,
            forall|k: int| from <= k < i ==> !occurs_at(hay@, needle@, k),
        decreases hay@.len() - i,
    {
        if stands_at(hay, needle, i) {
            return Some(i);
        }
        i += 1;
    }
    if stands_at(hay, needle, i) {
        return Some(i);
    }
    None
}

/// The first position at or after `from` where `needle` stands in `hay`.
pub open spec fn first_at(hay: Seq<char>, needle: Seq<char>, from: int) -> Option<int>
    decreases hay.len() - from,
{
    if occurs_at(hay, needle, from) {
        Some(from)
    } else if from >= hay.len() {
        None
    } else {
        first_at(hay, needle, from + 1)
    }
}

/// What `first_at` finds is the first occurrence.
pub proof fn lemma_first_at(hay: Seq<char>, needle: Seq<char>, from: int)
    requires
        0 <= from,
    ensures
        match first_at(hay, needle, from) {
            Some(i) => from <= i && occurs_at(hay, needle, i) && forall|k: int|
                from <= k < i ==> !occurs_at(hay, needle, k),
            None => forall|k: int| from <= k ==> !occurs_at(hay, needle, k),
        },
    decreases hay.len() - from,
{
    if !occurs_at(hay, needle, from) && from < hay.len() {
        lemma_first_at(hay, needle, from + 1);
    }
}

/// The first position at or after `from` where `needle` stands in `hay`.
pub(crate) fn find_first(hay: &Vec<char>, needle: &Vec<char>, from: usize) -> (r: Option<usize>)
    ensures
        r is Some <==> first_at(hay@, needle@, from as int) is Some,
        r is Some ==> r->0 == first_at(hay@, needle@, from as int)->0,
{
    proof {
        lemma_first_at(hay@, needle@, from as int);
    }
    find_from(hay, needle, from)
}

/// Whether `needle` stands somewhere in `hay`.
pub fn contains(hay: &str, needle: &str) -> (r: bool)
    ensures
        r == occurs(hay@, needle@),
{
    let h = chars_of(hay);
    let n = chars_of(needle);
    match find_from(&h, &n, 0) {
        Some(i) => {
            assert(occurs_at(hay@, needle@, i as int));
            true
        },
        None => {
            assert forall|k: int| !occurs_at(hay@, needle@, k) by {
                if 0 <= k {
                    assert(!occurs_at(h@, n@, k));
                }
            }
            false
        },
    }
}

/// Whether `s` begins with `prefix`.
pub fn starts_with(s: &str, prefix: &str) -> (r: bool)
    ensures
        r == prefix@.is_prefix_of(s@),
{
    let h = chars_of(s);
    let n = chars_of(prefix);
    let r = stands_at(&h, &n, 0);
    assert(r ==> s@.subrange(0, prefix@.len() as int) =~= prefix@);
    r
}

/// Whether `s` ends with `suffix`.
pub fn ends_with(s: &str, suffix: &str) -> (r: bool)
    ensures
        r == suffix@.is_suffix_of(s@),
{
    let h = chars_of(s);
    let n = chars_of(suffix);
    if n.len() > h.len() {
        return false;
    }
    let at: usize = h.len() - n.len();
    let r = stands_at(&h, &n, at);
    assert(r ==> s@.subrange(at as int, s@.len() as int) =~= suffix@);
    r
}

/// What follows `prefix` in `s`, if `s` begins with it.
pub fn strip_prefix(s: &str, prefix: &str) -> (r: Option<String>)
    ensures
        r is Some <==> prefix@.is_prefix_of(s@),
        r is Some ==> r->0@ == s@.skip(prefix@.len() as int),
{
    if starts_with(s, prefix) {
        let h = chars_of(s);
        let n = chars_of(prefix);
        let rest = text_of(&h, n.len(), h.len());
        assert(rest@ =~= s@.skip(prefix@.len() as int));
        Some(rest)
    } else {
        None
    }
}

/// `s` with every occurrence of `pattern`, taken from the left and without
/// overlap, replaced by `with`.
pub open spec fn replaced(s: Seq<char>, pattern: Seq<char>, with: Seq<char>) -> Seq<char>
    decreases s.len(),
{
    if pattern.len() == 0 || s.len() < pattern.len() {
        s
    } else if pattern.is_prefix_of(s) {
        with + replaced(s.skip(pattern.len() as int), pattern, with)
    } else {
        seq![s[0]] + replaced(s.skip(1), pattern, with)
    }
}

/// Replaces every occurrence of `pattern` in `s` by `with`.
pub fn replace(s: &str, pattern: &str, with: &str) -> (r: String)
    requires
        pattern@.len() > 0,
    ensures
        r@ == replaced(s@, pattern@, with@),
{
    let h = chars_of(s);
    let p = chars_of(pattern);
    let mut out = String::new();
    let mut i: usize = 0;
    assert(s@.skip(0) =~= s@);
    assert(out@ + replaced(s@, pattern@, with@) =~= replaced(s@, pattern@, with@));
    while i < h.len() && p.len() <= h.len() - i
        invariant
            i <= h@.len(),
            h@ == s@,
            p@ == pattern@,
            p@.len() > 0,
            out@ + replaced(s@.skip(i as int), pattern@, with@) == replaced(s@, pattern@, with@),
        decreases h@.len() - i,
    {
        let ghost rest = s@.skip(i as int);
        if stands_at(&h, &p, i) {
            assert(rest.subrange(0, p@.len() as int) =~= s@.subrange(i as int, i + p@.len()));
            assert(pattern@.is_prefix_of(rest));
            assert(rest.skip(p@.len() as int) =~= s@.skip(i + p@.len()));
            let ghost before = out@;
            out.push_str(with);
            assert(before + (with@ + replaced(s@.skip(i + p@.len()), pattern@, with@)) =~= out@ + replaced(
                s@.skip(i + p@.len()),
                pattern@,
                with@,
            ));
            i += p.len();
        } else {
            assert(rest.subrange(0, p@.len() as int) =~= s@.subrange(i as int, i + p@.len()));
            assert(!pattern@.is_prefix_of(rest));
            assert(rest.skip(1) =~= s@.skip(i + 1));
            let ghost before = out@;
            out.push(h[i]);
            assert(before + (seq![rest[0]] + replaced(s@.skip(i + 1), pattern@, with@)) =~= out@ + replaced(
                s@.skip(i + 1),
                pattern@,
                with@,
            ));
            i += 1;
        }
    }
    let tail = text_of(&h, i, h.len());
    assert(tail@ =~= s@.skip(i as int));
    out.push_str(tail.as_str());
    out
}

// ---------------------------------------------------------------------------
// Numerals
// ---------------------------------------------------------------------------

/// The decimal digit for `d`.
pub open spec fn digit(d: int) -> char {
    if d == 0 {
        '0'
    } else if d == 1 {
        '1'
    } else if d == 2 {
        '2'
    } else if d == 3 {
        '3'
    } else if d == 4 {
        '4'
    } else if d == 5 {
        '5'
    } else if d == 6 {
        '6'
    } else if d == 7 {
        '7'
    } else if d == 8 {
        '8'
    } else {
        '9'
    }
}

/// The decimal numeral of `n`, without leading zeros.
pub open spec fn decimal(n: nat) -> Seq<char>
    decreases n,
{
    if n < 10 {
        seq![digit(n as int)]
    } else {
        decimal(n / 10).push(digit((n % 10) as int))
    }
}

/// The decimal numeral of an integer, with a sign where it is negative.
pub open spec fn signed_decimal(n: int) -> Seq<char> {
    if n < 0 {
        seq!['-'] + decimal((-n) as nat)
    } else {
        decimal(n as nat)
    }
}

fn digit_char(d: u64) -> (c: char)
    requires
        d < 10,
    ensures
        c == digit(d as int),
{
    match d {
        0 => '0',
        1 => '1',
        2 => '2',
        3 => '3',
        4 => '4',
        5 => '5',
        6 => '6',
        7 => '7',
        8 => '8',
        _ => '9',
    }
}

/// The decimal numeral of `n`.
pub fn decimal_text(n: u64) -> (r: String)
    ensures
        r@ == decimal(n as nat),
    decreases n,
{
    if n < 10 {
        let mut out = String::new();
        out.push(digit_char(n));
        assert(out@ =~= seq![digit(n as int)]);
        out
    } else {
        let mut out = decimal_text(n / 10);
        out.push(digit_char(n % 10));
        out
    }
}

/// The decimal numeral of `n`, with a sign where it is negative.
pub fn signed_text(n: i32) -> (r: String)
    ensures
        r@ == signed_decimal(n as int),
{
    if n < 0 {
        let mut r = String::new();
        r.push('-');
        let m: i64 = -(n as i64);
        r.push_str(decimal_text(m as u64).as_str());
        assert(r@ =~= seq!['-'] + decimal((-(n as int)) as nat));
        r
    } else {
        decimal_text(n as u64)
    }
}

/// `parts` with `sep` between each two.
pub open spec fn joined_by(parts: Seq<Seq<char>>, sep: Seq<char>) -> Seq<char>
    decreases parts.len(),
{
    if parts.len() == 0 {
        Seq::empty()
    } else if parts.len() == 1 {
        parts[0]
    } else {
        joined_by(parts.drop_last(), sep) + sep + parts.last()
    }
}

/// What is joined stands in the whole.
pub proof fn lemma_joined_hold(parts: Seq<Seq<char>>, sep: Seq<char>, i: int)
    requires
        0 <= i < parts.len(),
    ensures
        occurs(joined_by(parts, sep), parts[i]),
    decreases parts.len(),
{
    let none = Seq::<char>::empty();
    if parts.len() == 1 {
        lemma_occurs_between(none, parts[0], none);
        assert(none + parts[0] + none =~= parts[0]);
    } else if i < parts.len() - 1 {
        let before = joined_by(parts.drop_last(), sep);
        lemma_joined_hold(parts.drop_last(), sep, i);
        lemma_occurs_in_more(none, before, sep + parts.last(), parts[i]);
        assert(before + (sep + parts.last()) =~= before + sep + parts.last());
    } else {
        let before = joined_by(parts.drop_last(), sep) + sep;
        lemma_occurs_between(before, parts.last(), none);
        assert(before + parts.last() + none =~= before + parts.last());
    }
}

/// The texts of `parts` with `sep` between each two.
pub fn join_texts(parts: &Vec<String>, sep: &str) -> (r: String)
    ensures
        r@ == joined_by(Seq::new(parts@.len(), |i: int| parts@[i]@), sep@),
{
    let ghost all = Seq::new(parts@.len(), |i: int| parts@[i]@);
    let mut out = String::new();
    let mut i: usize = 0;
    assert(all.take(0) =~= Seq::empty());
    while i < parts.len()
        invariant
            i <= parts@.len(),
            all == Seq::new(parts@.len(), |i: int| parts@[i]@),
            out@ == joined_by(all.take(i as int), sep@),
        decreases parts@.len() - i,
    {
        assert(all.take(i + 1).drop_last() =~= all.take(i as int));
        assert(all.take(i + 1).last() == parts@[i as int]@);
        if i > 0 {
            out.push_str(sep);
        }
        let ghost before = out@;
        out.push_str(parts[i].as_str());
        if i == 0 {
            assert(out@ =~= parts@[0]@);
        }
        i += 1;
    }
    assert(all.take(i as int) =~= all);
    out
}

// ---------------------------------------------------------------------------
// Order
// ---------------------------------------------------------------------------

/// `a` and `b` agree before position `k`, and at `k` `a` ends first or has
/// the smaller character.
pub open spec fn less_at(a: Seq<char>, b: Seq<char>, k: int) -> bool {
    &&& 0 <= k <= a.len()
    &&& k < b.len()
    &&& forall|j: int| #![trigger a[j]] #![trigger b[j]] 0 <= j < k ==> a[j] == b[j]
    &&& k < a.len() ==> a[k] < b[k]
}

/// The order of texts by their characters' code points.
pub open spec fn text_lt(a: Seq<char>, b: Seq<char>) -> bool {
    exists|k: int| less_at(a, b, k)
}

/// How two texts stand to each other.
#[derive(Clone, Copy, PartialEq, Eq, Structural)]
pub enum Relation {
    Before,
    Same,
    After,
}

/// Compares two texts.
pub(crate) fn relate(a: &str, b: &str) -> (r: Relation)
    ensures
        (r is Before) == text_lt(a@, b@),
        (r is Same) == (a@ == b@),
        (r is After) == text_lt(b@, a@),
{
    let x = chars_of(a);
    let y = chars_of(b);
    let mut i: usize = 0;
    while i < x.len() && i < y.len()
        invariant
            x@ == a@,
            y@ == b@,
            i <= x@.len(),
            i <= y@.len(),
            forall|j: int| #![trigger x@[j]] 0 <= j < i ==> x@[j] == y@[j],
        decreases x@.len() - i,
    {
        if x[i] != y[i] {
            if x[i] < y[i] {
                assert(less_at(a@, b@, i as int));
                proof {
                    lemma_text_lt_asymmetric(a@, b@);
                }
                return Relation::Before;
            } else {
                assert(less_at(b@, a@, i as int));
                proof {
                    lemma_text_lt_asymmetric(b@, a@);
                }
                return Relation::After;
            }
        }
        i += 1;
    }
    if i < y.len() {
        assert(less_at(a@, b@, i as int));
        proof {
            lemma_text_lt_asymmetric(a@, b@);
        }
        Relation::Before
    } else if i < x.len() {
        assert(less_at(b@, a@, i as int));
        proof {
            lemma_text_lt_asymmetric(b@, a@);
        }
        Relation::After
    } else {
        assert(a@ =~= b@);
        proof {
            lemma_text_lt_irreflexive(a@);
        }
        Relation::Same
    }
}

/// No text comes before itself.
pub proof fn lemma_text_lt_irreflexive(a: Seq<char>)
    ensures
        !text_lt(a, a),
{
}

/// Two texts do not each come before the other, and equal texts neither.
pub proof fn lemma_text_lt_asymmetric(a: Seq<char>, b: Seq<char>)
    requires
        text_lt(a, b),
    ensures
        !text_lt(b, a),
        a != b,
{
    let k = choose|k: int| less_at(a, b, k);
    if text_lt(b, a) {
        let m = choose|m: int| less_at(b, a, m);
        if k < m {
            assert(a[k] == b[k]);
        } else if m < k {
            assert(a[m] == b[m]);
        }
    }
}

/// The order of texts is transitive.
pub proof fn lemma_text_lt_transitive(a: Seq<char>, b: Seq<char>, c: Seq<char>)
    requires
        text_lt(a, b),
        text_lt(b, c),
    ensures
        text_lt(a, c),
{
    let k = choose|k: int| less_at(a, b, k);
    let m = choose|m: int| less_at(b, c, m);
    let n = if k < m { k } else { m };
    assert forall|j: int| #![trigger a[j]] #![trigger c[j]] 0 <= j < n implies a[j] == c[j] by {
        assert(a[j] == b[j]);
        assert(b[j] == c[j]);
    }
    if k < m {
        assert(b[k] == c[k]);
    }
    assert(less_at(a, c, n));
}

/// Two texts are equal or one comes before the other.
pub proof fn lemma_text_lt_total(a: Seq<char>, b: Seq<char>)
    ensures
        a == b || text_lt(a, b) || text_lt(b, a),
{
    lemma_first_difference(a, b, 0);
}

proof fn lemma_first_difference(a: Seq<char>, b: Seq<char>, k: int)
    requires
        0 <= k <= a.len(),
        k <= b.len(),
        forall|j: int| #![trigger a[j]] #![trigger b[j]] 0 <= j < k ==> a[j] == b[j],
    ensures
        a == b || text_lt(a, b) || text_lt(b, a),
    decreases a.len() - k,
{
    if k == a.len() && k == b.len() {
        assert(a =~= b);
    } else if k == a.len() {
        assert(less_at(a, b, k));
    } else if k == b.len() {
        assert(less_at(b, a, k));
    } else if a[k] == b[k] {
        lemma_first_difference(a, b, k + 1);
    } else if a[k] < b[k] {
        assert(less_at(a, b, k));
    } else {
        assert(less_at(b, a, k));
    }
}

// ---------------------------------------------------------------------------
// Names in order
// ---------------------------------------------------------------------------

/// The names rise.
pub open spec fn rising(names: Seq<Seq<char>>) -> bool {
    forall|i: int, j: int| 0 <= i < j < names.len() ==> text_lt(#[trigger] names[i], #[trigger] names[j])
}

/// `name` put in its place among rising names, unless it is there.
pub open spec fn placed(names: Seq<Seq<char>>, name: Seq<char>) -> Seq<Seq<char>>
    decreases names.len(),
{
    if names.len() == 0 {
        seq![name]
    } else if text_lt(name, names.last()) {
        placed(names.drop_last(), name).push(names.last())
    } else if name == names.last() {
        names
    } else {
        names.push(name)
    }
}

/// Puts `name` in its place, unless it is there.
pub(crate) fn place(names: &mut Vec<String>, name: &str)
    ensures
        texts_view(final(names)@) == placed(texts_view(old(names)@), name@),
{
    let ghost all = texts_view(names@);
    let mut i: usize = names.len();
    assert(all.take(i as int) =~= all);
    assert(placed(all, name@) =~= placed(all.take(i as int), name@) + all.skip(i as int));
    while i > 0 && relate(name, names[i - 1].as_str()) == Relation::Before
        invariant
            *names == *old(names),
            all == texts_view(names@),
            i <= names@.len(),
            placed(all, name@) == placed(all.take(i as int), name@) + all.skip(i as int),
        decreases i,
    {
        let ghost head = all.take(i as int);
        assert(head.last() == names@[i - 1]@);
        assert(head.drop_last() =~= all.take(i - 1));
        assert(placed(head.drop_last(), name@).push(head.last()) + all.skip(i as int) =~= placed(all.take(i - 1), name@)
            + all.skip(i - 1));
        i -= 1;
    }
    let ghost head = all.take(i as int);
    if i > 0 {
        assert(head.last() == names@[i - 1]@);
        if same(name, names[i - 1].as_str()) {
            proof {
                lemma_text_lt_irreflexive(name@);
            }
            assert(head + all.skip(i as int) =~= all);
            return ;
        }
    }
    names.insert(i, name.to_owned());
    assert(texts_view(names@) =~= head.push(name@) + all.skip(i as int));
    if i == 0 {
        assert(head.push(name@) =~= seq![name@]);
    }
}

/// A name that is placed among rising names stands there, with the others,
/// and they still rise.
pub proof fn lemma_placed(names: Seq<Seq<char>>, name: Seq<char>)
    requires
        rising(names),
    ensures
        rising(placed(names, name)),
        forall|n: Seq<char>| #[trigger] placed(names, name).contains(n) <==> names.contains(n) || n == name,
    decreases names.len(),
{
    let p = placed(names, name);
    if names.len() == 0 {
        assert(p[0] == name);
    } else {
        let head = names.drop_last();
        let last = names.last();
        assert forall|i: int, j: int| 0 <= i < j < head.len() implies text_lt(#[trigger] head[i], #[trigger] head[j]) by {
            assert(text_lt(names[i], names[j]));
        }
        if text_lt(name, last) {
            lemma_placed(head, name);
            let q = placed(head, name);
            assert forall|i: int, j: int| 0 <= i < j < p.len() implies text_lt(#[trigger] p[i], #[trigger] p[j]) by {
                if j < q.len() {
                    assert(text_lt(q[i], q[j]));
                } else {
                    assert(q.contains(q[i]));
                    if q[i] != name {
                        let k = choose|k: int| 0 <= k < head.len() && head[k] == q[i];
                        assert(text_lt(names[k], names[names.len() - 1]));
                    }
                }
            }
            assert forall|n: Seq<char>| p.contains(n) <==> names.contains(n) || n == name by {
                if p.contains(n) {
                    let k = choose|k: int| 0 <= k < p.len() && p[k] == n;
                    if k < q.len() {
                        assert(q.contains(n));
                        if n != name {
                            let m = choose|m: int| 0 <= m < head.len() && head[m] == n;
                            assert(names[m] == n);
                        }
                    } else {
                        assert(names[names.len() - 1] == n);
                    }
                }
                if names.contains(n) || n == name {
                    if q.contains(n) {
                        let k = choose|k: int| 0 <= k < q.len() && q[k] == n;
                        assert(p[k] == n);
                    } else {
                        let k = choose|k: int| 0 <= k < names.len() && names[k] == n;
                        if k < head.len() {
                            assert(head[k] == n);
                        }
                        assert(p[q.len() as int] == n);
                    }
                }
            }
        } else if name == last {
            assert(names[names.len() - 1] == name);
        } else {
            lemma_text_lt_total(name, last);
            assert forall|i: int, j: int| 0 <= i < j < p.len() implies text_lt(#[trigger] p[i], #[trigger] p[j]) by {
                if j < names.len() {
                    assert(text_lt(names[i], names[j]));
                } else if i < names.len() - 1 {
                    assert(text_lt(names[i], names[names.len() - 1]));
                    lemma_text_lt_transitive(names[i], last, name);
                }
            }
            assert forall|n: Seq<char>| p.contains(n) <==> names.contains(n) || n == name by {
                if names.contains(n) {
                    let k = choose|k: int| 0 <= k < names.len() && names[k] == n;
                    assert(p[k] == n);
                }
                assert(p[names.len() as int] == name);
                if p.contains(n) && n != name {
                    let k = choose|k: int| 0 <= k < p.len() && p[k] == n;
                    assert(names[k] == n);
                }
            }
        }
    }
}

// ---------------------------------------------------------------------------
// Words
// ---------------------------------------------------------------------------

/// A text without the white space at its beginning.
pub open spec fn trimmed_start(s: Seq<char>) -> Seq<char>
    decreases s.len(),
{
    if s.len() > 0 && whitespace(s[0]) {
        trimmed_start(s.skip(1))
    } else {
        s
    }
}

/// A text without the white space at its end.
pub open spec fn trimmed_end(s: Seq<char>) -> Seq<char>
    decreases s.len(),
{
    if s.len() > 0 && whitespace(s.last()) {
        trimmed_end(s.drop_last())
    } else {
        s
    }
}

/// A text without the white space around it.
pub open spec fn trimmed(s: Seq<char>) -> Seq<char> {
    trimmed_end(trimmed_start(s))
}

/// Where the part without the white space at its end ends.
fn end_without_space(cs: &Vec<char>, from: usize) -> (r: usize)
    requires
        from <= cs@.len(),
    ensures
        from <= r <= cs@.len(),
        cs@.subrange(from as int, r as int) == trimmed_end(cs@.skip(from as int)),
{
    let mut end: usize = cs.len();
    assert(cs@.subrange(from as int, end as int) =~= cs@.skip(from as int));
    while end > from && is_whitespace(cs[end - 1])
        invariant
            from <= end <= cs@.len(),
            trimmed_end(cs@.subrange(from as int, end as int)) == trimmed_end(cs@.skip(from as int)),
        decreases end,
    {
        let ghost part = cs@.subrange(from as int, end as int);
        assert(part.last() == cs@[end - 1]);
        assert(part.drop_last() =~= cs@.subrange(from as int, end - 1));
        end -= 1;
    }
    let ghost part = cs@.subrange(from as int, end as int);
    if end > from {
        assert(part.last() == cs@[end - 1]);
    }
    end
}

/// A text without the white space at its end.
pub(crate) fn trim_end(s: &str) -> (r: String)
    ensures
        r@ == trimmed_end(s@),
{
    let cs = chars_of(s);
    let end: usize = end_without_space(&cs, 0);
    assert(cs@.skip(0) =~= s@);
    text_of(&cs, 0, end)
}

/// A text without the white space around it.
pub(crate) fn trim(s: &str) -> (r: String)
    ensures
        r@ == trimmed(s@),
{
    let cs = chars_of(s);
    let mut from: usize = 0;
    assert(cs@.skip(0) =~= s@);
    while from < cs.len() && is_whitespace(cs[from])
        invariant
            cs@ == s@,
            from <= cs@.len(),
            trimmed_start(cs@.skip(from as int)) == trimmed_start(s@),
        decreases cs@.len() - from,
    {
        assert(cs@.skip(from as int)[0] == cs@[from as int]);
        assert(cs@.skip(from as int).skip(1) =~= cs@.skip(from + 1));
        from += 1;
    }
    if from < cs.len() {
        assert(cs@.skip(from as int)[0] == cs@[from as int]);
    }
    assert(cs@.skip(from as int) == trimmed_start(s@));
    let end: usize = end_without_space(&cs, from);
    text_of(&cs, from, end)
}

/// A text with no white space at its ends is left as it is.
pub proof fn lemma_trimmed_bare(s: Seq<char>)
    requires
        s.len() > 0 ==> !whitespace(s[0]) && !whitespace(s.last()),
    ensures
        trimmed(s) == s,
{
}

/// The longest runs of characters that are no white space.
pub open spec fn words(s: Seq<char>) -> Seq<Seq<char>>
    decreases s.len(),
{
    if s.len() == 0 {
        Seq::empty()
    } else {
        let before = words(s.drop_last());
        if whitespace(s.last()) {
            before
        } else if s.len() >= 2 && !whitespace(s[s.len() - 2]) {
            before.drop_last().push(before.last().push(s.last()))
        } else {
            before.push(seq![s.last()])
        }
    }
}

proof fn lemma_words_open(s: Seq<char>)
    requires
        s.len() > 0,
        !whitespace(s.last()),
    ensures
        words(s).len() > 0,
    decreases s.len(),
{
    if s.len() >= 2 && !whitespace(s[s.len() - 2]) {
        lemma_words_open(s.drop_last());
    }
}

/// Splits a text at its white space.
pub(crate) fn split_words(s: &str) -> (r: Vec<String>)
    ensures
        texts_view(r@) == words(s@),
{
    let cs = chars_of(s);
    let mut out: Vec<String> = Vec::new();
    let mut inside = false;
    let mut i: usize = 0;
    assert(cs@.take(0) =~= Seq::empty());
    assert(texts_view(out@) =~= words(cs@.take(0)));
    while i < cs.len()
        invariant
            cs@ == s@,
            i <= cs@.len(),
            texts_view(out@) == words(cs@.take(i as int)),
            inside == (i > 0 && !whitespace(cs@[i - 1])),
        decreases cs@.len() - i,
    {
        let c = cs[i];
        let ghost here = cs@.take(i + 1);
        let ghost was = texts_view(out@);
        assert(here.drop_last() =~= cs@.take(i as int));
        assert(here.last() == c);
        if is_whitespace(c) {
            inside = false;
        } else if inside {
            assert(here[here.len() - 2] == cs@[i - 1]);
            proof {
                assert(cs@.take(i as int).last() == cs@[i - 1]);
                lemma_words_open(cs@.take(i as int));
            }
            let last = out.pop();
            match last {
                Some(w) => {
                    assert(w@ == was.last());
                    let mut word = w;
                    word.push(c);
                    out.push(word);
                    assert(texts_view(out@) =~= was.drop_last().push(was.last().push(c)));
                },
                None => {},
            }
        } else {
            let mut word = String::new();
            word.push(c);
            assert(word@ =~= seq![c]);
            out.push(word);
            assert(texts_view(out@) =~= was.push(seq![c]));
            inside = true;
        }
        i += 1;
    }
    assert(cs@.take(i as int) =~= s@);
    out
}

/// The parts of a text between the characters `c`.
pub open spec fn split_at(s: Seq<char>, c: char) -> Seq<Seq<char>>
    decreases s.len(),
{
    if s.len() == 0 {
        seq![Seq::empty()]
    } else {
        let before = split_at(s.drop_last(), c);
        if s.last() == c {
            before.push(Seq::empty())
        } else {
            before.drop_last().push(before.last().push(s.last()))
        }
    }
}

/// A text without the character is one part.
pub proof fn lemma_split_at_none(s: Seq<char>, c: char)
    requires
        !s.contains(c),
    ensures
        split_at(s, c) == seq![s],
    decreases s.len(),
{
    if s.len() > 0 {
        assert(s[s.len() - 1] == s.last());
        assert forall|i: int| 0 <= i < s.drop_last().len() implies s.drop_last()[i] != c by {
            assert(s[i] != c);
        }
        lemma_split_at_none(s.drop_last(), c);
        assert(split_at(s, c) =~= seq![s.drop_last().push(s.last())]);
        assert(s.drop_last().push(s.last()) =~= s);
    } else {
        assert(s =~= Seq::<char>::empty());
    }
}

/// Splits a text at the characters `c`.
pub(crate) fn split_on(s: &str, c: char) -> (r: Vec<String>)
    ensures
        texts_view(r@) == split_at(s@, c),
{
    let cs = chars_of(s);
    let mut out: Vec<String> = Vec::new();
    let mut part = String::new();
    let mut i: usize = 0;
    assert(cs@.take(0) =~= Seq::empty());
    assert(texts_view(out@).push(part@) =~= split_at(cs@.take(0), c));
    while i < cs.len()
        invariant
            cs@ == s@,
            i <= cs@.len(),
            texts_view(out@).push(part@) == split_at(cs@.take(i as int), c),
        decreases cs@.len() - i,
    {
        let ghost here = cs@.take(i + 1);
        let ghost was = texts_view(out@).push(part@);
        assert(here.drop_last() =~= cs@.take(i as int));
        assert(here.last() == cs@[i as int]);
        assert(was.last() == part@);
        assert(was.drop_last() =~= texts_view(out@));
        if cs[i] == c {
            out.push(part);
            part = String::new();
            assert(texts_view(out@) =~= was);
            assert(part@ =~= Seq::empty());
        } else {
            part.push(cs[i]);
        }
        i += 1;
    }
    assert(cs@.take(i as int) =~= s@);
    let ghost was = texts_view(out@).push(part@);
    out.push(part);
    assert(texts_view(out@) =~= was);
    out
}

} // verus!
