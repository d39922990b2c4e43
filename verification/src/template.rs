//! Templates with `{{key}}` placeholders, and escaping for the context in
//! which the filled template is used.
use vstd::prelude::*;

use crate::json::{printed, Json, JsonView};
use crate::text::{chars_of, find_first, first_at, lemma_first_at, occurs_at, replace, replaced, text_of};

verus! {

// ---------------------------------------------------------------------------
// Escaping
// ---------------------------------------------------------------------------

/// How a value is escaped before it goes into a template.
#[derive(Debug, Clone, Copy, PartialEq, Eq, Structural)]
pub enum Escape {
    /// Not at all: for discrete process arguments.
    Verbatim,
    /// For a POSIX shell.
    Shell,
    /// For a PowerShell command.
    PowerShell,
    /// For an AppleScript.
    AppleScript,
}

/// `s` in single quotes, each embedded quote as `'\''`.
pub open spec fn shell_quoted(s: Seq<char>) -> Seq<char> {
    "'"@ + replaced(s, "'"@, "'\\''"@) + "'"@
}

/// `s` in single quotes, each embedded quote doubled.
pub open spec fn powershell_quoted(s: Seq<char>) -> Seq<char> {
    "'"@ + replaced(s, "'"@, "''"@) + "'"@
}

/// `s` between `\"`, with backslashes and double quotes escaped.
pub open spec fn applescript_quoted(s: Seq<char>) -> Seq<char> {
    "\\\""@ + replaced(replaced(s, "\\"@, "\\\\"@), "\""@, "\\\""@) + "\\\""@
}

/// What becomes of a value.
pub open spec fn escaped(how: Escape, s: Seq<char>) -> Seq<char> {
    match how {
        Escape::Verbatim => s,
        Escape::Shell => shell_quoted(s),
        Escape::PowerShell => powershell_quoted(s),
        Escape::AppleScript => applescript_quoted(s),
    }
}

/// Escape a value for interpolation into a POSIX shell string.
///
/// Wraps the value in single quotes and escapes embedded single quotes via the
/// `'\''` idiom (end quote, escaped literal quote, reopen quote).
/// Single-quoted strings in POSIX shells interpret nothing.
pub fn escape_shell(s: &str) -> (r: String)
    ensures
        r@ == shell_quoted(s@),
{
    proof {
        reveal_strlit("'");
        assert("'"@.len() == 1);
    }
    let mut r = "'".to_owned();
    r.push_str(replace(s, "'", "'\\''").as_str());
    r.push_str("'");
    r
}

/// Escape a value for interpolation into a PowerShell `-Command` string.
///
/// Wraps the value in single quotes (verbatim strings in PowerShell) and
/// doubles any embedded single quotes.
pub fn escape_powershell(s: &str) -> (r: String)
    ensures
        r@ == powershell_quoted(s@),
{
    proof {
        reveal_strlit("'");
        assert("'"@.len() == 1);
    }
    let mut r = "'".to_owned();
    r.push_str(replace(s, "'", "''").as_str());
    r.push_str("'");
    r
}

/// Escape a value for interpolation into an AppleScript passed to
/// `osascript -e`.
///
/// Wraps the value in escaped double quotes, escaping `\` and `"` inside the
/// value.
pub fn escape_applescript(s: &str) -> (r: String)
    ensures
        r@ == applescript_quoted(s@),
{
    proof {
        reveal_strlit("\\");
        reveal_strlit("\"");
        assert("\\"@.len() == 1 && "\""@.len() == 1);
    }
    let backslashes = replace(s, "\\", "\\\\");
    let mut r = "\\\"".to_owned();
    r.push_str(replace(backslashes.as_str(), "\"", "\\\"").as_str());
    r.push_str("\\\"");
    r
}

impl Escape {
    /// Escapes a value.
    pub fn apply(&self, s: &str) -> (r: String)
        ensures
            r@ == escaped(*self, s@),
    {
        match self {
            Escape::Verbatim => s.to_owned(),
            Escape::Shell => escape_shell(s),
            Escape::PowerShell => escape_powershell(s),
            Escape::AppleScript => escape_applescript(s),
        }
    }
}

// ---------------------------------------------------------------------------
// Filling
// ---------------------------------------------------------------------------

/// The placeholder for `key`.
pub open spec fn placeholder(key: Seq<char>) -> Seq<char> {
    "{{"@ + key + "}}"@
}

/// The template with the placeholder of each key, one key after the other,
/// replaced by the key's escaped value.
pub open spec fn filled(template: Seq<char>, values: Seq<(Seq<char>, Seq<char>)>, how: Escape) -> Seq<char>
    decreases values.len(),
{
    if values.len() == 0 {
        template
    } else {
        replaced(
            filled(template, values.drop_last(), how),
            placeholder(values.last().0),
            escaped(how, values.last().1),
        )
    }
}

/// Where the first placeholder begins, a separator before it counted in.
pub open spec fn cut_from(s: Seq<char>, start: int) -> int {
    if start > 0 && (s[start - 1] == ':' || s[start - 1] == '=') {
        start - 1
    } else {
        start
    }
}

/// `s` without its remaining placeholders and the `:` or `=` before each.
pub open spec fn stripped(s: Seq<char>) -> Seq<char>
    decreases s.len(),
{
    match first_at(s, "{{"@, 0) {
        None => s,
        Some(start) => match first_at(s, "}}"@, start) {
            None => s,
            Some(end) => {
                let rest = s.take(cut_from(s, start)) + s.skip(end + 2);
                if rest.len() < s.len() {
                    stripped(rest)
                } else {
                    s
                }
            },
        },
    }
}

/// The models of a list of pairs.
pub open spec fn pairs_view(pairs: Seq<(String, String)>) -> Seq<(Seq<char>, Seq<char>)> {
    Seq::new(pairs.len(), |i: int| (pairs[i].0@, pairs[i].1@))
}

/// What an argument is in text: a text itself, anything else printed.
pub open spec fn raw_text(v: JsonView) -> Seq<char> {
    match v {
        JsonView::Text(t) => t,
        other => printed(other),
    }
}

/// The arguments in text, key by key; none where they are not an object.
pub open spec fn argument_texts(arguments: JsonView) -> Seq<(Seq<char>, Seq<char>)> {
    match arguments {
        JsonView::Object(members) => Seq::new(members.len(), |i: int| (members[i].0, raw_text(members[i].1))),
        _ => Seq::empty(),
    }
}

/// An argument in text.
pub fn argument_text(v: &Json) -> (r: String)
    ensures
        r@ == raw_text(v@),
{
    match v {
        Json::Text(t) => t.clone(),
        _ => v.to_text(),
    }
}

/// The arguments in text, key by key.
pub fn argument_pairs(arguments: &Json) -> (r: Vec<(String, String)>)
    ensures
        pairs_view(r@) == argument_texts(arguments@),
{
    let mut out: Vec<(String, String)> = Vec::new();
    match arguments.as_object() {
        Some(members) => {
            let mut i: usize = 0;
            while i < members.len()
                invariant
                    i <= members@.len(),
                    arguments@ is Object,
                    arguments@->Object_0.len() == members@.len(),
                    forall|j: int|
                        0 <= j < members@.len() ==> arguments@->Object_0[j] == (
                            (#[trigger] members@[j]).0@,
                            members@[j].1@,
                        ),
                    out@.len() == i,
                    forall|j: int|
                        0 <= j < i ==> (#[trigger] out@[j]).0@ == members@[j].0@ && out@[j].1@ == raw_text(
                            members@[j].1@,
                        ),
                decreases members@.len() - i,
            {
                out.push((members[i].0.clone(), argument_text(&members[i].1)));
                i += 1;
            }
            assert(pairs_view(out@) =~= argument_texts(arguments@));
        },
        None => {
            assert(pairs_view(out@) =~= argument_texts(arguments@));
        },
    }
    out
}

/// The placeholder for `key`.
fn placeholder_for(key: &str) -> (r: String)
    ensures
        r@ == placeholder(key@),
        r@.len() > 0,
{
    let mut r = "{{".to_owned();
    r.push_str(key);
    r.push_str("}}");
    proof {
        reveal_strlit("{{");
        assert("{{"@.len() == 2);
    }
    r
}

/// Removes the remaining placeholders and the separator before each.
fn strip(s: &str) -> (r: String)
    ensures
        r@ == stripped(s@),
{
    let open = chars_of("{{");
    let close = chars_of("}}");
    proof {
        reveal_strlit("{{");
        reveal_strlit("}}");
        assert("{{"@.len() == 2 && "}}"@.len() == 2);
    }
    let mut cur = chars_of(s);
    loop
        invariant
            stripped(cur@) == stripped(s@),
            open@ == "{{"@,
            close@ == "}}"@,
            "{{"@.len() == 2,
            "}}"@.len() == 2,
        decreases cur@.len(),
    {
        match find_first(&cur, &open, 0) {
            None => {
                let r = text_of(&cur, 0, cur.len());
                assert(r@ =~= cur@);
                return r;
            },
            Some(start) => {
                proof {
                    lemma_first_at(cur@, "{{"@, 0);
                    lemma_first_at(cur@, "}}"@, start as int);
                }
                match find_first(&cur, &close, start) {
                    None => {
                        let r = text_of(&cur, 0, cur.len());
                        assert(r@ =~= cur@);
                        return r;
                    },
                    Some(end) => {
                        let from: usize = if start > 0 && (cur[start - 1] == ':' || cur[start - 1] == '=') {
                            start - 1
                        } else {
                            start
                        };
                        let mut next: Vec<char> = Vec::new();
                        let mut i: usize = 0;
                        while i < from
                            invariant
                                i <= from <= cur@.len(),
                                next@ =~= cur@.take(i as int),
                            decreases from - i,
                        {
                            next.push(cur[i]);
                            i += 1;
                        }
                        assert(end + 2 <= cur.len());
                        let mut k: usize = end + 2;
                        assert(next@ =~= cur@.take(from as int) + cur@.subrange(end + 2, k as int));
                        while k < cur.len()
                            invariant
                                end + 2 <= k <= cur@.len(),
                                next@ =~= cur@.take(from as int) + cur@.subrange(end + 2, k as int),
                            decreases cur@.len() - k,
                        {
                            next.push(cur[k]);
                            k += 1;
                        }
                        assert(next@ =~= cur@.take(from as int) + cur@.skip(end + 2));
                        cur = next;
                    },
                }
            },
        }
    }
}

/// Fills a template from values that are already text.
pub fn substitute_pairs(template: &str, values: &Vec<(String, String)>, how: Escape) -> (r: String)
    ensures
        r@ == stripped(filled(template@, pairs_view(values@), how)),
{
    let ghost all = pairs_view(values@);
    let mut result = template.to_owned();
    let mut i: usize = 0;
    assert(all.take(0) =~= Seq::empty());
    while i < values.len()
        invariant
            i <= values@.len(),
            all == pairs_view(values@),
            result@ == filled(template@, all.take(i as int), how),
        decreases values@.len() - i,
    {
        assert(all.take(i + 1).drop_last() =~= all.take(i as int));
        assert(all.take(i + 1).last() == (values@[i as int].0@, values@[i as int].1@));
        let mark = placeholder_for(values[i].0.as_str());
        let value = how.apply(values[i].1.as_str());
        result = replace(result.as_str(), mark.as_str(), value.as_str());
        i += 1;
    }
    assert(all.take(i as int) =~= all);
    strip(result.as_str())
}

/// Replaces every `{{key}}` in `template` with the matching value from
/// `arguments`.  Unresolved placeholders (and any immediately preceding `:` or
/// `=` separator) are stripped, making optional parameters work.
///
/// No escaping is applied: this is for discrete process arguments.  For shell
/// and script contexts, use [`substitute_escaped`].
pub fn substitute(template: &str, arguments: &Json) -> (r: String)
    ensures
        r@ == stripped(filled(template@, argument_texts(arguments@), Escape::Verbatim)),
{
    substitute_pairs(template, &argument_pairs(arguments), Escape::Verbatim)
}

/// Like [`substitute`], with every interpolated value escaped first.
pub fn substitute_escaped(template: &str, arguments: &Json, how: Escape) -> (r: String)
    ensures
        r@ == stripped(filled(template@, argument_texts(arguments@), how)),
{
    substitute_pairs(template, &argument_pairs(arguments), how)
}

// ---------------------------------------------------------------------------
// Laws
// ---------------------------------------------------------------------------

/// A filled template has no placeholder left: where `{{` still stands, no `}}`
/// follows it.
pub proof fn law_no_placeholder_left(s: Seq<char>)
    ensures
        match first_at(stripped(s), "{{"@, 0) {
            None => true,
            Some(start) => first_at(stripped(s), "}}"@, start) is None,
        },
    decreases s.len(),
{
    reveal_strlit("{{");
    reveal_strlit("}}");
    assert("{{"@.len() == 2 && "}}"@.len() == 2);
    match first_at(s, "{{"@, 0) {
        None => {},
        Some(start) => {
            lemma_first_at(s, "{{"@, 0);
            match first_at(s, "}}"@, start) {
                None => {},
                Some(end) => {
                    lemma_first_at(s, "}}"@, start);
                    let rest = s.take(cut_from(s, start)) + s.skip(end + 2);
                    assert(rest.len() < s.len());
                    law_no_placeholder_left(rest);
                },
            }
        },
    }
}

/// A text without `{{` is its own filled template, whatever the arguments.
pub proof fn law_plain_text_is_kept(template: Seq<char>, values: Seq<(Seq<char>, Seq<char>)>, how: Escape)
    requires
        first_at(template, "{{"@, 0) is None,
    ensures
        stripped(filled(template, values, how)) == template,
    decreases values.len(),
{
    lemma_filled_plain(template, values, how);
}

proof fn lemma_filled_plain(template: Seq<char>, values: Seq<(Seq<char>, Seq<char>)>, how: Escape)
    requires
        first_at(template, "{{"@, 0) is None,
    ensures
        filled(template, values, how) == template,
    decreases values.len(),
{
    if values.len() > 0 {
        lemma_filled_plain(template, values.drop_last(), how);
        let mark = placeholder(values.last().0);
        lemma_first_at(template, "{{"@, 0);
        reveal_strlit("{{");
        assert("{{"@.len() == 2);
        assert forall|k: int| !occurs_at(template, mark, k) by {
            if occurs_at(template, mark, k) {
                assert(template.subrange(k, k + 2) =~= template.subrange(k, k + mark.len()).subrange(0, 2));
                assert(mark.subrange(0, 2) =~= "{{"@);
                assert(occurs_at(template, "{{"@, k));
            }
        }
        lemma_replaced_absent(template, mark, escaped(how, values.last().1));
    }
}

/// Replacing what does not occur changes nothing.
pub proof fn lemma_replaced_absent(s: Seq<char>, pattern: Seq<char>, with: Seq<char>)
    requires
        forall|k: int| !occurs_at(s, pattern, k),
    ensures
        replaced(s, pattern, with) == s,
    decreases s.len(),
{
    if pattern.len() > 0 && s.len() >= pattern.len() {
        assert(!occurs_at(s, pattern, 0));
        assert(!pattern.is_prefix_of(s)) by {
            if pattern.is_prefix_of(s) {
                assert(s.subrange(0, pattern.len() as int) =~= pattern);
            }
        }
        let t = s.skip(1);
        assert forall|k: int| !occurs_at(t, pattern, k) by {
            if occurs_at(t, pattern, k) {
                assert(t.subrange(k, k + pattern.len()) =~= s.subrange(k + 1, k + 1 + pattern.len()));
                assert(occurs_at(s, pattern, k + 1));
            }
        }
        lemma_replaced_absent(t, pattern, with);
        assert(seq![s[0]] + t =~= s);
    }
}

/// How a POSIX shell reads a word made of single-quoted parts and
/// backslash-escaped characters, outside quotes.
pub open spec fn shell_reads(s: Seq<char>) -> Option<Seq<char>>
    decreases s.len(), 1int,
{
    if s.len() == 0 {
        Some(Seq::empty())
    } else if s[0] == '\'' {
        shell_reads_quoted(s.skip(1))
    } else if s[0] == '\\' && s.len() >= 2 {
        match shell_reads(s.skip(2)) {
            Some(rest) => Some(seq![s[1]] + rest),
            None => None,
        }
    } else {
        None
    }
}

/// The same, inside single quotes, where every character but the quote stands
/// for itself.
pub open spec fn shell_reads_quoted(s: Seq<char>) -> Option<Seq<char>>
    decreases s.len(), 0int,
{
    if s.len() == 0 {
        None
    } else if s[0] == '\'' {
        shell_reads(s.skip(1))
    } else {
        match shell_reads_quoted(s.skip(1)) {
            Some(rest) => Some(seq![s[0]] + rest),
            None => None,
        }
    }
}

/// How PowerShell reads a single-quoted string after its opening quote: a
/// doubled quote stands for a quote, a single one ends the string.
pub open spec fn powershell_reads(s: Seq<char>) -> Option<Seq<char>>
    decreases s.len(),
{
    if s.len() == 0 {
        None
    } else if s[0] == '\'' {
        if s.len() == 1 {
            Some(Seq::empty())
        } else if s[1] == '\'' {
            match powershell_reads(s.skip(2)) {
                Some(rest) => Some(seq!['\''] + rest),
                None => None,
            }
        } else {
            None
        }
    } else {
        match powershell_reads(s.skip(1)) {
            Some(rest) => Some(seq![s[0]] + rest),
            None => None,
        }
    }
}

/// A shell reads an escaped value back as exactly the value: nothing in it is
/// interpreted.
pub proof fn law_shell_reads_back(s: Seq<char>)
    ensures
        shell_reads(shell_quoted(s)) == Some(s),
{
    reveal_strlit("'");
    reveal_strlit("'\\''");
    assert("'"@ =~= seq!['\'']);
    assert("'\\''"@ =~= seq!['\'', '\\', '\'', '\'']);
    let q = replaced(s, "'"@, "'\\''"@);
    assert(shell_quoted(s)[0] == '\'');
    assert(shell_quoted(s).skip(1) =~= q + "'"@);
    lemma_shell_inner(s);
}

proof fn lemma_shell_inner(s: Seq<char>)
    requires
        "'"@ == seq!['\''],
        "'\\''"@ == seq!['\'', '\\', '\'', '\''],
    ensures
        shell_reads_quoted(replaced(s, "'"@, "'\\''"@) + "'"@) == Some(s),
    decreases s.len(),
{
    let q = replaced(s, "'"@, "'\\''"@) + "'"@;
    if s.len() == 0 {
        assert(q =~= seq!['\'']);
        assert(q.skip(1) =~= Seq::empty());
        assert(shell_reads(q.skip(1)) == Some(Seq::<char>::empty()));
        assert(s =~= Seq::empty());
    } else {
        let t = s.skip(1);
        lemma_shell_inner(t);
        let qt = replaced(t, "'"@, "'\\''"@) + "'"@;
        assert(seq![s[0]] + t =~= s);
        if s[0] == '\'' {
            assert(s.subrange(0, 1) =~= "'"@);
            assert("'"@.is_prefix_of(s));
            assert(q =~= seq!['\'', '\\', '\'', '\''] + qt);
            assert(q[0] == '\'');
            let q1 = q.skip(1);
            assert(q1[0] == '\\' && q1[1] == '\'');
            let q3 = q1.skip(2);
            assert(q3[0] == '\'');
            assert(q3.skip(1) =~= qt);
            assert(shell_reads(q3) == Some(t));
            assert(shell_reads(q1) == Some(seq!['\''] + t));
            assert(shell_reads_quoted(q) == shell_reads(q1));
        } else {
            assert(!"'"@.is_prefix_of(s)) by {
                if "'"@.is_prefix_of(s) {
                    assert(s.subrange(0, 1)[0] == '\'');
                }
            }
            assert(q =~= seq![s[0]] + qt);
            assert(q.skip(1) =~= qt);
        }
    }
}

/// PowerShell reads an escaped value back as exactly the value.
pub proof fn law_powershell_reads_back(s: Seq<char>)
    ensures
        powershell_quoted(s)[0] == '\'',
        powershell_reads(powershell_quoted(s).skip(1)) == Some(s),
{
    reveal_strlit("'");
    reveal_strlit("''");
    assert("'"@ =~= seq!['\'']);
    assert("''"@ =~= seq!['\'', '\'']);
    assert(powershell_quoted(s).skip(1) =~= replaced(s, "'"@, "''"@) + "'"@);
    lemma_powershell_inner(s);
}

proof fn lemma_powershell_inner(s: Seq<char>)
    requires
        "'"@ == seq!['\''],
        "''"@ == seq!['\'', '\''],
    ensures
        powershell_reads(replaced(s, "'"@, "''"@) + "'"@) == Some(s),
    decreases s.len(),
{
    let q = replaced(s, "'"@, "''"@) + "'"@;
    if s.len() == 0 {
        assert(q =~= seq!['\'']);
        assert(s =~= Seq::empty());
    } else {
        let t = s.skip(1);
        lemma_powershell_inner(t);
        let qt = replaced(t, "'"@, "''"@) + "'"@;
        assert(seq![s[0]] + t =~= s);
        if s[0] == '\'' {
            assert(s.subrange(0, 1) =~= "'"@);
            assert("'"@.is_prefix_of(s));
            assert(q =~= seq!['\'', '\''] + qt);
            assert(q[0] == '\'' && q[1] == '\'');
            assert(q.skip(2) =~= qt);
        } else {
            assert(!"'"@.is_prefix_of(s)) by {
                if "'"@.is_prefix_of(s) {
                    assert(s.subrange(0, 1)[0] == '\'');
                }
            }
            assert(q =~= seq![s[0]] + qt);
            assert(q.skip(1) =~= qt);
        }
    }
}

/// What stands before the first character of a pattern is kept; what follows
/// it goes on as if it stood alone.
proof fn lemma_replaced_after(a: Seq<char>, s: Seq<char>, pattern: Seq<char>, with: Seq<char>)
    requires
        pattern.len() > 0,
        forall|i: int| 0 <= i < a.len() ==> #[trigger] a[i] != pattern[0],
    ensures
        replaced(a + s, pattern, with) == a + replaced(s, pattern, with),
    decreases a.len(),
{
    let whole = a + s;
    if a.len() == 0 {
        assert(whole =~= s);
        assert(a + replaced(s, pattern, with) =~= replaced(s, pattern, with));
    } else {
        let b = a.skip(1);
        assert forall|i: int| 0 <= i < b.len() implies #[trigger] b[i] != pattern[0] by {
            assert(b[i] == a[i + 1]);
        }
        lemma_replaced_after(b, s, pattern, with);
        assert(whole.skip(1) =~= b + s);
        assert(whole[0] == a[0]);
        assert(seq![a[0]] + (b + replaced(s, pattern, with)) =~= a + replaced(s, pattern, with));
        if whole.len() < pattern.len() {
            lemma_replaced_short(s, pattern, with);
        } else if pattern.is_prefix_of(whole) {
            assert(whole.subrange(0, pattern.len() as int)[0] == whole[0]);
        }
    }
}

proof fn lemma_replaced_short(s: Seq<char>, pattern: Seq<char>, with: Seq<char>)
    requires
        s.len() < pattern.len(),
    ensures
        replaced(s, pattern, with) == s,
{
}

/// A placeholder takes the escaped value of its key, wherever it stands, and
/// the text around it stays as it is.
pub proof fn law_placeholders_take_their_values(
    a: Seq<char>,
    name: Seq<char>,
    b: Seq<char>,
    value: Seq<char>,
    how: Escape,
)
    requires
        forall|i: int| 0 <= i < a.len() ==> #[trigger] a[i] != '{',
        forall|i: int| 0 <= i < b.len() ==> #[trigger] b[i] != '{',
    ensures
        filled(a + "{{"@ + name + "}}"@ + b, seq![(name, value)], how) == a + escaped(how, value) + b,
{
    reveal_strlit("{{");
    assert("{{"@.len() == 2 && "{{"@[0] == '{');
    let mark = placeholder(name);
    let with = escaped(how, value);
    let values = seq![(name, value)];
    let template = a + "{{"@ + name + "}}"@ + b;
    assert(values.drop_last() =~= Seq::empty());
    assert(filled(template, values.drop_last(), how) == template);
    assert(template =~= a + (mark + b));
    assert(mark[0] == '{');
    lemma_replaced_after(a, mark + b, mark, with);
    assert(mark =~= (mark + b).subrange(0, mark.len() as int));
    assert((mark + b).skip(mark.len() as int) =~= b);
    lemma_replaced_after(b, Seq::empty(), mark, with);
    assert(b + Seq::empty() =~= b);
    assert(replaced(b, mark, with) == b);
    assert(a + (with + b) =~= a + with + b);
}

/// A placeholder that no argument is for is dropped, with the `:` or `=` that
/// stands before it; the rest stays as it is.
pub proof fn law_unfilled_placeholders_are_dropped(a: Seq<char>, sep: Seq<char>, name: Seq<char>, b: Seq<char>)
    requires
        forall|i: int| 0 <= i < a.len() ==> #[trigger] a[i] != '{',
        forall|i: int| 0 <= i < b.len() ==> #[trigger] b[i] != '{',
        forall|i: int| 0 <= i < name.len() ==> #[trigger] name[i] != '}' && name[i] != '{',
        sep == seq![':'] || sep == seq!['='] || sep.len() == 0 && (a.len() > 0 ==> a.last() != ':' && a.last() != '='),
    ensures
        stripped(a + sep + "{{"@ + name + "}}"@ + b) == a + b,
{
    reveal_strlit("{{");
    reveal_strlit("}}");
    assert("{{"@.len() == 2 && "}}"@.len() == 2);
    assert("{{"@[0] == '{' && "}}"@[0] == '}');
    let s = a + sep + "{{"@ + name + "}}"@ + b;
    let start: int = (a.len() + sep.len()) as int;
    let end: int = start + 2 + name.len();
    lemma_first_at(s, "{{"@, 0);
    assert(s.subrange(start, start + 2) =~= "{{"@);
    assert(occurs_at(s, "{{"@, start));
    let found = first_at(s, "{{"@, 0)->0;
    if found < start {
        assert(s.subrange(found, found + 2)[0] == s[found]);
        if found < a.len() {
            assert(s[found] == a[found]);
        } else {
            assert(s[found] == sep[found - a.len()]);
        }
    }
    assert(found == start);
    lemma_first_at(s, "}}"@, start);
    assert(s.subrange(end, end + 2) =~= "}}"@);
    assert(occurs_at(s, "}}"@, end));
    let closed = first_at(s, "}}"@, start)->0;
    if closed < end {
        assert(s.subrange(closed, closed + 2)[0] == s[closed]);
        if closed < start + 2 {
            assert(s[closed] == "{{"@[closed - start]);
            assert("{{"@[1] == '{');
        } else {
            assert(s[closed] == name[closed - start - 2]);
        }
    }
    assert(closed == end);
    if sep.len() > 0 {
        assert(s[start - 1] == sep[0]);
    } else if a.len() > 0 {
        assert(s[start - 1] == a.last());
    }
    assert(cut_from(s, start) == a.len());
    let rest = s.take(cut_from(s, start)) + s.skip(end + 2);
    assert(rest =~= a + b);
    assert(first_at(rest, "{{"@, 0) is None) by {
        lemma_first_at(rest, "{{"@, 0);
        if first_at(rest, "{{"@, 0) is Some {
            let k = first_at(rest, "{{"@, 0)->0;
            assert(rest.subrange(k, k + 2)[0] == rest[k]);
            if k < a.len() {
                assert(rest[k] == a[k]);
            } else {
                assert(rest[k] == b[k - a.len()]);
            }
        }
    }
    assert(stripped(rest) == rest);
    assert(rest.len() < s.len());
    assert(stripped(s) == stripped(rest));
}

/// Every argument is handed on under its name: a text as it is.
pub proof fn law_arguments_are_handed_on(members: Seq<(Seq<char>, JsonView)>, i: int)
    requires
        0 <= i < members.len(),
    ensures
        argument_texts(JsonView::Object(members)).len() == members.len(),
        argument_texts(JsonView::Object(members))[i].0 == members[i].0,
        members[i].1 is Text ==> argument_texts(JsonView::Object(members))[i].1 == members[i].1->Text_0,
        members[i].1 !is Text ==> argument_texts(JsonView::Object(members))[i].1 == printed(members[i].1),
{
}

/// How AppleScript reads the inside of a quoted text.
pub open spec fn applescript_reads(s: Seq<char>) -> Seq<char>
    decreases s.len(),
{
    if s.len() == 0 {
        Seq::empty()
    } else if s[0] == '\\' && s.len() > 1 {
        seq![s[1]] + applescript_reads(s.skip(2))
    } else {
        seq![s[0]] + applescript_reads(s.skip(1))
    }
}

/// A value that goes into an AppleScript stands between escaped quotes, with
/// every backslash and double quote in it escaped: it reads back as the value.
pub proof fn law_applescript_reads_back(s: Seq<char>)
    ensures
        ({
            let q = applescript_quoted(s);
            let inner = q.subrange(2, q.len() - 2);
            &&& q.len() >= 4
            &&& q[0] == '\\' && q[1] == '"' && q[q.len() - 2] == '\\' && q[q.len() - 1] == '"'
            &&& applescript_reads(inner) == s
        }),
{
    reveal_strlit("\\");
    reveal_strlit("\\\\");
    reveal_strlit("\"");
    reveal_strlit("\\\"");
    assert("\\"@ =~= seq!['\\']);
    assert("\\\\"@ =~= seq!['\\', '\\']);
    assert("\""@ =~= seq!['"']);
    assert("\\\""@ =~= seq!['\\', '"']);
    let inner = replaced(replaced(s, "\\"@, "\\\\"@), "\""@, "\\\""@);
    let q = applescript_quoted(s);
    assert(q.subrange(2, q.len() - 2) =~= inner);
    lemma_applescript_inner(s);
}

proof fn lemma_applescript_inner(s: Seq<char>)
    requires
        "\\"@ == seq!['\\'],
        "\\\\"@ == seq!['\\', '\\'],
        "\""@ == seq!['"'],
        "\\\""@ == seq!['\\', '"'],
    ensures
        applescript_reads(replaced(replaced(s, "\\"@, "\\\\"@), "\""@, "\\\""@)) == s,
    decreases s.len(),
{
    let first = replaced(s, "\\"@, "\\\\"@);
    let inner = replaced(first, "\""@, "\\\""@);
    if s.len() == 0 {
        assert(s =~= Seq::empty());
    } else {
        let t = s.skip(1);
        lemma_applescript_inner(t);
        let first_t = replaced(t, "\\"@, "\\\\"@);
        let inner_t = replaced(first_t, "\""@, "\\\""@);
        assert(seq![s[0]] + t =~= s);
        if s[0] == '\\' {
            assert("\\"@ =~= s.subrange(0, 1));
            assert(first =~= seq!['\\', '\\'] + first_t);
            lemma_replaced_after(seq!['\\', '\\'], first_t, "\""@, "\\\""@);
            assert(inner =~= seq!['\\', '\\'] + inner_t);
            assert(inner.skip(2) =~= inner_t);
        } else {
            if "\\"@.is_prefix_of(s) {
                assert(s.subrange(0, 1)[0] == '\\');
            }
            assert(first =~= seq![s[0]] + first_t);
            if s[0] == '"' {
                assert("\""@ =~= first.subrange(0, 1));
                assert(first.skip(1) =~= first_t);
                assert(inner =~= seq!['\\', '"'] + inner_t);
                assert(inner.skip(2) =~= inner_t);
            } else {
                lemma_replaced_after(seq![s[0]], first_t, "\""@, "\\\""@);
                assert(inner =~= seq![s[0]] + inner_t);
                assert(inner.skip(1) =~= inner_t);
            }
        }
    }
}

} // verus!
