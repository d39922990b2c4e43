//! Tools that run a process: commands, scripts and deep links.
use vstd::prelude::*;

use crate::json::{texts_view, Json};
use crate::shell::{Spawn, SpawnView};
use crate::template::{
    argument_texts, escape_shell, filled, shell_quoted, stripped, substitute, substitute_escaped, Escape,
};
use crate::text::{
    chars_of, ends_with, from_utf8_lossy, join_texts, joined_by, lemma_joined_hold, lowercased, occurs, text_in, to_lowercase, trim,
    trim_end, trimmed, trimmed_end,
};

verus! {

// ---------------------------------------------------------------------------
// Commands
// ---------------------------------------------------------------------------

/// A flag: an argument that begins with `-`.
pub open spec fn is_flag(arg: Seq<char>) -> bool {
    arg.len() > 0 && arg[0] == '-'
}

/// The arguments that are passed on, from position `i`: a flag with an empty
/// value is dropped together with its value, any other empty argument alone.
pub open spec fn kept_args(raw: Seq<Seq<char>>, i: int) -> Seq<Seq<char>>
    decreases raw.len() - i,
{
    if i < 0 || i >= raw.len() {
        Seq::empty()
    } else if is_flag(raw[i]) && i + 1 < raw.len() && raw[i + 1].len() == 0 {
        kept_args(raw, i + 2)
    } else if raw[i].len() == 0 {
        kept_args(raw, i + 1)
    } else {
        seq![raw[i]] + kept_args(raw, i + 1)
    }
}

/// Drops empty arguments, and the flag before an empty value.
pub fn drop_empty_args(raw: &Vec<String>) -> (r: Vec<String>)
    ensures
        texts_view(r@) == kept_args(texts_view(raw@), 0),
{
    let ghost all = texts_view(raw@);
    let mut out: Vec<String> = Vec::new();
    let mut i: usize = 0;
    assert(texts_view(out@) + kept_args(all, 0) =~= kept_args(all, 0));
    while i < raw.len()
        invariant
            i <= raw@.len(),
            all == texts_view(raw@),
            texts_view(out@) + kept_args(all, i as int) == kept_args(all, 0),
        decreases raw@.len() - i,
    {
        assert(all[i as int] == raw@[i as int]@);
        let flag = {
            let c = chars_of(raw[i].as_str());
            c.len() > 0 && c[0] == '-'
        };
        if flag && i + 1 < raw.len() && raw[i + 1].as_str().is_empty() {
            assert(all[i + 1] == raw@[i + 1]@);
            i += 2;
        } else if raw[i].as_str().is_empty() {
            assert(!(is_flag(all[i as int])));
            i += 1;
        } else {
            if i + 1 < raw.len() {
                assert(all[i + 1] == raw@[i + 1]@);
            }
            let ghost was = texts_view(out@);
            out.push(raw[i].clone());
            assert(texts_view(out@) =~= was.push(all[i as int]));
            assert(was + (seq![all[i as int]] + kept_args(all, i + 1)) =~= texts_view(out@) + kept_args(all, i + 1));
            i += 1;
        }
    }
    assert(texts_view(out@) + kept_args(all, i as int) =~= texts_view(out@));
    out
}

/// No empty argument is passed on.
pub proof fn law_no_empty_argument(raw: Seq<Seq<char>>, i: int, k: int)
    requires
        0 <= i,
        0 <= k < kept_args(raw, i).len(),
    ensures
        kept_args(raw, i)[k].len() > 0,
    decreases raw.len() - i,
{
    if i < raw.len() {
        if is_flag(raw[i]) && i + 1 < raw.len() && raw[i + 1].len() == 0 {
            law_no_empty_argument(raw, i + 2, k);
        } else if raw[i].len() == 0 {
            law_no_empty_argument(raw, i + 1, k);
        } else if k > 0 {
            law_no_empty_argument(raw, i + 1, k - 1);
        }
    }
}

/// Arguments that are all there are passed on as they are.
pub proof fn law_full_arguments_are_kept(raw: Seq<Seq<char>>, i: int)
    requires
        0 <= i <= raw.len(),
        forall|k: int| i <= k < raw.len() ==> (#[trigger] raw[k]).len() > 0,
    ensures
        kept_args(raw, i) == raw.skip(i),
    decreases raw.len() - i,
{
    if i < raw.len() {
        assert(raw[i].len() > 0);
        if i + 1 < raw.len() {
            assert(raw[i + 1].len() > 0);
        }
        law_full_arguments_are_kept(raw, i + 1);
        assert(seq![raw[i]] + raw.skip(i + 1) =~= raw.skip(i));
    } else {
        assert(raw.skip(i) =~= Seq::empty());
    }
}

/// What stands before position `d` has no say in what is passed on of the rest.
proof fn lemma_kept_shift(raw: Seq<Seq<char>>, rest: Seq<Seq<char>>, d: int, i: int)
    requires
        0 <= d,
        0 <= i,
        raw.len() == d + rest.len(),
        forall|k: int| 0 <= k < rest.len() ==> #[trigger] rest[k] == raw[d + k],
    ensures
        kept_args(raw, d + i) == kept_args(rest, i),
    decreases rest.len() - i,
{
    if i < rest.len() {
        assert(rest[i] == raw[d + i]);
        lemma_kept_shift(raw, rest, d, i + 1);
        if i + 1 < rest.len() {
            assert(rest[i + 1] == raw[d + i + 1]);
            lemma_kept_shift(raw, rest, d, i + 2);
        }
    }
}

/// Full arguments that an argument follows which is not empty, or that
/// nothing follows, are passed on, and then what is passed on of the rest.
proof fn lemma_kept_front(raw: Seq<Seq<char>>, n: int, i: int)
    requires
        0 <= i <= n <= raw.len(),
        forall|k: int| 0 <= k < n ==> (#[trigger] raw[k]).len() > 0,
        n < raw.len() ==> raw[n].len() > 0,
    ensures
        kept_args(raw, i) == raw.subrange(i, n) + kept_args(raw, n),
    decreases n - i,
{
    if i < n {
        assert(raw[i].len() > 0);
        if i + 1 < n {
            assert(raw[i + 1].len() > 0);
        }
        lemma_kept_front(raw, n, i + 1);
        assert(seq![raw[i]] + raw.subrange(i + 1, n) =~= raw.subrange(i, n));
        assert(seq![raw[i]] + (raw.subrange(i + 1, n) + kept_args(raw, n)) =~= raw.subrange(i, n) + kept_args(raw, n));
    } else {
        assert(raw.subrange(i, n) =~= Seq::empty());
        assert(raw.subrange(i, n) + kept_args(raw, n) =~= kept_args(raw, n));
    }
}

/// Where an argument begins with `-` and the one behind it is empty, neither
/// is passed on; what stands before them, and what is passed on of the
/// arguments behind them, is not touched by it.
pub proof fn law_flags_go_with_their_empty_values(a: Seq<Seq<char>>, flag: Seq<char>, b: Seq<Seq<char>>)
    requires
        forall|k: int| 0 <= k < a.len() ==> (#[trigger] a[k]).len() > 0,
        flag.len() > 0,
        flag[0] == '-',
    ensures
        kept_args(a + seq![flag, Seq::<char>::empty()] + b, 0) == a + kept_args(b, 0),
{
    let raw = a + seq![flag, Seq::<char>::empty()] + b;
    let n: int = a.len() as int;
    assert(raw[n] == flag);
    assert(raw[n + 1] == Seq::<char>::empty());
    assert forall|k: int| 0 <= k < n implies (#[trigger] raw[k]).len() > 0 by {
        assert(raw[k] == a[k]);
    }
    lemma_kept_front(raw, n, 0);
    assert(raw.subrange(0, n) =~= a);
    assert forall|k: int| 0 <= k < b.len() implies #[trigger] b[k] == raw[n + 2 + k] by {}
    lemma_kept_shift(raw, b, n + 2, 0);
}

/// An empty argument that no flag stands before is dropped alone.
pub proof fn law_empty_arguments_are_dropped_alone(a: Seq<Seq<char>>, b: Seq<Seq<char>>)
    requires
        forall|k: int| 0 <= k < a.len() ==> (#[trigger] a[k]).len() > 0,
        a.len() > 0 ==> a.last()[0] != '-',
    ensures
        kept_args(a + seq![Seq::<char>::empty()] + b, 0) == a + kept_args(b, 0),
{
    let raw = a + seq![Seq::<char>::empty()] + b;
    let n: int = a.len() as int;
    assert(raw[n] == Seq::<char>::empty());
    assert forall|k: int| 0 <= k < n implies (#[trigger] raw[k]).len() > 0 by {
        assert(raw[k] == a[k]);
    }
    assert forall|k: int| 0 <= k < b.len() implies #[trigger] b[k] == raw[n + 1 + k] by {}
    lemma_kept_shift(raw, b, n + 1, 0);
    assert(kept_args(raw, n) == kept_args(b, 0));
    if n > 0 {
        lemma_kept_front(raw, n - 1, 0);
        assert(raw[n - 1] == a.last());
        assert(raw.subrange(0, n - 1) + (seq![raw[n - 1]] + kept_args(b, 0)) =~= a + kept_args(b, 0));
    } else {
        assert(a + kept_args(b, 0) =~= kept_args(b, 0));
    }
}

/// A full argument that is not followed by an empty one is passed on, and
/// what is passed on of the others does not depend on it.
pub proof fn law_full_arguments_go_through(a: Seq<Seq<char>>, b: Seq<Seq<char>>)
    requires
        forall|k: int| 0 <= k < a.len() ==> (#[trigger] a[k]).len() > 0,
        b.len() > 0 ==> b[0].len() > 0,
    ensures
        kept_args(a + b, 0) == a + kept_args(b, 0),
{
    let raw = a + b;
    let n: int = a.len() as int;
    assert forall|k: int| 0 <= k < n implies (#[trigger] raw[k]).len() > 0 by {
        assert(raw[k] == a[k]);
    }
    if b.len() > 0 {
        assert(raw[n] == b[0]);
    }
    lemma_kept_front(raw, n, 0);
    assert(raw.subrange(0, n) =~= a);
    assert forall|k: int| 0 <= k < b.len() implies #[trigger] b[k] == raw[n + k] by {}
    lemma_kept_shift(raw, b, n, 0);
}

/// Each text quoted for a POSIX shell.
pub open spec fn all_quoted(v: Seq<Seq<char>>) -> Seq<Seq<char>> {
    Seq::new(v.len(), |i: int| shell_quoted(v[i]))
}

/// The line that a POSIX shell runs: every token in quotes.
pub open spec fn quoted_line(command: Seq<char>, args: Seq<Seq<char>>) -> Seq<char> {
    joined_by(seq![shell_quoted(command)] + all_quoted(args), " "@)
}

/// The process for a command and its arguments.
pub open spec fn command_spawn(command: Seq<char>, args: Seq<Seq<char>>, shell: bool, windows: bool) -> SpawnView {
    if !shell {
        SpawnView { program: command, args }
    } else if windows {
        SpawnView { program: "cmd"@, args: seq!["/C"@, command] + args }
    } else {
        SpawnView { program: "sh"@, args: seq!["-c"@, quoted_line(command, args)] }
    }
}

/// A command of Windows that only a shell can run, by its name in lower case.
pub open spec fn batch_file(lower: Seq<char>) -> bool {
    ".cmd"@.is_suffix_of(lower) || ".bat"@.is_suffix_of(lower)
}

/// The process for a command whose arguments are filled in.
pub fn spawn_command(command: String, args: Vec<String>, shell: bool, windows: bool) -> (r: Spawn)
    ensures
        r@ == command_spawn(command@, texts_view(args@), shell, windows),
{
    if !shell {
        return Spawn { program: command, args };
    }
    if windows {
        let mut all: Vec<String> = Vec::new();
        all.push("/C".to_owned());
        all.push(command.clone());
        let mut i: usize = 0;
        assert(texts_view(all@) =~= seq!["/C"@, command@] + texts_view(args@).take(0));
        while i < args.len()
            invariant
                i <= args@.len(),
                texts_view(all@) == seq!["/C"@, command@] + texts_view(args@).take(i as int),
            decreases args@.len() - i,
        {
            let ghost was = texts_view(all@);
            all.push(args[i].clone());
            assert(texts_view(all@) =~= was.push(args@[i as int]@));
            assert(texts_view(all@) =~= seq!["/C"@, command@] + texts_view(args@).take(i + 1));
            i += 1;
        }
        assert(texts_view(args@).take(i as int) =~= texts_view(args@));
        return Spawn { program: "cmd".to_owned(), args: all };
    }
    let mut parts: Vec<String> = Vec::new();
    parts.push(escape_shell(command.as_str()));
    let ghost want = seq![shell_quoted(command@)] + all_quoted(texts_view(args@));
    let mut i: usize = 0;
    while i < args.len()
        invariant
            i <= args@.len(),
            want == seq![shell_quoted(command@)] + all_quoted(texts_view(args@)),
            parts@.len() == i + 1,
            forall|j: int| 0 <= j < parts@.len() ==> (#[trigger] parts@[j])@ == want[j],
        decreases args@.len() - i,
    {
        parts.push(escape_shell(args[i].as_str()));
        assert(want[i + 1] == shell_quoted(args@[i as int]@));
        i += 1;
    }
    let line = join_texts(&parts, " ");
    assert(Seq::new(parts@.len(), |i: int| parts@[i]@) =~= want);
    let mut all: Vec<String> = Vec::new();
    all.push("-c".to_owned());
    all.push(line);
    let r = Spawn { program: "sh".to_owned(), args: all };
    assert(r@.args =~= seq!["-c"@, quoted_line(command@, texts_view(args@))]);
    r
}

/// `template` filled in from `arguments`.
pub open spec fn filled_in(template: Seq<char>, arguments: crate::json::JsonView, how: Escape) -> Seq<char> {
    stripped(filled(template, argument_texts(arguments), how))
}

/// Each template filled in from `arguments`.
pub open spec fn all_filled_in(templates: Seq<Seq<char>>, arguments: crate::json::JsonView) -> Seq<Seq<char>> {
    Seq::new(templates.len(), |i: int| filled_in(templates[i], arguments, Escape::Verbatim))
}

/// The process for a tool that runs a command.
///
/// Any `{{param}}` placeholder in `command` or `args` is replaced by the
/// matching argument; what stays empty is dropped.  Without `shell` the
/// process is started directly, so that arguments are passed verbatim.
pub fn plan_command(command: &str, args: &Vec<String>, shell: bool, arguments: &Json, windows: bool) -> (r: Spawn)
    ensures
        ({
            let program = filled_in(command@, arguments@, Escape::Verbatim);
            let kept = kept_args(all_filled_in(texts_view(args@), arguments@), 0);
            r@ == command_spawn(program, kept, shell || (windows && batch_file(lowercased(program))), windows)
        }),
{
    let program = substitute(command, arguments);
    let mut raw: Vec<String> = Vec::new();
    let mut i: usize = 0;
    while i < args.len()
        invariant
            i <= args@.len(),
            raw@.len() == i,
            forall|j: int|
                0 <= j < i ==> (#[trigger] raw@[j])@ == filled_in(args@[j]@, arguments@, Escape::Verbatim),
        decreases args@.len() - i,
    {
        raw.push(substitute(args[i].as_str(), arguments));
        i += 1;
    }
    assert(texts_view(raw@) =~= all_filled_in(texts_view(args@), arguments@));
    let kept = drop_empty_args(&raw);
    let in_shell = if shell {
        true
    } else if windows {
        let lower = to_lowercase(program.as_str());
        ends_with(lower.as_str(), ".cmd") || ends_with(lower.as_str(), ".bat")
    } else {
        false
    };
    spawn_command(program, kept, in_shell, windows)
}

// ---------------------------------------------------------------------------
// Results
// ---------------------------------------------------------------------------

/// A finished process.
pub struct Finished {
    pub success: bool,
    /// How the process ended, in words.
    pub status: String,
    pub stdout: Vec<u8>,
    pub stderr: Vec<u8>,
}

/// What a finished command gives: its output, or an error.
pub fn command_result(command: &str, done: &Finished) -> (r: Result<String, String>)
    ensures
        match r {
            Ok(t) => done.success && t@ == trimmed_end(text_in(done.stdout@)),
            Err(e) => !done.success && e@ == "The underlying command (`"@ + command@ + "`) exited with "@ + done.status@
                + ". stderr: "@ + trimmed(text_in(done.stderr@))
                + ". This may indicate a configuration issue on the node or missing dependencies."@,
        },
{
    if done.success {
        let out = from_utf8_lossy(done.stdout.as_slice());
        return Ok(trim_end(out.as_str()));
    }
    let err = from_utf8_lossy(done.stderr.as_slice());
    let mut e = "The underlying command (`".to_owned();
    e.push_str(command);
    e.push_str("`) exited with ");
    e.push_str(done.status.as_str());
    e.push_str(". stderr: ");
    e.push_str(trim(err.as_str()).as_str());
    e.push_str(". This may indicate a configuration issue on the node or missing dependencies.");
    Err(e)
}

/// The process for a PowerShell script.
pub fn plan_powershell(script: &str, arguments: &Json) -> (r: Spawn)
    ensures
        r@ == (SpawnView {
            program: "powershell"@,
            args: seq![
                "-NoProfile"@,
                "-NonInteractive"@,
                "-Command"@,
                filled_in(script@, arguments@, Escape::PowerShell),
            ],
        }),
{
    let mut args: Vec<String> = Vec::new();
    args.push("-NoProfile".to_owned());
    args.push("-NonInteractive".to_owned());
    args.push("-Command".to_owned());
    args.push(substitute_escaped(script, arguments, Escape::PowerShell));
    let r = Spawn { program: "powershell".to_owned(), args };
    assert(r@.args =~= seq![
        "-NoProfile"@,
        "-NonInteractive"@,
        "-Command"@,
        filled_in(script@, arguments@, Escape::PowerShell),
    ]);
    r
}

/// What a finished PowerShell script gives.
pub fn powershell_result(done: &Finished) -> (r: Result<String, String>)
    ensures
        match r {
            Ok(t) => done.success && t@ == trimmed_end(text_in(done.stdout@)),
            Err(e) => !done.success && e@ == "The PowerShell script exited with "@ + done.status@ + ". stderr: "@
                + trimmed(text_in(done.stderr@))
                + ". This may indicate a script error or missing prerequisites on the node."@,
        },
{
    if done.success {
        let out = from_utf8_lossy(done.stdout.as_slice());
        return Ok(trim_end(out.as_str()));
    }
    let err = from_utf8_lossy(done.stderr.as_slice());
    let mut e = "The PowerShell script exited with ".to_owned();
    e.push_str(done.status.as_str());
    e.push_str(". stderr: ");
    e.push_str(trim(err.as_str()).as_str());
    e.push_str(". This may indicate a script error or missing prerequisites on the node.");
    Err(e)
}

/// The process for an AppleScript; only macOS can run one.
pub fn plan_applescript(script: &str, arguments: &Json, macos: bool) -> (r: Result<Spawn, String>)
    ensures
        match r {
            Ok(s) => macos && s@ == (SpawnView {
                program: "osascript"@,
                args: seq!["-e"@, filled_in(script@, arguments@, Escape::AppleScript)],
            }),
            Err(e) => !macos && e@
                == "AppleScript tools are only supported on macOS. This tool cannot run on the current platform."@,
        },
{
    if !macos {
        return Err(
            "AppleScript tools are only supported on macOS. This tool cannot run on the current platform.".to_owned(),
        );
    }
    let mut args: Vec<String> = Vec::new();
    args.push("-e".to_owned());
    args.push(substitute_escaped(script, arguments, Escape::AppleScript));
    let s = Spawn { program: "osascript".to_owned(), args };
    assert(s@.args =~= seq!["-e"@, filled_in(script@, arguments@, Escape::AppleScript)]);
    Ok(s)
}

/// What a finished AppleScript gives.
pub fn applescript_result(done: &Finished) -> (r: Result<String, String>)
    ensures
        match r {
            Ok(t) => done.success && t@ == trimmed_end(text_in(done.stdout@)),
            Err(e) => !done.success && e@ == "The AppleScript exited with "@ + done.status@ + ". stderr: "@ + trimmed(
                text_in(done.stderr@),
            ) + ". This may indicate a script error or the target application denied access."@,
        },
{
    if done.success {
        let out = from_utf8_lossy(done.stdout.as_slice());
        return Ok(trim_end(out.as_str()));
    }
    let err = from_utf8_lossy(done.stderr.as_slice());
    let mut e = "The AppleScript exited with ".to_owned();
    e.push_str(done.status.as_str());
    e.push_str(". stderr: ");
    e.push_str(trim(err.as_str()).as_str());
    e.push_str(". This may indicate a script error or the target application denied access.");
    Err(e)
}

// ---------------------------------------------------------------------------
// Deep links
// ---------------------------------------------------------------------------

/// The URL that a deep link opens.
pub fn deeplink_url(template: &str, arguments: &Json) -> (r: String)
    ensures
        r@ == filled_in(template@, arguments@, Escape::Verbatim),
{
    substitute(template, arguments)
}

/// What a deep link gives: nothing comes back from the application.
pub fn deeplink_result() -> (r: String)
    ensures
        r@ == "{\"status\":\"invoked\"}"@,
{
    "{\"status\":\"invoked\"}".to_owned()
}

/// The line for a POSIX shell is the command and then every argument, each in
/// quotes, with one space between each two.
pub proof fn law_shell_lines_hold_every_token(command: Seq<char>, args: Seq<Seq<char>>, last: Seq<char>)
    ensures
        quoted_line(command, Seq::empty()) == shell_quoted(command),
        quoted_line(command, args.push(last)) == quoted_line(command, args) + " "@ + shell_quoted(last),
{
    let none = Seq::<Seq<char>>::empty();
    assert(seq![shell_quoted(command)] + all_quoted(none) =~= seq![shell_quoted(command)]);
    let tokens = seq![shell_quoted(command)] + all_quoted(args);
    let more = seq![shell_quoted(command)] + all_quoted(args.push(last));
    assert(all_quoted(args.push(last)) =~= all_quoted(args).push(shell_quoted(last)));
    assert(more.drop_last() =~= tokens);
    assert(more.last() == shell_quoted(last));
}

/// Without a shell the arguments reach the command one by one, as they are; a
/// shell of Windows gets the command and the arguments apart, and a POSIX shell
/// gets one line.
pub proof fn law_arguments_reach_the_command(command: Seq<char>, args: Seq<Seq<char>>, windows: bool, i: int)
    requires
        0 <= i < args.len(),
    ensures
        command_spawn(command, args, false, windows).program == command,
        command_spawn(command, args, false, windows).args == args,
        command_spawn(command, args, true, true).program == "cmd"@,
        command_spawn(command, args, true, true).args.len() == args.len() + 2,
        command_spawn(command, args, true, true).args[0] == "/C"@,
        command_spawn(command, args, true, true).args[1] == command,
        command_spawn(command, args, true, true).args[i + 2] == args[i],
        command_spawn(command, args, true, false).program == "sh"@,
        command_spawn(command, args, true, false).args.len() == 2,
        command_spawn(command, args, true, false).args[0] == "-c"@,
        occurs(command_spawn(command, args, true, false).args[1], shell_quoted(args[i])),
        occurs(command_spawn(command, args, true, false).args[1], shell_quoted(command)),
{
    let tokens = seq![shell_quoted(command)] + all_quoted(args);
    lemma_joined_hold(tokens, " "@, i + 1);
    lemma_joined_hold(tokens, " "@, 0);
    assert(tokens[i + 1] == shell_quoted(args[i]));
}

} // verus!
