//! The `shell` tool: which command may run, how, and what is reported.
use vstd::prelude::*;
use vstd::utf8::{encode_scalar, encode_utf8};

use crate::config::ShellConfig;
use crate::json::{string_view, texts_view, Json, JsonView};
use crate::schema::{define, definition, typed, typed_schema};
use crate::text::{
    chars_of, contains, decimal, decimal_text, from_utf8_lossy, lowercased, occurs, signed_decimal, signed_text,
    text_in, text_of, to_lowercase,
};

verus! {

/// Maximum timeout a caller can request, in seconds.
pub const MAX_TIMEOUT_SECS: u64 = 300;

// ---------------------------------------------------------------------------
// Safety
// ---------------------------------------------------------------------------

/// Command patterns that are always blocked.
pub open spec fn builtin_patterns() -> Seq<Seq<char>> {
    seq![
        "rm -rf /"@,
        "rm -rf /*"@,
        "mkfs"@,
        "dd if="@,
        ":(){ :|:& };:"@,
        "shutdown"@,
        "reboot"@,
        "halt"@,
        "init 0"@,
        "init 6"@,
        "> /dev/sd"@,
        "> /dev/nvme"@,
        "format c:"@,
    ]
}

/// Command patterns that are always blocked.
fn builtin_pattern_list() -> (r: Vec<&'static str>)
    ensures
        r@.len() == builtin_patterns().len(),
        forall|i: int| 0 <= i < r@.len() ==> (#[trigger] r@[i])@ == builtin_patterns()[i],
{
    let mut v: Vec<&'static str> = Vec::new();
    v.push("rm -rf /");
    v.push("rm -rf /*");
    v.push("mkfs");
    v.push("dd if=");
    v.push(":(){ :|:& };:");
    v.push("shutdown");
    v.push("reboot");
    v.push("halt");
    v.push("init 0");
    v.push("init 6");
    v.push("> /dev/sd");
    v.push("> /dev/nvme");
    v.push("format c:");
    v
}

/// The position of the first pattern that stands in `lower`, or the number of
/// patterns.
pub open spec fn first_pattern(lower: Seq<char>, patterns: Seq<Seq<char>>) -> int
    decreases patterns.len(),
{
    if patterns.len() == 0 {
        0
    } else if occurs(lower, patterns[0]) {
        0
    } else {
        1 + first_pattern(lower, patterns.skip(1))
    }
}

proof fn lemma_first_pattern(lower: Seq<char>, patterns: Seq<Seq<char>>, i: int)
    requires
        0 <= i <= patterns.len(),
        i < patterns.len() ==> occurs(lower, patterns[i]),
        forall|j: int| 0 <= j < i ==> !occurs(lower, #[trigger] patterns[j]),
    ensures
        first_pattern(lower, patterns) == i,
    decreases patterns.len(),
{
    if i > 0 {
        assert(!occurs(lower, patterns[0]));
        let rest = patterns.skip(1);
        assert forall|j: int| 0 <= j < i - 1 implies !occurs(lower, #[trigger] rest[j]) by {
            assert(rest[j] == patterns[j + 1]);
        }
        if i < patterns.len() {
            assert(rest[i - 1] == patterns[i]);
        }
        lemma_first_pattern(lower, rest, i - 1);
    }
}

/// Why a command is blocked: a built-in pattern, or else a configured one,
/// stands in it.  `lower` is the command and `extra_lower` the configured
/// patterns in lower case.
pub open spec fn block_reason(lower: Seq<char>, extra: Seq<Seq<char>>, extra_lower: Seq<Seq<char>>) -> Option<Seq<char>> {
    let b = first_pattern(lower, builtin_patterns());
    let e = first_pattern(lower, extra_lower);
    if b < builtin_patterns().len() {
        Some(
            "Command blocked by safety guard: matches pattern \""@ + builtin_patterns()[b]
                + "\". If you need to run this command, do so from a terminal directly."@,
        )
    } else if e < extra_lower.len() {
        Some(
            "Command blocked by safety guard: matches user-configured pattern \""@ + extra[e]
                + "\". Edit [tools.shell].blocked_patterns in config.toml to change."@,
        )
    } else {
        None
    }
}

/// Each text in lower case.
pub open spec fn all_lowercased(v: Seq<Seq<char>>) -> Seq<Seq<char>> {
    Seq::new(v.len(), |i: int| lowercased(v[i]))
}

/// Whether a command in lower case is blocked, and why.
pub fn check_lowered(lower: &str, extra: &[String], extra_lower: &Vec<String>) -> (r: Result<(), String>)
    requires
        extra@.len() == extra_lower@.len(),
    ensures
        match r {
            Ok(_) => block_reason(lower@, texts_view(extra@), texts_view(extra_lower@)) is None,
            Err(e) => block_reason(lower@, texts_view(extra@), texts_view(extra_lower@)) == Some(e@),
        },
{
    let builtin = builtin_pattern_list();
    let ghost patterns = builtin_patterns();
    let mut i: usize = 0;
    while i < builtin.len()
        invariant
            i <= builtin@.len(),
            patterns == builtin_patterns(),
            builtin@.len() == patterns.len(),
            forall|j: int| 0 <= j < builtin@.len() ==> (#[trigger] builtin@[j])@ == patterns[j],
            forall|j: int| 0 <= j < i ==> !occurs(lower@, #[trigger] patterns[j]),
        decreases builtin@.len() - i,
    {
        if contains(lower, builtin[i]) {
            proof {
                lemma_first_pattern(lower@, patterns, i as int);
            }
            let mut e = "Command blocked by safety guard: matches pattern \"".to_owned();
            e.push_str(builtin[i]);
            e.push_str("\". If you need to run this command, do so from a terminal directly.");
            return Err(e);
        }
        i += 1;
    }
    proof {
        lemma_first_pattern(lower@, patterns, patterns.len() as int);
    }
    let ghost lows = texts_view(extra_lower@);
    let mut k: usize = 0;
    while k < extra_lower.len()
        invariant
            k <= extra_lower@.len(),
            lows == texts_view(extra_lower@),
            extra@.len() == extra_lower@.len(),
            first_pattern(lower@, builtin_patterns()) == builtin_patterns().len(),
            forall|j: int| 0 <= j < k ==> !occurs(lower@, #[trigger] lows[j]),
        decreases extra_lower@.len() - k,
    {
        if contains(lower, extra_lower[k].as_str()) {
            proof {
                assert(lows[k as int] == extra_lower@[k as int]@);
                lemma_first_pattern(lower@, lows, k as int);
            }
            let mut e = "Command blocked by safety guard: matches user-configured pattern \"".to_owned();
            e.push_str(extra[k].as_str());
            e.push_str("\". Edit [tools.shell].blocked_patterns in config.toml to change.");
            assert(texts_view(extra@)[k as int] == extra@[k as int]@);
            return Err(e);
        }
        k += 1;
    }
    proof {
        lemma_first_pattern(lower@, lows, lows.len() as int);
    }
    Ok(())
}

/// Checks a command against the built-in patterns first, then against any
/// configured ones, without regard to case.
pub fn check_blocked(command: &str, extra_patterns: &[String]) -> (r: Result<(), String>)
    ensures
        ({
            let reason = block_reason(
                lowercased(command@),
                texts_view(extra_patterns@),
                all_lowercased(texts_view(extra_patterns@)),
            );
            match r {
                Ok(_) => reason is None,
                Err(e) => reason == Some(e@),
            }
        }),
{
    let lower = to_lowercase(command);
    let mut lows: Vec<String> = Vec::new();
    let mut i: usize = 0;
    while i < extra_patterns.len()
        invariant
            i <= extra_patterns@.len(),
            lows@.len() == i,
            forall|j: int| 0 <= j < i ==> (#[trigger] lows@[j])@ == lowercased(extra_patterns@[j]@),
        decreases extra_patterns@.len() - i,
    {
        lows.push(to_lowercase(extra_patterns[i].as_str()));
        i += 1;
    }
    assert(texts_view(lows@) =~= all_lowercased(texts_view(extra_patterns@)));
    check_lowered(lower.as_str(), extra_patterns, &lows)
}

/// The built-in patterns cannot be configured away: what they block is blocked
/// whatever else is configured.
pub proof fn law_builtin_patterns_always_block(lower: Seq<char>, i: int, extra: Seq<Seq<char>>, extra_lower: Seq<Seq<char>>)
    requires
        0 <= i < builtin_patterns().len(),
        occurs(lower, builtin_patterns()[i]),
    ensures
        block_reason(lower, extra, extra_lower) is Some,
{
    lemma_found(lower, builtin_patterns(), i);
}

/// Configured patterns can only add to what is blocked.
pub proof fn law_configured_patterns_only_add(lower: Seq<char>, extra: Seq<Seq<char>>, extra_lower: Seq<Seq<char>>, i: int)
    requires
        extra.len() == extra_lower.len(),
    ensures
        block_reason(lower, Seq::empty(), Seq::empty()) is Some ==> block_reason(lower, extra, extra_lower) is Some,
        0 <= i < extra_lower.len() && occurs(lower, extra_lower[i]) ==> block_reason(lower, extra, extra_lower) is Some,
{
    if 0 <= i < extra_lower.len() && occurs(lower, extra_lower[i]) {
        lemma_found(lower, extra_lower, i);
    }
}

proof fn lemma_found(lower: Seq<char>, patterns: Seq<Seq<char>>, i: int)
    requires
        0 <= i < patterns.len(),
        occurs(lower, patterns[i]),
    ensures
        0 <= first_pattern(lower, patterns) <= i,
    decreases patterns.len(),
{
    if !occurs(lower, patterns[0]) {
        let rest = patterns.skip(1);
        assert(rest[i - 1] == patterns[i]);
        lemma_found(lower, rest, i - 1);
    }
}

// ---------------------------------------------------------------------------
// Running
// ---------------------------------------------------------------------------

/// A process to start.
pub struct Spawn {
    pub program: String,
    pub args: Vec<String>,
}

/// The model of a process to start.
pub struct SpawnView {
    pub program: Seq<char>,
    pub args: Seq<Seq<char>>,
}

impl View for Spawn {
    type V = SpawnView;

    open spec fn view(&self) -> SpawnView {
        SpawnView { program: self.program@, args: texts_view(self.args@) }
    }
}

/// A shell command that may run.
pub struct ShellPlan {
    pub spawn: Spawn,
    pub timeout_secs: u64,
    /// Where to run; the user's home where nothing is given.
    pub workdir: Option<String>,
}

/// What makes PowerShell print UTF-8 before it runs a command.
pub open spec fn utf8_prelude() -> Seq<char> {
    "$OutputEncoding = [Console]::OutputEncoding = [Console]::InputEncoding = [System.Text.Encoding]::UTF8; "@
}

/// The process that runs `command` in the system shell.
pub open spec fn shell_spawn(command: Seq<char>, windows: bool) -> SpawnView {
    if windows {
        SpawnView {
            program: "powershell"@,
            args: seq!["-NoProfile"@, "-NonInteractive"@, "-Command"@, utf8_prelude() + command],
        }
    } else {
        SpawnView { program: "sh"@, args: seq!["-c"@, command] }
    }
}

/// The process that runs `command` in the system shell.
pub fn shell_process(command: &str, windows: bool) -> (r: Spawn)
    ensures
        r@ == shell_spawn(command@, windows),
{
    let mut args: Vec<String> = Vec::new();
    if windows {
        let mut c =
            "$OutputEncoding = [Console]::OutputEncoding = [Console]::InputEncoding = [System.Text.Encoding]::UTF8; ".to_owned();
        c.push_str(command);
        args.push("-NoProfile".to_owned());
        args.push("-NonInteractive".to_owned());
        args.push("-Command".to_owned());
        args.push(c);
        let r = Spawn { program: "powershell".to_owned(), args };
        assert(r@.args =~= shell_spawn(command@, windows).args);
        r
    } else {
        args.push("-c".to_owned());
        args.push(command.to_owned());
        let r = Spawn { program: "sh".to_owned(), args };
        assert(r@.args =~= shell_spawn(command@, windows).args);
        r
    }
}

/// The timeout of a call: the requested or else the configured one, at most
/// the maximum.
pub open spec fn timeout_of(arguments: JsonView, default_secs: int) -> int {
    let wanted = match arguments.natural_at("timeout_secs"@) {
        Some(n) => n,
        None => default_secs,
    };
    if wanted < MAX_TIMEOUT_SECS {
        wanted
    } else {
        MAX_TIMEOUT_SECS as int
    }
}

/// What a call of the tool is answered before anything runs: the error, or
/// nothing where the command may run.
pub open spec fn shell_refusal(arguments: JsonView, patterns: Seq<Seq<char>>) -> Option<Seq<char>> {
    match arguments.text_at("command"@) {
        None => Some("missing required field: command"@),
        Some(command) => block_reason(lowercased(command), patterns, all_lowercased(patterns)),
    }
}

/// Plans a call of the tool.
pub fn handle(arguments: &Json, cfg: &ShellConfig, windows: bool) -> (r: Result<ShellPlan, String>)
    ensures
        match r {
            Ok(p) => shell_refusal(arguments@, cfg@.blocked_patterns) is None && p.spawn@ == shell_spawn(
                arguments@.text_at("command"@)->0,
                windows,
            ) && p.timeout_secs == timeout_of(arguments@, cfg@.default_timeout_secs) && string_view(p.workdir)
                == arguments@.text_at("workdir"@),
            Err(e) => shell_refusal(arguments@, cfg@.blocked_patterns) == Some(e@),
        },
{
    let command = match arguments.str_at("command") {
        Some(c) => c,
        None => return Err("missing required field: command".to_owned()),
    };
    match check_blocked(command, cfg.blocked_patterns.as_slice()) {
        Ok(_) => {},
        Err(e) => return Err(e),
    }
    let wanted: u64 = match arguments.u64_at("timeout_secs") {
        Some(n) => n,
        None => cfg.default_timeout_secs,
    };
    let timeout_secs: u64 = if wanted < MAX_TIMEOUT_SECS {
        wanted
    } else {
        MAX_TIMEOUT_SECS
    };
    let workdir = match arguments.str_at("workdir") {
        Some(d) => Some(d.to_owned()),
        None => None,
    };
    Ok(ShellPlan { spawn: shell_process(command, windows), timeout_secs, workdir })
}

/// The error for a command that ran too long.
pub fn timeout_error(timeout_secs: u64) -> (r: String)
    ensures
        r@ == "command timed out after "@ + decimal(timeout_secs as nat) + "s"@,
{
    let mut r = "command timed out after ".to_owned();
    r.push_str(decimal_text(timeout_secs).as_str());
    r.push_str("s");
    r
}

// ---------------------------------------------------------------------------
// Output
// ---------------------------------------------------------------------------

/// The longest prefix whose UTF-8 form has at most `max` bytes.
pub open spec fn head(s: Seq<char>, max: int) -> Seq<char>
    decreases s.len(),
{
    if s.len() == 0 || encode_utf8(s).len() <= max {
        s
    } else {
        head(s.drop_last(), max)
    }
}

/// A text of more than `max` bytes cut to the characters that fit into `max`
/// bytes, with a note.
pub open spec fn truncated(s: Seq<char>, max: int) -> Seq<char> {
    if encode_utf8(s).len() > max {
        head(s, max) + "\n\n... (output truncated at "@ + decimal(max as nat) + " bytes)"@
    } else {
        s
    }
}

/// A character more makes a text longer by the character's bytes.
proof fn lemma_one_more(s: Seq<char>, c: char)
    ensures
        encode_utf8(s.push(c)).len() == encode_utf8(s).len() + encode_scalar(c as u32).len(),
    decreases s.len(),
{
    if s.len() == 0 {
        assert(s.push(c).drop_first() =~= s);
    } else {
        assert(s.push(c).drop_first() =~= s.drop_first().push(c));
        lemma_one_more(s.drop_first(), c);
    }
}

/// The prefix that is kept: it fits, and it does not with one character more.
proof fn lemma_head(s: Seq<char>, n: int, max: int)
    requires
        0 <= n < s.len(),
        encode_utf8(s.take(n)).len() <= max,
        encode_utf8(s.take(n + 1)).len() > max,
    ensures
        head(s, max) == s.take(n),
        encode_utf8(s).len() > max,
    decreases s.len(),
{
    let shorter = s.drop_last();
    assert(s =~= shorter.push(s.last()));
    lemma_one_more(shorter, s.last());
    if n + 1 == s.len() {
        assert(s.take(n + 1) =~= s);
        assert(shorter =~= s.take(n));
        assert(head(shorter, max) == shorter);
    } else {
        assert(shorter.take(n) =~= s.take(n));
        assert(shorter.take(n + 1) =~= s.take(n + 1));
        lemma_head(shorter, n, max);
    }
}

/// How many bytes a character takes in UTF-8.
fn width(c: char) -> (r: usize)
    ensures
        r == encode_scalar(c as u32).len(),
        1 <= r <= 4,
{
    let v: u32 = c as u32;
    if v < 0x80 {
        1
    } else if v < 0x800 {
        2
    } else if v < 0x1_0000 {
        3
    } else {
        4
    }
}

/// Cuts a text of more than `max_bytes` bytes.
pub fn truncate_text(s: &str, max_bytes: usize) -> (r: String)
    ensures
        r@ == truncated(s@, max_bytes as int),
{
    if s.as_bytes().len() > max_bytes {
        let chars = chars_of(s);
        let mut used: usize = 0;
        let mut n: usize = 0;
        assert(s@.take(0) =~= Seq::empty());
        while n < chars.len() && width(chars[n]) <= max_bytes - used
            invariant
                chars@ == s@,
                n <= chars@.len(),
                used == encode_utf8(s@.take(n as int)).len(),
                used <= max_bytes,
            decreases chars@.len() - n,
        {
            proof {
                assert(s@.take(n + 1) =~= s@.take(n as int).push(s@[n as int]));
                lemma_one_more(s@.take(n as int), s@[n as int]);
            }
            used = used + width(chars[n]);
            n += 1;
        }
        proof {
            if n == s@.len() {
                assert(s@.take(n as int) =~= s@);
            } else {
                assert(s@.take(n + 1) =~= s@.take(n as int).push(s@[n as int]));
                lemma_one_more(s@.take(n as int), s@[n as int]);
                lemma_head(s@, n as int, max_bytes as int);
            }
        }
        let mut r = text_of(&chars, 0, n);
        assert(r@ =~= head(s@, max_bytes as int));
        r.push_str("\n\n... (output truncated at ");
        r.push_str(decimal_text(max_bytes as u64).as_str());
        r.push_str(" bytes)");
        r
    } else {
        s.to_owned()
    }
}

/// Raw output as text, cut if necessary.
pub fn truncate_output(bytes: &[u8], max_bytes: usize) -> (r: String)
    ensures
        r@ == truncated(text_in(bytes@), max_bytes as int),
{
    let s = from_utf8_lossy(bytes);
    truncate_text(s.as_str(), max_bytes)
}

/// What standard output and standard error give together.
pub open spec fn streams(stdout: Seq<char>, stderr: Seq<char>) -> Seq<char> {
    if stderr.len() == 0 {
        if stdout.len() == 0 {
            "(no output)"@
        } else {
            stdout
        }
    } else if stdout.len() == 0 {
        stderr
    } else {
        stdout + "\n--- stderr ---\n"@ + stderr
    }
}

/// What is reported of a finished command.
pub open spec fn report(exit_code: int, stdout: Seq<char>, stderr: Seq<char>) -> Seq<char> {
    if exit_code != 0 {
        streams(stdout, stderr) + "\n\n[exit code: "@ + signed_decimal(exit_code) + "]"@
    } else {
        streams(stdout, stderr)
    }
}

/// Reports a finished command.
pub fn shell_report(exit_code: i32, stdout: &str, stderr: &str) -> (r: String)
    ensures
        r@ == report(exit_code as int, stdout@, stderr@),
{
    let mut result = stdout.to_owned();
    if !stderr.is_empty() {
        if !stdout.is_empty() {
            result.push_str("\n--- stderr ---\n");
            result.push_str(stderr);
        } else {
            result = stderr.to_owned();
        }
    } else if stdout.is_empty() {
        result = "(no output)".to_owned();
    }
    assert(result@ =~= streams(stdout@, stderr@));
    if exit_code != 0 {
        result.push_str("\n\n[exit code: ");
        result.push_str(signed_text(exit_code).as_str());
        result.push_str("]");
    }
    result
}

// ---------------------------------------------------------------------------
// Definitions
// ---------------------------------------------------------------------------

/// What `shell` does.
pub const SHELL_TEXT: &'static str = "Execute a shell command and return stdout/stderr. Commands run in a non-interactive shell (PowerShell on Windows, sh on Unix). Dangerous commands (rm -rf /, mkfs, shutdown, etc.) are blocked by a safety guard. Output is truncated at 1 MB.";

/// The `command` parameter of `shell`.
pub const SHELL_COMMAND: &'static str = "The shell command to execute.";

/// The `timeout_secs` parameter of `shell`.
pub const SHELL_TIMEOUT_SECS: &'static str = "Timeout in seconds (1–300). Default: 30.";

/// The `workdir` parameter of `shell`.
pub const SHELL_WORKDIR: &'static str = "Working directory. Defaults to user home.";

/// The definition of `shell`.
pub open spec fn shell_definition() -> JsonView {
    definition(
        "shell"@,
        SHELL_TEXT@,
        JsonView::object()
            .with("command"@, typed("string"@, SHELL_COMMAND@))
            .with("timeout_secs"@, typed("number"@, SHELL_TIMEOUT_SECS@))
            .with("workdir"@, typed("string"@, SHELL_WORKDIR@)),
        Some(seq!["command"@]),
    )
}

/// The definition of `shell`.
pub fn tool_definition() -> (r: Json)
    ensures
        r@ == shell_definition(),
{
    let mut required: Vec<String> = Vec::new();
    required.push("command".to_owned());
    assert(texts_view(required@) =~= seq!["command"@]);
    define(
        "shell",
        SHELL_TEXT,
        Json::object()
            .with("command", typed_schema("string", SHELL_COMMAND))
            .with("timeout_secs", typed_schema("number", SHELL_TIMEOUT_SECS))
            .with("workdir", typed_schema("string", SHELL_WORKDIR)),
        Some(required),
    )
}

} // verus!
