//! What a submitted line asks for: a slash command with its argument, a
//! shell command, or a message for the agent; and the texts a shell
//! command's output leaves in the chat and in the agent's context.

use vstd::prelude::*;
use crate::text::{
    append_chars, append_str, chars_eq, chars_start_with, chars_to_string, starts_with, str_chars,
    trim, trim_chars,
};
use crate::utf8::{chars_within, chars_within_exec, utf8_fit, utf8_len};

verus! {

/// What `/memories` is asked to do.
#[derive(Debug, Clone, PartialEq, Eq)]
pub enum MemoryCommand {
    Activate,
    Deactivate,
    Show,
    /// Add an entry (never empty).
    Add(String),
    /// `add` without an entry: show how to use it.
    AddUsage,
    /// Anything else: show the memory's state and the usage.
    Status,
}

/// What `/gmemory` is asked to do.
#[derive(Debug, Clone, PartialEq, Eq)]
pub enum GlobalMemoryCommand {
    Show,
    /// Add an entry (never empty).
    Add(String),
    /// `add` without an entry: show how to use it.
    AddUsage,
    Clear,
    /// Anything else: show where the memory is and the usage.
    Status,
}

/// What a submitted line asks for.
#[derive(Debug, Clone, PartialEq, Eq)]
pub enum Submission {
    Exit,
    Resume,
    Model,
    Clear,
    Compact,
    Memories(MemoryCommand),
    GlobalMemory(GlobalMemoryCommand),
    Workers,
    Skills,
    EventsClear,
    Events,
    Background,
    Checkpoints,
    /// Run a shell command (never empty).
    Shell(String),
    /// A `!` with nothing after it: nothing to do.
    Nothing,
    /// A message for the agent.
    Message(String),
}

/// A `/memories` argument, by its value.
pub enum MemoryView {
    Activate,
    Deactivate,
    Show,
    Add(Seq<char>),
    AddUsage,
    Status,
}

/// A `/gmemory` argument, by its value.
pub enum GlobalMemoryView {
    Show,
    Add(Seq<char>),
    AddUsage,
    Clear,
    Status,
}

/// A submission, by its value.
pub enum SubmissionView {
    Exit,
    Resume,
    Model,
    Clear,
    Compact,
    Memories(MemoryView),
    GlobalMemory(GlobalMemoryView),
    Workers,
    Skills,
    EventsClear,
    Events,
    Background,
    Checkpoints,
    Shell(Seq<char>),
    Nothing,
    Message(Seq<char>),
}

pub open spec fn memory_view(m: MemoryCommand) -> MemoryView {
    match m {
        MemoryCommand::Activate => MemoryView::Activate,
        MemoryCommand::Deactivate => MemoryView::Deactivate,
        MemoryCommand::Show => MemoryView::Show,
        MemoryCommand::Add(e) => MemoryView::Add(e@),
        MemoryCommand::AddUsage => MemoryView::AddUsage,
        MemoryCommand::Status => MemoryView::Status,
    }
}

pub open spec fn global_memory_view(m: GlobalMemoryCommand) -> GlobalMemoryView {
    match m {
        GlobalMemoryCommand::Show => GlobalMemoryView::Show,
        GlobalMemoryCommand::Add(e) => GlobalMemoryView::Add(e@),
        GlobalMemoryCommand::AddUsage => GlobalMemoryView::AddUsage,
        GlobalMemoryCommand::Clear => GlobalMemoryView::Clear,
        GlobalMemoryCommand::Status => GlobalMemoryView::Status,
    }
}

pub open spec fn submission_view(s: Submission) -> SubmissionView {
    match s {
        Submission::Exit => SubmissionView::Exit,
        Submission::Resume => SubmissionView::Resume,
        Submission::Model => SubmissionView::Model,
        Submission::Clear => SubmissionView::Clear,
        Submission::Compact => SubmissionView::Compact,
        Submission::Memories(m) => SubmissionView::Memories(memory_view(m)),
        Submission::GlobalMemory(m) => SubmissionView::GlobalMemory(global_memory_view(m)),
        Submission::Workers => SubmissionView::Workers,
        Submission::Skills => SubmissionView::Skills,
        Submission::EventsClear => SubmissionView::EventsClear,
        Submission::Events => SubmissionView::Events,
        Submission::Background => SubmissionView::Background,
        Submission::Checkpoints => SubmissionView::Checkpoints,
        Submission::Shell(c) => SubmissionView::Shell(c@),
        Submission::Nothing => SubmissionView::Nothing,
        Submission::Message(m) => SubmissionView::Message(m@),
    }
}

/// The text is the command itself, or the command, a space and more.
pub open spec fn is_command(t: Seq<char>, cmd: Seq<char>) -> bool {
    t == cmd || starts_with(t, cmd + " "@)
}

/// What follows a prefix, trimmed.
pub open spec fn arg_after(t: Seq<char>, prefix: Seq<char>) -> Seq<char> {
    trim(t.skip(prefix.len() as int))
}

/// What a `/memories` argument asks for.
pub open spec fn memory_command(sub: Seq<char>) -> MemoryView {
    if sub == "activate"@ {
        MemoryView::Activate
    } else if sub == "deactivate"@ {
        MemoryView::Deactivate
    } else if sub == "show"@ {
        MemoryView::Show
    } else if starts_with(sub, "add"@) {
        if arg_after(sub, "add"@).len() == 0 {
            MemoryView::AddUsage
        } else {
            MemoryView::Add(arg_after(sub, "add"@))
        }
    } else {
        MemoryView::Status
    }
}

/// What a `/gmemory` argument asks for.
pub open spec fn global_memory_command(sub: Seq<char>) -> GlobalMemoryView {
    if sub == "show"@ {
        GlobalMemoryView::Show
    } else if starts_with(sub, "add "@) {
        if arg_after(sub, "add "@).len() == 0 {
            GlobalMemoryView::AddUsage
        } else {
            GlobalMemoryView::Add(arg_after(sub, "add "@))
        }
    } else if sub == "clear"@ {
        GlobalMemoryView::Clear
    } else {
        GlobalMemoryView::Status
    }
}

/// What a submitted line asks for, the line trimmed first: the commands in
/// the order they are tried, then `!` and a shell command, then a message.
pub open spec fn submission(input: Seq<char>) -> SubmissionView {
    let t = trim(input);
    if t == "/exit"@ {
        SubmissionView::Exit
    } else if t == "/resume"@ {
        SubmissionView::Resume
    } else if is_command(t, "/model"@) {
        SubmissionView::Model
    } else if t == "/clear"@ {
        SubmissionView::Clear
    } else if t == "/compact"@ {
        SubmissionView::Compact
    } else if is_command(t, "/memories"@) {
        SubmissionView::Memories(memory_command(arg_after(t, "/memories"@)))
    } else if is_command(t, "/gmemory"@) {
        SubmissionView::GlobalMemory(global_memory_command(arg_after(t, "/gmemory"@)))
    } else if t == "/workers"@ {
        SubmissionView::Workers
    } else if t == "/skills"@ {
        SubmissionView::Skills
    } else if is_command(t, "/events"@) {
        if arg_after(t, "/events"@) == "clear"@ {
            SubmissionView::EventsClear
        } else {
            SubmissionView::Events
        }
    } else if t == "/bg"@ {
        SubmissionView::Background
    } else if t == "/checkpoints"@ {
        SubmissionView::Checkpoints
    } else if starts_with(t, "!"@) {
        if arg_after(t, "!"@).len() == 0 {
            SubmissionView::Nothing
        } else {
            SubmissionView::Shell(arg_after(t, "!"@))
        }
    } else {
        SubmissionView::Message(t)
    }
}

fn is_lit(t: &Vec<char>, lit: &str) -> (b: bool)
    ensures
        b == (t@ == lit@),
{
    let l = str_chars(lit);
    chars_eq(t, &l)
}

fn starts_with_lit(t: &Vec<char>, lit: &str) -> (b: bool)
    ensures
        b == starts_with(t@, lit@),
{
    let l = str_chars(lit);
    chars_start_with(t, &l)
}

fn command_is(t: &Vec<char>, cmd: &str) -> (b: bool)
    ensures
        b == is_command(t@, cmd@),
        b ==> starts_with(t@, cmd@),
{
    let mut c = str_chars(cmd);
    let exact = chars_eq(t, &c);
    append_str(&mut c, " ");
    proof {
        lemma_command_prefix(t@, cmd@);
    }
    exact || chars_start_with(t, &c)
}

proof fn lemma_command_prefix(t: Seq<char>, cmd: Seq<char>)
    ensures
        is_command(t, cmd) ==> starts_with(t, cmd),
{
    if starts_with(t, cmd + " "@) {
        assert(t.take(cmd.len() as int) =~= (cmd + " "@).take(cmd.len() as int));
        assert((cmd + " "@).take(cmd.len() as int) =~= cmd);
    }
    if t == cmd {
        assert(t.take(cmd.len() as int) =~= cmd);
    }
}

/// What follows a prefix, trimmed.
fn after(t: &Vec<char>, prefix: &str) -> (r: Vec<char>)
    requires
        starts_with(t@, prefix@),
    ensures
        r@ == arg_after(t@, prefix@),
{
    let n = str_chars(prefix).len();
    let mut rest: Vec<char> = Vec::new();
    let mut i: usize = n;
    while i < t.len()
        invariant
            n <= i <= t@.len(),
            n == prefix@.len(),
            rest@ == t@.subrange(n as int, i as int),
        decreases t@.len() - i,
    {
        rest.push(t[i]);
        assert(rest@ =~= t@.subrange(n as int, i + 1));
        i += 1;
    }
    assert(t@.subrange(n as int, t@.len() as int) =~= t@.skip(n as int));
    trim_chars(&rest)
}

/// What a submitted line asks for (see `submission`).
pub fn parse_submission(input: &str) -> (r: Submission)
    ensures
        submission_view(r) == submission(input@),
{
    let raw = str_chars(input);
    let t = trim_chars(&raw);
    if is_lit(&t, "/exit") {
        Submission::Exit
    } else if is_lit(&t, "/resume") {
        Submission::Resume
    } else if command_is(&t, "/model") {
        Submission::Model
    } else if is_lit(&t, "/clear") {
        Submission::Clear
    } else if is_lit(&t, "/compact") {
        Submission::Compact
    } else if command_is(&t, "/memories") {
        let sub = after(&t, "/memories");
        let m = if is_lit(&sub, "activate") {
            MemoryCommand::Activate
        } else if is_lit(&sub, "deactivate") {
            MemoryCommand::Deactivate
        } else if is_lit(&sub, "show") {
            MemoryCommand::Show
        } else if starts_with_lit(&sub, "add") {
            let entry = after(&sub, "add");
            if entry.len() == 0 {
                MemoryCommand::AddUsage
            } else {
                MemoryCommand::Add(chars_to_string(&entry))
            }
        } else {
            MemoryCommand::Status
        };
        Submission::Memories(m)
    } else if command_is(&t, "/gmemory") {
        let sub = after(&t, "/gmemory");
        let m = if is_lit(&sub, "show") {
            GlobalMemoryCommand::Show
        } else if starts_with_lit(&sub, "add ") {
            let entry = after(&sub, "add ");
            if entry.len() == 0 {
                GlobalMemoryCommand::AddUsage
            } else {
                GlobalMemoryCommand::Add(chars_to_string(&entry))
            }
        } else if is_lit(&sub, "clear") {
            GlobalMemoryCommand::Clear
        } else {
            GlobalMemoryCommand::Status
        };
        Submission::GlobalMemory(m)
    } else if is_lit(&t, "/workers") {
        Submission::Workers
    } else if is_lit(&t, "/skills") {
        Submission::Skills
    } else if command_is(&t, "/events") {
        let arg = after(&t, "/events");
        if is_lit(&arg, "clear") {
            Submission::EventsClear
        } else {
            Submission::Events
        }
    } else if is_lit(&t, "/bg") {
        Submission::Background
    } else if is_lit(&t, "/checkpoints") {
        Submission::Checkpoints
    } else if starts_with_lit(&t, "!") {
        let cmd = after(&t, "!");
        if cmd.len() == 0 {
            Submission::Nothing
        } else {
            Submission::Shell(chars_to_string(&cmd))
        }
    } else {
        Submission::Message(chars_to_string(&t))
    }
}

// ── Memory files ────────────────────────────────────────────────────────

/// A memory file with an entry added at its end as a list item.
pub open spec fn memory_with_entry(current: Seq<char>, entry: Seq<char>) -> Seq<char> {
    current + "\n- "@ + entry + "\n"@
}

/// Adds an entry to a memory file's text (see `memory_with_entry`).
pub fn add_memory_entry(current: &str, entry: &str) -> (r: String)
    ensures
        r@ == memory_with_entry(current@, entry@),
{
    let mut out = str_chars(current);
    append_str(&mut out, "\n- ");
    append_str(&mut out, entry);
    append_str(&mut out, "\n");
    chars_to_string(&out)
}

// ── Shell command output ────────────────────────────────────────────────

/// How many bytes of a long output are kept at each end.
pub const SHELL_KEEP_BYTES: usize = 15000;

/// Output longer than this many bytes is cut in the middle.
pub const SHELL_MAX_BYTES: usize = 30000;

/// A shell command's output, trimmed, and when longer than 30000 bytes cut
/// to the characters within its first 15000 bytes and those from the
/// character boundary at or before its last 15000 bytes, with a mark
/// between them.
pub open spec fn shell_output(out: Seq<char>) -> Seq<char> {
    let c = trim(out);
    if utf8_len(c) > 30000 {
        c.take(chars_within(c, 15000) as int) + "\n\n... (truncated) ...\n\n"@ + c.skip(
            chars_within(c, (utf8_len(c) - 15000) as nat) as int,
        )
    } else {
        c
    }
}

/// A signed number in decimal.
pub open spec fn int_text(n: int) -> Seq<char> {
    if n < 0 {
        "-"@ + crate::text::decimal_chars((-n) as nat)
    } else {
        crate::text::decimal_chars(n as nat)
    }
}

/// What the agent is told of a shell command: the command, its output and,
/// when it failed, its exit code.
pub open spec fn shell_context(cmd: Seq<char>, output: Seq<char>, code: i32) -> Seq<char> {
    "$ "@ + cmd + "\n"@ + output + if code != 0 {
        "\n[exit code: "@ + int_text(code as int) + "]"@
    } else {
        seq![]
    }
}

/// What the chat shows of a shell command's run: its output (with the exit
/// code when it failed), or only the exit code when there is no output.
pub open spec fn shell_display(output: Seq<char>, code: i32) -> Seq<char> {
    if output.len() == 0 {
        "(exit code: "@ + int_text(code as int) + ")"@
    } else if code != 0 {
        output + "\n[exit code: "@ + int_text(code as int) + "]"@
    } else {
        output
    }
}

fn append_int(out: &mut Vec<char>, n: i32)
    ensures
        final(out)@ == old(out)@ + int_text(n as int),
{
    if n < 0 {
        append_str(out, "-");
        let m: u64 = (-(n as i64)) as u64;
        crate::text::append_decimal(out, m);
    } else {
        crate::text::append_decimal(out, n as u64);
    }
}

/// The characters of a text from `from` on.
fn chars_from(t: &Vec<char>, from: usize) -> (r: Vec<char>)
    requires
        from <= t@.len(),
    ensures
        r@ == t@.skip(from as int),
{
    let mut r: Vec<char> = Vec::new();
    let mut i: usize = from;
    while i < t.len()
        invariant
            from <= i <= t@.len(),
            r@ == t@.subrange(from as int, i as int),
        decreases t@.len() - i,
    {
        r.push(t[i]);
        assert(r@ =~= t@.subrange(from as int, i + 1));
        i += 1;
    }
    assert(t@.subrange(from as int, t@.len() as int) =~= t@.skip(from as int));
    r
}

/// The characters of a text before `to`.
fn chars_to(t: &Vec<char>, to: usize) -> (r: Vec<char>)
    requires
        to <= t@.len(),
    ensures
        r@ == t@.take(to as int),
{
    let mut r: Vec<char> = Vec::new();
    let mut i: usize = 0;
    while i < to
        invariant
            i <= to <= t@.len(),
            r@ == t@.take(i as int),
        decreases to - i,
    {
        r.push(t[i]);
        assert(r@ =~= t@.take(i + 1));
        i += 1;
    }
    r
}

/// The byte length of a text, counted up to `cap`.
fn utf8_len_capped(t: &Vec<char>, cap: usize) -> (r: usize)
    ensures
        r == if utf8_len(t@) <= cap { utf8_len(t@) } else { cap as nat },
{
    let mut n: usize = 0;
    let mut k: usize = 0;
    while k < t.len()
        invariant
            k <= t@.len(),
            n == if utf8_len(t@.take(k as int)) <= cap { utf8_len(t@.take(k as int)) } else { cap as nat },
        decreases t@.len() - k,
    {
        proof {
            crate::utf8::lemma_utf8_len_take(t@, k as int);
        }
        let w = crate::utf8::utf8_char_len(t[k]);
        if n < cap {
            if cap - n >= w {
                n = n + w;
            } else {
                n = cap;
            }
        }
        k += 1;
    }
    assert(t@.take(t@.len() as int) =~= t@);
    n
}

/// The texts a shell command's run leaves: what the agent is told and what
/// the chat shows (see `shell_context` and `shell_display`); the output is
/// the command's standard output followed by its standard error.
pub fn shell_messages(cmd: &str, stdout: &str, stderr: &str, code: i32) -> (r: (String, String))
    requires
        utf8_len(trim(stdout@ + stderr@)) <= usize::MAX,
    ensures
        r.0@ == shell_context(cmd@, shell_output(stdout@ + stderr@), code),
        r.1@ == shell_display(shell_output(stdout@ + stderr@), code),
{
    let mut all = str_chars(stdout);
    append_str(&mut all, stderr);
    let combined = trim_chars(&all);
    let ghost c = combined@;
    // Truncate if too large
    let (long, _) = utf8_fit(&combined, SHELL_MAX_BYTES);
    let truncated = if long {
        let (_, head) = utf8_fit(&combined, SHELL_KEEP_BYTES);
        let total = utf8_len_capped(&combined, usize::MAX);
        let tail_from = chars_within_exec(&combined, total - SHELL_KEEP_BYTES);
        let mut out = chars_to(&combined, head);
        append_str(&mut out, "\n\n... (truncated) ...\n\n");
        let tail = chars_from(&combined, tail_from);
        append_chars(&mut out, &tail);
        out
    } else {
        combined
    };
    let mut context = str_chars("$ ");
    append_str(&mut context, cmd);
    append_str(&mut context, "\n");
    append_chars(&mut context, &truncated);
    if code != 0 {
        append_str(&mut context, "\n[exit code: ");
        append_int(&mut context, code);
        append_str(&mut context, "]");
    }
    let display = if truncated.len() == 0 {
        let mut d = str_chars("(exit code: ");
        append_int(&mut d, code);
        append_str(&mut d, ")");
        d
    } else if code != 0 {
        let mut d = truncated.clone();
        append_str(&mut d, "\n[exit code: ");
        append_int(&mut d, code);
        append_str(&mut d, "]");
        d
    } else {
        truncated
    };
    (chars_to_string(&context), chars_to_string(&display))
}

/// What is typed, trimmed, goes to the agent as it is unless it starts with
/// `/` (a command) or `!` (a shell command): a line that starts with
/// anything else is sent as a message, trimmed. A line that starts with `!`
/// runs what follows it, trimmed, in the shell, or does nothing when that
/// is empty.
pub proof fn law_messages_and_shell_lines(input: Seq<char>)
    ensures
        ({
            let t = trim(input);
            &&& t.len() > 0 && t[0] != '/' && t[0] != '!' ==> submission(input) == SubmissionView::Message(t)
            &&& t.len() > 0 && t[0] == '!' ==> submission(input) == (if trim(t.skip(1)).len() == 0 {
                SubmissionView::Nothing
            } else {
                SubmissionView::Shell(trim(t.skip(1)))
            })
        }),
{
    let t = trim(input);
    if t.len() > 0 && t[0] != '/' {
        reveal_strlit("/exit");
        reveal_strlit("/resume");
        reveal_strlit("/model");
        reveal_strlit("/clear");
        reveal_strlit("/compact");
        reveal_strlit("/memories");
        reveal_strlit("/gmemory");
        reveal_strlit("/workers");
        reveal_strlit("/skills");
        reveal_strlit("/events");
        reveal_strlit("/bg");
        reveal_strlit("/checkpoints");
            reveal_strlit("!");
            reveal_strlit(" ");
        assert(("/model"@ + " "@)[0] == '/');
        assert(("/memories"@ + " "@)[0] == '/');
        assert(("/gmemory"@ + " "@)[0] == '/');
        assert(("/events"@ + " "@)[0] == '/');
        assert(!starts_with(t, "/model"@ + " "@));
        assert(!starts_with(t, "/memories"@ + " "@));
        assert(!starts_with(t, "/gmemory"@ + " "@));
        assert(!starts_with(t, "/events"@ + " "@));
        assert("!"@.len() == 1 && "!"@[0] == '!');
        if t[0] == '!' {
            assert(t.take(1) =~= "!"@);
            assert(starts_with(t, "!"@));
        } else {
            assert(t.take(1)[0] != "!"@[0]);
            assert(!starts_with(t, "!"@));
        }
    }
}

} // verus!
