//! The chat's state and what changes it: each event of the daemon it is
//! connected to (streamed answers of its own session, sessions listed and
//! loaded, checkpoints, background processes, errors, the end of the
//! connection), what finishes in the background, and the keys that work
//! while an answer streams.

use vstd::prelude::*;
use crate::chat::{ChatMessage, MsgView, build_subagent_completion_message, completion_text, for_this_tab, is_final_status, msgs_view, opt_view};
use crate::history::opt_string_view;
use crate::input::{InputLine, InputView, input_wf, shown};
use crate::overlays::strings_view;
use crate::picker::distinct_names;
use crate::session::{SessionEntry, SessionMessage, SessionPicker, lines_of, loaded_lines, loaded_note, loaded_session_messages};
use crate::text::{append_chars, append_decimal, append_str, chars_eq, chars_to_string, decimal_chars, join_with, lemma_join_with_push, str_chars, trim, trim_chars};
use crate::utf8::{chars_within, utf8_fit, utf8_len};
use crate::time::{Timestamp, instant_or_now, rfc3339_instant};
use crate::transcript::{StreamEvent, Transcript, TranscriptView, Usage, plain_msg, stream_step, usage_fits};

verus! {

/// A checkpoint as the daemon lists it: its id, its message, and the diff
/// of each file it saved (when there is one).
pub struct CheckpointInfo {
    pub id: String,
    pub message: String,
    pub snapshot_diffs: Vec<Option<String>>,
}

/// A line of the rewind picker.
pub struct RewindEntry {
    pub checkpoint_id: Option<String>,
    pub message: String,
    pub files_changed: usize,
    pub additions: u32,
    pub deletions: u32,
}

/// A background process as the daemon lists it.
pub struct BgProcessInfo {
    pub pid: u32,
    pub command: String,
    /// When it started, in RFC 3339.
    pub started_at: String,
    pub status: String,
}

/// A line of the background process picker.
pub struct BgEntry {
    pub pid: u32,
    pub command: String,
    pub started_at: Timestamp,
    pub alive: bool,
}

/// The background process picker, with the log it shows (of no process
/// yet when `log_pid` is 0).
pub struct BgPicker {
    pub entries: Vec<BgEntry>,
    pub log_pid: u32,
    pub log_content: String,
}

/// What the daemon tells the chat.
pub enum DaemonEvent {
    /// A stream event, with the session it belongs to when another client
    /// caused it.
    Stream(StreamEvent, Option<String>),
    UserMessage { content: String, saved_session_id: Option<String> },
    Init { session_id: String },
    TabCreated,
    ProcessingComplete { session_id: String, context_size: Option<u64>, aborted: bool },
    SessionList { sessions: Vec<SessionEntry> },
    SessionLoaded { session_id: String, messages: Vec<SessionMessage>, context_size: u64 },
    ModelChanged { provider_name: String, model_name: String },
    CheckpointList { checkpoints: Vec<CheckpointInfo> },
    CompactComplete { session_id: String },
    CheckpointRestored { session_id: String },
    BgProcessList { processes: Vec<BgProcessInfo> },
    BgProcessLog { pid: u32, log: String },
    Error(String),
    Disconnected,
}

/// How the agent's tool calls are approved.
#[derive(Debug, Clone, PartialEq, Eq)]
pub enum PermissionMode {
    /// The mode a chat starts in.
    Auto,
    /// Every call runs without asking.
    Skip,
    /// Another mode, by the name the configuration gives it.
    Named(String),
}

/// The chat's state: its transcript and session, what waits to be sent,
/// the pickers the daemon fills, and the connection to the daemon.
pub struct ChatState {
    pub transcript: Transcript,
    pub session_id: Option<String>,
    /// The daemon's id of this tab, if any.
    pub tab_id: Option<String>,
    /// Messages to send once the agent is free.
    pub queued_messages: Vec<String>,
    pub input: InputLine,
    /// The input holds the queued messages, to be sent.
    pub pending_queue_submit: bool,
    pub session_picker: Option<SessionPicker>,
    pub rewind_picker: Option<Vec<RewindEntry>>,
    pub bg_picker: Option<BgPicker>,
    /// The messages before this one have gone up into the scrollback.
    pub committed_msg_idx: usize,
    /// The chat's rows above the view.
    pub viewport_scroll: u16,
    /// The screen is to be drawn afresh.
    pub force_redraw: bool,
    /// Connected to the daemon (else the agent runs in this process).
    pub connected: bool,
    /// Tools whose calls leave no trace in the chat.
    pub silent_tools: Vec<String>,
    /// The tools switched off, each once.
    pub disabled_tools: Vec<String>,
    pub permission_mode: PermissionMode,
}

/// The chat's state by its values.
#[verifier::ext_equal]
pub struct ChatStateView {
    pub chat: TranscriptView,
    pub session_id: Option<Seq<char>>,
    pub tab_id: Option<Seq<char>>,
    pub queued: Seq<Seq<char>>,
    pub input: InputView,
    pub pending_queue_submit: bool,
    /// The sessions, the one selected, and the current session's id.
    pub session_picker: Option<(Seq<SessionEntry>, nat, Option<Seq<char>>)>,
    pub rewind_picker: Option<Seq<(Option<Seq<char>>, Seq<char>, nat, nat, nat)>>,
    /// The processes, the one whose log shows, and the log.
    pub bg_picker: Option<(Seq<BgEntry>, u32, Seq<char>)>,
    pub committed_msg_idx: nat,
    pub viewport_scroll: nat,
    pub force_redraw: bool,
    pub connected: bool,
    pub silent: Seq<Seq<char>>,
    pub disabled: Seq<Seq<char>>,
    pub permission_mode: PermissionMode,
}

pub open spec fn rewind_view(e: RewindEntry) -> (Option<Seq<char>>, Seq<char>, nat, nat, nat) {
    (opt_string_view(e.checkpoint_id), e.message@, e.files_changed as nat, e.additions as nat, e.deletions as nat)
}

impl View for ChatState {
    type V = ChatStateView;

    open spec fn view(&self) -> ChatStateView {
        ChatStateView {
            chat: self.transcript@,
            session_id: opt_string_view(self.session_id),
            tab_id: opt_string_view(self.tab_id),
            queued: strings_view(self.queued_messages@),
            input: self.input@,
            pending_queue_submit: self.pending_queue_submit,
            session_picker: match self.session_picker {
                Some(p) => Some((p.sessions@, p.selected as nat, opt_string_view(p.current_id))),
                None => None,
            },
            rewind_picker: match self.rewind_picker {
                Some(es) => Some(Seq::new(es@.len(), |i: int| rewind_view(es@[i]))),
                None => None,
            },
            bg_picker: match self.bg_picker {
                Some(p) => Some((p.entries@, p.log_pid, p.log_content@)),
                None => None,
            },
            committed_msg_idx: self.committed_msg_idx as nat,
            viewport_scroll: self.viewport_scroll as nat,
            force_redraw: self.force_redraw,
            connected: self.connected,
            silent: strings_view(self.silent_tools@),
            disabled: strings_view(self.disabled_tools@),
            permission_mode: self.permission_mode,
        }
    }
}

// ── Checkpoints ─────────────────────────────────────────────────────────

/// How many times a newline is followed by `mark` in a diff: the lines it
/// adds (`+`) or removes (`-`) past the first.
pub open spec fn marked_lines(d: Seq<char>, mark: char) -> nat
    decreases d.len(),
{
    if d.len() < 2 {
        0
    } else {
        marked_lines(d.drop_last(), mark) + if d[d.len() - 2] == '\n' && d.last() == mark { 1nat } else { 0nat }
    }
}

/// The marked lines of all the diffs.
pub open spec fn diffs_marked(ds: Seq<Option<String>>, mark: char) -> nat
    decreases ds.len(),
{
    if ds.len() == 0 {
        0
    } else {
        diffs_marked(ds.drop_last(), mark) + match ds.last() {
            Some(d) => marked_lines(d@, mark),
            None => 0,
        }
    }
}

proof fn lemma_diffs_marked_prefix(ds: Seq<Option<String>>, mark: char, i: int)
    requires
        0 <= i <= ds.len(),
    ensures
        diffs_marked(ds.take(i), mark) <= diffs_marked(ds, mark),
    decreases ds.len() - i,
{
    if i < ds.len() {
        lemma_diffs_marked_prefix(ds, mark, i + 1);
        assert(ds.take(i + 1).drop_last() =~= ds.take(i));
    } else {
        assert(ds.take(i) =~= ds);
    }
}

fn count_marked(d: &String, mark: char) -> (n: u64)
    ensures
        n == marked_lines(d@, mark),
{
    let cs = str_chars(d.as_str());
    let mut n: u64 = 0;
    let mut i: usize = 0;
    while i < cs.len()
        invariant
            i <= cs@.len(),
            cs@ == d@,
            n == marked_lines(cs@.take(i as int), mark),
            n <= i,
        decreases cs@.len() - i,
    {
        assert(cs@.take(i + 1).drop_last() =~= cs@.take(i as int));
        if i >= 1 && cs[i - 1] == '\n' && cs[i] == mark {
            n += 1;
        }
        i += 1;
    }
    assert(cs@.take(cs@.len() as int) =~= cs@);
    n
}

fn diff_totals(ds: &Vec<Option<String>>, mark: char) -> (n: u32)
    requires
        diffs_marked(ds@, mark) <= u32::MAX,
    ensures
        n == diffs_marked(ds@, mark),
{
    let mut n: u32 = 0;
    let mut i: usize = 0;
    while i < ds.len()
        invariant
            i <= ds@.len(),
            diffs_marked(ds@, mark) <= u32::MAX,
            n == diffs_marked(ds@.take(i as int), mark),
        decreases ds@.len() - i,
    {
        assert(ds@.take(i + 1).drop_last() =~= ds@.take(i as int));
        proof {
            lemma_diffs_marked_prefix(ds@, mark, i + 1);
        }
        match &ds[i] {
            Some(d) => {
                let k = count_marked(d, mark);
                n = n + k as u32;
            },
            None => {},
        }
        i += 1;
    }
    assert(ds@.take(ds@.len() as int) =~= ds@);
    n
}

/// The checkpoint's counts fit the picker's numbers.
pub open spec fn checkpoint_fits(c: CheckpointInfo) -> bool {
    &&& diffs_marked(c.snapshot_diffs@, '+') <= u32::MAX
    &&& diffs_marked(c.snapshot_diffs@, '-') <= u32::MAX
}

/// The rewind picker's line for a checkpoint: its id and message, how many
/// files it saved, and the lines their diffs add and remove.
pub open spec fn rewind_entry_of(c: CheckpointInfo, e: RewindEntry) -> bool {
    &&& opt_string_view(e.checkpoint_id) == Some(c.id@)
    &&& e.message@ == c.message@
    &&& e.files_changed == c.snapshot_diffs@.len()
    &&& e.additions == diffs_marked(c.snapshot_diffs@, '+')
    &&& e.deletions == diffs_marked(c.snapshot_diffs@, '-')
}

/// The rewind picker's lines for checkpoints, one for each, in order.
pub fn rewind_entries(cps: &Vec<CheckpointInfo>) -> (r: Vec<RewindEntry>)
    requires
        forall|i: int| 0 <= i < cps@.len() ==> checkpoint_fits(#[trigger] cps@[i]),
    ensures
        r@.len() == cps@.len(),
        forall|i: int| 0 <= i < cps@.len() ==> rewind_entry_of(#[trigger] cps@[i], r@[i]),
{
    let mut r: Vec<RewindEntry> = Vec::new();
    let mut i: usize = 0;
    while i < cps.len()
        invariant
            i <= cps@.len(),
            r@.len() == i,
            forall|k: int| 0 <= k < cps@.len() ==> checkpoint_fits(#[trigger] cps@[k]),
            forall|k: int| 0 <= k < i ==> rewind_entry_of(#[trigger] cps@[k], r@[k]),
        decreases cps@.len() - i,
    {
        let c = &cps[i];
        assert(checkpoint_fits(cps@[i as int]));
        let e = RewindEntry {
            checkpoint_id: Some(c.id.clone()),
            message: c.message.clone(),
            files_changed: c.snapshot_diffs.len(),
            additions: diff_totals(&c.snapshot_diffs, '+'),
            deletions: diff_totals(&c.snapshot_diffs, '-'),
        };
        r.push(e);
        i += 1;
    }
    r
}

// ── Background processes ────────────────────────────────────────────────

/// The picker's line for a process: its pid and command, whether it runs,
/// and when it started (the clock's time when the daemon's text names no
/// instant).
pub open spec fn bg_entry_of(p: BgProcessInfo, e: BgEntry) -> bool {
    &&& e.pid == p.pid
    &&& e.command@ == p.command@
    &&& e.alive == (p.status@ == "Running"@)
    &&& (rfc3339_instant(p.started_at@) matches Some((secs, nanos)) ==> e.started_at == (Timestamp { secs, nanos }))
}

/// The picker's lines for background processes, one for each, in order.
pub fn bg_entries(ps: &Vec<BgProcessInfo>) -> (r: Vec<BgEntry>)
    ensures
        r@.len() == ps@.len(),
        forall|i: int| 0 <= i < ps@.len() ==> bg_entry_of(#[trigger] ps@[i], r@[i]),
{
    let mut r: Vec<BgEntry> = Vec::new();
    let mut i: usize = 0;
    let running = String::from_str("Running");
    proof {
        reveal_strlit("Running");
    }
    while i < ps.len()
        invariant
            i <= ps@.len(),
            r@.len() == i,
            running@ == "Running"@,
            forall|k: int| 0 <= k < i ==> bg_entry_of(#[trigger] ps@[k], r@[k]),
        decreases ps@.len() - i,
    {
        let p = &ps[i];
        let e = BgEntry {
            pid: p.pid,
            command: p.command.clone(),
            started_at: instant_or_now(p.started_at.as_str()),
            alive: p.status.eq(&running),
        };
        r.push(e);
        i += 1;
    }
    r
}

// ── Events ──────────────────────────────────────────────────────────────

/// Chat lines as messages of no tool.
pub open spec fn lines_as_msgs(ls: Seq<(Seq<char>, Seq<char>, Option<Seq<char>>)>) -> Seq<MsgView> {
    Seq::new(ls.len(), |i: int| MsgView { role: ls[i].0, content: ls[i].1, tool_id: None, diff: ls[i].2 })
}

/// A system note added to the chat.
pub open spec fn noted(v: ChatStateView, text: Seq<char>) -> ChatStateView {
    ChatStateView { chat: TranscriptView { messages: v.chat.messages.push(plain_msg("system"@, text)), ..v.chat }, ..v }
}

/// The chat no longer streams.
pub open spec fn stopped(v: ChatStateView) -> ChatStateView {
    ChatStateView { chat: TranscriptView { streaming: false, ..v.chat }, ..v }
}

/// The context's size set.
pub open spec fn with_context(u: Usage, size: u64) -> Usage {
    Usage { context_size: size, ..u }
}

/// An event that another client caused belongs here only when it names the
/// chat's own session.
pub open spec fn accepts(v: ChatStateView, sid: Option<Seq<char>>) -> bool {
    match sid {
        Some(b) => v.session_id == Some(b),
        None => true,
    }
}

/// The daemon finished a turn: the session is known, the context's size
/// too when given, the chat stops streaming, and the messages queued
/// meanwhile go into the input (joined by newlines, the cursor at the end)
/// to be sent.
pub open spec fn processing_complete(v: ChatStateView, sid: Seq<char>, size: Option<u64>) -> ChatStateView {
    let chat = TranscriptView {
        streaming: false,
        usage: match size {
            Some(cs) => with_context(v.chat.usage, cs),
            None => v.chat.usage,
        },
        ..v.chat
    };
    let w = ChatStateView { session_id: Some(sid), chat, ..v };
    if v.queued.len() == 0 {
        w
    } else {
        let t = join_with(v.queued, "\n"@);
        ChatStateView {
            queued: seq![],
            input: InputView { text: t, cursor: t.len(), ..v.input },
            pending_queue_submit: true,
            ..w
        }
    }
}

/// The queue with its first message equal to `t` taken out; unchanged when
/// none is.
pub open spec fn without_first(q: Seq<Seq<char>>, t: Seq<char>) -> Seq<Seq<char>>
    decreases q.len(),
{
    if q.len() == 0 {
        q
    } else if q[0] == t {
        q.drop_first()
    } else {
        seq![q[0]] + without_first(q.drop_first(), t)
    }
}

/// The chat after an event of its agent's stream: the transcript takes it
/// in (see `stream_step`); an error empties the queue, and a queued message
/// that the agent took in mid-turn leaves the queue.
pub open spec fn chat_stream_step(v: ChatStateView, ev: StreamEvent) -> ChatStateView {
    let w = ChatStateView { chat: stream_step(v.chat, ev, v.silent, v.connected), ..v };
    match ev {
        StreamEvent::Error { .. } => ChatStateView { queued: seq![], ..w },
        StreamEvent::QueuedMessageInjected { text, .. } => ChatStateView { queued: without_first(v.queued, text@), ..w },
        _ => w,
    }
}

proof fn lemma_without_first(q: Seq<Seq<char>>, t: Seq<char>, i: int)
    requires
        0 <= i <= q.len(),
        forall|k: int| 0 <= k < i ==> q[k] != t,
        i < q.len() ==> q[i] == t,
    ensures
        i < q.len() ==> without_first(q, t) == q.remove(i),
        i == q.len() ==> without_first(q, t) == q,
    decreases q.len(),
{
    if q.len() > 0 && i > 0 {
        let r = q.drop_first();
        assert forall|k: int| 0 <= k < i - 1 implies r[k] != t by {
            assert(r[k] == q[k + 1]);
        }
        lemma_without_first(r, t, i - 1);
        if i < q.len() {
            assert(seq![q[0]] + r.remove(i - 1) =~= q.remove(i));
        } else {
            assert(seq![q[0]] + r =~= q);
        }
    } else if q.len() > 0 {
        assert(q.drop_first() =~= q.remove(0));
    }
}

/// Takes the first message equal to `t` out of the queue.
fn remove_first_equal(q: &mut Vec<String>, t: &String)
    ensures
        strings_view(final(q)@) == without_first(strings_view(old(q)@), t@),
{
    let ghost qv = strings_view(q@);
    assert(qv == strings_view(old(q)@));
    let tc = str_chars(t.as_str());
    let mut i: usize = 0;
    while i < q.len()
        invariant
            i <= q@.len(),
            qv == strings_view(q@),
            qv == strings_view(old(q)@),
            tc@ == t@,
            forall|k: int| 0 <= k < i ==> qv[k] != t@,
        decreases q@.len() - i,
    {
        if chars_eq(&str_chars(q[i].as_str()), &tc) {
            proof {
                assert(qv[i as int] == t@);
                lemma_without_first(qv, t@, i as int);
            }
            q.remove(i);
            assert(strings_view(q@) =~= qv.remove(i as int));
            assert(qv == strings_view(old(q)@));
            assert(without_first(qv, t@) == qv.remove(i as int));
            return;
        }
        assert(qv[i as int] != t@);
        i += 1;
    }
    proof {
        lemma_without_first(qv, t@, i as int);
    }
}

/// The client after an event of the daemon (a list of background processes
/// aside: see `bg_list_result`).
pub open spec fn daemon_step(v: ChatStateView, e: DaemonEvent) -> ChatStateView {
    match e {
        DaemonEvent::Stream(ev, sid) => if accepts(v, opt_string_view(sid)) {
            chat_stream_step(v, ev)
        } else {
            v
        },
        DaemonEvent::UserMessage { content, saved_session_id } => match saved_session_id {
            Some(b) => if v.session_id == Some(b@) {
                ChatStateView { chat: TranscriptView { messages: v.chat.messages.push(plain_msg("user"@, content@)), ..v.chat }, ..v }
            } else {
                v
            },
            None => v,
        },
        DaemonEvent::Init { session_id } => ChatStateView { session_id: Some(session_id@), ..v },
        DaemonEvent::TabCreated => v,
        DaemonEvent::ProcessingComplete { session_id, context_size, .. } => processing_complete(v, session_id@, context_size),
        DaemonEvent::SessionList { sessions } => ChatStateView {
            session_picker: Some((sessions@, 0, v.session_id)),
            force_redraw: true,
            ..v
        },
        DaemonEvent::SessionLoaded { session_id, messages, context_size } => ChatStateView {
            session_id: Some(session_id@),
            chat: TranscriptView {
                messages: lines_as_msgs(loaded_lines(messages@).push(("system"@, loaded_note(session_id@, messages@.len()), None))),
                usage: with_context(v.chat.usage, context_size),
                ..v.chat
            },
            committed_msg_idx: 0,
            viewport_scroll: 0,
            force_redraw: true,
            ..v
        },
        DaemonEvent::ModelChanged { provider_name, model_name } => noted(v, "Model changed to "@ + provider_name@ + ":"@ + model_name@),
        DaemonEvent::CheckpointList { checkpoints } => if checkpoints@.len() == 0 {
            ChatStateView { force_redraw: true, ..noted(v, "No checkpoints in current session."@) }
        } else {
            ChatStateView {
                rewind_picker: Some(Seq::new(checkpoints@.len(), |i: int| (
                    Some(checkpoints@[i].id@),
                    checkpoints@[i].message@,
                    checkpoints@[i].snapshot_diffs@.len(),
                    diffs_marked(checkpoints@[i].snapshot_diffs@, '+'),
                    diffs_marked(checkpoints@[i].snapshot_diffs@, '-'),
                ))),
                force_redraw: true,
                ..v
            }
        },
        DaemonEvent::CompactComplete { session_id } => ChatStateView {
            force_redraw: true,
            ..noted(ChatStateView { session_id: Some(session_id@), ..v }, "Session compacted successfully."@)
        },
        DaemonEvent::CheckpointRestored { session_id } => ChatStateView {
            force_redraw: true,
            ..noted(ChatStateView { session_id: Some(session_id@), ..v }, "Checkpoint restored."@)
        },
        DaemonEvent::BgProcessList { .. } => v,
        DaemonEvent::BgProcessLog { pid, log } => ChatStateView {
            bg_picker: match v.bg_picker {
                Some((es, lp, lc)) => if lp == pid || lp == 0 { Some((es, pid, log@)) } else { Some((es, lp, lc)) },
                None => None,
            },
            force_redraw: true,
            ..v
        },
        DaemonEvent::Error(error) => noted(stopped(v), "Error: "@ + error@),
        DaemonEvent::Disconnected => noted(
            ChatStateView { connected: false, ..stopped(v) },
            "Disconnected from daemon. Falling back to in-process mode."@,
        ),
    }
}

/// The client after a list of background processes: a note when there are
/// none, else the picker opens on their lines (see `bg_entry_of`), showing
/// no log yet; the screen is drawn again.
pub open spec fn bg_list_result(v: ChatStateView, ps: Seq<BgProcessInfo>, w: ChatStateView) -> bool {
    if ps.len() == 0 {
        w == ChatStateView { force_redraw: true, ..noted(v, "No background processes."@) }
    } else {
        &&& w == ChatStateView { bg_picker: w.bg_picker, force_redraw: true, ..v }
        &&& w.bg_picker matches Some((es, lp, lc))
        &&& lp == 0
        &&& lc.len() == 0
        &&& es.len() == ps.len()
        &&& forall|i: int| 0 <= i < ps.len() ==> bg_entry_of(#[trigger] ps[i], es[i])
    }
}

/// What the daemon's event may carry: token counts that fit, and
/// checkpoints whose counts fit.
pub open spec fn event_fits(v: ChatStateView, e: DaemonEvent) -> bool {
    match e {
        DaemonEvent::Stream(StreamEvent::Usage { input_tokens, output_tokens, cache_creation_tokens, cache_read_tokens }, sid) =>
            accepts(v, opt_string_view(sid))
                ==> usage_fits(v.chat.usage, input_tokens, output_tokens, cache_creation_tokens, cache_read_tokens),
        DaemonEvent::CheckpointList { checkpoints } => forall|i: int| 0 <= i < checkpoints@.len() ==> checkpoint_fits(#[trigger] checkpoints@[i]),
        _ => true,
    }
}

fn join_lines(v: &Vec<String>) -> (r: Vec<char>)
    ensures
        r@ == join_with(strings_view(v@), "\n"@),
{
    let mut out: Vec<char> = Vec::new();
    let mut i: usize = 0;
    while i < v.len()
        invariant
            i <= v@.len(),
            out@ == join_with(strings_view(v@).take(i as int), "\n"@),
        decreases v@.len() - i,
    {
        let ghost sv = strings_view(v@);
        proof {
            lemma_join_with_push(sv.take(i as int), "\n"@, sv[i as int]);
            assert(sv.take(i + 1) =~= sv.take(i as int).push(sv[i as int]));
        }
        if i > 0 {
            append_str(&mut out, "\n");
        }
        append_str(&mut out, v[i].as_str());
        i += 1;
    }
    assert(strings_view(v@).take(v@.len() as int) =~= strings_view(v@));
    out
}

impl ChatState {
    /// A fresh chat, in process (not connected to a daemon), whose calls of
    /// the `silent_tools` leave no trace, with the tools the configuration
    /// switches off (none when it names none) switched off, in the `Auto`
    /// permission mode.
    pub fn new(silent_tools: Vec<String>, disabled: Option<Vec<String>>) -> (c: ChatState)
        ensures
            c@.disabled.no_duplicates(),
            c@.disabled.to_set() == match disabled {
                Some(d) => strings_view(d@).to_set(),
                None => Set::<Seq<char>>::empty(),
            },
            c@.permission_mode == PermissionMode::Auto,
            c@.chat == Transcript::new_view(),
            c@.session_id is None,
            c@.tab_id is None,
            c@.queued.len() == 0,
            c@.input == (InputView { text: seq![], cursor: 0, paste: None }),
            !c@.pending_queue_submit,
            c@.session_picker is None,
            c@.rewind_picker is None,
            c@.bg_picker is None,
            c@.committed_msg_idx == 0,
            c@.viewport_scroll == 0,
            !c@.force_redraw,
            !c@.connected,
            c@.silent == strings_view(silent_tools@),
    {
        let c = ChatState {
            transcript: Transcript::new(),
            session_id: None,
            tab_id: None,
            queued_messages: Vec::new(),
            input: InputLine::new(),
            pending_queue_submit: false,
            session_picker: None,
            rewind_picker: None,
            bg_picker: None,
            committed_msg_idx: 0,
            viewport_scroll: 0,
            force_redraw: false,
            connected: false,
            silent_tools,
            disabled_tools: match &disabled {
                Some(d) => distinct_names(d),
                None => Vec::new(),
            },
            permission_mode: PermissionMode::Auto,
        };
        assert(strings_view(c.disabled_tools@).to_set() =~= match disabled {
            Some(d) => strings_view(d@).to_set(),
            None => Set::<Seq<char>>::empty(),
        });
        assert(c@.queued =~= Seq::<Seq<char>>::empty());
        c
    }

    /// A submitted line leaves the input: its text and what the input
    /// showed (the paste block as its label), both trimmed; the input is
    /// then empty.
    pub fn take_input(&mut self) -> (r: (String, String))
        requires
            input_wf(old(self)@.input),
        ensures
            r.0@ == trim(old(self)@.input.text),
            r.1@ == trim(shown(old(self)@.input)),
            final(self)@ == (ChatStateView { input: InputView { text: seq![], cursor: 0, paste: None }, ..old(self)@ }),
    {
        let text = trim_chars(&self.input.text);
        let shown_text = self.input.display_input();
        let display = trim_chars(&str_chars(shown_text.as_str()));
        self.input = InputLine::new();
        (chars_to_string(&text), chars_to_string(&display))
    }

    /// `/clear`: the chat starts afresh: no messages, nothing in the
    /// scrollback's count, no tokens counted, no session (a new one comes
    /// with the next message).
    pub fn clear_chat(&mut self)
        ensures
            final(self)@ == (ChatStateView {
                chat: TranscriptView {
                    messages: seq![],
                    usage: Usage { input_tokens: 0, output_tokens: 0, cache_read_tokens: 0, cache_creation_tokens: 0, context_size: 0 },
                    ..old(self)@.chat
                },
                committed_msg_idx: 0,
                viewport_scroll: 0,
                session_id: None,
                ..old(self)@
            }),
    {
        let ghost v = self@;
        self.transcript.messages = Vec::new();
        self.committed_msg_idx = 0;
        self.viewport_scroll = 0;
        self.transcript.usage = Usage { input_tokens: 0, output_tokens: 0, cache_read_tokens: 0, cache_creation_tokens: 0, context_size: 0 };
        self.session_id = None;
        assert(self@.chat.messages =~= Seq::<MsgView>::empty());
    }

    /// The daemon answered: the chat is connected, as the tab it named.
    pub fn connect(&mut self, tab_id: String)
        ensures
            final(self)@ == (ChatStateView { connected: true, tab_id: Some(tab_id@), ..old(self)@ }),
    {
        self.tab_id = Some(tab_id);
        self.connected = true;
    }

    /// Before a session is loaded: the session already open is not loaded
    /// again. Then the chat notes "Already in this session." and the result
    /// is `false`; for any other session nothing changes and it is `true`.
    pub fn check_session_load(&mut self, id: &String) -> (load: bool)
        ensures
            load <==> old(self)@.session_id != Some(id@),
            load ==> final(self)@ == old(self)@,
            !load ==> final(self)@ == noted(old(self)@, "Already in this session."@),
    {
        let same = match &self.session_id {
            Some(current) => chars_eq(&str_chars(current.as_str()), &str_chars(id.as_str())),
            None => false,
        };
        if same {
            self.note(String::from_str("Already in this session."));
            false
        } else {
            true
        }
    }

    fn note(&mut self, text: String)
        ensures
            final(self)@ == noted(old(self)@, text@),
    {
        let ghost before = self@;
        self.transcript.messages.push(ChatMessage { role: String::from_str("system"), content: text, tool_id: None, diff: None });
        proof {
            reveal_strlit("system");
        }
        assert(self@.chat.messages =~= before.chat.messages.push(plain_msg("system"@, text@)));
        assert(self@ =~= noted(before, text@));
    }

    fn on_stream(&mut self, stream_event: StreamEvent, saved_session_id: Option<String>)
        requires
            event_fits(old(self)@, DaemonEvent::Stream(stream_event, saved_session_id)),
        ensures
            final(self)@ == daemon_step(old(self)@, DaemonEvent::Stream(stream_event, saved_session_id)),
    {
        let ghost v = self@;
        let accept = match &saved_session_id {
            Some(b) => match &self.session_id {
                Some(ours) => b.eq(ours),
                None => false,
            },
            None => true,
        };
        if accept {
            self.take_stream_event(stream_event);
        }
        assert(self@ =~= daemon_step(v, DaemonEvent::Stream(stream_event, saved_session_id)));
    }

    /// Takes in an event of the chat's own agent (see `chat_stream_step`):
    /// the in-process path, where no daemon tags events with a session.
    pub fn take_stream_event(&mut self, event: StreamEvent)
        requires
            event matches StreamEvent::Usage { input_tokens, output_tokens, cache_creation_tokens, cache_read_tokens }
                ==> usage_fits(old(self)@.chat.usage, input_tokens, output_tokens, cache_creation_tokens, cache_read_tokens),
        ensures
            final(self)@ == chat_stream_step(old(self)@, event),
    {
        let ghost v = self@;
        let is_error = match &event {
            StreamEvent::Error { .. } => true,
            _ => false,
        };
        let injected: Option<String> = match &event {
            StreamEvent::QueuedMessageInjected { text, .. } => Some(text.clone()),
            _ => None,
        };
        self.transcript.handle_stream_event(event, &self.silent_tools, self.connected);
        if is_error {
            self.queued_messages = Vec::new();
            assert(strings_view(self.queued_messages@) =~= Seq::<Seq<char>>::empty());
        }
        match injected {
            Some(text) => remove_first_equal(&mut self.queued_messages, &text),
            None => {},
        }
        assert(self@ =~= chat_stream_step(v, event));
    }

    /// After the agent announced a new permission mode (`ModeChanged`): the
    /// mode the configuration's parser read from the announced name, if it
    /// read one, becomes the chat's; otherwise the mode stays. (The note
    /// "Mode changed to: …" comes with the event itself, see `stream_step`.)
    pub fn apply_mode(&mut self, parsed: Option<PermissionMode>)
        ensures
            final(self)@ == (match parsed {
                Some(m) => ChatStateView { permission_mode: m, ..old(self)@ },
                None => old(self)@,
            }),
    {
        match parsed {
            Some(m) => {
                self.permission_mode = m;
            },
            None => {},
        }
    }

    fn on_user_message(&mut self, content: String, saved_session_id: Option<String>)
        ensures
            final(self)@ == daemon_step(old(self)@, DaemonEvent::UserMessage { content, saved_session_id }),
    {
        let ghost v = self@;
        let same = match &saved_session_id {
            Some(b) => match &self.session_id {
                Some(ours) => b.eq(ours),
                None => false,
            },
            None => false,
        };
        if same {
            self.transcript.messages.push(ChatMessage { role: String::from_str("user"), content, tool_id: None, diff: None });
            proof {
                reveal_strlit("user");
            }
            assert(self@.chat.messages =~= v.chat.messages.push(plain_msg("user"@, content@)));
        }
        assert(self@ =~= daemon_step(v, DaemonEvent::UserMessage { content, saved_session_id }));
    }

    fn on_processing_complete(&mut self, session_id: String, context_size: Option<u64>, aborted: bool)
        ensures
            final(self)@ == daemon_step(old(self)@, DaemonEvent::ProcessingComplete { session_id, context_size, aborted }),
    {
        let ghost v = self@;
        self.session_id = Some(session_id);
        match context_size {
            Some(cs) => {
                self.transcript.usage.context_size = cs;
            },
            None => {},
        }
        self.transcript.is_streaming = false;
        if self.queued_messages.len() > 0 {
            let text = join_lines(&self.queued_messages);
            self.queued_messages = Vec::new();
            self.input.cursor = text.len();
            self.input.text = text;
            self.pending_queue_submit = true;
            assert(self@.queued =~= Seq::<Seq<char>>::empty());
        }
        assert(self@ =~= processing_complete(v, session_id@, context_size));
    }

    fn on_session_loaded(&mut self, session_id: String, messages: Vec<SessionMessage>, context_size: u64)
        ensures
            final(self)@ == daemon_step(old(self)@, DaemonEvent::SessionLoaded { session_id, messages, context_size }),
    {
        let ghost v = self@;
        let loaded = loaded_session_messages(&messages, session_id.as_str());
        let ghost ls = loaded_lines(messages@).push(("system"@, loaded_note(session_id@, messages@.len()), None));
        assert(msgs_view(loaded@) =~= lines_as_msgs(ls)) by {
            assert(lines_of(loaded@) == ls);
            assert forall|i: int| 0 <= i < loaded@.len() implies #[trigger] msgs_view(loaded@)[i] == lines_as_msgs(ls)[i] by {
                assert(lines_of(loaded@)[i] == ls[i]);
            }
        }
        self.session_id = Some(session_id);
        self.transcript.usage.context_size = context_size;
        self.transcript.messages = loaded;
        self.committed_msg_idx = 0;
        self.viewport_scroll = 0;
        self.force_redraw = true;
        assert(self@ =~= daemon_step(v, DaemonEvent::SessionLoaded { session_id, messages, context_size }));
    }

    fn on_checkpoint_list(&mut self, checkpoints: Vec<CheckpointInfo>)
        requires
            forall|i: int| 0 <= i < checkpoints@.len() ==> checkpoint_fits(#[trigger] checkpoints@[i]),
        ensures
            final(self)@ == daemon_step(old(self)@, DaemonEvent::CheckpointList { checkpoints }),
    {
        let ghost v = self@;
        if checkpoints.len() == 0 {
            self.note(String::from_str("No checkpoints in current session."));
        } else {
            let entries = rewind_entries(&checkpoints);
            self.rewind_picker = Some(entries);
            assert(self@.rewind_picker->0 =~= daemon_step(v, DaemonEvent::CheckpointList { checkpoints }).rewind_picker->0);
        }
        self.force_redraw = true;
        assert(self@ =~= daemon_step(v, DaemonEvent::CheckpointList { checkpoints }));
    }

    fn on_bg_process_list(&mut self, processes: Vec<BgProcessInfo>)
        ensures
            bg_list_result(old(self)@, processes@, final(self)@),
    {
        let ghost v = self@;
        if processes.len() == 0 {
            self.note(String::from_str("No background processes."));
            self.force_redraw = true;
            assert(self@ =~= ChatStateView { force_redraw: true, ..noted(v, "No background processes."@) });
        } else {
            let entries = bg_entries(&processes);
            self.bg_picker = Some(BgPicker { entries, log_pid: 0, log_content: String::new() });
            self.force_redraw = true;
            assert(self@ =~= ChatStateView { bg_picker: self@.bg_picker, force_redraw: true, ..v });
        }
    }

    fn on_bg_process_log(&mut self, pid: u32, log: String)
        ensures
            final(self)@ == daemon_step(old(self)@, DaemonEvent::BgProcessLog { pid, log }),
    {
        let ghost v = self@;
        match &mut self.bg_picker {
            Some(picker) => {
                if picker.log_pid == pid || picker.log_pid == 0 {
                    picker.log_content = log;
                    picker.log_pid = pid;
                }
            },
            None => {},
        }
        self.force_redraw = true;
        assert(self@ =~= daemon_step(v, DaemonEvent::BgProcessLog { pid, log }));
    }

    fn on_session_change(&mut self, session_id: String, text: String)
        ensures
            final(self)@ == (ChatStateView {
                force_redraw: true,
                ..noted(ChatStateView { session_id: Some(session_id@), ..old(self)@ }, text@)
            }),
    {
        let ghost v = self@;
        self.session_id = Some(session_id);
        self.note(text);
        self.force_redraw = true;
        assert(self@ =~= ChatStateView { force_redraw: true, ..noted(ChatStateView { session_id: Some(session_id@), ..v }, text@) });
    }

    /// Takes in an event of the daemon (see `daemon_step`, and
    /// `bg_list_result` for a list of background processes).
    pub fn handle_daemon_event(&mut self, event: DaemonEvent)
        requires
            event_fits(old(self)@, event),
        ensures
            match event {
                DaemonEvent::BgProcessList { processes } => bg_list_result(old(self)@, processes@, final(self)@),
                _ => final(self)@ == daemon_step(old(self)@, event),
            },
    {
        let ghost v = self@;
        match event {
            DaemonEvent::Stream(stream_event, saved_session_id) => self.on_stream(stream_event, saved_session_id),
            DaemonEvent::UserMessage { content, saved_session_id } => self.on_user_message(content, saved_session_id),
            DaemonEvent::Init { session_id } => {
                self.session_id = Some(session_id);
                assert(self@ =~= daemon_step(v, DaemonEvent::Init { session_id }));
            },
            DaemonEvent::TabCreated => {},
            DaemonEvent::ProcessingComplete { session_id, context_size, aborted } =>
                self.on_processing_complete(session_id, context_size, aborted),
            DaemonEvent::SessionList { sessions } => {
                let current = match &self.session_id {
                    Some(s) => Some(s.clone()),
                    None => None,
                };
                self.session_picker = Some(SessionPicker { sessions, selected: 0, current_id: current });
                self.force_redraw = true;
                assert(self@ =~= daemon_step(v, DaemonEvent::SessionList { sessions }));
            },
            DaemonEvent::SessionLoaded { session_id, messages, context_size } =>
                self.on_session_loaded(session_id, messages, context_size),
            DaemonEvent::ModelChanged { provider_name, model_name } => {
                let mut t = str_chars("Model changed to ");
                append_str(&mut t, provider_name.as_str());
                append_str(&mut t, ":");
                append_str(&mut t, model_name.as_str());
                self.note(chars_to_string(&t));
            },
            DaemonEvent::CheckpointList { checkpoints } => self.on_checkpoint_list(checkpoints),
            DaemonEvent::CompactComplete { session_id } =>
                self.on_session_change(session_id, String::from_str("Session compacted successfully.")),
            DaemonEvent::CheckpointRestored { session_id } =>
                self.on_session_change(session_id, String::from_str("Checkpoint restored.")),
            DaemonEvent::BgProcessList { processes } => self.on_bg_process_list(processes),
            DaemonEvent::BgProcessLog { pid, log } => self.on_bg_process_log(pid, log),
            DaemonEvent::Error(error) => {
                self.transcript.is_streaming = false;
                let mut t = str_chars("Error: ");
                append_str(&mut t, error.as_str());
                assert(self@ =~= stopped(v));
                self.note(chars_to_string(&t));
            },
            DaemonEvent::Disconnected => {
                self.transcript.is_streaming = false;
                self.connected = false;
                assert(self@ =~= ChatStateView { connected: false, ..stopped(v) });
                self.note(String::from_str("Disconnected from daemon. Falling back to in-process mode."));
            },
        }
    }
}

// ── What finished in the background ─────────────────────────────────────

/// A subagent's report.
pub struct SubAgentUpdate {
    pub id: String,
    /// "running", "completed", "error", "aborted", ...
    pub status: String,
    pub task: String,
    /// The tab that started it, if any.
    pub tab_id: Option<String>,
}

/// A message for the agent, when the agent runs in this process: it waits
/// in the queue, and when the agent is idle the chat shows `shown` and the
/// input empties so that the queue is sent.
pub open spec fn queued_locally(v: ChatStateView, content: Seq<char>, shown: Seq<MsgView>) -> ChatStateView {
    let w = ChatStateView { queued: v.queued.push(content), ..v };
    if v.chat.streaming {
        w
    } else {
        ChatStateView {
            chat: TranscriptView { messages: v.chat.messages + shown, ..v.chat },
            input: InputView { text: seq![], cursor: 0, ..v.input },
            pending_queue_submit: true,
            ..w
        }
    }
}

/// The note of a finished background Bash process.
pub open spec fn bash_note(pid: u32) -> Seq<char> {
    "Background Bash process completed. PID: "@ + decimal_chars(pid as nat) + "."@
}

/// The note of a finished subagent: "SubAgent {id} {status}: {task}", the
/// task cut to the characters within 47 bytes and "..." when it takes more
/// than 50.
pub open spec fn subagent_note(id: Seq<char>, status: Seq<char>, task: Seq<char>) -> Seq<char> {
    "SubAgent "@ + id + " "@ + status + ": "@ + if utf8_len(task) > 50 {
        task.take(chars_within(task, 47) as int) + "..."@
    } else {
        task
    }
}

impl ChatState {
    fn queue_locally(&mut self, content: String, shown: Vec<ChatMessage>)
        ensures
            final(self)@ == queued_locally(old(self)@, content@, msgs_view(shown@)),
    {
        let ghost v = self@;
        let ghost all = shown@;
        self.queued_messages.push(content);
        assert(strings_view(self.queued_messages@) =~= v.queued.push(content@));
        if !self.transcript.is_streaming {
            let mut msgs: Vec<ChatMessage> = Vec::new();
            std::mem::swap(&mut msgs, &mut self.transcript.messages);
            let ghost m0 = msgs@;
            let n = shown.len();
            let mut rest = shown;
            let mut k: usize = 0;
            while rest.len() > 0
                invariant
                    n == all.len(),
                    k + rest@.len() == all.len(),
                    rest@ == all.skip(k as int),
                    msgs@ == m0 + all.take(k as int),
                decreases rest@.len(),
            {
                let m = rest.remove(0);
                assert(m == all[k as int]);
                assert(rest@ =~= all.skip(k + 1));
                msgs.push(m);
                assert(m0 + all.take(k + 1) =~= (m0 + all.take(k as int)).push(all[k as int]));
                k += 1;
            }
            assert(all.take(all.len() as int) =~= all);
            assert(msgs_view(m0 + all) =~= msgs_view(m0) + msgs_view(all));
            std::mem::swap(&mut msgs, &mut self.transcript.messages);
            self.input.text = Vec::new();
            self.input.cursor = 0;
            self.pending_queue_submit = true;
        }
        assert(self@ =~= queued_locally(v, content@, msgs_view(all)));
    }

    /// A background Bash process finished: nothing when it belongs to
    /// another tab; else its text (what the chat shows: `display_text`, or
    /// the text) goes to the daemon, returned to be sent, or, in process,
    /// is queued with a note of the process (see `queued_locally`).
    pub fn forward_bash_completion(&mut self, pid: u32, text: &str, display_text: Option<&str>, tab: Option<&str>) -> (r: Option<(String, String)>)
        ensures
            ({
                let visible = match display_text {
                    Some(d) => d@,
                    None => text@,
                };
                if !for_this_tab(opt_view(tab), old(self)@.tab_id) {
                    r is None && final(self)@ == old(self)@
                } else if old(self)@.connected {
                    &&& r matches Some((c, d)) && c@ == text@ && d@ == visible
                    &&& final(self)@ == old(self)@
                } else {
                    &&& r is None
                    &&& final(self)@ == queued_locally(
                        old(self)@,
                        text@,
                        seq![plain_msg("system"@, bash_note(pid)), plain_msg("user"@, visible)],
                    )
                }
            }),
    {
        let ours: Option<&str> = match &self.tab_id {
            Some(t) => Some(t.as_str()),
            None => None,
        };
        if !crate::chat::is_for_this_tab(tab, ours) {
            return None;
        }
        let visible = match display_text {
            Some(d) => d.to_owned(),
            None => text.to_owned(),
        };
        if self.connected {
            return Some((text.to_owned(), visible));
        }
        let mut note = str_chars("Background Bash process completed. PID: ");
        append_decimal(&mut note, pid as u64);
        append_str(&mut note, ".");
        let mut shown: Vec<ChatMessage> = Vec::new();
        shown.push(ChatMessage { role: String::from_str("system"), content: chars_to_string(&note), tool_id: None, diff: None });
        shown.push(ChatMessage { role: String::from_str("user"), content: visible, tool_id: None, diff: None });
        proof {
            reveal_strlit("system");
            reveal_strlit("user");
        }
        assert(msgs_view(shown@) =~= seq![plain_msg("system"@, bash_note(pid)), plain_msg("user"@, visible@)]);
        self.queue_locally(text.to_owned(), shown);
        None
    }

    /// A subagent reports: nothing unless its run ended; else the chat
    /// notes it (see `subagent_note`), and, when it is for this tab, the
    /// message of its end (see `completion_text`) goes to the daemon,
    /// returned to be sent, or, in process, is queued and shown as the
    /// user's (see `queued_locally`).
    pub fn handle_subagent_update(&mut self, update: &SubAgentUpdate) -> (r: Option<(String, String)>)
        ensures
            !is_final_status(update.status@) ==> r is None && final(self)@ == old(self)@,
            is_final_status(update.status@) ==> ({
                let w = noted(old(self)@, subagent_note(update.id@, update.status@, update.task@));
                let m = completion_text(update.id@, update.status@, update.task@);
                if !for_this_tab(opt_string_view(update.tab_id), old(self)@.tab_id) {
                    r is None && final(self)@ == w
                } else if old(self)@.connected {
                    &&& r matches Some((c, d)) && c@ == m && d@ == m
                    &&& final(self)@ == w
                } else {
                    r is None && final(self)@ == queued_locally(w, m, seq![plain_msg("user"@, m)])
                }
            }),
    {
        let tab: Option<&str> = match &update.tab_id {
            Some(t) => Some(t.as_str()),
            None => None,
        };
        let ours: Option<&str> = match &self.tab_id {
            Some(t) => Some(t.as_str()),
            None => None,
        };
        let for_me = crate::chat::is_for_this_tab(tab, ours);
        let status = update.status.as_str();
        if !crate::chat::should_forward_completion(status, None, None) {
            return None;
        }
        // The note, with the task cut when long.
        let t = str_chars(update.task.as_str());
        let (long, fit) = utf8_fit(&t, 47);
        let (over, _) = utf8_fit(&t, 50);
        let mut note = str_chars("SubAgent ");
        append_str(&mut note, update.id.as_str());
        append_str(&mut note, " ");
        append_str(&mut note, status);
        append_str(&mut note, ": ");
        if over {
            let mut i: usize = 0;
            let ghost n0 = note@;
            while i < fit
                invariant
                    i <= fit <= t@.len(),
                    note@ == n0 + t@.take(i as int),
                decreases fit - i,
            {
                note.push(t[i]);
                assert(n0 + t@.take(i + 1) =~= (n0 + t@.take(i as int)).push(t@[i as int]));
                i += 1;
            }
            append_str(&mut note, "...");
        } else {
            append_str(&mut note, update.task.as_str());
        }
        assert(note@ == subagent_note(update.id@, update.status@, update.task@));
        self.note(chars_to_string(&note));
        if !for_me {
            return None;
        }
        let message = build_subagent_completion_message(update.id.as_str(), status, update.task.as_str());
        if self.connected {
            let copy = message.clone();
            return Some((message, copy));
        }
        let mut shown: Vec<ChatMessage> = Vec::new();
        shown.push(ChatMessage { role: String::from_str("user"), content: message.clone(), tool_id: None, diff: None });
        proof {
            reveal_strlit("user");
        }
        assert(msgs_view(shown@) =~= seq![plain_msg("user"@, message@)]);
        self.queue_locally(message, shown);
        None
    }
}

// ── Keys while an answer streams ────────────────────────────────────────

/// Esc while the agent answers: the first press empties the queue when it
/// holds anything; otherwise the answer is cancelled: the chat stops
/// streaming and no tool runs, the text streamed so far (as it is) becomes
/// an assistant message when there is any, and a note says so.
pub open spec fn esc_streaming(v: ChatStateView) -> ChatStateView {
    if v.queued.len() > 0 {
        ChatStateView { queued: seq![], ..v }
    } else {
        let kept = if v.chat.text.len() > 0 {
            v.chat.messages.push(plain_msg("assistant"@, v.chat.text))
        } else {
            v.chat.messages
        };
        ChatStateView {
            chat: TranscriptView {
                streaming: false,
                active_tool: None,
                text: seq![],
                messages: kept.push(plain_msg("system"@, "Response cancelled."@)),
                ..v.chat
            },
            ..v
        }
    }
}

/// Up while the agent answers: the queued messages come back into the
/// input, one per line, before what it holds (trimmed, when not empty); the
/// cursor goes to the end.
pub open spec fn up_streaming(v: ChatStateView) -> ChatStateView {
    if v.queued.len() == 0 {
        v
    } else {
        let existing = trim(v.input.text);
        let t = if existing.len() == 0 {
            join_with(v.queued, "\n"@)
        } else {
            join_with(v.queued, "\n"@) + "\n"@ + existing
        };
        ChatStateView { queued: seq![], input: InputView { text: t, cursor: t.len(), ..v.input }, ..v }
    }
}

impl ChatState {
    /// Esc while the agent answers (see `esc_streaming`); true when the
    /// answer is to be cancelled (the daemon told, or the turn's token
    /// cancelled).
    pub fn esc_while_streaming(&mut self) -> (cancel: bool)
        ensures
            cancel == (old(self)@.queued.len() == 0),
            final(self)@ == esc_streaming(old(self)@),
    {
        let ghost v = self@;
        if self.queued_messages.len() > 0 {
            self.queued_messages = Vec::new();
            assert(self@ =~= esc_streaming(v));
            return false;
        }
        self.transcript.is_streaming = false;
        self.transcript.active_tool = None;
        if self.transcript.streaming_text.len() > 0 {
            let mut content: Vec<char> = Vec::new();
            std::mem::swap(&mut content, &mut self.transcript.streaming_text);
            self.transcript.messages.push(ChatMessage {
                role: String::from_str("assistant"),
                content: chars_to_string(&content),
                tool_id: None,
                diff: None,
            });
            proof {
                reveal_strlit("assistant");
            }
            assert(self@.chat.messages =~= v.chat.messages.push(plain_msg("assistant"@, v.chat.text)));
        }
        assert(self@.chat.text =~= Seq::<char>::empty());
        self.note(String::from_str("Response cancelled."));
        assert(self@ =~= esc_streaming(v));
        true
    }

    /// Enter while the agent answers: a line that holds more than whitespace
    /// is queued, trimmed, and the input empties; the queued text is
    /// returned (for the daemon, when connected, to put into the turn).
    /// Nothing happens to a blank line.
    pub fn enter_while_streaming(&mut self) -> (r: Option<String>)
        ensures
            trim(old(self)@.input.text).len() == 0 ==> r is None && final(self)@ == old(self)@,
            trim(old(self)@.input.text).len() > 0 ==> {
                &&& r matches Some(t) && t@ == trim(old(self)@.input.text)
                &&& final(self)@ == (ChatStateView {
                    queued: old(self)@.queued.push(trim(old(self)@.input.text)),
                    input: InputView { text: seq![], cursor: 0, paste: None },
                    ..old(self)@
                })
            },
    {
        let ghost v = self@;
        let text = trim_chars(&self.input.text);
        if text.len() == 0 {
            return None;
        }
        let t = chars_to_string(&text);
        self.queued_messages.push(t.clone());
        self.input = InputLine::new();
        assert(strings_view(self.queued_messages@) =~= v.queued.push(text@));
        assert(self@ =~= ChatStateView {
            queued: v.queued.push(trim(v.input.text)),
            input: InputView { text: seq![], cursor: 0, paste: None },
            ..v
        });
        Some(t)
    }

    /// Up while the agent answers (see `up_streaming`).
    pub fn up_while_streaming(&mut self)
        ensures
            final(self)@ == up_streaming(old(self)@),
    {
        let ghost v = self@;
        if self.queued_messages.len() == 0 {
            return;
        }
        let mut text = join_lines(&self.queued_messages);
        let existing = trim_chars(&self.input.text);
        if existing.len() > 0 {
            append_str(&mut text, "\n");
            append_chars(&mut text, &existing);
        }
        self.queued_messages = Vec::new();
        self.input.cursor = text.len();
        self.input.text = text;
        assert(self@.queued =~= Seq::<Seq<char>>::empty());
        assert(self@ =~= up_streaming(v));
    }
}

// ── Laws ────────────────────────────────────────────────────────────────

/// What another client does in a session other than the chat's own
/// (an answer streamed there, a message typed there) changes nothing here.
pub proof fn law_foreign_session_ignored(v: ChatStateView, ev: StreamEvent, content: String, sid: String)
    requires
        v.session_id != Some(sid@),
    ensures
        daemon_step(v, DaemonEvent::Stream(ev, Some(sid))) == v,
        daemon_step(v, DaemonEvent::UserMessage { content, saved_session_id: Some(sid) }) == v,
{
}

/// Once the connection is lost, the chat no longer streams nor counts
/// on the daemon, keeps its messages, and ends on a note that says so.
pub proof fn law_disconnect(v: ChatStateView)
    ensures
        ({
            let w = daemon_step(v, DaemonEvent::Disconnected);
            &&& !w.connected
            &&& !w.chat.streaming
            &&& w.chat.messages == v.chat.messages.push(
                plain_msg("system"@, "Disconnected from daemon. Falling back to in-process mode."@),
            )
        }),
{
}

/// When the daemon ends a turn, nothing typed meanwhile is lost: the
/// queued messages move, in order, into the input, the cursor after them,
/// to be sent.
pub proof fn law_queue_moves_to_input(v: ChatStateView, sid: String, size: Option<u64>, aborted: bool)
    requires
        v.queued.len() > 0,
    ensures
        ({
            let w = daemon_step(v, DaemonEvent::ProcessingComplete { session_id: sid, context_size: size, aborted });
            &&& w.queued.len() == 0
            &&& w.input.text == join_with(v.queued, "\n"@)
            &&& w.input.cursor == w.input.text.len()
            &&& w.pending_queue_submit
            &&& !w.chat.streaming
            &&& w.session_id == Some(sid@)
        }),
{
}

} // verus!
