//! The chat transcript while the agent answers: streamed text and reasoning
//! gathered and flushed into messages, tool calls, their progress and
//! results put after them, and the token counts.

use vstd::prelude::*;
use crate::chat::{ChatMessage, MsgView, insert_position, msg_view, msgs_view, tool_insert_position};
use crate::format::{format_tool_progress_named, format_tool_result_named, tool_progress_named_text, tool_result_named_text};
use crate::summary::{ToolInput, tool_call_line, tool_call_text};
use crate::text::{append_chars, append_str, chars_eq, chars_to_string, str_chars, trim, trim_chars, trim_end, trim_end_chars};

verus! {

/// A new message with no tool and no diff.
pub open spec fn plain_msg(role: Seq<char>, content: Seq<char>) -> MsgView {
    MsgView { role, content, tool_id: None, diff: None }
}

/// Token counts of the session.
#[derive(Debug, Clone, Copy, PartialEq, Eq, Structural)]
pub struct Usage {
    pub input_tokens: u64,
    pub output_tokens: u64,
    pub cache_read_tokens: u64,
    pub cache_creation_tokens: u64,
    /// The input tokens of the latest call: the context's size.
    pub context_size: u64,
}

/// The transcript's state.
pub struct Transcript {
    pub messages: Vec<ChatMessage>,
    /// Text of the answer streamed since it was last flushed.
    pub streaming_text: Vec<char>,
    /// Reasoning streamed since it was last flushed.
    pub streaming_thinking: Vec<char>,
    /// The tool running now, if any.
    pub active_tool: Option<String>,
    /// The message this turn's text goes on in, once there is one.
    pub turn_text_msg_idx: Option<usize>,
    pub is_streaming: bool,
    pub usage: Usage,
    /// A task tool ran: the task panel is to be read again.
    pub task_panel_needs_refresh: bool,
}

/// The transcript by its values.
#[verifier::ext_equal]
pub struct TranscriptView {
    pub messages: Seq<MsgView>,
    pub text: Seq<char>,
    pub thinking: Seq<char>,
    pub active_tool: Option<Seq<char>>,
    pub turn_idx: Option<usize>,
    pub streaming: bool,
    pub usage: Usage,
    pub refresh_tasks: bool,
}

pub open spec fn opt_str_view(o: Option<String>) -> Option<Seq<char>> {
    match o {
        Some(s) => Some(s@),
        None => None,
    }
}

impl View for Transcript {
    type V = TranscriptView;

    open spec fn view(&self) -> TranscriptView {
        TranscriptView {
            messages: msgs_view(self.messages@),
            text: self.streaming_text@,
            thinking: self.streaming_thinking@,
            active_tool: opt_str_view(self.active_tool),
            turn_idx: self.turn_text_msg_idx,
            streaming: self.is_streaming,
            usage: self.usage,
            refresh_tasks: self.task_panel_needs_refresh,
        }
    }
}

/// The reasoning streamed so far becomes a "thinking" message (trimmed, and
/// only when something is left), and the reasoning starts afresh.
pub open spec fn flushed_thinking(v: TranscriptView) -> TranscriptView {
    if v.thinking.len() == 0 {
        v
    } else {
        TranscriptView {
            thinking: seq![],
            messages: if trim(v.thinking).len() > 0 {
                v.messages.push(plain_msg("thinking"@, trim(v.thinking)))
            } else {
                v.messages
            },
            ..v
        }
    }
}

/// The text streamed so far (its trailing whitespace dropped) goes on the
/// turn's assistant message when there is one, else into a new assistant
/// message, which becomes the turn's when `keep` is set; the text starts
/// afresh.
pub open spec fn flushed_text(v: TranscriptView, keep: bool) -> TranscriptView {
    let t = trim_end(v.text);
    if t.len() == 0 {
        TranscriptView { text: seq![], ..v }
    } else {
        match v.turn_idx {
            Some(i) if i < v.messages.len() && v.messages[i as int].role == "assistant"@ => TranscriptView {
                text: seq![],
                messages: v.messages.update(
                    i as int,
                    MsgView { content: v.messages[i as int].content + t, ..v.messages[i as int] },
                ),
                ..v
            },
            _ => TranscriptView {
                text: seq![],
                messages: v.messages.push(plain_msg("assistant"@, t)),
                turn_idx: if keep { Some(v.messages.len() as usize) } else { v.turn_idx },
                ..v
            },
        }
    }
}

impl Transcript {
    /// An empty transcript, by its values.
    pub open spec fn new_view() -> TranscriptView {
        TranscriptView {
            messages: seq![],
            text: seq![],
            thinking: seq![],
            active_tool: None,
            turn_idx: None,
            streaming: false,
            usage: Usage { input_tokens: 0, output_tokens: 0, cache_read_tokens: 0, cache_creation_tokens: 0, context_size: 0 },
            refresh_tasks: false,
        }
    }

    /// An empty transcript, not streaming.
    pub fn new() -> (t: Transcript)
        ensures
            t@ == (TranscriptView {
                messages: seq![],
                text: seq![],
                thinking: seq![],
                active_tool: None,
                turn_idx: None,
                streaming: false,
                usage: Usage { input_tokens: 0, output_tokens: 0, cache_read_tokens: 0, cache_creation_tokens: 0, context_size: 0 },
                refresh_tasks: false,
            }),
    {
        let t = Transcript {
            messages: Vec::new(),
            streaming_text: Vec::new(),
            streaming_thinking: Vec::new(),
            active_tool: None,
            turn_text_msg_idx: None,
            is_streaming: false,
            usage: Usage { input_tokens: 0, output_tokens: 0, cache_read_tokens: 0, cache_creation_tokens: 0, context_size: 0 },
            task_panel_needs_refresh: false,
        };
        assert(t@.messages =~= seq![]);
        t
    }

    /// Appends a message.
    fn push_message(&mut self, m: ChatMessage)
        ensures
            final(self)@ == (TranscriptView { messages: old(self)@.messages.push(msg_view(m)), ..old(self)@ }),
    {
        let ghost v = self@;
        self.messages.push(m);
        assert(self@.messages =~= v.messages.push(msg_view(m)));
    }

    /// Puts a message in at a place.
    fn insert_message(&mut self, at: usize, m: ChatMessage)
        requires
            at <= old(self).messages@.len(),
        ensures
            final(self)@ == (TranscriptView { messages: old(self)@.messages.insert(at as int, msg_view(m)), ..old(self)@ }),
            final(self).messages@ == old(self).messages@.insert(at as int, m),
    {
        let ghost v = self@;
        self.messages.insert(at, m);
        assert(self@.messages =~= v.messages.insert(at as int, msg_view(m)));
    }

    /// Flush the reasoning (see `flushed_thinking`).
    fn flush_thinking(&mut self)
        ensures
            final(self)@ == flushed_thinking(old(self)@),
    {
        if self.streaming_thinking.len() > 0 {
            let content = trim_chars(&self.streaming_thinking);
            self.streaming_thinking = Vec::new();
            if content.len() > 0 {
                let s = chars_to_string(&content);
                self.push_message(ChatMessage::new("thinking", s.as_str()));
            }
        }
    }

    /// Flush the text (see `flushed_text`).
    fn flush_text(&mut self, keep: bool)
        ensures
            final(self)@ == flushed_text(old(self)@, keep),
    {
        let ghost v = self@;
        let mut content: Vec<char> = Vec::new();
        std::mem::swap(&mut content, &mut self.streaming_text);
        trim_end_chars(&mut content);
        if content.len() == 0 {
            return;
        }
        let assistant = str_chars("assistant");
        let mut appended = false;
        match self.turn_text_msg_idx {
            Some(idx) => {
                if idx < self.messages.len() {
                    let role = str_chars(self.messages[idx].role.as_str());
                    if chars_eq(&role, &assistant) {
                        let mut body = str_chars(self.messages[idx].content.as_str());
                        append_chars(&mut body, &content);
                        let ghost ms = self.messages@;
                        self.messages[idx].content = chars_to_string(&body);
                        assert(self@.messages =~= v.messages.update(
                            idx as int,
                            MsgView { content: v.messages[idx as int].content + content@, ..v.messages[idx as int] },
                        ));
                        appended = true;
                    }
                }
            },
            None => {},
        }
        if !appended {
            let n = self.messages.len();
            let s = chars_to_string(&content);
            self.push_message(ChatMessage::new("assistant", s.as_str()));
            if keep {
                self.turn_text_msg_idx = Some(n);
            }
        }
    }
}

// ── Stream events ───────────────────────────────────────────────────────

/// What the agent's stream reports.
pub enum StreamEvent {
    MessageStart,
    TextDelta { text: String },
    ThinkingDelta { text: String },
    ToolUseStart { name: String },
    /// A tool call is complete; its input as far as the summary reads it.
    ToolUseEnd { id: String, name: String, input: ToolInput },
    ToolProgress { id: String, name: String, content: String },
    ToolResult { id: String, name: String, content: String, is_error: Option<bool>, diff: Option<String> },
    Usage { input_tokens: u64, output_tokens: u64, cache_creation_tokens: Option<u64>, cache_read_tokens: Option<u64> },
    /// The answer ends; `tool_use` when it ends to run tools.
    MessageEnd { tool_use: bool },
    ModeChanged { mode: String },
    Error { error: String },
    ExploreProgress { id: String, activity: String },
    QueuedMessageInjected { text: String, display_text: Option<String> },
}

/// A message of a tool.
pub open spec fn tool_msg(role: Seq<char>, content: Seq<char>, id: Seq<char>, diff: Option<Seq<char>>) -> MsgView {
    MsgView { role, content, tool_id: Some(id), diff }
}

/// The index of the last result message of the tool with this id.
pub open spec fn last_result_of(ms: Seq<MsgView>, id: Seq<char>) -> Option<nat>
    decreases ms.len(),
{
    if ms.len() == 0 {
        None
    } else if ms.last().role == "tool_result"@ && ms.last().tool_id == Some(id) {
        Some((ms.len() - 1) as nat)
    } else {
        last_result_of(ms.drop_last(), id)
    }
}

/// The messages with the content of one of them replaced.
pub open spec fn with_content(ms: Seq<MsgView>, i: int, content: Seq<char>) -> Seq<MsgView> {
    ms.update(i, MsgView { content, ..ms[i] })
}

/// A tool that reports a short summary in place of its progress.
pub open spec fn is_compact_tool(name: Seq<char>) -> bool {
    name == "ReadFiles"@ || name == "Grep"@ || name == "Glob"@
}

/// A tool that changes the task list.
pub open spec fn is_task_tool(name: Seq<char>) -> bool {
    name == "TaskAdd"@ || name == "TaskUpdate"@ || name == "TaskList"@
}

/// The token counts after a call's usage: each count grows by the call's,
/// and the context's size is the call's input.
pub open spec fn usage_after(u: Usage, input: u64, output: u64, creation: Option<u64>, read: Option<u64>) -> Usage {
    Usage {
        input_tokens: (u.input_tokens + input) as u64,
        output_tokens: (u.output_tokens + output) as u64,
        cache_read_tokens: (u.cache_read_tokens + match read { Some(r) => r, None => 0u64 }) as u64,
        cache_creation_tokens: (u.cache_creation_tokens + match creation { Some(c) => c, None => 0u64 }) as u64,
        context_size: input,
    }
}

/// The counts fit in 64 bits after the call's usage.
pub open spec fn usage_fits(u: Usage, input: u64, output: u64, creation: Option<u64>, read: Option<u64>) -> bool {
    &&& u.input_tokens + input <= u64::MAX
    &&& u.output_tokens + output <= u64::MAX
    &&& u.cache_read_tokens + match read { Some(r) => r, None => 0u64 } <= u64::MAX
    &&& u.cache_creation_tokens + match creation { Some(c) => c, None => 0u64 } <= u64::MAX
}

/// The transcript after an event, the tools in `silent` leaving no trace.
///
/// A new answer starts with nothing streamed. Text flushes the reasoning
/// and is gathered; reasoning is gathered. A tool's start flushes the
/// reasoning and the text (which becomes the turn's message). A tool call
/// leaves "● name(summary)"; its progress goes after the call, on the line
/// of its earlier progress when that is the last of its messages; its result
/// goes after the call too, and the result of a reading or searching tool
/// replaces its last result instead. The usage adds up. The answer's end
/// flushes the reasoning and the text, and unless tools are to run (or a
/// daemon runs the agent) streaming stops. A mode change, an error and an
/// injected queued message leave a message; an explorer's progress replaces
/// its last result.
pub open spec fn stream_step(v: TranscriptView, e: StreamEvent, silent: Seq<Seq<char>>, daemon: bool) -> TranscriptView {
    match e {
        StreamEvent::MessageStart => TranscriptView { text: seq![], thinking: seq![], active_tool: None, turn_idx: None, ..v },
        StreamEvent::TextDelta { text } => {
            let w = flushed_thinking(v);
            TranscriptView { text: w.text + text@, ..w }
        },
        StreamEvent::ThinkingDelta { text } => TranscriptView { thinking: v.thinking + text@, ..v },
        StreamEvent::ToolUseStart { name } => {
            let w = flushed_thinking(v);
            flushed_text(
                if silent.contains(name@) { w } else { TranscriptView { active_tool: Some(name@), ..w } },
                true,
            )
        },
        StreamEvent::ToolUseEnd { id, name, input } => {
            let w = if silent.contains(name@) {
                v
            } else {
                TranscriptView {
                    messages: v.messages.push(
                        tool_msg("tool_call"@, tool_call_text(name@, input), id@, None),
                    ),
                    ..v
                }
            };
            if is_task_tool(name@) { TranscriptView { refresh_tasks: true, ..w } } else { w }
        },
        StreamEvent::ToolProgress { id, name, content } => if silent.contains(name@) {
            v
        } else {
            let pos = insert_position(v.messages, id@);
            let w = TranscriptView { active_tool: Some(name@), ..v };
            if pos > 0 && v.messages[pos - 1].role == "tool_result"@ && v.messages[pos - 1].tool_id == Some(id@)
                && v.messages[pos - 1].diff is None {
                TranscriptView {
                    messages: with_content(v.messages, pos - 1, v.messages[pos - 1].content + "\n     "@ + content@),
                    ..w
                }
            } else {
                TranscriptView {
                    messages: v.messages.insert(
                        pos as int,
                        tool_msg("tool_result"@, tool_progress_named_text(name@, content@), id@, None),
                    ),
                    ..w
                }
            }
        },
        StreamEvent::ToolResult { id, name, content, is_error, diff } => {
            let w = TranscriptView { active_tool: None, ..v };
            let err = is_error == Some(true);
            if silent.contains(name@) {
                w
            } else if is_compact_tool(name@) && !err && diff is None {
                let summary = tool_result_named_text(name@, content@, false);
                match last_result_of(v.messages, id@) {
                    Some(p) => TranscriptView { messages: with_content(v.messages, p as int, summary), ..w },
                    None => TranscriptView {
                        messages: v.messages.insert(
                            insert_position(v.messages, id@) as int,
                            tool_msg("tool_result"@, summary, id@, None),
                        ),
                        ..w
                    },
                }
            } else {
                TranscriptView {
                    messages: v.messages.insert(
                        insert_position(v.messages, id@) as int,
                        tool_msg("tool_result"@, tool_result_named_text(name@, content@, err), id@, opt_str_view(diff)),
                    ),
                    ..w
                }
            }
        },
        StreamEvent::Usage { input_tokens, output_tokens, cache_creation_tokens, cache_read_tokens } => TranscriptView {
            usage: usage_after(v.usage, input_tokens, output_tokens, cache_creation_tokens, cache_read_tokens),
            ..v
        },
        StreamEvent::MessageEnd { tool_use } => {
            let w = TranscriptView { turn_idx: None, ..flushed_text(flushed_thinking(v), false) };
            if tool_use {
                w
            } else {
                TranscriptView { streaming: if daemon { w.streaming } else { false }, active_tool: None, ..w }
            }
        },
        StreamEvent::ModeChanged { mode } => TranscriptView {
            messages: v.messages.push(plain_msg("system"@, "Mode changed to: "@ + mode@)),
            ..v
        },
        StreamEvent::Error { error } => TranscriptView {
            messages: v.messages.push(plain_msg("assistant"@, "Error: "@ + error@)),
            streaming: false,
            ..v
        },
        StreamEvent::ExploreProgress { id, activity } => match last_result_of(v.messages, id@) {
            Some(p) => TranscriptView { messages: with_content(v.messages, p as int, activity@), ..v },
            None => TranscriptView {
                messages: v.messages.insert(
                    insert_position(v.messages, id@) as int,
                    tool_msg("tool_result"@, activity@, id@, None),
                ),
                ..v
            },
        },
        StreamEvent::QueuedMessageInjected { text, display_text } => {
            let w = if v.text.len() > 0 {
                TranscriptView { messages: v.messages.push(plain_msg("assistant"@, v.text)), text: seq![], ..v }
            } else {
                v
            };
            TranscriptView {
                messages: w.messages.push(plain_msg("user"@, match display_text {
                    Some(d) => d@,
                    None => text@,
                })),
                ..w
            }
        },
    }
}

/// Whether a name is among the silent tools.
fn is_silent(silent: &Vec<String>, name: &str) -> (b: bool)
    ensures
        b == crate::overlays::strings_view(silent@).contains(name@),
{
    let n = str_chars(name);
    let mut i: usize = 0;
    while i < silent.len()
        invariant
            i <= silent@.len(),
            n@ == name@,
            forall|k: int| 0 <= k < i ==> silent@[k]@ != name@,
        decreases silent@.len() - i,
    {
        let s = str_chars(silent[i].as_str());
        if chars_eq(&s, &n) {
            assert(crate::overlays::strings_view(silent@)[i as int] == name@);
            return true;
        }
        i += 1;
    }
    false
}

fn is_one_of(name: &str, a: &str, b: &str, c: &str) -> (r: bool)
    ensures
        r == (name@ == a@ || name@ == b@ || name@ == c@),
{
    let n = str_chars(name);
    let x = str_chars(a);
    let y = str_chars(b);
    let z = str_chars(c);
    chars_eq(&n, &x) || chars_eq(&n, &y) || chars_eq(&n, &z)
}

impl Transcript {
    /// The last result message of a tool (see `last_result_of`).
    fn last_result_index(&self, id: &str) -> (r: Option<usize>)
        ensures
            r matches Some(i) ==> last_result_of(self@.messages, id@) == Some(i as nat) && i < self.messages@.len(),
            r is None ==> last_result_of(self@.messages, id@) is None,
    {
        let ghost mv = self@.messages;
        let result_role = str_chars("tool_result");
        let idv = str_chars(id);
        let mut i: usize = self.messages.len();
        assert(mv.take(i as int) =~= mv);
        while i > 0
            invariant
                i <= mv.len(),
                mv == self@.messages,
                result_role@ == "tool_result"@,
                idv@ == id@,
                last_result_of(mv, id@) == last_result_of(mv.take(i as int), id@),
            decreases i,
        {
            assert(mv.take(i as int).drop_last() =~= mv.take(i - 1));
            let m = &self.messages[i - 1];
            let role = str_chars(m.role.as_str());
            let same_id = match &m.tool_id {
                Some(t) => {
                    let tv = str_chars(t.as_str());
                    chars_eq(&tv, &idv)
                },
                None => false,
            };
            if chars_eq(&role, &result_role) && same_id {
                return Some(i - 1);
            }
            i -= 1;
        }
        assert(mv.take(0) =~= Seq::<MsgView>::empty());
        None
    }

    /// Replaces a message's content.
    fn set_content(&mut self, i: usize, content: String)
        requires
            i < old(self).messages@.len(),
        ensures
            final(self)@ == (TranscriptView { messages: with_content(old(self)@.messages, i as int, content@), ..old(self)@ }),
    {
        let ghost v = self@;
        self.messages[i].content = content;
        assert(self@.messages =~= with_content(v.messages, i as int, content@));
    }

    /// A message of a tool.
    fn tool_message(role: &str, content: String, id: String, diff: Option<String>) -> (m: ChatMessage)
        ensures
            msg_view(m) == tool_msg(role@, content@, id@, opt_str_view(diff)),
            m.diff == diff,
    {
        ChatMessage { role: role.to_owned(), content, tool_id: Some(id), diff }
    }

    /// Takes in a stream event (see `stream_step`).
    pub fn handle_stream_event(&mut self, event: StreamEvent, silent_tools: &Vec<String>, daemon_mode: bool)
        requires
            event matches StreamEvent::Usage { input_tokens, output_tokens, cache_creation_tokens, cache_read_tokens }
                ==> usage_fits(old(self).usage, input_tokens, output_tokens, cache_creation_tokens, cache_read_tokens),
        ensures
            final(self)@ == stream_step(old(self)@, event, crate::overlays::strings_view(silent_tools@), daemon_mode),
            event matches StreamEvent::ToolResult { id, name, content, is_error, diff } ==> (
                !crate::overlays::strings_view(silent_tools@).contains(name@)
                && !(is_compact_tool(name@) && is_error != Some(true) && diff is None)
                ==> opt_str_view(final(self).messages@[insert_position(old(self)@.messages, id@) as int].diff) == opt_str_view(diff)),
    {
        let ghost v = self@;
        match event {
            StreamEvent::MessageStart => {
                self.streaming_text = Vec::new();
                self.streaming_thinking = Vec::new();
                self.active_tool = None;
                self.turn_text_msg_idx = None;
            },
            StreamEvent::TextDelta { text } => {
                // Thinking normally ends the moment real text begins — flush
                // the accumulated reasoning into a "thinking" message so it
                // stays visible in scroll-back after the turn.
                self.flush_thinking();
                let t = str_chars(text.as_str());
                append_chars(&mut self.streaming_text, &t);
            },
            StreamEvent::ThinkingDelta { text } => {
                let t = str_chars(text.as_str());
                append_chars(&mut self.streaming_thinking, &t);
            },
            StreamEvent::ToolUseStart { name } => {
                let silent = is_silent(silent_tools, name.as_str());
                // Flush thinking first so it sits above any forthcoming
                // assistant text / tool call in the final transcript.
                self.flush_thinking();
                if !silent {
                    self.active_tool = Some(name);
                }
                // Flush current text as a message before tool call.
                // If we already flushed text earlier in this turn, append to
                // the same message so mid-sentence splits don't occur.
                self.flush_text(true);
            },
            StreamEvent::ToolUseEnd { id, name, input } => {
                if !is_silent(silent_tools, name.as_str()) {
                    // ● ToolName(input summary)
                    let text = tool_call_line(name.as_str(), &input);
                    let m = Self::tool_message("tool_call", text, id, None);
                    self.push_message(m);
                }
                // Auto-refresh task panel when task tools are used
                if is_one_of(name.as_str(), "TaskAdd", "TaskUpdate", "TaskList") {
                    self.task_panel_needs_refresh = true;
                }
            },
            StreamEvent::ToolProgress { id, name, content } => {
                if is_silent(silent_tools, name.as_str()) {
                    return;
                }
                let insert_pos = tool_insert_position(&self.messages, id.as_str());
                self.active_tool = Some(name.clone());
                // Try to consolidate with existing progress for this tool
                if insert_pos > 0 {
                    let prev = &self.messages[insert_pos - 1];
                    let role = str_chars(prev.role.as_str());
                    let result_role = str_chars("tool_result");
                    let idv = str_chars(id.as_str());
                    let same_id = match &prev.tool_id {
                        Some(t) => {
                            let tv = str_chars(t.as_str());
                            chars_eq(&tv, &idv)
                        },
                        None => false,
                    };
                    if chars_eq(&role, &result_role) && same_id && prev.diff.is_none() {
                        let mut body = str_chars(prev.content.as_str());
                        append_str(&mut body, "\n     ");
                        append_str(&mut body, content.as_str());
                        self.set_content(insert_pos - 1, chars_to_string(&body));
                        return;
                    }
                }
                let line = format_tool_progress_named(name.as_str(), content.as_str());
                let m = Self::tool_message("tool_result", line, id, None);
                self.insert_message(insert_pos, m);
            },
            StreamEvent::ToolResult { id, name, content, is_error, diff } => {
                self.active_tool = None;
                if is_silent(silent_tools, name.as_str()) {
                    return;
                }
                let is_err = match is_error {
                    Some(b) => b,
                    None => false,
                };
                // For compact tools (ReadFile, Grep, Glob): update the existing
                // progress message in-place instead of adding a new line.
                let compact = is_one_of(name.as_str(), "ReadFiles", "Grep", "Glob") && !is_err && diff.is_none();
                if compact {
                    let summary = format_tool_result_named(name.as_str(), content.as_str(), false);
                    match self.last_result_index(id.as_str()) {
                        Some(pos) => self.set_content(pos, summary),
                        None => {
                            // No progress message found — insert normally
                            let insert_pos = tool_insert_position(&self.messages, id.as_str());
                            let m = Self::tool_message("tool_result", summary, id, None);
                            self.insert_message(insert_pos, m);
                        },
                    }
                } else {
                    let formatted = format_tool_result_named(name.as_str(), content.as_str(), is_err);
                    let insert_pos = tool_insert_position(&self.messages, id.as_str());
                    let m = Self::tool_message("tool_result", formatted, id, diff);
                    self.insert_message(insert_pos, m);
                }
            },
            StreamEvent::Usage { input_tokens, output_tokens, cache_creation_tokens, cache_read_tokens } => {
                self.usage.input_tokens = self.usage.input_tokens + input_tokens;
                self.usage.output_tokens = self.usage.output_tokens + output_tokens;
                self.usage.cache_read_tokens = self.usage.cache_read_tokens + match cache_read_tokens {
                    Some(r) => r,
                    None => 0,
                };
                self.usage.cache_creation_tokens = self.usage.cache_creation_tokens + match cache_creation_tokens {
                    Some(c) => c,
                    None => 0,
                };
                // The input_tokens of the latest call IS the current context size
                self.usage.context_size = input_tokens;
            },
            StreamEvent::MessageEnd { tool_use } => {
                // Flush any remaining thinking first (e.g. a reasoning-only
                // turn that ends without emitting text).
                self.flush_thinking();
                self.flush_text(false);
                self.turn_text_msg_idx = None;
                // When the answer ends to run tools, streaming goes on until
                // their results and the final end; a daemon reports when it
                // is done.
                if !tool_use {
                    if !daemon_mode {
                        self.is_streaming = false;
                    }
                    self.active_tool = None;
                }
            },
            StreamEvent::ModeChanged { mode } => {
                let mut text = str_chars("Mode changed to: ");
                append_str(&mut text, mode.as_str());
                let s = chars_to_string(&text);
                self.push_message(ChatMessage::new("system", s.as_str()));
            },
            StreamEvent::Error { error } => {
                let mut text = str_chars("Error: ");
                append_str(&mut text, error.as_str());
                let s = chars_to_string(&text);
                self.push_message(ChatMessage::new("assistant", s.as_str()));
                self.is_streaming = false;
            },
            StreamEvent::ExploreProgress { id, activity } => {
                // Find existing progress message for this explore ID
                match self.last_result_index(id.as_str()) {
                    Some(idx) => self.set_content(idx, activity),
                    None => {
                        let insert_pos = tool_insert_position(&self.messages, id.as_str());
                        let m = Self::tool_message("tool_result", activity, id, None);
                        self.insert_message(insert_pos, m);
                    },
                }
            },
            StreamEvent::QueuedMessageInjected { text, display_text } => {
                // Flush any partial streaming text before inserting the user message
                if self.streaming_text.len() > 0 {
                    let mut content: Vec<char> = Vec::new();
                    std::mem::swap(&mut content, &mut self.streaming_text);
                    let s = chars_to_string(&content);
                    self.push_message(ChatMessage::new("assistant", s.as_str()));
                }
                let visible = match &display_text {
                    Some(d) => d.as_str(),
                    None => text.as_str(),
                };
                self.push_message(ChatMessage::new("user", visible));
            },
        }
    }
}

// ── What every event keeps ──────────────────────────────────────────────

/// No event takes a message out of the transcript.
pub proof fn law_events_keep_messages(v: TranscriptView, e: StreamEvent, silent: Seq<Seq<char>>, daemon: bool)
    ensures
        stream_step(v, e, silent, daemon).messages.len() >= v.messages.len(),
{
    match e {
        StreamEvent::ToolProgress { id, .. } => lemma_insert_position_bound(v.messages, id@),
        StreamEvent::ToolResult { id, .. } => {
            lemma_insert_position_bound(v.messages, id@);
            lemma_last_result_bound(v.messages, id@);
        },
        StreamEvent::ExploreProgress { id, .. } => {
            lemma_insert_position_bound(v.messages, id@);
            lemma_last_result_bound(v.messages, id@);
        },
        _ => {
            lemma_flushes_keep_messages(v);
            lemma_flushes_keep_messages(flushed_thinking(v));
        },
    }
}

proof fn lemma_last_result_bound(ms: Seq<MsgView>, id: Seq<char>)
    ensures
        last_result_of(ms, id) matches Some(i) ==> i < ms.len(),
    decreases ms.len(),
{
    if ms.len() > 0 {
        lemma_last_result_bound(ms.drop_last(), id);
    }
}

proof fn lemma_flushes_keep_messages(v: TranscriptView)
    ensures
        flushed_thinking(v).messages.len() >= v.messages.len(),
        flushed_text(v, true).messages.len() >= v.messages.len(),
        flushed_text(v, false).messages.len() >= v.messages.len(),
{
}

/// When an answer ends nothing streamed is left unflushed, and the next
/// answer's text starts a new message.
pub proof fn law_answer_end_flushes(v: TranscriptView, tool_use: bool, silent: Seq<Seq<char>>, daemon: bool)
    ensures
        ({
            let w = stream_step(v, StreamEvent::MessageEnd { tool_use }, silent, daemon);
            w.text.len() == 0 && w.thinking.len() == 0 && w.turn_idx is None
        }),
{
}

/// The end of an answer adds exactly the text streamed since the last
/// flush, its trailing whitespace trimmed: on the turn's assistant message
/// when there is one, else as a new assistant message (nothing when the
/// text is blank); with no reasoning pending, nothing else is added.
pub proof fn law_answer_end_adds_streamed_text(v: TranscriptView, tool_use: bool, silent: Seq<Seq<char>>, daemon: bool)
    requires
        v.thinking.len() == 0,
    ensures
        ({
            let w = stream_step(v, StreamEvent::MessageEnd { tool_use }, silent, daemon);
            let t = trim_end(v.text);
            if t.len() == 0 {
                w.messages == v.messages
            } else {
                match v.turn_idx {
                    Some(i) if i < v.messages.len() && v.messages[i as int].role == "assistant"@ =>
                        w.messages == v.messages.update(
                            i as int,
                            MsgView { content: v.messages[i as int].content + t, ..v.messages[i as int] },
                        ),
                    _ => w.messages == v.messages.push(plain_msg("assistant"@, t)),
                }
            }
        }),
{
}

/// After a tool's progress or (non-compact) result, its message stands right
/// after the tool's call and the messages that already belonged to it.
pub proof fn law_result_follows_call(v: TranscriptView, id: String, name: String, content: String, is_error: Option<bool>, diff: Option<String>, silent: Seq<Seq<char>>, daemon: bool)
    requires
        !silent.contains(name@),
        !(is_compact_tool(name@) && is_error != Some(true) && diff is None),
    ensures
        ({
            let pos = insert_position(v.messages, id@);
            let w = stream_step(v, StreamEvent::ToolResult { id, name, content, is_error, diff }, silent, daemon);
            &&& w.messages.len() == v.messages.len() + 1
            &&& w.messages[pos as int].role == "tool_result"@
            &&& w.messages[pos as int].tool_id == Some(id@)
            &&& forall|k: int| 0 <= k < pos ==> w.messages[k] == v.messages[k]
        }),
{
    lemma_insert_position_bound(v.messages, id@);
}

/// A result's place is within the transcript.
pub proof fn lemma_insert_position_bound(ms: Seq<MsgView>, id: Seq<char>)
    ensures
        insert_position(ms, id) <= ms.len(),
{
    match crate::chat::last_call(ms, id) {
        Some(i) => {
            lemma_last_call_bound(ms, id);
            lemma_run_end_bound(ms, id, i + 1);
        },
        None => {},
    }
}

proof fn lemma_last_call_bound(ms: Seq<MsgView>, id: Seq<char>)
    ensures
        crate::chat::last_call(ms, id) matches Some(i) ==> i < ms.len(),
    decreases ms.len(),
{
    if ms.len() > 0 {
        lemma_last_call_bound(ms.drop_last(), id);
    }
}

proof fn lemma_run_end_bound(ms: Seq<MsgView>, id: Seq<char>, from: nat)
    ensures
        crate::chat::run_end(ms, id, from) <= ms.len(),
        from <= ms.len() ==> from <= crate::chat::run_end(ms, id, from),
    decreases ms.len() - from,
{
    if from < ms.len() {
        lemma_run_end_bound(ms, id, from + 1);
    }
}

/// A failed tool's result shows as a failure with all its output: after a
/// result with `is_error == Some(true)` of a tool that is not silent, a
/// tool result message of that tool stands at the insert position (the
/// messages before it and after it as they were). It reads the error mark
/// "  ⎿  ✗ " and the first line of output that is not blank, then each
/// further such line on a line of its own, indented; "  ⎿  (no output)"
/// when every line is blank.
pub proof fn law_failed_result_marked(
    v: TranscriptView,
    id: String,
    name: String,
    content: String,
    diff: Option<String>,
    silent: Seq<Seq<char>>,
    daemon: bool,
)
    requires
        !silent.contains(name@),
    ensures
        ({
            let w = stream_step(v, StreamEvent::ToolResult { id, name, content, is_error: Some(true), diff }, silent, daemon);
            let p = insert_position(v.messages, id@) as int;
            let ls = crate::format::nonblank_lines(crate::text::lines(content@));
            &&& w.messages.len() == v.messages.len() + 1
            &&& (forall|i: int| 0 <= i < p ==> w.messages[i] == v.messages[i])
            &&& (forall|i: int| p <= i < v.messages.len() ==> w.messages[i + 1] == v.messages[i])
            &&& w.messages[p].role == "tool_result"@
            &&& w.messages[p].tool_id == Some(id@)
            &&& w.messages[p].content == (if ls.len() == 0 {
                "  ⎿  (no output)"@
            } else {
                "  ⎿  ✗ "@ + ls[0] + crate::format::continuation_lines(ls.skip(1))
            })
        }),
{
    lemma_insert_position_bound(v.messages, id@);
}

/// The stream's simple events: text is added to the answer being streamed
/// (after any reasoning is put in a message of its own), reasoning to the
/// reasoning; a tool call that is not silent leaves the message
/// "● name(summary)" of that tool at the end; the usage adds each count to
/// its total and sets the context's size to the call's input; a mode change
/// leaves the note "Mode changed to: …" and an error the answer "Error: …"
/// and stops streaming.
pub proof fn law_simple_events(
    v: TranscriptView,
    t: String,
    id: String,
    name: String,
    input: ToolInput,
    i: u64,
    o: u64,
    creation: Option<u64>,
    read: Option<u64>,
    silent: Seq<Seq<char>>,
    daemon: bool,
)
    ensures
        v.thinking.len() == 0 ==> stream_step(v, StreamEvent::TextDelta { text: t }, silent, daemon)
            == (TranscriptView { text: v.text + t@, ..v }),
        stream_step(v, StreamEvent::ThinkingDelta { text: t }, silent, daemon)
            == (TranscriptView { thinking: v.thinking + t@, ..v }),
        !silent.contains(name@) ==> ({
            let w = stream_step(v, StreamEvent::ToolUseEnd { id, name, input }, silent, daemon);
            &&& w.messages.len() == v.messages.len() + 1
            &&& w.messages.take(v.messages.len() as int) == v.messages
            &&& w.messages.last().role == "tool_call"@
            &&& w.messages.last().tool_id == Some(id@)
            &&& w.messages.last().content
                == "● "@ + name@ + "("@ + crate::summary::tool_input_summary(name@, input) + ")"@
        }),
        usage_fits(v.usage, i, o, creation, read) ==> ({
            let u = stream_step(v, StreamEvent::Usage { input_tokens: i, output_tokens: o, cache_creation_tokens: creation, cache_read_tokens: read }, silent, daemon).usage;
            &&& u.input_tokens == v.usage.input_tokens + i
            &&& u.output_tokens == v.usage.output_tokens + o
            &&& u.cache_creation_tokens == v.usage.cache_creation_tokens + match creation { Some(c) => c as int, None => 0 }
            &&& u.cache_read_tokens == v.usage.cache_read_tokens + match read { Some(r) => r as int, None => 0 }
            &&& u.context_size == i
        }),
        stream_step(v, StreamEvent::ModeChanged { mode: t }, silent, daemon).messages
            == v.messages.push(plain_msg("system"@, "Mode changed to: "@ + t@)),
        stream_step(v, StreamEvent::Error { error: t }, silent, daemon).messages
            == v.messages.push(plain_msg("assistant"@, "Error: "@ + t@)),
        !stream_step(v, StreamEvent::Error { error: t }, silent, daemon).streaming,
{
    if !silent.contains(name@) {
        let w = stream_step(v, StreamEvent::ToolUseEnd { id, name, input }, silent, daemon);
        assert(w.messages.take(v.messages.len() as int) =~= v.messages);
    }
}

/// A silent tool leaves no trace in the messages: its call, progress and
/// result change none of them.
pub proof fn law_silent_tools_leave_no_trace(
    v: TranscriptView,
    id: String,
    name: String,
    input: ToolInput,
    content: String,
    is_error: Option<bool>,
    diff: Option<String>,
    silent: Seq<Seq<char>>,
    daemon: bool,
)
    requires
        silent.contains(name@),
    ensures
        stream_step(v, StreamEvent::ToolUseEnd { id, name, input }, silent, daemon).messages == v.messages,
        stream_step(v, StreamEvent::ToolProgress { id, name, content }, silent, daemon).messages == v.messages,
        stream_step(v, StreamEvent::ToolResult { id, name, content, is_error, diff }, silent, daemon).messages
            == v.messages,
{
}

/// A successful result of an ordinary tool (not silent, not one of the
/// reading, searching, fetching or shell tools that summarise their output)
/// shows all its output: the result message of that tool stands at the
/// insert position (the others as they were) and reads the result mark
/// "  ⎿  " and the first line that is not blank, then each further such
/// line on a line of its own, indented; "  ⎿  (no output)" when every line
/// is blank.
pub proof fn law_ordinary_result_shown(
    v: TranscriptView,
    id: String,
    name: String,
    content: String,
    is_error: Option<bool>,
    diff: Option<String>,
    silent: Seq<Seq<char>>,
    daemon: bool,
)
    requires
        !silent.contains(name@),
        is_error != Some(true),
        name@ != "ReadFiles"@ && name@ != "Grep"@ && name@ != "Glob"@,
        name@ != "WebFetch"@ && name@ != "WebSearch"@ && name@ != "Bash"@,
    ensures
        ({
            let w = stream_step(v, StreamEvent::ToolResult { id, name, content, is_error, diff }, silent, daemon);
            let p = insert_position(v.messages, id@) as int;
            let ls = crate::format::nonblank_lines(crate::text::lines(content@));
            &&& w.messages.len() == v.messages.len() + 1
            &&& (forall|i: int| 0 <= i < p ==> w.messages[i] == v.messages[i])
            &&& (forall|i: int| p <= i < v.messages.len() ==> w.messages[i + 1] == v.messages[i])
            &&& w.messages[p].role == "tool_result"@
            &&& w.messages[p].tool_id == Some(id@)
            &&& w.messages[p].content == (if ls.len() == 0 {
                "  ⎿  (no output)"@
            } else {
                "  ⎿  "@ + ls[0] + crate::format::continuation_lines(ls.skip(1))
            })
        }),
{
    lemma_insert_position_bound(v.messages, id@);
}

/// A reading or searching tool's successful result without a diff takes
/// the place of the last result message of that call, when there is one:
/// only that message's text changes.
pub proof fn law_compact_result_replaces(
    v: TranscriptView,
    id: String,
    name: String,
    content: String,
    silent: Seq<Seq<char>>,
    daemon: bool,
)
    requires
        !silent.contains(name@),
        is_compact_tool(name@),
        last_result_of(v.messages, id@) is Some,
    ensures
        ({
            let w = stream_step(v, StreamEvent::ToolResult { id, name, content, is_error: None, diff: None }, silent, daemon);
            let p = last_result_of(v.messages, id@)->0 as int;
            &&& w.messages.len() == v.messages.len()
            &&& (forall|i: int| 0 <= i < v.messages.len() && i != p ==> w.messages[i] == v.messages[i])
            &&& w.messages[p].role == v.messages[p].role
            &&& w.messages[p].tool_id == v.messages[p].tool_id
            &&& w.messages[p].content == tool_result_named_text(name@, content@, false)
        }),
{
    lemma_last_result_bound(v.messages, id@);
}

} // verus!
