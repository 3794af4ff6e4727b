//! The event agent's chat: the agent that looks into system events answers
//! in a view of its own, more plainly than the main chat (no reasoning, no
//! silent tools, no diffs), and the events it is told of.

use vstd::prelude::*;
use crate::chat::{ChatMessage, MsgView, insert_position, msg_view, msgs_view, tool_insert_position};
use crate::format::{format_tool_result, tool_result_text};
use crate::input::{InputLine, InputView, input_wf, shown};
use crate::summary::{tool_call_line, tool_call_text};
use crate::text::{append_str, chars_to_string, is_blank, blank_text, str_chars, trim, trim_chars, trim_end, trim_end_chars};
use crate::transcript::{StreamEvent, lemma_insert_position_bound, plain_msg, tool_msg};

verus! {

/// The event agent's chat.
pub struct EventChat {
    pub messages: Vec<ChatMessage>,
    /// Text streamed since it was last flushed.
    pub streaming_text: Vec<char>,
    pub active_tool: Option<String>,
    pub is_streaming: bool,
    pub input_tokens: u64,
    pub output_tokens: u64,
    /// The agent said something the user has not looked at.
    pub has_unread: bool,
}

/// The event agent's chat by its values.
#[verifier::ext_equal]
pub struct EventChatView {
    pub messages: Seq<MsgView>,
    pub text: Seq<char>,
    pub active_tool: Option<Seq<char>>,
    pub streaming: bool,
    pub input_tokens: u64,
    pub output_tokens: u64,
    pub has_unread: bool,
}

impl View for EventChat {
    type V = EventChatView;

    open spec fn view(&self) -> EventChatView {
        EventChatView {
            messages: msgs_view(self.messages@),
            text: self.streaming_text@,
            active_tool: match self.active_tool {
                Some(t) => Some(t@),
                None => None,
            },
            streaming: self.is_streaming,
            input_tokens: self.input_tokens,
            output_tokens: self.output_tokens,
            has_unread: self.has_unread,
        }
    }
}

/// The streamed text, when not blank, becomes an assistant message (its
/// trailing whitespace dropped); the text starts afresh.
pub open spec fn text_flushed(v: EventChatView) -> EventChatView {
    EventChatView {
        text: seq![],
        messages: if is_blank(v.text) {
            v.messages
        } else {
            v.messages.push(plain_msg("assistant"@, trim_end(v.text)))
        },
        ..v
    }
}

/// The token counts of a usage report fit.
pub open spec fn tokens_fit(v: EventChatView, e: StreamEvent) -> bool {
    e matches StreamEvent::Usage { input_tokens, output_tokens, .. } ==> {
        &&& v.input_tokens + input_tokens <= u64::MAX
        &&& v.output_tokens + output_tokens <= u64::MAX
    }
}

/// The event agent's chat after a stream event: text gathers until a tool
/// starts or the answer ends; each call leaves "● name(summary)", and its
/// progress ("  ⎿  " and the text) and result go after it and what already
/// belongs to it; the input and output tokens add up; an error ends the
/// answer with a message. Other events change nothing.
pub open spec fn event_step(v: EventChatView, e: StreamEvent) -> EventChatView {
    match e {
        StreamEvent::MessageStart => EventChatView { text: seq![], active_tool: None, ..v },
        StreamEvent::TextDelta { text } => EventChatView { text: v.text + text@, ..v },
        StreamEvent::ToolUseStart { name } => EventChatView { active_tool: Some(name@), ..text_flushed(v) },
        StreamEvent::ToolUseEnd { id, name, input } => EventChatView {
            messages: v.messages.push(tool_msg("tool_call"@, tool_call_text(name@, input), id@, None)),
            ..v
        },
        StreamEvent::ToolProgress { id, content, .. } => EventChatView {
            messages: v.messages.insert(
                insert_position(v.messages, id@) as int,
                tool_msg("tool_result"@, "  ⎿  "@ + content@, id@, None),
            ),
            ..v
        },
        StreamEvent::ToolResult { id, content, is_error, .. } => EventChatView {
            active_tool: None,
            messages: v.messages.insert(
                insert_position(v.messages, id@) as int,
                tool_msg("tool_result"@, tool_result_text(content@, is_error == Some(true)), id@, None),
            ),
            ..v
        },
        StreamEvent::Usage { input_tokens, output_tokens, .. } => EventChatView {
            input_tokens: (v.input_tokens + input_tokens) as u64,
            output_tokens: (v.output_tokens + output_tokens) as u64,
            ..v
        },
        StreamEvent::MessageEnd { .. } => EventChatView { streaming: false, ..text_flushed(v) },
        StreamEvent::Error { error } => EventChatView {
            messages: v.messages.push(plain_msg("assistant"@, "Error: "@ + error@)),
            streaming: false,
            ..v
        },
        _ => v,
    }
}

/// The note that opens the event agent's view.
pub open spec fn view_note() -> Seq<char> {
    "Event Agent view. System events will appear here.\nAlt+L to view events. Press Alt+E to return to main view."@
}

/// The prompt of a turn the event agent takes by itself.
pub open spec fn auto_turn_prompt() -> Seq<char> {
    "New system events have arrived. Analyze them, investigate the root cause, and take simple corrective action if safe. Report your findings."@
}

/// The prompt of a turn the event agent takes by itself (see
/// `auto_turn_prompt`).
pub fn auto_turn_prompt_text() -> (r: &'static str)
    ensures
        r@ == auto_turn_prompt(),
{
    "New system events have arrived. Analyze them, investigate the root cause, and take simple corrective action if safe. Report your findings."
}

impl EventChat {
    /// An empty chat, not streaming.
    pub fn new() -> (c: EventChat)
        ensures
            c@ == (EventChatView {
                messages: seq![],
                text: seq![],
                active_tool: None,
                streaming: false,
                input_tokens: 0,
                output_tokens: 0,
                has_unread: false,
            }),
    {
        EventChat {
            messages: Vec::new(),
            streaming_text: Vec::new(),
            active_tool: None,
            is_streaming: false,
            input_tokens: 0,
            output_tokens: 0,
            has_unread: false,
        }
    }

    /// The user switches to the event agent's view: nothing is unread any
    /// more, and an empty chat gets a note on what the view is for.
    pub fn open_view(&mut self)
        ensures
            final(self)@ == (EventChatView {
                has_unread: false,
                messages: if old(self)@.messages.len() == 0 {
                    seq![plain_msg("system"@, view_note())]
                } else {
                    old(self)@.messages
                },
                ..old(self)@
            }),
    {
        let ghost v = self@;
        self.has_unread = false;
        if self.messages.len() == 0 {
            proof {
                reveal_strlit("system");
            }
            self.push_message(ChatMessage {
                role: String::from_str("system"),
                content: String::from_str("Event Agent view. System events will appear here.\nAlt+L to view events. Press Alt+E to return to main view."),
                tool_id: None,
                diff: None,
            });
            assert(self@.messages =~= seq![plain_msg("system"@, view_note())]);
        }
    }

    fn push_message(&mut self, m: ChatMessage)
        ensures
            final(self)@ == (EventChatView { messages: old(self)@.messages.push(msg_view(m)), ..old(self)@ }),
    {
        let ghost v = self@;
        self.messages.push(m);
        assert(self@.messages =~= v.messages.push(msg_view(m)));
    }

    fn insert_message(&mut self, at: usize, m: ChatMessage)
        requires
            at <= old(self).messages@.len(),
        ensures
            final(self)@ == (EventChatView { messages: old(self)@.messages.insert(at as int, msg_view(m)), ..old(self)@ }),
    {
        let ghost v = self@;
        self.messages.insert(at, m);
        assert(self@.messages =~= v.messages.insert(at as int, msg_view(m)));
    }

    /// Flushes the streamed text (see `text_flushed`).
    fn flush_text(&mut self)
        ensures
            final(self)@ == text_flushed(old(self)@),
    {
        let ghost v = self@;
        let mut content: Vec<char> = Vec::new();
        std::mem::swap(&mut content, &mut self.streaming_text);
        if !blank_text(&content) {
            let mut t = content;
            trim_end_chars(&mut t);
            proof {
                reveal_strlit("assistant");
            }
            self.push_message(ChatMessage { role: String::from_str("assistant"), content: chars_to_string(&t), tool_id: None, diff: None });
        }
        assert(self@ =~= text_flushed(v));
    }

    /// Takes in a stream event of the event agent (see `event_step`).
    pub fn handle_event_agent_stream_event(&mut self, event: StreamEvent)
        requires
            tokens_fit(old(self)@, event),
        ensures
            final(self)@ == event_step(old(self)@, event),
    {
        let ghost v = self@;
        match event {
            StreamEvent::MessageStart => {
                self.streaming_text = Vec::new();
                self.active_tool = None;
                assert(self@ =~= event_step(v, StreamEvent::MessageStart));
            },
            StreamEvent::TextDelta { text } => {
                let t = str_chars(text.as_str());
                let mut i: usize = 0;
                while i < t.len()
                    invariant
                        i <= t@.len(),
                        t@ == text@,
                        self@ == (EventChatView { text: v.text + t@.take(i as int), ..v }),
                    decreases t@.len() - i,
                {
                    self.streaming_text.push(t[i]);
                    assert(v.text + t@.take(i + 1) =~= (v.text + t@.take(i as int)).push(t@[i as int]));
                    assert(self@ =~= EventChatView { text: v.text + t@.take(i + 1), ..v });
                    i += 1;
                }
                assert(t@.take(t@.len() as int) =~= t@);
            },
            StreamEvent::ToolUseStart { name } => {
                self.flush_text();
                self.active_tool = Some(name);
                assert(self@ =~= event_step(v, StreamEvent::ToolUseStart { name }));
            },
            StreamEvent::ToolUseEnd { id, name, input } => {
                let text = tool_call_line(name.as_str(), &input);
                proof {
                    reveal_strlit("tool_call");
                }
                self.push_message(ChatMessage { role: String::from_str("tool_call"), content: text, tool_id: Some(id), diff: None });
            },
            StreamEvent::ToolProgress { id, name, content } => {
                let pos = tool_insert_position(&self.messages, id.as_str());
                let mut t = str_chars("  ⎿  ");
                append_str(&mut t, content.as_str());
                proof {
                    reveal_strlit("tool_result");
                }
                self.insert_message(pos, ChatMessage { role: String::from_str("tool_result"), content: chars_to_string(&t), tool_id: Some(id), diff: None });
            },
            StreamEvent::ToolResult { id, name, content, is_error, diff } => {
                self.active_tool = None;
                let err = match is_error {
                    Some(b) => b,
                    None => false,
                };
                let formatted = format_tool_result(content.as_str(), err);
                let pos = tool_insert_position(&self.messages, id.as_str());
                proof {
                    reveal_strlit("tool_result");
                }
                self.insert_message(pos, ChatMessage { role: String::from_str("tool_result"), content: formatted, tool_id: Some(id), diff: None });
                assert(self@ =~= event_step(v, StreamEvent::ToolResult { id, name, content, is_error, diff }));
            },
            StreamEvent::Usage { input_tokens, output_tokens, cache_creation_tokens, cache_read_tokens } => {
                self.input_tokens = self.input_tokens + input_tokens;
                self.output_tokens = self.output_tokens + output_tokens;
            },
            StreamEvent::MessageEnd { tool_use } => {
                self.flush_text();
                self.is_streaming = false;
                assert(self@ =~= event_step(v, StreamEvent::MessageEnd { tool_use }));
            },
            StreamEvent::Error { error } => {
                let mut t = str_chars("Error: ");
                append_str(&mut t, error.as_str());
                proof {
                    reveal_strlit("assistant");
                }
                self.push_message(ChatMessage { role: String::from_str("assistant"), content: chars_to_string(&t), tool_id: None, diff: None });
                self.is_streaming = false;
                assert(self@ =~= event_step(v, StreamEvent::Error { error }));
            },
            _ => {},
        }
    }

    /// The user sends the input to the event agent: ignored while it
    /// answers (`None`, nothing changes); else the input is emptied, and
    /// when its trimmed text is not empty, the chat shows what the input
    /// showed (trimmed), the agent starts answering, and that text is what
    /// to send.
    pub fn submit_to_event_agent(&mut self, input: &mut InputLine) -> (r: Option<String>)
        requires
            input_wf(old(input)@),
        ensures
            old(self)@.streaming ==> r is None && final(self)@ == old(self)@ && final(input)@ == old(input)@,
            !old(self)@.streaming ==> {
                &&& final(input)@ == (InputView { text: seq![], cursor: 0, paste: None })
                &&& if trim(old(input)@.text).len() == 0 {
                    r is None && final(self)@ == old(self)@
                } else {
                    &&& r matches Some(t) && t@ == trim(old(input)@.text)
                    &&& final(self)@ == (EventChatView {
                        messages: old(self)@.messages.push(plain_msg("user"@, trim(shown(old(input)@)))),
                        text: seq![],
                        active_tool: None,
                        streaming: true,
                        ..old(self)@
                    })
                }
            },
    {
        if self.is_streaming {
            return None;
        }
        let text = trim_chars(&input.text);
        let shown_text = input.display_input();
        let display = trim_chars(&str_chars(shown_text.as_str()));
        *input = InputLine::new();
        if text.len() == 0 {
            return None;
        }
        let ghost v = self@;
        proof {
            reveal_strlit("user");
        }
        self.push_message(ChatMessage { role: String::from_str("user"), content: chars_to_string(&display), tool_id: None, diff: None });
        self.is_streaming = true;
        self.streaming_text = Vec::new();
        self.active_tool = None;
        Some(chars_to_string(&text))
    }

    /// The event agent is to look into new events by itself: not while it
    /// answers (`false`, nothing changes); else the chat says so, the agent
    /// starts answering (to `auto_turn_prompt`), and, when the user is not
    /// watching its view, there is something unread.
    pub fn trigger_event_agent_auto_turn(&mut self, watching: bool) -> (started: bool)
        ensures
            started == !old(self)@.streaming,
            !started ==> final(self)@ == old(self)@,
            started ==> final(self)@ == (EventChatView {
                messages: old(self)@.messages.push(plain_msg("system"@, "Investigating system events..."@)),
                text: seq![],
                active_tool: None,
                streaming: true,
                has_unread: old(self)@.has_unread || !watching,
                ..old(self)@
            }),
    {
        if self.is_streaming {
            return false;
        }
        proof {
            reveal_strlit("system");
        }
        self.push_message(ChatMessage {
            role: String::from_str("system"),
            content: String::from_str("Investigating system events..."),
            tool_id: None,
            diff: None,
        });
        self.is_streaming = true;
        self.streaming_text = Vec::new();
        self.active_tool = None;
        if !watching {
            self.has_unread = true;
        }
        true
    }
}

/// What new events lead to when they are polled.
#[derive(Debug, Clone, Copy, PartialEq, Eq, Structural)]
pub enum PollAction {
    /// Nothing more: they wait in the buffer.
    Nothing,
    /// The event agent looks into them by itself.
    AutoTurn,
    /// The event picker opens on the buffered events, marked unread.
    OpenPicker,
}

/// What polled events lead to: nothing unless one is an error or critical;
/// then, in auto mode, the agent's own turn; else the picker, unless it is
/// open already or nothing is buffered.
pub open spec fn poll_action(critical: bool, auto_mode: bool, picker_open: bool, buffered: nat) -> PollAction {
    if !critical {
        PollAction::Nothing
    } else if auto_mode {
        PollAction::AutoTurn
    } else if !picker_open && buffered > 0 {
        PollAction::OpenPicker
    } else {
        PollAction::Nothing
    }
}

/// What polled events lead to (see `poll_action`).
pub fn after_poll(critical: bool, auto_mode: bool, picker_open: bool, buffered: usize) -> (r: PollAction)
    ensures
        r == poll_action(critical, auto_mode, picker_open, buffered as nat),
{
    if critical && auto_mode {
        PollAction::AutoTurn
    } else if critical && !picker_open && buffered > 0 {
        PollAction::OpenPicker
    } else {
        PollAction::Nothing
    }
}

/// The note of a worker's run: a tick when it succeeded, a cross
/// otherwise, then "Worker '{name}': {summary}".
pub open spec fn worker_note(name: Seq<char>, status: Seq<char>, summary: Seq<char>) -> Seq<char> {
    (if status == "success"@ { "✓"@ } else { "✗"@ }) + " Worker '"@ + name + "': "@ + summary
}

/// The note of a worker's run (see `worker_note`).
pub fn worker_toast(name: &str, status: &str, summary: &str) -> (r: String)
    ensures
        r@ == worker_note(name@, status@, summary@),
{
    let st = str_chars(status);
    let ok = str_chars("success");
    let mut t = if crate::text::chars_eq(&st, &ok) { str_chars("✓") } else { str_chars("✗") };
    append_str(&mut t, " Worker '");
    append_str(&mut t, name);
    append_str(&mut t, "': ");
    append_str(&mut t, summary);
    chars_to_string(&t)
}

/// No stream event lessens the event agent's messages, and an
/// answer's end leaves no streamed text behind and the agent idle.
pub proof fn law_event_chat_keeps_messages(v: EventChatView, e: StreamEvent)
    ensures
        event_step(v, e).messages.len() >= v.messages.len(),
        e is MessageEnd ==> event_step(v, e).text.len() == 0 && !event_step(v, e).streaming,
{
    match e {
        StreamEvent::ToolProgress { id, .. } => lemma_insert_position_bound(v.messages, id@),
        StreamEvent::ToolResult { id, .. } => lemma_insert_position_bound(v.messages, id@),
        _ => {},
    }
}

} // verus!
