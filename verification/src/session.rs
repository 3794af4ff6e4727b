//! A saved session's messages turned back into chat lines, when a session
//! is loaded: the user's and the assistant's text, each tool call with the
//! result that answered it.

use vstd::prelude::*;
use crate::chat::ChatMessage;
use crate::format::{format_tool_result, tool_result_text};
use crate::history::opt_string_view;
use crate::time::Timestamp;
use crate::keys::KeyCode;
use crate::summary::{ToolInput, clip, clipped, tool_call_line, tool_call_text};
use crate::text::{append_decimal, append_str, blank_text, chars_to_string, decimal_chars, is_blank, join_with, lemma_join_with_push, str_chars};

verus! {

/// Who wrote a saved message.
pub enum Role {
    User,
    Assistant,
    System,
}

/// One block of a saved message.
pub enum ContentBlock {
    Text { text: String },
    ToolUse { id: String, name: String, input: ToolInput },
    ToolResult { tool_use_id: String, content: String, is_error: Option<bool>, diff: Option<String> },
    /// A block the chat does not show (an image, reasoning).
    Other,
}

/// What a saved message holds: plain text, or blocks.
pub enum MessageContent {
    Text(String),
    Blocks(Vec<ContentBlock>),
}

/// One message of a saved session.
pub struct SessionMessage {
    pub role: Role,
    pub content: MessageContent,
}

/// A saved session as a list of sessions shows it.
pub struct SessionEntry {
    pub id: String,
    pub name: String,
    pub created_at: Timestamp,
    pub updated_at: Timestamp,
    pub message_count: usize,
    pub provider: String,
    pub model: String,
    pub last_message: Option<String>,
}

/// The session picker: the sessions, the one under the cursor, and the
/// session the chat is in.
pub struct SessionPicker {
    pub sessions: Vec<SessionEntry>,
    pub selected: usize,
    pub current_id: Option<String>,
}

/// The index of the first session with this id.
pub open spec fn session_index(ss: Seq<SessionEntry>, id: Seq<char>) -> Option<nat>
    decreases ss.len(),
{
    if ss.len() == 0 {
        None
    } else {
        match session_index(ss.drop_last(), id) {
            Some(k) => Some(k),
            None => if ss.last().id@ == id { Some((ss.len() - 1) as nat) } else { None },
        }
    }
}

/// The picker over saved sessions: none when there are none; else the
/// current session, when it is among them, is selected (the first one
/// otherwise).
pub fn open_session_picker(sessions: Vec<SessionEntry>, current_id: Option<String>) -> (r: Option<SessionPicker>)
    ensures
        sessions@.len() == 0 <==> r is None,
        r matches Some(p) ==> {
            &&& p.sessions@ == sessions@
            &&& opt_string_view(p.current_id) == opt_string_view(current_id)
            &&& p.selected as nat == match opt_string_view(current_id) {
                Some(id) => match session_index(sessions@, id) {
                    Some(k) => k,
                    None => 0,
                },
                None => 0,
            }
        },
{
    if sessions.len() == 0 {
        return None;
    }
    let selected = match &current_id {
        Some(id) => match find_session(&sessions, id) {
            Some(k) => k,
            None => 0,
        },
        None => 0,
    };
    Some(SessionPicker { sessions, selected, current_id })
}

fn find_session(ss: &Vec<SessionEntry>, id: &String) -> (r: Option<usize>)
    ensures
        match r {
            Some(k) => session_index(ss@, id@) == Some(k as nat),
            None => session_index(ss@, id@) is None,
        },
{
    let mut i: usize = 0;
    while i < ss.len()
        invariant
            i <= ss@.len(),
            session_index(ss@.take(i as int), id@) is None,
        decreases ss@.len() - i,
    {
        assert(ss@.take(i + 1).drop_last() =~= ss@.take(i as int));
        if ss[i].id.eq(id) {
            proof {
                lemma_index_stays(ss@, id@, i + 1);
            }
            return Some(i);
        }
        i += 1;
    }
    assert(ss@.take(ss@.len() as int) =~= ss@);
    None
}

proof fn lemma_index_stays(ss: Seq<SessionEntry>, id: Seq<char>, j: int)
    requires
        0 <= j <= ss.len(),
        session_index(ss.take(j), id) is Some,
    ensures
        session_index(ss, id) == session_index(ss.take(j), id),
    decreases ss.len() - j,
{
    if j < ss.len() {
        assert(ss.take(j + 1).drop_last() =~= ss.take(j));
        lemma_index_stays(ss, id, j + 1);
    } else {
        assert(ss.take(j) =~= ss);
    }
}

/// What a key asks of the session picker.
#[derive(Debug, Clone, Copy, PartialEq, Eq, Structural)]
pub enum SessionAction {
    Stay,
    /// Load the session at this index, and close.
    Load(usize),
    Close,
}

/// What a key does in the session picker (see `SessionAction`): Up and
/// Down move the cursor over the sessions, Enter loads the one under it,
/// Esc closes.
pub fn session_picker_key(picker: &mut SessionPicker, code: KeyCode) -> (a: SessionAction)
    ensures
        final(picker).sessions == old(picker).sessions,
        final(picker).current_id == old(picker).current_id,
        a == match code {
            KeyCode::Enter => SessionAction::Load(old(picker).selected),
            KeyCode::Esc => SessionAction::Close,
            _ => SessionAction::Stay,
        },
        final(picker).selected == match code {
            KeyCode::Up => if old(picker).selected > 0 { (old(picker).selected - 1) as usize } else { old(picker).selected },
            KeyCode::Down => if old(picker).selected + 1 < old(picker).sessions@.len() {
                (old(picker).selected + 1) as usize
            } else {
                old(picker).selected
            },
            _ => old(picker).selected,
        },
{
    match code {
        KeyCode::Up => {
            if picker.selected > 0 {
                picker.selected -= 1;
            }
            SessionAction::Stay
        },
        KeyCode::Down => {
            if picker.sessions.len() > 0 && picker.selected < picker.sessions.len() - 1 {
                picker.selected += 1;
            }
            SessionAction::Stay
        },
        KeyCode::Enter => SessionAction::Load(picker.selected),
        KeyCode::Esc => SessionAction::Close,
        _ => SessionAction::Stay,
    }
}

/// A tool's result by its values: content, whether it failed, and its diff.
pub open spec fn result_view(b: ContentBlock) -> (Seq<char>, bool, Option<Seq<char>>) {
    match b {
        ContentBlock::ToolResult { content, is_error, diff, .. } => (
            content@,
            match is_error { Some(e) => e, None => false },
            opt_string_view(diff),
        ),
        _ => (seq![], false, None),
    }
}

/// The block is the result of the tool call with this id.
pub open spec fn is_result_of(b: ContentBlock, id: Seq<char>) -> bool {
    match b {
        ContentBlock::ToolResult { tool_use_id, .. } => tool_use_id@ == id,
        _ => false,
    }
}

/// The last result of the tool call with this id among blocks.
pub open spec fn result_in_blocks(bs: Seq<ContentBlock>, id: Seq<char>) -> Option<(Seq<char>, bool, Option<Seq<char>>)>
    decreases bs.len(),
{
    if bs.len() == 0 {
        None
    } else if is_result_of(bs.last(), id) {
        Some(result_view(bs.last()))
    } else {
        result_in_blocks(bs.drop_last(), id)
    }
}

/// The blocks of a message (none for plain text).
pub open spec fn blocks_of(m: SessionMessage) -> Seq<ContentBlock> {
    match m.content {
        MessageContent::Blocks(bs) => bs@,
        MessageContent::Text(_) => seq![],
    }
}

/// The last result of the tool call with this id in the session, whoever's
/// message holds it.
pub open spec fn last_result(ms: Seq<SessionMessage>, id: Seq<char>) -> Option<(Seq<char>, bool, Option<Seq<char>>)>
    decreases ms.len(),
{
    if ms.len() == 0 {
        None
    } else if result_in_blocks(blocks_of(ms.last()), id) is Some {
        result_in_blocks(blocks_of(ms.last()), id)
    } else {
        last_result(ms.drop_last(), id)
    }
}

fn clone_opt(o: &Option<String>) -> (r: Option<String>)
    ensures
        opt_string_view(r) == opt_string_view(*o),
{
    match o {
        Some(s) => Some(s.clone()),
        None => None,
    }
}

fn result_in(bs: &Vec<ContentBlock>, id: &String) -> (r: Option<(String, bool, Option<String>)>)
    ensures
        match r {
            Some((c, e, d)) => result_in_blocks(bs@, id@) == Some((c@, e, opt_string_view(d))),
            None => result_in_blocks(bs@, id@) is None,
        },
{
    let mut j: usize = bs.len();
    assert(bs@.take(j as int) =~= bs@);
    while j > 0
        invariant
            j <= bs@.len(),
            result_in_blocks(bs@, id@) == result_in_blocks(bs@.take(j as int), id@),
        decreases j,
    {
        let ghost pre = bs@.take(j as int);
        assert(pre.last() == bs@[j - 1]);
        assert(pre.drop_last() =~= bs@.take(j - 1));
        match &bs[j - 1] {
            ContentBlock::ToolResult { tool_use_id, content, is_error, diff } => {
                if tool_use_id.eq(id) {
                    let e = match is_error {
                        Some(b) => *b,
                        None => false,
                    };
                    return Some((content.clone(), e, clone_opt(diff)));
                }
            },
            _ => {},
        }
        j -= 1;
    }
    None
}

/// The last result of the tool call with this id in the session (see
/// `last_result`).
pub fn find_tool_result(ms: &Vec<SessionMessage>, id: &String) -> (r: Option<(String, bool, Option<String>)>)
    ensures
        match r {
            Some((c, e, d)) => last_result(ms@, id@) == Some((c@, e, opt_string_view(d))),
            None => last_result(ms@, id@) is None,
        },
{
    let mut i: usize = ms.len();
    assert(ms@.take(i as int) =~= ms@);
    while i > 0
        invariant
            i <= ms@.len(),
            last_result(ms@, id@) == last_result(ms@.take(i as int), id@),
        decreases i,
    {
        let ghost pre = ms@.take(i as int);
        assert(pre.last() == ms@[i - 1]);
        assert(pre.drop_last() =~= ms@.take(i - 1));
        match &ms[i - 1].content {
            MessageContent::Blocks(bs) => {
                let found = result_in(bs, id);
                if found.is_some() {
                    return found;
                }
            },
            MessageContent::Text(_) => {},
        }
        i -= 1;
    }
    None
}

// ── Chat lines of a session ─────────────────────────────────────────────

/// A chat line by its values: role, text and diff.
pub open spec fn line_view(m: ChatMessage) -> (Seq<char>, Seq<char>, Option<Seq<char>>) {
    (m.role@, m.content@, opt_string_view(m.diff))
}

pub open spec fn lines_of(ms: Seq<ChatMessage>) -> Seq<(Seq<char>, Seq<char>, Option<Seq<char>>)> {
    Seq::new(ms.len(), |i: int| line_view(ms[i]))
}

/// The texts of the text blocks, in order.
pub open spec fn block_texts(bs: Seq<ContentBlock>) -> Seq<Seq<char>>
    decreases bs.len(),
{
    if bs.len() == 0 {
        seq![]
    } else {
        match bs.last() {
            ContentBlock::Text { text } => block_texts(bs.drop_last()).push(text@),
            _ => block_texts(bs.drop_last()),
        }
    }
}

/// A message's text: plain text as it is, the text blocks joined by
/// newlines.
pub open spec fn message_text(c: MessageContent) -> Seq<char> {
    match c {
        MessageContent::Text(t) => t@,
        MessageContent::Blocks(bs) => join_with(block_texts(bs@), "\n"@),
    }
}

/// Each tool call among the blocks: its line, then the line of its result
/// when the session holds one (see `last_result`), with the result's diff.
pub open spec fn tool_use_lines(bs: Seq<ContentBlock>, all: Seq<SessionMessage>) -> Seq<(Seq<char>, Seq<char>, Option<Seq<char>>)>
    decreases bs.len(),
{
    if bs.len() == 0 {
        seq![]
    } else {
        let prev = tool_use_lines(bs.drop_last(), all);
        match bs.last() {
            ContentBlock::ToolUse { id, name, input } => {
                let with_call = prev.push(("tool_call"@, tool_call_text(name@, input), None));
                match last_result(all, id@) {
                    Some((c, e, d)) => with_call.push(("tool_result"@, tool_result_text(c, e), d)),
                    None => with_call,
                }
            },
            _ => prev,
        }
    }
}

/// The chat lines of one saved message: the user's text when there is any;
/// the assistant's text when there is any, then its tool calls with their
/// results; nothing of other messages.
pub open spec fn message_lines(m: SessionMessage, all: Seq<SessionMessage>) -> Seq<(Seq<char>, Seq<char>, Option<Seq<char>>)> {
    let t = message_text(m.content);
    match m.role {
        Role::User => if t.len() > 0 { seq![("user"@, t, None)] } else { seq![] },
        Role::Assistant => (if t.len() > 0 {
            seq![("assistant"@, t, None)]
        } else {
            seq![]
        }) + tool_use_lines(blocks_of(m), all),
        Role::System => seq![],
    }
}

/// The chat lines of saved messages, in order; results are looked up in
/// the whole session `all`.
pub open spec fn session_lines(ms: Seq<SessionMessage>, all: Seq<SessionMessage>) -> Seq<(Seq<char>, Seq<char>, Option<Seq<char>>)>
    decreases ms.len(),
{
    if ms.len() == 0 {
        seq![]
    } else {
        session_lines(ms.drop_last(), all) + message_lines(ms.last(), all)
    }
}

fn text_of(c: &MessageContent) -> (r: Vec<char>)
    ensures
        r@ == message_text(*c),
{
    match c {
        MessageContent::Text(t) => str_chars(t.as_str()),
        MessageContent::Blocks(bs) => {
            let mut out: Vec<char> = Vec::new();
            let mut any = false;
            let mut j: usize = 0;
            while j < bs.len()
                invariant
                    j <= bs@.len(),
                    out@ == join_with(block_texts(bs@.take(j as int)), "\n"@),
                    any == (block_texts(bs@.take(j as int)).len() > 0),
                decreases bs@.len() - j,
            {
                let ghost pre = block_texts(bs@.take(j as int));
                assert(bs@.take(j + 1).drop_last() =~= bs@.take(j as int));
                assert(bs@.take(j + 1).last() == bs@[j as int]);
                match &bs[j] {
                    ContentBlock::Text { text } => {
                        proof {
                            lemma_join_with_push(pre, "\n"@, text@);
                        }
                        if any {
                            append_str(&mut out, "\n");
                        }
                        append_str(&mut out, text.as_str());
                        any = true;
                    },
                    _ => {},
                }
                j += 1;
            }
            assert(bs@.take(bs@.len() as int) =~= bs@);
            out
        },
    }
}

fn push_line(out: &mut Vec<ChatMessage>, role: &str, content: String, diff: Option<String>)
    requires
        forall|k: int| 0 <= k < old(out)@.len() ==> (#[trigger] old(out)@[k]).tool_id is None,
    ensures
        lines_of(final(out)@) == lines_of(old(out)@).push((role@, content@, opt_string_view(diff))),
        forall|k: int| 0 <= k < final(out)@.len() ==> (#[trigger] final(out)@[k]).tool_id is None,
{
    let ghost before = lines_of(out@);
    out.push(ChatMessage { role: role.to_owned(), content, tool_id: None, diff });
    assert(lines_of(out@) =~= before.push((role@, content@, opt_string_view(diff))));
}

fn push_tool_lines(out: &mut Vec<ChatMessage>, bs: &Vec<ContentBlock>, all: &Vec<SessionMessage>)
    requires
        forall|k: int| 0 <= k < old(out)@.len() ==> (#[trigger] old(out)@[k]).tool_id is None,
    ensures
        lines_of(final(out)@) == lines_of(old(out)@) + tool_use_lines(bs@, all@),
        forall|k: int| 0 <= k < final(out)@.len() ==> (#[trigger] final(out)@[k]).tool_id is None,
{
    let ghost start = lines_of(out@);
    let mut j: usize = 0;
    assert(start + tool_use_lines(bs@.take(0), all@) =~= start);
    while j < bs.len()
        invariant
            j <= bs@.len(),
            lines_of(out@) == start + tool_use_lines(bs@.take(j as int), all@),
            forall|k: int| 0 <= k < out@.len() ==> (#[trigger] out@[k]).tool_id is None,
        decreases bs@.len() - j,
    {
        let ghost prev = tool_use_lines(bs@.take(j as int), all@);
        assert(bs@.take(j + 1).drop_last() =~= bs@.take(j as int));
        assert(bs@.take(j + 1).last() == bs@[j as int]);
        match &bs[j] {
            ContentBlock::ToolUse { id, name, input } => {
                let call = tool_call_line(name.as_str(), input);
                push_line(out, "tool_call", call, None);
                let found = find_tool_result(all, id);
                match found {
                    Some((c, e, d)) => {
                        let text = format_tool_result(c.as_str(), e);
                        push_line(out, "tool_result", text, d);
                    },
                    None => {},
                }
                proof {
                    reveal_strlit("tool_call");
                    reveal_strlit("tool_result");
                }
                assert(lines_of(out@) =~= start + tool_use_lines(bs@.take(j + 1), all@));
            },
            _ => {},
        }
        j += 1;
    }
    assert(bs@.take(bs@.len() as int) =~= bs@);
}

/// The chat lines of a saved session (see `session_lines`); none of them
/// belongs to a running tool.
pub fn session_chat_messages(ms: &Vec<SessionMessage>) -> (r: Vec<ChatMessage>)
    ensures
        lines_of(r@) == session_lines(ms@, ms@),
        forall|k: int| 0 <= k < r@.len() ==> (#[trigger] r@[k]).tool_id is None,
{
    let mut out: Vec<ChatMessage> = Vec::new();
    let mut i: usize = 0;
    assert(lines_of(out@) =~= session_lines(ms@.take(0), ms@));
    while i < ms.len()
        invariant
            i <= ms@.len(),
            lines_of(out@) == session_lines(ms@.take(i as int), ms@),
            forall|k: int| 0 <= k < out@.len() ==> (#[trigger] out@[k]).tool_id is None,
        decreases ms@.len() - i,
    {
        let ghost before = lines_of(out@);
        assert(ms@.take(i + 1).drop_last() =~= ms@.take(i as int));
        assert(ms@.take(i + 1).last() == ms@[i as int]);
        let m = &ms[i];
        let text = text_of(&m.content);
        match m.role {
            Role::User => {
                if text.len() > 0 {
                    push_line(&mut out, "user", chars_to_string(&text), None);
                }
                assert(lines_of(out@) =~= before + message_lines(ms@[i as int], ms@));
            },
            Role::Assistant => {
                if text.len() > 0 {
                    push_line(&mut out, "assistant", chars_to_string(&text), None);
                }
                let ghost mid = lines_of(out@);
                match &m.content {
                    MessageContent::Blocks(bs) => {
                        push_tool_lines(&mut out, bs, ms);
                    },
                    MessageContent::Text(_) => {
                        assert(tool_use_lines(seq![], ms@) =~= seq![]);
                    },
                }
                assert(lines_of(out@) =~= before + message_lines(ms@[i as int], ms@));
            },
            Role::System => {
                assert(lines_of(out@) =~= before + message_lines(ms@[i as int], ms@));
            },
        }
        i += 1;
    }
    assert(ms@.take(ms@.len() as int) =~= ms@);
    out
}

/// Each result line directly follows a tool call line.
pub open spec fn results_follow_calls(ls: Seq<(Seq<char>, Seq<char>, Option<Seq<char>>)>) -> bool {
    forall|i: int| 0 <= i < ls.len() && (#[trigger] ls[i]).0 == "tool_result"@ ==> i > 0 && ls[i - 1].0 == "tool_call"@
}

proof fn lemma_follow_concat(a: Seq<(Seq<char>, Seq<char>, Option<Seq<char>>)>, b: Seq<(Seq<char>, Seq<char>, Option<Seq<char>>)>)
    requires
        results_follow_calls(a),
        results_follow_calls(b),
    ensures
        results_follow_calls(a + b),
{
    let c = a + b;
    assert forall|i: int| 0 <= i < c.len() && (#[trigger] c[i]).0 == "tool_result"@ implies i > 0 && c[i - 1].0 == "tool_call"@ by {
        if i < a.len() {
            assert(c[i] == a[i]);
            assert(c[i - 1] == a[i - 1]);
        } else {
            assert(c[i] == b[i - a.len()]);
            assert(b[i - a.len()].0 == "tool_result"@);
            assert(c[i - 1] == b[i - a.len() - 1]);
        }
    }
}

proof fn lemma_roles_differ()
    ensures
        "tool_call"@ != "tool_result"@,
        "user"@ != "tool_result"@,
        "assistant"@ != "tool_result"@,
{
    reveal_strlit("tool_call");
    reveal_strlit("tool_result");
    reveal_strlit("user");
    reveal_strlit("assistant");
    assert("tool_call"@.len() != "tool_result"@.len());
    assert("user"@.len() != "tool_result"@.len());
    assert("assistant"@.len() != "tool_result"@.len());
}

proof fn lemma_one_line_follows(role: Seq<char>, text: Seq<char>, d: Option<Seq<char>>)
    requires
        role != "tool_result"@,
    ensures
        results_follow_calls(seq![(role, text, d)]),
{
    let s = seq![(role, text, d)];
    assert forall|i: int| 0 <= i < s.len() && (#[trigger] s[i]).0 == "tool_result"@ implies i > 0 && s[i - 1].0 == "tool_call"@ by {
        assert(s[0].0 == role);
    }
}

proof fn lemma_tool_lines_follow(bs: Seq<ContentBlock>, all: Seq<SessionMessage>)
    ensures
        results_follow_calls(tool_use_lines(bs, all)),
    decreases bs.len(),
{
    lemma_roles_differ();
    if bs.len() > 0 {
        lemma_tool_lines_follow(bs.drop_last(), all);
        let prev = tool_use_lines(bs.drop_last(), all);
        match bs.last() {
            ContentBlock::ToolUse { id, name, input } => {
                let call = seq![("tool_call"@, tool_call_text(name@, input), None::<Seq<char>>)];
                lemma_one_line_follows("tool_call"@, tool_call_text(name@, input), None);
                lemma_follow_concat(prev, call);
                assert(prev.push(("tool_call"@, tool_call_text(name@, input), None)) =~= prev + call);
                match last_result(all, id@) {
                    Some((c, e, d)) => {
                        let with_call = prev + call;
                        let r = with_call.push(("tool_result"@, tool_result_text(c, e), d));
                        assert forall|i: int| 0 <= i < r.len() && (#[trigger] r[i]).0 == "tool_result"@ implies i > 0 && r[i - 1].0 == "tool_call"@ by {
                            if i < with_call.len() {
                                assert(r[i] == with_call[i]);
                                assert(r[i - 1] == with_call[i - 1]);
                            }
                        }
                    },
                    None => {},
                }
            },
            _ => {},
        }
    }
}

/// In the chat lines of a saved session, each tool result comes right
/// after the call it answers.
pub proof fn law_session_results_follow_calls(ms: Seq<SessionMessage>)
    ensures
        results_follow_calls(session_lines(ms, ms)),
{
    lemma_session_lines_follow(ms, ms);
}

proof fn lemma_session_lines_follow(ms: Seq<SessionMessage>, all: Seq<SessionMessage>)
    ensures
        results_follow_calls(session_lines(ms, all)),
    decreases ms.len(),
{
    lemma_roles_differ();
    if ms.len() > 0 {
        lemma_session_lines_follow(ms.drop_last(), all);
        let m = ms.last();
        let t = message_text(m.content);
        let head: Seq<(Seq<char>, Seq<char>, Option<Seq<char>>)> = if t.len() > 0 {
            seq![("assistant"@, t, None)]
        } else {
            seq![]
        };
        lemma_one_line_follows("assistant"@, t, None);
        lemma_one_line_follows("user"@, t, None);
        assert(results_follow_calls(Seq::<(Seq<char>, Seq<char>, Option<Seq<char>>)>::empty()));
        assert(results_follow_calls(head));
        lemma_tool_lines_follow(blocks_of(m), all);
        lemma_follow_concat(head, tool_use_lines(blocks_of(m), all));
        lemma_follow_concat(session_lines(ms.drop_last(), all), message_lines(m, all));
    }
}

// ── A session the daemon loaded ─────────────────────────────────────────

/// The role a saved message is shown under.
pub open spec fn display_role(r: Role) -> Seq<char> {
    match r {
        Role::User => "user"@,
        Role::Assistant => "assistant"@,
        Role::System => "system"@,
    }
}

/// The lines of a loaded message's blocks: each text that is not blank,
/// under the message's role; each tool call's line; each result's content,
/// cut to the characters within 200 bytes with "..." after it when longer.
pub open spec fn loaded_block_lines(bs: Seq<ContentBlock>, role: Seq<char>) -> Seq<(Seq<char>, Seq<char>, Option<Seq<char>>)>
    decreases bs.len(),
{
    if bs.len() == 0 {
        seq![]
    } else {
        let prev = loaded_block_lines(bs.drop_last(), role);
        match bs.last() {
            ContentBlock::Text { text } => if is_blank(text@) {
                prev
            } else {
                prev.push((role, text@, None))
            },
            ContentBlock::ToolUse { name, input, .. } => prev.push(("tool_call"@, tool_call_text(name@, input), None)),
            ContentBlock::ToolResult { content, .. } => prev.push(("tool_result"@, clipped(content@, 200, "..."@), None)),
            ContentBlock::Other => prev,
        }
    }
}

/// The lines of one loaded message: its text when not blank, or its
/// blocks' lines.
pub open spec fn loaded_message_lines(m: SessionMessage) -> Seq<(Seq<char>, Seq<char>, Option<Seq<char>>)> {
    match m.content {
        MessageContent::Text(t) => if is_blank(t@) {
            seq![]
        } else {
            seq![(display_role(m.role), t@, None)]
        },
        MessageContent::Blocks(bs) => loaded_block_lines(bs@, display_role(m.role)),
    }
}

pub open spec fn loaded_lines(ms: Seq<SessionMessage>) -> Seq<(Seq<char>, Seq<char>, Option<Seq<char>>)>
    decreases ms.len(),
{
    if ms.len() == 0 {
        seq![]
    } else {
        loaded_lines(ms.drop_last()) + loaded_message_lines(ms.last())
    }
}

/// The note that closes a loaded session.
pub open spec fn loaded_note(id: Seq<char>, count: nat) -> Seq<char> {
    "Loaded session "@ + id + " ("@ + decimal_chars(count) + " messages)"@
}

fn role_name(r: &Role) -> (s: &'static str)
    ensures
        s@ == display_role(*r),
{
    match r {
        Role::User => "user",
        Role::Assistant => "assistant",
        Role::System => "system",
    }
}

fn push_loaded_blocks(out: &mut Vec<ChatMessage>, bs: &Vec<ContentBlock>, role: &str)
    requires
        forall|k: int| 0 <= k < old(out)@.len() ==> (#[trigger] old(out)@[k]).tool_id is None,
    ensures
        lines_of(final(out)@) == lines_of(old(out)@) + loaded_block_lines(bs@, role@),
        forall|k: int| 0 <= k < final(out)@.len() ==> (#[trigger] final(out)@[k]).tool_id is None,
{
    let ghost start = lines_of(out@);
    let mut j: usize = 0;
    assert(start + loaded_block_lines(bs@.take(0), role@) =~= start);
    while j < bs.len()
        invariant
            j <= bs@.len(),
            lines_of(out@) == start + loaded_block_lines(bs@.take(j as int), role@),
            forall|k: int| 0 <= k < out@.len() ==> (#[trigger] out@[k]).tool_id is None,
        decreases bs@.len() - j,
    {
        assert(bs@.take(j + 1).drop_last() =~= bs@.take(j as int));
        assert(bs@.take(j + 1).last() == bs@[j as int]);
        match &bs[j] {
            ContentBlock::Text { text } => {
                let t = str_chars(text.as_str());
                if !blank_text(&t) {
                    push_line(out, role, text.clone(), None);
                }
            },
            ContentBlock::ToolUse { name, input, .. } => {
                let call = tool_call_line(name.as_str(), input);
                push_line(out, "tool_call", call, None);
            },
            ContentBlock::ToolResult { content, .. } => {
                let preview = clip(str_chars(content.as_str()), 200, "...");
                push_line(out, "tool_result", chars_to_string(&preview), None);
            },
            ContentBlock::Other => {},
        }
        proof {
            reveal_strlit("tool_call");
            reveal_strlit("tool_result");
        }
        assert(lines_of(out@) =~= start + loaded_block_lines(bs@.take(j + 1), role@));
        j += 1;
    }
    assert(bs@.take(bs@.len() as int) =~= bs@);
}

/// The chat lines of a session the daemon loaded (see `loaded_lines`),
/// then a note naming the session and counting its messages.
pub fn loaded_session_messages(ms: &Vec<SessionMessage>, session_id: &str) -> (r: Vec<ChatMessage>)
    ensures
        lines_of(r@) == loaded_lines(ms@).push(("system"@, loaded_note(session_id@, ms@.len()), None)),
        forall|k: int| 0 <= k < r@.len() ==> (#[trigger] r@[k]).tool_id is None,
{
    let mut out: Vec<ChatMessage> = Vec::new();
    let mut i: usize = 0;
    assert(lines_of(out@) =~= loaded_lines(ms@.take(0)));
    while i < ms.len()
        invariant
            i <= ms@.len(),
            lines_of(out@) == loaded_lines(ms@.take(i as int)),
            forall|k: int| 0 <= k < out@.len() ==> (#[trigger] out@[k]).tool_id is None,
        decreases ms@.len() - i,
    {
        let ghost before = lines_of(out@);
        assert(ms@.take(i + 1).drop_last() =~= ms@.take(i as int));
        assert(ms@.take(i + 1).last() == ms@[i as int]);
        let m = &ms[i];
        let role = role_name(&m.role);
        match &m.content {
            MessageContent::Text(t) => {
                let tc = str_chars(t.as_str());
                if !blank_text(&tc) {
                    push_line(&mut out, role, t.clone(), None);
                }
            },
            MessageContent::Blocks(bs) => {
                push_loaded_blocks(&mut out, bs, role);
            },
        }
        assert(lines_of(out@) =~= before + loaded_message_lines(ms@[i as int]));
        i += 1;
    }
    assert(ms@.take(ms@.len() as int) =~= ms@);
    let mut note = str_chars("Loaded session ");
    append_str(&mut note, session_id);
    append_str(&mut note, " (");
    append_decimal(&mut note, ms.len() as u64);
    append_str(&mut note, " messages)");
    push_line(&mut out, "system", chars_to_string(&note), None);
    out
}

} // verus!
