//! Chat messages: where a tool's result goes among them, and the message a
//! finished subagent leaves.

use vstd::prelude::*;
use crate::text::{append_chars, append_str, chars_to_string, str_chars, trim, trim_chars};
use crate::utf8::{chars_within, utf8_fit, utf8_len};

verus! {

/// One message of the chat.
pub struct ChatMessage {
    /// "user", "assistant", "system", "tool_call", "tool_result", ...
    pub role: String,
    pub content: String,
    /// The tool call this message belongs to, if any.
    pub tool_id: Option<String>,
    /// The diff a tool's result carries, if any.
    pub diff: Option<String>,
}

impl ChatMessage {
    pub fn new(role: &str, content: &str) -> (m: ChatMessage)
        ensures
            m.role@ == role@,
            m.content@ == content@,
            m.tool_id is None,
            m.diff is None,
    {
        ChatMessage { role: role.to_owned(), content: content.to_owned(), tool_id: None, diff: None }
    }
}

/// The tool id of a message, by its value.
pub open spec fn tool_id_of(m: ChatMessage) -> Option<Seq<char>> {
    match m.tool_id {
        Some(t) => Some(t@),
        None => None,
    }
}

/// A message by its values.
#[verifier::ext_equal]
pub struct MsgView {
    pub role: Seq<char>,
    pub content: Seq<char>,
    pub tool_id: Option<Seq<char>>,
    /// The diff a tool result shows.
    pub diff: Option<Seq<char>>,
}

pub open spec fn msg_view(m: ChatMessage) -> MsgView {
    MsgView { role: m.role@, content: m.content@, tool_id: tool_id_of(m), diff: match m.diff {
        Some(d) => Some(d@),
        None => None,
    } }
}

pub open spec fn msgs_view(ms: Seq<ChatMessage>) -> Seq<MsgView> {
    Seq::new(ms.len(), |i: int| msg_view(ms[i]))
}

/// The message is the call of the tool with this id.
pub open spec fn is_call_of(m: MsgView, id: Seq<char>) -> bool {
    m.role == "tool_call"@ && m.tool_id == Some(id)
}

/// The index of the last call of the tool with this id.
pub open spec fn last_call(ms: Seq<MsgView>, id: Seq<char>) -> Option<nat>
    decreases ms.len(),
{
    if ms.len() == 0 {
        None
    } else if is_call_of(ms.last(), id) {
        Some((ms.len() - 1) as nat)
    } else {
        last_call(ms.drop_last(), id)
    }
}

/// The first index from `from` on whose message does not belong to the tool
/// with this id (the length when all of them do).
pub open spec fn run_end(ms: Seq<MsgView>, id: Seq<char>, from: nat) -> nat
    decreases ms.len() - from,
{
    if from >= ms.len() {
        ms.len()
    } else if ms[from as int].tool_id == Some(id) {
        run_end(ms, id, from + 1)
    } else {
        from
    }
}

/// Where a result of the tool with this id goes: right after its last call
/// and the messages that already belong to it; at the end when there is no
/// such call.
pub open spec fn insert_position(ms: Seq<MsgView>, id: Seq<char>) -> nat {
    match last_call(ms, id) {
        Some(i) => run_end(ms, id, i + 1),
        None => ms.len(),
    }
}

/// Whether a message's tool id is this one.
fn has_tool_id(m: &ChatMessage, tool_id: &str) -> (b: bool)
    ensures
        b == (tool_id_of(*m) == Some(tool_id@)),
{
    match &m.tool_id {
        Some(t) => {
            let a = str_chars(t.as_str());
            let b = str_chars(tool_id);
            crate::text::chars_eq(&a, &b)
        },
        None => false,
    }
}

/// Find the insertion position for a tool result: right after the
/// tool_call with this ID and any existing results for it.
pub fn tool_insert_position(messages: &Vec<ChatMessage>, tool_id: &str) -> (pos: usize)
    ensures
        pos == insert_position(msgs_view(messages@), tool_id@),
        pos <= messages@.len(),
{
    let ghost id = tool_id@;
    let ghost mv = msgs_view(messages@);
    let call_role = str_chars("tool_call");
    // Find the tool_call with this ID
    let mut i: usize = messages.len();
    let mut found = false;
    assert(mv.take(i as int) =~= mv);
    while i > 0 && !found
        invariant
            i <= messages@.len(),
            id == tool_id@,
            mv == msgs_view(messages@),
            call_role@ == "tool_call"@,
            !found ==> last_call(mv, id) == last_call(mv.take(i as int), id),
            found ==> i > 0 && last_call(mv, id) == Some((i - 1) as nat),
        decreases i + (if found { 0int } else { 1int }),
    {
        let ghost pre = mv.take(i as int);
        assert(pre.drop_last() =~= mv.take(i - 1));
        let m = &messages[i - 1];
        let role = str_chars(m.role.as_str());
        if crate::text::chars_eq(&role, &call_role) && has_tool_id(m, tool_id) {
            found = true;
        } else {
            i -= 1;
        }
    }
    if !found {
        assert(mv.take(0) =~= Seq::<MsgView>::empty());
        return messages.len();
    }
    // Scan forward past any messages already belonging to this tool
    let mut pos = i;
    while pos < messages.len() && has_tool_id(&messages[pos], tool_id)
        invariant
            i <= pos <= messages@.len(),
            id == tool_id@,
            mv == msgs_view(messages@),
            run_end(mv, id, i as nat) == run_end(mv, id, pos as nat),
        decreases messages@.len() - pos,
    {
        pos += 1;
    }
    pos
}

// ── The banner ──────────────────────────────────────────────────────────

/// The index of the first message with this role.
pub open spec fn first_with_role(ms: Seq<MsgView>, role: Seq<char>) -> Option<nat>
    decreases ms.len(),
{
    if ms.len() == 0 {
        None
    } else {
        match first_with_role(ms.drop_last(), role) {
            Some(i) => Some(i),
            None => if ms.last().role == role { Some((ms.len() - 1) as nat) } else { None },
        }
    }
}

proof fn lemma_first_stays(ms: Seq<MsgView>, role: Seq<char>, j: int)
    requires
        0 <= j <= ms.len(),
        first_with_role(ms.take(j), role) is Some,
    ensures
        first_with_role(ms, role) == first_with_role(ms.take(j), role),
    decreases ms.len() - j,
{
    if j < ms.len() {
        assert(ms.take(j + 1).drop_last() =~= ms.take(j));
        lemma_first_stays(ms, role, j + 1);
    } else {
        assert(ms.take(j) =~= ms);
    }
}

/// The welcome banner (the first message with the role "banner") now says
/// this text; the messages are unchanged when there is none.
pub fn replace_banner(messages: &mut Vec<ChatMessage>, text: String)
    ensures
        msgs_view(final(messages)@) == match first_with_role(msgs_view(old(messages)@), "banner"@) {
            Some(i) => msgs_view(old(messages)@).update(
                i as int,
                MsgView { content: text@, ..msgs_view(old(messages)@)[i as int] },
            ),
            None => msgs_view(old(messages)@),
        },
{
    let ghost mv = msgs_view(messages@);
    let banner = str_chars("banner");
    proof {
        reveal_strlit("banner");
    }
    let mut i: usize = 0;
    while i < messages.len()
        invariant
            i <= messages@.len(),
            mv == msgs_view(messages@),
            mv == msgs_view(old(messages)@),
            banner@ == "banner"@,
            first_with_role(mv.take(i as int), "banner"@) is None,
        decreases messages@.len() - i,
    {
        assert(mv.take(i + 1).drop_last() =~= mv.take(i as int));
        let role = str_chars(messages[i].role.as_str());
        if crate::text::chars_eq(&role, &banner) {
            assert(mv.take(i + 1).last() == mv[i as int]);
            assert(mv[i as int].role == "banner"@);
            assert(first_with_role(mv.take(i + 1), "banner"@) == Some(i as nat));
            proof {
                lemma_first_stays(mv, "banner"@, i + 1);
            }
            messages[i].content = text;
            assert(msgs_view(messages@) =~= mv.update(i as int, MsgView { content: text@, ..mv[i as int] }));
            return;
        }
        i += 1;
    }
    assert(mv.take(mv.len() as int) =~= mv);
}

// ── Subagent completion ─────────────────────────────────────────────────

/// The preview of a subagent's task: when it takes more than 50 bytes, the
/// characters within its first 47 bytes and "..."; else the task trimmed.
pub open spec fn task_preview(task: Seq<char>) -> Seq<char> {
    if utf8_len(task) > 50 {
        task.take(chars_within(task, 47) as int) + "..."@
    } else {
        trim(task)
    }
}

/// "SubAgent {id} {status}: {task preview}".
pub open spec fn completion_text(id: Seq<char>, status: Seq<char>, task: Seq<char>) -> Seq<char> {
    "SubAgent "@ + id + " "@ + status + ": "@ + task_preview(task)
}

/// The message sent on when a subagent finishes.
pub fn build_subagent_completion_message(id: &str, status: &str, task: &str) -> (r: String)
    ensures
        r@ == completion_text(id@, status@, task@),
{
    let t = str_chars(task);
    let (long, _) = utf8_fit(&t, 50);
    let (_, fit) = utf8_fit(&t, 47);
    let mut out = str_chars("SubAgent ");
    append_str(&mut out, id);
    append_str(&mut out, " ");
    append_str(&mut out, status);
    append_str(&mut out, ": ");
    if long {
        let mut i: usize = 0;
        while i < fit
            invariant
                i <= fit <= t@.len(),
                out@ == "SubAgent "@ + id@ + " "@ + status@ + ": "@ + t@.take(i as int),
            decreases fit - i,
        {
            out.push(t[i]);
            assert(t@.take(i + 1) =~= t@.take(i as int).push(t@[i as int]));
            i += 1;
        }
        append_str(&mut out, "...");
    } else {
        let trimmed = trim_chars(&t);
        append_chars(&mut out, &trimmed);
    }
    chars_to_string(&out)
}

/// A subagent status that ends its run.
pub open spec fn is_final_status(status: Seq<char>) -> bool {
    status == "completed"@ || status == "error"@ || status == "aborted"@
}

/// Whether an event of a tab is for this tab: it names none, or this one.
pub open spec fn for_this_tab(tab: Option<Seq<char>>, own: Option<Seq<char>>) -> bool {
    tab is None || tab == own
}

pub open spec fn opt_view(o: Option<&str>) -> Option<Seq<char>> {
    match o {
        Some(s) => Some(s@),
        None => None,
    }
}

fn same_text(a: &str, b: &str) -> (r: bool)
    ensures
        r == (a@ == b@),
{
    let x = str_chars(a);
    let y = str_chars(b);
    crate::text::chars_eq(&x, &y)
}

/// Whether an event that names a tab is for this tab.
pub fn is_for_this_tab(tab: Option<&str>, own: Option<&str>) -> (r: bool)
    ensures
        r == for_this_tab(opt_view(tab), opt_view(own)),
{
    match (tab, own) {
        (None, _) => true,
        (Some(t), Some(o)) => same_text(t, o),
        (Some(_), None) => false,
    }
}

/// Whether a subagent's update is passed on to the agent as a message: when
/// its run has ended and it is for this tab.
pub fn should_forward_completion(status: &str, tab: Option<&str>, own: Option<&str>) -> (r: bool)
    ensures
        r == (is_final_status(status@) && for_this_tab(opt_view(tab), opt_view(own))),
{
    let done = same_text(status, "completed") || same_text(status, "error") || same_text(status, "aborted");
    done && is_for_this_tab(tab, own)
}

} // verus!
