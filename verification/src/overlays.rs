//! The prompts and pickers shown over the chat, and what a key does in each:
//! the state after the key and the answer, if any, to send on.

use vstd::prelude::*;
use crate::keys::KeyCode;
use crate::text::{append_chars, append_str, chars_to_string, str_chars, trim, trim_chars};
use crate::chat::opt_view;

verus! {

// ── Trust prompt ────────────────────────────────────────────────────────

/// What the trust prompt asks for after a key.
#[derive(Debug, Clone, Copy, PartialEq, Eq, Structural)]
pub enum TrustAction {
    /// Nothing to do yet.
    Stay,
    /// Trust the workspace and go on.
    Trust,
    /// Leave the program.
    Quit,
}

/// Trust prompt state — shown when the user hasn't trusted this workspace yet
#[derive(Debug, Clone, Copy, PartialEq, Eq, Structural)]
pub struct TrustPrompt {
    /// 0 = Yes, 1 = No
    pub selected: usize,
}

/// The trust prompt after a key, and what to do: Up selects Yes, Down No;
/// Enter trusts on Yes and quits otherwise; Esc quits.
pub open spec fn trust_key(p: TrustPrompt, code: KeyCode) -> (TrustPrompt, TrustAction) {
    match code {
        KeyCode::Up => (TrustPrompt { selected: 0 }, TrustAction::Stay),
        KeyCode::Down => (TrustPrompt { selected: 1 }, TrustAction::Stay),
        KeyCode::Enter => (p, if p.selected == 0 { TrustAction::Trust } else { TrustAction::Quit }),
        KeyCode::Esc => (p, TrustAction::Quit),
        _ => (p, TrustAction::Stay),
    }
}

impl TrustPrompt {
    pub fn handle_key(&mut self, code: KeyCode) -> (a: TrustAction)
        ensures
            (*final(self), a) == trust_key(*old(self), code),
    {
        match code {
            KeyCode::Up => {
                self.selected = 0;
                TrustAction::Stay
            },
            KeyCode::Down => {
                self.selected = 1;
                TrustAction::Stay
            },
            KeyCode::Enter => {
                if self.selected == 0 {
                    // Trust — persist and continue
                    TrustAction::Trust
                } else {
                    // No trust — exit
                    TrustAction::Quit
                }
            },
            KeyCode::Esc => TrustAction::Quit,
            _ => TrustAction::Stay,
        }
    }
}

// ── Memory viewer ───────────────────────────────────────────────────────

/// The memory viewer's scroll after a key (3 lines for the arrows, 15 for the
/// page keys, saturating; Home to the top), and whether Esc closed it (which
/// resets the scroll).
pub open spec fn memory_viewer_key(scroll: u16, code: KeyCode) -> (u16, bool) {
    match code {
        KeyCode::Esc => (0, true),
        KeyCode::Up => (if scroll >= 3 { (scroll - 3) as u16 } else { 0 }, false),
        KeyCode::Down => (if scroll <= 65532 { (scroll + 3) as u16 } else { 65535 }, false),
        KeyCode::PageUp => (if scroll >= 15 { (scroll - 15) as u16 } else { 0 }, false),
        KeyCode::PageDown => (if scroll <= 65520 { (scroll + 15) as u16 } else { 65535 }, false),
        KeyCode::Home => (0, false),
        _ => (scroll, false),
    }
}

/// Memory viewer overlay — scroll with arrow keys, PgUp/PgDown, Home/End, ESC closes
pub fn memory_viewer_scroll(scroll: u16, code: KeyCode) -> (r: (u16, bool))
    ensures
        r == memory_viewer_key(scroll, code),
{
    let scroll_step: u16 = 3;
    let page_step: u16 = 15;
    match code {
        KeyCode::Esc => (0, true),
        KeyCode::Up => (scroll.saturating_sub(scroll_step), false),
        KeyCode::Down => (scroll.saturating_add(scroll_step), false),
        KeyCode::PageUp => (scroll.saturating_sub(page_step), false),
        KeyCode::PageDown => (scroll.saturating_add(page_step), false),
        KeyCode::Home => (0, false),
        _ => (scroll, false),
    }
}

/// What the memory viewer shows: the global memory and the project's
/// memory, each trimmed under its heading when it is not blank, a blank
/// line between them; a hint when there is neither.
pub open spec fn memory_viewer_content(global: Option<Seq<char>>, project: Option<Seq<char>>) -> Seq<char> {
    let g = match global {
        Some(m) => if trim(m).len() > 0 { "── Global Memory ──\n\n"@ + trim(m) } else { seq![] },
        None => seq![],
    };
    let both = match project {
        Some(m) => if trim(m).len() > 0 {
            g + (if g.len() > 0 { "\n\n"@ } else { seq![] }) + "── Project Memory ──\n\n"@ + trim(m)
        } else {
            g
        },
        None => g,
    };
    if both.len() == 0 {
        "No memory files found.\n\nUse /memories activate to enable project memory."@
    } else {
        both
    }
}

/// What the memory viewer shows (see `memory_viewer_content`).
pub fn memory_viewer_text(global: Option<&str>, project: Option<&str>) -> (r: String)
    ensures
        r@ == memory_viewer_content(opt_view(global), opt_view(project)),
{
    let mut content: Vec<char> = Vec::new();
    match global {
        Some(m) => {
            let t = trim_chars(&str_chars(m));
            if t.len() > 0 {
                append_str(&mut content, "── Global Memory ──\n\n");
                append_chars(&mut content, &t);
            }
        },
        None => {},
    }
    match project {
        Some(m) => {
            let t = trim_chars(&str_chars(m));
            if t.len() > 0 {
                if content.len() > 0 {
                    append_str(&mut content, "\n\n");
                }
                append_str(&mut content, "── Project Memory ──\n\n");
                append_chars(&mut content, &t);
            }
        },
        None => {},
    }
    if content.len() == 0 {
        return "No memory files found.\n\nUse /memories activate to enable project memory.".to_owned();
    }
    chars_to_string(&content)
}

// ── Approval prompt ─────────────────────────────────────────────────────

/// The answer to an approval prompt.
#[derive(Debug, Clone, PartialEq, Eq)]
pub enum ApprovalAnswer {
    /// The tools with these ids may run.
    Approved { approved_ids: Vec<String> },
    /// All of them may run, and may from now on without asking.
    AlwaysAllow { approved_ids: Vec<String> },
    /// None may run.
    DeniedAll,
}

/// Approval prompt overlay — shown when tools need user approval
pub struct ApprovalPrompt {
    /// The ids of the tool calls that ask for approval.
    pub tool_ids: Vec<String>,
    /// Per-tool toggle (default all true = approved)
    pub selections: Vec<bool>,
    /// Cursor position
    pub selected: usize,
    /// Whether all tools in this prompt are read-only according to metadata.
    pub all_read_only: bool,
}

/// The views of a list of strings.
pub open spec fn strings_view(v: Seq<String>) -> Seq<Seq<char>> {
    Seq::new(v.len(), |i: int| v[i]@)
}

/// The entries whose mark is on, in order.
pub open spec fn marked(ids: Seq<Seq<char>>, sel: Seq<bool>) -> Seq<Seq<char>>
    decreases ids.len(),
{
    if ids.len() == 0 {
        seq![]
    } else {
        let rest = marked(ids.drop_last(), sel);
        let i = ids.len() - 1;
        if i < sel.len() && sel[i] {
            rest.push(ids.last())
        } else {
            rest
        }
    }
}

/// What an approval answer says, by its views.
pub enum AnswerView {
    Approved(Seq<Seq<char>>),
    AlwaysAllow(Seq<Seq<char>>),
    DeniedAll,
}

pub open spec fn answer_view(a: ApprovalAnswer) -> AnswerView {
    match a {
        ApprovalAnswer::Approved { approved_ids } => AnswerView::Approved(strings_view(approved_ids@)),
        ApprovalAnswer::AlwaysAllow { approved_ids } => AnswerView::AlwaysAllow(strings_view(approved_ids@)),
        ApprovalAnswer::DeniedAll => AnswerView::DeniedAll,
    }
}

fn clone_strings(v: &Vec<String>) -> (r: Vec<String>)
    ensures
        strings_view(r@) == strings_view(v@),
{
    let mut r: Vec<String> = Vec::new();
    let mut i: usize = 0;
    while i < v.len()
        invariant
            i <= v@.len(),
            r@.len() == i,
            forall|k: int| 0 <= k < i ==> #[trigger] r@[k]@ == v@[k]@,
        decreases v@.len() - i,
    {
        r.push(v[i].clone());
        i += 1;
    }
    assert(strings_view(r@) =~= strings_view(v@));
    r
}

impl ApprovalPrompt {
    /// A prompt for tool calls, each with whether it only reads: every tool
    /// approved to begin with, the cursor on the first; "all read-only" when
    /// there are tools and each of them only reads.
    pub fn new(tool_ids: Vec<String>, read_only: &Vec<bool>) -> (p: ApprovalPrompt)
        requires
            read_only@.len() == tool_ids@.len(),
        ensures
            strings_view(p.tool_ids@) == strings_view(tool_ids@),
            p.selections@ == Seq::new(tool_ids@.len(), |i: int| true),
            p.selected == 0,
            p.all_read_only == (tool_ids@.len() > 0 && forall|i: int| 0 <= i < read_only@.len() ==> read_only@[i]),
    {
        let count = tool_ids.len();
        let mut selections: Vec<bool> = Vec::new();
        let mut all = true;
        let mut i: usize = 0;
        while i < count
            invariant
                i <= count,
                count == tool_ids@.len(),
                read_only@.len() == count,
                selections@ == Seq::new(i as nat, |k: int| true),
                all == (forall|k: int| 0 <= k < i ==> read_only@[k]),
            decreases count - i,
        {
            selections.push(true);
            all = all && read_only[i];
            assert(selections@ =~= Seq::new((i + 1) as nat, |k: int| true));
            i += 1;
        }
        ApprovalPrompt { tool_ids, selections, selected: 0, all_read_only: count > 0 && all }
    }

    /// Moves the cursor up (not past the first tool).
    pub fn up(&mut self)
        ensures
            final(self).selected == (if old(self).selected > 0 { (old(self).selected - 1) as usize } else { old(self).selected }),
            final(self).selections == old(self).selections,
            final(self).tool_ids == old(self).tool_ids,
            final(self).all_read_only == old(self).all_read_only,
    {
        if self.selected > 0 {
            self.selected -= 1;
        }
    }

    /// Moves the cursor down (not past the last tool).
    pub fn down(&mut self)
        ensures
            final(self).selected == (if old(self).selected + 1 < old(self).tool_ids@.len() {
                (old(self).selected + 1) as usize
            } else {
                old(self).selected
            }),
            final(self).selections == old(self).selections,
            final(self).tool_ids == old(self).tool_ids,
            final(self).all_read_only == old(self).all_read_only,
    {
        if self.selected < self.tool_ids.len() && self.selected + 1 < self.tool_ids.len() {
            self.selected += 1;
        }
    }

    /// Toggles the approval of the tool under the cursor.
    pub fn toggle(&mut self)
        ensures
            final(self).selections@ == (if old(self).selected < old(self).selections@.len() {
                old(self).selections@.update(old(self).selected as int, !old(self).selections@[old(self).selected as int])
            } else {
                old(self).selections@
            }),
            final(self).selected == old(self).selected,
            final(self).tool_ids == old(self).tool_ids,
            final(self).all_read_only == old(self).all_read_only,
    {
        let idx = self.selected;
        if idx < self.selections.len() {
            let v = !self.selections[idx];
            self.selections.set(idx, v);
        }
    }

    /// The answer Enter gives: the ids of the tools toggled on, or "denied"
    /// when none is.
    pub fn submit(&self) -> (a: ApprovalAnswer)
        ensures
            answer_view(a) == (if marked(strings_view(self.tool_ids@), self.selections@).len() == 0 {
                AnswerView::DeniedAll
            } else {
                AnswerView::Approved(marked(strings_view(self.tool_ids@), self.selections@))
            }),
    {
        let ghost ids = strings_view(self.tool_ids@);
        let mut approved: Vec<String> = Vec::new();
        let mut i: usize = 0;
        while i < self.tool_ids.len()
            invariant
                i <= self.tool_ids@.len(),
                ids == strings_view(self.tool_ids@),
                strings_view(approved@) == marked(ids.take(i as int), self.selections@),
            decreases self.tool_ids@.len() - i,
        {
            proof {
                assert(ids.take(i + 1).drop_last() =~= ids.take(i as int));
            }
            if i < self.selections.len() && self.selections[i] {
                let ghost a0 = strings_view(approved@);
                approved.push(self.tool_ids[i].clone());
                assert(strings_view(approved@) =~= a0.push(ids[i as int]));
            }
            i += 1;
        }
        assert(ids.take(self.tool_ids@.len() as int) =~= ids);
        if approved.len() == 0 {
            ApprovalAnswer::DeniedAll
        } else {
            ApprovalAnswer::Approved { approved_ids: approved }
        }
    }

    /// The answer 'a' gives: every tool approved.
    pub fn approve_all(&self) -> (a: ApprovalAnswer)
        ensures
            answer_view(a) == AnswerView::Approved(strings_view(self.tool_ids@)),
    {
        ApprovalAnswer::Approved { approved_ids: clone_strings(&self.tool_ids) }
    }

    /// The answer 'A' gives: every tool approved, now and from now on.
    pub fn always_allow(&self) -> (a: ApprovalAnswer)
        ensures
            answer_view(a) == AnswerView::AlwaysAllow(strings_view(self.tool_ids@)),
    {
        ApprovalAnswer::AlwaysAllow { approved_ids: clone_strings(&self.tool_ids) }
    }
}

/// The prompt `q` after Up, Down or Space on the open prompt `p`: Up moves
/// the cursor to the tool above (not past the first), Down to the tool
/// below (not past the last), Space flips the mark of the tool under the
/// cursor; nothing else changes.
pub open spec fn approval_moved(p: ApprovalPrompt, q: ApprovalPrompt, code: KeyCode) -> bool {
    &&& q.tool_ids == p.tool_ids
    &&& q.all_read_only == p.all_read_only
    &&& if code == KeyCode::Up {
        &&& q.selected == (if p.selected > 0 { (p.selected - 1) as usize } else { p.selected })
        &&& q.selections == p.selections
    } else if code == KeyCode::Down {
        &&& q.selected == (if p.selected + 1 < p.tool_ids@.len() { (p.selected + 1) as usize } else { p.selected })
        &&& q.selections == p.selections
    } else {
        &&& q.selected == p.selected
        &&& q.selections@ == (if p.selected < p.selections@.len() {
            p.selections@.update(p.selected as int, !p.selections@[p.selected as int])
        } else {
            p.selections@
        })
    }
}

/// What a key does to the approval prompt: the answer to send when it closes.
pub fn approval_key(prompt: &mut Option<ApprovalPrompt>, code: KeyCode) -> (a: Option<ApprovalAnswer>)
    ensures
        a is Some ==> (*final(prompt)) is None,
        a is None ==> ((*final(prompt)) is None <==> (*old(prompt)) is None),
        (*old(prompt)) is None ==> a is None,
        ((*old(prompt)) is Some && (code == KeyCode::Enter || code == KeyCode::Char('a') || code
            == KeyCode::Char('A') || code == KeyCode::Esc)) ==> a is Some,
        code == KeyCode::Esc && (*old(prompt)) is Some ==> a == Some(ApprovalAnswer::DeniedAll),
        code == KeyCode::Enter && (*old(prompt)) is Some ==> answer_view(a->0) == (if marked(
            strings_view((*old(prompt))->0.tool_ids@),
            (*old(prompt))->0.selections@,
        ).len() == 0 {
            AnswerView::DeniedAll
        } else {
            AnswerView::Approved(marked(strings_view((*old(prompt))->0.tool_ids@), (*old(prompt))->0.selections@))
        }),
        code == KeyCode::Char('a') && (*old(prompt)) is Some ==> answer_view(a->0) == AnswerView::Approved(
            strings_view((*old(prompt))->0.tool_ids@),
        ),
        code == KeyCode::Char('A') && (*old(prompt)) is Some ==> answer_view(a->0) == AnswerView::AlwaysAllow(
            strings_view((*old(prompt))->0.tool_ids@),
        ),
        (code == KeyCode::Up || code == KeyCode::Down || code == KeyCode::Char(' ')) && (*old(prompt)) is Some
            ==> a is None && ((*final(prompt)) matches Some(q) && approval_moved((*old(prompt))->0, q, code)),
        !(code == KeyCode::Up || code == KeyCode::Down || code == KeyCode::Char(' ') || code == KeyCode::Enter
            || code == KeyCode::Char('a') || code == KeyCode::Char('A') || code == KeyCode::Esc)
            ==> a is None && *final(prompt) == *old(prompt),
{
    match code {
        KeyCode::Up => {
            if let Some(p) = prompt {
                p.up();
            }
            None
        },
        KeyCode::Down => {
            if let Some(p) = prompt {
                p.down();
            }
            None
        },
        KeyCode::Char(' ') => {
            // Toggle individual tool approval
            if let Some(p) = prompt {
                p.toggle();
            }
            None
        },
        KeyCode::Enter => {
            // Submit selections
            match prompt.take() {
                Some(p) => Some(p.submit()),
                None => None,
            }
        },
        KeyCode::Char('a') => {
            // Approve all and submit
            match prompt.take() {
                Some(p) => Some(p.approve_all()),
                None => None,
            }
        },
        KeyCode::Char('A') => {
            // Always allow — approve all + persist patterns to config
            match prompt.take() {
                Some(p) => Some(p.always_allow()),
                None => None,
            }
        },
        KeyCode::Esc => {
            // Deny all
            match prompt.take() {
                Some(_) => Some(ApprovalAnswer::DeniedAll),
                None => None,
            }
        },
        _ => None,
    }
}

} // verus!
