//! Reviewing a plan that the agent submits: a list of its tasks, the detail
//! of one, and a feedback line; what each key does and the reply it sends.

use vstd::prelude::*;
use crate::keys::KeyCode;
use crate::text::{append_chars, chars_to_string, str_chars};

verus! {

/// Plan review overlay mode
#[derive(Debug, Clone, Copy, PartialEq, Eq, Structural)]
pub enum PlanReviewMode {
    /// Viewing task list
    List,
    /// Viewing detail for selected task
    Detail,
    /// Typing feedback text
    Feedback,
}

/// One task of a plan.
pub struct PlanTask {
    pub title: String,
    /// What the task involves, as text.
    pub detail: String,
}

/// Plan review overlay state — shown when agent submits a plan
pub struct PlanReview {
    /// The plan's title.
    pub title: String,
    pub tasks: Vec<PlanTask>,
    /// The task under the cursor.
    pub selected: usize,
    pub mode: PlanReviewMode,
    /// The feedback typed so far.
    pub feedback: Vec<char>,
}

/// What the review sends back when it closes.
pub enum PlanReviewReply {
    /// The plan is accepted as it stands.
    Accepted { title: String },
    /// The plan is rejected, with the feedback that goes back to the planner.
    Rejected { feedback: String },
}

/// A review by its values.
pub struct ReviewView {
    pub title: Seq<char>,
    /// Each task's title and detail.
    pub tasks: Seq<(Seq<char>, Seq<char>)>,
    pub selected: nat,
    pub mode: PlanReviewMode,
    pub feedback: Seq<char>,
}

/// A reply by its values.
pub enum ReplyView {
    Accepted(Seq<char>),
    Rejected(Seq<char>),
}

/// After a key, the review is still open, or has closed with a reply and
/// the system note that the chat shows.
pub enum ReviewStep {
    Open(ReviewView),
    Closed(ReplyView, Seq<char>),
}

impl View for PlanReview {
    type V = ReviewView;

    open spec fn view(&self) -> ReviewView {
        ReviewView {
            title: self.title@,
            tasks: tasks_view(self.tasks@),
            selected: self.selected as nat,
            mode: self.mode,
            feedback: self.feedback@,
        }
    }
}

/// The tasks by their values.
pub open spec fn tasks_view(ts: Seq<PlanTask>) -> Seq<(Seq<char>, Seq<char>)> {
    Seq::new(ts.len(), |i: int| (ts[i].title@, ts[i].detail@))
}

pub open spec fn reply_view(r: PlanReviewReply) -> ReplyView {
    match r {
        PlanReviewReply::Accepted { title } => ReplyView::Accepted(title@),
        PlanReviewReply::Rejected { feedback } => ReplyView::Rejected(feedback@),
    }
}

/// The feedback sent when the plan is rejected with Esc.
pub open spec fn rejection_text() -> Seq<char> {
    "User rejected the plan."@
}

/// The note shown when the plan is accepted.
pub open spec fn accepted_note(title: Seq<char>) -> Seq<char> {
    "Plan accepted: "@ + title
}

/// The note shown when the plan is rejected with Esc.
pub open spec fn rejected_note() -> Seq<char> {
    "Plan rejected."@
}

/// The note shown when feedback is sent back.
pub open spec fn feedback_note() -> Seq<char> {
    "Feedback submitted. Waiting for revised plan..."@
}

/// What a key does to an open review.
///
/// In the list, Up and Down move the cursor over the tasks, Enter opens the
/// task under it, 'a' accepts, 'r' starts a fresh feedback line and Esc
/// rejects. In the detail, Esc goes back to the list. In the feedback line,
/// characters are typed and Backspace removes the last one, Enter rejects
/// the plan with the typed feedback and Esc returns to the list (keeping
/// what was typed). Each reply comes with the note that the chat shows.
pub open spec fn review_key(v: ReviewView, code: KeyCode) -> ReviewStep {
    match v.mode {
        PlanReviewMode::List => match code {
            KeyCode::Up => ReviewStep::Open(
                if v.selected > 0 { ReviewView { selected: (v.selected - 1) as nat, ..v } } else { v },
            ),
            KeyCode::Down => ReviewStep::Open(
                if v.selected + 1 < v.tasks.len() { ReviewView { selected: v.selected + 1, ..v } } else { v },
            ),
            KeyCode::Enter => ReviewStep::Open(
                if v.selected < v.tasks.len() { ReviewView { mode: PlanReviewMode::Detail, ..v } } else { v },
            ),
            KeyCode::Char('a') => ReviewStep::Closed(ReplyView::Accepted(v.title), accepted_note(v.title)),
            KeyCode::Char('r') => ReviewStep::Open(
                ReviewView { mode: PlanReviewMode::Feedback, feedback: seq![], ..v },
            ),
            KeyCode::Esc => ReviewStep::Closed(ReplyView::Rejected(rejection_text()), rejected_note()),
            _ => ReviewStep::Open(v),
        },
        PlanReviewMode::Detail => ReviewStep::Open(
            if code == KeyCode::Esc { ReviewView { mode: PlanReviewMode::List, ..v } } else { v },
        ),
        PlanReviewMode::Feedback => match code {
            KeyCode::Enter => ReviewStep::Closed(ReplyView::Rejected(v.feedback), feedback_note()),
            KeyCode::Esc => ReviewStep::Open(ReviewView { mode: PlanReviewMode::List, ..v }),
            KeyCode::Char(c) => ReviewStep::Open(ReviewView { feedback: v.feedback.push(c), ..v }),
            KeyCode::Backspace => ReviewStep::Open(
                if v.feedback.len() > 0 { ReviewView { feedback: v.feedback.drop_last(), ..v } } else { v },
            ),
            _ => ReviewStep::Open(v),
        },
    }
}

impl PlanReview {
    /// A fresh review of a plan: the task list, the cursor on the first task,
    /// no feedback.
    pub fn new(title: String, tasks: Vec<PlanTask>) -> (r: PlanReview)
        ensures
            r@ == (ReviewView {
                title: title@,
                tasks: tasks_view(tasks@),
                selected: 0,
                mode: PlanReviewMode::List,
                feedback: seq![],
            }),
    {
        PlanReview { title, tasks, selected: 0, mode: PlanReviewMode::List, feedback: Vec::new() }
    }
}

/// Handle keyboard input for the plan review overlay: the review after the
/// key, closed when it answers, and the reply it sends with the note that
/// the chat shows.
pub fn handle_plan_review_key(review: &mut Option<PlanReview>, code: KeyCode) -> (reply: Option<(PlanReviewReply, String)>)
    ensures
        (*old(review)) is None ==> (*final(review)) is None && reply is None,
        (*old(review)) is Some ==> match review_key((*old(review))->0@, code) {
            ReviewStep::Open(v) => reply is None && (*final(review)) is Some && (*final(review))->0@ == v,
            ReviewStep::Closed(r, note) => (*final(review)) is None
                && (reply matches Some((rep, shown)) && reply_view(rep) == r && shown@ == note),
        },
{
    let mut state = match review.take() {
        Some(s) => s,
        None => return None,
    };
    match state.mode {
        PlanReviewMode::List => match code {
            KeyCode::Up => {
                if state.selected > 0 {
                    state.selected -= 1;
                }
            },
            KeyCode::Down => {
                // tasks + 2 action items (accept, request changes)
                let max = state.tasks.len();
                if max > 0 && state.selected < max - 1 {
                    state.selected += 1;
                }
            },
            KeyCode::Enter => {
                // View task detail
                if state.selected < state.tasks.len() {
                    state.mode = PlanReviewMode::Detail;
                }
            },
            KeyCode::Char('a') => {
                // Accept plan
                let mut note = str_chars("Plan accepted: ");
                let title_chars = str_chars(state.title.as_str());
                append_chars(&mut note, &title_chars);
                let note = chars_to_string(&note);
                return Some((PlanReviewReply::Accepted { title: state.title }, note));
            },
            KeyCode::Char('r') => {
                // Request changes — enter feedback mode
                state.mode = PlanReviewMode::Feedback;
                state.feedback.clear();
            },
            KeyCode::Esc => {
                // Reject plan
                let feedback = String::from_str("User rejected the plan.");
                return Some((PlanReviewReply::Rejected { feedback }, String::from_str("Plan rejected.")));
            },
            _ => {},
        },
        PlanReviewMode::Detail => {
            if code == KeyCode::Esc {
                state.mode = PlanReviewMode::List;
            }
        },
        PlanReviewMode::Feedback => match code {
            KeyCode::Enter => {
                let feedback = chars_to_string(&state.feedback);
                let note = String::from_str("Feedback submitted. Waiting for revised plan...");
                return Some((PlanReviewReply::Rejected { feedback }, note));
            },
            KeyCode::Esc => {
                state.mode = PlanReviewMode::List;
            },
            KeyCode::Char(c) => {
                state.feedback.push(c);
            },
            KeyCode::Backspace => {
                state.feedback.pop();
            },
            _ => {},
        },
    }
    *review = Some(state);
    None
}

} // verus!
