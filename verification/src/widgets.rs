//! What an overlay shows: lines of text, each a row of spans, each span with
//! its tone. The caller draws them.

use vstd::prelude::*;
use crate::question::{PlannerQuestionState, QuestionView, QuestionsView, questions_wf};
use crate::plan::{PlanReview, PlanReviewMode, ReviewView};
use crate::picker::{ToolGroup, ToolPicker, disabled_set};
use crate::overlays::{ApprovalPrompt, strings_view};
use crate::session::{SessionEntry, SessionPicker};
use crate::history::opt_string_view;
use crate::time::{elapsed_text, format_time_ago};
use crate::summary::{ToolInput, summarize_tool_input, tool_input_summary};
use crate::utf8::{chars_within, utf8_fit, utf8_len};
use crate::text::{append_chars, append_decimal, decimal_chars, lines, split_lines};
use crate::text::{append_str, chars_to_string, str_chars};

verus! {

/// How a span is drawn.
#[derive(Debug, Clone, Copy, PartialEq, Eq, Structural)]
pub enum Tone {
    /// The terminal's own colors.
    Plain,
    /// Cyan and bold: what is chosen or current.
    Accent,
    /// Dark gray: hints and what is not chosen.
    Dim,
    /// White and bold: the question, the option under the cursor.
    Strong,
    /// Gray: the other options.
    Muted,
    /// Yellow and bold: the custom answer, or the session, under the cursor.
    Custom,
    /// White: typed text.
    Text,
    /// Yellow: the typing cursor, a session's id.
    Caret,
    /// Green: typed feedback, a ticked box, the current session.
    Good,
    /// Red: an unticked box.
    Bad,
}

/// A piece of a line.
pub struct Span {
    pub text: String,
    pub tone: Tone,
}

/// A span by its values.
pub open spec fn span_view(s: Span) -> (Seq<char>, Tone) {
    (s.text@, s.tone)
}

/// Lines of spans by their values.
pub open spec fn lines_view(ls: Seq<Vec<Span>>) -> Seq<Seq<(Seq<char>, Tone)>> {
    Seq::new(ls.len(), |i: int| Seq::new(ls[i]@.len(), |j: int| span_view(ls[i]@[j])))
}

pub(crate) fn span(text: &str, tone: Tone) -> (s: Span)
    ensures
        span_view(s) == (text@, tone),
{
    Span { text: text.to_owned(), tone }
}

pub(crate) fn span_of(text: &Vec<char>, tone: Tone) -> (s: Span)
    ensures
        span_view(s) == (text@, tone),
{
    Span { text: chars_to_string(text), tone }
}

// ── Planner questions ───────────────────────────────────────────────────

/// The tabs of the questions from `i` on: each header padded with spaces,
/// the current one in the accent, a bar between them.
pub open spec fn question_tabs(qs: Seq<QuestionView>, current: nat, i: nat) -> Seq<(Seq<char>, Tone)>
    decreases qs.len() - i,
{
    if i >= qs.len() {
        seq![]
    } else {
        seq![(" "@ + qs[i as int].header + " "@, if i == current { Tone::Accent } else { Tone::Dim })] + (if i
            + 1 < qs.len() {
            seq![(" | "@, Tone::Dim)]
        } else {
            seq![]
        }) + question_tabs(qs, current, i + 1)
    }
}

/// The line of an option: the cursor's pointer, a check box (multi-select)
/// or a radio button, and the label; then its description, when it has one.
pub open spec fn option_lines(q: QuestionView, sel: nat, marks: Seq<bool>, i: int) -> Seq<Seq<(Seq<char>, Tone)>> {
    let is_selected = i == sel;
    let is_checked = q.multi_select && i < marks.len() && marks[i];
    let pointer = if is_selected { "▸ "@ } else { "  "@ };
    let checkbox = if q.multi_select {
        if is_checked { "[x] "@ } else { "[ ] "@ }
    } else if is_selected {
        "(●) "@
    } else {
        "( ) "@
    };
    let tone = if is_selected { Tone::Strong } else { Tone::Muted };
    seq![seq![(" "@ + pointer, tone), (checkbox, tone), (q.options[i], tone)]] + match q.descriptions[i] {
        Some(d) => seq![seq![("       "@ + d, Tone::Dim)]],
        None => seq![],
    }
}

/// The lines of the options before `n`.
pub open spec fn options_lines(q: QuestionView, sel: nat, marks: Seq<bool>, n: nat) -> Seq<Seq<(Seq<char>, Tone)>>
    decreases n,
{
    if n == 0 {
        seq![]
    } else {
        options_lines(q, sel, marks, (n - 1) as nat) + option_lines(q, sel, marks, n - 1)
    }
}

/// The line of the custom answer, after the options.
pub open spec fn custom_line(selected: bool) -> Seq<(Seq<char>, Tone)> {
    let tone = if selected { Tone::Custom } else { Tone::Dim };
    seq![
        (" "@ + if selected { "▸ "@ } else { "  "@ }, tone),
        (if selected { "(●) "@ } else { "( ) "@ }, tone),
        ("Custom response..."@, tone),
    ]
}

/// The typed answer with a cursor after it, or a hint when nothing is typed.
pub open spec fn typed_line(text: Seq<char>) -> Seq<(Seq<char>, Tone)> {
    if text.len() == 0 {
        seq![("  Type your response here…"@, Tone::Dim)]
    } else {
        seq![("  "@, Tone::Plain), (text, Tone::Text), ("█"@, Tone::Caret)]
    }
}

/// The keys hint at the bottom.
pub open spec fn question_hint(editing: bool, count: nat) -> Seq<char> {
    if editing {
        " Type response · Enter submit · Esc back"@
    } else if count > 1 {
        " ↑↓ select · Space/Enter choose · Tab next · Enter confirm · Esc cancel"@
    } else {
        " ↑↓ select · Space/Enter choose · Enter confirm · Esc cancel"@
    }
}

/// What the planner question overlay shows: the tabs of the questions, the
/// current question, its options and the custom answer, the typed answer
/// while it is typed, and the keys hint, with blank lines between.
pub open spec fn planner_question_view(v: QuestionsView) -> Seq<Seq<(Seq<char>, Tone)>> {
    let qi = v.current as int;
    let q = v.questions[qi];
    let sel = v.selections[qi] as nat;
    let custom_selected = sel == q.options.len();
    seq![seq![], seq![(" "@, Tone::Plain)] + question_tabs(v.questions, v.current, 0), seq![], seq![
        (" "@ + q.question, Tone::Strong),
    ], seq![]] + options_lines(q, sel, v.marks[qi], q.options.len()) + seq![custom_line(custom_selected)] + (if v.editing
        && custom_selected {
        seq![seq![], typed_line(v.custom[qi])]
    } else {
        seq![]
    }) + seq![seq![], seq![(question_hint(v.editing, v.questions.len()), Tone::Dim)]]
}

/// Pushes a span onto a line.
pub(crate) fn push_span(line: &mut Vec<Span>, s: Span)
    ensures
        Seq::new(final(line)@.len(), |j: int| span_view(final(line)@[j])) == Seq::new(
            old(line)@.len(),
            |j: int| span_view(old(line)@[j]),
        ).push(span_view(s)),
{
    let ghost before = line@;
    line.push(s);
    assert(Seq::new(line@.len(), |j: int| span_view(line@[j])) =~= Seq::new(
        before.len(),
        |j: int| span_view(before[j]),
    ).push(span_view(s)));
}

/// Pushes a line.
pub(crate) fn push_line(lines: &mut Vec<Vec<Span>>, line: Vec<Span>)
    ensures
        lines_view(final(lines)@) == lines_view(old(lines)@).push(
            Seq::new(line@.len(), |j: int| span_view(line@[j])),
        ),
        final(lines)@.len() == old(lines)@.len() + 1,
{
    let ghost before = lines@;
    let ghost lv = Seq::new(line@.len(), |j: int| span_view(line@[j]));
    lines.push(line);
    assert(lines_view(lines@) =~= lines_view(before).push(lv));
}

/// The spans of a line, by their values.
pub open spec fn spans_view(line: Seq<Span>) -> Seq<(Seq<char>, Tone)> {
    Seq::new(line.len(), |j: int| span_view(line[j]))
}

/// Builds what the planner question overlay shows (see
/// `planner_question_view`).
pub fn planner_question_lines(state: &PlannerQuestionState) -> (r: Vec<Vec<Span>>)
    requires
        questions_wf(state@),
    ensures
        lines_view(r@) == planner_question_view(state@),
{
    let ghost v = state@;
    let qi = state.current_question;
    let q = &state.questions[qi];
    assert(v.questions[qi as int] == q@);
    let mut lines: Vec<Vec<Span>> = Vec::new();
    push_line(&mut lines, Vec::new());
    // Tab headers
    let mut tabs: Vec<Span> = Vec::new();
    push_span(&mut tabs, span(" ", Tone::Plain));
    let n = state.questions.len();
    let mut i: usize = 0;
    while i < n
        invariant
            i <= n == state.questions@.len(),
            v == state@,
            qi == v.current,
            spans_view(tabs@) + question_tabs(v.questions, v.current, i as nat) == seq![(" "@, Tone::Plain)]
                + question_tabs(v.questions, v.current, 0),
        decreases n - i,
    {
        let ghost t0 = spans_view(tabs@);
        let mut header = str_chars(" ");
        append_str(&mut header, state.questions[i].header.as_str());
        append_str(&mut header, " ");
        let tone = if i == qi { Tone::Accent } else { Tone::Dim };
        assert(v.questions[i as int] == state.questions@[i as int]@);
        push_span(&mut tabs, span_of(&header, tone));
        if i + 1 < n {
            push_span(&mut tabs, span(" | ", Tone::Dim));
        }
        assert(spans_view(tabs@) + question_tabs(v.questions, v.current, (i + 1) as nat) =~~= t0
            + question_tabs(v.questions, v.current, i as nat));
        i += 1;
    }
    assert(spans_view(tabs@) =~~= seq![(" "@, Tone::Plain)] + question_tabs(v.questions, v.current, 0));
    push_line(&mut lines, tabs);
    push_line(&mut lines, Vec::new());
    // Question text
    let mut qline: Vec<Span> = Vec::new();
    let mut qtext = str_chars(" ");
    append_str(&mut qtext, q.question.as_str());
    push_span(&mut qline, span_of(&qtext, Tone::Strong));
    push_line(&mut lines, qline);
    push_line(&mut lines, Vec::new());
    let ghost head = lines_view(lines@);
    assert(head =~~= seq![seq![], seq![(" "@, Tone::Plain)] + question_tabs(v.questions, v.current, 0), seq![], seq![
        (" "@ + q@.question, Tone::Strong),
    ], seq![]]);
    // Options
    let sel = state.selections[qi];
    let marks = &state.multi_selections[qi];
    assert(v.marks[qi as int] == marks@);
    let m = q.options.len();
    let mut k: usize = 0;
    while k < m
        invariant
            k <= m == q.options@.len(),
            v == state@,
            qi < v.questions.len(),
            q@ == v.questions[qi as int],
            sel == v.selections[qi as int],
            marks@ == v.marks[qi as int],
            lines_view(lines@) == head + options_lines(q@, sel as nat, marks@, k as nat),
        decreases m - k,
    {
        let ghost l0 = lines_view(lines@);
        let is_selected = k == sel;
        let is_checked = q.multi_select && k < marks.len() && marks[k];
        let pointer = if is_selected { "▸ " } else { "  " };
        let checkbox = if q.multi_select {
            if is_checked { "[x] " } else { "[ ] " }
        } else if is_selected {
            "(●) "
        } else {
            "( ) "
        };
        let tone = if is_selected { Tone::Strong } else { Tone::Muted };
        let mut line: Vec<Span> = Vec::new();
        let mut p = str_chars(" ");
        append_str(&mut p, pointer);
        push_span(&mut line, span_of(&p, tone));
        push_span(&mut line, span(checkbox, tone));
        push_span(&mut line, span(q.options[k].label.as_str(), tone));
        push_line(&mut lines, line);
        match &q.options[k].description {
            Some(d) => {
                let mut dl: Vec<Span> = Vec::new();
                let mut dt = str_chars("       ");
                append_str(&mut dt, d.as_str());
                push_span(&mut dl, span_of(&dt, Tone::Dim));
                push_line(&mut lines, dl);
            },
            None => {},
        }
        assert(lines_view(lines@) =~~= l0 + option_lines(q@, sel as nat, marks@, k as int));
        k += 1;
    }
    // "Custom response..." option (always last)
    let custom_selected = sel == m;
    let ctone = if custom_selected { Tone::Custom } else { Tone::Dim };
    let mut cline: Vec<Span> = Vec::new();
    let mut cp = str_chars(" ");
    append_str(&mut cp, if custom_selected { "▸ " } else { "  " });
    push_span(&mut cline, span_of(&cp, ctone));
    push_span(&mut cline, span(if custom_selected { "(●) " } else { "( ) " }, ctone));
    push_span(&mut cline, span("Custom response...", ctone));
    push_line(&mut lines, cline);
    // Custom text input area (shown when editing_custom is active)
    if state.editing_custom && custom_selected {
        push_line(&mut lines, Vec::new());
        let typed = &state.custom_inputs[qi];
        assert(v.custom[qi as int] == typed@);
        let mut tl: Vec<Span> = Vec::new();
        if typed.len() == 0 {
            push_span(&mut tl, span("  Type your response here…", Tone::Dim));
        } else {
            push_span(&mut tl, span("  ", Tone::Plain));
            push_span(&mut tl, span_of(typed, Tone::Text));
            push_span(&mut tl, span("█", Tone::Caret));
        }
        push_line(&mut lines, tl);
    }
    push_line(&mut lines, Vec::new());
    let hint = if state.editing_custom {
        " Type response · Enter submit · Esc back"
    } else if n > 1 {
        " ↑↓ select · Space/Enter choose · Tab next · Enter confirm · Esc cancel"
    } else {
        " ↑↓ select · Space/Enter choose · Enter confirm · Esc cancel"
    };
    let mut hl: Vec<Span> = Vec::new();
    push_span(&mut hl, span(hint, Tone::Dim));
    push_line(&mut lines, hl);
    assert(lines_view(lines@) =~~= planner_question_view(v));
    lines
}

// ── Trust prompt ────────────────────────────────────────────────────────

/// One line of a single span.
pub open spec fn one_span(text: Seq<char>, tone: Tone) -> Seq<(Seq<char>, Tone)> {
    seq![(text, tone)]
}

/// What the trust prompt shows for a directory, with "Yes" (0) or "No" (1)
/// under the cursor.
pub open spec fn trust_prompt_view(selected: usize, cwd: Seq<char>) -> Seq<Seq<(Seq<char>, Tone)>> {
    let yes = if selected == 0 { Tone::Strong } else { Tone::Dim };
    let no = if selected == 1 { Tone::Strong } else { Tone::Dim };
    seq![
        seq![],
        one_span(" Workspace access:"@, Tone::Accent),
        seq![],
        one_span(" "@ + cwd, Tone::Custom),
        seq![],
        one_span(" Quick safety check: Is this a project you created or"@, Tone::Text),
        one_span(" one you trust? If you're not sure, take a moment to"@, Tone::Text),
        one_span(" review what's in this folder first."@, Tone::Text),
        seq![],
        one_span(" lukan will be able to read, edit, and execute code"@, Tone::Dim),
        one_span(" and files in this directory."@, Tone::Dim),
        seq![],
        seq![(" "@ + if selected == 0 { "❯ "@ } else { "  "@ }, yes), ("1. Yes, I trust this folder"@, yes)],
        seq![(" "@ + if selected == 1 { "❯ "@ } else { "  "@ }, no), ("2. No, exit"@, no)],
        seq![],
        one_span(" Enter to confirm · Esc to cancel"@, Tone::Dim),
    ]
}

/// A line of a single span.
fn line_of(text: &str, tone: Tone) -> (l: Vec<Span>)
    ensures
        spans_view(l@) == one_span(text@, tone),
{
    let mut l: Vec<Span> = Vec::new();
    push_span(&mut l, span(text, tone));
    assert(spans_view(l@) =~~= one_span(text@, tone));
    l
}

/// A line of a single span of characters.
fn line_of_chars(text: &Vec<char>, tone: Tone) -> (l: Vec<Span>)
    ensures
        spans_view(l@) == one_span(text@, tone),
{
    let mut l: Vec<Span> = Vec::new();
    push_span(&mut l, span_of(text, tone));
    assert(spans_view(l@) =~~= one_span(text@, tone));
    l
}

/// A line of two spans, the first a space and a pointer.
fn choice_line(pointer: &str, label: &str, tone: Tone) -> (l: Vec<Span>)
    ensures
        spans_view(l@) == seq![(" "@ + pointer@, tone), (label@, tone)],
{
    let mut l: Vec<Span> = Vec::new();
    let mut p = str_chars(" ");
    append_str(&mut p, pointer);
    push_span(&mut l, span_of(&p, tone));
    push_span(&mut l, span(label, tone));
    assert(spans_view(l@) =~~= seq![(" "@ + pointer@, tone), (label@, tone)]);
    l
}

/// Builds what the trust prompt shows (see `trust_prompt_view`).
pub fn trust_prompt_lines(selected: usize, cwd: &str) -> (r: Vec<Vec<Span>>)
    ensures
        lines_view(r@) == trust_prompt_view(selected, cwd@),
{
    let yes = if selected == 0 { Tone::Strong } else { Tone::Dim };
    let no = if selected == 1 { Tone::Strong } else { Tone::Dim };
    let mut lines: Vec<Vec<Span>> = Vec::new();
    push_line(&mut lines, Vec::new());
    push_line(&mut lines, line_of(" Workspace access:", Tone::Accent));
    push_line(&mut lines, Vec::new());
    let mut c = str_chars(" ");
    append_str(&mut c, cwd);
    push_line(&mut lines, line_of_chars(&c, Tone::Custom));
    push_line(&mut lines, Vec::new());
    push_line(&mut lines, line_of(" Quick safety check: Is this a project you created or", Tone::Text));
    push_line(&mut lines, line_of(" one you trust? If you're not sure, take a moment to", Tone::Text));
    push_line(&mut lines, line_of(" review what's in this folder first.", Tone::Text));
    push_line(&mut lines, Vec::new());
    push_line(&mut lines, line_of(" lukan will be able to read, edit, and execute code", Tone::Dim));
    push_line(&mut lines, line_of(" and files in this directory.", Tone::Dim));
    push_line(&mut lines, Vec::new());
    push_line(&mut lines, choice_line(if selected == 0 { "❯ " } else { "  " }, "1. Yes, I trust this folder", yes));
    push_line(&mut lines, choice_line(if selected == 1 { "❯ " } else { "  " }, "2. No, exit", no));
    push_line(&mut lines, Vec::new());
    push_line(&mut lines, line_of(" Enter to confirm · Esc to cancel", Tone::Dim));
    assert(lines_view(lines@) =~~= trust_prompt_view(selected, cwd@));
    lines
}

// ── Plan review ─────────────────────────────────────────────────────────

/// The line of a task in the list: the cursor's pointer, its number and
/// title.
pub open spec fn task_line(v: ReviewView, i: int) -> Seq<(Seq<char>, Tone)> {
    let tone = if i == v.selected { Tone::Strong } else { Tone::Muted };
    seq![
        (" "@ + if i == v.selected { "▸ "@ } else { "  "@ }, tone),
        (decimal_chars((i + 1) as nat) + ". "@ + v.tasks[i].0, tone),
    ]
}

/// The selected task's lines: its title, then its detail line by line.
pub open spec fn detail_lines(detail: Seq<char>) -> Seq<Seq<(Seq<char>, Tone)>> {
    Seq::new(lines(detail).len(), |k: int| one_span(" "@ + lines(detail)[k], Tone::Text))
}

/// What the plan review shows: the task list with the keys, a task's
/// detail, or the feedback being typed.
pub open spec fn plan_review_view(v: ReviewView) -> Seq<Seq<(Seq<char>, Tone)>> {
    match v.mode {
        PlanReviewMode::List => seq![seq![], one_span(" Plan: "@ + v.title, Tone::Accent), seq![]] + Seq::new(
            v.tasks.len(),
            |i: int| task_line(v, i),
        ) + seq![seq![], one_span(" a=accept · r=request changes · Enter=view detail · Esc=reject"@, Tone::Dim)],
        PlanReviewMode::Detail => seq![
            seq![],
            one_span(" Task "@ + decimal_chars(v.selected + 1) + ": "@ + v.tasks[v.selected as int].0, Tone::Accent),
            seq![],
        ] + detail_lines(v.tasks[v.selected as int].1) + seq![seq![], one_span(" Esc=back to list"@, Tone::Dim)],
        PlanReviewMode::Feedback => seq![
            seq![],
            one_span(" Request Changes"@, Tone::Custom),
            seq![],
            one_span(" Type your feedback:"@, Tone::Text),
            seq![],
            one_span(" > "@ + v.feedback + "_"@, Tone::Good),
            seq![],
            one_span(" Enter=submit · Esc=cancel"@, Tone::Dim),
        ],
    }
}

/// Builds what the plan review shows (see `plan_review_view`).
pub fn plan_review_lines(review: &PlanReview) -> (r: Vec<Vec<Span>>)
    requires
        review.mode == PlanReviewMode::Detail ==> review.selected < review.tasks@.len(),
        review.tasks@.len() < u64::MAX,
    ensures
        lines_view(r@) == plan_review_view(review@),
{
    let ghost v = review@;
    let mut lines: Vec<Vec<Span>> = Vec::new();
    match review.mode {
        PlanReviewMode::List => {
            push_line(&mut lines, Vec::new());
            let mut t = str_chars(" Plan: ");
            append_str(&mut t, review.title.as_str());
            push_line(&mut lines, line_of_chars(&t, Tone::Accent));
            push_line(&mut lines, Vec::new());
            let ghost head = lines_view(lines@);
            let n = review.tasks.len();
            let mut i: usize = 0;
            while i < n
                invariant
                    i <= n == review.tasks@.len(),
                    n < u64::MAX,
                    v == review@,
                    lines_view(lines@) == head + Seq::new(i as nat, |k: int| task_line(v, k)),
                decreases n - i,
            {
                let ghost l0 = lines_view(lines@);
                let is_selected = i == review.selected;
                let tone = if is_selected { Tone::Strong } else { Tone::Muted };
                let mut label: Vec<char> = Vec::new();
                append_decimal(&mut label, i as u64 + 1);
                append_str(&mut label, ". ");
                append_str(&mut label, review.tasks[i].title.as_str());
                let mut line: Vec<Span> = Vec::new();
                let mut p = str_chars(" ");
                append_str(&mut p, if is_selected { "▸ " } else { "  " });
                push_span(&mut line, span_of(&p, tone));
                push_span(&mut line, span_of(&label, tone));
                assert(spans_view(line@) =~~= task_line(v, i as int));
                push_line(&mut lines, line);
                assert(lines_view(lines@) =~~= head + Seq::new((i + 1) as nat, |k: int| task_line(v, k)));
                i += 1;
            }
            push_line(&mut lines, Vec::new());
            push_line(&mut lines, line_of(" a=accept · r=request changes · Enter=view detail · Esc=reject", Tone::Dim));
        },
        PlanReviewMode::Detail => {
            let sel = review.selected;
            assert(sel < review.tasks@.len());
            let task = &review.tasks[sel];
            push_line(&mut lines, Vec::new());
            let mut t = str_chars(" Task ");
            append_decimal(&mut t, sel as u64 + 1);
            append_str(&mut t, ": ");
            append_str(&mut t, task.title.as_str());
            push_line(&mut lines, line_of_chars(&t, Tone::Accent));
            push_line(&mut lines, Vec::new());
            let ghost head = lines_view(lines@);
            // Render task detail as plain text (markdown rendered as-is)
            let detail = str_chars(task.detail.as_str());
            let ls = split_lines(&detail);
            let ghost dl = crate::text::lines(task.detail@);
            assert(ls@.map_values(|l: Vec<char>| l@) == dl);
            let mut k: usize = 0;
            while k < ls.len()
                invariant
                    k <= ls@.len(),
                    dl == ls@.map_values(|l: Vec<char>| l@),
                    dl == crate::text::lines(task.detail@),
                    ls@.len() == dl.len(),
                    lines_view(lines@) == head + detail_lines(task.detail@).take(k as int),
                decreases ls@.len() - k,
            {
                let ghost l0 = lines_view(lines@);
                let mut t = str_chars(" ");
                append_chars(&mut t, &ls[k]);
                assert(ls@[k as int]@ == dl[k as int]);
                assert(detail_lines(task.detail@)[k as int] == one_span(" "@ + dl[k as int], Tone::Text));
                push_line(&mut lines, line_of_chars(&t, Tone::Text));
                assert(lines_view(lines@) =~~= head + detail_lines(task.detail@).take(k + 1));
                k += 1;
            }
            assert(detail_lines(task.detail@).take(ls@.len() as int) =~~= detail_lines(task.detail@));
            push_line(&mut lines, Vec::new());
            push_line(&mut lines, line_of(" Esc=back to list", Tone::Dim));
        },
        PlanReviewMode::Feedback => {
            push_line(&mut lines, Vec::new());
            push_line(&mut lines, line_of(" Request Changes", Tone::Custom));
            push_line(&mut lines, Vec::new());
            push_line(&mut lines, line_of(" Type your feedback:", Tone::Text));
            push_line(&mut lines, Vec::new());
            let mut f = str_chars(" > ");
            append_chars(&mut f, &review.feedback);
            append_str(&mut f, "_");
            push_line(&mut lines, line_of_chars(&f, Tone::Good));
            push_line(&mut lines, Vec::new());
            push_line(&mut lines, line_of(" Enter=submit · Esc=cancel", Tone::Dim));
        },
    }
    assert(lines_view(lines@) =~~= plan_review_view(v));
    lines
}

// ── Tool picker ─────────────────────────────────────────────────────────

/// Each group's name and tool names.
pub open spec fn named_groups(gs: Seq<ToolGroup>) -> Seq<(Seq<char>, Seq<Seq<char>>)> {
    Seq::new(gs.len(), |i: int| (gs[i].name@, strings_view(gs[i].tools@)))
}

/// The line of a tool: the cursor's pointer, whether it is on, its name.
pub open spec fn tool_line(name: Seq<char>, selected: bool, off: bool) -> Seq<(Seq<char>, Tone)> {
    seq![
        (if selected { "▸ "@ } else { "  "@ }, Tone::Dim),
        (if off { "[ ] "@ } else { "[x] "@ }, if off { Tone::Bad } else { Tone::Good }),
        (name, if selected { Tone::Strong } else { Tone::Muted }),
    ]
}

/// The lines of a group's tools from `j` on; the group's first tool is the
/// `row0`-th of all.
pub open spec fn group_tool_lines(tools: Seq<Seq<char>>, row0: nat, sel: nat, off: Set<Seq<char>>, j: nat) -> Seq<Seq<(Seq<char>, Tone)>>
    decreases tools.len() - j,
{
    if j >= tools.len() {
        seq![]
    } else {
        seq![tool_line(tools[j as int], row0 + j == sel, off.contains(tools[j as int]))] + group_tool_lines(
            tools,
            row0,
            sel,
            off,
            j + 1,
        )
    }
}

/// The lines of the groups: each a header, its tools and a blank line.
pub open spec fn groups_lines(gs: Seq<(Seq<char>, Seq<Seq<char>>)>, row0: nat, sel: nat, off: Set<Seq<char>>) -> Seq<Seq<(Seq<char>, Tone)>>
    decreases gs.len(),
{
    if gs.len() == 0 {
        seq![]
    } else {
        seq![one_span(" ── "@ + gs[0].0 + " ──"@, Tone::Accent)] + group_tool_lines(gs[0].1, row0, sel, off, 0)
            + seq![seq![]] + groups_lines(gs.drop_first(), row0 + gs[0].1.len(), sel, off)
    }
}

/// The line the selected tool stands on, the groups' first line being
/// `line`; 0 when no tool is selected.
pub open spec fn selected_tool_line(gs: Seq<(Seq<char>, Seq<Seq<char>>)>, row0: nat, sel: nat, line: nat) -> nat
    decreases gs.len(),
{
    if gs.len() == 0 {
        0
    } else if row0 <= sel < row0 + gs[0].1.len() {
        line + 1 + (sel - row0) as nat
    } else {
        selected_tool_line(gs.drop_first(), row0 + gs[0].1.len(), sel, line + gs[0].1.len() + 2)
    }
}

/// What the tool picker shows: a blank line, then the groups.
pub open spec fn tool_picker_view(p: &ToolPicker) -> Seq<Seq<(Seq<char>, Tone)>> {
    seq![seq![]] + groups_lines(named_groups(p.groups@), 0, p.selected as nat, disabled_set(p.disabled@))
}

/// How far to scroll so that a line shows in a box of `height` rows (its
/// border taking two).
pub open spec fn scroll_to_line(line: nat, height: u16) -> nat {
    let available: nat = if height >= 2 { (height - 2) as nat } else { 0 };
    if line >= available { (line - available + 1) as nat } else { 0 }
}

/// Whether a tool is switched off.
fn is_off(disabled: &Vec<String>, name: &str) -> (b: bool)
    ensures
        b == disabled_set(disabled@).contains(name@),
{
    let n = str_chars(name);
    let mut i: usize = 0;
    while i < disabled.len()
        invariant
            i <= disabled@.len(),
            n@ == name@,
            forall|k: int| 0 <= k < i ==> disabled@[k]@ != name@,
        decreases disabled@.len() - i,
    {
        let d = str_chars(disabled[i].as_str());
        if crate::text::chars_eq(&d, &n) {
            assert(strings_view(disabled@)[i as int] == name@);
            return true;
        }
        i += 1;
    }
    assert(!strings_view(disabled@).contains(name@));
    false
}

/// Builds what the tool picker shows (see `tool_picker_view`), and the line
/// the selected tool stands on.
pub fn tool_picker_lines(picker: &ToolPicker) -> (r: (Vec<Vec<Span>>, usize))
    requires
        crate::picker::tool_total(crate::picker::groups_view(picker.groups@)) + 2 * picker.groups@.len() + 1 <= usize::MAX,
    ensures
        lines_view(r.0@) == tool_picker_view(picker),
        r.1 == selected_tool_line(named_groups(picker.groups@), 0, picker.selected as nat, 1),
{
    let ghost gs = named_groups(picker.groups@);
    let ghost off = disabled_set(picker.disabled@);
    let ghost sel = picker.selected as nat;
    let mut lines: Vec<Vec<Span>> = Vec::new();
    push_line(&mut lines, Vec::new());
    assert(lines_view(lines@) =~~= seq![seq![]]);
    let mut tool_row: usize = 0;
    let mut selected_line: usize = 0;
    let mut found = false;
    let mut g: usize = 0;
    assert(gs.subrange(0, gs.len() as int) =~= gs);
    proof {
        lemma_total_named(picker.groups@);
    }
    while g < picker.groups.len()
        invariant
            g <= picker.groups@.len() == gs.len(),
            gs == named_groups(picker.groups@),
            off == disabled_set(picker.disabled@),
            sel == picker.selected as nat,
            tool_total_named(gs) + 2 * gs.len() + 1 <= usize::MAX,
            tool_row + tool_total_named(gs.subrange(g as int, gs.len() as int)) == tool_total_named(gs),
            lines@.len() == 1 + tool_row + 2 * g,
            lines_view(lines@) + groups_lines(gs.subrange(g as int, gs.len() as int), tool_row as nat, sel, off)
                =~~= seq![seq![]] + groups_lines(gs, 0, sel, off),
            !found ==> sel >= tool_row,
            !found ==> selected_line == 0,
            !found ==> selected_tool_line(gs, 0, sel, 1) == selected_tool_line(
                gs.subrange(g as int, gs.len() as int),
                tool_row as nat,
                sel,
                lines@.len() as nat,
            ),
            found ==> selected_tool_line(gs, 0, sel, 1) == selected_line,
        decreases picker.groups@.len() - g,
    {
        let ghost rest = gs.subrange(g as int, gs.len() as int);
        let ghost l0 = lines_view(lines@);
        let ghost row0 = tool_row as nat;
        let ghost len0 = lines@.len() as nat;
        assert(rest.drop_first() =~= gs.subrange(g + 1, gs.len() as int));
        assert(rest[0] == (picker.groups@[g as int].name@, strings_view(picker.groups@[g as int].tools@)));
        let group = &picker.groups[g];
        let mut header = str_chars(" ── ");
        append_str(&mut header, group.name.as_str());
        append_str(&mut header, " ──");
        push_line(&mut lines, line_of_chars(&header, Tone::Accent));
        let ghost tools = strings_view(group.tools@);
        assert(rest[0].1 == tools);
        let ghost mid = lines_view(lines@);
        assert(mid + group_tool_lines(tools, row0, sel, off, 0) + seq![seq![]] + groups_lines(rest.drop_first(), row0 + tools.len(), sel, off)
            =~~= l0 + groups_lines(rest, row0, sel, off));
        let mut t: usize = 0;
        while t < group.tools.len()
            invariant
                t <= group.tools@.len() == tools.len(),
                tools == strings_view(group.tools@),
                off == disabled_set(picker.disabled@),
                sel == picker.selected as nat,
                tool_row == row0 + t,
                lines@.len() == len0 + 1 + t,
                rest.len() > 0,
                rest[0].1 == tools,
                row0 + tools.len() <= tool_total_named(gs),
                len0 == 1 + row0 + 2 * g,
                tool_total_named(gs) + 2 * gs.len() + 1 <= usize::MAX,
                g < gs.len(),
                lines_view(lines@) + group_tool_lines(tools, row0, sel, off, t as nat) =~~= mid + group_tool_lines(tools, row0, sel, off, 0),
                !found ==> sel >= row0 + t,
                !found ==> selected_line == 0,
                !found ==> selected_tool_line(gs, 0, sel, 1) == selected_tool_line(rest, row0, sel, len0),
                found ==> selected_tool_line(gs, 0, sel, 1) == selected_line,
            decreases group.tools@.len() - t,
        {
            let ghost l1 = lines_view(lines@);
            let is_selected = tool_row == picker.selected;
            if is_selected && !found {
                selected_line = lines.len();
                found = true;
            }
            let name = group.tools[t].as_str();
            let off_now = is_off(&picker.disabled, name);
            let mut line: Vec<Span> = Vec::new();
            push_span(&mut line, span(if is_selected { "▸ " } else { "  " }, Tone::Dim));
            push_span(&mut line, span(if off_now { "[ ] " } else { "[x] " }, if off_now { Tone::Bad } else { Tone::Good }));
            push_span(&mut line, span(name, if is_selected { Tone::Strong } else { Tone::Muted }));
            assert(spans_view(line@) =~~= tool_line(tools[t as int], row0 + t == sel, off.contains(tools[t as int])));
            push_line(&mut lines, line);
            assert(lines_view(lines@) + group_tool_lines(tools, row0, sel, off, (t + 1) as nat) =~~= l1
                + group_tool_lines(tools, row0, sel, off, t as nat));
            tool_row += 1;
            t += 1;
        }
        push_line(&mut lines, Vec::new());
        assert(tool_row + tool_total_named(gs.subrange(g + 1, gs.len() as int)) == tool_total_named(gs));
        assert(lines_view(lines@) + groups_lines(gs.subrange(g + 1, gs.len() as int), tool_row as nat, sel, off) =~~= l0
            + groups_lines(rest, row0, sel, off));
        g += 1;
    }
    assert(gs.subrange(g as int, gs.len() as int) =~= Seq::<(Seq<char>, Seq<Seq<char>>)>::empty());
    assert(lines_view(lines@) =~~= tool_picker_view(picker));
    (lines, selected_line)
}

/// How many tools the named groups hold.
pub open spec fn tool_total_named(gs: Seq<(Seq<char>, Seq<Seq<char>>)>) -> nat
    decreases gs.len(),
{
    if gs.len() == 0 {
        0
    } else {
        gs[0].1.len() + tool_total_named(gs.drop_first())
    }
}

proof fn lemma_total_named(gs: Seq<ToolGroup>)
    ensures
        tool_total_named(named_groups(gs)) == crate::picker::tool_total(crate::picker::groups_view(gs)),
    decreases gs.len(),
{
    if gs.len() > 0 {
        lemma_total_named(gs.drop_first());
        assert(named_groups(gs).drop_first() =~= named_groups(gs.drop_first()));
        assert(crate::picker::groups_view(gs).drop_first() =~= crate::picker::groups_view(gs.drop_first()));
    }
}

/// How far to scroll the tool picker so the selected tool shows (see
/// `scroll_to_line`), as a row count: past 65535 rows it wraps, as a cast
/// to `u16` does.
pub fn tool_picker_scroll(selected_line: usize, height: u16) -> (r: u16)
    ensures
        r == scroll_to_line(selected_line as nat, height) % 0x10000,
{
    let available: usize = if height >= 2 { (height - 2) as usize } else { 0 };
    if selected_line >= available {
        let d = selected_line - available;
        if d < usize::MAX {
            ((d + 1) % 0x10000) as u16
        } else {
            0
        }
    } else {
        0
    }
}

// ── Command palette ─────────────────────────────────────────────────────

/// A text padded with spaces to `width` characters (`{:<width}`).
pub open spec fn padded(s: Seq<char>, width: nat) -> Seq<char> {
    if s.len() >= width {
        s
    } else {
        s + Seq::new((width - s.len()) as nat, |i: int| ' ')
    }
}

/// The line of a palette entry: the pointer, the command padded to 14
/// characters, its description.
pub open spec fn palette_line(cmd: Seq<char>, desc: Seq<char>, selected: bool) -> Seq<(Seq<char>, Tone)> {
    if selected {
        seq![("▸ "@, Tone::Accent), (padded(cmd, 14), Tone::Accent), (desc, Tone::Text)]
    } else {
        seq![("  "@, Tone::Dim), (padded(cmd, 14), Tone::Muted), (desc, Tone::Dim)]
    }
}

/// What the command palette shows: a blank line, then the commands.
pub open spec fn command_palette_view(cmds: Seq<(Seq<char>, Seq<char>)>, selected: usize) -> Seq<Seq<(Seq<char>, Tone)>> {
    seq![seq![]] + Seq::new(cmds.len(), |i: int| palette_line(cmds[i].0, cmds[i].1, i == selected))
}

/// Pads a text with spaces to `width` characters.
pub(crate) fn pad(s: &str, width: usize) -> (r: Vec<char>)
    ensures
        r@ == padded(s@, width as nat),
{
    let mut v = str_chars(s);
    if v.len() < width {
        let ghost v0 = v@;
        let mut k: usize = v.len();
        while k < width
            invariant
                v0.len() <= k <= width,
                v@ == v0 + Seq::new((k - v0.len()) as nat, |i: int| ' '),
            decreases width - k,
        {
            v.push(' ');
            assert(v@ =~= v0 + Seq::new((k + 1 - v0.len()) as nat, |i: int| ' '));
            k += 1;
        }
    }
    v
}

/// Builds what the command palette shows (see `command_palette_view`).
pub fn command_palette_lines(commands: &Vec<(&str, &str)>, selected: usize) -> (r: Vec<Vec<Span>>)
    ensures
        lines_view(r@) == command_palette_view(crate::commands::pairs_view(commands@), selected),
{
    let ghost cs = crate::commands::pairs_view(commands@);
    let mut lines: Vec<Vec<Span>> = Vec::new();
    // Blank separator line at top
    push_line(&mut lines, Vec::new());
    let mut i: usize = 0;
    while i < commands.len()
        invariant
            i <= commands@.len(),
            cs == crate::commands::pairs_view(commands@),
            lines_view(lines@) =~~= seq![seq![]] + Seq::new(i as nat, |k: int| palette_line(cs[k].0, cs[k].1, k == selected)),
        decreases commands@.len() - i,
    {
        let (cmd, desc) = commands[i];
        let is_selected = i == selected;
        // Pad command name to align descriptions
        let padded_cmd = pad(cmd, 14);
        let mut line: Vec<Span> = Vec::new();
        if is_selected {
            push_span(&mut line, span("▸ ", Tone::Accent));
            push_span(&mut line, span_of(&padded_cmd, Tone::Accent));
            push_span(&mut line, span(desc, Tone::Text));
        } else {
            push_span(&mut line, span("  ", Tone::Dim));
            push_span(&mut line, span_of(&padded_cmd, Tone::Muted));
            push_span(&mut line, span(desc, Tone::Dim));
        }
        assert(spans_view(line@) =~~= palette_line(cs[i as int].0, cs[i as int].1, i == selected));
        push_line(&mut lines, line);
        i += 1;
    }
    lines
}

// ── Approval prompt ─────────────────────────────────────────────────────

/// A tool's label: its name and its input's summary in brackets, the summary
/// cut to the characters within 57 bytes and "..." when it takes more than
/// 60.
pub open spec fn approval_label(name: Seq<char>, summary: Seq<char>) -> Seq<char> {
    name + if utf8_len(summary) > 60 {
        "("@ + summary.take(chars_within(summary, 57) as int) + "...)"@
    } else {
        "("@ + summary + ")"@
    }
}

/// The line of a tool: the pointer, whether it is approved, its label.
pub open spec fn approval_line(label: Seq<char>, selected: bool, checked: bool) -> Seq<(Seq<char>, Tone)> {
    let tone = if selected { Tone::Strong } else { Tone::Muted };
    seq![
        (" "@ + if selected { "▸ "@ } else { "  "@ }, tone),
        (if checked { "[x] "@ } else { "[ ] "@ }, if checked { Tone::Good } else { Tone::Bad }),
        (label, tone),
    ]
}

/// What the approval prompt shows for tools with these names and inputs.
pub open spec fn approval_prompt_view(names: Seq<Seq<char>>, inputs: Seq<ToolInput>, sel: Seq<bool>, selected: usize) -> Seq<Seq<(Seq<char>, Tone)>> {
    seq![seq![], one_span(" Tool Approval Required"@, Tone::Accent), seq![]] + Seq::new(
        names.len(),
        |i: int| approval_line(
            approval_label(names[i], tool_input_summary(names[i], inputs[i])),
            i == selected,
            i < sel.len() && sel[i],
        ),
    ) + seq![seq![], one_span(" Space toggle · Enter submit · a approve all · A always allow · Esc deny all"@, Tone::Dim)]
}

/// Builds what the approval prompt shows for the tools' names and inputs
/// (see `approval_prompt_view`).
pub fn approval_prompt_lines(prompt: &ApprovalPrompt, names: &Vec<String>, inputs: &Vec<ToolInput>) -> (r: Vec<Vec<Span>>)
    requires
        names@.len() == inputs@.len(),
    ensures
        lines_view(r@) == approval_prompt_view(strings_view(names@), inputs@, prompt.selections@, prompt.selected),
{
    let ghost ns = strings_view(names@);
    let mut lines: Vec<Vec<Span>> = Vec::new();
    push_line(&mut lines, Vec::new());
    push_line(&mut lines, line_of(" Tool Approval Required", Tone::Accent));
    push_line(&mut lines, Vec::new());
    let ghost head = lines_view(lines@);
    let mut i: usize = 0;
    while i < names.len()
        invariant
            i <= names@.len() == inputs@.len(),
            ns == strings_view(names@),
            lines_view(lines@) =~~= head + Seq::new(
                i as nat,
                |k: int| approval_line(
                    approval_label(ns[k], tool_input_summary(ns[k], inputs@[k])),
                    k == prompt.selected,
                    k < prompt.selections@.len() && prompt.selections@[k],
                ),
            ),
        decreases names@.len() - i,
    {
        let is_selected = i == prompt.selected;
        let is_checked = i < prompt.selections.len() && prompt.selections[i];
        let summary = summarize_tool_input(names[i].as_str(), &inputs[i]);
        let sv = str_chars(summary.as_str());
        let (long, _) = utf8_fit(&sv, 60);
        let mut label = str_chars(names[i].as_str());
        if long {
            let (_, cut) = utf8_fit(&sv, 57);
            append_str(&mut label, "(");
            let mut k: usize = 0;
            let ghost l0 = label@;
            while k < cut
                invariant
                    k <= cut <= sv@.len(),
                    label@ == l0 + sv@.take(k as int),
                decreases cut - k,
            {
                label.push(sv[k]);
                assert(label@ =~= l0 + sv@.take(k + 1));
                k += 1;
            }
            append_str(&mut label, "...)");
        } else {
            append_str(&mut label, "(");
            append_chars(&mut label, &sv);
            append_str(&mut label, ")");
        }
        assert(label@ =~= approval_label(ns[i as int], tool_input_summary(ns[i as int], inputs@[i as int])));
        let tone = if is_selected { Tone::Strong } else { Tone::Muted };
        let mut line: Vec<Span> = Vec::new();
        let mut p = str_chars(" ");
        append_str(&mut p, if is_selected { "▸ " } else { "  " });
        push_span(&mut line, span_of(&p, tone));
        push_span(&mut line, span(if is_checked { "[x] " } else { "[ ] " }, if is_checked { Tone::Good } else { Tone::Bad }));
        push_span(&mut line, span_of(&label, tone));
        push_line(&mut lines, line);
        i += 1;
    }
    push_line(&mut lines, Vec::new());
    push_line(&mut lines, line_of(" Space toggle · Enter submit · a approve all · A always allow · Esc deny all", Tone::Dim));
    assert(lines_view(lines@) =~~= approval_prompt_view(ns, inputs@, prompt.selections@, prompt.selected));
    lines
}

// ── Session picker ──────────────────────────────────────────────────────

/// The line of a saved session: the pointer, its id in brackets, how many
/// messages it holds and its age, "(current)" for the chat's own session,
/// and its last message when there is one.
pub open spec fn session_line(s: SessionEntry, age: Seq<char>, selected: bool, current: bool) -> Seq<(Seq<char>, Tone)> {
    seq![
        (if selected { "▸ "@ } else { "  "@ }, if selected { Tone::Accent } else { Tone::Plain }),
        ("["@ + s.id@ + "]"@, if selected { Tone::Custom } else { Tone::Caret }),
        (" · "@ + decimal_chars(s.message_count as nat) + " msgs · "@ + age, Tone::Dim),
    ] + (if current { seq![(" (current)"@, Tone::Good)] } else { seq![] }) + match s.last_message {
        Some(m) => seq![(" · "@ + m@, Tone::Dim)],
        None => seq![],
    }
}

/// How many sessions fit under the header in `height` rows (at least one).
pub open spec fn session_rows(height: u16) -> nat {
    if height >= 4 { (height - 3) as nat } else { 1 }
}

/// The first session shown: so that the selected one is the last that fits
/// when it would not fit otherwise.
pub open spec fn session_offset(selected: nat, rows: nat) -> nat {
    if selected >= rows { (selected - rows + 1) as nat } else { 0 }
}

/// What the session picker shows in `height` rows, each session with its
/// age: a header and a blank line, the sessions that fit (see
/// `session_offset`), then, when not all fit, the selected one's place
/// among them.
pub open spec fn session_picker_view(
    ss: Seq<SessionEntry>,
    selected: nat,
    current: Option<Seq<char>>,
    ages: Seq<Seq<char>>,
    height: u16,
) -> Seq<Seq<(Seq<char>, Tone)>> {
    let rows = session_rows(height);
    let first = session_offset(selected, rows);
    let end = if first + rows < ss.len() { first + rows } else { ss.len() };
    seq![seq![(" Resume Session"@, Tone::Accent)], seq![]] + Seq::new(
        if end > first { (end - first) as nat } else { 0 },
        |k: int| session_line(ss[first + k], ages[first + k], first + k == selected, current == Some(ss[first + k].id@)),
    ) + if ss.len() > rows {
        seq![seq![("  ("@ + decimal_chars(selected + 1) + "/"@ + decimal_chars(ss.len()) + ")"@, Tone::Dim)]]
    } else {
        seq![]
    }
}

/// The age of each session, read from the clock (see `format_time_ago`);
/// empty for a time out of the clock's range.
pub fn session_ages(picker: &SessionPicker) -> (r: Vec<String>)
    ensures
        r@.len() == picker.sessions@.len(),
        forall|i: int| 0 <= i < r@.len() ==> (#[trigger] r@[i])@.len() == 0 || exists|secs: i64| r@[i]@ == elapsed_text(secs as int),
{
    let mut r: Vec<String> = Vec::new();
    let mut i: usize = 0;
    while i < picker.sessions.len()
        invariant
            i <= picker.sessions@.len(),
            r@.len() == i,
            forall|k: int| 0 <= k < r@.len() ==> (#[trigger] r@[k])@.len() == 0 || exists|secs: i64| r@[k]@ == elapsed_text(secs as int),
        decreases picker.sessions@.len() - i,
    {
        let age = match format_time_ago(picker.sessions[i].updated_at) {
            Some(t) => t,
            None => String::new(),
        };
        r.push(age);
        i += 1;
    }
    r
}

fn session_line_spans(s: &SessionEntry, age: &String, selected: bool, current: bool) -> (line: Vec<Span>)
    ensures
        spans_view(line@) == session_line(*s, age@, selected, current),
{
    let mut line: Vec<Span> = Vec::new();
    push_span(&mut line, span(if selected { "▸ " } else { "  " }, if selected { Tone::Accent } else { Tone::Plain }));
    let mut id = str_chars("[");
    append_str(&mut id, s.id.as_str());
    append_str(&mut id, "]");
    push_span(&mut line, span_of(&id, if selected { Tone::Custom } else { Tone::Caret }));
    let mut info = str_chars(" · ");
    append_decimal(&mut info, s.message_count as u64);
    append_str(&mut info, " msgs · ");
    append_str(&mut info, age.as_str());
    push_span(&mut line, span_of(&info, Tone::Dim));
    if current {
        push_span(&mut line, span(" (current)", Tone::Good));
    }
    match &s.last_message {
        Some(m) => {
            let mut t = str_chars(" · ");
            append_str(&mut t, m.as_str());
            push_span(&mut line, span_of(&t, Tone::Dim));
        },
        None => {},
    }
    assert(spans_view(line@) =~= session_line(*s, age@, selected, current));
    line
}

/// Builds what the session picker shows (see `session_picker_view`).
pub fn session_picker_lines(picker: &SessionPicker, ages: &Vec<String>, height: u16) -> (r: Vec<Vec<Span>>)
    requires
        ages@.len() == picker.sessions@.len(),
        picker.selected < usize::MAX,
    ensures
        lines_view(r@) == session_picker_view(
            picker.sessions@,
            picker.selected as nat,
            opt_string_view(picker.current_id),
            strings_view(ages@),
            height,
        ),
{
    let ghost ss = picker.sessions@;
    let ghost cur = opt_string_view(picker.current_id);
    let ghost av = strings_view(ages@);
    let mut lines: Vec<Vec<Span>> = Vec::new();
    let mut head: Vec<Span> = Vec::new();
    push_span(&mut head, span(" Resume Session", Tone::Accent));
    push_line(&mut lines, head);
    push_line(&mut lines, Vec::new());
    let rows: usize = if height >= 4 { (height - 3) as usize } else { 1 };
    let total = picker.sessions.len();
    let selected = picker.selected;
    let first: usize = if selected >= rows { selected - rows + 1 } else { 0 };
    let end: usize = if first + rows < total { first + rows } else { total };
    let ghost head_view = seq![seq![(" Resume Session"@, Tone::Accent)], seq![]];
    assert(lines_view(lines@) =~~= head_view);
    let mut i: usize = first;
    while i < end
        invariant
            first <= i <= end || (end < first && i == first),
            end <= total == ss.len(),
            ages@.len() == total,
            ss == picker.sessions@,
            av == strings_view(ages@),
            cur == opt_string_view(picker.current_id),
            lines_view(lines@) =~~= head_view + Seq::new(
                (i - first) as nat,
                |k: int| session_line(ss[first + k], av[first + k], first + k == selected, cur == Some(ss[first + k].id@)),
            ),
        decreases end - i,
    {
        let s = &picker.sessions[i];
        let is_current = match &picker.current_id {
            Some(id) => id.eq(&s.id),
            None => false,
        };
        let line = session_line_spans(s, &ages[i], i == selected, is_current);
        push_line(&mut lines, line);
        i += 1;
    }
    if total > rows {
        let mut t = str_chars("  (");
        append_decimal(&mut t, selected as u64 + 1);
        append_str(&mut t, "/");
        append_decimal(&mut t, total as u64);
        append_str(&mut t, ")");
        let mut line: Vec<Span> = Vec::new();
        push_span(&mut line, span_of(&t, Tone::Dim));
        push_line(&mut lines, line);
    }
    lines
}

} // verus!
