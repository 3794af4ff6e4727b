//! Questions that the planner asks the user: one option (or several) per
//! question, or a typed answer of one's own; what each key does, and the
//! text of the answers sent back.

use vstd::prelude::*;
use crate::keys::KeyCode;
use crate::overlays::marked;
use crate::text::{append_chars, append_str, chars_to_string, join_with, lemma_join_with_push, str_chars, trim, trim_chars};

verus! {

/// One option of a question.
pub struct PlannerOption {
    pub label: String,
    pub description: Option<String>,
}

/// One question of the planner.
pub struct PlannerQuestion {
    /// The short title the answer is given under.
    pub header: String,
    /// What is asked.
    pub question: String,
    pub options: Vec<PlannerOption>,
    /// Whether several options may be chosen.
    pub multi_select: bool,
}

/// A question by its values.
#[verifier::ext_equal]
pub struct QuestionView {
    pub header: Seq<char>,
    pub question: Seq<char>,
    /// The options' labels.
    pub options: Seq<Seq<char>>,
    /// The options' descriptions.
    pub descriptions: Seq<Option<Seq<char>>>,
    pub multi_select: bool,
}

/// The labels of options.
pub open spec fn labels_view(os: Seq<PlannerOption>) -> Seq<Seq<char>> {
    Seq::new(os.len(), |i: int| os[i].label@)
}

/// The descriptions of options.
pub open spec fn descriptions_view(os: Seq<PlannerOption>) -> Seq<Option<Seq<char>>> {
    Seq::new(os.len(), |i: int| match os[i].description {
        Some(d) => Some(d@),
        None => None,
    })
}

impl View for PlannerQuestion {
    type V = QuestionView;

    open spec fn view(&self) -> QuestionView {
        QuestionView {
            header: self.header@,
            question: self.question@,
            options: labels_view(self.options@),
            descriptions: descriptions_view(self.options@),
            multi_select: self.multi_select,
        }
    }
}

/// Planner question overlay state
pub struct PlannerQuestionState {
    pub questions: Vec<PlannerQuestion>,
    pub current_question: usize,
    /// Selected option index per question (last index = custom input)
    pub selections: Vec<usize>,
    /// For multi-select: which options are toggled per question
    pub multi_selections: Vec<Vec<bool>>,
    /// Whether we're in text-input mode for the custom response
    pub editing_custom: bool,
    /// Custom text input per question
    pub custom_inputs: Vec<Vec<char>>,
}

/// The questions' state by its values.
#[verifier::ext_equal]
pub struct QuestionsView {
    pub questions: Seq<QuestionView>,
    pub current: nat,
    pub selections: Seq<usize>,
    pub marks: Seq<Seq<bool>>,
    pub editing: bool,
    pub custom: Seq<Seq<char>>,
}

pub open spec fn questions_view(qs: Seq<PlannerQuestion>) -> Seq<QuestionView> {
    Seq::new(qs.len(), |i: int| qs[i]@)
}

pub open spec fn marks_view(ms: Seq<Vec<bool>>) -> Seq<Seq<bool>> {
    Seq::new(ms.len(), |i: int| ms[i]@)
}

pub open spec fn texts_view(ts: Seq<Vec<char>>) -> Seq<Seq<char>> {
    Seq::new(ts.len(), |i: int| ts[i]@)
}

impl View for PlannerQuestionState {
    type V = QuestionsView;

    open spec fn view(&self) -> QuestionsView {
        QuestionsView {
            questions: questions_view(self.questions@),
            current: self.current_question as nat,
            selections: self.selections@,
            marks: marks_view(self.multi_selections@),
            editing: self.editing_custom,
            custom: texts_view(self.custom_inputs@),
        }
    }
}

/// Every question has its selection, its marks and its typed answer, the
/// current question is one of them, and each selection is an option or the
/// custom answer just past the options.
pub open spec fn questions_wf(v: QuestionsView) -> bool {
    &&& answers_wf(v)
    &&& v.current < v.questions.len()
}

/// Every question has its selection, its marks and its typed answer, and
/// each selection is an option or the custom answer just past the options.
pub open spec fn answers_wf(v: QuestionsView) -> bool {
    &&& v.selections.len() == v.questions.len()
    &&& v.marks.len() == v.questions.len()
    &&& v.custom.len() == v.questions.len()
    &&& forall|i: int| 0 <= i < v.questions.len() ==> v.selections[i] <= (#[trigger] v.questions[i]).options.len()
}

/// The answer given to one question: the typed answer (trimmed, or
/// "(no response)" when nothing but blanks was typed) when the custom answer
/// is selected; for a multi-select question the marked options joined by
/// ", " (the selected option when none is marked); else the selected option.
pub open spec fn question_answer(q: QuestionView, sel: nat, marks: Seq<bool>, custom: Seq<char>) -> Seq<char> {
    if sel == q.options.len() {
        if trim(custom).len() == 0 {
            "(no response)"@
        } else {
            trim(custom)
        }
    } else if q.multi_select && marked(q.options, marks).len() > 0 {
        join_with(marked(q.options, marks), ", "@)
    } else {
        q.options[sel as int]
    }
}

/// "header: answer" for the question at `i`.
pub open spec fn answer_line(v: QuestionsView, i: int) -> Seq<char> {
    v.questions[i].header + ": "@ + question_answer(
        v.questions[i],
        v.selections[i] as nat,
        v.marks[i],
        v.custom[i],
    )
}

/// The text sent back: one answer line per question, joined by newlines.
pub open spec fn planner_answers(v: QuestionsView) -> Seq<char> {
    join_with(Seq::new(v.questions.len(), |i: int| answer_line(v, i)), "\n"@)
}

/// The text sent back when the user cancels.
pub open spec fn cancel_text() -> Seq<char> {
    "User cancelled the question."@
}

/// After a key the questions are still open, or closed with the text to send.
pub enum QuestionStep {
    Open(QuestionsView),
    Closed(Seq<char>),
}

/// What a key does to the open questions.
///
/// While typing a custom answer, characters and Backspace edit it, Esc goes
/// back to the options and Enter sends the answers. Otherwise Up and Down
/// move over the options and the custom answer after them, Space starts
/// typing on the custom answer or toggles a mark on a multi-select
/// question, Tab and Shift+Tab move between questions, Enter starts typing on
/// the custom answer or else sends the answers, and Esc cancels.
pub open spec fn question_key(v: QuestionsView, code: KeyCode) -> QuestionStep {
    let qi = v.current as int;
    if v.editing {
        match code {
            KeyCode::Esc => QuestionStep::Open(QuestionsView { editing: false, ..v }),
            KeyCode::Enter => QuestionStep::Closed(planner_answers(v)),
            KeyCode::Backspace => QuestionStep::Open(
                if v.custom[qi].len() > 0 {
                    QuestionsView { custom: v.custom.update(qi, v.custom[qi].drop_last()), ..v }
                } else {
                    v
                },
            ),
            KeyCode::Char(c) => QuestionStep::Open(QuestionsView { custom: v.custom.update(qi, v.custom[qi].push(c)), ..v }),
            _ => QuestionStep::Open(v),
        }
    } else {
        let q = v.questions[qi];
        let sel = v.selections[qi];
        let custom_idx = q.options.len();
        match code {
            KeyCode::Up => QuestionStep::Open(
                if sel > 0 { QuestionsView { selections: v.selections.update(qi, (sel - 1) as usize), ..v } } else { v },
            ),
            KeyCode::Down => QuestionStep::Open(
                if sel < custom_idx { QuestionsView { selections: v.selections.update(qi, (sel + 1) as usize), ..v } } else { v },
            ),
            KeyCode::Char(' ') => QuestionStep::Open(
                if sel == custom_idx {
                    QuestionsView { editing: true, ..v }
                } else if q.multi_select && sel < v.marks[qi].len() {
                    QuestionsView { marks: v.marks.update(qi, v.marks[qi].update(sel as int, !v.marks[qi][sel as int])), ..v }
                } else {
                    v
                },
            ),
            KeyCode::Tab => QuestionStep::Open(
                if v.current + 1 < v.questions.len() { QuestionsView { current: v.current + 1, ..v } } else { v },
            ),
            KeyCode::BackTab => QuestionStep::Open(
                if v.current > 0 { QuestionsView { current: (v.current - 1) as nat, ..v } } else { v },
            ),
            KeyCode::Enter => if sel == custom_idx {
                QuestionStep::Open(QuestionsView { editing: true, ..v })
            } else {
                QuestionStep::Closed(planner_answers(v))
            },
            KeyCode::Esc => QuestionStep::Closed(cancel_text()),
            _ => QuestionStep::Open(v),
        }
    }
}

impl PlannerQuestionState {
    /// Fresh state for a set of questions: the first question, each on its
    /// first option, nothing marked or typed.
    pub fn new(questions: Vec<PlannerQuestion>) -> (s: PlannerQuestionState)
        ensures
            s@.questions == questions_view(questions@),
            s@.current == 0,
            s@.selections == Seq::new(questions@.len(), |i: int| 0usize),
            s@.marks == Seq::new(questions@.len(), |i: int| Seq::new(questions@[i].options@.len(), |j: int| false)),
            !s@.editing,
            s@.custom == Seq::new(questions@.len(), |i: int| Seq::<char>::empty()),
    {
        let n = questions.len();
        let mut selections: Vec<usize> = Vec::new();
        let mut multi: Vec<Vec<bool>> = Vec::new();
        let mut custom: Vec<Vec<char>> = Vec::new();
        let mut i: usize = 0;
        while i < n
            invariant
                i <= n,
                n == questions@.len(),
                selections@ == Seq::new(i as nat, |k: int| 0usize),
                marks_view(multi@) == Seq::new(i as nat, |k: int| Seq::new(questions@[k].options@.len(), |j: int| false)),
                texts_view(custom@) == Seq::new(i as nat, |k: int| Seq::<char>::empty()),
            decreases n - i,
        {
            selections.push(0);
            let m = questions[i].options.len();
            let mut row: Vec<bool> = Vec::new();
            let mut j: usize = 0;
            while j < m
                invariant
                    j <= m,
                    row@ == Seq::new(j as nat, |t: int| false),
                decreases m - j,
            {
                row.push(false);
                assert(row@ =~= Seq::new((j + 1) as nat, |t: int| false));
                j += 1;
            }
            let ghost m0 = multi@;
            multi.push(row);
            assert(marks_view(multi@) =~= marks_view(m0).push(row@));
            let ghost c0 = custom@;
            custom.push(Vec::new());
            assert(texts_view(custom@) =~= texts_view(c0).push(Seq::<char>::empty()));
            assert(selections@ =~= Seq::new((i + 1) as nat, |k: int| 0usize));
            assert(marks_view(multi@) =~= Seq::new((i + 1) as nat, |k: int| Seq::new(questions@[k].options@.len(), |j: int| false)));
            assert(texts_view(custom@) =~= Seq::new((i + 1) as nat, |k: int| Seq::<char>::empty()));
            i += 1;
        }
        PlannerQuestionState {
            questions,
            current_question: 0,
            selections,
            multi_selections: multi,
            editing_custom: false,
            custom_inputs: custom,
        }
    }
}

/// The marked option labels joined by ", ", and how many there are.
fn join_marked(options: &Vec<PlannerOption>, marks: &Vec<bool>) -> (r: (Vec<char>, usize))
    ensures
        r.0@ == join_with(marked(labels_view(options@), marks@), ", "@),
        r.1 == marked(labels_view(options@), marks@).len(),
{
    let ghost opts = labels_view(options@);
    let mut out: Vec<char> = Vec::new();
    let mut count: usize = 0;
    let mut k: usize = 0;
    while k < options.len()
        invariant
            k <= options@.len(),
            opts == labels_view(options@),
            out@ == join_with(marked(opts.take(k as int), marks@), ", "@),
            count == marked(opts.take(k as int), marks@).len(),
            count <= k,
        decreases options@.len() - k,
    {
        proof {
            assert(opts.take(k + 1).drop_last() =~= opts.take(k as int));
        }
        if k < marks.len() && marks[k] {
            let label = str_chars(options[k].label.as_str());
            proof {
                lemma_join_with_push(marked(opts.take(k as int), marks@), ", "@, opts[k as int]);
            }
            if count > 0 {
                append_str(&mut out, ", ");
            }
            append_chars(&mut out, &label);
            count += 1;
        }
        k += 1;
    }
    assert(opts.take(options@.len() as int) =~= opts);
    (out, count)
}

/// The answer to one question (see `question_answer`).
fn answer_text(q: &PlannerQuestion, sel: usize, marks: &Vec<bool>, custom: &Vec<char>) -> (r: Vec<char>)
    requires
        sel <= q.options@.len(),
    ensures
        r@ == question_answer(q@, sel as nat, marks@, custom@),
{
    if sel == q.options.len() {
        // Custom input selected
        let t = trim_chars(custom);
        if t.len() == 0 {
            str_chars("(no response)")
        } else {
            t
        }
    } else if q.multi_select {
        let (joined, count) = join_marked(&q.options, marks);
        if count == 0 {
            str_chars(q.options[sel].label.as_str())
        } else {
            joined
        }
    } else {
        str_chars(q.options[sel].label.as_str())
    }
}

/// Build the answer text from planner question state
pub fn build_planner_answers(state: &PlannerQuestionState) -> (r: String)
    requires
        answers_wf(state@),
    ensures
        r@ == planner_answers(state@),
{
    let ghost v = state@;
    let ghost f = |i: int| answer_line(v, i);
    let mut out: Vec<char> = Vec::new();
    let mut i: usize = 0;
    while i < state.questions.len()
        invariant
            i <= state.questions@.len(),
            v == state@,
            f == (|i: int| answer_line(v, i)),
            answers_wf(v),
            out@ == join_with(Seq::new(i as nat, f), "\n"@),
        decreases state.questions@.len() - i,
    {
        let q = &state.questions[i];
        assert(v.questions[i as int] == q@);
        let mut line = str_chars(q.header.as_str());
        append_str(&mut line, ": ");
        let answer = answer_text(q, state.selections[i], &state.multi_selections[i], &state.custom_inputs[i]);
        append_chars(&mut line, &answer);
        proof {
            assert(v.questions[i as int] == q@);
            assert(v.marks[i as int] == state.multi_selections@[i as int]@);
            assert(v.custom[i as int] == state.custom_inputs@[i as int]@);
            assert(line@ == f(i as int));
            lemma_join_with_push(Seq::new(i as nat, f), "\n"@, f(i as int));
            assert(Seq::new((i + 1) as nat, f) =~= Seq::new(i as nat, f).push(f(i as int)));
        }
        if i > 0 {
            append_str(&mut out, "\n");
        }
        append_chars(&mut out, &line);
        i += 1;
    }
    chars_to_string(&out)
}

/// Handle keyboard input for the planner question overlay: the questions
/// after the key, closed when they answer, and the text sent back.
pub fn handle_planner_question_key(state: &mut Option<PlannerQuestionState>, code: KeyCode) -> (reply: Option<String>)
    requires
        (*old(state)) is Some ==> questions_wf((*old(state))->0@),
    ensures
        (*old(state)) is None ==> (*final(state)) is None && reply is None,
        (*old(state)) is Some ==> match question_key((*old(state))->0@, code) {
            QuestionStep::Open(v) => reply is None && (*final(state)) is Some && (*final(state))->0@ == v
                && questions_wf(v),
            QuestionStep::Closed(t) => (*final(state)) is None && reply is Some && reply->0@ == t,
        },
{
    let mut st = match state.take() {
        Some(s) => s,
        None => return None,
    };
    let ghost v = st@;
    let qi = st.current_question;
    // If we're in custom text editing mode, handle text input
    if st.editing_custom {
        match code {
            KeyCode::Esc => {
                // Exit custom input mode, go back to option selection
                st.editing_custom = false;
            },
            KeyCode::Enter => {
                // Submit (same as normal Enter below)
                return Some(build_planner_answers(&st));
            },
            KeyCode::Backspace => {
                let ghost c0 = st.custom_inputs@;
                st.custom_inputs[qi].pop();
                assert(texts_view(st.custom_inputs@) =~= (if v.custom[qi as int].len() > 0 {
                    v.custom.update(qi as int, v.custom[qi as int].drop_last())
                } else {
                    v.custom
                }));
            },
            KeyCode::Char(c) => {
                st.custom_inputs[qi].push(c);
                assert(texts_view(st.custom_inputs@) =~= v.custom.update(qi as int, v.custom[qi as int].push(c)));
            },
            _ => {},
        }
        assert(st@ =~= match question_key(v, code) {
            QuestionStep::Open(w) => w,
            QuestionStep::Closed(_) => v,
        });
        *state = Some(st);
        return None;
    }
    // option_count includes the virtual "Custom response..." option
    let custom_idx = st.questions[qi].options.len();
    let sel = st.selections[qi];
    assert(st.questions@[qi as int]@ == v.questions[qi as int]);
    match code {
        KeyCode::Up => {
            if sel > 0 {
                st.selections.set(qi, sel - 1);
            }
        },
        KeyCode::Down => {
            if sel < custom_idx {
                st.selections.set(qi, sel + 1);
            }
        },
        KeyCode::Char(' ') => {
            if sel == custom_idx {
                // Enter custom text editing mode
                st.editing_custom = true;
            } else if st.questions[qi].multi_select {
                if sel < st.multi_selections[qi].len() {
                    let b = !st.multi_selections[qi][sel];
                    st.multi_selections[qi].set(sel, b);
                    assert(marks_view(st.multi_selections@) =~= v.marks.update(
                        qi as int,
                        v.marks[qi as int].update(sel as int, b),
                    ));
                }
            }
        },
        KeyCode::Tab => {
            if st.current_question < st.questions.len() - 1 {
                st.current_question += 1;
            }
        },
        KeyCode::BackTab => {
            if st.current_question > 0 {
                st.current_question -= 1;
            }
        },
        KeyCode::Enter => {
            if sel == custom_idx {
                // Enter custom text editing mode on Enter too
                st.editing_custom = true;
            } else {
                // Submit answers for all questions
                return Some(build_planner_answers(&st));
            }
        },
        KeyCode::Esc => {
            return Some(String::from_str("User cancelled the question."));
        },
        _ => {},
    }
    assert(st@ =~= match question_key(v, code) {
        QuestionStep::Open(w) => w,
        QuestionStep::Closed(_) => v,
    });
    *state = Some(st);
    None
}

} // verus!
