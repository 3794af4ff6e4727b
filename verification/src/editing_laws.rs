//! What holds of the input line and the overlays across calls: every editing
//! key keeps the line well formed, a typed character is taken back by
//! Backspace, the cursor shows within the shown text, pasted text holds no
//! control characters but newlines, and switching a tool twice leaves the
//! switched-off set as it was.

use vstd::prelude::*;
use crate::input::{InputView, backspaced, input_wf, is_control, lemma_sanitized_len, moved_left, moved_right, pasted, remove_span, sanitized, scan, scan_step, shown, shown_cursor, typed};
use crate::picker::toggled;
use crate::plan::{PlanReviewMode, ReplyView, ReviewStep, ReviewView, feedback_note, review_key};
use crate::keys::KeyCode;
use crate::terminal::chunks;

verus! {

/// Every editing key, and a paste, keeps the input line well formed.
pub proof fn law_editing_keeps_input_wf(v: InputView, c: char, raw: Seq<char>)
    requires
        input_wf(v),
    ensures
        input_wf(typed(v, c)),
        input_wf(backspaced(v)),
        input_wf(moved_left(v)),
        input_wf(moved_right(v)),
        input_wf(InputView { cursor: 0, ..v }),
        input_wf(InputView { cursor: v.text.len(), ..v }),
        input_wf(pasted(v, raw)),
{
    lemma_sanitized_len(raw);
}

/// Backspace takes back a typed character, unless the cursor is inside the
/// paste block (or on an empty one).
pub proof fn law_backspace_undoes_typing(v: InputView, c: char)
    requires
        input_wf(v),
        match v.paste {
            Some((s, e, _)) => !(s < v.cursor < e) && !(s == e && v.cursor == s),
            None => true,
        },
    ensures
        backspaced(typed(v, c)) == v,
{
    let t = typed(v, c);
    assert(remove_span(t.text, v.cursor as int, v.cursor + 1 as int) =~= v.text);
    assert(backspaced(t) =~= v);
}

/// The cursor shows within the shown text, whose length is the text's less
/// the paste block's, plus the label's.
pub proof fn law_cursor_within_shown(v: InputView)
    requires
        input_wf(v),
    ensures
        0 <= shown_cursor(v) <= shown(v).len(),
        shown(v).len() == match v.paste {
            Some((s, e, l)) => v.text.len() - (e - s) + l.len(),
            None => v.text.len() as int,
        },
{
}

/// Cleaned pasted text holds no control character but the newline.
pub proof fn law_sanitized_has_no_controls(raw: Seq<char>)
    ensures
        forall|i: int| 0 <= i < sanitized(raw).len() ==> (#[trigger] sanitized(raw)[i] == '\n'
            || !is_control(sanitized(raw)[i])),
    decreases raw.len(),
{
    if raw.len() > 0 {
        law_sanitized_has_no_controls(raw.drop_last());
        let (st, out) = scan(raw.drop_last());
        let o = scan_step(st, raw.last()).1;
        assert(sanitized(raw) == out + o);
        assert(forall|j: int| 0 <= j < o.len() ==> o[j] == '\n' || !is_control(#[trigger] o[j])) by {
            assert((' ' as u32) == 0x20);
        }
        assert forall|i: int| 0 <= i < sanitized(raw).len() implies (#[trigger] sanitized(raw)[i] == '\n'
            || !is_control(sanitized(raw)[i])) by {
            if i >= out.len() {
                assert(sanitized(raw)[i] == o[i - out.len()]);
            } else {
                assert(sanitized(raw)[i] == out[i]);
                assert(sanitized(raw.drop_last())[i] == out[i]);
            }
        }
    }
}

/// Switching the same tool twice leaves the switched-off tools as they were.
pub proof fn law_toggle_twice(s: Set<Seq<char>>, name: Seq<char>)
    ensures
        toggled(toggled(s, name), name) == s,
{
    if s.contains(name) {
        assert(s.remove(name).insert(name) =~= s);
    } else {
        assert(s.insert(name).remove(name) =~= s);
    }
}

/// In a plan review the cursor never leaves the tasks: it stays on a task,
/// or on the first place when there are none.
pub proof fn law_review_cursor_on_tasks(v: ReviewView, code: KeyCode)
    requires
        v.selected < v.tasks.len() || v.selected == 0,
    ensures
        match review_key(v, code) {
            ReviewStep::Open(w) => (w.selected < w.tasks.len() || w.selected == 0) && w.tasks == v.tasks
                && w.title == v.title,
            ReviewStep::Closed(..) => true,
        },
{
}

/// A review after characters typed one after another (each as its
/// character key), while it stays open.
pub open spec fn review_typed(v: ReviewView, cs: Seq<char>) -> ReviewStep
    decreases cs.len(),
{
    if cs.len() == 0 {
        ReviewStep::Open(v)
    } else {
        match review_typed(v, cs.drop_last()) {
            ReviewStep::Open(w) => review_key(w, KeyCode::Char(cs.last())),
            closed => closed,
        }
    }
}

/// Feedback is sent as typed: in the feedback line, any characters typed
/// one after another are added to the feedback in order, and Enter then
/// rejects the plan with that feedback and the note that it was submitted.
pub proof fn law_feedback_sent_as_typed(v: ReviewView, cs: Seq<char>)
    requires
        v.mode == PlanReviewMode::Feedback,
    ensures
        review_typed(v, cs) == ReviewStep::Open(ReviewView { feedback: v.feedback + cs, ..v }),
        review_key(ReviewView { feedback: v.feedback + cs, ..v }, KeyCode::Enter)
            == ReviewStep::Closed(ReplyView::Rejected(v.feedback + cs), feedback_note()),
    decreases cs.len(),
{
    if cs.len() == 0 {
        assert(v.feedback + cs =~= v.feedback);
        assert(ReviewView { feedback: v.feedback, ..v } == v);
    } else {
        let init = cs.drop_last();
        law_feedback_sent_as_typed(v, init);
        assert((v.feedback + init).push(cs.last()) =~= v.feedback + cs);
    }
}

/// The pieces a paste is written in, put back together, are the pasted
/// bytes, and none is longer than the piece size or empty.
pub proof fn law_chunks_rejoin(b: Seq<u8>, size: nat)
    requires
        size > 0,
    ensures
        flatten_bytes(chunks(b, size)) == b,
        forall|i: int| 0 <= i < chunks(b, size).len() ==> 0 < (#[trigger] chunks(b, size)[i]).len() <= size,
    decreases b.len(),
{
    if b.len() == 0 {
    } else if b.len() <= size {
        let one = seq![b];
        assert(one.drop_first() =~= Seq::<Seq<u8>>::empty());
        assert(flatten_bytes(one.drop_first()) == Seq::<u8>::empty());
        assert(flatten_bytes(one) == one[0] + flatten_bytes(one.drop_first()));
        assert(flatten_bytes(one) =~= b);
    } else {
        law_chunks_rejoin(b.skip(size as int), size);
        let rest = chunks(b.skip(size as int), size);
        let all = seq![b.take(size as int)] + rest;
        assert(all.drop_first() =~= rest);
        assert(b.take(size as int) + b.skip(size as int) =~= b);
        assert forall|i: int| 0 <= i < all.len() implies 0 < (#[trigger] all[i]).len() <= size by {
            if i > 0 {
                assert(all[i] == rest[i - 1]);
            }
        }
    }
}

/// Byte strings put one after the other.
pub open spec fn flatten_bytes(s: Seq<Seq<u8>>) -> Seq<u8>
    decreases s.len(),
{
    if s.len() == 0 {
        seq![]
    } else {
        s[0] + flatten_bytes(s.drop_first())
    }
}

} // verus!
