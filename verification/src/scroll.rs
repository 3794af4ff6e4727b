//! Pushing chat rows that overflow the view into the terminal's own
//! scrollback: how many rows go up, and which messages have gone up whole.

use vstd::prelude::*;

verus! {

/// The rows to push into the scrollback, and the count of rows above the
/// view afterwards: when the rows do not fit, those beyond the view's height
/// that are not up yet.
pub open spec fn overflow_rows(total: u16, chat_h: u16, scroll: u16) -> (u16, u16) {
    if total <= chat_h {
        (0, scroll)
    } else {
        let desired = (total - chat_h) as u16;
        if desired > scroll {
            ((desired - scroll) as u16, desired)
        } else {
            (0, scroll)
        }
    }
}

/// Of the messages, by their heights in rows, how many from the first on
/// lie wholly within `limit` rows.
pub open spec fn scrolled_count(rows: Seq<u16>, limit: nat) -> nat
    decreases rows.len(),
{
    if rows.len() == 0 {
        0
    } else if rows[0] <= limit {
        1 + scrolled_count(rows.drop_first(), (limit - rows[0]) as nat)
    } else {
        0
    }
}

/// The rows the messages take together.
pub open spec fn rows_sum(rows: Seq<u16>) -> nat
    decreases rows.len(),
{
    if rows.len() == 0 {
        0
    } else {
        rows[0] as nat + rows_sum(rows.drop_first())
    }
}

/// How many rows go up and how many rows are above the view afterwards
/// (see `overflow_rows`).
pub fn scroll_overflow_plan(total_rows: u16, chat_area_h: u16, viewport_scroll: u16) -> (r: (u16, u16))
    ensures
        r == overflow_rows(total_rows, chat_area_h, viewport_scroll),
{
    if total_rows <= chat_area_h {
        // Everything fits — nothing to scroll
        return (0, viewport_scroll);
    }
    // How many rows should be above the viewport (in scrollback)?
    let desired_scroll = total_rows - chat_area_h;
    let new_rows = desired_scroll.saturating_sub(viewport_scroll);
    if new_rows > 0 {
        (new_rows, desired_scroll)
    } else {
        (0, viewport_scroll)
    }
}

/// The messages whose rows are all in the scrollback now: how many there are
/// from the first on, and how many rows they take (never more than the rows
/// above the view).
pub fn scrolled_messages(msg_rows: &Vec<u16>, viewport_scroll: u16) -> (r: (usize, u16))
    ensures
        r.0 == scrolled_count(msg_rows@, viewport_scroll as nat),
        r.1 == rows_sum(msg_rows@.take(r.0 as int)),
        r.1 <= viewport_scroll,
{
    let ghost all = msg_rows@;
    let mut gc_rows: u16 = 0;
    let mut gc_msgs: usize = 0;
    let mut done = false;
    assert(all.skip(0) =~= all);
    assert(all.take(0) =~= Seq::<u16>::empty());
    while gc_msgs < msg_rows.len() && !done
        invariant
            gc_msgs <= all.len(),
            all == msg_rows@,
            gc_rows <= viewport_scroll,
            gc_rows == rows_sum(all.take(gc_msgs as int)),
            !done ==> scrolled_count(all, viewport_scroll as nat) == gc_msgs + scrolled_count(
                all.skip(gc_msgs as int),
                (viewport_scroll - gc_rows) as nat,
            ),
            done ==> scrolled_count(all, viewport_scroll as nat) == gc_msgs,
        decreases all.len() - gc_msgs + (if done { 0int } else { 1int }),
    {
        let ghost rest = all.skip(gc_msgs as int);
        let rows = msg_rows[gc_msgs];
        if rows <= viewport_scroll - gc_rows {
            proof {
                assert(rest.drop_first() =~= all.skip(gc_msgs + 1));
                lemma_rows_sum_take(all, gc_msgs as int);
            }
            gc_rows = gc_rows + rows;
            gc_msgs += 1;
        } else {
            done = true;
        }
    }
    proof {
        if !done {
            assert(all.skip(gc_msgs as int).len() == 0);
        }
    }
    (gc_msgs, gc_rows)
}

proof fn lemma_rows_sum_take(rows: Seq<u16>, k: int)
    requires
        0 <= k < rows.len(),
    ensures
        rows_sum(rows.take(k + 1)) == rows_sum(rows.take(k)) + rows[k],
    decreases k,
{
    if k == 0 {
        assert(rows.take(1).drop_first() =~= Seq::<u16>::empty());
        assert(rows.take(0) =~= Seq::<u16>::empty());
        assert(rows.take(1)[0] == rows[0]);
    } else {
        let t = rows.drop_first();
        lemma_rows_sum_take(t, k - 1);
        assert(rows.take(k + 1).drop_first() =~= t.take(k));
        assert(rows.take(k).drop_first() =~= t.take(k - 1));
        assert(rows.take(k + 1)[0] == rows[0]);
        assert(rows.take(k)[0] == rows[0]);
        assert(t[k - 1] == rows[k]);
    }
}

/// What went up into the scrollback stays there: the rows above the
/// view never lessen, the rows pushed are exactly the new ones, and
/// afterwards the rest of the chat fits the view.
pub proof fn law_scrollback_only_grows(total: u16, chat_h: u16, scroll: u16)
    ensures
        ({
            let (pushed, above) = overflow_rows(total, chat_h, scroll);
            &&& above >= scroll
            &&& pushed == above - scroll
            &&& total - above <= chat_h
        }),
{
}

} // verus!
