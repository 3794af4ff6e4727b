//! The event history file: reading its newest events, and keeping it short
//! (past a number of lines, only the newest half of that number stays).

use vstd::prelude::*;
use crate::text::{append_chars, append_str, chars_to_string, join_with, lemma_join_with_push, lines, split_lines, str_chars, trim, trim_chars};

verus! {

/// The history's text after rotation, when it holds more than `max` lines:
/// its last `max / 2` lines, joined by newlines and ended by one.
pub open spec fn rotated(content: Seq<char>, max: nat) -> Option<Seq<char>> {
    let ls = lines(content);
    if ls.len() <= max {
        None
    } else {
        Some(join_with(ls.skip(ls.len() - max / 2), "\n"@) + "\n"@)
    }
}

/// Rotate history text: if it exceeds `max_lines`, trim to the last
/// `max_lines / 2` (see `rotated`); nothing to write otherwise.
pub fn rotate_history_text(content: &str, max_lines: usize) -> (r: Option<String>)
    ensures
        match r {
            Some(s) => rotated(content@, max_lines as nat) == Some(s@),
            None => rotated(content@, max_lines as nat) is None,
        },
{
    let text = str_chars(content);
    let ls = split_lines(&text);
    let ghost all = lines(content@);
    assert(ls@.map_values(|l: Vec<char>| l@) == all);
    if ls.len() <= max_lines {
        return None;
    }
    // Keep last half
    let keep = max_lines / 2;
    let from = ls.len() - keep;
    let ghost kept = all.skip(from as int);
    let mut out: Vec<char> = Vec::new();
    let mut i: usize = from;
    while i < ls.len()
        invariant
            from <= i <= ls@.len(),
            all == ls@.map_values(|l: Vec<char>| l@),
            kept == all.skip(from as int),
            out@ == join_with(all.subrange(from as int, i as int), "\n"@),
        decreases ls@.len() - i,
    {
        proof {
            lemma_join_with_push(all.subrange(from as int, i as int), "\n"@, all[i as int]);
            assert(all.subrange(from as int, i + 1) =~= all.subrange(from as int, i as int).push(all[i as int]));
        }
        if i > from {
            append_str(&mut out, "\n");
        }
        append_chars(&mut out, &ls[i]);
        assert(ls@[i as int]@ == all[i as int]);
        i += 1;
    }
    assert(all.subrange(from as int, ls@.len() as int) =~= kept);
    append_str(&mut out, "\n");
    Some(chars_to_string(&out))
}

// ── Reading events ──────────────────────────────────────────────────────

/// The text fields "ts", "level", "source" and "detail" of a history line
/// read as a JSON object (each `None` when missing or not a string); `None`
/// when the line is not JSON. What serde_json makes of the line.
pub uninterp spec fn history_line_fields(line: Seq<char>) -> Option<(Option<Seq<char>>, Option<Seq<char>>, Option<Seq<char>>, Option<Seq<char>>)>;

pub open spec fn opt_string_view(o: Option<String>) -> Option<Seq<char>> {
    match o {
        Some(s) => Some(s@),
        None => None,
    }
}

/// The fields of a parsed line, by their values.
pub open spec fn fields_view(f: Option<(Option<String>, Option<String>, Option<String>, Option<String>)>) -> Option<(Option<Seq<char>>, Option<Seq<char>>, Option<Seq<char>>, Option<Seq<char>>)> {
    match f {
        Some((a, b, c, d)) => Some((opt_string_view(a), opt_string_view(b), opt_string_view(c), opt_string_view(d))),
        None => None,
    }
}

/// Calls `serde_json::from_str` on the line and reads the four fields with
/// `Value::get` and `Value::as_str`.
///
/// Trusted: the fields are what the parser makes of the line, and of
/// nothing else; what they are is left unsaid.
#[verifier::external_body]
fn parse_history_line(line: &str) -> (r: Option<(Option<String>, Option<String>, Option<String>, Option<String>)>)
    ensures
        fields_view(r) == history_line_fields(line@),
{
    match serde_json::from_str::<serde_json::Value>(line) {
        Ok(val) => Some((
            val.get("ts").and_then(|v| v.as_str()).map(|s| s.to_string()),
            val.get("level").and_then(|v| v.as_str()).map(|s| s.to_string()),
            val.get("source").and_then(|v| v.as_str()).map(|s| s.to_string()),
            val.get("detail").and_then(|v| v.as_str()).map(|s| s.to_string()),
        )),
        Err(_) => None,
    }
}

/// One event of the history, by its text fields: time, level, source and
/// detail.
pub open spec fn event_view(e: (String, String, String, String)) -> (Seq<char>, Seq<char>, Seq<char>, Seq<char>) {
    (e.0@, e.1@, e.2@, e.3@)
}

pub open spec fn events_view(es: Seq<(String, String, String, String)>) -> Seq<(Seq<char>, Seq<char>, Seq<char>, Seq<char>)> {
    Seq::new(es.len(), |i: int| event_view(es[i]))
}

/// An event from a parsed line's fields, the missing ones defaulted: no
/// time, level "info", source "?", no detail.
pub open spec fn event_of(f: (Option<Seq<char>>, Option<Seq<char>>, Option<Seq<char>>, Option<Seq<char>>)) -> (Seq<char>, Seq<char>, Seq<char>, Seq<char>) {
    (
        match f.0 { Some(t) => t, None => seq![] },
        match f.1 { Some(l) => l, None => "info"@ },
        match f.2 { Some(s) => s, None => "?"@ },
        match f.3 { Some(d) => d, None => seq![] },
    )
}

/// The events of parsed lines, in order: the lines that parsed.
pub open spec fn parsed_events(ps: Seq<Option<(Option<Seq<char>>, Option<Seq<char>>, Option<Seq<char>>, Option<Seq<char>>)>>) -> Seq<(Seq<char>, Seq<char>, Seq<char>, Seq<char>)>
    decreases ps.len(),
{
    if ps.len() == 0 {
        seq![]
    } else {
        match ps.last() {
            Some(f) => parsed_events(ps.drop_last()).push(event_of(f)),
            None => parsed_events(ps.drop_last()),
        }
    }
}

/// The newest `n` events, newest first.
pub open spec fn newest_first(es: Seq<(Seq<char>, Seq<char>, Seq<char>, Seq<char>)>, n: nat) -> Seq<(Seq<char>, Seq<char>, Seq<char>, Seq<char>)> {
    let r = es.reverse();
    if r.len() <= n { r } else { r.take(n as int) }
}

/// The history lines that hold more than whitespace, trimmed.
pub open spec fn nonblank_trimmed(ls: Seq<Seq<char>>) -> Seq<Seq<char>>
    decreases ls.len(),
{
    if ls.len() == 0 {
        seq![]
    } else if trim(ls.last()).len() == 0 {
        nonblank_trimmed(ls.drop_last())
    } else {
        nonblank_trimmed(ls.drop_last()).push(trim(ls.last()))
    }
}

/// The newest `n` events of a history text, newest first: each non-blank
/// line read as JSON (see `history_line_fields`), the lines that are not
/// JSON skipped.
pub open spec fn history_events(content: Seq<char>, n: nat) -> Seq<(Seq<char>, Seq<char>, Seq<char>, Seq<char>)> {
    let ls = nonblank_trimmed(lines(content));
    newest_first(parsed_events(Seq::new(ls.len(), |i: int| history_line_fields(ls[i]))), n)
}

fn field_or(f: Option<String>, default: &str) -> (r: String)
    ensures
        r@ == match opt_string_view(f) { Some(s) => s, None => default@ },
{
    match f {
        Some(s) => s,
        None => default.to_owned(),
    }
}

/// The newest `n` events of parsed lines, newest first (see
/// `parsed_events` and `newest_first`).
pub fn events_from_parsed(parsed: Vec<Option<(Option<String>, Option<String>, Option<String>, Option<String>)>>, n: usize) -> (r: Vec<(String, String, String, String)>)
    ensures
        events_view(r@) == newest_first(parsed_events(Seq::new(parsed@.len(), |i: int| fields_view(parsed@[i]))), n as nat),
{
    let ghost pv = Seq::new(parsed@.len(), |i: int| fields_view(parsed@[i]));
    let mut events: Vec<(String, String, String, String)> = Vec::new();
    let mut rest = parsed;
    let mut k: usize = 0;
    let total = rest.len();
    assert(pv.len() == total);
    assert(pv.take(0) =~= Seq::<Option<(Option<Seq<char>>, Option<Seq<char>>, Option<Seq<char>>, Option<Seq<char>>)>>::empty());
    while rest.len() > 0
        invariant
            k + rest@.len() == total == pv.len(),
            forall|j: int| 0 <= j < rest@.len() ==> fields_view(#[trigger] rest@[j]) == pv[k + j],
            events_view(events@) == parsed_events(pv.take(k as int)),
        decreases rest@.len(),
    {
        let ghost r0 = rest@;
        let f = rest.remove(0);
        proof {
            assert(fields_view(r0[0]) == pv[k as int]);
            assert forall|j: int| 0 <= j < rest@.len() implies fields_view(#[trigger] rest@[j]) == pv[k + 1 + j] by {
                assert(rest@[j] == r0[j + 1]);
            }
            assert(pv.take(k + 1).drop_last() =~= pv.take(k as int));
            assert(pv.take(k + 1).last() == fields_view(f));
        }
        match f {
            Some((ts, level, source, detail)) => {
                let ghost e0 = events_view(events@);
                let e = (
                    field_or(ts, ""),
                    field_or(level, "info"),
                    field_or(source, "?"),
                    field_or(detail, ""),
                );
                proof {
                    reveal_strlit("");
                }
                events.push(e);
                assert(events_view(events@) =~= e0.push(event_view(e)));
                assert(event_view(e) == event_of((opt_string_view(ts), opt_string_view(level), opt_string_view(source), opt_string_view(detail))));
            },
            None => {},
        }
        k += 1;
    }
    assert(pv.take(total as int) =~= pv);
    // The last n, newest first.
    let ghost ev = events_view(events@);
    let ghost len = events@.len();
    let mut out: Vec<(String, String, String, String)> = Vec::new();
    while events.len() > 0 && out.len() < n
        invariant
            len == ev.len(),
            events@.len() + out@.len() == len,
            out@.len() <= n,
            events_view(events@) == ev.take(events@.len() as int),
            events_view(out@) == ev.reverse().take(out@.len() as int),
        decreases events@.len(),
    {
        let ghost before = events_view(events@);
        let ghost o0 = events_view(out@);
        let e = events.pop().unwrap();
        proof {
            assert(event_view(e) == before[before.len() - 1]);
            assert(events_view(events@) =~= before.drop_last());
            assert(before.drop_last() =~= ev.take(events@.len() as int));
        }
        out.push(e);
        proof {
            assert(events_view(out@) =~= o0.push(event_view(e)));
            assert(ev.reverse().take(out@.len() as int) =~= ev.reverse().take(o0.len() as int).push(ev.reverse()[o0.len() as int]));
        }
    }
    proof {
        let r = ev.reverse();
        if r.len() <= n {
            assert(out@.len() == len);
            assert(r.take(len as int) =~= r);
        }
    }
    out
}

/// The fields of each line of an events text that holds more than
/// whitespace, trimmed, read as JSON.
pub open spec fn parsed_lines(content: Seq<char>) -> Seq<Option<(Option<Seq<char>>, Option<Seq<char>>, Option<Seq<char>>, Option<Seq<char>>)>> {
    let ls = nonblank_trimmed(lines(content));
    Seq::new(ls.len(), |i: int| history_line_fields(ls[i]))
}

fn parse_lines(content: &str) -> (r: Vec<Option<(Option<String>, Option<String>, Option<String>, Option<String>)>>)
    ensures
        Seq::new(r@.len(), |j: int| fields_view(r@[j])) == parsed_lines(content@),
{
    let text = str_chars(content);
    let ls = split_lines(&text);
    let ghost all = lines(content@);
    assert(ls@.map_values(|l: Vec<char>| l@) == all);
    let mut parsed: Vec<Option<(Option<String>, Option<String>, Option<String>, Option<String>)>> = Vec::new();
    let ghost mut kept: Seq<Seq<char>> = seq![];
    let mut i: usize = 0;
    while i < ls.len()
        invariant
            i <= ls@.len(),
            all == ls@.map_values(|l: Vec<char>| l@),
            kept == nonblank_trimmed(all.take(i as int)),
            parsed@.len() == kept.len(),
            forall|j: int| 0 <= j < parsed@.len() ==> fields_view(#[trigger] parsed@[j]) == history_line_fields(kept[j]),
        decreases ls@.len() - i,
    {
        assert(all.take(i + 1).drop_last() =~= all.take(i as int));
        assert(ls@[i as int]@ == all[i as int]);
        let line = trim_chars(&ls[i]);
        if line.len() > 0 {
            let s = chars_to_string(&line);
            let f = parse_history_line(s.as_str());
            parsed.push(f);
            proof {
                kept = kept.push(line@);
            }
        }
        i += 1;
    }
    assert(all.take(all.len() as int) =~= all);
    assert(Seq::new(parsed@.len(), |j: int| fields_view(parsed@[j])) =~= parsed_lines(content@));
    parsed
}

/// The newest `n` events of a history text, newest first (see
/// `history_events`).
pub fn load_event_history(content: &str, n: usize) -> (r: Vec<(String, String, String, String)>)
    ensures
        events_view(r@) == history_events(content@, n as nat),
{
    let parsed = parse_lines(content);
    events_from_parsed(parsed, n)
}

// ── Pending events ──────────────────────────────────────────────────────

/// A text in capitals, as Unicode maps each character. What std makes of it.
pub uninterp spec fn upper_case(s: Seq<char>) -> Seq<char>;

/// Calls std's `str::to_uppercase`.
///
/// Trusted: the result is std's, a function of the text alone; what it is
/// is left unsaid.
#[verifier::external_body]
fn to_upper(s: &str) -> (r: String)
    ensures
        r@ == upper_case(s@),
{
    s.to_uppercase()
}

/// The events that came in, oldest first, each as its source, level and
/// detail (see `parsed_events` for the defaults); the note shown for each,
/// "[LEVEL] source: detail"; and whether one of them is an error or
/// critical.
pub struct PendingEvents {
    pub events: Vec<(String, String, String)>,
    pub toasts: Vec<String>,
    pub has_critical: bool,
}

/// The note shown for an event.
pub open spec fn toast_text(e: (Seq<char>, Seq<char>, Seq<char>, Seq<char>)) -> Seq<char> {
    "["@ + upper_case(e.1) + "] "@ + e.2 + ": "@ + e.3
}

pub open spec fn is_critical(level: Seq<char>) -> bool {
    level == "error"@ || level == "critical"@
}

/// Reads the events that came in (see `PendingEvents`): each line that
/// holds more than whitespace, read as JSON; the lines that are not JSON
/// are skipped.
pub fn read_pending_events(content: &str) -> (r: PendingEvents)
    ensures
        ({
            let es = parsed_events(parsed_lines(content@));
            &&& r.events@.len() == es.len()
            &&& r.toasts@.len() == es.len()
            &&& forall|i: int| 0 <= i < es.len() ==> {
                &&& (#[trigger] r.events@[i]).0@ == es[i].2
                &&& r.events@[i].1@ == es[i].1
                &&& r.events@[i].2@ == es[i].3
                &&& r.toasts@[i]@ == toast_text(es[i])
            }
            &&& r.has_critical == exists|i: int| 0 <= i < es.len() && is_critical(#[trigger] es[i].1)
        }),
{
    let parsed = parse_lines(content);
    let ghost pv = Seq::new(parsed@.len(), |j: int| fields_view(parsed@[j]));
    let ghost es = parsed_events(pv);
    let mut events: Vec<(String, String, String)> = Vec::new();
    let mut toasts: Vec<String> = Vec::new();
    let mut has_critical = false;
    let error = String::from_str("error");
    let critical = String::from_str("critical");
    proof {
        reveal_strlit("");
    }
    let mut k: usize = 0;
    let ghost mut done: Seq<(Seq<char>, Seq<char>, Seq<char>, Seq<char>)> = seq![];
    assert(pv.take(0) =~= Seq::<Option<(Option<Seq<char>>, Option<Seq<char>>, Option<Seq<char>>, Option<Seq<char>>)>>::empty());
    while k < parsed.len()
        invariant
            k <= parsed@.len() == pv.len(),
            pv == Seq::new(parsed@.len(), |j: int| fields_view(parsed@[j])),
            error@ == "error"@,
            critical@ == "critical"@,
            done == parsed_events(pv.take(k as int)),
            events@.len() == done.len(),
            toasts@.len() == done.len(),
            forall|i: int| 0 <= i < done.len() ==> {
                &&& (#[trigger] events@[i]).0@ == done[i].2
                &&& events@[i].1@ == done[i].1
                &&& events@[i].2@ == done[i].3
                &&& toasts@[i]@ == toast_text(done[i])
            },
            has_critical == exists|i: int| 0 <= i < done.len() && is_critical(#[trigger] done[i].1),
        decreases parsed@.len() - k,
    {
        assert(pv.take(k + 1).drop_last() =~= pv.take(k as int));
        assert(pv.take(k + 1).last() == fields_view(parsed@[k as int]));
        proof {
            reveal_strlit("");
        }
        match &parsed[k] {
            Some((ts, level, source, detail)) => {
                let source = field_or(clone_field(source), "?");
                let level = field_or(clone_field(level), "info");
                let detail = field_or(clone_field(detail), "");
                let ghost e = event_of(match fields_view(parsed@[k as int]) { Some(f) => f, None => (None, None, None, None) });
                assert(e == (e.0, level@, source@, detail@));
                let mut t = str_chars("[");
                let up = to_upper(level.as_str());
                append_str(&mut t, up.as_str());
                append_str(&mut t, "] ");
                append_str(&mut t, source.as_str());
                append_str(&mut t, ": ");
                append_str(&mut t, detail.as_str());
                let crit = level.eq(&error) || level.eq(&critical);
                if crit {
                    has_critical = true;
                }
                assert(t@ == toast_text(e));
                let ghost ev0 = events@;
                let ghost to0 = toasts@;
                events.push((source, level, detail));
                toasts.push(chars_to_string(&t));
                let ghost d0 = done;
                proof {
                    done = done.push(e);
                }
                assert(done == parsed_events(pv.take(k + 1)));
                assert forall|i: int| 0 <= i < done.len() implies {
                    &&& (#[trigger] events@[i]).0@ == done[i].2
                    &&& events@[i].1@ == done[i].1
                    &&& events@[i].2@ == done[i].3
                    &&& toasts@[i]@ == toast_text(done[i])
                } by {
                    if i < d0.len() {
                        assert(events@[i] == ev0[i]);
                        assert(toasts@[i] == to0[i]);
                        assert(done[i] == d0[i]);
                    }
                }
                if crit {
                    assert(is_critical(done[d0.len() as int].1));
                } else {
                    assert(!is_critical(e.1));
                    assert forall|i: int| 0 <= i < done.len() && is_critical(#[trigger] done[i].1) implies 0 <= i < d0.len() && is_critical(d0[i].1) by {
                        if i < d0.len() {
                            assert(done[i] == d0[i]);
                        }
                    }
                    assert forall|i: int| 0 <= i < d0.len() && is_critical(#[trigger] d0[i].1) implies 0 <= i < done.len() && is_critical(done[i].1) by {
                        assert(done[i] == d0[i]);
                    }
                }
            },
            None => {
                assert(parsed_events(pv.take(k + 1)) == done);
            },
        }
        k += 1;
    }
    assert(pv.take(parsed@.len() as int) =~= pv);
    PendingEvents { events, toasts, has_critical }
}

/// What the history gains from the events that came in: each line that
/// holds more than whitespace, trimmed, and a newline after it.
pub open spec fn appended_lines(ls: Seq<Seq<char>>) -> Seq<char>
    decreases ls.len(),
{
    if ls.len() == 0 {
        seq![]
    } else {
        appended_lines(ls.drop_last()) + ls.last() + "\n"@
    }
}

/// The text to append to the history for the events that came in (see
/// `appended_lines`).
pub fn history_lines(content: &str) -> (r: String)
    ensures
        r@ == appended_lines(nonblank_trimmed(lines(content@))),
{
    let text = str_chars(content);
    let ls = split_lines(&text);
    let ghost all = lines(content@);
    assert(ls@.map_values(|l: Vec<char>| l@) == all);
    let mut out: Vec<char> = Vec::new();
    let mut i: usize = 0;
    while i < ls.len()
        invariant
            i <= ls@.len(),
            all == ls@.map_values(|l: Vec<char>| l@),
            out@ == appended_lines(nonblank_trimmed(all.take(i as int))),
        decreases ls@.len() - i,
    {
        assert(all.take(i + 1).drop_last() =~= all.take(i as int));
        assert(ls@[i as int]@ == all[i as int]);
        let line = trim_chars(&ls[i]);
        if line.len() > 0 {
            append_chars(&mut out, &line);
            append_str(&mut out, "\n");
            let ghost prev = nonblank_trimmed(all.take(i as int));
            assert(nonblank_trimmed(all.take(i + 1)) == prev.push(line@));
            assert(prev.push(line@).drop_last() =~= prev);
        }
        i += 1;
    }
    assert(all.take(all.len() as int) =~= all);
    chars_to_string(&out)
}

fn clone_field(f: &Option<String>) -> (r: Option<String>)
    ensures
        opt_string_view(r) == opt_string_view(*f),
{
    match f {
        Some(s) => Some(s.clone()),
        None => None,
    }
}

} // verus!
