//! The input line: text with a cursor, where a long paste shows as one
//! collapsed block; editing keys, how pasted text is cleaned, and what the
//! line shows. Positions count characters.

use vstd::prelude::*;
use crate::text::{append_decimal, append_str, chars_to_string, decimal_chars, str_chars};

verus! {

/// The input line.
pub struct InputLine {
    pub text: Vec<char>,
    /// Where the cursor stands, from 0 (before the first character) to the
    /// length of the text.
    pub cursor: usize,
    /// A collapsed paste: its start and end in the text, and the label shown
    /// in its place.
    pub paste: Option<(usize, usize, String)>,
}

/// The input line by its values.
#[verifier::ext_equal]
pub struct InputView {
    pub text: Seq<char>,
    pub cursor: nat,
    pub paste: Option<(nat, nat, Seq<char>)>,
}

impl View for InputLine {
    type V = InputView;

    open spec fn view(&self) -> InputView {
        InputView {
            text: self.text@,
            cursor: self.cursor as nat,
            paste: match self.paste {
                Some((s, e, l)) => Some((s as nat, e as nat, l@)),
                None => None,
            },
        }
    }
}

/// The cursor is within the text, and the paste block is a span of it.
pub open spec fn input_wf(v: InputView) -> bool {
    &&& v.cursor <= v.text.len()
    &&& match v.paste {
        Some((s, e, _)) => s <= e <= v.text.len(),
        None => true,
    }
}

/// The text with a character put in at `at`.
pub open spec fn insert_at(t: Seq<char>, at: int, c: char) -> Seq<char> {
    t.take(at) + seq![c] + t.skip(at)
}

/// The text with the characters from `a` to `b` taken out.
pub open spec fn remove_span(t: Seq<char>, a: int, b: int) -> Seq<char> {
    t.take(a) + t.skip(b)
}

/// Typing a character: it goes in at the cursor, which moves past it; a
/// paste block at or after the cursor moves along.
pub open spec fn typed(v: InputView, c: char) -> InputView {
    InputView {
        text: insert_at(v.text, v.cursor as int, c),
        cursor: v.cursor + 1,
        paste: match v.paste {
            Some((s, e, l)) => if v.cursor <= s { Some((s + 1, e + 1, l)) } else { Some((s, e, l)) },
            None => None,
        },
    }
}

/// Backspace. With a paste block: at its end it removes the whole block;
/// after it, or before it (moving it back), the character before the
/// cursor; inside it, nothing. Without one, the character before the cursor.
pub open spec fn backspaced(v: InputView) -> InputView {
    match v.paste {
        Some((s, e, l)) => if v.cursor == e {
            InputView { text: remove_span(v.text, s as int, e as int), cursor: s, paste: None }
        } else if v.cursor > e && v.cursor > 0 {
            InputView {
                text: remove_span(v.text, v.cursor - 1, v.cursor as int),
                cursor: (v.cursor - 1) as nat,
                ..v
            }
        } else if v.cursor <= s && v.cursor > 0 {
            InputView {
                text: remove_span(v.text, v.cursor - 1, v.cursor as int),
                cursor: (v.cursor - 1) as nat,
                paste: Some(((s - 1) as nat, (e - 1) as nat, l)),
            }
        } else {
            v
        },
        None => if v.cursor > 0 {
            InputView { text: remove_span(v.text, v.cursor - 1, v.cursor as int), cursor: (v.cursor - 1) as nat, ..v }
        } else {
            v
        },
    }
}

/// Left: one character back, or to the start of a paste block the cursor is
/// in or just after.
pub open spec fn moved_left(v: InputView) -> InputView {
    if v.cursor == 0 {
        v
    } else {
        match v.paste {
            Some((s, e, _)) => if s < v.cursor <= e {
                InputView { cursor: s, ..v }
            } else {
                InputView { cursor: (v.cursor - 1) as nat, ..v }
            },
            None => InputView { cursor: (v.cursor - 1) as nat, ..v },
        }
    }
}

/// Right: one character on, or to the end of a paste block the cursor is at
/// or in.
pub open spec fn moved_right(v: InputView) -> InputView {
    if v.cursor >= v.text.len() {
        v
    } else {
        match v.paste {
            Some((s, e, _)) => if s <= v.cursor < e {
                InputView { cursor: e, ..v }
            } else {
                InputView { cursor: v.cursor + 1, ..v }
            },
            None => InputView { cursor: v.cursor + 1, ..v },
        }
    }
}

// ── Cleaning pasted text ────────────────────────────────────────────────

/// Where the cleaning of pasted text stands.
#[derive(Debug, Clone, Copy, PartialEq, Eq, Structural)]
pub enum PasteScan {
    /// In plain text.
    Text,
    /// Just after an escape character.
    Escape,
    /// Inside an escape sequence that a letter or '~' ends.
    Sequence,
}

/// A control character (`char::is_control`: U+0000–U+001F, U+007F–U+009F).
pub open spec fn is_control(c: char) -> bool {
    (c as u32) < 0x20 || (0x7f <= (c as u32) && (c as u32) <= 0x9f)
}

/// What a plain-text character becomes: a tab a space, a newline itself,
/// another control character nothing (a carriage return among them).
pub open spec fn cleaned_char(c: char) -> Seq<char> {
    if c == '\t' {
        seq![' ']
    } else if c == '\n' {
        seq!['\n']
    } else if is_control(c) {
        seq![]
    } else {
        seq![c]
    }
}

/// One step of the cleaning: the next state and what the character gives.
/// An escape character starts a sequence; after it '[' opens a sequence
/// that runs to a letter or '~', and any other character is dropped with
/// it.
pub open spec fn scan_step(st: PasteScan, c: char) -> (PasteScan, Seq<char>) {
    match st {
        PasteScan::Text => if c == '\x1b' {
            (PasteScan::Escape, seq![])
        } else {
            (PasteScan::Text, cleaned_char(c))
        },
        PasteScan::Escape => if c == '[' {
            (PasteScan::Sequence, seq![])
        } else {
            (PasteScan::Text, seq![])
        },
        PasteScan::Sequence => if ('a' <= c && c <= 'z') || ('A' <= c && c <= 'Z') || c == '~' {
            (PasteScan::Text, seq![])
        } else {
            (PasteScan::Sequence, seq![])
        },
    }
}

/// The state after a text, and the cleaned text so far.
pub open spec fn scan(s: Seq<char>) -> (PasteScan, Seq<char>)
    decreases s.len(),
{
    if s.len() == 0 {
        (PasteScan::Text, seq![])
    } else {
        let (st, out) = scan(s.drop_last());
        let (st2, o) = scan_step(st, s.last());
        (st2, out + o)
    }
}

/// Pasted text cleaned: escape sequences removed, tabs turned to spaces,
/// carriage returns and other control characters but newlines dropped.
pub open spec fn sanitized(s: Seq<char>) -> Seq<char> {
    scan(s).1
}

/// Clean pasted text (see `sanitized`).
pub fn sanitize_paste(text: &str) -> (r: Vec<char>)
    ensures
        r@ == sanitized(text@),
{
    let t = str_chars(text);
    let mut out: Vec<char> = Vec::new();
    let mut st = PasteScan::Text;
    let mut i: usize = 0;
    while i < t.len()
        invariant
            i <= t@.len(),
            (st, out@) == scan(t@.take(i as int)),
        decreases t@.len() - i,
    {
        assert(t@.take(i + 1).drop_last() =~= t@.take(i as int));
        let c = t[i];
        let ghost before = out@;
        match st {
            PasteScan::Text => {
                if c == '\x1b' {
                    st = PasteScan::Escape;
                } else if c == '\t' {
                    out.push(' ');
                } else if c == '\n' {
                    out.push('\n');
                } else if (c as u32) < 0x20 || (0x7f <= (c as u32) && (c as u32) <= 0x9f) {
                } else {
                    out.push(c);
                }
            },
            PasteScan::Escape => {
                if c == '[' {
                    st = PasteScan::Sequence;
                } else {
                    st = PasteScan::Text;
                }
            },
            PasteScan::Sequence => {
                if ('a' <= c && c <= 'z') || ('A' <= c && c <= 'Z') || c == '~' {
                    st = PasteScan::Text;
                }
            },
        }
        assert(out@ =~= before + scan_step(scan(t@.take(i as int)).0, c).1);
        i += 1;
    }
    assert(t@.take(t@.len() as int) =~= t@);
    out
}

/// Pastes longer than this many characters are collapsed into a block.
pub const PASTE_COLLAPSE_CHARS: usize = 200;

/// "[Pasted Content {n} chars]".
pub open spec fn paste_label(n: nat) -> Seq<char> {
    "[Pasted Content "@ + decimal_chars(n) + " chars]"@
}

/// Pasting: the cleaned text goes in at the cursor, which moves past it; when
/// it is longer than 200 characters it becomes the paste block.
pub open spec fn pasted(v: InputView, raw: Seq<char>) -> InputView {
    let p = sanitized(raw);
    InputView {
        text: v.text.take(v.cursor as int) + p + v.text.skip(v.cursor as int),
        cursor: v.cursor + p.len(),
        paste: if p.len() > 200 { Some((v.cursor, v.cursor + p.len(), paste_label(p.len()))) } else { v.paste },
    }
}

// ── What the line shows ─────────────────────────────────────────────────

/// The text shown: the paste block replaced by its label, or else the text
/// with each newline shown as a space.
pub open spec fn shown(v: InputView) -> Seq<char> {
    match v.paste {
        Some((s, e, l)) => v.text.take(s as int) + l + v.text.skip(e as int),
        None => Seq::new(v.text.len(), |i: int| if v.text[i] == '\n' { ' ' } else { v.text[i] }),
    }
}

/// Where the cursor shows: unchanged before the paste block, just after the
/// label inside it, and shifted by the label's length less the block's after
/// it.
pub open spec fn shown_cursor(v: InputView) -> int {
    match v.paste {
        Some((s, e, l)) => if v.cursor <= s {
            v.cursor as int
        } else if v.cursor < e {
            (s + l.len()) as int
        } else {
            v.cursor - (e - s) + l.len()
        },
        None => v.cursor as int,
    }
}

impl InputLine {
    /// An empty line.
    pub fn new() -> (l: InputLine)
        ensures
            l@ == (InputView { text: seq![], cursor: 0, paste: None }),
    {
        InputLine { text: Vec::new(), cursor: 0, paste: None }
    }

    /// Types a character (see `typed`).
    pub fn insert_char(&mut self, c: char)
        requires
            input_wf(old(self)@),
        ensures
            final(self)@ == typed(old(self)@, c),
    {
        let ghost v = self@;
        self.text.insert(self.cursor, c);
        // The longer text is a vector's, so its length fits a usize.
        let _len = self.text.len();
        assert(self.text@ =~= insert_at(v.text, v.cursor as int, c));
        let cur = self.cursor;
        match &mut self.paste {
            Some((s, e, _)) => {
                if cur <= *s {
                    *s += 1;
                    *e += 1;
                }
            },
            None => {},
        }
        self.cursor += 1;
        assert(self@ =~= typed(v, c));
    }

    /// Takes out the characters from `a` to `b`.
    fn remove_range(&mut self, a: usize, b: usize)
        requires
            a <= b <= old(self).text@.len(),
        ensures
            final(self).text@ == remove_span(old(self).text@, a as int, b as int),
            final(self).cursor == old(self).cursor,
            final(self).paste == old(self).paste,
    {
        let mut k: usize = a;
        while k < b
            invariant
                a <= k <= b <= old(self).text@.len(),
                self.text@ == old(self).text@.take(a as int) + old(self).text@.skip(k as int),
                self.cursor == old(self).cursor,
                self.paste == old(self).paste,
            decreases b - k,
        {
            self.text.remove(a);
            assert(self.text@ =~= old(self).text@.take(a as int) + old(self).text@.skip(k + 1));
            k += 1;
        }
    }

    /// Backspace (see `backspaced`).
    pub fn backspace(&mut self)
        requires
            input_wf(old(self)@),
        ensures
            final(self)@ == backspaced(old(self)@),
    {
        let ghost v = self@;
        let cur = self.cursor;
        match &self.paste {
            Some((ps, pe, _)) => {
                let ps = *ps;
                let pe = *pe;
                if cur == pe {
                    // At paste end → delete entire paste block
                    self.remove_range(ps, pe);
                    self.cursor = ps;
                    self.paste = None;
                } else if cur > pe && cur > 0 {
                    // After paste block — normal delete
                    self.remove_range(cur - 1, cur);
                    self.cursor = cur - 1;
                } else if cur <= ps && cur > 0 {
                    // Before paste block — normal delete, shift paste
                    self.remove_range(cur - 1, cur);
                    self.cursor = cur - 1;
                    match &mut self.paste {
                        Some((s, e, _)) => {
                            *s -= 1;
                            *e -= 1;
                        },
                        None => {},
                    }
                }
            },
            None => {
                if cur > 0 {
                    self.remove_range(cur - 1, cur);
                    self.cursor = cur - 1;
                }
            },
        }
        assert(self@ =~= backspaced(v));
    }

    /// Left (see `moved_left`).
    pub fn move_left(&mut self)
        ensures
            final(self)@ == moved_left(old(self)@),
    {
        if self.cursor > 0 {
            let cur = self.cursor;
            let mut to = cur - 1;
            match &self.paste {
                Some((ps, pe, _)) => {
                    if cur > *ps && cur <= *pe {
                        // Jump over paste block
                        to = *ps;
                    }
                },
                None => {},
            }
            self.cursor = to;
        }
    }

    /// Right (see `moved_right`).
    pub fn move_right(&mut self)
        ensures
            final(self)@ == moved_right(old(self)@),
    {
        if self.cursor < self.text.len() {
            let cur = self.cursor;
            let mut to = cur + 1;
            match &self.paste {
                Some((ps, pe, _)) => {
                    if cur >= *ps && cur < *pe {
                        // Jump over paste block
                        to = *pe;
                    }
                },
                None => {},
            }
            self.cursor = to;
        }
    }

    /// Backspace while a reply streams in: the character before the cursor
    /// goes, and the paste block is not looked at (it stays where it was).
    pub fn backspace_char(&mut self)
        requires
            old(self).cursor <= old(self).text@.len(),
        ensures
            old(self).cursor > 0 ==> final(self)@ == (InputView {
                text: remove_span(old(self)@.text, old(self).cursor - 1, old(self).cursor as int),
                cursor: (old(self).cursor - 1) as nat,
                ..old(self)@
            }),
            old(self).cursor == 0 ==> final(self)@ == old(self)@,
    {
        let cur = self.cursor;
        if cur > 0 {
            self.remove_range(cur - 1, cur);
            self.cursor = cur - 1;
        }
    }

    /// Left while a reply streams in: one character back, past a paste block
    /// too.
    pub fn step_left(&mut self)
        ensures
            final(self)@ == (if old(self).cursor > 0 {
                InputView { cursor: (old(self).cursor - 1) as nat, ..old(self)@ }
            } else {
                old(self)@
            }),
    {
        if self.cursor > 0 {
            self.cursor -= 1;
        }
    }

    /// Right while a reply streams in: one character on, into a paste block
    /// too.
    pub fn step_right(&mut self)
        ensures
            final(self)@ == (if old(self).cursor < old(self).text@.len() {
                InputView { cursor: (old(self).cursor + 1) as nat, ..old(self)@ }
            } else {
                old(self)@
            }),
    {
        if self.cursor < self.text.len() {
            self.cursor += 1;
        }
    }

    /// Home: to the start.
    pub fn home(&mut self)
        ensures
            final(self)@ == (InputView { cursor: 0, ..old(self)@ }),
    {
        self.cursor = 0;
    }

    /// End: to the end.
    pub fn end(&mut self)
        ensures
            final(self)@ == (InputView { cursor: old(self)@.text.len(), ..old(self)@ }),
    {
        self.cursor = self.text.len();
    }

    /// Pastes text (see `pasted`).
    pub fn paste_text(&mut self, raw: &str)
        requires
            input_wf(old(self)@),
        ensures
            final(self)@ == pasted(old(self)@, raw@),
    {
        let ghost v = self@;
        let sanitized = sanitize_paste(raw);
        proof {
            lemma_sanitized_len(raw@);
        }
        let n = sanitized.len();
        let start = self.cursor;
        let mut k: usize = 0;
        while k < n
            invariant
                k <= n == sanitized@.len(),
                start == v.cursor,
                v.cursor <= v.text.len(),
                n <= raw@.len(),
                self.text@ == v.text.take(start as int) + sanitized@.take(k as int) + v.text.skip(start as int),
                self.cursor == v.cursor,
                self@.paste == v.paste,
            decreases n - k,
        {
            // The text is a vector's, so its length fits a usize.
            let cur_len = self.text.len();
            assert(start + k <= cur_len);
            self.text.insert(start + k, sanitized[k]);
            assert(self.text@ =~= v.text.take(start as int) + sanitized@.take(k + 1) + v.text.skip(start as int));
            k += 1;
        }
        assert(sanitized@.take(n as int) =~= sanitized@);
        let full_len = self.text.len();
        assert(start + n <= full_len);
        let end = start + n;
        self.cursor = end;
        // Short pastes: inline. Long pastes: collapsed block.
        if n > PASTE_COLLAPSE_CHARS {
            let mut label = str_chars("[Pasted Content ");
            append_decimal(&mut label, n as u64);
            append_str(&mut label, " chars]");
            self.paste = Some((start, end, chars_to_string(&label)));
        }
        assert(self@ =~= pasted(v, raw@));
    }

    /// Build the display text for the input widget (see `shown`).
    pub fn display_input(&self) -> (r: String)
        requires
            input_wf(self@),
        ensures
            r@ == shown(self@),
    {
        let mut out: Vec<char> = Vec::new();
        match &self.paste {
            Some((start, end, label)) => {
                let mut i: usize = 0;
                while i < *start
                    invariant
                        i <= *start <= self.text@.len(),
                        out@ == self.text@.take(i as int),
                    decreases *start - i,
                {
                    out.push(self.text[i]);
                    assert(out@ =~= self.text@.take(i + 1));
                    i += 1;
                }
                let l = str_chars(label.as_str());
                let ghost mid = out@ + l@;
                crate::text::append_chars(&mut out, &l);
                let mut j: usize = *end;
                while j < self.text.len()
                    invariant
                        *end <= j <= self.text@.len(),
                        out@ == mid + self.text@.subrange(*end as int, j as int),
                    decreases self.text@.len() - j,
                {
                    out.push(self.text[j]);
                    assert(out@ =~= mid + self.text@.subrange(*end as int, j + 1));
                    j += 1;
                }
                assert(self.text@.subrange(*end as int, self.text@.len() as int) =~= self.text@.skip(*end as int));
            },
            None => {
                // Replace newlines with spaces for single-line display
                // (newlines are preserved in the text for sending to the agent)
                let mut i: usize = 0;
                while i < self.text.len()
                    invariant
                        i <= self.text@.len(),
                        out@ == Seq::new(i as nat, |k: int| if self.text@[k] == '\n' { ' ' } else { self.text@[k] }),
                    decreases self.text@.len() - i,
                {
                    let c = self.text[i];
                    out.push(if c == '\n' { ' ' } else { c });
                    assert(out@ =~= Seq::new((i + 1) as nat, |k: int| if self.text@[k] == '\n' { ' ' } else { self.text@[k] }));
                    i += 1;
                }
            },
        }
        assert(out@ =~= shown(self@));
        chars_to_string(&out)
    }

    /// The cursor's position in the shown text (see `shown_cursor`).
    pub fn display_cursor(&self) -> (r: usize)
        requires
            input_wf(self@),
            shown(self@).len() <= usize::MAX,
        ensures
            r == shown_cursor(self@),
    {
        match &self.paste {
            Some((start, end, label)) => {
                let label_len = str_chars(label.as_str()).len();
                if self.cursor <= *start {
                    // Before paste block — maps 1:1
                    self.cursor
                } else if self.cursor < *end {
                    // Inside paste block — show at start of label
                    start + label_len
                } else {
                    // After paste block — offset by (label.len - paste_len)
                    let paste_len = end - start;
                    self.cursor - paste_len + label_len
                }
            },
            None => self.cursor,
        }
    }
}

/// Cleaning never lengthens a text.
pub proof fn lemma_sanitized_len(s: Seq<char>)
    ensures
        sanitized(s).len() <= s.len(),
    decreases s.len(),
{
    if s.len() > 0 {
        lemma_sanitized_len(s.drop_last());
    }
}

} // verus!
