//! Text as sequences of characters: whitespace, lines, words, and the
//! conversions to and from `str` and `String`.

use vstd::prelude::*;
use vstd::std_specs::iter::IteratorSpec;

verus! {

/// Reads the characters of a string.
pub fn str_chars(s: &str) -> (v: Vec<char>)
    ensures
        v@ == s@,
{
    broadcast use vstd::string::axiom_spec_iter;
    let mut v: Vec<char> = Vec::new();
    for c in it: s.chars()
        invariant
            v@ == it.seq().take(it.index() as int),
            it.seq() == s@,
    {
        v.push(c);
    }
    v
}

/// Builds a `String` from characters (std's `FromIterator<char>` for `String`).
///
/// Trusted: as std documents, the string holds exactly these characters, in
/// this order.
#[verifier::external_body]
pub(crate) fn chars_to_string(v: &Vec<char>) -> (res: String)
    ensures
        res@ == v@,
{
    v.iter().collect()
}

/// A character with the Unicode `White_Space` property (what
/// `char::is_whitespace` tests).
pub open spec fn is_white_space(c: char) -> bool {
    let v = c as u32;
    (0x09 <= v && v <= 0x0d) || v == 0x20 || v == 0x85 || v == 0xa0 || v == 0x1680 || (0x2000
        <= v && v <= 0x200a) || v == 0x2028 || v == 0x2029 || v == 0x202f || v == 0x205f || v
        == 0x3000
}

pub fn is_whitespace(c: char) -> (b: bool)
    ensures
        b == is_white_space(c),
{
    let v = c as u32;
    (0x09 <= v && v <= 0x0d) || v == 0x20 || v == 0x85 || v == 0xa0 || v == 0x1680 || (0x2000
        <= v && v <= 0x200a) || v == 0x2028 || v == 0x2029 || v == 0x202f || v == 0x205f || v
        == 0x3000
}

/// Only whitespace (what `str::trim().is_empty()` tests).
pub open spec fn is_blank(s: Seq<char>) -> bool {
    forall|i: int| 0 <= i < s.len() ==> is_white_space(#[trigger] s[i])
}

pub fn blank_text(s: &Vec<char>) -> (b: bool)
    ensures
        b == is_blank(s@),
{
    let mut i: usize = 0;
    while i < s.len()
        invariant
            i <= s@.len(),
            forall|k: int| 0 <= k < i ==> is_white_space(#[trigger] s@[k]),
        decreases s@.len() - i,
    {
        if !is_whitespace(s[i]) {
            return false;
        }
        i += 1;
    }
    true
}

/// The text with its trailing whitespace removed (`str::trim_end`).
pub open spec fn trim_end(s: Seq<char>) -> Seq<char>
    decreases s.len(),
{
    if s.len() > 0 && is_white_space(s.last()) {
        trim_end(s.drop_last())
    } else {
        s
    }
}

pub proof fn lemma_trim_end_prefix(s: Seq<char>)
    ensures
        trim_end(s).len() <= s.len(),
        trim_end(s) == s.take(trim_end(s).len() as int),
        trim_end(s).len() == 0 || !is_white_space(trim_end(s).last()),
    decreases s.len(),
{
    if s.len() > 0 && is_white_space(s.last()) {
        lemma_trim_end_prefix(s.drop_last());
        assert(s.drop_last().take(trim_end(s).len() as int) =~= s.take(trim_end(s).len() as int));
    } else {
        assert(s.take(s.len() as int) =~= s);
    }
}

/// Removes trailing whitespace.
pub fn trim_end_chars(v: &mut Vec<char>)
    ensures
        final(v)@ == trim_end(old(v)@),
{
    while v.len() > 0 && is_whitespace(v[v.len() - 1])
        invariant
            trim_end(v@) == trim_end(old(v)@),
        decreases v@.len(),
    {
        let ghost before = v@;
        v.pop();
        assert(v@ =~= before.drop_last());
    }
}

/// Text equality.
pub fn chars_eq(a: &Vec<char>, b: &Vec<char>) -> (r: bool)
    ensures
        r == (a@ == b@),
{
    if a.len() != b.len() {
        return false;
    }
    let mut i: usize = 0;
    while i < a.len()
        invariant
            a@.len() == b@.len(),
            i <= a@.len(),
            forall|k: int| 0 <= k < i ==> a@[k] == b@[k],
        decreases a@.len() - i,
    {
        if a[i] != b[i] {
            return false;
        }
        i += 1;
    }
    assert(a@ =~= b@);
    true
}

/// `a` starts with `b`.
pub open spec fn starts_with(a: Seq<char>, b: Seq<char>) -> bool {
    b.len() <= a.len() && a.take(b.len() as int) == b
}

pub fn chars_start_with(a: &Vec<char>, b: &Vec<char>) -> (r: bool)
    ensures
        r == starts_with(a@, b@),
{
    if b.len() > a.len() {
        return false;
    }
    let mut i: usize = 0;
    while i < b.len()
        invariant
            b@.len() <= a@.len(),
            i <= b@.len(),
            forall|k: int| 0 <= k < i ==> a@[k] == b@[k],
        decreases b@.len() - i,
    {
        if a[i] != b[i] {
            assert(a@.take(b@.len() as int)[i as int] != b@[i as int]);
            return false;
        }
        i += 1;
    }
    assert(a@.take(b@.len() as int) =~= b@);
    true
}

/// Appends characters.
pub fn append_chars(v: &mut Vec<char>, w: &Vec<char>)
    ensures
        final(v)@ == old(v)@ + w@,
{
    let mut i: usize = 0;
    while i < w.len()
        invariant
            i <= w@.len(),
            v@ == old(v)@ + w@.take(i as int),
        decreases w@.len() - i,
    {
        v.push(w[i]);
        assert(v@ =~= old(v)@ + w@.take(i + 1));
        i += 1;
    }
    assert(w@.take(w@.len() as int) =~= w@);
}

/// Appends the characters of a string.
pub fn append_str(v: &mut Vec<char>, s: &str)
    ensures
        final(v)@ == old(v)@ + s@,
{
    let w = str_chars(s);
    append_chars(v, &w);
}

/// The decimal digits of `n` as characters, most significant first.
pub open spec fn decimal_chars(n: nat) -> Seq<char>
    decreases n,
{
    if n < 10 {
        seq![((0x30 + n) as u8) as char]
    } else {
        decimal_chars(n / 10).push(((0x30 + n % 10) as u8) as char)
    }
}

/// Appends the decimal digits of `n`.
pub fn append_decimal(v: &mut Vec<char>, n: u64)
    ensures
        final(v)@ == old(v)@ + decimal_chars(n as nat),
    decreases n,
{
    if n < 10 {
        v.push(((0x30 + n) as u8) as char);
        assert(v@ =~= old(v)@ + decimal_chars(n as nat));
    } else {
        append_decimal(v, n / 10);
        v.push(((0x30 + n % 10) as u8) as char);
        assert(v@ =~= old(v)@ + decimal_chars(n as nat));
    }
}

/// A line with a trailing carriage return removed.
pub open spec fn strip_cr(l: Seq<char>) -> Seq<char> {
    if l.len() > 0 && l.last() == '\r' {
        l.drop_last()
    } else {
        l
    }
}

/// The complete lines of `s` (each ended by a newline, a carriage return
/// before it dropped) and the text after the last newline.
pub open spec fn line_split(s: Seq<char>) -> (Seq<Seq<char>>, Seq<char>)
    decreases s.len(),
{
    if s.len() == 0 {
        (seq![], seq![])
    } else {
        let (done, cur) = line_split(s.drop_last());
        let c = s.last();
        if c == '\n' {
            (done.push(strip_cr(cur)), seq![])
        } else {
            (done, cur.push(c))
        }
    }
}

/// The lines of a text, as `str::lines` gives them: split at `\n` or
/// `\r\n`, the final line ending optional.
pub open spec fn lines(s: Seq<char>) -> Seq<Seq<char>> {
    let (done, cur) = line_split(s);
    if cur.len() > 0 {
        done.push(cur)
    } else {
        done
    }
}

/// Splits a text into its lines.
pub fn split_lines(s: &Vec<char>) -> (res: Vec<Vec<char>>)
    ensures
        res@.map_values(|l: Vec<char>| l@) == lines(s@),
{
    let mut done: Vec<Vec<char>> = Vec::new();
    let mut cur: Vec<char> = Vec::new();
    let mut i: usize = 0;
    while i < s.len()
        invariant
            i <= s@.len(),
            (done@.map_values(|l: Vec<char>| l@), cur@) == line_split(s@.take(i as int)),
        decreases s@.len() - i,
    {
        let c = s[i];
        proof {
            assert(s@.take(i + 1).drop_last() =~= s@.take(i as int));
        }
        if c == '\n' {
            if cur.len() > 0 && cur[cur.len() - 1] == '\r' {
                cur.pop();
            }
            let ghost d0 = done@.map_values(|l: Vec<char>| l@);
            let mut line: Vec<char> = Vec::new();
            std::mem::swap(&mut line, &mut cur);
            let ghost lv = line@;
            done.push(line);
            assert(done@.map_values(|l: Vec<char>| l@) =~= d0.push(lv));
        } else {
            cur.push(c);
        }
        i += 1;
    }
    proof {
        assert(s@.take(s@.len() as int) =~= s@);
    }
    if cur.len() > 0 {
        let ghost d0 = done@.map_values(|l: Vec<char>| l@);
        let ghost cv = cur@;
        done.push(cur);
        assert(done@.map_values(|l: Vec<char>| l@) =~= d0.push(cv));
    }
    done
}

/// The words of `s` (maximal runs of non-whitespace) so far, and the word
/// being read at the end.
pub open spec fn word_split(s: Seq<char>) -> (Seq<Seq<char>>, Seq<char>)
    decreases s.len(),
{
    if s.len() == 0 {
        (seq![], seq![])
    } else {
        let (done, cur) = word_split(s.drop_last());
        let c = s.last();
        if is_white_space(c) {
            if cur.len() > 0 {
                (done.push(cur), seq![])
            } else {
                (done, cur)
            }
        } else {
            (done, cur.push(c))
        }
    }
}

/// The words of a text (what `str::split_whitespace` gives).
pub open spec fn words(s: Seq<char>) -> Seq<Seq<char>> {
    let (done, cur) = word_split(s);
    if cur.len() > 0 {
        done.push(cur)
    } else {
        done
    }
}

/// Words joined by single spaces.
pub open spec fn join_spaced(ws: Seq<Seq<char>>) -> Seq<char>
    decreases ws.len(),
{
    if ws.len() == 0 {
        seq![]
    } else if ws.len() == 1 {
        ws[0]
    } else {
        join_spaced(ws.drop_last()) + seq![' '] + ws.last()
    }
}

/// The words of a text joined by single spaces (what
/// `split_whitespace().collect::<Vec<_>>().join(" ")` gives).
pub open spec fn normalize_whitespace(s: Seq<char>) -> Seq<char> {
    join_spaced(words(s))
}

/// Collapses every run of whitespace to one space and drops it at both ends.
pub fn normalize_spaces(s: &Vec<char>) -> (res: Vec<char>)
    ensures
        res@ == normalize_whitespace(s@),
{
    // `out` holds the words read so far joined by spaces; `cur` the word being read.
    let mut out: Vec<char> = Vec::new();
    let mut cur: Vec<char> = Vec::new();
    let mut i: usize = 0;
    while i < s.len()
        invariant
            i <= s@.len(),
            out@ == join_spaced(word_split(s@.take(i as int)).0),
            cur@ == word_split(s@.take(i as int)).1,
        decreases s@.len() - i,
    {
        let c = s[i];
        proof {
            assert(s@.take(i + 1).drop_last() =~= s@.take(i as int));
        }
        if is_whitespace(c) {
            if cur.len() > 0 {
                let ghost d0 = word_split(s@.take(i as int)).0;
                proof {
                    lemma_words_nonempty(s@.take(i as int));
                    lemma_join_spaced_empty(d0);
                }
                if out.len() > 0 {
                    out.push(' ');
                }
                append_chars(&mut out, &cur);
                cur = Vec::new();
                proof {
                    lemma_join_spaced_push(d0, word_split(s@.take(i as int)).1);
                }
            }
        } else {
            cur.push(c);
        }
        i += 1;
    }
    proof {
        assert(s@.take(s@.len() as int) =~= s@);
    }
    if cur.len() > 0 {
        let ghost d0 = word_split(s@).0;
        proof {
            lemma_words_nonempty(s@);
            lemma_join_spaced_empty(d0);
        }
        if out.len() > 0 {
            out.push(' ');
        }
        append_chars(&mut out, &cur);
        proof {
            lemma_join_spaced_push(d0, word_split(s@).1);
        }
    }
    out
}

/// The joined words are empty exactly when there are no words (when no
/// word is empty).
pub proof fn lemma_join_spaced_empty(ws: Seq<Seq<char>>)
    requires
        forall|k: int| 0 <= k < ws.len() ==> (#[trigger] ws[k]).len() > 0,
    ensures
        join_spaced(ws).len() > 0 <==> ws.len() > 0,
    decreases ws.len(),
{
    if ws.len() > 1 {
        lemma_join_spaced_empty(ws.drop_last());
    }
}

/// No word is empty, and no word holds whitespace.
pub proof fn lemma_words_nonempty(s: Seq<char>)
    ensures
        forall|k: int| 0 <= k < word_split(s).0.len() ==> (#[trigger] word_split(s).0[k]).len() > 0,
        forall|k: int, j: int| 0 <= k < word_split(s).0.len() && 0 <= j < word_split(s).0[k].len()
            ==> !is_white_space(#[trigger] word_split(s).0[k][j]),
        forall|j: int| 0 <= j < word_split(s).1.len() ==> !is_white_space(#[trigger] word_split(s).1[j]),
    decreases s.len(),
{
    if s.len() > 0 {
        lemma_words_nonempty(s.drop_last());
        let (done, cur) = word_split(s.drop_last());
        let c = s.last();
        if !is_white_space(c) {
            assert forall|j: int| 0 <= j < cur.push(c).len() implies !is_white_space(#[trigger] cur.push(c)[j]) by {
                if j < cur.len() {
                    assert(cur.push(c)[j] == cur[j]);
                }
            }
        }
    }
}

proof fn lemma_join_spaced_push(ws: Seq<Seq<char>>, w: Seq<char>)
    ensures
        join_spaced(ws.push(w)) == (if ws.len() == 0 {
            w
        } else {
            join_spaced(ws) + seq![' '] + w
        }),
{
    assert(ws.push(w).drop_last() =~= ws);
}

/// The text with its leading whitespace removed (`str::trim_start`).
pub open spec fn trim_start(s: Seq<char>) -> Seq<char>
    decreases s.len(),
{
    if s.len() > 0 && is_white_space(s[0]) {
        trim_start(s.drop_first())
    } else {
        s
    }
}

/// The text with whitespace removed at both ends (`str::trim`).
pub open spec fn trim(s: Seq<char>) -> Seq<char> {
    trim_end(trim_start(s))
}

/// Whitespace trimmed from both ends.
pub fn trim_chars(v: &Vec<char>) -> (r: Vec<char>)
    ensures
        r@ == trim(v@),
{
    let mut i: usize = 0;
    assert(v@.subrange(0, v@.len() as int) =~= v@);
    while i < v.len() && is_whitespace(v[i])
        invariant
            i <= v@.len(),
            trim_start(v@) == trim_start(v@.subrange(i as int, v@.len() as int)),
        decreases v@.len() - i,
    {
        assert(v@.subrange(i as int, v@.len() as int).drop_first() =~= v@.subrange(i + 1, v@.len() as int));
        i += 1;
    }
    let mut r: Vec<char> = Vec::new();
    let mut j: usize = i;
    while j < v.len()
        invariant
            i <= j <= v@.len(),
            r@ == v@.subrange(i as int, j as int),
        decreases v@.len() - j,
    {
        r.push(v[j]);
        assert(r@ =~= v@.subrange(i as int, j + 1));
        j += 1;
    }
    trim_end_chars(&mut r);
    r
}

/// Texts joined by a separator (what `join(sep)` gives).
pub open spec fn join_with(ls: Seq<Seq<char>>, sep: Seq<char>) -> Seq<char>
    decreases ls.len(),
{
    if ls.len() == 0 {
        seq![]
    } else if ls.len() == 1 {
        ls[0]
    } else {
        join_with(ls.drop_last(), sep) + sep + ls.last()
    }
}

pub proof fn lemma_join_with_push(ls: Seq<Seq<char>>, sep: Seq<char>, w: Seq<char>)
    ensures
        join_with(ls.push(w), sep) == (if ls.len() == 0 {
            w
        } else {
            join_with(ls, sep) + sep + w
        }),
{
    assert(ls.push(w).drop_last() =~= ls);
}

} // verus!
