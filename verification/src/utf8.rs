//! UTF-8: decoding one character from the bytes a terminal receives, and
//! encoding a character into the bytes a key press sends.

use vstd::prelude::*;

verus! {

/// A UTF-8 continuation byte.
pub open spec fn is_continuation(b: u8) -> bool {
    0x80 <= b && b <= 0xbf
}

/// The code point of `b` when `b` is the well-formed UTF-8 encoding of
/// exactly one character (Unicode, Table 3-7), and `None` otherwise.
pub open spec fn utf8_decode(b: Seq<u8>) -> Option<u32> {
    if b.len() == 1 && b[0] < 0x80 {
        Some(b[0] as u32)
    } else if b.len() == 2 && 0xc2 <= b[0] && b[0] <= 0xdf && is_continuation(b[1]) {
        Some(((b[0] - 0xc0) * 64 + (b[1] - 0x80)) as u32)
    } else if b.len() == 3 && 0xe0 <= b[0] && b[0] <= 0xef && is_continuation(b[1])
        && is_continuation(b[2]) && (b[0] != 0xe0 || b[1] >= 0xa0) && (b[0] != 0xed || b[1]
        <= 0x9f) {
        Some(((b[0] - 0xe0) * 4096 + (b[1] - 0x80) * 64 + (b[2] - 0x80)) as u32)
    } else if b.len() == 4 && 0xf0 <= b[0] && b[0] <= 0xf4 && is_continuation(b[1])
        && is_continuation(b[2]) && is_continuation(b[3]) && (b[0] != 0xf0 || b[1] >= 0x90) && (
    b[0] != 0xf4 || b[1] <= 0x8f) {
        Some(
            ((b[0] - 0xf0) * 262144 + (b[1] - 0x80) * 4096 + (b[2] - 0x80) * 64 + (b[3] - 0x80)) as u32,
        )
    } else {
        None
    }
}

/// A Unicode scalar value: a code point that is not a surrogate.
pub open spec fn is_scalar(v: u32) -> bool {
    v <= 0x10ffff && !(0xd800 <= v && v <= 0xdfff)
}

/// The character `b` encodes, when it encodes exactly one.
pub open spec fn utf8_char(b: Seq<u8>) -> Option<char> {
    match utf8_decode(b) {
        Some(v) => Some(v as char),
        None => None,
    }
}

/// The UTF-8 encoding of a character.
pub open spec fn utf8_encode(c: char) -> Seq<u8> {
    let v = c as u32;
    if v < 0x80 {
        seq![v as u8]
    } else if v < 0x800 {
        seq![(0xc0 + v / 64) as u8, (0x80 + v % 64) as u8]
    } else if v < 0x10000 {
        seq![(0xe0 + v / 4096) as u8, (0x80 + (v / 64) % 64) as u8, (0x80 + v % 64) as u8]
    } else {
        seq![
            (0xf0 + v / 262144) as u8,
            (0x80 + (v / 4096) % 64) as u8,
            (0x80 + (v / 64) % 64) as u8,
            (0x80 + v % 64) as u8,
        ]
    }
}

/// Calls `char::from_u32` of std.
///
/// Trusted: as std documents, the result is the character with code point `v`
/// when `v` is a Unicode scalar value, and `None` otherwise.
#[verifier::external_body]
fn char_from_u32(v: u32) -> (res: Option<char>)
    ensures
        is_scalar(v) ==> (res is Some && res->0 as u32 == v),
        !is_scalar(v) ==> res is None,
{
    char::from_u32(v)
}

proof fn lemma_char_cast(ch: char, v: u32)
    requires
        ch as u32 == v,
    ensures
        v as char == ch,
{
}

/// Every decoded code point is a Unicode scalar value.
pub proof fn lemma_decode_is_scalar(b: Seq<u8>)
    ensures
        utf8_decode(b) matches Some(v) ==> is_scalar(v),
{
}

/// Decodes the bytes of exactly one character.
pub fn decode_utf8_char(b: &Vec<u8>) -> (c: Option<char>)
    ensures
        c == utf8_char(b@),
        c matches Some(ch) ==> utf8_decode(b@) == Some(ch as u32),
{
    let n = b.len();
    let v: u32 = if n == 1 && b[0] < 0x80 {
        b[0] as u32
    } else if n == 2 && 0xc2 <= b[0] && b[0] <= 0xdf && 0x80 <= b[1] && b[1] <= 0xbf {
        (b[0] - 0xc0) as u32 * 64 + (b[1] - 0x80) as u32
    } else if n == 3 && 0xe0 <= b[0] && b[0] <= 0xef && 0x80 <= b[1] && b[1] <= 0xbf && 0x80
        <= b[2] && b[2] <= 0xbf && (b[0] != 0xe0 || b[1] >= 0xa0) && (b[0] != 0xed || b[1]
        <= 0x9f) {
        (b[0] - 0xe0) as u32 * 4096 + (b[1] - 0x80) as u32 * 64 + (b[2] - 0x80) as u32
    } else if n == 4 && 0xf0 <= b[0] && b[0] <= 0xf4 && 0x80 <= b[1] && b[1] <= 0xbf && 0x80
        <= b[2] && b[2] <= 0xbf && 0x80 <= b[3] && b[3] <= 0xbf && (b[0] != 0xf0 || b[1]
        >= 0x90) && (b[0] != 0xf4 || b[1] <= 0x8f) {
        (b[0] - 0xf0) as u32 * 262144 + (b[1] - 0x80) as u32 * 4096 + (b[2] - 0x80) as u32 * 64
            + (b[3] - 0x80) as u32
    } else {
        return None;
    };
    assert(utf8_decode(b@) == Some(v));
    let r = char_from_u32(v);
    proof {
        lemma_decode_is_scalar(b@);
        if let Some(ch) = r {
            lemma_char_cast(ch, v);
        }
    }
    r
}

/// Encodes a character as UTF-8.
pub fn encode_utf8(c: char) -> (bytes: Vec<u8>)
    ensures
        bytes@ == utf8_encode(c),
{
    let v = c as u32;
    if v < 0x80 {
        vec![v as u8]
    } else if v < 0x800 {
        vec![(0xc0 + v / 64) as u8, (0x80 + v % 64) as u8]
    } else if v < 0x10000 {
        vec![(0xe0 + v / 4096) as u8, (0x80 + (v / 64) % 64) as u8, (0x80 + v % 64) as u8]
    } else {
        assert(v <= 0x10ffff);
        vec![
            (0xf0 + v / 262144) as u8,
            (0x80 + (v / 4096) % 64) as u8,
            (0x80 + (v / 64) % 64) as u8,
            (0x80 + v % 64) as u8,
        ]
    }
}

/// Decoding the encoding of a character gives the character back.
pub proof fn lemma_decode_encode(c: char)
    ensures
        utf8_decode(utf8_encode(c)) == Some(c as u32),
        utf8_char(utf8_encode(c)) == Some(c),
{
    let v = c as u32;
    assert(is_scalar(v));
    if v < 0x80 {
    } else if v < 0x800 {
        assert((v / 64) * 64 + v % 64 == v) by (nonlinear_arith);
    } else if v < 0x10000 {
        assert((v / 4096) * 4096 + ((v / 64) % 64) * 64 + v % 64 == v) by (nonlinear_arith);
    } else {
        assert((v / 262144) * 262144 + ((v / 4096) % 64) * 4096 + ((v / 64) % 64) * 64 + v % 64
            == v) by (nonlinear_arith);
    }
}

// ── Lengths in bytes ────────────────────────────────────────────────────

/// How many bytes a character takes in UTF-8.
pub open spec fn utf8_width(c: char) -> nat {
    let v = c as u32;
    if v < 0x80 {
        1
    } else if v < 0x800 {
        2
    } else if v < 0x10000 {
        3
    } else {
        4
    }
}

/// How many bytes a text takes in UTF-8 (`str::len`).
pub open spec fn utf8_len(s: Seq<char>) -> nat
    decreases s.len(),
{
    if s.len() == 0 {
        0
    } else {
        utf8_len(s.drop_last()) + utf8_width(s.last())
    }
}

/// How many characters fit in `max` bytes, taken from the front (the
/// characters before `str::floor_char_boundary(max)`).
pub open spec fn chars_within(s: Seq<char>, max: nat) -> nat
    decreases s.len(),
{
    if s.len() == 0 {
        0
    } else if utf8_len(s) <= max {
        s.len()
    } else {
        chars_within(s.drop_last(), max)
    }
}

/// How many bytes a character takes in UTF-8 (`char::len_utf8`).
pub fn utf8_char_len(c: char) -> (n: usize)
    ensures
        n == utf8_width(c),
{
    let v = c as u32;
    if v < 0x80 {
        1
    } else if v < 0x800 {
        2
    } else if v < 0x10000 {
        3
    } else {
        4
    }
}

pub proof fn lemma_utf8_len_take(s: Seq<char>, k: int)
    requires
        0 <= k < s.len(),
    ensures
        utf8_len(s.take(k + 1)) == utf8_len(s.take(k)) + utf8_width(s[k]),
{
    assert(s.take(k + 1).drop_last() =~= s.take(k));
}

proof fn lemma_utf8_len_mono(s: Seq<char>, k: int)
    requires
        0 <= k <= s.len(),
    ensures
        utf8_len(s.take(k)) <= utf8_len(s),
    decreases s.len() - k,
{
    if k < s.len() {
        lemma_utf8_len_take(s, k);
        lemma_utf8_len_mono(s, k + 1 as int);
    } else {
        assert(s.take(k) =~= s);
    }
}

/// `chars_within` is the longest prefix whose bytes fit.
proof fn lemma_chars_within(s: Seq<char>, max: nat, k: nat)
    requires
        k <= s.len(),
        utf8_len(s.take(k as int)) <= max,
        k == s.len() || utf8_len(s.take(k + 1 as int)) > max,
    ensures
        chars_within(s, max) == k,
    decreases s.len(),
{
    if s.len() > 0 {
        if utf8_len(s) <= max {
            if k < s.len() {
                lemma_utf8_len_mono(s, k + 1 as int);
            }
        } else {
            assert(k < s.len()) by {
                if k == s.len() {
                    assert(s.take(k as int) =~= s);
                }
            }
            let t = s.drop_last();
            assert(t.take(k as int) =~= s.take(k as int));
            if k < t.len() {
                assert(t.take(k + 1 as int) =~= s.take(k + 1 as int));
            }
            lemma_chars_within(t, max, k);
        }
    }
}

/// How many bytes fit, and whether the text takes more than `max` bytes
/// and how many characters from the front fit within them.
pub fn utf8_fit(t: &Vec<char>, max: usize) -> (r: (bool, usize))
    ensures
        r.0 == (utf8_len(t@) > max),
        r.1 == chars_within(t@, max as nat),
        r.1 <= t@.len(),
{
    // Whether the bytes counted so far pass max, the bytes counted while
    // they do not, and how many characters fit.
    let mut over = false;
    let mut bytes: usize = 0;
    let mut fit: usize = 0;
    let mut k: usize = 0;
    while k < t.len()
        invariant
            k <= t@.len(),
            over == (utf8_len(t@.take(k as int)) > max),
            !over ==> bytes == utf8_len(t@.take(k as int)),
            fit <= k,
            utf8_len(t@.take(fit as int)) <= max,
            fit == k || utf8_len(t@.take(fit + 1)) > max,
        decreases t@.len() - k,
    {
        proof {
            lemma_utf8_len_take(t@, k as int);
        }
        let w = utf8_char_len(t[k]);
        if !over {
            if w <= max - bytes {
                if fit == k {
                    fit = k + 1;
                }
                bytes = bytes + w;
            } else {
                over = true;
            }
        }
        k += 1;
    }
    assert(t@.take(t@.len() as int) =~= t@);
    proof {
        lemma_chars_within(t@, max as nat, fit as nat);
    }
    (over, fit)
}

/// How many characters from the front fit within `max` bytes (see
/// `chars_within`).
pub fn chars_within_exec(t: &Vec<char>, max: usize) -> (r: usize)
    ensures
        r == chars_within(t@, max as nat),
        r <= t@.len(),
{
    let mut bytes: usize = 0;
    let mut fit: usize = 0;
    let mut done = false;
    while fit < t.len() && !done
        invariant
            fit <= t@.len(),
            bytes == utf8_len(t@.take(fit as int)),
            bytes <= max,
            done ==> utf8_len(t@.take(fit + 1)) > max && fit < t@.len(),
        decreases t@.len() - fit + (if done { 0int } else { 1int }),
    {
        proof {
            lemma_utf8_len_take(t@, fit as int);
        }
        let w = utf8_char_len(t[fit]);
        if w <= max - bytes {
            bytes = bytes + w;
            fit = fit + 1;
        } else {
            done = true;
        }
    }
    proof {
        lemma_chars_within(t@, max as nat, fit as nat);
    }
    fit
}

} // verus!
