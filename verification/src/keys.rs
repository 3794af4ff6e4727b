//! Key presses: what a key sends to a terminal, and the shortcuts that the
//! interface reads from it.

use vstd::prelude::*;
use crate::utf8::{encode_utf8, utf8_encode};

verus! {

/// A key of the keyboard.
#[derive(Debug, Clone, Copy, PartialEq, Eq, Structural)]
pub enum KeyCode {
    Backspace,
    Enter,
    Left,
    Right,
    Up,
    Down,
    Home,
    End,
    PageUp,
    PageDown,
    Tab,
    BackTab,
    Delete,
    Insert,
    F(u8),
    Char(char),
    Null,
    Esc,
    /// Any other key (lock keys, media keys, lone modifiers, ...).
    Other,
}

/// The modifier keys held with a key.
#[derive(Debug, Clone, Copy, PartialEq, Eq, Structural)]
pub struct KeyModifiers {
    pub shift: bool,
    pub control: bool,
    pub alt: bool,
    pub super_key: bool,
    pub hyper: bool,
    pub meta: bool,
}

impl KeyModifiers {
    /// No modifier held.
    pub fn none() -> (m: KeyModifiers)
        ensures
            !m.shift && !m.control && !m.alt && !m.super_key && !m.hyper && !m.meta,
    {
        KeyModifiers { shift: false, control: false, alt: false, super_key: false, hyper: false, meta: false }
    }

    /// Exactly Control held.
    pub open spec fn is_control_only(self) -> bool {
        self.control && !self.shift && !self.alt && !self.super_key && !self.hyper && !self.meta
    }
}

/// A key press.
#[derive(Debug, Clone, Copy, PartialEq, Eq, Structural)]
pub struct KeyEvent {
    pub code: KeyCode,
    pub modifiers: KeyModifiers,
}

/// The control byte Ctrl sends with a character: the low byte of the
/// lowercased character, counted from `a` as 1 (wrapping in a byte).
pub open spec fn ctrl_byte(c: char) -> u8 {
    let v = c as u32;
    let lower = if 0x41 <= v && v <= 0x5a { v + 32 } else { v as int };
    ((lower % 256 + 256 - 0x61 + 1) % 256) as u8
}

/// What a function key sends (F1 to F12), if anything.
pub open spec fn function_key_bytes(n: u8) -> Option<Seq<u8>> {
    if n == 1 {
        Some(seq![0x1bu8, 0x4fu8, 0x50u8])
    } else if n == 2 {
        Some(seq![0x1bu8, 0x4fu8, 0x51u8])
    } else if n == 3 {
        Some(seq![0x1bu8, 0x4fu8, 0x52u8])
    } else if n == 4 {
        Some(seq![0x1bu8, 0x4fu8, 0x53u8])
    } else if n == 5 {
        Some(seq![0x1bu8, 0x5bu8, 0x31u8, 0x35u8, 0x7eu8])
    } else if n == 6 {
        Some(seq![0x1bu8, 0x5bu8, 0x31u8, 0x37u8, 0x7eu8])
    } else if n == 7 {
        Some(seq![0x1bu8, 0x5bu8, 0x31u8, 0x38u8, 0x7eu8])
    } else if n == 8 {
        Some(seq![0x1bu8, 0x5bu8, 0x31u8, 0x39u8, 0x7eu8])
    } else if n == 9 {
        Some(seq![0x1bu8, 0x5bu8, 0x32u8, 0x30u8, 0x7eu8])
    } else if n == 10 {
        Some(seq![0x1bu8, 0x5bu8, 0x32u8, 0x31u8, 0x7eu8])
    } else if n == 11 {
        Some(seq![0x1bu8, 0x5bu8, 0x32u8, 0x33u8, 0x7eu8])
    } else if n == 12 {
        Some(seq![0x1bu8, 0x5bu8, 0x32u8, 0x34u8, 0x7eu8])
    } else {
        None
    }
}

/// The bytes a key press sends to a terminal (xterm conventions), if any.
pub open spec fn key_bytes(key: KeyEvent) -> Option<Seq<u8>> {
    let ctrl = key.modifiers.control;
    let alt = key.modifiers.alt;
    match key.code {
        KeyCode::Char(c) => if ctrl {
            if alt {
                Some(seq![0x1bu8, ctrl_byte(c)])
            } else {
                Some(seq![ctrl_byte(c)])
            }
        } else if alt {
            Some(seq![0x1bu8] + utf8_encode(c))
        } else {
            Some(utf8_encode(c))
        },
        KeyCode::Enter => Some(seq![0x0du8]),
        KeyCode::Backspace => Some(seq![0x7fu8]),
        KeyCode::Tab => Some(seq![0x09u8]),
        KeyCode::BackTab => Some(seq![0x1bu8, 0x5bu8, 0x5au8]),
        KeyCode::Esc => Some(seq![0x1bu8]),
        KeyCode::Up => Some(seq![0x1bu8, 0x5bu8, 0x41u8]),
        KeyCode::Down => Some(seq![0x1bu8, 0x5bu8, 0x42u8]),
        KeyCode::Right => Some(seq![0x1bu8, 0x5bu8, 0x43u8]),
        KeyCode::Left => Some(seq![0x1bu8, 0x5bu8, 0x44u8]),
        KeyCode::Home => Some(seq![0x1bu8, 0x5bu8, 0x48u8]),
        KeyCode::End => Some(seq![0x1bu8, 0x5bu8, 0x46u8]),
        KeyCode::PageUp => Some(seq![0x1bu8, 0x5bu8, 0x35u8, 0x7eu8]),
        KeyCode::PageDown => Some(seq![0x1bu8, 0x5bu8, 0x36u8, 0x7eu8]),
        KeyCode::Delete => Some(seq![0x1bu8, 0x5bu8, 0x33u8, 0x7eu8]),
        KeyCode::Insert => Some(seq![0x1bu8, 0x5bu8, 0x32u8, 0x7eu8]),
        KeyCode::F(n) => function_key_bytes(n),
        _ => None,
    }
}

fn control_byte(c: char) -> (b: u8)
    ensures
        b == ctrl_byte(c),
{
    let v = c as u32;
    let lower: u32 = if 0x41 <= v && v <= 0x5a { v + 32 } else { v };
    ((lower % 256 + 256 - 0x61 + 1) % 256) as u8
}

/// The bytes a key sends to the program in the terminal (see `key_bytes`);
/// `None` for a key that sends nothing.
pub fn key_to_bytes(key: &KeyEvent) -> (r: Option<Vec<u8>>)
    ensures
        r matches Some(v) ==> key_bytes(*key) == Some(v@),
        r is None ==> key_bytes(*key) is None,
{
    let ctrl = key.modifiers.control;
    let alt = key.modifiers.alt;
    let r: Option<Vec<u8>> = match key.code {
        KeyCode::Char(c) => {
            if ctrl {
                let byte = control_byte(c);
                if alt {
                    Some(vec![0x1b, byte])
                } else {
                    Some(vec![byte])
                }
            } else if alt {
                let mut bytes = vec![0x1bu8];
                let enc = encode_utf8(c);
                let mut i: usize = 0;
                while i < enc.len()
                    invariant
                        i <= enc@.len(),
                        bytes@ == seq![0x1bu8] + enc@.take(i as int),
                    decreases enc@.len() - i,
                {
                    bytes.push(enc[i]);
                    assert(bytes@ =~= seq![0x1bu8] + enc@.take(i + 1));
                    i += 1;
                }
                assert(enc@.take(enc@.len() as int) =~= enc@);
                Some(bytes)
            } else {
                Some(encode_utf8(c))
            }
        },
        KeyCode::Enter => Some(vec![0x0d]),
        KeyCode::Backspace => Some(vec![0x7f]),
        KeyCode::Tab => Some(vec![0x09]),
        KeyCode::BackTab => Some(vec![0x1b, 0x5b, 0x5a]),
        KeyCode::Esc => Some(vec![0x1b]),
        KeyCode::Up => Some(vec![0x1b, 0x5b, 0x41]),
        KeyCode::Down => Some(vec![0x1b, 0x5b, 0x42]),
        KeyCode::Right => Some(vec![0x1b, 0x5b, 0x43]),
        KeyCode::Left => Some(vec![0x1b, 0x5b, 0x44]),
        KeyCode::Home => Some(vec![0x1b, 0x5b, 0x48]),
        KeyCode::End => Some(vec![0x1b, 0x5b, 0x46]),
        KeyCode::PageUp => Some(vec![0x1b, 0x5b, 0x35, 0x7e]),
        KeyCode::PageDown => Some(vec![0x1b, 0x5b, 0x36, 0x7e]),
        KeyCode::Delete => Some(vec![0x1b, 0x5b, 0x33, 0x7e]),
        KeyCode::Insert => Some(vec![0x1b, 0x5b, 0x32, 0x7e]),
        KeyCode::F(n) => {
            if n == 1 {
                Some(vec![0x1b, 0x4f, 0x50])
            } else if n == 2 {
                Some(vec![0x1b, 0x4f, 0x51])
            } else if n == 3 {
                Some(vec![0x1b, 0x4f, 0x52])
            } else if n == 4 {
                Some(vec![0x1b, 0x4f, 0x53])
            } else if n == 5 {
                Some(vec![0x1b, 0x5b, 0x31, 0x35, 0x7e])
            } else if n == 6 {
                Some(vec![0x1b, 0x5b, 0x31, 0x37, 0x7e])
            } else if n == 7 {
                Some(vec![0x1b, 0x5b, 0x31, 0x38, 0x7e])
            } else if n == 8 {
                Some(vec![0x1b, 0x5b, 0x31, 0x39, 0x7e])
            } else if n == 9 {
                Some(vec![0x1b, 0x5b, 0x32, 0x30, 0x7e])
            } else if n == 10 {
                Some(vec![0x1b, 0x5b, 0x32, 0x31, 0x7e])
            } else if n == 11 {
                Some(vec![0x1b, 0x5b, 0x32, 0x33, 0x7e])
            } else if n == 12 {
                Some(vec![0x1b, 0x5b, 0x32, 0x34, 0x7e])
            } else {
                None
            }
        },
        _ => None,
    };
    proof {
        if r is Some {
            assert(r->0@ =~= key_bytes(*key).unwrap());
        }
    }
    r
}

/// Check if a key event is the quit shortcut (Ctrl+C or Ctrl+Q)
pub fn is_quit(key: &KeyEvent) -> (b: bool)
    ensures
        b == ((key.code == KeyCode::Char('c') || key.code == KeyCode::Char('q'))
            && key.modifiers.is_control_only()),
{
    let m = key.modifiers;
    let control_only = m.control && !m.shift && !m.alt && !m.super_key && !m.hyper && !m.meta;
    match key.code {
        KeyCode::Char(c) => (c == 'c' || c == 'q') && control_only,
        _ => false,
    }
}

/// Check if a key event is Enter/Return
pub fn is_submit(key: &KeyEvent) -> (b: bool)
    ensures
        b == (key.code == KeyCode::Enter),
{
    match key.code {
        KeyCode::Enter => true,
        _ => false,
    }
}

// ── What keys send ─────────────────────────────────────────────────────

/// The navigation and editing keys send xterm's sequences, whatever
/// modifiers are held: the arrows `ESC [ A` (up), `ESC [ B` (down),
/// `ESC [ C` (right) and `ESC [ D` (left); Home `ESC [ H`, End `ESC [ F`,
/// Page Up `ESC [ 5 ~`, Page Down `ESC [ 6 ~`, Delete `ESC [ 3 ~`, Insert
/// `ESC [ 2 ~`; Enter a carriage return, Backspace DEL, Tab a tab,
/// Shift+Tab `ESC [ Z` and Esc a lone escape; F1 to F4 `ESC O P` to
/// `ESC O S` and F5 to F12 `ESC [ 15 ~` to `ESC [ 24 ~` as xterm numbers
/// them; other keys send nothing.
pub proof fn law_special_keys_send_xterm_sequences(m: KeyModifiers)
    ensures
        key_bytes(KeyEvent { code: KeyCode::Up, modifiers: m }) == Some(seq![0x1bu8, 0x5bu8, 0x41u8]),
        key_bytes(KeyEvent { code: KeyCode::Down, modifiers: m }) == Some(seq![0x1bu8, 0x5bu8, 0x42u8]),
        key_bytes(KeyEvent { code: KeyCode::Right, modifiers: m }) == Some(seq![0x1bu8, 0x5bu8, 0x43u8]),
        key_bytes(KeyEvent { code: KeyCode::Left, modifiers: m }) == Some(seq![0x1bu8, 0x5bu8, 0x44u8]),
        key_bytes(KeyEvent { code: KeyCode::Home, modifiers: m }) == Some(seq![0x1bu8, 0x5bu8, 0x48u8]),
        key_bytes(KeyEvent { code: KeyCode::End, modifiers: m }) == Some(seq![0x1bu8, 0x5bu8, 0x46u8]),
        key_bytes(KeyEvent { code: KeyCode::PageUp, modifiers: m }) == Some(seq![0x1bu8, 0x5bu8, 0x35u8, 0x7eu8]),
        key_bytes(KeyEvent { code: KeyCode::PageDown, modifiers: m }) == Some(seq![0x1bu8, 0x5bu8, 0x36u8, 0x7eu8]),
        key_bytes(KeyEvent { code: KeyCode::Delete, modifiers: m }) == Some(seq![0x1bu8, 0x5bu8, 0x33u8, 0x7eu8]),
        key_bytes(KeyEvent { code: KeyCode::Insert, modifiers: m }) == Some(seq![0x1bu8, 0x5bu8, 0x32u8, 0x7eu8]),
        key_bytes(KeyEvent { code: KeyCode::Enter, modifiers: m }) == Some(seq![0x0du8]),
        key_bytes(KeyEvent { code: KeyCode::Backspace, modifiers: m }) == Some(seq![0x7fu8]),
        key_bytes(KeyEvent { code: KeyCode::Tab, modifiers: m }) == Some(seq![0x09u8]),
        key_bytes(KeyEvent { code: KeyCode::BackTab, modifiers: m }) == Some(seq![0x1bu8, 0x5bu8, 0x5au8]),
        key_bytes(KeyEvent { code: KeyCode::Esc, modifiers: m }) == Some(seq![0x1bu8]),
        key_bytes(KeyEvent { code: KeyCode::F(1), modifiers: m }) == Some(seq![0x1bu8, 0x4fu8, 0x50u8]),
        key_bytes(KeyEvent { code: KeyCode::F(4), modifiers: m }) == Some(seq![0x1bu8, 0x4fu8, 0x53u8]),
        key_bytes(KeyEvent { code: KeyCode::F(5), modifiers: m }) == Some(seq![0x1bu8, 0x5bu8, 0x31u8, 0x35u8, 0x7eu8]),
        key_bytes(KeyEvent { code: KeyCode::F(12), modifiers: m }) == Some(seq![0x1bu8, 0x5bu8, 0x32u8, 0x34u8, 0x7eu8]),
        forall|n: u8| (n == 0 || n > 12) ==> key_bytes(KeyEvent { code: KeyCode::F(n), modifiers: m }) is None,
        key_bytes(KeyEvent { code: KeyCode::Null, modifiers: m }) is None,
        key_bytes(KeyEvent { code: KeyCode::Other, modifiers: m }) is None,
{
}

/// Two different keys that are not characters never send the same bytes
/// (whatever modifiers are held with each): the program in the terminal
/// can always tell them apart.
#[verifier::spinoff_prover]
pub proof fn law_distinct_keys_distinct_bytes(a: KeyEvent, b: KeyEvent)
    requires
        !(a.code is Char),
        !(b.code is Char),
        a.code != b.code,
        key_bytes(a) is Some,
    ensures
        key_bytes(a) != key_bytes(b),
{
    law_special_keys_send_xterm_sequences(a.modifiers);
    law_special_keys_send_xterm_sequences(b.modifiers);
    if let (Some(x), Some(y)) = (key_bytes(a), key_bytes(b)) {
        if x == y {
            assert(x.len() == y.len());
            assert(x[0] == y[0]);
            if x.len() > 1 {
                assert(x[1] == y[1]);
            }
            if x.len() > 2 {
                assert(x[2] == y[2]);
            }
            if x.len() > 3 {
                assert(x[3] == y[3]);
            }
        }
    }
}

/// A character key sends what a terminal sends for it: an ASCII character
/// alone its byte, with Alt that byte after an escape; a letter with Ctrl
/// (either case) its place in the alphabet, 1 for `a` to 26 for `z`, after
/// an escape when Alt is held too.
pub proof fn law_character_keys(c: char, m: KeyModifiers)
    requires
        (c as u32) < 0x80,
    ensures
        !m.control && !m.alt ==> key_bytes(KeyEvent { code: KeyCode::Char(c), modifiers: m }) == Some(seq![c as u8]),
        !m.control && m.alt ==> key_bytes(KeyEvent { code: KeyCode::Char(c), modifiers: m }) == Some(seq![0x1bu8, c as u8]),
        m.control && !m.alt && 'a' <= c <= 'z' ==> key_bytes(KeyEvent { code: KeyCode::Char(c), modifiers: m }) == Some(seq![(c as u32 - 0x60) as u8]),
        m.control && !m.alt && 'A' <= c <= 'Z' ==> key_bytes(KeyEvent { code: KeyCode::Char(c), modifiers: m }) == Some(seq![(c as u32 - 0x40) as u8]),
        m.control && m.alt && 'a' <= c <= 'z' ==> key_bytes(KeyEvent { code: KeyCode::Char(c), modifiers: m }) == Some(seq![0x1bu8, (c as u32 - 0x60) as u8]),
{
    assert(seq![0x1bu8] + seq![c as u8] =~= seq![0x1bu8, c as u8]);
}

} // verus!
