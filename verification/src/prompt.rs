//! The prompt where the user types: the input line with the command palette
//! over it, going back through earlier messages, and clearing with Esc.

use vstd::prelude::*;
use crate::chat::ChatMessage;
use crate::commands::{palette, filtered_commands};
use crate::input::{InputLine, InputView, backspaced, input_wf, moved_left, moved_right, pasted, typed};
use crate::keys::KeyCode;
use crate::text::{blank_text, chars_to_string, is_blank, str_chars};

verus! {

/// The prompt's state.
pub struct Prompt {
    pub line: InputLine,
    /// The palette entry under the cursor.
    pub palette_idx: usize,
    /// Esc was pressed once on a non-empty line; another Esc clears it.
    pub esc_pending: bool,
    /// Which earlier message of the user is shown, if any.
    pub history_idx: Option<usize>,
    /// The line as it was before going back through earlier messages.
    pub saved_input: Vec<char>,
}

/// The texts of the user's messages, in order.
pub open spec fn user_texts(ms: Seq<ChatMessage>) -> Seq<Seq<char>>
    decreases ms.len(),
{
    if ms.len() == 0 {
        seq![]
    } else {
        let rest = user_texts(ms.drop_last());
        if ms.last().role@ == "user"@ {
            rest.push(ms.last().content@)
        } else {
            rest
        }
    }
}

/// A line holding this text, with the cursor at its end and no paste block.
pub open spec fn line_of(t: Seq<char>) -> InputView {
    InputView { text: t, cursor: t.len(), paste: None }
}

/// The empty line.
pub open spec fn empty_line() -> InputView {
    InputView { text: seq![], cursor: 0, paste: None }
}

/// The texts of the user's messages.
pub fn user_message_texts(messages: &Vec<ChatMessage>) -> (r: Vec<Vec<char>>)
    ensures
        r@.len() == user_texts(messages@).len(),
        forall|i: int| 0 <= i < r@.len() ==> (#[trigger] r@[i])@ == user_texts(messages@)[i],
{
    let mut r: Vec<Vec<char>> = Vec::new();
    let mut i: usize = 0;
    let user = str_chars("user");
    while i < messages.len()
        invariant
            i <= messages@.len(),
            user@ == "user"@,
            r@.len() == user_texts(messages@.take(i as int)).len(),
            forall|k: int| 0 <= k < r@.len() ==> (#[trigger] r@[k])@ == user_texts(messages@.take(i as int))[k],
        decreases messages@.len() - i,
    {
        assert(messages@.take(i + 1).drop_last() =~= messages@.take(i as int));
        let role = str_chars(messages[i].role.as_str());
        if crate::text::chars_eq(&role, &user) {
            r.push(str_chars(messages[i].content.as_str()));
        }
        i += 1;
    }
    assert(messages@.take(messages@.len() as int) =~= messages@);
    r
}

/// Whether a text holds a newline.
fn holds_newline(v: &Vec<char>) -> (b: bool)
    ensures
        b == v@.contains('\n'),
{
    let mut i: usize = 0;
    while i < v.len()
        invariant
            i <= v@.len(),
            forall|k: int| 0 <= k < i ==> v@[k] != '\n',
        decreases v@.len() - i,
    {
        if v[i] == '\n' {
            assert(v@[i as int] == '\n');
            return true;
        }
        i += 1;
    }
    false
}

impl Prompt {
    /// An empty prompt.
    pub fn new() -> (p: Prompt)
        ensures
            p.line@ == empty_line(),
            p.palette_idx == 0,
            !p.esc_pending,
            p.history_idx is None,
            p.saved_input@ == Seq::<char>::empty(),
    {
        Prompt { line: InputLine::new(), palette_idx: 0, esc_pending: false, history_idx: None, saved_input: Vec::new() }
    }

    /// Text pasted at the prompt goes into the line, cleaned (see `pasted`);
    /// a pending Esc is forgotten and the palette's cursor goes back to its
    /// first entry.
    pub fn paste(&mut self, raw: &str)
        requires
            input_wf(old(self).line@),
        ensures
            final(self).line@ == pasted(old(self).line@, raw@),
            !final(self).esc_pending,
            final(self).palette_idx == 0,
            final(self).history_idx == old(self).history_idx,
            final(self).saved_input == old(self).saved_input,
    {
        self.line.paste_text(raw);
        self.esc_pending = false;
        self.palette_idx = 0;
    }

    /// Sets the line to a text, the cursor at its end, no paste block.
    fn set_line(&mut self, t: &Vec<char>)
        ensures
            final(self).line@ == line_of(t@),
            final(self).palette_idx == old(self).palette_idx,
            final(self).esc_pending == old(self).esc_pending,
            final(self).history_idx == old(self).history_idx,
            final(self).saved_input == old(self).saved_input,
    {
        self.line.text = t.clone();
        self.line.cursor = t.len();
        self.line.paste = None;
    }

    /// What a key does at the prompt while no reply streams in; true when the
    /// line is to be sent.
    ///
    /// With the palette open, Up and Down move over its entries (wrapping)
    /// and Enter takes the entry into the line. Otherwise Up and Down go back
    /// and forth through the user's earlier messages (Up only on a line
    /// without newlines). Esc clears the line when the palette is open or on
    /// a second press, and otherwise arms that second press. Enter sends a
    /// line that holds more than whitespace. The editing keys edit the line.
    pub fn handle_key(&mut self, code: KeyCode, messages: &Vec<ChatMessage>) -> (send: bool)
        requires
            input_wf(old(self).line@),
        ensures
            send == (code == KeyCode::Enter && !is_blank(final(self).line@.text)),
            ({
                let v = old(self).line@;
                let cmds = palette(v.text);
                let users = user_texts(messages@);
                match code {
                    KeyCode::Up => if cmds.len() > 0 {
                        final(self).palette_idx == (if old(self).palette_idx > 0 {
                            (old(self).palette_idx - 1) as usize
                        } else {
                            (cmds.len() - 1) as usize
                        }) && final(self).line@ == v
                    } else if !v.text.contains('\n') && users.len() > 0 {
                        let idx: int = match old(self).history_idx {
                            Some(i) => if i > 0 { i - 1 } else { i as int },
                            None => users.len() - 1,
                        };
                        &&& final(self).history_idx == Some(idx as usize)
                        &&& final(self).line@ == (if idx < users.len() { line_of(users[idx]) } else { v })
                        &&& old(self).history_idx is None ==> final(self).saved_input@ == v.text
                    } else {
                        final(self).line@ == v && final(self).history_idx == old(self).history_idx
                    },
                    KeyCode::Down => if cmds.len() > 0 {
                        final(self).palette_idx == ((old(self).palette_idx + 1) % (cmds.len() as int)) as usize
                            && final(self).line@ == v
                    } else if old(self).history_idx is Some {
                        let i = old(self).history_idx->0;
                        if i + 1 < users.len() {
                            final(self).history_idx == Some((i + 1) as usize) && final(self).line@ == line_of(users[i + 1])
                        } else {
                            final(self).history_idx is None && final(self).line@ == line_of(old(self).saved_input@)
                        }
                    } else {
                        final(self).line@ == v
                    },
                    KeyCode::Esc => if (cmds.len() > 0 && !old(self).esc_pending) || old(self).esc_pending {
                        final(self).line@ == empty_line() && final(self).palette_idx == 0 && !final(self).esc_pending
                    } else {
                        final(self).line@ == v && final(self).esc_pending == (v.text.len() > 0 || old(self).esc_pending)
                    },
                    KeyCode::Enter => if cmds.len() > 0 {
                        final(self).line@ == (InputView {
                            text: cmds[if old(self).palette_idx < cmds.len() { old(self).palette_idx as int } else { cmds.len() - 1 }].0,
                            cursor: cmds[if old(self).palette_idx < cmds.len() { old(self).palette_idx as int } else { cmds.len() - 1 }].0.len(),
                            paste: v.paste,
                        }) && final(self).palette_idx == 0
                    } else {
                        final(self).line@ == v
                    },
                    KeyCode::Char(c) => final(self).line@ == typed(v, c) && final(self).palette_idx == 0
                        && !final(self).esc_pending,
                    KeyCode::Backspace => final(self).line@ == backspaced(v) && final(self).palette_idx == 0
                        && !final(self).esc_pending,
                    KeyCode::Left => final(self).line@ == moved_left(v),
                    KeyCode::Right => final(self).line@ == moved_right(v),
                    KeyCode::Home => final(self).line@ == (InputView { cursor: 0, ..v }),
                    KeyCode::End => final(self).line@ == (InputView { cursor: v.text.len(), ..v }),
                    _ => final(self).line@ == v,
                }
            }),
    {
        let text = chars_to_string(&self.line.text);
        let cmds = filtered_commands(text.as_str());
        let has_palette = cmds.len() > 0;
        let ghost users = user_texts(messages@);
        match code {
            KeyCode::Up => {
                if has_palette {
                    if self.palette_idx > 0 {
                        self.palette_idx -= 1;
                    } else {
                        self.palette_idx = cmds.len() - 1;
                    }
                } else if !holds_newline(&self.line.text) {
                    let texts = user_message_texts(messages);
                    let count = texts.len();
                    if count > 0 {
                        let idx = match self.history_idx {
                            None => {
                                self.saved_input = self.line.text.clone();
                                count - 1
                            },
                            Some(idx) => {
                                if idx > 0 {
                                    idx - 1
                                } else {
                                    idx
                                }
                            },
                        };
                        self.history_idx = Some(idx);
                        if idx < count {
                            self.set_line(&texts[idx]);
                        }
                    }
                }
            },
            KeyCode::Down => {
                if has_palette {
                    let n = cmds.len();
                    proof {
                        vstd::arithmetic::div_mod::lemma_add_mod_noop(self.palette_idx as int, 1, n as int);
                        vstd::arithmetic::div_mod::lemma_mod_bound(self.palette_idx as int, n as int);
                        if n > 1 {
                            vstd::arithmetic::div_mod::lemma_small_mod(1, n as nat);
                        }
                    }
                    self.palette_idx = (self.palette_idx % n + if n > 1 { 1 } else { 0 }) % n;
                } else {
                    match self.history_idx {
                        Some(idx) => {
                            let texts = user_message_texts(messages);
                            let count = texts.len();
                            if count > 0 && idx < count - 1 {
                                self.history_idx = Some(idx + 1);
                                self.set_line(&texts[idx + 1]);
                            } else {
                                self.history_idx = None;
                                let saved = self.saved_input.clone();
                                self.set_line(&saved);
                            }
                        },
                        None => {},
                    }
                }
            },
            KeyCode::Esc => {
                if (has_palette && !self.esc_pending) || self.esc_pending {
                    self.line = InputLine::new();
                    self.palette_idx = 0;
                    self.esc_pending = false;
                } else if self.line.text.len() > 0 {
                    self.esc_pending = true;
                }
            },
            KeyCode::Enter => {
                if has_palette {
                    let idx = if self.palette_idx < cmds.len() {
                        self.palette_idx
                    } else {
                        cmds.len() - 1
                    };
                    self.line.text = str_chars(cmds[idx].0);
                    self.line.cursor = self.line.text.len();
                    self.palette_idx = 0;
                }
            },
            KeyCode::Char(c) => {
                self.line.insert_char(c);
                self.palette_idx = 0;
                self.esc_pending = false;
            },
            KeyCode::Backspace => {
                self.line.backspace();
                self.palette_idx = 0;
                self.esc_pending = false;
            },
            KeyCode::Left => self.line.move_left(),
            KeyCode::Right => self.line.move_right(),
            KeyCode::Home => self.line.home(),
            KeyCode::End => self.line.end(),
            _ => {},
        }
        code == KeyCode::Enter && !blank_text(&self.line.text)
    }
}

} // verus!
