//! A one-line summary of what a tool is asked to do, for the approval prompt
//! and the chat.

use vstd::prelude::*;
use crate::text::{append_chars, append_decimal, append_str, chars_eq, chars_to_string, decimal_chars, str_chars};
use crate::utf8::{chars_within, utf8_fit, utf8_len};

verus! {

/// What a tool call's input holds, as far as its summary reads it: each
/// field is there when the input has it as a string (a number for `offset`,
/// a boolean for `replace_all`).
pub struct ToolInput {
    pub command: Option<String>,
    pub file_path: Option<String>,
    /// The line a read starts from.
    pub offset: Option<u64>,
    /// How many bytes the content to write takes.
    pub content_bytes: Option<usize>,
    pub replace_all: Option<bool>,
    pub pattern: Option<String>,
    pub path: Option<String>,
    pub url: Option<String>,
    pub task: Option<String>,
    /// The whole input as compact JSON.
    pub json: String,
}

/// A text field by its value, or a default.
pub open spec fn field_or(f: Option<String>, default: Seq<char>) -> Seq<char> {
    match f {
        Some(s) => s@,
        None => default,
    }
}

/// A text cut to the characters within `max` bytes, with a mark after it,
/// when it takes more than `max` bytes.
pub open spec fn clipped(s: Seq<char>, max: nat, mark: Seq<char>) -> Seq<char> {
    if utf8_len(s) > max {
        s.take(chars_within(s, max) as int) + mark
    } else {
        s
    }
}

/// Produce a human-readable one-liner for the tool call input
pub open spec fn tool_input_summary(name: Seq<char>, input: ToolInput) -> Seq<char> {
    if name == "Bash"@ {
        field_or(input.command, "(no command)"@)
    } else if name == "ReadFiles"@ {
        field_or(input.file_path, "?"@) + match input.offset {
            Some(o) => " (from line "@ + decimal_chars(o as nat) + ")"@,
            None => seq![],
        }
    } else if name == "WriteFile"@ {
        field_or(input.file_path, "?"@) + " ("@ + decimal_chars(
            match input.content_bytes {
                Some(n) => n as nat,
                None => 0,
            },
        ) + " bytes)"@
    } else if name == "EditFile"@ {
        field_or(input.file_path, "?"@) + (if input.replace_all == Some(true) {
            " (replace all)"@
        } else {
            seq![]
        })
    } else if name == "Grep"@ {
        field_or(input.pattern, "?"@) + " in "@ + field_or(input.path, "."@)
    } else if name == "Glob"@ {
        field_or(input.pattern, "?"@)
    } else if name == "WebFetch"@ {
        field_or(input.url, "?"@)
    } else if name == "Explore"@ || name == "SubAgent"@ {
        clipped(field_or(input.task, "?"@), 80, "…"@)
    } else {
        // Fallback: compact JSON
        clipped(input.json@, 200, "..."@)
    }
}

/// A text field's characters, or the default's.
fn field_chars(f: &Option<String>, default: &str) -> (r: Vec<char>)
    ensures
        r@ == field_or(*f, default@),
{
    match f {
        Some(s) => str_chars(s.as_str()),
        None => str_chars(default),
    }
}

/// Cuts a text to the characters within `max` bytes and puts the mark
/// after it, when it takes more (see `clipped`).
pub(crate) fn clip(t: Vec<char>, max: usize, mark: &str) -> (r: Vec<char>)
    requires
        max <= 0x10000,
    ensures
        r@ == clipped(t@, max as nat, mark@),
{
    let (long, fit) = utf8_fit(&t, max);
    if long {
        let mut out: Vec<char> = Vec::new();
        let mut i: usize = 0;
        while i < fit
            invariant
                i <= fit <= t@.len(),
                out@ == t@.take(i as int),
            decreases fit - i,
        {
            out.push(t[i]);
            assert(out@ =~= t@.take(i + 1));
            i += 1;
        }
        append_str(&mut out, mark);
        out
    } else {
        t
    }
}

/// Whether a name is this literal.
fn is_named(name: &Vec<char>, lit: &str) -> (b: bool)
    ensures
        b == (name@ == lit@),
{
    let l = str_chars(lit);
    chars_eq(name, &l)
}

/// Produce a human-readable one-liner for the tool call input
pub fn summarize_tool_input(name: &str, input: &ToolInput) -> (r: String)
    ensures
        r@ == tool_input_summary(name@, *input),
{
    let n = str_chars(name);
    let out = if is_named(&n, "Bash") {
        field_chars(&input.command, "(no command)")
    } else if is_named(&n, "ReadFiles") {
        let mut s = field_chars(&input.file_path, "?");
        match input.offset {
            Some(offset) => {
                append_str(&mut s, " (from line ");
                append_decimal(&mut s, offset);
                append_str(&mut s, ")");
            },
            None => {},
        }
        s
    } else if is_named(&n, "WriteFile") {
        let mut s = field_chars(&input.file_path, "?");
        let len: usize = match input.content_bytes {
            Some(b) => b,
            None => 0,
        };
        append_str(&mut s, " (");
        append_decimal(&mut s, len as u64);
        append_str(&mut s, " bytes)");
        s
    } else if is_named(&n, "EditFile") {
        let mut s = field_chars(&input.file_path, "?");
        let replace_all = match input.replace_all {
            Some(b) => b,
            None => false,
        };
        if replace_all {
            append_str(&mut s, " (replace all)");
        }
        s
    } else if is_named(&n, "Grep") {
        let mut s = field_chars(&input.pattern, "?");
        append_str(&mut s, " in ");
        let p = field_chars(&input.path, ".");
        append_chars(&mut s, &p);
        s
    } else if is_named(&n, "Glob") {
        field_chars(&input.pattern, "?")
    } else if is_named(&n, "WebFetch") {
        field_chars(&input.url, "?")
    } else if is_named(&n, "Explore") || is_named(&n, "SubAgent") {
        let task = field_chars(&input.task, "?");
        clip(task, 80, "…")
    } else {
        // Fallback: compact JSON
        let s = str_chars(input.json.as_str());
        clip(s, 200, "...")
    };
    chars_to_string(&out)
}

/// The chat line of a tool call: "● name(summary)".
pub open spec fn tool_call_text(name: Seq<char>, input: ToolInput) -> Seq<char> {
    "● "@ + name + "("@ + tool_input_summary(name, input) + ")"@
}

/// The chat line of a tool call (see `tool_call_text`).
pub fn tool_call_line(name: &str, input: &ToolInput) -> (r: String)
    ensures
        r@ == tool_call_text(name@, *input),
{
    let summary = summarize_tool_input(name, input);
    let mut text = str_chars("● ");
    append_str(&mut text, name);
    append_str(&mut text, "(");
    append_str(&mut text, summary.as_str());
    append_str(&mut text, ")");
    chars_to_string(&text)
}

} // verus!
