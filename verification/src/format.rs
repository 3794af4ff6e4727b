//! Compact one-line (or few-line) summaries of tool results and progress,
//! as the chat view shows them.

use vstd::prelude::*;
use crate::text::{
    append_chars, append_decimal, append_str, blank_text, chars_eq, chars_start_with,
    chars_to_string, decimal_chars, is_blank, lines, normalize_spaces, normalize_whitespace,
    split_lines, starts_with, str_chars, trim_end, trim_end_chars,
};

verus! {

/// How many characters a result preview keeps.
pub const TOOL_RESULT_PREVIEW_CHARS: usize = 240;

/// How many characters a progress preview keeps.
pub const TOOL_PROGRESS_PREVIEW_CHARS: usize = 240;

/// The marker in front of a tool's output.
pub open spec fn result_mark() -> Seq<char> {
    "  ⎿  "@
}

/// The marker in front of a failed tool's output.
pub open spec fn error_mark() -> Seq<char> {
    "  ⎿  ✗ "@
}

/// What stands for a tool's output when there is none.
pub open spec fn no_output() -> Seq<char> {
    "  ⎿  (no output)"@
}

/// The lines of a text that hold more than whitespace.
pub open spec fn nonblank_lines(ls: Seq<Seq<char>>) -> Seq<Seq<char>>
    decreases ls.len(),
{
    if ls.len() == 0 {
        seq![]
    } else {
        let rest = nonblank_lines(ls.drop_last());
        if is_blank(ls.last()) {
            rest
        } else {
            rest.push(ls.last())
        }
    }
}

/// The lines after the first, each on a new line indented under it.
pub open spec fn continuation_lines(ls: Seq<Seq<char>>) -> Seq<char>
    decreases ls.len(),
{
    if ls.len() == 0 {
        seq![]
    } else {
        continuation_lines(ls.drop_last()) + "\n     "@ + ls.last()
    }
}

/// A tool's output: its non-blank lines, the first after the marker (the
/// error marker for a failure), the others indented under it.
pub open spec fn tool_result_text(content: Seq<char>, is_error: bool) -> Seq<char> {
    let ls = nonblank_lines(lines(content));
    if ls.len() == 0 {
        no_output()
    } else {
        (if is_error { error_mark() } else { result_mark() }) + ls[0] + continuation_lines(ls.skip(1))
    }
}

/// A one-line preview: the words joined by single spaces, and when longer
/// than `max` characters, the first `max` of them (trailing whitespace
/// dropped) followed by `...`.
pub open spec fn preview_text(content: Seq<char>, max: nat) -> Seq<char> {
    let normalized = normalize_whitespace(content);
    if normalized.len() == 0 {
        seq![]
    } else if normalized.len() <= max {
        normalized
    } else {
        trim_end(normalized.take(max as int)) + "..."@
    }
}

/// The preview after the marker, or the no-output text.
pub open spec fn marked_preview(content: Seq<char>, max: nat) -> Seq<char> {
    let p = preview_text(content, max);
    if p.len() == 0 {
        no_output()
    } else {
        result_mark() + p
    }
}

/// A tool result as the chat shows it, by tool name.
pub open spec fn tool_result_named_text(name: Seq<char>, content: Seq<char>, is_error: bool) -> Seq<char> {
    if is_error {
        tool_result_text(content, true)
    } else if name == "ReadFiles"@ {
        result_mark() + decimal_chars(lines(content).len()) + " lines"@
    } else if name == "Grep"@ {
        if content == "No matches found."@ {
            "  ⎿  No matches found."@
        } else {
            result_mark() + decimal_chars(nonblank_lines(lines(content)).len()) + " results"@
        }
    } else if name == "Glob"@ {
        if starts_with(content, "No files"@) {
            result_mark() + content
        } else {
            result_mark() + decimal_chars(nonblank_lines(lines(content)).len()) + " files"@
        }
    } else if name == "WebFetch"@ || name == "WebSearch"@ || name == "Bash"@ {
        marked_preview(content, TOOL_RESULT_PREVIEW_CHARS as nat)
    } else {
        tool_result_text(content, false)
    }
}

/// Tool progress as the chat shows it, by tool name.
pub open spec fn tool_progress_named_text(name: Seq<char>, content: Seq<char>) -> Seq<char> {
    if name == "WebFetch"@ || name == "WebSearch"@ || name == "Bash"@ {
        marked_preview(content, TOOL_PROGRESS_PREVIEW_CHARS as nat)
    } else {
        result_mark() + content
    }
}

/// Keeps the lines that hold more than whitespace.
fn keep_nonblank(ls: &Vec<Vec<char>>) -> (res: Vec<Vec<char>>)
    ensures
        res@.map_values(|l: Vec<char>| l@) == nonblank_lines(ls@.map_values(|l: Vec<char>| l@)),
{
    let ghost all = ls@.map_values(|l: Vec<char>| l@);
    let mut res: Vec<Vec<char>> = Vec::new();
    let mut i: usize = 0;
    while i < ls.len()
        invariant
            i <= ls@.len(),
            all == ls@.map_values(|l: Vec<char>| l@),
            res@.map_values(|l: Vec<char>| l@) == nonblank_lines(all.take(i as int)),
        decreases ls@.len() - i,
    {
        proof {
            assert(all.take(i + 1).drop_last() =~= all.take(i as int));
        }
        if !blank_text(&ls[i]) {
            let ghost r0 = res@.map_values(|l: Vec<char>| l@);
            let line = ls[i].clone();
            let ghost lv = line@;
            res.push(line);
            assert(res@.map_values(|l: Vec<char>| l@) =~= r0.push(lv));
        }
        i += 1;
    }
    assert(all.take(ls@.len() as int) =~= all);
    res
}

/// The non-blank line count of a text, as `lines().filter(..).count()` gives it.
fn nonblank_line_count(content: &Vec<char>) -> (n: usize)
    ensures
        n == nonblank_lines(lines(content@)).len(),
{
    let ls = split_lines(content);
    let kept = keep_nonblank(&ls);
    kept.len()
}

/// Format tool result with ⎿ prefix on each line
pub fn format_tool_result(content: &str, is_error: bool) -> (res: String)
    ensures
        res@ == tool_result_text(content@, is_error),
{
    let text = str_chars(content);
    let out = tool_result_chars(&text, is_error);
    chars_to_string(&out)
}

fn tool_result_chars(content: &Vec<char>, is_error: bool) -> (out: Vec<char>)
    ensures
        out@ == tool_result_text(content@, is_error),
{
    // Filter out blank lines to avoid visual gaps from stderr/stdout interleaving
    let all = split_lines(content);
    let ls = keep_nonblank(&all);
    let mut out: Vec<char> = Vec::new();
    if ls.len() == 0 {
        append_str(&mut out, "  ⎿  (no output)");
        return out;
    }
    let ghost lsv = ls@.map_values(|l: Vec<char>| l@);
    if is_error {
        append_str(&mut out, "  ⎿  ✗ ");
    } else {
        append_str(&mut out, "  ⎿  ");
    }
    append_chars(&mut out, &ls[0]);
    let ghost head = out@;
    let mut i: usize = 1;
    while i < ls.len()
        invariant
            1 <= i <= ls@.len(),
            lsv == ls@.map_values(|l: Vec<char>| l@),
            out@ == head + continuation_lines(lsv.skip(1).take(i - 1)),
        decreases ls@.len() - i,
    {
        proof {
            assert(lsv.skip(1).take(i as int).drop_last() =~= lsv.skip(1).take(i - 1));
        }
        append_str(&mut out, "\n     ");
        append_chars(&mut out, &ls[i]);
        assert(out@ =~= head + continuation_lines(lsv.skip(1).take(i as int)));
        i += 1;
    }
    assert(lsv.skip(1).take(ls@.len() - 1) =~= lsv.skip(1));
    out
}

/// A one-line preview of at most `max_chars` characters (plus `...`).
fn single_line_preview(content: &Vec<char>, max_chars: usize) -> (res: Vec<char>)
    ensures
        res@ == preview_text(content@, max_chars as nat),
{
    let normalized = normalize_spaces(content);
    if normalized.len() == 0 {
        return Vec::new();
    }
    if normalized.len() <= max_chars {
        return normalized;
    }
    let mut truncated: Vec<char> = Vec::new();
    let mut i: usize = 0;
    while i < max_chars
        invariant
            i <= max_chars < normalized@.len(),
            truncated@ == normalized@.take(i as int),
        decreases max_chars - i,
    {
        truncated.push(normalized[i]);
        assert(truncated@ =~= normalized@.take(i + 1));
        i += 1;
    }
    trim_end_chars(&mut truncated);
    append_str(&mut truncated, "...");
    truncated
}

/// The preview after the marker, or the no-output text.
fn marked_preview_chars(content: &Vec<char>, max_chars: usize) -> (out: Vec<char>)
    ensures
        out@ == marked_preview(content@, max_chars as nat),
{
    let preview = single_line_preview(content, max_chars);
    let mut out: Vec<char> = Vec::new();
    if preview.len() == 0 {
        append_str(&mut out, "  ⎿  (no output)");
    } else {
        append_str(&mut out, "  ⎿  ");
        append_chars(&mut out, &preview);
    }
    out
}

pub fn format_web_preview(content: &str) -> (res: String)
    ensures
        res@ == marked_preview(content@, TOOL_RESULT_PREVIEW_CHARS as nat),
{
    let text = str_chars(content);
    chars_to_string(&marked_preview_chars(&text, TOOL_RESULT_PREVIEW_CHARS))
}

pub fn format_bash_preview(content: &str) -> (res: String)
    ensures
        res@ == marked_preview(content@, TOOL_RESULT_PREVIEW_CHARS as nat),
{
    let text = str_chars(content);
    chars_to_string(&marked_preview_chars(&text, TOOL_RESULT_PREVIEW_CHARS))
}

pub fn format_progress_preview(content: &str) -> (res: String)
    ensures
        res@ == marked_preview(content@, TOOL_PROGRESS_PREVIEW_CHARS as nat),
{
    let text = str_chars(content);
    chars_to_string(&marked_preview_chars(&text, TOOL_PROGRESS_PREVIEW_CHARS))
}

/// A name equal to a given literal.
fn name_is(name: &Vec<char>, lit: &str) -> (b: bool)
    ensures
        b == (name@ == lit@),
{
    let l = str_chars(lit);
    chars_eq(name, &l)
}

/// Format tool result with tool-aware compact summaries.
/// ReadFile/Grep/Glob show a one-line summary instead of content.
pub fn format_tool_result_named(name: &str, content: &str, is_error: bool) -> (res: String)
    ensures
        res@ == tool_result_named_text(name@, content@, is_error),
{
    let n = str_chars(name);
    let text = str_chars(content);
    if is_error {
        return chars_to_string(&tool_result_chars(&text, true));
    }
    let mut out: Vec<char> = Vec::new();
    if name_is(&n, "ReadFiles") {
        let line_count = split_lines(&text).len();
        append_str(&mut out, "  ⎿  ");
        append_decimal(&mut out, line_count as u64);
        append_str(&mut out, " lines");
    } else if name_is(&n, "Grep") {
        if name_is(&text, "No matches found.") {
            append_str(&mut out, "  ⎿  No matches found.");
        } else {
            let match_count = nonblank_line_count(&text);
            append_str(&mut out, "  ⎿  ");
            append_decimal(&mut out, match_count as u64);
            append_str(&mut out, " results");
        }
    } else if name_is(&n, "Glob") {
        let prefix = str_chars("No files");
        if chars_start_with(&text, &prefix) {
            append_str(&mut out, "  ⎿  ");
            append_chars(&mut out, &text);
        } else {
            let file_count = nonblank_line_count(&text);
            append_str(&mut out, "  ⎿  ");
            append_decimal(&mut out, file_count as u64);
            append_str(&mut out, " files");
        }
    } else if name_is(&n, "WebFetch") || name_is(&n, "WebSearch") || name_is(&n, "Bash") {
        out = marked_preview_chars(&text, TOOL_RESULT_PREVIEW_CHARS);
    } else {
        out = tool_result_chars(&text, false);
    }
    chars_to_string(&out)
}

pub fn format_tool_progress_named(name: &str, content: &str) -> (res: String)
    ensures
        res@ == tool_progress_named_text(name@, content@),
{
    let n = str_chars(name);
    let text = str_chars(content);
    if name_is(&n, "WebFetch") || name_is(&n, "WebSearch") || name_is(&n, "Bash") {
        chars_to_string(&marked_preview_chars(&text, TOOL_PROGRESS_PREVIEW_CHARS))
    } else {
        let mut out: Vec<char> = Vec::new();
        append_str(&mut out, "  ⎿  ");
        append_chars(&mut out, &text);
        chars_to_string(&out)
    }
}

} // verus!
