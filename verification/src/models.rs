//! Choosing a model: the model picker, the reasoning-effort picker that
//! codex models go through, and what each shows.

use vstd::prelude::*;
use crate::keys::KeyCode;
use crate::overlays::strings_view;
use crate::text::{append_decimal, append_str, chars_eq, chars_to_string, decimal_chars, str_chars};
use crate::widgets::{Span, Tone, lines_view, padded, pad, push_line, push_span, span, span_of, spans_view};

verus! {

/// Interactive model picker state
pub struct ModelPicker {
    /// "provider:model" entries.
    pub models: Vec<String>,
    pub selected: usize,
    /// The entry in use.
    pub current: String,
}

/// The cursor starts on the first entry equal to the one in use, or on the
/// first entry when none is.
pub open spec fn preselected(models: Seq<Seq<char>>, current: Seq<char>, selected: nat) -> bool {
    ||| (selected < models.len() && models[selected as int] == current && forall|k: int|
        0 <= k < selected ==> models[k] != current)
    ||| (selected == 0 && !models.contains(current))
}

/// What a key asks of the model picker.
#[derive(Debug, Clone, Copy, PartialEq, Eq, Structural)]
pub enum ModelAction {
    Stay,
    /// Switch to the entry at this index.
    Choose(usize),
    /// Make the entry at this index the default and switch to it.
    SetDefault(usize),
    Close,
}

impl ModelPicker {
    /// The picker over these entries, the cursor on the one in use (on the
    /// first when it is not among them).
    pub fn new(models: Vec<String>, current: String) -> (p: ModelPicker)
        ensures
            strings_view(p.models@) == strings_view(models@),
            p.current@ == current@,
            preselected(strings_view(models@), current@, p.selected as nat),
    {
        let ghost mv = strings_view(models@);
        let c = str_chars(current.as_str());
        let mut i: usize = 0;
        while i < models.len()
            invariant
                i <= models@.len(),
                mv == strings_view(models@),
                c@ == current@,
                forall|k: int| 0 <= k < i ==> mv[k] != current@,
            decreases models@.len() - i,
        {
            let m = str_chars(models[i].as_str());
            if chars_eq(&m, &c) {
                return ModelPicker { models, selected: i, current };
            }
            i += 1;
        }
        assert(!mv.contains(current@));
        ModelPicker { models, selected: 0, current }
    }
}

/// What a key does in the model picker (see `ModelAction`): Up and Down
/// move the cursor over the entries, Enter chooses the entry, 'd' makes it
/// the default, Esc closes.
pub fn model_picker_key(picker: &mut ModelPicker, code: KeyCode) -> (a: ModelAction)
    ensures
        final(picker).models == old(picker).models,
        final(picker).current == old(picker).current,
        a == match code {
            KeyCode::Enter => ModelAction::Choose(old(picker).selected),
            KeyCode::Char('d') => ModelAction::SetDefault(old(picker).selected),
            KeyCode::Esc => ModelAction::Close,
            _ => ModelAction::Stay,
        },
        final(picker).selected == match code {
            KeyCode::Up => if old(picker).selected > 0 { (old(picker).selected - 1) as usize } else { old(picker).selected },
            KeyCode::Down => if old(picker).selected + 1 < old(picker).models@.len() {
                (old(picker).selected + 1) as usize
            } else {
                old(picker).selected
            },
            _ => old(picker).selected,
        },
{
    match code {
        KeyCode::Up => {
            if picker.selected > 0 {
                picker.selected -= 1;
            }
            ModelAction::Stay
        },
        KeyCode::Down => {
            if picker.models.len() > 0 && picker.selected < picker.models.len() - 1 {
                picker.selected += 1;
            }
            ModelAction::Stay
        },
        KeyCode::Enter => ModelAction::Choose(picker.selected),
        KeyCode::Char('d') => ModelAction::SetDefault(picker.selected),
        KeyCode::Esc => ModelAction::Close,
        _ => ModelAction::Stay,
    }
}

// ── Choosing an entry ───────────────────────────────────────────────────

/// An entry cut at its first ':' into provider and model.
pub open spec fn split_colon(s: Seq<char>) -> Option<(Seq<char>, Seq<char>)>
    decreases s.len(),
{
    if s.len() == 0 {
        None
    } else if s[0] == ':' {
        Some((seq![], s.drop_first()))
    } else {
        match split_colon(s.drop_first()) {
            Some((a, b)) => Some((seq![s[0]] + a, b)),
            None => None,
        }
    }
}

/// What choosing an entry leads to.
#[derive(Debug, Clone, PartialEq, Eq)]
pub enum ModelChoice {
    /// The entry has no ':' between provider and model.
    Invalid,
    /// A codex model: choose the reasoning effort first, starting on this
    /// level.
    ChooseEffort(usize),
    /// Switch to the entry now.
    Switch,
}

/// The level the effort picker starts on for the effort in use (medium when
/// none is): low 0, medium 1, high 2, extra high 3.
pub open spec fn effort_index(effort: Option<Seq<char>>) -> usize {
    match effort {
        Some(e) => if e == "low"@ {
            0
        } else if e == "high"@ {
            2
        } else if e == "extra_high"@ {
            3
        } else {
            1
        },
        None => 1,
    }
}

/// Splits an entry at its first ':' (see `split_colon`).
pub fn split_entry(s: &str) -> (r: Option<(Vec<char>, Vec<char>)>)
    ensures
        match r {
            Some((a, b)) => split_colon(s@) == Some((a@, b@)),
            None => split_colon(s@) is None,
        },
{
    let t = str_chars(s);
    let mut i: usize = 0;
    while i < t.len() && t[i] != ':'
        invariant
            i <= t@.len(),
            t@ == s@,
            forall|k: int| 0 <= k < i ==> t@[k] != ':',
        decreases t@.len() - i,
    {
        i += 1;
    }
    proof {
        lemma_split_colon(t@, i as int);
    }
    if i == t.len() {
        return None;
    }
    let mut a: Vec<char> = Vec::new();
    let mut k: usize = 0;
    while k < i
        invariant
            k <= i < t@.len(),
            a@ == t@.take(k as int),
        decreases i - k,
    {
        a.push(t[k]);
        assert(a@ =~= t@.take(k + 1));
        k += 1;
    }
    let mut b: Vec<char> = Vec::new();
    let mut j: usize = i + 1;
    while j < t.len()
        invariant
            i < j <= t@.len(),
            b@ == t@.subrange(i + 1, j as int),
        decreases t@.len() - j,
    {
        b.push(t[j]);
        assert(b@ =~= t@.subrange(i + 1, j + 1));
        j += 1;
    }
    assert(t@.subrange(i + 1, t@.len() as int) =~= t@.skip(i + 1));
    Some((a, b))
}

proof fn lemma_split_colon(s: Seq<char>, i: int)
    requires
        0 <= i <= s.len(),
        forall|k: int| 0 <= k < i ==> s[k] != ':',
        i == s.len() || s[i] == ':',
    ensures
        i == s.len() ==> split_colon(s) is None,
        i < s.len() ==> split_colon(s) == Some((s.take(i), s.skip(i + 1))),
    decreases s.len(),
{
    if s.len() > 0 && i > 0 {
        lemma_split_colon(s.drop_first(), i - 1);
        if i < s.len() {
            assert(seq![s[0]] + s.drop_first().take(i - 1) =~= s.take(i));
            assert(s.drop_first().skip(i) =~= s.skip(i + 1));
        }
    } else if s.len() > 0 {
        assert(s.take(0) =~= Seq::<char>::empty());
        assert(s.drop_first() =~= s.skip(1));
    }
}

/// What choosing an entry leads to, the reasoning effort in use given:
/// an entry without ':' is invalid; the "openai-codex" provider goes
/// through the effort picker; any other switches now.
pub fn choose_model(entry: &str, effort: Option<&str>) -> (r: ModelChoice)
    ensures
        r == match split_colon(entry@) {
            None => ModelChoice::Invalid,
            Some((provider, _)) => if provider == "openai-codex"@ {
                ModelChoice::ChooseEffort(effort_index(crate::chat::opt_view(effort)))
            } else {
                ModelChoice::Switch
            },
        },
{
    match split_entry(entry) {
        None => ModelChoice::Invalid,
        Some((provider, _)) => {
            let codex = str_chars("openai-codex");
            if chars_eq(&provider, &codex) {
                let idx: usize = match effort {
                    // medium when none is in use
                    None => 1,
                    Some(current) => {
                        let e = str_chars(current);
                        let low = str_chars("low");
                        let high = str_chars("high");
                        let extra = str_chars("extra_high");
                        if chars_eq(&e, &low) {
                            0
                        } else if chars_eq(&e, &high) {
                            2
                        } else if chars_eq(&e, &extra) {
                            3
                        } else {
                            1
                        }
                    },
                };
                assert(idx == effort_index(crate::chat::opt_view(effort)));
                ModelChoice::ChooseEffort(idx)
            } else {
                ModelChoice::Switch
            }
        },
    }
}

// ── Reasoning effort ────────────────────────────────────────────────────

/// The reasoning levels: value, label and description.
pub open spec fn effort_levels() -> Seq<(Seq<char>, Seq<char>, Seq<char>)> {
    seq![
        ("low"@, "Low"@, "Fast responses with lighter reasoning"@),
        ("medium"@, "Medium (default)"@, "Balances speed and reasoning depth"@),
        ("high"@, "High"@, "Greater reasoning depth for complex problems"@),
        ("extra_high"@, "Extra high"@, "Maximum reasoning depth"@),
    ]
}

/// The reasoning levels.
pub fn effort_level_list() -> (v: Vec<(&'static str, &'static str, &'static str)>)
    ensures
        v@.len() == 4,
        forall|i: int| 0 <= i < 4 ==> (#[trigger] v@[i]).0@ == effort_levels()[i].0 && v@[i].1@ == effort_levels()[i].1
            && v@[i].2@ == effort_levels()[i].2,
{
    vec![
        ("low", "Low", "Fast responses with lighter reasoning"),
        ("medium", "Medium (default)", "Balances speed and reasoning depth"),
        ("high", "High", "Greater reasoning depth for complex problems"),
        ("extra_high", "Extra high", "Maximum reasoning depth"),
    ]
}

/// Reasoning effort picker state
pub struct ReasoningPicker {
    /// The "provider:model" entry the effort is for.
    pub model_entry: String,
    /// The level under the cursor, 0 to 3.
    pub selected: usize,
}

/// What a key asks of the reasoning picker.
#[derive(Debug, Clone, PartialEq, Eq)]
pub enum ReasoningAction {
    Stay,
    /// Switch to the model with this effort.
    Apply(String),
    Close,
}

/// What a key does in the reasoning picker: Up and Down move over the four
/// levels, Enter switches with the level's effort, Esc closes.
pub fn reasoning_picker_key(picker: &mut ReasoningPicker, code: KeyCode) -> (a: ReasoningAction)
    requires
        old(picker).selected < 4,
    ensures
        final(picker).selected < 4,
        final(picker).model_entry == old(picker).model_entry,
        final(picker).selected == match code {
            KeyCode::Up => if old(picker).selected > 0 { (old(picker).selected - 1) as usize } else { old(picker).selected },
            KeyCode::Down => if old(picker).selected + 1 < 4 { (old(picker).selected + 1) as usize } else { old(picker).selected },
            _ => old(picker).selected,
        },
        match code {
            KeyCode::Enter => a matches ReasoningAction::Apply(e) && e@ == effort_levels()[old(picker).selected as int].0,
            KeyCode::Esc => a == ReasoningAction::Close,
            _ => a == ReasoningAction::Stay,
        },
{
    let levels = effort_level_list();
    match code {
        KeyCode::Up => {
            if picker.selected > 0 {
                picker.selected -= 1;
            }
            ReasoningAction::Stay
        },
        KeyCode::Down => {
            if picker.selected + 1 < levels.len() {
                picker.selected += 1;
            }
            ReasoningAction::Stay
        },
        KeyCode::Enter => {
            let (effort, _, _) = levels[picker.selected];
            ReasoningAction::Apply(effort.to_owned())
        },
        KeyCode::Esc => ReasoningAction::Close,
        _ => ReasoningAction::Stay,
    }
}

// ── What the pickers show ───────────────────────────────────────────────

/// The line of a model entry: pointer and number, the entry, and
/// "(current)" after the one in use.
pub open spec fn model_line(entry: Seq<char>, i: int, selected: bool, current: bool) -> Seq<(Seq<char>, Tone)> {
    let num = decimal_chars((i + 1) as nat) + ". "@;
    let suffix = if current { " (current)"@ } else { seq![] };
    if selected {
        seq![("▸ "@, Tone::Accent), (num, Tone::Accent), (entry, Tone::Strong), (suffix, Tone::Good)]
    } else {
        seq![("  "@, Tone::Dim), (num, Tone::Dim), (entry, Tone::Muted), (suffix, Tone::Good)]
    }
}

/// What the model picker shows: a header, a blank line, the entries.
pub open spec fn model_palette_view(models: Seq<Seq<char>>, selected: usize, current: Seq<char>) -> Seq<Seq<(Seq<char>, Tone)>> {
    seq![seq![("  Select Model"@, Tone::Accent), ("  (d = set as default)"@, Tone::Dim)], seq![]] + Seq::new(
        models.len(),
        |i: int| model_line(models[i], i, i == selected, models[i] == current),
    )
}

/// Builds what the model picker shows (see `model_palette_view`).
pub fn model_palette_lines(picker: &ModelPicker) -> (r: Vec<Vec<Span>>)
    requires
        picker.models@.len() < u64::MAX,
    ensures
        lines_view(r@) == model_palette_view(strings_view(picker.models@), picker.selected, picker.current@),
{
    let ghost mv = strings_view(picker.models@);
    let mut lines: Vec<Vec<Span>> = Vec::new();
    let mut header: Vec<Span> = Vec::new();
    push_span(&mut header, span("  Select Model", Tone::Accent));
    push_span(&mut header, span("  (d = set as default)", Tone::Dim));
    push_line(&mut lines, header);
    push_line(&mut lines, Vec::new());
    let ghost head = lines_view(lines@);
    let cur = str_chars(picker.current.as_str());
    let mut i: usize = 0;
    while i < picker.models.len()
        invariant
            i <= picker.models@.len() < u64::MAX,
            mv == strings_view(picker.models@),
            cur@ == picker.current@,
            lines_view(lines@) =~~= head + Seq::new(
                i as nat,
                |k: int| model_line(mv[k], k, k == picker.selected, mv[k] == picker.current@),
            ),
        decreases picker.models@.len() - i,
    {
        let is_selected = i == picker.selected;
        let entry = str_chars(picker.models[i].as_str());
        let is_current = chars_eq(&entry, &cur);
        let mut num: Vec<char> = Vec::new();
        append_decimal(&mut num, i as u64 + 1);
        append_str(&mut num, ". ");
        let suffix = if is_current { " (current)" } else { "" };
        let mut line: Vec<Span> = Vec::new();
        if is_selected {
            push_span(&mut line, span("▸ ", Tone::Accent));
            push_span(&mut line, span_of(&num, Tone::Accent));
            push_span(&mut line, span_of(&entry, Tone::Strong));
        } else {
            push_span(&mut line, span("  ", Tone::Dim));
            push_span(&mut line, span_of(&num, Tone::Dim));
            push_span(&mut line, span_of(&entry, Tone::Muted));
        }
        push_span(&mut line, span(suffix, Tone::Good));
        proof {
            if !is_current {
                reveal_strlit("");
            }
        }
        assert(spans_view(line@) =~~= model_line(mv[i as int], i as int, i == picker.selected, mv[i as int] == picker.current@));
        push_line(&mut lines, line);
        i += 1;
    }
    assert(lines_view(lines@) =~~= model_palette_view(mv, picker.selected, picker.current@));
    lines
}

/// The model's part of an entry ("provider:model"), or the whole entry.
pub open spec fn model_name(entry: Seq<char>) -> Seq<char> {
    match split_colon(entry) {
        Some((_, m)) => m,
        None => entry,
    }
}

/// The line of a reasoning level: pointer and number, its label padded to
/// 20 characters, its description.
pub open spec fn level_line(i: int, selected: bool) -> Seq<(Seq<char>, Tone)> {
    let num = decimal_chars((i + 1) as nat) + ". "@;
    let label = padded(effort_levels()[i].1, 20);
    let desc = effort_levels()[i].2;
    if selected {
        seq![("▸ "@, Tone::Accent), (num, Tone::Accent), (label, Tone::Strong), (desc, Tone::Muted)]
    } else {
        seq![("  "@, Tone::Dim), (num, Tone::Dim), (label, Tone::Muted), (desc, Tone::Dim)]
    }
}

/// What the reasoning picker shows: a header naming the model, a blank
/// line, the four levels.
pub open spec fn reasoning_palette_view(entry: Seq<char>, selected: usize) -> Seq<Seq<(Seq<char>, Tone)>> {
    seq![seq![("  Select Reasoning Level for "@ + model_name(entry), Tone::Accent)], seq![]] + Seq::new(
        4,
        |i: int| level_line(i, i == selected),
    )
}

/// Builds what the reasoning picker shows (see `reasoning_palette_view`).
pub fn reasoning_palette_lines(picker: &ReasoningPicker) -> (r: Vec<Vec<Span>>)
    ensures
        lines_view(r@) == reasoning_palette_view(picker.model_entry@, picker.selected),
{
    let mut lines: Vec<Vec<Span>> = Vec::new();
    // Header with model name
    let mut title = str_chars("  Select Reasoning Level for ");
    match split_entry(picker.model_entry.as_str()) {
        Some((_, m)) => crate::text::append_chars(&mut title, &m),
        None => append_str(&mut title, picker.model_entry.as_str()),
    }
    let mut header: Vec<Span> = Vec::new();
    push_span(&mut header, span_of(&title, Tone::Accent));
    push_line(&mut lines, header);
    push_line(&mut lines, Vec::new());
    let ghost head = lines_view(lines@);
    let levels = effort_level_list();
    let mut i: usize = 0;
    while i < levels.len()
        invariant
            i <= 4,
            levels@.len() == 4,
            forall|k: int| 0 <= k < 4 ==> (#[trigger] levels@[k]).0@ == effort_levels()[k].0 && levels@[k].1@
                == effort_levels()[k].1 && levels@[k].2@ == effort_levels()[k].2,
            lines_view(lines@) =~~= head + Seq::new(i as nat, |k: int| level_line(k, k == picker.selected)),
        decreases 4 - i,
    {
        let (_, label, desc) = levels[i];
        let is_selected = i == picker.selected;
        let mut num: Vec<char> = Vec::new();
        append_decimal(&mut num, i as u64 + 1);
        append_str(&mut num, ". ");
        let padded_label = pad(label, 20);
        let mut line: Vec<Span> = Vec::new();
        if is_selected {
            push_span(&mut line, span("▸ ", Tone::Accent));
            push_span(&mut line, span_of(&num, Tone::Accent));
            push_span(&mut line, span_of(&padded_label, Tone::Strong));
            push_span(&mut line, span(desc, Tone::Muted));
        } else {
            push_span(&mut line, span("  ", Tone::Dim));
            push_span(&mut line, span_of(&num, Tone::Dim));
            push_span(&mut line, span_of(&padded_label, Tone::Muted));
            push_span(&mut line, span(desc, Tone::Dim));
        }
        assert(spans_view(line@) =~~= level_line(i as int, i == picker.selected));
        push_line(&mut lines, line);
        i += 1;
    }
    assert(lines_view(lines@) =~~= reasoning_palette_view(picker.model_entry@, picker.selected));
    lines
}

/// "Switched to {entry}", with " (reasoning: {effort})" when an effort was
/// chosen.
pub open spec fn switch_text(entry: Seq<char>, effort: Option<Seq<char>>) -> Seq<char> {
    "Switched to "@ + entry + match effort {
        Some(e) => " (reasoning: "@ + e + ")"@,
        None => seq![],
    }
}

/// The message left after switching models (see `switch_text`).
pub fn switch_message(entry: &str, effort: Option<&str>) -> (r: String)
    ensures
        r@ == switch_text(entry@, crate::chat::opt_view(effort)),
{
    let mut out = str_chars("Switched to ");
    append_str(&mut out, entry);
    match effort {
        Some(e) => {
            append_str(&mut out, " (reasoning: ");
            append_str(&mut out, e);
            append_str(&mut out, ")");
        },
        None => {},
    }
    chars_to_string(&out)
}

/// The first step of a switch: the entry cut into provider and model, or,
/// when it has no ':', the note "Invalid model format: {entry}" and no
/// switch.
pub fn split_model_entry(entry: &str) -> (r: Result<(String, String), String>)
    ensures
        match split_colon(entry@) {
            None => (r matches Err(note) && note@ == "Invalid model format: "@ + entry@),
            Some((provider, model)) => (r matches Ok((p, m)) && p@ == provider && m@ == model),
        },
{
    match split_entry(entry) {
        None => {
            let mut note = str_chars("Invalid model format: ");
            append_str(&mut note, entry);
            Err(chars_to_string(&note))
        },
        Some((provider, model)) => Ok((chars_to_string(&provider), chars_to_string(&model))),
    }
}

/// The note left when the provider part of an entry names no provider the
/// configuration knows; nothing is switched.
pub fn unknown_provider_note(provider: &str) -> (r: String)
    ensures
        r@ == "Unknown provider: "@ + provider@,
{
    let mut note = str_chars("Unknown provider: ");
    append_str(&mut note, provider);
    chars_to_string(&note)
}

} // verus!
