//! The slash commands and the palette that offers them while typing.

use vstd::prelude::*;
use crate::text::{starts_with, str_chars, chars_start_with};

verus! {

/// The slash commands with their descriptions, in palette order.
pub open spec fn commands() -> Seq<(Seq<char>, Seq<char>)> {
    seq![
        ("/model"@, "choose model to use"@),
        ("/resume"@, "resume a saved session"@),
        ("/refresh"@, "re-render the current session"@),
        ("/bg"@, "view and manage background processes"@),
        ("/clear"@, "clear chat and start fresh"@),
        ("/compact"@, "compact conversation history"@),
        ("/memories"@, "manage project memory (activate | deactivate | show | add <text>)"@),
        ("/gmemory"@, "global memory (show | add <text> | clear)"@),
        ("/checkpoints"@, "rewind to a checkpoint"@),
        ("/skills"@, "list available skills"@),
        ("/events"@, "Event Agent view (/events | clear) — Alt+L for events"@),
        ("/workers"@, "browse workers and runs"@),
        ("/exit"@, "quit lukan"@),
    ]
}

/// The view of a list of (command, description) pairs.
pub open spec fn pairs_view(v: Seq<(&str, &str)>) -> Seq<(Seq<char>, Seq<char>)> {
    v.map_values(|p: (&str, &str)| (p.0@, p.1@))
}

/// The slash commands with their descriptions.
pub fn command_list() -> (v: Vec<(&'static str, &'static str)>)
    ensures
        pairs_view(v@) == commands(),
{
    let v: Vec<(&'static str, &'static str)> = vec![
        ("/model", "choose model to use"),
        ("/resume", "resume a saved session"),
        ("/refresh", "re-render the current session"),
        ("/bg", "view and manage background processes"),
        ("/clear", "clear chat and start fresh"),
        ("/compact", "compact conversation history"),
        ("/memories", "manage project memory (activate | deactivate | show | add <text>)"),
        ("/gmemory", "global memory (show | add <text> | clear)"),
        ("/checkpoints", "rewind to a checkpoint"),
        ("/skills", "list available skills"),
        ("/events", "Event Agent view (/events | clear) — Alt+L for events"),
        ("/workers", "browse workers and runs"),
        ("/exit", "quit lukan"),
    ];
    assert(pairs_view(v@) =~= commands());
    v
}

/// The commands of `cs` whose name starts with `prefix`, in order.
pub open spec fn with_prefix(cs: Seq<(Seq<char>, Seq<char>)>, prefix: Seq<char>) -> Seq<(Seq<char>, Seq<char>)>
    decreases cs.len(),
{
    if cs.len() == 0 {
        seq![]
    } else {
        let rest = with_prefix(cs.drop_last(), prefix);
        if starts_with(cs.last().0, prefix) {
            rest.push(cs.last())
        } else {
            rest
        }
    }
}

/// The commands the palette offers for the input: none unless the input
/// starts with `/` and holds no space; otherwise those whose name starts
/// with the input.
pub open spec fn palette(input: Seq<char>) -> Seq<(Seq<char>, Seq<char>)> {
    if !starts_with(input, "/"@) || input.contains(' ') {
        seq![]
    } else {
        with_prefix(commands(), input)
    }
}

fn has_space(v: &Vec<char>) -> (b: bool)
    ensures
        b == v@.contains(' '),
{
    let mut i: usize = 0;
    while i < v.len()
        invariant
            i <= v@.len(),
            forall|k: int| 0 <= k < i ==> v@[k] != ' ',
        decreases v@.len() - i,
    {
        if v[i] == ' ' {
            assert(v@[i as int] == ' ');
            return true;
        }
        i += 1;
    }
    false
}

/// Filter available commands by the current input prefix.
/// Returns empty if input doesn't start with `/` or contains a space.
pub fn filtered_commands(input: &str) -> (r: Vec<(&'static str, &'static str)>)
    ensures
        pairs_view(r@) == palette(input@),
{
    let text = str_chars(input);
    let slash = str_chars("/");
    if !chars_start_with(&text, &slash) || has_space(&text) {
        let r: Vec<(&'static str, &'static str)> = Vec::new();
        assert(pairs_view(r@) =~= palette(input@));
        return r;
    }
    let all = command_list();
    let ghost cs = pairs_view(all@);
    let mut r: Vec<(&'static str, &'static str)> = Vec::new();
    let mut i: usize = 0;
    while i < all.len()
        invariant
            i <= all@.len(),
            cs == pairs_view(all@),
            text@ == input@,
            pairs_view(r@) == with_prefix(cs.take(i as int), text@),
        decreases all@.len() - i,
    {
        proof {
            assert(cs.take(i + 1).drop_last() =~= cs.take(i as int));
        }
        let name = str_chars(all[i].0);
        if chars_start_with(&name, &text) {
            let ghost r0 = pairs_view(r@);
            r.push(all[i]);
            assert(pairs_view(r@) =~= r0.push(cs[i as int]));
        }
        i += 1;
    }
    assert(cs.take(all@.len() as int) =~= cs);
    r
}

} // verus!
