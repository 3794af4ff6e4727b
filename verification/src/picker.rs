//! The tool picker: tools in named groups, a cursor over all of them in group
//! order, and the set of tools the user has switched off.

use vstd::prelude::*;
use crate::keys::{KeyCode, KeyEvent};
use crate::overlays::strings_view;


verus! {

/// A named group of tools.
pub struct ToolGroup {
    pub name: String,
    pub tools: Vec<String>,
}

/// Tool picker overlay state.
pub struct ToolPicker {
    pub groups: Vec<ToolGroup>,
    /// The tool under the cursor, counted over all groups in order.
    pub selected: usize,
    /// The tools switched off, each once.
    pub disabled: Vec<String>,
}

/// The tool names of each group, in order: what counting the tools and
/// finding the one under the cursor go by. The groups' names play no part
/// there; `named_groups` holds both.
pub open spec fn groups_view(gs: Seq<ToolGroup>) -> Seq<Seq<Seq<char>>> {
    Seq::new(gs.len(), |i: int| strings_view(gs[i].tools@))
}

/// How many tools the groups hold together.
pub open spec fn tool_total(gs: Seq<Seq<Seq<char>>>) -> nat
    decreases gs.len(),
{
    if gs.len() == 0 {
        0
    } else {
        gs[0].len() + tool_total(gs.drop_first())
    }
}

/// The `k`-th tool counted over the groups in order, if there are that many.
pub open spec fn tool_at(gs: Seq<Seq<Seq<char>>>, k: nat) -> Option<Seq<char>>
    decreases gs.len(),
{
    if gs.len() == 0 {
        None
    } else if k < gs[0].len() {
        Some(gs[0][k as int])
    } else {
        tool_at(gs.drop_first(), (k - gs[0].len()) as nat)
    }
}

/// The switched-off tools as a set of names.
pub open spec fn disabled_set(d: Seq<String>) -> Set<Seq<char>> {
    strings_view(d).to_set()
}

/// A tool name in the set is taken out of it, another one is put in.
pub open spec fn toggled(s: Set<Seq<char>>, name: Seq<char>) -> Set<Seq<char>> {
    if s.contains(name) {
        s.remove(name)
    } else {
        s.insert(name)
    }
}

/// The picker is well formed when no tool is switched off twice.
pub open spec fn picker_wf(p: &ToolPicker) -> bool {
    strings_view(p.disabled@).no_duplicates()
}

/// How many tools the picker offers.
pub fn tool_picker_tool_count(picker: &ToolPicker) -> (n: usize)
    requires
        tool_total(groups_view(picker.groups@)) <= usize::MAX,
    ensures
        n == tool_total(groups_view(picker.groups@)),
{
    let ghost all = groups_view(picker.groups@);
    let mut n: usize = 0;
    let mut g: usize = 0;
    assert(all.subrange(0, all.len() as int) =~= all);
    while g < picker.groups.len()
        invariant
            g <= picker.groups@.len(),
            all == groups_view(picker.groups@),
            tool_total(all) <= usize::MAX,
            tool_total(all) == n + tool_total(all.subrange(g as int, all.len() as int)),
        decreases picker.groups@.len() - g,
    {
        let ghost rest = all.subrange(g as int, all.len() as int);
        assert(rest.drop_first() =~= all.subrange(g + 1, all.len() as int));
        assert(rest[0] == strings_view(picker.groups@[g as int].tools@));
        n = n + picker.groups[g].tools.len();
        g += 1;
    }
    n
}

/// The name of the tool under the cursor, if the cursor is on a tool.
pub fn tool_picker_selected_tool_name(picker: &ToolPicker) -> (r: Option<String>)
    ensures
        match r {
            Some(s) => tool_at(groups_view(picker.groups@), picker.selected as nat) == Some(s@),
            None => tool_at(groups_view(picker.groups@), picker.selected as nat) is None,
        },
{
    let ghost all = groups_view(picker.groups@);
    let mut rest: usize = picker.selected;
    let mut g: usize = 0;
    assert(all.subrange(0, all.len() as int) =~= all);
    while g < picker.groups.len()
        invariant
            g <= picker.groups@.len(),
            all == groups_view(picker.groups@),
            tool_at(all, picker.selected as nat) == tool_at(all.subrange(g as int, all.len() as int), rest as nat),
        decreases picker.groups@.len() - g,
    {
        let ghost sub = all.subrange(g as int, all.len() as int);
        assert(sub.drop_first() =~= all.subrange(g + 1, all.len() as int));
        assert(sub[0] == strings_view(picker.groups@[g as int].tools@));
        let tools = &picker.groups[g].tools;
        if rest < tools.len() {
            return Some(tools[rest].clone());
        }
        rest = rest - tools.len();
        g += 1;
    }
    None
}

/// The names, each once, in the order they first come: the set the
/// configuration's list of switched-off tools stands for.
pub fn distinct_names(v: &Vec<String>) -> (r: Vec<String>)
    ensures
        strings_view(r@).no_duplicates(),
        disabled_set(r@) == disabled_set(v@),
{
    let ghost vv = strings_view(v@);
    let mut r: Vec<String> = Vec::new();
    let mut i: usize = 0;
    while i < v.len()
        invariant
            i <= v@.len(),
            vv == strings_view(v@),
            strings_view(r@).no_duplicates(),
            strings_view(r@).to_set() == vv.take(i as int).to_set(),
        decreases v@.len() - i,
    {
        let ghost r0 = strings_view(r@);
        let ghost t1 = vv.take(i + 1);
        assert(t1 =~= vv.take(i as int).push(vv[i as int]));
        assert(t1.to_set() =~= vv.take(i as int).to_set().insert(vv[i as int])) by {
            assert forall|x: Seq<char>| t1.contains(x) <==> vv.take(i as int).contains(x) || x == vv[i as int] by {
                if t1.contains(x) {
                    let j = choose|j: int| 0 <= j < t1.len() && t1[j] == x;
                    if j < i {
                        assert(vv.take(i as int)[j] == x);
                    }
                }
                if vv.take(i as int).contains(x) {
                    let j = choose|j: int| 0 <= j < i && vv.take(i as int)[j] == x;
                    assert(t1[j] == x);
                }
                if x == vv[i as int] {
                    assert(t1[i as int] == x);
                }
            }
        }
        let mut found = false;
        let mut k: usize = 0;
        while k < r.len()
            invariant
                k <= r@.len(),
                r0 == strings_view(r@),
                vv == strings_view(v@),
                i < v@.len(),
                found ==> r0.contains(vv[i as int]),
                !found ==> forall|j: int| 0 <= j < k ==> r0[j] != vv[i as int],
            decreases r@.len() - k,
        {
            if r[k] == v[i] {
                assert(r0[k as int] == vv[i as int]);
                found = true;
            }
            k += 1;
        }
        if found {
            assert(r0.to_set() =~= r0.to_set().insert(vv[i as int]));
        } else {
            assert(!r0.contains(vv[i as int]));
            r.push(v[i].clone());
            let ghost r1 = strings_view(r@);
            assert(r1 =~= r0.push(vv[i as int]));
            assert(r1.to_set() =~= r0.to_set().insert(vv[i as int])) by {
                assert forall|x: Seq<char>| r1.contains(x) <==> r0.contains(x) || x == vv[i as int] by {
                    if r1.contains(x) {
                        let j = choose|j: int| 0 <= j < r1.len() && r1[j] == x;
                        if j < r0.len() {
                            assert(r0[j] == x);
                        }
                    }
                    if r0.contains(x) {
                        let j = choose|j: int| 0 <= j < r0.len() && r0[j] == x;
                        assert(r1[j] == x);
                    }
                    if x == vv[i as int] {
                        assert(r1[r0.len() as int] == x);
                    }
                }
            }
            assert(r1.no_duplicates()) by {
                assert forall|a: int, b: int| 0 <= a < r1.len() && 0 <= b < r1.len() && a != b implies r1[a] != r1[b] by {
                    if a < r0.len() && b < r0.len() {
                    } else if a == r0.len() {
                        assert(r0[b] == r1[b]);
                        assert(r0.contains(r0[b]));
                    } else {
                        assert(r0[a] == r1[a]);
                        assert(r0.contains(r0[a]));
                    }
                }
            }
        }
        i += 1;
    }
    assert(vv.take(v@.len() as int) =~= vv);
    r
}

/// Switches a tool off, or back on when it was off.
pub fn toggle_disabled(disabled: &mut Vec<String>, name: String)
    requires
        strings_view(old(disabled)@).no_duplicates(),
    ensures
        strings_view(final(disabled)@).no_duplicates(),
        disabled_set(final(disabled)@) == toggled(disabled_set(old(disabled)@), name@),
{
    let ghost d0 = strings_view(disabled@);
    let mut i: usize = 0;
    while i < disabled.len()
        invariant
            i <= disabled@.len(),
            d0 == strings_view(disabled@),
            disabled@ == old(disabled)@,
            d0.no_duplicates(),
            forall|k: int| 0 <= k < i ==> d0[k] != name@,
        decreases disabled@.len() - i,
    {
        if disabled[i] == name {
            disabled.remove(i);
            let ghost d1 = strings_view(disabled@);
            assert(d1 =~= d0.remove(i as int));
            assert(d1.to_set() =~= d0.to_set().remove(name@)) by {
                assert forall|x: Seq<char>| d1.contains(x) <==> d0.contains(x) && x != name@ by {
                    if d1.contains(x) {
                        let j = choose|j: int| 0 <= j < d1.len() && d1[j] == x;
                        if j < i {
                            assert(d0[j] == x);
                        } else {
                            assert(d0[j + 1] == x);
                            assert(d0[j + 1] != d0[i as int]);
                        }
                    }
                    if d0.contains(x) && x != name@ {
                        let j = choose|j: int| 0 <= j < d0.len() && d0[j] == x;
                        if j < i {
                            assert(d1[j] == x);
                        } else {
                            assert(j != i);
                            assert(d1[j - 1] == x);
                        }
                    }
                }
            }
            assert(d0.to_set().contains(name@)) by {
                assert(d0[i as int] == name@);
            }
            return;
        }
        i += 1;
    }
    assert(!d0.contains(name@));
    let ghost n = name@;
    disabled.push(name);
    let ghost d1 = strings_view(disabled@);
    assert(d1 =~= d0.push(n));
    assert(d1.to_set() =~= d0.to_set().insert(n)) by {
        assert forall|x: Seq<char>| d1.contains(x) <==> d0.contains(x) || x == n by {
            if d1.contains(x) {
                let j = choose|j: int| 0 <= j < d1.len() && d1[j] == x;
                if j < d0.len() {
                    assert(d0[j] == x);
                }
            }
            if d0.contains(x) {
                let j = choose|j: int| 0 <= j < d0.len() && d0[j] == x;
                assert(d1[j] == x);
            }
            if x == n {
                assert(d1[d0.len() as int] == x);
            }
        }
    }
}

/// What a key does in the tool picker; true when it closes the picker (Esc,
/// or Alt+P, which opened it).
///
/// Up and Down move the cursor over all tools, Space switches the tool under
/// it off or back on, and Enter does nothing.
pub fn tool_picker_key(picker: &mut ToolPicker, key: KeyEvent) -> (close: bool)
    requires
        picker_wf(old(picker)),
        tool_total(groups_view(old(picker).groups@)) <= usize::MAX,
    ensures
        picker_wf(final(picker)),
        final(picker).groups == old(picker).groups,
        close == (key.code == KeyCode::Esc || (key.code == KeyCode::Char('p') && key.modifiers.alt)),
        close ==> final(picker).selected == old(picker).selected && final(picker).disabled == old(picker).disabled,
        !close ==> final(picker).selected == (match key.code {
            KeyCode::Up => if old(picker).selected > 0 { (old(picker).selected - 1) as usize } else { old(picker).selected },
            KeyCode::Down => if old(picker).selected + 1 < tool_total(groups_view(old(picker).groups@)) {
                (old(picker).selected + 1) as usize
            } else {
                old(picker).selected
            },
            _ => old(picker).selected,
        }),
        !close ==> disabled_set(final(picker).disabled@) == (if key.code == KeyCode::Char(' ') {
            match tool_at(groups_view(old(picker).groups@), old(picker).selected as nat) {
                Some(t) => toggled(disabled_set(old(picker).disabled@), t),
                None => disabled_set(old(picker).disabled@),
            }
        } else {
            disabled_set(old(picker).disabled@)
        }),
{
    match key.code {
        KeyCode::Up => {
            if picker.selected > 0 {
                picker.selected -= 1;
            }
            false
        },
        KeyCode::Down => {
            let total = tool_picker_tool_count(picker);
            if total > 0 && picker.selected < total - 1 {
                picker.selected += 1;
            }
            false
        },
        KeyCode::Char(' ') => {
            match tool_picker_selected_tool_name(picker) {
                Some(tool_name) => toggle_disabled(&mut picker.disabled, tool_name),
                None => {},
            }
            false
        },
        KeyCode::Esc => true,
        KeyCode::Char('p') => key.modifiers.alt,
        // Block Enter while tool picker is open
        _ => false,
    }
}

} // verus!
