//! The groups the tool picker offers: each plugin's tools, the browser's
//! when it is enabled, and the core tools that are left; names and groups in
//! alphabetical order.

use vstd::prelude::*;
use crate::overlays::strings_view;
use crate::picker::ToolGroup;
use crate::text::str_chars;
use crate::widgets::named_groups;

verus! {

/// Text order: character by character (for UTF-8, the order of its bytes).
pub open spec fn lex_le(a: Seq<char>, b: Seq<char>) -> bool
    decreases a.len(),
{
    if a.len() == 0 {
        true
    } else if b.len() == 0 {
        false
    } else if a[0] != b[0] {
        (a[0] as u32) < (b[0] as u32)
    } else {
        lex_le(a.drop_first(), b.drop_first())
    }
}

/// A name put into sorted names after every name not above it.
pub open spec fn insert_sorted(s: Seq<Seq<char>>, x: Seq<char>) -> Seq<Seq<char>>
    decreases s.len(),
{
    if s.len() == 0 {
        seq![x]
    } else if lex_le(s.last(), x) {
        s.push(x)
    } else {
        insert_sorted(s.drop_last(), x).push(s.last())
    }
}

/// Names in text order (`sort`).
pub open spec fn sorted_names(s: Seq<Seq<char>>) -> Seq<Seq<char>>
    decreases s.len(),
{
    if s.len() == 0 {
        seq![]
    } else {
        insert_sorted(sorted_names(s.drop_last()), s.last())
    }
}

/// Names with each run of equal names kept once (`dedup`).
pub open spec fn deduped(s: Seq<Seq<char>>) -> Seq<Seq<char>>
    decreases s.len(),
{
    if s.len() <= 1 {
        s
    } else if s.last() == s[s.len() - 2] {
        deduped(s.drop_last())
    } else {
        deduped(s.drop_last()).push(s.last())
    }
}

/// A group put into groups sorted by name after every group whose name is
/// not above its name.
pub open spec fn insert_group(s: Seq<(Seq<char>, Seq<Seq<char>>)>, g: (Seq<char>, Seq<Seq<char>>)) -> Seq<(Seq<char>, Seq<Seq<char>>)>
    decreases s.len(),
{
    if s.len() == 0 {
        seq![g]
    } else if lex_le(s.last().0, g.0) {
        s.push(g)
    } else {
        insert_group(s.drop_last(), g).push(s.last())
    }
}

/// Groups sorted by name, groups of the same name in their order
/// (`sort_by` on the names, which is stable).
pub open spec fn sorted_groups(s: Seq<(Seq<char>, Seq<Seq<char>>)>) -> Seq<(Seq<char>, Seq<Seq<char>>)>
    decreases s.len(),
{
    if s.len() == 0 {
        seq![]
    } else {
        insert_group(sorted_groups(s.drop_last()), s.last())
    }
}

/// The browser's tools.
pub open spec fn browser_tools() -> Seq<Seq<char>> {
    seq![
        "BrowserNavigate"@,
        "BrowserSnapshot"@,
        "BrowserScreenshot"@,
        "BrowserClick"@,
        "BrowserType"@,
        "BrowserEvaluate"@,
        "BrowserSavePDF"@,
        "BrowserTabs"@,
        "BrowserNewTab"@,
        "BrowserSwitchTab"@,
    ]
}

/// The plugins' groups: each plugin's tool names sorted and deduplicated,
/// the plugins without tools left out.
pub open spec fn plugin_groups(ps: Seq<(Seq<char>, Seq<Seq<char>>)>) -> Seq<(Seq<char>, Seq<Seq<char>>)>
    decreases ps.len(),
{
    if ps.len() == 0 {
        seq![]
    } else {
        let names = deduped(sorted_names(ps.last().1));
        if names.len() == 0 {
            plugin_groups(ps.drop_last())
        } else {
            plugin_groups(ps.drop_last()).push((ps.last().0, names))
        }
    }
}

/// The names of the tools of some groups.
pub open spec fn group_names(gs: Seq<(Seq<char>, Seq<Seq<char>>)>) -> Set<Seq<char>> {
    Set::new(|n: Seq<char>| exists|i: int| 0 <= i < gs.len() && #[trigger] gs[i].1.contains(n))
}

/// The names that no plugin and not the browser provides, in their order.
pub open spec fn core_candidates(all: Seq<Seq<char>>, taken: Set<Seq<char>>) -> Seq<Seq<char>>
    decreases all.len(),
{
    if all.len() == 0 {
        seq![]
    } else if taken.contains(all.last()) || browser_tools().contains(all.last()) {
        core_candidates(all.drop_last(), taken)
    } else {
        core_candidates(all.drop_last(), taken).push(all.last())
    }
}

/// The picker's groups: the plugins' groups (sorted by name), the browser's
/// (when it is enabled), and the core tools that no plugin and not the
/// browser provides (when there are any), all sorted by name.
pub open spec fn tool_groups(ps: Seq<(Seq<char>, Seq<Seq<char>>)>, browser: bool, all: Seq<Seq<char>>) -> Seq<(Seq<char>, Seq<Seq<char>>)> {
    let plugins = plugin_groups(ps);
    let core = sorted_names(core_candidates(all, group_names(plugins)));
    sorted_groups(
        sorted_groups(plugins) + (if browser {
            seq![("Browser"@, sorted_names(browser_tools()))]
        } else {
            seq![]
        }) + (if core.len() > 0 {
            seq![("Core"@, core)]
        } else {
            seq![]
        }),
    )
}

// ── Executable parts ────────────────────────────────────────────────────

/// Text order (see `lex_le`).
pub fn text_le(a: &str, b: &str) -> (r: bool)
    ensures
        r == lex_le(a@, b@),
{
    let x = str_chars(a);
    let y = str_chars(b);
    let mut i: usize = 0;
    assert(x@.skip(0) =~= x@);
    assert(y@.skip(0) =~= y@);
    while i < x.len() && i < y.len() && x[i] == y[i]
        invariant
            i <= x@.len(),
            i <= y@.len(),
            lex_le(x@, y@) == lex_le(x@.skip(i as int), y@.skip(i as int)),
        decreases x@.len() - i,
    {
        assert(x@.skip(i as int).drop_first() =~= x@.skip(i + 1));
        assert(y@.skip(i as int).drop_first() =~= y@.skip(i + 1));
        i += 1;
    }
    if i == x.len() {
        true
    } else if i == y.len() {
        false
    } else {
        let c = x[i];
        let d = y[i];
        assert(x@.skip(i as int)[0] == c && y@.skip(i as int)[0] == d);
        (c as u32) < (d as u32)
    }
}

/// Where `x` goes into sorted names: after the last name not above it,
/// counting from the end while names are above it.
proof fn lemma_insert_at(s: Seq<Seq<char>>, x: Seq<char>, p: int)
    requires
        0 <= p <= s.len(),
        forall|k: int| p <= k < s.len() ==> !lex_le(#[trigger] s[k], x),
        p == 0 || lex_le(s[p - 1], x),
    ensures
        insert_sorted(s, x) == s.take(p) + seq![x] + s.skip(p),
    decreases s.len(),
{
    if s.len() == 0 {
        assert(s.take(p) + seq![x] + s.skip(p) =~= seq![x]);
    } else if p == s.len() {
        assert(s.take(p) + seq![x] + s.skip(p) =~= s.push(x));
    } else {
        let t = s.drop_last();
        lemma_insert_at(t, x, p);
        assert(t.take(p) =~= s.take(p));
        assert(s.take(p) + seq![x] + s.skip(p) =~= (t.take(p) + seq![x] + t.skip(p)).push(s.last()));
    }
}

/// Names sorted (see `sorted_names`).
pub fn sort_strings(v: Vec<String>) -> (r: Vec<String>)
    ensures
        strings_view(r@) == sorted_names(strings_view(v@)),
{
    let ghost sv = strings_view(v@);
    let mut out: Vec<String> = Vec::new();
    let mut i: usize = 0;
    assert(sv.take(0) =~= Seq::<Seq<char>>::empty());
    while i < v.len()
        invariant
            i <= v@.len(),
            sv == strings_view(v@),
            strings_view(out@) == sorted_names(sv.take(i as int)),
        decreases v@.len() - i,
    {
        assert(sv.take(i + 1).drop_last() =~= sv.take(i as int));
        let x = v[i].clone();
        let ghost o = strings_view(out@);
        let mut p: usize = out.len();
        while p > 0 && !text_le(out[p - 1].as_str(), x.as_str())
            invariant
                p <= out@.len(),
                o == strings_view(out@),
                forall|k: int| p <= k < o.len() ==> !lex_le(#[trigger] o[k], x@),
            decreases p,
        {
            p -= 1;
        }
        proof {
            lemma_insert_at(o, x@, p as int);
        }
        out.insert(p, x);
        assert(strings_view(out@) =~= o.take(p as int) + seq![x@] + o.skip(p as int));
        i += 1;
    }
    assert(sv.take(v@.len() as int) =~= sv);
    out
}

/// Runs of equal names kept once (see `deduped`).
pub fn dedup_strings(v: Vec<String>) -> (r: Vec<String>)
    ensures
        strings_view(r@) == deduped(strings_view(v@)),
{
    let ghost sv = strings_view(v@);
    let mut out: Vec<String> = Vec::new();
    let mut i: usize = 0;
    while i < v.len()
        invariant
            i <= v@.len(),
            sv == strings_view(v@),
            strings_view(out@) == deduped(sv.take(i as int)),
            i > 0 ==> out@.len() > 0 && out@.last()@ == sv[i - 1],
        decreases v@.len() - i,
    {
        assert(sv.take(i + 1).drop_last() =~= sv.take(i as int));
        let ghost o = strings_view(out@);
        let mut same = false;
        if i > 0 && out.len() > 0 {
            let a = str_chars(out[out.len() - 1].as_str());
            let b = str_chars(v[i].as_str());
            same = crate::text::chars_eq(&a, &b);
        }
        if !same {
            out.push(v[i].clone());
            assert(strings_view(out@) =~= o.push(sv[i as int]));
        }
        proof {
            if i > 0 {
                assert(sv.take(i + 1).last() == sv[i as int]);
                assert(sv.take(i + 1)[i - 1] == sv[i - 1]);
            } else {
                assert(sv.take(1) =~= seq![sv[0]]);
            }
        }
        i += 1;
    }
    assert(sv.take(v@.len() as int) =~= sv);
    out
}

proof fn lemma_insert_group_at(s: Seq<(Seq<char>, Seq<Seq<char>>)>, g: (Seq<char>, Seq<Seq<char>>), p: int)
    requires
        0 <= p <= s.len(),
        forall|k: int| p <= k < s.len() ==> !lex_le(#[trigger] s[k].0, g.0),
        p == 0 || lex_le(s[p - 1].0, g.0),
    ensures
        insert_group(s, g) == s.take(p) + seq![g] + s.skip(p),
    decreases s.len(),
{
    if s.len() == 0 {
        assert(s.take(p) + seq![g] + s.skip(p) =~= seq![g]);
    } else if p == s.len() {
        assert(s.take(p) + seq![g] + s.skip(p) =~= s.push(g));
    } else {
        let t = s.drop_last();
        lemma_insert_group_at(t, g, p);
        assert(t.take(p) =~= s.take(p));
        assert(s.take(p) + seq![g] + s.skip(p) =~= (t.take(p) + seq![g] + t.skip(p)).push(s.last()));
    }
}

/// Groups sorted by name, stably (see `sorted_groups`).
pub fn sort_groups(v: Vec<ToolGroup>) -> (r: Vec<ToolGroup>)
    ensures
        named_groups(r@) =~~= sorted_groups(named_groups(v@)),
{
    let ghost gv = named_groups(v@);
    let mut rest = v;
    let mut out: Vec<ToolGroup> = Vec::new();
    let mut taken: usize = 0;
    let n = rest.len();
    assert(gv.len() == n);
    assert(gv.skip(0) =~= gv);
    assert(gv.take(0) =~= Seq::<(Seq<char>, Seq<Seq<char>>)>::empty());
    // Take the groups from the front, one by one.
    while rest.len() > 0
        invariant
            taken + rest@.len() == gv.len(),
            gv.len() <= usize::MAX,
            gv == named_groups(v@),
            named_groups(rest@) == gv.skip(taken as int),
            named_groups(out@) =~~= sorted_groups(gv.take(taken as int)),
        decreases rest@.len(),
    {
        let ghost r0 = rest@;
        let g = rest.remove(0);
        proof {
            assert(named_groups(r0)[0] == gv[taken as int]);
            assert(rest@ =~= r0.subrange(1, r0.len() as int));
            assert forall|k: int| 0 <= k < rest@.len() implies named_groups(rest@)[k] == gv.skip(taken + 1)[k] by {
                assert(named_groups(r0)[k + 1] == gv.skip(taken as int)[k + 1]);
                assert(rest@[k] == r0[k + 1]);
            }
            assert(named_groups(rest@) =~~= gv.skip(taken + 1));
            assert(gv.take(taken + 1).drop_last() =~= gv.take(taken as int));
        }
        let ghost o = named_groups(out@);
        let ghost gn = (g.name@, strings_view(g.tools@));
        assert(gn == gv[taken as int]);
        let mut p: usize = out.len();
        while p > 0 && !text_le(out[p - 1].name.as_str(), g.name.as_str())
            invariant
                p <= out@.len(),
                o == named_groups(out@),
                gn.0 == g.name@,
                forall|k: int| p <= k < o.len() ==> !lex_le(#[trigger] o[k].0, gn.0),
            decreases p,
        {
            p -= 1;
        }
        proof {
            lemma_insert_group_at(o, gn, p as int);
        }
        out.insert(p, g);
        assert(named_groups(out@) =~~= o.take(p as int) + seq![gn] + o.skip(p as int));
        taken += 1;
    }
    assert(gv.take(gv.len() as int) =~= gv);
    out
}

/// The plugins as they were read: each name with its tools' names.
pub open spec fn plugins_view(ps: Seq<(String, Vec<String>)>) -> Seq<(Seq<char>, Seq<Seq<char>>)> {
    Seq::new(ps.len(), |i: int| (ps[i].0@, strings_view(ps[i].1@)))
}

/// Whether a list of names holds a name.
fn holds_name(v: &Vec<String>, name: &str) -> (b: bool)
    ensures
        b == strings_view(v@).contains(name@),
{
    let n = str_chars(name);
    let mut i: usize = 0;
    while i < v.len()
        invariant
            i <= v@.len(),
            n@ == name@,
            forall|k: int| 0 <= k < i ==> v@[k]@ != name@,
        decreases v@.len() - i,
    {
        let d = str_chars(v[i].as_str());
        if crate::text::chars_eq(&d, &n) {
            assert(strings_view(v@)[i as int] == name@);
            return true;
        }
        i += 1;
    }
    assert(!strings_view(v@).contains(name@));
    false
}

/// Whether some group holds a tool of this name.
fn in_groups(gs: &Vec<ToolGroup>, name: &str) -> (b: bool)
    ensures
        b == group_names(named_groups(gs@)).contains(name@),
{
    let ghost gv = named_groups(gs@);
    let mut i: usize = 0;
    while i < gs.len()
        invariant
            i <= gs@.len(),
            gv == named_groups(gs@),
            forall|k: int| 0 <= k < i ==> !(#[trigger] gv[k]).1.contains(name@),
        decreases gs@.len() - i,
    {
        if holds_name(&gs[i].tools, name) {
            assert(gv[i as int].1.contains(name@));
            return true;
        }
        i += 1;
    }
    assert(!group_names(gv).contains(name@));
    false
}

/// The browser's tools.
fn browser_tool_list() -> (v: Vec<String>)
    ensures
        strings_view(v@) == browser_tools(),
{
    let v = vec![
        "BrowserNavigate".to_owned(),
        "BrowserSnapshot".to_owned(),
        "BrowserScreenshot".to_owned(),
        "BrowserClick".to_owned(),
        "BrowserType".to_owned(),
        "BrowserEvaluate".to_owned(),
        "BrowserSavePDF".to_owned(),
        "BrowserTabs".to_owned(),
        "BrowserNewTab".to_owned(),
        "BrowserSwitchTab".to_owned(),
    ];
    assert(strings_view(v@) =~= browser_tools());
    v
}

/// The picker's groups (see `tool_groups`) from the plugins' tool lists as
/// read, whether the browser is enabled, and all the tools there are.
pub fn build_tool_groups(plugins: Vec<(String, Vec<String>)>, browser: bool, all_tools: &Vec<String>) -> (r: Vec<ToolGroup>)
    ensures
        named_groups(r@) =~~= tool_groups(plugins_view(plugins@), browser, strings_view(all_tools@)),
{
    let ghost pv = plugins_view(plugins@);
    let mut rest = plugins;
    let mut plugin_list: Vec<ToolGroup> = Vec::new();
    let mut k: usize = 0;
    let n = rest.len();
    assert(pv.len() == n);
    assert(pv.skip(0) =~= pv);
    assert(pv.take(0) =~= Seq::<(Seq<char>, Seq<Seq<char>>)>::empty());
    while rest.len() > 0
        invariant
            k + rest@.len() == pv.len(),
            pv.len() <= usize::MAX,
            plugins_view(rest@) =~~= pv.skip(k as int),
            named_groups(plugin_list@) =~~= plugin_groups(pv.take(k as int)),
        decreases rest@.len(),
    {
        let ghost r0 = rest@;
        let (name, names) = rest.remove(0);
        proof {
            assert(plugins_view(r0)[0] == pv[k as int]);
            assert(rest@ =~= r0.subrange(1, r0.len() as int));
            assert forall|j: int| 0 <= j < rest@.len() implies plugins_view(rest@)[j] == pv.skip(k + 1)[j] by {
                assert(plugins_view(r0)[j + 1] == pv.skip(k as int)[j + 1]);
                assert(rest@[j] == r0[j + 1]);
            }
            assert(pv.take(k + 1).drop_last() =~= pv.take(k as int));
        }
        let ghost pg0 = named_groups(plugin_list@);
        let sorted = dedup_strings(sort_strings(names));
        if sorted.len() > 0 {
            let g = ToolGroup { name, tools: sorted };
            let ghost gn = (g.name@, strings_view(g.tools@));
            plugin_list.push(g);
            assert(named_groups(plugin_list@) =~~= pg0.push(gn));
        }
        k += 1;
    }
    assert(pv.take(pv.len() as int) =~= pv);
    let ghost plugins_spec = plugin_groups(pv);
    // The core tools: those no plugin and not the browser provides.
    let browser_list = browser_tool_list();
    let mut core: Vec<String> = Vec::new();
    let ghost all = strings_view(all_tools@);
    let mut i: usize = 0;
    while i < all_tools.len()
        invariant
            i <= all_tools@.len(),
            all == strings_view(all_tools@),
            strings_view(browser_list@) == browser_tools(),
            named_groups(plugin_list@) =~~= plugins_spec,
            strings_view(core@) == core_candidates(all.take(i as int), group_names(plugins_spec)),
        decreases all_tools@.len() - i,
    {
        assert(all.take(i + 1).drop_last() =~= all.take(i as int));
        let name = all_tools[i].as_str();
        let in_plugins = in_groups(&plugin_list, name);
        assert(group_names(named_groups(plugin_list@)) =~= group_names(plugins_spec));
        if !in_plugins && !holds_name(&browser_list, name) {
            let ghost c0 = strings_view(core@);
            core.push(all_tools[i].clone());
            assert(strings_view(core@) =~= c0.push(all[i as int]));
        }
        i += 1;
    }
    assert(all.take(all.len() as int) =~= all);
    let core = sort_strings(core);
    let mut groups = sort_groups(plugin_list);
    let ghost g0 = named_groups(groups@);
    if browser {
        let tools = sort_strings(browser_list);
        let g = ToolGroup { name: "Browser".to_owned(), tools };
        let ghost gn = (g.name@, strings_view(g.tools@));
        groups.push(g);
        assert(named_groups(groups@) =~~= g0.push(gn));
    }
    let ghost g1 = named_groups(groups@);
    if core.len() > 0 {
        let g = ToolGroup { name: "Core".to_owned(), tools: core };
        let ghost gn = (g.name@, strings_view(g.tools@));
        groups.push(g);
        assert(named_groups(groups@) =~~= g1.push(gn));
    }
    let ghost all_groups = named_groups(groups@);
    let r = sort_groups(groups);
    assert(all_groups =~~= sorted_groups(plugins_spec) + (if browser {
        seq![("Browser"@, sorted_names(browser_tools()))]
    } else {
        seq![]
    }) + (if sorted_names(core_candidates(all, group_names(plugins_spec))).len() > 0 {
        seq![("Core"@, sorted_names(core_candidates(all, group_names(plugins_spec))))]
    } else {
        seq![]
    }));
    r
}

// ── What sorting gives ──────────────────────────────────────────────────

/// Names in text order.
pub open spec fn names_sorted(s: Seq<Seq<char>>) -> bool {
    forall|i: int, j: int| 0 <= i < j < s.len() ==> lex_le(#[trigger] s[i], #[trigger] s[j])
}

/// Of two texts, one is not above the other.
pub proof fn lemma_lex_total(a: Seq<char>, b: Seq<char>)
    ensures
        lex_le(a, b) || lex_le(b, a),
    decreases a.len(),
{
    if a.len() > 0 && b.len() > 0 {
        if a[0] == b[0] {
            lemma_lex_total(a.drop_first(), b.drop_first());
        } else {
            lemma_char_code(a[0], b[0]);
        }
    }
}

/// Different characters have different codes.
proof fn lemma_char_code(c: char, d: char)
    requires
        c != d,
    ensures
        (c as u32) != (d as u32),
{
}

/// Text order is transitive.
pub proof fn lemma_lex_trans(a: Seq<char>, b: Seq<char>, c: Seq<char>)
    requires
        lex_le(a, b),
        lex_le(b, c),
    ensures
        lex_le(a, c),
    decreases a.len(),
{
    if a.len() > 0 && b.len() > 0 && c.len() > 0 && a[0] == b[0] && b[0] == c[0] {
        lemma_lex_trans(a.drop_first(), b.drop_first(), c.drop_first());
    }
}

proof fn lemma_insert_sorted_multiset(s: Seq<Seq<char>>, x: Seq<char>)
    ensures
        insert_sorted(s, x).to_multiset() == s.to_multiset().insert(x),
    decreases s.len(),
{
    broadcast use vstd::seq_lib::to_multiset_build;
    broadcast use vstd::multiset::group_multiset_axioms;
    broadcast use vstd::seq_lib::group_seq_properties;

    if s.len() == 0 {
        assert(seq![x] =~= Seq::<Seq<char>>::empty().push(x));
        assert(s.to_multiset() =~= vstd::multiset::Multiset::empty());
    } else if lex_le(s.last(), x) {
    } else {
        lemma_insert_sorted_multiset(s.drop_last(), x);
        assert(s =~= s.drop_last().push(s.last()));
        assert(s.to_multiset() == s.drop_last().to_multiset().insert(s.last()));
        assert(insert_sorted(s, x).to_multiset() =~= s.drop_last().to_multiset().insert(x).insert(s.last()));
        assert(s.to_multiset().insert(x) =~= s.drop_last().to_multiset().insert(s.last()).insert(x));
    }
}

proof fn lemma_insert_sorted_sorted(s: Seq<Seq<char>>, x: Seq<char>)
    requires
        names_sorted(s),
    ensures
        names_sorted(insert_sorted(s, x)),
        insert_sorted(s, x).len() == s.len() + 1,
        forall|k: int| 0 <= k < insert_sorted(s, x).len() ==> (#[trigger] insert_sorted(s, x)[k] == x
            || s.contains(insert_sorted(s, x)[k])),
    decreases s.len(),
{
    if s.len() == 0 {
    } else if lex_le(s.last(), x) {
        let r = s.push(x);
        assert forall|i: int, j: int| 0 <= i < j < r.len() implies lex_le(#[trigger] r[i], #[trigger] r[j]) by {
            if j == s.len() {
                if i < s.len() - 1 {
                    lemma_lex_trans(s[i], s.last(), x);
                }
            }
        }
        assert forall|k: int| 0 <= k < r.len() implies (#[trigger] r[k] == x || s.contains(r[k])) by {
            if k < s.len() {
                assert(s[k] == r[k]);
            }
        }
    } else {
        let t = s.drop_last();
        lemma_insert_sorted_sorted(t, x);
        lemma_lex_total(s.last(), x);
        let inner = insert_sorted(t, x);
        let r = inner.push(s.last());
        assert forall|k: int| 0 <= k < inner.len() implies lex_le(#[trigger] inner[k], s.last()) by {
            if inner[k] != x {
                assert(t.contains(inner[k]));
                let m = choose|m: int| 0 <= m < t.len() && t[m] == inner[k];
                assert(s[m] == inner[k]);
            }
        }
        assert forall|i: int, j: int| 0 <= i < j < r.len() implies lex_le(#[trigger] r[i], #[trigger] r[j]) by {
            if j == inner.len() {
                assert(r[i] == inner[i]);
            } else {
                assert(r[i] == inner[i]);
                assert(r[j] == inner[j]);
            }
        }
        assert forall|k: int| 0 <= k < r.len() implies (#[trigger] r[k] == x || s.contains(r[k])) by {
            if k < inner.len() {
                assert(r[k] == inner[k]);
                if inner[k] != x {
                    let m = choose|m: int| 0 <= m < t.len() && t[m] == inner[k];
                    assert(s[m] == r[k]);
                }
            } else {
                assert(s[s.len() - 1] == r[k]);
            }
        }
    }
}

/// Sorting names puts them in text order and keeps each name as often as
/// it came.
pub proof fn law_sorted_names(s: Seq<Seq<char>>)
    ensures
        names_sorted(sorted_names(s)),
        sorted_names(s).to_multiset() == s.to_multiset(),
    decreases s.len(),
{
    broadcast use vstd::seq_lib::to_multiset_build;
    broadcast use vstd::seq_lib::group_seq_properties;

    if s.len() == 0 {
        assert(sorted_names(s) =~= s);
    } else {
        law_sorted_names(s.drop_last());
        lemma_insert_sorted_sorted(sorted_names(s.drop_last()), s.last());
        lemma_insert_sorted_multiset(sorted_names(s.drop_last()), s.last());
        assert(s =~= s.drop_last().push(s.last()));
    }
}

/// Groups in text order of their names.
pub open spec fn groups_sorted(s: Seq<(Seq<char>, Seq<Seq<char>>)>) -> bool {
    forall|i: int, j: int| 0 <= i < j < s.len() ==> lex_le(#[trigger] s[i].0, #[trigger] s[j].0)
}

proof fn lemma_insert_group_sorted(s: Seq<(Seq<char>, Seq<Seq<char>>)>, g: (Seq<char>, Seq<Seq<char>>))
    requires
        groups_sorted(s),
    ensures
        groups_sorted(insert_group(s, g)),
        insert_group(s, g).len() == s.len() + 1,
        forall|k: int| 0 <= k < insert_group(s, g).len() ==> (#[trigger] insert_group(s, g)[k] == g
            || s.contains(insert_group(s, g)[k])),
    decreases s.len(),
{
    if s.len() == 0 {
    } else if lex_le(s.last().0, g.0) {
        let r = s.push(g);
        assert forall|i: int, j: int| 0 <= i < j < r.len() implies lex_le(#[trigger] r[i].0, #[trigger] r[j].0) by {
            if j == s.len() {
                if i < s.len() - 1 {
                    lemma_lex_trans(s[i].0, s.last().0, g.0);
                }
            }
        }
        assert forall|k: int| 0 <= k < r.len() implies (#[trigger] r[k] == g || s.contains(r[k])) by {
            if k < s.len() {
                assert(s[k] == r[k]);
            }
        }
    } else {
        let t = s.drop_last();
        lemma_insert_group_sorted(t, g);
        lemma_lex_total(s.last().0, g.0);
        let inner = insert_group(t, g);
        let r = inner.push(s.last());
        assert forall|k: int| 0 <= k < inner.len() implies lex_le(#[trigger] inner[k].0, s.last().0) by {
            if inner[k] != g {
                assert(t.contains(inner[k]));
                let m = choose|m: int| 0 <= m < t.len() && t[m] == inner[k];
                assert(s[m] == inner[k]);
            }
        }
        assert forall|i: int, j: int| 0 <= i < j < r.len() implies lex_le(#[trigger] r[i].0, #[trigger] r[j].0) by {
            assert(r[i] == inner[i]);
            if j < inner.len() {
                assert(r[j] == inner[j]);
            }
        }
        assert forall|k: int| 0 <= k < r.len() implies (#[trigger] r[k] == g || s.contains(r[k])) by {
            if k < inner.len() {
                assert(r[k] == inner[k]);
                if inner[k] != g {
                    let m = choose|m: int| 0 <= m < t.len() && t[m] == inner[k];
                    assert(s[m] == r[k]);
                }
            } else {
                assert(s[s.len() - 1] == r[k]);
            }
        }
    }
}

/// Sorting groups puts their names in text order and keeps every group.
pub proof fn law_sorted_groups(s: Seq<(Seq<char>, Seq<Seq<char>>)>)
    ensures
        groups_sorted(sorted_groups(s)),
        sorted_groups(s).len() == s.len(),
    decreases s.len(),
{
    if s.len() > 0 {
        law_sorted_groups(s.drop_last());
        lemma_insert_group_sorted(sorted_groups(s.drop_last()), s.last());
    }
}

/// The picker's groups come in text order of their names.
pub proof fn law_tool_groups_sorted(ps: Seq<(Seq<char>, Seq<Seq<char>>)>, browser: bool, all: Seq<Seq<char>>)
    ensures
        groups_sorted(tool_groups(ps, browser, all)),
{
    let plugins = plugin_groups(ps);
    let core = sorted_names(core_candidates(all, group_names(plugins)));
    law_sorted_groups(
        sorted_groups(plugins) + (if browser {
            seq![("Browser"@, sorted_names(browser_tools()))]
        } else {
            seq![]
        }) + (if core.len() > 0 {
            seq![("Core"@, core)]
        } else {
            seq![]
        }),
    );
}

// ── Plugins' tool lists ─────────────────────────────────────────────────

/// What serde_json reads from a plugin's `tools.json`: `None` when the text
/// is not JSON; else, for each element of the array it holds (none when it
/// holds no array), the element's "name" when that is a string.
pub uninterp spec fn tools_json_names(text: Seq<char>) -> Option<Seq<Option<Seq<char>>>>;

pub open spec fn opt_names_view(v: Seq<Option<String>>) -> Seq<Option<Seq<char>>> {
    Seq::new(v.len(), |i: int| crate::history::opt_string_view(v[i]))
}

/// Calls `serde_json::from_str` on a plugin's `tools.json` text, then
/// `Value::as_array`, and for each element `Value::get("name")` and
/// `Value::as_str`.
///
/// Trusted: the result is what the parser makes of the text, a function
/// of the text alone; what it is is left unsaid.
#[verifier::external_body]
fn parse_tools_json(text: &str) -> (r: Option<Vec<Option<String>>>)
    ensures
        match r {
            Some(v) => tools_json_names(text@) == Some(opt_names_view(v@)),
            None => tools_json_names(text@) is None,
        },
{
    match serde_json::from_str::<serde_json::Value>(text) {
        Ok(parsed) => Some(
            parsed
                .as_array()
                .into_iter()
                .flatten()
                .map(|item| item.get("name").and_then(|v| v.as_str()).map(|n| n.to_string()))
                .collect(),
        ),
        Err(_) => None,
    }
}

/// The names there are, in order.
pub open spec fn present(es: Seq<Option<Seq<char>>>) -> Seq<Seq<char>>
    decreases es.len(),
{
    if es.len() == 0 {
        seq![]
    } else {
        match es.last() {
            Some(n) => present(es.drop_last()).push(n),
            None => present(es.drop_last()),
        }
    }
}

/// The plugins whose `tools.json` text is JSON, each with the tool names it
/// lists; the others are left out.
pub open spec fn json_plugins(ps: Seq<(String, String)>) -> Seq<(Seq<char>, Seq<Seq<char>>)>
    decreases ps.len(),
{
    if ps.len() == 0 {
        seq![]
    } else {
        match tools_json_names(ps.last().1@) {
            Some(es) => json_plugins(ps.drop_last()).push((ps.last().0@, present(es))),
            None => json_plugins(ps.drop_last()),
        }
    }
}

fn present_names(es: Vec<Option<String>>) -> (r: Vec<String>)
    ensures
        strings_view(r@) == present(opt_names_view(es@)),
{
    let ghost ev = opt_names_view(es@);
    let mut r: Vec<String> = Vec::new();
    let mut rest = es;
    let mut k: usize = 0;
    let n = rest.len();
    while rest.len() > 0
        invariant
            n == ev.len(),
            k + rest@.len() == n,
            opt_names_view(rest@) == ev.skip(k as int),
            strings_view(r@) == present(ev.take(k as int)),
        decreases rest@.len(),
    {
        let ghost r0 = rest@;
        let e = rest.remove(0);
        assert(crate::history::opt_string_view(e) == ev[k as int]) by {
            assert(opt_names_view(r0)[0] == ev.skip(k as int)[0]);
        }
        assert(opt_names_view(rest@) =~= ev.skip(k + 1)) by {
            assert forall|j: int| 0 <= j < rest@.len() implies opt_names_view(rest@)[j] == ev.skip(k + 1)[j] by {
                assert(rest@[j] == r0[j + 1]);
                assert(opt_names_view(r0)[j + 1] == ev.skip(k as int)[j + 1]);
            }
        }
        assert(ev.take(k + 1).drop_last() =~= ev.take(k as int));
        assert(ev.take(k + 1).last() == ev[k as int]);
        match e {
            Some(name) => {
                let ghost before = strings_view(r@);
                r.push(name);
                assert(strings_view(r@) =~= before.push(ev[k as int]->0));
            },
            None => {},
        }
        k += 1;
    }
    assert(ev.take(n as int) =~= ev);
    r
}

/// The picker's groups (see `tool_groups`) from each plugin's name and the
/// text of its `tools.json` (the plugins whose text is not JSON left out,
/// see `json_plugins`), whether the browser is enabled, and all the tools
/// there are.
pub fn build_tool_groups_from_texts(plugins: Vec<(String, String)>, browser: bool, all_tools: &Vec<String>) -> (r: Vec<ToolGroup>)
    ensures
        named_groups(r@) =~~= tool_groups(json_plugins(plugins@), browser, strings_view(all_tools@)),
{
    let ghost ps = plugins@;
    let mut lists: Vec<(String, Vec<String>)> = Vec::new();
    let mut rest = plugins;
    let mut k: usize = 0;
    let n = rest.len();
    while rest.len() > 0
        invariant
            n == ps.len(),
            k + rest@.len() == n,
            rest@ == ps.skip(k as int),
            plugins_view(lists@) == json_plugins(ps.take(k as int)),
        decreases rest@.len(),
    {
        let (name, text) = rest.remove(0);
        assert(rest@ =~= ps.skip(k + 1));
        assert(ps.take(k + 1).drop_last() =~= ps.take(k as int));
        assert(ps.take(k + 1).last() == ps[k as int]);
        assert(ps[k as int] == (name, text));
        match parse_tools_json(text.as_str()) {
            Some(es) => {
                let names = present_names(es);
                let ghost before = plugins_view(lists@);
                lists.push((name, names));
                assert(plugins_view(lists@) =~= before.push((name@, strings_view(names@))));
            },
            None => {},
        }
        k += 1;
    }
    assert(ps.take(n as int) =~= ps);
    build_tool_groups(lists, browser, all_tools)
}

} // verus!
