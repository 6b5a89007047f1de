//! The entry list: its order (favorites first, then by the sort mode),
//! searching, and the folder view with its collapsible headings.
use vstd::prelude::*;
use crate::order::{all_distinct, lemma_lex_irreflexive, lemma_lex_total, lemma_lex_transitive, lex_less, lex_lt};

use crate::order::{lex_sorted, sort_strings};
use crate::text::{append_chars, chars_eq, chars_of, copy_string, first_segment_chars, holds_string, skip_chars, starts_with_chars, str_lower, string_from_chars, to_lower, views};

use crate::vault::{entry_matches, entry_views, Entry, EntryView};
use crate::app::{App, ListRow, RowView, SortMode, at_root_of, child_prefix, entries_of_rows, entry_rows, folder_layout, folder_view, heading_of, heading_rows, is_listing, row_views, shown_in, under};

verus! {

/// Entry `a` precedes entry `b` by the sort key alone: name ignoring case
/// (lexicographically), or the newer creation or change time.
pub open spec fn key_before(a: EntryView, b: EntryView, mode: SortMode) -> bool {
    match mode {
        SortMode::Name => lex_lt(str_lower(a.name), str_lower(b.name)),
        SortMode::DateCreated => a.created_at > b.created_at,
        SortMode::DateModified => a.modified_at > b.modified_at,
    }
}

/// Two entries have the same sort key.
pub open spec fn key_same(a: EntryView, b: EntryView, mode: SortMode) -> bool {
    match mode {
        SortMode::Name => str_lower(a.name) == str_lower(b.name),
        SortMode::DateCreated => a.created_at == b.created_at,
        SortMode::DateModified => a.modified_at == b.modified_at,
    }
}

/// The order of the entry list: favorites first, then by the sort key,
/// then (for equal keys) by position in the vault.
pub open spec fn listed_before(v: Seq<EntryView>, mode: SortMode, a: usize, b: usize) -> bool {
    let ea = v[a as int];
    let eb = v[b as int];
    (ea.favorite && !eb.favorite) || (ea.favorite == eb.favorite && (key_before(ea, eb, mode) || (
    key_same(ea, eb, mode) && a < b)))
}

/// The list order: a favorite comes before every other entry, whatever the
/// sort mode; among entries alike in that, by name (ignoring case, in
/// character order), the newer creation or the newer change comes first,
/// and entries with equal keys keep their vault order.
pub proof fn law_list_order(v: Seq<EntryView>, mode: SortMode, a: usize, b: usize)
    ensures
        v[a as int].favorite && !v[b as int].favorite ==> listed_before(v, mode, a, b),
        !v[a as int].favorite && v[b as int].favorite ==> !listed_before(v, mode, a, b),
        v[a as int].favorite == v[b as int].favorite ==> {
            &&& mode == SortMode::Name && lex_lt(str_lower(v[a as int].name), str_lower(v[b as int].name))
                ==> listed_before(v, mode, a, b)
            &&& mode == SortMode::DateCreated && v[a as int].created_at > v[b as int].created_at ==> listed_before(
                v,
                mode,
                a,
                b,
            )
            &&& mode == SortMode::DateModified && v[a as int].modified_at > v[b as int].modified_at
                ==> listed_before(v, mode, a, b)
            &&& mode == SortMode::Name && str_lower(v[a as int].name) == str_lower(v[b as int].name) ==> (
            listed_before(v, mode, a, b) <==> a < b)
            &&& mode == SortMode::DateCreated && v[a as int].created_at == v[b as int].created_at ==> (
            listed_before(v, mode, a, b) <==> a < b)
            &&& mode == SortMode::DateModified && v[a as int].modified_at == v[b as int].modified_at ==> (
            listed_before(v, mode, a, b) <==> a < b)
        },
{
    lemma_lex_irreflexive(str_lower(v[a as int].name));
}

/// In a sorted listing no entry that is not a favorite comes before a favorite.
pub proof fn law_favorites_listed_first(v: Seq<EntryView>, mode: SortMode, s: Seq<usize>, i: int, j: int)
    requires
        listing_sorted(v, mode, s),
        0 <= i < j < s.len(),
    ensures
        v[s[j] as int].favorite ==> v[s[i] as int].favorite,
{
    assert(listed_before(v, mode, s[i], s[j]));
    law_list_order(v, mode, s[i], s[j]);
}

/// A list of entry positions in the list order, strictly.
pub open spec fn listing_sorted(v: Seq<EntryView>, mode: SortMode, s: Seq<usize>) -> bool {
    forall|i: int, j: int| 0 <= i < j < s.len() ==> listed_before(v, mode, #[trigger] s[i], #[trigger] s[j])
}

/// The list order is a strict total order on positions.
pub proof fn lemma_listed_order(v: Seq<EntryView>, mode: SortMode, a: usize, b: usize, c: usize)
    ensures
        !listed_before(v, mode, a, a),
        a != b ==> listed_before(v, mode, a, b) || listed_before(v, mode, b, a),
        !(listed_before(v, mode, a, b) && listed_before(v, mode, b, a)),
        listed_before(v, mode, a, b) && listed_before(v, mode, b, c) ==> listed_before(v, mode, a, c),
{
    let (ea, eb, ec) = (v[a as int], v[b as int], v[c as int]);
    lemma_lex_irreflexive(str_lower(ea.name));
    lemma_lex_total(str_lower(ea.name), str_lower(eb.name));
    lemma_lex_total(str_lower(eb.name), str_lower(ec.name));
    lemma_lex_total(str_lower(ea.name), str_lower(ec.name));
    if lex_lt(str_lower(ea.name), str_lower(eb.name)) && lex_lt(str_lower(eb.name), str_lower(ec.name)) {
        lemma_lex_transitive(str_lower(ea.name), str_lower(eb.name), str_lower(ec.name));
    }
    lemma_lex_irreflexive(str_lower(eb.name));
    lemma_lex_irreflexive(str_lower(ec.name));
}

/// The case-folded names of all entries.
pub(crate) fn lowered_names(entries: &Vec<Entry>) -> (r: Vec<Vec<char>>)
    ensures
        r@.len() == entries@.len(),
        forall|i: int| 0 <= i < r@.len() ==> #[trigger] r@[i]@ == str_lower(entries@[i].name@),
{
    let mut r: Vec<Vec<char>> = Vec::new();
    let mut i: usize = 0;
    while i < entries.len()
        invariant
            i <= entries@.len(),
            r@.len() == i,
            forall|j: int| 0 <= j < i ==> #[trigger] r@[j]@ == str_lower(entries@[j].name@),
        decreases entries@.len() - i,
    {
        let l = to_lower(entries[i].name.as_str());
        r.push(chars_of(l.as_str()));
        i = i + 1;
    }
    r
}

pub(crate) fn listed_before_exec(entries: &Vec<Entry>, names: &Vec<Vec<char>>, mode: SortMode, a: usize, b: usize) -> (r: bool)
    requires
        a < entries@.len(),
        b < entries@.len(),
        names@.len() == entries@.len(),
        forall|i: int| 0 <= i < names@.len() ==> #[trigger] names@[i]@ == str_lower(entries@[i].name@),
    ensures
        r == listed_before(crate::vault::entry_views(entries@), mode, a, b),
{
    let ea = &entries[a];
    let eb = &entries[b];
    proof {
        assert(crate::vault::entry_views(entries@)[a as int] == entries@[a as int]@);
        assert(crate::vault::entry_views(entries@)[b as int] == entries@[b as int]@);
        assert(names@[a as int]@ == str_lower(entries@[a as int].name@));
        assert(names@[b as int]@ == str_lower(entries@[b as int].name@));
    }
    if ea.favorite != eb.favorite {
        return ea.favorite;
    }
    let (before, same) = match mode {
        SortMode::Name => {
            let lt = lex_less(&names[a], &names[b]);
            let gt = lex_less(&names[b], &names[a]);
            proof {
                lemma_lex_total(names@[a as int]@, names@[b as int]@);
            }
            (lt, !lt && !gt)
        },
        SortMode::DateCreated => (ea.created_at > eb.created_at, ea.created_at == eb.created_at),
        SortMode::DateModified => (ea.modified_at > eb.modified_at, ea.modified_at == eb.modified_at),
    };
    before || (same && a < b)
}

/// Puts distinct entry positions into list order: favorites first, then by
/// the sort mode's key, ties kept in vault order.
pub fn sort_indices(entries: &Vec<Entry>, mode: SortMode, idx: Vec<usize>) -> (r: Vec<usize>)
    requires
        all_distinct(idx@),
        forall|i: int| 0 <= i < idx@.len() ==> #[trigger] idx@[i] < entries@.len(),
    ensures
        r@.len() == idx@.len(),
        listing_sorted(crate::vault::entry_views(entries@), mode, r@),
        forall|x: usize| r@.contains(x) <==> idx@.contains(x),
{
    let ghost v = crate::vault::entry_views(entries@);
    let names = lowered_names(entries);
    let mut r: Vec<usize> = Vec::new();
    for x in it: idx
        invariant
            it.seq() == idx@,
            all_distinct(idx@),
            forall|i: int| 0 <= i < idx@.len() ==> #[trigger] idx@[i] < entries@.len(),
            v == crate::vault::entry_views(entries@),
            names@.len() == entries@.len(),
            forall|i: int| 0 <= i < names@.len() ==> #[trigger] names@[i]@ == str_lower(entries@[i].name@),
            r@.len() == it.index(),
            listing_sorted(v, mode, r@),
            forall|y: usize| r@.contains(y) <==> idx@.take(it.index() as int).contains(y),
            forall|y: usize| r@.contains(y) ==> y < entries@.len(),
    {
        let ghost k = it.index();
        let ghost rv = r@;
        proof {
            assert(x == idx@[k as int]);
            if rv.contains(x) {
                let j = choose|j: int| 0 <= j < k && #[trigger] idx@.take(k as int)[j] == x;
                assert(idx@[j] == idx@[k as int]);
            }
        }
        let mut p: usize = 0;
        while p < r.len()
            invariant
                0 <= p <= r@.len(),
                rv == r@,
                x < entries@.len(),
                !rv.contains(x),
                forall|y: usize| rv.contains(y) ==> y < entries@.len(),
                v == crate::vault::entry_views(entries@),
                names@.len() == entries@.len(),
                forall|i: int| 0 <= i < names@.len() ==> #[trigger] names@[i]@ == str_lower(entries@[i].name@),
                forall|j: int| 0 <= j < p ==> listed_before(v, mode, #[trigger] rv[j], x),
            ensures
                0 <= p <= r@.len(),
                forall|j: int| 0 <= j < p ==> listed_before(v, mode, #[trigger] rv[j], x),
                p < r@.len() ==> listed_before(v, mode, x, rv[p as int]),
            decreases r@.len() - p,
        {
            assert(rv.contains(rv[p as int]));
            if listed_before_exec(entries, &names, mode, x, r[p]) {
                break;
            }
            proof {
                lemma_listed_order(v, mode, x, rv[p as int], x);
            }
            p = p + 1;
        }
        proof {
            let s = rv.insert(p as int, x);
            assert forall|i: int, j: int| 0 <= i < j < s.len() implies listed_before(v, mode, #[trigger] s[i], #[trigger] s[j]) by {
                if j < p {
                    assert(s[i] == rv[i] && s[j] == rv[j]);
                } else if j == p {
                    assert(s[i] == rv[i]);
                } else if i == p {
                    assert(s[j] == rv[j - 1]);
                    if j - 1 > p {
                        assert(listed_before(v, mode, rv[p as int], rv[j - 1]));
                        lemma_listed_order(v, mode, x, rv[p as int], rv[j - 1]);
                    }
                } else if i < p {
                    assert(s[i] == rv[i] && s[j] == rv[j - 1]);
                    if i < j - 1 {
                        assert(listed_before(v, mode, rv[i], rv[j - 1]));
                    }
                } else {
                    assert(s[i] == rv[i - 1] && s[j] == rv[j - 1]);
                }
            }
        }
        r.insert(p, x);
        proof {
            let s = rv.insert(p as int, x);
            assert(r@ == s);
            assert(idx@.take(k + 1) =~= idx@.take(k as int).push(x));
            assert forall|y: usize| s.contains(y) <==> idx@.take(k + 1).contains(y) by {
                if s.contains(y) && y != x {
                    let j = choose|j: int| 0 <= j < s.len() && s[j] == y;
                    if j < p {
                        assert(rv[j] == y);
                    } else {
                        assert(rv[j - 1] == y);
                    }
                }
                if rv.contains(y) {
                    let j = choose|j: int| 0 <= j < rv.len() && rv[j] == y;
                    if j < p {
                        assert(s[j] == y);
                    } else {
                        assert(s[j + 1] == y);
                    }
                }
                if y == x {
                    assert(s[p as int] == y);
                    assert(idx@.take(k + 1)[k as int] == y);
                }
                if idx@.take(k + 1).contains(y) && y != x {
                    let j = choose|j: int| 0 <= j < k + 1 && #[trigger] idx@.take(k + 1)[j] == y;
                    assert(idx@.take(k as int)[j] == y);
                }
            }
            assert forall|y: usize| s.contains(y) implies y < entries@.len() by {
                if y != x {
                    let j = choose|j: int| 0 <= j < s.len() && s[j] == y;
                    if j < p {
                        assert(rv[j] == y);
                    } else {
                        assert(rv[j - 1] == y);
                    }
                }
            }
        }
    }
    proof {
        assert(idx@.take(idx@.len() as int) =~= idx@);
    }
    r
}

} // verus!

verus! {

pub(crate) fn child_prefix_chars(c: &Vec<char>) -> (r: Vec<char>)
    ensures
        r@ == child_prefix(c@),
{
    let mut r = append_chars(c, &Vec::new());
    assert(r@ =~= c@);
    r.push('/');
    r
}

pub(crate) fn heading_of_exec(f: &Vec<char>, c: &Vec<char>) -> (r: Option<Vec<char>>)
    ensures
        match r {
            Some(h) => heading_of(f@, c@) == Some(h@),
            None => heading_of(f@, c@) is None,
        },
{
    if c.len() == 0 {
        if f.len() == 0 {
            None
        } else {
            Some(first_segment_chars(f))
        }
    } else if chars_eq(f, c) {
        None
    } else {
        let cp = child_prefix_chars(c);
        if starts_with_chars(f, &cp) {
            let rest = skip_chars(f, cp.len());
            let seg = first_segment_chars(&rest);
            Some(append_chars(&cp, &seg))
        } else {
            None
        }
    }
}

pub(crate) fn under_exec(f: &Vec<char>, h: &Vec<char>) -> (r: bool)
    ensures
        r == under(f@, h@),
{
    if chars_eq(f, h) {
        return true;
    }
    let hp = child_prefix_chars(h);
    starts_with_chars(f, &hp)
}

pub(crate) fn at_root_exec(f: &Vec<char>, c: &Vec<char>) -> (r: bool)
    ensures
        r == at_root_of(f@, c@),
{
    if c.len() == 0 {
        f.len() == 0
    } else {
        chars_eq(f, c)
    }
}

pub(crate) fn shown_exec(f: &Vec<char>, c: &Vec<char>, collapsed: &Vec<String>) -> (r: bool)
    ensures
        r == shown_in(f@, c@, views(collapsed@)),
{
    if c.len() == 0 {
        if f.len() == 0 {
            return true;
        }
        let top = first_segment_chars(f);
        !holds_string(collapsed, &top)
    } else {
        if chars_eq(f, c) {
            return true;
        }
        let cp = child_prefix_chars(c);
        starts_with_chars(f, &cp) && !holds_string(collapsed, f)
    }
}

} // verus!

verus! {

/// Strictly increasing positions.
pub open spec fn increasing(s: Seq<usize>) -> bool {
    forall|i: int, j: int| 0 <= i < j < s.len() ==> #[trigger] s[i] < #[trigger] s[j]
}

pub(crate) proof fn lemma_increasing_distinct(s: Seq<usize>)
    requires
        increasing(s),
    ensures
        all_distinct(s),
{
    assert forall|i: int, j: int| 0 <= i < s.len() && 0 <= j < s.len() && i != j implies s[i] != s[j] by {
        if i < j {
            assert(s[i] < s[j]);
        } else {
            assert(s[j] < s[i]);
        }
    }
}

/// The distinct headings that the entries contribute when the list shows folder `c`.
pub(crate) fn collect_headings(entries: &Vec<Entry>, c: &Vec<char>) -> (hs: Vec<String>)
    ensures
        all_distinct(views(hs@)),
        forall|h: Seq<char>| #[trigger] views(hs@).contains(h) <==> exists|i: int|
            0 <= i < entries@.len() && #[trigger] heading_of(entry_views(entries@)[i].folder, c@) == Some(h),
{
    let ghost v = entry_views(entries@);
    let mut hs: Vec<String> = Vec::new();
    let mut i: usize = 0;
    while i < entries.len()
        invariant
            v == entry_views(entries@),
            i <= entries@.len(),
            all_distinct(views(hs@)),
            forall|h: Seq<char>| #[trigger] views(hs@).contains(h) <==> exists|j: int|
                0 <= j < i && #[trigger] heading_of(v[j].folder, c@) == Some(h),
        decreases entries@.len() - i,
    {
        let f = chars_of(entries[i].folder.as_str());
        proof {
            assert(v[i as int].folder == f@);
        }
        let ghost before = views(hs@);
        match heading_of_exec(&f, c) {
            Some(h) => {
                if !holds_string(&hs, &h) {
                    hs.push(string_from_chars(h.as_slice()));
                    proof {
                        assert(views(hs@) =~= before.push(h@));
                        assert forall|a: int, b: int| 0 <= a < views(hs@).len() && 0 <= b < views(hs@).len() && a != b implies views(hs@)[a] != views(hs@)[b] by {
                            if a == before.len() as int {
                                assert(views(hs@)[b] == before[b]);
                                assert(before.contains(before[b]));
                            } else if b == before.len() as int {
                                assert(views(hs@)[a] == before[a]);
                                assert(before.contains(before[a]));
                            } else {
                                assert(views(hs@)[a] == before[a] && views(hs@)[b] == before[b]);
                            }
                        }
                    }
                }
                proof {
                    assert forall|g: Seq<char>| #[trigger] views(hs@).contains(g) <==> exists|j: int|
                        0 <= j < i + 1 && #[trigger] heading_of(v[j].folder, c@) == Some(g) by {
                        if views(hs@).contains(g) && !before.contains(g) {
                            assert(g == h@);
                            assert(heading_of(v[i as int].folder, c@) == Some(g));
                        }
                        if before.contains(g) {
                            let j = choose|j: int| 0 <= j < before.len() && before[j] == g;
                            assert(views(hs@)[j] == g);
                        }
                        if exists|j: int| 0 <= j < i + 1 && #[trigger] heading_of(v[j].folder, c@) == Some(g) {
                            let j = choose|j: int| 0 <= j < i + 1 && #[trigger] heading_of(v[j].folder, c@) == Some(g);
                            if j == i {
                                assert(g == h@);
                                if !before.contains(g) {
                                    assert(views(hs@)[before.len() as int] == g);
                                }
                            } else {
                                assert(before.contains(g));
                            }
                        }
                    }
                }
            },
            None => {
                proof {
                    assert forall|g: Seq<char>| #[trigger] views(hs@).contains(g) <==> exists|j: int|
                        0 <= j < i + 1 && #[trigger] heading_of(v[j].folder, c@) == Some(g) by {
                        if exists|j: int| 0 <= j < i + 1 && #[trigger] heading_of(v[j].folder, c@) == Some(g) {
                            let j = choose|j: int| 0 <= j < i + 1 && #[trigger] heading_of(v[j].folder, c@) == Some(g);
                            assert(j != i);
                        }
                    }
                }
            },
        }
        i = i + 1;
    }
    hs
}

} // verus!

verus! {

/// The positions of the entries listed in folder `c` with folders collapsed, in vault order.
pub(crate) fn shown_positions(entries: &Vec<Entry>, c: &Vec<char>, collapsed: &Vec<String>) -> (r: Vec<usize>)
    ensures
        increasing(r@),
        forall|j: int| 0 <= j < r@.len() ==> #[trigger] r@[j] < entries@.len(),
        forall|x: usize| #[trigger] r@.contains(x) <==> (x < entries@.len() && shown_in(
            entry_views(entries@)[x as int].folder,
            c@,
            views(collapsed@),
        )),
{
    let ghost v = entry_views(entries@);
    let mut r: Vec<usize> = Vec::new();
    let mut i: usize = 0;
    while i < entries.len()
        invariant
            v == entry_views(entries@),
            i <= entries@.len(),
            increasing(r@),
            forall|j: int| 0 <= j < r@.len() ==> #[trigger] r@[j] < i,
            forall|x: usize| #[trigger] r@.contains(x) <==> (x < i && shown_in(v[x as int].folder, c@, views(collapsed@))),
        decreases entries@.len() - i,
    {
        let f = chars_of(entries[i].folder.as_str());
        proof {
            assert(v[i as int].folder == f@);
        }
        let ghost before = r@;
        if shown_exec(&f, c, collapsed) {
            r.push(i);
            proof {
                assert forall|x: usize| #[trigger] r@.contains(x) <==> (x < i + 1 && shown_in(v[x as int].folder, c@, views(collapsed@))) by {
                    if r@.contains(x) && x != i {
                        let j = choose|j: int| 0 <= j < r@.len() && r@[j] == x;
                        assert(before[j] == x);
                        assert(before.contains(x));
                    }
                    if x < i && shown_in(v[x as int].folder, c@, views(collapsed@)) {
                        assert(before.contains(x));
                        let j = choose|j: int| 0 <= j < before.len() && before[j] == x;
                        assert(r@[j] == x);
                    }
                    if x == i {
                        assert(r@[before.len() as int] == x);
                    }
                }
            }
        }
        i = i + 1;
    }
    r
}

/// Folder `f` belongs to the group of `h`: under it, or (for `root`) directly in it.
pub open spec fn group_member(f: Seq<char>, h: Seq<char>, root: bool) -> bool {
    if root {
        at_root_of(f, h)
    } else {
        under(f, h)
    }
}

/// The positions of `from` whose folder lies under heading `h` (or, for
/// `root`, is directly in folder `h`), in the same order.
pub(crate) fn select_group(entries: &Vec<Entry>, from: &Vec<usize>, h: &Vec<char>, root: bool) -> (r: Vec<usize>)
    requires
        increasing(from@),
        forall|j: int| 0 <= j < from@.len() ==> #[trigger] from@[j] < entries@.len(),
    ensures
        increasing(r@),
        forall|x: usize| #[trigger] r@.contains(x) <==> (from@.contains(x) && group_member(
            entry_views(entries@)[x as int].folder,
            h@,
            root,
        )),
{
    let ghost v = entry_views(entries@);
    let mut r: Vec<usize> = Vec::new();
    let mut i: usize = 0;
    while i < from.len()
        invariant
            v == entry_views(entries@),
            increasing(from@),
            forall|j: int| 0 <= j < from@.len() ==> #[trigger] from@[j] < entries@.len(),
            i <= from@.len(),
            increasing(r@),
            forall|j: int| 0 <= j < r@.len() ==> exists|t: int| 0 <= t < i && #[trigger] from@[t] == #[trigger] r@[j],
            forall|x: usize| #[trigger] r@.contains(x) <==> (from@.take(i as int).contains(x) && group_member(v[x as int].folder, h@, root)),
        decreases from@.len() - i,
    {
        let x = from[i];
        let f = chars_of(entries[x].folder.as_str());
        proof {
            assert(v[x as int].folder == f@);
            assert(from@.take(i + 1) =~= from@.take(i as int).push(x));
        }
        let ghost before = r@;
        let member = if root { at_root_exec(&f, h) } else { under_exec(&f, h) };
        if member {
            r.push(x);
            proof {
                assert forall|a: int, b: int| 0 <= a < b < r@.len() implies #[trigger] r@[a] < #[trigger] r@[b] by {
                    if b == before.len() {
                        let t = choose|t: int| 0 <= t < i && #[trigger] from@[t] == #[trigger] before[a];
                        assert(from@[t] < from@[i as int]);
                    } else {
                        assert(before[a] < before[b]);
                    }
                }
                assert forall|j: int| 0 <= j < r@.len() implies exists|t: int| 0 <= t < i + 1 && #[trigger] from@[t] == #[trigger] r@[j] by {
                    if j == before.len() {
                        assert(from@[i as int] == r@[j]);
                    } else {
                        let t = choose|t: int| 0 <= t < i && #[trigger] from@[t] == #[trigger] before[j];
                        assert(from@[t] == r@[j]);
                    }
                }
                assert forall|y: usize| #[trigger] r@.contains(y) <==> (from@.take(i + 1).contains(y) && group_member(v[y as int].folder, h@, root)) by {
                    if from@.take(i + 1).contains(y) && y != x {
                        let j = choose|j: int| 0 <= j < i + 1 && #[trigger] from@.take(i + 1)[j] == y;
                        assert(from@.take(i as int)[j] == y);
                    }
                    if r@.contains(y) && y != x {
                        let j = choose|j: int| 0 <= j < r@.len() && r@[j] == y;
                        assert(before[j] == y);
                        assert(before.contains(y));
                    }
                    if from@.take(i as int).contains(y) && group_member(v[y as int].folder, h@, root) {
                        assert(before.contains(y));
                        let j = choose|j: int| 0 <= j < before.len() && before[j] == y;
                        assert(r@[j] == y);
                    }
                    if y == x {
                        assert(r@[before.len() as int] == y);
                        assert(from@.take(i + 1)[i as int] == y);
                    }
                }
            }
        } else {
            proof {
                assert forall|y: usize| #[trigger] r@.contains(y) <==> (from@.take(i + 1).contains(y) && group_member(v[y as int].folder, h@, root)) by {
                    if from@.take(i + 1).contains(y) && y != x {
                        let j = choose|j: int| 0 <= j < i + 1 && #[trigger] from@.take(i + 1)[j] == y;
                        assert(from@.take(i as int)[j] == y);
                    }
                    if from@.take(i as int).contains(y) {
                        let j = choose|j: int| 0 <= j < i && #[trigger] from@.take(i as int)[j] == y;
                        assert(from@.take(i + 1)[j] == y);
                    }
                }
            }
        }
        i = i + 1;
    }
    proof {
        assert(from@.take(from@.len() as int) =~= from@);
    }
    r
}

} // verus!

verus! {

pub(crate) proof fn lemma_heading_rows_step(s: Seq<Seq<char>>, groups: Seq<Seq<usize>>, g: Seq<usize>, k: Seq<Seq<char>>, j: int)
    requires
        0 <= j < s.len(),
        groups.len() == j,
    ensures
        heading_rows(s.take(j + 1), groups.push(g), k) == heading_rows(s.take(j), groups, k) + seq![
            RowView::Folder(s[j]),
        ] + (if k.contains(s[j]) {
            Seq::empty()
        } else {
            entry_rows(g)
        }),
{
    assert(s.take(j + 1).drop_last() =~= s.take(j));
    assert(groups.push(g).drop_last() =~= groups);
}

pub(crate) proof fn lemma_entries_of_rows_step(rows: Seq<RowView>, i: int)
    requires
        0 <= i < rows.len(),
    ensures
        entries_of_rows(rows.take(i + 1)) == entries_of_rows(rows.take(i)) + match rows[i] {
            RowView::Entry(x) => seq![x],
            RowView::Folder(_) => Seq::<usize>::empty(),
        },
{
    assert(rows.take(i + 1).drop_last() =~= rows.take(i));
}

/// The entry positions of a list of rows, in order.
pub(crate) fn entries_in_rows(rows: &Vec<ListRow>) -> (r: Vec<usize>)
    ensures
        r@ == entries_of_rows(row_views(rows@)),
{
    let ghost rv = row_views(rows@);
    let mut r: Vec<usize> = Vec::new();
    let mut i: usize = 0;
    while i < rows.len()
        invariant
            rv == row_views(rows@),
            i <= rows@.len(),
            r@ == entries_of_rows(rv.take(i as int)),
        decreases rows@.len() - i,
    {
        proof {
            lemma_entries_of_rows_step(rv, i as int);
        }
        match &rows[i] {
            ListRow::Entry(x) => {
                r.push(*x);
            },
            ListRow::Folder(_) => {},
        }
        i = i + 1;
    }
    proof {
        assert(rv.take(rows@.len() as int) =~= rv);
    }
    r
}

/// Appends an entry row for each position.
pub(crate) fn push_entry_rows(rows: &mut Vec<ListRow>, l: &Vec<usize>)
    ensures
        row_views(final(rows)@) == row_views(old(rows)@) + entry_rows(l@),
{
    let mut i: usize = 0;
    while i < l.len()
        invariant
            i <= l@.len(),
            row_views(rows@) == row_views(old(rows)@) + entry_rows(l@.take(i as int)),
        decreases l@.len() - i,
    {
        let ghost before = rows@;
        rows.push(ListRow::Entry(l[i]));
        proof {
            assert(row_views(rows@) =~= row_views(before).push(RowView::Entry(l@[i as int])));
            assert(entry_rows(l@.take(i + 1)) =~= entry_rows(l@.take(i as int)).push(RowView::Entry(l@[i as int])));
        }
        i = i + 1;
    }
    proof {
        assert(l@.take(l@.len() as int) =~= l@);
    }
}

pub(crate) proof fn lemma_at_root_shown(f: Seq<char>, c: Seq<char>, k: Seq<Seq<char>>)
    ensures
        at_root_of(f, c) ==> shown_in(f, c, k),
{
}

impl App {
    /// The list of folder `current_folder`: its direct subfolders as sorted
    /// headings, each followed (unless collapsed) by the listed entries in
    /// it, then the entries directly in the folder; and the entry positions
    /// of those rows.
    fn build_folder_rows(&mut self)
        ensures
            *final(self) == (App {
                list_rows: final(self).list_rows,
                filtered_indices: final(self).filtered_indices,
                ..*old(self)
            }),
            folder_view(
                old(self).vault@,
                old(self).sort_mode,
                old(self).current_folder@,
                views(old(self).collapsed_folders@),
                row_views(final(self).list_rows@),
            ),
            final(self).filtered_indices@ == entries_of_rows(row_views(final(self).list_rows@)),
    {
        let ghost v = self.vault@;
        let ghost k = views(self.collapsed_folders@);
        let ghost mode = self.sort_mode;
        let c = chars_of(self.current_folder.as_str());
        let hs = collect_headings(&self.vault.entries, &c);
        let sorted = sort_strings(hs);
        let ghost sv = views(sorted@);
        let shown = shown_positions(&self.vault.entries, &c, &self.collapsed_folders);
        let mut rows: Vec<ListRow> = Vec::new();
        let ghost mut groups: Seq<Seq<usize>> = Seq::empty();
        let mut j: usize = 0;
        while j < sorted.len()
            invariant
                v == self.vault@,
                v == entry_views(self.vault.entries@),
                k == views(self.collapsed_folders@),
                mode == self.sort_mode,
                sv == views(sorted@),
                c@ == self.current_folder@,
                j <= sorted@.len(),
                groups.len() == j,
                increasing(shown@),
                forall|t: int| 0 <= t < shown@.len() ==> #[trigger] shown@[t] < self.vault.entries@.len(),
                forall|x: usize| #[trigger] shown@.contains(x) <==> (x < self.vault.entries@.len() && shown_in(
                    v[x as int].folder,
                    c@,
                    k,
                )),
                forall|t: int| 0 <= t < j && !k.contains(sv[t]) ==> is_listing(
                    v,
                    mode,
                    #[trigger] groups[t],
                    |x: usize| shown_in(v[x as int].folder, c@, k) && under(v[x as int].folder, sv[t]),
                ),
                row_views(rows@) == heading_rows(sv.take(j as int), groups, k),
            decreases sorted@.len() - j,
        {
            let h = chars_of(sorted[j].as_str());
            proof {
                assert(h@ == sv[j as int]);
            }
            let ghost before = row_views(rows@);
            rows.push(ListRow::Folder(copy_string(&sorted[j])));
            proof {
                assert(row_views(rows@) =~= before.push(RowView::Folder(sv[j as int])));
            }
            if !holds_string(&self.collapsed_folders, &h) {
                let sel = select_group(&self.vault.entries, &shown, &h, false);
                proof {
                    lemma_increasing_distinct(sel@);
                    assert forall|i: int| 0 <= i < sel@.len() implies #[trigger] sel@[i] < self.vault.entries@.len() by {
                        assert(sel@.contains(sel@[i]));
                        assert(shown@.contains(sel@[i]));
                    }
                }
                let group = sort_indices(&self.vault.entries, self.sort_mode, sel);
                let ghost mid = row_views(rows@);
                push_entry_rows(&mut rows, &group);
                proof {
                    lemma_heading_rows_step(sv, groups, group@, k, j as int);
                    assert(row_views(rows@) =~= heading_rows(sv.take(j as int), groups, k) + seq![RowView::Folder(sv[j as int])] + entry_rows(group@));
                    assert forall|x: usize| group@.contains(x) <==> (x < v.len() && (shown_in(v[x as int].folder, c@, k) && under(v[x as int].folder, sv[j as int]))) by {
                        if group@.contains(x) {
                            assert(sel@.contains(x));
                            assert(shown@.contains(x));
                        }
                        if x < v.len() && shown_in(v[x as int].folder, c@, k) && under(v[x as int].folder, sv[j as int]) {
                            assert(shown@.contains(x));
                            assert(sel@.contains(x));
                        }
                    }
                    groups = groups.push(group@);
                }
            } else {
                proof {
                    lemma_heading_rows_step(sv, groups, Seq::empty(), k, j as int);
                    assert(row_views(rows@) =~= heading_rows(sv.take(j as int), groups, k) + seq![RowView::Folder(sv[j as int])] + Seq::empty());
                    groups = groups.push(Seq::empty());
                }
            }
            j = j + 1;
        }
        let sel = select_group(&self.vault.entries, &shown, &c, true);
        proof {
            lemma_increasing_distinct(sel@);
            assert forall|i: int| 0 <= i < sel@.len() implies #[trigger] sel@[i] < self.vault.entries@.len() by {
                assert(sel@.contains(sel@[i]));
                assert(shown@.contains(sel@[i]));
            }
        }
        let root = sort_indices(&self.vault.entries, self.sort_mode, sel);
        let ghost heads = row_views(rows@);
        push_entry_rows(&mut rows, &root);
        let filtered = entries_in_rows(&rows);
        proof {
            assert(sv.take(sv.len() as int) =~= sv);
            assert forall|x: usize| root@.contains(x) <==> (x < v.len() && at_root_of(v[x as int].folder, c@)) by {
                if x < v.len() {
                    lemma_at_root_shown(v[x as int].folder, c@, k);
                }
                if root@.contains(x) {
                    assert(sel@.contains(x));
                    assert(shown@.contains(x));
                }
                if x < v.len() && at_root_of(v[x as int].folder, c@) {
                    assert(shown@.contains(x));
                    assert(sel@.contains(x));
                }
            }
            assert forall|h: Seq<char>| #[trigger] sv.contains(h) <==> exists|i: int|
                0 <= i < v.len() && #[trigger] heading_of(v[i].folder, c@) == Some(h) by {
                assert(sv.contains(h) <==> views(hs@).contains(h));
            }
            assert(all_distinct(sv));
            assert(lex_sorted(sv));
            assert(groups.len() == sv.len());
            assert(is_listing(v, mode, root@, |x: usize| at_root_of(v[x as int].folder, c@)));
            assert(row_views(rows@) == heading_rows(sv, groups, k) + entry_rows(root@));
            assert(folder_layout(v, mode, c@, k, sv, groups, root@, row_views(rows@)));
        }
        self.list_rows = rows;
        self.filtered_indices = filtered;
    }
}

} // verus!

verus! {

/// The positions of the entries that match a query, in vault order.
pub(crate) fn matching_positions(entries: &Vec<Entry>, query: &str) -> (r: Vec<usize>)
    ensures
        increasing(r@),
        forall|j: int| 0 <= j < r@.len() ==> #[trigger] r@[j] < entries@.len(),
        forall|x: usize| #[trigger] r@.contains(x) <==> (x < entries@.len() && entry_matches(
            entry_views(entries@)[x as int],
            query@,
        )),
{
    let ghost v = entry_views(entries@);
    let mut r: Vec<usize> = Vec::new();
    let mut i: usize = 0;
    while i < entries.len()
        invariant
            v == entry_views(entries@),
            i <= entries@.len(),
            increasing(r@),
            forall|j: int| 0 <= j < r@.len() ==> #[trigger] r@[j] < i,
            forall|x: usize| #[trigger] r@.contains(x) <==> (x < i && entry_matches(v[x as int], query@)),
        decreases entries@.len() - i,
    {
        proof {
            assert(v[i as int] == entries@[i as int]@);
        }
        let ghost before = r@;
        if entries[i].matches(query) {
            r.push(i);
            proof {
                assert forall|x: usize| #[trigger] r@.contains(x) <==> (x < i + 1 && entry_matches(v[x as int], query@)) by {
                    if r@.contains(x) && x != i {
                        let j = choose|j: int| 0 <= j < r@.len() && r@[j] == x;
                        assert(before[j] == x);
                        assert(before.contains(x));
                    }
                    if x < i && entry_matches(v[x as int], query@) {
                        assert(before.contains(x));
                        let j = choose|j: int| 0 <= j < before.len() && before[j] == x;
                        assert(r@[j] == x);
                    }
                    if x == i {
                        assert(r@[before.len() as int] == x);
                    }
                }
            }
        }
        i = i + 1;
    }
    r
}

/// `post` is `pre` with its entry list rebuilt: while searching, the
/// entries that match the query, in list order; otherwise the view of the
/// current folder (see [`folder_view`]). The selection is kept within the
/// list; nothing else changes.
pub open spec fn list_rebuilt(pre: App, post: App) -> bool {
    &&& post == (App {
        list_rows: post.list_rows,
        filtered_indices: post.filtered_indices,
        selected: post.selected,
        ..pre
    })
    &&& pre.search_query@.len() > 0 ==> {
        &&& is_listing(
            pre.vault@,
            pre.sort_mode,
            post.filtered_indices@,
            |x: usize| entry_matches(pre.vault@[x as int], pre.search_query@),
        )
        &&& row_views(post.list_rows@) == entry_rows(post.filtered_indices@)
    }
    &&& pre.search_query@.len() == 0 ==> {
        &&& folder_view(
            pre.vault@,
            pre.sort_mode,
            pre.current_folder@,
            views(pre.collapsed_folders@),
            row_views(post.list_rows@),
        )
        &&& post.filtered_indices@ == entries_of_rows(row_views(post.list_rows@))
    }
    &&& post.selected == clamp_selection(pre.selected, post.list_rows@.len())
}

/// Where the selection lands when the list has `n` rows: it stays unless
/// it is past the end, and then moves to the last row (or 0 for an empty list).
pub open spec fn clamp_selection(selected: usize, n: nat) -> usize {
    if selected >= n {
        if n > 0 {
            (n - 1) as usize
        } else {
            0
        }
    } else {
        selected
    }
}

impl App {
    /// The list while searching: the entries that match the query, in list order.
    fn build_search_rows(&mut self)
        ensures
            *final(self) == (App {
                list_rows: final(self).list_rows,
                filtered_indices: final(self).filtered_indices,
                ..*old(self)
            }),
            is_listing(
                old(self).vault@,
                old(self).sort_mode,
                final(self).filtered_indices@,
                |x: usize| entry_matches(old(self).vault@[x as int], old(self).search_query@),
            ),
            row_views(final(self).list_rows@) == entry_rows(final(self).filtered_indices@),
    {
            let found = matching_positions(&self.vault.entries, self.search_query.as_str());
            proof {
                lemma_increasing_distinct(found@);
            }
            let sorted = sort_indices(&self.vault.entries, self.sort_mode, found);
            let mut rows: Vec<ListRow> = Vec::new();
            push_entry_rows(&mut rows, &sorted);
            proof {
                assert(row_views(rows@) =~= entry_rows(sorted@));
                assert forall|x: usize| sorted@.contains(x) <==> (x < self.vault@.len() && entry_matches(self.vault@[x as int], self.search_query@)) by {
                    if sorted@.contains(x) {
                        assert(found@.contains(x));
                    }
                    if x < self.vault@.len() && entry_matches(self.vault@[x as int], self.search_query@) {
                        assert(found@.contains(x));
                    }
                }
            }
            self.filtered_indices = sorted;
            self.list_rows = rows;
    }

    /// Rebuilds the entry list. While searching, it lists the entries that
    /// match the query, in list order; otherwise it shows the current folder
    /// (see [`folder_view`]). The selection is kept within the list.
    pub fn update_filter(&mut self)
        ensures
            list_rebuilt(*old(self), *final(self)),
    {
        if !self.search_query.as_str().is_empty() {
            self.build_search_rows();
        } else {
            proof {
                assert(self.search_query@.len() == 0);
            }
            self.build_folder_rows();
        }
        if self.selected >= self.list_rows.len() {
            self.selected = if self.list_rows.len() > 0 { self.list_rows.len() - 1 } else { 0 };
        }
    }
}

} // verus!

verus! {

/// Every row and every listed position of the entry list names an entry of
/// the vault.
pub open spec fn rows_valid(a: App) -> bool {
    &&& forall|i: int| 0 <= i < a.list_rows@.len() ==> (#[trigger] a.list_rows@[i] matches ListRow::Entry(x)
        ==> x < a.vault.entries@.len())
    &&& forall|i: int| 0 <= i < a.filtered_indices@.len() ==> #[trigger] a.filtered_indices@[i] < a.vault.entries@.len()
}

pub(crate) proof fn lemma_heading_rows_valid(s: Seq<Seq<char>>, groups: Seq<Seq<usize>>, k: Seq<Seq<char>>, n: nat)
    requires
        forall|j: int| 0 <= j < groups.len() && !k.contains(s[j]) ==> forall|t: int| 0 <= t < groups[j].len() ==> #[trigger] groups[j][t] < n,
        groups.len() == s.len(),
    ensures
        forall|i: int| 0 <= i < heading_rows(s, groups, k).len() ==> (#[trigger] heading_rows(s, groups, k)[i] matches RowView::Entry(x) ==> x < n),
    decreases s.len(),
{
    if s.len() > 0 {
        let sd = s.drop_last();
        let gd = groups.drop_last();
        assert forall|j: int| 0 <= j < gd.len() && !k.contains(sd[j]) implies forall|t: int| 0 <= t < gd[j].len() ==> #[trigger] gd[j][t] < n by {
            assert(gd[j] == groups[j] && sd[j] == s[j]);
        }
        lemma_heading_rows_valid(sd, gd, k, n);
        let last = if k.contains(s.last()) { Seq::empty() } else { entry_rows(groups.last()) };
        let rows = heading_rows(sd, gd, k) + seq![RowView::Folder(s.last())] + last;
        assert(heading_rows(s, groups, k) == rows);
        assert forall|i: int| 0 <= i < rows.len() implies (#[trigger] rows[i] matches RowView::Entry(x) ==> x < n) by {
            if i >= heading_rows(sd, gd, k).len() + 1 && !k.contains(s.last()) {
                let t = i - heading_rows(sd, gd, k).len() - 1;
                assert(rows[i] == RowView::Entry(groups.last()[t]));
                assert(groups[groups.len() - 1][t] < n);
            } else if i < heading_rows(sd, gd, k).len() {
                assert(rows[i] == heading_rows(sd, gd, k)[i]);
            }
        }
    }
}

pub(crate) proof fn lemma_entries_of_rows_valid(rows: Seq<RowView>, n: nat)
    requires
        forall|i: int| 0 <= i < rows.len() ==> (#[trigger] rows[i] matches RowView::Entry(x) ==> x < n),
    ensures
        forall|i: int| 0 <= i < entries_of_rows(rows).len() ==> #[trigger] entries_of_rows(rows)[i] < n,
    decreases rows.len(),
{
    if rows.len() > 0 {
        lemma_entries_of_rows_valid(rows.drop_last(), n);
        assert(rows.drop_last().len() == rows.len() - 1);
        assert forall|i: int| 0 <= i < rows.drop_last().len() implies (#[trigger] rows.drop_last()[i] matches RowView::Entry(x) ==> x < n) by {
            assert(rows.drop_last()[i] == rows[i]);
        }
        assert(rows[rows.len() - 1] == rows.last());
        let prev = entries_of_rows(rows.drop_last());
        assert forall|i: int| 0 <= i < entries_of_rows(rows).len() implies #[trigger] entries_of_rows(rows)[i] < n by {
            if i < prev.len() {
                assert(entries_of_rows(rows)[i] == prev[i]);
            } else {
                match rows.last() {
                    RowView::Entry(x) => {
                        assert(entries_of_rows(rows)[i] == x);
                    },
                    RowView::Folder(_) => {},
                }
            }
        }
    }
}

/// A rebuilt list names only entries of the vault.
pub proof fn law_rebuilt_rows_valid(pre: App, post: App)
    requires
        list_rebuilt(pre, post),
    ensures
        rows_valid(post),
{
    let v = pre.vault@;
    assert(v.len() == pre.vault.entries@.len());
    let rv = row_views(post.list_rows@);
    if pre.search_query@.len() > 0 {
        assert forall|i: int| 0 <= i < post.filtered_indices@.len() implies #[trigger] post.filtered_indices@[i] < post.vault.entries@.len() by {
            assert(post.filtered_indices@.contains(post.filtered_indices@[i]));
        }
        assert forall|i: int| 0 <= i < post.list_rows@.len() implies (#[trigger] post.list_rows@[i] matches ListRow::Entry(x) ==> x < post.vault.entries@.len()) by {
            assert(rv[i] == post.list_rows@[i]@);
            assert(rv.len() == post.list_rows@.len());
            assert(i < post.filtered_indices@.len());
            assert(entry_rows(post.filtered_indices@)[i] == RowView::Entry(post.filtered_indices@[i]));
            assert(post.filtered_indices@.contains(post.filtered_indices@[i]));
        }
    } else {
        let (s, groups, root) = choose|s: Seq<Seq<char>>, groups: Seq<Seq<usize>>, root: Seq<usize>| #[trigger] folder_layout(v, pre.sort_mode, pre.current_folder@, views(pre.collapsed_folders@), s, groups, root, rv);
        let k = views(pre.collapsed_folders@);
        assert forall|j: int| 0 <= j < groups.len() && !k.contains(s[j]) implies forall|t: int| 0 <= t < groups[j].len() ==> #[trigger] groups[j][t] < v.len() by {
            assert forall|t: int| 0 <= t < groups[j].len() implies #[trigger] groups[j][t] < v.len() by {
                assert(groups[j].contains(groups[j][t]));
            }
        }
        lemma_heading_rows_valid(s, groups, k, v.len());
        let hr = heading_rows(s, groups, k);
        assert forall|i: int| 0 <= i < rv.len() implies (#[trigger] rv[i] matches RowView::Entry(x) ==> x < v.len()) by {
            if i < hr.len() {
                assert(rv[i] == hr[i]);
            } else {
                assert(rv[i] == RowView::Entry(root[i - hr.len()]));
                assert(root.contains(root[i - hr.len()]));
            }
        }
        lemma_entries_of_rows_valid(rv, v.len());
        assert forall|i: int| 0 <= i < post.list_rows@.len() implies (#[trigger] post.list_rows@[i] matches ListRow::Entry(x) ==> x < post.vault.entries@.len()) by {
            assert(rv[i] == post.list_rows@[i]@);
        }
    }
}

} // verus!

verus! {

impl App {
    /// Whether every row and listed position of the entry list names an
    /// entry of the vault (see [`rows_valid`]).
    pub fn rows_are_valid(&self) -> (r: bool)
        ensures
            r == rows_valid(*self),
    {
        let n = self.vault.entries.len();
        let mut i: usize = 0;
        while i < self.list_rows.len()
            invariant
                n == self.vault.entries@.len(),
                i <= self.list_rows@.len(),
                forall|k: int| 0 <= k < i ==> (#[trigger] self.list_rows@[k] matches ListRow::Entry(x) ==> x < n),
            decreases self.list_rows@.len() - i,
        {
            match &self.list_rows[i] {
                ListRow::Entry(x) => {
                    if *x >= n {
                        return false;
                    }
                },
                ListRow::Folder(_) => {},
            }
            i = i + 1;
        }
        let mut j: usize = 0;
        while j < self.filtered_indices.len()
            invariant
                n == self.vault.entries@.len(),
                j <= self.filtered_indices@.len(),
                forall|k: int| 0 <= k < self.list_rows@.len() ==> (#[trigger] self.list_rows@[k] matches ListRow::Entry(x) ==> x < n),
                forall|k: int| 0 <= k < j ==> #[trigger] self.filtered_indices@[k] < n,
            decreases self.filtered_indices@.len() - j,
        {
            if self.filtered_indices[j] >= n {
                return false;
            }
            j = j + 1;
        }
        true
    }
}

} // verus!
