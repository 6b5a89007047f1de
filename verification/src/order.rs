//! Orderings: lexicographic order of character sequences (the order of
//! Rust strings) and the order of the entry list.
use vstd::prelude::*;

verus! {

/// `a` comes strictly before `b` in lexicographic (code point) order.
pub open spec fn lex_lt(a: Seq<char>, b: Seq<char>) -> bool
    decreases a.len(),
{
    if a.len() == 0 {
        b.len() > 0
    } else if b.len() == 0 {
        false
    } else if a[0] < b[0] {
        true
    } else if a[0] > b[0] {
        false
    } else {
        lex_lt(a.drop_first(), b.drop_first())
    }
}

/// Nothing comes before itself.
pub proof fn lemma_lex_irreflexive(a: Seq<char>)
    ensures
        !lex_lt(a, a),
    decreases a.len(),
{
    if a.len() > 0 {
        lemma_lex_irreflexive(a.drop_first());
    }
}

/// Of two different sequences, one comes before the other, and not both.
pub proof fn lemma_lex_total(a: Seq<char>, b: Seq<char>)
    ensures
        a != b ==> lex_lt(a, b) || lex_lt(b, a),
        !(lex_lt(a, b) && lex_lt(b, a)),
    decreases a.len(),
{
    if a.len() > 0 && b.len() > 0 && a[0] == b[0] {
        lemma_lex_total(a.drop_first(), b.drop_first());
        if a != b {
            assert(a =~= seq![a[0]] + a.drop_first());
            assert(b =~= seq![b[0]] + b.drop_first());
        }
    } else if a.len() == 0 && b.len() == 0 {
        assert(a =~= b);
    }
}

/// The order is transitive.
pub proof fn lemma_lex_transitive(a: Seq<char>, b: Seq<char>, c: Seq<char>)
    requires
        lex_lt(a, b),
        lex_lt(b, c),
    ensures
        lex_lt(a, c),
    decreases a.len(),
{
    if a.len() > 0 && b.len() > 0 && c.len() > 0 && a[0] == b[0] && b[0] == c[0] {
        lemma_lex_transitive(a.drop_first(), b.drop_first(), c.drop_first());
    }
}

proof fn lemma_lex_skip(a: Seq<char>, b: Seq<char>, i: int)
    requires
        0 <= i < a.len(),
        i < b.len(),
        a[i] == b[i],
    ensures
        lex_lt(a.skip(i), b.skip(i)) == lex_lt(a.skip(i + 1), b.skip(i + 1)),
{
    assert(a.skip(i).drop_first() =~= a.skip(i + 1));
    assert(b.skip(i).drop_first() =~= b.skip(i + 1));
}

/// Whether `a` comes strictly before `b` in lexicographic order.
pub fn lex_less(a: &Vec<char>, b: &Vec<char>) -> (r: bool)
    ensures
        r == lex_lt(a@, b@),
{
    let mut i: usize = 0;
    assert(a@.skip(0) =~= a@);
    assert(b@.skip(0) =~= b@);
    loop
        invariant
            i <= a@.len(),
            i <= b@.len(),
            lex_lt(a@, b@) == lex_lt(a@.skip(i as int), b@.skip(i as int)),
        decreases a@.len() - i,
    {
        if i == a.len() {
            return i < b.len();
        }
        if i == b.len() {
            return false;
        }
        if a[i] < b[i] {
            return true;
        }
        if a[i] > b[i] {
            return false;
        }
        proof {
            lemma_lex_skip(a@, b@, i as int);
        }
        i = i + 1;
    }
}

/// A sequence in strictly increasing lexicographic order.
pub open spec fn lex_sorted(s: Seq<Seq<char>>) -> bool {
    forall|i: int, j: int| 0 <= i < j < s.len() ==> lex_lt(#[trigger] s[i], #[trigger] s[j])
}

} // verus!

verus! {

/// No two elements of the sequence are equal.
pub open spec fn all_distinct<T>(s: Seq<T>) -> bool {
    forall|i: int, j: int| 0 <= i < s.len() && 0 <= j < s.len() && i != j ==> s[i] != s[j]
}

proof fn lemma_insert_sorted(r: Seq<Seq<char>>, p: int, x: Seq<char>)
    requires
        lex_sorted(r),
        0 <= p <= r.len(),
        forall|j: int| 0 <= j < p ==> lex_lt(#[trigger] r[j], x),
        p < r.len() ==> lex_lt(x, r[p]),
    ensures
        lex_sorted(r.insert(p, x)),
{
    let s = r.insert(p, x);
    assert forall|i: int, j: int| 0 <= i < j < s.len() implies lex_lt(#[trigger] s[i], #[trigger] s[j]) by {
        if j < p {
            assert(s[i] == r[i] && s[j] == r[j]);
        } else if j == p {
            assert(s[i] == r[i]);
        } else if i == p {
            assert(s[j] == r[j - 1]);
            if j - 1 > p {
                assert(lex_lt(r[p], r[j - 1]));
                lemma_lex_transitive(x, r[p], r[j - 1]);
            }
        } else if i < p {
            assert(s[i] == r[i] && s[j] == r[j - 1]);
            if i < j - 1 {
                assert(lex_lt(r[i], r[j - 1]));
            }
        } else {
            assert(s[i] == r[i - 1] && s[j] == r[j - 1]);
        }
    }
}

/// Sorts distinct strings into increasing lexicographic order.
pub fn sort_strings(v: Vec<String>) -> (r: Vec<String>)
    requires
        all_distinct(crate::text::views(v@)),
    ensures
        r@.len() == v@.len(),
        lex_sorted(crate::text::views(r@)),
        all_distinct(crate::text::views(r@)),
        forall|x: Seq<char>| crate::text::views(r@).contains(x) <==> crate::text::views(v@).contains(x),
{
    let ghost vv = crate::text::views(v@);
    let mut r: Vec<String> = Vec::new();
    let mut i: usize = 0;
    let n = v.len();
    for s in it: v
        invariant
            it.seq() == v@,
            vv == crate::text::views(v@),
            all_distinct(vv),
            r@.len() == it.index(),
            lex_sorted(crate::text::views(r@)),
            forall|x: Seq<char>| crate::text::views(r@).contains(x) <==> vv.take(it.index() as int).contains(x),
    {
        let ghost k = it.index();
        let ghost rv = crate::text::views(r@);
        proof {
            assert(s@ == vv[k as int]);
            if rv.contains(s@) {
                let j = choose|j: int| 0 <= j < k && vv.take(k as int)[j] == s@;
                assert(vv[j] == vv[k as int]);
            }
        }
        let sc = crate::text::chars_of(s.as_str());
        let mut p: usize = 0;
        while p < r.len()
            invariant
                0 <= p <= r@.len(),
                sc@ == s@,
                rv == crate::text::views(r@),
                !rv.contains(s@),
                forall|j: int| 0 <= j < p ==> lex_lt(#[trigger] rv[j], s@),
            ensures
                0 <= p <= r@.len(),
                forall|j: int| 0 <= j < p ==> lex_lt(#[trigger] rv[j], s@),
                p < r@.len() ==> lex_lt(s@, rv[p as int]),
            decreases r@.len() - p,
        {
            let rc = crate::text::chars_of(r[p].as_str());
            if lex_less(&sc, &rc) {
                proof {
                    assert(rv[p as int] == r@[p as int]@);
                }
                break;
            }
            proof {
                assert(rv[p as int] == r@[p as int]@);
                assert(rv[p as int] != s@);
                lemma_lex_total(s@, rv[p as int]);
            }
            p = p + 1;
        }
        proof {
            if p < r@.len() {
                assert(rv[p as int] == r@[p as int]@);
            }
            lemma_insert_sorted(rv, p as int, s@);
        }
        r.insert(p, s);
        proof {
            assert(crate::text::views(r@) =~= rv.insert(p as int, s@));
            assert(vv.take(k + 1) =~= vv.take(k as int).push(s@));
            assert forall|x: Seq<char>| crate::text::views(r@).contains(x) <==> vv.take(k + 1).contains(x) by {
                if rv.insert(p as int, s@).contains(x) && x != s@ {
                    let j = choose|j: int| 0 <= j < rv.insert(p as int, s@).len() && rv.insert(p as int, s@)[j] == x;
                    if j < p {
                        assert(rv[j] == x);
                    } else {
                        assert(rv[j - 1] == x);
                    }
                }
                if rv.contains(x) {
                    let j = choose|j: int| 0 <= j < rv.len() && rv[j] == x;
                    if j < p {
                        assert(rv.insert(p as int, s@)[j] == x);
                    } else {
                        assert(rv.insert(p as int, s@)[j + 1] == x);
                    }
                }
                if x == s@ {
                    assert(rv.insert(p as int, s@)[p as int] == x);
                    assert(vv.take(k + 1)[k as int] == x);
                }
                if vv.take(k + 1).contains(x) && x != s@ {
                    let j = choose|j: int| 0 <= j < k + 1 && #[trigger] vv.take(k + 1)[j] == x;
                    assert(vv.take(k as int)[j] == x);
                }
            }
        }
    }
    proof {
        assert(vv.take(vv.len() as int) =~= vv);
        let rv = crate::text::views(r@);
        assert forall|i: int, j: int| 0 <= i < rv.len() && 0 <= j < rv.len() && i != j implies rv[i] != rv[j] by {
            if i < j {
                assert(lex_lt(rv[i], rv[j]));
                lemma_lex_irreflexive(rv[i]);
            } else {
                assert(lex_lt(rv[j], rv[i]));
                lemma_lex_irreflexive(rv[j]);
            }
        }
    }
    r
}

} // verus!
