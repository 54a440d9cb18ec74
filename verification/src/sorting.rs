//! Sorting lists of strings and removing duplicates, as `sort` followed by
//! `dedup` does on a `Vec<String>`.
use vstd::prelude::*;

use crate::text::{chars_of, eq_chars, string_views};

verus! {

/// Lexicographic order of character sequences by code point, which is the
/// order `String`'s `Ord` uses (UTF-8 preserves code point order).
pub open spec fn lex_lt(a: Seq<char>, b: Seq<char>) -> bool
    decreases a.len(),
{
    if a.len() == 0 {
        b.len() > 0
    } else if b.len() == 0 {
        false
    } else if a[0] < b[0] {
        true
    } else if a[0] == b[0] {
        lex_lt(a.drop_first(), b.drop_first())
    } else {
        false
    }
}

pub proof fn lemma_lex_irreflexive(a: Seq<char>)
    ensures
        !lex_lt(a, a),
    decreases a.len(),
{
    if a.len() > 0 {
        lemma_lex_irreflexive(a.drop_first());
    }
}

pub proof fn lemma_lex_transitive(a: Seq<char>, b: Seq<char>, c: Seq<char>)
    requires
        lex_lt(a, b),
        lex_lt(b, c),
    ensures
        lex_lt(a, c),
    decreases a.len(),
{
    if a.len() > 0 && b.len() > 0 && c.len() > 0 {
        if a[0] == b[0] && b[0] == c[0] {
            lemma_lex_transitive(a.drop_first(), b.drop_first(), c.drop_first());
        }
    }
}

pub proof fn lemma_lex_total(a: Seq<char>, b: Seq<char>)
    ensures
        a == b || lex_lt(a, b) || lex_lt(b, a),
    decreases a.len(),
{
    if a.len() > 0 && b.len() > 0 {
        if a[0] == b[0] {
            lemma_lex_total(a.drop_first(), b.drop_first());
            if a.drop_first() == b.drop_first() {
                assert(a =~= seq![a[0]] + a.drop_first());
                assert(b =~= seq![b[0]] + b.drop_first());
            }
        }
    } else if a.len() == 0 && b.len() == 0 {
        assert(a =~= b);
    }
}

pub proof fn lemma_lex_asymmetric(a: Seq<char>, b: Seq<char>)
    requires
        lex_lt(a, b),
    ensures
        !lex_lt(b, a),
{
    if lex_lt(b, a) {
        lemma_lex_transitive(a, b, a);
        lemma_lex_irreflexive(a);
    }
}

/// Is `a` before `b`?
pub fn lex_lt_exec(a: &[char], b: &[char]) -> (r: bool)
    ensures
        r == lex_lt(a@, b@),
{
    let mut i: usize = 0;
    assert(a@.skip(0) == a@);
    assert(b@.skip(0) == b@);
    while i < a.len() && i < b.len()
        invariant
            i <= a.len(),
            i <= b.len(),
            lex_lt(a@, b@) == lex_lt(a@.skip(i as int), b@.skip(i as int)),
        decreases a.len() - i,
    {
        if a[i] < b[i] {
            return true;
        }
        if a[i] != b[i] {
            return false;
        }
        assert(a@.skip(i as int).drop_first() == a@.skip(i + 1));
        assert(b@.skip(i as int).drop_first() == b@.skip(i + 1));
        i += 1;
    }
    proof {
        assert(a@.skip(0) == a@);
        assert(b@.skip(0) == b@);
    }
    i == a.len() && i < b.len()
}

/// `r` is strictly increasing.
pub open spec fn strictly_sorted(r: Seq<Seq<char>>) -> bool {
    forall|i: int, j: int| 0 <= i < j < r.len() ==> lex_lt(r[i], r[j])
}

/// `r` holds exactly the values of `v`, each once, in increasing order.
pub open spec fn sorted_set_of(r: Seq<Seq<char>>, v: Seq<Seq<char>>) -> bool {
    &&& strictly_sorted(r)
    &&& forall|x: Seq<char>| r.contains(x) <==> v.contains(x)
}

/// Sorts the strings and removes repeated ones.
pub fn sort_dedup(v: &[String]) -> (r: Vec<String>)
    ensures
        sorted_set_of(string_views(r@), string_views(v@)),
{
    let mut r: Vec<String> = Vec::new();
    let mut rc: Vec<Vec<char>> = Vec::new();
    let mut i: usize = 0;
    while i < v.len()
        invariant
            i <= v.len(),
            rc.len() == r.len(),
            forall|k: int| 0 <= k < r.len() ==> (#[trigger] rc@[k])@ == r@[k]@,
            strictly_sorted(string_views(r@)),
            forall|x: Seq<char>| string_views(r@).contains(x) <==> string_views(v@.take(i as int)).contains(x),
        decreases v.len() - i,
    {
        let s = &v[i];
        let c = chars_of(s.as_str());
        // first position whose value is not before `c`
        let mut p: usize = 0;
        while p < rc.len() && lex_lt_exec(&rc[p], &c)
            invariant
                p <= rc.len(),
                rc.len() == r.len(),
                forall|k: int| 0 <= k < r.len() ==> (#[trigger] rc@[k])@ == r@[k]@,
                forall|k: int| 0 <= k < p ==> lex_lt(#[trigger] string_views(r@)[k], c@),
            decreases rc.len() - p,
        {
            p += 1;
        }
        let ghost before = string_views(r@);
        let ghost taken = string_views(v@.take(i as int));
        assert(string_views(v@.take(i + 1)) == taken.push(c@)) by {
            assert(v@.take(i + 1) == v@.take(i as int).push(v@[i as int]));
        }
        if p < rc.len() && eq_chars(&rc[p], &c) {
            assert(before[p as int] == c@);
            assert forall|x: Seq<char>| before.contains(x) <==> taken.push(c@).contains(x) by {
                if taken.push(c@).contains(x) && x == c@ {
                    assert(before[p as int] == x);
                }
                if taken.push(c@).contains(x) && x != c@ {
                    let j = choose|j: int| 0 <= j < taken.push(c@).len() && taken.push(c@)[j] == x;
                    assert(taken[j] == x);
                }
                if before.contains(x) {
                    let j = choose|j: int| 0 <= j < before.len() && before[j] == x;
                    assert(taken.contains(x));
                    assert(taken.push(c@)[taken.index_of(x)] == x);
                }
            }
        } else {
            proof {
                if p < rc.len() {
                    lemma_lex_total(before[p as int], c@);
                }
            }
            r.insert(p, s.clone());
            rc.insert(p, c);
            let ghost after = string_views(r@);
            assert(after == before.insert(p as int, c@));
            assert forall|a: int, b: int| 0 <= a < b < after.len() implies lex_lt(
                after[a],
                after[b],
            ) by {
                if b < p {
                } else if a < p && b == p {
                } else if a < p && b > p {
                    assert(lex_lt(before[a], c@));
                    assert(lex_lt(c@, before[p as int]));
                    if b - 1 > p {
                        lemma_lex_transitive(c@, before[p as int], before[b - 1]);
                    }
                    lemma_lex_transitive(before[a], c@, before[b - 1]);
                } else if a == p {
                    assert(lex_lt(c@, before[p as int]));
                    if b - 1 > p {
                        lemma_lex_transitive(c@, before[p as int], before[b - 1]);
                    }
                } else {
                }
            }
            assert forall|x: Seq<char>| after.contains(x) <==> taken.push(c@).contains(x) by {
                if after.contains(x) {
                    let j = choose|j: int| 0 <= j < after.len() && after[j] == x;
                    if j == p {
                        assert(taken.push(c@)[taken.len() as int] == x);
                    } else if j < p {
                        assert(before.contains(x));
                        assert(taken.contains(x));
                        assert(taken.push(c@)[taken.index_of(x)] == x);
                    } else {
                        assert(before[j - 1] == x);
                        assert(before.contains(x));
                        assert(taken.contains(x));
                        assert(taken.push(c@)[taken.index_of(x)] == x);
                    }
                }
                if taken.push(c@).contains(x) {
                    let j = choose|j: int| 0 <= j < taken.push(c@).len() && taken.push(c@)[j] == x;
                    if j == taken.len() {
                        assert(after[p as int] == x);
                    } else {
                        assert(taken[j] == x);
                        assert(before.contains(x));
                        let k = choose|k: int| 0 <= k < before.len() && before[k] == x;
                        if k < p {
                            assert(after[k] == x);
                        } else {
                            assert(after[k + 1] == x);
                        }
                    }
                }
            }
        }
        i += 1;
    }
    assert(v@.take(v.len() as int) == v@);
    r
}


/// The strictly increasing sequence holding exactly the values of `v`.
pub open spec fn sorted_set(v: Seq<Seq<char>>) -> Seq<Seq<char>> {
    choose|r: Seq<Seq<char>>| sorted_set_of(r, v)
}

/// Two strictly increasing sequences with the same values are equal.
pub proof fn lemma_sorted_set_unique(a: Seq<Seq<char>>, b: Seq<Seq<char>>)
    requires
        strictly_sorted(a),
        strictly_sorted(b),
        forall|x: Seq<char>| a.contains(x) <==> b.contains(x),
    ensures
        a == b,
    decreases a.len(),
{
    if a.len() == 0 {
        if b.len() > 0 {
            assert(b.contains(b[0]));
        }
        assert(a =~= b);
    } else {
        assert(a.contains(a[0]));
        assert(b.len() > 0);
        assert(b.contains(b[0]));
        let j = choose|j: int| 0 <= j < a.len() && a[j] == b[0];
        let k = choose|k: int| 0 <= k < b.len() && b[k] == a[0];
        if j > 0 {
            if k > 0 {
                lemma_lex_asymmetric(b[0], b[k]);
            } else {
                lemma_lex_irreflexive(b[0]);
            }
        }
        assert(a[0] == b[0]);
        let a1 = a.drop_first();
        let b1 = b.drop_first();
        assert forall|x: Seq<char>| a1.contains(x) <==> b1.contains(x) by {
            if a1.contains(x) {
                let i = choose|i: int| 0 <= i < a1.len() && a1[i] == x;
                assert(a[i + 1] == x);
                assert(a.contains(x));
                assert(lex_lt(a[0], a[i + 1]));
                let m = choose|m: int| 0 <= m < b.len() && b[m] == x;
                if m == 0 {
                    lemma_lex_irreflexive(x);
                }
                assert(b1[m - 1] == x);
            }
            if b1.contains(x) {
                let i = choose|i: int| 0 <= i < b1.len() && b1[i] == x;
                assert(b[i + 1] == x);
                assert(b.contains(x));
                assert(lex_lt(b[0], b[i + 1]));
                let m = choose|m: int| 0 <= m < a.len() && a[m] == x;
                if m == 0 {
                    lemma_lex_irreflexive(x);
                }
                assert(a1[m - 1] == x);
            }
        }
        lemma_sorted_set_unique(a1, b1);
        assert(a =~= seq![a[0]] + a1);
        assert(b =~= seq![b[0]] + b1);
    }
}

/// Sorting and deduplicating gives `sorted_set`.
pub fn sort_dedup_set(v: &[String]) -> (r: Vec<String>)
    ensures
        string_views(r@) == sorted_set(string_views(v@)),
        sorted_set_of(string_views(r@), string_views(v@)),
{
    let r = sort_dedup(v);
    proof {
        let s = sorted_set(string_views(v@));
        assert(sorted_set_of(string_views(r@), string_views(v@)));
        assert(sorted_set_of(s, string_views(v@)));
        lemma_sorted_set_unique(string_views(r@), s);
    }
    r
}

} // verus!
