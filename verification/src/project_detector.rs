//! Project detection: groups business media into candidate installation
//! projects.
//!
//! Media are first clustered by date (a photo joins the first cluster whose
//! latest photo lies within three days of it), then each cluster is split
//! by location (a photo with a GPS fix joins the first group whose members
//! with a fix all lie within a kilometre of it; one without a fix joins the
//! first group). Both steps are one greedy walk, stated once as
//! `greedy_groups`.
use vstd::prelude::*;

use crate::models::{Media, Project, ProjectStatus, ProjectType};
use crate::seo_generator::{type_label_dutch, type_label_spec};
use crate::sorting::{sort_dedup_set, sorted_set, sorted_set_of, strictly_sorted};
use crate::text::{
    all_ascii, chars_of, clone_opt_string, clone_strings, eq_str, push_chars, push_str, slice_vec,
    string_views,
};
use crate::trusted::{
    format_rfc3339_in_utc, format_rfc3339_year_month, new_uuid_string, now_rfc3339,
    parse_rfc3339_instant, rfc3339_in_utc, rfc3339_instant, rfc3339_year_month, slug_of, slugify,
};

verus! {

// ---------------------------------------------------------------------------
// The greedy walk
// ---------------------------------------------------------------------------

/// The first group, from index `j` on, that item `i` fits.
pub open spec fn first_fit_from(
    groups: Seq<Seq<usize>>,
    fits: spec_fn(Seq<usize>, usize) -> bool,
    i: usize,
    j: int,
) -> Option<int>
    decreases groups.len() - j,
{
    if j < 0 || j >= groups.len() {
        None
    } else if fits(groups[j], i) {
        Some(j)
    } else {
        first_fit_from(groups, fits, i, j + 1)
    }
}

/// Walks items `0..n` in order, skipping those that are not `member`s: an
/// item joins the first group it `fits`, or opens a new group.
pub open spec fn greedy_groups(
    member: spec_fn(usize) -> bool,
    fits: spec_fn(Seq<usize>, usize) -> bool,
    n: nat,
) -> Seq<Seq<usize>>
    decreases n,
{
    if n == 0 {
        seq![]
    } else {
        let prev = greedy_groups(member, fits, (n - 1) as nat);
        let i = (n - 1) as usize;
        if !member(i) {
            prev
        } else {
            match first_fit_from(prev, fits, i, 0) {
                Some(j) => prev.update(j, prev[j].push(i)),
                None => prev.push(seq![i]),
            }
        }
    }
}

/// What the greedy walk over `0..n` keeps: the groups are non-empty,
/// strictly increasing and disjoint, hold exactly the members below `n`,
/// and every item fitted the part of its group that came before it.
pub open spec fn is_greedy_partition(
    groups: Seq<Seq<usize>>,
    member: spec_fn(usize) -> bool,
    fits: spec_fn(Seq<usize>, usize) -> bool,
    n: nat,
) -> bool {
    &&& forall|k: int| 0 <= k < groups.len() ==> (#[trigger] groups[k]).len() > 0
    &&& forall|k: int, a: int|
        0 <= k < groups.len() && 0 <= a < groups[k].len() ==> (#[trigger] groups[k][a]) < n
            && member(groups[k][a])
    &&& forall|k: int, a: int, b: int|
        0 <= k < groups.len() && 0 <= a < b < groups[k].len() ==> (#[trigger] groups[k][a]) < (
        #[trigger] groups[k][b])
    &&& forall|k1: int, k2: int, a: int, b: int|
        0 <= k1 < groups.len() && 0 <= k2 < groups.len() && k1 != k2 && 0 <= a < groups[k1].len()
            && 0 <= b < groups[k2].len() ==> (#[trigger] groups[k1][a]) != (#[trigger] groups[k2][b])
    &&& forall|i: usize|
        i < n && #[trigger] member(i) ==> exists|k: int, a: int|
            0 <= k < groups.len() && 0 <= a < groups[k].len() && #[trigger] groups[k][a] == i
    &&& forall|k: int, a: int|
        0 <= k < groups.len() && 0 < a < groups[k].len() ==> fits(
            groups[k].take(a),
            #[trigger] groups[k][a],
        )
}

proof fn lemma_first_fit_found(
    groups: Seq<Seq<usize>>,
    fits: spec_fn(Seq<usize>, usize) -> bool,
    i: usize,
    j: int,
)
    requires
        0 <= j,
    ensures
        first_fit_from(groups, fits, i, j) matches Some(k) ==> j <= k < groups.len() && fits(
            groups[k],
            i,
        ),
    decreases groups.len() - j,
{
    if j < groups.len() && !fits(groups[j], i) {
        lemma_first_fit_found(groups, fits, i, j + 1);
    }
}

/// The greedy walk partitions the members: each lands in exactly one
/// group, groups keep the walk's order, and each item fitted its group as
/// it stood when the item joined.
pub proof fn lemma_greedy_partition(
    member: spec_fn(usize) -> bool,
    fits: spec_fn(Seq<usize>, usize) -> bool,
    n: nat,
)
    requires
        n <= usize::MAX + 1,
    ensures
        is_greedy_partition(greedy_groups(member, fits, n), member, fits, n),
    decreases n,
{
    if n > 0 {
        let prev = greedy_groups(member, fits, (n - 1) as nat);
        lemma_greedy_partition(member, fits, (n - 1) as nat);
        let i = (n - 1) as usize;
        let cur = greedy_groups(member, fits, n);
        if member(i) {
            lemma_first_fit_found(prev, fits, i, 0);
            match first_fit_from(prev, fits, i, 0) {
                Some(j) => {
                    assert(cur == prev.update(j, prev[j].push(i)));
                    assert forall|k: int, a: int|
                        0 <= k < cur.len() && 0 < a < cur[k].len() implies fits(
                        cur[k].take(a),
                        #[trigger] cur[k][a],
                    ) by {
                        if k == j && a == prev[j].len() {
                            assert(cur[k].take(a) =~= prev[j]);
                        } else if k == j {
                            assert(cur[k].take(a) =~= prev[j].take(a));
                        }
                    }
                    assert forall|x: usize| x < n && #[trigger] member(x) implies exists|
                        k: int,
                        a: int,
                    | 0 <= k < cur.len() && 0 <= a < cur[k].len() && #[trigger] cur[k][a] == x by {
                        if x == i {
                            assert(cur[j][prev[j].len() as int] == x);
                        } else {
                            let (k, a) = choose|k: int, a: int|
                                0 <= k < prev.len() && 0 <= a < prev[k].len() && #[trigger] prev[k][a]
                                    == x;
                            assert(cur[k][a] == x);
                        }
                    }
                },
                None => {
                    assert(cur == prev.push(seq![i]));
                    assert forall|k: int, a: int|
                        0 <= k < cur.len() && 0 < a < cur[k].len() implies fits(
                        cur[k].take(a),
                        #[trigger] cur[k][a],
                    ) by {
                        assert(k < prev.len());
                    }
                    assert forall|x: usize| x < n && #[trigger] member(x) implies exists|
                        k: int,
                        a: int,
                    | 0 <= k < cur.len() && 0 <= a < cur[k].len() && #[trigger] cur[k][a] == x by {
                        if x == i {
                            assert(cur[prev.len() as int][0] == x);
                        } else {
                            let (k, a) = choose|k: int, a: int|
                                0 <= k < prev.len() && 0 <= a < prev[k].len() && #[trigger] prev[k][a]
                                    == x;
                            assert(cur[k][a] == x);
                        }
                    }
                },
            }
        }
    }
}

/// The groups of a list of index vectors.
pub open spec fn groups_view(v: Seq<Vec<usize>>) -> Seq<Seq<usize>> {
    v.map_values(|c: Vec<usize>| c@)
}

/// Adds item `i` to group `j`, or opens a new group with it.
fn join_group(groups: &mut Vec<Vec<usize>>, j: Option<usize>, i: usize)
    requires
        j matches Some(k) ==> k < old(groups)@.len(),
    ensures
        groups_view(final(groups)@) == match j {
            Some(k) => groups_view(old(groups)@).update(
                k as int,
                groups_view(old(groups)@)[k as int].push(i),
            ),
            None => groups_view(old(groups)@).push(seq![i]),
        },
{
    let ghost prev = groups_view(groups@);
    match j {
        Some(k) => {
            let mut c = groups[k].clone();
            assert(c@ =~= groups[k as int]@);
            c.push(i);
            groups.set(k, c);
            assert(groups_view(groups@) =~= prev.update(k as int, prev[k as int].push(i))) by {
                assert(groups_view(groups@)[k as int] == c@);
            }
        },
        None => {
            let mut c: Vec<usize> = Vec::new();
            c.push(i);
            groups.push(c);
            assert(c@ =~= seq![i]);
            assert(groups_view(groups@) =~= prev.push(seq![i]));
        },
    }
}

// ---------------------------------------------------------------------------
// Clustering by date
// ---------------------------------------------------------------------------

/// Nanoseconds in a day.
pub open spec fn day_nanos() -> int {
    86_400_000_000_000
}

/// An instant (seconds since the epoch, nanoseconds) in nanoseconds.
pub open spec fn instant_nanos(t: (i64, u32)) -> int {
    t.0 * 1_000_000_000 + t.1
}

/// The whole days between two instants, truncated toward zero, are at most
/// `days` apart: the span is shorter than `days + 1` days.
pub open spec fn within_days(a: (i64, u32), b: (i64, u32), days: int) -> bool {
    let d = instant_nanos(a) - instant_nanos(b);
    -(days + 1) * day_nanos() < d < (days + 1) * day_nanos()
}

/// Computes `within_days(a, b, 3)`.
pub fn within_three_days(a: (i64, u32), b: (i64, u32)) -> (r: bool)
    ensures
        r == within_days(a, b, 3),
{
    let d: i128 = (a.0 as i128 - b.0 as i128) * 1_000_000_000i128 + (a.1 as i128 - b.1 as i128);
    let lim: i128 = 4 * 86_400_000_000_000i128;
    -lim < d && d < lim
}

/// A dated item fits a date cluster when the cluster's latest item lies
/// within three days of it.
pub open spec fn date_fits(inst: Seq<Option<(i64, u32)>>) -> spec_fn(Seq<usize>, usize) -> bool {
    |c: Seq<usize>, i: usize|
        c.len() > 0 && c.last() < inst.len() && inst[c.last() as int] is Some && inst[i as int] is Some
            && within_days(inst[i as int]->0, inst[c.last() as int]->0, 3)
}

/// The items that carry a date.
pub open spec fn is_dated(inst: Seq<Option<(i64, u32)>>) -> spec_fn(usize) -> bool {
    |i: usize| i < inst.len() && inst[i as int] is Some
}

/// The date clusters of a list of instants (`None`: no usable date).
pub open spec fn date_clusters(inst: Seq<Option<(i64, u32)>>) -> Seq<Seq<usize>> {
    greedy_groups(is_dated(inst), date_fits(inst), inst.len())
}

/// Clusters items by date: each dated item, in order, joins the first
/// cluster whose latest item lies within three days of it, or opens a new
/// cluster. Items are given by index.
pub fn cluster_by_date(inst: &[Option<(i64, u32)>]) -> (r: Vec<Vec<usize>>)
    ensures
        groups_view(r@) == date_clusters(inst@),
{
    let ghost member = is_dated(inst@);
    let ghost fits = date_fits(inst@);
    let mut clusters: Vec<Vec<usize>> = Vec::new();
    let mut i: usize = 0;
    while i < inst.len()
        invariant
            i <= inst@.len(),
            member == is_dated(inst@),
            fits == date_fits(inst@),
            groups_view(clusters@) == greedy_groups(member, fits, i as nat),
            is_greedy_partition(groups_view(clusters@), member, fits, i as nat),
        decreases inst.len() - i,
    {
        proof {
            lemma_greedy_partition(member, fits, (i + 1) as nat);
        }
        let ghost prev = groups_view(clusters@);
        assert(greedy_groups(member, fits, (i + 1) as nat) == if !member(i) {
            prev
        } else {
            match first_fit_from(prev, fits, i, 0) {
                Some(j) => prev.update(j, prev[j].push(i)),
                None => prev.push(seq![i]),
            }
        });
        match inst[i] {
            None => {},
            Some(t) => {
                let mut j: usize = 0;
                let mut found = false;
                while j < clusters.len()
                    invariant_except_break
                        !found,
                    invariant
                        j <= clusters@.len(),
                        prev == groups_view(clusters@),
                        is_greedy_partition(prev, member, fits, i as nat),
                        i < inst@.len(),
                        inst@[i as int] == Some(t),
                        fits == date_fits(inst@),
                        found ==> j < clusters@.len() && first_fit_from(prev, fits, i, 0) == Some(
                            j as int,
                        ),
                        !found ==> first_fit_from(prev, fits, i, 0) == first_fit_from(
                            prev,
                            fits,
                            i,
                            j as int,
                        ),
                    ensures
                        found ==> j < clusters@.len() && first_fit_from(prev, fits, i, 0) == Some(
                            j as int,
                        ),
                        !found ==> first_fit_from(prev, fits, i, 0) is None,
                    decreases clusters.len() - j,
                {
                    let c = &clusters[j];
                    assert(prev[j as int] == c@);
                    assert(c@.len() > 0);
                    let last = c[c.len() - 1];
                    assert(last == prev[j as int].last());
                    let ok = match inst[last] {
                        Some(u) => within_three_days(t, u),
                        None => false,
                    };
                    if ok {
                        found = true;
                        break;
                    }
                    j += 1;
                }
                join_group(&mut clusters, if found {
                    Some(j)
                } else {
                    None
                }, i);
            },
        }
        i += 1;
    }
    clusters
}

/// Date clusters partition the dated items: every dated item lies in
/// exactly one cluster, clusters keep the items' order, and each item of
/// a cluster lies within three days (whole days, truncated) of the one
/// before it.
pub proof fn lemma_date_clusters(inst: Seq<Option<(i64, u32)>>)
    requires
        inst.len() <= usize::MAX,
    ensures
        is_greedy_partition(date_clusters(inst), is_dated(inst), date_fits(inst), inst.len()),
        forall|k: int, a: int|
            0 <= k < date_clusters(inst).len() && 0 < a < date_clusters(inst)[k].len() ==> inst[(
            #[trigger] date_clusters(inst)[k][a]) as int] is Some && inst[date_clusters(inst)[k][a
                - 1] as int] is Some && within_days(
                inst[date_clusters(inst)[k][a] as int]->0,
                inst[date_clusters(inst)[k][a - 1] as int]->0,
                3,
            ),
{
    lemma_greedy_partition(is_dated(inst), date_fits(inst), inst.len());
    let cl = date_clusters(inst);
    assert forall|k: int, a: int| 0 <= k < cl.len() && 0 < a < cl[k].len() implies inst[(
    #[trigger] cl[k][a]) as int] is Some && inst[cl[k][a - 1] as int] is Some && within_days(
        inst[cl[k][a] as int]->0,
        inst[cl[k][a - 1] as int]->0,
        3,
    ) by {
        let c = cl[k];
        assert(date_fits(inst)(c.take(a), c[a]));
        assert(c.take(a).last() == c[a - 1]);
    }
}

/// The instants of the media's dates, as chrono reads them.
pub open spec fn media_instants(media: Seq<Media>) -> Seq<Option<(i64, u32)>> {
    Seq::new(
        media.len(),
        |k: int|
            match media[k].date_taken {
                Some(d) => rfc3339_instant(d@),
                None => None,
            },
    )
}

/// Reads each media file's date as an RFC 3339 instant.
pub fn instants_of(media: &[Media]) -> (r: Vec<Option<(i64, u32)>>)
    ensures
        r@ == media_instants(media@),
{
    let mut r: Vec<Option<(i64, u32)>> = Vec::new();
    let mut k: usize = 0;
    while k < media.len()
        invariant
            k <= media@.len(),
            r@ =~= media_instants(media@).take(k as int),
        decreases media.len() - k,
    {
        let t = match &media[k].date_taken {
            Some(d) => parse_rfc3339_instant(d.as_str()),
            None => None,
        };
        r.push(t);
        k += 1;
    }
    r
}

/// Clusters media by the date they were taken (see `cluster_by_date`);
/// media without a readable date are left out.
pub fn date_clusters_of(media: &[Media]) -> (r: Vec<Vec<usize>>)
    ensures
        groups_view(r@) == date_clusters(media_instants(media@)),
{
    let inst = instants_of(media);
    cluster_by_date(&inst)
}

// ---------------------------------------------------------------------------
// Splitting by location
// ---------------------------------------------------------------------------

/// `near[a][b]`: item `b` lies within a kilometre of item `a` (both have a
/// GPS fix); out of range reads as `false`.
pub open spec fn near_at(near: Seq<Seq<bool>>, a: usize, b: usize) -> bool {
    a < near.len() && b < near[a as int].len() && near[a as int][b as int]
}

/// An item fits a location group when, if it has a GPS fix, it lies near
/// every member of the group that has one; an item without a fix fits
/// any group.
pub open spec fn location_fits(has_gps: Seq<bool>, near: Seq<Seq<bool>>) -> spec_fn(
    Seq<usize>,
    usize,
) -> bool {
    |c: Seq<usize>, i: usize|
        c.len() > 0 && forall|j: int|
            0 <= j < c.len() && #[trigger] c[j] < has_gps.len() && has_gps[c[j] as int] && i
                < has_gps.len() && has_gps[i as int] ==> near_at(near, c[j], i)
}

/// Every item below the length.
pub open spec fn is_below(n: nat) -> spec_fn(usize) -> bool {
    |i: usize| i < n
}

/// The location groups of a cluster's items `0..n`.
pub open spec fn location_groups(has_gps: Seq<bool>, near: Seq<Seq<bool>>) -> Seq<Seq<usize>> {
    greedy_groups(is_below(has_gps.len()), location_fits(has_gps, near), has_gps.len())
}

/// Whether item `i` fits the location group `c` (see `location_fits`).
fn member_fits(c: &Vec<usize>, i: usize, has_gps: &[bool], near: &[Vec<bool>]) -> (ok: bool)
    requires
        c@.len() > 0,
    ensures
        ok == location_fits(has_gps@, groups_near(near@))(c@, i),
{
    let ghost nv = groups_near(near@);
    let mut t: usize = 0;
    while t < c.len()
        invariant
            t <= c@.len(),
            c@.len() > 0,
            nv == groups_near(near@),
            forall|j: int|
                0 <= j < t && #[trigger] c@[j] < has_gps@.len() && has_gps@[c@[j] as int] && i
                    < has_gps@.len() && has_gps@[i as int] ==> near_at(nv, c@[j], i),
        decreases c.len() - t,
    {
        let m = c[t];
        if m < has_gps.len() && has_gps[m] && i < has_gps.len() && has_gps[i] {
            let close = m < near.len() && i < near[m].len() && near[m][i];
            if !close {
                assert(!near_at(nv, c@[t as int], i));
                return false;
            }
        }
        t += 1;
    }
    true
}

/// Splits a date cluster by location: each item, in order, joins the first
/// group all of whose members with a GPS fix lie within a kilometre of it
/// (`near`, which the caller measures), or opens a new group; an item
/// without a fix joins the first group. Items are given by their index in
/// the cluster.
pub fn refine_by_signals(has_gps: &[bool], near: &[Vec<bool>]) -> (r: Vec<Vec<usize>>)
    ensures
        groups_view(r@) == location_groups(has_gps@, groups_near(near@)),
{
    let ghost nv = groups_near(near@);
    let ghost member = is_below(has_gps@.len());
    let ghost fits = location_fits(has_gps@, nv);
    let mut groups: Vec<Vec<usize>> = Vec::new();
    let mut i: usize = 0;
    while i < has_gps.len()
        invariant
            i <= has_gps@.len(),
            nv == groups_near(near@),
            member == is_below(has_gps@.len()),
            fits == location_fits(has_gps@, nv),
            groups_view(groups@) == greedy_groups(member, fits, i as nat),
            is_greedy_partition(groups_view(groups@), member, fits, i as nat),
        decreases has_gps.len() - i,
    {
        proof {
            lemma_greedy_partition(member, fits, (i + 1) as nat);
        }
        let ghost prev = groups_view(groups@);
        let mut j: usize = 0;
        let mut found = false;
        while j < groups.len()
            invariant_except_break
                !found,
            invariant
                j <= groups@.len(),
                prev == groups_view(groups@),
                is_greedy_partition(prev, member, fits, i as nat),
                i < has_gps@.len(),
                nv == groups_near(near@),
                fits == location_fits(has_gps@, nv),
                found ==> j < groups@.len() && first_fit_from(prev, fits, i, 0) == Some(j as int),
                !found ==> first_fit_from(prev, fits, i, 0) == first_fit_from(
                    prev,
                    fits,
                    i,
                    j as int,
                ),
            ensures
                found ==> j < groups@.len() && first_fit_from(prev, fits, i, 0) == Some(j as int),
                !found ==> first_fit_from(prev, fits, i, 0) is None,
            decreases groups.len() - j,
        {
            let c = &groups[j];
            assert(prev[j as int] == c@);
            assert(c@.len() > 0);
            let ok = member_fits(c, i, has_gps, near);
            if ok {
                found = true;
                break;
            }
            j += 1;
        }
        join_group(&mut groups, if found {
            Some(j)
        } else {
            None
        }, i);
        i += 1;
    }
    groups
}

/// Location groups partition a cluster's items, and any two members of a
/// group that both have a GPS fix lie near each other (the earlier one's
/// row of `near` marks the later one).
pub proof fn lemma_location_groups(has_gps: Seq<bool>, near: Seq<Seq<bool>>)
    requires
        has_gps.len() <= usize::MAX,
    ensures
        is_greedy_partition(
            location_groups(has_gps, near),
            is_below(has_gps.len()),
            location_fits(has_gps, near),
            has_gps.len(),
        ),
        forall|k: int, a: int, b: int|
            0 <= k < location_groups(has_gps, near).len() && 0 <= a < b < location_groups(
                has_gps,
                near,
            )[k].len() && has_gps[(#[trigger] location_groups(has_gps, near)[k][a]) as int]
                && has_gps[(#[trigger] location_groups(has_gps, near)[k][b]) as int] ==> near_at(
                near,
                location_groups(has_gps, near)[k][a],
                location_groups(has_gps, near)[k][b],
            ),
{
    lemma_greedy_partition(is_below(has_gps.len()), location_fits(has_gps, near), has_gps.len());
    let g = location_groups(has_gps, near);
    assert forall|k: int, a: int, b: int|
        0 <= k < g.len() && 0 <= a < b < g[k].len() && has_gps[(#[trigger] g[k][a]) as int]
            && has_gps[(#[trigger] g[k][b]) as int] implies near_at(near, g[k][a], g[k][b]) by {
        assert(location_fits(has_gps, near)(g[k].take(b), g[k][b]));
        assert(g[k].take(b)[a] == g[k][a]);
        assert(g[k][a] < has_gps.len());
        assert(g[k][b] < has_gps.len());
    }
}

/// The rows of a matrix of flags.
pub open spec fn groups_near(near: Seq<Vec<bool>>) -> Seq<Seq<bool>> {
    near.map_values(|row: Vec<bool>| row@)
}

// ---------------------------------------------------------------------------
// Project type and tags
// ---------------------------------------------------------------------------

/// How often `k` occurs in `s`.
pub open spec fn count_of(s: Seq<Seq<char>>, k: Seq<char>) -> nat
    decreases s.len(),
{
    if s.len() == 0 {
        0
    } else {
        count_of(s.drop_last(), k) + if s.last() == k {
            1nat
        } else {
            0nat
        }
    }
}

/// The distinct values of `s`, in order of first appearance.
pub open spec fn distinct_labels(s: Seq<Seq<char>>) -> Seq<Seq<char>>
    decreases s.len(),
{
    if s.len() == 0 {
        seq![]
    } else {
        let p = distinct_labels(s.drop_last());
        if p.contains(s.last()) {
            p
        } else {
            p.push(s.last())
        }
    }
}

/// `distinct_labels` repeats nothing and holds exactly the values of `s`;
/// a value occurs in `s` exactly when its count is positive.
pub proof fn lemma_distinct_labels(s: Seq<Seq<char>>)
    ensures
        distinct_labels(s).no_duplicates(),
        forall|x: Seq<char>| distinct_labels(s).contains(x) <==> s.contains(x),
        forall|x: Seq<char>| #[trigger] count_of(s, x) == 0 <==> !s.contains(x),
    decreases s.len(),
{
    if s.len() > 0 {
        let p = s.drop_last();
        lemma_distinct_labels(p);
        assert forall|x: Seq<char>| s.contains(x) <==> p.contains(x) || x == s.last() by {
            if s.contains(x) && x != s.last() {
                let k = choose|k: int| 0 <= k < s.len() && s[k] == x;
                assert(p[k] == x);
            }
            if p.contains(x) {
                let k = choose|k: int| 0 <= k < p.len() && p[k] == x;
                assert(s[k] == x);
            }
            if x == s.last() {
                assert(s[s.len() - 1] == x);
            }
        }
        let dp = distinct_labels(p);
        assert forall|x: Seq<char>| dp.push(s.last()).contains(x) <==> dp.contains(x) || x == s.last() by {
            if dp.push(s.last()).contains(x) && x != s.last() {
                let k = choose|k: int| 0 <= k < dp.len() + 1 && dp.push(s.last())[k] == x;
                assert(dp[k] == x);
            }
            if dp.contains(x) {
                let k = choose|k: int| 0 <= k < dp.len() && dp[k] == x;
                assert(dp.push(s.last())[k] == x);
            }
            if x == s.last() {
                assert(dp.push(s.last())[dp.len() as int] == x);
            }
        }
        assert forall|x: Seq<char>| #[trigger] count_of(s, x) == 0 <==> !s.contains(x) by {
            assert(count_of(s, x) == count_of(p, x) + if s.last() == x {
                1nat
            } else {
                0nat
            });
        }
    }
}

/// Among the first `n` keys, the last one with the greatest count in `s`
/// (as `Iterator::max_by_key` picks).
pub open spec fn dominant_upto(keys: Seq<Seq<char>>, s: Seq<Seq<char>>, n: nat) -> Option<Seq<char>>
    decreases n,
{
    if n == 0 {
        None
    } else {
        let prev = dominant_upto(keys, s, (n - 1) as nat);
        let k = keys[n - 1];
        match prev {
            None => Some(k),
            Some(p) => if count_of(s, k) >= count_of(s, p) {
                Some(k)
            } else {
                prev
            },
        }
    }
}

/// The most frequent detected object (the last of equals, in order of
/// first appearance), if any.
pub open spec fn dominant_object(objects: Seq<Seq<char>>) -> Option<Seq<char>> {
    let keys = distinct_labels(objects);
    dominant_upto(keys, objects, keys.len())
}

/// The project type a dominant object suggests.
pub open spec fn object_project_type(label: Option<Seq<char>>) -> ProjectType {
    match label {
        None => ProjectType::Mixed,
        Some(l) => if l == "boiler"@ {
            ProjectType::CvBoiler
        } else if l == "heat_pump"@ {
            ProjectType::HeatPump
        } else if l == "radiator"@ {
            ProjectType::Radiator
        } else if l == "toilet"@ || l == "sink"@ || l == "shower"@ || l == "bathtub"@ || l
            == "bathroom"@ {
            ProjectType::SanitaryBathroom
        } else if l == "ventilation"@ {
            ProjectType::Ventilation
        } else if l == "airco"@ {
            ProjectType::Airco
        } else if l == "water_softener"@ {
            ProjectType::WaterSoftener
        } else if l == "technical_room"@ {
            ProjectType::TechnicalRoom
        } else {
            ProjectType::Mixed
        },
    }
}

proof fn lemma_dominant_upto_max(keys: Seq<Seq<char>>, s: Seq<Seq<char>>, n: nat)
    requires
        0 < n <= keys.len(),
    ensures
        dominant_upto(keys, s, n) is Some,
        exists|j: int| 0 <= j < n && keys[j] == dominant_upto(keys, s, n)->0,
        forall|j: int|
            0 <= j < n ==> count_of(s, #[trigger] keys[j]) <= count_of(
                s,
                dominant_upto(keys, s, n)->0,
            ),
    decreases n,
{
    if n > 1 {
        lemma_dominant_upto_max(keys, s, (n - 1) as nat);
        let prev = dominant_upto(keys, s, (n - 1) as nat)->0;
        let k = keys[n - 1];
        if count_of(s, k) >= count_of(s, prev) {
            assert(keys[n - 1] == dominant_upto(keys, s, n)->0);
        } else {
            let j = choose|j: int| 0 <= j < n - 1 && keys[j] == prev;
            assert(keys[j] == dominant_upto(keys, s, n)->0);
        }
    } else {
        assert(keys[0] == dominant_upto(keys, s, n)->0);
    }
}

/// The dominant object is the one detected more often than any other:
/// when `l` occurs in the cluster strictly more often than every other
/// label, it is the dominant object.
pub proof fn lemma_dominant_object_most_frequent(objects: Seq<Seq<char>>, l: Seq<char>)
    requires
        objects.contains(l),
        forall|x: Seq<char>| x != l ==> #[trigger] count_of(objects, x) < count_of(objects, l),
    ensures
        dominant_object(objects) == Some(l),
{
    let keys = distinct_labels(objects);
    lemma_distinct_labels(objects);
    assert(keys.contains(l));
    let jl = choose|j: int| 0 <= j < keys.len() && keys[j] == l;
    lemma_dominant_upto_max(keys, objects, keys.len());
    let k = dominant_upto(keys, objects, keys.len())->0;
    assert(count_of(objects, keys[jl]) <= count_of(objects, k));
    if k != l {
        assert(count_of(objects, k) < count_of(objects, l));
    }
}

/// A cluster whose photos show one installation object more often than
/// any other object is inferred as that object's kind of project: a boiler
/// makes a CV-boiler project, a heat pump a heat-pump project, a radiator a
/// radiator project, a toilet, sink, shower, bathtub or bathroom a bathroom
/// project, ventilation a ventilation project, an airco an airco project,
/// a water softener a water-softener project and a technical room a
/// technical-room project; none of them gives a mixed project.
pub proof fn lemma_dominant_object_sets_type(objects: Seq<Seq<char>>, l: Seq<char>)
    requires
        objects.contains(l),
        forall|x: Seq<char>| x != l ==> #[trigger] count_of(objects, x) < count_of(objects, l),
    ensures
        ({
            let t = object_project_type(dominant_object(objects));
            &&& l == "boiler"@ ==> t == ProjectType::CvBoiler
            &&& l == "heat_pump"@ ==> t == ProjectType::HeatPump
            &&& l == "radiator"@ ==> t == ProjectType::Radiator
            &&& (l == "toilet"@ || l == "sink"@ || l == "shower"@ || l == "bathtub"@ || l
                == "bathroom"@) ==> t == ProjectType::SanitaryBathroom
            &&& l == "ventilation"@ ==> t == ProjectType::Ventilation
            &&& l == "airco"@ ==> t == ProjectType::Airco
            &&& l == "water_softener"@ ==> t == ProjectType::WaterSoftener
            &&& l == "technical_room"@ ==> t == ProjectType::TechnicalRoom
        }),
{
    lemma_dominant_object_most_frequent(objects, l);
    reveal_strlit("boiler");
    reveal_strlit("heat_pump");
    reveal_strlit("radiator");
    reveal_strlit("toilet");
    reveal_strlit("sink");
    reveal_strlit("shower");
    reveal_strlit("bathtub");
    reveal_strlit("bathroom");
    reveal_strlit("ventilation");
    reveal_strlit("airco");
    reveal_strlit("water_softener");
    reveal_strlit("technical_room");
    let t = object_project_type(dominant_object(objects));
    if l == "boiler"@ {
        assert(l.len() == 6 && l[0] == 'b' && l[1] == 'o' && l[5] == 'r');
        assert(t == ProjectType::CvBoiler);
    } else if l == "heat_pump"@ {
        assert(l.len() == 9 && l[0] == 'h' && l[1] == 'e' && l[8] == 'p');
        assert(t == ProjectType::HeatPump);
    } else if l == "radiator"@ {
        assert(l.len() == 8 && l[0] == 'r' && l[1] == 'a' && l[7] == 'r');
        assert(t == ProjectType::Radiator);
    } else if l == "toilet"@ {
        assert(l.len() == 6 && l[0] == 't' && l[1] == 'o' && l[5] == 't');
        assert(t == ProjectType::SanitaryBathroom);
    } else if l == "sink"@ {
        assert(l.len() == 4 && l[0] == 's' && l[1] == 'i' && l[3] == 'k');
        assert(t == ProjectType::SanitaryBathroom);
    } else if l == "shower"@ {
        assert(l.len() == 6 && l[0] == 's' && l[1] == 'h' && l[5] == 'r');
        assert(t == ProjectType::SanitaryBathroom);
    } else if l == "bathtub"@ {
        assert(l.len() == 7 && l[0] == 'b' && l[1] == 'a' && l[6] == 'b');
        assert(t == ProjectType::SanitaryBathroom);
    } else if l == "bathroom"@ {
        assert(l.len() == 8 && l[0] == 'b' && l[1] == 'a' && l[7] == 'm');
        assert(t == ProjectType::SanitaryBathroom);
    } else if l == "ventilation"@ {
        assert(l.len() == 11 && l[0] == 'v' && l[1] == 'e' && l[10] == 'n');
        assert(t == ProjectType::Ventilation);
    } else if l == "airco"@ {
        assert(l.len() == 5 && l[0] == 'a' && l[1] == 'i' && l[4] == 'o');
        assert(t == ProjectType::Airco);
    } else if l == "water_softener"@ {
        assert(l.len() == 14 && l[0] == 'w' && l[1] == 'a' && l[13] == 'r');
        assert(t == ProjectType::WaterSoftener);
    } else if l == "technical_room"@ {
        assert(l.len() == 14 && l[0] == 't' && l[1] == 'e' && l[13] == 'm');
        assert(t == ProjectType::TechnicalRoom);
    }
}

/// At most the first eight values.
pub open spec fn first_eight(s: Seq<Seq<char>>) -> Seq<Seq<char>> {
    if s.len() <= 8 {
        s
    } else {
        s.take(8)
    }
}

/// The suggested tags: the first eight distinct objects and all brands,
/// sorted, without repeats.
pub open spec fn suggested_tags(objects: Seq<Seq<char>>, brands: Seq<Seq<char>>) -> Seq<Seq<char>> {
    sorted_set(first_eight(distinct_labels(objects)) + brands)
}

/// The project type of a dominant object label.
pub fn project_type_for_object(label: &str) -> (r: ProjectType)
    ensures
        r == object_project_type(Some(label@)),
{
    if eq_str(label, "boiler") {
        ProjectType::CvBoiler
    } else if eq_str(label, "heat_pump") {
        ProjectType::HeatPump
    } else if eq_str(label, "radiator") {
        ProjectType::Radiator
    } else if eq_str(label, "toilet") || eq_str(label, "sink") || eq_str(label, "shower") || eq_str(
        label,
        "bathtub",
    ) || eq_str(label, "bathroom") {
        ProjectType::SanitaryBathroom
    } else if eq_str(label, "ventilation") {
        ProjectType::Ventilation
    } else if eq_str(label, "airco") {
        ProjectType::Airco
    } else if eq_str(label, "water_softener") {
        ProjectType::WaterSoftener
    } else if eq_str(label, "technical_room") {
        ProjectType::TechnicalRoom
    } else {
        ProjectType::Mixed
    }
}

/// Counts the labels: the distinct labels in order of first appearance and
/// how often each occurs.
pub fn count_labels(labels: &[String]) -> (r: (Vec<String>, Vec<usize>))
    ensures
        string_views(r.0@) == distinct_labels(string_views(labels@)),
        r.1@.len() == r.0@.len(),
        forall|k: int|
            0 <= k < r.0@.len() ==> r.1@[k] == count_of(string_views(labels@), #[trigger] r.0@[k]@),
{
    let ghost lv = string_views(labels@);
    let mut keys: Vec<String> = Vec::new();
    let mut counts: Vec<usize> = Vec::new();
    let mut i: usize = 0;
    while i < labels.len()
        invariant
            i <= labels@.len(),
            lv == string_views(labels@),
            string_views(keys@) == distinct_labels(lv.take(i as int)),
            counts@.len() == keys@.len(),
            forall|k: int|
                0 <= k < keys@.len() ==> counts@[k] == count_of(lv.take(i as int), #[trigger] keys@[k]@),
            forall|k: int| 0 <= k < keys@.len() ==> counts@[k] <= i,
        decreases labels.len() - i,
    {
        let ghost before = lv.take(i as int);
        let ghost after = lv.take(i as int + 1);
        assert(after.drop_last() =~= before);
        proof {
            lemma_distinct_labels(before);
        }
        assert(after.last() == labels@[i as int]@);
        let mut j: usize = 0;
        let mut found = false;
        while j < keys.len()
            invariant_except_break
                !found,
            invariant
                j <= keys@.len(),
                i < labels@.len(),
                forall|k: int| 0 <= k < j ==> keys@[k]@ != labels@[i as int]@,
                found ==> j < keys@.len() && keys@[j as int]@ == labels@[i as int]@,
            ensures
                found ==> j < keys@.len() && keys@[j as int]@ == labels@[i as int]@,
                !found ==> forall|k: int| 0 <= k < keys@.len() ==> keys@[k]@ != labels@[i as int]@,
            decreases keys.len() - j,
        {
            if eq_str(keys[j].as_str(), labels[i].as_str()) {
                found = true;
                break;
            }
            j += 1;
        }
        if found {
            let c = counts[j] + 1;
            counts.set(j, c);
            assert forall|k: int| 0 <= k < keys@.len() implies counts@[k] == count_of(
                after,
                #[trigger] keys@[k]@,
            ) by {
                if k != j {
                    assert(string_views(keys@)[k] != string_views(keys@)[j as int]);
                }
            }
            assert(string_views(keys@) == distinct_labels(after)) by {
                assert(string_views(keys@)[j as int] == after.last());
                assert(distinct_labels(before).contains(after.last()));
            }
        } else {
            proof {
                assert(!distinct_labels(before).contains(after.last())) by {
                    if distinct_labels(before).contains(after.last()) {
                        let k = choose|k: int|
                            0 <= k < distinct_labels(before).len() && distinct_labels(before)[k]
                                == after.last();
                        assert(string_views(keys@)[k] == keys@[k]@);
                    }
                }
            }
            let ghost old_keys = keys@;
            keys.push(labels[i].clone());
            counts.push(1);
            assert(string_views(keys@) =~= string_views(old_keys).push(labels@[i as int]@));
            assert(string_views(keys@) =~= distinct_labels(after));
            assert(count_of(before, after.last()) == 0);
            assert forall|k: int| 0 <= k < keys@.len() implies counts@[k] == count_of(
                after,
                #[trigger] keys@[k]@,
            ) by {
                if k < keys@.len() - 1 {
                    assert(old_keys[k]@ != labels@[i as int]@);
                }
            }
        }
        i += 1;
    }
    assert(lv.take(labels@.len() as int) =~= lv);
    (keys, counts)
}

/// Infers the project type from the most frequent detected object, and the
/// suggested tags from the objects and brands (see `suggested_tags`).
pub fn infer_type_and_tags(objects: &[String], brands: &[String]) -> (r: (ProjectType, Vec<String>))
    ensures
        r.0 == object_project_type(dominant_object(string_views(objects@))),
        string_views(r.1@) == suggested_tags(string_views(objects@), string_views(brands@)),
        sorted_set_of(
            string_views(r.1@),
            first_eight(distinct_labels(string_views(objects@))) + string_views(brands@),
        ),
{
    let ghost ov = string_views(objects@);
    let (keys, counts) = count_labels(objects);
    let ghost kv = string_views(keys@);
    let mut best: Option<usize> = None;
    let mut k: usize = 0;
    while k < keys.len()
        invariant
            k <= keys@.len(),
            counts@.len() == keys@.len(),
            kv == string_views(keys@),
            forall|m: int| 0 <= m < keys@.len() ==> counts@[m] == count_of(ov, #[trigger] keys@[m]@),
            match best {
                Some(b) => b < k && dominant_upto(kv, ov, k as nat) == Some(kv[b as int]),
                None => k == 0 && dominant_upto(kv, ov, k as nat) is None,
            },
        decreases keys.len() - k,
    {
        assert(kv[k as int] == keys@[k as int]@);
        best = match best {
            None => Some(k),
            Some(b) => {
                assert(kv[b as int] == keys@[b as int]@);
                if counts[k] >= counts[b] {
                    Some(k)
                } else {
                    Some(b)
                }
            },
        };
        k += 1;
    }
    let project_type = match best {
        Some(b) => project_type_for_object(keys[b].as_str()),
        None => ProjectType::Mixed,
    };
    let mut tags: Vec<String> = Vec::new();
    let mut t: usize = 0;
    while t < keys.len() && t < 8
        invariant
            t <= keys@.len(),
            t <= 8,
            string_views(tags@) =~= kv.take(t as int),
            kv == string_views(keys@),
        decreases keys.len() - t,
    {
        let ghost old_tags = tags@;
        tags.push(keys[t].clone());
        assert(string_views(tags@) =~= string_views(old_tags).push(kv[t as int]));
        t += 1;
    }
    assert(string_views(tags@) =~= first_eight(kv));
    let mut b: usize = 0;
    while b < brands.len()
        invariant
            b <= brands@.len(),
            string_views(tags@) =~= first_eight(kv) + string_views(brands@).take(b as int),
        decreases brands.len() - b,
    {
        let ghost old_tags = tags@;
        tags.push(brands[b].clone());
        assert(string_views(tags@) =~= string_views(old_tags).push(brands@[b as int]@));
        assert(string_views(brands@).take(b as int + 1) =~= string_views(brands@).take(
            b as int,
        ).push(brands@[b as int]@));
        b += 1;
    }
    assert(string_views(brands@).take(brands@.len() as int) =~= string_views(brands@));
    (project_type, sort_dedup_set(&tags))
}

// ---------------------------------------------------------------------------
// Dates, name and confidence
// ---------------------------------------------------------------------------

/// `a` is not later than `b`.
pub open spec fn instant_le(a: (i64, u32), b: (i64, u32)) -> bool {
    a.0 < b.0 || (a.0 == b.0 && a.1 <= b.1)
}

/// Among the first `n` items, the first dated one with the earliest
/// instant.
pub open spec fn earliest_upto(inst: Seq<Option<(i64, u32)>>, n: nat) -> Option<int>
    decreases n,
{
    if n == 0 {
        None
    } else {
        let prev = earliest_upto(inst, (n - 1) as nat);
        match inst[n - 1] {
            None => prev,
            Some(t) => match prev {
                None => Some(n - 1),
                Some(p) => if !instant_le(inst[p]->0, t) {
                    Some(n - 1)
                } else {
                    prev
                },
            },
        }
    }
}

/// Among the first `n` items, the last dated one with the latest instant.
pub open spec fn latest_upto(inst: Seq<Option<(i64, u32)>>, n: nat) -> Option<int>
    decreases n,
{
    if n == 0 {
        None
    } else {
        let prev = latest_upto(inst, (n - 1) as nat);
        match inst[n - 1] {
            None => prev,
            Some(t) => match prev {
                None => Some(n - 1),
                Some(p) => if instant_le(inst[p]->0, t) {
                    Some(n - 1)
                } else {
                    prev
                },
            },
        }
    }
}

proof fn lemma_extreme_dated(inst: Seq<Option<(i64, u32)>>, n: nat)
    requires
        n <= inst.len(),
    ensures
        earliest_upto(inst, n) matches Some(k) ==> 0 <= k < n && inst[k] is Some,
        latest_upto(inst, n) matches Some(k) ==> 0 <= k < n && inst[k] is Some,
        earliest_upto(inst, n) is None <==> latest_upto(inst, n) is None,
    decreases n,
{
    if n > 0 {
        lemma_extreme_dated(inst, (n - 1) as nat);
    }
}

/// The earliest and the latest dated member of a cluster (indices), if any
/// member is dated.
pub fn date_range(inst: &[Option<(i64, u32)>]) -> (r: Option<(usize, usize)>)
    ensures
        match r {
            Some(p) => earliest_upto(inst@, inst@.len()) == Some(p.0 as int) && latest_upto(
                inst@,
                inst@.len(),
            ) == Some(p.1 as int),
            None => earliest_upto(inst@, inst@.len()) is None && latest_upto(inst@, inst@.len()) is None,
        },
{
    let mut lo: Option<usize> = None;
    let mut hi: Option<usize> = None;
    let mut k: usize = 0;
    while k < inst.len()
        invariant
            k <= inst@.len(),
            match lo {
                Some(a) => a < k && earliest_upto(inst@, k as nat) == Some(a as int) && inst@[a as int] is Some,
                None => earliest_upto(inst@, k as nat) is None,
            },
            match hi {
                Some(b) => b < k && latest_upto(inst@, k as nat) == Some(b as int) && inst@[b as int] is Some,
                None => latest_upto(inst@, k as nat) is None,
            },
        decreases inst.len() - k,
    {
        match inst[k] {
            None => {},
            Some(t) => {
                lo = match lo {
                    None => Some(k),
                    Some(a) => {
                        let u = inst[a].unwrap();
                        if !(u.0 < t.0 || (u.0 == t.0 && u.1 <= t.1)) {
                            Some(k)
                        } else {
                            Some(a)
                        }
                    },
                };
                hi = match hi {
                    None => Some(k),
                    Some(b) => {
                        let u = inst[b].unwrap();
                        if u.0 < t.0 || (u.0 == t.0 && u.1 <= t.1) {
                            Some(k)
                        } else {
                            Some(b)
                        }
                    },
                };
            },
        }
        k += 1;
    }
    proof {
        lemma_extreme_dated(inst@, inst@.len());
    }
    match (lo, hi) {
        (Some(a), Some(b)) => Some((a, b)),
        _ => None,
    }
}

/// A path separator, forward or backward.
pub open spec fn is_path_sep(c: char) -> bool {
    c == '/' || c == '\\'
}

/// What follows the last separator of a path (all of it when there is
/// none).
pub open spec fn last_part(s: Seq<char>) -> Seq<char>
    decreases s.len(),
{
    if s.len() == 0 {
        s
    } else if is_path_sep(s.last()) {
        seq![]
    } else {
        last_part(s.drop_last()).push(s.last())
    }
}

/// The customer hint of a cluster: the last part of its first member's
/// source folder, or `klant`.
pub open spec fn customer_hint(cluster: Seq<Media>) -> Seq<char> {
    if cluster.len() > 0 && cluster[0].source_folder is Some {
        last_part(cluster[0].source_folder->0@)
    } else {
        "klant"@
    }
}

/// The text of an optional string slice.
pub open spec fn str_view(o: Option<&str>) -> Option<Seq<char>> {
    match o {
        Some(s) => Some(s@),
        None => None,
    }
}

/// The text of an optional string.
pub open spec fn string_view(o: Option<String>) -> Option<Seq<char>> {
    match o {
        Some(s) => Some(s@),
        None => None,
    }
}

/// The name of a detected project: the Dutch type label, `YYYY-MM` of the
/// start date (or `zonder-datum`), and the customer hint.
pub open spec fn project_name(t: ProjectType, start_date: Option<Seq<char>>, cluster: Seq<Media>) -> Seq<
    char,
> {
    let date = match start_date {
        Some(d) => match rfc3339_year_month(d) {
            Some(m) => m,
            None => "zonder-datum"@,
        },
        None => "zonder-datum"@,
    };
    type_label_spec(t) + " "@ + date + " - "@ + customer_hint(cluster)
}

/// The last part of a path, after its last `/` or `\`.
#[verifier::spinoff_prover]
#[verifier::rlimit(40)]
pub fn last_path_part(s: &str) -> (r: Vec<char>)
    ensures
        r@ == last_part(s@),
{
    let v = chars_of(s);
    let mut k: usize = v.len();
    assert(v@.take(k as int) =~= v@);
    assert(last_part(v@) + v@.subrange(k as int, k as int) =~= last_part(v@));
    while k > 0 && !(v[k - 1] == '/' || v[k - 1] == '\\')
        invariant
            k <= v@.len(),
            v@ == s@,
            last_part(v@) == last_part(v@.take(k as int)) + v@.subrange(k as int, v@.len() as int),
        decreases k,
    {
        let ghost t = v@.take(k as int);
        assert(t.drop_last() =~= v@.take(k - 1));
        assert(last_part(v@.take(k - 1)).push(v@[k - 1]) + v@.subrange(k as int, v@.len() as int)
            =~= last_part(v@.take(k - 1)) + v@.subrange(k - 1, v@.len() as int));
        k -= 1;
    }
    proof {
        assert(v@.take(v@.len() as int) =~= v@);
        if k > 0 {
            assert(last_part(v@.take(k as int)) =~= seq![]);
        } else {
            assert(v@.take(0) =~= seq![]);
        }
        assert(seq![] + v@.subrange(k as int, v@.len() as int) =~= v@.subrange(k as int, v@.len() as int));
    }
    slice_vec(&v, k, v.len())
}

/// The suggested tags are sorted and repeat nothing; every brand is a
/// tag; every tag is a detected object or a brand; and when the cluster
/// shows at most eight different objects, each of them is a tag.
pub proof fn lemma_suggested_tags(objects: Seq<Seq<char>>, brands: Seq<Seq<char>>, tags: Seq<Seq<char>>)
    requires
        sorted_set_of(tags, first_eight(distinct_labels(objects)) + brands),
    ensures
        strictly_sorted(tags),
        forall|b: Seq<char>| brands.contains(b) ==> tags.contains(b),
        forall|t: Seq<char>| tags.contains(t) ==> objects.contains(t) || brands.contains(t),
        distinct_labels(objects).len() <= 8 ==> forall|x: Seq<char>|
            objects.contains(x) ==> tags.contains(x),
{
    let d = distinct_labels(objects);
    let c = first_eight(d) + brands;
    lemma_distinct_labels(objects);
    assert forall|b: Seq<char>| brands.contains(b) implies tags.contains(b) by {
        let k = choose|k: int| 0 <= k < brands.len() && brands[k] == b;
        assert(c[first_eight(d).len() + k] == b);
    }
    assert forall|t: Seq<char>| tags.contains(t) implies objects.contains(t) || brands.contains(t) by {
        assert(c.contains(t));
        let k = choose|k: int| 0 <= k < c.len() && c[k] == t;
        if k < first_eight(d).len() {
            assert(d[k] == t);
            assert(d.contains(t));
        } else {
            assert(brands[k - first_eight(d).len()] == t);
        }
    }
    if d.len() <= 8 {
        assert forall|x: Seq<char>| objects.contains(x) implies tags.contains(x) by {
            assert(d.contains(x));
            let k = choose|k: int| 0 <= k < d.len() && d[k] == x;
            assert(c[k] == x);
        }
    }
}

/// Builds the name of a detected project (see `project_name`).
pub fn build_name(project_type: ProjectType, start_date: Option<&str>, cluster: &[Media]) -> (r: String)
    ensures
        r@ == project_name(project_type, str_view(start_date), cluster@),
{
    let mut out = String::new();
    let word = type_label_dutch(&project_type);
    push_str(&mut out, word.as_str());
    push_str(&mut out, " ");
    match start_date {
        Some(d) => match format_rfc3339_year_month(d) {
            Some(m) => push_str(&mut out, m.as_str()),
            None => push_str(&mut out, "zonder-datum"),
        },
        None => push_str(&mut out, "zonder-datum"),
    }
    push_str(&mut out, " - ");
    if cluster.len() > 0 {
        match &cluster[0].source_folder {
            Some(f) => {
                let part = last_path_part(f.as_str());
                push_chars(&mut out, &part);
            },
            None => push_str(&mut out, "klant"),
        }
    } else {
        push_str(&mut out, "klant");
    }
    out
}

/// The confidence of a detected project, in millionths: up to 0.4 for its
/// size (0.05 per member), 0.3 for a span of at most a week (0.15 for at
/// most a month) in whole days, 0.3 for a GPS position, capped at 1.
pub open spec fn confidence_ppm(size: nat, span: Option<((i64, u32), (i64, u32))>, has_gps: bool) -> nat {
    let by_size: nat = if size * 50_000 < 400_000 {
        size * 50_000
    } else {
        400_000
    };
    let by_span: nat = match span {
        Some(p) => if within_days(p.1, p.0, 7) {
            300_000
        } else if within_days(p.1, p.0, 30) {
            150_000
        } else {
            0
        },
        None => 0,
    };
    let by_gps: nat = if has_gps {
        300_000
    } else {
        0
    };
    let total = by_size + by_span + by_gps;
    if total < 1_000_000 {
        total
    } else {
        1_000_000
    }
}

/// Computes `confidence_ppm` for a cluster of `size` members whose dates
/// run from `span.0` to `span.1`.
pub fn compute_confidence(size: usize, span: Option<((i64, u32), (i64, u32))>, has_gps: bool) -> (r: u32)
    ensures
        r == confidence_ppm(size as nat, span, has_gps),
{
    let by_size: u32 = if size < 8 {
        (size as u32) * 50_000
    } else {
        400_000
    };
    let by_span: u32 = match span {
        Some(p) => {
            let d: i128 = (p.1.0 as i128 - p.0.0 as i128) * 1_000_000_000i128 + (p.1.1 as i128
                - p.0.1 as i128);
            let week: i128 = 8 * 86_400_000_000_000i128;
            let month: i128 = 31 * 86_400_000_000_000i128;
            if -week < d && d < week {
                300_000
            } else if -month < d && d < month {
                150_000
            } else {
                0
            }
        },
        None => 0,
    };
    let by_gps: u32 = if has_gps {
        300_000
    } else {
        0
    };
    let total = by_size + by_span + by_gps;
    if total < 1_000_000 {
        total
    } else {
        1_000_000
    }
}

// ---------------------------------------------------------------------------
// Detected projects
// ---------------------------------------------------------------------------

/// A candidate project: its members, name, type, dates and confidence (in
/// millionths). Coordinates are in millionths of a degree.
#[derive(Clone, Debug)]
pub struct DetectedProject {
    pub name: String,
    pub project_type: ProjectType,
    pub confidence_ppm: u32,
    pub media_ids: Vec<String>,
    pub start_date: Option<String>,
    pub end_date: Option<String>,
    pub latitude_micro: Option<i64>,
    pub longitude_micro: Option<i64>,
    pub location_label: Option<String>,
    pub suggested_tags: Vec<String>,
}

/// The ids of some media.
pub open spec fn media_ids(cluster: Seq<Media>) -> Seq<Seq<char>> {
    cluster.map_values(|m: Media| m.id@)
}

/// The date of a cluster's member `k` moved to UTC.
pub open spec fn utc_date_of(cluster: Seq<Media>, k: Option<int>) -> Option<Seq<char>> {
    match k {
        Some(i) => rfc3339_in_utc(cluster[i].date_taken->0@),
        None => None,
    }
}

/// What `build_detected_project` makes of a non-empty cluster, given the
/// labels of its detected objects and brands and its mean position.
pub open spec fn is_detected_project(
    d: DetectedProject,
    cluster: Seq<Media>,
    objects: Seq<Seq<char>>,
    brands: Seq<Seq<char>>,
    gps: Option<(i64, i64)>,
) -> bool {
    let inst = media_instants(cluster);
    let first = earliest_upto(inst, inst.len());
    let last = latest_upto(inst, inst.len());
    let start = utc_date_of(cluster, first);
    let span = match (first, last) {
        (Some(a), Some(b)) => Some((inst[a]->0, inst[b]->0)),
        _ => None,
    };
    let t = object_project_type(dominant_object(objects));
    &&& d.project_type == t
    &&& string_views(d.suggested_tags@) == suggested_tags(objects, brands)
    &&& d.name@ == project_name(t, start, cluster)
    &&& d.confidence_ppm == confidence_ppm(cluster.len(), span, gps is Some)
    &&& string_views(d.media_ids@) == media_ids(cluster)
    &&& string_view(d.start_date) == start
    &&& string_view(d.end_date) == utc_date_of(cluster, last)
    &&& d.latitude_micro == (match gps {
        Some(p) => Some(p.0),
        None => None,
    })
    &&& d.longitude_micro == (match gps {
        Some(p) => Some(p.1),
        None => None,
    })
    &&& d.location_label is None
}

/// Builds the candidate project of a cluster: `None` for an empty cluster.
/// `objects` and `brands` are the labels found by the cluster's analyses
/// (each occurrence once), `gps` its mean position.
pub fn build_detected_project(
    cluster: &[Media],
    objects: &[String],
    brands: &[String],
    gps: Option<(i64, i64)>,
) -> (r: Option<DetectedProject>)
    ensures
        r is None <==> cluster@.len() == 0,
        r matches Some(d) ==> is_detected_project(
            d,
            cluster@,
            string_views(objects@),
            string_views(brands@),
            gps,
        ),
{
    if cluster.len() == 0 {
        return None;
    }
    let inst = instants_of(cluster);
    let range = date_range(&inst);
    proof {
        lemma_extreme_dated(inst@, inst@.len());
    }
    let (start_date, end_date, span) = match range {
        Some((a, b)) => {
            let da = cluster[a].date_taken.as_ref().unwrap();
            let db = cluster[b].date_taken.as_ref().unwrap();
            (format_rfc3339_in_utc(da.as_str()), format_rfc3339_in_utc(db.as_str()), Some(
                (inst[a].unwrap(), inst[b].unwrap()),
            ))
        },
        None => (None, None, None),
    };
    let (project_type, tags) = infer_type_and_tags(objects, brands);
    let name = match &start_date {
        Some(s) => build_name(project_type, Some(s.as_str()), cluster),
        None => build_name(project_type, None, cluster),
    };
    let confidence_ppm = compute_confidence(cluster.len(), span, gps.is_some());
    let mut ids: Vec<String> = Vec::new();
    let mut k: usize = 0;
    while k < cluster.len()
        invariant
            k <= cluster@.len(),
            string_views(ids@) =~= media_ids(cluster@).take(k as int),
        decreases cluster.len() - k,
    {
        let ghost before = ids@;
        ids.push(cluster[k].id.clone());
        assert(string_views(ids@) =~= string_views(before).push(cluster@[k as int].id@));
        k += 1;
    }
    assert(media_ids(cluster@).take(cluster@.len() as int) =~= media_ids(cluster@));
    let (latitude_micro, longitude_micro) = match gps {
        Some(p) => (Some(p.0), Some(p.1)),
        None => (None, None),
    };
    Some(
        DetectedProject {
            name,
            project_type,
            confidence_ppm,
            media_ids: ids,
            start_date,
            end_date,
            latitude_micro,
            longitude_micro,
            location_label: None,
            suggested_tags: tags,
        },
    )
}

/// The slug of a detected project: its name's slug, a hyphen, and the
/// first eight characters of its id.
pub open spec fn detected_slug(name: Seq<char>, id: Seq<char>) -> Seq<char> {
    slug_of(name) + "-"@ + id.take(8)
}

/// The project record stored for a detected project under `id`, created
/// at `now`.
pub open spec fn is_project_of(p: Project, d: DetectedProject, id: Seq<char>, now: Seq<char>) -> bool {
    &&& p.id@ == id
    &&& p.name@ == d.name@
    &&& p.slug@ == detected_slug(d.name@, id)
    &&& p.description is None
    &&& p.project_type == d.project_type
    &&& p.status == ProjectStatus::Detected
    &&& p.location_label == d.location_label
    &&& p.latitude_micro == d.latitude_micro
    &&& p.longitude_micro == d.longitude_micro
    &&& p.start_date == d.start_date
    &&& p.end_date == d.end_date
    &&& p.customer_name is None
    &&& p.customer_email is None
    &&& p.customer_phone is None
    &&& p.tags@ == d.suggested_tags@
    &&& p.cover_media_id == (if d.media_ids@.len() > 0 {
        Some(d.media_ids@[0])
    } else {
        None
    })
    &&& p.confidence_ppm == d.confidence_ppm
    &&& !p.is_private
    &&& p.created_at@ == now
    &&& p.updated_at@ == now
}

/// The project record of a detected project, under `id` (at least eight
/// ASCII characters), created at `now`.
pub fn project_from_detected(detected: &DetectedProject, id: &str, now: &str) -> (r: Project)
    requires
        id@.len() >= 8,
        all_ascii(id@),
    ensures
        is_project_of(r, *detected, id@, now@),
{
    let mut slug = slugify(detected.name.as_str());
    push_str(&mut slug, "-");
    let idv = chars_of(id);
    let head = slice_vec(&idv, 0, 8);
    push_chars(&mut slug, &head);
    assert(idv@.subrange(0, 8) =~= id@.take(8));
    let cover = if detected.media_ids.len() > 0 {
        Some(detected.media_ids[0].clone())
    } else {
        None
    };
    Project {
        id: id.to_string(),
        name: detected.name.clone(),
        slug,
        description: None,
        project_type: detected.project_type,
        status: ProjectStatus::Detected,
        location_label: clone_opt_string(&detected.location_label),
        latitude_micro: detected.latitude_micro,
        longitude_micro: detected.longitude_micro,
        start_date: clone_opt_string(&detected.start_date),
        end_date: clone_opt_string(&detected.end_date),
        customer_name: None,
        customer_email: None,
        customer_phone: None,
        tags: clone_strings(&detected.suggested_tags),
        cover_media_id: cover,
        confidence_ppm: detected.confidence_ppm,
        is_private: false,
        created_at: now.to_string(),
        updated_at: now.to_string(),
    }
}

/// The project record of a detected project under a fresh id, created now.
pub fn new_project_from_detected(detected: &DetectedProject) -> (r: Project)
    ensures
        r.id@.len() == 36,
        is_project_of(r, *detected, r.id@, r.created_at@),
{
    let id = new_uuid_string();
    let now = now_rfc3339();
    proof {
        assert(all_ascii(id@)) by {
            assert forall|i: int| 0 <= i < id@.len() implies crate::text::is_ascii_char(#[trigger] id@[i]) by {
                assert(i == 8 || i == 13 || i == 18 || i == 23 || i != 8);
            }
        }
    }
    project_from_detected(detected, id.as_str(), now.as_str())
}

/// The project record a split creates under `id` at `now`: named as
/// asked, of unknown type, detected, with half confidence, its cover the
/// first of the media moved into it.
pub open spec fn is_split_project(
    p: Project,
    name: Seq<char>,
    media_ids: Seq<Seq<char>>,
    id: Seq<char>,
    now: Seq<char>,
) -> bool {
    &&& p.id@ == id
    &&& p.name@ == name
    &&& p.slug@ == detected_slug(name, id)
    &&& p.description is None
    &&& p.project_type == ProjectType::Unknown
    &&& p.status == ProjectStatus::Detected
    &&& p.location_label is None
    &&& p.latitude_micro is None && p.longitude_micro is None
    &&& p.start_date is None && p.end_date is None
    &&& p.customer_name is None && p.customer_email is None && p.customer_phone is None
    &&& p.tags@.len() == 0
    &&& string_view(p.cover_media_id) == (if media_ids.len() > 0 {
        Some(media_ids[0])
    } else {
        None
    })
    &&& p.confidence_ppm == 500_000
    &&& !p.is_private
    &&& p.created_at@ == now
    &&& p.updated_at@ == now
}

/// The project record a split creates (see `is_split_project`); `id` has
/// at least eight ASCII characters.
pub fn split_project_record(name: &str, media_ids: &[String], id: &str, now: &str) -> (r: Project)
    requires
        id@.len() >= 8,
        all_ascii(id@),
    ensures
        is_split_project(r, name@, string_views(media_ids@), id@, now@),
{
    let mut slug = slugify(name);
    push_str(&mut slug, "-");
    let idv = chars_of(id);
    let head = slice_vec(&idv, 0, 8);
    push_chars(&mut slug, &head);
    assert(idv@.subrange(0, 8) =~= id@.take(8));
    let cover = if media_ids.len() > 0 {
        Some(media_ids[0].clone())
    } else {
        None
    };
    Project {
        id: id.to_string(),
        name: name.to_string(),
        slug,
        description: None,
        project_type: ProjectType::Unknown,
        status: ProjectStatus::Detected,
        location_label: None,
        latitude_micro: None,
        longitude_micro: None,
        start_date: None,
        end_date: None,
        customer_name: None,
        customer_email: None,
        customer_phone: None,
        tags: Vec::new(),
        cover_media_id: cover,
        confidence_ppm: 500_000,
        is_private: false,
        created_at: now.to_string(),
        updated_at: now.to_string(),
    }
}

/// The project a split creates for some media, under a fresh id, now.
pub fn split_project(name: &str, media_ids: &[String]) -> (r: Project)
    ensures
        r.id@.len() == 36,
        is_split_project(r, name@, string_views(media_ids@), r.id@, r.created_at@),
{
    let id = new_uuid_string();
    let now = now_rfc3339();
    proof {
        assert(all_ascii(id@)) by {
            assert forall|i: int| 0 <= i < id@.len() implies crate::text::is_ascii_char(#[trigger] id@[i]) by {
                assert(i == 8 || i == 13 || i == 18 || i == 23 || i != 8);
            }
        }
    }
    split_project_record(name, media_ids, id.as_str(), now.as_str())
}

/// The groups of a date cluster that become candidate projects: location
/// groups of at least two members, as indices into the media list.
pub open spec fn project_groups_spec(cluster: Seq<usize>, groups: Seq<Seq<usize>>) -> Seq<Seq<usize>>
    decreases groups.len(),
{
    if groups.len() == 0 {
        seq![]
    } else {
        let prev = project_groups_spec(cluster, groups.drop_last());
        let g = groups.last();
        if g.len() >= 2 {
            prev.push(g.map_values(|k: usize| cluster[k as int]))
        } else {
            prev
        }
    }
}

/// When the cluster's indices are distinct and the groups are disjoint and
/// index the cluster, the candidate projects are disjoint: no media file
/// belongs to two of them, and each comes from the cluster.
pub proof fn lemma_project_groups_disjoint(cluster: Seq<usize>, groups: Seq<Seq<usize>>)
    requires
        cluster.no_duplicates(),
        forall|g: int, a: int|
            0 <= g < groups.len() && 0 <= a < groups[g].len() ==> (#[trigger] groups[g][a])
                < cluster.len(),
        forall|g1: int, g2: int, a: int, b: int|
            0 <= g1 < groups.len() && 0 <= g2 < groups.len() && 0 <= a < groups[g1].len() && 0 <= b
                < groups[g2].len() && (g1 != g2 || a != b) ==> (#[trigger] groups[g1][a]) != (
            #[trigger] groups[g2][b]),
    ensures
        forall|p1: int, p2: int, a: int, b: int|
            0 <= p1 < project_groups_spec(cluster, groups).len() && 0 <= p2 < project_groups_spec(
                cluster,
                groups,
            ).len() && 0 <= a < project_groups_spec(cluster, groups)[p1].len() && 0 <= b
                < project_groups_spec(cluster, groups)[p2].len() && (p1 != p2 || a != b) ==> (
            #[trigger] project_groups_spec(cluster, groups)[p1][a]) != (
            #[trigger] project_groups_spec(cluster, groups)[p2][b]),
        forall|p: int, a: int|
            0 <= p < project_groups_spec(cluster, groups).len() && 0 <= a < project_groups_spec(
                cluster,
                groups,
            )[p].len() ==> cluster.contains(#[trigger] project_groups_spec(cluster, groups)[p][a]),
    decreases groups.len(),
{
    if groups.len() > 0 {
        let init = groups.drop_last();
        lemma_project_groups_disjoint(cluster, init);
        let prev = project_groups_spec(cluster, init);
        let g = groups.last();
        let out = project_groups_spec(cluster, groups);
        let m = g.map_values(|k: usize| cluster[k as int]);
        assert forall|a: int| 0 <= a < g.len() implies cluster.contains(#[trigger] m[a]) by {
            assert(groups[groups.len() - 1][a] < cluster.len());
            assert(cluster[g[a] as int] == m[a]);
        }
        if g.len() >= 2 {
            assert(out == prev.push(m));
            // every item of `prev` is `cluster[x]` for some x in an earlier group
            assert forall|p1: int, p2: int, a: int, b: int|
                0 <= p1 < out.len() && 0 <= p2 < out.len() && 0 <= a < out[p1].len() && 0 <= b
                    < out[p2].len() && (p1 != p2 || a != b) implies (#[trigger] out[p1][a]) != (
                #[trigger] out[p2][b]) by {
                if p1 < prev.len() && p2 < prev.len() {
                } else {
                    lemma_project_groups_origin(cluster, init);
                    if p1 == prev.len() && p2 == prev.len() {
                        assert(groups[groups.len() - 1][a] != groups[groups.len() - 1][b]);
                        assert(g[a] < cluster.len() && g[b] < cluster.len());
                    } else if p1 == prev.len() {
                        assert(from_groups(cluster, init, prev[p2][b]));
                        let (gg, bb) = choose|gg: int, bb: int|
                            0 <= gg < init.len() && 0 <= bb < init[gg].len() && prev[p2][b] == cluster[#[trigger] init[gg][bb] as int];
                        assert(groups[gg][bb] != groups[groups.len() - 1][a]);
                        assert(g[a] < cluster.len() && init[gg][bb] < cluster.len());
                    } else {
                        assert(from_groups(cluster, init, prev[p1][a]));
                        let (gg, aa) = choose|gg: int, aa: int|
                            0 <= gg < init.len() && 0 <= aa < init[gg].len() && prev[p1][a] == cluster[#[trigger] init[gg][aa] as int];
                        assert(groups[gg][aa] != groups[groups.len() - 1][b]);
                        assert(g[b] < cluster.len() && init[gg][aa] < cluster.len());
                    }
                }
            }
        }
    }
}

/// `x` is the cluster item of some group member.
pub open spec fn from_groups(cluster: Seq<usize>, groups: Seq<Seq<usize>>, x: usize) -> bool {
    exists|g: int, b: int| 0 <= g < groups.len() && 0 <= b < groups[g].len() && x == cluster[#[trigger] groups[g][b] as int]
}

proof fn lemma_project_groups_origin(cluster: Seq<usize>, groups: Seq<Seq<usize>>)
    ensures
        forall|p: int, a: int|
            0 <= p < project_groups_spec(cluster, groups).len() && 0 <= a < project_groups_spec(
                cluster,
                groups,
            )[p].len() ==> from_groups(cluster, groups, #[trigger] project_groups_spec(cluster, groups)[p][a]),
    decreases groups.len(),
{
    if groups.len() > 0 {
        let init = groups.drop_last();
        lemma_project_groups_origin(cluster, init);
        let out = project_groups_spec(cluster, groups);
        let prev = project_groups_spec(cluster, init);
        let g = groups.last();
        assert forall|p: int, a: int| 0 <= p < out.len() && 0 <= a < out[p].len() implies from_groups(
            cluster,
            groups,
            #[trigger] out[p][a],
        ) by {
            if p < prev.len() {
                assert(out[p] == prev[p]);
                assert(from_groups(cluster, init, prev[p][a]));
                let (gg, b) = choose|gg: int, b: int|
                    0 <= gg < init.len() && 0 <= b < init[gg].len() && prev[p][a] == cluster[#[trigger] init[gg][b] as int];
                assert(groups[gg] == init[gg]);
                assert(groups[gg][b] == init[gg][b]);
            } else {
                let last = groups.len() - 1;
                assert(groups[last] == g);
                assert(out[p][a] == cluster[g[a] as int]);
                assert(groups[last][a] == g[a]);
            }
        }
    }
}

/// Maps the location groups of a date cluster (indices into the cluster)
/// to indices into the media list, keeping the groups of at least two.
pub fn project_groups(cluster: &[usize], groups: &[Vec<usize>]) -> (r: Vec<Vec<usize>>)
    requires
        forall|g: int, k: int|
            0 <= g < groups@.len() && 0 <= k < groups@[g]@.len() ==> (#[trigger] groups@[g]@[k])
                < cluster@.len(),
    ensures
        groups_view(r@) == project_groups_spec(cluster@, groups_view(groups@)),
{
    let ghost gv = groups_view(groups@);
    let mut r: Vec<Vec<usize>> = Vec::new();
    let mut i: usize = 0;
    while i < groups.len()
        invariant
            i <= groups@.len(),
            gv == groups_view(groups@),
            forall|g: int, k: int|
                0 <= g < groups@.len() && 0 <= k < groups@[g]@.len() ==> (#[trigger] groups@[g]@[k])
                    < cluster@.len(),
            groups_view(r@) == project_groups_spec(cluster@, gv.take(i as int)),
        decreases groups.len() - i,
    {
        assert(gv.take(i as int + 1).drop_last() =~= gv.take(i as int));
        let g = &groups[i];
        assert(gv[i as int] == g@);
        if g.len() >= 2 {
            let mut m: Vec<usize> = Vec::new();
            let mut k: usize = 0;
            while k < g.len()
                invariant
                    k <= g@.len(),
                    g@ == groups@[i as int]@,
                    forall|j: int| 0 <= j < g@.len() ==> (#[trigger] g@[j]) < cluster@.len(),
                    m@ =~= g@.map_values(|x: usize| cluster@[x as int]).take(k as int),
                decreases g.len() - k,
            {
                assert(g@[k as int] < cluster@.len());
                m.push(cluster[g[k]]);
                k += 1;
            }
            assert(m@ =~= g@.map_values(|x: usize| cluster@[x as int]));
            let ghost before = r@;
            r.push(m);
            assert(groups_view(r@) =~= groups_view(before).push(m@));
        }
        i += 1;
    }
    assert(gv.take(groups@.len() as int) =~= gv);
    r
}

} // verus!
