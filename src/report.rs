use vstd::prelude::*;
use crate::ranking::{
    RankingError, RankingRecord, error_holds, has_user, validate_rankings, well_formed, MAX_RECORDS,
};
use crate::pair::{PairStats, describes, emitted, stats_bounded, pair_statistics};
use crate::score::{
    key_before, key_of_pair, key_of_stats, lemma_key_before_transitive, lemma_pair_key_denominator, lemma_score_bounds,
    ranks_before,
};

verus! {

/// Most pairs the global report holds.
pub const TOP_PAIRS: usize = 5;

/// Each pair comes strictly before the next in report order.
pub open spec fn strictly_ranked(s: Seq<PairStats>) -> bool {
    forall|i: int, j: int| 0 <= i < j < s.len() ==> ranks_before(#[trigger] s[i], #[trigger] s[j])
}

pub open spec fn same_users(p: PairStats, q: PairStats) -> bool {
    p.user_1 == q.user_1 && p.user_2 == q.user_2
}

/// The distinct users of a snapshot, each once.
pub fn distinct_users(entries: &Vec<RankingRecord>) -> (r: Vec<u32>)
    ensures
        forall|u: u32| r@.contains(u) <==> has_user(entries@, u),
        r@.no_duplicates(),
        r@.len() <= entries@.len(),
{
    let n = entries.len();
    let mut r: Vec<u32> = Vec::new();
    let mut i: usize = 0;
    while i < n
        invariant
            n == entries@.len(),
            i <= n,
            r@.len() <= i,
            r@.no_duplicates(),
            forall|u: u32|
                r@.contains(u) <==> exists|k: int| 0 <= k < i && (#[trigger] entries@[k]).user_id == u,
        decreases n - i,
    {
        let u = entries[i].user_id;
        let mut k: usize = 0;
        let mut found = false;
        while k < r.len()
            invariant
                k <= r@.len(),
                found == exists|q: int| 0 <= q < k && r@[q] == u,
            decreases r@.len() - k,
        {
            if r[k] == u {
                found = true;
            }
            k = k + 1;
        }
        let ghost r0 = r@;
        if !found {
            r.push(u);
        }
        proof {
            assert forall|v: u32|
                r@.contains(v) <==> exists|k: int|
                    0 <= k < i + 1 && (#[trigger] entries@[k]).user_id == v by {
                if v == u {
                    assert(entries@[i as int].user_id == v);
                    if found {
                        let q = choose|q: int| 0 <= q < r@.len() && r@[q] == u;
                        assert(r@.contains(v));
                    } else {
                        assert(r@[r@.len() - 1] == v);
                    }
                } else {
                    if r@.contains(v) {
                        let q = choose|q: int| 0 <= q < r@.len() && r@[q] == v;
                        assert(r0[q] == v);
                        assert(r0.contains(v));
                    }
                    if exists|k: int| 0 <= k < i + 1 && (#[trigger] entries@[k]).user_id == v {
                        let k = choose|k: int| 0 <= k < i + 1 && (#[trigger] entries@[k]).user_id == v;
                        assert(k < i);
                        assert(r0.contains(v));
                        let q = choose|q: int| 0 <= q < r0.len() && r0[q] == v;
                        assert(r@[q] == v);
                    }
                }
            }
        }
        i = i + 1;
    }
    proof {
        assert forall|u: u32| r@.contains(u) <==> has_user(entries@, u) by {
            if has_user(entries@, u) {
                let k = choose|k: int| 0 <= k < n && (#[trigger] entries@[k]).user_id == u;
                assert(exists|k: int| 0 <= k < i && (#[trigger] entries@[k]).user_id == u);
            }
        }
    }
    r
}

/// Inserts `x` at its place in a strictly ranked list of other pairs and
/// returns that place.
fn insert_ranked(r: &mut Vec<PairStats>, x: PairStats) -> (pos: usize)
    requires
        strictly_ranked(old(r)@),
        forall|k: int| 0 <= k < old(r)@.len() ==> stats_bounded(#[trigger] old(r)@[k]),
        forall|k: int| 0 <= k < old(r)@.len() ==> !same_users(#[trigger] old(r)@[k], x),
        stats_bounded(x),
        old(r)@.len() < usize::MAX,
    ensures
        pos <= old(r)@.len(),
        final(r)@ == old(r)@.insert(pos as int, x),
        strictly_ranked(final(r)@),
        forall|k: int| 0 <= k < pos ==> ranks_before(#[trigger] old(r)@[k], x),
        forall|k: int| pos <= k < old(r)@.len() ==> ranks_before(x, #[trigger] old(r)@[k]),
{
    let mut p: usize = 0;
    while p < r.len() && r[p].ranks_before(&x)
        invariant
            p <= r@.len(),
            r@ == old(r)@,
            forall|k: int| 0 <= k < r@.len() ==> stats_bounded(#[trigger] r@[k]),
            stats_bounded(x),
            forall|k: int| 0 <= k < p ==> ranks_before(#[trigger] r@[k], x),
        decreases r@.len() - p,
    {
        p = p + 1;
    }
    let ghost s = r@;
    proof {
        lemma_score_bounds(x);
        if p < s.len() {
            assert(!same_users(s[p as int], x));
            assert(ranks_before(x, s[p as int]));
            assert forall|k: int| p <= k < s.len() implies ranks_before(x, #[trigger] s[k]) by {
                if k > p {
                    assert(ranks_before(s[p as int], s[k]));
                    lemma_score_bounds(s[p as int]);
                    lemma_score_bounds(s[k]);
                    lemma_key_before_transitive(
                        key_of_stats(x),
                        key_of_stats(s[p as int]),
                        key_of_stats(s[k]),
                    );
                }
            }
        }
    }
    r.insert(p, x);
    proof {
        let t = r@;
        assert forall|i: int, j: int| 0 <= i < j < t.len() implies ranks_before(
            #[trigger] t[i],
            #[trigger] t[j],
        ) by {
            if j < p {
                assert(ranks_before(s[i], s[j]));
            } else if j == p {
            } else if i < p {
                assert(ranks_before(s[i], s[j - 1]));
            } else if i == p {
            } else {
                assert(ranks_before(s[i - 1], s[j - 1]));
            }
        }
    }
    p
}

/// A match of the per-user view: the statistic of `active` against another
/// user of the snapshot who shares a song or an artist with them.
pub open spec fn is_match(e: Seq<RankingRecord>, active: u32, p: PairStats) -> bool {
    &&& describes(p, e, active, p.user_2)
    &&& p.user_2 != active
    &&& has_user(e, p.user_2)
    &&& emitted(e, active, p.user_2)
}

/// The per-user view of `active`: every other user who shares a song or an
/// artist with them, best match first; none is left out and none appears
/// twice.
pub open spec fn user_report(e: Seq<RankingRecord>, active: u32, r: Seq<PairStats>) -> bool {
    &&& forall|k: int| 0 <= k < r.len() ==> is_match(e, active, #[trigger] r[k])
    &&& strictly_ranked(r)
    &&& forall|b: u32|
        has_user(e, b) && b != active && emitted(e, active, b) ==> exists|k: int|
            0 <= k < r.len() && (#[trigger] r[k]).user_2 == b
}

/// Builds the per-user view of `active`.
pub fn matches_for_user(entries: &Vec<RankingRecord>, active: u32) -> (r: Vec<PairStats>)
    requires
        well_formed(entries@),
        entries@.len() <= MAX_RECORDS,
    ensures
        user_report(entries@, active, r@),
{
    let ghost e = entries@;
    let users = distinct_users(entries);
    let mut r: Vec<PairStats> = Vec::new();
    let mut i: usize = 0;
    while i < users.len()
        invariant
            e == entries@,
            well_formed(e),
            e.len() <= MAX_RECORDS,
            forall|u: u32| users@.contains(u) <==> has_user(e, u),
            users@.no_duplicates(),
            users@.len() <= e.len(),
            i <= users@.len(),
            r@.len() <= i,
            strictly_ranked(r@),
            forall|k: int|
                0 <= k < r@.len() ==> is_match(e, active, #[trigger] r@[k]) && exists|q: int|
                    0 <= q < i && users@[q] == r@[k].user_2,
            forall|q: int|
                0 <= q < i && #[trigger] users@[q] != active && emitted(e, active, users@[q])
                    ==> exists|k: int| 0 <= k < r@.len() && (#[trigger] r@[k]).user_2 == users@[q],
        decreases users@.len() - i,
    {
        let b = users[i];
        proof {
            assert(users@.contains(b));
        }
        if b != active {
            let st = pair_statistics(entries, active, b);
            if st.overlapping_songs > 0 || st.overlapping_artists > 0 {
                let ghost old_r = r@;
                proof {
                    assert forall|k: int| 0 <= k < old_r.len() implies !same_users(
                        #[trigger] old_r[k],
                        st,
                    ) by {
                        let q = choose|q: int| 0 <= q < i && users@[q] == old_r[k].user_2;
                        assert(users@[q] != users@[i as int]);
                    }
                }
                let pos = insert_ranked(&mut r, st);
                proof {
                    assert forall|k: int| 0 <= k < r@.len() implies is_match(
                        e,
                        active,
                        #[trigger] r@[k],
                    ) && exists|q: int| 0 <= q < i + 1 && users@[q] == r@[k].user_2 by {
                        if k < pos {
                            assert(r@[k] == old_r[k]);
                        } else if k == pos {
                            assert(users@[i as int] == r@[k].user_2);
                        } else {
                            assert(r@[k] == old_r[k - 1]);
                        }
                    }
                    assert forall|q: int|
                        0 <= q < i + 1 && #[trigger] users@[q] != active && emitted(
                            e,
                            active,
                            users@[q],
                        ) implies exists|k: int|
                        0 <= k < r@.len() && (#[trigger] r@[k]).user_2 == users@[q] by {
                        if q < i {
                            let k0 = choose|k: int|
                                0 <= k < old_r.len() && (#[trigger] old_r[k]).user_2 == users@[q];
                            if k0 < pos {
                                assert(r@[k0] == old_r[k0]);
                            } else {
                                assert(r@[k0 + 1] == old_r[k0]);
                            }
                        } else {
                            assert(r@[pos as int].user_2 == users@[q]);
                        }
                    }
                }
            }
        }
        i = i + 1;
    }
    proof {
        assert forall|b: u32|
            has_user(e, b) && b != active && emitted(e, active, b) implies exists|k: int|
                0 <= k < r@.len() && (#[trigger] r@[k]).user_2 == b by {
            assert(users@.contains(b));
            let q = choose|q: int| 0 <= q < users@.len() && users@[q] == b;
            assert(users@[q] != active);
        }
        assert forall|k: int| 0 <= k < r@.len() implies is_match(e, active, #[trigger] r@[k]) by {
            let q = choose|q: int| 0 <= q < i && users@[q] == r@[k].user_2;
            assert(users@.contains(r@[k].user_2));
        }
    }
    r
}

/// An entry of the global report: the statistic of two users of the
/// snapshot, the lower id first, who share a song or an artist.
pub open spec fn is_top_pair(e: Seq<RankingRecord>, p: PairStats) -> bool {
    &&& describes(p, e, p.user_1, p.user_2)
    &&& p.user_1 < p.user_2
    &&& has_user(e, p.user_1)
    &&& has_user(e, p.user_2)
    &&& emitted(e, p.user_1, p.user_2)
}

/// Whether the list holds the pair of users `a` and `b`.
pub open spec fn lists_pair(r: Seq<PairStats>, a: u32, b: u32) -> bool {
    exists|k: int| 0 <= k < r.len() && (#[trigger] r[k]).user_1 == a && r[k].user_2 == b
}

/// `r` is the best `TOP_PAIRS` of the emitted pairs among `seen`.
pub open spec fn top_of(e: Seq<RankingRecord>, seen: Set<(u32, u32)>, r: Seq<PairStats>) -> bool {
    &&& forall|k: int|
        0 <= k < r.len() ==> is_top_pair(e, #[trigger] r[k]) && seen.contains(
            (r[k].user_1, r[k].user_2),
        )
    &&& strictly_ranked(r)
    &&& r.len() <= TOP_PAIRS
    &&& forall|a: u32, b: u32|
        #[trigger] seen.contains((a, b)) && emitted(e, a, b) && !lists_pair(r, a, b) ==> r.len()
            == TOP_PAIRS && forall|k: int|
            0 <= k < r.len() ==> key_before(key_of_stats(#[trigger] r[k]), key_of_pair(e, a, b))
}

/// Offers the pair of `x` to the running top list.
fn offer_top(
    r: &mut Vec<PairStats>,
    x: PairStats,
    Ghost(e): Ghost<Seq<RankingRecord>>,
    Ghost(seen): Ghost<Set<(u32, u32)>>,
)
    requires
        top_of(e, seen, old(r)@),
        describes(x, e, x.user_1, x.user_2),
        x.user_1 < x.user_2,
        has_user(e, x.user_1),
        has_user(e, x.user_2),
        !seen.contains((x.user_1, x.user_2)),
    ensures
        top_of(e, seen.insert((x.user_1, x.user_2)), final(r)@),
{
    let ghost s2 = seen.insert((x.user_1, x.user_2));
    let ghost r0 = r@;
    if x.overlapping_songs > 0 || x.overlapping_artists > 0 {
        proof {
            assert forall|k: int| 0 <= k < r0.len() implies !same_users(#[trigger] r0[k], x) by {
                assert(seen.contains((r0[k].user_1, r0[k].user_2)));
            }
        }
        let pos = insert_ranked(r, x);
        let ghost t = r@;
        if r.len() > TOP_PAIRS {
            r.pop();
        }
        proof {
            let f = r@;
            lemma_score_bounds(x);
            assert forall|k: int| 0 <= k < f.len() implies is_top_pair(e, #[trigger] f[k])
                && s2.contains((f[k].user_1, f[k].user_2)) by {
                assert(f[k] == t[k]);
                if k < pos {
                    assert(t[k] == r0[k]);
                } else if k > pos {
                    assert(t[k] == r0[k - 1]);
                }
            }
            assert forall|i: int, j: int| 0 <= i < j < f.len() implies ranks_before(
                #[trigger] f[i],
                #[trigger] f[j],
            ) by {
                assert(f[i] == t[i] && f[j] == t[j]);
            }
            assert forall|a: u32, b: u32|
                #[trigger] s2.contains((a, b)) && emitted(e, a, b) && !lists_pair(f, a, b) implies f.len()
                    == TOP_PAIRS && forall|k: int|
                    0 <= k < f.len() ==> key_before(
                        key_of_stats(#[trigger] f[k]),
                        key_of_pair(e, a, b),
                    ) by {
                if a == x.user_1 && b == x.user_2 {
                    // `x` itself was dropped: it sat last.
                    if pos < f.len() {
                        assert(f[pos as int] == x);
                    }
                    assert(t.len() == TOP_PAIRS + 1);
                    assert(pos == TOP_PAIRS);
                    assert forall|k: int| 0 <= k < f.len() implies key_before(
                        key_of_stats(#[trigger] f[k]),
                        key_of_pair(e, a, b),
                    ) by {
                        assert(f[k] == r0[k]);
                        assert(ranks_before(r0[k], x));
                    }
                } else {
                    assert(seen.contains((a, b)));
                    if lists_pair(r0, a, b) {
                        // it was listed before: it is the one that was dropped
                        let k0 = choose|k: int|
                            0 <= k < r0.len() && (#[trigger] r0[k]).user_1 == a && r0[k].user_2 == b;
                        let kt = if k0 < pos {
                            k0
                        } else {
                            k0 + 1
                        };
                        assert(t[kt] == r0[k0]);
                        if kt < f.len() {
                            assert(f[kt] == t[kt]);
                        }
                        assert(kt == t.len() - 1);
                        assert(t.len() == TOP_PAIRS + 1);
                        assert forall|k: int| 0 <= k < f.len() implies key_before(
                            key_of_stats(#[trigger] f[k]),
                            key_of_pair(e, a, b),
                        ) by {
                            assert(f[k] == t[k]);
                            assert(ranks_before(t[k], t[kt]));
                        }
                    } else {
                        assert(r0.len() == TOP_PAIRS);
                        let last = r0[TOP_PAIRS - 1];
                        assert(key_before(key_of_stats(last), key_of_pair(e, a, b)));
                        assert forall|k: int| 0 <= k < f.len() implies key_before(
                            key_of_stats(#[trigger] f[k]),
                            key_of_pair(e, a, b),
                        ) by {
                            assert(f[k] == t[k]);
                            if k < pos {
                                assert(t[k] == r0[k]);
                            } else if k > pos {
                                assert(t[k] == r0[k - 1]);
                            } else {
                                assert(t[k] == x);
                                assert(pos <= TOP_PAIRS - 1);
                                assert(ranks_before(x, last));
                                lemma_score_bounds(last);
                                lemma_pair_key_denominator(e, a, b);
                                lemma_key_before_transitive(
                                    key_of_stats(x),
                                    key_of_stats(last),
                                    key_of_pair(e, a, b),
                                );
                            }
                        }
                    }
                }
            }
        }
    } else {
        proof {
            assert forall|a: u32, b: u32|
                #[trigger] s2.contains((a, b)) && emitted(e, a, b) && !lists_pair(r0, a, b) implies r0.len()
                    == TOP_PAIRS && forall|k: int|
                    0 <= k < r0.len() ==> key_before(
                        key_of_stats(#[trigger] r0[k]),
                        key_of_pair(e, a, b),
                    ) by {
                assert(seen.contains((a, b)));
            }
        }
    }
}

pub open spec fn lower_of(u: u32, v: u32) -> u32 {
    if u < v {
        u
    } else {
        v
    }
}

pub open spec fn higher_of(u: u32, v: u32) -> u32 {
    if u < v {
        v
    } else {
        u
    }
}

/// The pair `(a, b)` comes from positions `p < q` of `s` that a row-by-row
/// walk reaches before position `(i, j)`.
pub open spec fn pair_done(s: Seq<u32>, i: int, j: int, a: u32, b: u32) -> bool {
    exists|p: int, q: int|
        0 <= p < q < s.len() && (p < i || (p == i && q < j)) && #[trigger] lower_of(s[p], s[q])
            == a && #[trigger] higher_of(s[p], s[q]) == b
}

/// The global report: the best pairs of users, at most `TOP_PAIRS` of them,
/// best first. Every pair of users of the snapshot that shares a song or an
/// artist and is not listed ranks after all listed ones, and then the list
/// is full.
pub open spec fn top_report(e: Seq<RankingRecord>, r: Seq<PairStats>) -> bool {
    &&& forall|k: int| 0 <= k < r.len() ==> is_top_pair(e, #[trigger] r[k])
    &&& strictly_ranked(r)
    &&& r.len() <= TOP_PAIRS
    &&& forall|a: u32, b: u32|
        a < b && has_user(e, a) && has_user(e, b) && #[trigger] emitted(e, a, b) && !lists_pair(
            r,
            a,
            b,
        ) ==> r.len() == TOP_PAIRS && forall|k: int|
            0 <= k < r.len() ==> key_before(key_of_stats(#[trigger] r[k]), key_of_pair(e, a, b))
}

/// Builds the global report.
pub fn top_pairs(entries: &Vec<RankingRecord>) -> (r: Vec<PairStats>)
    requires
        well_formed(entries@),
        entries@.len() <= MAX_RECORDS,
    ensures
        top_report(entries@, r@),
{
    let ghost e = entries@;
    let users = distinct_users(entries);
    let n = users.len();
    let mut r: Vec<PairStats> = Vec::new();
    let ghost mut seen: Set<(u32, u32)> = Set::empty();
    let mut i: usize = 0;
    while i < n
        invariant
            e == entries@,
            well_formed(e),
            e.len() <= MAX_RECORDS,
            n == users@.len(),
            forall|u: u32| users@.contains(u) <==> has_user(e, u),
            users@.no_duplicates(),
            i <= n,
            top_of(e, seen, r@),
            forall|a: u32, b: u32|
                #[trigger] seen.contains((a, b)) <==> pair_done(users@, i as int, i + 1, a, b),
        decreases n - i,
    {
        let mut j: usize = i + 1;
        while j < n
            invariant
                e == entries@,
                well_formed(e),
                e.len() <= MAX_RECORDS,
                n == users@.len(),
                forall|u: u32| users@.contains(u) <==> has_user(e, u),
                users@.no_duplicates(),
                i < j <= n,
                top_of(e, seen, r@),
                forall|a: u32, b: u32|
                    #[trigger] seen.contains((a, b)) <==> pair_done(
                        users@,
                        i as int,
                        j as int,
                        a,
                        b,
                    ),
            decreases n - j,
        {
            let u = users[i];
            let v = users[j];
            let lo = if u < v {
                u
            } else {
                v
            };
            let hi = if u < v {
                v
            } else {
                u
            };
            proof {
                let s = users@;
                assert(s[i as int] != s[j as int]);
                assert(s.contains(u) && s.contains(v));
                if seen.contains((lo, hi)) {
                    let (p, q) = choose|p: int, q: int|
                        0 <= p < q < s.len() && (p < i || (p == i && q < j)) && #[trigger] lower_of(
                            s[p],
                            s[q],
                        ) == lo && #[trigger] higher_of(s[p], s[q]) == hi;
                    assert(s[p] != s[q]);
                    if s[p] == u {
                        assert(p == i);
                        assert(s[q] == v);
                        assert(q == j);
                    } else {
                        assert(s[p] == v);
                        assert(p == j);
                    }
                }
            }
            let x = pair_statistics(entries, lo, hi);
            offer_top(&mut r, x, Ghost(e), Ghost(seen));
            proof {
                let s = users@;
                let seen0 = seen;
                seen = seen.insert((lo, hi));
                assert forall|a: u32, b: u32|
                    #[trigger] seen.contains((a, b)) <==> pair_done(s, i as int, j + 1, a, b) by {
                    if a == lo && b == hi {
                        assert(lower_of(s[i as int], s[j as int]) == a);
                        assert(higher_of(s[i as int], s[j as int]) == b);
                    }
                    if pair_done(s, i as int, j + 1, a, b) {
                        let (p, q) = choose|p: int, q: int|
                            0 <= p < q < s.len() && (p < i || (p == i && q < j + 1))
                                && #[trigger] lower_of(s[p], s[q]) == a && #[trigger] higher_of(
                                s[p],
                                s[q],
                            ) == b;
                        if !(p == i && q == j) {
                            assert(pair_done(s, i as int, j as int, a, b));
                        }
                    }
                    if seen0.contains((a, b)) {
                        let (p, q) = choose|p: int, q: int|
                            0 <= p < q < s.len() && (p < i || (p == i && q < j))
                                && #[trigger] lower_of(s[p], s[q]) == a && #[trigger] higher_of(
                                s[p],
                                s[q],
                            ) == b;
                        assert(pair_done(s, i as int, j + 1, a, b));
                    }
                }
            }
            j = j + 1;
        }
        proof {
            let s = users@;
            assert forall|a: u32, b: u32|
                pair_done(s, i as int, j as int, a, b) <==> pair_done(s, i + 1, i + 2, a, b) by {
                if pair_done(s, i as int, j as int, a, b) {
                    let (p, q) = choose|p: int, q: int|
                        0 <= p < q < s.len() && (p < i || (p == i && q < j)) && #[trigger] lower_of(
                            s[p],
                            s[q],
                        ) == a && #[trigger] higher_of(s[p], s[q]) == b;
                    assert(pair_done(s, i + 1, i + 2, a, b));
                }
                if pair_done(s, i + 1, i + 2, a, b) {
                    let (p, q) = choose|p: int, q: int|
                        0 <= p < q < s.len() && (p < i + 1 || (p == i + 1 && q < i + 2))
                            && #[trigger] lower_of(s[p], s[q]) == a && #[trigger] higher_of(
                            s[p],
                            s[q],
                        ) == b;
                    assert(pair_done(s, i as int, j as int, a, b));
                }
            }
        }
        i = i + 1;
    }
    proof {
        let s = users@;
        assert forall|a: u32, b: u32|
            a < b && has_user(e, a) && has_user(e, b) && #[trigger] emitted(e, a, b) && !lists_pair(
                r@,
                a,
                b,
            ) implies r@.len() == TOP_PAIRS && forall|k: int|
                0 <= k < r@.len() ==> key_before(
                    key_of_stats(#[trigger] r@[k]),
                    key_of_pair(e, a, b),
                ) by {
            assert(s.contains(a) && s.contains(b));
            let p = choose|p: int| 0 <= p < s.len() && s[p] == a;
            let q = choose|q: int| 0 <= q < s.len() && s[q] == b;
            if p < q {
                assert(lower_of(s[p], s[q]) == a && higher_of(s[p], s[q]) == b);
            } else {
                assert(lower_of(s[q], s[p]) == a && higher_of(s[q], s[p]) == b);
            }
            assert(pair_done(s, i as int, i + 1, a, b));
            assert(seen.contains((a, b)));
        }
    }
    r
}

/// The global top pairs of a snapshot, once the snapshot is checked.
pub fn get_music_taste_overview(entries: &Vec<RankingRecord>) -> (r: Result<
    Vec<PairStats>,
    RankingError,
>)
    requires
        entries@.len() <= MAX_RECORDS,
    ensures
        r is Ok <==> well_formed(entries@),
        r matches Err(err) ==> error_holds(entries@, err),
        r matches Ok(list) ==> top_report(entries@, list@),
{
    match validate_rankings(entries) {
        Ok(()) => Ok(top_pairs(entries)),
        Err(err) => Err(err),
    }
}

/// The matches of user `active_user_id`, once the snapshot is checked.
pub fn get_music_taste_user(entries: &Vec<RankingRecord>, active_user_id: u32) -> (r: Result<
    Vec<PairStats>,
    RankingError,
>)
    requires
        entries@.len() <= MAX_RECORDS,
    ensures
        r is Ok <==> well_formed(entries@),
        r matches Err(err) ==> error_holds(entries@, err),
        r matches Ok(list) ==> user_report(entries@, active_user_id, list@),
{
    match validate_rankings(entries) {
        Ok(()) => Ok(matches_for_user(entries, active_user_id)),
        Err(err) => Err(err),
    }
}

} // verus!
