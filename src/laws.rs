use vstd::prelude::*;
use crate::ranking::RankingRecord;
use crate::pair::{PairStats, describes};
use crate::report::{lists_pair, same_users, top_report, user_report};
use crate::score::{key_before, key_of_pair, key_of_stats, ranks_before};
use crate::pair::emitted;
use crate::overlap::{
    ArtistDetail, SongDetail, artist_detail_le, song_detail_le, artist_gap, artist_gap_total,
    artist_hit, grid_sum, overlapping_artists, overlapping_songs,
    row_sum, shared_artist_pairings, shared_artists, song_gap, song_gap_total, song_hit,
};

verus! {

/// `sum_{i < n} w(e[i], y)`.
pub open spec fn col_sum(
    e: Seq<RankingRecord>,
    w: spec_fn(RankingRecord, RankingRecord) -> int,
    y: RankingRecord,
    n: nat,
) -> int
    decreases n,
{
    if n == 0 {
        0
    } else {
        col_sum(e, w, y, (n - 1) as nat) + w(e[n - 1], y)
    }
}

proof fn lemma_grid_empty_columns(
    e: Seq<RankingRecord>,
    w: spec_fn(RankingRecord, RankingRecord) -> int,
    n: nat,
)
    ensures
        grid_sum(e, w, n, 0) == 0,
    decreases n,
{
    if n > 0 {
        lemma_grid_empty_columns(e, w, (n - 1) as nat);
    }
}

proof fn lemma_grid_add_column(
    e: Seq<RankingRecord>,
    w: spec_fn(RankingRecord, RankingRecord) -> int,
    n: nat,
    m: nat,
)
    requires
        m < e.len(),
    ensures
        grid_sum(e, w, n, m + 1) == grid_sum(e, w, n, m) + col_sum(e, w, e[m as int], n),
    decreases n,
{
    if n > 0 {
        lemma_grid_add_column(e, w, (n - 1) as nat, m);
    }
}

proof fn lemma_column_is_flipped_row(
    e: Seq<RankingRecord>,
    w: spec_fn(RankingRecord, RankingRecord) -> int,
    v: spec_fn(RankingRecord, RankingRecord) -> int,
    y: RankingRecord,
    n: nat,
)
    requires
        forall|p: RankingRecord, q: RankingRecord| #[trigger] v(p, q) == w(q, p),
    ensures
        col_sum(e, w, y, n) == row_sum(e, v, y, n),
    decreases n,
{
    if n > 0 {
        lemma_column_is_flipped_row(e, w, v, y, (n - 1) as nat);
        assert(v(y, e[n - 1]) == w(e[n - 1], y));
    }
}

/// Summing a weight over all pairs row by row equals summing the flipped
/// weight column by column.
pub proof fn lemma_grid_swap(
    e: Seq<RankingRecord>,
    w: spec_fn(RankingRecord, RankingRecord) -> int,
    v: spec_fn(RankingRecord, RankingRecord) -> int,
    n: nat,
    m: nat,
)
    requires
        n <= e.len(),
        m <= e.len(),
        forall|p: RankingRecord, q: RankingRecord| #[trigger] v(p, q) == w(q, p),
    ensures
        grid_sum(e, w, n, m) == grid_sum(e, v, m, n),
    decreases m,
{
    if m == 0 {
        lemma_grid_empty_columns(e, w, n);
    } else {
        let k = (m - 1) as nat;
        lemma_grid_swap(e, w, v, n, k);
        lemma_grid_add_column(e, w, n, k);
        lemma_column_is_flipped_row(e, w, v, e[k as int], n);
    }
}

/// Pair statistics do not depend on which user is named first: the shared
/// songs, the shared artists, the artist pairings and both rank-difference
/// totals (hence both averages) are the same for `(a, b)` and `(b, a)`.
pub proof fn lemma_pair_statistics_symmetric(e: Seq<RankingRecord>, a: u32, b: u32)
    ensures
        overlapping_songs(e, a, b) == overlapping_songs(e, b, a),
        song_gap_total(e, a, b) == song_gap_total(e, b, a),
        overlapping_artists(e, a, b) == overlapping_artists(e, b, a),
        shared_artist_pairings(e, a, b) == shared_artist_pairings(e, b, a),
        artist_gap_total(e, a, b) == artist_gap_total(e, b, a),
{
    let n = e.len();
    lemma_grid_swap(e, song_hit(a, b), song_hit(b, a), n, n);
    lemma_grid_swap(e, song_gap(a, b), song_gap(b, a), n, n);
    lemma_grid_swap(e, artist_hit(a, b), artist_hit(b, a), n, n);
    lemma_grid_swap(e, artist_gap(a, b), artist_gap(b, a), n, n);
    assert(shared_artists(e, a, b) =~= shared_artists(e, b, a));
}

proof fn lemma_top_prefix_agrees(
    e: Seq<RankingRecord>,
    r1: Seq<PairStats>,
    r2: Seq<PairStats>,
    k: int,
)
    requires
        top_report(e, r1),
        top_report(e, r2),
        0 <= k <= r1.len(),
        k <= r2.len(),
    ensures
        forall|j: int| 0 <= j < k ==> same_users(#[trigger] r1[j], r2[j]),
    decreases k,
{
    if k > 0 {
        let m = k - 1;
        lemma_top_prefix_agrees(e, r1, r2, m);
        let x = r1[m];
        let y = r2[m];
        if !same_users(x, y) {
            assert(key_before(key_of_stats(x), key_of_stats(y)) || key_before(
                key_of_stats(y),
                key_of_stats(x),
            ));
            lemma_listed_in_other(e, r1, r2, m);
            lemma_listed_in_other(e, r2, r1, m);
        }
    }
}

/// Where two valid reports agree before index `m`, `r1[m]` cannot rank
/// before `r2[m]`.
proof fn lemma_listed_in_other(e: Seq<RankingRecord>, r1: Seq<PairStats>, r2: Seq<PairStats>, m: int)
    requires
        top_report(e, r1),
        top_report(e, r2),
        0 <= m < r1.len(),
        m < r2.len(),
        forall|j: int| 0 <= j < m ==> same_users(#[trigger] r1[j], r2[j]),
    ensures
        !key_before(key_of_stats(r1[m]), key_of_stats(r2[m])),
{
    let x = r1[m];
    if key_before(key_of_stats(r1[m]), key_of_stats(r2[m])) {
        assert(emitted(e, x.user_1, x.user_2));
        assert(key_of_pair(e, x.user_1, x.user_2) == key_of_stats(x));
        if lists_pair(r2, x.user_1, x.user_2) {
            let j = choose|j: int|
                0 <= j < r2.len() && (#[trigger] r2[j]).user_1 == x.user_1 && r2[j].user_2
                    == x.user_2;
            if j < m {
                assert(same_users(r1[j], r2[j]));
                assert(ranks_before(r1[j], r1[m]));
            } else {
                assert(j != m);
                assert(ranks_before(r2[m], r2[j]));
            }
        } else {
            assert(key_before(key_of_stats(r2[m]), key_of_pair(e, x.user_1, x.user_2)));
        }
    }
}

proof fn lemma_top_no_longer(e: Seq<RankingRecord>, r1: Seq<PairStats>, r2: Seq<PairStats>)
    requires
        top_report(e, r1),
        top_report(e, r2),
        r1.len() <= r2.len(),
        forall|j: int| 0 <= j < r1.len() ==> same_users(#[trigger] r1[j], r2[j]),
    ensures
        r1.len() == r2.len(),
{
    if r1.len() < r2.len() {
        let m = r1.len() as int;
        let y = r2[m];
        assert(emitted(e, y.user_1, y.user_2));
        if lists_pair(r1, y.user_1, y.user_2) {
            let j = choose|j: int|
                0 <= j < r1.len() && (#[trigger] r1[j]).user_1 == y.user_1 && r1[j].user_2
                    == y.user_2;
            assert(same_users(r1[j], r2[j]));
            assert(ranks_before(r2[j], r2[m]));
        }
    }
}

/// Running the global report twice on one snapshot gives the same list: any
/// two lists that meet the report's contract name the same pairs in the same
/// order, with the same numbers and the same detail listings.
pub proof fn lemma_top_report_deterministic(
    e: Seq<RankingRecord>,
    r1: Seq<PairStats>,
    r2: Seq<PairStats>,
)
    requires
        top_report(e, r1),
        top_report(e, r2),
    ensures
        r1.len() == r2.len(),
        forall|k: int| 0 <= k < r1.len() ==> same_pair_stats(#[trigger] r1[k], r2[k]),
{
    if r1.len() <= r2.len() {
        lemma_top_prefix_agrees(e, r1, r2, r1.len() as int);
        lemma_top_no_longer(e, r1, r2);
    } else {
        lemma_top_prefix_agrees(e, r2, r1, r2.len() as int);
        lemma_top_no_longer(e, r2, r1);
    }
    assert forall|k: int| 0 <= k < r1.len() implies same_pair_stats(#[trigger] r1[k], r2[k]) by {
        lemma_same_description(e, r1[k], r2[k]);
    }
}

/// Two statistics of one pair with the same numbers and the same detail
/// listings, element for element.
pub open spec fn same_pair_stats(p: PairStats, q: PairStats) -> bool {
    &&& same_users(p, q)
    &&& p.overlapping_songs == q.overlapping_songs
    &&& p.song_rank_diff_total == q.song_rank_diff_total
    &&& p.overlapping_artists == q.overlapping_artists
    &&& p.total_songs_shared_artists == q.total_songs_shared_artists
    &&& p.artist_rank_diff_total == q.artist_rank_diff_total
    &&& p.overlapping_song_details@ == q.overlapping_song_details@
    &&& p.overlapping_artist_details@ == q.overlapping_artist_details@
}

/// Two sequences sorted by one antisymmetric order and holding the same
/// elements are equal.
pub proof fn lemma_sorted_same_elements_equal<A>(s1: Seq<A>, s2: Seq<A>, le: spec_fn(A, A) -> bool)
    requires
        forall|x: A, y: A| #[trigger] le(x, y) && le(y, x) ==> x == y,
        forall|i: int, j: int| 0 <= i < j < s1.len() ==> le(#[trigger] s1[i], #[trigger] s1[j]),
        forall|i: int, j: int| 0 <= i < j < s2.len() ==> le(#[trigger] s2[i], #[trigger] s2[j]),
        s1.to_multiset() == s2.to_multiset(),
    ensures
        s1 == s2,
    decreases s1.len(),
{
    vstd::seq_lib::to_multiset_len(s1);
    vstd::seq_lib::to_multiset_len(s2);
    if s1.len() == 0 {
        assert(s2.len() == 0);
        assert(s1 =~= s2);
    } else {
        assert(s2.len() == s1.len());
        let a = s1[0];
        let b = s2[0];
        assert(s1.contains(a));
        vstd::seq_lib::to_multiset_contains(s1, a);
        vstd::seq_lib::to_multiset_contains(s2, a);
        assert(s2.contains(a));
        let j = choose|j: int| 0 <= j < s2.len() && s2[j] == a;
        assert(s2.contains(b));
        vstd::seq_lib::to_multiset_contains(s1, b);
        vstd::seq_lib::to_multiset_contains(s2, b);
        assert(s1.contains(b));
        let i = choose|i: int| 0 <= i < s1.len() && s1[i] == b;
        if a != b {
            assert(le(s2[0], s2[j]));
            assert(le(s1[0], s1[i]));
        }
        assert(a == b);
        vstd::seq_lib::to_multiset_remove(s1, 0);
        vstd::seq_lib::to_multiset_remove(s2, 0);
        let t1 = s1.remove(0);
        let t2 = s2.remove(0);
        assert forall|i: int, j: int| 0 <= i < j < t1.len() implies le(#[trigger] t1[i], #[trigger] t1[j]) by {
            assert(t1[i] == s1[i + 1] && t1[j] == s1[j + 1]);
        }
        assert forall|i: int, j: int| 0 <= i < j < t2.len() implies le(#[trigger] t2[i], #[trigger] t2[j]) by {
            assert(t2[i] == s2[i + 1] && t2[j] == s2[j + 1]);
        }
        lemma_sorted_same_elements_equal(t1, t2, le);
        assert forall|k: int| 0 <= k < s1.len() implies s1[k] == s2[k] by {
            if k > 0 {
                assert(s1[k] == t1[k - 1]);
                assert(s2[k] == t2[k - 1]);
            }
        }
        assert(s1 =~= s2);
    }
}

proof fn lemma_same_description(e: Seq<RankingRecord>, p: PairStats, q: PairStats)
    requires
        describes(p, e, p.user_1, p.user_2),
        describes(q, e, p.user_1, p.user_2),
    ensures
        same_pair_stats(p, q),
{
    let le_song = |x: SongDetail, y: SongDetail| song_detail_le(x, y);
    let le_artist = |x: ArtistDetail, y: ArtistDetail| artist_detail_le(x, y);
    lemma_sorted_same_elements_equal(
        p.overlapping_song_details@,
        q.overlapping_song_details@,
        le_song,
    );
    lemma_sorted_same_elements_equal(
        p.overlapping_artist_details@,
        q.overlapping_artist_details@,
        le_artist,
    );
}

proof fn lemma_user_entry_agrees(
    e: Seq<RankingRecord>,
    active: u32,
    r1: Seq<PairStats>,
    r2: Seq<PairStats>,
    m: int,
)
    requires
        user_report(e, active, r1),
        user_report(e, active, r2),
        0 <= m < r1.len(),
        m < r2.len(),
        forall|j: int| 0 <= j < m ==> same_users(#[trigger] r1[j], r2[j]),
    ensures
        !key_before(key_of_stats(r1[m]), key_of_stats(r2[m])),
{
    let x = r1[m];
    if key_before(key_of_stats(r1[m]), key_of_stats(r2[m])) {
        assert(emitted(e, active, x.user_2));
        let j = choose|j: int| 0 <= j < r2.len() && (#[trigger] r2[j]).user_2 == x.user_2;
        if j < m {
            assert(same_users(r1[j], r2[j]));
            assert(ranks_before(r1[j], r1[m]));
        } else if j > m {
            assert(ranks_before(r2[m], r2[j]));
        }
    }
}

proof fn lemma_user_prefix_agrees(
    e: Seq<RankingRecord>,
    active: u32,
    r1: Seq<PairStats>,
    r2: Seq<PairStats>,
    k: int,
)
    requires
        user_report(e, active, r1),
        user_report(e, active, r2),
        0 <= k <= r1.len(),
        k <= r2.len(),
    ensures
        forall|j: int| 0 <= j < k ==> same_users(#[trigger] r1[j], r2[j]),
    decreases k,
{
    if k > 0 {
        let m = k - 1;
        lemma_user_prefix_agrees(e, active, r1, r2, m);
        lemma_user_entry_agrees(e, active, r1, r2, m);
        lemma_user_entry_agrees(e, active, r2, r1, m);
    }
}

proof fn lemma_user_no_longer(
    e: Seq<RankingRecord>,
    active: u32,
    r1: Seq<PairStats>,
    r2: Seq<PairStats>,
)
    requires
        user_report(e, active, r1),
        user_report(e, active, r2),
        r1.len() <= r2.len(),
        forall|j: int| 0 <= j < r1.len() ==> same_users(#[trigger] r1[j], r2[j]),
    ensures
        r1.len() == r2.len(),
{
    if r1.len() < r2.len() {
        let m = r1.len() as int;
        let y = r2[m];
        assert(emitted(e, active, y.user_2));
        let j = choose|j: int| 0 <= j < r1.len() && (#[trigger] r1[j]).user_2 == y.user_2;
        assert(same_users(r1[j], r2[j]));
        assert(ranks_before(r2[j], r2[m]));
    }
}

/// Running the per-user view twice on one snapshot gives the same list: any
/// two lists that meet its contract name the same users in the same order,
/// with the same numbers and the same detail listings.
pub proof fn lemma_user_report_deterministic(
    e: Seq<RankingRecord>,
    active: u32,
    r1: Seq<PairStats>,
    r2: Seq<PairStats>,
)
    requires
        user_report(e, active, r1),
        user_report(e, active, r2),
    ensures
        r1.len() == r2.len(),
        forall|k: int| 0 <= k < r1.len() ==> same_pair_stats(#[trigger] r1[k], r2[k]),
{
    if r1.len() <= r2.len() {
        lemma_user_prefix_agrees(e, active, r1, r2, r1.len() as int);
        lemma_user_no_longer(e, active, r1, r2);
    } else {
        lemma_user_prefix_agrees(e, active, r2, r1, r2.len() as int);
        lemma_user_no_longer(e, active, r2, r1);
    }
    assert forall|k: int| 0 <= k < r1.len() implies same_pair_stats(#[trigger] r1[k], r2[k]) by {
        lemma_same_description(e, r1[k], r2[k]);
    }
}

} // verus!
