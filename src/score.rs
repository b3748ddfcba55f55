use vstd::prelude::*;
use crate::overlap::max_gap;
use crate::pair::{PairStats, stats_bounded};
use crate::ranking::{MAX_RECORDS, RankingRecord};
use crate::overlap::{
    artist_gap_total, overlapping_artists, overlapping_songs, shared_artist_pairings, song_gap_total,
};

verus! {

/// A count used as a denominator: the count itself, or 1 where it is zero
/// (the matching total is then zero as well).
pub open spec fn denominator_of(count: int) -> int {
    if count <= 0 {
        1
    } else {
        count
    }
}

/// Numerator of the combined score over `2 * denominator_of(ns) *
/// denominator_of(nda)`, from the overlapping songs `ns`, their rank
/// difference total `ds`, the overlapping artists `na`, the artist pairings
/// `nda` and their rank difference total `da`.
pub open spec fn numerator_of(ns: int, ds: int, na: int, nda: int, da: int) -> int {
    20 * ns * denominator_of(ns) * denominator_of(nda) - 2 * ds * denominator_of(nda) + 6 * na
        * denominator_of(ns) * denominator_of(nda) - da * denominator_of(ns)
}

/// Denominator of `song_rank_diff`.
pub open spec fn song_denominator(p: PairStats) -> int {
    denominator_of(p.overlapping_songs as int)
}

/// Denominator of `artist_rank_diff`.
pub open spec fn artist_denominator(p: PairStats) -> int {
    denominator_of(p.total_songs_shared_artists as int)
}

/// `song_relationship_strength = 10 * overlapping_songs - song_rank_diff`,
/// as a numerator over `song_denominator`.
pub open spec fn strength_numerator(p: PairStats) -> int {
    10 * p.overlapping_songs * song_denominator(p) - p.song_rank_diff_total
}

/// Denominator of the combined score.
pub open spec fn score_denominator(p: PairStats) -> int {
    2 * song_denominator(p) * artist_denominator(p)
}

/// Numerator of the combined score over `score_denominator`:
/// `song_relationship_strength + 3 * overlapping_artists - artist_rank_diff / 2`.
pub open spec fn score_numerator(p: PairStats) -> int {
    numerator_of(
        p.overlapping_songs as int,
        p.song_rank_diff_total as int,
        p.overlapping_artists as int,
        p.total_songs_shared_artists as int,
        p.artist_rank_diff_total as int,
    )
}

/// Sort key of a pair: its combined score as `(numerator, denominator)`,
/// its overlapping songs and artists, and its two user ids.
pub type RankKey = (int, int, int, int, int, int);

pub open spec fn key_of_stats(p: PairStats) -> RankKey {
    (
        score_numerator(p),
        score_denominator(p),
        p.overlapping_songs as int,
        p.overlapping_artists as int,
        p.user_1 as int,
        p.user_2 as int,
    )
}

/// Order of the reports: higher combined score first, then more overlapping
/// songs, then more overlapping artists, then the lower pair of user ids.
pub open spec fn key_before(k: RankKey, m: RankKey) -> bool {
    let l = k.0 * m.1;
    let r = m.0 * k.1;
    l > r || (l == r && (k.2 > m.2 || (k.2 == m.2 && (k.3 > m.3 || (k.3 == m.3 && (k.4 < m.4 || (
    k.4 == m.4 && k.5 < m.5)))))))
}

/// The sort key of the pair of users `a` and `b` in snapshot `e`.
pub open spec fn key_of_pair(e: Seq<RankingRecord>, a: u32, b: u32) -> RankKey {
    (
        numerator_of(
            overlapping_songs(e, a, b),
            song_gap_total(e, a, b),
            overlapping_artists(e, a, b),
            shared_artist_pairings(e, a, b),
            artist_gap_total(e, a, b),
        ),
        2 * denominator_of(overlapping_songs(e, a, b)) * denominator_of(
            shared_artist_pairings(e, a, b),
        ),
        overlapping_songs(e, a, b),
        overlapping_artists(e, a, b),
        a as int,
        b as int,
    )
}

pub open spec fn ranks_before(p: PairStats, q: PairStats) -> bool {
    key_before(key_of_stats(p), key_of_stats(q))
}

proof fn lemma_fraction_order_transitive(a: int, b: int, c: int, d: int, f: int, g: int)
    requires
        b > 0,
        d > 0,
        g > 0,
        a * d >= c * b,
        c * g >= f * d,
    ensures
        a * g >= f * b,
        (a * d > c * b || c * g > f * d) ==> a * g > f * b,
{
    assert(a * d * g >= c * b * g) by (nonlinear_arith)
        requires
            a * d >= c * b,
            g > 0,
    ;
    assert(c * g * b >= f * d * b) by (nonlinear_arith)
        requires
            c * g >= f * d,
            b > 0,
    ;
    assert(d * (a * g) >= d * (f * b)) by (nonlinear_arith)
        requires
            a * d * g >= c * b * g,
            c * g * b >= f * d * b,
    ;
    assert(a * g >= f * b) by (nonlinear_arith)
        requires
            d * (a * g) >= d * (f * b),
            d > 0,
    ;
    if a * d > c * b || c * g > f * d {
        assert(a * d * g + c * g * b > c * b * g + f * d * b) by (nonlinear_arith)
            requires
                a * d >= c * b,
                c * g >= f * d,
                a * d > c * b || c * g > f * d,
                g > 0,
                b > 0,
        ;
        assert(d * (a * g) > d * (f * b)) by (nonlinear_arith)
            requires
                a * d * g + c * g * b > c * b * g + f * d * b,
        ;
        assert(a * g > f * b) by (nonlinear_arith)
            requires
                d * (a * g) > d * (f * b),
                d > 0,
        ;
    }
}

pub proof fn lemma_pair_key_denominator(e: Seq<RankingRecord>, a: u32, b: u32)
    ensures
        key_of_pair(e, a, b).1 > 0,
{
    let s = denominator_of(overlapping_songs(e, a, b));
    let t = denominator_of(shared_artist_pairings(e, a, b));
    assert(2 * s * t > 0) by (nonlinear_arith)
        requires
            s > 0,
            t > 0,
    ;
}

/// The report order is transitive on keys with positive denominators.
pub proof fn lemma_key_before_transitive(k: RankKey, m: RankKey, o: RankKey)
    requires
        k.1 > 0,
        m.1 > 0,
        o.1 > 0,
        key_before(k, m),
        key_before(m, o),
    ensures
        key_before(k, o),
{
    lemma_fraction_order_transitive(k.0, k.1, m.0, m.1, o.0, o.1);
}

/// Bounds of every intermediate product of the score, from the bounds of
/// the statistics.
pub proof fn lemma_score_bounds(p: PairStats)
    requires
        stats_bounded(p),
    ensures
        0 < song_denominator(p) <= 0x8000,
        0 < artist_denominator(p) <= 0x4000_0000,
        0 <= p.song_rank_diff_total <= 0x8000 * max_gap(),
        0 <= p.artist_rank_diff_total <= 0x4000_0000 * max_gap(),
        0 <= 10 * p.overlapping_songs * song_denominator(p) <= 10 * 0x8000 * 0x8000,
        0 <= 20 * p.overlapping_songs * song_denominator(p) <= 20 * 0x8000 * 0x8000,
        0 <= 20 * p.overlapping_songs * song_denominator(p) * artist_denominator(p) <= 20 * 0x8000
            * 0x8000 * 0x4000_0000,
        0 <= 2 * p.song_rank_diff_total * artist_denominator(p) <= 2 * 0x8000 * max_gap()
            * 0x4000_0000,
        0 <= 6 * p.overlapping_artists * song_denominator(p) <= 6 * 0x8000 * 0x8000,
        0 <= 6 * p.overlapping_artists * song_denominator(p) * artist_denominator(p) <= 6 * 0x8000
            * 0x8000 * 0x4000_0000,
        0 <= p.artist_rank_diff_total * song_denominator(p) <= 0x4000_0000 * max_gap() * 0x8000,
        0 < 2 * song_denominator(p) <= 0x1_0000,
        0 < score_denominator(p) <= 0x4000_0000_0000,
        -0x8000_0000_0000_0000_0000 < score_numerator(p) < 0x8000_0000_0000_0000_0000,
{
    let s = song_denominator(p);
    let t = artist_denominator(p);
    let ns = p.overlapping_songs as int;
    let na = p.overlapping_artists as int;
    let ds = p.song_rank_diff_total as int;
    let da = p.artist_rank_diff_total as int;
    let nda = p.total_songs_shared_artists as int;
    assert(MAX_RECORDS == 0x8000);
    assert(ds <= 0x8000 * max_gap()) by (nonlinear_arith)
        requires
            ds <= ns * max_gap(),
            ns <= 0x8000,
            0 <= ns,
    ;
    assert(da <= 0x4000_0000 * max_gap()) by (nonlinear_arith)
        requires
            da <= nda * max_gap(),
            nda <= 0x4000_0000,
            0 <= nda,
    ;
    assert(0 < 2 * s * t <= 0x4000_0000_0000) by (nonlinear_arith)
        requires
            0 < s <= 0x8000,
            0 < t <= 0x4000_0000,
    ;
    assert(0 <= 10 * ns * s <= 10 * 0x8000 * 0x8000) by (nonlinear_arith)
        requires
            0 < s <= 0x8000,
            0 <= ns <= 0x8000,
    ;
    assert(0 <= 20 * ns * s <= 20 * 0x8000 * 0x8000) by (nonlinear_arith)
        requires
            0 < s <= 0x8000,
            0 <= ns <= 0x8000,
    ;
    assert(0 <= 20 * ns * s * t <= 20 * 0x8000 * 0x8000 * 0x4000_0000) by (nonlinear_arith)
        requires
            0 < s <= 0x8000,
            0 < t <= 0x4000_0000,
            0 <= ns <= 0x8000,
    ;
    assert(0 <= 2 * ds * t <= 2 * 0x8000 * max_gap() * 0x4000_0000) by (nonlinear_arith)
        requires
            0 < t <= 0x4000_0000,
            0 <= ds <= 0x8000 * max_gap(),
    ;
    assert(0 <= 6 * na * s <= 6 * 0x8000 * 0x8000) by (nonlinear_arith)
        requires
            0 < s <= 0x8000,
            0 <= na <= 0x8000,
    ;
    assert(0 <= 6 * na * s * t <= 6 * 0x8000 * 0x8000 * 0x4000_0000) by (nonlinear_arith)
        requires
            0 < s <= 0x8000,
            0 < t <= 0x4000_0000,
            0 <= na <= 0x8000,
    ;
    assert(0 <= da * s <= 0x4000_0000 * max_gap() * 0x8000) by (nonlinear_arith)
        requires
            0 < s <= 0x8000,
            0 <= da <= 0x4000_0000 * max_gap(),
    ;
}

/// The combined score is exactly the song relationship strength plus three
/// per shared artist, minus half the mean artist rank difference:
/// `N / D == S / s + 3 * overlapping_artists - (A / t) / 2`, with
/// `S / s` the strength, `A / t` the mean artist rank difference and
/// `N / D` the combined score, all as exact fractions: `D == 2 * s * t` and
/// `N == 2 * t * S + 6 * overlapping_artists * s * t - s * A`.
pub proof fn lemma_combined_score_decomposes(p: PairStats)
    ensures
        score_denominator(p) == 2 * song_denominator(p) * artist_denominator(p),
        score_numerator(p) == 2 * artist_denominator(p) * strength_numerator(p) + 6
            * p.overlapping_artists * song_denominator(p) * artist_denominator(p)
            - song_denominator(p) * p.artist_rank_diff_total,
{
    let s = song_denominator(p);
    let t = artist_denominator(p);
    let ns = p.overlapping_songs as int;
    let na = p.overlapping_artists as int;
    let ds = p.song_rank_diff_total as int;
    let da = p.artist_rank_diff_total as int;
    assert(20 * ns * s * t - 2 * ds * t + 6 * na * s * t - da * s == 2 * t * (10 * ns * s - ds) + 6
        * na * s * t - s * da) by (nonlinear_arith);
    assert(score_numerator(p) == 2 * artist_denominator(p) * strength_numerator(p) + 6
        * p.overlapping_artists * song_denominator(p) * artist_denominator(p) - song_denominator(p)
        * p.artist_rank_diff_total);
}

impl PairStats {
    /// The combined score as an exact fraction `(numerator, denominator)`.
    pub fn combined_score_fraction(&self) -> (r: (i128, i128))
        requires
            stats_bounded(*self),
        ensures
            r.0 == score_numerator(*self),
            r.1 == score_denominator(*self),
    {
        proof {
            lemma_score_bounds(*self);
        }
        let s: i128 = if self.overlapping_songs == 0 {
            1
        } else {
            self.overlapping_songs as i128
        };
        let t: i128 = if self.total_songs_shared_artists == 0 {
            1
        } else {
            self.total_songs_shared_artists as i128
        };
        let ns = self.overlapping_songs as i128;
        let na = self.overlapping_artists as i128;
        let ds = self.song_rank_diff_total as i128;
        let da = self.artist_rank_diff_total as i128;
        let a1 = 20 * ns * s * t;
        let a2 = 2 * ds * t;
        let a3 = 6 * na * s * t;
        let a4 = da * s;
        (a1 - a2 + a3 - a4, 2 * s * t)
    }

    /// `song_relationship_strength` as an exact fraction.
    pub fn song_relationship_strength_fraction(&self) -> (r: (i128, i128))
        requires
            stats_bounded(*self),
        ensures
            r.0 == strength_numerator(*self),
            r.1 == song_denominator(*self),
    {
        proof {
            lemma_score_bounds(*self);
        }
        let s: i128 = if self.overlapping_songs == 0 {
            1
        } else {
            self.overlapping_songs as i128
        };
        (10 * (self.overlapping_songs as i128) * s - self.song_rank_diff_total as i128, s)
    }

    /// `song_rank_diff`, the mean rank difference over the shared songs, as
    /// an exact fraction (`0 / 1` where no song is shared).
    pub fn song_rank_diff_fraction(&self) -> (r: (u64, u64))
        ensures
            r.0 == self.song_rank_diff_total,
            r.1 == song_denominator(*self),
    {
        if self.overlapping_songs == 0 {
            (self.song_rank_diff_total, 1)
        } else {
            (self.song_rank_diff_total, self.overlapping_songs)
        }
    }

    /// `artist_rank_diff`, the mean rank difference over the artist
    /// pairings, as an exact fraction (`0 / 1` where there is none).
    pub fn artist_rank_diff_fraction(&self) -> (r: (u64, u64))
        ensures
            r.0 == self.artist_rank_diff_total,
            r.1 == artist_denominator(*self),
    {
        if self.total_songs_shared_artists == 0 {
            (self.artist_rank_diff_total, 1)
        } else {
            (self.artist_rank_diff_total, self.total_songs_shared_artists)
        }
    }

    /// Whether `self` comes before `other` in a report.
    pub fn ranks_before(&self, other: &PairStats) -> (r: bool)
        requires
            stats_bounded(*self),
            stats_bounded(*other),
        ensures
            r == ranks_before(*self, *other),
    {
        let (pn, pd) = self.combined_score_fraction();
        let (qn, qd) = other.combined_score_fraction();
        proof {
            lemma_score_bounds(*self);
            lemma_score_bounds(*other);
            assert(-0x8000_0000_0000_0000_0000 * 0x4000_0000_0000 <= pn * qd
                <= 0x8000_0000_0000_0000_0000 * 0x4000_0000_0000) by (nonlinear_arith)
                requires
                    -0x8000_0000_0000_0000_0000 < pn < 0x8000_0000_0000_0000_0000,
                    0 < qd <= 0x4000_0000_0000,
            ;
            assert(-0x8000_0000_0000_0000_0000 * 0x4000_0000_0000 <= qn * pd
                <= 0x8000_0000_0000_0000_0000 * 0x4000_0000_0000) by (nonlinear_arith)
                requires
                    -0x8000_0000_0000_0000_0000 < qn < 0x8000_0000_0000_0000_0000,
                    0 < pd <= 0x4000_0000_0000,
            ;
        }
        let l = pn * qd;
        let r = qn * pd;
        l > r || (l == r && (self.overlapping_songs > other.overlapping_songs || (
        self.overlapping_songs == other.overlapping_songs && (self.overlapping_artists
            > other.overlapping_artists || (self.overlapping_artists == other.overlapping_artists
            && (self.user_1 < other.user_1 || (self.user_1 == other.user_1 && self.user_2
            < other.user_2)))))))
    }
}

} // verus!
