use vstd::prelude::*;
use vstd::multiset::Multiset;
use crate::ranking::{RankingRecord, rank_gap, has_artist, well_formed, MAX_RECORDS};
use crate::overlap::{
    ArtistDetail, SongDetail, artist_detail_grid, artist_detail_row, artist_details,
    artist_details_sorted, artist_gap, artist_gap_total, artist_hit, grid_sum, insert_artist_detail,
    insert_song_detail, max_gap, overlapping_artists, overlapping_songs, row_sum,
    shared_artist_pairings, shared_artists, shared_artists_upto, song_detail_grid,
    song_detail_row, song_details, song_details_sorted, song_gap, song_gap_total, song_hit,
};

verus! {

/// Statistics of two distinct users' overlap. Averages are kept as exact
/// totals: `song_rank_diff = song_rank_diff_total / overlapping_songs` and
/// `artist_rank_diff = artist_rank_diff_total / total_songs_shared_artists`
/// (zero where the count is zero).
#[derive(Clone, Debug)]
pub struct PairStats {
    pub user_1: u32,
    pub user_2: u32,
    pub overlapping_songs: u64,
    pub song_rank_diff_total: u64,
    pub overlapping_artists: u64,
    pub total_songs_shared_artists: u64,
    pub artist_rank_diff_total: u64,
    pub overlapping_song_details: Vec<SongDetail>,
    pub overlapping_artist_details: Vec<ArtistDetail>,
}

/// Limits that every computed statistic stays within.
pub open spec fn stats_bounded(p: PairStats) -> bool {
    &&& p.overlapping_songs <= MAX_RECORDS
    &&& p.overlapping_artists <= MAX_RECORDS
    &&& p.total_songs_shared_artists <= MAX_RECORDS * MAX_RECORDS
    &&& p.song_rank_diff_total <= p.overlapping_songs * max_gap()
    &&& p.artist_rank_diff_total <= p.total_songs_shared_artists * max_gap()
}

/// The numbers of `p` are those of users `a` and `b` in snapshot `e`.
pub open spec fn numbers_match(p: PairStats, e: Seq<RankingRecord>, a: u32, b: u32) -> bool {
    &&& p.user_1 == a
    &&& p.user_2 == b
    &&& p.overlapping_songs == overlapping_songs(e, a, b)
    &&& p.song_rank_diff_total == song_gap_total(e, a, b)
    &&& p.overlapping_artists == overlapping_artists(e, a, b)
    &&& p.total_songs_shared_artists == shared_artist_pairings(e, a, b)
    &&& p.artist_rank_diff_total == artist_gap_total(e, a, b)
}

/// `p` is the full statistic of users `a` and `b` in snapshot `e`: its
/// numbers, and its detail listings, which hold exactly the overlapping songs
/// and the artist pairings, closest agreement first.
pub open spec fn describes(p: PairStats, e: Seq<RankingRecord>, a: u32, b: u32) -> bool {
    &&& numbers_match(p, e, a, b)
    &&& stats_bounded(p)
    &&& p.overlapping_song_details@.to_multiset() == song_details(e, a, b).to_multiset()
    &&& p.overlapping_artist_details@.to_multiset() == artist_details(e, a, b).to_multiset()
    &&& song_details_sorted(p.overlapping_song_details@)
    &&& artist_details_sorted(p.overlapping_artist_details@)
    &&& p.overlapping_song_details@.len() == p.overlapping_songs
    &&& p.overlapping_artist_details@.len() == p.total_songs_shared_artists
}

/// A pair is reported only where the users share a song or an artist.
pub open spec fn emitted(e: Seq<RankingRecord>, a: u32, b: u32) -> bool {
    overlapping_songs(e, a, b) > 0 || overlapping_artists(e, a, b) > 0
}

fn gap(x: RankingRecord, y: RankingRecord) -> (r: u32)
    ensures
        r == rank_gap(x, y),
{
    if x.rank >= y.rank {
        x.rank - y.rank
    } else {
        y.rank - x.rank
    }
}

/// Whether user `u` ranked some song by artist `art` among the first `n`
/// records.
fn ranked_artist_before(entries: &Vec<RankingRecord>, u: u32, art: u32, n: usize) -> (r: bool)
    requires
        n <= entries@.len(),
    ensures
        r == exists|k: int|
            0 <= k < n && (#[trigger] entries@[k]).user_id == u && entries@[k].artist_id == art,
{
    let mut k: usize = 0;
    while k < n
        invariant
            n <= entries@.len(),
            k <= n,
            forall|q: int|
                0 <= q < k ==> !((#[trigger] entries@[q]).user_id == u && entries@[q].artist_id
                    == art),
        decreases n - k,
    {
        if entries[k].user_id == u && entries[k].artist_id == art {
            return true;
        }
        k = k + 1;
    }
    false
}

/// In a well-formed snapshot a record of `a` shares its song with at most
/// one record of `b`, since `b` ranks each song at most once.
proof fn lemma_song_row_at_most_one(
    e: Seq<RankingRecord>,
    a: u32,
    b: u32,
    x: RankingRecord,
    m: nat,
)
    requires
        well_formed(e),
        m <= e.len(),
    ensures
        0 <= row_sum(e, song_hit(a, b), x, m) <= 1,
        row_sum(e, song_hit(a, b), x, m) == 1 ==> exists|j: int|
            0 <= j < m && (#[trigger] e[j]).user_id == b && e[j].song_id == x.song_id,
    decreases m,
{
    if m > 0 {
        let k = (m - 1) as nat;
        lemma_song_row_at_most_one(e, a, b, x, k);
        let y = e[k as int];
        if x.user_id == a && y.user_id == b && x.song_id == y.song_id && row_sum(
            e,
            song_hit(a, b),
            x,
            k,
        ) == 1 {
            let j = choose|j: int|
                0 <= j < k && (#[trigger] e[j]).user_id == b && e[j].song_id == x.song_id;
            assert(e[j].rank != e[k as int].rank);
        }
        if x.user_id == a && y.user_id == b && x.song_id == y.song_id {
            assert(e[k as int].user_id == b);
        }
    }
}

/// Overlap statistics of users `a` and `b`, with `a` as the first user.
pub fn pair_statistics(entries: &Vec<RankingRecord>, a: u32, b: u32) -> (r: PairStats)
    requires
        well_formed(entries@),
        entries@.len() <= MAX_RECORDS,
    ensures
        describes(r, entries@, a, b),
{
    broadcast use vstd::seq_lib::group_to_multiset_ensures;

    let ghost e = entries@;
    let n = entries.len();
    let mut ns: u64 = 0;
    let mut ds: u64 = 0;
    let mut na: u64 = 0;
    let mut nda: u64 = 0;
    let mut da: u64 = 0;
    let mut sd: Vec<SongDetail> = Vec::new();
    let mut ad: Vec<ArtistDetail> = Vec::new();
    let ghost mut steps: int = 0;
    let mut i: usize = 0;
    proof {
        assert(shared_artists_upto(e, a, b, 0) =~= Set::empty());
        assert(n * n <= MAX_RECORDS * MAX_RECORDS) by (nonlinear_arith)
            requires
                n <= MAX_RECORDS,
        ;
    }
    while i < n
        invariant
            e == entries@,
            n == e.len(),
            n <= MAX_RECORDS,
            i <= n,
            steps == i * n,
            0 <= steps <= n * n,
            n * n <= MAX_RECORDS * MAX_RECORDS,
            well_formed(e),
            ns == grid_sum(e, song_hit(a, b), i as nat, n as nat),
            ds == grid_sum(e, song_gap(a, b), i as nat, n as nat),
            nda == grid_sum(e, artist_hit(a, b), i as nat, n as nat),
            da == grid_sum(e, artist_gap(a, b), i as nat, n as nat),
            ns <= i,
            nda <= steps,
            ds <= ns * max_gap(),
            da <= nda * max_gap(),
            sd@.len() == ns,
            ad@.len() == nda,
            sd@.to_multiset() == song_detail_grid(e, a, b, i as nat).to_multiset(),
            ad@.to_multiset() == artist_detail_grid(e, a, b, i as nat).to_multiset(),
            song_details_sorted(sd@),
            artist_details_sorted(ad@),
            shared_artists_upto(e, a, b, i as int).finite(),
            na == shared_artists_upto(e, a, b, i as int).len(),
            na <= i,
        decreases n - i,
    {
        let x = entries[i];
        let mut b_has = false;
        let mut j: usize = 0;
        let ghost ns0 = ns;
        let ghost ds0 = ds;
        let ghost nda0 = nda;
        let ghost da0 = da;
        let ghost sd0 = sd@.to_multiset();
        let ghost ad0 = ad@.to_multiset();
        proof {
            assert((i + 1) * n == i * n + n) by (nonlinear_arith);
            assert((i + 1) * n <= n * n) by (nonlinear_arith)
                requires
                    i < n,
            ;
            assert(song_detail_row(e, a, b, x, 0) == Seq::<SongDetail>::empty());
            assert(artist_detail_row(e, a, b, x, 0) == Seq::<ArtistDetail>::empty());
            vstd::multiset::lemma_multiset_empty_len(
                song_detail_row(e, a, b, x, 0).to_multiset(),
            );
            vstd::multiset::lemma_multiset_empty_len(
                artist_detail_row(e, a, b, x, 0).to_multiset(),
            );
            vstd::seq_lib::to_multiset_len(song_detail_row(e, a, b, x, 0));
            vstd::seq_lib::to_multiset_len(artist_detail_row(e, a, b, x, 0));
            assert(song_detail_row(e, a, b, x, 0).to_multiset() =~= Multiset::empty());
            assert(artist_detail_row(e, a, b, x, 0).to_multiset() =~= Multiset::empty());
            assert(sd0.add(Multiset::empty()) =~= sd0);
            assert(ad0.add(Multiset::empty()) =~= ad0);
        }
        while j < n
            invariant
                e == entries@,
                n == e.len(),
                n <= MAX_RECORDS,
                i < n,
                j <= n,
                x == e[i as int],
                steps + n <= n * n,
                n * n <= MAX_RECORDS * MAX_RECORDS,
                well_formed(e),
                ns0 <= i,
                ns == ns0 + row_sum(e, song_hit(a, b), x, j as nat),
                ds == ds0 + row_sum(e, song_gap(a, b), x, j as nat),
                nda == nda0 + row_sum(e, artist_hit(a, b), x, j as nat),
                da == da0 + row_sum(e, artist_gap(a, b), x, j as nat),
                ns <= ns0 + 1,
                nda <= steps + j,
                ds <= ns * max_gap(),
                da <= nda * max_gap(),
                sd@.len() == ns,
                ad@.len() == nda,
                sd@.to_multiset() == sd0.add(song_detail_row(e, a, b, x, j as nat).to_multiset()),
                ad@.to_multiset() == ad0.add(
                    artist_detail_row(e, a, b, x, j as nat).to_multiset(),
                ),
                song_details_sorted(sd@),
                artist_details_sorted(ad@),
                b_has == exists|q: int|
                    0 <= q < j && (#[trigger] e[q]).user_id == b && e[q].artist_id == x.artist_id,
            decreases n - j,
        {
            let y = entries[j];
            let g = gap(x, y);
            proof {
                lemma_song_row_at_most_one(e, a, b, x, (j + 1) as nat);
            }
            let ghost srow = song_detail_row(e, a, b, x, j as nat);
            let ghost arow = artist_detail_row(e, a, b, x, j as nat);
            if x.user_id == a && y.user_id == b && x.song_id == y.song_id {
                proof {
                    assert((ns + 1) * max_gap() == ns * max_gap() + max_gap());
                }
                ns = ns + 1;
                ds = ds + g as u64;
                let d = SongDetail {
                    song_id: x.song_id,
                    artist_id: x.artist_id,
                    user1_rank: x.rank,
                    user2_rank: y.rank,
                    rank_difference: g,
                };
                insert_song_detail(&mut sd, d);
                proof {
                    vstd::seq_lib::to_multiset_build(srow, d);
                    assert(sd@.to_multiset() =~= sd0.add(
                        song_detail_row(e, a, b, x, (j + 1) as nat).to_multiset(),
                    ));
                }
            } else {
                assert(song_detail_row(e, a, b, x, (j + 1) as nat) == srow);
            }
            if x.user_id == a && y.user_id == b && x.artist_id == y.artist_id {
                proof {
                    assert((nda + 1) * max_gap() == nda * max_gap() + max_gap());
                }
                nda = nda + 1;
                da = da + g as u64;
                let d = ArtistDetail {
                    artist_id: x.artist_id,
                    user1_song: x.song_id,
                    user1_rank: x.rank,
                    user2_song: y.song_id,
                    user2_rank: y.rank,
                    rank_difference: g,
                };
                insert_artist_detail(&mut ad, d);
                proof {
                    vstd::seq_lib::to_multiset_build(arow, d);
                    assert(ad@.to_multiset() =~= ad0.add(
                        artist_detail_row(e, a, b, x, (j + 1) as nat).to_multiset(),
                    ));
                }
            } else {
                assert(artist_detail_row(e, a, b, x, (j + 1) as nat) == arow);
            }
            if y.user_id == b && y.artist_id == x.artist_id {
                b_has = true;
            }
            j = j + 1;
        }
        let seen = ranked_artist_before(entries, a, x.artist_id, i);
        proof {
            let s0 = shared_artists_upto(e, a, b, i as int);
            let s1 = shared_artists_upto(e, a, b, i + 1);
            assert(b_has == has_artist(e, b, x.artist_id));
            if x.user_id == a && b_has {
                assert(s1 =~= s0.insert(x.artist_id));
                assert(s0.contains(x.artist_id) == seen);
            } else {
                assert(s1 =~= s0);
            }
            vstd::seq_lib::lemma_multiset_commutative(
                song_detail_grid(e, a, b, i as nat),
                song_detail_row(e, a, b, x, n as nat),
            );
            vstd::seq_lib::lemma_multiset_commutative(
                artist_detail_grid(e, a, b, i as nat),
                artist_detail_row(e, a, b, x, n as nat),
            );
            steps = steps + n;
        }
        if x.user_id == a && b_has && !seen {
            na = na + 1;
        }
        i = i + 1;
    }
    proof {
        assert(shared_artists_upto(e, a, b, n as int) =~= shared_artists(e, a, b));
    }
    PairStats {
        user_1: a,
        user_2: b,
        overlapping_songs: ns,
        song_rank_diff_total: ds,
        overlapping_artists: na,
        total_songs_shared_artists: nda,
        artist_rank_diff_total: da,
        overlapping_song_details: sd,
        overlapping_artist_details: ad,
    }
}

} // verus!
