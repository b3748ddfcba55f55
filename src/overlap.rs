use vstd::prelude::*;
use crate::ranking::{RankingRecord, rank_gap, has_artist};

verus! {

/// Largest rank difference a pair of records can have.
pub open spec fn max_gap() -> int {
    0xffff_ffff
}

/// `sum_{j < m} w(x, e[j])`.
pub open spec fn row_sum(
    e: Seq<RankingRecord>,
    w: spec_fn(RankingRecord, RankingRecord) -> int,
    x: RankingRecord,
    m: nat,
) -> int
    decreases m,
{
    if m == 0 {
        0
    } else {
        row_sum(e, w, x, (m - 1) as nat) + w(x, e[m - 1])
    }
}

/// `sum_{i < n} sum_{j < m} w(e[i], e[j])`: a fold over every ordered pair
/// of records.
pub open spec fn grid_sum(
    e: Seq<RankingRecord>,
    w: spec_fn(RankingRecord, RankingRecord) -> int,
    n: nat,
    m: nat,
) -> int
    decreases n,
{
    if n == 0 {
        0
    } else {
        grid_sum(e, w, (n - 1) as nat, m) + row_sum(e, w, e[n - 1], m)
    }
}

/// One for each pairing of a song of `a` with the same song of `b`.
pub open spec fn song_hit(a: u32, b: u32) -> spec_fn(RankingRecord, RankingRecord) -> int {
    |x: RankingRecord, y: RankingRecord|
        if x.user_id == a && y.user_id == b && x.song_id == y.song_id {
            1int
        } else {
            0int
        }
}

/// The rank difference of each pairing counted by `song_hit`.
pub open spec fn song_gap(a: u32, b: u32) -> spec_fn(RankingRecord, RankingRecord) -> int {
    |x: RankingRecord, y: RankingRecord|
        if x.user_id == a && y.user_id == b && x.song_id == y.song_id {
            rank_gap(x, y)
        } else {
            0int
        }
}

/// One for each pairing of a song of `a` with a song of `b` by the same artist.
pub open spec fn artist_hit(a: u32, b: u32) -> spec_fn(RankingRecord, RankingRecord) -> int {
    |x: RankingRecord, y: RankingRecord|
        if x.user_id == a && y.user_id == b && x.artist_id == y.artist_id {
            1int
        } else {
            0int
        }
}

/// The rank difference of each pairing counted by `artist_hit`.
pub open spec fn artist_gap(a: u32, b: u32) -> spec_fn(RankingRecord, RankingRecord) -> int {
    |x: RankingRecord, y: RankingRecord|
        if x.user_id == a && y.user_id == b && x.artist_id == y.artist_id {
            rank_gap(x, y)
        } else {
            0int
        }
}

/// Number of songs that both `a` and `b` ranked.
pub open spec fn overlapping_songs(e: Seq<RankingRecord>, a: u32, b: u32) -> int {
    grid_sum(e, song_hit(a, b), e.len(), e.len())
}

/// Sum of `|rank_a - rank_b|` over the songs both ranked.
pub open spec fn song_gap_total(e: Seq<RankingRecord>, a: u32, b: u32) -> int {
    grid_sum(e, song_gap(a, b), e.len(), e.len())
}

/// Number of (song of `a`, song of `b`) pairings that share an artist.
pub open spec fn shared_artist_pairings(e: Seq<RankingRecord>, a: u32, b: u32) -> int {
    grid_sum(e, artist_hit(a, b), e.len(), e.len())
}

/// Sum of `|rank_a - rank_b|` over the pairings that share an artist.
pub open spec fn artist_gap_total(e: Seq<RankingRecord>, a: u32, b: u32) -> int {
    grid_sum(e, artist_gap(a, b), e.len(), e.len())
}

/// The artists that both `a` and `b` ranked at least one song by.
pub open spec fn shared_artists(e: Seq<RankingRecord>, a: u32, b: u32) -> Set<u32> {
    Set::new(|art: u32| has_artist(e, a, art) && has_artist(e, b, art))
}

/// Shared artists met among the first `n` records.
pub open spec fn shared_artists_upto(e: Seq<RankingRecord>, a: u32, b: u32, n: int) -> Set<u32> {
    Set::new(
        |art: u32|
            exists|k: int|
                0 <= k < n && (#[trigger] e[k]).user_id == a && e[k].artist_id == art
                    && has_artist(e, b, art),
    )
}

/// Number of distinct artists that both users ranked a song by.
pub open spec fn overlapping_artists(e: Seq<RankingRecord>, a: u32, b: u32) -> int {
    shared_artists(e, a, b).len() as int
}

/// One song that both users ranked, with each one's rank.
#[derive(Clone, Copy, Debug, PartialEq, Eq, Structural)]
pub struct SongDetail {
    pub song_id: u32,
    pub artist_id: u32,
    pub user1_rank: u32,
    pub user2_rank: u32,
    pub rank_difference: u32,
}

/// One pairing of a song of each user by a shared artist.
#[derive(Clone, Copy, Debug, PartialEq, Eq, Structural)]
pub struct ArtistDetail {
    pub artist_id: u32,
    pub user1_song: u32,
    pub user1_rank: u32,
    pub user2_song: u32,
    pub user2_rank: u32,
    pub rank_difference: u32,
}

pub open spec fn song_detail_of(x: RankingRecord, y: RankingRecord) -> SongDetail {
    SongDetail {
        song_id: x.song_id,
        artist_id: x.artist_id,
        user1_rank: x.rank,
        user2_rank: y.rank,
        rank_difference: rank_gap(x, y) as u32,
    }
}

pub open spec fn artist_detail_of(x: RankingRecord, y: RankingRecord) -> ArtistDetail {
    ArtistDetail {
        artist_id: x.artist_id,
        user1_song: x.song_id,
        user1_rank: x.rank,
        user2_song: y.song_id,
        user2_rank: y.rank,
        rank_difference: rank_gap(x, y) as u32,
    }
}

/// Song details of record `x` against the first `m` records.
pub open spec fn song_detail_row(
    e: Seq<RankingRecord>,
    a: u32,
    b: u32,
    x: RankingRecord,
    m: nat,
) -> Seq<SongDetail>
    decreases m,
{
    if m == 0 {
        Seq::empty()
    } else {
        let s = song_detail_row(e, a, b, x, (m - 1) as nat);
        let y = e[m - 1];
        if x.user_id == a && y.user_id == b && x.song_id == y.song_id {
            s.push(song_detail_of(x, y))
        } else {
            s
        }
    }
}

pub open spec fn song_detail_grid(e: Seq<RankingRecord>, a: u32, b: u32, n: nat) -> Seq<
    SongDetail,
>
    decreases n,
{
    if n == 0 {
        Seq::empty()
    } else {
        song_detail_grid(e, a, b, (n - 1) as nat) + song_detail_row(e, a, b, e[n - 1], e.len())
    }
}

/// Artist details of record `x` against the first `m` records.
pub open spec fn artist_detail_row(
    e: Seq<RankingRecord>,
    a: u32,
    b: u32,
    x: RankingRecord,
    m: nat,
) -> Seq<ArtistDetail>
    decreases m,
{
    if m == 0 {
        Seq::empty()
    } else {
        let s = artist_detail_row(e, a, b, x, (m - 1) as nat);
        let y = e[m - 1];
        if x.user_id == a && y.user_id == b && x.artist_id == y.artist_id {
            s.push(artist_detail_of(x, y))
        } else {
            s
        }
    }
}

pub open spec fn artist_detail_grid(e: Seq<RankingRecord>, a: u32, b: u32, n: nat) -> Seq<
    ArtistDetail,
>
    decreases n,
{
    if n == 0 {
        Seq::empty()
    } else {
        artist_detail_grid(e, a, b, (n - 1) as nat) + artist_detail_row(
            e,
            a,
            b,
            e[n - 1],
            e.len(),
        )
    }
}

/// Every song both users ranked, as a detail record.
pub open spec fn song_details(e: Seq<RankingRecord>, a: u32, b: u32) -> Seq<SongDetail> {
    song_detail_grid(e, a, b, e.len())
}

/// Every pairing of their songs by a shared artist, as a detail record.
pub open spec fn artist_details(e: Seq<RankingRecord>, a: u32, b: u32) -> Seq<ArtistDetail> {
    artist_detail_grid(e, a, b, e.len())
}

/// One step of a lexicographic order: `x` before `y`, or a tie settled by
/// `rest`.
pub open spec fn lex_le(x: u32, y: u32, rest: bool) -> bool {
    x < y || (x == y && rest)
}

/// Closest agreement first, then the first user's rank; the remaining
/// fields settle what is left, so that the order is total.
pub open spec fn song_detail_le(d: SongDetail, f: SongDetail) -> bool {
    lex_le(
        d.rank_difference,
        f.rank_difference,
        lex_le(
            d.user1_rank,
            f.user1_rank,
            lex_le(
                d.user2_rank,
                f.user2_rank,
                lex_le(d.song_id, f.song_id, d.artist_id <= f.artist_id),
            ),
        ),
    )
}

/// Closest agreement first, then the first user's rank, then the second's;
/// the remaining fields settle what is left, so that the order is total.
pub open spec fn artist_detail_le(d: ArtistDetail, f: ArtistDetail) -> bool {
    lex_le(
        d.rank_difference,
        f.rank_difference,
        lex_le(
            d.user1_rank,
            f.user1_rank,
            lex_le(
                d.user2_rank,
                f.user2_rank,
                lex_le(
                    d.user1_song,
                    f.user1_song,
                    lex_le(d.user2_song, f.user2_song, d.artist_id <= f.artist_id),
                ),
            ),
        ),
    )
}

pub open spec fn song_details_sorted(s: Seq<SongDetail>) -> bool {
    forall|i: int, j: int| 0 <= i < j < s.len() ==> song_detail_le(#[trigger] s[i], #[trigger] s[j])
}

pub open spec fn artist_details_sorted(s: Seq<ArtistDetail>) -> bool {
    forall|i: int, j: int|
        0 <= i < j < s.len() ==> artist_detail_le(#[trigger] s[i], #[trigger] s[j])
}

fn lex_step(x: u32, y: u32, rest: bool) -> (r: bool)
    ensures
        r == lex_le(x, y, rest),
{
    x < y || (x == y && rest)
}

fn song_detail_precedes(d: SongDetail, f: SongDetail) -> (r: bool)
    ensures
        r == song_detail_le(d, f),
{
    let t = lex_step(d.song_id, f.song_id, d.artist_id <= f.artist_id);
    let t = lex_step(d.user2_rank, f.user2_rank, t);
    let t = lex_step(d.user1_rank, f.user1_rank, t);
    lex_step(d.rank_difference, f.rank_difference, t)
}

fn artist_detail_precedes(d: ArtistDetail, f: ArtistDetail) -> (r: bool)
    ensures
        r == artist_detail_le(d, f),
{
    let t = lex_step(d.user2_song, f.user2_song, d.artist_id <= f.artist_id);
    let t = lex_step(d.user1_song, f.user1_song, t);
    let t = lex_step(d.user2_rank, f.user2_rank, t);
    let t = lex_step(d.user1_rank, f.user1_rank, t);
    lex_step(d.rank_difference, f.rank_difference, t)
}

pub(crate) fn insert_song_detail(v: &mut Vec<SongDetail>, d: SongDetail)
    requires
        song_details_sorted(old(v)@),
        old(v)@.len() < usize::MAX,
    ensures
        song_details_sorted(final(v)@),
        final(v)@.to_multiset() == old(v)@.to_multiset().insert(d),
        final(v)@.len() == old(v)@.len() + 1,
{
    let mut p: usize = 0;
    while p < v.len() && song_detail_precedes(v[p], d)
        invariant
            p <= v@.len(),
            v@ == old(v)@,
            forall|k: int| 0 <= k < p ==> song_detail_le(#[trigger] v@[k], d),
        decreases v@.len() - p,
    {
        p = p + 1;
    }
    proof {
        vstd::seq_lib::to_multiset_insert(v@, p as int, d);
    }
    v.insert(p, d);
}

pub(crate) fn insert_artist_detail(v: &mut Vec<ArtistDetail>, d: ArtistDetail)
    requires
        artist_details_sorted(old(v)@),
        old(v)@.len() < usize::MAX,
    ensures
        artist_details_sorted(final(v)@),
        final(v)@.to_multiset() == old(v)@.to_multiset().insert(d),
        final(v)@.len() == old(v)@.len() + 1,
{
    let mut p: usize = 0;
    while p < v.len() && artist_detail_precedes(v[p], d)
        invariant
            p <= v@.len(),
            v@ == old(v)@,
            forall|k: int| 0 <= k < p ==> artist_detail_le(#[trigger] v@[k], d),
        decreases v@.len() - p,
    {
        p = p + 1;
    }
    proof {
        vstd::seq_lib::to_multiset_insert(v@, p as int, d);
    }
    v.insert(p, d);
}

} // verus!
