use vstd::prelude::*;

verus! {

/// Most records one snapshot may hold: the limit that 128-bit arithmetic
/// sets. Reports compare scores exactly, as fractions, by multiplying one
/// score's numerator by the other's denominator. In a well-formed snapshot of
/// `n` records a pair shares at most `n` songs and has at most `n * n` artist
/// pairings, so a numerator stays below `2^79` and a denominator at most
/// `2^46` for `n <= 2^15`, and the product fits an `i128`.
pub const MAX_RECORDS: usize = 32768;

/// One user's placement of one song: the joined tuple that the ranking store
/// supplies. `artist_id` identifies the song's artist (equal ids, equal
/// artist names).
#[derive(Clone, Copy, Debug, PartialEq, Eq, Structural)]
pub struct RankingRecord {
    pub user_id: u32,
    pub song_id: u32,
    pub artist_id: u32,
    pub rank: u32,
}

/// Absolute difference of two records' ranks.
pub open spec fn rank_gap(x: RankingRecord, y: RankingRecord) -> int {
    if x.rank >= y.rank {
        x.rank - y.rank
    } else {
        y.rank - x.rank
    }
}

/// Whether user `u` appears in the snapshot.
pub open spec fn has_user(e: Seq<RankingRecord>, u: u32) -> bool {
    exists|k: int| 0 <= k < e.len() && (#[trigger] e[k]).user_id == u
}

/// Whether user `u` ranked at least one song by artist `art`.
pub open spec fn has_artist(e: Seq<RankingRecord>, u: u32, art: u32) -> bool {
    exists|k: int| 0 <= k < e.len() && (#[trigger] e[k]).user_id == u && e[k].artist_id == art
}

/// A well-formed snapshot: positive ranks; per user, distinct ranks and
/// distinct songs; one artist per song.
pub open spec fn well_formed(e: Seq<RankingRecord>) -> bool {
    &&& forall|i: int| 0 <= i < e.len() ==> (#[trigger] e[i]).rank > 0
    &&& forall|i: int, j: int|
        0 <= i < e.len() && 0 <= j < e.len() && i != j && e[i].user_id == e[j].user_id
            ==> #[trigger] e[i].rank != #[trigger] e[j].rank && e[i].song_id != e[j].song_id
    &&& forall|i: int, j: int|
        0 <= i < e.len() && 0 <= j < e.len() && #[trigger] e[i].song_id == #[trigger] e[j].song_id
            ==> e[i].artist_id == e[j].artist_id
}

/// Why a snapshot was rejected.
#[derive(Clone, Copy, Debug, PartialEq, Eq, Structural)]
pub enum RankingError {
    /// A record holds rank 0.
    ZeroRank { user_id: u32, song_id: u32 },
    /// A user placed two songs at one rank.
    DuplicateRank { user_id: u32, rank: u32 },
    /// A user ranked one song twice.
    DuplicateSong { user_id: u32, song_id: u32 },
    /// One song is attributed to two artists.
    ConflictingArtist { song_id: u32 },
}

/// What an error claims of the snapshot: a record, or two distinct records,
/// that break the rule it names.
pub open spec fn error_holds(e: Seq<RankingRecord>, err: RankingError) -> bool {
    match err {
        RankingError::ZeroRank { user_id, song_id } => exists|i: int|
            0 <= i < e.len() && #[trigger] e[i] == (RankingRecord {
                user_id,
                song_id,
                artist_id: e[i].artist_id,
                rank: 0,
            }),
        RankingError::DuplicateRank { user_id, rank } => exists|i: int, j: int|
            0 <= i < e.len() && 0 <= j < e.len() && i != j && #[trigger] e[i].user_id == user_id
                && #[trigger] e[j].user_id == user_id && e[i].rank == rank && e[j].rank == rank,
        RankingError::DuplicateSong { user_id, song_id } => exists|i: int, j: int|
            0 <= i < e.len() && 0 <= j < e.len() && i != j && #[trigger] e[i].user_id == user_id
                && #[trigger] e[j].user_id == user_id && e[i].song_id == song_id && e[j].song_id
                == song_id,
        RankingError::ConflictingArtist { song_id } => exists|i: int, j: int|
            0 <= i < e.len() && 0 <= j < e.len() && #[trigger] e[i].song_id == song_id
                && #[trigger] e[j].song_id == song_id && e[i].artist_id != e[j].artist_id,
    }
}

/// Checks a snapshot before any statistic is computed; the whole snapshot is
/// rejected on the first broken rule.
pub fn validate_rankings(entries: &Vec<RankingRecord>) -> (r: Result<(), RankingError>)
    ensures
        r is Ok <==> well_formed(entries@),
        r matches Err(err) ==> error_holds(entries@, err),
{
    let n = entries.len();
    let mut i: usize = 0;
    while i < n
        invariant
            n == entries@.len(),
            i <= n,
            forall|k: int| 0 <= k < i ==> (#[trigger] entries@[k]).rank > 0,
            forall|p: int, q: int|
                0 <= p < i && 0 <= q < n && p != q && entries@[p].user_id == entries@[q].user_id
                    ==> #[trigger] entries@[p].rank != #[trigger] entries@[q].rank
                    && entries@[p].song_id != entries@[q].song_id,
            forall|p: int, q: int|
                0 <= p < i && 0 <= q < n && #[trigger] entries@[p].song_id
                    == #[trigger] entries@[q].song_id ==> entries@[p].artist_id
                    == entries@[q].artist_id,
        decreases n - i,
    {
        let x = entries[i];
        if x.rank == 0 {
            assert(entries@[i as int] == (RankingRecord {
                user_id: x.user_id,
                song_id: x.song_id,
                artist_id: x.artist_id,
                rank: 0,
            }));
            return Err(RankingError::ZeroRank { user_id: x.user_id, song_id: x.song_id });
        }
        let mut j: usize = 0;
        while j < n
            invariant
                n == entries@.len(),
                i < n,
                j <= n,
                x == entries@[i as int],
                forall|q: int|
                    0 <= q < j && i != q && x.user_id == (#[trigger] entries@[q]).user_id
                        ==> x.rank != entries@[q].rank && x.song_id != entries@[q].song_id,
                forall|q: int|
                    0 <= q < j && x.song_id == #[trigger] entries@[q].song_id ==> x.artist_id
                        == entries@[q].artist_id,
            decreases n - j,
        {
            let y = entries[j];
            if j != i && x.user_id == y.user_id && x.rank == y.rank {
                assert(entries@[j as int].user_id == x.user_id);
                return Err(RankingError::DuplicateRank { user_id: x.user_id, rank: x.rank });
            }
            if j != i && x.user_id == y.user_id && x.song_id == y.song_id {
                assert(entries@[j as int].user_id == x.user_id);
                return Err(RankingError::DuplicateSong { user_id: x.user_id, song_id: x.song_id });
            }
            if x.song_id == y.song_id && x.artist_id != y.artist_id {
                assert(entries@[j as int].song_id == x.song_id);
                return Err(RankingError::ConflictingArtist { song_id: x.song_id });
            }
            j = j + 1;
        }
        i = i + 1;
    }
    assert forall|p: int, q: int|
        0 <= p < n && 0 <= q < n && p != q && entries@[p].user_id == entries@[q].user_id implies
            #[trigger] entries@[p].rank != #[trigger] entries@[q].rank && entries@[p].song_id
            != entries@[q].song_id by {}
    Ok(())
}

} // verus!
