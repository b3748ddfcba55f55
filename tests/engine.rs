use music_taste::{
    distinct_users, get_music_taste_overview, get_music_taste_user, is_valid_username,
    matches_for_user, pair_statistics, top_pairs, validate_rankings, ArtistDetail, PairStats,
    RankingError, RankingRecord, SongDetail, TOP_PAIRS,
};

fn rec(user_id: u32, song_id: u32, artist_id: u32, rank: u32) -> RankingRecord {
    RankingRecord { user_id, song_id, artist_id, rank }
}

fn score(p: &PairStats) -> (i128, i128) {
    p.combined_score_fraction()
}

fn score_cmp_ge(p: &PairStats, q: &PairStats) -> bool {
    let (pn, pd) = score(p);
    let (qn, qd) = score(q);
    pn * qd >= qn * pd
}

/// User 1 and user 2 share song 1 and artists 10 and 20.
fn two_users() -> Vec<RankingRecord> {
    vec![
        rec(1, 1, 10, 1),
        rec(1, 2, 10, 2),
        rec(1, 3, 20, 3),
        rec(2, 1, 10, 2),
        rec(2, 4, 20, 1),
    ]
}

#[test]
fn exact_pair_statistics() {
    let e = two_users();
    let p = pair_statistics(&e, 1, 2);
    assert_eq!(p.user_1, 1);
    assert_eq!(p.user_2, 2);
    assert_eq!(p.overlapping_songs, 1);
    assert_eq!(p.song_rank_diff_total, 1);
    assert_eq!(p.overlapping_artists, 2);
    assert_eq!(p.total_songs_shared_artists, 3);
    assert_eq!(p.artist_rank_diff_total, 3);
    assert_eq!(p.song_relationship_strength_fraction(), (9, 1));
    // 9 + 3 * 2 - 0.5 * (3 / 3) = 14.5
    assert_eq!(score(&p), (87, 6));
    assert_eq!(
        p.overlapping_song_details,
        vec![SongDetail { song_id: 1, artist_id: 10, user1_rank: 1, user2_rank: 2, rank_difference: 1 }]
    );
    assert_eq!(
        p.overlapping_artist_details,
        vec![
            ArtistDetail { artist_id: 10, user1_song: 2, user1_rank: 2, user2_song: 1, user2_rank: 2, rank_difference: 0 },
            ArtistDetail { artist_id: 10, user1_song: 1, user1_rank: 1, user2_song: 1, user2_rank: 2, rank_difference: 1 },
            ArtistDetail { artist_id: 20, user1_song: 3, user1_rank: 3, user2_song: 4, user2_rank: 1, rank_difference: 2 },
        ]
    );
}

#[test]
fn rank_diff_fractions() {
    let e = two_users();
    let p = pair_statistics(&e, 1, 2);
    assert_eq!(p.song_rank_diff_fraction(), (1, 1));
    assert_eq!(p.artist_rank_diff_fraction(), (3, 3));
    let lone = vec![rec(1, 1, 10, 1), rec(2, 2, 11, 1)];
    let q = pair_statistics(&lone, 1, 2);
    assert_eq!(q.song_rank_diff_fraction(), (0, 1));
    assert_eq!(q.artist_rank_diff_fraction(), (0, 1));
}

#[test]
fn snapshot_of_eleven_hundred_records() {
    let mut e = Vec::new();
    for u in 1..=2u32 {
        for k in 1..=550u32 {
            e.push(rec(u, k, 1000 + k, k));
        }
    }
    let r = get_music_taste_overview(&e).unwrap();
    assert_eq!(r.len(), 1);
    assert_eq!(r[0].overlapping_songs, 550);
    assert_eq!(r[0].song_rank_diff_total, 0);
    assert_eq!(r[0].overlapping_artists, 550);
    assert_eq!(r[0].total_songs_shared_artists, 550);
    assert_eq!(r[0].song_relationship_strength_fraction(), (5500 * 550, 550));
    let m = get_music_taste_user(&e, 2).unwrap();
    assert_eq!(m.len(), 1);
    assert_eq!(m[0].user_2, 1);
}

#[test]
fn combined_score_is_strength_plus_artist_terms() {
    let e = two_users();
    let p = pair_statistics(&e, 1, 2);
    let (n, d) = score(&p);
    let (sn, sd) = p.song_relationship_strength_fraction();
    let t = p.total_songs_shared_artists as i128;
    // n / d == sn / sd + 3 * na - (da / t) / 2
    let rhs_num = 2 * t * sn + 6 * (p.overlapping_artists as i128) * sd * t
        - sd * (p.artist_rank_diff_total as i128);
    let rhs_den = 2 * sd * t;
    assert_eq!(n * rhs_den, rhs_num * d);
}

#[test]
fn statistics_are_symmetric() {
    let e = two_users();
    let p = pair_statistics(&e, 1, 2);
    let q = pair_statistics(&e, 2, 1);
    assert_eq!(p.overlapping_songs, q.overlapping_songs);
    assert_eq!(p.song_rank_diff_total, q.song_rank_diff_total);
    assert_eq!(p.overlapping_artists, q.overlapping_artists);
    assert_eq!(p.total_songs_shared_artists, q.total_songs_shared_artists);
    assert_eq!(p.artist_rank_diff_total, q.artist_rank_diff_total);
    assert_eq!(score(&p), score(&q));
}

#[test]
fn identical_top_three_lists() {
    let e = vec![
        rec(1, 1, 10, 1),
        rec(1, 2, 11, 2),
        rec(1, 3, 12, 3),
        rec(2, 1, 10, 1),
        rec(2, 2, 11, 2),
        rec(2, 3, 12, 3),
    ];
    let r = get_music_taste_overview(&e).unwrap();
    assert_eq!(r.len(), 1);
    let p = &r[0];
    assert_eq!(p.overlapping_songs, 3);
    assert_eq!(p.song_rank_diff_total, 0);
    let (sn, sd) = p.song_relationship_strength_fraction();
    assert_eq!(sn, 30 * sd);
    assert_eq!(p.overlapping_song_details.len(), 3);
}

#[test]
fn users_without_overlap_are_absent() {
    let e = vec![rec(1, 1, 10, 1), rec(1, 2, 11, 2), rec(2, 3, 12, 1), rec(2, 4, 13, 2)];
    assert!(get_music_taste_overview(&e).unwrap().is_empty());
    assert!(get_music_taste_user(&e, 1).unwrap().is_empty());
    assert!(get_music_taste_user(&e, 2).unwrap().is_empty());
}

#[test]
fn artist_only_match_in_user_view() {
    let e = vec![
        rec(1, 1, 10, 1),
        rec(1, 2, 11, 2),
        rec(2, 1, 10, 1),
        rec(3, 5, 11, 4),
        rec(3, 6, 12, 1),
    ];
    let r = get_music_taste_user(&e, 1).unwrap();
    let m = r.iter().find(|p| p.user_2 == 3).expect("user 3 matches user 1");
    assert_eq!(m.user_1, 1);
    assert_eq!(m.overlapping_songs, 0);
    assert!(m.overlapping_artists > 0);
    let (n, d) = score(m);
    assert!(n > 0 && d > 0);
    // only the artist term: 3 * 1 - 0.5 * |2 - 4| = 2
    assert_eq!(m.song_relationship_strength_fraction().0, 0);
    assert_eq!(n, 2 * d);
}

#[test]
fn every_emitted_pair_overlaps() {
    let e = vec![
        rec(1, 1, 10, 1),
        rec(2, 1, 10, 3),
        rec(3, 2, 10, 1),
        rec(4, 9, 99, 1),
        rec(5, 8, 98, 1),
    ];
    let all = top_pairs(&e);
    assert!(!all.is_empty());
    for p in all.iter() {
        assert!(p.overlapping_songs > 0 || p.overlapping_artists > 0);
        assert!(p.user_1 < p.user_2);
    }
    for u in distinct_users(&e) {
        for p in matches_for_user(&e, u).iter() {
            assert!(p.overlapping_songs > 0 || p.overlapping_artists > 0);
            assert_ne!(p.user_2, u);
        }
    }
}

/// Eight users who all share song 1 at different ranks.
fn crowd() -> Vec<RankingRecord> {
    let mut e = Vec::new();
    for u in 1..=8u32 {
        e.push(rec(u, 1, 10, u));
        e.push(rec(u, 100 + u, 200 + u, 20));
    }
    e
}

#[test]
fn global_report_is_bounded_and_ordered() {
    let e = crowd();
    let r = get_music_taste_overview(&e).unwrap();
    assert_eq!(r.len(), TOP_PAIRS);
    for w in r.windows(2) {
        assert!(score_cmp_ge(&w[0], &w[1]));
    }
    // the closest ranks agree most: neighbours come first, lower ids first
    assert_eq!((r[0].user_1, r[0].user_2), (1, 2));
    assert_eq!((r[1].user_1, r[1].user_2), (2, 3));
    // the user view is not truncated
    assert_eq!(get_music_taste_user(&e, 1).unwrap().len(), 7);
}

#[test]
fn detail_listings_sorted_and_counted() {
    let e = vec![
        rec(1, 1, 10, 1),
        rec(1, 2, 10, 2),
        rec(1, 3, 11, 3),
        rec(2, 3, 11, 1),
        rec(2, 2, 10, 3),
        rec(2, 1, 10, 2),
    ];
    let p = pair_statistics(&e, 1, 2);
    assert_eq!(p.overlapping_song_details.len() as u64, p.overlapping_songs);
    assert_eq!(p.overlapping_songs, 3);
    for w in p.overlapping_song_details.windows(2) {
        assert!(w[0].rank_difference <= w[1].rank_difference);
    }
    for w in p.overlapping_artist_details.windows(2) {
        assert!(w[0].rank_difference <= w[1].rank_difference);
    }
    assert_eq!(p.overlapping_artist_details.len() as u64, p.total_songs_shared_artists);
    assert_eq!(p.total_songs_shared_artists, 5);
}

#[test]
fn rerun_gives_identical_output() {
    let e = crowd();
    let a = format!("{:?}", get_music_taste_overview(&e));
    let b = format!("{:?}", get_music_taste_overview(&e));
    assert_eq!(a, b);
    let c = format!("{:?}", get_music_taste_user(&e, 3));
    let d = format!("{:?}", get_music_taste_user(&e, 3));
    assert_eq!(c, d);
}

#[test]
fn rejects_zero_rank() {
    let e = vec![rec(1, 1, 10, 0)];
    assert_eq!(validate_rankings(&e), Err(RankingError::ZeroRank { user_id: 1, song_id: 1 }));
    assert!(get_music_taste_overview(&e).is_err());
}

#[test]
fn rejects_duplicate_rank() {
    let e = vec![rec(1, 1, 10, 1), rec(1, 2, 11, 1)];
    assert_eq!(validate_rankings(&e), Err(RankingError::DuplicateRank { user_id: 1, rank: 1 }));
    assert!(get_music_taste_user(&e, 1).is_err());
}

#[test]
fn rejects_duplicate_song() {
    let e = vec![rec(1, 1, 10, 1), rec(1, 1, 10, 2)];
    assert_eq!(validate_rankings(&e), Err(RankingError::DuplicateSong { user_id: 1, song_id: 1 }));
}

#[test]
fn rejects_conflicting_artist() {
    let e = vec![rec(1, 1, 10, 1), rec(2, 1, 11, 1)];
    assert_eq!(validate_rankings(&e), Err(RankingError::ConflictingArtist { song_id: 1 }));
}

#[test]
fn accepts_well_formed_snapshot() {
    assert_eq!(validate_rankings(&two_users()), Ok(()));
    assert_eq!(validate_rankings(&Vec::new()), Ok(()));
    assert!(get_music_taste_overview(&Vec::new()).unwrap().is_empty());
}

#[test]
fn distinct_users_in_first_order() {
    assert_eq!(distinct_users(&two_users()), vec![1, 2]);
}

#[test]
fn username_rules() {
    assert!(is_valid_username("alice_01"));
    assert!(is_valid_username("A"));
    assert!(is_valid_username(&"x".repeat(30)));
    assert!(!is_valid_username(&"x".repeat(31)));
    assert!(!is_valid_username(""));
    assert!(!is_valid_username("bad name"));
    assert!(!is_valid_username("caf\u{e9}"));
    assert!(!is_valid_username("semi;colon"));
}
