//! Music-taste compatibility engine: per-pair overlap statistics between
//! users' ranked song lists, an exact combined score, and ordered reports.

mod username;
pub mod types;
pub mod ranking;
pub mod overlap;
pub mod pair;
pub mod score;
pub mod report;
pub mod laws;

pub use username::is_valid_username;
pub use types::{
    AccessTokenResponse, AddSongsToPlaylistBody, CreatePlaylistBody, CreatePlaylistId,
    ErrorResponse, SearchSongsQuery, Song, User,
};
pub use ranking::{validate_rankings, RankingError, RankingRecord, MAX_RECORDS};
pub use overlap::{ArtistDetail, SongDetail};
pub use pair::{pair_statistics, PairStats};
pub use report::{
    distinct_users, get_music_taste_overview, get_music_taste_user, matches_for_user, top_pairs,
    TOP_PAIRS,
};
