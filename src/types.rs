use vstd::prelude::*;

verus! {

/// A registered user.
#[derive(Clone, Debug)]
pub struct User {
    pub id: i32,
    pub name: String,
}

/// A song as exchanged with the presentation layer; `rank` is the user's
/// position for it, when the song belongs to a ranked list.
#[derive(Clone, Debug)]
pub struct Song {
    pub key: Option<String>,
    pub name: String,
    pub uri: String,
    pub artist: String,
    pub album_cover_url: String,
    pub rank: Option<i32>,
}

/// Access token handed back by the music service's token exchange.
#[derive(Clone, Debug)]
pub struct AccessTokenResponse {
    pub access_token: String,
}

/// Query of a song search: the track text and the rank it is meant for.
#[derive(Clone, Debug)]
pub struct SearchSongsQuery {
    pub track: Option<String>,
    pub rank: Option<i32>,
}

/// Error message returned to a client.
#[derive(Clone, Debug)]
pub struct ErrorResponse {
    pub error: String,
}

/// Identifier of a playlist created on the music service.
#[derive(Clone, Debug)]
pub struct CreatePlaylistId {
    pub id: String,
}

/// Body of a playlist-creation request.
#[derive(Clone, Debug)]
pub struct CreatePlaylistBody {
    pub name: String,
    pub description: String,
    pub public: bool,
}

/// Body of a request that adds songs to a playlist at a position.
#[derive(Clone, Debug)]
pub struct AddSongsToPlaylistBody {
    pub uris: Vec<String>,
    pub position: i32,
}

} // verus!
