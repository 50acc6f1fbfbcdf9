//! Music.

use vstd::prelude::*;

verus! {

/// The matches of a search, by what was searched for.
#[derive(Debug, Clone)]
pub enum Matches {
    Track { track: Vec<TrackListResult> },
    Album { album: Vec<AlbumListResult> },
    Artist { artist: Vec<ArtistListResult> },
}

/// The answer to a search: results, or the service's error.
#[derive(Debug, Clone)]
pub enum SearchResults<T> {
    Found { results: T },
    Failed { error: u32, message: String },
}

/// The tracks of an album: several, or one.
#[derive(Debug, Clone)]
pub enum AlbumTracks {
    Tracks { track: Vec<AlbumTrack> },
    Track { track: AlbumTrack },
}

/// The tags of an entry: several, one, or none.
#[derive(Debug, Clone)]
pub enum Tags {
    Tags { tag: Vec<LfmTag> },
    Tag { tag: LfmTag },
    Absent(String),
}

/// The links of a wiki entry.
#[derive(Debug, Clone)]
pub struct Links {
    pub link: Link,
}

/// The artist of a track.
#[derive(Debug, Clone)]
pub struct TrackInfoArtist {
    pub name: String,
    pub url: String,
    pub mbid: Option<String>,
}

/// The album of a track.
#[derive(Debug, Clone)]
pub struct TrackInfoAlbum {
    pub artist: String,
    pub title: String,
    pub url: String,
    pub image: Vec<LfmImage>,
    pub mbid: Option<String>,
}

/// A wiki entry.
#[derive(Debug, Clone)]
pub struct InfoWiki<L> {
    pub links: Option<L>,
    pub published: String,
    pub summary: String,
    pub content: String,
}

/// A link.
#[derive(Debug, Clone)]
pub struct Link {
    pub text: String,
    pub rel: String,
    pub href: String,
}

/// What the service knows of a track.
#[derive(Debug, Clone)]
pub struct TrackInfo<L> {
    pub name: String,
    pub id: Option<u64>,
    pub mbid: Option<String>,
    pub url: String,
    pub duration: u64,
    pub stats: InfoStats,
    pub artist: TrackInfoArtist,
    pub album: Option<TrackInfoAlbum>,
    pub wiki: Option<InfoWiki<L>>,
}

/// How much an entry is listened to.
#[derive(Debug, Clone, Copy)]
pub struct InfoStats {
    pub listeners: u64,
    pub playcount: u64,
}

/// What the service knows of an artist.
#[derive(Debug, Clone)]
pub struct ArtistInfo<T, G, L> {
    pub name: String,
    pub mbid: Option<String>,
    pub url: String,
    pub stats: InfoStats,
    pub tags: G,
    pub bio: InfoWiki<L>,
    pub similar: T,
}

/// A tag of the service.
#[derive(Debug, Clone)]
pub struct LfmTag {
    pub name: String,
    pub url: String,
}

/// What the service knows of an album.
#[derive(Debug, Clone)]
pub struct AlbumInfo<G, A> {
    pub name: String,
    pub artist: String,
    pub id: Option<u64>,
    pub release_date: Option<String>,
    pub mbid: Option<String>,
    pub url: String,
    pub stats: InfoStats,
    pub image: Vec<LfmImage>,
    pub tags: G,
    pub tracks: A,
}

/// A track of an album.
#[derive(Debug, Clone)]
pub struct AlbumTrack {
    pub name: String,
    pub url: String,
    pub duration: Option<u64>,
    pub artist: AlbumTrackArtist,
}

/// The artist of a track of an album.
#[derive(Debug, Clone)]
pub struct AlbumTrackArtist {
    pub url: String,
    pub name: String,
    pub mbid: Option<String>,
}

/// A track in a list of results.
#[derive(Debug, Clone)]
pub struct TrackListResult {
    pub name: String,
    pub artist: String,
    pub url: String,
    pub listeners: u64,
    pub mbid: Option<String>,
}

/// An album in a list of results.
#[derive(Debug, Clone)]
pub struct AlbumListResult {
    pub name: String,
    pub artist: String,
    pub id: Option<u64>,
    pub url: String,
    pub image: Vec<LfmImage>,
    pub mbid: Option<String>,
}

/// An artist in a list of results.
#[derive(Debug, Clone)]
pub struct ArtistListResult {
    pub name: String,
    pub url: String,
    pub listeners: u64,
    pub mbid: Option<String>,
}

/// An image, in one of its sizes.
#[derive(Debug, Clone)]
pub struct LfmImage {
    pub url: String,
    pub size: LfmImageSize,
}

/// The sizes in which the service keeps images.
#[derive(Debug, Clone, Copy, PartialEq, Eq, Structural)]
pub enum LfmImageSize {
    Small,
    Medium,
    Large,
    ExtraLarge,
    Mega,
    Unknown,
}

/// The query that a list of results answers.
#[derive(Debug, Clone)]
pub struct SearchQuery {
    pub text: String,
    pub role: String,
    pub start_page: u64,
    pub search_terms: Option<String>,
}

/// One page of the results of a search.
#[derive(Debug, Clone)]
pub struct SearchResultsOk<T> {
    pub query: SearchQuery,
    pub total_results: u64,
    pub start_index: u64,
    pub items_per_page: u64,
    pub matches: T,
}

/// What to ask the service about.
#[derive(Debug, Clone)]
pub enum InfoQuery<T> {
    Mbid(T),
    Artist(T),
    Album { artist: T, album: T },
    Track { artist: T, track: T },
}

/// The text of an optional field, where the text is not empty: the service
/// writes an empty text where it has nothing to say.
pub fn non_empty_str(text: Option<String>) -> (r: Option<String>)
    ensures
        r == match text {
            Some(s) => if s@.len() == 0 {
                None
            } else {
                Some(s)
            },
            None => None,
        },
{
    match text {
        Some(s) => {
            if s.as_str().unicode_len() == 0 {
                None
            } else {
                Some(s)
            }
        },
        None => None,
    }
}

} // verus!
