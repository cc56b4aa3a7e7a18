//! The data shapes of the control surface: request and response records
//! and the pure computations behind the handlers.  The transport itself
//! (routing, sockets, serialization) is the embedding application's.

use vstd::prelude::*;

use crate::albums::{album_digest_of, album_identifier, hex_of, normalize_album_title_spec,
    normalize_primary_artist_spec};
use crate::library::{all_albums, all_artists, clone_opt_string, find_by_path, Library, Track};
use crate::text::{dedup_spec, opt_view, sort_spec};

verus! {

/// Track response format for API
#[derive(Debug)]
pub struct TrackResponse {
    /// Unique track identifier
    pub id: String,
    /// Track title
    pub title: Option<String>,
    /// Artist name
    pub artist: Option<String>,
    /// Album name
    pub album: Option<String>,
    /// Stable album identifier derived from artist and album tags
    pub album_id: Option<String>,
    /// Genre
    pub genre: Option<String>,
    /// Duration in seconds
    pub duration: Option<u64>,
    /// File size in bytes
    pub file_size: u64,
    /// Full file path
    pub path: String,
}

impl TrackResponse {
    /// The response record for one library track, with the stable
    /// album identifier computed from its tags.
    pub fn from(track: &Track) -> (r: Self)
        ensures
            r.id@ == track.id@,
            r.title == track.metadata.title,
            r.artist == track.metadata.artist,
            r.album == track.metadata.album,
            opt_view(r.album_id) == match opt_view(track.metadata.album) {
                Some(a) => Some(
                    hex_of(
                        album_digest_of(
                            normalize_album_title_spec(a),
                            normalize_primary_artist_spec(opt_view(track.metadata.artist)),
                        ),
                    ),
                ),
                None => None,
            },
            r.genre == track.metadata.genre,
            r.duration == track.metadata.duration,
            r.file_size == track.metadata.file_size,
            r.path@ == track.metadata.file_path@,
    {
        let album_id = match &track.metadata.album {
            Some(album) => {
                let artist: Option<&str> = match &track.metadata.artist {
                    Some(a) => Some(a.as_str()),
                    None => None,
                };
                Some(album_identifier(artist, album.as_str()))
            },
            None => None,
        };
        TrackResponse {
            id: track.id.clone(),
            title: clone_opt_string(&track.metadata.title),
            artist: clone_opt_string(&track.metadata.artist),
            album: clone_opt_string(&track.metadata.album),
            album_id,
            genre: clone_opt_string(&track.metadata.genre),
            duration: track.metadata.duration,
            file_size: track.metadata.file_size,
            path: track.metadata.file_path.clone(),
        }
    }
}

/// Album response format for API
#[derive(Debug)]
pub struct AlbumResponse {
    /// Stable album identifier derived from artist and title
    pub id: String,
    /// Album title
    pub title: String,
    /// Primary artist (if available)
    pub primary_artist: Option<String>,
    /// All contributing artists discovered in the library
    pub artists: Vec<String>,
    /// Number of tracks in the album
    pub track_count: usize,
    /// Artwork endpoint URL if cached
    pub artwork_url: Option<String>,
}

/// API response wrapper
#[derive(Debug)]
pub struct ApiResponse<T> {
    /// Whether the request was successful
    pub success: bool,
    /// Response data (present if success is true)
    pub data: Option<T>,
    /// Error message (present if success is false)
    pub error: Option<String>,
}

impl<T> ApiResponse<T> {
    /// A successful response carrying its data.
    pub fn success(data: T) -> (r: Self)
        ensures
            r.success == true,
            r.data == Some(data),
            r.error is None,
    {
        ApiResponse { success: true, data: Some(data), error: None }
    }

    /// A failed response carrying its message.
    pub fn error(message: String) -> (r: ApiResponse<()>)
        ensures
            r.success == false,
            r.data is None,
            r.error == Some(message),
    {
        ApiResponse { success: false, data: None, error: Some(message) }
    }
}

/// Scan library request
#[derive(Debug)]
pub struct ScanRequest {
    /// List of directory paths to scan for music files
    pub directories: Vec<String>,
}

/// Search query parameters
#[derive(Debug)]
pub struct SearchQuery {
    /// Search query string
    pub q: String,
}

/// Album search query parameters
#[derive(Debug)]
pub struct AlbumSearchQuery {
    /// Optional search query string
    pub q: Option<String>,
}

/// Library statistics
#[derive(Debug)]
pub struct LibraryStats {
    /// Total number of tracks in library
    pub total_tracks: usize,
    /// Total number of unique artists
    pub total_artists: usize,
    /// Total number of unique albums
    pub total_albums: usize,
    /// Approximate cache size
    pub cache_size: usize,
}

/// The statistics of a library: track count, distinct artist and album
/// counts, and the cache size approximated by the track count.
pub fn library_stats(library: &Library) -> (r: LibraryStats)
    ensures
        r.total_tracks == library@.len(),
        r.total_artists == dedup_spec(sort_spec(all_artists(library@, 0))).len(),
        r.total_albums == dedup_spec(sort_spec(all_albums(library@, 0))).len(),
        r.cache_size == library@.len(),
{
    let total_tracks = library.track_count();
    let artists = library.get_artists();
    let albums = library.get_albums();
    proof {
        assert(crate::text::views_of_strings(artists@).len() == artists@.len());
        assert(crate::text::views_of_strings(albums@).len() == albums@.len());
    }
    LibraryStats {
        total_tracks,
        total_artists: artists.len(),
        total_albums: albums.len(),
        cache_size: total_tracks,
    }
}

/// The identity and duration annotation for a playback event: the
/// track's identifier and duration when the path is in the library,
/// nothing otherwise.
pub fn lookup_track_metadata(library: &Library, track_path: &str) -> (r: (
    Option<String>,
    Option<u64>,
))
    ensures
        match find_by_path(library@, track_path@, 0) {
            Some(t) => opt_view(r.0) == Some(t.id@) && r.1 == t.metadata.duration,
            None => r.0 is None && r.1 is None,
        },
{
    match library.get_track_by_path(track_path) {
        Some(track) => (Some(track.id), track.metadata.duration),
        None => (None, None),
    }
}

/// Get all playlists response entry
#[derive(Debug)]
pub struct PlaylistResponse {
    /// Playlist unique identifier
    pub id: String,
    /// Playlist name
    pub name: String,
    /// Optional playlist description
    pub description: Option<String>,
    /// Number of tracks in playlist
    pub track_count: usize,
    /// Creation timestamp (RFC3339)
    pub created_at: String,
    /// Last modification timestamp (RFC3339)
    pub modified_at: String,
}

// Helper types mirroring the concrete response payloads
#[derive(Debug)]
pub struct ApiResponseString {
    pub success: bool,
    pub data: Option<String>,
    pub error: Option<String>,
}

#[derive(Debug)]
pub struct ApiResponseTracks {
    pub success: bool,
    pub data: Option<Vec<TrackResponse>>,
    pub error: Option<String>,
}

#[derive(Debug)]
pub struct ApiResponseStats {
    pub success: bool,
    pub data: Option<LibraryStats>,
    pub error: Option<String>,
}

#[derive(Debug)]
pub struct ApiResponsePlaylists {
    pub success: bool,
    pub data: Option<Vec<PlaylistResponse>>,
    pub error: Option<String>,
}

#[derive(Debug)]
pub struct ApiResponseUsize {
    pub success: bool,
    pub data: Option<usize>,
    pub error: Option<String>,
}

/// Play audio request
#[derive(Debug)]
pub struct PlayRequest {
    /// File path to audio file
    pub file_path: String,
}

} // verus!
