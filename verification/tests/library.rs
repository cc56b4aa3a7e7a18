use hexendrum::api::{library_stats, lookup_track_metadata, ApiResponse, TrackResponse};
use hexendrum::library::{
    merge_metadata_from_tag, Library, TagFields, Track, TrackMetadata,
};

fn tags(title: Option<&str>, artist: Option<&str>, album: Option<&str>) -> TagFields {
    TagFields {
        title: title.map(|s| s.to_string()),
        artist: artist.map(|s| s.to_string()),
        album: album.map(|s| s.to_string()),
        track_number: None,
        year: None,
        genre: None,
    }
}

fn track(title: Option<&str>, artist: Option<&str>, album: Option<&str>, path: &str) -> Track {
    let metadata = TrackMetadata::from_parts(
        tags(title, artist, album),
        Some(200),
        4096,
        1_700_000_000,
        path.to_string(),
    );
    Track::new(metadata)
}

#[test]
fn tracks_get_fresh_identifiers() {
    let a = track(Some("One"), None, None, "/m/a.mp3");
    let b = track(Some("Two"), None, None, "/m/b.mp3");
    assert_eq!(a.id.len(), 36);
    assert_ne!(a.id, b.id);
}

#[test]
fn display_name_prefers_artist_and_title() {
    let both = track(Some("Song"), Some("Artist"), None, "/m/a.mp3");
    assert_eq!(both.display_name(), "Artist - Song");
    let title_only = track(Some("Song"), None, None, "/m/a.mp3");
    assert_eq!(title_only.display_name(), "Song");
    let neither = track(None, None, None, "/music/file.mp3");
    assert_eq!(neither.display_name(), "file.mp3");
}

#[test]
fn tag_merge_keeps_the_first_source() {
    let mut current = tags(Some("Kept"), None, None);
    merge_metadata_from_tag(&mut current, tags(Some("Ignored"), Some("Artist"), None));
    assert_eq!(current.title, Some("Kept".to_string()));
    assert_eq!(current.artist, Some("Artist".to_string()));
    assert_eq!(current.album, None);
}

#[test]
fn library_stores_searches_and_removes_tracks() {
    let mut library = Library::new();
    assert_eq!(library.track_count(), 0);

    let a = track(Some("Bohemian Rhapsody"), Some("Queen"), Some("Opera"), "/m/a.mp3");
    let b = track(Some("Song Two"), Some("Foo Fighters"), Some("Colour"), "/m/b.mp3");
    let a_id = a.id.clone();
    library.add_track(a);
    library.add_track(b);
    assert_eq!(library.track_count(), 2);

    assert!(library.track_exists(&a_id));
    assert!(!library.track_exists("nope"));
    assert_eq!(library.get_track(&a_id).unwrap().metadata.album, Some("Opera".to_string()));
    assert_eq!(
        library.get_track_by_path("/m/b.mp3").unwrap().metadata.artist,
        Some("Foo Fighters".to_string())
    );

    let hits = library.search_tracks("QUEEN");
    assert_eq!(hits.len(), 1);
    assert_eq!(hits[0].metadata.title, Some("Bohemian Rhapsody".to_string()));
    assert_eq!(library.search_tracks("zzz").len(), 0);

    assert_eq!(library.get_tracks_by_artist("Queen").len(), 1);
    assert_eq!(library.get_tracks_by_album("Colour").len(), 1);

    let artists = library.get_artists();
    assert_eq!(artists, vec!["Foo Fighters".to_string(), "Queen".to_string()]);

    assert!(library.remove_track(&a_id));
    assert!(!library.remove_track(&a_id));
    assert_eq!(library.track_count(), 1);
}

#[test]
fn adding_a_track_replaces_same_path() {
    let mut library = Library::new();
    library.add_track(track(Some("Old"), None, None, "/m/same.mp3"));
    library.add_track(track(Some("New"), None, None, "/m/same.mp3"));
    assert_eq!(library.track_count(), 1);
    assert_eq!(
        library.get_track_by_path("/m/same.mp3").unwrap().metadata.title,
        Some("New".to_string())
    );
}

#[test]
fn stats_count_distinct_artists_and_albums() {
    let mut library = Library::new();
    library.add_track(track(Some("One"), Some("Queen"), Some("Opera"), "/m/1.mp3"));
    library.add_track(track(Some("Two"), Some("Queen"), Some("Opera"), "/m/2.mp3"));
    library.add_track(track(Some("Three"), Some("Foo"), None, "/m/3.mp3"));
    let stats = library_stats(&library);
    assert_eq!(stats.total_tracks, 3);
    assert_eq!(stats.total_artists, 2);
    assert_eq!(stats.total_albums, 1);
    assert_eq!(stats.cache_size, 3);
}

#[test]
fn playback_events_look_up_track_annotations() {
    let mut library = Library::new();
    let t = track(Some("One"), None, None, "/m/1.mp3");
    let id = t.id.clone();
    library.add_track(t);
    let (found_id, duration) = lookup_track_metadata(&library, "/m/1.mp3");
    assert_eq!(found_id, Some(id));
    assert_eq!(duration, Some(200));
    let (missing_id, missing_duration) = lookup_track_metadata(&library, "/m/none.mp3");
    assert_eq!(missing_id, None);
    assert_eq!(missing_duration, None);
}

#[test]
fn track_responses_carry_album_identifiers() {
    let t = track(Some("One"), Some("Queen"), Some("Opera"), "/m/1.mp3");
    let r = TrackResponse::from(&t);
    assert_eq!(r.id, t.id);
    assert_eq!(r.album, Some("Opera".to_string()));
    assert_eq!(r.album_id.as_ref().map(|s| s.len()), Some(64));
    assert_eq!(r.path, "/m/1.mp3");

    let bare = track(None, None, None, "/m/2.mp3");
    assert_eq!(TrackResponse::from(&bare).album_id, None);

    let response = ApiResponse::success(r);
    assert!(response.success);
    assert!(response.data.is_some());
    assert!(response.error.is_none());
    let failure = ApiResponse::<()>::error("broken".to_string());
    assert!(!failure.success);
    assert_eq!(failure.error, Some("broken".to_string()));
}
