use hexendrum::albums::{
    aggregate_albums, album_identifier, album_query_matches, apply_manual_update,
    build_search_term, extract_image_url, is_year_token, normalize_album_title,
    normalize_override_string, normalize_primary_artist, should_discard_artist_segment,
    split_primary_artist_segments, strip_bracketed, truncate_at_secondary_markers,
    validate_manual_update, AlbumExportFormat, AlbumMetadata, AlbumOverrideRecord, ImageEntry,
    ManualAlbumUpdate, OverrideError,
};
use hexendrum::library::{TagFields, Track, TrackMetadata};

fn sample_track(title: &str, artist: Option<&str>, album: Option<&str>, path: &str) -> Track {
    let metadata = TrackMetadata::from_parts(
        TagFields {
            title: Some(title.to_string()),
            artist: artist.map(|s| s.to_string()),
            album: album.map(|s| s.to_string()),
            track_number: None,
            year: None,
            genre: None,
        },
        Some(100),
        1024,
        1_700_000_000,
        path.to_string(),
    );
    Track::new(metadata)
}

#[test]
fn album_identifier_normalizes_common_soundtrack_variants() {
    let base = album_identifier(Some("Mick Gordon"), "DOOM (2016)");
    let ost = album_identifier(Some("Mick Gordon"), "Doom Original Soundtrack");
    let official = album_identifier(Some("Mick Gordon"), "Doom: Original Game Soundtrack");

    assert_eq!(
        base, ost,
        "soundtrack variants should resolve to same album id"
    );
    assert_eq!(
        base, official,
        "game soundtrack variants should resolve to same album id"
    );
}

#[test]
fn album_identifier_ignores_features_in_artist_field() {
    let base = album_identifier(Some("Artist Name"), "Sample Album");
    let featuring = album_identifier(Some("Artist Name feat. Guest Singer"), "Sample Album");
    let with_extra = album_identifier(Some("Artist Name with Guest Singer"), "Sample Album");

    assert_eq!(
        base, featuring,
        "featured guests should not change album id"
    );
    assert_eq!(
        base, with_extra,
        "with-guest markers should not change album id"
    );
}

#[test]
fn album_identifier_keeps_distinct_artists_apart() {
    let queen = album_identifier(Some("Queen"), "Greatest Hits");
    let foo = album_identifier(Some("Foo Fighters"), "Greatest Hits");

    assert_ne!(
        queen, foo,
        "different primary artists should produce distinct album identifiers"
    );
}

#[test]
fn album_identifier_is_lowercase_hex_of_fixed_length() {
    let id = album_identifier(None, "Some Album");
    assert_eq!(id.len(), 64);
    assert!(id.chars().all(|c| c.is_ascii_hexdigit() && !c.is_ascii_uppercase()));
}

#[test]
fn titles_lose_years_brackets_and_soundtrack_noise() {
    assert_eq!(normalize_album_title("DOOM (2016)"), "doom");
    assert_eq!(normalize_album_title("Doom: Original Game Soundtrack"), "doom");
    assert_eq!(normalize_album_title("A Night at the Opera"), "a night at the opera");
    assert_eq!(normalize_album_title("  (Deluxe)  "), "");
    assert_eq!(normalize_album_title("1999"), "1999");
}

#[test]
fn bracketed_regions_are_stripped_with_nesting() {
    assert_eq!(strip_bracketed("a (b [c] d) e"), "a  e");
    assert_eq!(strip_bracketed("plain"), "plain");
    assert_eq!(strip_bracketed("a ) b ( c"), "a  b ");
}

#[test]
fn year_tokens_are_recognized_in_range() {
    assert!(is_year_token("1999"));
    assert!(is_year_token("2100"));
    assert!(!is_year_token("1899"));
    assert!(!is_year_token("2101"));
    assert!(!is_year_token("199"));
    assert!(!is_year_token("19999"));
    assert!(!is_year_token("abcd"));
}

#[test]
fn artists_are_cut_at_secondary_markers() {
    assert_eq!(truncate_at_secondary_markers("alice feat bob"), "alice");
    assert_eq!(truncate_at_secondary_markers("alice vs bob x carol"), "alice");
    assert_eq!(truncate_at_secondary_markers("plain artist"), "plain artist");
}

#[test]
fn artist_segments_split_on_separators_but_keep_bands() {
    assert_eq!(
        split_primary_artist_segments("alice, bob & carol"),
        vec!["alice".to_string(), " bob".to_string(), "carol".to_string()]
    );
    let band = split_primary_artist_segments("florence and the machine");
    assert_eq!(band, vec!["florence and the machine".to_string()]);
    let duo = split_primary_artist_segments("simon and garfunkel");
    assert_eq!(duo, vec!["simon".to_string(), "garfunkel".to_string()]);
}

#[test]
fn studio_phrases_and_tokens_are_discarded() {
    assert!(should_discard_artist_segment("various artists"));
    assert!(should_discard_artist_segment("  "));
    assert!(should_discard_artist_segment("bethesda softworks"));
    assert!(should_discard_artist_segment("score"));
    assert!(!should_discard_artist_segment("queen"));
}

#[test]
fn primary_artists_normalize_and_sort() {
    assert_eq!(
        normalize_primary_artist(Some("Artist Name feat. Guest Singer")),
        Some("artist name".to_string())
    );
    assert_eq!(
        normalize_primary_artist(Some("B Artist; A Artist")),
        Some("a artist|b artist".to_string())
    );
    assert_eq!(
        normalize_primary_artist(Some("Queen, Queen")),
        Some("queen".to_string())
    );
    assert_eq!(normalize_primary_artist(Some("  ")), None);
    assert_eq!(normalize_primary_artist(Some("Various Artists")), None);
    assert_eq!(normalize_primary_artist(None), None);
}

#[test]
fn search_terms_join_the_known_parts() {
    assert_eq!(build_search_term("queen", "opera", None), "queen opera");
    assert_eq!(
        build_search_term("queen", "opera", Some("bohemian")),
        "queen opera bohemian"
    );
}

#[test]
fn override_strings_are_trimmed_or_dropped() {
    assert_eq!(normalize_override_string("  Hello  ".to_string()), Some("Hello".to_string()));
    assert_eq!(normalize_override_string("   ".to_string()), None);
    assert_eq!(normalize_override_string(String::new()), None);
}

#[test]
fn manual_updates_are_validated() {
    let empty_update = ManualAlbumUpdate {
        title: None,
        primary_artist: None,
        search_album: None,
        search_artist: None,
        refresh_artwork: false,
    };
    assert!(matches!(
        validate_manual_update("  ", &empty_update),
        Err(OverrideError::EmptyAlbumId)
    ));
    assert!(matches!(
        validate_manual_update("abc", &empty_update),
        Err(OverrideError::NoFields)
    ));
    let refresh_only = ManualAlbumUpdate { refresh_artwork: true, ..empty_update.clone() };
    assert!(validate_manual_update("abc", &refresh_only).is_ok());
}

#[test]
fn manual_updates_fold_into_the_record() {
    let record = AlbumOverrideRecord::new("abc", 1000);
    assert_eq!(record.album_id, "abc");
    assert_eq!(record.updated_at, 1000);
    assert!(record.title.is_none());

    let update = ManualAlbumUpdate {
        title: Some("  New Title ".to_string()),
        primary_artist: Some("   ".to_string()),
        search_album: None,
        search_artist: Some("Lookup".to_string()),
        refresh_artwork: false,
    };
    let updated = apply_manual_update(record, update, 2000);
    assert_eq!(updated.title, Some("New Title".to_string()));
    assert_eq!(updated.primary_artist, None);
    assert_eq!(updated.search_album, None);
    assert_eq!(updated.search_artist, Some("Lookup".to_string()));
    assert_eq!(updated.updated_at, 2000);
}

#[test]
fn lastfm_metadata_fields_are_cleaned() {
    let meta = AlbumMetadata::from_lastfm(
        Some("  a summary  ".to_string()),
        Some("   ".to_string()),
        None,
        vec!["  rock ".to_string(), "  ".to_string(), "opera".to_string()],
    );
    assert_eq!(meta.summary, Some("a summary".to_string()));
    assert_eq!(meta.url, None);
    assert_eq!(meta.release_date, None);
    assert_eq!(meta.tags, vec!["rock".to_string(), "opera".to_string()]);
    assert_eq!(meta.source, Some("lastfm".to_string()));
}

#[test]
fn artwork_selection_prefers_larger_sizes() {
    let entries = vec![
        ImageEntry { size: "small".to_string(), text: "http://small".to_string() },
        ImageEntry { size: "mega".to_string(), text: "   ".to_string() },
        ImageEntry { size: "large".to_string(), text: "http://large".to_string() },
    ];
    assert_eq!(extract_image_url(&entries), Some("http://large".to_string()));

    let none: Vec<ImageEntry> = vec![ImageEntry {
        size: "mega".to_string(),
        text: "  ".to_string(),
    }];
    assert_eq!(extract_image_url(&none), None);
    assert_eq!(extract_image_url(&Vec::new()), None);
}

#[test]
fn export_formats_compare() {
    assert_eq!(AlbumExportFormat::Json, AlbumExportFormat::Json);
    assert_ne!(AlbumExportFormat::Json, AlbumExportFormat::Yaml);
}

#[test]
fn aggregation_groups_tracks_by_album_identity() {
    let tracks = vec![
        sample_track("One", Some("Queen"), Some("Opera"), "/m/1.mp3"),
        sample_track("Two", Some("Queen feat. Guest"), Some("Opera (2016)"), "/m/2.mp3"),
        sample_track("Three", Some("Foo"), Some("Colour"), "/m/3.mp3"),
        sample_track("Four", None, None, "/m/4.mp3"),
        sample_track("Five", None, Some("   "), "/m/5.mp3"),
    ];
    let aggregates = aggregate_albums(&tracks);
    assert_eq!(aggregates.len(), 2);
    assert_eq!(aggregates[0].title, "Opera");
    assert_eq!(aggregates[0].track_count, 2);
    assert_eq!(aggregates[0].primary_artist, Some("Queen".to_string()));
    assert_eq!(
        aggregates[0].artists,
        vec!["Queen".to_string(), "Queen feat. Guest".to_string()]
    );
    assert_eq!(aggregates[0].first_track, 0);
    assert_eq!(aggregates[1].title, "Colour");
    assert_eq!(aggregates[1].track_count, 1);
}

#[test]
fn album_queries_match_title_or_artist() {
    let artists = vec!["Queen".to_string(), "Guest".to_string()];
    assert!(album_query_matches("A Night at the Opera", &artists, "opera"));
    assert!(album_query_matches("A Night at the Opera", &artists, "QUEEN"));
    assert!(!album_query_matches("A Night at the Opera", &artists, "zzz"));
}
