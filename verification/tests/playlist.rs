use hexendrum::library::{Library, TagFields, Track, TrackMetadata};
use hexendrum::playlist::{PlaybackQueue, Playlist, PlaylistError, PlaylistManager, RepeatMode};

fn track(title: &str, path: &str) -> Track {
    let metadata = TrackMetadata::from_parts(
        TagFields {
            title: Some(title.to_string()),
            artist: None,
            album: None,
            track_number: None,
            year: None,
            genre: None,
        },
        Some(100),
        1024,
        1_700_000_000,
        path.to_string(),
    );
    Track::new(metadata)
}

#[test]
fn playback_queue_operations_cover_all_branches() {
    let mut queue = PlaybackQueue::new();
    assert!(queue.is_empty());

    let tracks = vec!["a".to_string(), "b".to_string(), "c".to_string()];
    queue.add_tracks(&tracks);
    assert_eq!(queue.len(), 3);

    assert_eq!(queue.next_track(), Some("a".into()));
    assert_eq!(queue.next_track(), Some("b".into()));
    assert_eq!(queue.previous_track(), Some("a".into()));

    queue.set_repeat_mode(RepeatMode::All);
    assert_eq!(queue.get_repeat_mode(), RepeatMode::All);
    assert_eq!(queue.previous_track(), Some("c".into()));

    queue.toggle_shuffle();
    assert!(queue.is_shuffle_enabled());
    queue.toggle_shuffle();
    assert!(!queue.is_shuffle_enabled());

    queue.clear();
    assert!(queue.is_empty());
    assert!(queue.next_track().is_none());
}

#[test]
fn queue_wraps_forward_only_when_repeating_all() {
    let mut queue = PlaybackQueue::new();
    queue.add_tracks(&vec!["a".to_string(), "b".to_string()]);
    assert_eq!(queue.next_track(), Some("a".to_string()));
    assert_eq!(queue.next_track(), Some("b".to_string()));
    assert_eq!(queue.next_track(), None);
    assert_eq!(queue.current_track(), Some("b".to_string()));
    queue.set_repeat_mode(RepeatMode::All);
    assert_eq!(queue.next_track(), Some("a".to_string()));
    assert_eq!(queue.current_track(), Some("a".to_string()));
    assert_eq!(queue.previous_track(), Some("b".to_string()));
}

#[test]
fn playlists_hold_and_reorder_entries() {
    let a = track("One", "/m/a.mp3");
    let b = track("Two", "/m/b.mp3");
    let mut playlist = Playlist::new("Mix".to_string(), Some("desc".to_string()));
    assert_eq!(playlist.name, "Mix");
    assert!(playlist.is_empty());

    playlist.add_track(&a);
    playlist.add_track(&b);
    assert_eq!(playlist.track_count(), 2);
    assert_eq!(playlist.entries[0].track_id, a.id);

    assert!(playlist.move_track_up(1));
    assert_eq!(playlist.entries[0].track_id, b.id);
    assert!(!playlist.move_track_up(0));
    assert!(playlist.move_track_down(0));
    assert_eq!(playlist.entries[0].track_id, a.id);
    assert!(!playlist.move_track_down(1));

    playlist.mark_track_played(&a.id);
    assert_eq!(playlist.entries[0].play_count, 1);
    assert!(playlist.entries[0].last_played.is_some());

    assert!(playlist.remove_track(&b.id));
    assert!(!playlist.remove_track(&b.id));
    assert_eq!(playlist.track_count(), 1);

    playlist.clear();
    assert!(playlist.is_empty());
}

#[test]
fn playlist_durations_sum_known_tracks() {
    let a = track("One", "/m/a.mp3");
    let b = track("Two", "/m/b.mp3");
    let mut library = Library::new();
    library.add_track(a.clone());
    let mut playlist = Playlist::new("Mix".to_string(), None);
    playlist.add_track(&a);
    playlist.add_track(&b);
    // only the track the library knows contributes
    assert_eq!(playlist.total_duration(&library), 100);
}

#[test]
fn manager_creates_updates_and_deletes_playlists() {
    let mut manager = PlaylistManager::new("/tmp/playlists".to_string());
    let id = manager.create_playlist("Mix".to_string(), Some("Great".to_string()));
    assert_eq!(manager.get_playlists().len(), 1);

    let mut playlist = manager.get_playlist(&id).expect("playlist should exist");
    assert_eq!(playlist.name, "Mix");
    let a = track("One", "/m/a.mp3");
    playlist.add_track(&a);
    assert!(manager.update_playlist(playlist.clone()));
    assert_eq!(manager.get_playlist(&id).unwrap().track_count(), 1);

    let stranger = Playlist::new("Other".to_string(), None);
    assert!(!manager.update_playlist(stranger));

    manager.set_current_playlist(Some(id.clone()));
    assert_eq!(manager.get_current_playlist().as_deref(), Some(id.as_str()));
    manager.set_current_playlist(None);
    assert!(manager.get_current_playlist().is_none());

    manager.set_current_playlist(Some(id.clone()));
    assert!(manager.delete_playlist(&id));
    assert!(manager.get_playlist(&id).is_none());
    assert!(manager.get_current_playlist().is_none());
    assert!(!manager.delete_playlist(&id));
}

#[test]
fn cleanup_drops_entries_for_missing_tracks() {
    let kept = track("Kept", "/m/kept.mp3");
    let missing = track("Missing", "/m/missing.mp3");
    let mut library = Library::new();
    library.add_track(kept.clone());

    let mut manager = PlaylistManager::new("/tmp/playlists".to_string());
    let id = manager.create_playlist("Mix".to_string(), None);
    let mut playlist = manager.get_playlist(&id).unwrap();
    playlist.add_track(&kept);
    playlist.add_track(&missing);
    assert!(manager.update_playlist(playlist));

    let removed = manager.cleanup_playlist(&id, &library).expect("playlist exists");
    assert_eq!(removed, 1);
    assert_eq!(manager.get_playlist(&id).unwrap().track_count(), 1);

    let removed_again = manager.cleanup_missing_tracks(&library);
    assert_eq!(removed_again, 0);

    let err = manager.cleanup_playlist("missing-playlist", &library);
    assert!(matches!(err, Err(PlaylistError::NotFound(_))));
}
