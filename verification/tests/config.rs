use hexendrum::config::{
    GuiConfig, LastFmConfig, LibraryConfig, PlaylistConfig, ServicesConfig,
};

#[test]
fn library_defaults_scan_a_music_directory() {
    let config = LibraryConfig::default();
    assert_eq!(config.music_directories.len(), 1);
    assert!(config.music_directories[0].ends_with("/Music"));
    assert_eq!(
        config.supported_extensions,
        vec![
            "mp3".to_string(),
            "flac".to_string(),
            "ogg".to_string(),
            "wav".to_string(),
            "m4a".to_string()
        ]
    );
    assert!(config.auto_scan);
    assert_eq!(config.scan_interval, 300);
}

#[test]
fn gui_defaults_use_the_automatic_theme() {
    let config = GuiConfig::default();
    assert_eq!(config.theme, "auto");
    assert_eq!(config.window_size, (1200, 800));
    assert!(config.window_position.is_none());
    assert!(!config.show_file_extensions);
}

#[test]
fn playlist_defaults_point_into_the_config_directory() {
    let config = PlaylistConfig::default();
    assert!(config.playlist_directory.ends_with("/hexendrum/playlists"));
    assert!(config.auto_save);
    assert_eq!(config.max_history, 100);
}

#[test]
fn service_defaults_have_no_credentials() {
    let services = ServicesConfig::default();
    assert!(services.lastfm.api_key.is_empty());
    assert!(services.lastfm.shared_secret.is_empty());
    let lastfm = LastFmConfig::default();
    assert!(lastfm.api_key.is_empty());
    assert!(lastfm.shared_secret.is_empty());
}
