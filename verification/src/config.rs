//! Configuration sections and their defaults.  Reading and writing the
//! configuration file is I/O and lives with the embedding application;
//! paths are plain strings.

use vstd::prelude::*;

verus! {

/// Relies on dirs::home_dir: the user's home directory, when the
/// platform reports one.  The value depends on the environment, so
/// nothing is promised of it.
#[verifier::external_body]
fn home_dir_string() -> (r: Option<String>) {
    match dirs::home_dir() {
        Some(p) => Some(p.to_string_lossy().to_string()),
        None => None,
    }
}

/// Relies on dirs::config_dir: the user's configuration directory,
/// when the platform reports one.  The value depends on the
/// environment, so nothing is promised of it.
#[verifier::external_body]
fn config_dir_string() -> (r: Option<String>) {
    match dirs::config_dir() {
        Some(p) => Some(p.to_string_lossy().to_string()),
        None => None,
    }
}

/// Music library configuration
#[derive(Debug, Clone)]
pub struct LibraryConfig {
    /// Default music directories to scan
    pub music_directories: Vec<String>,
    /// Supported audio file extensions
    pub supported_extensions: Vec<String>,
    /// Auto-scan on startup
    pub auto_scan: bool,
    /// Scan interval in seconds (0 = disabled)
    pub scan_interval: u64,
}

impl Default for LibraryConfig {
    /// One music directory under the user's home, the common audio
    /// extensions, automatic scanning every five minutes.
    fn default() -> (r: Self)
        ensures
            r.music_directories@.len() == 1,
            crate::text::views_of_strings(r.supported_extensions@) == seq![
                "mp3"@,
                "flac"@,
                "ogg"@,
                "wav"@,
                "m4a"@,
            ],
            r.auto_scan == true,
            r.scan_interval == 300,
    {
        let home = match home_dir_string() {
            Some(h) => h,
            None => {
                let mut f = String::new();
                f.append("~");
                f
            },
        };
        let mut music = home;
        music.append("/Music");
        let mut music_directories: Vec<String> = Vec::new();
        music_directories.push(music);
        let mut supported_extensions: Vec<String> = Vec::new();
        supported_extensions.push(lit("mp3"));
        supported_extensions.push(lit("flac"));
        supported_extensions.push(lit("ogg"));
        supported_extensions.push(lit("wav"));
        supported_extensions.push(lit("m4a"));
        proof {
            assert(crate::text::views_of_strings(supported_extensions@) =~= seq![
                "mp3"@,
                "flac"@,
                "ogg"@,
                "wav"@,
                "m4a"@,
            ]);
        }
        LibraryConfig { music_directories, supported_extensions, auto_scan: true, scan_interval: 300 }
    }
}

/// A fresh owned copy of a literal.
fn lit(s: &str) -> (r: String)
    ensures
        r@ == s@,
{
    let mut r = String::new();
    r.append(s);
    r
}

/// GUI configuration
#[derive(Debug)]
pub struct GuiConfig {
    /// Theme (light, dark, auto)
    pub theme: String,
    /// Window size
    pub window_size: (u32, u32),
    /// Window position
    pub window_position: Option<(i32, i32)>,
    /// Show file extensions
    pub show_file_extensions: bool,
}

impl Default for GuiConfig {
    /// Automatic theme, a 1200 by 800 window with no pinned position,
    /// extensions hidden.
    fn default() -> (r: Self)
        ensures
            r.theme@ == "auto"@,
            r.window_size == (1200u32, 800u32),
            r.window_position is None,
            r.show_file_extensions == false,
    {
        GuiConfig {
            theme: lit("auto"),
            window_size: (1200, 800),
            window_position: None,
            show_file_extensions: false,
        }
    }
}

/// Playlist configuration
#[derive(Debug, Clone)]
pub struct PlaylistConfig {
    /// Default playlist directory
    pub playlist_directory: String,
    /// Auto-save playlists
    pub auto_save: bool,
    /// Max playlist history
    pub max_history: usize,
}

impl Default for PlaylistConfig {
    /// Playlists under the user's configuration directory, saved
    /// automatically, a history of one hundred.
    fn default() -> (r: Self)
        ensures
            r.auto_save == true,
            r.max_history == 100,
    {
        let base = match config_dir_string() {
            Some(c) => c,
            None => lit("~/.config"),
        };
        let mut playlist_directory = base;
        playlist_directory.append("/hexendrum/playlists");
        PlaylistConfig { playlist_directory, auto_save: true, max_history: 100 }
    }
}

/// Last.fm API credentials
#[derive(Debug, Clone)]
pub struct LastFmConfig {
    /// Public API key
    pub api_key: String,
    /// Shared secret
    pub shared_secret: String,
}

impl Default for LastFmConfig {
    /// No credentials.
    fn default() -> (r: Self)
        ensures
            r.api_key@.len() == 0,
            r.shared_secret@.len() == 0,
    {
        LastFmConfig { api_key: String::new(), shared_secret: String::new() }
    }
}

/// Third-party services configuration
#[derive(Debug, Clone)]
pub struct ServicesConfig {
    /// Last.fm integration settings
    pub lastfm: LastFmConfig,
}

impl Default for ServicesConfig {
    /// Default service settings: empty last.fm credentials.
    fn default() -> (r: Self)
        ensures
            r.lastfm.api_key@.len() == 0,
            r.lastfm.shared_secret@.len() == 0,
    {
        ServicesConfig { lastfm: LastFmConfig::default() }
    }
}

} // verus!
