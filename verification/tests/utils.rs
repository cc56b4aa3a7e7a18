use hexendrum::utils::{
    capitalize_first, format_duration, format_duration_seconds, format_file_size, format_seconds,
    get_file_extension, get_file_name_without_extension, get_relative_path, is_audio_file,
    parse_time_string, sanitize_filename, time_ago, to_title_case, truncate_string, truncate_title,
};
use hexendrum::{APP_NAME, VERSION};

#[test]
fn test_app_constants() {
    assert_eq!(APP_NAME, "Hexendrum");
    assert!(!VERSION.is_empty());
}

#[test]
fn test_format_duration() {
    assert_eq!(format_duration(65), "01:05");
    assert_eq!(format_duration(3661), "61:01");
}

#[test]
fn test_format_duration_seconds() {
    assert_eq!(format_duration_seconds(65), "01:05");
    assert_eq!(format_duration_seconds(3661), "61:01");
}

#[test]
fn test_format_file_size() {
    assert_eq!(format_file_size(1024), "1.0 KB");
    assert_eq!(format_file_size(1048576), "1.0 MB");
    assert_eq!(format_file_size(1073741824), "1.0 GB");
}

#[test]
fn test_sanitize_filename() {
    assert_eq!(sanitize_filename("file name.txt"), "file name.txt");
    assert_eq!(sanitize_filename("file/name.txt"), "file_name.txt");
    assert_eq!(sanitize_filename("file*name.txt"), "file_name.txt");
}

#[test]
fn test_parse_time_string() {
    assert_eq!(parse_time_string("1:30"), Some(90));
    assert_eq!(parse_time_string("1:30:45"), Some(5445));
    assert_eq!(parse_time_string("invalid"), None);
}

#[test]
fn test_truncate_string() {
    assert_eq!(truncate_string("Hello World", 8), "Hello...");
    assert_eq!(truncate_string("Short", 10), "Short");
}

#[test]
fn test_capitalize_first() {
    assert_eq!(capitalize_first("hello"), "Hello");
    assert_eq!(capitalize_first(""), "");
}

#[test]
fn test_to_title_case() {
    assert_eq!(to_title_case("hello world"), "Hello World");
    assert_eq!(to_title_case(""), "");
}

#[test]
fn format_file_size_small_and_fractional() {
    assert_eq!(format_file_size(0), "0 B");
    assert_eq!(format_file_size(1023), "1023 B");
    assert_eq!(format_file_size(1536), "1.5 KB");
    assert_eq!(format_file_size(1126), "1.1 KB");
}

#[test]
fn format_seconds_has_no_minute_padding() {
    assert_eq!(format_seconds(65), "1:05");
    assert_eq!(format_seconds(9), "0:09");
}

#[test]
fn extension_is_extracted_and_lowercased() {
    assert_eq!(get_file_extension("/music/Song.MP3"), Some("mp3".to_string()));
    assert_eq!(get_file_extension("/music/song.flac"), Some("flac".to_string()));
    assert_eq!(get_file_extension("/music/noext"), None);
    assert_eq!(get_file_extension("/music/.hidden"), None);
}

#[test]
fn audio_files_are_recognized_case_insensitively() {
    assert!(is_audio_file("/a/b/song.mp3"));
    assert!(is_audio_file("/a/b/SONG.FLAC"));
    assert!(is_audio_file("track.opus"));
    assert!(!is_audio_file("/a/b/readme.txt"));
    assert!(!is_audio_file("/a/b/noext"));
}

#[test]
fn relative_paths_strip_the_base_directory() {
    assert_eq!(
        get_relative_path("/music/rock/song.mp3", "/music"),
        Some("rock/song.mp3".to_string())
    );
    assert_eq!(
        get_relative_path("/music/rock/song.mp3", "/music/"),
        Some("rock/song.mp3".to_string())
    );
    assert_eq!(get_relative_path("/music", "/music"), Some(String::new()));
    assert_eq!(get_relative_path("/musical/song.mp3", "/music"), None);
    assert_eq!(get_relative_path("/other/song.mp3", "/music"), None);
}

#[test]
fn file_stem_drops_only_the_extension() {
    assert_eq!(
        get_file_name_without_extension("/music/song.mp3"),
        Some("song".to_string())
    );
    assert_eq!(
        get_file_name_without_extension("/music/.hidden"),
        Some(".hidden".to_string())
    );
    assert_eq!(get_file_name_without_extension("/music/"), None);
}

#[test]
fn parse_time_string_rejects_malformed_fields() {
    assert_eq!(parse_time_string(""), None);
    assert_eq!(parse_time_string("1:2:3:4"), None);
    assert_eq!(parse_time_string("1:xx"), None);
    assert_eq!(parse_time_string("0:00"), Some(0));
}

#[test]
fn truncate_title_uses_a_single_ellipsis() {
    assert_eq!(truncate_title("A Rather Long Title", 8), "A Rathe…");
    assert_eq!(truncate_title("Short", 10), "Short");
    assert_eq!(truncate_title("", 4), "");
}

#[test]
fn time_ago_picks_the_right_bucket() {
    let now = 1_700_000_000i64;
    assert_eq!(time_ago(now - 10, now), "Just now");
    assert_eq!(time_ago(now - 120, now), "2 minutes ago");
    assert_eq!(time_ago(now - 7200, now), "2 hours ago");
    assert_eq!(time_ago(now - 3 * 86400, now), "3 days ago");
    assert_eq!(time_ago(now - 2 * 604800, now), "2 weeks ago");
    assert_eq!(time_ago(now - 40 * 86400, now), "1 months ago");
    assert_eq!(time_ago(now - 800 * 86400, now), "2 years ago");
}
