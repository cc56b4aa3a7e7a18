//! Small utilities: duration and size formatting, file-path helpers,
//! filename sanitizing, time parsing and string shaping.
//!
//! Paths are handled as plain strings, with `'/'` as the separator; a
//! file name is what follows the last separator, and an extension is
//! what follows the last dot of a file name when that dot is neither
//! first nor absent.

use vstd::prelude::*;

use crate::text::{
    char_is_alphanumeric, char_is_whitespace, char_upper_first, chars_eq_str, dec_str,
    dec_str_pad2, digit_char, digit_char_exec, find_last_char, is_alnum, is_space, last_index,
    lemma_last_index_bounds, lower_of, opt_view, parse_u64_chars, parse_u64_ok, push_char,
    split_char_chars, split_char_spec, split_ws_chars, split_ws_spec, str_chars, string_from_chars,
    subrange_chars, to_lowercase, u64_to_string, u64_to_string_pad2, views_of_vecs, dec_value, digit_body, join_spec, join_chars, capitalize_spec,
};

verus! {

/// Format a duration of whole seconds as MM:SS, both fields zero-padded
/// to two digits, the minutes field growing as needed.
pub open spec fn format_mm_ss(total_seconds: int) -> Seq<char> {
    dec_str_pad2(total_seconds / 60) + seq![':'] + dec_str_pad2(total_seconds % 60)
}

/// Format duration as MM:SS
pub fn format_duration(seconds: u64) -> (r: String)
    ensures
        r@ == format_mm_ss(seconds as int),
{
    let minutes = seconds / 60;
    let secs = seconds % 60;
    let mut r = u64_to_string_pad2(minutes);
    push_char(&mut r, ':');
    let tail = u64_to_string_pad2(secs);
    r.append(tail.as_str());
    proof {
        assert(dec_str_pad2(seconds as int / 60).push(':') + dec_str_pad2(seconds as int % 60)
            =~= format_mm_ss(seconds as int));
    }
    r
}

/// Format duration in seconds as MM:SS
pub fn format_duration_seconds(seconds: u64) -> (r: String)
    ensures
        r@ == format_mm_ss(seconds as int),
{
    format_duration(seconds)
}

/// Format a duration of whole seconds as M:SS, only the seconds field
/// zero-padded.
pub open spec fn format_m_ss(total_seconds: int) -> Seq<char> {
    dec_str(total_seconds / 60) + seq![':'] + dec_str_pad2(total_seconds % 60)
}

/// Format seconds as M:SS for the playback bar.
pub fn format_seconds(seconds: u64) -> (r: String)
    ensures
        r@ == format_m_ss(seconds as int),
{
    let minutes = seconds / 60;
    let secs = seconds % 60;
    let mut r = u64_to_string(minutes);
    push_char(&mut r, ':');
    let tail = u64_to_string_pad2(secs);
    r.append(tail.as_str());
    proof {
        assert(dec_str(seconds as int / 60).push(':') + dec_str_pad2(seconds as int % 60)
            =~= format_m_ss(seconds as int));
    }
    r
}

pub const BYTES_PER_KB: u64 = 1024;

pub const BYTES_PER_MB: u64 = 1048576;

pub const BYTES_PER_GB: u64 = 1073741824;

/// The whole part and the rounded-to-nearest tenth of `bytes / unit`.
pub open spec fn size_scaled(bytes: int, unit: int) -> (int, int) {
    let whole = bytes / unit;
    let tenth = ((bytes % unit) * 10 + unit / 2) / unit;
    if tenth == 10 {
        (whole + 1, 0)
    } else {
        (whole, tenth)
    }
}

/// The human-readable rendering of a byte count: whole bytes below one
/// kilobyte, otherwise one decimal place of the next unit down.
pub open spec fn format_size_spec(bytes: int) -> Seq<char> {
    if bytes < BYTES_PER_KB {
        dec_str(bytes) + " B"@
    } else if bytes < BYTES_PER_MB {
        scaled_digits(bytes, BYTES_PER_KB as int) + " KB"@
    } else if bytes < BYTES_PER_GB {
        scaled_digits(bytes, BYTES_PER_MB as int) + " MB"@
    } else {
        scaled_digits(bytes, BYTES_PER_GB as int) + " GB"@
    }
}

/// The digits `whole.tenth` of a scaled size.
pub open spec fn scaled_digits(bytes: int, unit: int) -> Seq<char> {
    let (whole, tenth) = size_scaled(bytes, unit);
    dec_str(whole) + seq!['.'] + seq![digit_char(tenth)]
}

fn format_scaled(bytes: u64, unit: u64) -> (r: String)
    requires
        1024 <= unit <= 1073741824,
    ensures
        r@ == scaled_digits(bytes as int, unit as int),
{
    let whole = bytes / unit;
    let rem = bytes % unit;
    let tenth = (rem * 10 + unit / 2) / unit;
    proof {
        assert(rem * 10 + unit / 2 < unit * 11) by {
            assert(unit / 2 <= unit);
        };
        vstd::arithmetic::div_mod::lemma_multiply_divide_lt(
            rem * 10 + unit / 2,
            unit as int,
            11,
        );
        vstd::arithmetic::div_mod::lemma_div_is_ordered_by_denominator(
            bytes as int,
            1024,
            unit as int,
        );
        vstd::arithmetic::div_mod::lemma_div_is_ordered(bytes as int, u64::MAX as int, 1024);
    }
    let (whole, tenth) = if tenth == 10 {
        (whole + 1, 0u64)
    } else {
        (whole, tenth)
    };
    let mut r = u64_to_string(whole);
    push_char(&mut r, '.');
    push_char(&mut r, digit_char_exec(tenth));
    proof {
        assert(dec_str(size_scaled(bytes as int, unit as int).0).push('.').push(
            digit_char(size_scaled(bytes as int, unit as int).1),
        ) =~= scaled_digits(bytes as int, unit as int));
    }
    r
}

/// Format file size in human readable format
pub fn format_file_size(bytes: u64) -> (r: String)
    ensures
        r@ == format_size_spec(bytes as int),
{
    if bytes < BYTES_PER_KB {
        let mut r = u64_to_string(bytes);
        r.append(" B");
        r
    } else if bytes < BYTES_PER_MB {
        let mut r = format_scaled(bytes, BYTES_PER_KB);
        r.append(" KB");
        r
    } else if bytes < BYTES_PER_GB {
        let mut r = format_scaled(bytes, BYTES_PER_MB);
        r.append(" MB");
        r
    } else {
        let mut r = format_scaled(bytes, BYTES_PER_GB);
        r.append(" GB");
        r
    }
}

/// The file-name portion of a path: everything after the last `'/'`.
pub open spec fn file_name_spec(path: Seq<char>) -> Seq<char> {
    path.skip(last_index(path, '/') + 1)
}

/// The extension of a file name: what follows the last dot, absent when
/// there is no dot or the only dot is the leading character.
pub open spec fn extension_spec(name: Seq<char>) -> Option<Seq<char>> {
    let d = last_index(name, '.');
    if d <= 0 {
        None
    } else {
        Some(name.skip(d + 1))
    }
}

/// The lowercased extension of a path.
pub open spec fn lower_extension_spec(path: Seq<char>) -> Option<Seq<char>> {
    match extension_spec(file_name_spec(path)) {
        Some(e) => Some(lower_of(e)),
        None => None,
    }
}

fn file_name_chars(path: &Vec<char>) -> (r: Vec<char>)
    ensures
        r@ == file_name_spec(path@),
{
    proof {
        lemma_last_index_bounds(path@, '/');
    }
    match find_last_char(path, '/') {
        Some(i) => {
            let n = path.len();
            let r = subrange_chars(path, i + 1, n);
            proof {
                assert(path@.subrange(i + 1, path@.len() as int) =~= path@.skip(i + 1));
            }
            r
        },
        None => {
            let r = subrange_chars(path, 0, path.len());
            proof {
                assert(path@.subrange(0, path@.len() as int) =~= path@.skip(0));
            }
            r
        },
    }
}

/// Get file extension from path
pub fn get_file_extension(path: &str) -> (r: Option<String>)
    ensures
        opt_view(r) == lower_extension_spec(path@),
{
    let pv = str_chars(path);
    let name = file_name_chars(&pv);
    proof {
        lemma_last_index_bounds(name@, '.');
    }
    match find_last_char(&name, '.') {
        Some(d) => {
            if d == 0 {
                None
            } else {
                let ext = subrange_chars(&name, d + 1, name.len());
                proof {
                    assert(name@.subrange(d + 1, name@.len() as int) =~= name@.skip(d + 1));
                }
                let ext_str = string_from_chars(&ext);
                Some(to_lowercase(ext_str.as_str()))
            }
        },
        None => None,
    }
}

/// Whether a lowercased extension names an audio format the library
/// accepts.
pub open spec fn is_audio_ext(e: Seq<char>) -> bool {
    ||| e == "mp3"@
    ||| e == "flac"@
    ||| e == "ogg"@
    ||| e == "wav"@
    ||| e == "m4a"@
    ||| e == "aac"@
    ||| e == "opus"@
}

/// Whether a lowercased extension is accepted.  Public so that a caller
/// holding an extension from elsewhere reaches the same rule.
pub fn audio_ext_accepted(e: &str) -> (r: bool)
    ensures
        r == is_audio_ext(e@),
{
    let ev = str_chars(e);
    chars_eq_str(&ev, "mp3") || chars_eq_str(&ev, "flac") || chars_eq_str(&ev, "ogg")
        || chars_eq_str(&ev, "wav") || chars_eq_str(&ev, "m4a") || chars_eq_str(&ev, "aac")
        || chars_eq_str(&ev, "opus")
}

/// Check if a file is an audio file
pub fn is_audio_file(path: &str) -> (r: bool)
    ensures
        r == match lower_extension_spec(path@) {
            Some(e) => is_audio_ext(e),
            None => false,
        },
{
    match get_file_extension(path) {
        Some(ext) => audio_ext_accepted(ext.as_str()),
        None => false,
    }
}

/// The path relative to a base directory: defined when the base, ending
/// at a separator boundary, is a prefix of the path.
pub open spec fn relative_path_spec(path: Seq<char>, base: Seq<char>) -> Option<Seq<char>> {
    if path == base {
        Some(Seq::<char>::empty())
    } else if base.len() < path.len() && path.take(base.len() as int) == base {
        if base.len() > 0 && base.last() == '/' {
            Some(path.skip(base.len() as int))
        } else if path[base.len() as int] == '/' {
            Some(path.skip(base.len() + 1 as int))
        } else {
            None
        }
    } else {
        None
    }
}

/// Get relative path from base directory
pub fn get_relative_path(path: &str, base: &str) -> (r: Option<String>)
    ensures
        opt_view(r) == relative_path_spec(path@, base@),
{
    let pv = str_chars(path);
    let bv = str_chars(base);
    if pv.len() == bv.len() {
        let mut k: usize = 0;
        while k < pv.len() && k < bv.len()
            invariant
                pv@ == path@,
                bv@ == base@,
                pv@.len() == bv@.len(),
                k <= pv@.len(),
                k <= bv@.len(),
                forall|j: int| 0 <= j < k ==> pv@[j] == bv@[j],
            decreases pv@.len() - k,
        {
            if pv[k] != bv[k] {
                proof {
                    assert(pv@ != bv@);
                    assert(!(pv@.len() < pv@.len()));
                }
                return None;
            }
            k = k + 1;
        }
        proof {
            assert(pv@ =~= bv@);
        }
        Some(String::new())
    } else if bv.len() < pv.len() {
        let mut k: usize = 0;
        while k < bv.len()
            invariant
                pv@ == path@,
                bv@ == base@,
                bv@.len() < pv@.len(),
                k <= bv@.len(),
                forall|j: int| 0 <= j < k ==> pv@[j] == bv@[j],
            decreases bv@.len() - k,
        {
            if pv[k] != bv[k] {
                proof {
                    assert(pv@.take(bv@.len() as int)[k as int] == pv@[k as int]);
                    assert(pv@.take(bv@.len() as int) != bv@);
                }
                return None;
            }
            k = k + 1;
        }
        proof {
            assert(pv@.take(bv@.len() as int) =~= bv@);
        }
        if bv.len() > 0 && bv[bv.len() - 1] == '/' {
            let rest = subrange_chars(&pv, bv.len(), pv.len());
            proof {
                assert(pv@.subrange(bv@.len() as int, pv@.len() as int) =~= pv@.skip(
                    bv@.len() as int,
                ));
            }
            Some(string_from_chars(&rest))
        } else if pv[bv.len()] == '/' {
            let rest = subrange_chars(&pv, bv.len() + 1, pv.len());
            proof {
                assert(pv@.subrange(bv@.len() + 1 as int, pv@.len() as int) =~= pv@.skip(bv@.len() + 1 as int));
            }
            Some(string_from_chars(&rest))
        } else {
            None
        }
    } else {
        proof {
            assert(pv@.len() != bv@.len());
            assert(pv@ != bv@);
        }
        None
    }
}

/// The file name without its extension, absent for an empty file name.
pub open spec fn file_stem_spec(path: Seq<char>) -> Option<Seq<char>> {
    let name = file_name_spec(path);
    if name.len() == 0 {
        None
    } else {
        let d = last_index(name, '.');
        if d <= 0 {
            Some(name)
        } else {
            Some(name.take(d))
        }
    }
}

/// Get file name without extension
pub fn get_file_name_without_extension(path: &str) -> (r: Option<String>)
    ensures
        opt_view(r) == file_stem_spec(path@),
{
    let pv = str_chars(path);
    let name = file_name_chars(&pv);
    if name.len() == 0 {
        return None;
    }
    proof {
        lemma_last_index_bounds(name@, '.');
    }
    match find_last_char(&name, '.') {
        Some(d) => {
            if d == 0 {
                Some(string_from_chars(&name))
            } else {
                let stem = subrange_chars(&name, 0, d);
                proof {
                    assert(name@.subrange(0, d as int) =~= name@.take(d as int));
                }
                Some(string_from_chars(&stem))
            }
        },
        None => Some(string_from_chars(&name)),
    }
}

/// How one character of a file name is sanitized: alphanumeric
/// characters, whitespace, dots, underscores and hyphens are kept,
/// anything else becomes an underscore.
pub open spec fn sanitize_char(c: char) -> char {
    if is_alnum(c) || is_space(c) || c == '.' || c == '_' || c == '-' {
        c
    } else {
        '_'
    }
}

/// The sanitized form of a file name.
pub open spec fn sanitize_spec(s: Seq<char>) -> Seq<char> {
    s.map_values(|c: char| sanitize_char(c))
}

/// Sanitize filename for safe storage
pub fn sanitize_filename(filename: &str) -> (r: String)
    ensures
        r@ == sanitize_spec(filename@),
{
    let v = str_chars(filename);
    let mut out: Vec<char> = Vec::new();
    let mut i: usize = 0;
    while i < v.len()
        invariant
            v@ == filename@,
            i <= v@.len(),
            out@ == sanitize_spec(filename@).take(i as int),
        decreases v@.len() - i,
    {
        let c = v[i];
        let keep = char_is_alphanumeric(c) || char_is_whitespace(c) || c == '.' || c == '_' || c
            == '-';
        if keep {
            out.push(c);
        } else {
            out.push('_');
        }
        proof {
            assert(sanitize_spec(filename@).take(i + 1) =~= sanitize_spec(filename@).take(
                i as int,
            ).push(sanitize_char(filename@[i as int])));
        }
        i = i + 1;
    }
    proof {
        assert(sanitize_spec(filename@).take(v@.len() as int) =~= sanitize_spec(filename@));
    }
    string_from_chars(&out)
}

/// What parsing a clock string yields: MM:SS or HH:MM:SS, each field a
/// decimal number, the total in seconds.  Absent when the shape or a
/// field is malformed.
pub open spec fn parse_time_spec(s: Seq<char>) -> Option<int> {
    let parts = split_char_spec(s, ':');
    if parts.len() == 2 {
        if parse_u64_ok(parts[0]) && parse_u64_ok(parts[1]) {
            Some(dec_value(digit_body(parts[0])) * 60 + dec_value(digit_body(parts[1])))
        } else {
            None
        }
    } else if parts.len() == 3 {
        if parse_u64_ok(parts[0]) && parse_u64_ok(parts[1]) && parse_u64_ok(parts[2]) {
            Some(
                dec_value(digit_body(parts[0])) * 3600 + dec_value(digit_body(parts[1])) * 60
                    + dec_value(digit_body(parts[2])),
            )
        } else {
            None
        }
    } else {
        None
    }
}

/// Parse time string in format MM:SS or HH:MM:SS into whole seconds.
/// A total beyond the range of the result type is reported as absent
/// rather than wrapping.
pub fn parse_time_string(time_str: &str) -> (r: Option<u64>)
    ensures
        match parse_time_spec(time_str@) {
            Some(total) => if total <= u64::MAX {
                r == Some(total as u64)
            } else {
                r is None
            },
            None => r is None,
        },
{
    let v = str_chars(time_str);
    let parts = split_char_chars(&v, ':');
    let ghost sparts = split_char_spec(time_str@, ':');
    if parts.len() == 2 {
        proof {
            assert(sparts[0] == parts@[0]@);
            assert(sparts[1] == parts@[1]@);
        }
        let m = parse_u64_chars(&parts[0]);
        let s = parse_u64_chars(&parts[1]);
        match (m, s) {
            (Some(minutes), Some(seconds)) => {
                if minutes > (u64::MAX - seconds) / 60 {
                    return None;
                }
                Some(minutes * 60 + seconds)
            },
            _ => None,
        }
    } else if parts.len() == 3 {
        proof {
            assert(sparts[0] == parts@[0]@);
            assert(sparts[1] == parts@[1]@);
            assert(sparts[2] == parts@[2]@);
        }
        let h = parse_u64_chars(&parts[0]);
        let m = parse_u64_chars(&parts[1]);
        let s = parse_u64_chars(&parts[2]);
        match (h, m, s) {
            (Some(hours), Some(minutes), Some(seconds)) => {
                if minutes > (u64::MAX - seconds) / 60 {
                    return None;
                }
                let rest = minutes * 60 + seconds;
                if hours > (u64::MAX - rest) / 3600 {
                    return None;
                }
                Some(hours * 3600 + rest)
            },
            _ => None,
        }
    } else {
        None
    }
}

/// Truncate a string to at most `max_length` characters, replacing the
/// cut tail with an ellipsis of three dots.
pub open spec fn truncate_spec(s: Seq<char>, max_length: int) -> Seq<char> {
    if s.len() <= max_length {
        s
    } else {
        s.take(max_length - 3) + "..."@
    }
}

/// Truncate string to specified length with ellipsis
pub fn truncate_string(s: &str, max_length: usize) -> (r: String)
    requires
        max_length >= 3,
    ensures
        r@ == truncate_spec(s@, max_length as int),
{
    let v = str_chars(s);
    if v.len() <= max_length {
        let mut r = String::new();
        r.append(s);
        r
    } else {
        let head = subrange_chars(&v, 0, max_length - 3);
        proof {
            assert(v@.subrange(0, max_length - 3) =~= v@.take(max_length - 3));
        }
        let mut r = string_from_chars(&head);
        r.append("...");
        r
    }
}

/// Capitalize first letter of string
pub fn capitalize_first(s: &str) -> (r: String)
    ensures
        r@ == capitalize_spec(s@),
{
    let v = str_chars(s);
    if v.len() == 0 {
        String::new()
    } else {
        let mut out: Vec<char> = Vec::new();
        out.push(char_upper_first(v[0]));
        let rest = subrange_chars(&v, 1, v.len());
        out.extend_from_slice(rest.as_slice());
        proof {
            assert(v@.subrange(1, v@.len() as int) =~= v@.skip(1));
            assert(out@ =~= capitalize_spec(s@));
        }
        string_from_chars(&out)
    }
}

/// The title-cased form of a string: each whitespace-separated word
/// with its first letter uppercased, joined by single spaces.
pub open spec fn title_case_spec(s: Seq<char>) -> Seq<char> {
    join_spec(split_ws_spec(s).map_values(|w: Seq<char>| capitalize_spec(w)), seq![' '])
}

/// Convert string to title case
pub fn to_title_case(s: &str) -> (r: String)
    ensures
        r@ == title_case_spec(s@),
{
    let v = str_chars(s);
    let words = split_ws_chars(&v);
    let ghost wviews = split_ws_spec(s@);
    let mut capped: Vec<Vec<char>> = Vec::new();
    let mut i: usize = 0;
    while i < words.len()
        invariant
            views_of_vecs(words@) == wviews,
            i <= words@.len(),
            views_of_vecs(capped@) == wviews.map_values(|w: Seq<char>| capitalize_spec(w)).take(
                i as int,
            ),
        decreases words@.len() - i,
    {
        let w = &words[i];
        let mut cw: Vec<char> = Vec::new();
        if w.len() > 0 {
            cw.push(char_upper_first(w[0]));
            let rest = subrange_chars(w, 1, w.len());
            cw.extend_from_slice(rest.as_slice());
        }
        proof {
            assert(w@ == wviews[i as int]);
            assert(w@.subrange(1, w@.len() as int) =~= w@.skip(1));
            assert(cw@ =~= capitalize_spec(wviews[i as int]));
            assert(views_of_vecs(capped@.push(cw)) =~= views_of_vecs(capped@).push(cw@));
            assert(wviews.map_values(|w: Seq<char>| capitalize_spec(w)).take(i + 1)
                =~= wviews.map_values(|w: Seq<char>| capitalize_spec(w)).take(i as int).push(
                capitalize_spec(wviews[i as int]),
            ));
        }
        capped.push(cw);
        i = i + 1;
    }
    proof {
        assert(wviews.map_values(|w: Seq<char>| capitalize_spec(w)).take(words@.len() as int)
            =~= wviews.map_values(|w: Seq<char>| capitalize_spec(w)));
    }
    let mut sep: Vec<char> = Vec::new();
    sep.push(' ');
    proof {
        assert(sep@ =~= seq![' ']);
    }
    let joined = join_chars(&capped, &sep);
    string_from_chars(&joined)
}

/// Shorten a playback-bar title to `max_chars` characters, ending with
/// a one-character ellipsis when it was cut.
pub open spec fn truncate_title_spec(s: Seq<char>, max_chars: int) -> Seq<char> {
    if s.len() == 0 {
        s
    } else if s.len() < max_chars {
        s
    } else if max_chars <= 0 {
        seq!['…']
    } else {
        s.take(max_chars - 1).push('…')
    }
}

/// Truncate a title for the playback bar.
pub fn truncate_title(title: &str, max_chars: usize) -> (r: String)
    ensures
        r@ == truncate_title_spec(title@, max_chars as int),
{
    let v = str_chars(title);
    if v.len() == 0 {
        String::new()
    } else if v.len() < max_chars {
        let mut r = String::new();
        r.append(title);
        r
    } else if max_chars == 0 {
        let mut r = String::new();
        push_char(&mut r, '…');
        proof {
            assert(Seq::<char>::empty().push('…') =~= seq!['…']);
        }
        r
    } else {
        let head = subrange_chars(&v, 0, max_chars - 1);
        proof {
            assert(v@.subrange(0, max_chars - 1) =~= v@.take(max_chars - 1));
        }
        let mut r = string_from_chars(&head);
        push_char(&mut r, '…');
        r
    }
}

/// The age bucket of a past moment, as a human-readable phrase.
pub open spec fn time_ago_spec(timestamp_secs: int, now_secs: int) -> Seq<char> {
    let diff = now_secs - timestamp_secs;
    if diff < 60 {
        "Just now"@
    } else if diff / 60 < 60 {
        dec_str(diff / 60) + " minutes ago"@
    } else if diff / 3600 < 24 {
        dec_str(diff / 3600) + " hours ago"@
    } else if diff / 86400 < 7 {
        dec_str(diff / 86400) + " days ago"@
    } else if diff / 604800 < 4 {
        dec_str(diff / 604800) + " weeks ago"@
    } else if diff / 86400 < 365 {
        dec_str(diff / 86400 / 30) + " months ago"@
    } else {
        dec_str(diff / 86400 / 365) + " years ago"@
    }
}

/// Get human readable time ago string, from two moments in whole
/// seconds since the epoch.
pub fn time_ago(timestamp_secs: i64, now_secs: i64) -> (r: String)
    ensures
        r@ == time_ago_spec(timestamp_secs as int, now_secs as int),
{
    let diff_wide: i128 = now_secs as i128 - timestamp_secs as i128;
    if diff_wide < 60 {
        let mut r = String::new();
        r.append("Just now");
        r
    } else {
        let diff: u64 = diff_wide as u64;
        let minutes: u64 = diff / 60;
        if minutes < 60 {
            let mut r = u64_to_string(minutes);
            r.append(" minutes ago");
            r
        } else {
            let hours: u64 = diff / 3600;
            if hours < 24 {
                let mut r = u64_to_string(hours);
                r.append(" hours ago");
                r
            } else {
                let days: u64 = diff / 86400;
                if days < 7 {
                    let mut r = u64_to_string(days);
                    r.append(" days ago");
                    r
                } else {
                    let weeks: u64 = diff / 604800;
                    if weeks < 4 {
                        let mut r = u64_to_string(weeks);
                        r.append(" weeks ago");
                        r
                    } else if days < 365 {
                        let mut r = u64_to_string(days / 30);
                        r.append(" months ago");
                        r
                    } else {
                        let mut r = u64_to_string(days / 365);
                        r.append(" years ago");
                        r
                    }
                }
            }
        }
    }
}

} // verus!
