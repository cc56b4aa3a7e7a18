//! Album identity and metadata: normalization of album titles and
//! artist names, the stable album identifier derived from them, manual
//! override records, and artwork selection.

use vstd::prelude::*;

use sha2::Digest;

use crate::text::{
    char_is_alphanumeric, char_is_whitespace, chars_eq_str, contains_seq, dec_value, digit_body,
    is_alnum, is_space, join_chars, join_spec, lower_of, opt_view, parse_u64_chars, parse_u64_ok,
    first_index_of, split_ws_chars, split_ws_spec, str_chars, string_from_chars, to_lowercase, trim_chars,
    trim_spec, views_of_vecs,
};

verus! {

// ---------------------------------------------------------------------
// The stable album identifier.
// ---------------------------------------------------------------------
/// The digest bytes that identify an album: a function of the
/// normalized title and the normalized primary artist alone.
pub uninterp spec fn album_digest_of(album: Seq<char>, artist: Option<Seq<char>>) -> Seq<u8>;

/// Relies on sha2::Sha256 through the Digest trait: the 32-byte digest
/// of the normalized album title alone.
#[verifier::external_body]
fn hash_album(album: &str) -> (r: Vec<u8>)
    ensures
        r@ == album_digest_of(album@, Option::None),
        r@.len() == 32,
{
    let mut h = sha2::Sha256::new();
    h.update(album.as_bytes());
    h.finalize().to_vec()
}

/// Relies on sha2::Sha256 through the Digest trait: the 32-byte digest
/// of the normalized album title, a `"::"` separator, and the
/// normalized artist.
#[verifier::external_body]
fn hash_album_artist(album: &str, artist: &str) -> (r: Vec<u8>)
    ensures
        r@ == album_digest_of(album@, Option::Some(artist@)),
        r@.len() == 32,
{
    let mut h = sha2::Sha256::new();
    h.update(album.as_bytes());
    h.update("::".as_bytes());
    h.update(artist.as_bytes());
    h.finalize().to_vec()
}

/// The lowercase hex digit for a value in `0..16`.
pub open spec fn hex_digit(d: int) -> char {
    if d < 10 {
        crate::text::digit_char(d)
    } else if d == 10 {
        'a'
    } else if d == 11 {
        'b'
    } else if d == 12 {
        'c'
    } else if d == 13 {
        'd'
    } else if d == 14 {
        'e'
    } else {
        'f'
    }
}

fn hex_digit_exec(d: u8) -> (r: char)
    requires
        d < 16,
    ensures
        r == hex_digit(d as int),
{
    if d < 10 {
        crate::text::digit_char_exec(d as u64)
    } else if d == 10 {
        'a'
    } else if d == 11 {
        'b'
    } else if d == 12 {
        'c'
    } else if d == 13 {
        'd'
    } else if d == 14 {
        'e'
    } else {
        'f'
    }
}

/// The lowercase hex rendering of bytes, two digits per byte.
pub open spec fn hex_of(bytes: Seq<u8>) -> Seq<char>
    decreases bytes.len(),
{
    if bytes.len() == 0 {
        Seq::empty()
    } else {
        hex_of(bytes.drop_last()) + seq![
            hex_digit(bytes.last() as int / 16),
            hex_digit(bytes.last() as int % 16),
        ]
    }
}

/// Render bytes as lowercase hex.
pub fn bytes_to_hex(bytes: &Vec<u8>) -> (r: String)
    ensures
        r@ == hex_of(bytes@),
{
    let mut out: Vec<char> = Vec::new();
    let mut i: usize = 0;
    proof {
        assert(bytes@.take(0) =~= Seq::<u8>::empty());
    }
    while i < bytes.len()
        invariant
            i <= bytes@.len(),
            out@ == hex_of(bytes@.take(i as int)),
        decreases bytes@.len() - i,
    {
        let b = bytes[i];
        out.push(hex_digit_exec(b / 16));
        out.push(hex_digit_exec(b % 16));
        proof {
            let t = bytes@.take(i + 1);
            assert(t.drop_last() =~= bytes@.take(i as int));
            assert(t.last() == bytes@[i as int]);
            assert(out@ =~= hex_of(bytes@.take(i as int)) + seq![
                hex_digit(bytes@[i as int] as int / 16),
                hex_digit(bytes@[i as int] as int % 16),
            ]);
        }
        i = i + 1;
    }
    proof {
        assert(bytes@.take(bytes@.len() as int) =~= bytes@);
    }
    string_from_chars(&out)
}

// ---------------------------------------------------------------------
// Title normalization.
// ---------------------------------------------------------------------
pub open spec fn is_open_bracket(c: char) -> bool {
    c == '(' || c == '[' || c == '{' || c == '<'
}

pub open spec fn is_close_bracket(c: char) -> bool {
    c == ')' || c == ']' || c == '}' || c == '>'
}

/// The characters outside every bracketed region, scanning from
/// position `i` at nesting depth `depth`; unmatched closers are
/// ignored.
pub open spec fn strip_from(s: Seq<char>, i: int, depth: int) -> Seq<char>
    decreases s.len() - i,
    when 0 <= i <= s.len()
{
    if i == s.len() {
        Seq::empty()
    } else if is_open_bracket(s[i]) {
        strip_from(s, i + 1, depth + 1)
    } else if is_close_bracket(s[i]) {
        strip_from(s, i + 1, if depth > 0 {
            depth - 1
        } else {
            depth
        })
    } else if depth == 0 {
        seq![s[i]] + strip_from(s, i + 1, depth)
    } else {
        strip_from(s, i + 1, depth)
    }
}

/// What stripping bracketed regions leaves of a string.
pub open spec fn strip_bracketed_spec(s: Seq<char>) -> Seq<char> {
    strip_from(s, 0, 0)
}

/// Remove every parenthesized, bracketed, braced or angled region,
/// nesting included.
pub fn strip_bracketed(input: &str) -> (r: String)
    ensures
        r@ == strip_bracketed_spec(input@),
{
    let v = str_chars(input);
    let mut out: Vec<char> = Vec::new();
    let mut depth: usize = 0;
    let mut i: usize = 0;
    while i < v.len()
        invariant
            v@ == input@,
            i <= v@.len(),
            depth <= i,
            out@ + strip_from(input@, i as int, depth as int) == strip_bracketed_spec(input@),
        decreases v@.len() - i,
    {
        let c = v[i];
        if c == '(' || c == '[' || c == '{' || c == '<' {
            depth = depth + 1;
        } else if c == ')' || c == ']' || c == '}' || c == '>' {
            if depth > 0 {
                depth = depth - 1;
            }
        } else if depth == 0 {
            let ghost old_out = out@;
            out.push(c);
            proof {
                assert(out@ + strip_from(input@, i + 1, depth as int) =~= old_out + (seq![
                    input@[i as int],
                ] + strip_from(input@, i + 1, depth as int)));
            }
        }
        i = i + 1;
    }
    proof {
        assert(strip_from(input@, i as int, depth as int) =~= Seq::<char>::empty());
        assert(out@ + strip_from(input@, i as int, depth as int) =~= out@);
    }
    string_from_chars(&out)
}

/// Whether a token is a plausible release year: four characters that
/// parse as a number between 1900 and 2100.
pub open spec fn year_token_spec(t: Seq<char>) -> bool {
    t.len() == 4 && parse_u64_ok(t) && 1900 <= dec_value(digit_body(t)) <= 2100
}

/// Whether a token looks like a release year.
pub fn is_year_token(token: &str) -> (r: bool)
    ensures
        r == year_token_spec(token@),
{
    let v = str_chars(token);
    if v.len() != 4 {
        return false;
    }
    match parse_u64_chars(&v) {
        Some(year) => 1900 <= year && year <= 2100,
        None => false,
    }
}

fn token_is_year(t: &Vec<char>) -> (r: bool)
    ensures
        r == year_token_spec(t@),
{
    if t.len() != 4 {
        return false;
    }
    match parse_u64_chars(t) {
        Some(year) => 1900 <= year && year <= 2100,
        None => false,
    }
}

pub open spec fn soundtrack_word(t: Seq<char>) -> bool {
    t == "soundtrack"@ || t == "soundtracks"@ || t == "ost"@
}

/// How one title character is sanitized before tokenization:
/// alphanumeric characters and whitespace are kept, anything else
/// becomes a space.
pub open spec fn album_sanitize_char(c: char) -> char {
    if is_alnum(c) || is_space(c) {
        c
    } else {
        ' '
    }
}

/// Whether one token survives the soundtrack filtering.
pub open spec fn keep_token(t: Seq<char>, has_sound: bool, has_orig: bool, has_score: bool) -> bool {
    &&& !year_token_spec(t)
    &&& !(has_sound && (soundtrack_word(t) || t == "game"@ || t == "motion"@ || t == "picture"@
        || t == "official"@ || t == "original"@))
    &&& !(has_score && has_orig && t == "score"@)
}

/// The tokens from position `i` on that survive the filtering.
pub open spec fn filter_tokens(
    toks: Seq<Seq<char>>,
    i: int,
    has_sound: bool,
    has_orig: bool,
    has_score: bool,
) -> Seq<Seq<char>>
    decreases toks.len() - i,
    when 0 <= i <= toks.len()
{
    if i == toks.len() {
        Seq::empty()
    } else if keep_token(toks[i], has_sound, has_orig, has_score) {
        seq![toks[i]] + filter_tokens(toks, i + 1, has_sound, has_orig, has_score)
    } else {
        filter_tokens(toks, i + 1, has_sound, has_orig, has_score)
    }
}

/// The normalized form of an album title: lowercased, bracketed
/// regions removed, punctuation spaced out, year tokens and soundtrack
/// boilerplate dropped, words joined by single spaces; when filtering
/// would discard everything, the whitespace-collapsed stripped title.
pub open spec fn normalize_album_title_spec(album: Seq<char>) -> Seq<char> {
    let stripped = strip_bracketed_spec(lower_of(album));
    let sanitized = stripped.map_values(|c: char| album_sanitize_char(c));
    let raw = split_ws_spec(sanitized);
    let fallback = join_spec(split_ws_spec(stripped), seq![' ']);
    if raw.len() == 0 {
        fallback
    } else {
        let has_sound = exists|k: int| 0 <= k < raw.len() && soundtrack_word(#[trigger] raw[k]);
        let has_orig = exists|k: int| 0 <= k < raw.len() && #[trigger] raw[k] == "original"@;
        let has_score = exists|k: int| 0 <= k < raw.len() && #[trigger] raw[k] == "score"@;
        let kept = filter_tokens(raw, 0, has_sound, has_orig, has_score);
        if kept.len() == 0 {
            fallback
        } else {
            join_spec(kept, seq![' '])
        }
    }
}

/// Normalize an album title for identification.
pub fn normalize_album_title(album: &str) -> (r: String)
    ensures
        r@ == normalize_album_title_spec(album@),
{
    let lowered = to_lowercase(album);
    let stripped = strip_bracketed(lowered.as_str());
    let sv = str_chars(stripped.as_str());
    let ghost stripped_view = strip_bracketed_spec(lower_of(album@));
    // punctuation becomes spaces before tokenization
    let mut sanitized: Vec<char> = Vec::new();
    let mut i: usize = 0;
    while i < sv.len()
        invariant
            sv@ == stripped_view,
            i <= sv@.len(),
            sanitized@ == stripped_view.map_values(|c: char| album_sanitize_char(c)).take(i as int),
        decreases sv@.len() - i,
    {
        let c = sv[i];
        if char_is_alphanumeric(c) || char_is_whitespace(c) {
            sanitized.push(c);
        } else {
            sanitized.push(' ');
        }
        proof {
            let m = stripped_view.map_values(|c: char| album_sanitize_char(c));
            assert(m.take(i + 1) =~= m.take(i as int).push(
                album_sanitize_char(stripped_view[i as int]),
            ));
        }
        i = i + 1;
    }
    proof {
        let m = stripped_view.map_values(|c: char| album_sanitize_char(c));
        assert(m.take(sv@.len() as int) =~= m);
    }
    let raw = split_ws_chars(&sanitized);
    let ghost raw_views = split_ws_spec(stripped_view.map_values(|c: char| album_sanitize_char(c)));
    let mut space: Vec<char> = Vec::new();
    space.push(' ');
    proof {
        assert(space@ =~= seq![' ']);
    }
    if raw.len() == 0 {
        let stripped_tokens = split_ws_chars(&sv);
        let joined = join_chars(&stripped_tokens, &space);
        return string_from_chars(&joined);
    }
    // membership scans for the soundtrack heuristics
    let mut has_sound = false;
    let mut has_orig = false;
    let mut has_score = false;
    let mut k: usize = 0;
    while k < raw.len()
        invariant
            views_of_vecs(raw@) == raw_views,
            k <= raw@.len(),
            has_sound == exists|j: int| 0 <= j < k && soundtrack_word(#[trigger] raw_views[j]),
            has_orig == exists|j: int| 0 <= j < k && #[trigger] raw_views[j] == "original"@,
            has_score == exists|j: int| 0 <= j < k && #[trigger] raw_views[j] == "score"@,
        decreases raw@.len() - k,
    {
        let t = &raw[k];
        proof {
            assert(t@ == raw_views[k as int]);
        }
        if chars_eq_str(t, "soundtrack") || chars_eq_str(t, "soundtracks") || chars_eq_str(
            t,
            "ost",
        ) {
            has_sound = true;
        }
        if chars_eq_str(t, "original") {
            has_orig = true;
        }
        if chars_eq_str(t, "score") {
            has_score = true;
        }
        k = k + 1;
    }
    proof {
        assert(raw_views.len() == raw@.len());
    }
    let mut kept: Vec<Vec<char>> = Vec::new();
    let mut k: usize = 0;
    proof {
        assert(views_of_vecs(kept@) + filter_tokens(raw_views, 0, has_sound, has_orig, has_score)
            =~= filter_tokens(raw_views, 0, has_sound, has_orig, has_score));
    }
    while k < raw.len()
        invariant
            views_of_vecs(raw@) == raw_views,
            k <= raw@.len(),
            views_of_vecs(kept@) + filter_tokens(raw_views, k as int, has_sound, has_orig, has_score)
                == filter_tokens(raw_views, 0, has_sound, has_orig, has_score),
        decreases raw@.len() - k,
    {
        let t = &raw[k];
        proof {
            assert(t@ == raw_views[k as int]);
        }
        let is_year = token_is_year(t);
        let mut drop = is_year;
        if has_sound {
            if chars_eq_str(t, "soundtrack") || chars_eq_str(t, "soundtracks") || chars_eq_str(
                t,
                "ost",
            ) || chars_eq_str(t, "game") || chars_eq_str(t, "motion") || chars_eq_str(t, "picture")
                || chars_eq_str(t, "official") || chars_eq_str(t, "original") {
                drop = true;
            }
        }
        if has_score && has_orig && chars_eq_str(t, "score") {
            drop = true;
        }
        if !drop {
            let ghost old_kept = views_of_vecs(kept@);
            kept.push(t.clone());
            proof {
                assert(views_of_vecs(kept@) =~= old_kept.push(raw_views[k as int]));
                assert(views_of_vecs(kept@) + filter_tokens(
                    raw_views,
                    k + 1,
                    has_sound,
                    has_orig,
                    has_score,
                ) =~= old_kept + filter_tokens(raw_views, k as int, has_sound, has_orig, has_score));
            }
        }
        k = k + 1;
    }
    proof {
        assert(filter_tokens(raw_views, raw@.len() as int, has_sound, has_orig, has_score)
            =~= Seq::<Seq<char>>::empty());
        assert(views_of_vecs(kept@) + filter_tokens(
            raw_views,
            raw@.len() as int,
            has_sound,
            has_orig,
            has_score,
        ) =~= views_of_vecs(kept@));
    }
    if kept.len() == 0 {
        let stripped_tokens = split_ws_chars(&sv);
        let joined = join_chars(&stripped_tokens, &space);
        string_from_chars(&joined)
    } else {
        let joined = join_chars(&kept, &space);
        string_from_chars(&joined)
    }
}

// ---------------------------------------------------------------------
// Artist normalization: secondary markers and segment splitting.
// ---------------------------------------------------------------------
/// The markers after which everything names secondary artists.
pub open spec fn secondary_markers() -> Seq<Seq<char>> {
    seq![
        " feat "@,
        " featuring "@,
        " ft "@,
        " with "@,
        " vs "@,
        " x "@,
        " presents "@,
        " pres "@,
        " produced by "@,
        " prod by "@,
    ]
}

/// The earliest position of any of the first `i` markers, or `-1`.
pub open spec fn min_cut_upto(s: Seq<char>, ms: Seq<Seq<char>>, i: int) -> int
    decreases i,
    when 0 <= i <= ms.len()
{
    if i <= 0 {
        -1
    } else {
        let prev = min_cut_upto(s, ms, i - 1);
        let cur = first_index_of(s, ms[i - 1]);
        if cur == -1 {
            prev
        } else if prev == -1 {
            cur
        } else if cur < prev {
            cur
        } else {
            prev
        }
    }
}

/// Everything before the earliest secondary marker; the whole string
/// when none occurs.
pub open spec fn truncate_markers_spec(s: Seq<char>) -> Seq<char> {
    let c = min_cut_upto(s, secondary_markers(), secondary_markers().len() as int);
    if c == -1 {
        s
    } else {
        s.take(c)
    }
}

fn secondary_marker_vecs() -> (r: Vec<Vec<char>>)
    ensures
        views_of_vecs(r@) == secondary_markers(),
        forall|k: int| 0 <= k < r@.len() ==> r@[k]@.len() > 0,
{
    let mut r: Vec<Vec<char>> = Vec::new();
    r.push(str_chars(" feat "));
    r.push(str_chars(" featuring "));
    r.push(str_chars(" ft "));
    r.push(str_chars(" with "));
    r.push(str_chars(" vs "));
    r.push(str_chars(" x "));
    r.push(str_chars(" presents "));
    r.push(str_chars(" pres "));
    r.push(str_chars(" produced by "));
    r.push(str_chars(" prod by "));
    proof {
        reveal_strlit(" feat ");
        reveal_strlit(" featuring ");
        reveal_strlit(" ft ");
        reveal_strlit(" with ");
        reveal_strlit(" vs ");
        reveal_strlit(" x ");
        reveal_strlit(" presents ");
        reveal_strlit(" pres ");
        reveal_strlit(" produced by ");
        reveal_strlit(" prod by ");
        assert(views_of_vecs(r@) =~= secondary_markers());
    }
    r
}

fn truncate_markers_chars(v: &Vec<char>) -> (r: Vec<char>)
    ensures
        r@ == truncate_markers_spec(v@),
{
    let markers = secondary_marker_vecs();
    let mut best: Option<usize> = None;
    let mut i: usize = 0;
    while i < markers.len()
        invariant
            views_of_vecs(markers@) == secondary_markers(),
            markers@.len() == secondary_markers().len(),
            i <= markers@.len(),
            match best {
                Some(b) => b == min_cut_upto(v@, secondary_markers(), i as int) && b <= v@.len(),
                None => min_cut_upto(v@, secondary_markers(), i as int) == -1,
            },
        decreases markers@.len() - i,
    {
        proof {
            assert(markers@[i as int]@ == secondary_markers()[i as int]);
        }
        let cur = crate::text::first_index_exec(v, &markers[i]);
        match cur {
            Some(c) => {
                proof {
                    assert(c + markers@[i as int]@.len() <= v@.len());
                }
                best = match best {
                    Some(b) => if c < b {
                        Some(c)
                    } else {
                        Some(b)
                    },
                    None => Some(c),
                };
            },
            None => {},
        }
        i = i + 1;
    }
    match best {
        Some(b) => crate::text::subrange_chars(v, 0, b),
        None => crate::text::subrange_chars(v, 0, v.len()),
    }
}

/// Cut an artist string at the first secondary-artist marker.
pub fn truncate_at_secondary_markers(value: &str) -> (r: String)
    ensures
        r@ == truncate_markers_spec(value@),
{
    let v = str_chars(value);
    let cut = truncate_markers_chars(&v);
    proof {
        if min_cut_upto(value@, secondary_markers(), secondary_markers().len() as int) == -1 {
            assert(value@.subrange(0, value@.len() as int) =~= value@);
        }
    }
    string_from_chars(&cut)
}

/// The separators that divide co-credited primary artists.
pub open spec fn primary_patterns() -> Seq<Seq<char>> {
    seq![","@, ";"@, "/"@, "\\"@, " & "@, " + "@]
}

/// Every segment split by one pattern, in order.
pub open spec fn split_all(segs: Seq<Seq<char>>, pat: Seq<char>, i: int) -> Seq<Seq<char>>
    decreases segs.len() - i,
    when 0 <= i <= segs.len() && pat.len() > 0
{
    if i == segs.len() {
        Seq::empty()
    } else {
        crate::text::split_pat_spec(segs[i], pat) + split_all(segs, pat, i + 1)
    }
}

/// The segments after applying the first `i` separator patterns.
pub open spec fn apply_patterns(segs: Seq<Seq<char>>, ps: Seq<Seq<char>>, i: int) -> Seq<Seq<char>>
    decreases i,
    when 0 <= i <= ps.len() && (forall|k: int| 0 <= k < ps.len() ==> ps[k].len() > 0)
{
    if i <= 0 {
        segs
    } else {
        split_all(apply_patterns(segs, ps, i - 1), ps[i - 1], 0)
    }
}

/// Whether a segment names a group such as "x and the y", which stays
/// one artist.
pub open spec fn starts_with_the(s: Seq<char>) -> bool {
    s.len() >= 4 && s.take(4) == "the "@
}

/// How one segment fares under " and " splitting: kept whole when a
/// later part begins with "the ", split otherwise.
pub open spec fn and_expand(seg: Seq<char>) -> Seq<Seq<char>> {
    if contains_seq(seg, " and "@) {
        let parts = crate::text::split_pat_spec(seg, " and "@);
        if parts.len() > 1 && (exists|k: int|
            1 <= k < parts.len() && starts_with_the(crate::text::trim_start_spec(
                #[trigger] parts[k],
            ))) {
            seq![seg]
        } else {
            parts
        }
    } else {
        seq![seg]
    }
}

pub open spec fn and_expand_all(segs: Seq<Seq<char>>, i: int) -> Seq<Seq<char>>
    decreases segs.len() - i,
    when 0 <= i <= segs.len()
{
    if i == segs.len() {
        Seq::empty()
    } else {
        and_expand(segs[i]) + and_expand_all(segs, i + 1)
    }
}

/// The co-credited artist segments of a prepared artist string.
pub open spec fn split_segments_spec(value: Seq<char>) -> Seq<Seq<char>> {
    and_expand_all(
        apply_patterns(seq![value], primary_patterns(), primary_patterns().len() as int),
        0,
    )
}

fn primary_pattern_vecs() -> (r: Vec<Vec<char>>)
    ensures
        views_of_vecs(r@) == primary_patterns(),
        forall|k: int| 0 <= k < r@.len() ==> r@[k]@.len() > 0,
{
    let mut r: Vec<Vec<char>> = Vec::new();
    r.push(str_chars(","));
    r.push(str_chars(";"));
    r.push(str_chars("/"));
    r.push(str_chars("\\"));
    r.push(str_chars(" & "));
    r.push(str_chars(" + "));
    proof {
        reveal_strlit(",");
        reveal_strlit(";");
        reveal_strlit("/");
        reveal_strlit("\\");
        reveal_strlit(" & ");
        reveal_strlit(" + ");
        assert(views_of_vecs(r@) =~= primary_patterns());
    }
    r
}

fn split_segments_chars(value: &Vec<char>) -> (r: Vec<Vec<char>>)
    ensures
        views_of_vecs(r@) == split_segments_spec(value@),
{
    let patterns = primary_pattern_vecs();
    let mut segments: Vec<Vec<char>> = Vec::new();
    segments.push(crate::text::subrange_chars(value, 0, value.len()));
    proof {
        assert(value@.subrange(0, value@.len() as int) =~= value@);
        assert(views_of_vecs(segments@) =~= seq![value@]);
        assert(apply_patterns(seq![value@], primary_patterns(), 0) == seq![value@]);
    }
    let mut p: usize = 0;
    while p < patterns.len()
        invariant
            views_of_vecs(patterns@) == primary_patterns(),
            patterns@.len() == primary_patterns().len(),
            forall|k: int| 0 <= k < primary_patterns().len() ==> primary_patterns()[k].len() > 0,
            p <= patterns@.len(),
            views_of_vecs(segments@) == apply_patterns(
                seq![value@],
                primary_patterns(),
                p as int,
            ),
        decreases patterns@.len() - p,
    {
        let ghost old_views = views_of_vecs(segments@);
        let pat = &patterns[p];
        proof {
            assert(pat@ == primary_patterns()[p as int]);
            assert(pat@.len() > 0);
        }
        let mut next: Vec<Vec<char>> = Vec::new();
        let mut j: usize = 0;
        proof {
            assert(views_of_vecs(next@) + split_all(old_views, pat@, 0) =~= split_all(
                old_views,
                pat@,
                0,
            ));
        }
        while j < segments.len()
            invariant
                views_of_vecs(segments@) == old_views,
                views_of_vecs(patterns@) == primary_patterns(),
                p < patterns@.len(),
                pat@ == primary_patterns()[p as int],
                pat@.len() > 0,
                j <= segments@.len(),
                views_of_vecs(next@) + split_all(old_views, pat@, j as int) == split_all(
                    old_views,
                    pat@,
                    0,
                ),
            decreases segments@.len() - j,
        {
            let parts = crate::text::split_pat_chars(&segments[j], pat);
            let ghost next_before = views_of_vecs(next@);
            let mut q: usize = 0;
            proof {
                assert(segments@[j as int]@ == old_views[j as int]);
            }
            while q < parts.len()
                invariant
                    views_of_vecs(parts@) == crate::text::split_pat_spec(
                        old_views[j as int],
                        pat@,
                    ),
                    q <= parts@.len(),
                    views_of_vecs(next@) == next_before + views_of_vecs(parts@).take(q as int),
                decreases parts@.len() - q,
            {
                let ghost nv = views_of_vecs(next@);
                next.push(parts[q].clone());
                proof {
                    assert(parts@[q as int]@ == views_of_vecs(parts@)[q as int]);
                    assert(views_of_vecs(next@) =~= nv.push(views_of_vecs(parts@)[q as int]));
                    assert(next_before + views_of_vecs(parts@).take(q + 1) =~= (next_before
                        + views_of_vecs(parts@).take(q as int)).push(
                        views_of_vecs(parts@)[q as int],
                    ));
                }
                q = q + 1;
            }
            proof {
                assert(views_of_vecs(parts@).take(parts@.len() as int) =~= views_of_vecs(parts@));
                assert(views_of_vecs(next@) + split_all(old_views, pat@, j + 1) =~= next_before
                    + split_all(old_views, pat@, j as int));
            }
            j = j + 1;
        }
        proof {
            assert(split_all(old_views, pat@, segments@.len() as int) =~= Seq::<Seq<char>>::empty());
            assert(views_of_vecs(next@) + split_all(old_views, pat@, segments@.len() as int)
                =~= views_of_vecs(next@));
        }
        segments = next;
        p = p + 1;
    }
    // keep a segment whole when a later " and " part names a group
    let ghost base = views_of_vecs(segments@);
    let and_pat = str_chars(" and ");
    let the_pat = str_chars("the ");
    proof {
        reveal_strlit(" and ");
        reveal_strlit("the ");
    }
    let mut out: Vec<Vec<char>> = Vec::new();
    let mut j: usize = 0;
    proof {
        assert(views_of_vecs(out@) + and_expand_all(base, 0) =~= and_expand_all(base, 0));
    }
    while j < segments.len()
        invariant
            views_of_vecs(segments@) == base,
            and_pat@ == " and "@,
            the_pat@ == "the "@,
            j <= segments@.len(),
            views_of_vecs(out@) + and_expand_all(base, j as int) == and_expand_all(base, 0),
        decreases segments@.len() - j,
    {
        let seg = &segments[j];
        proof {
            reveal_strlit(" and ");
            reveal_strlit("the ");
            assert(seg@ == base[j as int]);
        }
        let ghost out_before = views_of_vecs(out@);
        if crate::text::contains_sub(seg, &and_pat) {
            let parts = crate::text::split_pat_chars(seg, &and_pat);
            let ghost pviews = crate::text::split_pat_spec(base[j as int], " and "@);
            // does any later part, once its leading spaces go, start with "the "?
            let mut group = false;
            let mut q: usize = 1;
            while q < parts.len()
                invariant
                    views_of_vecs(parts@) == pviews,
                    1 <= q <= parts@.len() || parts@.len() < 1,
                    the_pat@ == "the "@,
                    group == exists|k: int|
                        1 <= k < q && starts_with_the(crate::text::trim_start_spec(
                            #[trigger] pviews[k],
                        )),
                decreases parts@.len() - q,
            {
                let trimmed = crate::text::trim_start_chars(&parts[q]);
                proof {
                    reveal_strlit("the ");
                    assert(parts@[q as int]@ == pviews[q as int]);
                }
                if trimmed.len() >= 4 && crate::text::match_at(&trimmed, &the_pat, 0) {
                    proof {
                        assert(trimmed@.subrange(0, 4) =~= trimmed@.take(4));
                        assert(starts_with_the(crate::text::trim_start_spec(pviews[q as int])));
                    }
                    group = true;
                } else {
                    proof {
                        if trimmed@.len() >= 4 {
                            assert(trimmed@.subrange(0, 4) =~= trimmed@.take(4));
                        }
                        assert(!starts_with_the(crate::text::trim_start_spec(pviews[q as int])));
                    }
                }
                q = q + 1;
            }
            if parts.len() > 1 && group {
                out.push(seg.clone());
                proof {
                    assert(and_expand(base[j as int]) =~= seq![base[j as int]]);
                    assert(views_of_vecs(out@) =~= out_before.push(base[j as int]));
                    assert(views_of_vecs(out@) + and_expand_all(base, j + 1) =~= out_before
                        + and_expand_all(base, j as int));
                }
            } else {
                proof {
                    assert(and_expand(base[j as int]) == pviews);
                }
                let mut q2: usize = 0;
                while q2 < parts.len()
                    invariant
                        views_of_vecs(parts@) == pviews,
                        q2 <= parts@.len(),
                        views_of_vecs(out@) == out_before + pviews.take(q2 as int),
                    decreases parts@.len() - q2,
                {
                    let ghost ov = views_of_vecs(out@);
                    out.push(parts[q2].clone());
                    proof {
                        assert(parts@[q2 as int]@ == pviews[q2 as int]);
                        assert(views_of_vecs(out@) =~= ov.push(pviews[q2 as int]));
                        assert(out_before + pviews.take(q2 + 1) =~= (out_before + pviews.take(
                            q2 as int,
                        )).push(pviews[q2 as int]));
                    }
                    q2 = q2 + 1;
                }
                proof {
                    assert(pviews.take(parts@.len() as int) =~= pviews);
                    assert(views_of_vecs(out@) + and_expand_all(base, j + 1) =~= out_before
                        + and_expand_all(base, j as int));
                }
            }
        } else {
            out.push(seg.clone());
            proof {
                assert(and_expand(base[j as int]) =~= seq![base[j as int]]);
                assert(views_of_vecs(out@) =~= out_before.push(base[j as int]));
                assert(views_of_vecs(out@) + and_expand_all(base, j + 1) =~= out_before
                    + and_expand_all(base, j as int));
            }
        }
        j = j + 1;
    }
    proof {
        assert(and_expand_all(base, segments@.len() as int) =~= Seq::<Seq<char>>::empty());
        assert(views_of_vecs(out@) + and_expand_all(base, segments@.len() as int) =~= views_of_vecs(
            out@,
        ));
    }
    out
}

/// Split a prepared artist string into co-credited artist segments.
pub fn split_primary_artist_segments(value: &str) -> (r: Vec<String>)
    ensures
        crate::text::views_of_strings(r@) == split_segments_spec(value@),
{
    let v = str_chars(value);
    let segs = split_segments_chars(&v);
    let mut r: Vec<String> = Vec::new();
    let mut i: usize = 0;
    while i < segs.len()
        invariant
            views_of_vecs(segs@) == split_segments_spec(value@),
            i <= segs@.len(),
            crate::text::views_of_strings(r@) == views_of_vecs(segs@).take(i as int),
        decreases segs@.len() - i,
    {
        r.push(string_from_chars(&segs[i]));
        proof {
            assert(crate::text::views_of_strings(r@) =~= views_of_vecs(segs@).take(i as int).push(
                views_of_vecs(segs@)[i as int],
            ));
            assert(views_of_vecs(segs@).take(i + 1) =~= views_of_vecs(segs@).take(i as int).push(
                views_of_vecs(segs@)[i as int],
            ));
        }
        i = i + 1;
    }
    proof {
        assert(views_of_vecs(segs@).take(segs@.len() as int) =~= views_of_vecs(segs@));
    }
    r
}

// ---------------------------------------------------------------------
// Discard rules for artist segments.
// ---------------------------------------------------------------------
/// Whole phrases that name no particular artist.
pub open spec fn discard_phrase(s: Seq<char>) -> bool {
    ||| s == "various artists"@
    ||| s == "various artist"@
    ||| s == "original soundtrack"@
    ||| s == "soundtrack"@
    ||| s == "soundtracks"@
    ||| s == "ost"@
    ||| s == "original score"@
    ||| s == "motion picture soundtrack"@
    ||| s == "game soundtrack"@
    ||| s == "original game soundtrack"@
    ||| s == "video game soundtrack"@
    ||| s == "score"@
}

/// Single words that mark a studio or label rather than an artist.
pub open spec fn discard_token(t: Seq<char>) -> bool {
    ||| t == "softworks"@
    ||| t == "studios"@
    ||| t == "studio"@
    ||| t == "records"@
    ||| t == "recordings"@
    ||| t == "publishing"@
    ||| t == "company"@
    ||| t == "interactive"@
    ||| t == "llc"@
    ||| t == "inc"@
    ||| t == "team"@
    ||| t == "soundteam"@
}

/// Whether an artist segment should be discarded: empty once trimmed,
/// a known non-artist phrase, or holding a studio word.
pub open spec fn should_discard_spec(seg: Seq<char>) -> bool {
    let trimmed = trim_spec(seg);
    if trimmed.len() == 0 {
        true
    } else {
        let toks = split_ws_spec(trimmed);
        if toks.len() == 0 {
            true
        } else {
            discard_phrase(join_spec(toks, seq![' '])) || exists|k: int|
                0 <= k < toks.len() && discard_token(#[trigger] toks[k])
        }
    }
}

fn discard_chars(seg: &Vec<char>) -> (r: bool)
    ensures
        r == should_discard_spec(seg@),
{
    let trimmed = trim_chars(seg);
    if trimmed.len() == 0 {
        return true;
    }
    let toks = split_ws_chars(&trimmed);
    if toks.len() == 0 {
        return true;
    }
    let mut space: Vec<char> = Vec::new();
    space.push(' ');
    proof {
        assert(space@ =~= seq![' ']);
    }
    let joined = join_chars(&toks, &space);
    let phrase = chars_eq_str(&joined, "various artists") || chars_eq_str(&joined, "various artist")
        || chars_eq_str(&joined, "original soundtrack") || chars_eq_str(&joined, "soundtrack")
        || chars_eq_str(&joined, "soundtracks") || chars_eq_str(&joined, "ost") || chars_eq_str(
        &joined,
        "original score",
    ) || chars_eq_str(&joined, "motion picture soundtrack") || chars_eq_str(
        &joined,
        "game soundtrack",
    ) || chars_eq_str(&joined, "original game soundtrack") || chars_eq_str(
        &joined,
        "video game soundtrack",
    ) || chars_eq_str(&joined, "score");
    if phrase {
        return true;
    }
    let ghost tviews = split_ws_spec(trim_spec(seg@));
    let mut k: usize = 0;
    let mut found = false;
    while k < toks.len()
        invariant
            views_of_vecs(toks@) == tviews,
            k <= toks@.len(),
            found == exists|j: int| 0 <= j < k && discard_token(#[trigger] tviews[j]),
        decreases toks@.len() - k,
    {
        let t = &toks[k];
        proof {
            assert(t@ == tviews[k as int]);
        }
        if chars_eq_str(t, "softworks") || chars_eq_str(t, "studios") || chars_eq_str(t, "studio")
            || chars_eq_str(t, "records") || chars_eq_str(t, "recordings") || chars_eq_str(
            t,
            "publishing",
        ) || chars_eq_str(t, "company") || chars_eq_str(t, "interactive") || chars_eq_str(t, "llc")
            || chars_eq_str(t, "inc") || chars_eq_str(t, "team") || chars_eq_str(t, "soundteam") {
            found = true;
        }
        k = k + 1;
    }
    found
}

/// Whether a normalized artist segment names no real artist.
pub fn should_discard_artist_segment(segment: &str) -> (r: bool)
    ensures
        r == should_discard_spec(segment@),
{
    let v = str_chars(segment);
    discard_chars(&v)
}

// ---------------------------------------------------------------------
// The full artist normalization pipeline.
// ---------------------------------------------------------------------
/// Carriage returns, newlines and tabs become plain spaces.
pub open spec fn marker_space_char(c: char) -> char {
    if c == '\r' || c == '\n' || c == '\t' {
        ' '
    } else {
        c
    }
}

/// The canonical abbreviation rewrites applied to an artist string.
pub open spec fn artist_replacements(s: Seq<char>) -> Seq<char> {
    let s1 = crate::text::replace_spec(s, "feat."@, "feat"@);
    let s2 = crate::text::replace_spec(s1, "ft."@, "ft"@);
    let s3 = crate::text::replace_spec(s2, "vs."@, "vs"@);
    let s4 = crate::text::replace_spec(s3, "pres."@, "pres"@);
    let s5 = crate::text::replace_spec(s4, "prod."@, "prod"@);
    let s6 = crate::text::replace_spec(s5, "feat:"@, "feat "@);
    let s7 = crate::text::replace_spec(s6, "ft:"@, "ft "@);
    let s8 = crate::text::replace_spec(s7, "feat-"@, "feat "@);
    crate::text::replace_spec(s8, "ft-"@, "ft "@)
}

/// The canonical segments that survive cleaning and the discard rules.
pub open spec fn collect_canonicals(segs: Seq<Seq<char>>, i: int) -> Seq<Seq<char>>
    decreases segs.len() - i,
    when 0 <= i <= segs.len()
{
    if i == segs.len() {
        Seq::empty()
    } else {
        let cleaned = trim_spec(segs[i]);
        let canonical = join_spec(split_ws_spec(cleaned), seq![' ']);
        if cleaned.len() == 0 || canonical.len() == 0 || should_discard_spec(canonical) {
            collect_canonicals(segs, i + 1)
        } else {
            seq![canonical] + collect_canonicals(segs, i + 1)
        }
    }
}

/// The view of an optional borrowed string.
pub open spec fn opt_str_view(o: Option<&str>) -> Option<Seq<char>> {
    match o {
        Some(s) => Some(s@),
        None => None,
    }
}

/// The normalized primary artist: trimmed, lowercased, bracketed
/// regions and secondary-artist credits removed, split into
/// co-credited segments, each collapsed to single spaces, studio names
/// dropped, the rest sorted, deduplicated and joined with `'|'`.
pub open spec fn normalize_primary_artist_spec(artist: Option<Seq<char>>) -> Option<Seq<char>> {
    match artist {
        None => None,
        Some(a) => {
            let t = trim_spec(a);
            if t.len() == 0 {
                None
            } else {
                let prepared = artist_replacements(
                    strip_bracketed_spec(lower_of(t)).map_values(|c: char| marker_space_char(c)),
                );
                let segs = split_segments_spec(trim_spec(truncate_markers_spec(prepared)));
                let canon = collect_canonicals(segs, 0);
                if canon.len() == 0 {
                    None
                } else {
                    Some(
                        join_spec(
                            crate::text::dedup_spec(crate::text::sort_spec(canon)),
                            seq!['|'],
                        ),
                    )
                }
            }
        },
    }
}

fn replace_lit(v: &Vec<char>, pat: &str, repl: &str) -> (r: Vec<char>)
    requires
        pat@.len() > 0,
    ensures
        r@ == crate::text::replace_spec(v@, pat@, repl@),
{
    let pv = str_chars(pat);
    let rv = str_chars(repl);
    crate::text::replace_chars(v, &pv, &rv)
}

fn join_strings_char(parts: &Vec<String>, sep: char) -> (r: String)
    ensures
        r@ == join_spec(crate::text::views_of_strings(parts@), seq![sep]),
{
    let ghost vs = crate::text::views_of_strings(parts@);
    let mut r = String::new();
    let mut k: usize = 0;
    while k < parts.len()
        invariant
            vs == crate::text::views_of_strings(parts@),
            k <= parts@.len(),
            r@ == join_spec(vs.take(k as int), seq![sep]),
        decreases parts@.len() - k,
    {
        if k > 0 {
            crate::text::push_char(&mut r, sep);
        }
        r.append(parts[k].as_str());
        proof {
            assert(vs.take(k + 1) =~= vs.take(k as int).push(vs[k as int]));
            crate::text::lemma_join_snoc(vs.take(k as int), seq![sep], vs[k as int]);
            assert(vs[k as int] == parts@[k as int]@);
            if k == 0 {
                assert(vs.take(0) =~= Seq::<Seq<char>>::empty());
            } else {
                assert(join_spec(vs.take(k as int), seq![sep]) + seq![sep] + vs[k as int]
                    =~= join_spec(vs.take(k as int), seq![sep]).push(sep) + vs[k as int]);
            }
        }
        k = k + 1;
    }
    proof {
        assert(vs.take(parts@.len() as int) =~= vs);
    }
    r
}

/// Normalize the primary artist of an album.
pub fn normalize_primary_artist(artist: Option<&str>) -> (r: Option<String>)
    ensures
        opt_view(r) == normalize_primary_artist_spec(opt_str_view(artist)),
{
    let a = match artist {
        Some(a) => a,
        None => {
            return None;
        },
    };
    let av = str_chars(a);
    let trimmed = trim_chars(&av);
    if trimmed.len() == 0 {
        return None;
    }
    let trimmed_str = string_from_chars(&trimmed);
    let lowered = to_lowercase(trimmed_str.as_str());
    let stripped = strip_bracketed(lowered.as_str());
    let sv = str_chars(stripped.as_str());
    let ghost stripped_view = strip_bracketed_spec(lower_of(trim_spec(a@)));
    // line breaks and tabs become spaces
    let mut mapped: Vec<char> = Vec::new();
    let mut i: usize = 0;
    while i < sv.len()
        invariant
            sv@ == stripped_view,
            i <= sv@.len(),
            mapped@ == stripped_view.map_values(|c: char| marker_space_char(c)).take(i as int),
        decreases sv@.len() - i,
    {
        let c = sv[i];
        if c == '\r' || c == '\n' || c == '\t' {
            mapped.push(' ');
        } else {
            mapped.push(c);
        }
        proof {
            let m = stripped_view.map_values(|c: char| marker_space_char(c));
            assert(m.take(i + 1) =~= m.take(i as int).push(marker_space_char(
                stripped_view[i as int],
            )));
        }
        i = i + 1;
    }
    proof {
        let m = stripped_view.map_values(|c: char| marker_space_char(c));
        assert(m.take(sv@.len() as int) =~= m);
    }
    proof {
        reveal_strlit("feat.");
        reveal_strlit("feat");
        reveal_strlit("ft.");
        reveal_strlit("ft");
        reveal_strlit("vs.");
        reveal_strlit("vs");
        reveal_strlit("pres.");
        reveal_strlit("pres");
        reveal_strlit("prod.");
        reveal_strlit("prod");
        reveal_strlit("feat:");
        reveal_strlit("feat ");
        reveal_strlit("ft:");
        reveal_strlit("ft ");
        reveal_strlit("feat-");
        reveal_strlit("ft-");
    }
    let s1 = replace_lit(&mapped, "feat.", "feat");
    let s2 = replace_lit(&s1, "ft.", "ft");
    let s3 = replace_lit(&s2, "vs.", "vs");
    let s4 = replace_lit(&s3, "pres.", "pres");
    let s5 = replace_lit(&s4, "prod.", "prod");
    let s6 = replace_lit(&s5, "feat:", "feat ");
    let s7 = replace_lit(&s6, "ft:", "ft ");
    let s8 = replace_lit(&s7, "feat-", "feat ");
    let prepared = replace_lit(&s8, "ft-", "ft ");
    let sliced = truncate_markers_chars(&prepared);
    let sliced_trimmed = trim_chars(&sliced);
    let segs = split_segments_chars(&sliced_trimmed);
    let ghost seg_views = split_segments_spec(
        trim_spec(
            truncate_markers_spec(
                artist_replacements(
                    stripped_view.map_values(|c: char| marker_space_char(c)),
                ),
            ),
        ),
    );
    let mut canon: Vec<String> = Vec::new();
    let mut j: usize = 0;
    proof {
        assert(crate::text::views_of_strings(canon@) + collect_canonicals(seg_views, 0)
            =~= collect_canonicals(seg_views, 0));
    }
    while j < segs.len()
        invariant
            views_of_vecs(segs@) == seg_views,
            j <= segs@.len(),
            crate::text::views_of_strings(canon@) + collect_canonicals(seg_views, j as int)
                == collect_canonicals(seg_views, 0),
        decreases segs@.len() - j,
    {
        let seg = &segs[j];
        proof {
            assert(seg@ == seg_views[j as int]);
        }
        let cleaned = trim_chars(seg);
        if cleaned.len() > 0 {
            let toks = split_ws_chars(&cleaned);
            let mut space: Vec<char> = Vec::new();
            space.push(' ');
            proof {
                assert(space@ =~= seq![' ']);
            }
            let canonical = join_chars(&toks, &space);
            if canonical.len() > 0 && !discard_chars(&canonical) {
                let ghost before = crate::text::views_of_strings(canon@);
                canon.push(string_from_chars(&canonical));
                proof {
                    assert(crate::text::views_of_strings(canon@) =~= before.push(canonical@));
                    assert(crate::text::views_of_strings(canon@) + collect_canonicals(
                        seg_views,
                        j + 1,
                    ) =~= before + collect_canonicals(seg_views, j as int));
                }
            }
        }
        j = j + 1;
    }
    proof {
        assert(collect_canonicals(seg_views, segs@.len() as int) =~= Seq::<Seq<char>>::empty());
        assert(crate::text::views_of_strings(canon@) + collect_canonicals(
            seg_views,
            segs@.len() as int,
        ) =~= crate::text::views_of_strings(canon@));
    }
    if canon.len() == 0 {
        return None;
    }
    let sorted = crate::text::sort_strings(&canon);
    let deduped = crate::text::dedup_strings(&sorted);
    Some(join_strings_char(&deduped, '|'))
}

/// The stable identifier of an album: the hex digest of its normalized
/// title and normalized primary artist.
pub fn album_identifier(artist: Option<&str>, album: &str) -> (r: String)
    ensures
        r@ == hex_of(
            album_digest_of(
                normalize_album_title_spec(album@),
                normalize_primary_artist_spec(opt_str_view(artist)),
            ),
        ),
{
    let normalized_album = normalize_album_title(album);
    let normalized_artist = normalize_primary_artist(artist);
    let digest = match &normalized_artist {
        Some(a) => hash_album_artist(normalized_album.as_str(), a.as_str()),
        None => hash_album(normalized_album.as_str()),
    };
    bytes_to_hex(&digest)
}

// ---------------------------------------------------------------------
// Override records and metadata.
// ---------------------------------------------------------------------
/// An override field: trimmed, and dropped entirely when only
/// whitespace remains.
pub open spec fn clean_field(o: Option<Seq<char>>) -> Option<Seq<char>> {
    match o {
        Some(s) => if trim_spec(s).len() == 0 {
            None
        } else {
            Some(trim_spec(s))
        },
        None => None,
    }
}

/// Trim a manual override value, dropping it when nothing remains.
pub fn normalize_override_string(value: String) -> (r: Option<String>)
    ensures
        opt_view(r) == clean_field(Some(value@)),
{
    let v = str_chars(value.as_str());
    let t = trim_chars(&v);
    if t.len() == 0 {
        None
    } else {
        Some(string_from_chars(&t))
    }
}

/// The search phrase handed to a metadata provider: artist, album and,
/// when known, a track title, separated by single spaces.
pub fn build_search_term(artist: &str, album: &str, track_title: Option<&str>) -> (r: String)
    ensures
        r@ == match opt_str_view(track_title) {
            Some(t) => artist@ + seq![' '] + album@ + seq![' '] + t,
            None => artist@ + seq![' '] + album@,
        },
{
    let mut r = String::new();
    r.append(artist);
    crate::text::push_char(&mut r, ' ');
    r.append(album);
    match track_title {
        Some(t) => {
            crate::text::push_char(&mut r, ' ');
            r.append(t);
            proof {
                assert(((Seq::<char>::empty() + artist@).push(' ') + album@).push(' ') + t@
                    =~= artist@ + seq![' '] + album@ + seq![' '] + t@);
            }
            r
        },
        None => {
            proof {
                assert((Seq::<char>::empty() + artist@).push(' ') + album@ =~= artist@ + seq![' ']
                    + album@);
            }
            r
        },
    }
}

/// The tags that survive cleaning: each trimmed, empty ones dropped.
pub open spec fn clean_tags(tags: Seq<Seq<char>>, i: int) -> Seq<Seq<char>>
    decreases tags.len() - i,
    when 0 <= i <= tags.len()
{
    if i == tags.len() {
        Seq::empty()
    } else if trim_spec(tags[i]).len() == 0 {
        clean_tags(tags, i + 1)
    } else {
        seq![trim_spec(tags[i])] + clean_tags(tags, i + 1)
    }
}

/// Rich metadata about an album sourced from manual overrides or remote providers.
#[derive(Debug, Clone)]
pub struct AlbumMetadata {
    pub summary: Option<String>,
    pub url: Option<String>,
    pub release_date: Option<String>,
    pub tags: Vec<String>,
    pub source: Option<String>,
}

impl AlbumMetadata {
    /// Build metadata from the raw field texts a last.fm response
    /// carried: each field trimmed and dropped when empty, the source
    /// recorded.
    pub fn from_lastfm(
        summary: Option<String>,
        url: Option<String>,
        release_date: Option<String>,
        tags: Vec<String>,
    ) -> (r: AlbumMetadata)
        ensures
            opt_view(r.summary) == clean_field(opt_view(summary)),
            opt_view(r.url) == clean_field(opt_view(url)),
            opt_view(r.release_date) == clean_field(opt_view(release_date)),
            crate::text::views_of_strings(r.tags@) == clean_tags(
                crate::text::views_of_strings(tags@),
                0,
            ),
            r.source matches Some(s) && s@ == "lastfm"@,
    {
        let ghost tviews = crate::text::views_of_strings(tags@);
        let mut clean: Vec<String> = Vec::new();
        let mut i: usize = 0;
        proof {
            assert(crate::text::views_of_strings(clean@) + clean_tags(tviews, 0) =~= clean_tags(
                tviews,
                0,
            ));
        }
        while i < tags.len()
            invariant
                tviews == crate::text::views_of_strings(tags@),
                i <= tags@.len(),
                crate::text::views_of_strings(clean@) + clean_tags(tviews, i as int) == clean_tags(
                    tviews,
                    0,
                ),
            decreases tags@.len() - i,
        {
            let tv = str_chars(tags[i].as_str());
            proof {
                assert(tv@ == tviews[i as int]);
            }
            let t = trim_chars(&tv);
            if t.len() > 0 {
                let ghost before = crate::text::views_of_strings(clean@);
                clean.push(string_from_chars(&t));
                proof {
                    assert(crate::text::views_of_strings(clean@) =~= before.push(
                        trim_spec(tviews[i as int]),
                    ));
                    assert(crate::text::views_of_strings(clean@) + clean_tags(tviews, i + 1)
                        =~= before + clean_tags(tviews, i as int));
                }
            }
            i = i + 1;
        }
        proof {
            assert(clean_tags(tviews, tags@.len() as int) =~= Seq::<Seq<char>>::empty());
            assert(crate::text::views_of_strings(clean@) + clean_tags(tviews, tags@.len() as int)
                =~= crate::text::views_of_strings(clean@));
        }
        let summary = match summary {
            Some(s) => normalize_override_string(s),
            None => None,
        };
        let url = match url {
            Some(s) => normalize_override_string(s),
            None => None,
        };
        let release_date = match release_date {
            Some(s) => normalize_override_string(s),
            None => None,
        };
        let mut source = String::new();
        source.append("lastfm");
        AlbumMetadata { summary, url, release_date, tags: clean, source: Some(source) }
    }
}

/// Summary data for an album aggregated from the library
#[derive(Debug, Clone)]
pub struct AlbumSummary {
    pub id: String,
    pub title: String,
    pub primary_artist: Option<String>,
    pub artists: Vec<String>,
    pub track_count: usize,
    pub artwork_path: Option<String>,
    pub metadata: Option<AlbumMetadata>,
    pub is_manual: bool,
}

/// A manual correction request for one album.
#[derive(Debug, Clone)]
pub struct ManualAlbumUpdate {
    pub title: Option<String>,
    pub primary_artist: Option<String>,
    pub search_album: Option<String>,
    pub search_artist: Option<String>,
    pub refresh_artwork: bool,
}

/// The serialization format for exported override records.
#[derive(Debug, Clone, Copy, PartialEq, Eq, Structural)]
pub enum AlbumExportFormat {
    Json,
    Yaml,
}

/// A stored manual override for one album; timestamps are whole
/// seconds since the epoch.
#[derive(Debug, Clone)]
pub struct AlbumOverrideRecord {
    pub album_id: String,
    pub title: Option<String>,
    pub primary_artist: Option<String>,
    pub search_album: Option<String>,
    pub search_artist: Option<String>,
    pub metadata: Option<AlbumMetadata>,
    pub artwork_path: Option<String>,
    pub updated_at: i64,
}

impl AlbumOverrideRecord {
    /// A fresh, empty record for an album.
    pub fn new(album_id: &str, now: i64) -> (r: AlbumOverrideRecord)
        ensures
            r.album_id@ == album_id@,
            r.title is None,
            r.primary_artist is None,
            r.search_album is None,
            r.search_artist is None,
            r.metadata is None,
            r.artwork_path is None,
            r.updated_at == now,
    {
        let mut id = String::new();
        id.append(album_id);
        AlbumOverrideRecord {
            album_id: id,
            title: None,
            primary_artist: None,
            search_album: None,
            search_artist: None,
            metadata: None,
            artwork_path: None,
            updated_at: now,
        }
    }
}

/// Why a manual update request is rejected.
#[derive(Debug, Clone, Copy, PartialEq, Eq, Structural)]
pub enum OverrideError {
    /// The album identifier was empty or only whitespace.
    EmptyAlbumId,
    /// No field was provided and no artwork refresh was asked for.
    NoFields,
}

/// Accept a manual update only for a real album identifier and only
/// when it asks for something.
pub fn validate_manual_update(album_id: &str, update: &ManualAlbumUpdate) -> (r: Result<
    (),
    OverrideError,
>)
    ensures
        trim_spec(album_id@).len() == 0 <==> r == Err::<(), OverrideError>(
            OverrideError::EmptyAlbumId,
        ),
        trim_spec(album_id@).len() > 0 && !update.refresh_artwork && update.title is None
            && update.primary_artist is None && update.search_album is None
            && update.search_artist is None <==> r == Err::<(), OverrideError>(
            OverrideError::NoFields,
        ),
        r is Ok <==> trim_spec(album_id@).len() > 0 && (update.refresh_artwork
            || update.title is Some || update.primary_artist is Some
            || update.search_album is Some || update.search_artist is Some),
{
    let idv = str_chars(album_id);
    let trimmed = trim_chars(&idv);
    if trimmed.len() == 0 {
        return Err(OverrideError::EmptyAlbumId);
    }
    if !update.refresh_artwork && update.title.is_none() && update.primary_artist.is_none()
        && update.search_album.is_none() && update.search_artist.is_none() {
        return Err(OverrideError::NoFields);
    }
    Ok(())
}

/// Fold a manual update into a record: each provided field replaces
/// the stored one after trimming (emptied fields become absent),
/// untouched fields stay, and the update moment is recorded.
pub fn apply_manual_update(record: AlbumOverrideRecord, update: ManualAlbumUpdate, now: i64) -> (r:
    AlbumOverrideRecord)
    ensures
        r.album_id@ == record.album_id@,
        opt_view(r.title) == match update.title {
            Some(v) => clean_field(Some(v@)),
            None => opt_view(record.title),
        },
        opt_view(r.primary_artist) == match update.primary_artist {
            Some(v) => clean_field(Some(v@)),
            None => opt_view(record.primary_artist),
        },
        opt_view(r.search_album) == match update.search_album {
            Some(v) => clean_field(Some(v@)),
            None => opt_view(record.search_album),
        },
        opt_view(r.search_artist) == match update.search_artist {
            Some(v) => clean_field(Some(v@)),
            None => opt_view(record.search_artist),
        },
        r.metadata is Some <==> record.metadata is Some,
        opt_view(r.artwork_path) == opt_view(record.artwork_path),
        r.updated_at == now,
{
    let mut r = record;
    match update.title {
        Some(v) => {
            r.title = normalize_override_string(v);
        },
        None => {},
    }
    match update.primary_artist {
        Some(v) => {
            r.primary_artist = normalize_override_string(v);
        },
        None => {},
    }
    match update.search_album {
        Some(v) => {
            r.search_album = normalize_override_string(v);
        },
        None => {},
    }
    match update.search_artist {
        Some(v) => {
            r.search_artist = normalize_override_string(v);
        },
        None => {},
    }
    r.updated_at = now;
    r
}

// ---------------------------------------------------------------------
// Artwork selection.
// ---------------------------------------------------------------------
/// One image entry of a provider response: its size label and its URL
/// text.
#[derive(Debug, Clone)]
pub struct ImageEntry {
    pub size: String,
    pub text: String,
}

/// The size labels a provider offers, best first.
pub open spec fn lastfm_image_priority() -> Seq<Seq<char>> {
    seq!["mega"@, "extralarge"@, "large"@, "medium"@, "small"@]
}

/// Whether an entry offers a usable URL for the wanted size.
pub open spec fn entry_matches(e: ImageEntry, size: Seq<char>) -> bool {
    e.size@ == size && trim_spec(e.text@).len() > 0
}

/// The first usable URL of the wanted size, from position `i` on.
pub open spec fn find_url(entries: Seq<ImageEntry>, size: Seq<char>, i: int) -> Option<Seq<char>>
    decreases entries.len() - i,
    when 0 <= i <= entries.len()
{
    if i == entries.len() {
        None
    } else if entry_matches(entries[i], size) {
        Some(entries[i].text@)
    } else {
        find_url(entries, size, i + 1)
    }
}

/// The URL selected across the size priorities, from priority `i` on.
pub open spec fn select_artwork_spec(entries: Seq<ImageEntry>, i: int) -> Option<Seq<char>>
    decreases lastfm_image_priority().len() - i,
    when 0 <= i <= lastfm_image_priority().len()
{
    if i == lastfm_image_priority().len() {
        None
    } else {
        match find_url(entries, lastfm_image_priority()[i], 0) {
            Some(u) => Some(u),
            None => select_artwork_spec(entries, i + 1),
        }
    }
}

fn find_url_exec(entries: &Vec<ImageEntry>, size: &str) -> (r: Option<String>)
    ensures
        opt_view(r) == find_url(entries@, size@, 0),
{
    let mut i: usize = 0;
    while i < entries.len()
        invariant
            i <= entries@.len(),
            find_url(entries@, size@, 0) == find_url(entries@, size@, i as int),
        decreases entries@.len() - i,
    {
        let e = &entries[i];
        let sv = str_chars(e.size.as_str());
        let tv = str_chars(e.text.as_str());
        let t = trim_chars(&tv);
        if chars_eq_str(&sv, size) && t.len() > 0 {
            proof {
                assert(entry_matches(entries@[i as int], size@));
            }
            return Some(e.text.clone());
        }
        proof {
            assert(!entry_matches(entries@[i as int], size@));
        }
        i = i + 1;
    }
    None
}

/// Select the best artwork URL from a provider's image list: sizes are
/// tried best first, and within one size the first entry with a
/// non-blank URL wins.
pub fn extract_image_url(entries: &Vec<ImageEntry>) -> (r: Option<String>)
    ensures
        opt_view(r) == select_artwork_spec(entries@, 0),
{
    let mut i: usize = 0;
    while i < 5
        invariant
            i <= 5,
            select_artwork_spec(entries@, 0) == select_artwork_spec(entries@, i as int),
        decreases 5 - i,
    {
        let size: &str = if i == 0 {
            "mega"
        } else if i == 1 {
            "extralarge"
        } else if i == 2 {
            "large"
        } else if i == 3 {
            "medium"
        } else {
            "small"
        };
        proof {
            assert(size@ == lastfm_image_priority()[i as int]);
        }
        match find_url_exec(entries, size) {
            Some(u) => {
                return Some(u);
            },
            None => {},
        }
        i = i + 1;
    }
    None
}

// ---------------------------------------------------------------------
// Album aggregation.
// ---------------------------------------------------------------------
/// One album's figures, gathered from the library's tracks.
#[derive(Debug)]
pub struct AlbumAggregate {
    /// The stable album identifier.
    pub id: String,
    /// The trimmed title of the first track that named the album.
    pub title: String,
    /// The first non-blank artist seen for the album.
    pub primary_artist: Option<String>,
    /// Every distinct contributing artist, in order of appearance.
    pub artists: Vec<String>,
    /// How many tracks belong to the album.
    pub track_count: usize,
    /// The position, in the input, of the first track of the album.
    pub first_track: usize,
}

/// An aggregate's complete state, as the mathematical model sees it.
pub struct AggView {
    pub id: Seq<char>,
    pub title: Seq<char>,
    pub primary_artist: Option<Seq<char>>,
    pub artists: Seq<Seq<char>>,
    pub track_count: int,
    pub first_track: int,
}

impl View for AlbumAggregate {
    type V = AggView;

    open spec fn view(&self) -> AggView {
        AggView {
            id: self.id@,
            title: self.title@,
            primary_artist: opt_view(self.primary_artist),
            artists: crate::text::views_of_strings(self.artists@),
            track_count: self.track_count as int,
            first_track: self.first_track as int,
        }
    }
}

/// The views of a sequence of aggregates.
pub open spec fn agg_views(s: Seq<AlbumAggregate>) -> Seq<AggView> {
    Seq::new(s.len(), |i: int| s[i]@)
}

/// The album key of one track: its trimmed album title and its cleaned
/// artist, absent when the track names no album.
pub open spec fn track_album_key(t: crate::library::Track) -> Option<(Seq<char>, Option<Seq<char>>)> {
    match opt_view(t.metadata.album) {
        None => None,
        Some(a) => if trim_spec(a).len() == 0 {
            None
        } else {
            Some((trim_spec(a), clean_field(opt_view(t.metadata.artist))))
        },
    }
}

/// The identifier an aggregate carries, from its trimmed title and
/// cleaned artist.
pub open spec fn agg_id_of(title: Seq<char>, artist: Option<Seq<char>>) -> Seq<char> {
    hex_of(album_digest_of(normalize_album_title_spec(title), normalize_primary_artist_spec(artist)))
}

/// The position of the aggregate with the given identifier, or `-1`.
pub open spec fn find_agg_index(aggs: Seq<AggView>, id: Seq<char>, i: int) -> int
    decreases aggs.len() - i,
    when 0 <= i <= aggs.len()
{
    if i == aggs.len() {
        -1
    } else if aggs[i].id == id {
        i
    } else {
        find_agg_index(aggs, id, i + 1)
    }
}

/// Whether one of the gathered artist names equals `a`.
pub open spec fn has_artist(artists: Seq<Seq<char>>, a: Seq<char>) -> bool {
    exists|k: int| 0 <= k < artists.len() && artists[k] == a
}

/// One track's contribution to an aggregate it belongs to: the first
/// non-blank artist becomes primary, a new artist joins the list, and
/// the track is counted.
pub open spec fn agg_touch(agg: AggView, artist: Option<Seq<char>>) -> AggView {
    AggView {
        primary_artist: if agg.primary_artist is None {
            artist
        } else {
            agg.primary_artist
        },
        artists: match artist {
            Some(a) => if has_artist(agg.artists, a) {
                agg.artists
            } else {
                agg.artists.push(a)
            },
            None => agg.artists,
        },
        track_count: agg.track_count + 1,
        ..agg
    }
}

/// Fold one track into the aggregates: tracks without an album are
/// skipped, a known album is updated in place, and a new album opens a
/// fresh aggregate at the end.
pub open spec fn agg_insert(aggs: Seq<AggView>, t: crate::library::Track, pos: int) -> Seq<AggView> {
    match track_album_key(t) {
        None => aggs,
        Some((title, artist)) => {
            let id = agg_id_of(title, artist);
            let j = find_agg_index(aggs, id, 0);
            if j == -1 {
                aggs.push(
                    agg_touch(
                        AggView {
                            id,
                            title,
                            primary_artist: artist,
                            artists: Seq::empty(),
                            track_count: 0,
                            first_track: pos,
                        },
                        artist,
                    ),
                )
            } else {
                aggs.update(j, agg_touch(aggs[j], artist))
            }
        },
    }
}

/// The aggregates after the first `i` tracks.
pub open spec fn aggregate_spec(tracks: Seq<crate::library::Track>, i: int) -> Seq<AggView>
    decreases i,
    when 0 <= i <= tracks.len()
{
    if i <= 0 {
        Seq::empty()
    } else {
        agg_insert(aggregate_spec(tracks, i - 1), tracks[i - 1], i - 1)
    }
}

/// Every aggregate's track count is bounded by the number of tracks
/// folded in so far.
proof fn lemma_agg_counts(tracks: Seq<crate::library::Track>, i: int)
    requires
        0 <= i <= tracks.len(),
    ensures
        forall|m: int|
            0 <= m < aggregate_spec(tracks, i).len() ==> #[trigger] aggregate_spec(
                tracks,
                i,
            )[m].track_count <= i,
    decreases i,
{
    if i > 0 {
        lemma_agg_counts(tracks, i - 1);
        let prev = aggregate_spec(tracks, i - 1);
        let cur = aggregate_spec(tracks, i);
        match track_album_key(tracks[i - 1]) {
            None => {},
            Some((title, artist)) => {
                let id = agg_id_of(title, artist);
                let j = find_agg_index(prev, id, 0);
                if j == -1 {
                    assert(forall|m: int|
                        0 <= m < cur.len() - 1 ==> #[trigger] cur[m].track_count
                            == prev[m].track_count);
                } else {
                    lemma_find_agg_in_range(prev, id, 0);
                }
            },
        }
    }
}

/// A found aggregate index is a real position.
proof fn lemma_find_agg_in_range(aggs: Seq<AggView>, id: Seq<char>, i: int)
    requires
        0 <= i <= aggs.len(),
    ensures
        find_agg_index(aggs, id, i) == -1 || i <= find_agg_index(aggs, id, i) < aggs.len(),
    decreases aggs.len() - i,
{
    if i < aggs.len() && aggs[i].id != id {
        lemma_find_agg_in_range(aggs, id, i + 1);
    }
}

fn clean_artist_exec(artist: &Option<String>) -> (r: Option<String>)
    ensures
        opt_view(r) == clean_field(opt_view(*artist)),
{
    match artist {
        Some(a) => {
            let av = str_chars(a.as_str());
            let t = trim_chars(&av);
            if t.len() == 0 {
                None
            } else {
                Some(string_from_chars(&t))
            }
        },
        None => None,
    }
}

/// Group the library's tracks into album aggregates, in order of first
/// appearance: per track, the trimmed album title keys the album
/// through [`album_identifier`], the first non-blank artist becomes
/// the primary, and every distinct artist is collected.
pub fn aggregate_albums(tracks: &Vec<crate::library::Track>) -> (r: Vec<AlbumAggregate>)
    ensures
        agg_views(r@) == aggregate_spec(tracks@, tracks@.len() as int),
{
    let mut aggs: Vec<AlbumAggregate> = Vec::new();
    let mut i: usize = 0;
    proof {
        assert(agg_views(aggs@) =~= aggregate_spec(tracks@, 0));
    }
    while i < tracks.len()
        invariant
            i <= tracks@.len(),
            agg_views(aggs@) == aggregate_spec(tracks@, i as int),
        decreases tracks@.len() - i,
    {
        proof {
            lemma_agg_counts(tracks@, i as int);
        }
        let t = &tracks[i];
        proof {
            assert(*t == tracks@[i as int]);
        }
        match &t.metadata.album {
            None => {},
            Some(album) => {
                let av = str_chars(album.as_str());
                let tv = trim_chars(&av);
                if tv.len() > 0 {
                    let title = string_from_chars(&tv);
                    let artist = clean_artist_exec(&t.metadata.artist);
                    let artist_ref: Option<&str> = match &artist {
                        Some(a) => Some(a.as_str()),
                        None => None,
                    };
                    let id = album_identifier(artist_ref, title.as_str());
                    let ghost key = track_album_key(tracks@[i as int]);
                    proof {
                        assert(key == Some((title@, opt_view(artist))));
                        assert(id@ == agg_id_of(title@, opt_view(artist)));
                    }
                    let ghost old_views = agg_views(aggs@);
                    // look for an aggregate this album already has
                    let idv = str_chars(id.as_str());
                    let mut j: usize = 0;
                    let mut found: Option<usize> = None;
                    while j < aggs.len()
                        invariant
                            idv@ == id@,
                            old_views == agg_views(aggs@),
                            j <= aggs@.len(),
                            found is None ==> find_agg_index(old_views, id@, 0) == find_agg_index(
                                old_views,
                                id@,
                                j as int,
                            ),
                            found matches Some(f) ==> f < aggs@.len() && find_agg_index(
                                old_views,
                                id@,
                                0,
                            ) == f,
                        decreases aggs@.len() - j,
                    {
                        if found.is_none() {
                            let cv = str_chars(aggs[j].id.as_str());
                            if chars_eq_str(&cv, id.as_str()) {
                                proof {
                                    assert(old_views[j as int].id == id@);
                                    assert(find_agg_index(old_views, id@, j as int) == j);
                                }
                                found = Some(j);
                            }
                        }
                        j = j + 1;
                    }
                    match found {
                        None => {
                            proof {
                                assert(find_agg_index(old_views, id@, aggs@.len() as int) == -1);
                            }
                            let fresh = AlbumAggregate {
                                id,
                                title,
                                primary_artist: crate::library::clone_opt_string(&artist),
                                artists: Vec::new(),
                                track_count: 0,
                                first_track: i,
                            };
                            let ghost fresh_view = fresh@;
                            let ghost spec_base = (AggView {
                                id: agg_id_of(title@, opt_view(artist)),
                                title: title@,
                                primary_artist: opt_view(artist),
                                artists: Seq::empty(),
                                track_count: 0,
                                first_track: i as int,
                            });
                            proof {
                                assert(fresh_view.artists =~= Seq::<Seq<char>>::empty());
                                assert(fresh_view == spec_base);
                            }
                            let touched = touch_aggregate(fresh, &artist);
                            proof {
                                assert(touched@ == agg_touch(spec_base, opt_view(artist)));
                            }
                            aggs.push(touched);
                            proof {
                                assert(agg_views(aggs@) =~= old_views.push(
                                    agg_touch(spec_base, opt_view(artist)),
                                ));
                            }
                        },
                        Some(f) => {
                            let ghost fj = f as int;
                            let existing = aggs.remove(f);
                            let ghost existing_view = existing@;
                            proof {
                                assert(existing_view == old_views[fj]);
                            }
                            let touched = touch_aggregate(existing, &artist);
                            proof {
                                assert(touched@ == agg_touch(old_views[fj], opt_view(artist)));
                            }
                            aggs.insert(f, touched);
                            proof {
                                assert(agg_views(aggs@) =~= old_views.update(
                                    fj,
                                    agg_touch(old_views[fj], opt_view(artist)),
                                ));
                            }
                        },
                    }
                } else {
                    proof {
                        assert(track_album_key(tracks@[i as int]) is None);
                    }
                }
            },
        }
        i = i + 1;
    }
    proof {
        assert(tracks@.len() as int == tracks@.len());
    }
    aggs
}

/// Apply one track's contribution to an aggregate.
fn touch_aggregate(agg: AlbumAggregate, artist: &Option<String>) -> (r: AlbumAggregate)
    requires
        agg@.track_count < usize::MAX,
    ensures
        r@ == agg_touch(agg@, opt_view(*artist)),
{
    let mut agg = agg;
    if agg.primary_artist.is_none() {
        agg.primary_artist = crate::library::clone_opt_string(artist);
    }
    match artist {
        Some(a) => {
            let ghost before = crate::text::views_of_strings(agg.artists@);
            let av = str_chars(a.as_str());
            let mut k: usize = 0;
            let mut present = false;
            while k < agg.artists.len()
                invariant
                    av@ == a@,
                    before == crate::text::views_of_strings(agg.artists@),
                    k <= agg.artists@.len(),
                    present == exists|m: int| 0 <= m < k && before[m] == a@,
                decreases agg.artists@.len() - k,
            {
                if chars_eq_str(&av, agg.artists[k].as_str()) {
                    proof {
                        assert(before[k as int] == a@);
                    }
                    present = true;
                }
                k = k + 1;
            }
            if !present {
                agg.artists.push(a.clone());
                proof {
                    assert(crate::text::views_of_strings(agg.artists@) =~= before.push(a@));
                }
            }
        },
        None => {},
    }
    agg.track_count = agg.track_count + 1;
    agg
}

/// Whether an album matches a search query: the lowercased query
/// occurs in the lowercased title or in some lowercased artist.
pub fn album_query_matches(title: &str, artists: &Vec<String>, query: &str) -> (r: bool)
    ensures
        r == (contains_seq(lower_of(title@), lower_of(query@)) || exists|k: int|
            0 <= k < artists@.len() && contains_seq(
                lower_of(#[trigger] artists@[k]@),
                lower_of(query@),
            )),
{
    let q = to_lowercase(query);
    let qv = str_chars(q.as_str());
    let lt = to_lowercase(title);
    let tv = str_chars(lt.as_str());
    if crate::text::contains_sub(&tv, &qv) {
        return true;
    }
    let mut k: usize = 0;
    let mut found = false;
    while k < artists.len()
        invariant
            qv@ == lower_of(query@),
            k <= artists@.len(),
            found == exists|m: int|
                0 <= m < k && contains_seq(lower_of(#[trigger] artists@[m]@), lower_of(query@)),
        decreases artists@.len() - k,
    {
        let la = to_lowercase(artists[k].as_str());
        let av = str_chars(la.as_str());
        if crate::text::contains_sub(&av, &qv) {
            proof {
                assert(contains_seq(lower_of(artists@[k as int]@), lower_of(query@)));
            }
            found = true;
        }
        k = k + 1;
    }
    found
}

} // verus!
