//! The in-memory music library: track records with their tag metadata,
//! lookup, search and aggregation over them, and the merge rule for tag
//! sources.  Scanning directories and the on-disk cache are I/O and live
//! with the embedding application, which feeds tracks in through
//! [`Library::add_track`].

use vstd::prelude::*;

use crate::text::{
    contains_seq, contains_sub, dedup_spec, dedup_strings, lower_of, opt_view, sort_spec,
    sort_strings, str_chars, to_lowercase, views_of_strings,
};
use crate::utils::file_name_spec;

verus! {

/// Track metadata; the file path is a plain string, the modification
/// time whole seconds since the epoch.
#[derive(Debug)]
pub struct TrackMetadata {
    /// Track title
    pub title: Option<String>,
    /// Artist name
    pub artist: Option<String>,
    /// Album name
    pub album: Option<String>,
    /// Track number
    pub track_number: Option<u32>,
    /// Year
    pub year: Option<i32>,
    /// Genre
    pub genre: Option<String>,
    /// Duration in seconds
    pub duration: Option<u64>,
    /// File size in bytes
    pub file_size: u64,
    /// Last modified time, seconds since the epoch
    pub last_modified: i64,
    /// File path
    pub file_path: String,
}

/// Copy an optional string.
pub fn clone_opt_string(o: &Option<String>) -> (r: Option<String>)
    ensures
        r == *o,
{
    match o {
        Some(s) => Some(s.clone()),
        None => None,
    }
}

impl Clone for TrackMetadata {
    fn clone(&self) -> (r: Self)
        ensures
            r == *self,
    {
        TrackMetadata {
            title: clone_opt_string(&self.title),
            artist: clone_opt_string(&self.artist),
            album: clone_opt_string(&self.album),
            track_number: self.track_number,
            year: self.year,
            genre: clone_opt_string(&self.genre),
            duration: self.duration,
            file_size: self.file_size,
            last_modified: self.last_modified,
            file_path: self.file_path.clone(),
        }
    }
}

/// A music track
#[derive(Debug)]
pub struct Track {
    /// Track metadata
    pub metadata: TrackMetadata,
    /// Unique identifier
    pub id: String,
}

impl Clone for Track {
    fn clone(&self) -> (r: Self)
        ensures
            r == *self,
    {
        Track { metadata: self.metadata.clone(), id: self.id.clone() }
    }
}

impl Track {
    /// Create a track record from already-extracted metadata, under a
    /// fresh random identifier.
    pub fn new(metadata: TrackMetadata) -> (r: Self)
        ensures
            r.metadata == metadata,
            r.id@.len() == 36,
    {
        let id = crate::ids::new_uuid_string();
        Track { metadata, id }
    }

    /// Get display name for the track: "artist - title" when both are
    /// known, the bare title otherwise, and the file name as a last
    /// resort.
    pub fn display_name(&self) -> (r: String)
        ensures
            r@ == match (opt_view(self.metadata.title), opt_view(self.metadata.artist)) {
                (Some(t), Some(a)) => a + " - "@ + t,
                (Some(t), None) => t,
                (None, _) => file_name_spec(self.metadata.file_path@),
            },
    {
        match (&self.metadata.title, &self.metadata.artist) {
            (Some(t), Some(a)) => {
                let mut r = a.clone();
                r.append(" - ");
                r.append(t.as_str());
                r
            },
            (Some(t), None) => t.clone(),
            (None, _) => {
                let pv = str_chars(self.metadata.file_path.as_str());
                file_name_exec(&pv)
            },
        }
    }

    /// Get album artist info
    pub fn album_artist(&self) -> (r: Option<String>)
        ensures
            r == self.metadata.artist,
    {
        clone_opt_string(&self.metadata.artist)
    }

    /// Get album info
    pub fn album(&self) -> (r: Option<String>)
        ensures
            r == self.metadata.album,
    {
        clone_opt_string(&self.metadata.album)
    }
}

fn file_name_exec(pv: &Vec<char>) -> (r: String)
    ensures
        r@ == file_name_spec(pv@),
{
    proof {
        crate::text::lemma_last_index_bounds(pv@, '/');
    }
    match crate::text::find_last_char(pv, '/') {
        Some(i) => {
            let n = pv.len();
            let tail = crate::text::subrange_chars(pv, i + 1, n);
            proof {
                assert(pv@.subrange(i + 1, pv@.len() as int) =~= pv@.skip(i + 1));
            }
            crate::text::string_from_chars(&tail)
        },
        None => {
            let n = pv.len();
            let tail = crate::text::subrange_chars(pv, 0, n);
            proof {
                assert(pv@.subrange(0, pv@.len() as int) =~= pv@.skip(0));
            }
            crate::text::string_from_chars(&tail)
        },
    }
}

/// The tag fields one metadata source can contribute.
#[derive(Debug)]
pub struct TagFields {
    pub title: Option<String>,
    pub artist: Option<String>,
    pub album: Option<String>,
    pub track_number: Option<u32>,
    pub year: Option<i32>,
    pub genre: Option<String>,
}

/// A field keeps its value; only an absent field takes the incoming
/// one.
pub open spec fn merged<T>(current: Option<T>, incoming: Option<T>) -> Option<T> {
    if current is None {
        incoming
    } else {
        current
    }
}

/// Merge the fields of one tag source into the fields gathered so far:
/// the first source to offer a field wins.
pub fn merge_metadata_from_tag(current: &mut TagFields, incoming: TagFields)
    ensures
        final(current).title == merged(old(current).title, incoming.title),
        final(current).artist == merged(old(current).artist, incoming.artist),
        final(current).album == merged(old(current).album, incoming.album),
        final(current).track_number == merged(old(current).track_number, incoming.track_number),
        final(current).year == merged(old(current).year, incoming.year),
        final(current).genre == merged(old(current).genre, incoming.genre),
{
    if current.title.is_none() {
        current.title = incoming.title;
    }
    if current.artist.is_none() {
        current.artist = incoming.artist;
    }
    if current.album.is_none() {
        current.album = incoming.album;
    }
    if current.track_number.is_none() {
        current.track_number = incoming.track_number;
    }
    if current.year.is_none() {
        current.year = incoming.year;
    }
    if current.genre.is_none() {
        current.genre = incoming.genre;
    }
}

impl TrackMetadata {
    /// Assemble track metadata from merged tag fields and the file's
    /// own figures.
    pub fn from_parts(
        tags: TagFields,
        duration: Option<u64>,
        file_size: u64,
        last_modified: i64,
        file_path: String,
    ) -> (r: TrackMetadata)
        ensures
            r.title == tags.title,
            r.artist == tags.artist,
            r.album == tags.album,
            r.track_number == tags.track_number,
            r.year == tags.year,
            r.genre == tags.genre,
            r.duration == duration,
            r.file_size == file_size,
            r.last_modified == last_modified,
            r.file_path == file_path,
    {
        TrackMetadata {
            title: tags.title,
            artist: tags.artist,
            album: tags.album,
            track_number: tags.track_number,
            year: tags.year,
            genre: tags.genre,
            duration,
            file_size,
            last_modified,
            file_path,
        }
    }
}

// ---------------------------------------------------------------------
// The library store.
// ---------------------------------------------------------------------
/// The tracks of `s` whose identifier and path both differ from the
/// given ones, in order.
pub open spec fn remove_matching(s: Seq<Track>, id: Seq<char>, path: Seq<char>, i: int) -> Seq<
    Track,
>
    decreases s.len() - i,
    when 0 <= i <= s.len()
{
    if i == s.len() {
        Seq::empty()
    } else if s[i].id@ == id || s[i].metadata.file_path@ == path {
        remove_matching(s, id, path, i + 1)
    } else {
        seq![s[i]] + remove_matching(s, id, path, i + 1)
    }
}

/// The tracks of `s` whose identifier differs from the given one.
pub open spec fn remove_by_id(s: Seq<Track>, id: Seq<char>, i: int) -> Seq<Track>
    decreases s.len() - i,
    when 0 <= i <= s.len()
{
    if i == s.len() {
        Seq::empty()
    } else if s[i].id@ == id {
        remove_by_id(s, id, i + 1)
    } else {
        seq![s[i]] + remove_by_id(s, id, i + 1)
    }
}

/// The first track with the given identifier, from position `i` on.
pub open spec fn find_by_id(s: Seq<Track>, id: Seq<char>, i: int) -> Option<Track>
    decreases s.len() - i,
    when 0 <= i <= s.len()
{
    if i == s.len() {
        None
    } else if s[i].id@ == id {
        Some(s[i])
    } else {
        find_by_id(s, id, i + 1)
    }
}

/// The first track at the given file path, from position `i` on.
pub open spec fn find_by_path(s: Seq<Track>, path: Seq<char>, i: int) -> Option<Track>
    decreases s.len() - i,
    when 0 <= i <= s.len()
{
    if i == s.len() {
        None
    } else if s[i].metadata.file_path@ == path {
        Some(s[i])
    } else {
        find_by_path(s, path, i + 1)
    }
}

/// An optional field, or the empty string.
pub open spec fn opt_or_empty(o: Option<String>) -> Seq<char> {
    match o {
        Some(s) => s@,
        None => ""@,
    }
}

/// Whether a track matches a lowercased search query: the query occurs
/// in its lowercased title, artist or album.
pub open spec fn track_matches(t: Track, lq: Seq<char>) -> bool {
    ||| contains_seq(lower_of(opt_or_empty(t.metadata.title)), lq)
    ||| contains_seq(lower_of(opt_or_empty(t.metadata.artist)), lq)
    ||| contains_seq(lower_of(opt_or_empty(t.metadata.album)), lq)
}

/// The tracks matching a lowercased query, in library order.
pub open spec fn search_filter(s: Seq<Track>, lq: Seq<char>, i: int) -> Seq<Track>
    decreases s.len() - i,
    when 0 <= i <= s.len()
{
    if i == s.len() {
        Seq::empty()
    } else if track_matches(s[i], lq) {
        seq![s[i]] + search_filter(s, lq, i + 1)
    } else {
        search_filter(s, lq, i + 1)
    }
}

/// The tracks whose artist field equals the given name exactly.
pub open spec fn filter_by_artist(s: Seq<Track>, artist: Seq<char>, i: int) -> Seq<Track>
    decreases s.len() - i,
    when 0 <= i <= s.len()
{
    if i == s.len() {
        Seq::empty()
    } else if opt_view(s[i].metadata.artist) == Some(artist) {
        seq![s[i]] + filter_by_artist(s, artist, i + 1)
    } else {
        filter_by_artist(s, artist, i + 1)
    }
}

/// The tracks whose album field equals the given name exactly.
pub open spec fn filter_by_album(s: Seq<Track>, album: Seq<char>, i: int) -> Seq<Track>
    decreases s.len() - i,
    when 0 <= i <= s.len()
{
    if i == s.len() {
        Seq::empty()
    } else if opt_view(s[i].metadata.album) == Some(album) {
        seq![s[i]] + filter_by_album(s, album, i + 1)
    } else {
        filter_by_album(s, album, i + 1)
    }
}

/// Every artist name that appears, in order of appearance, repeats
/// included.
pub open spec fn all_artists(s: Seq<Track>, i: int) -> Seq<Seq<char>>
    decreases s.len() - i,
    when 0 <= i <= s.len()
{
    if i == s.len() {
        Seq::empty()
    } else {
        match opt_view(s[i].metadata.artist) {
            Some(a) => seq![a] + all_artists(s, i + 1),
            None => all_artists(s, i + 1),
        }
    }
}

/// Every album name that appears, in order of appearance, repeats
/// included.
pub open spec fn all_albums(s: Seq<Track>, i: int) -> Seq<Seq<char>>
    decreases s.len() - i,
    when 0 <= i <= s.len()
{
    if i == s.len() {
        Seq::empty()
    } else {
        match opt_view(s[i].metadata.album) {
            Some(a) => seq![a] + all_albums(s, i + 1),
            None => all_albums(s, i + 1),
        }
    }
}

/// Every track identifier, in order.
pub open spec fn all_ids(s: Seq<Track>, i: int) -> Seq<Seq<char>>
    decreases s.len() - i,
    when 0 <= i <= s.len()
{
    if i == s.len() {
        Seq::empty()
    } else {
        seq![s[i].id@] + all_ids(s, i + 1)
    }
}

/// Music library
pub struct Library {
    tracks: Vec<Track>,
}

impl View for Library {
    type V = Seq<Track>;

    closed spec fn view(&self) -> Seq<Track> {
        self.tracks@
    }
}

impl Library {
    /// Create a new, empty music library.
    pub fn new() -> (r: Self)
        ensures
            r@ == Seq::<Track>::empty(),
    {
        let r = Library { tracks: Vec::new() };
        proof {
            assert(r@ =~= Seq::<Track>::empty());
        }
        r
    }

    /// Add a track: any stored track under the same identifier or the
    /// same file path is replaced.
    pub fn add_track(&mut self, track: Track)
        ensures
            final(self)@ == remove_matching(
                old(self)@,
                track.id@,
                track.metadata.file_path@,
                0,
            ).push(track),
    {
        let ghost s = self.tracks@;
        let ghost id = track.id@;
        let ghost path = track.metadata.file_path@;
        let mut kept: Vec<Track> = Vec::new();
        let mut i: usize = 0;
        proof {
            assert(kept@ + remove_matching(s, id, path, 0) =~= remove_matching(s, id, path, 0));
        }
        while i < self.tracks.len()
            invariant
                s == self.tracks@,
                id == track.id@,
                path == track.metadata.file_path@,
                i <= s.len(),
                kept@ + remove_matching(s, id, path, i as int) == remove_matching(s, id, path, 0),
            decreases s.len() - i,
        {
            let t = &self.tracks[i];
            let same_id = t.id == track.id;
            let same_path = t.metadata.file_path == track.metadata.file_path;
            if !same_id && !same_path {
                let ghost before = kept@;
                kept.push(t.clone());
                proof {
                    assert(kept@ + remove_matching(s, id, path, i + 1) =~= before + (seq![s[i as int]]
                        + remove_matching(s, id, path, i + 1)));
                }
            }
            i = i + 1;
        }
        proof {
            assert(remove_matching(s, id, path, s.len() as int) =~= Seq::<Track>::empty());
            assert(kept@ + remove_matching(s, id, path, s.len() as int) =~= kept@);
        }
        kept.push(track);
        self.tracks = kept;
    }

    /// Get all tracks
    pub fn get_tracks(&self) -> (r: Vec<Track>)
        ensures
            r@ == self@,
    {
        let mut r: Vec<Track> = Vec::new();
        let mut i: usize = 0;
        while i < self.tracks.len()
            invariant
                i <= self@.len(),
                self@ == self.tracks@,
                r@ == self@.take(i as int),
            decreases self@.len() - i,
        {
            r.push(self.tracks[i].clone());
            proof {
                assert(self@.take(i + 1) =~= self@.take(i as int).push(self@[i as int]));
            }
            i = i + 1;
        }
        proof {
            assert(self@.take(self@.len() as int) =~= self@);
        }
        r
    }

    /// Get track by ID
    pub fn get_track(&self, id: &str) -> (r: Option<Track>)
        ensures
            r == find_by_id(self@, id@, 0),
    {
        let mut i: usize = 0;
        while i < self.tracks.len()
            invariant
                i <= self@.len(),
                self@ == self.tracks@,
                find_by_id(self@, id@, 0) == find_by_id(self@, id@, i as int),
            decreases self@.len() - i,
        {
            let t = &self.tracks[i];
            let tid = str_chars(t.id.as_str());
            if crate::text::chars_eq_str(&tid, id) {
                return Some(t.clone());
            }
            i = i + 1;
        }
        None
    }

    /// Get track by file path
    pub fn get_track_by_path(&self, path: &str) -> (r: Option<Track>)
        ensures
            r == find_by_path(self@, path@, 0),
    {
        let mut i: usize = 0;
        while i < self.tracks.len()
            invariant
                i <= self@.len(),
                self@ == self.tracks@,
                find_by_path(self@, path@, 0) == find_by_path(self@, path@, i as int),
            decreases self@.len() - i,
        {
            let t = &self.tracks[i];
            let tp = str_chars(t.metadata.file_path.as_str());
            if crate::text::chars_eq_str(&tp, path) {
                return Some(t.clone());
            }
            i = i + 1;
        }
        None
    }

    /// Search tracks by query: case-insensitive containment in title,
    /// artist or album.
    pub fn search_tracks(&self, query: &str) -> (r: Vec<Track>)
        ensures
            r@ == search_filter(self@, lower_of(query@), 0),
    {
        let query_lower = to_lowercase(query);
        let qv = str_chars(query_lower.as_str());
        let ghost lq = lower_of(query@);
        let mut r: Vec<Track> = Vec::new();
        let mut i: usize = 0;
        proof {
            assert(r@ + search_filter(self@, lq, 0) =~= search_filter(self@, lq, 0));
        }
        while i < self.tracks.len()
            invariant
                i <= self@.len(),
                self@ == self.tracks@,
                qv@ == lq,
                r@ + search_filter(self@, lq, i as int) == search_filter(self@, lq, 0),
            decreases self@.len() - i,
        {
            let t = &self.tracks[i];
            let title = to_lowercase(opt_str(&t.metadata.title));
            let artist = to_lowercase(opt_str(&t.metadata.artist));
            let album = to_lowercase(opt_str(&t.metadata.album));
            let tv = str_chars(title.as_str());
            let av = str_chars(artist.as_str());
            let bv = str_chars(album.as_str());
            let hit = contains_sub(&tv, &qv) || contains_sub(&av, &qv) || contains_sub(&bv, &qv);
            proof {
                assert(hit == track_matches(self@[i as int], lq));
            }
            if hit {
                let ghost before = r@;
                r.push(t.clone());
                proof {
                    assert(r@ + search_filter(self@, lq, i + 1) =~= before + (seq![self@[i as int]]
                        + search_filter(self@, lq, i + 1)));
                }
            }
            i = i + 1;
        }
        proof {
            assert(search_filter(self@, lq, self@.len() as int) =~= Seq::<Track>::empty());
            assert(r@ + search_filter(self@, lq, self@.len() as int) =~= r@);
        }
        r
    }

    /// Get tracks by artist
    pub fn get_tracks_by_artist(&self, artist: &str) -> (r: Vec<Track>)
        ensures
            r@ == filter_by_artist(self@, artist@, 0),
    {
        let mut r: Vec<Track> = Vec::new();
        let mut i: usize = 0;
        proof {
            assert(r@ + filter_by_artist(self@, artist@, 0) =~= filter_by_artist(
                self@,
                artist@,
                0,
            ));
        }
        while i < self.tracks.len()
            invariant
                i <= self@.len(),
                self@ == self.tracks@,
                r@ + filter_by_artist(self@, artist@, i as int) == filter_by_artist(
                    self@,
                    artist@,
                    0,
                ),
            decreases self@.len() - i,
        {
            let t = &self.tracks[i];
            let hit = match &t.metadata.artist {
                Some(a) => {
                    let av = str_chars(a.as_str());
                    crate::text::chars_eq_str(&av, artist)
                },
                None => false,
            };
            proof {
                assert(hit == (opt_view(self@[i as int].metadata.artist) == Some(artist@)));
            }
            if hit {
                let ghost before = r@;
                r.push(t.clone());
                proof {
                    assert(r@ + filter_by_artist(self@, artist@, i + 1) =~= before + (seq![
                        self@[i as int],
                    ] + filter_by_artist(self@, artist@, i + 1)));
                }
            }
            i = i + 1;
        }
        proof {
            assert(filter_by_artist(self@, artist@, self@.len() as int) =~= Seq::<Track>::empty());
            assert(r@ + filter_by_artist(self@, artist@, self@.len() as int) =~= r@);
        }
        r
    }

    /// Get tracks by album
    pub fn get_tracks_by_album(&self, album: &str) -> (r: Vec<Track>)
        ensures
            r@ == filter_by_album(self@, album@, 0),
    {
        let mut r: Vec<Track> = Vec::new();
        let mut i: usize = 0;
        proof {
            assert(r@ + filter_by_album(self@, album@, 0) =~= filter_by_album(self@, album@, 0));
        }
        while i < self.tracks.len()
            invariant
                i <= self@.len(),
                self@ == self.tracks@,
                r@ + filter_by_album(self@, album@, i as int) == filter_by_album(
                    self@,
                    album@,
                    0,
                ),
            decreases self@.len() - i,
        {
            let t = &self.tracks[i];
            let hit = match &t.metadata.album {
                Some(a) => {
                    let av = str_chars(a.as_str());
                    crate::text::chars_eq_str(&av, album)
                },
                None => false,
            };
            proof {
                assert(hit == (opt_view(self@[i as int].metadata.album) == Some(album@)));
            }
            if hit {
                let ghost before = r@;
                r.push(t.clone());
                proof {
                    assert(r@ + filter_by_album(self@, album@, i + 1) =~= before + (seq![
                        self@[i as int],
                    ] + filter_by_album(self@, album@, i + 1)));
                }
            }
            i = i + 1;
        }
        proof {
            assert(filter_by_album(self@, album@, self@.len() as int) =~= Seq::<Track>::empty());
            assert(r@ + filter_by_album(self@, album@, self@.len() as int) =~= r@);
        }
        r
    }

    /// Get all artists, sorted, each name once.
    pub fn get_artists(&self) -> (r: Vec<String>)
        ensures
            views_of_strings(r@) == dedup_spec(sort_spec(all_artists(self@, 0))),
    {
        let mut names: Vec<String> = Vec::new();
        let mut i: usize = 0;
        proof {
            assert(views_of_strings(names@) + all_artists(self@, 0) =~= all_artists(self@, 0));
        }
        while i < self.tracks.len()
            invariant
                i <= self@.len(),
                self@ == self.tracks@,
                views_of_strings(names@) + all_artists(self@, i as int) == all_artists(self@, 0),
            decreases self@.len() - i,
        {
            let t = &self.tracks[i];
            match &t.metadata.artist {
                Some(a) => {
                    let ghost before = views_of_strings(names@);
                    names.push(a.clone());
                    proof {
                        assert(views_of_strings(names@) =~= before.push(a@));
                        assert(views_of_strings(names@) + all_artists(self@, i + 1) =~= before + (
                        seq![a@] + all_artists(self@, i + 1)));
                    }
                },
                None => {},
            }
            i = i + 1;
        }
        proof {
            assert(all_artists(self@, self@.len() as int) =~= Seq::<Seq<char>>::empty());
            assert(views_of_strings(names@) + all_artists(self@, self@.len() as int)
                =~= views_of_strings(names@));
        }
        let sorted = sort_strings(&names);
        dedup_strings(&sorted)
    }

    /// Get all albums, sorted, each name once.
    pub fn get_albums(&self) -> (r: Vec<String>)
        ensures
            views_of_strings(r@) == dedup_spec(sort_spec(all_albums(self@, 0))),
    {
        let mut names: Vec<String> = Vec::new();
        let mut i: usize = 0;
        proof {
            assert(views_of_strings(names@) + all_albums(self@, 0) =~= all_albums(self@, 0));
        }
        while i < self.tracks.len()
            invariant
                i <= self@.len(),
                self@ == self.tracks@,
                views_of_strings(names@) + all_albums(self@, i as int) == all_albums(self@, 0),
            decreases self@.len() - i,
        {
            let t = &self.tracks[i];
            match &t.metadata.album {
                Some(a) => {
                    let ghost before = views_of_strings(names@);
                    names.push(a.clone());
                    proof {
                        assert(views_of_strings(names@) =~= before.push(a@));
                        assert(views_of_strings(names@) + all_albums(self@, i + 1) =~= before + (
                        seq![a@] + all_albums(self@, i + 1)));
                    }
                },
                None => {},
            }
            i = i + 1;
        }
        proof {
            assert(all_albums(self@, self@.len() as int) =~= Seq::<Seq<char>>::empty());
            assert(views_of_strings(names@) + all_albums(self@, self@.len() as int)
                =~= views_of_strings(names@));
        }
        let sorted = sort_strings(&names);
        dedup_strings(&sorted)
    }

    /// Get track count
    pub fn track_count(&self) -> (r: usize)
        ensures
            r == self@.len(),
    {
        self.tracks.len()
    }

    /// Get all track IDs that exist in the library
    pub fn get_track_ids(&self) -> (r: Vec<String>)
        ensures
            views_of_strings(r@) == all_ids(self@, 0),
    {
        let mut r: Vec<String> = Vec::new();
        let mut i: usize = 0;
        proof {
            assert(views_of_strings(r@) + all_ids(self@, 0) =~= all_ids(self@, 0));
        }
        while i < self.tracks.len()
            invariant
                i <= self@.len(),
                self@ == self.tracks@,
                views_of_strings(r@) + all_ids(self@, i as int) == all_ids(self@, 0),
            decreases self@.len() - i,
        {
            let ghost before = views_of_strings(r@);
            r.push(self.tracks[i].id.clone());
            proof {
                assert(views_of_strings(r@) =~= before.push(self@[i as int].id@));
                assert(views_of_strings(r@) + all_ids(self@, i + 1) =~= before + (seq![
                    self@[i as int].id@,
                ] + all_ids(self@, i + 1)));
            }
            i = i + 1;
        }
        proof {
            assert(all_ids(self@, self@.len() as int) =~= Seq::<Seq<char>>::empty());
            assert(views_of_strings(r@) + all_ids(self@, self@.len() as int) =~= views_of_strings(
                r@,
            ));
        }
        r
    }

    /// Check if a track ID exists in the library
    pub fn track_exists(&self, track_id: &str) -> (r: bool)
        ensures
            r == (find_by_id(self@, track_id@, 0) is Some),
    {
        match self.get_track(track_id) {
            Some(_) => true,
            None => false,
        }
    }

    /// Remove a track from the library (e.g., when file is deleted).
    /// Reports whether anything was removed.
    pub fn remove_track(&mut self, track_id: &str) -> (r: bool)
        ensures
            final(self)@ == remove_by_id(old(self)@, track_id@, 0),
            r == (find_by_id(old(self)@, track_id@, 0) is Some),
    {
        let ghost s = self.tracks@;
        let mut kept: Vec<Track> = Vec::new();
        let mut found = false;
        let mut i: usize = 0;
        proof {
            assert(kept@ + remove_by_id(s, track_id@, 0) =~= remove_by_id(s, track_id@, 0));
        }
        while i < self.tracks.len()
            invariant
                s == self.tracks@,
                i <= s.len(),
                kept@ + remove_by_id(s, track_id@, i as int) == remove_by_id(s, track_id@, 0),
                found ==> find_by_id(s, track_id@, 0) is Some,
                !found ==> find_by_id(s, track_id@, 0) == find_by_id(s, track_id@, i as int),
            decreases s.len() - i,
        {
            let t = &self.tracks[i];
            let tid = str_chars(t.id.as_str());
            if crate::text::chars_eq_str(&tid, track_id) {
                found = true;
            } else {
                let ghost before = kept@;
                kept.push(t.clone());
                proof {
                    assert(kept@ + remove_by_id(s, track_id@, i + 1) =~= before + (seq![s[i as int]]
                        + remove_by_id(s, track_id@, i + 1)));
                }
            }
            i = i + 1;
        }
        proof {
            assert(remove_by_id(s, track_id@, s.len() as int) =~= Seq::<Track>::empty());
            assert(kept@ + remove_by_id(s, track_id@, s.len() as int) =~= kept@);
        }
        self.tracks = kept;
        found
    }
}

fn opt_str(o: &Option<String>) -> (r: &str)
    ensures
        r@ == opt_or_empty(*o),
{
    match o {
        Some(s) => s.as_str(),
        None => "",
    }
}

} // verus!
