//! Playlists and the playback queue: entry bookkeeping, reordering,
//! cleanup against the library, and the queue's navigation rules.
//! Persistence to disk is I/O and lives with the embedding application.

use vstd::prelude::*;
use vstd::pervasive::VecAdditionalExecFns;

use crate::library::{clone_opt_string, find_by_id, Library, Track};
use crate::text::{chars_eq_str, opt_view, str_chars};

verus! {

/// Playlist entry; timestamps are whole seconds since the epoch.
#[derive(Debug)]
pub struct PlaylistEntry {
    /// Track ID
    pub track_id: String,
    /// Added timestamp
    pub added_at: i64,
    /// Play count
    pub play_count: u32,
    /// Last played timestamp
    pub last_played: Option<i64>,
}

impl Clone for PlaylistEntry {
    fn clone(&self) -> (r: Self)
        ensures
            r == *self,
    {
        PlaylistEntry {
            track_id: self.track_id.clone(),
            added_at: self.added_at,
            play_count: self.play_count,
            last_played: self.last_played,
        }
    }
}

/// A music playlist
#[derive(Debug)]
pub struct Playlist {
    /// Playlist ID
    pub id: String,
    /// Playlist name
    pub name: String,
    /// Playlist description
    pub description: Option<String>,
    /// Created timestamp
    pub created_at: i64,
    /// Modified timestamp
    pub modified_at: i64,
    /// Playlist entries
    pub entries: Vec<PlaylistEntry>,
    /// Playlist file path (if saved)
    pub file_path: Option<String>,
}

/// A playlist's complete state, as the mathematical model sees it.
pub struct PlaylistView {
    pub id: Seq<char>,
    pub name: Seq<char>,
    pub description: Option<Seq<char>>,
    pub created_at: int,
    pub modified_at: int,
    pub entries: Seq<PlaylistEntry>,
    pub file_path: Option<Seq<char>>,
}

impl View for Playlist {
    type V = PlaylistView;

    open spec fn view(&self) -> PlaylistView {
        PlaylistView {
            id: self.id@,
            name: self.name@,
            description: opt_view(self.description),
            created_at: self.created_at as int,
            modified_at: self.modified_at as int,
            entries: self.entries@,
            file_path: opt_view(self.file_path),
        }
    }
}

/// The views of a sequence of playlists.
pub open spec fn playlist_views(s: Seq<Playlist>) -> Seq<PlaylistView> {
    Seq::new(s.len(), |i: int| s[i]@)
}

/// The view of an optional playlist.
pub open spec fn opt_playlist_view(o: Option<Playlist>) -> Option<PlaylistView> {
    match o {
        Some(p) => Some(p@),
        None => None,
    }
}

fn clone_entries(entries: &Vec<PlaylistEntry>) -> (r: Vec<PlaylistEntry>)
    ensures
        r@ == entries@,
{
    let mut r: Vec<PlaylistEntry> = Vec::new();
    let mut i: usize = 0;
    while i < entries.len()
        invariant
            i <= entries@.len(),
            r@ == entries@.take(i as int),
        decreases entries@.len() - i,
    {
        r.push(entries[i].clone());
        proof {
            assert(entries@.take(i + 1) =~= entries@.take(i as int).push(entries@[i as int]));
        }
        i = i + 1;
    }
    proof {
        assert(entries@.take(entries@.len() as int) =~= entries@);
    }
    r
}

impl Clone for Playlist {
    fn clone(&self) -> (r: Self)
        ensures
            r@ == self@,
    {
        Playlist {
            id: self.id.clone(),
            name: self.name.clone(),
            description: clone_opt_string(&self.description),
            created_at: self.created_at,
            modified_at: self.modified_at,
            entries: clone_entries(&self.entries),
            file_path: clone_opt_string(&self.file_path),
        }
    }
}

/// The entries whose track is missing from the library are dropped;
/// the rest keep their order.
pub open spec fn entries_in_library(s: Seq<PlaylistEntry>, lib: Seq<Track>, i: int) -> Seq<
    PlaylistEntry,
>
    decreases s.len() - i,
    when 0 <= i <= s.len()
{
    if i == s.len() {
        Seq::empty()
    } else if find_by_id(lib, s[i].track_id@, 0) is Some {
        seq![s[i]] + entries_in_library(s, lib, i + 1)
    } else {
        entries_in_library(s, lib, i + 1)
    }
}

/// The entries whose track differs from the given identifier.
pub open spec fn entries_without(s: Seq<PlaylistEntry>, track_id: Seq<char>, i: int) -> Seq<
    PlaylistEntry,
>
    decreases s.len() - i,
    when 0 <= i <= s.len()
{
    if i == s.len() {
        Seq::empty()
    } else if s[i].track_id@ == track_id {
        entries_without(s, track_id, i + 1)
    } else {
        seq![s[i]] + entries_without(s, track_id, i + 1)
    }
}

/// The durations of the entries' tracks, summed; tracks that are
/// missing or have no known duration count as zero.
pub open spec fn total_duration_spec(s: Seq<PlaylistEntry>, lib: Seq<Track>, i: int) -> int
    decreases s.len() - i,
    when 0 <= i <= s.len()
{
    if i == s.len() {
        0
    } else {
        (match find_by_id(lib, s[i].track_id@, 0) {
            Some(t) => match t.metadata.duration {
                Some(d) => d as int,
                None => 0,
            },
            None => 0,
        }) + total_duration_spec(s, lib, i + 1)
    }
}

proof fn lemma_total_duration_nonneg(s: Seq<PlaylistEntry>, lib: Seq<Track>, i: int)
    requires
        0 <= i <= s.len(),
    ensures
        total_duration_spec(s, lib, i) >= 0,
    decreases s.len() - i,
{
    if i < s.len() {
        lemma_total_duration_nonneg(s, lib, i + 1);
    }
}

impl Playlist {
    /// Create a new, empty playlist under a fresh identifier, stamped
    /// with the current moment.
    pub fn new(name: String, description: Option<String>) -> (r: Self)
        ensures
            r.id@.len() == 36,
            r.name == name,
            r.description == description,
            r.created_at == r.modified_at,
            r.entries@ == Seq::<PlaylistEntry>::empty(),
            r.file_path is None,
    {
        let id = crate::ids::new_uuid_string();
        let now = crate::ids::now_timestamp();
        let r = Playlist {
            id,
            name,
            description,
            created_at: now,
            modified_at: now,
            entries: Vec::new(),
            file_path: None,
        };
        proof {
            assert(r.entries@ =~= Seq::<PlaylistEntry>::empty());
        }
        r
    }

    /// Add a track to the playlist
    pub fn add_track(&mut self, track: &Track)
        ensures
            final(self).entries@.len() == old(self).entries@.len() + 1,
            final(self).entries@.drop_last() == old(self).entries@,
            final(self).entries@.last().track_id@ == track.id@,
            final(self).entries@.last().play_count == 0,
            final(self).entries@.last().last_played is None,
            final(self).id == old(self).id,
            final(self).name == old(self).name,
            final(self).description == old(self).description,
            final(self).created_at == old(self).created_at,
            final(self).file_path == old(self).file_path,
    {
        let entry = PlaylistEntry {
            track_id: track.id.clone(),
            added_at: crate::ids::now_timestamp(),
            play_count: 0,
            last_played: None,
        };
        self.entries.push(entry);
        self.modified_at = crate::ids::now_timestamp();
        proof {
            assert(self.entries@.drop_last() =~= old(self).entries@);
        }
    }

    /// Remove a track from the playlist; reports whether any entry
    /// went.
    pub fn remove_track(&mut self, track_id: &str) -> (r: bool)
        ensures
            final(self).entries@ == entries_without(old(self).entries@, track_id@, 0),
            r == (final(self).entries@.len() != old(self).entries@.len()),
            final(self).id == old(self).id,
            final(self).name == old(self).name,
            final(self).description == old(self).description,
            final(self).created_at == old(self).created_at,
            final(self).file_path == old(self).file_path,
            !r ==> final(self).modified_at == old(self).modified_at,
    {
        let ghost s = self.entries@;
        let mut kept: Vec<PlaylistEntry> = Vec::new();
        let mut i: usize = 0;
        proof {
            assert(kept@ + entries_without(s, track_id@, 0) =~= entries_without(s, track_id@, 0));
        }
        while i < self.entries.len()
            invariant
                s == self.entries@,
                i <= s.len(),
                kept@.len() <= i,
                kept@ + entries_without(s, track_id@, i as int) == entries_without(
                    s,
                    track_id@,
                    0,
                ),
            decreases s.len() - i,
        {
            let e = &self.entries[i];
            let ev = str_chars(e.track_id.as_str());
            if !chars_eq_str(&ev, track_id) {
                let ghost before = kept@;
                kept.push(e.clone());
                proof {
                    assert(kept@ + entries_without(s, track_id@, i + 1) =~= before + (seq![
                        s[i as int],
                    ] + entries_without(s, track_id@, i + 1)));
                }
            }
            i = i + 1;
        }
        proof {
            assert(entries_without(s, track_id@, s.len() as int) =~= Seq::<PlaylistEntry>::empty());
            assert(kept@ + entries_without(s, track_id@, s.len() as int) =~= kept@);
        }
        let removed = kept.len() != self.entries.len();
        self.entries = kept;
        if removed {
            self.modified_at = crate::ids::now_timestamp();
        }
        removed
    }

    /// Move a track one place up; positions outside `1..len` change
    /// nothing.
    pub fn move_track_up(&mut self, index: usize) -> (r: bool)
        ensures
            r == (0 < index < old(self).entries@.len()),
            r ==> final(self).entries@ == old(self).entries@.update(
                index as int,
                old(self).entries@[index - 1],
            ).update(index - 1, old(self).entries@[index as int]),
            !r ==> *final(self) == *old(self),
            final(self).id == old(self).id,
            final(self).name == old(self).name,
            final(self).description == old(self).description,
            final(self).created_at == old(self).created_at,
            final(self).file_path == old(self).file_path,
    {
        if index > 0 && index < self.entries.len() {
            let a = self.entries[index].clone();
            let b = self.entries[index - 1].clone();
            self.entries.set(index, b);
            self.entries.set(index - 1, a);
            self.modified_at = crate::ids::now_timestamp();
            true
        } else {
            false
        }
    }

    /// Move a track one place down; the last position and positions
    /// beyond it change nothing.  The playlist must not be empty.
    pub fn move_track_down(&mut self, index: usize) -> (r: bool)
        requires
            old(self).entries@.len() > 0,
        ensures
            r == (index < old(self).entries@.len() - 1),
            r ==> final(self).entries@ == old(self).entries@.update(
                index as int,
                old(self).entries@[index + 1],
            ).update(index + 1, old(self).entries@[index as int]),
            !r ==> *final(self) == *old(self),
            final(self).id == old(self).id,
            final(self).name == old(self).name,
            final(self).description == old(self).description,
            final(self).created_at == old(self).created_at,
            final(self).file_path == old(self).file_path,
    {
        if index < self.entries.len() - 1 {
            let a = self.entries[index].clone();
            let b = self.entries[index + 1].clone();
            self.entries.set(index, b);
            self.entries.set(index + 1, a);
            self.modified_at = crate::ids::now_timestamp();
            true
        } else {
            false
        }
    }

    /// Clear all tracks from the playlist
    pub fn clear(&mut self)
        ensures
            final(self).entries@ == Seq::<PlaylistEntry>::empty(),
            final(self).id == old(self).id,
            final(self).name == old(self).name,
            final(self).description == old(self).description,
            final(self).created_at == old(self).created_at,
            final(self).file_path == old(self).file_path,
    {
        self.entries.clear();
        self.modified_at = crate::ids::now_timestamp();
    }

    /// Get track count
    pub fn track_count(&self) -> (r: usize)
        ensures
            r == self.entries@.len(),
    {
        self.entries.len()
    }

    /// Check if playlist is empty
    pub fn is_empty(&self) -> (r: bool)
        ensures
            r == (self.entries@.len() == 0),
    {
        self.entries.is_empty()
    }

    /// Get total duration in seconds of the entries' tracks, as far as
    /// the library knows them.  The total must fit the result type.
    pub fn total_duration(&self, library: &Library) -> (r: u64)
        requires
            total_duration_spec(self.entries@, library@, 0) <= u64::MAX,
        ensures
            r == total_duration_spec(self.entries@, library@, 0),
    {
        let ghost s = self.entries@;
        let mut total: u64 = 0;
        let mut i: usize = 0;
        while i < self.entries.len()
            invariant
                s == self.entries@,
                i <= s.len(),
                total + total_duration_spec(s, library@, i as int) == total_duration_spec(
                    s,
                    library@,
                    0,
                ),
                total_duration_spec(s, library@, 0) <= u64::MAX,
            decreases s.len() - i,
        {
            proof {
                lemma_total_duration_nonneg(s, library@, i + 1);
            }
            match library.get_track(self.entries[i].track_id.as_str()) {
                Some(t) => {
                    match t.metadata.duration {
                        Some(d) => {
                            total = total + d;
                        },
                        None => {},
                    }
                },
                None => {},
            }
            i = i + 1;
        }
        total
    }

    /// Mark track as played: the first entry for the track gains one
    /// play and the moment is recorded.  Play counts must not be at
    /// their maximum.
    pub fn mark_track_played(&mut self, track_id: &str)
        requires
            forall|i: int|
                0 <= i < old(self).entries@.len() ==> old(self).entries@[i].play_count
                    < u32::MAX,
        ensures
            final(self).entries@.len() == old(self).entries@.len(),
            forall|i: int|
                0 <= i < old(self).entries@.len() && old(self).entries@[i].track_id@ != track_id@
                    ==> final(self).entries@[i] == old(self).entries@[i],
            forall|i: int|
                #![trigger old(self).entries@[i]]
                0 <= i < old(self).entries@.len() && old(self).entries@[i].track_id@ == track_id@
                    && (forall|j: int| 0 <= j < i ==> old(self).entries@[j].track_id@ != track_id@)
                    ==> final(self).entries@[i].play_count == old(self).entries@[i].play_count + 1
                    && final(self).entries@[i].last_played is Some
                    && final(self).entries@[i].track_id@ == old(self).entries@[i].track_id@,
            forall|i: int|
                #![trigger old(self).entries@[i]]
                0 <= i < old(self).entries@.len() && old(self).entries@[i].track_id@ == track_id@
                    && (exists|j: int| 0 <= j < i && old(self).entries@[j].track_id@ == track_id@)
                    ==> final(self).entries@[i] == old(self).entries@[i],
            final(self).id == old(self).id,
            final(self).name == old(self).name,
            final(self).description == old(self).description,
            final(self).created_at == old(self).created_at,
            final(self).file_path == old(self).file_path,
    {
        let ghost s = self.entries@;
        let mut i: usize = 0;
        while i < self.entries.len()
            invariant
                self.entries@ == s,
                s == old(self).entries@,
                self.id == old(self).id,
                self.name == old(self).name,
                self.description == old(self).description,
                self.created_at == old(self).created_at,
                self.modified_at == old(self).modified_at,
                self.file_path == old(self).file_path,
                i <= s.len(),
                forall|j: int| 0 <= j < i ==> s[j].track_id@ != track_id@,
                forall|j: int| 0 <= j < s.len() ==> s[j].play_count < u32::MAX,
            decreases s.len() - i,
        {
            let ev = str_chars(self.entries[i].track_id.as_str());
            if chars_eq_str(&ev, track_id) {
                let now = crate::ids::now_timestamp();
                let old_entry = self.entries[i].clone();
                let updated = PlaylistEntry {
                    track_id: old_entry.track_id,
                    added_at: old_entry.added_at,
                    play_count: old_entry.play_count + 1,
                    last_played: Some(now),
                };
                self.entries.set(i, updated);
                self.modified_at = crate::ids::now_timestamp();
                return ;
            }
            i = i + 1;
        }
    }
}

// ---------------------------------------------------------------------
// The playlist manager.
// ---------------------------------------------------------------------
/// The first playlist with the given identifier, from position `i` on.
pub open spec fn find_playlist(s: Seq<PlaylistView>, id: Seq<char>, i: int) -> Option<PlaylistView>
    decreases s.len() - i,
    when 0 <= i <= s.len()
{
    if i == s.len() {
        None
    } else if s[i].id == id {
        Some(s[i])
    } else {
        find_playlist(s, id, i + 1)
    }
}

/// The position of the first playlist with the given identifier, or
/// `-1`.
pub open spec fn find_playlist_index(s: Seq<PlaylistView>, id: Seq<char>, i: int) -> int
    decreases s.len() - i,
    when 0 <= i <= s.len()
{
    if i == s.len() {
        -1
    } else if s[i].id == id {
        i
    } else {
        find_playlist_index(s, id, i + 1)
    }
}

/// The playlists whose identifier differs from the given one.
pub open spec fn playlists_without(s: Seq<PlaylistView>, id: Seq<char>, i: int) -> Seq<PlaylistView>
    decreases s.len() - i,
    when 0 <= i <= s.len()
{
    if i == s.len() {
        Seq::empty()
    } else if s[i].id == id {
        playlists_without(s, id, i + 1)
    } else {
        seq![s[i]] + playlists_without(s, id, i + 1)
    }
}

/// Why a playlist operation failed.
#[derive(Debug, Clone)]
pub enum PlaylistError {
    /// No playlist carries the requested identifier.
    NotFound(String),
}

/// Playlist manager; saving and loading the records is the embedding
/// application's I/O.
pub struct PlaylistManager {
    playlists: Vec<Playlist>,
    current_playlist: Option<String>,
    playlist_directory: String,
}

impl PlaylistManager {
    /// The stored playlists, in insertion order.
    pub closed spec fn playlists_view(&self) -> Seq<PlaylistView> {
        playlist_views(self.playlists@)
    }

    /// The identifier of the current playlist, if one is set.
    pub closed spec fn current_view(&self) -> Option<Seq<char>> {
        opt_view(self.current_playlist)
    }

    /// The directory playlist files are kept in.
    pub closed spec fn directory_view(&self) -> Seq<char> {
        self.playlist_directory@
    }

    /// Create a new playlist manager over a directory the caller has
    /// prepared.
    pub fn new(playlist_directory: String) -> (r: Self)
        ensures
            r.playlists_view() == Seq::<PlaylistView>::empty(),
            r.current_view() is None,
            r.directory_view() == playlist_directory@,
    {
        let r = PlaylistManager {
            playlists: Vec::new(),
            current_playlist: None,
            playlist_directory,
        };
        proof {
            assert(r.playlists_view() =~= Seq::<PlaylistView>::empty());
        }
        r
    }

    /// Create a new playlist and hand back its identifier.
    pub fn create_playlist(&mut self, name: String, description: Option<String>) -> (r: String)
        ensures
            final(self).playlists_view().len() == old(self).playlists_view().len() + 1,
            final(self).playlists_view().drop_last() == old(self).playlists_view(),
            final(self).playlists_view().last().name == name@,
            final(self).playlists_view().last().description == opt_view(description),
            final(self).playlists_view().last().entries.len() == 0,
            r@ == final(self).playlists_view().last().id,
            final(self).current_view() == old(self).current_view(),
            final(self).directory_view() == old(self).directory_view(),
    {
        let playlist = Playlist::new(name, description);
        let id = playlist.id.clone();
        self.playlists.push(playlist);
        proof {
            assert(self.playlists_view().drop_last() =~= playlist_views(old(self).playlists@));
        }
        id
    }

    /// Store an already-built playlist (one loaded from disk) at the
    /// end of the list.
    pub fn add_playlist(&mut self, playlist: Playlist)
        ensures
            final(self).playlists_view().len() == old(self).playlists_view().len() + 1,
            final(self).playlists_view().drop_last() == old(self).playlists_view(),
            final(self).playlists_view().last() == playlist@,
            final(self).current_view() == old(self).current_view(),
            final(self).directory_view() == old(self).directory_view(),
    {
        self.playlists.push(playlist);
        proof {
            assert(self.playlists_view().drop_last() =~= playlist_views(old(self).playlists@));
        }
    }

    /// Get a playlist by ID
    pub fn get_playlist(&self, id: &str) -> (r: Option<Playlist>)
        ensures
            opt_playlist_view(r) == find_playlist(self.playlists_view(), id@, 0),
    {
        let ghost s = self.playlists_view();
        let mut i: usize = 0;
        while i < self.playlists.len()
            invariant
                s == self.playlists_view(),
                s.len() == self.playlists@.len(),
                forall|j: int| 0 <= j < s.len() ==> s[j] == #[trigger] self.playlists@[j]@,
                i <= s.len(),
                find_playlist(s, id@, 0) == find_playlist(s, id@, i as int),
            decreases s.len() - i,
        {
            let p = &self.playlists[i];
            let pv = str_chars(p.id.as_str());
            if chars_eq_str(&pv, id) {
                return Some(p.clone());
            }
            i = i + 1;
        }
        None
    }

    /// Get all playlists
    pub fn get_playlists(&self) -> (r: Vec<Playlist>)
        ensures
            playlist_views(r@) == self.playlists_view(),
    {
        let mut r: Vec<Playlist> = Vec::new();
        let mut i: usize = 0;
        while i < self.playlists.len()
            invariant
                i <= self.playlists@.len(),
                playlist_views(r@) == playlist_views(self.playlists@).take(i as int),
            decreases self.playlists@.len() - i,
        {
            let ghost before = playlist_views(r@);
            r.push(self.playlists[i].clone());
            proof {
                assert(playlist_views(r@) =~= before.push(self.playlists@[i as int]@));
                assert(playlist_views(self.playlists@).take(i + 1) =~= playlist_views(
                    self.playlists@,
                ).take(i as int).push(self.playlists@[i as int]@));
            }
            i = i + 1;
        }
        proof {
            assert(playlist_views(self.playlists@).take(self.playlists@.len() as int)
                =~= playlist_views(self.playlists@));
        }
        r
    }

    /// Replace the first stored playlist carrying the same identifier;
    /// reports whether one was found.
    pub fn update_playlist(&mut self, playlist: Playlist) -> (r: bool)
        ensures
            r == (find_playlist_index(old(self).playlists_view(), playlist.id@, 0) >= 0),
            r ==> final(self).playlists_view() == old(self).playlists_view().update(
                find_playlist_index(old(self).playlists_view(), playlist.id@, 0),
                playlist@,
            ),
            !r ==> final(self).playlists_view() == old(self).playlists_view(),
            final(self).current_view() == old(self).current_view(),
            final(self).directory_view() == old(self).directory_view(),
    {
        let ghost s = self.playlists_view();
        let pid = str_chars(playlist.id.as_str());
        let mut i: usize = 0;
        while i < self.playlists.len()
            invariant
                s == self.playlists_view(),
                s == old(self).playlists_view(),
                s.len() == self.playlists@.len(),
                forall|j: int| 0 <= j < s.len() ==> s[j] == #[trigger] self.playlists@[j]@,
                self.current_playlist == old(self).current_playlist,
                self.playlist_directory == old(self).playlist_directory,
                pid@ == playlist.id@,
                i <= s.len(),
                find_playlist_index(s, playlist.id@, 0) == find_playlist_index(
                    s,
                    playlist.id@,
                    i as int,
                ),
            decreases s.len() - i,
        {
            let cv = str_chars(self.playlists[i].id.as_str());
            let hit = chars_eq_str(&cv, playlist.id.as_str());
            if hit {
                proof {
                    assert(find_playlist_index(s, playlist.id@, i as int) == i);
                }
                self.playlists.set(i, playlist);
                proof {
                    assert(self.playlists_view() =~= s.update(i as int, self.playlists@[i as int]@));
                }
                return true;
            }
            i = i + 1;
        }
        false
    }

    /// Set current playlist
    pub fn set_current_playlist(&mut self, id: Option<String>)
        ensures
            final(self).current_view() == opt_view(id),
            final(self).playlists_view() == old(self).playlists_view(),
            final(self).directory_view() == old(self).directory_view(),
    {
        self.current_playlist = id;
    }

    /// Get current playlist
    pub fn get_current_playlist(&self) -> (r: Option<String>)
        ensures
            opt_view(r) == self.current_view(),
    {
        clone_opt_string(&self.current_playlist)
    }

    /// Delete a playlist; the current-playlist mark is cleared when it
    /// pointed at the deleted one.
    pub fn delete_playlist(&mut self, id: &str) -> (r: bool)
        ensures
            final(self).playlists_view() == playlists_without(old(self).playlists_view(), id@, 0),
            r == (final(self).playlists_view().len() != old(self).playlists_view().len()),
            final(self).directory_view() == old(self).directory_view(),
            final(self).current_view() == if r && old(self).current_view() == Some(id@) {
                Option::<Seq<char>>::None
            } else {
                old(self).current_view()
            },
    {
        let ghost s = self.playlists_view();
        let mut kept: Vec<Playlist> = Vec::new();
        let mut i: usize = 0;
        proof {
            assert(playlist_views(kept@) + playlists_without(s, id@, 0) =~= playlists_without(
                s,
                id@,
                0,
            ));
        }
        while i < self.playlists.len()
            invariant
                s == self.playlists_view(),
                s.len() == self.playlists@.len(),
                forall|j: int| 0 <= j < s.len() ==> s[j] == #[trigger] self.playlists@[j]@,
                self.current_playlist == old(self).current_playlist,
                self.playlist_directory == old(self).playlist_directory,
                i <= s.len(),
                kept@.len() <= i,
                playlist_views(kept@) + playlists_without(s, id@, i as int) == playlists_without(
                    s,
                    id@,
                    0,
                ),
            decreases s.len() - i,
        {
            let p = &self.playlists[i];
            let pv = str_chars(p.id.as_str());
            if !chars_eq_str(&pv, id) {
                let ghost before = playlist_views(kept@);
                kept.push(p.clone());
                proof {
                    assert(playlist_views(kept@) =~= before.push(s[i as int]));
                    assert(playlist_views(kept@) + playlists_without(s, id@, i + 1) =~= before + (
                    seq![s[i as int]] + playlists_without(s, id@, i + 1)));
                }
            }
            i = i + 1;
        }
        proof {
            assert(playlists_without(s, id@, s.len() as int) =~= Seq::<PlaylistView>::empty());
            assert(playlist_views(kept@) + playlists_without(s, id@, s.len() as int)
                =~= playlist_views(kept@));
        }
        let removed = kept.len() != self.playlists.len();
        self.playlists = kept;
        if removed {
            let clear = match &self.current_playlist {
                Some(c) => {
                    let cv = str_chars(c.as_str());
                    chars_eq_str(&cv, id)
                },
                None => false,
            };
            if clear {
                self.current_playlist = None;
            }
        }
        removed
    }

    /// Remove entries for missing tracks from every playlist; the
    /// number of entries removed overall.  A playlist's modification
    /// time changes only when it lost entries.
    pub fn cleanup_missing_tracks(&mut self, library: &Library) -> (r: usize)
        ensures
            final(self).playlists_view().len() == old(self).playlists_view().len(),
            forall|i: int|
                #![trigger final(self).playlists_view()[i]]
                0 <= i < old(self).playlists_view().len() ==> final(self).playlists_view()[i].entries == entries_in_library(
                    old(self).playlists_view()[i].entries,
                    library@,
                    0,
                ) && final(self).playlists_view()[i].id == old(self).playlists_view()[i].id
                    && final(self).playlists_view()[i].name == old(self).playlists_view()[i].name,
            final(self).current_view() == old(self).current_view(),
            final(self).directory_view() == old(self).directory_view(),
    {
        let ghost s = old(self).playlists_view();
        let mut total_removed: usize = 0;
        let mut i: usize = 0;
        while i < self.playlists.len()
            invariant
                self.playlists@.len() == s.len(),
                s == old(self).playlists_view(),
                forall|j: int| 0 <= j < s.len() ==> s[j] == #[trigger] playlist_views(old(self).playlists@)[j],
                self.current_playlist == old(self).current_playlist,
                self.playlist_directory == old(self).playlist_directory,
                i <= s.len(),
                forall|j: int|
                    #![trigger self.playlists@[j]]
                    i <= j < s.len() ==> self.playlists@[j]@ == s[j],
                forall|j: int|
                    #![trigger self.playlists@[j]]
                    0 <= j < i ==> self.playlists@[j]@.entries == entries_in_library(
                        s[j].entries,
                        library@,
                        0,
                    ) && self.playlists@[j]@.id == s[j].id && self.playlists@[j]@.name == s[j].name,
            decreases s.len() - i,
        {
            let p = &self.playlists[i];
            let cleaned = clean_entries(&p.entries, library);
            let removed = p.entries.len() - cleaned.len();
            let updated = Playlist {
                id: p.id.clone(),
                name: p.name.clone(),
                description: clone_opt_string(&p.description),
                created_at: p.created_at,
                modified_at: if removed > 0 {
                    crate::ids::now_timestamp()
                } else {
                    p.modified_at
                },
                entries: cleaned,
                file_path: clone_opt_string(&p.file_path),
            };
            self.playlists.set(i, updated);
            if removed > 0 && total_removed <= usize::MAX - removed {
                total_removed = total_removed + removed;
            }
            i = i + 1;
        }
        proof {
            assert(forall|j: int|
                0 <= j < s.len() ==> #[trigger] self.playlists_view()[j] == self.playlists@[j]@);
        }
        total_removed
    }

    /// Remove entries for missing tracks from one playlist; the number
    /// of entries removed, or the identifier when no playlist carries
    /// it.
    pub fn cleanup_playlist(&mut self, playlist_id: &str, library: &Library) -> (r: Result<
        usize,
        PlaylistError,
    >)
        ensures
            r is Ok <==> find_playlist_index(old(self).playlists_view(), playlist_id@, 0) >= 0,
            final(self).current_view() == old(self).current_view(),
            final(self).directory_view() == old(self).directory_view(),
            r matches Err(e) ==> final(self).playlists_view() == old(self).playlists_view() && (
            e matches PlaylistError::NotFound(m) && m@ == playlist_id@),
            r matches Ok(n) ==> ({
                let j = find_playlist_index(old(self).playlists_view(), playlist_id@, 0);
                &&& final(self).playlists_view().len() == old(self).playlists_view().len()
                &&& final(self).playlists_view()[j].entries == entries_in_library(
                    old(self).playlists_view()[j].entries,
                    library@,
                    0,
                )
                &&& final(self).playlists_view()[j].id == old(self).playlists_view()[j].id
                &&& n == old(self).playlists_view()[j].entries.len() - final(self).playlists_view()[j].entries.len()
                &&& forall|k: int|
                    0 <= k < old(self).playlists_view().len() && k != j ==> final(self).playlists_view()[k] == old(self).playlists_view()[k]
            }),
    {
        let ghost s = self.playlists_view();
        let mut i: usize = 0;
        while i < self.playlists.len()
            invariant
                s == self.playlists_view(),
                s == old(self).playlists_view(),
                s.len() == self.playlists@.len(),
                forall|j: int| 0 <= j < s.len() ==> s[j] == #[trigger] self.playlists@[j]@,
                self.current_playlist == old(self).current_playlist,
                self.playlist_directory == old(self).playlist_directory,
                i <= s.len(),
                find_playlist_index(s, playlist_id@, 0) == find_playlist_index(
                    s,
                    playlist_id@,
                    i as int,
                ),
            decreases s.len() - i,
        {
            let pv = str_chars(self.playlists[i].id.as_str());
            if chars_eq_str(&pv, playlist_id) {
                proof {
                    assert(find_playlist_index(s, playlist_id@, i as int) == i);
                }
                let p = &self.playlists[i];
                let cleaned = clean_entries(&p.entries, library);
                let removed = p.entries.len() - cleaned.len();
                let updated = Playlist {
                    id: p.id.clone(),
                    name: p.name.clone(),
                    description: clone_opt_string(&p.description),
                    created_at: p.created_at,
                    modified_at: if removed > 0 {
                        crate::ids::now_timestamp()
                    } else {
                        p.modified_at
                    },
                    entries: cleaned,
                    file_path: clone_opt_string(&p.file_path),
                };
                self.playlists.set(i, updated);
                proof {
                    assert(forall|k: int|
                        0 <= k < s.len() ==> #[trigger] self.playlists_view()[k]
                            == self.playlists@[k]@);
                }
                return Ok(removed);
            }
            i = i + 1;
        }
        let mut msg = String::new();
        msg.append(playlist_id);
        Err(PlaylistError::NotFound(msg))
    }
}

/// The entries whose tracks the library still holds.
fn clean_entries(entries: &Vec<PlaylistEntry>, library: &Library) -> (r: Vec<PlaylistEntry>)
    ensures
        r@ == entries_in_library(entries@, library@, 0),
        r@.len() <= entries@.len(),
{
    let ghost s = entries@;
    let mut kept: Vec<PlaylistEntry> = Vec::new();
    let mut i: usize = 0;
    proof {
        assert(kept@ + entries_in_library(s, library@, 0) =~= entries_in_library(s, library@, 0));
    }
    while i < entries.len()
        invariant
            s == entries@,
            i <= s.len(),
            kept@.len() <= i,
            kept@ + entries_in_library(s, library@, i as int) == entries_in_library(
                s,
                library@,
                0,
            ),
        decreases s.len() - i,
    {
        let e = &entries[i];
        if library.track_exists(e.track_id.as_str()) {
            let ghost before = kept@;
            kept.push(e.clone());
            proof {
                assert(kept@ + entries_in_library(s, library@, i + 1) =~= before + (seq![
                    s[i as int],
                ] + entries_in_library(s, library@, i + 1)));
            }
        }
        i = i + 1;
    }
    proof {
        assert(entries_in_library(s, library@, s.len() as int) =~= Seq::<PlaylistEntry>::empty());
        assert(kept@ + entries_in_library(s, library@, s.len() as int) =~= kept@);
    }
    kept
}

// ---------------------------------------------------------------------
// The playback queue.
// ---------------------------------------------------------------------
/// Repeat mode for playback.  `Off` repeats nothing.
#[derive(Debug, Clone, Copy, PartialEq, Eq, Structural)]
pub enum RepeatMode {
    Off,
    One,
    All,
}

/// Playback queue
pub struct PlaybackQueue {
    tracks: Vec<String>,
    current_index: Option<usize>,
    repeat_mode: RepeatMode,
    shuffle: bool,
}

/// The queue's complete state as the model sees it.
pub struct QueueView {
    pub tracks: Seq<Seq<char>>,
    pub current_index: Option<int>,
    pub repeat_mode: RepeatMode,
    pub shuffle: bool,
}

impl View for PlaybackQueue {
    type V = QueueView;

    closed spec fn view(&self) -> QueueView {
        QueueView {
            tracks: crate::text::views_of_strings(self.tracks@),
            current_index: match self.current_index {
                Some(i) => Some(i as int),
                None => None,
            },
            repeat_mode: self.repeat_mode,
            shuffle: self.shuffle,
        }
    }
}

/// The queue invariant: the cursor, when set, points at a track.
pub open spec fn queue_wf(v: QueueView) -> bool {
    match v.current_index {
        Some(i) => 0 <= i < v.tracks.len(),
        None => true,
    }
}

impl PlaybackQueue {
    /// Create a new playback queue
    pub fn new() -> (r: Self)
        ensures
            queue_wf(r@),
            r@.tracks.len() == 0,
            r@.current_index is None,
            r@.repeat_mode == RepeatMode::Off,
            r@.shuffle == false,
    {
        let r = PlaybackQueue {
            tracks: Vec::new(),
            current_index: None,
            repeat_mode: RepeatMode::Off,
            shuffle: false,
        };
        proof {
            assert(r@.tracks =~= Seq::<Seq<char>>::empty());
        }
        r
    }

    /// Add tracks to the queue
    pub fn add_tracks(&mut self, track_ids: &Vec<String>)
        requires
            queue_wf(old(self)@),
        ensures
            queue_wf(final(self)@),
            final(self)@.tracks == old(self)@.tracks + crate::text::views_of_strings(track_ids@),
            final(self)@.current_index == old(self)@.current_index,
            final(self)@.repeat_mode == old(self)@.repeat_mode,
            final(self)@.shuffle == old(self)@.shuffle,
    {
        let mut i: usize = 0;
        while i < track_ids.len()
            invariant
                queue_wf(self@),
                i <= track_ids@.len(),
                self@.tracks == old(self)@.tracks + crate::text::views_of_strings(
                    track_ids@,
                ).take(i as int),
                self@.current_index == old(self)@.current_index,
                self@.repeat_mode == old(self)@.repeat_mode,
                self@.shuffle == old(self)@.shuffle,
            decreases track_ids@.len() - i,
        {
            let ghost before = self@.tracks;
            self.tracks.push(track_ids[i].clone());
            proof {
                assert(self@.tracks =~= before.push(track_ids@[i as int]@));
                assert(old(self)@.tracks + crate::text::views_of_strings(track_ids@).take(i + 1)
                    =~= (old(self)@.tracks + crate::text::views_of_strings(track_ids@).take(
                    i as int,
                )).push(track_ids@[i as int]@));
            }
            i = i + 1;
        }
        proof {
            assert(crate::text::views_of_strings(track_ids@).take(track_ids@.len() as int)
                =~= crate::text::views_of_strings(track_ids@));
        }
    }

    /// Clear the queue
    pub fn clear(&mut self)
        ensures
            queue_wf(final(self)@),
            final(self)@.tracks.len() == 0,
            final(self)@.current_index is None,
            final(self)@.repeat_mode == old(self)@.repeat_mode,
            final(self)@.shuffle == old(self)@.shuffle,
    {
        self.tracks.clear();
        self.current_index = None;
        proof {
            assert(self@.tracks =~= Seq::<Seq<char>>::empty());
        }
    }

    /// Get next track: the one after the cursor, the first when no
    /// cursor is set, and around to the first when repeating all.
    pub fn next_track(&mut self) -> (r: Option<String>)
        requires
            queue_wf(old(self)@),
        ensures
            queue_wf(final(self)@),
            final(self)@.tracks == old(self)@.tracks,
            final(self)@.repeat_mode == old(self)@.repeat_mode,
            final(self)@.shuffle == old(self)@.shuffle,
            ({
                let v = old(self)@;
                let f = final(self)@;
                match v.current_index {
                    Some(i) => if i + 1 < v.tracks.len() {
                        f.current_index == Some(i + 1) && opt_view(r) == Some(v.tracks[i + 1])
                    } else if v.repeat_mode == RepeatMode::All {
                        f.current_index == Some(0int) && opt_view(r) == Some(v.tracks[0])
                    } else {
                        f.current_index == v.current_index && r is None
                    },
                    None => if v.tracks.len() > 0 {
                        f.current_index == Some(0int) && opt_view(r) == Some(v.tracks[0])
                    } else {
                        f.current_index is None && r is None
                    },
                }
            }),
    {
        let n = self.tracks.len();
        match self.current_index {
            Some(index) => {
                if index + 1 < n {
                    self.current_index = Some(index + 1);
                    Some(self.tracks[index + 1].clone())
                } else {
                    match self.repeat_mode {
                        RepeatMode::All => {
                            self.current_index = Some(0);
                            Some(self.tracks[0].clone())
                        },
                        _ => None,
                    }
                }
            },
            None => {
                if self.tracks.len() > 0 {
                    self.current_index = Some(0);
                    Some(self.tracks[0].clone())
                } else {
                    None
                }
            },
        }
    }

    /// Get previous track: the one before the cursor, and around to
    /// the last when repeating all.
    pub fn previous_track(&mut self) -> (r: Option<String>)
        requires
            queue_wf(old(self)@),
        ensures
            queue_wf(final(self)@),
            final(self)@.tracks == old(self)@.tracks,
            final(self)@.repeat_mode == old(self)@.repeat_mode,
            final(self)@.shuffle == old(self)@.shuffle,
            ({
                let v = old(self)@;
                let f = final(self)@;
                match v.current_index {
                    Some(i) => if i > 0 {
                        f.current_index == Some(i - 1) && opt_view(r) == Some(v.tracks[i - 1])
                    } else if v.repeat_mode == RepeatMode::All {
                        f.current_index == Some(v.tracks.len() - 1) && opt_view(r) == Some(
                            v.tracks[v.tracks.len() - 1],
                        )
                    } else {
                        f.current_index == v.current_index && r is None
                    },
                    None => f.current_index is None && r is None,
                }
            }),
    {
        match self.current_index {
            Some(index) => {
                if index > 0 {
                    self.current_index = Some(index - 1);
                    Some(self.tracks[index - 1].clone())
                } else {
                    match self.repeat_mode {
                        RepeatMode::All => {
                            let new_index = self.tracks.len() - 1;
                            self.current_index = Some(new_index);
                            Some(self.tracks[new_index].clone())
                        },
                        _ => None,
                    }
                }
            },
            None => None,
        }
    }

    /// Get current track
    pub fn current_track(&self) -> (r: Option<String>)
        requires
            queue_wf(self@),
        ensures
            opt_view(r) == match self@.current_index {
                Some(i) => Some(self@.tracks[i]),
                None => None::<Seq<char>>,
            },
    {
        match self.current_index {
            Some(index) => Some(self.tracks[index].clone()),
            None => None,
        }
    }

    /// Set repeat mode
    pub fn set_repeat_mode(&mut self, mode: RepeatMode)
        ensures
            final(self)@.repeat_mode == mode,
            final(self)@.tracks == old(self)@.tracks,
            final(self)@.current_index == old(self)@.current_index,
            final(self)@.shuffle == old(self)@.shuffle,
    {
        self.repeat_mode = mode;
    }

    /// Get repeat mode
    pub fn get_repeat_mode(&self) -> (r: RepeatMode)
        ensures
            r == self@.repeat_mode,
    {
        self.repeat_mode
    }

    /// Toggle shuffle
    pub fn toggle_shuffle(&mut self)
        ensures
            final(self)@.shuffle == !old(self)@.shuffle,
            final(self)@.tracks == old(self)@.tracks,
            final(self)@.current_index == old(self)@.current_index,
            final(self)@.repeat_mode == old(self)@.repeat_mode,
    {
        self.shuffle = !self.shuffle;
    }

    /// Check if shuffle is enabled
    pub fn is_shuffle_enabled(&self) -> (r: bool)
        ensures
            r == self@.shuffle,
    {
        self.shuffle
    }

    /// Get queue length
    pub fn len(&self) -> (r: usize)
        ensures
            r == self@.tracks.len(),
    {
        self.tracks.len()
    }

    /// Check if queue is empty
    pub fn is_empty(&self) -> (r: bool)
        ensures
            r == (self@.tracks.len() == 0),
    {
        self.tracks.is_empty()
    }
}

} // verus!
