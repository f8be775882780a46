//! The pages of the graphical client: what they say, and what their buttons do
//! to the client's state.

use vstd::prelude::*;

use crate::client::{DaemonError, NowPlaying, QueueSnapshot};
use crate::fmt::{minutes_seconds, mmss};
use crate::gui::SJNMusicApp;
use crate::model::{DownloadJob, HistoryEntry, Playlist, Song, Stats};
use crate::ranking::{PickResponse, RankedCandidate};
use crate::state::{songs_without, without_song};
use crate::text::{
    concat2, concat3, decimal, decimal_i64, decimal_int, decimal_u64, same_text, trim, trimmed,
};
use crate::view::{Route, ToastLevel};

verus! {

/// `"` around a name, behind a word and a space.
pub open spec fn quoting(word: Seq<char>, name: Seq<char>) -> Seq<char> {
    word + " \""@ + name + "\""@
}

fn quote_name(word: &str, name: &str) -> (r: String)
    ensures
        r@ == quoting(word@, name@),
{
    let head = concat3(word, " \"", name);
    concat2(head.as_str(), "\"")
}

impl NowPlaying {
    pub open spec fn title_text(self) -> Seq<char> {
        match self.current {
            Some(s) => s.name@,
            None => "(nothing playing)"@,
        }
    }

    pub open spec fn status_text(self) -> Seq<char> {
        if self.paused {
            "paused"@
        } else if self.playing {
            "playing"@
        } else {
            "idle"@
        }
    }

    /// What plays, as the footer names it.
    pub fn title(&self) -> (r: String)
        ensures
            r@ == self.title_text(),
    {
        match &self.current {
            Some(s) => s.name.clone(),
            None => String::from_str("(nothing playing)"),
        }
    }

    /// What the engine does, as the footer says it.
    pub fn status(&self) -> (r: &'static str)
        ensures
            r@ == self.status_text(),
    {
        if self.paused {
            "paused"
        } else if self.playing {
            "playing"
        } else {
            "idle"
        }
    }

    /// Whether the button of the footer shows the sign for playing, rather than
    /// the one for pausing.
    pub fn shows_play(&self) -> (r: bool)
        ensures
            r == (self.paused || !self.playing),
    {
        self.paused || !self.playing
    }

    /// Where the button of the footer posts to.
    pub fn toggle_path(&self) -> (r: &'static str)
        ensures
            r@ == (if self.paused {
                "/resume"@
            } else {
                "/pause"@
            }),
    {
        if self.paused {
            "/resume"
        } else {
            "/pause"
        }
    }
}

/// What the library asks the daemon for.
#[derive(Debug)]
pub enum LibraryFetch {
    All,
    Matching(String),
}

/// The library asks for what its filter says.
pub open spec fn is_filter(f: LibraryFetch, query: Seq<char>) -> bool {
    match f {
        LibraryFetch::All => query.len() == 0,
        LibraryFetch::Matching(q) => query.len() > 0 && q@ == query,
    }
}

/// The line below a song of the library.
pub open spec fn song_line(song: Song) -> Seq<char> {
    match song.duration_secs {
        Some(d) => "id "@ + decimal_int(song.id as int) + " · "@ + minutes_seconds(d.rounded()),
        None => "id "@ + decimal_int(song.id as int),
    }
}

/// The line below a song of the library.
pub fn song_meta(song: &Song) -> (r: String)
    ensures
        r@ == song_line(*song),
{
    let n = decimal_i64(song.id);
    let head = concat2("id ", n.as_str());
    match song.duration_secs {
        Some(d) => {
            let t = mmss(d);
            concat3(head.as_str(), " · ", t.as_str())
        },
        None => head,
    }
}

impl SJNMusicApp {
    /// The filter of the library was edited: what to fetch, unless a fetch is
    /// in flight.
    pub fn filter_changed(&mut self) -> (r: Option<LibraryFetch>)
        ensures
            r is Some <==> !old(self).library_loading,
            r matches Some(f) ==> is_filter(f, old(self).library_query@),
            *final(self) == (SJNMusicApp { library_loading: true, ..*old(self) }),
    {
        if self.library_loading {
            return None;
        }
        self.library_loading = true;
        if self.library_query.as_str().unicode_len() == 0 {
            Some(LibraryFetch::All)
        } else {
            Some(LibraryFetch::Matching(self.library_query.clone()))
        }
    }

    /// Whether to fetch the library because nothing is there, in flight or
    /// waiting to be taken in.
    pub fn needs_library(&self, waiting: bool) -> (r: bool)
        ensures
            r == (self.library_songs@.len() == 0 && !self.library_loading && !waiting),
    {
        self.library_songs.len() == 0 && !self.library_loading && !waiting
    }

    /// What the library says in place of songs.
    pub fn library_message(&self) -> (r: Option<&'static str>)
        ensures
            r is Some <==> self.library_songs@.len() == 0,
            r matches Some(m) ==> m@ == (if !self.state.online {
                "(daemon offline — can't load library)"@
            } else if self.library_loading {
                "(loading…)"@
            } else {
                "No songs yet — head to Search + Download."@
            }),
    {
        if self.library_songs.len() > 0 {
            return None;
        }
        if !self.state.is_online() {
            Some("(daemon offline — can't load library)")
        } else if self.library_loading {
            Some("(loading…)")
        } else {
            Some("No songs yet — head to Search + Download.")
        }
    }

    /// A song was deleted: it leaves the page, and a notice says so.
    pub fn song_deleted(&mut self, id: i64, name: &str, now: u64)
        ensures
            final(self).library_songs@ == without_song(old(self).library_songs@, id),
            old(self).notified(*final(self), quoting("Deleted"@, name@), ToastLevel::Info, now),
            *final(self) == (SJNMusicApp {
                library_songs: final(self).library_songs,
                toasts: final(self).toasts,
                toast_seq: final(self).toast_seq,
                ..*old(self)
            }),
    {
        self.library_songs = songs_without(&self.library_songs, id);
        self.push_toast(quote_name("Deleted", name), ToastLevel::Info, now);
    }

    /// A song was put in the queue: a notice says so.
    pub fn song_queued(&mut self, name: &str, now: u64)
        ensures
            old(self).same_but_toasts(*final(self)),
            old(self).notified(*final(self), quoting("Queued"@, name@), ToastLevel::Info, now),
    {
        self.push_toast(quote_name("Queued", name), ToastLevel::Info, now);
    }

    /// Something could not be fetched: a notice says so.
    pub fn fetch_failed(&mut self, what: &str, error: &DaemonError, now: u64)
        ensures
            old(self).same_but_toasts(*final(self)),
            old(self).notified(
                *final(self),
                what@ + " failed: "@ + error.text(),
                ToastLevel::Warn,
                now,
            ),
    {
        let m = error.message();
        self.push_toast(concat3(what, " failed: ", m.as_str()), ToastLevel::Warn, now);
    }

    /// The queue was fetched on request.
    pub fn queue_refreshed(&mut self, outcome: Result<QueueSnapshot, DaemonError>, now: u64)
        ensures
            match outcome {
                Ok(q) => *final(self) == (SJNMusicApp { queue_data: Some(q), ..*old(self) }),
                Err(e) => old(self).same_but_toasts(*final(self)) && old(self).notified(
                    *final(self),
                    "Refresh"@ + " failed: "@ + e.text(),
                    ToastLevel::Warn,
                    now,
                ),
            },
    {
        match outcome {
            Ok(q) => {
                self.queue_data = Some(q);
            },
            Err(e) => self.fetch_failed("Refresh", &e, now),
        }
    }

    /// The history was fetched, for the first time or on request.
    pub fn history_fetched(
        &mut self,
        outcome: Result<Vec<HistoryEntry>, DaemonError>,
        refresh: bool,
        now: u64,
    )
        ensures
            match outcome {
                Ok(list) => *final(self) == (SJNMusicApp { history_data: list, ..*old(self) }),
                Err(e) => old(self).same_but_toasts(*final(self)) && old(self).notified(
                    *final(self),
                    (if refresh {
                        "Refresh"@
                    } else {
                        "History"@
                    }) + " failed: "@ + e.text(),
                    ToastLevel::Warn,
                    now,
                ),
            },
    {
        match outcome {
            Ok(list) => {
                self.history_data = list;
            },
            Err(e) => {
                if refresh {
                    self.fetch_failed("Refresh", &e, now)
                } else {
                    self.fetch_failed("History", &e, now)
                }
            },
        }
    }

    /// The statistics were fetched, for the first time or on request.
    pub fn stats_fetched(&mut self, outcome: Result<Stats, DaemonError>, refresh: bool, now: u64)
        ensures
            match outcome {
                Ok(s) => *final(self) == (SJNMusicApp { stats_data: Some(s), ..*old(self) }),
                Err(e) => old(self).same_but_toasts(*final(self)) && old(self).notified(
                    *final(self),
                    (if refresh {
                        "Refresh"@
                    } else {
                        "Stats"@
                    }) + " failed: "@ + e.text(),
                    ToastLevel::Warn,
                    now,
                ),
            },
    {
        match outcome {
            Ok(s) => {
                self.stats_data = Some(s);
            },
            Err(e) => {
                if refresh {
                    self.fetch_failed("Refresh", &e, now)
                } else {
                    self.fetch_failed("Stats", &e, now)
                }
            },
        }
    }
}

/// The playlists that do not have a name.
pub open spec fn playlists_but(list: Seq<Playlist>, name: Seq<char>) -> Seq<Playlist>
    decreases list.len(),
{
    if list.len() == 0 {
        Seq::empty()
    } else {
        let rest = playlists_but(list.drop_last(), name);
        if list.last().name@ == name {
            rest
        } else {
            rest.push(list.last())
        }
    }
}

/// The opened playlists but the one with a name.
pub open spec fn opened_but(list: Seq<(String, Playlist)>, name: Seq<char>) -> Seq<
    (String, Playlist),
>
    decreases list.len(),
{
    if list.len() == 0 {
        Seq::empty()
    } else {
        let rest = opened_but(list.drop_last(), name);
        if list.last().0@ == name {
            rest
        } else {
            rest.push(list.last())
        }
    }
}

/// A playlist with the name is open.
pub open spec fn is_open(list: Seq<(String, Playlist)>, name: Seq<char>) -> bool {
    exists|i: int| 0 <= i < list.len() && (#[trigger] list[i]).0@ == name
}

fn remove_open(list: &mut Vec<(String, Playlist)>, name: &str)
    ensures
        final(list)@ == opened_but(old(list)@, name@),
{
    let ghost all = list@;
    let mut kept: usize = 0;
    let mut seen: usize = 0;
    let total: usize = list.len();
    proof {
        assert(all.take(0) =~= Seq::empty());
        assert(all.skip(0) =~= all);
    }
    while seen < total
        invariant
            seen <= total == all.len(),
            kept <= seen,
            list@.len() == kept + (total - seen),
            list@.take(kept as int) == opened_but(all.take(seen as int), name@),
            list@.skip(kept as int) == all.skip(seen as int),
        decreases total - seen,
    {
        proof {
            assert(all.take(seen + 1).drop_last() =~= all.take(seen as int));
            assert(all.take(seen + 1).last() == all[seen as int]);
            assert(list@[kept as int] == list@.skip(kept as int)[0]);
            assert(all[seen as int] == all.skip(seen as int)[0]);
        }
        let ghost before = list@;
        if same_text(list[kept].0.as_str(), name) {
            let gone = list.remove(kept);
            proof {
                assert(list@.take(kept as int) =~= before.take(kept as int));
                assert(list@.skip(kept as int) =~= before.skip(kept as int).drop_first());
                assert(all.skip(seen + 1) =~= all.skip(seen as int).drop_first());
            }
        } else {
            kept += 1;
            proof {
                assert(list@.take(kept as int) =~= before.take(kept - 1).push(before[kept - 1]));
                assert(list@.skip(kept as int) =~= before.skip(kept - 1).drop_first());
                assert(all.skip(seen + 1) =~= all.skip(seen as int).drop_first());
            }
        }
        seen += 1;
    }
    proof {
        assert(all.take(total as int) =~= all);
        assert(list@.take(kept as int) =~= list@);
    }
}

/// A name that was typed, without the white space around it, if anything is
/// left of it.
pub open spec fn typed_name(typed: Seq<char>) -> Option<Seq<char>> {
    if trimmed(typed).len() == 0 {
        None
    } else {
        Some(trimmed(typed))
    }
}

/// The name that was typed, if any.
pub fn entered_name(typed: &str) -> (r: Option<String>)
    ensures
        crate::text::opt_text(r) == typed_name(typed@),
{
    let t = trim(typed);
    if t.as_str().unicode_len() == 0 {
        None
    } else {
        Some(t)
    }
}

/// The new name of a playlist, where one was typed and it differs.
pub fn rename_target(current: &str, typed: &str) -> (r: Option<String>)
    ensures
        match r {
            Some(n) => typed_name(typed@) == Some(n@) && n@ != current@,
            None => typed_name(typed@) is None || typed_name(typed@) == Some(current@),
        },
{
    match entered_name(typed) {
        Some(n) => {
            if same_text(n.as_str(), current) {
                None
            } else {
                Some(n)
            }
        },
        None => None,
    }
}

/// The name that a copy of a playlist is offered.
pub fn copy_name(current: &str) -> (r: String)
    ensures
        r@ == current@ + " (copy)"@,
{
    concat2(current, " (copy)")
}

/// Where the song in row `idx`, counted from zero, goes when it is moved one
/// row: its position and its new one, counted from one. `None` at the end of
/// the list that it is moved towards.
pub fn move_positions(idx: usize, len: usize, down: bool) -> (r: Option<(usize, usize)>)
    requires
        idx < len,
    ensures
        r == (if down {
            if idx + 1 < len {
                Some(((idx + 1) as usize, (idx + 2) as usize))
            } else {
                None
            }
        } else if idx > 0 {
            Some(((idx + 1) as usize, idx))
        } else {
            None
        }),
{
    if down {
        if idx + 1 < len {
            Some((idx + 1, idx + 2))
        } else {
            None
        }
    } else if idx > 0 {
        Some((idx + 1, idx))
    } else {
        None
    }
}

/// How many songs a playlist has, as its row says it.
pub fn playlist_meta(pl: &Playlist) -> (r: String)
    ensures
        r@ == decimal(pl.songs@.len()) + " songs"@,
{
    let n = decimal_u64(pl.songs.len() as u64);
    concat2(n.as_str(), " songs")
}

impl SJNMusicApp {
    /// Whether the list of playlists is to be fetched.
    pub fn needs_playlists(&self) -> (r: bool)
        ensures
            r == !self.playlists_fresh,
    {
        !self.playlists_fresh
    }

    /// The list of playlists was fetched because its page was opened. A failure
    /// leaves the list as it is.
    pub fn playlists_opened(&mut self, outcome: Result<Vec<Playlist>, DaemonError>)
        ensures
            *final(self) == (SJNMusicApp {
                playlists_fresh: true,
                playlists_data: (match outcome {
                    Ok(list) => list,
                    Err(_) => old(self).playlists_data,
                }),
                ..*old(self)
            }),
    {
        self.playlists_fresh = true;
        match outcome {
            Ok(list) => {
                self.playlists_data = list;
            },
            Err(_) => {},
        }
    }

    /// The list of playlists was fetched on request.
    pub fn playlists_refreshed(&mut self, outcome: Result<Vec<Playlist>, DaemonError>, now: u64)
        ensures
            match outcome {
                Ok(list) => *final(self) == (SJNMusicApp { playlists_data: list, ..*old(self) }),
                Err(e) => old(self).same_but_toasts(*final(self)) && old(self).notified(
                    *final(self),
                    "Refresh"@ + " failed: "@ + e.text(),
                    ToastLevel::Warn,
                    now,
                ),
            },
    {
        match outcome {
            Ok(list) => {
                self.playlists_data = list;
            },
            Err(e) => self.fetch_failed("Refresh", &e, now),
        }
    }

    /// The button for a new playlist was pressed: its name, where one was
    /// typed.
    pub fn create_playlist_pressed(&mut self, now: u64) -> (r: Option<String>)
        ensures
            crate::text::opt_text(r) == typed_name(old(self).new_playlist_name@),
            old(self).same_but_toasts(*final(self)),
            match r {
                Some(n) => old(self).notified(
                    *final(self),
                    quoting("Creating"@, n@) + "…"@,
                    ToastLevel::Info,
                    now,
                ),
                None => *final(self) == *old(self),
            },
    {
        let r = entered_name(self.new_playlist_name.as_str());
        match &r {
            Some(n) => {
                let head = quote_name("Creating", n.as_str());
                self.push_toast(concat2(head.as_str(), "…"), ToastLevel::Info, now);
            },
            None => {},
        }
        r
    }

    /// A playlist was created, and the name is cleared; or it was not, a notice
    /// says why, and the name stays.
    pub fn playlist_created(&mut self, outcome: Result<(), DaemonError>, now: u64)
        ensures
            match outcome {
                Ok(_) => final(self).new_playlist_name@.len() == 0 && *final(self) == (
                SJNMusicApp { new_playlist_name: final(self).new_playlist_name, ..*old(self) }),
                Err(e) => old(self).same_but_toasts(*final(self)) && old(self).notified(
                    *final(self),
                    "Create failed: "@ + e.text(),
                    ToastLevel::Error,
                    now,
                ),
            },
    {
        match outcome {
            Ok(_) => {
                self.new_playlist_name = String::new();
            },
            Err(e) => {
                let m = e.message();
                self.push_toast(concat2("Create failed: ", m.as_str()), ToastLevel::Error, now);
            },
        }
    }

    /// A playlist was deleted from the list of playlists.
    pub fn listed_playlist_deleted(&mut self, name: &str, now: u64)
        ensures
            final(self).playlists_data@ == playlists_but(old(self).playlists_data@, name@),
            old(self).notified(*final(self), quoting("Deleted"@, name@), ToastLevel::Info, now),
            *final(self) == (SJNMusicApp {
                playlists_data: final(self).playlists_data,
                toasts: final(self).toasts,
                toast_seq: final(self).toast_seq,
                ..*old(self)
            }),
    {
        remove_listed(&mut self.playlists_data, name);
        self.push_toast(quote_name("Deleted", name), ToastLevel::Info, now);
    }

    /// Whether a playlist is to be fetched.
    pub fn needs_playlist(&self, name: &str) -> (r: bool)
        ensures
            r == !is_open(self.playlist_data@, name@),
    {
        let mut i: usize = 0;
        while i < self.playlist_data.len()
            invariant
                i <= self.playlist_data@.len(),
                forall|k: int| 0 <= k < i ==> (#[trigger] self.playlist_data@[k]).0@ != name@,
            decreases self.playlist_data@.len() - i,
        {
            if same_text(self.playlist_data[i].0.as_str(), name) {
                return false;
            }
            i += 1;
        }
        true
    }

    /// A playlist that is to be shown was fetched. Where that failed, a notice
    /// says so and the list of playlists is opened.
    pub fn playlist_fetched(&mut self, name: &str, outcome: Result<Playlist, DaemonError>, now: u64)
        ensures
            match outcome {
                Ok(pl) => {
                    &&& final(self).playlist_data@.len() > 0
                    &&& final(self).playlist_data@.drop_last() == opened_but(
                        old(self).playlist_data@,
                        name@,
                    )
                    &&& final(self).playlist_data@.last().0@ == name@
                    &&& final(self).playlist_data@.last().1 == pl
                    &&& *final(self) == (SJNMusicApp {
                        playlist_data: final(self).playlist_data,
                        ..*old(self)
                    })
                },
                Err(e) => {
                    &&& old(self).notified(
                        *final(self),
                        quoting("Open"@, name@) + " failed: "@ + e.text(),
                        ToastLevel::Warn,
                        now,
                    )
                    &&& *final(self) == (SJNMusicApp {
                        route: Route::Playlists,
                        playlists_fresh: false,
                        toasts: final(self).toasts,
                        toast_seq: final(self).toast_seq,
                        ..*old(self)
                    })
                },
            },
    {
        match outcome {
            Ok(pl) => {
                remove_open(&mut self.playlist_data, name);
                let ghost before = self.playlist_data@;
                self.playlist_data.push((String::from_str(name), pl));
                proof {
                    assert(self.playlist_data@.drop_last() =~= before);
                }
            },
            Err(e) => {
                let head = quote_name("Open", name);
                let m = e.message();
                self.push_toast(
                    concat3(head.as_str(), " failed: ", m.as_str()),
                    ToastLevel::Warn,
                    now,
                );
                self.open(Route::Playlists);
            },
        }
    }

    /// A song is to be added to a playlist: its name, where one was typed.
    pub fn add_to_playlist_pressed(&mut self, playlist: &str, typed: &str, now: u64) -> (r: Option<
        String,
    >)
        ensures
            crate::text::opt_text(r) == typed_name(typed@),
            old(self).same_but_toasts(*final(self)),
            match r {
                Some(q) => old(self).notified(
                    *final(self),
                    quoting("Added"@, q@) + " to "@ + playlist@,
                    ToastLevel::Info,
                    now,
                ),
                None => *final(self) == *old(self),
            },
    {
        let r = entered_name(typed);
        match &r {
            Some(q) => {
                let head = quote_name("Added", q.as_str());
                self.push_toast(concat3(head.as_str(), " to ", playlist), ToastLevel::Info, now);
            },
            None => {},
        }
        r
    }

    /// A playlist was renamed: its page is opened under the new name.
    pub fn playlist_renamed(&mut self, old_name: &str, new_name: &str, now: u64)
        ensures
            final(self).route matches Route::Playlist(n) && n@ == new_name@,
            final(self).playlist_data@ == opened_but(old(self).playlist_data@, old_name@),
            old(self).notified(
                *final(self),
                quoting("Renamed"@, old_name@) + " → \""@ + new_name@ + "\""@,
                ToastLevel::Success,
                now,
            ),
            *final(self) == (SJNMusicApp {
                route: final(self).route,
                playlist_data: final(self).playlist_data,
                toasts: final(self).toasts,
                toast_seq: final(self).toast_seq,
                ..*old(self)
            }),
    {
        remove_open(&mut self.playlist_data, old_name);
        let head = quote_name("Renamed", old_name);
        let body = concat3(head.as_str(), " → \"", new_name);
        self.push_toast(concat2(body.as_str(), "\""), ToastLevel::Success, now);
        self.open(Route::Playlist(String::from_str(new_name)));
    }

    /// A playlist was copied: the page of the copy is opened.
    pub fn playlist_duplicated(&mut self, dest: &str, now: u64)
        ensures
            final(self).route matches Route::Playlist(n) && n@ == dest@,
            old(self).notified(
                *final(self),
                "Duplicated → \""@ + dest@ + "\""@,
                ToastLevel::Success,
                now,
            ),
            *final(self) == (SJNMusicApp {
                route: final(self).route,
                toasts: final(self).toasts,
                toast_seq: final(self).toast_seq,
                ..*old(self)
            }),
    {
        self.push_toast(concat3("Duplicated → \"", dest, "\""), ToastLevel::Success, now);
        self.open(Route::Playlist(String::from_str(dest)));
    }

    /// A playlist was deleted on its own page: the list of playlists is opened.
    pub fn playlist_deleted(&mut self, name: &str, now: u64)
        ensures
            final(self).playlist_data@ == opened_but(old(self).playlist_data@, name@),
            old(self).notified(*final(self), quoting("Deleted"@, name@), ToastLevel::Info, now),
            *final(self) == (SJNMusicApp {
                route: Route::Playlists,
                playlists_fresh: false,
                playlist_data: final(self).playlist_data,
                toasts: final(self).toasts,
                toast_seq: final(self).toast_seq,
                ..*old(self)
            }),
    {
        remove_open(&mut self.playlist_data, name);
        self.push_toast(quote_name("Deleted", name), ToastLevel::Info, now);
        self.open(Route::Playlists);
    }

    /// A song was removed from a playlist, which is then fetched anew.
    pub fn song_removed(&mut self, playlist: &str, song: &str, now: u64)
        ensures
            final(self).playlist_data@ == opened_but(old(self).playlist_data@, playlist@),
            old(self).notified(*final(self), quoting("Removed"@, song@), ToastLevel::Info, now),
            *final(self) == (SJNMusicApp {
                playlist_data: final(self).playlist_data,
                toasts: final(self).toasts,
                toast_seq: final(self).toast_seq,
                ..*old(self)
            }),
    {
        remove_open(&mut self.playlist_data, playlist);
        self.push_toast(quote_name("Removed", song), ToastLevel::Info, now);
    }

    /// The songs of a playlist were reordered; it is then fetched anew.
    pub fn playlist_reordered(&mut self, playlist: &str)
        ensures
            final(self).playlist_data@ == opened_but(old(self).playlist_data@, playlist@),
            *final(self) == (SJNMusicApp {
                playlist_data: final(self).playlist_data,
                ..*old(self)
            }),
    {
        remove_open(&mut self.playlist_data, playlist);
    }
}

fn remove_listed(list: &mut Vec<Playlist>, name: &str)
    ensures
        final(list)@ == playlists_but(old(list)@, name@),
{
    let ghost all = list@;
    let mut kept: usize = 0;
    let mut seen: usize = 0;
    let total: usize = list.len();
    proof {
        assert(all.take(0) =~= Seq::empty());
        assert(all.skip(0) =~= all);
    }
    while seen < total
        invariant
            seen <= total == all.len(),
            kept <= seen,
            list@.len() == kept + (total - seen),
            list@.take(kept as int) == playlists_but(all.take(seen as int), name@),
            list@.skip(kept as int) == all.skip(seen as int),
        decreases total - seen,
    {
        proof {
            assert(all.take(seen + 1).drop_last() =~= all.take(seen as int));
            assert(all.take(seen + 1).last() == all[seen as int]);
            assert(list@[kept as int] == list@.skip(kept as int)[0]);
            assert(all[seen as int] == all.skip(seen as int)[0]);
        }
        let ghost before = list@;
        if same_text(list[kept].name.as_str(), name) {
            let gone = list.remove(kept);
            proof {
                assert(list@.take(kept as int) =~= before.take(kept as int));
                assert(list@.skip(kept as int) =~= before.skip(kept as int).drop_first());
                assert(all.skip(seen + 1) =~= all.skip(seen as int).drop_first());
            }
        } else {
            kept += 1;
            proof {
                assert(list@.take(kept as int) =~= before.take(kept - 1).push(before[kept - 1]));
                assert(list@.skip(kept as int) =~= before.skip(kept - 1).drop_first());
                assert(all.skip(seen + 1) =~= all.skip(seen as int).drop_first());
            }
        }
        seen += 1;
    }
    proof {
        assert(all.take(total as int) =~= all);
        assert(list@.take(kept as int) =~= list@);
    }
}

/// A playlist that leaves the opened ones is fetched anew, and no other is
/// touched.
pub proof fn lemma_closed_playlist_is_fetched(list: Seq<(String, Playlist)>, name: Seq<char>)
    ensures
        !is_open(opened_but(list, name), name),
        forall|other: Seq<char>|
            other != name ==> (#[trigger] is_open(opened_but(list, name), other) <==> is_open(
                list,
                other,
            )),
    decreases list.len(),
{
    if list.len() > 0 {
        let front = list.drop_last();
        let rest = opened_but(front, name);
        lemma_closed_playlist_is_fetched(front, name);
        let all = opened_but(list, name);
        assert forall|other: Seq<char>| #[trigger]
            is_open(all, other) implies other != name && is_open(list, other) by {
            let i = choose|i: int| 0 <= i < all.len() && (#[trigger] all[i]).0@ == other;
            if i < rest.len() {
                assert(rest[i] == all[i]);
                assert(is_open(rest, other));
                assert(is_open(front, other));
                let k = choose|k: int| 0 <= k < front.len() && (#[trigger] front[k]).0@ == other;
                assert(list[k] == front[k]);
            } else {
                assert(list[list.len() - 1].0@ == other);
            }
        }
        assert forall|other: Seq<char>|
            other != name && is_open(list, other) implies #[trigger] is_open(all, other) by {
            let i = choose|i: int| 0 <= i < list.len() && (#[trigger] list[i]).0@ == other;
            if i < front.len() {
                assert(front[i] == list[i]);
                assert(is_open(front, other));
                assert(is_open(rest, other));
                let k = choose|k: int| 0 <= k < rest.len() && (#[trigger] rest[k]).0@ == other;
                assert(all[k] == rest[k]);
            } else {
                assert(all[all.len() - 1].0@ == other);
            }
        }
    }
}

/// What is shown of a search.
#[derive(Debug)]
pub enum SearchPanel {
    /// A download was started, and says so.
    Confirmation(String),
    /// The search is in flight.
    Searching,
    /// Nothing to show.
    Prompt,
    /// The candidates, best first.
    Results,
}

/// What becomes of a pick.
#[derive(Debug)]
pub enum PickOutcome {
    /// Download this address.
    Download(String),
    /// Show the candidates.
    Choose,
    /// Nothing was found, or the daemon did not answer.
    Nothing,
}

/// A number with its sign.
pub open spec fn signed(n: int) -> Seq<char> {
    if n < 0 {
        decimal_int(n)
    } else {
        "+"@ + decimal_int(n)
    }
}

/// The score of a candidate, as its card says it.
pub fn score_text(score: i32) -> (r: String)
    ensures
        r@ == "score "@ + signed(score as int),
{
    let n = decimal_i64(score as i64);
    if score < 0 {
        concat2("score ", n.as_str())
    } else {
        let s = concat2("+", n.as_str());
        concat2("score ", s.as_str())
    }
}

/// The uploader of a candidate and its duration, as its card says it.
pub fn candidate_meta(c: &RankedCandidate) -> (r: String)
    ensures
        r@ == c.base.uploader@ + "  ("@ + minutes_seconds(c.base.duration_secs.rounded()) + ")"@,
{
    let t = mmss(c.base.duration_secs);
    let head = concat3(c.base.uploader.as_str(), "  (", t.as_str());
    concat2(head.as_str(), ")")
}

/// The colour of a candidate with a score: red, green and blue.
pub fn score_color(score: i32) -> (r: (u8, u8, u8))
    ensures
        r == (if score >= 100 {
            (140u8, 220u8, 160u8)
        } else if score >= 30 {
            (220u8, 220u8, 220u8)
        } else if score >= 0 {
            (220u8, 200u8, 140u8)
        } else {
            (220u8, 140u8, 140u8)
        }),
{
    if score >= 100 {
        (140, 220, 160)
    } else if score >= 30 {
        (220, 220, 220)
    } else if score >= 0 {
        (220, 200, 140)
    } else {
        (220, 140, 140)
    }
}

/// The sign before a badge.
pub open spec fn badge_sign(f: Seq<char>) -> Option<Seq<char>> {
    if f == "official"@ || f == "official-upload"@ {
        Some("\u{2705} "@)
    } else if f == "lyrics"@ {
        Some("\u{1F4DD} "@)
    } else if f == "reaction"@ {
        Some("\u{1F914} "@)
    } else if f == "remix"@ {
        Some("\u{1F3B6} "@)
    } else if f == "live"@ || f == "instrumental"@ {
        Some("\u{1F3B5} "@)
    } else if f == "nightcore"@ || f == "slowed"@ || f == "bass-boosted"@ || f == "reverb"@ {
        Some("\u{26A0} "@)
    } else if f == "karaoke"@ {
        Some("\u{1F3A4} "@)
    } else if f == "long"@ || f == "short"@ {
        Some("\u{23F1} "@)
    } else if f == "artist-mismatch"@ {
        Some("\u{274C} "@)
    } else {
        None
    }
}

/// A badge as it is shown.
pub fn flag_chip(f: &str) -> (r: String)
    ensures
        r@ == (match badge_sign(f@) {
            Some(sign) => sign + f@,
            None => f@,
        }),
{
    if same_text(f, "official") || same_text(f, "official-upload") {
        concat2("\u{2705} ", f)
    } else if same_text(f, "lyrics") {
        concat2("\u{1F4DD} ", f)
    } else if same_text(f, "reaction") {
        concat2("\u{1F914} ", f)
    } else if same_text(f, "remix") {
        concat2("\u{1F3B6} ", f)
    } else if same_text(f, "live") || same_text(f, "instrumental") {
        concat2("\u{1F3B5} ", f)
    } else if same_text(f, "nightcore") || same_text(f, "slowed") || same_text(f, "bass-boosted")
        || same_text(f, "reverb") {
        concat2("\u{26A0} ", f)
    } else if same_text(f, "karaoke") {
        concat2("\u{1F3A4} ", f)
    } else if same_text(f, "long") || same_text(f, "short") {
        concat2("\u{23F1} ", f)
    } else if same_text(f, "artist-mismatch") {
        concat2("\u{274C} ", f)
    } else {
        String::from_str(f)
    }
}

/// A badge for a version that is not the song itself.
pub open spec fn is_wrong_version(f: Seq<char>) -> bool {
    f == "lyrics"@ || f == "reaction"@ || f == "remix"@ || f == "live"@ || f == "nightcore"@ || f
        == "slowed"@ || f == "bass-boosted"@ || f == "reverb"@ || f == "instrumental"@ || f
        == "karaoke"@ || f == "artist-mismatch"@
}

/// The colour of a badge: red, green and blue.
pub fn flag_color(f: &str) -> (r: (u8, u8, u8))
    ensures
        r == (if f@ == "official"@ || f@ == "official-upload"@ {
            (140u8, 220u8, 160u8)
        } else if is_wrong_version(f@) {
            (220u8, 140u8, 140u8)
        } else if f@ == "long"@ || f@ == "short"@ {
            (220u8, 180u8, 140u8)
        } else {
            (180u8, 180u8, 180u8)
        }),
{
    if same_text(f, "official") || same_text(f, "official-upload") {
        (140, 220, 160)
    } else if same_text(f, "lyrics") || same_text(f, "reaction") || same_text(f, "remix")
        || same_text(f, "live") || same_text(f, "nightcore") || same_text(f, "slowed") || same_text(
        f,
        "bass-boosted",
    ) || same_text(f, "reverb") || same_text(f, "instrumental") || same_text(f, "karaoke")
        || same_text(f, "artist-mismatch") {
        (220, 140, 140)
    } else if same_text(f, "long") || same_text(f, "short") {
        (220, 180, 140)
    } else {
        (180, 180, 180)
    }
}

impl SJNMusicApp {
    /// A search was asked for: what to search, where anything was typed, and
    /// how many candidates to ask for.
    pub fn start_search(&mut self) -> (r: Option<(String, usize)>)
        ensures
            match r {
                Some((q, limit)) => {
                    &&& typed_name(old(self).search_q@) == Some(q@)
                    &&& limit == old(self).search_limit
                    &&& *final(self) == (SJNMusicApp {
                        search_loading: true,
                        search_picking: false,
                        search_just_downloaded: None,
                        ..*old(self)
                    })
                },
                None => typed_name(old(self).search_q@) is None && *final(self) == *old(self),
            },
    {
        match entered_name(self.search_q.as_str()) {
            Some(q) => {
                self.search_loading = true;
                self.search_picking = false;
                self.search_just_downloaded = None;
                Some((q, self.search_limit))
            },
            None => None,
        }
    }

    /// A pick was asked for: what to search, where anything was typed, how many
    /// candidates to ask for and by how much the best must lead.
    pub fn start_smart_pick(&mut self) -> (r: Option<(String, usize, i32)>)
        ensures
            match r {
                Some((q, limit, margin)) => {
                    &&& typed_name(old(self).search_q@) == Some(q@)
                    &&& limit == old(self).search_limit
                    &&& margin == old(self).search_margin
                    &&& *final(self) == (SJNMusicApp { search_picking: true, ..*old(self) })
                },
                None => typed_name(old(self).search_q@) is None && *final(self) == *old(self),
            },
    {
        match entered_name(self.search_q.as_str()) {
            Some(q) => {
                self.search_picking = true;
                Some((q, self.search_limit, self.search_margin))
            },
            None => None,
        }
    }

    /// The daemon answered a pick. A candidate that it picked is downloaded;
    /// where it was not sure, its candidates are shown.
    pub fn finish_smart_pick(&mut self, answer: Result<PickResponse, DaemonError>) -> (r: PickOutcome)
        ensures
            !final(self).search_picking,
            match answer {
                Ok(PickResponse::Auto { url, .. }) => r == PickOutcome::Download(url) && *final(self)
                    == (SJNMusicApp { search_picking: false, ..*old(self) }),
                Ok(PickResponse::NeedsChoice { candidates, .. }) => r is Choose && *final(self) == (
                SJNMusicApp { search_picking: false, search_results: candidates, ..*old(self) }),
                _ => r is Nothing && *final(self) == (SJNMusicApp {
                    search_picking: false,
                    ..*old(self)
                }),
            },
    {
        self.search_picking = false;
        match answer {
            Ok(PickResponse::Auto { url, .. }) => PickOutcome::Download(url),
            Ok(PickResponse::NeedsChoice { candidates, .. }) => {
                self.search_results = candidates;
                PickOutcome::Choose
            },
            Ok(PickResponse::Empty { .. }) => PickOutcome::Nothing,
            Err(_) => PickOutcome::Nothing,
        }
    }

    /// A candidate was chosen: the name under which to download it, and its
    /// address.
    pub fn start_download(&mut self, c: &RankedCandidate) -> (r: (String, String))
        ensures
            r == (old(self).search_q, c.base.url),
            final(self).search_just_downloaded matches Some(t) && t@ == "Queued \""@ + old(
                self,
            ).search_q@ + "\". Watch Downloads for live status."@,
            *final(self) == (SJNMusicApp {
                search_just_downloaded: final(self).search_just_downloaded,
                ..*old(self)
            }),
    {
        let t = concat3(
            "Queued \"",
            self.search_q.as_str(),
            "\". Watch Downloads for live status.",
        );
        self.search_just_downloaded = Some(t);
        (self.search_q.clone(), c.base.url.clone())
    }

    /// The confirmation of a download was put away, and the search with it.
    pub fn clear_search(&mut self)
        ensures
            final(self).search_q@.len() == 0,
            final(self).search_results@.len() == 0,
            *final(self) == (SJNMusicApp {
                search_just_downloaded: None,
                search_q: final(self).search_q,
                search_results: final(self).search_results,
                ..*old(self)
            }),
    {
        self.search_just_downloaded = None;
        self.search_q = String::new();
        self.search_results = Vec::new();
    }

    /// Whether a pick can be asked for.
    pub fn offers_smart_pick(&self) -> (r: bool)
        ensures
            r == (self.search_results@.len() > 0 && !self.search_picking),
    {
        self.search_results.len() > 0 && !self.search_picking
    }

    /// What is shown of the search. Results that wait to be taken in end the
    /// search.
    pub fn search_panel(&self, waiting: bool) -> (r: SearchPanel)
        ensures
            match r {
                SearchPanel::Confirmation(t) => self.search_just_downloaded == Some(t),
                SearchPanel::Searching => self.search_just_downloaded is None && self.search_loading
                    && !waiting,
                SearchPanel::Prompt => self.search_just_downloaded is None && !(self.search_loading
                    && !waiting) && self.search_results@.len() == 0,
                SearchPanel::Results => self.search_just_downloaded is None && !(self.search_loading
                    && !waiting) && self.search_results@.len() > 0,
            },
    {
        match &self.search_just_downloaded {
            Some(t) => SearchPanel::Confirmation(t.clone()),
            None => {
                if self.search_loading && !waiting {
                    SearchPanel::Searching
                } else if self.search_results.len() == 0 {
                    SearchPanel::Prompt
                } else {
                    SearchPanel::Results
                }
            },
        }
    }
}

/// The colour of a download's state, where it has one of its own: red, green
/// and blue.
pub fn badge_color(status: &str) -> (r: Option<(u8, u8, u8)>)
    ensures
        r == (if status@ == "done"@ {
            Some((80u8, 180u8, 110u8))
        } else if status@ == "running"@ {
            Some((110u8, 170u8, 230u8))
        } else if status@ == "failed"@ {
            Some((220u8, 110u8, 110u8))
        } else if status@ == "queued"@ {
            Some((180u8, 170u8, 100u8))
        } else {
            None
        }),
{
    if same_text(status, "done") {
        Some((80, 180, 110))
    } else if same_text(status, "running") {
        Some((110, 170, 230))
    } else if same_text(status, "failed") {
        Some((220, 110, 110))
    } else if same_text(status, "queued") {
        Some((180, 170, 100))
    } else {
        None
    }
}

/// What came of a download, as its row says it: its song, else its error.
pub fn download_result(job: &DownloadJob) -> (r: String)
    ensures
        r@ == (match (job.song_id, job.error) {
            (Some(id), _) => "song "@ + decimal_int(id as int),
            (None, Some(e)) => e@,
            (None, None) => "-"@,
        }),
{
    match (&job.song_id, &job.error) {
        (Some(id), _) => {
            let n = decimal_i64(*id);
            concat2("song ", n.as_str())
        },
        (None, Some(e)) => e.clone(),
        (None, None) => String::from_str("-"),
    }
}

/// Where a download comes from, as its row says it.
pub fn download_source_text(job: &DownloadJob) -> (r: String)
    ensures
        r@ == (match job.source {
            Some(s) => s@,
            None => "-"@,
        }),
{
    match &job.source {
        Some(s) => s.clone(),
        None => String::from_str("-"),
    }
}

/// The name of a song of the history.
pub fn history_title(h: &HistoryEntry) -> (r: String)
    ensures
        r@ == (match h.song_name {
            Some(n) => n@,
            None => "(missing song)"@,
        }),
{
    match &h.song_name {
        Some(n) => n.clone(),
        None => String::from_str("(missing song)"),
    }
}

} // verus!
