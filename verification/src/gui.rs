//! The state of the graphical client and what the daemon's reports, the clock
//! and the tray do to it.

use vstd::prelude::*;

use crate::client::{DaemonError, QueueSnapshot};
use crate::model::{DownloadJob, HistoryEntry, Playlist, Song, Stats};
use crate::ranking::RankedCandidate;
use crate::text::{concat2, concat3, list_has, texts};
use crate::tray::{set_paused_hint, PausedHint};
use crate::view::{theme_of, AppState, Route, Snapshot, Theme, TickMessage, Toast, ToastLevel};

verus! {

/// After how long the table of downloads is fetched anew, in nanoseconds.
pub const DOWNLOADS_REFRESH: u64 = 4_000_000_000;

/// How long ago the table of downloads was fetched when the client starts, in
/// nanoseconds.
pub const STALE_AGE: u64 = 60_000_000_000;

/// The graphical client. Times are in nanoseconds of the program's clock.
#[derive(Debug)]
pub struct SJNMusicApp {
    pub state: AppState,
    pub paused_hint: PausedHint,
    pub route: Route,
    pub theme: Theme,
    pub toasts: Vec<Toast>,
    pub toast_seq: u64,
    /// Pictures that were asked for.
    pub thumbs_requested: Vec<String>,
    /// A table of downloads that is newer than the last report.
    pub downloads_override: Option<Vec<DownloadJob>>,
    pub downloads_refresh_at: u64,
    pub library_query: String,
    pub library_songs: Vec<Song>,
    pub library_loading: bool,
    /// A queue that is kept beside the last report.
    pub queue_data: Option<QueueSnapshot>,
    pub playlists_data: Vec<Playlist>,
    /// The list of playlists was fetched since its page was opened.
    pub playlists_fresh: bool,
    pub playlist_data: Vec<(String, Playlist)>,
    pub new_playlist_name: String,
    pub search_q: String,
    pub search_limit: usize,
    pub search_results: Vec<RankedCandidate>,
    pub search_loading: bool,
    pub search_just_downloaded: Option<String>,
    pub search_margin: i32,
    /// A pick is in flight.
    pub search_picking: bool,
    pub history_data: Vec<HistoryEntry>,
    pub stats_data: Option<Stats>,
}

impl SJNMusicApp {
    /// The notices carry rising numbers, all below the next one.
    pub open spec fn wf(self) -> bool {
        &&& forall|i: int| 0 <= i < self.toasts@.len() ==> (#[trigger] self.toasts@[i]).id
            < self.toast_seq
        &&& forall|i: int, j: int|
            0 <= i < j < self.toasts@.len() ==> (#[trigger] self.toasts@[i]).id < (
            #[trigger] self.toasts@[j]).id
    }

    /// Nothing but the notices differs.
    pub open spec fn same_but_toasts(self, other: SJNMusicApp) -> bool {
        other == (SJNMusicApp { toasts: other.toasts, toast_seq: other.toast_seq, ..self })
    }

    /// `other` shows one notice more.
    pub open spec fn notified(
        self,
        other: SJNMusicApp,
        message: Seq<char>,
        level: ToastLevel,
        now: u64,
    ) -> bool {
        &&& other.toasts@.len() == self.toasts@.len() + 1
        &&& other.toasts@.drop_last() == self.toasts@
        &&& other.toasts@.last().id == self.toast_seq
        &&& other.toasts@.last().message@ == message
        &&& other.toasts@.last().level == level
        &&& other.toasts@.last().born_at == now
        &&& other.toasts@.last().ttl == level.lifetime()
        &&& other.toast_seq == (if self.toast_seq == u64::MAX {
            0
        } else {
            (self.toast_seq + 1) as u64
        })
    }

    /// The client as it starts.
    pub fn new(theme: &str, now: u64) -> (r: Self)
        requires
            now >= STALE_AGE,
        ensures
            r.wf(),
            r.state.snapshot.is_blank(now) && !r.state.online && r.state.last_error is None,
            !r.paused_hint.paused,
            r.route is Library,
            r.theme == theme_of(theme@),
            r.toasts@.len() == 0,
            r.toast_seq == 1,
            r.thumbs_requested@.len() == 0,
            r.downloads_override is None,
            r.downloads_refresh_at == now - STALE_AGE,
            r.downloads_refresh_at + 60_000_000_000 == now,
            r.library_query@.len() == 0,
            r.library_songs@.len() == 0,
            !r.library_loading,
            r.queue_data is None,
            r.playlists_data@.len() == 0,
            !r.playlists_fresh,
            r.playlist_data@.len() == 0,
            r.new_playlist_name@.len() == 0,
            r.search_q@.len() == 0,
            r.search_limit == 9,
            r.search_results@.len() == 0,
            !r.search_loading,
            r.search_just_downloaded is None,
            r.search_margin == 30,
            !r.search_picking,
            r.history_data@.len() == 0,
            r.stats_data is None,
    {
        SJNMusicApp {
            state: AppState::new(now),
            paused_hint: PausedHint { paused: false },
            route: Route::Library,
            theme: Theme::from_str(theme),
            toasts: Vec::new(),
            toast_seq: 1,
            thumbs_requested: Vec::new(),
            downloads_override: None,
            downloads_refresh_at: now - STALE_AGE,
            library_query: String::new(),
            library_songs: Vec::new(),
            library_loading: false,
            queue_data: None,
            playlists_data: Vec::new(),
            playlists_fresh: false,
            playlist_data: Vec::new(),
            new_playlist_name: String::new(),
            search_q: String::new(),
            search_limit: 9,
            search_results: Vec::new(),
            search_loading: false,
            search_just_downloaded: None,
            search_margin: 30,
            search_picking: false,
            history_data: Vec::new(),
            stats_data: None,
        }
    }

    /// Shows a notice.
    pub fn push_toast(&mut self, message: String, level: ToastLevel, now: u64)
        ensures
            old(self).same_but_toasts(*final(self)),
            old(self).notified(*final(self), message@, level, now),
            old(self).wf() && old(self).toast_seq < u64::MAX ==> final(self).wf(),
    {
        let id = self.toast_seq;
        self.toast_seq = id.wrapping_add(1);
        let ttl = level.ttl();
        self.toasts.push(Toast { id, message, level, born_at: now, ttl });
        proof {
            assert(self.toasts@.drop_last() =~= old(self).toasts@);
        }
    }

    /// Takes down the notices whose time is over.
    pub fn gc_expired_toasts(&mut self, now: u64)
        ensures
            final(self).toasts@ == old(self).toasts@.filter(|t: Toast| t.alive(now)),
            *final(self) == (SJNMusicApp { toasts: final(self).toasts, ..*old(self) }),
            old(self).wf() ==> final(self).wf(),
    {
        let ghost all = self.toasts@;
        let ghost keep = |t: Toast| t.alive(now);
        let mut left: Vec<Toast> = Vec::new();
        let ghost before = *self;
        assert(all.take(0).filter(keep) =~= Seq::<Toast>::empty()) by {
            reveal(Seq::filter);
        }
        let mut i: usize = 0;
        while i < self.toasts.len()
            invariant
                *self == before,
                self.toasts@ == all,
                i <= all.len(),
                keep == (|t: Toast| t.alive(now)),
                left@ == all.take(i as int).filter(keep),
                before.wf() ==> forall|k: int|
                    0 <= k < left@.len() ==> (#[trigger] left@[k]).id < before.toast_seq && (i
                        < all.len() ==> left@[k].id < all[i as int].id),
                before.wf() ==> forall|j: int, k: int|
                    0 <= j < k < left@.len() ==> (#[trigger] left@[j]).id < (
                    #[trigger] left@[k]).id,
            decreases all.len() - i,
        {
            proof {
                reveal(Seq::filter);
                assert(all.take(i + 1).drop_last() =~= all.take(i as int));
                assert(all.take(i + 1).last() == all[i as int]);
            }
            if self.toasts[i].is_alive(now) {
                left.push(self.toasts[i].clone());
            }
            i += 1;
        }
        proof {
            assert(all.take(all.len() as int) =~= all);
        }
        self.toasts = left;
    }

    /// The queue that is shown.
    pub open spec fn shown_queue(self) -> Option<QueueSnapshot> {
        if self.queue_data is Some {
            self.queue_data
        } else {
            self.state.snapshot.queue
        }
    }

    /// The table of downloads that is shown.
    pub open spec fn shown_downloads(self) -> Seq<DownloadJob> {
        match self.downloads_override {
            Some(d) => d@,
            None => self.state.snapshot.downloads@,
        }
    }

    /// What a report leaves alone.
    pub open spec fn same_but_daemon(self, other: SJNMusicApp) -> bool {
        other == (SJNMusicApp {
            state: other.state,
            paused_hint: other.paused_hint,
            downloads_override: other.downloads_override,
            queue_data: other.queue_data,
            ..self
        })
    }

    /// Makes the queue of the latest round the one that the queue page shows,
    /// where it shows none yet.
    pub fn take_over_queue(&mut self)
        ensures
            final(self).queue_data == old(self).shown_queue(),
            final(self).shown_queue() == old(self).shown_queue(),
            final(self).state.snapshot.now_playing == old(self).state.snapshot.now_playing,
            final(self).state.snapshot.downloads == old(self).state.snapshot.downloads,
            final(self).state.snapshot.fetched_at == old(self).state.snapshot.fetched_at,
            final(self).state == (AppState {
                snapshot: final(self).state.snapshot,
                ..old(self).state
            }),
            *final(self) == (SJNMusicApp {
                state: final(self).state,
                queue_data: final(self).queue_data,
                ..*old(self)
            }),
    {
        if self.queue_data.is_none() {
            self.queue_data = self.state.snapshot.queue.take();
        }
    }

    /// Takes in a report of the poll worker. A round that worked is shown; after
    /// one that failed nothing of the rounds before is. Where a round brings no
    /// queue, the queue page keeps what it has taken over.
    pub fn drain_tick(&mut self, msg: TickMessage, now: u64)
        ensures
            old(self).same_but_daemon(*final(self)),
            msg matches TickMessage::Online(s) ==> {
                &&& final(self).state.online
                &&& final(self).state.last_error is None
                &&& final(self).state.snapshot == s
                &&& final(self).paused_hint.paused == (match s.now_playing {
                    Some(np) => np.paused,
                    None => old(self).paused_hint.paused,
                })
                &&& final(self).shown_queue() == (if s.queue is Some {
                    s.queue
                } else {
                    old(self).queue_data
                })
                &&& final(self).shown_downloads() == s.downloads@
            },
            msg matches TickMessage::Offline(e) ==> {
                &&& !final(self).state.online
                &&& final(self).state.last_error == Some(e)
                &&& final(self).state.snapshot.is_blank(now)
                &&& final(self).paused_hint == old(self).paused_hint
                &&& final(self).shown_queue() == old(self).queue_data
                &&& final(self).downloads_override == old(self).downloads_override
            },
    {
        match msg {
            TickMessage::Online(snap) => {
                match &snap.now_playing {
                    Some(np) => set_paused_hint(&mut self.paused_hint, np.paused),
                    None => {},
                }
                if snap.queue.is_some() {
                    self.queue_data = None;
                }
                self.downloads_override = None;
                self.state.set_online(true);
                self.state.set_last_error(None);
                self.state.set_snapshot(snap);
            },
            TickMessage::Offline(err) => {
                self.state.set_online(false);
                self.state.set_last_error(Some(err));
                self.state.set_snapshot(Snapshot::blank(now));
            },
        }
    }

    /// Takes in what workers have finished: songs for the library, and search
    /// results.
    pub fn drain_background_results(
        &mut self,
        library: Option<Vec<Song>>,
        search: Option<Vec<RankedCandidate>>,
    )
        ensures
            final(self).library_songs == (match library {
                Some(l) => l,
                None => old(self).library_songs,
            }),
            final(self).library_loading == (old(self).library_loading && library is None),
            final(self).search_results == (match search {
                Some(s) => s,
                None => old(self).search_results,
            }),
            final(self).search_loading == (old(self).search_loading && search is None),
            *final(self) == (SJNMusicApp {
                library_songs: final(self).library_songs,
                library_loading: final(self).library_loading,
                search_results: final(self).search_results,
                search_loading: final(self).search_loading,
                ..*old(self)
            }),
    {
        match library {
            Some(new) => {
                self.library_songs = new;
                self.library_loading = false;
            },
            None => {},
        }
        match search {
            Some(new) => {
                self.search_results = new;
                self.search_loading = false;
            },
            None => {},
        }
    }

    /// Where the space bar posts to: it pauses what plays, and resumes it. It does
    /// nothing where a text is being typed or nothing is known of what plays.
    pub fn space_pressed(&self, typing: bool) -> (r: Option<&'static str>)
        ensures
            match self.state.snapshot.now_playing {
                Some(np) => if typing {
                    r is None
                } else {
                    r matches Some(p) && p@ == (if np.paused {
                        "/resume"@
                    } else {
                        "/pause"@
                    })
                },
                None => r is None,
            },
    {
        match &self.state.snapshot.now_playing {
            Some(np) => {
                if typing {
                    None
                } else {
                    Some(np.toggle_path())
                }
            },
            None => None,
        }
    }

    /// Whether the sidebar marks the entry of a page.
    pub fn route_matches(&self, candidate: &Route) -> (r: bool)
        ensures
            r == candidate.same_place(self.route),
    {
        candidate.matches(&self.route)
    }

    /// Opens a page. The list of playlists is fetched anew each time its page
    /// is opened.
    pub fn open(&mut self, route: Route)
        ensures
            *final(self) == (SJNMusicApp {
                route,
                playlists_fresh: old(self).playlists_fresh && !(route is Playlists),
                ..*old(self)
            }),
    {
        match route {
            Route::Playlists => {
                self.playlists_fresh = false;
            },
            _ => {},
        }
        self.route = route;
    }

    /// Notes that a picture is wanted; true where it was not asked for before.
    pub fn request_thumb(&mut self, url: &str) -> (r: bool)
        ensures
            r == !texts(old(self).thumbs_requested@).contains(url@),
            texts(final(self).thumbs_requested@) == (if r {
                texts(old(self).thumbs_requested@).push(url@)
            } else {
                texts(old(self).thumbs_requested@)
            }),
            *final(self) == (SJNMusicApp {
                thumbs_requested: final(self).thumbs_requested,
                ..*old(self)
            }),
    {
        if list_has(&self.thumbs_requested, url) {
            return false;
        }
        self.thumbs_requested.push(String::from_str(url));
        proof {
            assert(texts(self.thumbs_requested@) =~= texts(old(self).thumbs_requested@).push(url@));
        }
        true
    }

    /// Reports that an action failed: shown only where the daemon could not be
    /// reached.
    pub fn action_failed(&mut self, path: &str, error: &DaemonError, now: u64)
        ensures
            old(self).same_but_toasts(*final(self)),
            error is Transport ==> old(self).notified(
                *final(self),
                "action "@ + path@ + " failed: "@ + error.text(),
                ToastLevel::Warn,
                now,
            ),
            !(error is Transport) ==> *final(self) == *old(self),
    {
        match error {
            DaemonError::Transport(_) => {
                let text = error.message();
                let head = concat3("action ", path, " failed: ");
                self.push_toast(concat2(head.as_str(), text.as_str()), ToastLevel::Warn, now);
            },
            _ => {},
        }
    }

    /// When the table of downloads was fetched last.
    pub fn last_downloads_refresh(&self) -> (r: u64)
        ensures
            r == self.downloads_refresh_at,
    {
        self.downloads_refresh_at
    }

    /// Whether the table of downloads is to be fetched anew.
    pub fn downloads_refresh_due(&self, now: u64) -> (r: bool)
        ensures
            r == (now - self.downloads_refresh_at > DOWNLOADS_REFRESH),
            r == (now > self.downloads_refresh_at + 4_000_000_000),
    {
        now > self.downloads_refresh_at && now - self.downloads_refresh_at > DOWNLOADS_REFRESH
    }

    /// Takes in a table of downloads.
    pub fn set_downloads_override(&mut self, dl: Vec<DownloadJob>, now: u64)
        ensures
            *final(self) == (SJNMusicApp {
                downloads_override: Some(dl),
                downloads_refresh_at: now,
                ..*old(self)
            }),
    {
        self.downloads_override = Some(dl);
        self.downloads_refresh_at = now;
    }

    /// The table of downloads to show: the latest that came.
    pub fn current_downloads(&self) -> (r: &Vec<DownloadJob>)
        ensures
            r@ == self.shown_downloads(),
    {
        match &self.downloads_override {
            Some(d) => d,
            None => &self.state.snapshot.downloads,
        }
    }

    /// The queue to show: the latest that came, if any did.
    pub fn current_queue(&self) -> (r: Option<&QueueSnapshot>)
        ensures
            match r {
                Some(q) => self.shown_queue() == Some(*q),
                None => self.shown_queue() is None,
            },
    {
        match &self.queue_data {
            Some(q) => Some(q),
            None => match &self.state.snapshot.queue {
                Some(q) => Some(q),
                None => None,
            },
        }
    }
}

/// A notice is shown for as long as its level says, counted from its birth,
/// and not longer.
pub proof fn lemma_toast_lifetime(
    before: SJNMusicApp,
    after: SJNMusicApp,
    message: Seq<char>,
    level: ToastLevel,
    born: u64,
    now: u64,
)
    requires
        before.notified(after, message, level, born),
        born <= now,
    ensures
        after.toasts@.last().alive(now) <==> now - born < level.lifetime(),
{
}

/// The queue that a page has fetched itself is shown before the one of the last
/// round, and so is the table of downloads.
pub proof fn lemma_shown_data(app: SJNMusicApp)
    ensures
        app.queue_data is Some ==> app.shown_queue() == app.queue_data,
        app.queue_data is None ==> app.shown_queue() == app.state.snapshot.queue,
        app.downloads_override matches Some(d) ==> app.shown_downloads() == d@,
        app.downloads_override is None ==> app.shown_downloads() == app.state.snapshot.downloads@,
{
}

/// A notice is put behind the others with the text and the level that were
/// given, a number that no other notice has, and a time that its level sets.
pub proof fn lemma_notice_added(
    before: SJNMusicApp,
    after: SJNMusicApp,
    message: Seq<char>,
    level: ToastLevel,
    now: u64,
)
    requires
        before.wf(),
        before.notified(after, message, level, now),
    ensures
        after.toasts@.len() == before.toasts@.len() + 1,
        forall|i: int|
            0 <= i < before.toasts@.len() ==> #[trigger] after.toasts@[i] == before.toasts@[i]
                && after.toasts@[i].id != after.toasts@.last().id,
        after.toasts@.last().message@ == message && after.toasts@.last().level == level,
        after.toasts@.last().born_at == now,
        level == ToastLevel::Error ==> after.toasts@.last().ttl == 5_000_000_000,
        level == ToastLevel::Warn ==> after.toasts@.last().ttl == 4_000_000_000,
        level == ToastLevel::Info || level == ToastLevel::Success ==> after.toasts@.last().ttl
            == 3_000_000_000,
{
    assert forall|i: int| 0 <= i < before.toasts@.len() implies #[trigger] after.toasts@[i]
        == before.toasts@[i] && after.toasts@[i].id != after.toasts@.last().id by {
        assert(after.toasts@.drop_last()[i] == before.toasts@[i]);
        assert(before.toasts@[i].id < before.toast_seq);
    }
}

} // verus!
