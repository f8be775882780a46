//! What the graphical client shows: its pages, its theme, its notices and the
//! latest state of the daemon.

use vstd::prelude::*;
use vstd::utf8::encode_utf8;

use crate::client::{DaemonError, NowPlaying, QueueSnapshot};
use crate::model::{clone_text, DownloadJob};
use crate::text::{
    ascii_lower, concat2, lowered, same_text, to_ascii_lower, to_lower, trim, trimmed,
};
use crate::urltext::{escaped, urlencode};

verus! {

/// How often the daemon is asked for its state, in nanoseconds.
pub const POLL_INTERVAL: u64 = 1_000_000_000;

/// How long the poll worker sleeps at a time, in nanoseconds.
pub const POLL_SLICE: u64 = 100_000_000;

/// The colours of the window.
#[derive(Clone, Copy, Debug, PartialEq, Eq, Structural)]
pub enum Theme {
    Dark,
    Light,
}

/// The theme that a text names: anything but `light` is dark.
pub open spec fn theme_of(s: Seq<char>) -> Theme {
    if lowered(trimmed(s)) == "light"@ {
        Theme::Light
    } else {
        Theme::Dark
    }
}

impl Theme {
    pub open spec fn name(self) -> Seq<char> {
        match self {
            Theme::Dark => "dark"@,
            Theme::Light => "light"@,
        }
    }

    /// Reads a theme. Case and surrounding white space do not matter.
    pub fn from_str(s: &str) -> (r: Self)
        ensures
            r == theme_of(s@),
    {
        let trimmed = trim(s);
        let t = to_lower(trimmed.as_str());
        if same_text(t.as_str(), "light") {
            Theme::Light
        } else {
            Theme::Dark
        }
    }

    /// The name of the theme.
    pub fn as_str(&self) -> (r: &'static str)
        ensures
            r@ == self.name(),
    {
        match self {
            Theme::Dark => "dark",
            Theme::Light => "light",
        }
    }
}

/// A theme is read back as it was written.
pub proof fn lemma_theme_round_trip(t: Theme)
    ensures
        theme_of(t.name()) == t,
        stored_theme(t.name()) == t.name(),
{
    reveal_strlit("dark");
    reveal_strlit("light");
    crate::text::lemma_plain_word("dark"@);
    crate::text::lemma_plain_word("light"@);
    assert("dark"@.len() != "light"@.len());
}

/// The theme that the settings file names.
pub open spec fn stored_theme(text: Seq<char>) -> Seq<char> {
    if ascii_lower(trimmed(text)) == "light"@ {
        "light"@
    } else {
        "dark"@
    }
}

/// Reads the settings file, if there is one.
pub fn load_persisted_theme(file: Option<&str>) -> (r: Option<String>)
    ensures
        r is Some <==> file is Some,
        r matches Some(t) ==> t@ == stored_theme(file->0@),
{
    match file {
        Some(text) => {
            let t = trim(text);
            let l = to_ascii_lower(t.as_str());
            if same_text(l.as_str(), "light") {
                Some(String::from_str("light"))
            } else {
                Some(String::from_str("dark"))
            }
        },
        None => None,
    }
}

/// The theme to start with: what the environment asks for, else what is
/// stored, else the dark one.
pub fn initial_theme(asked: Option<String>, stored: Option<String>) -> (r: String)
    ensures
        r@ == (match (asked, stored) {
            (Some(t), _) => t@,
            (None, Some(t)) => t@,
            (None, None) => "dark"@,
        }),
{
    match asked {
        Some(t) => t,
        None => match stored {
            Some(t) => t,
            None => String::from_str("dark"),
        },
    }
}

/// How urgent a notice is.
#[derive(Clone, Copy, Debug, PartialEq, Eq, Structural)]
pub enum ToastLevel {
    Info,
    Warn,
    Error,
    Success,
}

impl ToastLevel {
    /// How long a notice stays, in nanoseconds.
    pub open spec fn lifetime(self) -> u64 {
        match self {
            ToastLevel::Error => 5_000_000_000,
            ToastLevel::Warn => 4_000_000_000,
            _ => 3_000_000_000,
        }
    }

    /// How long a notice stays, in nanoseconds.
    pub fn ttl(self) -> (r: u64)
        ensures
            r == self.lifetime(),
    {
        match self {
            ToastLevel::Error => 5_000_000_000,
            ToastLevel::Warn => 4_000_000_000,
            _ => 3_000_000_000,
        }
    }

    /// The background of a notice: red, green and blue.
    pub fn background(self) -> (r: (u8, u8, u8))
        ensures
            r == (match self {
                ToastLevel::Error => (60u8, 30u8, 30u8),
                ToastLevel::Warn => (60u8, 50u8, 20u8),
                ToastLevel::Success => (20u8, 50u8, 30u8),
                ToastLevel::Info => (24u8, 28u8, 36u8),
            }),
    {
        match self {
            ToastLevel::Error => (60, 30, 30),
            ToastLevel::Warn => (60, 50, 20),
            ToastLevel::Success => (20, 50, 30),
            ToastLevel::Info => (24, 28, 36),
        }
    }
}

/// A notice on the screen. Times are in nanoseconds of the program's clock.
#[derive(Debug)]
pub struct Toast {
    pub id: u64,
    pub message: String,
    pub level: ToastLevel,
    pub born_at: u64,
    pub ttl: u64,
}

impl Clone for Toast {
    fn clone(&self) -> (r: Self)
        ensures
            r == *self,
    {
        Toast {
            id: self.id,
            message: self.message.clone(),
            level: self.level,
            born_at: self.born_at,
            ttl: self.ttl,
        }
    }
}

impl Toast {
    /// The notice is still shown.
    pub open spec fn alive(self, now: u64) -> bool {
        (if now <= self.born_at {
            0
        } else {
            now - self.born_at
        }) < self.ttl
    }

    /// Whether the notice is still shown.
    pub fn is_alive(&self, now: u64) -> (r: bool)
        ensures
            r == self.alive(now),
    {
        let age: u64 = if now <= self.born_at {
            0
        } else {
            now - self.born_at
        };
        age < self.ttl
    }
}

/// A page of the client.
#[derive(Debug)]
pub enum Route {
    Library,
    Queue,
    Playlists,
    Playlist(String),
    SearchDownload,
    Downloads,
    History,
    Stats,
    Settings,
}

impl Clone for Route {
    fn clone(&self) -> (r: Self)
        ensures
            r == *self,
    {
        match self {
            Route::Library => Route::Library,
            Route::Queue => Route::Queue,
            Route::Playlists => Route::Playlists,
            Route::Playlist(name) => Route::Playlist(name.clone()),
            Route::SearchDownload => Route::SearchDownload,
            Route::Downloads => Route::Downloads,
            Route::History => Route::History,
            Route::Stats => Route::Stats,
            Route::Settings => Route::Settings,
        }
    }
}

impl Route {
    /// The title of the page.
    pub open spec fn title(self) -> Seq<char> {
        match self {
            Route::Library => "Library"@,
            Route::Queue => "Queue"@,
            Route::Playlists => "Playlists"@,
            Route::Playlist(_) => "Playlist"@,
            Route::SearchDownload => "Search + Download"@,
            Route::Downloads => "Downloads"@,
            Route::History => "History"@,
            Route::Stats => "Stats"@,
            Route::Settings => "Settings"@,
        }
    }

    /// The title of the page.
    pub fn label(&self) -> (r: &'static str)
        ensures
            r@ == self.title(),
    {
        match self {
            Route::Library => "Library",
            Route::Queue => "Queue",
            Route::Playlists => "Playlists",
            Route::Playlist(_) => "Playlist",
            Route::SearchDownload => "Search + Download",
            Route::Downloads => "Downloads",
            Route::History => "History",
            Route::Stats => "Stats",
            Route::Settings => "Settings",
        }
    }

    /// The bookmark of the page.
    pub open spec fn hash(self) -> Seq<char> {
        match self {
            Route::Library => "#library"@,
            Route::Queue => "#queue"@,
            Route::Playlists => "#playlists"@,
            Route::Playlist(name) => "#playlist/"@ + escaped(encode_utf8(name@)),
            Route::SearchDownload => "#search"@,
            Route::Downloads => "#downloads"@,
            Route::History => "#history"@,
            Route::Stats => "#stats"@,
            Route::Settings => "#settings"@,
        }
    }

    /// The bookmark of the page.
    pub fn as_hash(&self) -> (r: String)
        ensures
            r@ == self.hash(),
    {
        match self {
            Route::Playlist(name) => {
                let e = urlencode(name.as_str());
                concat2("#playlist/", e.as_str())
            },
            Route::Library => String::from_str("#library"),
            Route::Queue => String::from_str("#queue"),
            Route::Playlists => String::from_str("#playlists"),
            Route::SearchDownload => String::from_str("#search"),
            Route::Downloads => String::from_str("#downloads"),
            Route::History => String::from_str("#history"),
            Route::Stats => String::from_str("#stats"),
            Route::Settings => String::from_str("#settings"),
        }
    }

    /// Two pages have the same place in the sidebar: all playlists share one.
    pub open spec fn same_place(self, other: Route) -> bool {
        match (self, other) {
            (Route::Playlist(_), Route::Playlist(_)) => true,
            (Route::Library, Route::Library) => true,
            (Route::Queue, Route::Queue) => true,
            (Route::Playlists, Route::Playlists) => true,
            (Route::SearchDownload, Route::SearchDownload) => true,
            (Route::Downloads, Route::Downloads) => true,
            (Route::History, Route::History) => true,
            (Route::Stats, Route::Stats) => true,
            (Route::Settings, Route::Settings) => true,
            _ => false,
        }
    }

    /// Whether two pages have the same place in the sidebar.
    pub fn matches(&self, other: &Route) -> (r: bool)
        ensures
            r == self.same_place(*other),
    {
        match (self, other) {
            (Route::Playlist(_), Route::Playlist(_)) => true,
            (Route::Library, Route::Library) => true,
            (Route::Queue, Route::Queue) => true,
            (Route::Playlists, Route::Playlists) => true,
            (Route::SearchDownload, Route::SearchDownload) => true,
            (Route::Downloads, Route::Downloads) => true,
            (Route::History, Route::History) => true,
            (Route::Stats, Route::Stats) => true,
            (Route::Settings, Route::Settings) => true,
            _ => false,
        }
    }
}

/// The latest state of the daemon. Times are in nanoseconds of the program's
/// clock.
#[derive(Debug)]
pub struct Snapshot {
    pub fetched_at: u64,
    pub now_playing: Option<NowPlaying>,
    pub queue: Option<QueueSnapshot>,
    pub downloads: Vec<DownloadJob>,
}

impl Snapshot {
    /// Nothing is known.
    pub open spec fn is_blank(self, now: u64) -> bool {
        self.fetched_at == now && self.now_playing is None && self.queue is None
            && self.downloads@.len() == 0
    }

    /// A snapshot in which nothing is known.
    pub fn blank(now: u64) -> (r: Self)
        ensures
            r.is_blank(now),
    {
        Snapshot { fetched_at: now, now_playing: None, queue: None, downloads: Vec::new() }
    }
}

/// What the poll worker reports.
#[derive(Debug)]
pub enum TickMessage {
    Online(Snapshot),
    Offline(String),
}

/// Puts the answers to one round of requests together. What failed is left
/// out; where everything failed, so does the round, with the error of the
/// request for what plays.
pub fn poll_once(
    now_playing: Result<NowPlaying, DaemonError>,
    queue: Result<QueueSnapshot, DaemonError>,
    downloads: Result<Vec<DownloadJob>, DaemonError>,
    now: u64,
) -> (r: Result<Snapshot, DaemonError>)
    ensures
        r is Err <==> now_playing is Err && queue is Err && downloads is Err,
        r matches Err(e) ==> (now_playing matches Err(f) && e == f),
        r matches Ok(s) ==> {
            &&& s.fetched_at == now
            &&& s.now_playing == (match now_playing {
                Ok(v) => Some(v),
                Err(_) => None,
            })
            &&& s.queue == (match queue {
                Ok(v) => Some(v),
                Err(_) => None,
            })
            &&& s.downloads@ == (match downloads {
                Ok(v) => v@,
                Err(_) => Seq::empty(),
            })
        },
{
    let nothing_else = queue.is_err() && downloads.is_err();
    let now_playing = match now_playing {
        Ok(v) => Some(v),
        Err(e) => {
            if nothing_else {
                return Err(e);
            }
            None
        },
    };
    let queue = match queue {
        Ok(v) => Some(v),
        Err(_) => None,
    };
    let downloads = match downloads {
        Ok(v) => v,
        Err(_) => Vec::new(),
    };
    Ok(Snapshot { fetched_at: now, now_playing, queue, downloads })
}

/// Turns the outcome of a round of requests into a report.
pub fn tick_message(outcome: Result<Snapshot, DaemonError>) -> (r: TickMessage)
    ensures
        match outcome {
            Ok(s) => r == TickMessage::Online(s),
            Err(e) => r matches TickMessage::Offline(m) && m@ == e.text(),
        },
{
    match outcome {
        Ok(s) => TickMessage::Online(s),
        Err(e) => TickMessage::Offline(e.message()),
    }
}

/// How the poll worker waits for the next round: how many slices it sleeps,
/// and how long after the last of them. `elapsed` is what the round took.
pub fn poll_pause(elapsed: u64) -> (r: (u64, u64))
    ensures
        r.0 * POLL_SLICE + r.1 == (if elapsed < POLL_INTERVAL {
            POLL_INTERVAL - elapsed
        } else {
            0
        }),
        r.1 < POLL_SLICE,
        r.1 < 100_000_000,
        elapsed < 1_000_000_000 ==> r.0 * 100_000_000 + r.1 + elapsed == 1_000_000_000,
        elapsed >= 1_000_000_000 ==> r.0 == 0 && r.1 == 0,
{
    if elapsed < POLL_INTERVAL {
        let remaining: u64 = POLL_INTERVAL - elapsed;
        let slices: u64 = remaining / POLL_SLICE;
        (slices, remaining - slices * POLL_SLICE)
    } else {
        (0, 0)
    }
}

/// What the client knows of the daemon.
#[derive(Debug)]
pub struct AppState {
    pub snapshot: Snapshot,
    pub online: bool,
    pub last_error: Option<String>,
}

impl AppState {
    /// Nothing heard yet.
    pub fn new(now: u64) -> (r: Self)
        ensures
            r.snapshot.is_blank(now),
            !r.online,
            r.last_error is None,
    {
        AppState { snapshot: Snapshot::blank(now), online: false, last_error: None }
    }

    pub fn snapshot(&self) -> (r: &Snapshot)
        ensures
            *r == self.snapshot,
    {
        &self.snapshot
    }

    pub fn set_snapshot(&mut self, snap: Snapshot)
        ensures
            *final(self) == (AppState { snapshot: snap, ..*old(self) }),
    {
        self.snapshot = snap;
    }

    pub fn is_online(&self) -> (r: bool)
        ensures
            r == self.online,
    {
        self.online
    }

    pub fn set_online(&mut self, online: bool)
        ensures
            *final(self) == (AppState { online, ..*old(self) }),
    {
        self.online = online;
    }

    pub fn last_error(&self) -> (r: Option<String>)
        ensures
            r == self.last_error,
    {
        clone_text(&self.last_error)
    }

    pub fn set_last_error(&mut self, msg: Option<String>)
        ensures
            *final(self) == (AppState { last_error: msg, ..*old(self) }),
    {
        self.last_error = msg;
    }
}

} // verus!
