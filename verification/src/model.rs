//! The records that the daemon keeps and serves: songs, playlists, download
//! jobs, history and search results.

use vstd::prelude::*;

use crate::real64::Real64;
use crate::text::{lowered, same_text, to_lower, trim, trimmed};

verus! {

/// A song of the library.
#[derive(Debug)]
pub struct Song {
    pub id: i64,
    pub name: String,
    pub path: String,
    /// Playback duration in seconds, once it has been probed.
    pub duration_secs: Option<Real64>,
}

impl Clone for Song {
    fn clone(&self) -> (r: Self)
        ensures
            r == *self,
    {
        Song {
            id: self.id,
            name: self.name.clone(),
            path: self.path.clone(),
            duration_secs: self.duration_secs,
        }
    }
}

/// Copies a list of songs.
pub fn clone_songs(songs: &Vec<Song>) -> (r: Vec<Song>)
    ensures
        r@ == songs@,
{
    let mut out: Vec<Song> = Vec::new();
    for i in 0..songs.len()
        invariant
            out@ == songs@.take(i as int),
    {
        out.push(songs[i].clone());
        proof {
            assert(songs@.take(i + 1) =~= songs@.take(i as int).push(songs@[i as int]));
        }
    }
    proof {
        assert(songs@.take(songs@.len() as int) =~= songs@);
    }
    out
}

/// Copies an optional text.
pub fn clone_text(s: &Option<String>) -> (r: Option<String>)
    ensures
        r == *s,
{
    match s {
        Some(t) => Some(t.clone()),
        None => None,
    }
}

/// Copies a list of texts.
pub fn clone_texts(list: &Vec<String>) -> (r: Vec<String>)
    ensures
        r@ == list@,
{
    let mut out: Vec<String> = Vec::new();
    for i in 0..list.len()
        invariant
            out@ == list@.take(i as int),
    {
        out.push(list[i].clone());
        proof {
            assert(list@.take(i + 1) =~= list@.take(i as int).push(list@[i as int]));
        }
    }
    proof {
        assert(list@.take(list@.len() as int) =~= list@);
    }
    out
}

/// One search result of the video site.
#[derive(Debug)]
pub struct YtCandidate {
    pub id: String,
    pub title: String,
    /// Channel, uploader or artist, whichever the search reports.
    pub uploader: String,
    /// Duration in seconds; zero when unknown.
    pub duration_secs: Real64,
    pub url: String,
    /// Address of the cover art, when there is any.
    pub thumbnail: Option<String>,
    /// How often the video was watched; zero when unknown.
    pub view_count: Real64,
}

impl Clone for YtCandidate {
    fn clone(&self) -> (r: Self)
        ensures
            r == *self,
    {
        YtCandidate {
            id: self.id.clone(),
            title: self.title.clone(),
            uploader: self.uploader.clone(),
            duration_secs: self.duration_secs,
            url: self.url.clone(),
            thumbnail: clone_text(&self.thumbnail),
            view_count: self.view_count,
        }
    }
}

/// A named list of songs.
#[derive(Debug)]
pub struct Playlist {
    pub id: i64,
    pub name: String,
    pub songs: Vec<Song>,
}

/// What happens when a song ends: nothing, the same song again, or, once the
/// queue is empty, the whole round again.
#[derive(Clone, Copy, Debug, PartialEq, Eq, Structural)]
pub enum RepeatMode {
    Off,
    One,
    All,
}

impl Default for RepeatMode {
    fn default() -> (r: Self)
        ensures
            r == RepeatMode::Off,
    {
        RepeatMode::Off
    }
}

/// The mode that a text names, if any. Case and surrounding white space do not
/// matter.
pub open spec fn repeat_mode_of(s: Seq<char>) -> Option<RepeatMode> {
    let t = lowered(trimmed(s));
    if t == "off"@ || t == "0"@ || t == "false"@ {
        Some(RepeatMode::Off)
    } else if t == "one"@ || t == "1"@ || t == "single"@ {
        Some(RepeatMode::One)
    } else if t == "all"@ || t == "loop"@ {
        Some(RepeatMode::All)
    } else {
        None
    }
}

impl RepeatMode {
    pub open spec fn name(self) -> Seq<char> {
        match self {
            RepeatMode::Off => "off"@,
            RepeatMode::One => "one"@,
            RepeatMode::All => "all"@,
        }
    }

    /// Reads a mode; `None` where the text names none.
    pub fn parse(s: &str) -> (r: Option<Self>)
        ensures
            r == repeat_mode_of(s@),
    {
        let trimmed = trim(s);
        let t = to_lower(trimmed.as_str());
        let w = t.as_str();
        if same_text(w, "off") || same_text(w, "0") || same_text(w, "false") {
            Some(RepeatMode::Off)
        } else if same_text(w, "one") || same_text(w, "1") || same_text(w, "single") {
            Some(RepeatMode::One)
        } else if same_text(w, "all") || same_text(w, "loop") {
            Some(RepeatMode::All)
        } else {
            None
        }
    }

    /// The name of the mode.
    pub fn as_str(&self) -> (r: &'static str)
        ensures
            r@ == self.name(),
    {
        match self {
            RepeatMode::Off => "off",
            RepeatMode::One => "one",
            RepeatMode::All => "all",
        }
    }
}

/// A download, in flight or finished.
#[derive(Debug)]
pub struct DownloadJob {
    pub id: i64,
    pub name: String,
    /// `queued`, `running`, `done` or `failed`.
    pub status: String,
    pub song_id: Option<i64>,
    pub error: Option<String>,
    pub started_at: i64,
    pub finished_at: Option<i64>,
    /// What the worker hands to the downloader.
    pub source: Option<String>,
}

impl Clone for DownloadJob {
    fn clone(&self) -> (r: Self)
        ensures
            r == *self,
    {
        DownloadJob {
            id: self.id,
            name: self.name.clone(),
            status: self.status.clone(),
            song_id: self.song_id,
            error: clone_text(&self.error),
            started_at: self.started_at,
            finished_at: self.finished_at,
            source: clone_text(&self.source),
        }
    }
}

/// One entry of the play history.
#[derive(Debug)]
pub struct HistoryEntry {
    pub id: i64,
    pub song_id: i64,
    pub song_name: Option<String>,
    pub played_at: i64,
    pub duration_secs_played: i64,
}

/// How much was played, and what was played most.
#[derive(Debug)]
pub struct Stats {
    pub total_plays: i64,
    pub total_secs: i64,
    pub top_songs: Vec<TopSong>,
}

/// A song with its play count.
#[derive(Debug)]
pub struct TopSong {
    pub song_id: i64,
    pub name: Option<String>,
    pub plays: i64,
    pub total_secs: i64,
}

/// A mode is read back as it was written.
pub proof fn lemma_repeat_mode_round_trip(m: RepeatMode)
    ensures
        repeat_mode_of(m.name()) == Some(m),
{
    reveal_strlit("off");
    reveal_strlit("one");
    reveal_strlit("all");
    reveal_strlit("0");
    reveal_strlit("1");
    reveal_strlit("false");
    reveal_strlit("single");
    reveal_strlit("loop");
    crate::text::lemma_plain_word("off"@);
    crate::text::lemma_plain_word("one"@);
    crate::text::lemma_plain_word("all"@);
    assert("off"@[1] == 'f' && "one"@[1] == 'n' && "all"@[1] == 'l');
}

/// A mode has the names that follow, in any case and with white space around
/// them: off, 0 and false; one, 1 and single; all and loop. No other text names
/// a mode.
pub proof fn lemma_repeat_mode_names(s: Seq<char>)
    ensures
        ({
            let t = lowered(trimmed(s));
            &&& t == "off"@ || t == "0"@ || t == "false"@ <==> repeat_mode_of(s) == Some(
                RepeatMode::Off,
            )
            &&& t == "one"@ || t == "1"@ || t == "single"@ <==> repeat_mode_of(s) == Some(
                RepeatMode::One,
            )
            &&& t == "all"@ || t == "loop"@ <==> repeat_mode_of(s) == Some(RepeatMode::All)
        }),
{
    reveal_strlit("off");
    reveal_strlit("one");
    reveal_strlit("all");
    reveal_strlit("0");
    reveal_strlit("1");
    reveal_strlit("false");
    reveal_strlit("single");
    reveal_strlit("loop");
    assert("off"@[1] == 'f' && "one"@[1] == 'n' && "all"@[1] == 'l');
    assert("0"@[0] == '0' && "1"@[0] == '1');
    assert("off"@.len() == 3 && "one"@.len() == 3 && "all"@.len() == 3);
    assert("0"@.len() == 1 && "1"@.len() == 1);
    assert("false"@.len() == 5 && "single"@.len() == 6 && "loop"@.len() == 4);
}

} // verus!
