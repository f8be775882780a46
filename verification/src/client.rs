//! The remote control's side of the daemon's interface: which request each
//! operation sends, and what its answers look like.

use vstd::prelude::*;
use vstd::utf8::encode_utf8;

use crate::json::{json_of, parse_json, Json};
use crate::model::{DownloadJob, HistoryEntry, Playlist, Song, YtCandidate};
use crate::real64::{divide, nearest, Real64};
use crate::routes::Method;
use crate::text::{concat2, concat3, decimal, decimal_i64, decimal_int, decimal_u64};
use crate::urltext::{escaped, urlencode};

verus! {

/// How long an answer may take, in milliseconds.
pub const DEFAULT_TIMEOUT_MS: u64 = 8000;

/// How long a search of the video site may take, in milliseconds.
pub const SEARCH_TIMEOUT_MS: u64 = 120000;

/// What plays and what waits.
#[derive(Debug)]
pub struct QueueSnapshot {
    pub queue: Vec<Song>,
    pub current: Option<Song>,
    pub repeat: String,
}

/// What plays, how far it is, and how.
#[derive(Debug)]
pub struct NowPlaying {
    pub current: Option<Song>,
    pub queue_len: usize,
    pub elapsed_secs: Real64,
    pub duration_secs: Option<Real64>,
    pub paused: bool,
    pub playing: bool,
    /// The volume, as a single-precision bit pattern.
    pub volume: u32,
    pub repeat: String,
}

/// The volume and what the engine does.
#[derive(Debug)]
pub struct VolumeInfo {
    /// The volume, as a single-precision bit pattern.
    pub volume: u32,
    pub playing: bool,
    pub paused: bool,
}

/// A playlist and the song that was added to it.
#[derive(Debug)]
pub struct PlaylistWithAdded {
    pub playlist: Playlist,
    pub added: Option<Song>,
}

#[derive(Debug)]
pub struct DownloadsList {
    pub downloads: Vec<DownloadJob>,
}

#[derive(Debug)]
pub struct SongsList {
    pub songs: Vec<Song>,
}

#[derive(Debug)]
pub struct SearchAllResult {
    pub matches: Vec<Song>,
}

#[derive(Debug)]
pub struct SearchYtResult {
    pub query: String,
    pub limit: usize,
    pub results: Vec<YtCandidate>,
}

#[derive(Debug)]
pub struct HistoryList {
    pub history: Vec<HistoryEntry>,
}

#[derive(Debug)]
pub struct InitResponse {
    pub job_id: i64,
    pub status: String,
}

#[derive(Debug)]
pub struct InitBatchResponse {
    pub job_ids: Vec<i64>,
}

#[derive(Debug)]
pub struct ShuffledResponse {
    pub shuffled: bool,
    pub len: usize,
}

#[derive(Debug)]
pub struct ClearedResponse {
    pub cleared: bool,
}

#[derive(Debug)]
pub struct OkResponse {
    pub ok: bool,
}

#[derive(Debug)]
pub struct DeletedResponse {
    pub deleted: String,
}

#[derive(Debug)]
pub struct SkipResponse {
    pub skipped: Option<Song>,
}

#[derive(Debug)]
pub struct RepeatResponse {
    pub mode: String,
}

/// Why a request failed.
#[derive(Debug)]
pub enum DaemonError {
    /// The daemon answered with an error.
    Api { status: u16, message: String },
    /// The daemon could not be reached.
    Transport(String),
    /// The answer could not be read.
    Decode(String),
}

impl DaemonError {
    /// The error as shown to the user.
    pub open spec fn text(self) -> Seq<char> {
        match self {
            DaemonError::Api { status, message } => "["@ + decimal(status as nat) + "] "@
                + message@,
            DaemonError::Transport(m) => "transport: "@ + m@,
            DaemonError::Decode(m) => "decode: "@ + m@,
        }
    }

    /// The error as shown to the user.
    pub fn message(&self) -> (r: String)
        ensures
            r@ == self.text(),
    {
        match self {
            DaemonError::Api { status, message } => {
                let n = decimal_u64(*status as u64);
                let head = concat3("[", n.as_str(), "] ");
                concat2(head.as_str(), message.as_str())
            },
            DaemonError::Transport(m) => concat2("transport: ", m.as_str()),
            DaemonError::Decode(m) => concat2("decode: ", m.as_str()),
        }
    }
}

/// What an answer with an error status says: the daemon's own message, else
/// the text of the answer, else the status.
pub open spec fn error_text(
    status: u16,
    text: Seq<char>,
    parsed: Result<Json, Seq<char>>,
) -> Seq<char> {
    let own = match parsed {
        Ok(v) => v.text_at("error"@),
        Err(_) => None,
    };
    match own {
        Some(m) => m,
        None => if text.len() == 0 {
            "HTTP "@ + decimal(status as nat)
        } else {
            text
        },
    }
}

/// Reads an answer with an error status whose text has been parsed.
pub fn api_error(status: u16, text: &str, parsed: &Result<Json, String>) -> (r: DaemonError)
    ensures
        r matches DaemonError::Api { status: s, message } && s == status && message@ == error_text(
            status,
            text@,
            crate::server::body_outcome(*parsed),
        ),
{
    let own = match parsed {
        Ok(v) => v.get_text("error"),
        Err(_) => None,
    };
    let message = match own {
        Some(m) => m,
        None => {
            if text.unicode_len() == 0 {
                let n = decimal_u64(status as u64);
                concat2("HTTP ", n.as_str())
            } else {
                String::from_str(text)
            }
        },
    };
    DaemonError::Api { status, message }
}

/// Reads an answer with an error status.
pub fn read_api_error(status: u16, text: &str) -> (r: DaemonError)
    ensures
        r matches DaemonError::Api { status: s, message } && s == status && message@ == error_text(
            status,
            text@,
            json_of(text@),
        ),
{
    let parsed = parse_json(text);
    api_error(status, text, &parsed)
}

/// Reports an answer that could not be read, with the reason and the answer.
pub fn decode_error(reason: &str, body: &str) -> (r: DaemonError)
    ensures
        r matches DaemonError::Decode(m) && m@ == reason@ + ": "@ + body@,
{
    DaemonError::Decode(concat3(reason, ": ", body))
}

/// A request to the daemon.
#[derive(Debug)]
pub struct ApiCall {
    pub method: Method,
    pub path: String,
    /// What is sent as JSON; null for nothing.
    pub body: Json,
    pub timeout_ms: u64,
}

/// `c` is a request without a body.
pub open spec fn is_call(c: ApiCall, method: Method, path: Seq<char>) -> bool {
    c.method == method && c.path@ == path && c.body is Null && c.timeout_ms == DEFAULT_TIMEOUT_MS
}

/// `c` posts a JSON object to a path.
pub open spec fn posts(c: ApiCall, path: Seq<char>) -> bool {
    c.method == Method::Post && c.path@ == path && c.body is Object && c.timeout_ms
        == DEFAULT_TIMEOUT_MS
}

/// A JSON object has exactly one member, a text.
pub open spec fn is_text_member(j: Json, key: Seq<char>, value: Seq<char>) -> bool {
    j matches Json::Object(m) && m@.len() == 1 && m@[0].0@ == key && (m@[0].1 matches Json::Text(t)
        && t@ == value)
}

/// A JSON object has no members.
pub open spec fn is_empty_object(j: Json) -> bool {
    j matches Json::Object(m) && m@.len() == 0
}

fn text_member(key: &str, value: &str) -> (r: Json)
    ensures
        is_text_member(r, key@, value@),
{
    let mut m: Vec<(String, Json)> = Vec::new();
    m.push((String::from_str(key), Json::Text(String::from_str(value))));
    Json::Object(m)
}

/// A count as a number: whole where a whole number can be that great, else the
/// nearest double.
pub open spec fn count_number(n: usize) -> Json {
    if n <= i64::MAX {
        Json::Number(Some(n as i64), None)
    } else {
        Json::Number(None, Some(Real64 { bits: nearest(n as nat, 1) as u64 }))
    }
}

fn count(n: usize) -> (r: Json)
    ensures
        r == count_number(n),
{
    if n as u64 <= i64::MAX as u64 {
        Json::Number(Some(n as i64), None)
    } else {
        Json::Number(None, Some(divide(n as u64, 1)))
    }
}

fn plain_call(method: Method, path: String) -> (r: ApiCall)
    ensures
        is_call(r, method, path@),
{
    ApiCall { method, path, body: Json::Null, timeout_ms: DEFAULT_TIMEOUT_MS }
}

fn post(path: String, body: Json) -> (r: ApiCall)
    requires
        body is Object,
    ensures
        posts(r, path@),
        r.body == body,
{
    ApiCall { method: Method::Post, path, body, timeout_ms: DEFAULT_TIMEOUT_MS }
}

fn post_nothing(path: &str) -> (r: ApiCall)
    ensures
        posts(r, path@),
        is_empty_object(r.body),
{
    let m: Vec<(String, Json)> = Vec::new();
    post(String::from_str(path), Json::Object(m))
}

/// The path of a playlist.
pub open spec fn playlist_path(name: Seq<char>, suffix: Seq<char>) -> Seq<char> {
    "/playlists/"@ + escaped(encode_utf8(name)) + suffix
}

fn path_of_playlist(name: &str, suffix: &str) -> (r: String)
    ensures
        r@ == playlist_path(name@, suffix@),
{
    let n = urlencode(name);
    concat3("/playlists/", n.as_str(), suffix)
}

/// The daemon that requests go to.
#[derive(Debug)]
pub struct DaemonClient {
    base: String,
}

impl DaemonClient {
    pub closed spec fn address(self) -> Seq<char> {
        self.base@
    }

    /// A client for the daemon on a host and a port.
    pub fn new(host: &str, port: u16) -> (r: Self)
        ensures
            r.address() == "http://"@ + host@ + ":"@ + decimal(port as nat),
    {
        let n = decimal_u64(port as u64);
        let head = concat3("http://", host, ":");
        DaemonClient { base: concat2(head.as_str(), n.as_str()) }
    }

    /// The address that requests go to.
    pub fn base(&self) -> (r: &str)
        ensures
            r@ == self.address(),
    {
        self.base.as_str()
    }

    /// The full address of a request.
    pub fn url(&self, call: &ApiCall) -> (r: String)
        ensures
            r@ == self.address() + call.path@,
    {
        concat2(self.base.as_str(), call.path.as_str())
    }

    /// Posts a JSON value to a path.
    pub fn post_action(&self, path: &str, body: Json) -> (r: ApiCall)
        ensures
            r.method == Method::Post,
            r.path@ == path@,
            r.body == body,
            r.timeout_ms == DEFAULT_TIMEOUT_MS && r.timeout_ms == 8000,
    {
        ApiCall {
            method: Method::Post,
            path: String::from_str(path),
            body,
            timeout_ms: DEFAULT_TIMEOUT_MS,
        }
    }

    pub fn help(&self) -> (r: ApiCall)
        ensures
            is_call(r, Method::Get, "/help"@),
    {
        plain_call(Method::Get, String::from_str("/help"))
    }

    pub fn now_playing(&self) -> (r: ApiCall)
        ensures
            is_call(r, Method::Get, "/now-playing"@),
    {
        plain_call(Method::Get, String::from_str("/now-playing"))
    }

    pub fn queue(&self) -> (r: ApiCall)
        ensures
            is_call(r, Method::Get, "/queue"@),
    {
        plain_call(Method::Get, String::from_str("/queue"))
    }

    pub fn downloads(&self) -> (r: ApiCall)
        ensures
            is_call(r, Method::Get, "/downloads"@),
    {
        plain_call(Method::Get, String::from_str("/downloads"))
    }

    pub fn songs(&self) -> (r: ApiCall)
        ensures
            is_call(r, Method::Get, "/songs"@),
    {
        plain_call(Method::Get, String::from_str("/songs"))
    }

    pub fn history(&self, limit: usize) -> (r: ApiCall)
        ensures
            is_call(r, Method::Get, "/history?limit="@ + decimal(limit as nat)),
    {
        let n = decimal_u64(limit as u64);
        plain_call(Method::Get, concat2("/history?limit=", n.as_str()))
    }

    pub fn stats(&self) -> (r: ApiCall)
        ensures
            is_call(r, Method::Get, "/stats"@),
    {
        plain_call(Method::Get, String::from_str("/stats"))
    }

    pub fn playlists(&self) -> (r: ApiCall)
        ensures
            is_call(r, Method::Get, "/playlists"@),
    {
        plain_call(Method::Get, String::from_str("/playlists"))
    }

    pub fn get_playlist(&self, name: &str) -> (r: ApiCall)
        ensures
            is_call(r, Method::Get, playlist_path(name@, ""@)),
    {
        plain_call(Method::Get, path_of_playlist(name, ""))
    }

    pub fn search(&self, q: &str) -> (r: ApiCall)
        ensures
            is_call(r, Method::Get, "/search?q="@ + escaped(encode_utf8(q@))),
    {
        let e = urlencode(q);
        plain_call(Method::Get, concat2("/search?q=", e.as_str()))
    }

    pub fn search_all(&self, q: &str) -> (r: ApiCall)
        ensures
            is_call(r, Method::Get, "/search/all?q="@ + escaped(encode_utf8(q@))),
    {
        let e = urlencode(q);
        plain_call(Method::Get, concat2("/search/all?q=", e.as_str()))
    }

    /// Searches the video site, which may take its time.
    pub fn search_yt(&self, q: &str, limit: usize) -> (r: ApiCall)
        ensures
            r.method == Method::Get,
            r.path@ == "/search/yt?q="@ + escaped(encode_utf8(q@)) + "&limit="@ + decimal(
                limit as nat,
            ),
            r.body is Null,
            r.timeout_ms == SEARCH_TIMEOUT_MS && r.timeout_ms == 120000,
    {
        let e = urlencode(q);
        let n = decimal_u64(limit as u64);
        let head = concat3("/search/yt?q=", e.as_str(), "&limit=");
        ApiCall {
            method: Method::Get,
            path: concat2(head.as_str(), n.as_str()),
            body: Json::Null,
            timeout_ms: SEARCH_TIMEOUT_MS,
        }
    }

    /// Searches the video site and has the results ranked.
    pub fn search_yt_ranked(&self, q: &str, limit: usize) -> (r: ApiCall)
        ensures
            r.method == Method::Get,
            r.path@ == "/search/yt/ranked?q="@ + escaped(encode_utf8(q@)) + "&limit="@ + decimal(
                limit as nat,
            ),
            r.body is Null,
            r.timeout_ms == SEARCH_TIMEOUT_MS && r.timeout_ms == 120000,
    {
        let e = urlencode(q);
        let n = decimal_u64(limit as u64);
        let head = concat3("/search/yt/ranked?q=", e.as_str(), "&limit=");
        ApiCall {
            method: Method::Get,
            path: concat2(head.as_str(), n.as_str()),
            body: Json::Null,
            timeout_ms: SEARCH_TIMEOUT_MS,
        }
    }

    /// Has the daemon pick a video, with a lead of at least `margin` if given.
    pub fn pick(&self, q: &str, limit: usize, margin: Option<i32>) -> (r: ApiCall)
        ensures
            r.method == Method::Get,
            r.path@ == "/pick?q="@ + escaped(encode_utf8(q@)) + "&limit="@ + decimal(limit as nat)
                + (match margin {
                Some(m) => "&margin="@ + decimal_int(m as int),
                None => ""@,
            }),
            r.body is Null,
            r.timeout_ms == SEARCH_TIMEOUT_MS && r.timeout_ms == 120000,
    {
        let e = urlencode(q);
        let n = decimal_u64(limit as u64);
        let tail = match margin {
            Some(m) => {
                let t = decimal_i64(m as i64);
                concat2("&margin=", t.as_str())
            },
            None => String::from_str(""),
        };
        let head = concat3("/pick?q=", e.as_str(), "&limit=");
        ApiCall {
            method: Method::Get,
            path: concat3(head.as_str(), n.as_str(), tail.as_str()),
            body: Json::Null,
            timeout_ms: SEARCH_TIMEOUT_MS,
        }
    }

    pub fn volume_info(&self) -> (r: ApiCall)
        ensures
            is_call(r, Method::Get, "/volume"@),
    {
        plain_call(Method::Get, String::from_str("/volume"))
    }

    pub fn repeat_mode(&self) -> (r: ApiCall)
        ensures
            is_call(r, Method::Get, "/repeat"@),
    {
        plain_call(Method::Get, String::from_str("/repeat"))
    }

    pub fn play(&self, query: &str) -> (r: ApiCall)
        ensures
            posts(r, "/play"@),
            is_text_member(r.body, "query"@, query@),
    {
        post(String::from_str("/play"), text_member("query", query))
    }

    pub fn add(&self, query: &str) -> (r: ApiCall)
        ensures
            posts(r, "/add"@),
            is_text_member(r.body, "query"@, query@),
    {
        post(String::from_str("/add"), text_member("query", query))
    }

    pub fn delete(&self, query: &str) -> (r: ApiCall)
        ensures
            posts(r, "/del"@),
            is_text_member(r.body, "query"@, query@),
    {
        post(String::from_str("/del"), text_member("query", query))
    }

    pub fn pause(&self) -> (r: ApiCall)
        ensures
            posts(r, "/pause"@),
            is_empty_object(r.body),
    {
        post_nothing("/pause")
    }

    pub fn resume(&self) -> (r: ApiCall)
        ensures
            posts(r, "/resume"@),
            is_empty_object(r.body),
    {
        post_nothing("/resume")
    }

    pub fn skip(&self) -> (r: ApiCall)
        ensures
            posts(r, "/skip"@),
            is_empty_object(r.body),
    {
        post_nothing("/skip")
    }

    pub fn seek(&self, secs: Real64) -> (r: ApiCall)
        ensures
            posts(r, "/seek"@),
            r.body matches Json::Object(m) && m@.len() == 1 && m@[0].0@ == "secs"@ && m@[0].1
                == Json::Number(None, Some(secs)),
    {
        let mut m: Vec<(String, Json)> = Vec::new();
        m.push((String::from_str("secs"), Json::Number(None, Some(secs))));
        post(String::from_str("/seek"), Json::Object(m))
    }

    pub fn set_volume(&self, vol: Real64) -> (r: ApiCall)
        ensures
            posts(r, "/volume"@),
            r.body matches Json::Object(m) && m@.len() == 1 && m@[0].0@ == "vol"@ && m@[0].1
                == Json::Number(None, Some(vol)),
    {
        let mut m: Vec<(String, Json)> = Vec::new();
        m.push((String::from_str("vol"), Json::Number(None, Some(vol))));
        post(String::from_str("/volume"), Json::Object(m))
    }

    pub fn set_repeat(&self, mode: &str) -> (r: ApiCall)
        ensures
            posts(r, "/repeat"@),
            is_text_member(r.body, "mode"@, mode@),
    {
        post(String::from_str("/repeat"), text_member("mode", mode))
    }

    pub fn shuffle(&self) -> (r: ApiCall)
        ensures
            posts(r, "/queue/shuffle"@),
            is_empty_object(r.body),
    {
        post_nothing("/queue/shuffle")
    }

    pub fn clear(&self) -> (r: ApiCall)
        ensures
            posts(r, "/queue/clear"@),
            is_empty_object(r.body),
    {
        post_nothing("/queue/clear")
    }

    /// Starts a download under a name, from an address if one is given.
    pub fn init(&self, name: &str, url: Option<&str>) -> (r: ApiCall)
        ensures
            posts(r, "/init"@),
            r.body matches Json::Object(m) && m@.len() == (if url is Some {
                3nat
            } else {
                2nat
            }),
            r.body.text_at("song"@) == Some(name@),
            r.body.text_at("name"@) == Some(name@),
            r.body.text_at("url"@) == (match url {
                Some(u) => Some(u@),
                None => None,
            }),
    {
        let mut m: Vec<(String, Json)> = Vec::new();
        m.push((String::from_str("name"), Json::Text(String::from_str(name))));
        m.push((String::from_str("song"), Json::Text(String::from_str(name))));
        match url {
            Some(u) => {
                m.push((String::from_str("url"), Json::Text(String::from_str(u))));
            },
            None => {},
        }
        proof {
            reveal_strlit("name");
            reveal_strlit("song");
            reveal_strlit("url");
            reveal_with_fuel(crate::json::member_of, 4);
            assert("name"@[0] != "song"@[0]);
            assert("url"@.len() == 3);
            let a = m@.drop_first();
            let b = a.drop_first();
            assert(a[0] == m@[1]);
            if url is Some {
                assert(b[0] == m@[2]);
            }
        }
        post(String::from_str("/init"), Json::Object(m))
    }

    /// Starts a download for every name of a list.
    pub fn init_batch(&self, songs: &Vec<String>) -> (r: ApiCall)
        ensures
            posts(r, "/init/batch"@),
            r.body matches Json::Object(m) && m@.len() == 1 && m@[0].0@ == "songs"@ && (
            m@[0].1 matches Json::List(list) && list@.len() == songs@.len() && forall|i: int|
                0 <= i < list@.len() ==> (#[trigger] list@[i]).text() == Some(songs@[i]@)),
    {
        let mut list: Vec<Json> = Vec::new();
        let mut i: usize = 0;
        while i < songs.len()
            invariant
                i <= songs@.len(),
                list@.len() == i,
                forall|k: int| 0 <= k < i ==> (#[trigger] list@[k]).text() == Some(songs@[k]@),
            decreases songs@.len() - i,
        {
            list.push(Json::Text(songs[i].clone()));
            i += 1;
        }
        let mut m: Vec<(String, Json)> = Vec::new();
        m.push((String::from_str("songs"), Json::List(list)));
        post(String::from_str("/init/batch"), Json::Object(m))
    }

    pub fn create_playlist(&self, name: &str) -> (r: ApiCall)
        ensures
            posts(r, "/playlists"@),
            is_text_member(r.body, "name"@, name@),
    {
        post(String::from_str("/playlists"), text_member("name", name))
    }

    pub fn delete_playlist(&self, name: &str) -> (r: ApiCall)
        ensures
            is_call(r, Method::Delete, playlist_path(name@, ""@)),
    {
        plain_call(Method::Delete, path_of_playlist(name, ""))
    }

    pub fn rename_playlist(&self, old_name: &str, new_name: &str) -> (r: ApiCall)
        ensures
            r.method == Method::Patch,
            r.path@ == playlist_path(old_name@, ""@),
            is_text_member(r.body, "name"@, new_name@),
            r.timeout_ms == DEFAULT_TIMEOUT_MS && r.timeout_ms == 8000,
    {
        ApiCall {
            method: Method::Patch,
            path: path_of_playlist(old_name, ""),
            body: text_member("name", new_name),
            timeout_ms: DEFAULT_TIMEOUT_MS,
        }
    }

    pub fn duplicate_playlist(&self, src: &str, dest: &str) -> (r: ApiCall)
        ensures
            posts(r, playlist_path(src@, "/duplicate"@)),
            is_text_member(r.body, "name"@, dest@),
    {
        post(path_of_playlist(src, "/duplicate"), text_member("name", dest))
    }

    pub fn add_to_playlist(&self, name: &str, query: &str) -> (r: ApiCall)
        ensures
            posts(r, playlist_path(name@, "/add"@)),
            is_text_member(r.body, "query"@, query@),
    {
        post(path_of_playlist(name, "/add"), text_member("query", query))
    }

    pub fn remove_from_playlist(&self, name: &str, song_id: i64) -> (r: ApiCall)
        ensures
            is_call(
                r,
                Method::Delete,
                playlist_path(name@, "/songs/"@ + decimal_int(song_id as int)),
            ),
    {
        let n = decimal_i64(song_id);
        let tail = concat2("/songs/", n.as_str());
        plain_call(Method::Delete, path_of_playlist(name, tail.as_str()))
    }

    /// Moves a song of a playlist; positions count from one.
    pub fn reorder_playlist(&self, name: &str, from: usize, to: usize) -> (r: ApiCall)
        ensures
            posts(r, playlist_path(name@, "/reorder"@)),
            r.body matches Json::Object(m) && m@.len() == 2 && m@[0].0@ == "from"@ && m@[0].1
                == count_number(from) && m@[1].0@ == "to"@ && m@[1].1 == count_number(to),
    {
        let mut m: Vec<(String, Json)> = Vec::new();
        m.push((String::from_str("from"), count(from)));
        m.push((String::from_str("to"), count(to)));
        post(path_of_playlist(name, "/reorder"), Json::Object(m))
    }

    pub fn play_playlist(&self, name: &str) -> (r: ApiCall)
        ensures
            posts(r, playlist_path(name@, "/play"@)),
            is_empty_object(r.body),
    {
        let p = path_of_playlist(name, "/play");
        post_nothing(p.as_str())
    }
}

} // verus!
