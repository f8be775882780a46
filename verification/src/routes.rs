//! Which request a method and a path ask for.

use vstd::prelude::*;

use crate::text::{
    chars_of, ends_with, find_chars, find_text, has_prefix, has_suffix, parse_i64, parsed_signed,
    same_text, starts_with, string_of,
};

verus! {

/// The method of a request.
#[derive(Debug)]
pub enum Method {
    Get,
    Post,
    Put,
    Patch,
    Delete,
    /// Any other method, by its name.
    Other(String),
}

impl Method {
    pub open spec fn name(self) -> Seq<char> {
        match self {
            Method::Get => "GET"@,
            Method::Post => "POST"@,
            Method::Put => "PUT"@,
            Method::Patch => "PATCH"@,
            Method::Delete => "DELETE"@,
            Method::Other(n) => n@,
        }
    }

    /// The name of the method.
    pub fn as_str(&self) -> (r: &str)
        ensures
            r@ == self.name(),
    {
        match self {
            Method::Get => "GET",
            Method::Post => "POST",
            Method::Put => "PUT",
            Method::Patch => "PATCH",
            Method::Delete => "DELETE",
            Method::Other(n) => n.as_str(),
        }
    }

    /// Requests with this method carry a body.
    pub open spec fn carries_body(self) -> bool {
        self is Post || self is Put || self is Patch || self is Delete
    }

    /// Whether requests with this method carry a body.
    pub fn has_body(&self) -> (r: bool)
        ensures
            r == self.carries_body(),
    {
        match self {
            Method::Post | Method::Put | Method::Patch | Method::Delete => true,
            _ => false,
        }
    }
}

/// Control of the playing song.
#[derive(Clone, Copy, Debug, PartialEq, Eq, Structural)]
pub enum AudioRoute {
    Pause,
    Resume,
    Seek,
}

/// What a request asks for. Playlists are named in the path.
#[derive(Debug)]
pub enum Route {
    Help,
    Songs,
    Search,
    SearchAll,
    SearchYt,
    SearchYtRanked,
    Pick,
    Queue,
    NowPlaying,
    Downloads,
    History,
    Stats,
    Play,
    Add,
    Del,
    InitAsync,
    InitBatch,
    Skip,
    QueueShuffle,
    QueueClear,
    Audio(AudioRoute),
    RepeatGet,
    RepeatSet,
    VolumeGet,
    VolumeSet,
    PlaylistsList,
    PlaylistCreate,
    PlaylistGet(String),
    PlaylistRename(String),
    PlaylistDelete(String),
    PlaylistAdd(String),
    PlaylistPlay(String),
    PlaylistRemoveSong(String, i64),
    PlaylistReorder(String),
    PlaylistDuplicate(String),
    NotFound,
}

/// `s` without the slashes at its end.
pub open spec fn without_slashes(s: Seq<char>) -> Seq<char>
    decreases s.len(),
{
    if s.len() > 0 && s.last() == '/' {
        without_slashes(s.drop_last())
    } else {
        s
    }
}

fn cut_slashes(path: &str) -> (r: String)
    ensures
        r@ == without_slashes(path@),
{
    let cs = chars_of(path);
    let mut end: usize = cs.len();
    proof {
        assert(path@.take(end as int) =~= path@);
    }
    while end > 0 && cs[end - 1] == '/'
        invariant
            cs@ == path@,
            end <= cs@.len(),
            without_slashes(path@) == without_slashes(path@.take(end as int)),
        decreases end,
    {
        proof {
            assert(path@.take(end as int).drop_last() =~= path@.take(end - 1));
        }
        end -= 1;
    }
    proof {
        assert(path@.subrange(0, end as int) =~= path@.take(end as int));
    }
    string_of(&cs, 0, end)
}

/// The fixed paths that can be read.
pub open spec fn get_route(p: Seq<char>) -> Option<Route> {
    if p == ""@ || p == "/help"@ {
        Some(Route::Help)
    } else if p == "/songs"@ {
        Some(Route::Songs)
    } else if p == "/search"@ {
        Some(Route::Search)
    } else if p == "/search/all"@ {
        Some(Route::SearchAll)
    } else if p == "/search/yt/ranked"@ {
        Some(Route::SearchYtRanked)
    } else if p == "/pick"@ {
        Some(Route::Pick)
    } else if p == "/search/yt"@ {
        Some(Route::SearchYt)
    } else if p == "/queue"@ {
        Some(Route::Queue)
    } else if p == "/now-playing"@ {
        Some(Route::NowPlaying)
    } else if p == "/downloads"@ {
        Some(Route::Downloads)
    } else if p == "/history"@ {
        Some(Route::History)
    } else if p == "/stats"@ {
        Some(Route::Stats)
    } else if p == "/repeat"@ {
        Some(Route::RepeatGet)
    } else if p == "/volume"@ {
        Some(Route::VolumeGet)
    } else if p == "/playlists"@ {
        Some(Route::PlaylistsList)
    } else {
        None
    }
}

/// The fixed paths that can be posted to.
pub open spec fn post_route(p: Seq<char>) -> Option<Route> {
    if p == "/search"@ {
        Some(Route::Search)
    } else if p == "/play"@ {
        Some(Route::Play)
    } else if p == "/add"@ {
        Some(Route::Add)
    } else if p == "/del"@ {
        Some(Route::Del)
    } else if p == "/init"@ {
        Some(Route::InitAsync)
    } else if p == "/init/batch"@ {
        Some(Route::InitBatch)
    } else if p == "/skip"@ {
        Some(Route::Skip)
    } else if p == "/queue/shuffle"@ {
        Some(Route::QueueShuffle)
    } else if p == "/queue/clear"@ {
        Some(Route::QueueClear)
    } else if p == "/pause"@ {
        Some(Route::Audio(AudioRoute::Pause))
    } else if p == "/resume"@ {
        Some(Route::Audio(AudioRoute::Resume))
    } else if p == "/seek"@ {
        Some(Route::Audio(AudioRoute::Seek))
    } else if p == "/repeat"@ {
        Some(Route::RepeatSet)
    } else if p == "/volume"@ {
        Some(Route::VolumeSet)
    } else if p == "/playlists"@ {
        Some(Route::PlaylistCreate)
    } else {
        None
    }
}

fn fixed_get(p: &str) -> (r: Option<Route>)
    ensures
        r == get_route(p@),
{
    if same_text(p, "") || same_text(p, "/help") {
        Some(Route::Help)
    } else if same_text(p, "/songs") {
        Some(Route::Songs)
    } else if same_text(p, "/search") {
        Some(Route::Search)
    } else if same_text(p, "/search/all") {
        Some(Route::SearchAll)
    } else if same_text(p, "/search/yt/ranked") {
        Some(Route::SearchYtRanked)
    } else if same_text(p, "/pick") {
        Some(Route::Pick)
    } else if same_text(p, "/search/yt") {
        Some(Route::SearchYt)
    } else if same_text(p, "/queue") {
        Some(Route::Queue)
    } else if same_text(p, "/now-playing") {
        Some(Route::NowPlaying)
    } else if same_text(p, "/downloads") {
        Some(Route::Downloads)
    } else if same_text(p, "/history") {
        Some(Route::History)
    } else if same_text(p, "/stats") {
        Some(Route::Stats)
    } else if same_text(p, "/repeat") {
        Some(Route::RepeatGet)
    } else if same_text(p, "/volume") {
        Some(Route::VolumeGet)
    } else if same_text(p, "/playlists") {
        Some(Route::PlaylistsList)
    } else {
        None
    }
}

fn fixed_post(p: &str) -> (r: Option<Route>)
    ensures
        r == post_route(p@),
{
    if same_text(p, "/search") {
        Some(Route::Search)
    } else if same_text(p, "/play") {
        Some(Route::Play)
    } else if same_text(p, "/add") {
        Some(Route::Add)
    } else if same_text(p, "/del") {
        Some(Route::Del)
    } else if same_text(p, "/init") {
        Some(Route::InitAsync)
    } else if same_text(p, "/init/batch") {
        Some(Route::InitBatch)
    } else if same_text(p, "/skip") {
        Some(Route::Skip)
    } else if same_text(p, "/queue/shuffle") {
        Some(Route::QueueShuffle)
    } else if same_text(p, "/queue/clear") {
        Some(Route::QueueClear)
    } else if same_text(p, "/pause") {
        Some(Route::Audio(AudioRoute::Pause))
    } else if same_text(p, "/resume") {
        Some(Route::Audio(AudioRoute::Resume))
    } else if same_text(p, "/seek") {
        Some(Route::Audio(AudioRoute::Seek))
    } else if same_text(p, "/repeat") {
        Some(Route::RepeatSet)
    } else if same_text(p, "/volume") {
        Some(Route::VolumeSet)
    } else if same_text(p, "/playlists") {
        Some(Route::PlaylistCreate)
    } else {
        None
    }
}

/// What a path asks to do with a playlist.
#[derive(Clone, Copy, Debug, PartialEq, Eq, Structural)]
pub enum PlaylistAction {
    Add,
    Play,
    Reorder,
    Duplicate,
    /// Nothing but the playlist itself.
    Whole,
}

impl PlaylistAction {
    /// The end of the path that asks for the action.
    pub open spec fn suffix(self) -> Seq<char> {
        match self {
            PlaylistAction::Add => "/add"@,
            PlaylistAction::Play => "/play"@,
            PlaylistAction::Reorder => "/reorder"@,
            PlaylistAction::Duplicate => "/duplicate"@,
            PlaylistAction::Whole => ""@,
        }
    }
}

/// The action that the end of a playlist path asks for.
pub open spec fn action_of(rest: Seq<char>) -> PlaylistAction {
    if has_suffix(rest, "/duplicate"@) {
        PlaylistAction::Duplicate
    } else if has_suffix(rest, "/reorder"@) {
        PlaylistAction::Reorder
    } else if has_suffix(rest, "/add"@) {
        PlaylistAction::Add
    } else if has_suffix(rest, "/play"@) {
        PlaylistAction::Play
    } else {
        PlaylistAction::Whole
    }
}

/// The playlist that a path names: what stands before the action.
pub open spec fn playlist_named(rest: Seq<char>) -> Seq<char> {
    rest.subrange(0, rest.len() - action_of(rest).suffix().len())
}

/// Splits a playlist path into the name and the action.
pub fn split_playlist_suffix(rest: &str) -> (r: (String, PlaylistAction))
    ensures
        r.0@ == playlist_named(rest@),
        r.1 == action_of(rest@),
{
    let cs = chars_of(rest);
    let n: usize = cs.len();
    proof {
        reveal_strlit("");
    }
    if ends_with(&cs, "/duplicate") {
        (string_of(&cs, 0, n - "/duplicate".unicode_len()), PlaylistAction::Duplicate)
    } else if ends_with(&cs, "/reorder") {
        (string_of(&cs, 0, n - "/reorder".unicode_len()), PlaylistAction::Reorder)
    } else if ends_with(&cs, "/add") {
        (string_of(&cs, 0, n - "/add".unicode_len()), PlaylistAction::Add)
    } else if ends_with(&cs, "/play") {
        (string_of(&cs, 0, n - "/play".unicode_len()), PlaylistAction::Play)
    } else {
        (string_of(&cs, 0, n), PlaylistAction::Whole)
    }
}

/// The playlist and the song of a path of the form `<name>/songs/<id>`.
pub open spec fn song_of_path(rest: Seq<char>) -> Option<(Seq<char>, int)> {
    match find_text(rest, "/songs/"@) {
        Some(i) => match parsed_signed(
            rest.subrange(i + "/songs/"@.len(), rest.len() as int),
            i64::MAX as nat,
        ) {
            Some(id) => Some((rest.subrange(0, i), id)),
            None => None,
        },
        None => None,
    }
}

/// Splits a path of the form `<name>/songs/<id>`.
pub fn split_song_path(rest: &str) -> (r: Option<(String, i64)>)
    ensures
        match r {
            Some((name, id)) => song_of_path(rest@) == Some((name@, id as int)),
            None => song_of_path(rest@) is None,
        },
{
    let cs = chars_of(rest);
    let n: usize = cs.len();
    match find_chars(&cs, "/songs/") {
        Some(i) => {
            let name = string_of(&cs, 0, i);
            let tail = string_of(&cs, i + "/songs/".unicode_len(), n);
            match parse_i64(tail.as_str(), i64::MAX) {
                Some(id) => Some((name, id)),
                None => None,
            }
        },
        None => None,
    }
}

/// `s` without the prefix that it begins with.
pub fn strip_prefix(prefix: &str, s: &str) -> (r: String)
    requires
        has_prefix(s@, prefix@),
    ensures
        r@ == s@.subrange(prefix@.len() as int, s@.len() as int),
{
    let cs = chars_of(s);
    string_of(&cs, prefix.unicode_len(), cs.len())
}

/// `r` is the route for a path below `/playlists/`.
pub open spec fn is_playlist_route(r: Route, method: Method, rest: Seq<char>) -> bool {
    let name = playlist_named(rest);
    match method {
        Method::Get => match action_of(rest) {
            PlaylistAction::Whole => r matches Route::PlaylistGet(n) && n@ == rest,
            _ => r is NotFound,
        },
        Method::Patch => match action_of(rest) {
            PlaylistAction::Whole => r matches Route::PlaylistRename(n) && n@ == rest,
            _ => r is NotFound,
        },
        Method::Delete => match song_of_path(rest) {
            Some((song_list, id)) => r matches Route::PlaylistRemoveSong(n, i) && n@ == song_list
                && i == id,
            None => r matches Route::PlaylistDelete(n) && n@ == rest,
        },
        Method::Post => match action_of(rest) {
            PlaylistAction::Add => r matches Route::PlaylistAdd(n) && n@ == name,
            PlaylistAction::Play => r matches Route::PlaylistPlay(n) && n@ == name,
            PlaylistAction::Reorder => r matches Route::PlaylistReorder(n) && n@ == name,
            PlaylistAction::Duplicate => r matches Route::PlaylistDuplicate(n) && n@ == name,
            PlaylistAction::Whole => r is NotFound,
        },
        _ => r is NotFound,
    }
}

/// The fixed path of a method.
pub open spec fn fixed_route(method: Method, p: Seq<char>) -> Option<Route> {
    match method {
        Method::Get => get_route(p),
        Method::Post => post_route(p),
        _ => None,
    }
}

/// `r` is the route for a method and a path. Slashes at the end do not matter.
pub open spec fn is_route(r: Route, method: Method, path: Seq<char>) -> bool {
    let p = without_slashes(path);
    match fixed_route(method, p) {
        Some(f) => r == f,
        None => if has_prefix(p, "/playlists/"@) {
            is_playlist_route(
                r,
                method,
                p.subrange("/playlists/"@.len() as int, p.len() as int),
            )
        } else {
            r is NotFound
        },
    }
}

/// The route for reading what lies below `/playlists/`.
pub fn playlist_get_route(rest: &str) -> (r: Route)
    ensures
        is_playlist_route(r, Method::Get, rest@),
{
    let (name, action) = split_playlist_suffix(rest);
    match action {
        PlaylistAction::Whole => {
            proof {
                reveal_strlit("");
                assert(rest@.subrange(0, rest@.len() as int) =~= rest@);
            }
            Route::PlaylistGet(name)
        },
        _ => Route::NotFound,
    }
}

fn playlist_route(method: &Method, rest: &str) -> (r: Route)
    ensures
        is_playlist_route(r, *method, rest@),
{
    let (name, action) = split_playlist_suffix(rest);
    match method {
        Method::Get => playlist_get_route(rest),
        Method::Patch => match action {
            PlaylistAction::Whole => {
                proof {
                    reveal_strlit("");
                    assert(rest@.subrange(0, rest@.len() as int) =~= rest@);
                }
                Route::PlaylistRename(name)
            },
            _ => Route::NotFound,
        },
        Method::Delete => match split_song_path(rest) {
            Some((n, id)) => Route::PlaylistRemoveSong(n, id),
            None => Route::PlaylistDelete(String::from_str(rest)),
        },
        Method::Post => match action {
            PlaylistAction::Add => Route::PlaylistAdd(name),
            PlaylistAction::Play => Route::PlaylistPlay(name),
            PlaylistAction::Reorder => Route::PlaylistReorder(name),
            PlaylistAction::Duplicate => Route::PlaylistDuplicate(name),
            PlaylistAction::Whole => Route::NotFound,
        },
        _ => Route::NotFound,
    }
}

/// Which request a method and a path ask for.
pub fn route_for(method: &Method, path: &str) -> (r: Route)
    ensures
        is_route(r, *method, path@),
{
    let p = cut_slashes(path);
    let fixed = match method {
        Method::Get => fixed_get(p.as_str()),
        Method::Post => fixed_post(p.as_str()),
        _ => None,
    };
    match fixed {
        Some(route) => route,
        None => {
            let cs = chars_of(p.as_str());
            if starts_with(&cs, "/playlists/") {
                let rest = strip_prefix("/playlists/", p.as_str());
                playlist_route(method, rest.as_str())
            } else {
                Route::NotFound
            }
        },
    }
}

/// A slash at the end of a path does not matter.
pub proof fn lemma_trailing_slash(r: Route, method: Method, path: Seq<char>)
    ensures
        is_route(r, method, path.push('/')) == is_route(r, method, path),
{
    assert(path.push('/').drop_last() =~= path);
    assert(path.push('/').last() == '/');
}

} // verus!
