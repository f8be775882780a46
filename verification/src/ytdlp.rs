//! Running `yt-dlp`: what it is asked for, and what it prints, one JSON object
//! per line.

use vstd::prelude::*;

use crate::json::{json_of, parse_json, Json};
use crate::model::{Song, YtCandidate};
use crate::real64::Real64;
use crate::text::{
    concat2, concat3, decimal, decimal_u64, opt_text, split_char, split_on, texts, trim, trimmed,
};

verus! {

/// A search result, its texts as texts.
pub struct CandidateView {
    pub id: Seq<char>,
    pub title: Seq<char>,
    pub uploader: Seq<char>,
    pub duration_secs: Real64,
    pub url: Seq<char>,
    pub thumbnail: Option<Seq<char>>,
    pub view_count: Real64,
}

impl View for YtCandidate {
    type V = CandidateView;

    open spec fn view(&self) -> CandidateView {
        CandidateView {
            id: self.id@,
            title: self.title@,
            uploader: self.uploader@,
            duration_secs: self.duration_secs,
            url: self.url@,
            thumbnail: opt_text(self.thumbnail),
            view_count: self.view_count,
        }
    }
}

/// The views of a list of search results.
pub open spec fn candidate_views(list: Seq<YtCandidate>) -> Seq<CandidateView> {
    list.map_values(|c: YtCandidate| c@)
}

/// The argument that asks `yt-dlp` for up to `limit` results, at least one.
pub open spec fn search_argument(query: Seq<char>, limit: nat) -> Seq<char> {
    "ytsearch"@ + decimal(if limit > 0 { limit } else { 1 }) + ":"@ + query
}

/// The argument that asks `yt-dlp` for up to `limit` results, at least one.
pub fn search_arg(query: &str, limit: usize) -> (r: String)
    ensures
        r@ == search_argument(query@, limit as nat),
{
    let n = decimal_u64(if limit > 0 { limit as u64 } else { 1 });
    let head = concat3("ytsearch", n.as_str(), ":");
    concat2(head.as_str(), query)
}

/// The text at `key`, or no text at all.
pub open spec fn text_or_empty(v: Json, key: Seq<char>) -> Seq<char> {
    match v.text_at(key) {
        Some(t) => t,
        None => Seq::empty(),
    }
}

fn get_or_empty(v: &Json, key: &str) -> (r: String)
    ensures
        r@ == text_or_empty(*v, key@),
{
    match v.get_text(key) {
        Some(t) => t,
        None => String::new(),
    }
}

/// The text at `key` without surrounding white space, where anything is left.
pub open spec fn solid_text(v: Json, key: Seq<char>) -> Option<Seq<char>> {
    match v.text_at(key) {
        Some(t) => if trimmed(t).len() > 0 {
            Some(trimmed(t))
        } else {
            None
        },
        None => None,
    }
}

fn get_solid(v: &Json, key: &str) -> (r: Option<String>)
    ensures
        opt_text(r) == solid_text(*v, key@),
{
    match v.get_text(key) {
        Some(t) => {
            let t = trim(t.as_str());
            if t.as_str().unicode_len() > 0 {
                Some(t)
            } else {
                None
            }
        },
        None => None,
    }
}

/// Who made a video: the artist, else the channel, the uploader or the creator.
pub open spec fn uploader_of(v: Json) -> Seq<char> {
    if solid_text(v, "artist"@) is Some {
        solid_text(v, "artist"@)->0
    } else if solid_text(v, "channel"@) is Some {
        solid_text(v, "channel"@)->0
    } else if solid_text(v, "uploader"@) is Some {
        solid_text(v, "uploader"@)->0
    } else if solid_text(v, "creator"@) is Some {
        solid_text(v, "creator"@)->0
    } else {
        Seq::empty()
    }
}

/// Picks the artist, else the channel, the uploader or the creator; empty where
/// none is given.
pub fn pick_uploader(v: &Json) -> (r: String)
    ensures
        r@ == uploader_of(*v),
{
    match get_solid(v, "artist") {
        Some(s) => s,
        None => match get_solid(v, "channel") {
            Some(s) => s,
            None => match get_solid(v, "uploader") {
                Some(s) => s,
                None => match get_solid(v, "creator") {
                    Some(s) => s,
                    None => String::new(),
                },
            },
        },
    }
}

/// The height of a picture; zero where none is given.
pub open spec fn height_of(entry: Json) -> i64 {
    match entry.member("height"@) {
        Some(h) => match h.whole() {
            Some(n) => n,
            None => 0,
        },
        None => 0,
    }
}

/// The tallest of the first `n` pictures that have an address, with its
/// height; the first one among equals.
pub open spec fn tallest(list: Seq<Json>, n: int) -> Option<(i64, Seq<char>)>
    decreases n,
{
    if n <= 0 {
        None
    } else {
        let best = tallest(list, n - 1);
        let entry = list[n - 1];
        match entry.text_at("url"@) {
            Some(u) => match best {
                Some((h, _)) => if h >= height_of(entry) {
                    best
                } else {
                    Some((height_of(entry), u))
                },
                None => Some((height_of(entry), u)),
            },
            None => best,
        }
    }
}

/// The tallest picture of the list `thumbnails`.
pub open spec fn listed_thumbnail(v: Json) -> Option<Seq<char>> {
    match v.member("thumbnails"@) {
        Some(Json::List(list)) => match tallest(list@, list@.len() as int) {
            Some((_, u)) => Some(u),
            None => None,
        },
        _ => None,
    }
}

/// The cover of a video: the tallest picture of the list, else the single one.
pub open spec fn thumbnail_of(v: Json) -> Option<Seq<char>> {
    if listed_thumbnail(v) is Some {
        listed_thumbnail(v)
    } else {
        v.text_at("thumbnail"@)
    }
}

fn entry_height(entry: &Json) -> (r: i64)
    ensures
        r == height_of(*entry),
{
    match entry.get("height") {
        Some(h) => match h.as_whole() {
            Some(n) => n,
            None => 0,
        },
        None => 0,
    }
}

fn tallest_picture(list: &Vec<Json>) -> (r: Option<String>)
    ensures
        opt_text(r) == (match tallest(list@, list@.len() as int) {
            Some((_, u)) => Some(u),
            None => None,
        }),
{
    let mut best: Option<(i64, String)> = None;
    let mut i: usize = 0;
    while i < list.len()
        invariant
            i <= list@.len(),
            match best {
                Some((h, u)) => tallest(list@, i as int) == Some((h, u@)),
                None => tallest(list@, i as int) is None,
            },
        decreases list@.len() - i,
    {
        match list[i].get_text("url") {
            Some(u) => {
                let h = entry_height(&list[i]);
                let keep = match &best {
                    Some((bh, _)) => *bh >= h,
                    None => false,
                };
                if !keep {
                    best = Some((h, u));
                }
            },
            None => {},
        }
        i += 1;
    }
    match best {
        Some((_, u)) => Some(u),
        None => None,
    }
}

/// Picks the tallest picture of the list, else the single one; `None` where a
/// video has no cover.
pub fn pick_thumbnail(v: &Json) -> (r: Option<String>)
    ensures
        opt_text(r) == thumbnail_of(*v),
{
    let listed = match v.get("thumbnails") {
        Some(Json::List(list)) => tallest_picture(list),
        _ => None,
    };
    match listed {
        Some(u) => Some(u),
        None => v.get_text("thumbnail"),
    }
}

/// The address of a video.
pub open spec fn url_of(v: Json) -> Seq<char> {
    if v.text_at("webpage_url"@) is Some {
        text_or_empty(v, "webpage_url"@)
    } else {
        text_or_empty(v, "url"@)
    }
}

/// The double at `key`, or zero.
pub open spec fn number_or_zero(v: Json, key: Seq<char>) -> Real64 {
    match v.member(key) {
        Some(n) => match n.double() {
            Some(x) => x,
            None => Real64 { bits: 0 },
        },
        None => Real64 { bits: 0 },
    }
}

fn get_number(v: &Json, key: &str) -> (r: Real64)
    ensures
        r == number_or_zero(*v, key@),
{
    match v.get(key) {
        Some(n) => match n.as_real() {
            Some(x) => x,
            None => Real64 { bits: 0 },
        },
        None => Real64 { bits: 0 },
    }
}

/// The search result that a line describes. Results without an id or an address
/// do not count. View counts are not part of a search.
pub open spec fn candidate_of(v: Json) -> Option<CandidateView> {
    let id = text_or_empty(v, "id"@);
    if id.len() == 0 || url_of(v).len() == 0 {
        None
    } else {
        Some(
            CandidateView {
                id,
                title: text_or_empty(v, "title"@),
                uploader: uploader_of(v),
                duration_secs: number_or_zero(v, "duration"@),
                url: url_of(v),
                thumbnail: thumbnail_of(v),
                view_count: Real64 { bits: 0 },
            },
        )
    }
}

/// Reads one search result.
pub fn candidate_from(v: &Json) -> (r: Option<YtCandidate>)
    ensures
        match r {
            Some(c) => candidate_of(*v) == Some(c@),
            None => candidate_of(*v) is None,
        },
{
    let id = get_or_empty(v, "id");
    let url = match v.get_text("webpage_url") {
        Some(u) => u,
        None => get_or_empty(v, "url"),
    };
    if id.as_str().unicode_len() == 0 || url.as_str().unicode_len() == 0 {
        return None;
    }
    Some(
        YtCandidate {
            id,
            title: get_or_empty(v, "title"),
            uploader: pick_uploader(v),
            duration_secs: get_number(v, "duration"),
            url,
            thumbnail: pick_thumbnail(v),
            view_count: Real64 { bits: 0 },
        },
    )
}

/// What a line of output holds: blank lines and lines that are not JSON hold
/// nothing.
pub open spec fn line_value(line: Seq<char>) -> Option<Json> {
    let t = trimmed(line);
    if t.len() == 0 {
        None
    } else {
        match json_of(t) {
            Ok(v) => Some(v),
            Err(_) => None,
        }
    }
}

fn read_line(line: &str) -> (r: Option<Json>)
    ensures
        match r {
            Some(v) => line_value(line@) == Some(v),
            None => line_value(line@) is None,
        },
{
    let t = trim(line);
    if t.as_str().unicode_len() == 0 {
        return None;
    }
    match parse_json(t.as_str()) {
        Ok(v) => Some(v),
        Err(_) => None,
    }
}

/// The values that lines hold, in order.
pub open spec fn line_values(lines: Seq<Seq<char>>) -> Seq<Json>
    decreases lines.len(),
{
    if lines.len() == 0 {
        Seq::empty()
    } else {
        let head = line_values(lines.drop_last());
        match line_value(lines.last()) {
            Some(v) => head.push(v),
            None => head,
        }
    }
}

/// Reads the values that a program printed, one per line. Blank lines and lines
/// that are not JSON are passed over.
pub fn read_lines(stdout: &str) -> (r: Vec<Json>)
    ensures
        r@ == line_values(split_on(stdout@, '\n')),
{
    let lines = split_char(stdout, '\n');
    let ghost all = split_on(stdout@, '\n');
    let mut out: Vec<Json> = Vec::new();
    let mut i: usize = 0;
    while i < lines.len()
        invariant
            texts(lines@) == all,
            i <= lines@.len(),
            out@ == line_values(all.take(i as int)),
        decreases lines@.len() - i,
    {
        proof {
            assert(all.len() == lines@.len());
            assert(all[i as int] == lines@[i as int]@);
            assert(all.take(i + 1).drop_last() =~= all.take(i as int));
        }
        match read_line(lines[i].as_str()) {
            Some(v) => {
                out.push(v);
            },
            None => {},
        }
        i += 1;
    }
    proof {
        assert(all.take(i as int) =~= all);
    }
    out
}

/// The search results among values, in order.
pub open spec fn candidates_of(values: Seq<Json>) -> Seq<CandidateView>
    decreases values.len(),
{
    if values.len() == 0 {
        Seq::empty()
    } else {
        let head = candidates_of(values.drop_last());
        match candidate_of(values.last()) {
            Some(c) => head.push(c),
            None => head,
        }
    }
}

/// The search results among values.
pub fn collect_candidates(values: &Vec<Json>) -> (r: Vec<YtCandidate>)
    ensures
        candidate_views(r@) == candidates_of(values@),
{
    let mut out: Vec<YtCandidate> = Vec::new();
    let mut i: usize = 0;
    while i < values.len()
        invariant
            i <= values@.len(),
            candidate_views(out@) == candidates_of(values@.take(i as int)),
        decreases values@.len() - i,
    {
        proof {
            assert(values@.take(i + 1).drop_last() =~= values@.take(i as int));
        }
        let ghost before = out@;
        match candidate_from(&values[i]) {
            Some(c) => {
                out.push(c);
                proof {
                    assert(candidate_views(out@) =~= candidate_views(before).push(c@));
                }
            },
            None => {},
        }
        i += 1;
    }
    proof {
        assert(values@.take(i as int) =~= values@);
    }
    out
}

/// The search results that `yt-dlp` printed. Lines that cannot be read and
/// results without an id or an address are passed over.
pub fn search_results(stdout: &str) -> (r: Vec<YtCandidate>)
    ensures
        candidate_views(r@) == candidates_of(line_values(split_on(stdout@, '\n'))),
{
    let values = read_lines(stdout);
    collect_candidates(&values)
}

/// The view counts among values: those of objects with an id.
pub open spec fn view_counts_of(values: Seq<Json>) -> Seq<(Seq<char>, Real64)>
    decreases values.len(),
{
    if values.len() == 0 {
        Seq::empty()
    } else {
        let head = view_counts_of(values.drop_last());
        let v = values.last();
        let id = text_or_empty(v, "id"@);
        if id.len() > 0 {
            head.push((id, number_or_zero(v, "view_count"@)))
        } else {
            head
        }
    }
}

/// Counts with their ids as texts.
pub open spec fn count_views(list: Seq<(String, Real64)>) -> Seq<(Seq<char>, Real64)> {
    list.map_values(|p: (String, Real64)| (p.0@, p.1))
}

/// The view counts that `yt-dlp` printed for a list of videos.
pub fn view_counts(stdout: &str) -> (r: Vec<(String, Real64)>)
    ensures
        count_views(r@) == view_counts_of(line_values(split_on(stdout@, '\n'))),
{
    let values = read_lines(stdout);
    let mut out: Vec<(String, Real64)> = Vec::new();
    let mut i: usize = 0;
    while i < values.len()
        invariant
            i <= values@.len(),
            count_views(out@) == view_counts_of(values@.take(i as int)),
        decreases values@.len() - i,
    {
        proof {
            assert(values@.take(i + 1).drop_last() =~= values@.take(i as int));
        }
        let ghost before = out@;
        let id = get_or_empty(&values[i], "id");
        if id.as_str().unicode_len() > 0 {
            let n = get_number(&values[i], "view_count");
            out.push((id, n));
            proof {
                assert(count_views(out@) =~= count_views(before).push((id@, n)));
            }
        }
        i += 1;
    }
    proof {
        assert(values@.take(i as int) =~= values@);
    }
    out
}

/// The arguments for a search.
pub fn search_args(query: &str, limit: usize) -> (r: Vec<String>)
    ensures
        texts(r@) == seq![
            "--no-warnings"@,
            "-j"@,
            search_argument(query@, limit as nat),
        ],
{
    let mut out: Vec<String> = Vec::new();
    out.push(String::from_str("--no-warnings"));
    out.push(String::from_str("-j"));
    out.push(search_arg(query, limit));
    proof {
        assert(texts(out@) =~= seq![
            "--no-warnings"@,
            "-j"@,
            search_argument(query@, limit as nat),
        ]);
    }
    out
}

/// The address of a video.
pub open spec fn video_address(id: Seq<char>) -> Seq<char> {
    "https://www.youtube.com/watch?v="@ + id
}

/// The arguments for a lookup of the view counts of videos, one address for each
/// of them.
pub fn view_count_args(ids: &Vec<String>) -> (r: Vec<String>)
    ensures
        texts(r@) == seq!["--no-warnings"@, "-j"@] + texts(ids@).map_values(
            |id: Seq<char>| video_address(id),
        ),
        r@.len() == ids@.len() + 2,
        forall|i: int|
            0 <= i < ids@.len() ==> (#[trigger] texts(r@)[i + 2])
                == "https://www.youtube.com/watch?v="@ + ids@[i]@,
{
    let mut out: Vec<String> = Vec::new();
    out.push(String::from_str("--no-warnings"));
    out.push(String::from_str("-j"));
    let ghost all = texts(ids@).map_values(|id: Seq<char>| video_address(id));
    let ghost head = seq!["--no-warnings"@, "-j"@];
    assert(texts(out@) =~= head + all.take(0));
    let mut i: usize = 0;
    while i < ids.len()
        invariant
            i <= ids@.len(),
            all == texts(ids@).map_values(|id: Seq<char>| video_address(id)),
            texts(out@) == head + all.take(i as int),
        decreases ids@.len() - i,
    {
        let ghost before = out@;
        out.push(concat2("https://www.youtube.com/watch?v=", ids[i].as_str()));
        proof {
            assert(all[i as int] == video_address(ids@[i as int]@));
            assert(texts(out@) =~= texts(before).push(all[i as int]));
            assert(texts(out@) =~= head + all.take(i + 1));
        }
        i += 1;
    }
    assert(all.take(i as int) =~= all);
    proof {
        assert(texts(out@).len() == out@.len());
        assert forall|k: int| 0 <= k < ids@.len() implies (#[trigger] texts(out@)[k + 2])
            == "https://www.youtube.com/watch?v="@ + ids@[k]@ by {
            assert(all[k] == video_address(ids@[k]@));
        }
    }
    out
}

/// What a search comes to, given what the downloader printed or why it could
/// not be started.
pub fn search_yt_sync(output: Result<String, String>) -> (r: Result<Vec<YtCandidate>, String>)
    ensures
        match output {
            Ok(stdout) => r matches Ok(list) && candidate_views(list@) == candidates_of(
                line_values(split_on(stdout@, '\n')),
            ),
            Err(e) => r matches Err(m) && m@ == "yt-dlp unavailable: "@ + e@,
        },
{
    match output {
        Ok(stdout) => Ok(search_results(stdout.as_str())),
        Err(e) => Err(concat2("yt-dlp unavailable: ", e.as_str())),
    }
}

/// The arguments for a download of `source` to the file `path`.
pub fn download_args(path: &str, source: &str) -> (r: Vec<String>)
    ensures
        texts(r@) == seq!["-x"@, "--audio-format"@, "mp3"@, "-o"@, path@, source@],
{
    let mut out: Vec<String> = Vec::new();
    out.push(String::from_str("-x"));
    out.push(String::from_str("--audio-format"));
    out.push(String::from_str("mp3"));
    out.push(String::from_str("-o"));
    out.push(String::from_str(path));
    out.push(String::from_str(source));
    proof {
        assert(texts(out@) =~= seq!["-x"@, "--audio-format"@, "mp3"@, "-o"@, path@, source@]);
    }
    out
}

/// How the downloader ended.
#[derive(Debug)]
pub enum DownloaderEnd {
    /// It could not be started.
    Unavailable(String),
    /// It failed, and said why.
    Failed(String),
    /// It says that all went well.
    Finished,
}

/// Why a download failed, if it did. `exists` says whether its file is there.
pub open spec fn download_failure(end: DownloaderEnd, path: Seq<char>, exists: bool) -> Option<
    Seq<char>,
> {
    match end {
        DownloaderEnd::Unavailable(e) => Some("yt-dlp unavailable: "@ + e@),
        DownloaderEnd::Failed(stderr) => Some("yt-dlp failed: "@ + stderr@),
        DownloaderEnd::Finished => if exists {
            None
        } else {
            Some("download finished but file missing: "@ + path)
        },
    }
}

/// Judges a download: the file has to be there in the end.
pub fn check_download(end: DownloaderEnd, path: &str, exists: bool) -> (r: Result<(), String>)
    ensures
        match r {
            Ok(_) => download_failure(end, path@, exists) is None,
            Err(m) => download_failure(end, path@, exists) == Some(m@),
        },
{
    match end {
        DownloaderEnd::Unavailable(e) => Err(concat2("yt-dlp unavailable: ", e.as_str())),
        DownloaderEnd::Failed(stderr) => Err(concat2("yt-dlp failed: ", stderr.as_str())),
        DownloaderEnd::Finished => {
            if exists {
                Ok(())
            } else {
                Err(concat2("download finished but file missing: ", path))
            }
        },
    }
}

/// The song that a finished download adds to the library. Its duration is only
/// known to the library.
pub fn downloaded_song(id: i64, name: String, path: String) -> (r: Song)
    ensures
        r == (Song { id, name, path, duration_secs: None }),
{
    Song { id, name, path, duration_secs: None }
}

/// A search for some results asks for so many; one for none asks for one, and is
/// then the search that a download source of one result stands for.
pub proof fn lemma_search_argument(query: Seq<char>, limit: nat)
    requires
        limit <= usize::MAX,
    ensures
        limit > 0 ==> search_argument(query, limit) == "ytsearch"@ + decimal(limit) + ":"@ + query,
        search_argument(query, 0) == search_argument(query, 1),
        trimmed(query).len() > 0 && limit > 0 ==> (crate::youtube::source_query(
            search_argument(query, limit),
        ) is Some <==> limit == 1),
{
    crate::query_laws::lemma_search_source(limit, query);
}

/// There is text at `key`, not only white space, and trimmed it is `t`.
pub open spec fn tells(v: Json, key: Seq<char>, t: Seq<char>) -> bool {
    t.len() > 0 && exists|s: Seq<char>| v.text_at(key) == Some(s) && #[trigger] trimmed(s) == t
}

/// There is no text at `key`, or only white space.
pub open spec fn tells_nothing(v: Json, key: Seq<char>) -> bool {
    forall|s: Seq<char>| v.text_at(key) == Some(s) ==> (#[trigger] trimmed(s)).len() == 0
}

proof fn lemma_solid(v: Json, key: Seq<char>, t: Seq<char>)
    ensures
        tells(v, key, t) ==> solid_text(v, key) == Some(t),
        tells_nothing(v, key) ==> solid_text(v, key) is None,
{
    match v.text_at(key) {
        Some(s) => {
            assert(trimmed(s) == trimmed(s));
        },
        None => {},
    }
}

/// Who made a video is its artist; where none is told its channel, then its
/// uploader, then its creator, and nobody where none of them is told.
pub proof fn lemma_uploader_keys(v: Json, t: Seq<char>)
    ensures
        tells(v, "artist"@, t) ==> uploader_of(v) == t,
        tells_nothing(v, "artist"@) && tells(v, "channel"@, t) ==> uploader_of(v) == t,
        tells_nothing(v, "artist"@) && tells_nothing(v, "channel"@) && tells(v, "uploader"@, t)
            ==> uploader_of(v) == t,
        tells_nothing(v, "artist"@) && tells_nothing(v, "channel"@) && tells_nothing(
            v,
            "uploader"@,
        ) && tells(v, "creator"@, t) ==> uploader_of(v) == t,
        tells_nothing(v, "artist"@) && tells_nothing(v, "channel"@) && tells_nothing(
            v,
            "uploader"@,
        ) && tells_nothing(v, "creator"@) ==> uploader_of(v).len() == 0,
{
    lemma_solid(v, "artist"@, t);
    lemma_solid(v, "channel"@, t);
    lemma_solid(v, "uploader"@, t);
    lemma_solid(v, "creator"@, t);
}

/// The tallest of some pictures is one of those that have an address, none of
/// them is taller, and those before it are less tall; there is none exactly
/// where none has an address.
pub proof fn lemma_tallest(list: Seq<Json>, n: int)
    requires
        0 <= n <= list.len(),
    ensures
        tallest(list, n) is None <==> forall|i: int|
            0 <= i < n ==> (#[trigger] list[i]).text_at("url"@) is None,
        tallest(list, n) matches Some((h, u)) ==> exists|k: int|
            0 <= k < n && (#[trigger] list[k]).text_at("url"@) == Some(u) && height_of(list[k]) == h
                && (forall|i: int|
                0 <= i < n && (#[trigger] list[i]).text_at("url"@) is Some ==> height_of(list[i])
                    <= h && (i < k ==> height_of(list[i]) < h)),
    decreases n,
{
    if n > 0 {
        lemma_tallest(list, n - 1);
        let best = tallest(list, n - 1);
        let entry = list[n - 1];
        if entry.text_at("url"@) is Some {
            match best {
                Some((h, u)) => {
                    let k = choose|k: int|
                        0 <= k < n - 1 && (#[trigger] list[k]).text_at("url"@) == Some(u)
                            && height_of(list[k]) == h && (forall|i: int|
                            0 <= i < n - 1 && (#[trigger] list[i]).text_at("url"@) is Some
                                ==> height_of(list[i]) <= h && (i < k ==> height_of(list[i]) < h));
                    if h >= height_of(entry) {
                        assert(list[k].text_at("url"@) == Some(u));
                    } else {
                        assert(list[n - 1].text_at("url"@) is Some);
                    }
                },
                None => {
                    assert(list[n - 1].text_at("url"@) is Some);
                },
            }
        } else {
            match best {
                Some((h, u)) => {
                    let k = choose|k: int|
                        0 <= k < n - 1 && (#[trigger] list[k]).text_at("url"@) == Some(u)
                            && height_of(list[k]) == h && (forall|i: int|
                            0 <= i < n - 1 && (#[trigger] list[i]).text_at("url"@) is Some
                                ==> height_of(list[i]) <= h && (i < k ==> height_of(list[i]) < h));
                    assert(list[k].text_at("url"@) == Some(u));
                },
                None => {},
            }
        }
    }
}

/// The cover is the tallest picture of the list; without one, or without an
/// address in it, it is the single picture. A picture without a height counts
/// as having none.
pub proof fn lemma_cover(v: Json, entry: Json)
    ensures
        v.member("thumbnails"@) is None ==> thumbnail_of(v) == v.text_at("thumbnail"@),
        v.member("thumbnails"@) matches Some(Json::List(l)) ==> (match tallest(
            l@,
            l@.len() as int,
        ) {
            Some((h, u)) => thumbnail_of(v) == Some(u),
            None => thumbnail_of(v) == v.text_at("thumbnail"@),
        }),
        entry.member("height"@) matches Some(Json::Number(Some(n), x)) ==> height_of(entry) == n,
        entry.member("height"@) is None ==> height_of(entry) == 0,
{
}

/// A search result has an id and an address: its page, or else the address of
/// the video itself. Where either is missing or empty there is no result. Its
/// length is zero where none is told, and its views are never told here.
pub proof fn lemma_candidate(v: Json, id: Seq<char>, url: Seq<char>)
    ensures
        v.text_at("id"@) == Some(id) && id.len() > 0 && url.len() > 0 && (v.text_at("webpage_url"@)
            == Some(url) || (v.text_at("webpage_url"@) is None && v.text_at("url"@) == Some(url)))
            ==> (candidate_of(v) matches Some(c) && c.id == id && c.url == url && c.uploader
            == uploader_of(v) && c.thumbnail == thumbnail_of(v) && c.view_count.bits == 0 && (
        v.text_at("title"@) matches Some(t) ==> c.title == t) && (v.text_at("title"@) is None
            ==> c.title.len() == 0) && (v.member("duration"@) matches Some(Json::Number(w, Some(x)))
            ==> c.duration_secs == x) && (v.member("duration"@) is None ==> c.duration_secs.bits
            == 0)),
        v.text_at("id"@) is None || v.text_at("id"@) == Some(Seq::<char>::empty())
            ==> candidate_of(v) is None,
        v.text_at("webpage_url"@) is None && v.text_at("url"@) is None ==> candidate_of(v) is None,
{
}

/// One more line of output adds what it holds at the end: nothing where it is
/// blank or no JSON.
pub proof fn lemma_next_line(lines: Seq<Seq<char>>, line: Seq<char>)
    ensures
        line_values(Seq::<Seq<char>>::empty()).len() == 0,
        trimmed(line).len() == 0 || json_of(trimmed(line)) is Err ==> line_values(lines.push(line))
            == line_values(lines),
        trimmed(line).len() > 0 ==> (json_of(trimmed(line)) matches Ok(v) ==> line_values(
            lines.push(line),
        ) == line_values(lines).push(v)),
{
    assert(lines.push(line).drop_last() =~= lines);
}

/// One more value adds its search result, where it is one, and its view count,
/// where it has an id, at the end.
pub proof fn lemma_next_value(values: Seq<Json>, v: Json)
    ensures
        candidates_of(Seq::<Json>::empty()).len() == 0,
        view_counts_of(Seq::<Json>::empty()).len() == 0,
        candidate_of(v) matches Some(c) ==> candidates_of(values.push(v)) == candidates_of(
            values,
        ).push(c),
        candidate_of(v) is None ==> candidates_of(values.push(v)) == candidates_of(values),
        v.text_at("id"@) matches Some(id) ==> (id.len() > 0 ==> (v.member(
            "view_count"@,
        ) matches Some(Json::Number(w, Some(x))) ==> view_counts_of(values.push(v))
            == view_counts_of(values).push((id, x)))),
        v.text_at("id"@) is None ==> view_counts_of(values.push(v)) == view_counts_of(values),
{
    assert(values.push(v).drop_last() =~= values);
}

/// A download has succeeded exactly where the downloader finished and the file
/// is there.
pub proof fn lemma_download_judged(end: DownloaderEnd, path: Seq<char>, exists: bool)
    ensures
        download_failure(end, path, exists) is None <==> end is Finished && exists,
        end is Finished && !exists ==> download_failure(end, path, exists) == Some(
            "download finished but file missing: "@ + path,
        ),
        end matches DownloaderEnd::Unavailable(e) ==> download_failure(end, path, exists) == Some(
            "yt-dlp unavailable: "@ + e@,
        ),
        end matches DownloaderEnd::Failed(e) ==> download_failure(end, path, exists) == Some(
            "yt-dlp failed: "@ + e@,
        ),
{
}

} // verus!
