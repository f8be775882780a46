//! Carrying out requests: what each one does to the state, what has to be
//! stored, what the engine is told, and what is replied.
//!
//! A request begins, its writes are carried out, and it is concluded with
//! whether they were.

use vstd::prelude::*;

use crate::audio::{AudioCmd, AudioStatus};
use crate::client::{NowPlaying, QueueSnapshot, ShuffledResponse, VolumeInfo};
use crate::downloads::start_times;
use crate::model::{clone_songs, DownloadJob, Playlist, RepeatMode, Song};
use crate::order::sorted_by_key;
use crate::playlists::{
    create_playlist, delete_playlist, duplicate_playlist, get_playlist, is_playlist, moved,
    no_playlist, not_in_playlist, out_of_range, remove_from_playlist, rename_playlist,
    reorder_playlist,
};
use crate::real64::Real64;
use crate::replies::{
    is_now_playing, is_queue_snapshot, now_playing, queue_snapshot, shuffled, volume_info,
};
use crate::server::Request;
use crate::state::{
    all_matches, best_match, lemma_queue_mirrored, not_found_message, queue_full_message,
    without_song, DaemonState,
};
use crate::store::{ids_of, lemma_rewrite, rewrite_of, stored_after_all, StoreOp};
use crate::text::concat2;

verus! {

/// What a request is answered with.
#[derive(Debug)]
pub enum Reply {
    Song(Song),
    Matches(Vec<Song>),
    Queue(QueueSnapshot),
    NowPlaying(NowPlaying),
    Downloads(Vec<DownloadJob>),
    NothingSkipped,
    Shuffled(ShuffledResponse),
    Cleared,
    /// The engine was told something; the word for it.
    Told(&'static str),
    /// The engine was told to go to a position, in seconds.
    Sought(Real64),
    Mode(RepeatMode),
    Volume(VolumeInfo),
    Playlist(Playlist),
    PlaylistDeleted(String),
    /// A playlist and the song that was added to it.
    PlaylistAdded(Playlist, Song),
}

/// The beginning of a request.
#[derive(Debug)]
pub struct Step {
    /// What the engine is told.
    pub audio: Option<AudioCmd>,
    /// What has to be stored.
    pub ops: Vec<StoreOp>,
    /// A playlist, and the songs that it has to hold.
    pub playlist: Option<(i64, Vec<Song>)>,
    /// The reply once everything is stored.
    pub reply: Result<Reply, String>,
}

/// The end of a request.
#[derive(Debug)]
pub struct Done {
    pub reply: Result<Reply, String>,
    /// A file that is no longer needed.
    pub remove: Option<String>,
}

impl Step {
    /// Nothing has to be done but to reply.
    pub open spec fn is_quiet(self) -> bool {
        self.audio is None && self.ops@.len() == 0 && self.playlist is None
    }

    /// Only writes to the stored queue have to be done.
    pub open spec fn only_stores(self, ops: Seq<StoreOp>) -> bool {
        self.audio is None && self.ops@ == ops && self.playlist is None
    }
}

fn quiet(reply: Result<Reply, String>) -> (r: Step)
    ensures
        r.is_quiet(),
        r.reply == reply,
{
    Step { audio: None, ops: Vec::new(), playlist: None, reply }
}

fn storing(ops: Vec<StoreOp>, reply: Result<Reply, String>) -> (r: Step)
    ensures
        r.only_stores(ops@),
        r.reply == reply,
{
    Step { audio: None, ops, playlist: None, reply }
}

fn telling(cmd: AudioCmd, reply: Reply) -> (r: Step)
    ensures
        r.audio == Some(cmd),
        r.ops@.len() == 0,
        r.playlist is None,
        r.reply == Ok::<Reply, String>(reply),
{
    Step { audio: Some(cmd), ops: Vec::new(), playlist: None, reply: Ok(reply) }
}

fn one(op: StoreOp) -> (r: Vec<StoreOp>)
    ensures
        r@ == seq![op],
{
    let mut v: Vec<StoreOp> = Vec::new();
    v.push(op);
    assert(v@ =~= seq![op]);
    v
}

/// The song that was looked for, or the message that nothing matches.
pub open spec fn song_or_missing(
    reply: Result<Reply, String>,
    song: Option<Song>,
    query: Seq<char>,
) -> bool {
    match song {
        Some(s) => reply matches Ok(Reply::Song(t)) && t == s,
        None => reply matches Err(e) && e@ == not_found_message(query),
    }
}

/// The engine is told `cmd`, and nothing else happens.
pub open spec fn only_tells(step: Step, cmd: AudioCmd) -> bool {
    step.audio == Some(cmd) && step.ops@.len() == 0 && step.playlist is None
}

/// The request asks what plays or waits or matches, and changes nothing.
pub open spec fn is_question(request: Request) -> bool {
    request is Search || request is SearchAll || request is Queue || request is NowPlaying
        || request is Downloads || request is RepeatGet || request is VolumeGet
}

/// The request changes the queue or the repeat mode.
pub open spec fn is_change(request: Request) -> bool {
    request is Play || request is Add || request is Del || request is Skip
        || request is QueueShuffle || request is QueueClear || request is RepeatSet
}

/// The request speaks to the engine only.
pub open spec fn is_engine_request(request: Request) -> bool {
    request is Pause || request is Resume || request is Seek
}

/// What a question is answered with. `songs` is the library, `audio` the
/// engine at `now`.
pub open spec fn answers(
    s: DaemonState,
    request: Request,
    songs: Seq<Song>,
    audio: AudioStatus,
    now: u64,
    reply: Result<Reply, String>,
) -> bool {
    match request {
        Request::Search(q) => song_or_missing(
            reply,
            best_match(songs, q@, s.fuzzy_threshold),
            q@,
        ),
        Request::SearchAll(q) => reply matches Ok(Reply::Matches(list)) && list@ == all_matches(
            songs,
            q@,
            s.fuzzy_threshold,
        ),
        Request::Queue => reply matches Ok(Reply::Queue(r)) && is_queue_snapshot(r, s),
        Request::NowPlaying => reply matches Ok(Reply::NowPlaying(r)) && is_now_playing(
            r,
            s,
            audio,
            now,
        ),
        Request::Downloads => reply matches Ok(Reply::Downloads(list)) && list@ == sorted_by_key(
            s.download_jobs@,
            start_times(s.download_jobs@),
        ),
        Request::RepeatGet => reply matches Ok(Reply::Mode(m)) && m == s.repeat_mode,
        Request::VolumeGet => reply matches Ok(Reply::Volume(v)) && v == (VolumeInfo {
            volume: audio.volume,
            playing: audio.playing,
            paused: audio.paused,
        }),
        _ => true,
    }
}

/// How a change begins.
pub open spec fn begins_change(
    before: DaemonState,
    after: DaemonState,
    request: Request,
    songs: Seq<Song>,
    step: Step,
) -> bool {
    match request {
        Request::Play(q) => {
            let best = best_match(songs, q@, before.fuzzy_threshold);
            &&& song_or_missing(step.reply, best, q@)
            &&& match best {
                Some(s) => after.queue@ == seq![s] + before.queue@ && after == (DaemonState {
                    queue: after.queue,
                    ..before
                }) && step.only_stores(rewrite_of(after.queue@)),
                None => after == before && step.is_quiet(),
            }
        },
        Request::Add(q) => {
            let best = best_match(songs, q@, before.fuzzy_threshold);
            if before.is_full() {
                after == before && step.is_quiet() && (step.reply matches Err(e) && e@
                    == queue_full_message(before.queue@.len(), before.max_queue_size as nat))
            } else {
                &&& song_or_missing(step.reply, best, q@)
                &&& match best {
                    Some(s) => after.queue@ == before.queue@.push(s) && after == (DaemonState {
                        queue: after.queue,
                        ..before
                    }) && step.only_stores(seq![StoreOp::AppendQueue(s.id)]),
                    None => after == before && step.is_quiet(),
                }
            }
        },
        Request::Del(q) => {
            let best = best_match(songs, q@, before.fuzzy_threshold);
            &&& after == before
            &&& song_or_missing(step.reply, best, q@)
            &&& match best {
                Some(s) => step.only_stores(seq![StoreOp::DeleteSong(s.id)]),
                None => step.is_quiet(),
            }
        },
        Request::Skip => after == before && step.audio == Some(AudioCmd::Stop) && step.playlist
            is None && (step.reply matches Ok(Reply::NothingSkipped)) && step.ops@ == (
        if before.queue@.len() == 0 {
            Seq::empty()
        } else {
            seq![StoreOp::RemoveFirst(before.queue@[0].id)]
        }),
        Request::QueueShuffle => {
            &&& after.queue@.to_multiset() == before.queue@.to_multiset()
            &&& after.queue@.len() == before.queue@.len()
            &&& after == (DaemonState { queue: after.queue, ..before })
            &&& step.reply matches Ok(Reply::Shuffled(r)) && r.shuffled && r.len
                == before.queue@.len()
            &&& if before.queue@.len() < 2 {
                after == before && step.is_quiet()
            } else {
                step.only_stores(rewrite_of(after.queue@))
            }
        },
        Request::QueueClear => after.queue@.len() == 0 && after == (DaemonState {
            queue: after.queue,
            ..before
        }) && step.only_stores(seq![StoreOp::ClearQueue]) && (step.reply matches Ok(
            Reply::Cleared,
        )),
        Request::RepeatSet(mode) => step.is_quiet() && (step.reply matches Ok(Reply::Mode(m)) && m
            == mode) && after == (DaemonState {
            repeat_mode: mode,
            cycle_snapshot: after.cycle_snapshot,
            ..before
        }) && after.cycle_snapshot@ == (if mode == RepeatMode::All
            && before.cycle_snapshot@.len() == 0 {
            before.queue@
        } else {
            before.cycle_snapshot@
        }),
        _ => true,
    }
}

/// What the engine is told, and the reply to that.
pub open spec fn speaks(request: Request, step: Step) -> bool {
    match request {
        Request::Pause => only_tells(step, AudioCmd::Pause) && (step.reply matches Ok(
            Reply::Told(w),
        ) && w@ == "pause"@),
        Request::Resume => only_tells(step, AudioCmd::Resume) && (step.reply matches Ok(
            Reply::Told(w),
        ) && w@ == "resume"@),
        Request::Seek(secs) => only_tells(step, AudioCmd::Seek(secs)) && (step.reply matches Ok(
            Reply::Sought(x),
        ) && x == secs),
        _ => true,
    }
}

/// How a request begins that concerns the queue, the library or the engine.
pub open spec fn begins(
    before: DaemonState,
    after: DaemonState,
    request: Request,
    songs: Seq<Song>,
    audio: AudioStatus,
    now: u64,
    step: Step,
) -> bool {
    if is_change(request) {
        begins_change(before, after, request, songs, step)
    } else if is_engine_request(request) {
        after == before && speaks(request, step)
    } else {
        is_question(request) && after == before && step.is_quiet() && answers(
            before,
            request,
            songs,
            audio,
            now,
            step.reply,
        )
    }
}

/// The request looks for a song of the library.
pub open spec fn looks_in_library(request: Request) -> bool {
    request is Search || request is SearchAll || request is Play || request is Add || request is Del
        || request is PlaylistAdd
}

/// Whether a request looks for a song of the library.
pub fn needs_library(request: &Request) -> (r: bool)
    ensures
        r == looks_in_library(*request),
{
    match request {
        Request::Search(_)
        | Request::SearchAll(_)
        | Request::Play(_)
        | Request::Add(_)
        | Request::Del(_)
        | Request::PlaylistAdd(_, _) => true,
        _ => false,
    }
}

/// A request that does not look for a song begins the same whatever the library
/// holds.
pub proof fn lemma_library_not_needed(
    before: DaemonState,
    after: DaemonState,
    request: Request,
    songs: Seq<Song>,
    other: Seq<Song>,
    audio: AudioStatus,
    now: u64,
    row: PlaylistRow,
    step: Step,
)
    requires
        !looks_in_library(request),
    ensures
        begins(before, after, request, songs, audio, now, step) == begins(
            before,
            after,
            request,
            other,
            audio,
            now,
            step,
        ),
        begins_playlist(before, request, songs, row, step) == begins_playlist(
            before,
            request,
            other,
            row,
            step,
        ),
{
}

fn found(song: Option<Song>, query: &str) -> (r: Result<Reply, String>)
    ensures
        song_or_missing(r, song, query@),
{
    match song {
        Some(s) => Ok(Reply::Song(s)),
        None => Err(concat2("song not found: ", query)),
    }
}

impl DaemonState {
    fn begin_change(&mut self, request: &Request, songs: &Vec<Song>) -> (r: Option<Step>)
        ensures
            r is Some <==> is_change(*request),
            r is None ==> *final(self) == *old(self),
            r matches Some(step) ==> begins_change(*old(self), *final(self), *request, songs@, step),
    {
        match request {
            Request::Play(q) => match self.play(songs, q.as_str()) {
                Ok((song, ops)) => Some(storing(ops, Ok(Reply::Song(song)))),
                Err(e) => Some(quiet(Err(e))),
            },
            Request::Add(q) => match self.add(songs, q.as_str()) {
                Ok((song, op)) => Some(storing(one(op), Ok(Reply::Song(song)))),
                Err(e) => Some(quiet(Err(e))),
            },
            Request::Del(q) => match self.delete(songs, q.as_str()) {
                Ok((song, op)) => Some(storing(one(op), Ok(Reply::Song(song)))),
                Err(e) => Some(quiet(Err(e))),
            },
            Request::Skip => {
                let ops = match self.head_removal() {
                    Some(op) => one(op),
                    None => Vec::new(),
                };
                assert(ops@ =~= if self.queue@.len() == 0 {
                    Seq::empty()
                } else {
                    seq![StoreOp::RemoveFirst(self.queue@[0].id)]
                });
                Some(
                    Step {
                        audio: Some(AudioCmd::Stop),
                        ops,
                        playlist: None,
                        reply: Ok(Reply::NothingSkipped),
                    },
                )
            },
            Request::QueueShuffle => {
                let ops = self.shuffle_queue();
                let reply = Ok(Reply::Shuffled(shuffled(self)));
                match ops {
                    Some(ops) => Some(storing(ops, reply)),
                    None => Some(quiet(reply)),
                }
            },
            Request::QueueClear => {
                let op = self.clear_queue();
                Some(storing(one(op), Ok(Reply::Cleared)))
            },
            Request::RepeatSet(mode) => {
                self.set_repeat(*mode);
                Some(quiet(Ok(Reply::Mode(*mode))))
            },
            _ => None,
        }
    }

    fn answer(&self, request: &Request, songs: &Vec<Song>, audio: &AudioStatus, now: u64) -> (r:
        Option<Result<Reply, String>>)
        requires
            audio.valid_at(now),
        ensures
            r is Some <==> is_question(*request),
            r matches Some(reply) ==> answers(*self, *request, songs@, *audio, now, reply),
    {
        match request {
            Request::Search(q) => Some(found(self.search(songs, q.as_str()), q.as_str())),
            Request::SearchAll(q) => Some(Ok(Reply::Matches(self.search_all(songs, q.as_str())))),
            Request::Queue => Some(Ok(Reply::Queue(queue_snapshot(self)))),
            Request::NowPlaying => Some(Ok(Reply::NowPlaying(now_playing(self, audio, now)))),
            Request::Downloads => Some(Ok(Reply::Downloads(self.list_downloads()))),
            Request::RepeatGet => Some(Ok(Reply::Mode(self.repeat_mode))),
            Request::VolumeGet => Some(Ok(Reply::Volume(volume_info(audio)))),
            _ => None,
        }
    }

    /// Begins a request that concerns the queue, the library or the engine.
    /// `songs` is the library, `audio` the engine at `now`. Other requests are
    /// not begun here.
    pub fn begin(
        &mut self,
        request: &Request,
        songs: &Vec<Song>,
        audio: &AudioStatus,
        now: u64,
    ) -> (r: Option<Step>)
        requires
            audio.valid_at(now),
        ensures
            r is Some <==> is_question(*request) || is_change(*request) || is_engine_request(
                *request,
            ),
            r is None ==> *final(self) == *old(self),
            r matches Some(step) ==> begins(
                *old(self),
                *final(self),
                *request,
                songs@,
                *audio,
                now,
                step,
            ),
    {
        match request {
            Request::Pause => Some(telling(AudioCmd::Pause, Reply::Told("pause"))),
            Request::Resume => Some(telling(AudioCmd::Resume, Reply::Told("resume"))),
            Request::Seek(secs) => Some(telling(AudioCmd::Seek(*secs), Reply::Sought(*secs))),
            _ => match self.answer(request, songs, audio, now) {
                Some(reply) => Some(quiet(reply)),
                None => self.begin_change(request, songs),
            },
        }
    }
}

/// What the database says of the playlist that a request names.
#[derive(Debug)]
pub struct PlaylistRow {
    /// Its id, where there is one with this name.
    pub id: Option<i64>,
    pub songs: Vec<Song>,
    /// How many playlists were renamed or deleted.
    pub affected: usize,
    /// The playlist that was created, or the one that has the new name.
    pub made: i64,
    /// The songs of that one.
    pub made_songs: Vec<Song>,
}

/// The request concerns one playlist.
pub open spec fn is_playlist_request(request: Request) -> bool {
    request is PlaylistCreate || request is PlaylistGet || request is PlaylistRename
        || request is PlaylistDelete || request is PlaylistAdd || request is PlaylistPlay
        || request is PlaylistRemoveSong || request is PlaylistReorder
        || request is PlaylistDuplicate
}

/// The playlist, or the message that there is none.
pub open spec fn playlist_or_missing(
    reply: Result<Reply, String>,
    id: Option<i64>,
    name: Seq<char>,
    songs: Seq<Song>,
) -> bool {
    match id {
        Some(i) => reply matches Ok(Reply::Playlist(p)) && is_playlist(p, i, name, songs),
        None => reply matches Err(e) && e@ == no_playlist(name),
    }
}

/// The request was refused with a message, and nothing has to be done.
pub open spec fn refuses(step: Step, message: Seq<char>) -> bool {
    step.is_quiet() && (step.reply matches Err(e) && e@ == message)
}

/// The reply is a playlist, and it has to hold the songs that are replied.
pub open spec fn rewrites(step: Step, id: i64, name: Seq<char>, songs: Seq<Song>) -> bool {
    &&& step.audio is None && step.ops@.len() == 0
    &&& step.reply matches Ok(Reply::Playlist(p)) && is_playlist(p, id, name, songs)
    &&& step.playlist matches Some((i, list)) && i == id && list@ == songs
}

/// How a request begins that concerns a playlist. `library` is the library.
pub open spec fn begins_playlist(
    s: DaemonState,
    request: Request,
    library: Seq<Song>,
    row: PlaylistRow,
    step: Step,
) -> bool {
    match request {
        Request::PlaylistCreate(name) => step.is_quiet() && playlist_or_missing(
            step.reply,
            Some(row.made),
            name@,
            Seq::empty(),
        ),
        Request::PlaylistGet(name) => step.is_quiet() && playlist_or_missing(
            step.reply,
            row.id,
            name@,
            row.songs@,
        ),
        Request::PlaylistRename(name, new_name) => if row.affected == 0 {
            refuses(step, no_playlist(name@))
        } else {
            step.is_quiet() && playlist_or_missing(
                step.reply,
                Some(row.made),
                new_name@,
                row.made_songs@,
            )
        },
        Request::PlaylistDelete(name) => if row.affected == 0 {
            refuses(step, no_playlist(name@))
        } else {
            step.is_quiet() && (step.reply matches Ok(Reply::PlaylistDeleted(n)) && n@ == name@)
        },
        Request::PlaylistAdd(name, q) => match best_match(library, q@, s.fuzzy_threshold) {
            None => refuses(step, not_found_message(q@)),
            Some(song) => match row.id {
                None => refuses(step, no_playlist(name@)),
                Some(id) => {
                    &&& step.audio is None && step.ops@.len() == 0
                    &&& step.reply matches Ok(Reply::PlaylistAdded(p, t)) && t == song
                        && is_playlist(p, id, name@, row.songs@.push(song))
                    &&& step.playlist matches Some((i, list)) && i == id && list@
                        == row.songs@.push(song)
                },
            },
        },
        Request::PlaylistPlay(name) => {
            &&& playlist_or_missing(step.reply, row.id, name@, row.songs@)
            &&& if row.id is Some {
                step.only_stores(rewrite_of(row.songs@))
            } else {
                step.is_quiet()
            }
        },
        Request::PlaylistRemoveSong(name, song) => match row.id {
            None => refuses(step, no_playlist(name@)),
            Some(id) => if ids_of(row.songs@).contains(song) {
                rewrites(step, id, name@, without_song(row.songs@, song))
            } else {
                refuses(step, not_in_playlist(song, name@))
            },
        },
        Request::PlaylistReorder(name, from, to) => if from == 0 || to == 0 {
            refuses(step, "positions are 1-based"@)
        } else {
            match row.id {
                None => refuses(step, no_playlist(name@)),
                Some(id) => if from <= row.songs@.len() && to <= row.songs@.len() {
                    rewrites(step, id, name@, moved(row.songs@, from as int, to as int))
                } else {
                    refuses(step, out_of_range(row.songs@.len()))
                },
            }
        },
        Request::PlaylistDuplicate(name, copy) => match row.id {
            None => refuses(step, no_playlist(name@)),
            Some(_) => {
                &&& step.audio is None && step.ops@.len() == 0
                &&& playlist_or_missing(step.reply, Some(row.made), copy@, row.songs@)
                &&& step.playlist matches Some((i, list)) && i == row.made && list@
                    == row.made_songs@ + row.songs@
            },
        },
        _ => true,
    }
}

fn shown(outcome: Result<Playlist, String>) -> (r: Step)
    ensures
        r.is_quiet(),
        match outcome {
            Ok(p) => r.reply == Ok::<Reply, String>(Reply::Playlist(p)),
            Err(e) => r.reply == Err::<Reply, String>(e),
        },
{
    match outcome {
        Ok(p) => quiet(Ok(Reply::Playlist(p))),
        Err(e) => quiet(Err(e)),
    }
}

fn rewriting(outcome: Result<Playlist, String>) -> (r: Step)
    ensures
        match outcome {
            Ok(p) => rewrites(r, p.id, p.name@, p.songs@),
            Err(e) => r.is_quiet() && r.reply == Err::<Reply, String>(e),
        },
{
    match outcome {
        Ok(p) => {
            let songs = clone_songs(&p.songs);
            Step {
                audio: None,
                ops: Vec::new(),
                playlist: Some((p.id, songs)),
                reply: Ok(Reply::Playlist(p)),
            }
        },
        Err(e) => quiet(Err(e)),
    }
}

fn copied(name: &str, copy: &str, row: PlaylistRow) -> (r: Step)
    ensures
        match row.id {
            None => refuses(r, no_playlist(name@)),
            Some(_) => {
                &&& r.audio is None && r.ops@.len() == 0
                &&& playlist_or_missing(r.reply, Some(row.made), copy@, row.songs@)
                &&& r.playlist matches Some((i, list)) && i == row.made && list@
                    == row.made_songs@ + row.songs@
            },
        },
{
    let mut all = row.made_songs;
    let mut more = clone_songs(&row.songs);
    all.append(&mut more);
    match duplicate_playlist(row.id, name, row.made, copy, row.songs) {
        Ok(p) => Step {
            audio: None,
            ops: Vec::new(),
            playlist: Some((row.made, all)),
            reply: Ok(Reply::Playlist(p)),
        },
        Err(e) => quiet(Err(e)),
    }
}

impl DaemonState {
    /// Begins a request that concerns a playlist, given what the database says
    /// of it. Other requests are not begun here.
    pub fn begin_playlist(&self, request: &Request, library: &Vec<Song>, row: PlaylistRow) -> (r:
        Option<Step>)
        ensures
            r is Some <==> is_playlist_request(*request),
            r matches Some(step) ==> begins_playlist(*self, *request, library@, row, step),
    {
        match request {
            Request::PlaylistCreate(name) => Some(
                shown(Ok(create_playlist(row.made, name.as_str()))),
            ),
            Request::PlaylistGet(name) => Some(
                shown(get_playlist(row.id, name.as_str(), row.songs)),
            ),
            Request::PlaylistRename(name, new_name) => Some(
                shown(
                    rename_playlist(
                        row.affected,
                        row.made,
                        name.as_str(),
                        new_name.as_str(),
                        row.made_songs,
                    ),
                ),
            ),
            Request::PlaylistDelete(name) => match delete_playlist(row.affected, name.as_str()) {
                Ok(()) => Some(quiet(Ok(Reply::PlaylistDeleted(name.clone())))),
                Err(e) => Some(quiet(Err(e))),
            },
            Request::PlaylistAdd(name, q) => match self.add_to_playlist(
                library,
                q.as_str(),
                row.id,
                name.as_str(),
                &row.songs,
            ) {
                Ok((p, song)) => {
                    let songs = clone_songs(&p.songs);
                    Some(
                        Step {
                            audio: None,
                            ops: Vec::new(),
                            playlist: Some((p.id, songs)),
                            reply: Ok(Reply::PlaylistAdded(p, song)),
                        },
                    )
                },
                Err(e) => Some(quiet(Err(e))),
            },
            Request::PlaylistPlay(name) => match self.play_playlist(
                row.id,
                name.as_str(),
                row.songs,
            ) {
                Ok((p, ops)) => Some(storing(ops, Ok(Reply::Playlist(p)))),
                Err(e) => Some(quiet(Err(e))),
            },
            Request::PlaylistRemoveSong(name, song) => Some(
                rewriting(remove_from_playlist(row.id, name.as_str(), &row.songs, *song)),
            ),
            Request::PlaylistReorder(name, from, to) => Some(
                rewriting(reorder_playlist(row.id, name.as_str(), &row.songs, *from, *to)),
            ),
            Request::PlaylistDuplicate(name, copy) => Some(copied(name.as_str(), copy.as_str(), row)),
            _ => None,
        }
    }
}

/// Whether the writes were carried out, the error as text.
pub open spec fn stored_outcome(stored: Result<(), String>) -> Result<(), Seq<char>> {
    match stored {
        Ok(()) => Ok(()),
        Err(e) => Err(e@),
    }
}

/// How a skip ends, given whether the head was taken out of the stored queue.
pub open spec fn concludes_skip(
    before: DaemonState,
    after: DaemonState,
    stored: Result<(), Seq<char>>,
    done: Done,
) -> bool {
    &&& done.remove is None
    &&& after == (DaemonState {
        queue: after.queue,
        current: None,
        popped_for_current: false,
        ..before
    })
    &&& if before.queue@.len() == 0 {
        after.queue == before.queue && (done.reply matches Ok(Reply::NothingSkipped))
    } else {
        match stored {
            Ok(()) => after.queue@ == before.queue@.drop_first() && (done.reply matches Ok(
                Reply::Song(s),
            ) && s == before.queue@[0]),
            Err(m) => after.queue == before.queue && (done.reply matches Err(e) && e@
                == "failed to delete queue row from DB: "@ + m),
        }
    }
}

/// What is left to do once everything is stored.
pub open spec fn settles(
    before: DaemonState,
    after: DaemonState,
    request: Request,
    reply: Reply,
    remove: Option<String>,
) -> bool {
    match (request, reply) {
        (Request::Del(_), Reply::Song(s)) => after.queue@ == without_song(before.queue@, s.id)
            && after == (DaemonState {
            queue: after.queue,
            current: (match before.current {
                Some(c) => if c.id == s.id {
                    None
                } else {
                    Some(c)
                },
                None => None,
            }),
            ..before
        }) && (remove matches Some(path) && path@ == s.path@),
        (Request::PlaylistPlay(_), Reply::Playlist(p)) => remove is None && after.queue@
            == p.songs@ && after.cycle_snapshot@ == p.songs@ && after == (DaemonState {
            queue: after.queue,
            cycle_snapshot: after.cycle_snapshot,
            ..before
        }),
        _ => remove is None && if request is Play || (request is QueueShuffle
            && before.queue@.len() >= 2) {
            after.cycle_snapshot@ == before.queue@ && after == (DaemonState {
                cycle_snapshot: after.cycle_snapshot,
                ..before
            })
        } else {
            after == before
        },
    }
}

/// How a request ends. A request that was refused, or whose writes failed,
/// changes nothing more.
pub open spec fn concludes(
    before: DaemonState,
    after: DaemonState,
    request: Request,
    begun: Result<Reply, String>,
    stored: Result<(), Seq<char>>,
    done: Done,
) -> bool {
    if request is Skip {
        concludes_skip(before, after, stored, done)
    } else {
        match begun {
            Err(e) => after == before && done.remove is None && done.reply == begun,
            Ok(reply) => match stored {
                Err(m) => after == before && done.remove is None && (done.reply matches Err(e)
                    && e@ == m),
                Ok(()) => done.reply == begun && settles(
                    before,
                    after,
                    request,
                    reply,
                    done.remove,
                ),
            },
        }
    }
}

impl DaemonState {
    /// Concludes a request, given the reply with which it began and whether its
    /// writes were carried out.
    pub fn conclude(
        &mut self,
        request: &Request,
        begun: Result<Reply, String>,
        stored: Result<(), String>,
    ) -> (r: Done)
        ensures
            concludes(*old(self), *final(self), *request, begun, stored_outcome(stored), r),
    {
        match request {
            Request::Skip => {
                let reply = match self.skip(stored) {
                    Ok(Some(song)) => Ok(Reply::Song(song)),
                    Ok(None) => Ok(Reply::NothingSkipped),
                    Err(e) => Err(e),
                };
                return Done { reply, remove: None };
            },
            _ => {},
        }
        let reply = match begun {
            Ok(reply) => reply,
            Err(e) => {
                return Done { reply: Err(e), remove: None };
            },
        };
        match stored {
            Ok(()) => {},
            Err(m) => {
                return Done { reply: Err(m), remove: None };
            },
        }
        let mut remove: Option<String> = None;
        match (request, &reply) {
            (Request::Del(_), Reply::Song(song)) => {
                self.forget(song.id);
                remove = Some(song.path.clone());
            },
            (Request::PlaylistPlay(_), Reply::Playlist(p)) => {
                self.load_queue(clone_songs(&p.songs));
            },
            (Request::Play(_), _) => {
                self.remember_cycle();
            },
            (Request::QueueShuffle, _) => {
                if self.queue.len() >= 2 {
                    self.remember_cycle();
                }
            },
            _ => {},
        }
        Done { reply: Ok(reply), remove }
    }
}

/// A request that is carried out and stored leaves the stored queue the same as
/// the queue in memory, where they were the same before.
pub proof fn lemma_request_mirrored(
    before: DaemonState,
    between: DaemonState,
    after: DaemonState,
    request: Request,
    songs: Seq<Song>,
    audio: AudioStatus,
    now: u64,
    step: Step,
    done: Done,
    rows: Seq<i64>,
)
    requires
        before.mirrored_by(rows),
        begins(before, between, request, songs, audio, now, step),
        concludes(between, after, request, step.reply, Ok(()), done),
    ensures
        after.mirrored_by(stored_after_all(rows, step.ops@)),
{
    reveal_with_fuel(stored_after_all, 2);
    let queue = before.queue@;
    match request {
        Request::Add(q) => {
            match best_match(songs, q@, before.fuzzy_threshold) {
                Some(s) => {
                    lemma_queue_mirrored(queue, s, s.id, queue);
                },
                None => {},
            }
        },
        Request::Del(q) => {
            match best_match(songs, q@, before.fuzzy_threshold) {
                Some(s) => {
                    lemma_queue_mirrored(queue, s, s.id, queue);
                },
                None => {},
            }
        },
        Request::Play(q) => {
            match best_match(songs, q@, before.fuzzy_threshold) {
                Some(s) => {
                    lemma_queue_mirrored(queue, s, s.id, between.queue@);
                },
                None => {},
            }
        },
        Request::QueueShuffle => {
            if queue.len() >= 2 {
                lemma_queue_mirrored(queue, queue[0], queue[0].id, between.queue@);
            }
        },
        Request::Skip => {
            if queue.len() > 0 {
                lemma_queue_mirrored(queue, queue[0], queue[0].id, queue);
            }
        },
        Request::QueueClear => {
            assert(ids_of(after.queue@) =~= Seq::<i64>::empty());
        },
        _ => {},
    }
}

/// A request that concerns a playlist leaves the stored queue the same as the
/// queue in memory. Playing a playlist makes both its songs; nothing else that
/// is done to playlists changes the state.
pub proof fn lemma_playlist_request_mirrored(
    before: DaemonState,
    after: DaemonState,
    request: Request,
    library: Seq<Song>,
    row: PlaylistRow,
    step: Step,
    done: Done,
    rows: Seq<i64>,
)
    requires
        before.mirrored_by(rows),
        begins_playlist(before, request, library, row, step),
        is_playlist_request(request),
        concludes(before, after, request, step.reply, Ok(()), done),
    ensures
        after.mirrored_by(stored_after_all(rows, step.ops@)),
        request is PlaylistPlay && row.id is Some ==> after.queue@ == row.songs@
            && after.cycle_snapshot@ == row.songs@,
        !(request is PlaylistPlay) ==> after == before,
{
    reveal_with_fuel(stored_after_all, 2);
    if request is PlaylistPlay && row.id is Some {
        lemma_rewrite(rows, row.songs@);
    }
}

} // verus!
