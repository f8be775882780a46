//! What requests promise once they are carried out and stored: what the queue,
//! the song that plays and the reply are afterwards, told from what they were
//! before.

use vstd::prelude::*;

use crate::audio::{AudioCmd, AudioStatus};
use crate::downloads::lemma_jobs_listed;
use crate::handler::{
    begins, begins_playlist, concludes, Done, PlaylistRow, Reply, Step,
};
use crate::model::{DownloadJob, RepeatMode, Song};
use crate::server::Request;
use crate::state::{all_matches, best_match, lemma_without_song_filters, DaemonState};
use crate::store::{ids_of, StoreOp};
use crate::text::{decimal, decimal_int};

verus! {

/// A request that began in one state and was concluded in another, its writes
/// carried out.
pub open spec fn carried_out(
    before: DaemonState,
    between: DaemonState,
    after: DaemonState,
    request: Request,
    songs: Seq<Song>,
    audio: AudioStatus,
    now: u64,
    step: Step,
    done: Done,
) -> bool {
    begins(before, between, request, songs, audio, now, step) && concludes(
        between,
        after,
        request,
        step.reply,
        Ok(()),
        done,
    )
}

/// Playing puts the song that the query finds in front of the queue and makes
/// the queue the round to repeat. Where nothing is found, nothing happens but
/// the refusal.
pub proof fn lemma_play_done(
    before: DaemonState,
    between: DaemonState,
    after: DaemonState,
    q: String,
    songs: Seq<Song>,
    audio: AudioStatus,
    now: u64,
    step: Step,
    done: Done,
)
    requires
        carried_out(before, between, after, Request::Play(q), songs, audio, now, step, done),
    ensures
        step.audio is None && step.playlist is None && done.remove is None,
        best_match(songs, q@, before.fuzzy_threshold) matches Some(s) ==> {
            &&& done.reply matches Ok(Reply::Song(t)) && t == s
            &&& after.queue@.len() == before.queue@.len() + 1
            &&& after.queue@[0] == s
            &&& after.queue@.drop_first() == before.queue@
            &&& after.cycle_snapshot@ == after.queue@
            &&& after.current == before.current && after.repeat_mode == before.repeat_mode
                && after.popped_for_current == before.popped_for_current && after.download_jobs
                == before.download_jobs && after.next_job_id == before.next_job_id
        },
        best_match(songs, q@, before.fuzzy_threshold) is None ==> {
            &&& done.reply matches Err(e) && e@ == "song not found: "@ + q@
            &&& after == before
            &&& step.ops@.len() == 0
        },
{
    match best_match(songs, q@, before.fuzzy_threshold) {
        Some(s) => {
            assert((seq![s] + before.queue@).drop_first() =~= before.queue@);
        },
        None => {},
    }
}

/// Adding puts the song that the query finds at the end of the queue, unless the
/// queue has a limit and has reached it; the queue to repeat stays. A refusal
/// changes nothing, and a full queue is refused before anything is looked for.
pub proof fn lemma_add_done(
    before: DaemonState,
    between: DaemonState,
    after: DaemonState,
    q: String,
    songs: Seq<Song>,
    audio: AudioStatus,
    now: u64,
    step: Step,
    done: Done,
)
    requires
        carried_out(before, between, after, Request::Add(q), songs, audio, now, step, done),
    ensures
        ({
            let full = before.max_queue_size > 0 && before.queue@.len() >= before.max_queue_size;
            let found = best_match(songs, q@, before.fuzzy_threshold);
            &&& step.audio is None && step.playlist is None && done.remove is None
            &&& full ==> after == before && step.ops@.len() == 0 && (done.reply matches Err(e) && e@
                == "queue full ("@ + decimal(before.queue@.len()) + " of "@ + decimal(
                before.max_queue_size as nat,
            ) + ")"@)
            &&& !full && found is None ==> after == before && step.ops@.len() == 0 && (
            done.reply matches Err(e) && e@ == "song not found: "@ + q@)
            &&& !full && found is Some ==> {
                &&& done.reply matches Ok(Reply::Song(t)) && t == found->0
                &&& after.queue@.len() == before.queue@.len() + 1
                &&& after.queue@.last() == found->0
                &&& after.queue@.drop_last() == before.queue@
                &&& after == (DaemonState { queue: after.queue, ..before })
            }
        }),
{
    match best_match(songs, q@, before.fuzzy_threshold) {
        Some(s) => {
            assert(before.queue@.push(s).drop_last() =~= before.queue@);
        },
        None => {},
    }
}

/// Deleting takes every entry of the song out of the queue, in the order of the
/// others, stops showing it as playing, and names its file for removal.
pub proof fn lemma_delete_done(
    before: DaemonState,
    between: DaemonState,
    after: DaemonState,
    q: String,
    songs: Seq<Song>,
    audio: AudioStatus,
    now: u64,
    step: Step,
    done: Done,
)
    requires
        carried_out(before, between, after, Request::Del(q), songs, audio, now, step, done),
    ensures
        between == before,
        best_match(songs, q@, before.fuzzy_threshold) matches Some(s) ==> {
            &&& done.reply matches Ok(Reply::Song(t)) && t == s
            &&& step.ops@ == seq![StoreOp::DeleteSong(s.id)]
            &&& after.queue@ == before.queue@.filter(|x: Song| x.id != s.id)
            &&& (before.current matches Some(c) && c.id == s.id) ==> after.current is None
            &&& !(before.current matches Some(c) && c.id == s.id) ==> after.current
                == before.current
            &&& done.remove matches Some(path) && path@ == s.path@
            &&& after == (DaemonState { queue: after.queue, current: after.current, ..before })
        },
        best_match(songs, q@, before.fuzzy_threshold) is None ==> {
            &&& done.reply matches Err(e) && e@ == "song not found: "@ + q@
            &&& after == before
            &&& step.ops@.len() == 0 && done.remove is None
        },
{
    match best_match(songs, q@, before.fuzzy_threshold) {
        Some(s) => {
            lemma_without_song_filters(before.queue@, s.id);
        },
        None => {},
    }
}

/// Skipping stops the engine, gives up the song that plays and takes the head
/// off the queue, which is the reply. With an empty queue there is nothing to
/// skip to.
pub proof fn lemma_skip_done(
    before: DaemonState,
    between: DaemonState,
    after: DaemonState,
    songs: Seq<Song>,
    audio: AudioStatus,
    now: u64,
    step: Step,
    done: Done,
)
    requires
        carried_out(before, between, after, Request::Skip, songs, audio, now, step, done),
    ensures
        step.audio == Some(AudioCmd::Stop),
        after.current is None && !after.popped_for_current,
        after.cycle_snapshot == before.cycle_snapshot && after.repeat_mode == before.repeat_mode,
        before.queue@.len() > 0 ==> {
            &&& after.queue@ == before.queue@.drop_first()
            &&& done.reply matches Ok(Reply::Song(s)) && s == before.queue@[0]
            &&& step.ops@ == seq![StoreOp::RemoveFirst(before.queue@[0].id)]
        },
        before.queue@.len() == 0 ==> after.queue@.len() == 0 && step.ops@.len() == 0 && (
        done.reply matches Ok(Reply::NothingSkipped)),
{
}

/// Shuffling keeps every song of the queue, and makes the queue the round to
/// repeat, where there is anything to shuffle. Clearing empties the queue, and
/// neither stops the song that plays nor forgets the round.
pub proof fn lemma_queue_done(
    before: DaemonState,
    between: DaemonState,
    after: DaemonState,
    clears: bool,
    songs: Seq<Song>,
    audio: AudioStatus,
    now: u64,
    step: Step,
    done: Done,
)
    requires
        carried_out(
            before,
            between,
            after,
            if clears {
                Request::QueueClear
            } else {
                Request::QueueShuffle
            },
            songs,
            audio,
            now,
            step,
            done,
        ),
    ensures
        step.audio is None && step.playlist is None && done.remove is None,
        after.current == before.current && after.repeat_mode == before.repeat_mode,
        clears ==> after.queue@.len() == 0 && after.cycle_snapshot == before.cycle_snapshot && (
        done.reply matches Ok(Reply::Cleared)),
        !clears ==> after.queue@.to_multiset() == before.queue@.to_multiset() && (
        done.reply matches Ok(Reply::Shuffled(r)) && r.shuffled && r.len == before.queue@.len()),
        !clears && before.queue@.len() < 2 ==> after == before && step.ops@.len() == 0,
        !clears && before.queue@.len() >= 2 ==> after.cycle_snapshot@ == after.queue@,
{
}

/// Setting the repeat mode sets it, and on the way to repeat-all remembers the
/// queue as the round where there is none yet; nothing has to be stored.
pub proof fn lemma_repeat_done(
    before: DaemonState,
    between: DaemonState,
    after: DaemonState,
    mode: RepeatMode,
    songs: Seq<Song>,
    audio: AudioStatus,
    now: u64,
    step: Step,
    done: Done,
)
    requires
        carried_out(before, between, after, Request::RepeatSet(mode), songs, audio, now, step, done),
    ensures
        step.audio is None && step.ops@.len() == 0,
        done.reply matches Ok(Reply::Mode(m)) && m == mode,
        after.repeat_mode == mode,
        after.queue == before.queue && after.current == before.current,
        before.cycle_snapshot@.len() > 0 || mode != RepeatMode::All ==> after.cycle_snapshot@
            == before.cycle_snapshot@,
        before.cycle_snapshot@.len() == 0 && mode == RepeatMode::All ==> after.cycle_snapshot@
            == before.queue@,
{
}

/// Pausing, resuming and seeking tell the engine just that and change nothing
/// else.
pub proof fn lemma_engine_told(
    before: DaemonState,
    between: DaemonState,
    after: DaemonState,
    request: Request,
    songs: Seq<Song>,
    audio: AudioStatus,
    now: u64,
    step: Step,
    done: Done,
)
    requires
        request is Pause || request is Resume || request is Seek,
        carried_out(before, between, after, request, songs, audio, now, step, done),
    ensures
        after == before,
        step.ops@.len() == 0 && step.playlist is None && done.remove is None,
        request is Pause ==> step.audio == Some(AudioCmd::Pause) && (done.reply matches Ok(
            Reply::Told(w),
        ) && w@ == "pause"@),
        request is Resume ==> step.audio == Some(AudioCmd::Resume) && (done.reply matches Ok(
            Reply::Told(w),
        ) && w@ == "resume"@),
        request matches Request::Seek(x) ==> step.audio == Some(AudioCmd::Seek(x)) && (
        done.reply matches Ok(Reply::Sought(y)) && y == x),
{
}

/// Questions change nothing, store nothing and tell the engine nothing.
pub proof fn lemma_questions_are_harmless(
    before: DaemonState,
    between: DaemonState,
    after: DaemonState,
    request: Request,
    songs: Seq<Song>,
    audio: AudioStatus,
    now: u64,
    step: Step,
    done: Done,
)
    requires
        request is Search || request is SearchAll || request is Queue || request is NowPlaying
            || request is Downloads || request is RepeatGet || request is VolumeGet,
        carried_out(before, between, after, request, songs, audio, now, step, done),
    ensures
        between == before && after == before,
        step.audio is None && step.ops@.len() == 0 && step.playlist is None && done.remove is None,
        done.reply == step.reply,
        request is RepeatGet ==> (done.reply matches Ok(Reply::Mode(m)) && m == before.repeat_mode),
        request is VolumeGet ==> (done.reply matches Ok(Reply::Volume(v)) && v.volume
            == audio.volume && v.playing == audio.playing && v.paused == audio.paused),
        request matches Request::Search(q) ==> (match best_match(
            songs,
            q@,
            before.fuzzy_threshold,
        ) {
            Some(s) => done.reply matches Ok(Reply::Song(t)) && t == s,
            None => done.reply matches Err(e) && e@ == "song not found: "@ + q@,
        }),
        request matches Request::SearchAll(q) ==> (done.reply matches Ok(Reply::Matches(list))
            && list@ == all_matches(songs, q@, before.fuzzy_threshold)),
        request is Queue ==> (done.reply matches Ok(Reply::Queue(r)) && r.queue@ == before.queue@
            && r.current == before.current),
        request is NowPlaying ==> (done.reply matches Ok(Reply::NowPlaying(r)) && r.current
            == before.current && r.queue_len == before.queue@.len() && r.paused == audio.paused
            && r.playing == audio.playing && r.volume == audio.volume),
        request is Downloads ==> (done.reply matches Ok(Reply::Downloads(list)) && list@.len()
            == before.download_jobs@.len() && forall|j: DownloadJob| #[trigger]
            before.download_jobs@.contains(j) <==> list@.contains(j)),
{
    lemma_jobs_listed(before.download_jobs@);
}

/// A request whose writes failed answers with the failure and leaves the state
/// as the request had begun to change it. A skip gives up the song that plays
/// all the same, and keeps the queue.
pub proof fn lemma_failed_writes(
    between: DaemonState,
    after: DaemonState,
    request: Request,
    reply: Reply,
    message: Seq<char>,
    done: Done,
)
    requires
        concludes(between, after, request, Ok(reply), Err(message), done),
    ensures
        done.remove is None,
        !(request is Skip) ==> after == between && (done.reply matches Err(e) && e@ == message),
        request is Skip ==> after.queue == between.queue && after.current is None,
        request is Skip && between.queue@.len() > 0 ==> (done.reply matches Err(e) && e@
            == "failed to delete queue row from DB: "@ + message),
{
}

/// What is asked of a playlist that is not there is refused by name, and
/// nothing is done.
pub proof fn lemma_missing_playlist(
    s: DaemonState,
    name: String,
    song: i64,
    from: usize,
    to: usize,
    copy: String,
    library: Seq<Song>,
    row: PlaylistRow,
    request: Request,
    step: Step,
)
    requires
        row.id is None,
        row.affected == 0,
        from > 0 && to > 0,
        request == Request::PlaylistGet(name) || request == Request::PlaylistRename(name, copy)
            || request == Request::PlaylistDelete(name) || request == Request::PlaylistPlay(name)
            || request == Request::PlaylistRemoveSong(name, song) || request
            == Request::PlaylistReorder(name, from, to) || request == Request::PlaylistDuplicate(
            name,
            copy,
        ),
        begins_playlist(s, request, library, row, step),
    ensures
        step.reply matches Err(e) && e@ == "playlist not found: "@ + name@,
        step.audio is None && step.ops@.len() == 0 && step.playlist is None,
{
}

/// What is done to a playlist that is there: a new one is empty; reading shows
/// its songs; playing it stores them as the queue; taking a song out leaves the
/// others; a copy has its songs behind what the copy held.
pub proof fn lemma_playlist_done(
    s: DaemonState,
    request: Request,
    library: Seq<Song>,
    row: PlaylistRow,
    step: Step,
)
    requires
        row.id is Some,
        begins_playlist(s, request, library, row, step),
    ensures
        request matches Request::PlaylistCreate(name) ==> (step.reply matches Ok(Reply::Playlist(p))
            && p.id == row.made && p.name@ == name@ && p.songs@.len() == 0 && step.playlist is None),
        request matches Request::PlaylistGet(name) ==> (step.reply matches Ok(Reply::Playlist(p))
            && p.id == row.id->0 && p.name@ == name@ && p.songs@ == row.songs@ && step.playlist
            is None),
        request matches Request::PlaylistPlay(name) ==> (step.reply matches Ok(Reply::Playlist(p))
            && p.name@ == name@ && p.songs@ == row.songs@ && step.ops@.len() == row.songs@.len() + 1
            && step.ops@[0] == StoreOp::ClearQueue && forall|i: int|
            0 <= i < row.songs@.len() ==> #[trigger] step.ops@[i + 1] == StoreOp::AppendQueue(
                row.songs@[i].id,
            )),
        request matches Request::PlaylistRemoveSong(name, id) ==> if exists|i: int|
            0 <= i < row.songs@.len() && (#[trigger] row.songs@[i]).id == id {
            &&& step.reply matches Ok(Reply::Playlist(p)) && p.songs@ == row.songs@.filter(
                |x: Song| x.id != id,
            ) && p.name@ == name@
            &&& step.playlist matches Some((to, list)) && to == row.id->0 && list@
                == row.songs@.filter(|x: Song| x.id != id)
        } else {
            &&& step.reply matches Err(e) && e@ == "song "@ + decimal_int(id as int)
                + " not in playlist "@ + name@
            &&& step.playlist is None
        },
        request matches Request::PlaylistAdd(name, q) ==> match best_match(
            library,
            q@,
            s.fuzzy_threshold,
        ) {
            Some(song) => {
                &&& step.reply matches Ok(Reply::PlaylistAdded(p, t)) && t == song && p.name@
                    == name@ && p.songs@.drop_last() == row.songs@ && p.songs@.last() == song
                    && p.songs@.len() == row.songs@.len() + 1
                &&& step.playlist matches Some((to, list)) && to == row.id->0 && list@.drop_last()
                    == row.songs@ && list@.last() == song
            },
            None => step.reply matches Err(e) && e@ == "song not found: "@ + q@,
        },
        request matches Request::PlaylistDuplicate(name, copy) ==> (step.reply matches Ok(
            Reply::Playlist(p),
        ) && p.id == row.made && p.name@ == copy@ && p.songs@ == row.songs@ && (
        step.playlist matches Some((to, list)) && to == row.made && list@.take(
            row.made_songs@.len() as int,
        ) == row.made_songs@ && list@.skip(row.made_songs@.len() as int) == row.songs@)),
{
    match request {
        Request::PlaylistRemoveSong(name, id) => {
            lemma_without_song_filters(row.songs@, id);
            if exists|i: int| 0 <= i < row.songs@.len() && (#[trigger] row.songs@[i]).id == id {
                let i = choose|i: int|
                    0 <= i < row.songs@.len() && (#[trigger] row.songs@[i]).id == id;
                assert(ids_of(row.songs@)[i] == id);
            } else if ids_of(row.songs@).contains(id) {
                let i = choose|i: int| 0 <= i < ids_of(row.songs@).len() && ids_of(row.songs@)[i] == id;
                assert(row.songs@[i].id == id);
            }
        },
        Request::PlaylistAdd(name, q) => {
            match best_match(library, q@, s.fuzzy_threshold) {
                Some(song) => {
                    assert(row.songs@.push(song).drop_last() =~= row.songs@);
                },
                None => {},
            }
        },
        Request::PlaylistDuplicate(name, copy) => {
            let n = row.made_songs@.len() as int;
            assert((row.made_songs@ + row.songs@).take(n) =~= row.made_songs@);
            assert((row.made_songs@ + row.songs@).skip(n) =~= row.songs@);
        },
        _ => {},
    }
}

/// A playlist that was renamed is shown under its new name, with the songs that
/// it has; one that was deleted is named. Where no playlist was renamed or
/// deleted, there was none of that name.
pub proof fn lemma_rename_delete_done(
    s: DaemonState,
    name: String,
    new_name: String,
    library: Seq<Song>,
    row: PlaylistRow,
    request: Request,
    step: Step,
)
    requires
        request == Request::PlaylistRename(name, new_name) || request == Request::PlaylistDelete(
            name,
        ),
        begins_playlist(s, request, library, row, step),
    ensures
        step.audio is None && step.ops@.len() == 0 && step.playlist is None,
        row.affected > 0 && request is PlaylistRename ==> (step.reply matches Ok(Reply::Playlist(p))
            && p.id == row.made && p.name@ == new_name@ && p.songs@ == row.made_songs@),
        row.affected > 0 && request is PlaylistDelete ==> (step.reply matches Ok(
            Reply::PlaylistDeleted(n),
        ) && n@ == name@),
        row.affected == 0 ==> (step.reply matches Err(e) && e@ == "playlist not found: "@ + name@),
{
}

/// Moving a song within a playlist: positions count from one, those outside are
/// refused, and a move takes the one song out and puts it in at the new
/// position.
pub proof fn lemma_reorder_done(
    s: DaemonState,
    name: String,
    from: usize,
    to: usize,
    library: Seq<Song>,
    row: PlaylistRow,
    step: Step,
)
    requires
        begins_playlist(s, Request::PlaylistReorder(name, from, to), library, row, step),
    ensures
        from == 0 || to == 0 ==> (step.reply matches Err(e) && e@ == "positions are 1-based"@),
        from > 0 && to > 0 && row.id is Some && (from > row.songs@.len() || to > row.songs@.len())
            ==> (step.reply matches Err(e) && e@ == "position out of range (playlist has "@
            + decimal(row.songs@.len()) + " songs)"@),
        1 <= from <= row.songs@.len() && 1 <= to <= row.songs@.len() && row.id is Some ==> {
            &&& step.reply matches Ok(Reply::Playlist(p)) && p.name@ == name@ && p.songs@.len()
                == row.songs@.len() && p.songs@[to - 1] == row.songs@[from - 1] && p.songs@.remove(
                to - 1,
            ) == row.songs@.remove(from - 1)
            &&& step.playlist matches Some((i, list)) && Some(i) == row.id && list@[to - 1]
                == row.songs@[from - 1] && list@.remove(to - 1) == row.songs@.remove(from - 1)
        },
{
    if 1 <= from <= row.songs@.len() && 1 <= to <= row.songs@.len() {
        crate::playlists::lemma_moved(row.songs@, from as int, to as int);
    }
}

} // verus!
