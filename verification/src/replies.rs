//! What the daemon answers: the values behind its replies.

use vstd::prelude::*;

use crate::audio::{shown_duration, AudioStatus, NANOS};
use crate::client::{NowPlaying, QueueSnapshot, ShuffledResponse, VolumeInfo};
use crate::model::{clone_songs, RepeatMode, Song};
use crate::real64::{nearest, Real64};
use crate::state::DaemonState;

verus! {

fn clone_song(s: &Option<Song>) -> (r: Option<Song>)
    ensures
        r == *s,
{
    match s {
        Some(t) => Some(t.clone()),
        None => None,
    }
}

/// The duration that the library knows of the song that plays.
pub open spec fn library_duration(state: DaemonState) -> Option<Real64> {
    match state.current {
        Some(s) => s.duration_secs,
        None => None,
    }
}

/// `r` tells what plays, how far it is, and how.
pub open spec fn is_now_playing(
    r: NowPlaying,
    state: DaemonState,
    audio: AudioStatus,
    now: u64,
) -> bool {
    &&& r.current == state.current
    &&& r.queue_len == state.queue@.len()
    &&& r.elapsed_secs.bits as nat == nearest(audio.elapsed_at(now) as nat, NANOS as nat)
    &&& r.duration_secs == (if audio.duration_secs is Some {
        audio.duration_secs
    } else {
        library_duration(state)
    })
    &&& r.paused == audio.paused
    &&& r.playing == audio.playing
    &&& r.volume == audio.volume
    &&& r.repeat@ == state.repeat_mode.name()
}

/// What plays, how far it is, and how.
pub fn now_playing(state: &DaemonState, audio: &AudioStatus, now: u64) -> (r: NowPlaying)
    requires
        audio.valid_at(now),
    ensures
        is_now_playing(r, *state, *audio, now),
{
    let known = match &state.current {
        Some(s) => s.duration_secs,
        None => None,
    };
    NowPlaying {
        current: clone_song(&state.current),
        queue_len: state.queue.len(),
        elapsed_secs: audio.elapsed_secs(now),
        duration_secs: shown_duration(audio.duration_secs, known),
        paused: audio.paused,
        playing: audio.playing,
        volume: audio.volume,
        repeat: String::from_str(state.repeat_mode.as_str()),
    }
}

/// `r` tells what plays and what waits.
pub open spec fn is_queue_snapshot(r: QueueSnapshot, state: DaemonState) -> bool {
    &&& r.queue@ == state.queue@
    &&& r.current == state.current
    &&& r.repeat@ == state.repeat_mode.name()
}

/// What plays and what waits.
pub fn queue_snapshot(state: &DaemonState) -> (r: QueueSnapshot)
    ensures
        is_queue_snapshot(r, *state),
{
    QueueSnapshot {
        queue: clone_songs(&state.queue),
        current: clone_song(&state.current),
        repeat: String::from_str(state.repeat_mode.as_str()),
    }
}

/// The volume and what the engine does.
pub fn volume_info(audio: &AudioStatus) -> (r: VolumeInfo)
    ensures
        r.volume == audio.volume,
        r.playing == audio.playing,
        r.paused == audio.paused,
{
    VolumeInfo { volume: audio.volume, playing: audio.playing, paused: audio.paused }
}

/// The queue was shuffled.
pub fn shuffled(state: &DaemonState) -> (r: ShuffledResponse)
    ensures
        r.shuffled,
        r.len == state.queue@.len(),
{
    ShuffledResponse { shuffled: true, len: state.queue.len() }
}

/// The report on what plays agrees with the state and with the engine: the song,
/// how many songs wait, the seconds played to the nearest double, the length
/// that the engine knows or else the library, and the name of the repeat mode.
pub proof fn lemma_now_playing(
    r: NowPlaying,
    state: DaemonState,
    audio: AudioStatus,
    now: u64,
)
    requires
        is_now_playing(r, state, audio, now),
    ensures
        r.current == state.current && r.queue_len == state.queue@.len(),
        r.paused == audio.paused && r.playing == audio.playing && r.volume == audio.volume,
        r.elapsed_secs.bits as nat == nearest(audio.elapsed_at(now) as nat, 1_000_000_000),
        audio.duration_secs is Some ==> r.duration_secs == audio.duration_secs,
        audio.duration_secs is None ==> (state.current matches Some(s) ==> r.duration_secs
            == s.duration_secs),
        audio.duration_secs is None && state.current is None ==> r.duration_secs is None,
        state.repeat_mode == RepeatMode::Off ==> r.repeat@ == "off"@,
        state.repeat_mode == RepeatMode::One ==> r.repeat@ == "one"@,
        state.repeat_mode == RepeatMode::All ==> r.repeat@ == "all"@,
{
}

/// The report on the queue holds its songs in their order, what plays, and the
/// name of the repeat mode.
pub proof fn lemma_queue_snapshot(r: QueueSnapshot, state: DaemonState)
    requires
        is_queue_snapshot(r, state),
    ensures
        r.queue@.len() == state.queue@.len(),
        forall|i: int| 0 <= i < r.queue@.len() ==> #[trigger] r.queue@[i] == state.queue@[i],
        r.current == state.current,
        state.repeat_mode == RepeatMode::Off ==> r.repeat@ == "off"@,
        state.repeat_mode == RepeatMode::One ==> r.repeat@ == "one"@,
        state.repeat_mode == RepeatMode::All ==> r.repeat@ == "all"@,
{
}

} // verus!
