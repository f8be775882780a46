//! The state of the audio engine and what each command does to it. The engine
//! itself runs on a thread of its own; it carries out the actions and reports
//! back. Times are nanoseconds on a clock that does not run backwards.

use vstd::prelude::*;

use crate::model::clone_text;
use crate::playback::EngineReport;
use crate::real64::{divide, nearest, rounds_to, Real64, INFINITY_BITS, SIGN_BIT};

verus! {

/// Nanoseconds in a second.
pub const NANOS: u64 = 1_000_000_000;

/// `2.0` as a single-precision bit pattern: the loudest volume.
pub const VOLUME_MAX: u32 = 0x4000_0000;

/// `1.0` as a single-precision bit pattern: the volume at start.
pub const VOLUME_START: u32 = 0x3F80_0000;

/// The single-precision pattern of the sign alone.
pub const VOLUME_SIGN: u32 = 0x8000_0000;

/// The single-precision pattern of positive infinity.
pub const VOLUME_INFINITY: u32 = 0x7F80_0000;

/// What the engine does at a moment.
#[derive(Debug)]
pub struct AudioStatus {
    /// The volume, as a single-precision bit pattern.
    pub volume: u32,
    pub paused: bool,
    /// A song is sounding, or paused.
    pub playing: bool,
    /// The file that is sounding.
    pub current_path: Option<String>,
    /// Duration of the song in seconds; `None` when unknown.
    pub duration_secs: Option<Real64>,
    /// When the song was started or last moved to another position.
    pub play_started_at: Option<u64>,
    /// How long the song has been paused, the current pause aside.
    pub paused_total: u64,
    /// When the current pause began.
    pub paused_at: Option<u64>,
    /// A song is being set up.
    pub audio_pending_play: bool,
    /// Setting up the last song failed.
    pub last_play_failed: bool,
}

impl Clone for AudioStatus {
    fn clone(&self) -> (r: Self)
        ensures
            r == *self,
    {
        AudioStatus {
            volume: self.volume,
            paused: self.paused,
            playing: self.playing,
            current_path: clone_text(&self.current_path),
            duration_secs: self.duration_secs,
            play_started_at: self.play_started_at,
            paused_total: self.paused_total,
            paused_at: self.paused_at,
            audio_pending_play: self.audio_pending_play,
            last_play_failed: self.last_play_failed,
        }
    }
}

impl Default for AudioStatus {
    fn default() -> (r: Self)
        ensures
            r.volume == 0,
            r.is_idle(),
            r.duration_secs is None,
            !r.audio_pending_play,
            !r.last_play_failed,
    {
        AudioStatus {
            volume: 0,
            paused: false,
            playing: false,
            current_path: None,
            duration_secs: None,
            play_started_at: None,
            paused_total: 0,
            paused_at: None,
            audio_pending_play: false,
            last_play_failed: false,
        }
    }
}

/// What the engine is told to do.
#[derive(Debug)]
pub enum AudioCmd {
    Play(String),
    Pause,
    Resume,
    /// The volume, as a single-precision bit pattern.
    SetVolume(u32),
    /// The position in seconds.
    Seek(Real64),
    Stop,
    Shutdown,
}

/// What the engine has to do to carry a command out.
#[derive(Debug)]
pub enum AudioAction {
    Nothing,
    /// Give up what sounds, open a file and play it at a volume.
    Start(String, u32),
    Pause,
    Resume,
    SetVolume(u32),
    Seek(Real64),
    /// Give up what sounds.
    GiveUp,
    Exit,
}

/// A volume kept between silence and the loudest. What is not a number stays
/// as it is.
pub open spec fn clamped_volume(v: u32) -> u32 {
    if v > VOLUME_SIGN && v <= VOLUME_SIGN + VOLUME_INFINITY {
        0
    } else if VOLUME_MAX < v && v <= VOLUME_INFINITY {
        VOLUME_MAX
    } else {
        v
    }
}

/// Keeps a volume between `0.0` and `2.0`.
pub fn clamp_volume(v: u32) -> (r: u32)
    ensures
        r == clamped_volume(v),
{
    if v > VOLUME_SIGN && v <= VOLUME_SIGN + VOLUME_INFINITY {
        0
    } else if VOLUME_MAX < v && v <= VOLUME_INFINITY {
        VOLUME_MAX
    } else {
        v
    }
}

/// A position that can be moved to: a finite number that is not negative.
pub open spec fn can_seek_to(secs: Real64) -> bool {
    secs.bits < INFINITY_BITS || secs.bits == SIGN_BIT
}

/// Whether a position can be moved to.
pub fn is_seekable(secs: Real64) -> (r: bool)
    ensures
        r == can_seek_to(secs),
{
    secs.bits < INFINITY_BITS || secs.bits == SIGN_BIT
}

impl AudioStatus {
    /// Nothing sounds.
    pub open spec fn is_idle(self) -> bool {
        &&& !self.playing
        &&& !self.paused
        &&& self.current_path is None
        &&& self.play_started_at is None
        &&& self.paused_at is None
        &&& self.paused_total == 0
    }

    /// The times make sense at the time `now`: what is past is past, and the
    /// pauses lie within the playing time.
    pub open spec fn valid_at(self, now: u64) -> bool {
        &&& self.paused <==> self.paused_at is Some
        &&& self.playing <==> self.play_started_at is Some
        &&& self.playing <==> self.current_path is Some
        &&& !self.playing ==> self.paused_total == 0 && self.paused_at is None
        &&& self.paused_at matches Some(p) ==> p <= now
        &&& self.play_started_at matches Some(s) ==> s + self.paused_total <= (match self.paused_at {
            Some(p) => p as int,
            None => now as int,
        })
    }

    /// How long the song has played at the time `now`, pauses aside.
    pub open spec fn elapsed_at(self, now: u64) -> int {
        match self.play_started_at {
            Some(s) => match self.paused_at {
                Some(p) => p - s - self.paused_total,
                None => now - s - self.paused_total,
            },
            None => 0,
        }
    }

    /// The status at start: nothing sounds, at full volume.
    pub fn initial() -> (r: Self)
        ensures
            r.is_idle(),
            r.volume == VOLUME_START,
            r.volume == 0x3F80_0000,
            r.duration_secs is None,
            !r.audio_pending_play,
            !r.last_play_failed,
            forall|now: u64| r.valid_at(now),
    {
        let mut r = AudioStatus::default();
        r.volume = VOLUME_START;
        r
    }

    /// How long the song has played, in nanoseconds, pauses aside.
    pub fn elapsed(&self, now: u64) -> (r: u64)
        requires
            self.valid_at(now),
        ensures
            r as int == self.elapsed_at(now),
    {
        match self.play_started_at {
            Some(s) => match self.paused_at {
                Some(p) => p - s - self.paused_total,
                None => now - s - self.paused_total,
            },
            None => 0,
        }
    }

    /// How long the song has played, in seconds, pauses aside: the number
    /// nearest to it.
    pub fn elapsed_secs(&self, now: u64) -> (r: Real64)
        requires
            self.valid_at(now),
        ensures
            r.bits as nat == nearest(self.elapsed_at(now) as nat, NANOS as nat),
            rounds_to(self.elapsed_at(now) as nat, NANOS as nat, r.bits as nat),
    {
        divide(self.elapsed(now), NANOS as u128)
    }

    /// What the playback loop goes by.
    pub fn report(&self, now: u64) -> (r: EngineReport)
        requires
            self.valid_at(now),
        ensures
            r.playing == self.playing,
            r.pending == self.audio_pending_play,
            r.failed == self.last_play_failed,
            r.elapsed_secs as int == self.elapsed_at(now) / (NANOS as int),
            r.elapsed_secs as int == self.elapsed_at(now) / 1_000_000_000,
    {
        EngineReport {
            playing: self.playing,
            pending: self.audio_pending_play,
            failed: self.last_play_failed,
            elapsed_secs: (self.elapsed(now) / NANOS) as i64,
        }
    }

    fn reset(&mut self)
        ensures
            final(self).is_idle(),
            *final(self) == (AudioStatus {
                volume: old(self).volume,
                duration_secs: old(self).duration_secs,
                audio_pending_play: old(self).audio_pending_play,
                last_play_failed: old(self).last_play_failed,
                ..*final(self)
            }),
    {
        self.playing = false;
        self.paused = false;
        self.current_path = None;
        self.play_started_at = None;
        self.paused_at = None;
        self.paused_total = 0;
    }

    /// Takes a command at the time `now`, and hands out what the engine has to
    /// do. Starting a song and moving to another position are concluded by
    /// `started`, `start_failed` and `seeked`.
    pub fn command(&mut self, cmd: AudioCmd, now: u64) -> (r: AudioAction)
        requires
            old(self).valid_at(now),
        ensures
            final(self).valid_at(now),
            match cmd {
                AudioCmd::Play(path) => r matches AudioAction::Start(p, v) && p == path && v
                    == old(self).volume && final(self).is_idle() && final(self).audio_pending_play
                    && !final(self).last_play_failed && final(self).volume == old(self).volume
                    && final(self).duration_secs == old(self).duration_secs,
                AudioCmd::Pause => if old(self).playing && !old(self).paused {
                    r is Pause && *final(self) == (AudioStatus {
                        paused: true,
                        paused_at: Some(now),
                        ..*old(self)
                    })
                } else {
                    r is Nothing && *final(self) == *old(self)
                },
                AudioCmd::Resume => if old(self).playing && old(self).paused {
                    r is Resume && *final(self) == (AudioStatus {
                        paused: false,
                        paused_at: None,
                        paused_total: (old(self).paused_total + (now - old(
                            self,
                        ).paused_at->0)) as u64,
                        ..*old(self)
                    })
                } else {
                    r is Nothing && *final(self) == *old(self)
                },
                AudioCmd::SetVolume(v) => r matches AudioAction::SetVolume(w) && w
                    == clamped_volume(v) && *final(self) == (AudioStatus {
                    volume: clamped_volume(v),
                    ..*old(self)
                }),
                AudioCmd::Seek(secs) => *final(self) == *old(self) && (if old(self).playing
                    && can_seek_to(secs) {
                    r matches AudioAction::Seek(x) && x == secs
                } else {
                    r is Nothing
                }),
                AudioCmd::Stop => r is GiveUp && final(self).is_idle() && *final(self) == (
                AudioStatus {
                    volume: old(self).volume,
                    duration_secs: old(self).duration_secs,
                    audio_pending_play: old(self).audio_pending_play,
                    last_play_failed: old(self).last_play_failed,
                    ..*final(self)
                }),
                AudioCmd::Shutdown => r is Exit && *final(self) == *old(self),
            },
            !(cmd is SetVolume) ==> final(self).volume == old(self).volume,
            !(cmd is Play || cmd is Stop) ==> final(self).playing == old(self).playing
                && final(self).current_path == old(self).current_path
                && final(self).elapsed_at(now) == old(self).elapsed_at(now)
                && final(self).audio_pending_play == old(self).audio_pending_play
                && final(self).last_play_failed == old(self).last_play_failed,
            cmd is Play || cmd is Stop ==> !final(self).playing && final(self).elapsed_at(now) == 0,
            cmd is Pause && old(self).playing ==> final(self).paused,
            cmd is Resume ==> !final(self).paused,
            !(cmd is Pause || cmd is Resume || cmd is Play || cmd is Stop) ==> final(self).paused
                == old(self).paused,
            cmd is Play <==> r is Start,
            r is Seek <==> cmd is Seek && old(self).playing && can_seek_to(cmd->Seek_0),
    {
        match cmd {
            AudioCmd::Play(path) => {
                self.reset();
                self.audio_pending_play = true;
                self.last_play_failed = false;
                AudioAction::Start(path, self.volume)
            },
            AudioCmd::Pause => {
                if self.playing && !self.paused {
                    self.paused = true;
                    self.paused_at = Some(now);
                    AudioAction::Pause
                } else {
                    AudioAction::Nothing
                }
            },
            AudioCmd::Resume => {
                if self.playing && self.paused {
                    match self.paused_at {
                        Some(p) => {
                            self.paused_total = self.paused_total + (now - p);
                        },
                        None => {},
                    }
                    self.paused_at = None;
                    self.paused = false;
                    AudioAction::Resume
                } else {
                    AudioAction::Nothing
                }
            },
            AudioCmd::SetVolume(v) => {
                let w = clamp_volume(v);
                self.volume = w;
                AudioAction::SetVolume(w)
            },
            AudioCmd::Seek(secs) => {
                if self.playing && is_seekable(secs) {
                    AudioAction::Seek(secs)
                } else {
                    AudioAction::Nothing
                }
            },
            AudioCmd::Stop => {
                self.reset();
                AudioAction::GiveUp
            },
            AudioCmd::Shutdown => AudioAction::Exit,
        }
    }

    /// The song was set up and sounds from `now` on.
    pub fn started(&mut self, path: String, duration: Option<Real64>, now: u64)
        ensures
            *final(self) == (AudioStatus {
                volume: old(self).volume,
                paused: false,
                playing: true,
                current_path: Some(path),
                duration_secs: duration,
                play_started_at: Some(now),
                paused_total: 0,
                paused_at: None,
                audio_pending_play: false,
                last_play_failed: old(self).last_play_failed,
            }),
            final(self).valid_at(now),
            final(self).elapsed_at(now) == 0,
    {
        self.current_path = Some(path);
        self.duration_secs = duration;
        self.playing = true;
        self.paused = false;
        self.play_started_at = Some(now);
        self.paused_at = None;
        self.paused_total = 0;
        self.audio_pending_play = false;
    }

    /// The song could not be set up.
    pub fn start_failed(&mut self, now: u64)
        requires
            old(self).is_idle(),
        ensures
            final(self).valid_at(now),
            *final(self) == (AudioStatus {
                audio_pending_play: false,
                last_play_failed: true,
                ..*old(self)
            }),
    {
        self.audio_pending_play = false;
        self.last_play_failed = true;
    }

    /// The song was moved to another position at the time `now`; its playing
    /// time counts from there.
    pub fn seeked(&mut self, now: u64)
        requires
            old(self).valid_at(now),
            old(self).playing,
        ensures
            final(self).valid_at(now),
            final(self).elapsed_at(now) == 0,
            *final(self) == (AudioStatus {
                play_started_at: Some(now),
                paused_total: 0,
                paused_at: if old(self).paused {
                    Some(now)
                } else {
                    None
                },
                ..*old(self)
            }),
    {
        self.play_started_at = Some(now);
        self.paused_total = 0;
        if self.paused {
            self.paused_at = Some(now);
        }
    }

    /// Notices the end of the song: the engine has nothing left to play and is
    /// not paused. Says whether the song has ended.
    pub fn check_end(&mut self, exhausted: bool, now: u64) -> (r: bool)
        requires
            old(self).valid_at(now),
        ensures
            r == (exhausted && !old(self).paused && old(self).current_path is Some),
            !r ==> *final(self) == *old(self),
            r ==> final(self).is_idle() && *final(self) == (AudioStatus {
                volume: old(self).volume,
                duration_secs: old(self).duration_secs,
                audio_pending_play: old(self).audio_pending_play,
                last_play_failed: old(self).last_play_failed,
                ..*final(self)
            }),
            final(self).valid_at(now),
    {
        if !self.paused && exhausted && self.current_path.is_some() {
            self.reset();
            true
        } else {
            false
        }
    }
}

/// What makes sense now makes sense later.
pub proof fn lemma_valid_later(s: AudioStatus, now: u64, later: u64)
    requires
        s.valid_at(now),
        now <= later,
    ensures
        s.valid_at(later),
        0 <= s.elapsed_at(now) <= s.elapsed_at(later),
{
}

/// While a song is paused its playing time stands still; once it goes on the
/// playing time goes on from where it stood.
pub proof fn lemma_pause_excluded(
    playing: AudioStatus,
    paused: AudioStatus,
    resumed: AudioStatus,
    t0: u64,
    t1: u64,
    t2: u64,
)
    requires
        playing.valid_at(t0),
        playing.playing,
        !playing.paused,
        t0 <= t1 <= t2,
        paused == (AudioStatus { paused: true, paused_at: Some(t0), ..playing }),
        resumed == (AudioStatus {
            paused: false,
            paused_at: None,
            paused_total: (paused.paused_total + (t1 - t0)) as u64,
            ..paused
        }),
    ensures
        paused.elapsed_at(t1) == playing.elapsed_at(t0),
        resumed.elapsed_at(t1) == playing.elapsed_at(t0),
        resumed.elapsed_at(t2) == playing.elapsed_at(t0) + (t2 - t1),
{
}

/// The duration to show for a song: what the engine reports, else what the
/// library knows.
pub fn shown_duration(engine: Option<Real64>, library: Option<Real64>) -> (r: Option<Real64>)
    ensures
        r == (if engine is Some {
            engine
        } else {
            library
        }),
{
    if engine.is_some() {
        engine
    } else {
        library
    }
}

/// Volumes from silence to the loudest stay as they are; louder ones become the
/// loudest, negative ones silence, and clamping twice is clamping once.
pub proof fn lemma_clamped_volume(v: u32)
    ensures
        v <= 0x4000_0000 ==> clamped_volume(v) == v,
        0x4000_0000 < v <= 0x7F80_0000 ==> clamped_volume(v) == 0x4000_0000,
        0x8000_0000 < v <= 0xFF80_0000 ==> clamped_volume(v) == 0,
        0x7F80_0000 < v <= 0x8000_0000 || v > 0xFF80_0000 ==> clamped_volume(v) == v,
        clamped_volume(clamped_volume(v)) == clamped_volume(v),
{
}

/// A song can be moved to zero, of either sign, and to every positive number;
/// not to what is negative, infinite or no number.
pub proof fn lemma_seekable(secs: Real64)
    ensures
        can_seek_to(secs) <==> secs.bits < 0x7FF0_0000_0000_0000 || secs.bits
            == 0x8000_0000_0000_0000,
{
}

/// The playing time runs with the clock while a song sounds, stands still while
/// it is paused, and is zero where nothing plays.
pub proof fn lemma_playing_time(s: AudioStatus, now: u64, later: u64)
    requires
        s.valid_at(now),
        now <= later,
    ensures
        s.playing && !s.paused ==> s.elapsed_at(later) - s.elapsed_at(now) == later - now,
        s.paused ==> s.elapsed_at(later) == s.elapsed_at(now),
        !s.playing ==> s.elapsed_at(now) == 0,
        s.play_started_at == Some(now) && s.paused_total == 0 ==> s.elapsed_at(now) == 0,
{
}

} // verus!
