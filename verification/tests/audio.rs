//! The audio engine's state, and what the daemon says of it.

use sjnmusic::audio::{
    clamp_volume, is_seekable, shown_duration, AudioAction, AudioCmd, AudioStatus, NANOS,
};
use sjnmusic::model::{RepeatMode, Song};
use sjnmusic::real64::Real64;
use sjnmusic::replies::{now_playing, queue_snapshot, shuffled, volume_info};
use sjnmusic::state::DaemonState;

fn num(x: f64) -> Real64 {
    Real64 { bits: x.to_bits() }
}

#[test]
fn volumes_are_clamped() {
    for v in [0.0f32, -0.0, 0.5, 1.0, 2.0, 2.5, -1.0, f32::INFINITY, f32::NEG_INFINITY, 1e-40] {
        assert_eq!(f32::from_bits(clamp_volume(v.to_bits())), v.clamp(0.0, 2.0), "{}", v);
    }
    assert!(f32::from_bits(clamp_volume(f32::NAN.to_bits())).is_nan());
}

#[test]
fn positions_have_to_be_finite_and_not_negative() {
    for x in [0.0, -0.0, 1.5, 1e300] {
        assert!(is_seekable(num(x)));
    }
    for x in [-1.0, f64::NAN, f64::INFINITY, f64::NEG_INFINITY] {
        assert!(!is_seekable(num(x)));
    }
}

#[test]
fn pauses_do_not_count() {
    let mut s = AudioStatus::initial();
    assert!(matches!(s.command(AudioCmd::Pause, 0), AudioAction::Nothing));
    match s.command(AudioCmd::Play("/a".to_string()), 0) {
        AudioAction::Start(p, v) => {
            assert_eq!(p, "/a");
            assert_eq!(f32::from_bits(v), 1.0);
        }
        a => panic!("{:?}", a),
    }
    assert!(s.audio_pending_play && !s.playing);
    s.started("/a".to_string(), Some(num(200.0)), NANOS);
    assert!(s.playing && !s.audio_pending_play);
    assert_eq!(s.elapsed(3 * NANOS), 2 * NANOS);
    assert!(matches!(s.command(AudioCmd::Pause, 3 * NANOS), AudioAction::Pause));
    assert!(matches!(s.command(AudioCmd::Pause, 4 * NANOS), AudioAction::Nothing));
    assert_eq!(s.elapsed(9 * NANOS), 2 * NANOS);
    assert!(!s.check_end(true, 9 * NANOS), "a paused song does not end");
    assert!(matches!(s.command(AudioCmd::Resume, 10 * NANOS), AudioAction::Resume));
    assert_eq!(s.elapsed(12 * NANOS + NANOS / 2), 4 * NANOS + NANOS / 2);
    assert_eq!(s.elapsed_secs(12 * NANOS + NANOS / 2), num(4.5));
    assert_eq!(s.report(12 * NANOS).elapsed_secs, 4);
    assert!(matches!(s.command(AudioCmd::Seek(num(60.0)), 13 * NANOS), AudioAction::Seek(_)));
    s.seeked(13 * NANOS);
    assert_eq!(s.elapsed(13 * NANOS), 0);
    assert!(matches!(s.command(AudioCmd::Seek(num(-1.0)), 13 * NANOS), AudioAction::Nothing));
    assert!(s.check_end(true, 14 * NANOS));
    assert!(!s.playing);
    assert_eq!(s.elapsed(15 * NANOS), 0);
}

#[test]
fn failures_and_stops_leave_nothing_sounding() {
    let mut s = AudioStatus::initial();
    s.command(AudioCmd::Play("/a".to_string()), 0);
    s.start_failed(1);
    let r = s.report(1);
    assert!(r.failed && !r.pending && !r.playing);
    s.command(AudioCmd::Play("/b".to_string()), 2);
    assert!(!s.last_play_failed);
    s.started("/b".to_string(), None, 3);
    assert!(matches!(s.command(AudioCmd::Stop, 4), AudioAction::GiveUp));
    assert!(s.current_path.is_none() && !s.playing);
    match s.command(AudioCmd::SetVolume(3.0f32.to_bits()), 5) {
        AudioAction::SetVolume(v) => assert_eq!(f32::from_bits(v), 2.0),
        a => panic!("{:?}", a),
    }
    assert!(matches!(s.command(AudioCmd::Shutdown, 6), AudioAction::Exit));
}

#[test]
fn replies_tell_what_plays() {
    let song = Song {
        id: 1,
        name: "a".to_string(),
        path: "/a".to_string(),
        duration_secs: Some(num(99.0)),
    };
    let mut d =
        DaemonState::new(vec![song.clone()], num(0.65), 0, RepeatMode::All, 3);
    d.current = Some(song);
    let mut s = AudioStatus::initial();
    s.started("/a".to_string(), None, 0);
    let np = now_playing(&d, &s, 2 * NANOS + NANOS / 4);
    assert_eq!(np.current.unwrap().id, 1);
    assert_eq!(np.queue_len, 1);
    assert_eq!(np.elapsed_secs, num(2.25));
    assert_eq!(np.duration_secs, Some(num(99.0)));
    assert!(np.playing && !np.paused);
    assert_eq!(f32::from_bits(np.volume), 1.0);
    assert_eq!(np.repeat, "all");
    let q = queue_snapshot(&d);
    assert_eq!(q.queue.len(), 1);
    assert_eq!(q.repeat, "all");
    assert!(volume_info(&s).playing);
    assert_eq!(shuffled(&d).len, 1);
    assert_eq!(shown_duration(Some(num(1.0)), Some(num(2.0))), Some(num(1.0)));
    assert_eq!(shown_duration(None, None), None);
}
