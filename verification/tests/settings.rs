//! Configuration, paths and the local socket.

use sjnmusic::config::{parse_level, Config, LogLevel};
use sjnmusic::model::RepeatMode;
use sjnmusic::paths::{
    config_path, db_path, default_base_dir, join_path, library_root, song_path, songs_dir,
};
use sjnmusic::protocol::{command_reply, Command};

#[test]
fn defaults_are_sensible() {
    let c = Config::default();
    assert_eq!(c.server.host, "127.0.0.1");
    assert_eq!(c.server.port, 14567);
    assert_eq!(c.logging.level, "info");
    assert_eq!(c.library.music_dir, None);
    assert_eq!(c.library.max_queue_size, 0);
    assert_eq!(f64::from_bits(c.search.fuzzy_threshold.bits), 0.65);
    assert_eq!(c.download.search_count, 3);
    assert!(!c.auth_enabled);
    assert_eq!(c.initial_repeat(), RepeatMode::Off);
    assert_eq!(c.required_token(), None);
    assert!(!c.needs_token());
}

#[test]
fn tokens_are_asked_for_where_they_are_set() {
    let mut c = Config::default();
    c.auth_enabled = true;
    assert!(c.needs_token());
    assert_eq!(c.required_token(), None);
    c.auth_token = "t".to_string();
    assert!(!c.needs_token());
    assert_eq!(c.required_token(), Some("t".to_string()));
    c.auth_enabled = false;
    assert_eq!(c.required_token(), None);
}

#[test]
fn modes_and_levels_are_read() {
    for (s, m) in [
        ("off", Some(RepeatMode::Off)),
        (" One ", Some(RepeatMode::One)),
        ("single", Some(RepeatMode::One)),
        ("LOOP", Some(RepeatMode::All)),
        ("false", Some(RepeatMode::Off)),
        ("1", Some(RepeatMode::One)),
        ("twice", None),
        ("", None),
    ] {
        assert_eq!(RepeatMode::parse(s), m);
    }
    for m in [RepeatMode::Off, RepeatMode::One, RepeatMode::All] {
        assert_eq!(RepeatMode::parse(m.as_str()), Some(m));
    }
    let mut c = Config::default();
    c.library.default_repeat = "all".to_string();
    assert_eq!(c.initial_repeat(), RepeatMode::All);
    c.library.default_repeat = "".to_string();
    assert_eq!(c.initial_repeat(), RepeatMode::Off);
    assert_eq!(parse_level("WARNING"), LogLevel::Warn);
    assert_eq!(parse_level("trace"), LogLevel::Trace);
    assert_eq!(parse_level("debug"), LogLevel::Debug);
    assert_eq!(parse_level("error"), LogLevel::Error);
    assert_eq!(parse_level("loud"), LogLevel::Info);
}

#[test]
fn paths_lie_below_the_root() {
    assert_eq!(library_root(None, Some("/home/u")), "/home/u/.sjn/music");
    assert_eq!(library_root(Some(""), None), "./.sjn/music");
    assert_eq!(library_root(Some("/data"), Some("/home/u")), "/data");
    assert_eq!(library_root(Some("lib"), Some("/home/u")), "/home/u/.sjn/music/lib");
    assert_eq!(songs_dir("/data"), "/data/songs");
    assert_eq!(db_path("/data"), "/data/songs.db");
    assert_eq!(config_path("/data/"), "/data/config.toml");
    assert_eq!(join_path("", "x"), "x");
    assert_eq!(song_path("/data", "AC/DC: T.N.T. é"), "/data/songs/AC_DC_ T_N_T_ é.mp3");
    assert_eq!(song_path("/data", "../../etc"), "/data/songs/______etc.mp3");
}

#[test]
fn socket_commands_are_answered() {
    assert_eq!(command_reply(&Command::Play("a".to_string()), None), "OK: Playing a");
    assert_eq!(command_reply(&Command::Add("a".to_string()), None), "OK: Added a");
    assert_eq!(command_reply(&Command::Del("a".to_string()), None), "OK: Deleted a");
    assert_eq!(command_reply(&Command::Init("a".to_string()), None), "OK: Downloading a");
    assert_eq!(
        command_reply(&Command::Search("a".to_string()), None),
        "ERROR: Song not found"
    );
    assert_eq!(
        command_reply(&Command::Search("a".to_string()), Some("{}".to_string())),
        "{}"
    );
}

#[test]
fn the_library_lies_below_the_home_directory() {
    assert_eq!(default_base_dir(Some("/home/me")), "/home/me/.sjn/music");
    assert_eq!(default_base_dir(None), "./.sjn/music");
}
