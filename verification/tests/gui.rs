//! The graphical client.

use sjnmusic::client::{DaemonError, NowPlaying, QueueSnapshot};
use sjnmusic::dates::{chrono_from_unix, civil_from_days};
use sjnmusic::fmt::{big_secs, escape_html, mmss};
use sjnmusic::gui::{SJNMusicApp, STALE_AGE};
use sjnmusic::model::{DownloadJob, HistoryEntry, Playlist, Song, Stats, YtCandidate};
use sjnmusic::pages::{
    badge_color, candidate_meta, copy_name, download_result, download_source_text, entered_name,
    flag_chip, flag_color, history_title, move_positions, playlist_meta, rename_target, score_color,
    score_text, song_meta, LibraryFetch, PickOutcome, SearchPanel,
};
use sjnmusic::ranking::{PickResponse, RankedCandidate};
use sjnmusic::real64::Real64;
use sjnmusic::thumbnails::{decode_report, run_fetch, Fetched, ImageMessage};
use sjnmusic::tray::{
    build_menu, menu_event, paused_now, set_paused_hint, synth_icon, MenuEntry, PausedHint,
    TraySignals,
};
use sjnmusic::view::{
    initial_theme, load_persisted_theme, poll_once, poll_pause, tick_message, Route, Snapshot, Theme,
    TickMessage, ToastLevel, POLL_INTERVAL, POLL_SLICE,
};

const SEC: u64 = 1_000_000_000;

fn num(x: f64) -> Real64 {
    Real64 { bits: x.to_bits() }
}

fn song(id: i64, name: &str) -> Song {
    Song { id, name: name.to_string(), path: "/p".to_string(), duration_secs: None }
}

fn app() -> SJNMusicApp {
    SJNMusicApp::new("dark", STALE_AGE)
}

fn down() -> DaemonError {
    DaemonError::Transport("refused".to_string())
}

fn playing(paused: bool) -> NowPlaying {
    NowPlaying {
        current: Some(song(1, "Alpha")),
        queue_len: 0,
        elapsed_secs: num(1.0),
        duration_secs: None,
        paused,
        playing: true,
        volume: 1.0f32.to_bits(),
        repeat: "off".to_string(),
    }
}

fn queue(n: i64) -> QueueSnapshot {
    QueueSnapshot { queue: vec![song(n, "q")], current: None, repeat: "off".to_string() }
}

fn job(id: i64) -> DownloadJob {
    DownloadJob {
        id,
        name: "n".to_string(),
        status: "queued".to_string(),
        song_id: None,
        error: None,
        started_at: 0,
        finished_at: None,
        source: None,
    }
}

fn ranked(url: &str) -> RankedCandidate {
    RankedCandidate {
        base: YtCandidate {
            id: "i".to_string(),
            title: "t".to_string(),
            uploader: "Up".to_string(),
            duration_secs: num(61.0),
            url: url.to_string(),
            thumbnail: None,
            view_count: num(0.0),
        },
        score: 7,
        breakdown: None,
        flags: vec![],
    }
}

#[test]
fn durations_are_written() {
    assert_eq!(mmss(num(0.0)), "0:00");
    assert_eq!(mmss(num(61.4)), "1:01");
    assert_eq!(mmss(num(59.5)), "1:00");
    assert_eq!(mmss(num(-3.0)), "0:00");
    assert_eq!(mmss(num(f64::NAN)), "0:00");
    assert_eq!(mmss(num(3600.0)), "60:00");
    assert_eq!(big_secs(num(59.0)), "59s");
    assert_eq!(big_secs(num(125.0)), "2m 5s");
    assert_eq!(big_secs(num(7325.0)), "2h 2m");
}

#[test]
fn markup_is_escaped() {
    assert_eq!(escape_html("<a href=\"x\">&</a>'"), "&lt;a href=&quot;x&quot;&gt;&amp;&lt;/a&gt;'");
}

#[test]
fn dates_are_those_of_the_calendar() {
    assert_eq!(civil_from_days(0), (1970, 1, 1, 0, 0));
    assert_eq!(civil_from_days(-1), (1969, 12, 31, 0, 0));
    assert_eq!(civil_from_days(11016), (2000, 2, 29, 0, 0));
    assert_eq!(civil_from_days(11017), (2000, 3, 1, 0, 0));
    assert_eq!(civil_from_days(47540), (2100, 2, 28, 0, 0));
    assert_eq!(civil_from_days(47541), (2100, 3, 1, 0, 0));
    assert_eq!(civil_from_days(-719468), (0, 3, 1, 0, 0));
    assert_eq!(civil_from_days(-719529), (-1, 12, 31, 0, 0));
    assert_eq!(chrono_from_unix(1_700_000_000), "2023-11-14 22:13");
    assert_eq!(chrono_from_unix(3661), "1970-01-01 01:01");
    assert_eq!(chrono_from_unix(86399), "1970-01-01 23:59");
    assert_eq!(chrono_from_unix(86400), "1970-01-02 00:00");
    assert_eq!(chrono_from_unix(1), "1970-01-01 00:00");
    assert_eq!(chrono_from_unix(0), "(no date)");
    assert_eq!(chrono_from_unix(-5), "(no date)");
}

#[test]
fn themes_are_read_and_stored() {
    assert_eq!(Theme::from_str(" LIGHT\n"), Theme::Light);
    assert_eq!(Theme::from_str("solarized"), Theme::Dark);
    for t in [Theme::Dark, Theme::Light] {
        assert_eq!(Theme::from_str(t.as_str()), t);
        assert_eq!(load_persisted_theme(Some(t.as_str())), Some(t.as_str().to_string()));
    }
    assert_eq!(load_persisted_theme(Some("Light \n")), Some("light".to_string()));
    assert_eq!(load_persisted_theme(Some("?")), Some("dark".to_string()));
    assert_eq!(load_persisted_theme(None), None);
    assert_eq!(initial_theme(Some("a".to_string()), Some("b".to_string())), "a");
    assert_eq!(initial_theme(None, Some("b".to_string())), "b");
    assert_eq!(initial_theme(None, None), "dark");
}

#[test]
fn pages_have_titles_and_bookmarks() {
    assert_eq!(Route::SearchDownload.label(), "Search + Download");
    assert_eq!(Route::Library.as_hash(), "#library");
    assert_eq!(Route::SearchDownload.as_hash(), "#search");
    assert_eq!(Route::Playlist("a b".to_string()).as_hash(), "#playlist/a%20b");
    assert_eq!(Route::Playlist("a".to_string()).label(), "Playlist");
    assert!(Route::Playlist("a".to_string()).matches(&Route::Playlist("b".to_string())));
    assert!(!Route::Playlists.matches(&Route::Playlist("b".to_string())));
    let mut a = app();
    assert!(a.route_matches(&Route::Library));
    a.playlists_opened(Ok(vec![]));
    assert!(!a.needs_playlists());
    a.open(Route::Playlists);
    assert!(a.needs_playlists());
    assert!(a.route_matches(&Route::Playlists));
}

#[test]
fn notices_live_as_long_as_their_level_says() {
    let mut a = app();
    a.push_toast("info".to_string(), ToastLevel::Info, 10 * SEC);
    a.push_toast("warn".to_string(), ToastLevel::Warn, 10 * SEC);
    a.push_toast("error".to_string(), ToastLevel::Error, 10 * SEC);
    a.push_toast("good".to_string(), ToastLevel::Success, 10 * SEC);
    assert_eq!(a.toasts.iter().map(|t| t.id).collect::<Vec<_>>(), vec![1, 2, 3, 4]);
    a.gc_expired_toasts(13 * SEC - 1);
    assert_eq!(a.toasts.len(), 4);
    a.gc_expired_toasts(13 * SEC);
    assert_eq!(a.toasts.len(), 2);
    a.gc_expired_toasts(14 * SEC);
    assert_eq!(a.toasts[0].message, "error");
    a.gc_expired_toasts(15 * SEC);
    assert!(a.toasts.is_empty());
    assert_eq!(ToastLevel::Error.background(), (60, 30, 30));
    assert_eq!(ToastLevel::Info.background(), (24, 28, 36));
}

#[test]
fn polls_are_put_together() {
    let s = poll_once(Ok(playing(false)), Err(down()), Err(down()), 5).unwrap();
    assert!(s.now_playing.is_some() && s.queue.is_none() && s.downloads.is_empty());
    assert_eq!(s.fetched_at, 5);
    assert!(poll_once(Err(down()), Ok(queue(1)), Err(down()), 5).is_ok());
    assert!(poll_once(Err(down()), Err(down()), Ok(vec![job(1)]), 5).is_ok());
    assert!(poll_once(Err(down()), Err(down()), Ok(vec![]), 5).is_ok());
    let refused = DaemonError::Transport("refused".to_string());
    let e = poll_once(Err(refused), Err(down()), Err(down()), 5).unwrap_err();
    assert_eq!(e.message(), "transport: refused");
    match tick_message(Err(e)) {
        TickMessage::Offline(m) => assert_eq!(m, "transport: refused"),
        m => panic!("{:?}", m),
    }
    assert_eq!(poll_pause(0), (10, 0));
    assert_eq!(poll_pause(POLL_INTERVAL / 4), (7, POLL_SLICE / 2));
    assert_eq!(poll_pause(POLL_INTERVAL), (0, 0));
    assert_eq!(poll_pause(u64::MAX), (0, 0));
}

#[test]
fn reports_change_what_is_shown() {
    let mut a = app();
    assert!(!a.state.is_online());
    assert!(a.current_queue().is_none());
    let snap = Snapshot {
        fetched_at: 1,
        now_playing: Some(playing(true)),
        queue: Some(queue(1)),
        downloads: vec![job(1)],
    };
    a.set_downloads_override(vec![], STALE_AGE);
    assert!(a.current_downloads().is_empty());
    a.drain_tick(TickMessage::Online(snap), 1);
    assert!(a.state.is_online());
    assert!(paused_now(&a.paused_hint));
    assert_eq!(a.current_queue().unwrap().queue[0].id, 1);
    assert_eq!(a.current_downloads().len(), 1);
    let bare = Snapshot { fetched_at: 2, now_playing: None, queue: None, downloads: vec![] };
    a.take_over_queue();
    a.drain_tick(TickMessage::Online(bare), 2);
    assert_eq!(a.current_queue().unwrap().queue[0].id, 1);
    a.queue_refreshed(Ok(queue(2)), 3);
    assert_eq!(a.current_queue().unwrap().queue[0].id, 2);
    a.drain_tick(TickMessage::Offline("gone".to_string()), 4);
    assert!(!a.state.is_online());
    assert_eq!(a.state.last_error(), Some("gone".to_string()));
    assert!(a.state.snapshot().now_playing.is_none());
    assert_eq!(a.current_queue().unwrap().queue[0].id, 2);
    let snap = Snapshot {
        fetched_at: 5,
        now_playing: Some(playing(false)),
        queue: Some(queue(3)),
        downloads: vec![],
    };
    a.drain_tick(TickMessage::Online(snap), 5);
    assert_eq!(a.state.last_error(), None);
    assert_eq!(a.current_queue().unwrap().queue[0].id, 3);
    assert!(!paused_now(&a.paused_hint));
}

#[test]
fn background_results_end_the_loading() {
    let mut a = app();
    assert!(a.needs_library(false));
    assert!(!a.needs_library(true));
    match a.filter_changed() {
        Some(LibraryFetch::All) => {}
        f => panic!("{:?}", f),
    }
    assert!(a.filter_changed().is_none());
    assert_eq!(a.library_message(), Some("(daemon offline — can't load library)"));
    a.state.set_online(true);
    assert_eq!(a.library_message(), Some("(loading…)"));
    a.drain_background_results(Some(vec![]), None);
    assert_eq!(a.library_message(), Some("No songs yet — head to Search + Download."));
    a.drain_background_results(Some(vec![song(1, "a"), song(2, "b")]), Some(vec![ranked("u")]));
    assert_eq!(a.library_message(), None);
    assert_eq!(a.search_results.len(), 1);
    a.library_query = "x".to_string();
    match a.filter_changed() {
        Some(LibraryFetch::Matching(q)) => assert_eq!(q, "x"),
        f => panic!("{:?}", f),
    }
    a.song_deleted(1, "a", 0);
    assert_eq!(a.library_songs.len(), 1);
    assert_eq!(a.toasts[0].message, "Deleted \"a\"");
    a.song_queued("b", 0);
    assert_eq!(a.toasts[1].message, "Queued \"b\"");
}

#[test]
fn pictures_are_asked_for_once() {
    let mut a = app();
    assert!(a.request_thumb("http://x"));
    assert!(!a.request_thumb("http://x"));
    assert!(a.request_thumb("http://y"));
}

#[test]
fn failed_actions_are_shown_where_the_daemon_is_away() {
    let mut a = app();
    a.action_failed("/skip", &DaemonError::Api { status: 400, message: "no".to_string() }, 0);
    assert!(a.toasts.is_empty());
    a.action_failed("/skip", &down(), 0);
    assert_eq!(a.toasts[0].message, "action /skip failed: transport: refused");
    assert_eq!(a.toasts[0].level, ToastLevel::Warn);
}

#[test]
fn downloads_are_fetched_anew_after_a_while() {
    let mut a = app();
    assert!(a.downloads_refresh_due(STALE_AGE));
    a.set_downloads_override(vec![], STALE_AGE);
    assert_eq!(a.last_downloads_refresh(), STALE_AGE);
    assert!(!a.downloads_refresh_due(STALE_AGE + 4 * SEC));
    assert!(a.downloads_refresh_due(STALE_AGE + 4 * SEC + 1));
}

#[test]
fn the_footer_says_what_plays() {
    let mut np = playing(false);
    assert_eq!(np.title(), "Alpha");
    assert_eq!(np.status(), "playing");
    assert!(!np.shows_play());
    assert_eq!(np.toggle_path(), "/pause");
    np.paused = true;
    assert_eq!(np.status(), "paused");
    assert!(np.shows_play());
    assert_eq!(np.toggle_path(), "/resume");
    np.paused = false;
    np.playing = false;
    np.current = None;
    assert_eq!(np.status(), "idle");
    assert_eq!(np.title(), "(nothing playing)");
    assert!(np.shows_play());
}

#[test]
fn playlists_are_named() {
    assert_eq!(entered_name("  a "), Some("a".to_string()));
    assert_eq!(entered_name("  "), None);
    assert_eq!(rename_target("a", " a "), None);
    assert_eq!(rename_target("a", " b "), Some("b".to_string()));
    assert_eq!(rename_target("a", ""), None);
    assert_eq!(copy_name("a"), "a (copy)");
    assert_eq!(move_positions(0, 3, true), Some((1, 2)));
    assert_eq!(move_positions(2, 3, true), None);
    assert_eq!(move_positions(2, 3, false), Some((3, 2)));
    assert_eq!(move_positions(0, 3, false), None);
}

#[test]
fn playlist_pages_follow_their_buttons() {
    let pl = |n: &str| Playlist { id: 1, name: n.to_string(), songs: vec![song(1, "a")] };
    let mut a = app();
    a.new_playlist_name = "  Mix ".to_string();
    assert_eq!(a.create_playlist_pressed(0), Some("Mix".to_string()));
    assert_eq!(a.toasts[0].message, "Creating \"Mix\"…");
    a.playlist_created(Err(down()), 0);
    assert_eq!(a.new_playlist_name, "  Mix ");
    assert_eq!(a.toasts[1].message, "Create failed: transport: refused");
    assert_eq!(a.toasts[1].level, ToastLevel::Error);
    a.playlist_created(Ok(()), 0);
    assert_eq!(a.new_playlist_name, "");
    assert_eq!(a.create_playlist_pressed(0), None);
    a.playlists_refreshed(Ok(vec![pl("x"), pl("y"), pl("x")]), 0);
    a.playlists_refreshed(Err(down()), 0);
    assert_eq!(a.toasts[2].message, "Refresh failed: transport: refused");
    a.listed_playlist_deleted("x", 0);
    assert_eq!(a.playlists_data.len(), 1);
    assert_eq!(playlist_meta(&a.playlists_data[0]), "1 songs");

    assert!(a.needs_playlist("y"));
    a.open(Route::Playlist("y".to_string()));
    a.playlist_fetched("y", Ok(pl("y")), 0);
    assert!(!a.needs_playlist("y"));
    assert_eq!(a.add_to_playlist_pressed("y", " s ", 0), Some("s".to_string()));
    assert_eq!(a.toasts.last().unwrap().message, "Added \"s\" to y");
    a.song_removed("y", "s", 0);
    assert!(a.needs_playlist("y"));
    a.playlist_fetched("y", Ok(pl("y")), 0);
    a.playlist_reordered("y");
    assert!(a.needs_playlist("y"));
    a.playlist_renamed("y", "z", 0);
    assert_eq!(a.route.as_hash(), "#playlist/z");
    assert_eq!(a.toasts.last().unwrap().message, "Renamed \"y\" → \"z\"");
    a.playlist_duplicated("z (copy)", 0);
    assert_eq!(a.route.as_hash(), "#playlist/z%20%28copy%29");
    assert_eq!(a.toasts.last().unwrap().message, "Duplicated → \"z (copy)\"");
    a.playlist_deleted("z", 0);
    assert_eq!(a.route.as_hash(), "#playlists");
    a.playlist_fetched("gone", Err(down()), 0);
    assert_eq!(a.toasts.last().unwrap().message, "Open \"gone\" failed: transport: refused");
}

#[test]
fn searches_and_picks_run_their_course() {
    let mut a = app();
    assert!(a.start_search().is_none());
    assert!(a.start_smart_pick().is_none());
    a.search_q = " song ".to_string();
    assert_eq!(a.start_search(), Some(("song".to_string(), 9)));
    assert!(matches!(a.search_panel(false), SearchPanel::Searching));
    assert!(matches!(a.search_panel(true), SearchPanel::Prompt));
    a.drain_background_results(None, Some(vec![ranked("u")]));
    assert!(matches!(a.search_panel(false), SearchPanel::Results));
    assert!(a.offers_smart_pick());
    assert_eq!(a.start_smart_pick(), Some(("song".to_string(), 9, 30)));
    assert!(!a.offers_smart_pick());
    let unsure = PickResponse::NeedsChoice {
        candidates: vec![ranked("v"), ranked("w")],
        top_score: 1,
        runner_up_score: 1,
        margin: 0,
    };
    assert!(matches!(a.finish_smart_pick(Ok(unsure)), PickOutcome::Choose));
    assert_eq!(a.search_results.len(), 2);
    assert!(!a.search_picking);
    let sure = PickResponse::Auto {
        url: "http://v".to_string(),
        title: "t".to_string(),
        uploader: "u".to_string(),
        score: 90,
        duration_secs: num(1.0),
        flags: vec![],
        decision: None,
    };
    match a.finish_smart_pick(Ok(sure)) {
        PickOutcome::Download(u) => assert_eq!(u, "http://v"),
        o => panic!("{:?}", o),
    }
    assert!(matches!(a.finish_smart_pick(Err(down())), PickOutcome::Nothing));
    let c = ranked("u");
    assert_eq!(a.start_download(&c), (" song ".to_string(), "u".to_string()));
    match a.search_panel(false) {
        SearchPanel::Confirmation(t) => {
            assert_eq!(t, "Queued \" song \". Watch Downloads for live status.")
        }
        p => panic!("{:?}", p),
    }
    a.clear_search();
    assert!(matches!(a.search_panel(false), SearchPanel::Prompt));
    assert_eq!(a.search_q, "");
}

#[test]
fn cards_and_rows_are_written() {
    assert_eq!(score_text(7), "score +7");
    assert_eq!(score_text(0), "score +0");
    assert_eq!(score_text(-12), "score -12");
    assert_eq!(candidate_meta(&ranked("u")), "Up  (1:01)");
    assert_eq!(score_color(100), (140, 220, 160));
    assert_eq!(score_color(30), (220, 220, 220));
    assert_eq!(score_color(0), (220, 200, 140));
    assert_eq!(score_color(-1), (220, 140, 140));
    assert_eq!(flag_chip("official"), "\u{2705} official");
    assert_eq!(flag_chip("cover"), "cover");
    assert_eq!(flag_color("official-upload"), (140, 220, 160));
    assert_eq!(flag_color("karaoke"), (220, 140, 140));
    assert_eq!(flag_color("short"), (220, 180, 140));
    assert_eq!(flag_color("cover"), (180, 180, 180));
    assert_eq!(badge_color("done"), Some((80, 180, 110)));
    assert_eq!(badge_color("other"), None);
    let mut j = job(1);
    assert_eq!(download_result(&j), "-");
    assert_eq!(download_source_text(&j), "-");
    j.error = Some("boom".to_string());
    assert_eq!(download_result(&j), "boom");
    j.song_id = Some(4);
    assert_eq!(download_result(&j), "song 4");
    let mut s = song(3, "a");
    assert_eq!(song_meta(&s), "id 3");
    s.duration_secs = Some(num(61.0));
    assert_eq!(song_meta(&s), "id 3 · 1:01");
    let h = HistoryEntry {
        id: 1,
        song_id: 2,
        song_name: None,
        played_at: 0,
        duration_secs_played: 0,
    };
    assert_eq!(history_title(&h), "(missing song)");
}

#[test]
fn history_and_stats_report_their_failures() {
    let mut a = app();
    a.history_fetched(Err(down()), false, 0);
    a.history_fetched(Err(down()), true, 0);
    a.stats_fetched(Err(down()), false, 0);
    let texts: Vec<&str> = a.toasts.iter().map(|t| t.message.as_str()).collect();
    assert_eq!(
        texts,
        vec![
            "History failed: transport: refused",
            "Refresh failed: transport: refused",
            "Stats failed: transport: refused"
        ]
    );
    a.stats_fetched(Ok(Stats { total_plays: 1, total_secs: 2, top_songs: vec![] }), true, 0);
    assert_eq!(a.stats_data.unwrap().total_plays, 1);
}

#[test]
fn the_tray_menu_does_what_it_says() {
    match build_menu(true)[0] {
        MenuEntry::Item { id, label } => assert_eq!((id, label), ("pause", "Resume")),
        e => panic!("{:?}", e),
    }
    assert_eq!(build_menu(false).len(), 6);
    let mut hint = PausedHint { paused: false };
    let mut sig = TraySignals::new();
    assert_eq!(menu_event("pause", &hint, &mut sig), Some("/pause"));
    set_paused_hint(&mut hint, true);
    assert_eq!(menu_event("pause", &hint, &mut sig), Some("/resume"));
    assert_eq!(menu_event("skip", &hint, &mut sig), Some("/skip"));
    assert_eq!(menu_event("other", &hint, &mut sig), None);
    assert_eq!(sig.take(), (false, false));
    assert_eq!(menu_event("show", &hint, &mut sig), None);
    assert_eq!(menu_event("quit", &hint, &mut sig), None);
    assert_eq!(sig.take(), (true, true));
    assert_eq!(sig.take(), (false, false));
}

#[test]
fn the_icon_is_a_triangle() {
    let icon = synth_icon();
    assert_eq!(icon.len(), 1024);
    let at = |x: usize, y: usize| &icon[(y * 16 + x) * 4..(y * 16 + x) * 4 + 4];
    assert_eq!(at(0, 0), [15, 17, 21, 255]);
    assert_eq!(at(7, 8), [108, 178, 255, 255]);
    assert_eq!(at(13, 14), [108, 178, 255, 255]);
    assert_eq!(at(14, 14), [15, 17, 21, 255]);
    assert_eq!(at(7, 15), [15, 17, 21, 255]);
}

#[test]
fn pictures_are_decoded() {
    // A picture of one red pixel.
    let png: Vec<u8> = vec![
        137, 80, 78, 71, 13, 10, 26, 10, 0, 0, 0, 13, 73, 72, 68, 82, 0, 0, 0, 1, 0, 0, 0, 1, 8, 2,
        0, 0, 0, 144, 119, 83, 222, 0, 0, 0, 12, 73, 68, 65, 84, 120, 156, 99, 248, 207, 192, 0, 0,
        3, 1, 1, 0, 201, 254, 146, 239, 0, 0, 0, 0, 73, 69, 78, 68, 174, 66, 96, 130,
    ];
    match run_fetch("u".to_string(), Fetched::Bytes(png)) {
        ImageMessage::Loaded { url, image } => {
            assert_eq!(url, "u");
            assert_eq!((image.width, image.height), (1, 1));
            assert_eq!(image.rgba, vec![255, 0, 0, 255]);
        }
        m => panic!("{:?}", m),
    }
    match run_fetch("u".to_string(), Fetched::Bytes(vec![1, 2, 3])) {
        ImageMessage::Failed { url, error } => {
            assert_eq!(url, "u");
            assert!(error.starts_with("decode: "));
        }
        m => panic!("{:?}", m),
    }
    for (f, want) in [
        (Fetched::NoAnswer("x".to_string()), "download: x"),
        (Fetched::BrokeOff("y".to_string()), "read: y"),
    ] {
        match run_fetch("u".to_string(), f) {
            ImageMessage::Failed { error, .. } => assert_eq!(error, want),
            m => panic!("{:?}", m),
        }
    }
    match decode_report("u".to_string(), Err("bad".to_string())) {
        ImageMessage::Failed { error, .. } => assert_eq!(error, "decode: bad"),
        m => panic!("{:?}", m),
    }
}

#[test]
fn only_a_queue_that_was_taken_over_outlives_the_daemon() {
    let snap = || Snapshot {
        fetched_at: 1,
        now_playing: Some(playing(false)),
        queue: Some(queue(1)),
        downloads: vec![job(1)],
    };
    let mut a = app();
    a.drain_tick(TickMessage::Online(snap()), 1);
    a.drain_tick(TickMessage::Offline("gone".to_string()), 2);
    assert!(a.current_queue().is_none());
    assert!(a.current_downloads().is_empty());
    let mut a = app();
    a.drain_tick(TickMessage::Online(snap()), 1);
    a.take_over_queue();
    assert!(a.state.snapshot().now_playing.is_some());
    a.drain_tick(TickMessage::Offline("gone".to_string()), 2);
    assert_eq!(a.current_queue().unwrap().queue[0].id, 1);
    let mut a = app();
    a.drain_tick(TickMessage::Online(snap()), 1);
    let bare = Snapshot { fetched_at: 2, now_playing: None, queue: None, downloads: vec![] };
    a.drain_tick(TickMessage::Online(bare), 2);
    assert!(a.current_queue().is_none());
}

#[test]
fn the_space_bar_pauses_and_resumes() {
    let mut a = app();
    assert_eq!(a.space_pressed(false), None);
    for (paused, path) in [(false, "/pause"), (true, "/resume")] {
        let snap = Snapshot {
            fetched_at: 1,
            now_playing: Some(playing(paused)),
            queue: None,
            downloads: vec![],
        };
        a.drain_tick(TickMessage::Online(snap), 1);
        assert_eq!(a.space_pressed(false), Some(path));
        assert_eq!(a.space_pressed(true), None);
    }
}
