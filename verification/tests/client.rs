//! The client's requests, and that the daemon understands them.

use sjnmusic::client::{
    api_error, decode_error, read_api_error, ApiCall, DaemonClient, DaemonError, DEFAULT_TIMEOUT_MS,
    SEARCH_TIMEOUT_MS,
};
use sjnmusic::json::{parse_body, Json};
use sjnmusic::real64::Real64;
use sjnmusic::routes::Method;
use sjnmusic::server::{decode_parsed, Request};

fn client() -> DaemonClient {
    DaemonClient::new("127.0.0.1", 14567)
}

fn understood(call: ApiCall) -> Request {
    decode_parsed(&call.method, &call.path, &Ok(call.body), 3).unwrap()
}

#[test]
fn addresses_are_put_together() {
    let c = client();
    assert_eq!(c.base(), "http://127.0.0.1:14567");
    assert_eq!(c.url(&c.queue()), "http://127.0.0.1:14567/queue");
}

#[test]
fn plain_requests_are_understood() {
    let c = client();
    assert!(matches!(understood(c.help()), Request::Help));
    assert!(matches!(understood(c.now_playing()), Request::NowPlaying));
    assert!(matches!(understood(c.queue()), Request::Queue));
    assert!(matches!(understood(c.downloads()), Request::Downloads));
    assert!(matches!(understood(c.songs()), Request::Songs(None)));
    assert!(matches!(understood(c.history(100)), Request::History(100)));
    assert!(matches!(understood(c.stats()), Request::Stats));
    assert!(matches!(understood(c.playlists()), Request::PlaylistsList));
    assert!(matches!(understood(c.volume_info()), Request::VolumeGet));
    assert!(matches!(understood(c.repeat_mode()), Request::RepeatGet));
    assert!(matches!(understood(c.pause()), Request::Pause));
    assert!(matches!(understood(c.resume()), Request::Resume));
    assert!(matches!(understood(c.skip()), Request::Skip));
    assert!(matches!(understood(c.shuffle()), Request::QueueShuffle));
    assert!(matches!(understood(c.clear()), Request::QueueClear));
}

#[test]
fn queries_reach_the_daemon_as_typed() {
    let c = client();
    let q = "Bonez MC & RAF: \"Palmen\" / 100% ü";
    for (call, want) in [(c.search(q), "s"), (c.search_all(q), "a")] {
        match understood(call) {
            Request::Search(t) => {
                assert_eq!(want, "s");
                assert_eq!(t, q);
            }
            Request::SearchAll(t) => {
                assert_eq!(want, "a");
                assert_eq!(t, q);
            }
            r => panic!("{:?}", r),
        }
    }
    match understood(c.search_yt(q, 7)) {
        Request::SearchYt(t, n) => assert_eq!((t.as_str(), n), (q, 7)),
        r => panic!("{:?}", r),
    }
    match understood(c.search_yt_ranked(q, 9)) {
        Request::SearchYtRanked(t, n) => assert_eq!((t.as_str(), n), (q, 9)),
        r => panic!("{:?}", r),
    }
    match understood(c.pick(q, 9, Some(-4))) {
        Request::Pick(t, n, m) => assert_eq!((t.as_str(), n, m), (q, 9, -4)),
        r => panic!("{:?}", r),
    }
    match understood(c.pick(q, 9, None)) {
        Request::Pick(_, _, m) => assert_eq!(m, 30),
        r => panic!("{:?}", r),
    }
    for call in [c.play(q), c.add(q), c.delete(q)] {
        match understood(call) {
            Request::Play(t) | Request::Add(t) | Request::Del(t) => assert_eq!(t, q),
            r => panic!("{:?}", r),
        }
    }
    assert_eq!(c.search_yt(q, 7).timeout_ms, SEARCH_TIMEOUT_MS);
    assert_eq!(c.search(q).timeout_ms, DEFAULT_TIMEOUT_MS);
}

#[test]
fn bodies_reach_the_daemon() {
    let c = client();
    let x = Real64 { bits: 12.5f64.to_bits() };
    match understood(c.seek(x)) {
        Request::Seek(s) => assert_eq!(s, x),
        r => panic!("{:?}", r),
    }
    match understood(c.set_volume(x)) {
        Request::VolumeSet(s) => assert_eq!(s, x),
        r => panic!("{:?}", r),
    }
    assert!(matches!(understood(c.set_repeat("one")), Request::RepeatSet(_)));
    match understood(c.init("n", Some("http://u"))) {
        Request::Init(n, s) => assert_eq!((n.as_str(), s.as_str()), ("n", "http://u")),
        r => panic!("{:?}", r),
    }
    match understood(c.init("n", None)) {
        Request::Init(n, s) => assert_eq!((n.as_str(), s.as_str()), ("n", "ytsearch1:n")),
        r => panic!("{:?}", r),
    }
    match understood(c.init_batch(&vec!["a".to_string(), "b".to_string()])) {
        Request::InitBatch(l) => assert_eq!(l, vec!["a", "b"]),
        r => panic!("{:?}", r),
    }
    match understood(c.create_playlist("p")) {
        Request::PlaylistCreate(n) => assert_eq!(n, "p"),
        r => panic!("{:?}", r),
    }
    let call = c.post_action("/skip", Json::Null);
    assert!(matches!(call.method, Method::Post));
    assert!(matches!(understood(call), Request::Skip));
}

#[test]
fn playlist_requests_are_understood() {
    let c = client();
    match understood(c.get_playlist("p")) {
        Request::PlaylistGet(n) => assert_eq!(n, "p"),
        r => panic!("{:?}", r),
    }
    match understood(c.delete_playlist("p")) {
        Request::PlaylistDelete(n) => assert_eq!(n, "p"),
        r => panic!("{:?}", r),
    }
    match understood(c.rename_playlist("p", "q")) {
        Request::PlaylistRename(a, b) => assert_eq!((a.as_str(), b.as_str()), ("p", "q")),
        r => panic!("{:?}", r),
    }
    match understood(c.duplicate_playlist("p", "q")) {
        Request::PlaylistDuplicate(a, b) => assert_eq!((a.as_str(), b.as_str()), ("p", "q")),
        r => panic!("{:?}", r),
    }
    match understood(c.add_to_playlist("p", "a b")) {
        Request::PlaylistAdd(a, b) => assert_eq!((a.as_str(), b.as_str()), ("p", "a b")),
        r => panic!("{:?}", r),
    }
    match understood(c.remove_from_playlist("p", 17)) {
        Request::PlaylistRemoveSong(a, b) => assert_eq!((a.as_str(), b), ("p", 17)),
        r => panic!("{:?}", r),
    }
    match understood(c.reorder_playlist("p", 2, 1)) {
        Request::PlaylistReorder(a, x, y) => assert_eq!((a.as_str(), x, y), ("p", 2, 1)),
        r => panic!("{:?}", r),
    }
    match understood(c.play_playlist("p")) {
        Request::PlaylistPlay(n) => assert_eq!(n, "p"),
        r => panic!("{:?}", r),
    }
    assert_eq!(c.get_playlist("a b/c").path, "/playlists/a%20b%2Fc");
}

#[test]
fn errors_are_shown() {
    assert_eq!(
        read_api_error(404, "{\"error\": \"song not found: x\"}").message(),
        "[404] song not found: x"
    );
    assert_eq!(read_api_error(500, "oops").message(), "[500] oops");
    assert_eq!(read_api_error(502, "").message(), "[502] HTTP 502");
    assert_eq!(
        api_error(400, "{}", &parse_body("{}")).message(),
        "[400] {}"
    );
    assert_eq!(DaemonError::Transport("refused".to_string()).message(), "transport: refused");
    assert_eq!(DaemonError::Decode("eof".to_string()).message(), "decode: eof");
}

#[test]
fn unreadable_answers_are_reported_with_their_text() {
    let e = decode_error("expected value", "<html>");
    assert!(matches!(&e, DaemonError::Decode(m) if m == "expected value: <html>"));
    assert_eq!(e.message(), "decode: expected value: <html>");
}

#[test]
fn positions_beyond_every_list_are_refused() {
    let call = client().reorder_playlist("p", 1, usize::MAX);
    match &call.body {
        Json::Object(m) => match &m[1].1 {
            Json::Number(None, Some(x)) => assert_eq!(f64::from_bits(x.bits), usize::MAX as f64),
            n => panic!("{:?}", n),
        },
        b => panic!("{:?}", b),
    }
    let e = decode_parsed(&call.method, &call.path, &Ok(call.body), 3).unwrap_err();
    assert_eq!((e.status, e.error.as_str()), (400, "missing integer 'to'"));
}
