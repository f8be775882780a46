//! Requests: routes, parameters, bodies and their errors.

use sjnmusic::json::{parse_body, Json};
use sjnmusic::model::RepeatMode;
use sjnmusic::real64::Real64;
use sjnmusic::routes::{
    route_for, split_playlist_suffix, split_song_path, strip_prefix, AudioRoute, Method,
    PlaylistAction, Route,
};
use sjnmusic::server::{
    decode_request, download_source, failure_status, mode_from_body_or_default, name_and_url_from_body,
    name_from_body, new_name_from_body, param, parse_query, query_or_body, reorder_from_body,
    secs_from_body, songs_from_body, success_status, vol_from_body, ApiError, Request,
};

fn num(x: f64) -> Real64 {
    Real64 { bits: x.to_bits() }
}

fn body(s: &str) -> Result<Json, String> {
    parse_body(s)
}

fn ask(method: Method, url: &str, body: &str) -> Request {
    decode_request(&method, url, body, 3).unwrap()
}

fn refuse(method: Method, url: &str, body: &str) -> ApiError {
    decode_request(&method, url, body, 3).unwrap_err()
}

#[test]
fn plain_paths_are_routed() {
    let get = |p: &str| route_for(&Method::Get, p);
    let post = |p: &str| route_for(&Method::Post, p);
    assert!(matches!(get(""), Route::Help));
    assert!(matches!(get("/"), Route::Help));
    assert!(matches!(get("/help"), Route::Help));
    assert!(matches!(get("/songs"), Route::Songs));
    assert!(matches!(get("/songs//"), Route::Songs));
    assert!(matches!(get("/search"), Route::Search));
    assert!(matches!(post("/search"), Route::Search));
    assert!(matches!(get("/search/all"), Route::SearchAll));
    assert!(matches!(get("/search/yt"), Route::SearchYt));
    assert!(matches!(get("/search/yt/ranked"), Route::SearchYtRanked));
    assert!(matches!(get("/pick"), Route::Pick));
    assert!(matches!(get("/queue"), Route::Queue));
    assert!(matches!(get("/now-playing"), Route::NowPlaying));
    assert!(matches!(get("/downloads"), Route::Downloads));
    assert!(matches!(get("/history"), Route::History));
    assert!(matches!(get("/stats"), Route::Stats));
    assert!(matches!(post("/play"), Route::Play));
    assert!(matches!(post("/add"), Route::Add));
    assert!(matches!(post("/del"), Route::Del));
    assert!(matches!(post("/init"), Route::InitAsync));
    assert!(matches!(post("/init/batch"), Route::InitBatch));
    assert!(matches!(post("/skip"), Route::Skip));
    assert!(matches!(post("/queue/shuffle"), Route::QueueShuffle));
    assert!(matches!(post("/queue/clear"), Route::QueueClear));
    assert!(matches!(post("/pause"), Route::Audio(AudioRoute::Pause)));
    assert!(matches!(post("/resume"), Route::Audio(AudioRoute::Resume)));
    assert!(matches!(post("/seek"), Route::Audio(AudioRoute::Seek)));
    assert!(matches!(get("/repeat"), Route::RepeatGet));
    assert!(matches!(post("/repeat"), Route::RepeatSet));
    assert!(matches!(get("/volume"), Route::VolumeGet));
    assert!(matches!(post("/volume"), Route::VolumeSet));
    assert!(matches!(get("/playlists"), Route::PlaylistsList));
    assert!(matches!(post("/playlists"), Route::PlaylistCreate));
    assert!(matches!(get("/play"), Route::NotFound));
    assert!(matches!(post("/songs"), Route::NotFound));
    assert!(matches!(route_for(&Method::Put, "/queue"), Route::NotFound));
    assert!(matches!(route_for(&Method::Other("HEAD".to_string()), "/help"), Route::NotFound));
}

#[test]
fn playlist_paths_carry_names() {
    match route_for(&Method::Get, "/playlists/My Mix") {
        Route::PlaylistGet(n) => assert_eq!(n, "My Mix"),
        r => panic!("{:?}", r),
    }
    match route_for(&Method::Get, "/playlists/My Mix/add") {
        Route::NotFound => {}
        r => panic!("{:?}", r),
    }
    match route_for(&Method::Patch, "/playlists/a") {
        Route::PlaylistRename(n) => assert_eq!(n, "a"),
        r => panic!("{:?}", r),
    }
    assert!(matches!(route_for(&Method::Patch, "/playlists/a/play"), Route::NotFound));
    match route_for(&Method::Delete, "/playlists/a") {
        Route::PlaylistDelete(n) => assert_eq!(n, "a"),
        r => panic!("{:?}", r),
    }
    match route_for(&Method::Delete, "/playlists/a/songs/17") {
        Route::PlaylistRemoveSong(n, id) => {
            assert_eq!(n, "a");
            assert_eq!(id, 17);
        }
        r => panic!("{:?}", r),
    }
    match route_for(&Method::Delete, "/playlists/a/songs/x") {
        Route::PlaylistDelete(n) => assert_eq!(n, "a/songs/x"),
        r => panic!("{:?}", r),
    }
    match route_for(&Method::Post, "/playlists/a/add") {
        Route::PlaylistAdd(n) => assert_eq!(n, "a"),
        r => panic!("{:?}", r),
    }
    match route_for(&Method::Post, "/playlists/a/play/") {
        Route::PlaylistPlay(n) => assert_eq!(n, "a"),
        r => panic!("{:?}", r),
    }
    match route_for(&Method::Post, "/playlists/a/reorder") {
        Route::PlaylistReorder(n) => assert_eq!(n, "a"),
        r => panic!("{:?}", r),
    }
    match route_for(&Method::Post, "/playlists/a/duplicate") {
        Route::PlaylistDuplicate(n) => assert_eq!(n, "a"),
        r => panic!("{:?}", r),
    }
    assert!(matches!(route_for(&Method::Post, "/playlists/a"), Route::NotFound));
}

#[test]
fn paths_are_taken_apart() {
    assert_eq!(strip_prefix("/playlists/", "/playlists/x"), "x");
    let (name, action) = split_playlist_suffix("x/duplicate");
    assert_eq!(name, "x");
    assert!(matches!(action, PlaylistAction::Duplicate));
    let (name, action) = split_playlist_suffix("x");
    assert_eq!(name, "x");
    assert!(matches!(action, PlaylistAction::Whole));
    assert_eq!(split_song_path("a/songs/-4"), Some(("a".to_string(), -4)));
    assert_eq!(split_song_path("a/songs/"), None);
    assert_eq!(split_song_path("a"), None);
}

#[test]
fn parameters_are_read_from_the_address() {
    let q = parse_query("/x?a=1&b=c%20d&novalue&e=f+g&a=2?z=9");
    assert_eq!(param(&q, "b"), Some("c d".to_string()));
    assert_eq!(param(&q, "e"), Some("f g".to_string()));
    assert_eq!(param(&q, "novalue"), None);
    assert_eq!(param(&q, "a"), Some("2".to_string()));
    assert_eq!(param(&q, "z"), None);
    assert!(parse_query("/x").is_empty());
    assert_eq!(param(&parse_query("/x?k=v=w"), "k"), Some("v=w".to_string()));
}

#[test]
fn queries_come_from_parameter_or_body() {
    let none = parse_query("/x");
    let some = parse_query("/x?q=hello");
    let empty = parse_query("/x?q=");
    assert_eq!(query_or_body(&some, &body("{bad")), Ok("hello".to_string()));
    assert_eq!(query_or_body(&empty, &body("{\"song\": \"s\"}")), Ok("s".to_string()));
    assert_eq!(
        query_or_body(&none, &body("{\"query\": \"\", \"name\": \"n\"}")),
        Ok("n".to_string())
    );
    assert_eq!(query_or_body(&none, &body("")), Err("missing 'query' parameter".to_string()));
    assert_eq!(query_or_body(&none, &body("[]")), Err("missing 'query' parameter".to_string()));
    let e = query_or_body(&none, &body("{")).unwrap_err();
    assert!(e.starts_with("invalid JSON body: "));
}

#[test]
fn names_come_from_the_body() {
    assert_eq!(name_from_body(&body("{\"song\": \"s\", \"name\": \"n\"}")), Ok("n".to_string()));
    assert_eq!(
        name_from_body(&body("{\"name\": 3}")),
        Err("missing 'name' or 'song' in body".to_string())
    );
    assert_eq!(new_name_from_body(&body("{\"new_name\": \"n\"}")), Ok("n".to_string()));
    assert_eq!(new_name_from_body(&body("{}")), Err("missing 'name' in body".to_string()));
    assert_eq!(
        name_and_url_from_body(&body("{\"song\": \"s\", \"url\": \" http://x \"}")),
        Ok(("s".to_string(), Some("http://x".to_string())))
    );
    assert_eq!(
        name_and_url_from_body(&body("{\"song\": \"s\", \"url\": \"  \"}")),
        Ok(("s".to_string(), None))
    );
    assert_eq!(
        songs_from_body(&body("{\"songs\": [\"a\", \"\", 3, \"b\"]}")),
        Ok(vec!["a".to_string(), "b".to_string()])
    );
    assert_eq!(
        songs_from_body(&body("{\"songs\": [\"\"]}")),
        Err("missing 'songs' array in body".to_string())
    );
}

#[test]
fn numbers_come_from_the_body() {
    assert_eq!(secs_from_body(&body("{\"secs\": 12.5}")), Ok(num(12.5)));
    assert_eq!(secs_from_body(&body("{\"secs\": \"x\", \"pos\": 3}")), Ok(num(3.0)));
    assert_eq!(secs_from_body(&body("{}")), Err("missing 'secs' in body".to_string()));
    assert_eq!(vol_from_body(&body("{\"v\": 1}")), Ok(num(1.0)));
    assert_eq!(vol_from_body(&body("{}")), Err("missing 'volume' in body".to_string()));
    assert_eq!(vol_from_body(&body("3")), Err("expected JSON object".to_string()));
    assert_eq!(reorder_from_body(&body("{\"from\": 2, \"to\": 1}")), Ok((2, 1)));
    assert_eq!(
        reorder_from_body(&body("{\"to\": 1}")),
        Err("missing integer 'from'".to_string())
    );
    assert_eq!(
        reorder_from_body(&body("{\"from\": 1, \"to\": 1.5}")),
        Err("missing integer 'to'".to_string())
    );
    assert_eq!(reorder_from_body(&body("null")), Err("expected JSON object".to_string()));
}

#[test]
fn modes_come_from_the_body() {
    assert_eq!(mode_from_body_or_default(&body("{\"mode\": \" ALL \"}")), Ok(RepeatMode::All));
    assert_eq!(
        mode_from_body_or_default(&body("{\"mode\": \"twice\"}")),
        Err("invalid mode: twice".to_string())
    );
    assert_eq!(
        mode_from_body_or_default(&body("{}")),
        Err("missing 'mode' in body".to_string())
    );
    assert_eq!(
        mode_from_body_or_default(&body("")),
        Err("expected JSON object".to_string())
    );
}

#[test]
fn requests_are_decoded() {
    match ask(Method::Get, "/songs?q=a", "") {
        Request::Songs(q) => assert_eq!(q, Some("a".to_string())),
        r => panic!("{:?}", r),
    }
    match ask(Method::Get, "/search/yt?q=a&limit=7", "") {
        Request::SearchYt(q, n) => {
            assert_eq!(q, "a");
            assert_eq!(n, 7);
        }
        r => panic!("{:?}", r),
    }
    match ask(Method::Get, "/search/yt/ranked?q=a&limit=x", "") {
        Request::SearchYtRanked(q, n) => {
            assert_eq!(q, "a");
            assert_eq!(n, 3);
        }
        r => panic!("{:?}", r),
    }
    match ask(Method::Get, "/pick?q=a&margin=-5", "") {
        Request::Pick(q, n, m) => {
            assert_eq!(q, "a");
            assert_eq!(n, 3);
            assert_eq!(m, -5);
        }
        r => panic!("{:?}", r),
    }
    match ask(Method::Get, "/pick?q=a&margin=99999999999", "") {
        Request::Pick(_, _, m) => assert_eq!(m, 30),
        r => panic!("{:?}", r),
    }
    match ask(Method::Get, "/history", "") {
        Request::History(n) => assert_eq!(n, 50),
        r => panic!("{:?}", r),
    }
    match ask(Method::Post, "/init", "{\"song\": \"s\"}") {
        Request::Init(name, source) => {
            assert_eq!(name, "s");
            assert_eq!(source, "ytsearch1:s");
        }
        r => panic!("{:?}", r),
    }
    match ask(Method::Post, "/play?q=direct", "{") {
        Request::Play(q) => assert_eq!(q, "direct"),
        r => panic!("{:?}", r),
    }
    match ask(Method::Post, "/playlists/p/reorder", "{\"from\": 1, \"to\": 2}") {
        Request::PlaylistReorder(n, a, b) => {
            assert_eq!(n, "p");
            assert_eq!((a, b), (1, 2));
        }
        r => panic!("{:?}", r),
    }
    assert_eq!(download_source("n", Some("u".to_string())), "u");
    assert_eq!(download_source("n", None), "ytsearch1:n");
}

#[test]
fn requests_are_refused() {
    let e = refuse(Method::Get, "/nowhere?x=1", "");
    assert_eq!(e.status, 404);
    assert_eq!(e.error, "no route for GET /nowhere");
    let e = refuse(Method::Other("TRACE".to_string()), "/help", "");
    assert_eq!(e.error, "no route for TRACE /help");
    let e = refuse(Method::Get, "/search", "{\"query\": \"ignored\"}");
    assert_eq!(e.status, 400);
    assert_eq!(e.error, "missing 'query' parameter");
    let e = refuse(Method::Post, "/playlists/p/reorder", "");
    assert_eq!(e.status, 400);
    assert_eq!(e.error, "expected JSON object");
}

#[test]
fn replies_have_statuses() {
    assert_eq!(success_status(&Request::Queue), 200);
    assert_eq!(success_status(&Request::Init("a".to_string(), "b".to_string())), 202);
    assert_eq!(success_status(&Request::InitBatch(vec!["a".to_string()])), 202);
    assert_eq!(failure_status(&Request::Search("a".to_string()), "song not found: a"), 404);
    assert_eq!(failure_status(&Request::Add("a".to_string()), "queue full (3 of 3)"), 413);
    assert_eq!(failure_status(&Request::Add("a".to_string()), "song not found: a"), 400);
    assert_eq!(failure_status(&Request::Skip, "queue full"), 400);
}
