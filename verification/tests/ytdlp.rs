//! What `yt-dlp` is asked for and what it prints.

use sjnmusic::json::parse_json;
use sjnmusic::model::YtCandidate;
use sjnmusic::ranking::{
    auto_pick_decision, enrich_with_view_counts, needs_view_counts, pick_best, pick_fetch_limit,
    rank_plan, rank_query, resolve_search_source, sort_by_score, view_count_ids, AutoPickDecision,
    PickResponse, RankedCandidate, AUTO_PICK_MARGIN, EQUIVALENT_MARGIN,
};
use sjnmusic::real64::Real64;
use sjnmusic::scoring::ScoreBreakdown;
use sjnmusic::youtube::{search_source_query, short_token, strip_official_suffix, ParsedQuery};
use sjnmusic::ytdlp::{
    check_download, download_args, downloaded_song, pick_thumbnail, pick_uploader, search_args,
    search_results, search_yt_sync, view_count_args, view_counts, DownloaderEnd,
};

fn num(x: f64) -> Real64 {
    Real64 { bits: x.to_bits() }
}

fn cand(id: &str, title: &str, uploader: &str) -> YtCandidate {
    YtCandidate {
        id: id.to_string(),
        title: title.to_string(),
        uploader: uploader.to_string(),
        duration_secs: num(200.0),
        url: format!("https://example/{id}"),
        thumbnail: None,
        view_count: num(0.0),
    }
}

fn rc(base: YtCandidate, score: i32) -> RankedCandidate {
    RankedCandidate {
        base,
        score,
        breakdown: Some(ScoreBreakdown { total: score, ..Default::default() }),
        flags: vec![],
    }
}

const LINES: &str = "{\"id\": \"a\", \"title\": \"T\", \"channel\": \" C \", \"duration\": 12, \"webpage_url\": \"w\", \"thumbnails\": [{\"url\": \"small\", \"height\": 10}, {\"url\": \"big\", \"height\": 90}, {\"url\": \"same\", \"height\": 90}]}\nnot json\n\n{\"id\": \"\", \"url\": \"u\"}\n{\"id\": \"b\", \"url\": \"u\", \"artist\": \"A\", \"channel\": \"C\"}\r\n{\"id\": \"c\"}\n";

#[test]
fn printed_candidates_are_read() {
    let list = search_results(LINES);
    assert_eq!(list.len(), 2);
    assert_eq!(list[0].id, "a");
    assert_eq!(list[0].title, "T");
    assert_eq!(list[0].uploader, "C");
    assert_eq!(list[0].duration_secs, num(12.0));
    assert_eq!(list[0].url, "w");
    assert_eq!(list[0].thumbnail, Some("big".to_string()));
    assert_eq!(list[1].id, "b");
    assert_eq!(list[1].title, "");
    assert_eq!(list[1].uploader, "A");
    assert_eq!(list[1].duration_secs, num(0.0));
    assert_eq!(list[1].thumbnail, None);
}

#[test]
fn a_search_fails_only_where_it_cannot_start() {
    assert_eq!(search_yt_sync(Ok("garbage".to_string())).unwrap().len(), 0);
    assert_eq!(
        search_yt_sync(Err("not found".to_string())).unwrap_err(),
        "yt-dlp unavailable: not found"
    );
}

#[test]
fn uploader_and_thumbnail_have_fallbacks() {
    let v = parse_json("{\"uploader\": \"U\", \"creator\": \"X\", \"channel\": \"  \"}").unwrap();
    assert_eq!(pick_uploader(&v), "U");
    assert_eq!(pick_uploader(&parse_json("{}").unwrap()), "");
    let v = parse_json("{\"thumbnails\": [{\"height\": 3}], \"thumbnail\": \"t\"}").unwrap();
    assert_eq!(pick_thumbnail(&v), Some("t".to_string()));
    let v = parse_json("{\"thumbnails\": []}").unwrap();
    assert_eq!(pick_thumbnail(&v), None);
}

#[test]
fn arguments_are_put_together() {
    assert_eq!(search_args("a b", 5), vec!["--no-warnings", "-j", "ytsearch5:a b"]);
    assert_eq!(search_args("a", 0), vec!["--no-warnings", "-j", "ytsearch1:a"]);
    assert_eq!(
        download_args("/x/y.mp3", "http://v"),
        vec!["-x", "--audio-format", "mp3", "-o", "/x/y.mp3", "http://v"]
    );
}

#[test]
fn downloads_are_judged_by_their_file() {
    assert_eq!(check_download(DownloaderEnd::Finished, "/p", true), Ok(()));
    assert_eq!(
        check_download(DownloaderEnd::Finished, "/p", false),
        Err("download finished but file missing: /p".to_string())
    );
    assert_eq!(
        check_download(DownloaderEnd::Failed("boom".to_string()), "/p", true),
        Err("yt-dlp failed: boom".to_string())
    );
    assert_eq!(
        check_download(DownloaderEnd::Unavailable("gone".to_string()), "/p", true),
        Err("yt-dlp unavailable: gone".to_string())
    );
    let s = downloaded_song(4, "n".to_string(), "/p".to_string());
    assert_eq!((s.id, s.name.as_str(), s.path.as_str()), (4, "n", "/p"));
    assert!(s.duration_secs.is_none());
}

#[test]
fn view_counts_are_read() {
    let counts = view_counts("{\"id\": \"a\", \"view_count\": 600000}\n{\"id\": \"b\"}\n{}\n");
    assert_eq!(counts.len(), 2);
    assert_eq!(counts[0], ("a".to_string(), num(600000.0)));
    assert_eq!(counts[1], ("b".to_string(), num(0.0)));
    let mut ranked = vec![rc(cand("a", "S", "x"), 50), rc(cand("b", "S", "y"), 50)];
    assert_eq!(view_count_ids(&ranked), vec!["a", "b"]);
    enrich_with_view_counts(&mut ranked, &counts);
    assert_eq!(ranked[0].base.view_count, num(600000.0));
    assert_eq!(ranked[1].base.view_count, num(0.0));
}

#[test]
fn queries_are_kept_as_typed() {
    let p = ParsedQuery::parse("  Artist | Title ").unwrap();
    assert_eq!(p.artist.as_deref(), Some("Artist"));
    assert_eq!(p.title, "Title");
    assert_eq!(p.raw, "  Artist | Title ");
    let p = ParsedQuery::parse("a - ").unwrap();
    assert_eq!(p.artist, None);
    assert_eq!(p.title, "a -");
    let p = ParsedQuery::parse("Artist:Title").unwrap();
    assert_eq!(p.artist.as_deref(), Some("Artist"));
    assert_eq!(strip_official_suffix("Song - Official Music Video"), "Song");
    assert_eq!(strip_official_suffix("Song official"), "Song official");
    assert_eq!(short_token("A b-c! 0123456789012345678901234"), "abc01234567890123456");
}

#[test]
fn plans_ask_for_more_than_is_wanted() {
    let plan = rank_plan("A - B", 1).unwrap();
    assert_eq!(plan.variants.len(), 4);
    assert_eq!(plan.per_variant_limit, 8);
    assert_eq!(rank_plan("A - B", 9).unwrap().per_variant_limit, 15);
    assert!(rank_plan("  ", 9).is_none());
    assert_eq!(pick_fetch_limit(0), 5);
    assert_eq!(pick_fetch_limit(9), 11);
}

#[test]
fn rankings_are_sorted_and_cut() {
    let fetched = vec![
        cand("1", "Haftbefehl - RADW (Lyric Video)", "Somebody"),
        cand("2", "Haftbefehl - RADW", "Haftbefehl - Topic"),
        cand("2", "Haftbefehl - RADW", "Haftbefehl - Topic"),
        cand("3", "Cooking Show", "Chef"),
    ];
    let all = rank_query("Haftbefehl - RADW", 0, fetched.clone());
    assert_eq!(all.len(), 3);
    assert_eq!(all[0].base.id, "2");
    assert!(all[0].score >= all[1].score && all[1].score >= all[2].score);
    assert_eq!(all[0].score, all[0].breakdown.unwrap().total);
    assert!(all[1].flags.contains(&"fan-upload".to_string()));
    assert_eq!(rank_query("Haftbefehl - RADW", 2, fetched.clone()).len(), 2);
    assert!(rank_query("   ", 2, fetched).is_empty());
}

#[test]
fn picks_are_answered() {
    match pick_best("a \"b\"", 1, AUTO_PICK_MARGIN, vec![], &vec![]) {
        PickResponse::Empty { query, message } => {
            assert_eq!(query, "a \"b\"");
            assert_eq!(message, "no yt-dlp results for \"a \\\"b\\\"\"");
        }
        r => panic!("{:?}", r),
    }
    match pick_best("a", 1, AUTO_PICK_MARGIN, vec![rc(cand("1", "S", "x"), 100)], &vec![]) {
        PickResponse::Auto { url, score, decision, .. } => {
            assert_eq!(url, "https://example/1");
            assert_eq!(score, 100);
            assert!(decision.is_none());
        }
        r => panic!("{:?}", r),
    }
    let close = vec![rc(cand("1", "S", "x"), 100), rc(cand("2", "Other", "y"), 90)];
    let picked = pick_best("a", 1, AUTO_PICK_MARGIN, close, &vec![]);
    match &picked {
        PickResponse::NeedsChoice { candidates, top_score, runner_up_score, margin } => {
            assert_eq!(candidates.len(), 1);
            assert_eq!((*top_score, *runner_up_score, *margin), (100, 90, 10));
        }
        r => panic!("{:?}", r),
    }
    assert_eq!(
        resolve_search_source("ytsearch1:a", &picked),
        Some("https://example/1".to_string())
    );
    assert_eq!(resolve_search_source("https://direct", &picked), None);
    assert_eq!(resolve_search_source("ytsearch5:a", &picked), None);
    assert_eq!(search_source_query("ytsearch1: q"), Some(" q".to_string()));
    assert_eq!(search_source_query("ytsearch1:  "), None);
}

#[test]
fn view_counts_can_settle_a_pick() {
    let close = vec![rc(cand("1", "Same Song", "x"), 100), rc(cand("2", "Same Song", "y"), 89)];
    let counts = vec![("1".to_string(), num(6_000_000.0)), ("2".to_string(), num(30_000.0))];
    match pick_best("a", 1, AUTO_PICK_MARGIN, close, &counts) {
        PickResponse::Auto { score, decision, .. } => {
            assert_eq!(score, 106);
            let meta = decision.unwrap();
            assert_eq!(meta.margin, 17);
            assert_eq!(meta.required_margin, EQUIVALENT_MARGIN);
        }
        r => panic!("{:?}", r),
    }
}

#[test]
fn only_the_very_next_upload_relaxes_the_margin() {
    let list = vec![
        rc(cand("1", "Song A", "x"), 100),
        rc(cand("2", "Song B", "y"), 85),
        rc(cand("3", "Song A", "z"), 60),
    ];
    assert_eq!(auto_pick_decision(&list, AUTO_PICK_MARGIN), AutoPickDecision::NoPick);
    let list = vec![
        rc(cand("1", "Song A", "x"), 100),
        rc(cand("2", "Song A", "y"), 85),
        rc(cand("3", "Song A", "z"), 60),
    ];
    match auto_pick_decision(&list, AUTO_PICK_MARGIN) {
        AutoPickDecision::Auto(m) => assert_eq!(m.equivalent_count, 2),
        AutoPickDecision::NoPick => panic!("a pick"),
    }
}

#[test]
fn equal_scores_keep_their_order() {
    let mut list = vec![
        rc(cand("a", "A", "u"), 10),
        rc(cand("b", "B", "u"), 30),
        rc(cand("c", "C", "u"), 10),
    ];
    sort_by_score(&mut list);
    let ids: Vec<&str> = list.iter().map(|r| r.base.id.as_str()).collect();
    assert_eq!(ids, ["b", "a", "c"]);
}

#[test]
fn view_counts_are_wanted_where_the_choice_is_open() {
    let one = vec![rc(cand("a", "A", "u"), 100)];
    assert!(!needs_view_counts(&one, 20));
    let close = vec![rc(cand("a", "A", "u"), 100), rc(cand("b", "B", "u"), 99)];
    assert!(needs_view_counts(&close, 20));
    let clear = vec![rc(cand("a", "A", "u"), 200), rc(cand("b", "B", "u"), 10)];
    assert!(!needs_view_counts(&clear, 20));
}

#[test]
fn view_counts_are_looked_up_by_address() {
    let ids = vec!["a1".to_string(), "b2".to_string()];
    assert_eq!(
        view_count_args(&ids),
        [
            "--no-warnings",
            "-j",
            "https://www.youtube.com/watch?v=a1",
            "https://www.youtube.com/watch?v=b2"
        ]
    );
    assert_eq!(view_count_args(&vec![]), ["--no-warnings", "-j"]);
}
