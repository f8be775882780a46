//! The queue, the library, downloads and playlists.

use sjnmusic::model::{DownloadJob, RepeatMode, Song};
use sjnmusic::playback::{tick, tick_removal, EngineReport};
use sjnmusic::playlists::{
    create_playlist, delete_playlist, duplicate_playlist, get_playlist, remove_from_playlist,
    rename_playlist, reorder_playlist,
};
use sjnmusic::downloads::batch_sources;
use sjnmusic::real64::Real64;
use sjnmusic::state::DaemonState;
use sjnmusic::store::{like_pattern, rewrite_queue, StoreOp};

fn song(id: i64, name: &str) -> Song {
    Song { id, name: name.to_string(), path: format!("/m/{id}.mp3"), duration_secs: None }
}

fn library() -> Vec<Song> {
    vec![song(1, "Alpha"), song(2, "Beta Song"), song(3, "beta song"), song(4, "Gamma")]
}

fn daemon(queue: Vec<Song>) -> DaemonState {
    DaemonState::new(queue, Real64 { bits: 0.65f64.to_bits() }, 0, RepeatMode::Off, 3)
}

fn ids(songs: &[Song]) -> Vec<i64> {
    songs.iter().map(|s| s.id).collect()
}

const IDLE: EngineReport =
    EngineReport { playing: false, pending: false, failed: false, elapsed_secs: 0 };
const PENDING: EngineReport =
    EngineReport { playing: false, pending: true, failed: false, elapsed_secs: 0 };
const PLAYING: EngineReport =
    EngineReport { playing: true, pending: false, failed: false, elapsed_secs: 5 };
const FAILED: EngineReport =
    EngineReport { playing: false, pending: false, failed: true, elapsed_secs: 0 };

/// The stored queue, as the database would keep it.
fn store(rows: &mut Vec<i64>, op: StoreOp) {
    match op {
        StoreOp::ClearQueue => rows.clear(),
        StoreOp::AppendQueue(id) => rows.push(id),
        StoreOp::RemoveFirst(id) => {
            if let Some(i) = rows.iter().position(|r| *r == id) {
                rows.remove(i);
            }
        }
        StoreOp::DeleteSong(id) => rows.retain(|r| *r != id),
        StoreOp::AddHistory(_, _, _) => {}
    }
}

/// One step of the playback loop, with its writes.
fn step(s: &mut DaemonState, rows: &mut Vec<i64>, e: EngineReport) -> (Vec<StoreOp>, Option<String>) {
    let mut done = Vec::new();
    if let Some(op) = tick_removal(s, e) {
        store(rows, op);
        done.push(op);
    }
    let plan = tick(s, e, true, 1000);
    for op in &plan.ops {
        store(rows, *op);
        done.push(*op);
    }
    assert_eq!(&ids(&s.queue), rows);
    (done, plan.play)
}

#[test]
fn exact_names_win_over_similar_ones() {
    let s = daemon(vec![]);
    assert_eq!(s.search(&library(), "BETA song").unwrap().id, 2);
    assert_eq!(s.search(&library(), "gama").unwrap().id, 4);
    assert!(s.search(&library(), "zzzz").is_none());
    let all = s.search_all(&library(), "beta song");
    assert_eq!(ids(&all)[..2], [3, 2]);
}

#[test]
fn all_matches_are_those_that_match() {
    let s = daemon(vec![]);
    for q in ["beta song", "alfa", "GAMMA", "zzzz", ""] {
        let all = s.search_all(&library(), q);
        let mut seen = ids(&all);
        seen.sort();
        seen.dedup();
        assert_eq!(seen.len(), all.len());
        match s.search(&library(), q) {
            Some(best) => assert!(seen.contains(&best.id)),
            None => assert!(all.is_empty()),
        }
    }
    assert_eq!(ids(&s.search_all(&library(), "gamma")), [4]);
}

#[test]
fn playing_puts_a_song_in_front() {
    let mut s = daemon(vec![song(4, "Gamma")]);
    let (played, ops) = s.play(&library(), "alpha").unwrap();
    assert_eq!(played.id, 1);
    assert_eq!(ids(&s.queue), vec![1, 4]);
    assert_eq!(ops, vec![StoreOp::ClearQueue, StoreOp::AppendQueue(1), StoreOp::AppendQueue(4)]);
    s.remember_cycle();
    assert_eq!(ids(&s.cycle_snapshot), vec![1, 4]);
    assert_eq!(s.play(&library(), "zzzz").unwrap_err(), "song not found: zzzz");
}

#[test]
fn adding_honours_the_limit() {
    let mut s = daemon(vec![]);
    s.max_queue_size = 1;
    let (added, op) = s.add(&library(), "gamma").unwrap();
    assert_eq!(added.id, 4);
    assert_eq!(op, StoreOp::AppendQueue(4));
    assert_eq!(s.add(&library(), "alpha").unwrap_err(), "queue full (1 of 1)");
    let mut s = daemon(vec![]);
    assert_eq!(s.add(&library(), "zzzz").unwrap_err(), "song not found: zzzz");
}

#[test]
fn deleting_takes_a_song_out_everywhere() {
    let mut s = daemon(vec![song(1, "Alpha"), song(4, "Gamma"), song(1, "Alpha")]);
    s.current = Some(song(1, "Alpha"));
    let (gone, op) = s.delete(&library(), "alpha").unwrap();
    assert_eq!(gone.id, 1);
    assert_eq!(op, StoreOp::DeleteSong(1));
    s.forget(1);
    assert_eq!(ids(&s.queue), vec![4]);
    assert!(s.current.is_none());
    assert_eq!(s.delete(&library(), "zzzz").unwrap_err(), "song not found: zzzz");
}

#[test]
fn shuffles_keep_the_songs() {
    let songs: Vec<Song> = (0..200).map(|i| song(i, "x")).collect();
    let mut s = daemon(songs.clone());
    let ops = s.shuffle_queue().unwrap();
    assert_eq!(ops.len(), 201);
    let mut after = ids(&s.queue);
    assert_ne!(after, ids(&songs), "two hundred songs hardly stay in place");
    after.sort();
    assert_eq!(after, ids(&songs));
    let mut one = daemon(vec![song(1, "a")]);
    assert!(one.shuffle_queue().is_none());
    let (order, ops) = s.play_all_random(library()).unwrap();
    assert_eq!(ops.len(), 5);
    let mut sorted = ids(&order);
    sorted.sort();
    assert_eq!(sorted, vec![1, 2, 3, 4]);
    s.load_queue(order.clone());
    assert_eq!(ids(&s.queue), ids(&order));
    assert_eq!(ids(&s.cycle_snapshot), ids(&order));
    assert_eq!(s.play_all_random(vec![]).unwrap_err(), "library is empty");
}

#[test]
fn the_head_is_popped_once_its_row_is_gone() {
    let mut s = daemon(vec![song(1, "a"), song(2, "b")]);
    assert_eq!(s.head_removal(), Some(StoreOp::RemoveFirst(1)));
    assert_eq!(
        s.pop_played(Err("locked".to_string())).unwrap_err(),
        "failed to delete queue row from DB: locked"
    );
    assert_eq!(s.pop_played(Ok(())).unwrap().unwrap().id, 1);
    s.current = Some(song(1, "a"));
    assert_eq!(s.skip(Ok(())).unwrap().unwrap().id, 2);
    assert!(s.current.is_none());
    assert!(s.skip(Ok(())).unwrap().is_none());
    assert_eq!(s.head_removal(), None);
    assert_eq!(s.clear_queue(), StoreOp::ClearQueue);
}

#[test]
fn a_queue_plays_through() {
    let mut rows = vec![1, 2];
    let mut s = daemon(vec![song(1, "a"), song(2, "b")]);
    let (ops, play) = step(&mut s, &mut rows, IDLE);
    assert!(ops.is_empty());
    assert_eq!(play, Some("/m/1.mp3".to_string()));
    assert_eq!(step(&mut s, &mut rows, PENDING), (vec![], None));
    assert_eq!(step(&mut s, &mut rows, PLAYING), (vec![StoreOp::RemoveFirst(1)], None));
    assert_eq!(step(&mut s, &mut rows, PLAYING), (vec![], None));
    assert_eq!(rows, vec![2]);
    let ended = EngineReport { elapsed_secs: 42, ..IDLE };
    let (ops, play) = step(&mut s, &mut rows, ended);
    assert_eq!(ops, vec![StoreOp::AddHistory(1, 1000, 42)]);
    assert_eq!(play, Some("/m/2.mp3".to_string()));
    assert_eq!(rows, vec![2]);
}

#[test]
fn songs_that_fail_are_not_noted() {
    let mut rows = vec![1];
    let mut s = daemon(vec![song(1, "a")]);
    step(&mut s, &mut rows, IDLE);
    let (ops, play) = step(&mut s, &mut rows, FAILED);
    assert_eq!(ops, vec![StoreOp::RemoveFirst(1)]);
    assert_eq!(play, None);
    assert!(s.current.is_none());
}

#[test]
fn repeating_one_plays_it_again() {
    let mut rows = vec![1];
    let mut s = daemon(vec![song(1, "a")]);
    s.set_repeat(RepeatMode::One);
    for _ in 0..3 {
        let (_, play) = step(&mut s, &mut rows, IDLE);
        assert_eq!(play, Some("/m/1.mp3".to_string()));
        step(&mut s, &mut rows, PLAYING);
    }
}

#[test]
fn repeating_all_plays_the_same_round() {
    let mut rows = vec![1, 2];
    let mut s = daemon(vec![song(1, "a"), song(2, "b")]);
    s.set_repeat(RepeatMode::All);
    assert_eq!(ids(&s.cycle_snapshot), vec![1, 2]);
    let mut heard = Vec::new();
    for _ in 0..6 {
        let (_, play) = step(&mut s, &mut rows, IDLE);
        heard.push(play.unwrap());
        step(&mut s, &mut rows, PLAYING);
    }
    assert_eq!(
        heard,
        vec!["/m/1.mp3", "/m/2.mp3", "/m/1.mp3", "/m/2.mp3", "/m/1.mp3", "/m/2.mp3"]
    );
}

#[test]
fn downloads_are_tracked() {
    let mut s = daemon(vec![]);
    let a = s.start_download("one", "ytsearch1:one", 10);
    let b = s.start_download("two", "http://x", 20);
    assert_eq!((a, b), (1, 2));
    s.mark_running(a);
    s.finish_download(a, Ok(7), 30);
    s.finish_download(b, Err("boom".to_string()), 40);
    s.mark_running(99);
    let list: Vec<DownloadJob> = s.list_downloads();
    assert_eq!(list[0].id, 2);
    assert_eq!(list[0].status, "failed");
    assert_eq!(list[0].error, Some("boom".to_string()));
    assert_eq!(list[0].source, Some("http://x".to_string()));
    assert_eq!(list[0].finished_at, Some(40));
    assert_eq!(list[1].id, 1);
    assert_eq!(list[1].status, "done");
    assert_eq!(list[1].song_id, Some(7));
    assert_eq!(list[1].started_at, 10);
    assert_eq!(
        batch_sources(&vec!["a".to_string(), "b c".to_string()]),
        vec!["ytsearch1:a", "ytsearch1:b c"]
    );
}

#[test]
fn playlists_are_changed() {
    let songs = vec![song(1, "a"), song(2, "b"), song(3, "c")];
    let pl = get_playlist(Some(5), "p", songs.clone()).unwrap();
    assert_eq!((pl.id, pl.name.as_str(), ids(&pl.songs)), (5, "p", vec![1, 2, 3]));
    assert_eq!(get_playlist(None, "p", vec![]).unwrap_err(), "playlist not found: p");
    assert!(create_playlist(6, "q").songs.is_empty());
    assert_eq!(delete_playlist(1, "p"), Ok(()));
    assert_eq!(delete_playlist(0, "p"), Err("playlist not found: p".to_string()));
    let pl = remove_from_playlist(Some(5), "p", &songs, 2).unwrap();
    assert_eq!(ids(&pl.songs), vec![1, 3]);
    assert_eq!(
        remove_from_playlist(Some(5), "p", &songs, 9).unwrap_err(),
        "song 9 not in playlist p"
    );
    assert_eq!(
        remove_from_playlist(None, "p", &songs, 2).unwrap_err(),
        "playlist not found: p"
    );
    let pl = rename_playlist(1, 5, "p", "q", songs.clone()).unwrap();
    assert_eq!(pl.name, "q");
    assert_eq!(
        rename_playlist(0, 5, "p", "q", vec![]).unwrap_err(),
        "playlist not found: p"
    );
    let pl = duplicate_playlist(Some(5), "p", 8, "copy", songs.clone()).unwrap();
    assert_eq!((pl.id, pl.name.as_str(), ids(&pl.songs)), (8, "copy", vec![1, 2, 3]));
    assert_eq!(
        duplicate_playlist(None, "p", 8, "copy", vec![]).unwrap_err(),
        "playlist not found: p"
    );
}

#[test]
fn playlists_are_reordered() {
    let songs = vec![song(1, "a"), song(2, "b"), song(3, "c"), song(4, "d")];
    let order = |from: usize, to: usize| {
        reorder_playlist(Some(5), "p", &songs, from, to).map(|pl| ids(&pl.songs))
    };
    assert_eq!(order(1, 3), Ok(vec![2, 3, 1, 4]));
    assert_eq!(order(4, 1), Ok(vec![4, 1, 2, 3]));
    assert_eq!(order(2, 2), Ok(vec![1, 2, 3, 4]));
    assert_eq!(order(0, 1), Err("positions are 1-based".to_string()));
    assert_eq!(order(1, 0), Err("positions are 1-based".to_string()));
    assert_eq!(order(5, 1), Err("position out of range (playlist has 4 songs)".to_string()));
    assert_eq!(
        reorder_playlist(None, "p", &songs, 1, 2).unwrap_err(),
        "playlist not found: p"
    );
}

#[test]
fn playlists_are_filled_and_played() {
    let s = daemon(vec![song(9, "z")]);
    let (pl, added) =
        s.add_to_playlist(&library(), "gamma", Some(5), "p", &vec![song(1, "Alpha")]).unwrap();
    assert_eq!(added.id, 4);
    assert_eq!(ids(&pl.songs), vec![1, 4]);
    assert_eq!(
        s.add_to_playlist(&library(), "zzzz", Some(5), "p", &vec![]).unwrap_err(),
        "song not found: zzzz"
    );
    assert_eq!(
        s.add_to_playlist(&library(), "gamma", None, "p", &vec![]).unwrap_err(),
        "playlist not found: p"
    );
    let (pl, ops) = s.play_playlist(Some(5), "p", library()).unwrap();
    assert_eq!(ids(&pl.songs), vec![1, 2, 3, 4]);
    assert_eq!(ops, rewrite_queue(&library()));
    assert_eq!(
        s.play_playlist(None, "p", vec![]).unwrap_err(),
        "playlist not found: p"
    );
}

#[test]
fn search_patterns_are_escaped() {
    assert_eq!(like_pattern("100%_\\"), "%100\\%\\_\\\\%");
    assert_eq!(like_pattern(""), "%%");
}
