//! Requests, from their beginning to their end.

use sjnmusic::audio::{AudioCmd, AudioStatus};
use sjnmusic::handler::{needs_library, Done, PlaylistRow, Reply, Step};
use sjnmusic::model::{RepeatMode, Song};
use sjnmusic::protocol::{command_request, Command};
use sjnmusic::real64::Real64;
use sjnmusic::routes::Method;
use sjnmusic::server::{decode_request, failure_status, Request};
use sjnmusic::state::DaemonState;
use sjnmusic::store::StoreOp;

fn song(id: i64, name: &str) -> Song {
    Song { id, name: name.to_string(), path: format!("/m/{id}.mp3"), duration_secs: None }
}

fn library() -> Vec<Song> {
    vec![song(1, "Alpha"), song(2, "Beta"), song(3, "Gamma")]
}

fn daemon(queue: Vec<Song>, max: usize) -> DaemonState {
    DaemonState::new(queue, Real64 { bits: 0.65f64.to_bits() }, max, RepeatMode::Off, 3)
}

fn ids(songs: &[Song]) -> Vec<i64> {
    songs.iter().map(|s| s.id).collect()
}

fn begin(d: &mut DaemonState, r: &Request) -> Step {
    d.begin(r, &library(), &AudioStatus::initial(), 0).unwrap()
}

fn carry_out(d: &mut DaemonState, r: &Request) -> (Vec<StoreOp>, Done) {
    let step = begin(d, r);
    let done = d.conclude(r, step.reply, Ok(()));
    (step.ops, done)
}

fn fail(d: &mut DaemonState, r: &Request) -> String {
    let step = begin(d, r);
    d.conclude(r, step.reply, Err("disk full".to_string())).reply.unwrap_err()
}

fn row(id: Option<i64>, songs: Vec<Song>) -> PlaylistRow {
    PlaylistRow { id, songs, affected: 0, made: 0, made_songs: Vec::new() }
}

fn text(s: &str) -> String {
    s.to_string()
}

fn get(url: &str) -> Request {
    decode_request(&Method::Get, url, "", 3).unwrap()
}

fn post(url: &str, body: &str) -> Request {
    decode_request(&Method::Post, url, body, 3).unwrap()
}

#[test]
fn questions_change_nothing() {
    let mut d = daemon(vec![song(2, "Beta")], 0);
    let (ops, done) = carry_out(&mut d, &get("/search?q=alpha"));
    assert!(ops.is_empty());
    assert!(matches!(done.reply, Ok(Reply::Song(s)) if s.id == 1));
    let (_, done) = carry_out(&mut d, &get("/search?q=zzz"));
    let e = done.reply.unwrap_err();
    assert_eq!(e, "song not found: zzz");
    assert_eq!(failure_status(&get("/search?q=zzz"), &e), 404);
    let (_, done) = carry_out(&mut d, &get("/search/all?q=beta"));
    assert!(matches!(done.reply, Ok(Reply::Matches(l)) if ids(&l) == [2]));
    let (_, done) = carry_out(&mut d, &get("/queue"));
    assert!(matches!(done.reply, Ok(Reply::Queue(q)) if ids(&q.queue) == [2] && q.repeat == "off"));
    let (_, done) = carry_out(&mut d, &get("/now-playing"));
    assert!(matches!(done.reply, Ok(Reply::NowPlaying(np)) if np.queue_len == 1 && !np.playing));
    let (_, done) = carry_out(&mut d, &get("/downloads"));
    assert!(matches!(done.reply, Ok(Reply::Downloads(l)) if l.is_empty()));
    let (_, done) = carry_out(&mut d, &get("/repeat"));
    assert!(matches!(done.reply, Ok(Reply::Mode(RepeatMode::Off))));
    let (_, done) = carry_out(&mut d, &get("/volume"));
    assert!(matches!(done.reply, Ok(Reply::Volume(v)) if f32::from_bits(v.volume) == 1.0));
    assert_eq!(ids(&d.queue), [2]);
}

#[test]
fn playing_remembers_the_round_once_it_is_stored() {
    let mut d = daemon(vec![song(2, "Beta")], 0);
    let play = post("/play", r#"{"query":"gamma"}"#);
    assert_eq!(fail(&mut d, &play), "disk full");
    assert!(d.cycle_snapshot.is_empty());
    let mut d = daemon(vec![song(2, "Beta")], 0);
    let (ops, done) = carry_out(&mut d, &play);
    assert_eq!(
        ops,
        [StoreOp::ClearQueue, StoreOp::AppendQueue(3), StoreOp::AppendQueue(2)]
    );
    assert!(matches!(done.reply, Ok(Reply::Song(s)) if s.id == 3));
    assert_eq!(ids(&d.queue), [3, 2]);
    assert_eq!(ids(&d.cycle_snapshot), [3, 2]);
}

#[test]
fn a_full_queue_takes_no_more() {
    let mut d = daemon(vec![song(2, "Beta")], 1);
    let add = post("/add", r#"{"query":"alpha"}"#);
    let (ops, done) = carry_out(&mut d, &add);
    assert!(ops.is_empty());
    let e = done.reply.unwrap_err();
    assert_eq!(e, "queue full (1 of 1)");
    assert_eq!(failure_status(&add, &e), 413);
    let mut d = daemon(vec![song(2, "Beta")], 2);
    let (ops, _) = carry_out(&mut d, &add);
    assert_eq!(ops, [StoreOp::AppendQueue(1)]);
    assert_eq!(ids(&d.queue), [2, 1]);
}

#[test]
fn deleting_takes_the_file_too() {
    let mut d = daemon(vec![song(1, "Alpha"), song(2, "Beta"), song(1, "Alpha")], 0);
    d.current = Some(song(1, "Alpha"));
    let del = post("/del", r#"{"query":"alpha"}"#);
    assert_eq!(fail(&mut d, &del), "disk full");
    assert_eq!(ids(&d.queue), [1, 2, 1]);
    let (ops, done) = carry_out(&mut d, &del);
    assert_eq!(ops, [StoreOp::DeleteSong(1)]);
    assert_eq!(done.remove, Some(text("/m/1.mp3")));
    assert_eq!(ids(&d.queue), [2]);
    assert!(d.current.is_none());
}

#[test]
fn skipping_gives_up_the_song_in_any_case() {
    let mut d = daemon(vec![song(1, "Alpha"), song(2, "Beta")], 0);
    d.current = Some(song(3, "Gamma"));
    let skip = post("/skip", "");
    let step = begin(&mut d, &skip);
    assert!(matches!(step.audio, Some(AudioCmd::Stop)));
    assert_eq!(step.ops, [StoreOp::RemoveFirst(1)]);
    let e = d.conclude(&skip, step.reply, Err(text("locked"))).reply.unwrap_err();
    assert_eq!(e, "failed to delete queue row from DB: locked");
    assert!(d.current.is_none());
    assert_eq!(ids(&d.queue), [1, 2]);
    let (_, done) = carry_out(&mut d, &skip);
    assert!(matches!(done.reply, Ok(Reply::Song(s)) if s.id == 1));
    assert_eq!(ids(&d.queue), [2]);
    let mut d = daemon(vec![], 0);
    let (ops, done) = carry_out(&mut d, &skip);
    assert!(ops.is_empty());
    assert!(matches!(done.reply, Ok(Reply::NothingSkipped)));
}

#[test]
fn the_queue_is_shuffled_and_cleared() {
    let mut d = daemon(library(), 0);
    let (ops, done) = carry_out(&mut d, &post("/queue/shuffle", ""));
    assert_eq!(ops.len(), 4);
    assert!(matches!(done.reply, Ok(Reply::Shuffled(r)) if r.shuffled && r.len == 3));
    assert_eq!(ids(&d.cycle_snapshot), ids(&d.queue));
    let (ops, done) = carry_out(&mut d, &post("/queue/clear", ""));
    assert_eq!(ops, [StoreOp::ClearQueue]);
    assert!(matches!(done.reply, Ok(Reply::Cleared)));
    assert!(d.queue.is_empty());
    let mut d = daemon(vec![song(1, "Alpha")], 0);
    let (ops, _) = carry_out(&mut d, &post("/queue/shuffle", ""));
    assert!(ops.is_empty());
    assert!(d.cycle_snapshot.is_empty());
}

#[test]
fn the_engine_is_told() {
    let mut d = daemon(vec![song(1, "Alpha")], 0);
    let step = begin(&mut d, &post("/pause", ""));
    assert!(matches!(step.audio, Some(AudioCmd::Pause)));
    assert!(matches!(step.reply, Ok(Reply::Told("pause"))));
    let step = begin(&mut d, &post("/resume", ""));
    assert!(matches!(step.audio, Some(AudioCmd::Resume)));
    assert!(matches!(step.reply, Ok(Reply::Told("resume"))));
    let step = begin(&mut d, &post("/seek", r#"{"secs":12.5}"#));
    let at = Real64 { bits: 12.5f64.to_bits() };
    assert!(matches!(step.audio, Some(AudioCmd::Seek(x)) if x == at));
    assert!(matches!(step.reply, Ok(Reply::Sought(x)) if x == at));
    let (_, done) = carry_out(&mut d, &post("/repeat", r#"{"mode":"all"}"#));
    assert!(matches!(done.reply, Ok(Reply::Mode(RepeatMode::All))));
    assert_eq!(ids(&d.cycle_snapshot), [1]);
    assert!(d.begin(&Request::Help, &library(), &AudioStatus::initial(), 0).is_none());
    assert!(d.begin_playlist(&Request::Help, &library(), row(None, vec![])).is_none());
}

#[test]
fn requests_for_playlists_are_carried_out() {
    let mut d = daemon(vec![song(1, "Alpha")], 0);
    let lib = library();
    let get_it = get("/playlists/mix");
    let step = d.begin_playlist(&get_it, &lib, row(None, vec![])).unwrap();
    assert_eq!(step.reply.unwrap_err(), "playlist not found: mix");
    let add = post("/playlists/mix/add", r#"{"query":"gamma"}"#);
    assert!(needs_library(&add));
    assert!(!needs_library(&get_it));
    let step = d.begin_playlist(&add, &lib, row(Some(7), vec![song(2, "Beta")])).unwrap();
    assert!(matches!(&step.playlist, Some((7, l)) if ids(l) == [2, 3]));
    assert!(matches!(&step.reply, Ok(Reply::PlaylistAdded(p, s)) if p.id == 7 && s.id == 3));
    let play = post("/playlists/mix/play", "");
    let step = d.begin_playlist(&play, &lib, row(Some(7), vec![song(2, "Beta")])).unwrap();
    assert_eq!(step.ops, [StoreOp::ClearQueue, StoreOp::AppendQueue(2)]);
    let done = d.conclude(&play, step.reply, Ok(()));
    assert!(matches!(done.reply, Ok(Reply::Playlist(p)) if p.name == "mix"));
    assert_eq!(ids(&d.queue), [2]);
    assert_eq!(ids(&d.cycle_snapshot), [2]);
    let make = post("/playlists", r#"{"name":"new"}"#);
    let mut made = row(None, vec![]);
    made.made = 9;
    let step = d.begin_playlist(&make, &lib, made).unwrap();
    assert!(matches!(step.reply, Ok(Reply::Playlist(p)) if p.id == 9 && p.songs.is_empty()));
    let copy = post("/playlists/mix/duplicate", r#"{"name":"new"}"#);
    let mut made = row(Some(7), vec![song(2, "Beta")]);
    made.made = 9;
    made.made_songs = vec![song(1, "Alpha")];
    let step = d.begin_playlist(&copy, &lib, made).unwrap();
    assert!(matches!(&step.playlist, Some((9, l)) if ids(l) == [1, 2]));
    assert!(matches!(&step.reply, Ok(Reply::Playlist(p)) if ids(&p.songs) == [2]));
    let order = Request::PlaylistReorder(text("mix"), 2, 1);
    let songs = vec![song(1, "Alpha"), song(2, "Beta")];
    let step = d.begin_playlist(&order, &lib, row(Some(7), songs)).unwrap();
    assert!(matches!(&step.playlist, Some((7, l)) if ids(l) == [2, 1]));
    let drop_it = Request::PlaylistRemoveSong(text("mix"), 5);
    let step = d.begin_playlist(&drop_it, &lib, row(Some(7), vec![])).unwrap();
    assert_eq!(step.reply.unwrap_err(), "song 5 not in playlist mix");
    let rename = Request::PlaylistRename(text("mix"), text("mash"));
    let mut renamed = row(None, vec![]);
    renamed.affected = 1;
    renamed.made = 7;
    let step = d.begin_playlist(&rename, &lib, renamed).unwrap();
    assert!(matches!(step.reply, Ok(Reply::Playlist(p)) if p.id == 7 && p.name == "mash"));
    let gone = Request::PlaylistDelete(text("mix"));
    let step = d.begin_playlist(&gone, &lib, row(None, vec![])).unwrap();
    assert_eq!(step.reply.unwrap_err(), "playlist not found: mix");
}

#[test]
fn socket_commands_stand_for_requests() {
    assert!(matches!(command_request(&Command::Play(text("a"))), Request::Play(q) if q == "a"));
    assert!(matches!(command_request(&Command::Add(text("a"))), Request::Add(q) if q == "a"));
    assert!(matches!(command_request(&Command::Del(text("a"))), Request::Del(q) if q == "a"));
    assert!(matches!(command_request(&Command::Search(text("a"))), Request::Search(q) if q == "a"));
    assert!(matches!(
        command_request(&Command::Init(text("a"))),
        Request::Init(n, s) if n == "a" && s == "ytsearch1:a"
    ));
}

/// Playlists as the database would keep them: name, id and songs.
struct Shelf {
    lists: Vec<(String, i64, Vec<Song>)>,
}

impl Shelf {
    fn at(&self, name: &str) -> Option<usize> {
        self.lists.iter().position(|l| l.0 == name)
    }

    fn create(&mut self, name: &str) -> i64 {
        match self.at(name) {
            Some(i) => self.lists[i].1,
            None => {
                let id = 100 + self.lists.len() as i64;
                self.lists.push((text(name), id, vec![]));
                id
            }
        }
    }

    fn found(&self, name: &str) -> PlaylistRow {
        match self.at(name) {
            Some(i) => row(Some(self.lists[i].1), self.lists[i].2.clone()),
            None => row(None, vec![]),
        }
    }

    fn carry_out(&mut self, d: &DaemonState, r: &Request, row: PlaylistRow) -> Reply {
        let step = d.begin_playlist(r, &library(), row).unwrap();
        if let Some((id, songs)) = step.playlist {
            for l in self.lists.iter_mut().filter(|l| l.1 == id) {
                l.2 = songs.clone();
            }
        }
        step.reply.unwrap()
    }

    fn shown(&mut self, d: &DaemonState, name: &str) -> Vec<i64> {
        let row = self.found(name);
        match self.carry_out(d, &Request::PlaylistGet(text(name)), row) {
            Reply::Playlist(p) => ids(&p.songs),
            r => panic!("{:?}", r),
        }
    }
}

#[test]
fn what_is_replied_of_a_playlist_is_read_back() {
    let d = daemon(vec![], 0);
    let mut shelf = Shelf { lists: vec![] };
    shelf.create("mix");
    shelf.create("other");
    for name in ["alpha", "gamma"] {
        let row = shelf.found("mix");
        shelf.carry_out(&d, &Request::PlaylistAdd(text("mix"), text(name)), row);
    }
    assert_eq!(shelf.shown(&d, "mix"), [1, 3]);
    let row = shelf.found("mix");
    shelf.carry_out(&d, &Request::PlaylistReorder(text("mix"), 2, 1), row);
    assert_eq!(shelf.shown(&d, "mix"), [3, 1]);
    let mut row = shelf.found("mix");
    row.made = shelf.create("copy");
    match shelf.carry_out(&d, &Request::PlaylistDuplicate(text("mix"), text("copy")), row) {
        Reply::Playlist(p) => {
            assert_eq!(p.name, "copy");
            assert_ne!(Some(p.id), shelf.found("mix").id);
            assert_eq!(ids(&p.songs), [3, 1]);
        }
        r => panic!("{:?}", r),
    }
    assert_eq!(shelf.shown(&d, "copy"), [3, 1]);
    let row = shelf.found("mix");
    shelf.carry_out(&d, &Request::PlaylistRemoveSong(text("mix"), 3), row);
    assert_eq!(shelf.shown(&d, "mix"), [1]);
    assert_eq!(shelf.shown(&d, "copy"), [3, 1]);
    assert!(shelf.shown(&d, "other").is_empty());
}
