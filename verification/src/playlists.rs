//! What requests do to playlists. The rows of the database are handed in; the
//! new order of a playlist is handed out.

use vstd::prelude::*;

use crate::model::{clone_songs, Playlist, Song};
use crate::state::{not_found_message, songs_without, without_song, DaemonState};
use crate::store::{ids_of, rewrite_of, rewrite_queue, StoreOp};
use crate::text::{concat2, concat3, decimal, decimal_i64, decimal_int, decimal_u64};

verus! {

/// The message for a playlist that is not there.
pub open spec fn no_playlist(name: Seq<char>) -> Seq<char> {
    "playlist not found: "@ + name
}

/// The playlist with its id, its name and its songs.
pub open spec fn is_playlist(p: Playlist, id: i64, name: Seq<char>, songs: Seq<Song>) -> bool {
    p.id == id && p.name@ == name && p.songs@ == songs
}

/// Hands out a playlist that was looked up by its name.
pub fn get_playlist(id: Option<i64>, name: &str, songs: Vec<Song>) -> (r: Result<Playlist, String>)
    ensures
        match r {
            Ok(p) => id matches Some(i) && is_playlist(p, i, name@, songs@),
            Err(e) => id is None && e@ == no_playlist(name@),
        },
{
    match id {
        Some(id) => Ok(Playlist { id, name: String::from_str(name), songs }),
        None => Err(concat2("playlist not found: ", name)),
    }
}

/// A playlist that was just created: it has no songs.
pub fn create_playlist(id: i64, name: &str) -> (r: Playlist)
    ensures
        is_playlist(r, id, name@, Seq::empty()),
{
    let songs: Vec<Song> = Vec::new();
    assert(songs@ =~= Seq::<Song>::empty());
    Playlist { id, name: String::from_str(name), songs }
}

/// Concludes the deletion of a playlist, given how many rows it deleted.
pub fn delete_playlist(affected: usize, name: &str) -> (r: Result<(), String>)
    ensures
        match r {
            Ok(()) => affected > 0,
            Err(e) => affected == 0 && e@ == no_playlist(name@),
        },
{
    if affected == 0 {
        Err(concat2("playlist not found: ", name))
    } else {
        Ok(())
    }
}

/// The message for a song that is not in a playlist.
pub open spec fn not_in_playlist(song: i64, name: Seq<char>) -> Seq<char> {
    "song "@ + decimal_int(song as int) + " not in playlist "@ + name
}

/// Takes every row of a song out of a playlist.
pub fn remove_from_playlist(id: Option<i64>, name: &str, songs: &Vec<Song>, song_id: i64) -> (r: Result<
    Playlist,
    String,
>)
    ensures
        match r {
            Ok(p) => id matches Some(i) && ids_of(songs@).contains(song_id) && is_playlist(
                p,
                i,
                name@,
                without_song(songs@, song_id),
            ),
            Err(e) => if id is None {
                e@ == no_playlist(name@)
            } else {
                !ids_of(songs@).contains(song_id) && e@ == not_in_playlist(song_id, name@)
            },
        },
{
    match id {
        None => Err(concat2("playlist not found: ", name)),
        Some(id) => {
            let mut i: usize = 0;
            while i < songs.len() && songs[i].id != song_id
                invariant
                    i <= songs@.len(),
                    forall|k: int| 0 <= k < i ==> ids_of(songs@)[k] != song_id,
                decreases songs@.len() - i,
            {
                assert(ids_of(songs@)[i as int] == songs@[i as int].id);
                i += 1;
            }
            if i == songs.len() {
                let n = decimal_i64(song_id);
                let head = concat3("song ", n.as_str(), " not in playlist ");
                return Err(concat2(head.as_str(), name));
            }
            assert(ids_of(songs@)[i as int] == song_id);
            Ok(Playlist { id, name: String::from_str(name), songs: songs_without(songs, song_id) })
        },
    }
}

/// The songs with the one at `from` moved to `to`; positions count from one.
pub open spec fn moved(songs: Seq<Song>, from: int, to: int) -> Seq<Song> {
    songs.remove(from - 1).insert(to - 1, songs[from - 1])
}

/// The message for a position outside a playlist.
pub open spec fn out_of_range(len: nat) -> Seq<char> {
    "position out of range (playlist has "@ + decimal(len) + " songs)"@
}

/// Moves a song of a playlist to another position; positions count from one.
pub fn reorder_playlist(
    id: Option<i64>,
    name: &str,
    songs: &Vec<Song>,
    from: usize,
    to: usize,
) -> (r: Result<Playlist, String>)
    ensures
        match r {
            Ok(p) => 1 <= from <= songs@.len() && 1 <= to <= songs@.len() && (id matches Some(i)
                && is_playlist(p, i, name@, moved(songs@, from as int, to as int))),
            Err(e) => if from == 0 || to == 0 {
                e@ == "positions are 1-based"@
            } else if id is None {
                e@ == no_playlist(name@)
            } else {
                (from > songs@.len() || to > songs@.len()) && e@ == out_of_range(songs@.len())
            },
        },
{
    if from == 0 || to == 0 {
        return Err(String::from_str("positions are 1-based"));
    }
    match id {
        None => Err(concat2("playlist not found: ", name)),
        Some(id) => {
            if from > songs.len() || to > songs.len() {
                let n = decimal_u64(songs.len() as u64);
                return Err(concat3("position out of range (playlist has ", n.as_str(), " songs)"));
            }
            let mut order = clone_songs(songs);
            let song = order.remove(from - 1);
            order.insert(to - 1, song);
            assert(order@ =~= moved(songs@, from as int, to as int));
            Ok(Playlist { id, name: String::from_str(name), songs: order })
        },
    }
}

/// Moving a song and moving it back leaves the playlist as it was, and moving
/// keeps every song. The other songs keep their order: without the song that
/// moved, the playlist is what it was without it.
pub proof fn lemma_moved(songs: Seq<Song>, from: int, to: int)
    requires
        1 <= from <= songs.len(),
        1 <= to <= songs.len(),
    ensures
        moved(songs, from, to).len() == songs.len(),
        moved(songs, from, to)[to - 1] == songs[from - 1],
        moved(moved(songs, from, to), to, from) == songs,
        moved(songs, from, to).to_multiset() == songs.to_multiset(),
        moved(songs, from, to).remove(to - 1) == songs.remove(from - 1),
{
    let m = moved(songs, from, to);
    assert(m.remove(to - 1) =~= songs.remove(from - 1));
    assert(moved(m, to, from) =~= songs);
    let r = songs.remove(from - 1);
    vstd::seq_lib::to_multiset_remove(songs, from - 1);
    vstd::seq_lib::to_multiset_insert(r, to - 1, songs[from - 1]);
    songs.to_multiset_ensures();
    assert(songs.contains(songs[from - 1]));
    assert(songs.to_multiset().remove(songs[from - 1]).insert(songs[from - 1])
        =~= songs.to_multiset()) by {
        broadcast use vstd::multiset::group_multiset_axioms;
    }
}

/// Where each song stands after a move: the moved one at its new position, those
/// between the two positions one place nearer to the old one, and all others
/// where they stood.
pub proof fn lemma_moved_places(songs: Seq<Song>, from: int, to: int, k: int)
    requires
        1 <= from <= songs.len(),
        1 <= to <= songs.len(),
        1 <= k <= songs.len(),
    ensures
        k == to ==> moved(songs, from, to)[k - 1] == songs[from - 1],
        from <= k < to ==> moved(songs, from, to)[k - 1] == songs[k],
        to < k <= from ==> moved(songs, from, to)[k - 1] == songs[k - 2],
        (k < from && k < to) || (k > from && k > to) ==> moved(songs, from, to)[k - 1]
            == songs[k - 1],
{
}

/// Concludes the renaming of a playlist, given how many rows it changed, and
/// the id and the songs of the playlist with the new name.
pub fn rename_playlist(affected: usize, id: i64, old_name: &str, new_name: &str, songs: Vec<Song>) -> (r:
    Result<Playlist, String>)
    ensures
        match r {
            Ok(p) => affected > 0 && is_playlist(p, id, new_name@, songs@),
            Err(e) => affected == 0 && e@ == no_playlist(old_name@),
        },
{
    if affected == 0 {
        Err(concat2("playlist not found: ", old_name))
    } else {
        Ok(Playlist { id, name: String::from_str(new_name), songs })
    }
}

/// Concludes the copying of a playlist: the copy has the songs of the source.
pub fn duplicate_playlist(source: Option<i64>, name: &str, copy: i64, copy_name: &str, songs: Vec<Song>)
    -> (r: Result<Playlist, String>)
    ensures
        match r {
            Ok(p) => source is Some && is_playlist(p, copy, copy_name@, songs@),
            Err(e) => source is None && e@ == no_playlist(name@),
        },
{
    match source {
        Some(_) => Ok(Playlist { id: copy, name: String::from_str(copy_name), songs }),
        None => Err(concat2("playlist not found: ", name)),
    }
}

impl DaemonState {
    /// Finds the song that a query asks to add to a playlist, and the playlist
    /// with the song at its end.
    pub fn add_to_playlist(
        &self,
        library: &Vec<Song>,
        query: &str,
        id: Option<i64>,
        name: &str,
        songs: &Vec<Song>,
    ) -> (r: Result<(Playlist, Song), String>)
        ensures
            match r {
                Ok((p, song)) => crate::state::best_match(
                    library@,
                    query@,
                    self.fuzzy_threshold,
                ) == Some(song) && (id matches Some(i) && is_playlist(
                    p,
                    i,
                    name@,
                    songs@.push(song),
                )),
                Err(e) => if crate::state::best_match(
                    library@,
                    query@,
                    self.fuzzy_threshold,
                ) is None {
                    e@ == not_found_message(query@)
                } else {
                    id is None && e@ == no_playlist(name@)
                },
            },
    {
        match self.search(library, query) {
            None => Err(concat2("song not found: ", query)),
            Some(song) => match id {
                None => Err(concat2("playlist not found: ", name)),
                Some(id) => {
                    let mut list = clone_songs(songs);
                    list.push(song.clone());
                    Ok((Playlist { id, name: String::from_str(name), songs: list }, song))
                },
            },
        }
    }

    /// Makes a playlist the queue. Hands out the playlist and what has to be
    /// stored; `load_queue` follows once it is.
    pub fn play_playlist(&self, id: Option<i64>, name: &str, songs: Vec<Song>) -> (r: Result<
        (Playlist, Vec<StoreOp>),
        String,
    >)
        ensures
            match r {
                Ok((p, ops)) => (id matches Some(i) && is_playlist(p, i, name@, songs@)) && ops@
                    == rewrite_of(songs@),
                Err(e) => id is None && e@ == no_playlist(name@),
            },
    {
        match id {
            None => Err(concat2("playlist not found: ", name)),
            Some(id) => {
                let ops = rewrite_queue(&songs);
                Ok((Playlist { id, name: String::from_str(name), songs }, ops))
            },
        }
    }
}

} // verus!
