//! What the database holds of playlists, and what requests make of it: what is
//! replied of a playlist is what is read of it later.

use vstd::prelude::*;

use crate::handler::{begins_playlist, is_playlist_request, PlaylistRow, Reply, Step};
use crate::model::Song;
use crate::playlists::no_playlist;
use crate::server::Request;
use crate::state::DaemonState;

verus! {

/// No two playlists have the same id. A shelf holds the playlists by their
/// names: the id and the songs of each.
pub open spec fn distinct_playlists(shelf: Map<Seq<char>, (i64, Seq<Song>)>) -> bool {
    forall|a: Seq<char>, b: Seq<char>|
        #![trigger shelf[a], shelf[b]]
        shelf.dom().contains(a) && shelf.dom().contains(b) && a != b ==> shelf[a].0 != shelf[b].0
}

/// The id is that of no playlist.
pub open spec fn is_fresh(shelf: Map<Seq<char>, (i64, Seq<Song>)>, id: i64) -> bool {
    forall|n: Seq<char>| shelf.dom().contains(n) ==> (#[trigger] shelf[n]).0 != id
}

/// The shelf once the database has created, renamed or deleted what a request
/// asks for. `fresh` is the id of a playlist that is created.
pub open spec fn prepared(
    shelf: Map<Seq<char>, (i64, Seq<Song>)>,
    request: Request,
    fresh: i64,
) -> Map<Seq<char>, (i64, Seq<Song>)> {
    match request {
        Request::PlaylistCreate(name) => if shelf.dom().contains(name@) {
            shelf
        } else {
            shelf.insert(name@, (fresh, Seq::empty()))
        },
        Request::PlaylistRename(name, new_name) => if shelf.dom().contains(name@) {
            shelf.remove(name@).insert(new_name@, shelf[name@])
        } else {
            shelf
        },
        Request::PlaylistDelete(name) => shelf.remove(name@),
        Request::PlaylistDuplicate(name, copy) => if shelf.dom().contains(name@)
            && !shelf.dom().contains(copy@) {
            shelf.insert(copy@, (fresh, Seq::empty()))
        } else {
            shelf
        },
        _ => shelf,
    }
}

/// The row says what the shelf holds under a name.
pub open spec fn found_under(
    shelf: Map<Seq<char>, (i64, Seq<Song>)>,
    name: Seq<char>,
    row: PlaylistRow,
) -> bool {
    if shelf.dom().contains(name) {
        row.id == Some(shelf[name].0) && row.songs@ == shelf[name].1
    } else {
        row.id is None && row.songs@.len() == 0
    }
}

/// The row names the playlist that the shelf holds under a name.
pub open spec fn made_under(
    shelf: Map<Seq<char>, (i64, Seq<Song>)>,
    name: Seq<char>,
    row: PlaylistRow,
) -> bool {
    row.made == shelf[name].0 && row.made_songs@ == shelf[name].1
}

/// The row is what the database says to a request.
pub open spec fn reads(
    shelf: Map<Seq<char>, (i64, Seq<Song>)>,
    request: Request,
    fresh: i64,
    row: PlaylistRow,
) -> bool {
    let after = prepared(shelf, request, fresh);
    match request {
        Request::PlaylistCreate(name) => made_under(after, name@, row),
        Request::PlaylistRename(name, new_name) => if shelf.dom().contains(name@) {
            row.affected == 1 && made_under(after, new_name@, row)
        } else {
            row.affected == 0
        },
        Request::PlaylistDelete(name) => row.affected == (if shelf.dom().contains(name@) {
            1int
        } else {
            0
        }),
        Request::PlaylistDuplicate(name, copy) => found_under(shelf, name@, row) && (
        shelf.dom().contains(name@) ==> made_under(after, copy@, row)),
        Request::PlaylistGet(name) => found_under(shelf, name@, row),
        Request::PlaylistAdd(name, _) => found_under(shelf, name@, row),
        Request::PlaylistPlay(name) => found_under(shelf, name@, row),
        Request::PlaylistRemoveSong(name, _) => found_under(shelf, name@, row),
        Request::PlaylistReorder(name, _, _) => found_under(shelf, name@, row),
        _ => true,
    }
}

/// The shelf once a playlist has been made to hold the songs that it has to.
pub open spec fn written(
    shelf: Map<Seq<char>, (i64, Seq<Song>)>,
    write: Option<(i64, Vec<Song>)>,
) -> Map<Seq<char>, (i64, Seq<Song>)> {
    match write {
        Some((id, songs)) => shelf.map_values(
            |p: (i64, Seq<Song>)| if p.0 == id {
                (id, songs@)
            } else {
                p
            },
        ),
        None => shelf,
    }
}

/// The shelf after a request.
pub open spec fn shelf_after(
    shelf: Map<Seq<char>, (i64, Seq<Song>)>,
    request: Request,
    fresh: i64,
    step: Step,
) -> Map<Seq<char>, (i64, Seq<Song>)> {
    written(prepared(shelf, request, fresh), step.playlist)
}

/// The request changes what the shelf holds under a name.
pub open spec fn may_change(request: Request, n: Seq<char>) -> bool {
    match request {
        Request::PlaylistCreate(name) => n == name@,
        Request::PlaylistRename(name, new_name) => n == name@ || n == new_name@,
        Request::PlaylistDelete(name) => n == name@,
        Request::PlaylistDuplicate(_, copy) => n == copy@,
        Request::PlaylistAdd(name, _) => n == name@,
        Request::PlaylistRemoveSong(name, _) => n == name@,
        Request::PlaylistReorder(name, _, _) => n == name@,
        _ => false,
    }
}

/// The request gives a name to a playlist that no other playlist has.
pub open spec fn name_is_free(shelf: Map<Seq<char>, (i64, Seq<Song>)>, request: Request) -> bool {
    match request {
        Request::PlaylistCreate(name) => !shelf.dom().contains(name@),
        Request::PlaylistRename(name, new_name) => new_name@ == name@ || !shelf.dom().contains(
            new_name@,
        ),
        Request::PlaylistDuplicate(_, copy) => !shelf.dom().contains(copy@),
        _ => true,
    }
}

/// The playlist that a reply shows, if it shows one.
pub open spec fn shown_playlist(reply: Result<Reply, String>) -> Option<
    (Seq<char>, (i64, Seq<Song>)),
> {
    match reply {
        Ok(Reply::Playlist(p)) => Some((p.name@, (p.id, p.songs@))),
        Ok(Reply::PlaylistAdded(p, _)) => Some((p.name@, (p.id, p.songs@))),
        _ => None,
    }
}

/// The playlist that a reply shows is what the shelf then holds under its name;
/// a playlist that was deleted is gone; a request that is refused changes
/// nothing; and no request touches a playlist that it does not name.
pub proof fn lemma_playlist_read_back(
    s: DaemonState,
    shelf: Map<Seq<char>, (i64, Seq<Song>)>,
    request: Request,
    library: Seq<Song>,
    fresh: i64,
    row: PlaylistRow,
    step: Step,
)
    requires
        distinct_playlists(shelf),
        is_fresh(shelf, fresh),
        is_playlist_request(request),
        name_is_free(shelf, request),
        reads(shelf, request, fresh, row),
        begins_playlist(s, request, library, row, step),
    ensures
        shown_playlist(step.reply) matches Some((n, p)) ==> shelf_after(
            shelf,
            request,
            fresh,
            step,
        ).dom().contains(n) && shelf_after(shelf, request, fresh, step)[n] == p,
        step.reply matches Ok(Reply::PlaylistDeleted(n)) ==> shelf.dom().contains(n@)
            && !shelf_after(shelf, request, fresh, step).dom().contains(n@),
        step.reply is Err ==> shelf_after(shelf, request, fresh, step) == shelf,
        forall|n: Seq<char>|
            !may_change(request, n) ==> (#[trigger] shelf_after(
                shelf,
                request,
                fresh,
                step,
            ).dom().contains(n) <==> shelf.dom().contains(n)) && (shelf.dom().contains(n)
                ==> shelf_after(shelf, request, fresh, step)[n] == shelf[n]),
        distinct_playlists(shelf_after(shelf, request, fresh, step)),
{
    let ready = prepared(shelf, request, fresh);
    let after = shelf_after(shelf, request, fresh, step);
    lemma_prepared(shelf, request, fresh);
    assert(after.dom() =~= ready.dom());
    assert forall|a: Seq<char>, b: Seq<char>|
        #![trigger after[a], after[b]]
        after.dom().contains(a) && after.dom().contains(b) && a != b implies after[a].0
        != after[b].0 by {
        assert(ready[a].0 != ready[b].0);
    }
    assert forall|n: Seq<char>| !may_change(request, n) implies (#[trigger] after.dom().contains(n)
        <==> shelf.dom().contains(n)) && (shelf.dom().contains(n) ==> after[n] == shelf[n]) by {
        if shelf.dom().contains(n) {
            assert(ready.dom().contains(n) && ready[n] == shelf[n]);
            match step.playlist {
                Some((id, songs)) => {
                    let named = written_name(request);
                    assert(ready.dom().contains(named) && ready[named].0 == id);
                    assert(ready[named].0 != ready[n].0);
                },
                None => {},
            }
        }
    }
    if step.reply is Err {
        assert(step.playlist is None);
        assert(after =~= shelf);
    }
}

/// The playlist whose songs a request changes.
spec fn written_name(request: Request) -> Seq<char> {
    match request {
        Request::PlaylistDuplicate(_, copy) => copy@,
        Request::PlaylistAdd(name, _) => name@,
        Request::PlaylistRemoveSong(name, _) => name@,
        Request::PlaylistReorder(name, _, _) => name@,
        _ => Seq::empty(),
    }
}

proof fn lemma_prepared(
    shelf: Map<Seq<char>, (i64, Seq<Song>)>,
    request: Request,
    fresh: i64,
)
    requires
        distinct_playlists(shelf),
        is_fresh(shelf, fresh),
        name_is_free(shelf, request),
    ensures
        distinct_playlists(prepared(shelf, request, fresh)),
{
    let ready = prepared(shelf, request, fresh);
    assert forall|a: Seq<char>, b: Seq<char>|
        #![trigger ready[a], ready[b]]
        ready.dom().contains(a) && ready.dom().contains(b) && a != b implies ready[a].0
        != ready[b].0 by {
        match request {
            Request::PlaylistRename(name, new_name) => {
                if shelf.dom().contains(name@) {
                    let before = |n: Seq<char>|
                        if n == new_name@ {
                            name@
                        } else {
                            n
                        };
                    assert(shelf[before(a)].0 != shelf[before(b)].0);
                }
            },
            _ => {
                if shelf.dom().contains(a) && shelf.dom().contains(b) {
                    assert(shelf[a].0 != shelf[b].0);
                } else if shelf.dom().contains(a) {
                    assert(shelf[a].0 != fresh);
                } else if shelf.dom().contains(b) {
                    assert(shelf[b].0 != fresh);
                }
            },
        }
    }
}

/// Looking a playlist up shows what the shelf holds under its name.
pub proof fn lemma_playlist_shown(
    s: DaemonState,
    shelf: Map<Seq<char>, (i64, Seq<Song>)>,
    name: String,
    library: Seq<Song>,
    fresh: i64,
    row: PlaylistRow,
    step: Step,
)
    requires
        reads(shelf, Request::PlaylistGet(name), fresh, row),
        begins_playlist(s, Request::PlaylistGet(name), library, row, step),
    ensures
        if shelf.dom().contains(name@) {
            shown_playlist(step.reply) == Some((name@, shelf[name@]))
        } else {
            step.reply matches Err(e) && e@ == no_playlist(name@)
        },
{
}

/// A copy of a playlist under a name that is free has an id of its own and the
/// songs of its source, in the reply and when either is looked up afterwards.
pub proof fn lemma_duplicate_read_back(
    s: DaemonState,
    shelf: Map<Seq<char>, (i64, Seq<Song>)>,
    name: String,
    copy: String,
    library: Seq<Song>,
    fresh: i64,
    row: PlaylistRow,
    step: Step,
)
    requires
        distinct_playlists(shelf),
        is_fresh(shelf, fresh),
        shelf.dom().contains(name@),
        !shelf.dom().contains(copy@),
        reads(shelf, Request::PlaylistDuplicate(name, copy), fresh, row),
        begins_playlist(s, Request::PlaylistDuplicate(name, copy), library, row, step),
    ensures
        ({
            let after = shelf_after(shelf, Request::PlaylistDuplicate(name, copy), fresh, step);
            &&& step.reply matches Ok(Reply::Playlist(p)) && p.name@ == copy@ && p.id
                != shelf[name@].0 && p.songs@ == shelf[name@].1
            &&& after.dom().contains(copy@) && after[copy@].1 == shelf[name@].1
            &&& after.dom().contains(name@) && after[name@] == shelf[name@]
        }),
{
    let request = Request::PlaylistDuplicate(name, copy);
    lemma_playlist_read_back(s, shelf, request, library, fresh, row, step);
    assert(shelf_after(shelf, request, fresh, step).dom().contains(name@));
    assert(shelf[name@].0 != fresh);
}

} // verus!
