//! Where the library lives on disk.

use vstd::prelude::*;

use crate::text::{alphanumeric, chars_of, concat2, concat3, is_alphanumeric};

verus! {

/// A relative path below a directory.
pub open spec fn joined_path(dir: Seq<char>, part: Seq<char>) -> Seq<char> {
    if dir.len() == 0 || dir.last() == '/' {
        dir + part
    } else {
        dir + "/"@ + part
    }
}

/// Appends a relative path to a directory.
pub fn join_path(dir: &str, part: &str) -> (r: String)
    ensures
        r@ == joined_path(dir@, part@),
{
    let cs = chars_of(dir);
    if cs.len() == 0 || cs[cs.len() - 1] == '/' {
        concat2(dir, part)
    } else {
        concat3(dir, "/", part)
    }
}

/// The directory that holds everything where nothing is configured. Without a
/// home directory it lies below the working directory.
pub open spec fn default_base(home: Option<Seq<char>>) -> Seq<char> {
    joined_path(
        match home {
            Some(h) => h,
            None => "."@,
        },
        ".sjn/music"@,
    )
}

/// The directory that holds everything where nothing is configured.
pub fn default_base_dir(home: Option<&str>) -> (r: String)
    ensures
        r@ == default_base(
            match home {
                Some(h) => Some(h@),
                None => None,
            },
        ),
{
    match home {
        Some(h) => join_path(h, ".sjn/music"),
        None => join_path(".", ".sjn/music"),
    }
}

/// The library root: the configured directory, which may be relative to the
/// directory of the configuration file, else the default.
pub open spec fn root_of(music_dir: Option<Seq<char>>, home: Option<Seq<char>>) -> Seq<char> {
    match music_dir {
        Some(dir) => if dir.len() == 0 {
            default_base(home)
        } else if dir[0] == '/' {
            dir
        } else {
            joined_path(default_base(home), dir)
        },
        None => default_base(home),
    }
}

/// Resolves the library root from the configuration.
pub fn library_root(music_dir: Option<&str>, home: Option<&str>) -> (r: String)
    ensures
        r@ == root_of(
            match music_dir {
                Some(d) => Some(d@),
                None => None,
            },
            match home {
                Some(h) => Some(h@),
                None => None,
            },
        ),
{
    let base = default_base_dir(home);
    match music_dir {
        Some(dir) => {
            let cs = chars_of(dir);
            if cs.len() == 0 {
                base
            } else if cs[0] == '/' {
                String::from_str(dir)
            } else {
                join_path(base.as_str(), dir)
            }
        },
        None => base,
    }
}

/// The directory of the songs.
pub fn songs_dir(base: &str) -> (r: String)
    ensures
        r@ == joined_path(base@, "songs"@),
{
    join_path(base, "songs")
}

/// A name with everything but letters, digits and spaces made an underscore.
pub open spec fn safe_name(name: Seq<char>) -> Seq<char> {
    name.map_values(
        |c: char| if alphanumeric(c) || c == ' ' {
            c
        } else {
            '_'
        },
    )
}

/// The file of a song.
pub open spec fn song_file(base: Seq<char>, name: Seq<char>) -> Seq<char> {
    joined_path(joined_path(base, "songs"@), safe_name(name) + ".mp3"@)
}

/// The file in which a song of this name is kept.
pub fn song_path(base: &str, name: &str) -> (r: String)
    ensures
        r@ == song_file(base@, name@),
{
    let cs = chars_of(name);
    let mut safe = String::new();
    let mut i: usize = 0;
    while i < cs.len()
        invariant
            cs@ == name@,
            i <= cs@.len(),
            safe@ == safe_name(name@).take(i as int),
        decreases cs@.len() - i,
    {
        let c = cs[i];
        if is_alphanumeric(c) || c == ' ' {
            safe.push(c);
        } else {
            safe.push('_');
        }
        proof {
            assert(safe@ =~= safe_name(name@).take(i + 1));
        }
        i += 1;
    }
    proof {
        assert(safe@ =~= safe_name(name@));
    }
    let file = concat2(safe.as_str(), ".mp3");
    let dir = songs_dir(base);
    join_path(dir.as_str(), file.as_str())
}

/// The file of a song lies in the directory of the songs itself: its name holds
/// no slash, whatever the song is called.
pub proof fn lemma_song_file_stays(name: Seq<char>)
    ensures
        !(safe_name(name) + ".mp3"@).contains('/'),
        safe_name(name).len() == name.len(),
{
    reveal_strlit(".mp3");
    let f = safe_name(name) + ".mp3"@;
    assert forall|i: int| 0 <= i < f.len() implies f[i] != '/' by {
        if i < name.len() {
            assert(f[i] == safe_name(name)[i]);
        } else {
            assert(f[i] == ".mp3"@[i - name.len()]);
        }
    }
}

/// The database.
pub fn db_path(base: &str) -> (r: String)
    ensures
        r@ == joined_path(base@, "songs.db"@),
{
    join_path(base, "songs.db")
}

/// The configuration file.
pub fn config_path(base: &str) -> (r: String)
    ensures
        r@ == joined_path(base@, "config.toml"@),
{
    join_path(base, "config.toml")
}

/// There is one slash between a directory and what lies below it, whether the
/// directory is written with one or without.
pub proof fn lemma_joined_path(dir: Seq<char>, part: Seq<char>)
    requires
        dir.len() > 0,
        dir.last() != '/',
    ensures
        joined_path(dir, part) == dir + "/"@ + part,
        joined_path(dir.push('/'), part) == joined_path(dir, part),
        joined_path(Seq::empty(), part) == part,
{
    reveal_strlit("/");
    assert(dir.push('/') + part =~= dir + "/"@ + part);
    assert(Seq::<char>::empty() + part =~= part);
}

/// The library lies below the home directory, or the working directory where
/// there is none, unless another directory is configured: an absolute one is
/// used as it is, a relative one lies below the default, and an empty one
/// counts as none.
pub proof fn lemma_library_root(home: Seq<char>, dir: Seq<char>)
    requires
        home.len() > 0,
        home.last() != '/',
    ensures
        root_of(None, Some(home)) == home + "/.sjn/music"@,
        root_of(None, None) == "./.sjn/music"@,
        root_of(Some(Seq::empty()), Some(home)) == home + "/.sjn/music"@,
        dir.len() > 0 && dir[0] == '/' ==> root_of(Some(dir), Some(home)) == dir,
        dir.len() > 0 && dir[0] != '/' ==> root_of(Some(dir), Some(home)) == home + "/.sjn/music/"@
            + dir,
{
    reveal_strlit("/");
    reveal_strlit(".");
    reveal_strlit(".sjn/music");
    reveal_strlit("/.sjn/music");
    reveal_strlit("./.sjn/music");
    reveal_strlit("/.sjn/music/");
    assert(home + "/"@ + ".sjn/music"@ =~= home + "/.sjn/music"@);
    assert("."@ + "/"@ + ".sjn/music"@ =~= "./.sjn/music"@);
    let base = home + "/.sjn/music"@;
    assert(base.last() == 'c');
    assert(base + "/"@ + dir =~= home + "/.sjn/music/"@ + dir);
}

/// A song is kept below `songs`, in a file with its name and the ending of its
/// kind; in the name, letters, digits and spaces stay, and anything else becomes
/// an underscore.
pub proof fn lemma_song_file(base: Seq<char>, name: Seq<char>, i: int)
    requires
        base.len() > 0,
        base.last() != '/',
    ensures
        song_file(base, name) == base + "/songs/"@ + safe_name(name) + ".mp3"@,
        0 <= i < name.len() && (alphanumeric(name[i]) || name[i] == ' ') ==> safe_name(name)[i]
            == name[i],
        0 <= i < name.len() && !alphanumeric(name[i]) && name[i] != ' ' ==> safe_name(name)[i]
            == '_',
{
    reveal_strlit("/");
    reveal_strlit("songs");
    reveal_strlit("/songs/");
    let dir = base + "/"@ + "songs"@;
    assert(dir.last() == 's');
    assert(dir + "/"@ + (safe_name(name) + ".mp3"@) =~= base + "/songs/"@ + safe_name(name)
        + ".mp3"@);
}

} // verus!
