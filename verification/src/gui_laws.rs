//! What the client's window promises: which page a bookmark stands for, how
//! long a notice stays, and how the daemon's answers are shown.

use vstd::prelude::*;
use vstd::utf8::encode_utf8;

use crate::client::{error_text, is_call, posts, ApiCall, DaemonError, NowPlaying};
use crate::json::Json;
use crate::model::{Playlist, Song};
use crate::pages::{
    badge_sign, is_wrong_version, opened_but, playlists_but, quoting, signed, song_line, typed_name,
};
use crate::ranking::is_veto;
use crate::routes::Method;
use crate::scoring_laws::lemma_badge_names;
use crate::text::{decimal, decimal_int, decimal_padded, is_space, lowered, trimmed};
use crate::text_laws::{lemma_trimmed, trims_to};
use crate::urltext::{escaped, lemma_percent_round_trip};
use crate::view::{theme_of, Route, Theme, Toast, ToastLevel};

verus! {

/// Errors are shown for five seconds, warnings for four, and all other notices
/// for three; a clock that stands before the birth of a notice still shows it.
pub proof fn lemma_notice_lifetimes(t: Toast, now: u64)
    requires
        t.ttl == t.level.lifetime(),
    ensures
        t.level == ToastLevel::Error ==> (t.alive(now) <==> now < t.born_at + 5_000_000_000),
        t.level == ToastLevel::Warn ==> (t.alive(now) <==> now < t.born_at + 4_000_000_000),
        t.level == ToastLevel::Info || t.level == ToastLevel::Success ==> (t.alive(now) <==> now
            < t.born_at + 3_000_000_000),
{
}

/// Only the word `light`, in any case and with white space around it, asks for
/// the light theme.
pub proof fn lemma_light_theme(s: Seq<char>)
    ensures
        theme_of(s) == Theme::Light <==> lowered(trimmed(s)) == "light"@,
        theme_of(s) == Theme::Dark <==> lowered(trimmed(s)) != "light"@,
{
}

proof fn lemma_title_lengths()
    ensures
        "Library"@.len() == 7 && "Queue"@.len() == 5 && "Playlists"@.len() == 9,
        "Playlist"@.len() == 8 && "Search + Download"@.len() == 17 && "Downloads"@.len() == 9,
        "History"@.len() == 7 && "Stats"@.len() == 5 && "Settings"@.len() == 8,
        "Library"@[0] == 'L' && "History"@[0] == 'H' && "Queue"@[0] == 'Q' && "Stats"@[0] == 'S',
        "Playlists"@[0] == 'P' && "Downloads"@[0] == 'D',
        "Playlist"@[0] == 'P' && "Settings"@[0] == 'S',
{
    reveal_strlit("Library");
    reveal_strlit("Queue");
    reveal_strlit("Playlists");
    reveal_strlit("Playlist");
    reveal_strlit("Search + Download");
    reveal_strlit("Downloads");
    reveal_strlit("History");
    reveal_strlit("Stats");
    reveal_strlit("Settings");
}

/// Two pages have the same place in the sidebar exactly where they have the same
/// title.
pub proof fn lemma_places_and_titles(a: Route, b: Route)
    ensures
        a.same_place(b) <==> a.title() == b.title(),
{
    lemma_title_lengths();
}

proof fn lemma_hash_shapes()
    ensures
        "#library"@.len() == 8 && "#queue"@.len() == 6 && "#playlists"@.len() == 10,
        "#search"@.len() == 7 && "#downloads"@.len() == 10 && "#history"@.len() == 8,
        "#stats"@.len() == 6 && "#settings"@.len() == 9 && "#playlist/"@.len() == 10,
        "#library"@[1] == 'l' && "#queue"@[1] == 'q' && "#playlists"@[1] == 'p',
        "#search"@[1] == 's' && "#downloads"@[1] == 'd' && "#history"@[1] == 'h',
        "#stats"@[1] == 's' && "#settings"@[1] == 's' && "#playlist/"@[1] == 'p',
        "#playlists"@[9] == 's' && "#playlist/"@[9] == '/',
{
    reveal_strlit("#library");
    reveal_strlit("#queue");
    reveal_strlit("#playlists");
    reveal_strlit("#playlist/");
    reveal_strlit("#search");
    reveal_strlit("#downloads");
    reveal_strlit("#history");
    reveal_strlit("#stats");
    reveal_strlit("#settings");
}

/// A bookmark stands for one page only, and the bookmark of a playlist for one
/// playlist only.
pub proof fn lemma_bookmarks_distinct(a: Route, b: Route)
    requires
        a.hash() == b.hash(),
    ensures
        a.same_place(b),
        a matches Route::Playlist(m) ==> (b matches Route::Playlist(n) && m@ == n@),
{
    lemma_hash_shapes();
    match a {
        Route::Playlist(m) => {
            let e = escaped(encode_utf8(m@));
            let h = "#playlist/"@ + e;
            assert(h[1] == 'p' && h[9] == '/' && h.len() >= 10);
            match b {
                Route::Playlist(n) => {
                    let f = escaped(encode_utf8(n@));
                    assert(h.skip(10) =~= e);
                    assert(("#playlist/"@ + f).skip(10) =~= f);
                    lemma_percent_round_trip(m@);
                    lemma_percent_round_trip(n@);
                },
                _ => {},
            }
        },
        _ => {
            match b {
                Route::Playlist(n) => {
                    let h = "#playlist/"@ + escaped(encode_utf8(n@));
                    assert(h[1] == 'p' && h[9] == '/' && h.len() >= 10);
                },
                _ => {},
            }
        },
    }
}

/// What an answer with an error says is the daemon's own message; where it has
/// none its text, and where that is empty its status.
pub proof fn lemma_error_text(status: u16, text: Seq<char>, v: Json, own: Seq<char>, e: Seq<char>)
    ensures
        v.text_at("error"@) == Some(own) ==> error_text(status, text, Ok(v)) == own,
        v.text_at("error"@) is None && text.len() > 0 ==> error_text(status, text, Ok(v)) == text,
        text.len() > 0 ==> error_text(status, text, Err(e)) == text,
        text.len() == 0 ==> error_text(status, text, Err(e)) == "HTTP "@ + decimal(status as nat),
{
}

/// How an error is shown: the status in square brackets before the daemon's
/// message, else what went wrong before it.
pub proof fn lemma_error_shown(e: DaemonError)
    ensures
        e matches DaemonError::Api { status, message } ==> e.text() == "["@ + decimal(status as nat)
            + "] "@ + message@,
        e matches DaemonError::Transport(m) ==> e.text() == "transport: "@ + m@,
        e matches DaemonError::Decode(m) ==> e.text() == "decode: "@ + m@,
{
}

/// A song that is paused is shown as paused, though it counts as playing; where
/// nothing plays the client says so.
pub proof fn lemma_status_shown(n: NowPlaying)
    ensures
        n.paused ==> n.status_text() == "paused"@,
        !n.paused && n.playing ==> n.status_text() == "playing"@,
        !n.paused && !n.playing ==> n.status_text() == "idle"@,
        n.current matches Some(s) ==> n.title_text() == s.name@,
        n.current is None ==> n.title_text() == "(nothing playing)"@,
{
}

/// A score is shown with its sign; zero counts as positive.
pub proof fn lemma_signed(n: nat)
    ensures
        signed(n as int) == "+"@ + decimal(n),
        n > 0 ==> signed(-(n as int)) == seq!['-'] + decimal(n),
{
}

/// The line below a song gives its id, and its length where that is known.
pub proof fn lemma_song_line(song: Song)
    ensures
        song.duration_secs is None ==> song_line(song) == "id "@ + decimal_int(song.id as int),
        song.duration_secs matches Some(d) ==> song_line(song) == "id "@ + decimal_int(
            song.id as int,
        ) + " · "@ + (decimal((d.rounded() / 60) as nat) + ":"@ + decimal_padded(
            (d.rounded() % 60) as nat,
            2,
        )),
{
}

/// Taking a playlist out of a list leaves all others, in their order.
pub proof fn lemma_playlists_but(
    list: Seq<Playlist>,
    opened: Seq<(String, Playlist)>,
    name: Seq<char>,
)
    ensures
        playlists_but(list, name) == list.filter(|p: Playlist| p.name@ != name),
        opened_but(opened, name) == opened.filter(|p: (String, Playlist)| p.0@ != name),
    decreases list.len() + opened.len(),
{
    reveal(Seq::filter);
    if list.len() > 0 {
        lemma_playlists_but(list.drop_last(), opened, name);
    } else if opened.len() > 0 {
        assert(list.filter(|p: Playlist| p.name@ != name) =~= playlists_but(list, name));
        lemma_playlists_but(list, opened.drop_last(), name);
    } else {
        assert(list.filter(|p: Playlist| p.name@ != name) =~= playlists_but(list, name));
        assert(opened.filter(|p: (String, Playlist)| p.0@ != name) =~= opened_but(opened, name));
    }
}

/// The badges that warn of another version are those that keep a candidate from
/// being taken without asking, covers aside.
pub proof fn lemma_warning_badges(f: Seq<char>)
    ensures
        is_wrong_version(f) <==> is_veto(f) && f != "cover"@,
{
    lemma_badge_names();
}

/// The sign before each badge; a cover, a type beat, a compilation and a fan
/// upload have none.
pub proof fn lemma_badge_signs()
    ensures
        badge_sign("official"@) == Some("\u{2705} "@),
        badge_sign("official-upload"@) == Some("\u{2705} "@),
        badge_sign("lyrics"@) == Some("\u{1F4DD} "@),
        badge_sign("reaction"@) == Some("\u{1F914} "@),
        badge_sign("remix"@) == Some("\u{1F3B6} "@),
        badge_sign("live"@) == Some("\u{1F3B5} "@),
        badge_sign("instrumental"@) == Some("\u{1F3B5} "@),
        badge_sign("nightcore"@) == Some("\u{26A0} "@),
        badge_sign("slowed"@) == Some("\u{26A0} "@),
        badge_sign("bass-boosted"@) == Some("\u{26A0} "@),
        badge_sign("reverb"@) == Some("\u{26A0} "@),
        badge_sign("karaoke"@) == Some("\u{1F3A4} "@),
        badge_sign("long"@) == Some("\u{23F1} "@),
        badge_sign("short"@) == Some("\u{23F1} "@),
        badge_sign("artist-mismatch"@) == Some("\u{274C} "@),
        badge_sign("cover"@) is None,
        badge_sign("type-beat"@) is None,
        badge_sign("compilation"@) is None,
        badge_sign("fan-upload"@) is None,
{
    lemma_badge_names();
}

/// A name that was typed is taken without the white space around it; blank
/// space alone is no name.
pub proof fn lemma_typed_name(typed: Seq<char>, from: int, to: int)
    requires
        0 <= from <= to <= typed.len(),
        forall|i: int| 0 <= i < from ==> is_space(#[trigger] typed[i]),
        forall|i: int| to <= i < typed.len() ==> is_space(#[trigger] typed[i]),
        from < to ==> !is_space(typed[from]) && !is_space(typed[to - 1]),
    ensures
        from < to ==> typed_name(typed) == Some(typed.subrange(from, to)),
        from == to ==> typed_name(typed) is None,
{
    lemma_trimmed(typed);
    let (i, j) = choose|i: int, j: int|
        #[trigger] trims_to(typed, i, j) && trimmed(typed) == typed.subrange(i, j);
    if from < to {
        assert(!is_space(typed[from]) && !is_space(typed[to - 1]));
        assert(i <= from && to <= j);
        assert(!is_space(typed[i]) && !is_space(typed[j - 1]));
    } else if i < j {
        assert(is_space(typed[i]));
    }
}

/// What is said of a name: a word, a space, and the name in quotes.
pub proof fn lemma_quoted_name(word: Seq<char>, name: Seq<char>)
    ensures
        quoting(word, name) == word.push(' ').push('"') + name.push('"'),
{
    reveal_strlit(" \"");
    reveal_strlit("\"");
    assert(" \""@ =~= seq![' ', '"']);
    assert("\""@ =~= seq!['"']);
    assert(quoting(word, name) =~= word.push(' ').push('"') + name.push('"'));
}

/// What a request says: a question or a bare command goes out with the method
/// and the path that it names and nothing in it, a form with an object in it,
/// and either waits eight seconds for its answer.
pub proof fn lemma_call_sent(c: ApiCall, method: Method, path: Seq<char>)
    ensures
        is_call(c, method, path) <==> c.method == method && c.path@ == path && c.body == Json::Null
            && c.timeout_ms == 8000,
        posts(c, path) <==> c.method == Method::Post && c.path@ == path && c.body is Object
            && c.timeout_ms == 8000,
{
}

} // verus!
