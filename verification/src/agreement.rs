//! The client and the daemon agree: what an operation of the client sends is
//! what the daemon reads.

use vstd::prelude::*;
use vstd::utf8::encode_utf8;

use crate::client::{
    count_number, is_call, is_empty_object, is_text_member, playlist_path, posts, ApiCall,
};
use crate::json::{member_of, Json};
use crate::ranking::AUTO_PICK_MARGIN;
use crate::real64::Real64;
use crate::routes::{
    action_of, fixed_route, get_route, is_playlist_route, is_route, playlist_named, post_route,
    song_of_path, without_slashes, AudioRoute, Method, PlaylistAction, Route,
};
use crate::server::{
    decodes_to, filled, filled_texts, first_filled, is_command, mode_named, name_in_body,
    new_name_in_body, number_at, pair_of, pairs_of, param_of, path_of, query_in_body, query_pairs,
    refused, source_for, wanted_query, whole_at, ApiError, Request,
};
use crate::text::{
    contains_text, decimal, decimal_int, has_prefix, has_suffix, is_digit, lemma_decimal_chars,
    lemma_decimal_int_parsed, lemma_decimal_parsed, lemma_first_at, occurs_at, split_on, texts,
    trimmed,
};
use crate::urltext::{
    escaped, escaped_byte, is_unreserved, lemma_plain_text, lemma_query_round_trip, urldecoded,
};

verus! {

proof fn lemma_split_alone(s: Seq<char>, sep: char)
    requires
        !s.contains(sep),
    ensures
        split_on(s, sep) == seq![s],
    decreases s.len(),
{
    if s.len() > 0 {
        let head = s.drop_last();
        assert(!head.contains(sep)) by {
            if head.contains(sep) {
                let i = choose|i: int| 0 <= i < head.len() && head[i] == sep;
                assert(s[i] == sep);
            }
        }
        lemma_split_alone(head, sep);
        assert(s[s.len() - 1] != sep);
        assert(split_on(head, sep).drop_last().push(split_on(head, sep).last().push(s.last()))
            =~= seq![s]) by {
            assert(head.push(s.last()) =~= s);
        }
    } else {
        assert(s =~= Seq::<char>::empty());
    }
}

proof fn lemma_split_append(a: Seq<char>, b: Seq<char>, sep: char)
    requires
        !b.contains(sep),
    ensures
        split_on(a + seq![sep] + b, sep) == split_on(a, sep).push(b),
    decreases b.len(),
{
    let s = a + seq![sep] + b;
    if b.len() == 0 {
        assert(s.drop_last() =~= a);
        assert(s.last() == sep);
        assert(b =~= Seq::<char>::empty());
    } else {
        let rest = b.drop_last();
        assert(!rest.contains(sep)) by {
            if rest.contains(sep) {
                let i = choose|i: int| 0 <= i < rest.len() && rest[i] == sep;
                assert(b[i] == sep);
            }
        }
        lemma_split_append(a, rest, sep);
        assert(s.drop_last() =~= a + seq![sep] + rest);
        assert(s.last() == b.last());
        assert(b[b.len() - 1] != sep);
        assert(rest.push(b.last()) =~= b);
        let before = split_on(a, sep);
        assert(before.push(rest).drop_last().push(rest.push(b.last())) =~= before.push(b));
    }
}

/// An encoded text holds none of the characters that part an address.
proof fn lemma_escaped_plain(bytes: Seq<u8>)
    ensures
        !escaped(bytes).contains('?'),
        !escaped(bytes).contains('&'),
        !escaped(bytes).contains('='),
        !escaped(bytes).contains('/'),
        escaped(bytes).len() >= bytes.len(),
    decreases bytes.len(),
{
    let e = escaped(bytes);
    if bytes.len() > 0 {
        let head = escaped_byte(bytes[0]);
        let rest = escaped(bytes.drop_first());
        lemma_escaped_plain(bytes.drop_first());
        assert forall|i: int| 0 <= i < e.len() implies e[i] != '?' && e[i] != '&' && e[i] != '='
            && e[i] != '/' by {
            if i < head.len() {
                assert(e[i] == head[i]);
            } else {
                assert(e[i] == rest[i - head.len()]);
                assert(rest.contains(rest[i - head.len()]));
            }
        }
    }
}

/// The numeral of a number stands for itself in an address.
proof fn lemma_numeral_plain(n: int)
    ensures
        urldecoded(decimal_int(n)) == decimal_int(n),
        !decimal_int(n).contains('?'),
        !decimal_int(n).contains('&'),
        !decimal_int(n).contains('/'),
        decimal_int(n).len() > 0,
{
    let d = decimal_int(n);
    lemma_decimal_chars(n);
    assert forall|i: int| 0 <= i < d.len() implies '\0' <= #[trigger] d[i] <= '\u{7f}'
        && is_unreserved(d[i] as u8) by {
        assert(is_digit(d[i]) || d[i] == '-');
    }
    lemma_plain_text(d);
}

/// One name and its value in a query string.
proof fn lemma_piece(key: Seq<char>, value: Seq<char>, meaning: Seq<char>)
    requires
        !key.contains('='),
        urldecoded(key) == key,
        urldecoded(value) == meaning,
    ensures
        pair_of(key + "="@ + value) == Some((key, meaning)),
{
    reveal_strlit("=");
    let piece = key + "="@ + value;
    let at = key.len() as int;
    assert(piece.subrange(at, at + 1) =~= "="@);
    assert(occurs_at(piece, "="@, at));
    assert forall|j: int| j < at implies !occurs_at(piece, "="@, j) by {
        if 0 <= j && occurs_at(piece, "="@, j) {
            assert(piece.subrange(j, j + 1)[0] == '=');
            assert(key[j] == '=');
        }
    }
    lemma_first_at(piece, "="@, at);
    assert(piece.subrange(0, at) =~= key);
    assert(piece.subrange(at + 1, piece.len() as int) =~= value);
}

/// The names that the client uses stand for themselves.
proof fn lemma_keys()
    ensures
        urldecoded("q"@) == "q"@ && !"q"@.contains('='),
        !"q"@.contains('?') && !"q"@.contains('&'),
        urldecoded("limit"@) == "limit"@ && !"limit"@.contains('='),
        !"limit"@.contains('?') && !"limit"@.contains('&'),
        urldecoded("margin"@) == "margin"@ && !"margin"@.contains('='),
        !"margin"@.contains('?') && !"margin"@.contains('&'),
        "q"@ != "limit"@ && "q"@ != "margin"@ && "limit"@ != "margin"@,
{
    reveal_strlit("q");
    reveal_strlit("limit");
    reveal_strlit("margin");
    lemma_plain_text("q"@);
    lemma_plain_text("limit"@);
    lemma_plain_text("margin"@);
}

/// The query string that asks for `q`, with a limit and a margin where given.
spec fn asked(q: Seq<char>, limit: Option<nat>, margin: Option<int>) -> Seq<char> {
    "q="@ + escaped(encode_utf8(q)) + (match limit {
        Some(n) => "&limit="@ + decimal(n),
        None => Seq::empty(),
    }) + (match margin {
        Some(m) => "&margin="@ + decimal_int(m),
        None => Seq::empty(),
    })
}

proof fn lemma_pairs_one(piece: Seq<char>, key: Seq<char>, value: Seq<char>)
    requires
        !piece.contains('&'),
        pair_of(piece) == Some((key, value)),
    ensures
        pairs_of(split_on(piece, '&')) == seq![(key, value)],
{
    lemma_split_alone(piece, '&');
    let none = Seq::<Seq<char>>::empty();
    assert(seq![piece].drop_last() =~= none);
    assert(pairs_of(none) =~= Seq::<(Seq<char>, Seq<char>)>::empty());
    assert(pairs_of(seq![piece]) =~= seq![(key, value)]);
}

proof fn lemma_pairs_more(tail: Seq<char>, piece: Seq<char>, key: Seq<char>, value: Seq<char>)
    requires
        !piece.contains('&'),
        pair_of(piece) == Some((key, value)),
    ensures
        pairs_of(split_on(tail + seq!['&'] + piece, '&')) == pairs_of(split_on(tail, '&')).push(
            (key, value),
        ),
{
    lemma_split_append(tail, piece, '&');
    let before = split_on(tail, '&');
    assert(before.push(piece).drop_last() =~= before);
}

proof fn lemma_param_more(
    pairs: Seq<(Seq<char>, Seq<char>)>,
    key: Seq<char>,
    value: Seq<char>,
    wanted: Seq<char>,
)
    ensures
        param_of(pairs.push((key, value)), wanted) == (if key == wanted {
            Some(value)
        } else {
            param_of(pairs, wanted)
        }),
        param_of(seq![(key, value)], wanted) == (if key == wanted {
            Some(value)
        } else {
            None
        }),
{
    assert(pairs.push((key, value)).drop_last() =~= pairs);
    let one = seq![(key, value)];
    assert(one.drop_last() =~= Seq::<(Seq<char>, Seq<char>)>::empty());
    assert(param_of(one.drop_last(), wanted) is None);
}

/// A name, `=` and a value without the characters that part an address have none
/// of these either.
proof fn lemma_no_parting(key: Seq<char>, value: Seq<char>)
    requires
        !key.contains('?') && !key.contains('&'),
        !value.contains('?') && !value.contains('&'),
    ensures
        !(key + "="@ + value).contains('?'),
        !(key + "="@ + value).contains('&'),
{
    reveal_strlit("=");
    let s = key + "="@ + value;
    assert forall|i: int| 0 <= i < s.len() implies s[i] != '?' && s[i] != '&' by {
        if i < key.len() {
            assert(s[i] == key[i]);
            assert(key.contains(key[i]));
        } else if i > key.len() {
            assert(s[i] == value[i - key.len() - 1]);
            assert(value.contains(value[i - key.len() - 1]));
        }
    }
}

proof fn lemma_no_question(a: Seq<char>, b: Seq<char>)
    requires
        !a.contains('?'),
        !b.contains('?'),
    ensures
        !(a + seq!['&'] + b).contains('?'),
{
    let s = a + seq!['&'] + b;
    assert forall|i: int| 0 <= i < s.len() implies s[i] != '?' by {
        if i < a.len() {
            assert(a.contains(a[i]));
        } else if i > a.len() {
            assert(b.contains(b[i - a.len() - 1]));
        }
    }
}

/// The pieces of the query string, joined.
proof fn lemma_asked_pieces(q: Seq<char>, limit: Option<nat>, margin: Option<int>)
    requires
        margin is Some ==> limit is Some,
    ensures
        ({
            let first = "q"@ + "="@ + escaped(encode_utf8(q));
            let both = first + seq!['&'] + ("limit"@ + "="@ + decimal(limit->0));
            let all = both + seq!['&'] + ("margin"@ + "="@ + decimal_int(margin->0));
            asked(q, limit, margin) == (if margin is Some {
                all
            } else if limit is Some {
                both
            } else {
                first
            })
        }),
{
    reveal_strlit("q");
    reveal_strlit("q=");
    reveal_strlit("=");
    reveal_strlit("limit");
    reveal_strlit("&limit=");
    reveal_strlit("margin");
    reveal_strlit("&margin=");
    let first = "q"@ + "="@ + escaped(encode_utf8(q));
    let both = first + seq!['&'] + ("limit"@ + "="@ + decimal(limit->0));
    let all = both + seq!['&'] + ("margin"@ + "="@ + decimal_int(margin->0));
    assert("q="@ =~= "q"@ + "="@);
    assert("&limit="@ =~= seq!['&'] + "limit"@ + "="@);
    assert("&margin="@ =~= seq!['&'] + "margin"@ + "="@);
    if margin is Some {
        assert(asked(q, limit, margin) =~= all);
    } else if limit is Some {
        assert(asked(q, limit, margin) =~= both);
    } else {
        assert(asked(q, limit, margin) =~= first);
    }
}

/// What the daemon finds in such a query string, for texts without a plus sign.
proof fn lemma_asked(
    path: Seq<char>,
    url: Seq<char>,
    q: Seq<char>,
    limit: Option<nat>,
    margin: Option<int>,
)
    requires
        !path.contains('?'),
        !q.contains('+'),
        margin is Some ==> limit is Some,
        url == path + seq!['?'] + asked(q, limit, margin),
    ensures
        path_of(url) == path,
        param_of(query_pairs(url), "q"@) == Some(q),
        param_of(query_pairs(url), "limit"@) == (match limit {
            Some(n) => Some(decimal(n)),
            None => None,
        }),
        param_of(query_pairs(url), "margin"@) == (match margin {
            Some(m) => Some(decimal_int(m)),
            None => None,
        }),
{
    let e = escaped(encode_utf8(q));
    let tail = asked(q, limit, margin);
    lemma_escaped_plain(encode_utf8(q));
    lemma_query_round_trip(q);
    lemma_keys();
    lemma_asked_pieces(q, limit, margin);
    let first = "q"@ + "="@ + e;
    lemma_no_parting("q"@, e);
    lemma_piece("q"@, e, q);
    lemma_pairs_one(first, "q"@, q);
    let one = pairs_of(split_on(first, '&'));
    lemma_param_more(one, "q"@, q, "q"@);
    lemma_param_more(one, "q"@, q, "limit"@);
    lemma_param_more(one, "q"@, q, "margin"@);
    if limit is Some {
        let d = decimal(limit->0);
        let second = "limit"@ + "="@ + d;
        let both = first + seq!['&'] + second;
        lemma_numeral_plain(limit->0 as int);
        lemma_no_parting("limit"@, d);
        lemma_piece("limit"@, d, d);
        lemma_pairs_more(first, second, "limit"@, d);
        lemma_no_question(first, second);
        lemma_param_more(one, "limit"@, d, "q"@);
        lemma_param_more(one, "limit"@, d, "limit"@);
        lemma_param_more(one, "limit"@, d, "margin"@);
        if margin is Some {
            let m = decimal_int(margin->0);
            let third = "margin"@ + "="@ + m;
            let two = pairs_of(split_on(both, '&'));
            lemma_numeral_plain(margin->0);
            lemma_no_parting("margin"@, m);
            lemma_piece("margin"@, m, m);
            lemma_pairs_more(both, third, "margin"@, m);
            lemma_no_question(both, third);
            lemma_param_more(two, "margin"@, m, "q"@);
            lemma_param_more(two, "margin"@, m, "limit"@);
            lemma_param_more(two, "margin"@, m, "margin"@);
        }
    }
    lemma_split_alone(path, '?');
    lemma_split_append(path, tail, '?');
}

/// An address without a query string is a path.
proof fn lemma_bare(path: Seq<char>)
    requires
        !path.contains('?'),
    ensures
        path_of(path) == path,
        query_pairs(path).len() == 0,
{
    lemma_split_alone(path, '?');
}

/// A request for a fixed path is read as a request for its route.
proof fn lemma_command(
    route: Route,
    path: Seq<char>,
    r: Result<Request, ApiError>,
    method: Method,
    url: Seq<char>,
    body: Result<Json, Seq<char>>,
    search_count: usize,
)
    requires
        path_of(url) == path,
        path.len() > 0,
        path.last() != '/',
        fixed_route(method, path) == Some(route),
        decodes_to(r, method, url, body, search_count),
    ensures
        is_command(r, route, method, url, body, search_count),
{
    assert(without_slashes(path) == path);
    let seen = choose|seen: Route|
        is_route(seen, method, path_of(url)) && #[trigger] is_command(
            r,
            seen,
            method,
            url,
            body,
            search_count,
        );
    assert(seen == route);
}

/// The fixed paths that can be read.
proof fn lemma_get_routes()
    ensures
        get_route("/help"@) == Some(Route::Help),
        get_route("/songs"@) == Some(Route::Songs),
        get_route("/search"@) == Some(Route::Search),
        get_route("/search/all"@) == Some(Route::SearchAll),
        get_route("/search/yt/ranked"@) == Some(Route::SearchYtRanked),
        get_route("/pick"@) == Some(Route::Pick),
        get_route("/search/yt"@) == Some(Route::SearchYt),
        get_route("/queue"@) == Some(Route::Queue),
        get_route("/now-playing"@) == Some(Route::NowPlaying),
        get_route("/downloads"@) == Some(Route::Downloads),
        get_route("/history"@) == Some(Route::History),
        get_route("/stats"@) == Some(Route::Stats),
        get_route("/repeat"@) == Some(Route::RepeatGet),
        get_route("/volume"@) == Some(Route::VolumeGet),
        get_route("/playlists"@) == Some(Route::PlaylistsList),
{
    reveal_strlit("");
    reveal_strlit("/help");
    reveal_strlit("/songs");
    reveal_strlit("/search");
    reveal_strlit("/search/all");
    reveal_strlit("/search/yt/ranked");
    reveal_strlit("/pick");
    reveal_strlit("/search/yt");
    reveal_strlit("/queue");
    reveal_strlit("/now-playing");
    reveal_strlit("/downloads");
    reveal_strlit("/history");
    reveal_strlit("/stats");
    reveal_strlit("/repeat");
    reveal_strlit("/volume");
    reveal_strlit("/playlists");
    assert("/help"@.len() == 5);
    assert("/songs"@.len() == 6);
    assert("/search"@.len() == 7);
    assert("/search/all"@.len() == 11);
    assert("/search/yt/ranked"@.len() == 17);
    assert("/pick"@.len() == 5);
    assert("/search/yt"@.len() == 10);
    assert("/queue"@.len() == 6);
    assert("/now-playing"@.len() == 12);
    assert("/downloads"@.len() == 10);
    assert("/history"@.len() == 8);
    assert("/stats"@.len() == 6);
    assert("/repeat"@.len() == 7);
    assert("/volume"@.len() == 7);
    assert("/playlists"@.len() == 10);
    assert("/help"@[1] != "/pick"@[1]);
    assert("/songs"@[1] != "/queue"@[1]);
    assert("/songs"@[2] != "/stats"@[2]);
    assert("/search"@[1] != "/repeat"@[1]);
    assert("/search"@[1] != "/volume"@[1]);
    assert("/search/yt"@[1] != "/downloads"@[1]);
    assert("/search/yt"@[1] != "/playlists"@[1]);
    assert("/queue"@[1] != "/stats"@[1]);
    assert("/downloads"@[1] != "/playlists"@[1]);
    assert("/repeat"@[1] != "/volume"@[1]);
}

/// The fixed paths that can be posted to.
proof fn lemma_post_routes()
    ensures
        post_route("/search"@) == Some(Route::Search),
        post_route("/play"@) == Some(Route::Play),
        post_route("/add"@) == Some(Route::Add),
        post_route("/del"@) == Some(Route::Del),
        post_route("/init"@) == Some(Route::InitAsync),
        post_route("/init/batch"@) == Some(Route::InitBatch),
        post_route("/skip"@) == Some(Route::Skip),
        post_route("/queue/shuffle"@) == Some(Route::QueueShuffle),
        post_route("/queue/clear"@) == Some(Route::QueueClear),
        post_route("/pause"@) == Some(Route::Audio(AudioRoute::Pause)),
        post_route("/resume"@) == Some(Route::Audio(AudioRoute::Resume)),
        post_route("/seek"@) == Some(Route::Audio(AudioRoute::Seek)),
        post_route("/repeat"@) == Some(Route::RepeatSet),
        post_route("/volume"@) == Some(Route::VolumeSet),
        post_route("/playlists"@) == Some(Route::PlaylistCreate),
{
    reveal_strlit("/search");
    reveal_strlit("/play");
    reveal_strlit("/add");
    reveal_strlit("/del");
    reveal_strlit("/init");
    reveal_strlit("/init/batch");
    reveal_strlit("/skip");
    reveal_strlit("/queue/shuffle");
    reveal_strlit("/queue/clear");
    reveal_strlit("/pause");
    reveal_strlit("/resume");
    reveal_strlit("/seek");
    reveal_strlit("/repeat");
    reveal_strlit("/volume");
    reveal_strlit("/playlists");
    assert("/search"@.len() == 7);
    assert("/play"@.len() == 5);
    assert("/add"@.len() == 4);
    assert("/del"@.len() == 4);
    assert("/init"@.len() == 5);
    assert("/init/batch"@.len() == 11);
    assert("/skip"@.len() == 5);
    assert("/queue/shuffle"@.len() == 14);
    assert("/queue/clear"@.len() == 12);
    assert("/pause"@.len() == 6);
    assert("/resume"@.len() == 7);
    assert("/seek"@.len() == 5);
    assert("/repeat"@.len() == 7);
    assert("/volume"@.len() == 7);
    assert("/playlists"@.len() == 10);
    assert("/search"@[1] != "/resume"@[1]);
    assert("/search"@[1] != "/repeat"@[1]);
    assert("/search"@[1] != "/volume"@[1]);
    assert("/play"@[1] != "/init"@[1]);
    assert("/play"@[1] != "/skip"@[1]);
    assert("/play"@[1] != "/seek"@[1]);
    assert("/add"@[1] != "/del"@[1]);
    assert("/init"@[1] != "/skip"@[1]);
    assert("/init"@[1] != "/seek"@[1]);
    assert("/skip"@[2] != "/seek"@[2]);
    assert("/resume"@[3] != "/repeat"@[3]);
    assert("/resume"@[1] != "/volume"@[1]);
    assert("/repeat"@[1] != "/volume"@[1]);
}

/// The client's plain questions are read as what they are, whatever body they
/// carry.
pub proof fn lemma_question_understood(
    call: ApiCall,
    path: Seq<char>,
    body: Result<Json, Seq<char>>,
    r: Result<Request, ApiError>,
    search_count: usize,
)
    requires
        is_call(call, Method::Get, path),
        path == "/help"@ || path == "/now-playing"@ || path == "/queue"@ || path == "/downloads"@
            || path == "/songs"@ || path == "/stats"@ || path == "/playlists"@ || path == "/volume"@
            || path == "/repeat"@,
        decodes_to(r, call.method, call.path@, body, search_count),
    ensures
        path == "/help"@ ==> (r matches Ok(Request::Help)),
        path == "/now-playing"@ ==> (r matches Ok(Request::NowPlaying)),
        path == "/queue"@ ==> (r matches Ok(Request::Queue)),
        path == "/downloads"@ ==> (r matches Ok(Request::Downloads)),
        path == "/songs"@ ==> (r matches Ok(Request::Songs(q)) && q is None),
        path == "/stats"@ ==> (r matches Ok(Request::Stats)),
        path == "/playlists"@ ==> (r matches Ok(Request::PlaylistsList)),
        path == "/volume"@ ==> (r matches Ok(Request::VolumeGet)),
        path == "/repeat"@ ==> (r matches Ok(Request::RepeatGet)),
{
    reveal_strlit("/help");
    reveal_strlit("/now-playing");
    reveal_strlit("/queue");
    reveal_strlit("/downloads");
    reveal_strlit("/songs");
    reveal_strlit("/stats");
    reveal_strlit("/playlists");
    reveal_strlit("/volume");
    reveal_strlit("/repeat");
    lemma_get_routes();
    assert(!path.contains('?'));
    lemma_bare(path);
    assert(path.len() > 0 && path.last() != '/');
    let route = get_route(path)->0;
    lemma_command(route, path, r, call.method, path, body, search_count);
}

/// What the client searches the library for is what the daemon looks up, for
/// texts without a plus sign, which a query string cannot carry.
pub proof fn lemma_search_understood(
    call: ApiCall,
    all: bool,
    q: Seq<char>,
    body: Result<Json, Seq<char>>,
    r: Result<Request, ApiError>,
    search_count: usize,
)
    requires
        q.len() > 0,
        !q.contains('+'),
        is_call(
            call,
            Method::Get,
            (if all {
                "/search/all?q="@
            } else {
                "/search?q="@
            }) + escaped(encode_utf8(q)),
        ),
        decodes_to(r, call.method, call.path@, body, search_count),
    ensures
        all ==> (r matches Ok(Request::SearchAll(s)) && s@ == q),
        !all ==> (r matches Ok(Request::Search(s)) && s@ == q),
{
    let url = call.path@;
    reveal_strlit("/search?q=");
    reveal_strlit("/search/all?q=");
    reveal_strlit("/search");
    reveal_strlit("/search/all");
    reveal_strlit("q=");
    let path = if all {
        "/search/all"@
    } else {
        "/search"@
    };
    assert(!path.contains('?'));
    assert(path.len() > 0 && path.last() != '/');
    assert(url =~= path + seq!['?'] + asked(q, None, None));
    lemma_asked(path, url, q, None, None);
    lemma_get_routes();
    let route = get_route(path)->0;
    lemma_command(route, path, r, call.method, url, body, search_count);
    assert(wanted_query(query_pairs(url), body) == Ok::<Seq<char>, Seq<char>>(q));
}

/// What the client searches the video site for, how many results it wants and
/// whether they are to be ranked is what the daemon reads, for texts without a
/// plus sign.
pub proof fn lemma_video_search_understood(
    call: ApiCall,
    ranked: bool,
    q: Seq<char>,
    limit: usize,
    body: Result<Json, Seq<char>>,
    r: Result<Request, ApiError>,
    search_count: usize,
)
    requires
        q.len() > 0,
        !q.contains('+'),
        call.method == Method::Get,
        call.path@ == (if ranked {
            "/search/yt/ranked?q="@
        } else {
            "/search/yt?q="@
        }) + escaped(encode_utf8(q)) + "&limit="@ + decimal(limit as nat),
        decodes_to(r, call.method, call.path@, body, search_count),
    ensures
        ranked ==> (r matches Ok(Request::SearchYtRanked(s, n)) && s@ == q && n == limit),
        !ranked ==> (r matches Ok(Request::SearchYt(s, n)) && s@ == q && n == limit),
{
    let url = call.path@;
    reveal_strlit("/search/yt?q=");
    reveal_strlit("/search/yt/ranked?q=");
    reveal_strlit("/search/yt");
    reveal_strlit("/search/yt/ranked");
    reveal_strlit("q=");
    let path = if ranked {
        "/search/yt/ranked"@
    } else {
        "/search/yt"@
    };
    assert(!path.contains('?'));
    assert(path.len() > 0 && path.last() != '/');
    assert(url =~= path + seq!['?'] + asked(q, Some(limit as nat), None));
    lemma_asked(path, url, q, Some(limit as nat), None);
    lemma_decimal_parsed(limit as nat, usize::MAX as nat);
    lemma_get_routes();
    let route = get_route(path)->0;
    lemma_command(route, path, r, call.method, url, body, search_count);
    assert(wanted_query(query_pairs(url), body) == Ok::<Seq<char>, Seq<char>>(q));
}

/// What the client has picked, out of how many, and with what lead if it asks
/// for one, is what the daemon reads, for texts without a plus sign.
pub proof fn lemma_pick_understood(
    call: ApiCall,
    q: Seq<char>,
    limit: usize,
    margin: Option<i32>,
    body: Result<Json, Seq<char>>,
    r: Result<Request, ApiError>,
    search_count: usize,
)
    requires
        q.len() > 0,
        !q.contains('+'),
        call.method == Method::Get,
        call.path@ == "/pick?q="@ + escaped(encode_utf8(q)) + "&limit="@ + decimal(limit as nat) + (
        match margin {
            Some(m) => "&margin="@ + decimal_int(m as int),
            None => ""@,
        }),
        decodes_to(r, call.method, call.path@, body, search_count),
    ensures
        r matches Ok(Request::Pick(s, n, m)) && s@ == q && n == limit && m == (match margin {
            Some(lead) => lead,
            None => AUTO_PICK_MARGIN,
        }),
{
    let url = call.path@;
    reveal_strlit("/pick?q=");
    reveal_strlit("/pick");
    reveal_strlit("q=");
    reveal_strlit("");
    let path = "/pick"@;
    let lead = match margin {
        Some(m) => Some(m as int),
        None => None,
    };
    assert(!path.contains('?'));
    assert(path.len() > 0 && path.last() != '/');
    assert(url =~= path + seq!['?'] + asked(q, Some(limit as nat), lead));
    lemma_asked(path, url, q, Some(limit as nat), lead);
    lemma_decimal_parsed(limit as nat, usize::MAX as nat);
    if margin is Some {
        lemma_decimal_int_parsed(margin->0 as int, i32::MAX as nat);
    }
    lemma_get_routes();
    lemma_command(Route::Pick, path, r, call.method, url, body, search_count);
    assert(wanted_query(query_pairs(url), body) == Ok::<Seq<char>, Seq<char>>(q));
}

/// The length of history that the client asks for is the one that the daemon
/// reads.
pub proof fn lemma_history_understood(
    call: ApiCall,
    limit: usize,
    body: Result<Json, Seq<char>>,
    r: Result<Request, ApiError>,
    search_count: usize,
)
    requires
        is_call(call, Method::Get, "/history?limit="@ + decimal(limit as nat)),
        decodes_to(r, call.method, call.path@, body, search_count),
    ensures
        r matches Ok(Request::History(n)) && n == limit,
{
    let url = call.path@;
    let d = decimal(limit as nat);
    reveal_strlit("/history?limit=");
    reveal_strlit("/history");
    reveal_strlit("limit");
    reveal_strlit("=");
    let path = "/history"@;
    let tail = "limit"@ + "="@ + d;
    assert(url =~= path + seq!['?'] + tail);
    assert(!path.contains('?'));
    assert(path.len() > 0 && path.last() != '/');
    lemma_keys();
    lemma_numeral_plain(limit as int);
    lemma_no_parting("limit"@, d);
    lemma_piece("limit"@, d, d);
    lemma_pairs_one(tail, "limit"@, d);
    lemma_split_alone(path, '?');
    lemma_split_append(path, tail, '?');
    lemma_param_more(query_pairs(url), "limit"@, d, "limit"@);
    lemma_decimal_parsed(limit as nat, usize::MAX as nat);
    lemma_get_routes();
    lemma_command(Route::History, path, r, call.method, url, body, search_count);
}

/// The text member of an object is found under its name.
proof fn lemma_single_member(j: Json, key: Seq<char>, value: Seq<char>)
    requires
        is_text_member(j, key, value),
    ensures
        j.text_at(key) == Some(value),
{
}

/// A song that the client asks to play, to add or to delete is the one that the
/// daemon looks up.
pub proof fn lemma_query_understood(
    call: ApiCall,
    path: Seq<char>,
    query: Seq<char>,
    r: Result<Request, ApiError>,
    search_count: usize,
)
    requires
        query.len() > 0,
        path == "/play"@ || path == "/add"@ || path == "/del"@,
        posts(call, path),
        is_text_member(call.body, "query"@, query),
        decodes_to(r, call.method, call.path@, Ok(call.body), search_count),
    ensures
        path == "/play"@ ==> (r matches Ok(Request::Play(s)) && s@ == query),
        path == "/add"@ ==> (r matches Ok(Request::Add(s)) && s@ == query),
        path == "/del"@ ==> (r matches Ok(Request::Del(s)) && s@ == query),
{
    reveal_strlit("/play");
    reveal_strlit("/add");
    reveal_strlit("/del");
    assert(!path.contains('?'));
    lemma_bare(path);
    assert(path.len() > 0 && path.last() != '/');
    lemma_query_body(call.body, query);
    lemma_post_routes();
    let route = post_route(path)->0;
    lemma_command(route, path, r, call.method, path, Ok(call.body), search_count);
    assert(wanted_query(query_pairs(path), Ok(call.body)) == Ok::<Seq<char>, Seq<char>>(query));
}

proof fn lemma_query_body(body: Json, query: Seq<char>)
    requires
        query.len() > 0,
        is_text_member(body, "query"@, query),
    ensures
        query_in_body(Ok(body)) == Ok::<Seq<char>, Seq<char>>(query),
{
    lemma_single_member(body, "query"@, query);
    let keys = seq!["query"@, "name"@, "song"@, "q"@];
    assert(filled(body, keys[0]) == Some(query));
    assert(first_filled(body, keys) == Some(query));
}

/// The daemon does what the client's buttons say: it pauses, resumes, skips,
/// shuffles the queue or clears it, whatever body the request carries.
pub proof fn lemma_action_understood(
    call: ApiCall,
    path: Seq<char>,
    body: Result<Json, Seq<char>>,
    r: Result<Request, ApiError>,
    search_count: usize,
)
    requires
        path == "/pause"@ || path == "/resume"@ || path == "/skip"@ || path == "/queue/shuffle"@
            || path == "/queue/clear"@,
        posts(call, path),
        decodes_to(r, call.method, call.path@, body, search_count),
    ensures
        path == "/pause"@ ==> (r matches Ok(Request::Pause)),
        path == "/resume"@ ==> (r matches Ok(Request::Resume)),
        path == "/skip"@ ==> (r matches Ok(Request::Skip)),
        path == "/queue/shuffle"@ ==> (r matches Ok(Request::QueueShuffle)),
        path == "/queue/clear"@ ==> (r matches Ok(Request::QueueClear)),
{
    reveal_strlit("/pause");
    reveal_strlit("/resume");
    reveal_strlit("/skip");
    reveal_strlit("/queue/shuffle");
    reveal_strlit("/queue/clear");
    assert(!path.contains('?'));
    lemma_bare(path);
    assert(path.len() > 0 && path.last() != '/');
    lemma_post_routes();
    let route = post_route(path)->0;
    lemma_command(route, path, r, call.method, path, body, search_count);
}

/// The position and the volume that the client sets are those that the daemon
/// reads.
pub proof fn lemma_number_understood(
    call: ApiCall,
    seeks: bool,
    x: Real64,
    r: Result<Request, ApiError>,
    search_count: usize,
)
    requires
        posts(
            call,
            if seeks {
                "/seek"@
            } else {
                "/volume"@
            },
        ),
        call.body matches Json::Object(m) && m@.len() == 1 && m@[0].0@ == (if seeks {
            "secs"@
        } else {
            "vol"@
        }) && m@[0].1 == Json::Number(None, Some(x)),
        decodes_to(r, call.method, call.path@, Ok(call.body), search_count),
    ensures
        seeks ==> (r matches Ok(Request::Seek(s)) && s == x),
        !seeks ==> (r matches Ok(Request::VolumeSet(v)) && v == x),
{
    let path = call.path@;
    reveal_strlit("/seek");
    reveal_strlit("/volume");
    assert(!path.contains('?'));
    lemma_bare(path);
    assert(path.len() > 0 && path.last() != '/');
    lemma_post_routes();
    let route = post_route(path)->0;
    assert(number_at(
        call.body,
        if seeks {
            "secs"@
        } else {
            "vol"@
        },
    ) == Some(x));
    lemma_command(route, path, r, call.method, path, Ok(call.body), search_count);
}

/// The repeat mode that the client sets is the one that the daemon reads, or is
/// refused where there is no such mode.
pub proof fn lemma_repeat_understood(
    call: ApiCall,
    mode: Seq<char>,
    r: Result<Request, ApiError>,
    search_count: usize,
)
    requires
        posts(call, "/repeat"@),
        is_text_member(call.body, "mode"@, mode),
        decodes_to(r, call.method, call.path@, Ok(call.body), search_count),
    ensures
        match mode_named(mode) {
            Ok(m) => r matches Ok(Request::RepeatSet(n)) && n == m,
            Err(e) => refused(r, 400, e),
        },
{
    let path = call.path@;
    reveal_strlit("/repeat");
    assert(!path.contains('?'));
    lemma_bare(path);
    assert(path.len() > 0 && path.last() != '/');
    lemma_single_member(call.body, "mode"@, mode);
    lemma_post_routes();
    lemma_command(Route::RepeatSet, path, r, call.method, path, Ok(call.body), search_count);
}

proof fn lemma_name_body(body: Json, name: Seq<char>)
    requires
        name.len() > 0,
        body.text_at("name"@) == Some(name),
    ensures
        name_in_body(Ok(body)) == Ok::<Seq<char>, Seq<char>>(name),
        new_name_in_body(Ok(body)) == Ok::<Seq<char>, Seq<char>>(name),
{
    let keys = seq!["name"@, "song"@, "query"@];
    assert(filled(body, keys[0]) == Some(name));
    assert(first_filled(body, keys) == Some(name));
    let others = seq!["name"@, "new_name"@];
    assert(filled(body, others[0]) == Some(name));
    assert(first_filled(body, others) == Some(name));
}

/// The name that the client starts a download under is the one that the daemon
/// reads, and the address, where one is given, is the source.
pub proof fn lemma_init_understood(
    call: ApiCall,
    name: Seq<char>,
    url: Option<Seq<char>>,
    r: Result<Request, ApiError>,
    search_count: usize,
)
    requires
        name.len() > 0,
        posts(call, "/init"@),
        call.body.text_at("name"@) == Some(name),
        call.body.text_at("url"@) == url,
        decodes_to(r, call.method, call.path@, Ok(call.body), search_count),
    ensures
        r matches Ok(Request::Init(n, s)) && n@ == name && s@ == (match url {
            Some(u) => if trimmed(u).len() > 0 {
                trimmed(u)
            } else {
                source_for(name, None)
            },
            None => source_for(name, None),
        }),
{
    let path = call.path@;
    reveal_strlit("/init");
    assert(!path.contains('?'));
    lemma_bare(path);
    assert(path.len() > 0 && path.last() != '/');
    lemma_name_body(call.body, name);
    lemma_post_routes();
    lemma_command(Route::InitAsync, path, r, call.method, path, Ok(call.body), search_count);
}

proof fn lemma_filled_texts(list: Seq<Json>, songs: Seq<String>)
    requires
        list.len() == songs.len(),
        forall|i: int|
            0 <= i < list.len() ==> (#[trigger] list[i]).text() == Some(songs[i]@) && songs[i]@.len()
                > 0,
    ensures
        filled_texts(list) == texts(songs),
    decreases list.len(),
{
    if list.len() > 0 {
        let head = list.drop_last();
        let rest = songs.drop_last();
        assert forall|i: int| 0 <= i < head.len() implies (#[trigger] head[i]).text() == Some(
            rest[i]@,
        ) && rest[i]@.len() > 0 by {
            assert(head[i] == list[i]);
        }
        lemma_filled_texts(head, rest);
        assert(list[list.len() - 1].text() == Some(songs[songs.len() - 1]@));
        assert(texts(rest).push(songs.last()@) =~= texts(songs));
    } else {
        assert(filled_texts(list) =~= texts(songs));
    }
}

/// The songs that the client starts downloads for are those that the daemon
/// reads, in their order.
pub proof fn lemma_init_batch_understood(
    call: ApiCall,
    songs: Seq<String>,
    r: Result<Request, ApiError>,
    search_count: usize,
)
    requires
        songs.len() > 0,
        forall|i: int| 0 <= i < songs.len() ==> (#[trigger] songs[i])@.len() > 0,
        posts(call, "/init/batch"@),
        call.body matches Json::Object(m) && m@.len() == 1 && m@[0].0@ == "songs"@ && (
        m@[0].1 matches Json::List(list) && list@.len() == songs.len() && forall|i: int|
            0 <= i < list@.len() ==> (#[trigger] list@[i]).text() == Some(songs[i]@)),
        decodes_to(r, call.method, call.path@, Ok(call.body), search_count),
    ensures
        r matches Ok(Request::InitBatch(names)) && texts(names@) == texts(songs),
{
    let path = call.path@;
    reveal_strlit("/init/batch");
    assert(!path.contains('?'));
    lemma_bare(path);
    assert(path.len() > 0 && path.last() != '/');
    match call.body {
        Json::Object(m) => {
            match m@[0].1 {
                Json::List(list) => {
                    assert forall|i: int| 0 <= i < list@.len() implies (#[trigger] list@[i]).text()
                        == Some(songs[i]@) && songs[i]@.len() > 0 by {}
                    lemma_filled_texts(list@, songs);
                    assert(texts(songs).len() > 0);
                    assert(call.body.member("songs"@) == Some(Json::List(list)));
                },
                _ => {},
            }
        },
        _ => {},
    }
    lemma_post_routes();
    lemma_command(Route::InitBatch, path, r, call.method, path, Ok(call.body), search_count);
}

/// The playlist that the client creates is the one that the daemon reads.
pub proof fn lemma_create_playlist_understood(
    call: ApiCall,
    name: Seq<char>,
    r: Result<Request, ApiError>,
    search_count: usize,
)
    requires
        name.len() > 0,
        posts(call, "/playlists"@),
        is_text_member(call.body, "name"@, name),
        decodes_to(r, call.method, call.path@, Ok(call.body), search_count),
    ensures
        r matches Ok(Request::PlaylistCreate(n)) && n@ == name,
{
    let path = call.path@;
    reveal_strlit("/playlists");
    assert(!path.contains('?'));
    lemma_bare(path);
    assert(path.len() > 0 && path.last() != '/');
    lemma_single_member(call.body, "name"@, name);
    lemma_name_body(call.body, name);
    lemma_post_routes();
    lemma_command(Route::PlaylistCreate, path, r, call.method, path, Ok(call.body), search_count);
}

/// A path below `/playlists/` is none of the fixed ones.
proof fn lemma_not_fixed(method: Method, path: Seq<char>)
    requires
        path.len() >= 12,
        path[1] == 'p',
    ensures
        fixed_route(method, path) is None,
{
    reveal_strlit("");
    reveal_strlit("/help");
    reveal_strlit("/songs");
    reveal_strlit("/search");
    reveal_strlit("/search/all");
    reveal_strlit("/search/yt/ranked");
    reveal_strlit("/pick");
    reveal_strlit("/search/yt");
    reveal_strlit("/queue");
    reveal_strlit("/now-playing");
    reveal_strlit("/downloads");
    reveal_strlit("/history");
    reveal_strlit("/stats");
    reveal_strlit("/repeat");
    reveal_strlit("/volume");
    reveal_strlit("/playlists");
    reveal_strlit("/play");
    reveal_strlit("/add");
    reveal_strlit("/del");
    reveal_strlit("/init");
    reveal_strlit("/init/batch");
    reveal_strlit("/skip");
    reveal_strlit("/queue/shuffle");
    reveal_strlit("/queue/clear");
    reveal_strlit("/pause");
    reveal_strlit("/resume");
    reveal_strlit("/seek");
    assert("/search/yt/ranked"@[1] == 's' && "/now-playing"@[1] == 'n');
    assert("/queue/shuffle"@[1] == 'q' && "/queue/clear"@[1] == 'q');
    assert(""@.len() == 0 && "/help"@.len() == 5 && "/songs"@.len() == 6 && "/search"@.len() == 7);
    assert("/search/all"@.len() == 11 && "/pick"@.len() == 5 && "/search/yt"@.len() == 10);
    assert("/queue"@.len() == 6 && "/downloads"@.len() == 10 && "/history"@.len() == 8);
    assert("/stats"@.len() == 6 && "/repeat"@.len() == 7 && "/volume"@.len() == 7);
    assert("/playlists"@.len() == 10 && "/play"@.len() == 5 && "/add"@.len() == 4);
    assert("/del"@.len() == 4 && "/init"@.len() == 5 && "/init/batch"@.len() == 11);
    assert("/skip"@.len() == 5 && "/pause"@.len() == 6 && "/resume"@.len() == 7);
    assert("/seek"@.len() == 5);
}

/// A request for a path of a playlist is read as one for the encoded name and
/// what stands behind it.
proof fn lemma_playlist_command(
    name: Seq<char>,
    suffix: Seq<char>,
    r: Result<Request, ApiError>,
    method: Method,
    body: Result<Json, Seq<char>>,
    search_count: usize,
) -> (route: Route)
    requires
        name.len() > 0,
        !suffix.contains('?'),
        suffix.len() > 0 ==> suffix.last() != '/',
        decodes_to(r, method, playlist_path(name, suffix), body, search_count),
    ensures
        is_playlist_route(route, method, escaped(encode_utf8(name)) + suffix),
        is_command(r, route, method, playlist_path(name, suffix), body, search_count),
        query_pairs(playlist_path(name, suffix)).len() == 0,
{
    reveal_strlit("/playlists/");
    let e = escaped(encode_utf8(name));
    let path = playlist_path(name, suffix);
    lemma_escaped_plain(encode_utf8(name));
    assert(encode_utf8(name).len() > 0);
    assert(e.len() > 0);
    assert forall|i: int| 0 <= i < path.len() implies path[i] != '?' by {
        if i >= 11 + e.len() {
            assert(path[i] == suffix[i - 11 - e.len()]);
            assert(suffix.contains(suffix[i - 11 - e.len()]));
        } else if i >= 11 {
            assert(path[i] == e[i - 11]);
            assert(e.contains(e[i - 11]));
        }
    }
    lemma_bare(path);
    assert(path.last() != '/') by {
        if suffix.len() == 0 {
            assert(path.last() == e.last());
            assert(e.contains(e.last()));
        } else {
            assert(path.last() == suffix.last());
        }
    }
    assert(without_slashes(path) == path);
    lemma_not_fixed(method, path);
    assert(path.subrange(0, 11) =~= "/playlists/"@);
    assert(has_prefix(path, "/playlists/"@));
    assert(path.subrange(11, path.len() as int) =~= e + suffix);
    choose|seen: Route|
        is_route(seen, method, path_of(path)) && #[trigger] is_command(
            r,
            seen,
            method,
            path,
            body,
            search_count,
        )
}

/// What stands behind an encoded name says what is to be done with the playlist.
proof fn lemma_playlist_actions(e: Seq<char>)
    requires
        !e.contains('/'),
    ensures
        action_of(e) == PlaylistAction::Whole,
        song_of_path(e) is None,
        action_of(e + "/add"@) == PlaylistAction::Add && playlist_named(e + "/add"@) == e,
        action_of(e + "/play"@) == PlaylistAction::Play && playlist_named(e + "/play"@) == e,
        action_of(e + "/reorder"@) == PlaylistAction::Reorder && playlist_named(e + "/reorder"@) == e,
        action_of(e + "/duplicate"@) == PlaylistAction::Duplicate && playlist_named(
            e + "/duplicate"@,
        ) == e,
{
    reveal_strlit("/add");
    reveal_strlit("/play");
    reveal_strlit("/reorder");
    reveal_strlit("/duplicate");
    reveal_strlit("/songs/");
    lemma_no_slash_no_part(e, "/add"@);
    lemma_no_slash_no_part(e, "/play"@);
    lemma_no_slash_no_part(e, "/reorder"@);
    lemma_no_slash_no_part(e, "/duplicate"@);
    lemma_no_slash_no_part(e, "/songs/"@);
    lemma_ends(e, "/add"@, "/duplicate"@);
    lemma_ends(e, "/add"@, "/reorder"@);
    lemma_ends(e, "/play"@, "/duplicate"@);
    lemma_ends(e, "/play"@, "/reorder"@);
    lemma_ends(e, "/play"@, "/add"@);
    lemma_ends(e, "/reorder"@, "/duplicate"@);
    lemma_ends(e, "/duplicate"@, "/add"@);
}

proof fn lemma_no_slash_no_part(e: Seq<char>, part: Seq<char>)
    requires
        !e.contains('/'),
        part.len() > 0,
        part[0] == '/',
    ensures
        !contains_text(e, part),
{
    if contains_text(e, part) {
        let i = choose|i: int| occurs_at(e, part, i);
        assert(e.subrange(i, i + part.len())[0] == e[i]);
    }
}

/// A text with an ending ends with it, and with no other that ends otherwise.
proof fn lemma_ends(e: Seq<char>, suffix: Seq<char>, other: Seq<char>)
    requires
        suffix.len() > 0,
        other.len() > 0,
        suffix.last() != other.last(),
    ensures
        has_suffix(e + suffix, suffix),
        !has_suffix(e + suffix, other),
        (e + suffix).subrange(0, (e + suffix).len() - suffix.len()) == e,
{
    let s = e + suffix;
    assert(s.subrange(s.len() - suffix.len(), s.len() as int) =~= suffix);
    assert(s.subrange(0, s.len() - suffix.len()) =~= e);
    if has_suffix(s, other) {
        let tail = s.subrange(s.len() - other.len(), s.len() as int);
        assert(tail.last() == s.last());
        assert(tail == other);
    }
}

/// The playlist that the client reads or deletes reaches the daemon under its
/// encoded name.
pub proof fn lemma_playlist_understood(
    call: ApiCall,
    deletes: bool,
    name: Seq<char>,
    body: Result<Json, Seq<char>>,
    r: Result<Request, ApiError>,
    search_count: usize,
)
    requires
        name.len() > 0,
        is_call(
            call,
            if deletes {
                Method::Delete
            } else {
                Method::Get
            },
            playlist_path(name, ""@),
        ),
        decodes_to(r, call.method, call.path@, body, search_count),
    ensures
        deletes ==> (r matches Ok(Request::PlaylistDelete(n)) && n@ == escaped(encode_utf8(name))),
        !deletes ==> (r matches Ok(Request::PlaylistGet(n)) && n@ == escaped(encode_utf8(name))),
{
    let e = escaped(encode_utf8(name));
    reveal_strlit("");
    lemma_escaped_plain(encode_utf8(name));
    lemma_playlist_actions(e);
    assert(e + ""@ =~= e);
    let route = lemma_playlist_command(name, ""@, r, call.method, body, search_count);
}

/// The new name that the client gives a playlist is the one that the daemon
/// reads; the playlist itself is named encoded.
pub proof fn lemma_rename_understood(
    call: ApiCall,
    old_name: Seq<char>,
    new_name: Seq<char>,
    r: Result<Request, ApiError>,
    search_count: usize,
)
    requires
        old_name.len() > 0,
        new_name.len() > 0,
        call.method == Method::Patch,
        call.path@ == playlist_path(old_name, ""@),
        is_text_member(call.body, "name"@, new_name),
        decodes_to(r, call.method, call.path@, Ok(call.body), search_count),
    ensures
        r matches Ok(Request::PlaylistRename(l, n)) && l@ == escaped(encode_utf8(old_name)) && n@
            == new_name,
{
    let e = escaped(encode_utf8(old_name));
    reveal_strlit("");
    lemma_escaped_plain(encode_utf8(old_name));
    lemma_playlist_actions(e);
    assert(e + ""@ =~= e);
    lemma_single_member(call.body, "name"@, new_name);
    lemma_name_body(call.body, new_name);
    let route = lemma_playlist_command(
        old_name,
        ""@,
        r,
        call.method,
        Ok(call.body),
        search_count,
    );
}

/// The name of the copy that the client asks for is the one that the daemon
/// reads; the playlist itself is named encoded.
pub proof fn lemma_duplicate_understood(
    call: ApiCall,
    name: Seq<char>,
    copy: Seq<char>,
    r: Result<Request, ApiError>,
    search_count: usize,
)
    requires
        name.len() > 0,
        copy.len() > 0,
        posts(call, playlist_path(name, "/duplicate"@)),
        is_text_member(call.body, "name"@, copy),
        decodes_to(r, call.method, call.path@, Ok(call.body), search_count),
    ensures
        r matches Ok(Request::PlaylistDuplicate(l, n)) && l@ == escaped(encode_utf8(name)) && n@
            == copy,
{
    reveal_strlit("/duplicate");
    lemma_escaped_plain(encode_utf8(name));
    lemma_playlist_actions(escaped(encode_utf8(name)));
    lemma_single_member(call.body, "name"@, copy);
    lemma_name_body(call.body, copy);
    assert(!"/duplicate"@.contains('?') && "/duplicate"@.last() != '/');
    let route = lemma_playlist_command(
        name,
        "/duplicate"@,
        r,
        call.method,
        Ok(call.body),
        search_count,
    );
}

/// The song that the client adds to a playlist is the one that the daemon looks
/// up; the playlist itself is named encoded.
pub proof fn lemma_add_to_playlist_understood(
    call: ApiCall,
    name: Seq<char>,
    query: Seq<char>,
    r: Result<Request, ApiError>,
    search_count: usize,
)
    requires
        name.len() > 0,
        query.len() > 0,
        posts(call, playlist_path(name, "/add"@)),
        is_text_member(call.body, "query"@, query),
        decodes_to(r, call.method, call.path@, Ok(call.body), search_count),
    ensures
        r matches Ok(Request::PlaylistAdd(l, q)) && l@ == escaped(encode_utf8(name)) && q@ == query,
{
    reveal_strlit("/add");
    lemma_escaped_plain(encode_utf8(name));
    lemma_playlist_actions(escaped(encode_utf8(name)));
    lemma_query_body(call.body, query);
    assert(!"/add"@.contains('?') && "/add"@.last() != '/');
    let route = lemma_playlist_command(
        name,
        "/add"@,
        r,
        call.method,
        Ok(call.body),
        search_count,
    );
    assert(wanted_query(query_pairs(call.path@), Ok(call.body)) == Ok::<Seq<char>, Seq<char>>(query));
}

/// The playlist that the client plays reaches the daemon under its encoded name.
pub proof fn lemma_play_playlist_understood(
    call: ApiCall,
    name: Seq<char>,
    body: Result<Json, Seq<char>>,
    r: Result<Request, ApiError>,
    search_count: usize,
)
    requires
        name.len() > 0,
        posts(call, playlist_path(name, "/play"@)),
        is_empty_object(call.body),
        decodes_to(r, call.method, call.path@, body, search_count),
    ensures
        r matches Ok(Request::PlaylistPlay(l)) && l@ == escaped(encode_utf8(name)),
{
    reveal_strlit("/play");
    lemma_escaped_plain(encode_utf8(name));
    lemma_playlist_actions(escaped(encode_utf8(name)));
    assert(!"/play"@.contains('?') && "/play"@.last() != '/');
    let route = lemma_playlist_command(name, "/play"@, r, call.method, body, search_count);
}

/// The positions between which the client moves a song are those that the daemon
/// reads, or are refused where they are greater than any position; the playlist
/// itself is named encoded.
pub proof fn lemma_reorder_understood(
    call: ApiCall,
    name: Seq<char>,
    from: usize,
    to: usize,
    r: Result<Request, ApiError>,
    search_count: usize,
)
    requires
        name.len() > 0,
        posts(call, playlist_path(name, "/reorder"@)),
        call.body matches Json::Object(m) && m@.len() == 2 && m@[0].0@ == "from"@ && m@[0].1
            == count_number(from) && m@[1].0@ == "to"@ && m@[1].1 == count_number(to),
        decodes_to(r, call.method, call.path@, Ok(call.body), search_count),
    ensures
        if from > i64::MAX {
            refused(r, 400, "missing integer 'from'"@)
        } else if to > i64::MAX {
            refused(r, 400, "missing integer 'to'"@)
        } else {
            r matches Ok(Request::PlaylistReorder(l, f, t)) && l@ == escaped(encode_utf8(name)) && f
                == from && t == to
        },
{
    reveal_strlit("/reorder");
    reveal_strlit("from");
    reveal_strlit("to");
    lemma_escaped_plain(encode_utf8(name));
    lemma_playlist_actions(escaped(encode_utf8(name)));
    assert(!"/reorder"@.contains('?') && "/reorder"@.last() != '/');
    match call.body {
        Json::Object(m) => {
            reveal_with_fuel(member_of, 3);
            assert("from"@.len() == 4 && "to"@.len() == 2);
            assert(m@.drop_first()[0] == m@[1]);
            assert(whole_at(call.body, "from"@) == count_number(from).whole());
            assert(whole_at(call.body, "to"@) == count_number(to).whole());
        },
        _ => {},
    }
    let route = lemma_playlist_command(
        name,
        "/reorder"@,
        r,
        call.method,
        Ok(call.body),
        search_count,
    );
}

/// The song that the client takes out of a playlist is the one that the daemon
/// reads; the playlist itself is named encoded.
pub proof fn lemma_remove_understood(
    call: ApiCall,
    name: Seq<char>,
    song: i64,
    body: Result<Json, Seq<char>>,
    r: Result<Request, ApiError>,
    search_count: usize,
)
    requires
        name.len() > 0,
        is_call(
            call,
            Method::Delete,
            playlist_path(name, "/songs/"@ + decimal_int(song as int)),
        ),
        decodes_to(r, call.method, call.path@, body, search_count),
    ensures
        r matches Ok(Request::PlaylistRemoveSong(l, s)) && l@ == escaped(encode_utf8(name)) && s
            == song,
{
    let e = escaped(encode_utf8(name));
    let d = decimal_int(song as int);
    reveal_strlit("/songs/");
    let suffix = "/songs/"@ + d;
    let rest = e + suffix;
    lemma_escaped_plain(encode_utf8(name));
    lemma_numeral_plain(song as int);
    assert(!suffix.contains('?')) by {
        if suffix.contains('?') {
            let i = choose|i: int| 0 <= i < suffix.len() && suffix[i] == '?';
            if i >= 7 {
                assert(d[i - 7] == '?');
                assert(d.contains('?'));
            }
        }
    }
    assert(suffix.last() != '/') by {
        assert(suffix.last() == d.last());
        assert(d.contains(d.last()));
    }
    assert(rest.subrange(e.len() as int, e.len() as int + 7) =~= "/songs/"@);
    assert(occurs_at(rest, "/songs/"@, e.len() as int));
    assert forall|j: int| j < e.len() implies !occurs_at(rest, "/songs/"@, j) by {
        if 0 <= j && occurs_at(rest, "/songs/"@, j) {
            assert(rest.subrange(j, j + 7)[0] == '/');
            assert(e[j] == '/');
            assert(e.contains(e[j]));
        }
    }
    lemma_first_at(rest, "/songs/"@, e.len() as int);
    assert(rest.subrange(0, e.len() as int) =~= e);
    assert(rest.subrange(e.len() as int + 7, rest.len() as int) =~= d);
    lemma_decimal_int_parsed(song as int, i64::MAX as nat);
    assert(song_of_path(rest) == Some((e, song as int)));
    let route = lemma_playlist_command(name, suffix, r, call.method, body, search_count);
}

/// A name of letters, digits and `-`, `.`, `_`, `~` reaches the daemon as it is.
pub proof fn lemma_plain_name(name: Seq<char>)
    requires
        forall|i: int|
            0 <= i < name.len() ==> '\0' <= #[trigger] name[i] <= '\u{7f}' && is_unreserved(
                name[i] as u8,
            ),
    ensures
        escaped(encode_utf8(name)) == name,
{
    lemma_plain_text(name);
}

} // verus!
