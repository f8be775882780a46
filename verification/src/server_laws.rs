//! What reading a request promises: which path asks for what, which of several
//! names in a body counts, what holds where a request does not say, and with
//! which status it is answered.

use vstd::prelude::*;

use crate::json::{json_of, member_of, Json};
use crate::model::RepeatMode;
use crate::real64::Real64;
use crate::routes::{
    action_of, get_route, is_route, playlist_named, post_route, song_of_path, without_slashes,
    Method, PlaylistAction, Route,
};
use crate::server::{
    count_param, failure_status_of, filled, filled_texts, first_filled, is_command,
    is_plain_command, margin_param, mode_in_body, name_in_body, new_name_in_body, pair_of, param_of,
    path_of, query_in_body, query_pairs, received, reorder_in_body, request_body, secs_in_body,
    songs_in_body, source_for, success_status_of, url_in_body, vol_in_body, wanted_query, ApiError,
    Request,
};
use crate::state::queue_full_message;
use crate::text::{
    contains_text, decimal_int, has_suffix, lemma_decimal_int_parsed, occurs_at, parsed_signed,
    parsed_unsigned, split_on, trimmed,
};
use crate::text_laws::lemma_find_after;
use crate::urltext::urldecoded;

verus! {

/// The text at `key` of an object, where there is one that is not empty.
pub open spec fn says(v: Json, key: Seq<char>, t: Seq<char>) -> bool {
    v.text_at(key) == Some(t) && t.len() > 0
}

/// There is no text at `key`, or only an empty one.
pub open spec fn silent(v: Json, key: Seq<char>) -> bool {
    forall|t: Seq<char>| v.text_at(key) == Some(t) ==> t.len() == 0
}

proof fn lemma_filled(v: Json, key: Seq<char>, t: Seq<char>)
    ensures
        says(v, key, t) ==> filled(v, key) == Some(t),
        silent(v, key) ==> filled(v, key) is None,
{
}

/// What a body looks for is its `query`; where it has none, its `name`, then
/// its `song`, then its `q`. A body without any is refused.
pub proof fn lemma_query_keys(v: Json, t: Seq<char>)
    ensures
        says(v, "query"@, t) ==> query_in_body(Ok(v)) == Ok::<Seq<char>, Seq<char>>(t),
        silent(v, "query"@) && says(v, "name"@, t) ==> query_in_body(Ok(v)) == Ok::<
            Seq<char>,
            Seq<char>,
        >(t),
        silent(v, "query"@) && silent(v, "name"@) && says(v, "song"@, t) ==> query_in_body(Ok(v))
            == Ok::<Seq<char>, Seq<char>>(t),
        silent(v, "query"@) && silent(v, "name"@) && silent(v, "song"@) && says(v, "q"@, t)
            ==> query_in_body(Ok(v)) == Ok::<Seq<char>, Seq<char>>(t),
        silent(v, "query"@) && silent(v, "name"@) && silent(v, "song"@) && silent(v, "q"@)
            ==> query_in_body(Ok(v)) == Err::<Seq<char>, Seq<char>>("missing 'query' parameter"@),
        query_in_body(Err(t)) == Err::<Seq<char>, Seq<char>>("invalid JSON body: "@ + t),
{
    let keys = seq!["query"@, "name"@, "song"@, "q"@];
    lemma_filled(v, "query"@, t);
    lemma_filled(v, "name"@, t);
    lemma_filled(v, "song"@, t);
    lemma_filled(v, "q"@, t);
    let k1 = keys.drop_first();
    let k2 = k1.drop_first();
    let k3 = k2.drop_first();
    let k4 = k3.drop_first();
    assert(keys[0] == "query"@ && k1[0] == "name"@ && k2[0] == "song"@ && k3[0] == "q"@);
    assert(k4.len() == 0);
    assert(first_filled(v, k4) is None);
    assert(first_filled(v, k3) == filled(v, "q"@));
    assert(first_filled(v, k2) == if filled(v, "song"@) is Some {
        filled(v, "song"@)
    } else {
        first_filled(v, k3)
    });
    assert(first_filled(v, k1) == if filled(v, "name"@) is Some {
        filled(v, "name"@)
    } else {
        first_filled(v, k2)
    });
}

/// The name in a body is its `name`, else its `song`, else its `query`; the new
/// name of a playlist is its `name`, else its `new_name`. Without any, a body is
/// refused.
pub proof fn lemma_name_keys(v: Json, t: Seq<char>)
    ensures
        says(v, "name"@, t) ==> name_in_body(Ok(v)) == Ok::<Seq<char>, Seq<char>>(t)
            && new_name_in_body(Ok(v)) == Ok::<Seq<char>, Seq<char>>(t),
        silent(v, "name"@) && says(v, "song"@, t) ==> name_in_body(Ok(v)) == Ok::<
            Seq<char>,
            Seq<char>,
        >(t),
        silent(v, "name"@) && silent(v, "song"@) && says(v, "query"@, t) ==> name_in_body(Ok(v))
            == Ok::<Seq<char>, Seq<char>>(t),
        silent(v, "name"@) && silent(v, "song"@) && silent(v, "query"@) ==> name_in_body(Ok(v))
            == Err::<Seq<char>, Seq<char>>("missing 'name' or 'song' in body"@),
        silent(v, "name"@) && says(v, "new_name"@, t) ==> new_name_in_body(Ok(v)) == Ok::<
            Seq<char>,
            Seq<char>,
        >(t),
        silent(v, "name"@) && silent(v, "new_name"@) ==> new_name_in_body(Ok(v)) == Err::<
            Seq<char>,
            Seq<char>,
        >("missing 'name' in body"@),
        name_in_body(Err(t)) == Err::<Seq<char>, Seq<char>>("invalid JSON body: "@ + t),
        new_name_in_body(Err(t)) == Err::<Seq<char>, Seq<char>>("invalid JSON body: "@ + t),
{
    lemma_filled(v, "query"@, t);
    lemma_filled(v, "name"@, t);
    lemma_filled(v, "song"@, t);
    lemma_filled(v, "new_name"@, t);
    let keys = seq!["name"@, "song"@, "query"@];
    let k1 = keys.drop_first();
    let k2 = k1.drop_first();
    let k3 = k2.drop_first();
    assert(keys[0] == "name"@ && k1[0] == "song"@ && k2[0] == "query"@ && k3.len() == 0);
    assert(first_filled(v, k3) is None);
    assert(first_filled(v, k2) == filled(v, "query"@));
    assert(first_filled(v, k1) == if filled(v, "song"@) is Some {
        filled(v, "song"@)
    } else {
        first_filled(v, k2)
    });
    let other = seq!["name"@, "new_name"@];
    let o1 = other.drop_first();
    let o2 = o1.drop_first();
    assert(other[0] == "name"@ && o1[0] == "new_name"@ && o2.len() == 0);
    assert(first_filled(v, o2) is None);
    assert(first_filled(v, o1) == filled(v, "new_name"@));
}

/// A parameter `q` that is not empty goes before the body, and an empty one does
/// not.
pub proof fn lemma_parameter_first(
    pairs: Seq<(Seq<char>, Seq<char>)>,
    body: Result<Json, Seq<char>>,
    q: Seq<char>,
)
    ensures
        param_of(pairs, "q"@) == Some(q) && q.len() > 0 ==> wanted_query(pairs, body) == Ok::<
            Seq<char>,
            Seq<char>,
        >(q),
        param_of(pairs, "q"@) == Some(q) && q.len() == 0 ==> wanted_query(pairs, body)
            == query_in_body(body),
        param_of(pairs, "q"@) is None ==> wanted_query(pairs, body) == query_in_body(body),
{
}

/// Of several parameters with one name the last one counts; a name that does not
/// occur has no value.
pub proof fn lemma_last_parameter(pairs: Seq<(Seq<char>, Seq<char>)>, key: Seq<char>, k: int)
    ensures
        0 <= k < pairs.len() && pairs[k].0 == key && (forall|i: int|
            k < i < pairs.len() ==> (#[trigger] pairs[i]).0 != key) ==> param_of(pairs, key) == Some(
            pairs[k].1,
        ),
        (forall|i: int| 0 <= i < pairs.len() ==> (#[trigger] pairs[i]).0 != key) ==> param_of(
            pairs,
            key,
        ) is None,
    decreases pairs.len(),
{
    if pairs.len() > 0 {
        let front = pairs.drop_last();
        lemma_last_parameter(front, key, k);
        assert(pairs[pairs.len() - 1] == pairs.last());
        assert forall|i: int| 0 <= i < front.len() implies #[trigger] front[i] == pairs[i] by {}
        if 0 <= k < pairs.len() - 1 && pairs[k].0 == key && (forall|i: int|
            k < i < pairs.len() ==> (#[trigger] pairs[i]).0 != key) {
            assert(front[k] == pairs[k]);
            assert forall|i: int| k < i < front.len() implies (#[trigger] front[i]).0 != key by {
                assert(front[i] == pairs[i]);
            }
        }
        if forall|i: int| 0 <= i < pairs.len() ==> (#[trigger] pairs[i]).0 != key {
            assert forall|i: int| 0 <= i < front.len() implies (#[trigger] front[i]).0 != key by {
                assert(front[i] == pairs[i]);
            }
        }
    }
}

/// A piece of a query string is parted by its first equals sign, and both sides
/// are decoded; a piece without one gives nothing.
pub proof fn lemma_pair_parted(key: Seq<char>, value: Seq<char>)
    requires
        !contains_text(key, "="@),
    ensures
        pair_of(key + "="@ + value) == Some((urldecoded(key), urldecoded(value))),
        pair_of(key) is None,
{
    reveal_strlit("=");
    assert(key + "="@.drop_last() =~= key);
    lemma_find_after(key, "="@, value);
}

/// An address without a question mark is all path and has no parameters.
pub proof fn lemma_plain_address(url: Seq<char>)
    requires
        !url.contains('?'),
    ensures
        path_of(url) == url,
        query_pairs(url).len() == 0,
{
    lemma_unsplit(url, '?');
}

proof fn lemma_unsplit(s: Seq<char>, sep: char)
    requires
        !s.contains(sep),
    ensures
        split_on(s, sep) == seq![s],
    decreases s.len(),
{
    if s.len() > 0 {
        let front = s.drop_last();
        assert(!front.contains(sep)) by {
            if front.contains(sep) {
                let i = choose|i: int| 0 <= i < front.len() && front[i] == sep;
                assert(s[i] == sep);
            }
        }
        lemma_unsplit(front, sep);
        assert(s[s.len() - 1] == s.last());
        assert(front.push(s.last()) =~= s);
        assert(split_on(s, sep) =~= seq![s]);
    } else {
        assert(s =~= Seq::<char>::empty());
    }
}

/// The number at `key` of an object.
pub open spec fn number(v: Json, key: Seq<char>) -> Option<Real64> {
    match v.member(key) {
        Some(Json::Number(_, x)) => x,
        _ => None,
    }
}

/// A position is read from `secs`, else from `seconds`, else from `pos`, else
/// from `position`; a volume, of an object alone, from `vol`, else from
/// `volume`, else from `v`. Without any, a body is refused.
pub proof fn lemma_number_keys(v: Json, x: Real64)
    ensures
        number(v, "secs"@) == Some(x) ==> secs_in_body(Ok(v)) == Ok::<Real64, Seq<char>>(x),
        number(v, "secs"@) is None && number(v, "seconds"@) == Some(x) ==> secs_in_body(Ok(v))
            == Ok::<Real64, Seq<char>>(x),
        number(v, "secs"@) is None && number(v, "seconds"@) is None && number(v, "pos"@) == Some(x)
            ==> secs_in_body(Ok(v)) == Ok::<Real64, Seq<char>>(x),
        number(v, "secs"@) is None && number(v, "seconds"@) is None && number(v, "pos"@) is None
            && number(v, "position"@) == Some(x) ==> secs_in_body(Ok(v)) == Ok::<
            Real64,
            Seq<char>,
        >(x),
        number(v, "secs"@) is None && number(v, "seconds"@) is None && number(v, "pos"@) is None
            && number(v, "position"@) is None ==> secs_in_body(Ok(v)) == Err::<Real64, Seq<char>>(
            "missing 'secs' in body"@,
        ),
        !(v is Object) ==> vol_in_body(Ok(v)) == Err::<Real64, Seq<char>>("expected JSON object"@),
        v is Object && number(v, "vol"@) == Some(x) ==> vol_in_body(Ok(v)) == Ok::<
            Real64,
            Seq<char>,
        >(x),
        v is Object && number(v, "vol"@) is None && number(v, "volume"@) == Some(x) ==> vol_in_body(
            Ok(v),
        ) == Ok::<Real64, Seq<char>>(x),
        v is Object && number(v, "vol"@) is None && number(v, "volume"@) is None && number(v, "v"@)
            == Some(x) ==> vol_in_body(Ok(v)) == Ok::<Real64, Seq<char>>(x),
        v is Object && number(v, "vol"@) is None && number(v, "volume"@) is None && number(
            v,
            "v"@,
        ) is None ==> vol_in_body(Ok(v)) == Err::<Real64, Seq<char>>("missing 'volume' in body"@),
{
}

/// A repeat mode is read from `mode`, else from `name`; a text that names none
/// is refused with that text.
pub proof fn lemma_mode_keys(v: Json, t: Seq<char>)
    requires
        v is Object,
        v.text_at("mode"@) == Some(t) || (v.text_at("mode"@) is None && v.text_at("name"@) == Some(
            t,
        )),
    ensures
        match crate::model::repeat_mode_of(t) {
            Some(m) => mode_in_body(Ok(v)) == Ok::<RepeatMode, Seq<char>>(m),
            None => mode_in_body(Ok(v)) == Err::<RepeatMode, Seq<char>>("invalid mode: "@ + t),
        },
{
}

/// The positions of a move are the whole numbers at `from` and at `to`, in this
/// order; a body that lacks one is refused by its name.
pub proof fn lemma_move_keys(v: Json, from: i64, to: i64)
    requires
        v is Object,
    ensures
        v.member("from"@) matches Some(Json::Number(Some(f), _)) && v.member("to"@) matches Some(
            Json::Number(Some(t), _),
        ) && f == from && t == to && 0 <= from <= 0x7FFF_FFFF && 0 <= to <= 0x7FFF_FFFF ==> (
        reorder_in_body(Ok(v)) matches Ok((a, b)) && a == from && b == to),
        v.member("from"@) is None ==> reorder_in_body(Ok(v)) == Err::<(usize, usize), Seq<char>>(
            "missing integer 'from'"@,
        ),
        v.member("from"@) matches Some(Json::Number(Some(f), _)) && v.member("to"@) is None
            ==> reorder_in_body(Ok(v)) == Err::<(usize, usize), Seq<char>>("missing integer 'to'"@),
{
}

/// The songs of a batch are the texts of its list that are not empty, in their
/// order; anything else in the list is passed over.
pub proof fn lemma_batch_texts(list: Seq<Json>, next: Json)
    ensures
        filled_texts(Seq::<Json>::empty()).len() == 0,
        next matches Json::Text(s) ==> (s@.len() > 0 ==> filled_texts(list.push(next))
            == filled_texts(list).push(s@)),
        (next matches Json::Text(s) ==> s@.len() == 0) ==> filled_texts(list.push(next))
            == filled_texts(list),
{
    assert(list.push(next).drop_last() =~= list);
}

/// A batch without a single song is refused, and so is a body without a list.
pub proof fn lemma_empty_batch(v: Json)
    ensures
        v.member("songs"@) is None ==> songs_in_body(Ok(v)) == Err::<Seq<Seq<char>>, Seq<char>>(
            "missing 'songs' array in body"@,
        ),
        v.member("songs"@) matches Some(Json::List(l)) ==> (filled_texts(l@).len() == 0
            ==> songs_in_body(Ok(v)) == Err::<Seq<Seq<char>>, Seq<char>>(
            "missing 'songs' array in body"@,
        )),
        v.member("songs"@) matches Some(Json::List(l)) ==> (filled_texts(l@).len() > 0
            ==> songs_in_body(Ok(v)) == Ok::<Seq<Seq<char>>, Seq<char>>(filled_texts(l@))),
{
}

/// A download uses the address that the body gives, without white space around
/// it; a blank one, or none, means a search for the name.
pub proof fn lemma_download_source(v: Json, name: Seq<char>, t: Seq<char>)
    ensures
        v.text_at("url"@) == Some(t) && trimmed(t).len() > 0 ==> source_for(name, url_in_body(v))
            == trimmed(t),
        v.text_at("url"@) == Some(t) && trimmed(t).len() == 0 ==> source_for(name, url_in_body(v))
            == "ytsearch1:"@ + name,
        v.text_at("url"@) is None ==> source_for(name, url_in_body(v)) == "ytsearch1:"@ + name,
{
}

/// The first member of an object with a name is the one that is read.
pub proof fn lemma_first_member(members: Seq<(String, Json)>, key: Seq<char>, k: int)
    ensures
        0 <= k < members.len() && members[k].0@ == key && (forall|i: int|
            0 <= i < k ==> (#[trigger] members[i]).0@ != key) ==> member_of(members, key) == Some(
            members[k].1,
        ),
        (forall|i: int| 0 <= i < members.len() ==> (#[trigger] members[i]).0@ != key) ==> member_of(
            members,
            key,
        ) is None,
    decreases members.len(),
{
    if members.len() > 0 {
        let rest = members.drop_first();
        lemma_first_member(rest, key, k - 1);
        assert forall|i: int| 0 <= i < rest.len() implies #[trigger] rest[i] == members[i + 1] by {}
        if 0 < k < members.len() && members[k].0@ == key && (forall|i: int|
            0 <= i < k ==> (#[trigger] members[i]).0@ != key) {
            assert(rest[k - 1] == members[k]);
            assert(members[0].0@ != key);
            assert forall|i: int| 0 <= i < k - 1 implies (#[trigger] rest[i]).0@ != key by {
                assert(rest[i] == members[i + 1]);
            }
        }
        if forall|i: int| 0 <= i < members.len() ==> (#[trigger] members[i]).0@ != key {
            assert(members[0].0@ != key);
            assert forall|i: int| 0 <= i < rest.len() implies (#[trigger] rest[i]).0@ != key by {
                assert(rest[i] == members[i + 1]);
            }
        }
    }
}

/// Where a request does not say, or says what is no number, fifty entries of history are shown, a pick
/// needs a lead of thirty points, and as many results are searched for as are
/// configured.
pub proof fn lemma_defaults(
    pairs: Seq<(Seq<char>, Seq<char>)>,
    r: Result<Request, ApiError>,
    method: Seq<char>,
    path: Seq<char>,
    search_count: usize,
)
    ensures
        param_of(pairs, "limit"@) is None && is_plain_command(r, Route::History, pairs, method, path)
            ==> (r matches Ok(Request::History(n)) && n == 50),
        param_of(pairs, "margin"@) is None ==> margin_param(pairs) == 30,
        param_of(pairs, "limit"@) is None ==> count_param(pairs, "limit"@, search_count)
            == search_count,
        param_of(pairs, "limit"@) matches Some(t) ==> (parsed_unsigned(t, usize::MAX as nat) is None
            ==> count_param(pairs, "limit"@, search_count) == search_count),
        param_of(pairs, "limit"@) matches Some(t) ==> (parsed_unsigned(
            t,
            usize::MAX as nat,
        ) matches Some(n) ==> count_param(pairs, "limit"@, search_count) == n),
        param_of(pairs, "margin"@) matches Some(t) ==> (parsed_signed(t, i32::MAX as nat) is None
            ==> margin_param(pairs) == 30),
{
}

/// Bodies are read of requests that change something; a question has none, and
/// a blank body is null.
pub proof fn lemma_bodies(body: Seq<char>)
    ensures
        request_body(Method::Get, body) == Ok::<Json, Seq<char>>(Json::Null),
        trimmed(body).len() == 0 ==> request_body(Method::Post, body) == Ok::<Json, Seq<char>>(
            Json::Null,
        ),
        trimmed(body).len() > 0 ==> request_body(Method::Post, body) == json_of(body)
            && request_body(Method::Put, body) == json_of(body) && request_body(Method::Patch, body)
            == json_of(body) && request_body(Method::Delete, body) == json_of(body),
{
}

/// A body that could not be read is refused as a bad request, and who may not be
/// served hears nothing of it.
pub proof fn lemma_unreadable_body(
    r: Result<Request, ApiError>,
    authorized: bool,
    method: Method,
    url: Seq<char>,
    search_count: usize,
)
    requires
        received(r, authorized, method, url, None, search_count),
    ensures
        authorized ==> (r matches Err(e) && e.status == 400 && e.error@
            == "could not read request body"@),
        !authorized ==> (r matches Err(e) && e.status == 401 && e.error@ == "unauthorized"@),
{
}

/// The status of a reply: downloads are accepted, all else that succeeds is in
/// order; a search that finds nothing is not found, adding to a full queue is
/// too much, and all else that fails is a bad request.
pub proof fn lemma_statuses(c: Request, error: Seq<char>, len: nat, max: nat)
    ensures
        c is Init || c is InitBatch ==> success_status_of(c) == 202,
        !(c is Init || c is InitBatch) ==> success_status_of(c) == 200,
        c is Search ==> failure_status_of(c, error) == 404,
        c is Add ==> failure_status_of(c, queue_full_message(len, max)) == 413,
        c is Add && !contains_text(error, "queue full"@) ==> failure_status_of(c, error) == 400,
        !(c is Search || c is Add) ==> failure_status_of(c, error) == 400,
{
    reveal_strlit("queue full (");
    reveal_strlit("queue full");
    let m = queue_full_message(len, max);
    assert(m.subrange(0, 10) =~= "queue full"@);
    assert(occurs_at(m, "queue full"@, 0));
}

proof fn lemma_last_char(s: Seq<char>, suffix: Seq<char>)
    requires
        suffix.len() > 0,
        has_suffix(s, suffix),
    ensures
        s.len() >= suffix.len(),
        s.last() == suffix.last(),
{
    let n = suffix.len() as int;
    assert(s.subrange(s.len() - n, s.len() as int)[n - 1] == suffix[n - 1]);
}

/// What follows the name of a playlist says what is asked of it, whatever the
/// name is.
pub proof fn lemma_playlist_actions_read(name: Seq<char>)
    ensures
        action_of(name + "/add"@) == PlaylistAction::Add && playlist_named(name + "/add"@) == name,
        action_of(name + "/play"@) == PlaylistAction::Play && playlist_named(name + "/play"@)
            == name,
        action_of(name + "/reorder"@) == PlaylistAction::Reorder && playlist_named(
            name + "/reorder"@,
        ) == name,
        action_of(name + "/duplicate"@) == PlaylistAction::Duplicate && playlist_named(
            name + "/duplicate"@,
        ) == name,
        !has_suffix(name, "/add"@) && !has_suffix(name, "/play"@) && !has_suffix(name, "/reorder"@)
            && !has_suffix(name, "/duplicate"@) ==> action_of(name) == PlaylistAction::Whole
            && playlist_named(name) == name,
{
    reveal_strlit("/add");
    reveal_strlit("/play");
    reveal_strlit("/reorder");
    reveal_strlit("/duplicate");
    reveal_strlit("");
    assert("/add"@.last() == 'd' && "/play"@.last() == 'y');
    assert("/reorder"@.last() == 'r' && "/duplicate"@.last() == 'e');
    lemma_suffix_read(name, "/add"@);
    lemma_suffix_read(name, "/play"@);
    lemma_suffix_read(name, "/reorder"@);
    lemma_suffix_read(name, "/duplicate"@);
    assert(name.subrange(0, name.len() as int) =~= name);
}

proof fn lemma_suffix_read(name: Seq<char>, suffix: Seq<char>)
    requires
        suffix.len() > 0,
    ensures
        has_suffix(name + suffix, suffix),
        (name + suffix).last() == suffix.last(),
        (name + suffix).subrange(0, name.len() as int) == name,
        suffix.last() != 'd' ==> !has_suffix(name + suffix, "/add"@),
        suffix.last() != 'y' ==> !has_suffix(name + suffix, "/play"@),
        suffix.last() != 'r' ==> !has_suffix(name + suffix, "/reorder"@),
        suffix.last() != 'e' ==> !has_suffix(name + suffix, "/duplicate"@),
{
    let s = name + suffix;
    assert(s.subrange(name.len() as int, s.len() as int) =~= suffix);
    assert(s.subrange(0, name.len() as int) =~= name);
    assert(s.last() == suffix.last());
    reveal_strlit("/add");
    reveal_strlit("/play");
    reveal_strlit("/reorder");
    reveal_strlit("/duplicate");
    if has_suffix(s, "/add"@) {
        lemma_last_char(s, "/add"@);
    }
    if has_suffix(s, "/play"@) {
        lemma_last_char(s, "/play"@);
    }
    if has_suffix(s, "/reorder"@) {
        lemma_last_char(s, "/reorder"@);
    }
    if has_suffix(s, "/duplicate"@) {
        lemma_last_char(s, "/duplicate"@);
    }
}

/// The path of a song in a playlist names the playlist and the song.
pub proof fn lemma_song_path_read(name: Seq<char>, id: i64)
    requires
        !contains_text(name + "/songs/"@.drop_last(), "/songs/"@),
    ensures
        song_of_path(name + "/songs/"@ + decimal_int(id as int)) == Some((name, id as int)),
{
    reveal_strlit("/songs/");
    lemma_find_after(name, "/songs/"@, decimal_int(id as int));
    lemma_decimal_int_parsed(id as int, i64::MAX as nat);
}

/// A path with slashes at its end is read like the path without them.
pub proof fn lemma_slashes_cut(path: Seq<char>)
    ensures
        without_slashes(path.push('/')) == without_slashes(path),
        path.len() > 0 && path.last() != '/' ==> without_slashes(path) == path,
        without_slashes(path).len() > 0 ==> without_slashes(path).last() != '/',
    decreases path.len(),
{
    assert(path.push('/').drop_last() =~= path);
    if path.len() > 0 {
        lemma_slashes_cut(path.drop_last());
    }
}

/// The bare address is the help, and what a search posts is searched for.
pub proof fn lemma_root_and_posted_search()
    ensures
        get_route(""@) == Some(Route::Help),
        get_route("/help"@) == Some(Route::Help),
        post_route("/search"@) == Some(Route::Search),
{
}

/// No two paths ask for the same, but that the bare address and `/help` both ask
/// for the help.
pub proof fn lemma_paths_distinct(a: Seq<char>, b: Seq<char>)
    ensures
        get_route(a) is Some && get_route(a) == get_route(b) && !(get_route(a) == Some(Route::Help))
            ==> a == b,
        get_route(a) == Some(Route::Help) ==> a == ""@ || a == "/help"@,
        post_route(a) is Some && post_route(a) == post_route(b) ==> a == b,
{
}

/// A method that the daemon does not know, and one that it knows for other
/// paths, asks for nothing: the request is answered with 404, its method and
/// its path.
pub proof fn lemma_unknown_method(
    r: Result<Request, ApiError>,
    route: Route,
    method: Method,
    url: Seq<char>,
    body: Result<Json, Seq<char>>,
    search_count: usize,
)
    requires
        method is Put || method is Other,
        is_route(route, method, path_of(url)),
        is_command(r, route, method, url, body, search_count),
    ensures
        r matches Err(e) && e.status == 404 && e.error@ == "no route for "@ + method.name() + " "@
            + path_of(url),
{
}

} // verus!
