//! Reading requests: query strings, bodies, and what they ask the daemon to do.

use vstd::prelude::*;

use crate::auth::{bearer_of, is_authorized, is_local, request_is_authorized, token_text, Peer};
use crate::json::{body_json, parse_body, Json};
use crate::model::{repeat_mode_of, RepeatMode};
use crate::ranking::AUTO_PICK_MARGIN;
use crate::real64::Real64;
use crate::routes::{is_route, route_for, AudioRoute, Method, Route};
use crate::text::{
    concat2, concat3, contains, contains_text, find_chars, find_text, opt_text, parse_i64,
    parse_u64, parsed_signed, parsed_unsigned, same_text, split_char, split_on, texts, trim, trimmed,
    chars_of, string_of,
};
use crate::urltext::{urldecode, urldecoded};

verus! {

/// The names and values of a query string, as texts.
pub open spec fn pair_views(pairs: Seq<(String, String)>) -> Seq<(Seq<char>, Seq<char>)> {
    pairs.map_values(|p: (String, String)| (p.0@, p.1@))
}

/// The name and the value of one piece of a query string, decoded.
pub open spec fn pair_of(piece: Seq<char>) -> Option<(Seq<char>, Seq<char>)> {
    match find_text(piece, "="@) {
        Some(i) => Some(
            (
                urldecoded(piece.subrange(0, i)),
                urldecoded(piece.subrange(i + 1, piece.len() as int)),
            ),
        ),
        None => None,
    }
}

/// The names and values of pieces; pieces without `=` do not count.
pub open spec fn pairs_of(pieces: Seq<Seq<char>>) -> Seq<(Seq<char>, Seq<char>)>
    decreases pieces.len(),
{
    if pieces.len() == 0 {
        Seq::empty()
    } else {
        let head = pairs_of(pieces.drop_last());
        match pair_of(pieces.last()) {
            Some(p) => head.push(p),
            None => head,
        }
    }
}

/// The names and values between the first and the second `?` of an address.
pub open spec fn query_pairs(url: Seq<char>) -> Seq<(Seq<char>, Seq<char>)> {
    let parts = split_on(url, '?');
    if parts.len() < 2 {
        Seq::empty()
    } else {
        pairs_of(split_on(parts[1], '&'))
    }
}

fn read_pair(piece: &str) -> (r: Option<(String, String)>)
    ensures
        match r {
            Some((k, v)) => pair_of(piece@) == Some((k@, v@)),
            None => pair_of(piece@) is None,
        },
{
    let cs = chars_of(piece);
    let n: usize = cs.len();
    match find_chars(&cs, "=") {
        Some(i) => {
            proof {
                reveal_strlit("=");
            }
            let k = string_of(&cs, 0, i);
            let v = string_of(&cs, i + 1, n);
            Some((urldecode(k.as_str()), urldecode(v.as_str())))
        },
        None => None,
    }
}

/// Reads the query string of an address.
pub fn parse_query(url: &str) -> (r: Vec<(String, String)>)
    ensures
        pair_views(r@) == query_pairs(url@),
{
    let parts = split_char(url, '?');
    let mut out: Vec<(String, String)> = Vec::new();
    proof {
        assert(parts@.len() == split_on(url@, '?').len());
        assert(pair_views(out@) =~= Seq::<(Seq<char>, Seq<char>)>::empty());
    }
    if parts.len() < 2 {
        return out;
    }
    assert(split_on(url@, '?')[1] == parts@[1]@);
    let pieces = split_char(parts[1].as_str(), '&');
    let ghost all = split_on(parts@[1]@, '&');
    let mut i: usize = 0;
    while i < pieces.len()
        invariant
            texts(pieces@) == all,
            i <= pieces@.len(),
            pair_views(out@) == pairs_of(all.take(i as int)),
        decreases pieces@.len() - i,
    {
        proof {
            assert(all.len() == pieces@.len());
            assert(all[i as int] == pieces@[i as int]@);
            assert(all.take(i + 1).drop_last() =~= all.take(i as int));
        }
        let ghost before = out@;
        match read_pair(pieces[i].as_str()) {
            Some((k, v)) => {
                out.push((k, v));
                proof {
                    assert(pair_views(out@) =~= pair_views(before).push((k@, v@)));
                }
            },
            None => {},
        }
        i += 1;
    }
    proof {
        assert(all.take(i as int) =~= all);
    }
    out
}

/// The value of a name; the last one where it occurs more than once.
pub open spec fn param_of(pairs: Seq<(Seq<char>, Seq<char>)>, key: Seq<char>) -> Option<Seq<char>>
    decreases pairs.len(),
{
    if pairs.len() == 0 {
        None
    } else if pairs.last().0 == key {
        Some(pairs.last().1)
    } else {
        param_of(pairs.drop_last(), key)
    }
}

/// Looks up the value of a name.
pub fn param(pairs: &Vec<(String, String)>, key: &str) -> (r: Option<String>)
    ensures
        opt_text(r) == param_of(pair_views(pairs@), key@),
{
    let ghost all = pair_views(pairs@);
    let mut i: usize = pairs.len();
    proof {
        assert(all.take(i as int) =~= all);
    }
    while i > 0
        invariant
            all == pair_views(pairs@),
            i <= pairs@.len(),
            param_of(all, key@) == param_of(all.take(i as int), key@),
        decreases i,
    {
        proof {
            assert(all.take(i as int).last() == (pairs@[i - 1].0@, pairs@[i - 1].1@));
            assert(all.take(i as int).drop_last() =~= all.take(i - 1));
        }
        if same_text(pairs[i - 1].0.as_str(), key) {
            return Some(pairs[i - 1].1.clone());
        }
        i -= 1;
    }
    None
}

/// The path of an address: what stands before the first `?`.
pub open spec fn path_of(url: Seq<char>) -> Seq<char> {
    split_on(url, '?')[0]
}

fn url_path(url: &str) -> (r: String)
    ensures
        r@ == path_of(url@),
{
    let parts = split_char(url, '?');
    assert(split_on(url@, '?')[0] == parts@[0]@);
    parts[0].clone()
}

/// The outcome of reading something, its texts as texts.
pub open spec fn text_outcome(r: Result<String, String>) -> Result<Seq<char>, Seq<char>> {
    match r {
        Ok(s) => Ok(s@),
        Err(e) => Err(e@),
    }
}

/// A parsed body, its error as text.
pub open spec fn body_outcome(body: Result<Json, String>) -> Result<Json, Seq<char>> {
    match body {
        Ok(j) => Ok(j),
        Err(e) => Err(e@),
    }
}

/// The text at `key`, where it is not empty.
pub open spec fn filled(v: Json, key: Seq<char>) -> Option<Seq<char>> {
    match v.text_at(key) {
        Some(t) => if t.len() > 0 {
            Some(t)
        } else {
            None
        },
        None => None,
    }
}

fn get_filled(v: &Json, key: &str) -> (r: Option<String>)
    ensures
        opt_text(r) == filled(*v, key@),
{
    match v.get_text(key) {
        Some(t) => {
            if t.as_str().unicode_len() > 0 {
                Some(t)
            } else {
                None
            }
        },
        None => None,
    }
}

/// The first key of a list at which there is text.
pub open spec fn first_filled(v: Json, keys: Seq<Seq<char>>) -> Option<Seq<char>>
    decreases keys.len(),
{
    if keys.len() == 0 {
        None
    } else if filled(v, keys[0]) is Some {
        filled(v, keys[0])
    } else {
        first_filled(v, keys.drop_first())
    }
}

/// The keys of a list, as texts.
pub open spec fn key_texts(keys: Seq<&'static str>) -> Seq<Seq<char>> {
    keys.map_values(|k: &'static str| k@)
}

fn get_first_filled(v: &Json, keys: &Vec<&'static str>) -> (r: Option<String>)
    ensures
        opt_text(r) == first_filled(*v, key_texts(keys@)),
{
    let ghost all = key_texts(keys@);
    proof {
        assert(all.skip(0) =~= all);
    }
    let mut i: usize = 0;
    while i < keys.len()
        invariant
            all == key_texts(keys@),
            i <= keys@.len(),
            first_filled(*v, all) == first_filled(*v, all.skip(i as int)),
        decreases keys@.len() - i,
    {
        proof {
            assert(all.skip(i as int)[0] == keys@[i as int]@);
            assert(all.skip(i as int).drop_first() =~= all.skip(i + 1));
        }
        match get_filled(v, keys[i]) {
            Some(t) => {
                return Some(t);
            },
            None => {},
        }
        i += 1;
    }
    None
}

/// The message for a body that is not JSON.
pub open spec fn bad_body(e: Seq<char>) -> Seq<char> {
    "invalid JSON body: "@ + e
}

/// The text that a body holds at the first of some keys, or what is wrong.
pub open spec fn text_in_body(
    body: Result<Json, Seq<char>>,
    keys: Seq<Seq<char>>,
    missing: Seq<char>,
) -> Result<Seq<char>, Seq<char>> {
    match body {
        Ok(v) => match first_filled(v, keys) {
            Some(t) => Ok(t),
            None => Err(missing),
        },
        Err(e) => Err(bad_body(e)),
    }
}

fn read_text(body: &Result<Json, String>, keys: &Vec<&'static str>, missing: &str) -> (r: Result<
    String,
    String,
>)
    ensures
        text_outcome(r) == text_in_body(body_outcome(*body), key_texts(keys@), missing@),
{
    match body {
        Ok(v) => match get_first_filled(v, keys) {
            Some(t) => Ok(t),
            None => Err(String::from_str(missing)),
        },
        Err(e) => Err(concat2("invalid JSON body: ", e.as_str())),
    }
}

/// What a request looks for: the parameter `q`, else the body.
pub open spec fn wanted_query(
    pairs: Seq<(Seq<char>, Seq<char>)>,
    body: Result<Json, Seq<char>>,
) -> Result<Seq<char>, Seq<char>> {
    match param_of(pairs, "q"@) {
        Some(q) => if q.len() > 0 {
            Ok(q)
        } else {
            query_in_body(body)
        },
        None => query_in_body(body),
    }
}

/// What a body looks for.
pub open spec fn query_in_body(body: Result<Json, Seq<char>>) -> Result<Seq<char>, Seq<char>> {
    text_in_body(
        body,
        seq!["query"@, "name"@, "song"@, "q"@],
        "missing 'query' parameter"@,
    )
}

/// What a request looks for: the parameter `q`, else `query`, `name`, `song`
/// or `q` of the body.
pub fn query_or_body(pairs: &Vec<(String, String)>, body: &Result<Json, String>) -> (r: Result<
    String,
    String,
>)
    ensures
        text_outcome(r) == wanted_query(pair_views(pairs@), body_outcome(*body)),
{
    match param(pairs, "q") {
        Some(q) => {
            if q.as_str().unicode_len() > 0 {
                return Ok(q);
            }
        },
        None => {},
    }
    let keys: Vec<&'static str> = vec!["query", "name", "song", "q"];
    proof {
        assert(key_texts(keys@) =~= seq!["query"@, "name"@, "song"@, "q"@]);
    }
    read_text(body, &keys, "missing 'query' parameter")
}

/// The name in a body.
pub open spec fn name_in_body(body: Result<Json, Seq<char>>) -> Result<Seq<char>, Seq<char>> {
    text_in_body(body, seq!["name"@, "song"@, "query"@], "missing 'name' or 'song' in body"@)
}

/// The name in a body: `name`, `song` or `query`.
pub fn name_from_body(body: &Result<Json, String>) -> (r: Result<String, String>)
    ensures
        text_outcome(r) == name_in_body(body_outcome(*body)),
{
    let keys: Vec<&'static str> = vec!["name", "song", "query"];
    proof {
        assert(key_texts(keys@) =~= seq!["name"@, "song"@, "query"@]);
    }
    read_text(body, &keys, "missing 'name' or 'song' in body")
}

/// The new name in a body.
pub open spec fn new_name_in_body(body: Result<Json, Seq<char>>) -> Result<Seq<char>, Seq<char>> {
    text_in_body(body, seq!["name"@, "new_name"@], "missing 'name' in body"@)
}

/// The new name in a body: `name` or `new_name`.
pub fn new_name_from_body(body: &Result<Json, String>) -> (r: Result<String, String>)
    ensures
        text_outcome(r) == new_name_in_body(body_outcome(*body)),
{
    let keys: Vec<&'static str> = vec!["name", "new_name"];
    proof {
        assert(key_texts(keys@) =~= seq!["name"@, "new_name"@]);
    }
    read_text(body, &keys, "missing 'name' in body")
}

/// The address in a body, without surrounding white space.
pub open spec fn url_in_body(v: Json) -> Option<Seq<char>> {
    match v.text_at("url"@) {
        Some(t) => if trimmed(t).len() > 0 {
            Some(trimmed(t))
        } else {
            None
        },
        None => None,
    }
}

/// The name in a body, and the address if one is given.
pub fn name_and_url_from_body(body: &Result<Json, String>) -> (r: Result<
    (String, Option<String>),
    String,
>)
    ensures
        match r {
            Ok((name, url)) => name_in_body(body_outcome(*body)) == Ok::<Seq<char>, Seq<char>>(name@)
                && (*body matches Ok(v) && opt_text(url) == url_in_body(v)),
            Err(e) => name_in_body(body_outcome(*body)) == Err::<Seq<char>, Seq<char>>(e@),
        },
{
    match name_from_body(body) {
        Ok(name) => match body {
            Ok(v) => {
                let url = match v.get_text("url") {
                    Some(t) => {
                        let t = trim(t.as_str());
                        if t.as_str().unicode_len() > 0 {
                            Some(t)
                        } else {
                            None
                        }
                    },
                    None => None,
                };
                Ok((name, url))
            },
            Err(e) => Err(concat2("invalid JSON body: ", e.as_str())),
        },
        Err(e) => Err(e),
    }
}

/// The non-empty texts of a list of values.
pub open spec fn filled_texts(list: Seq<Json>) -> Seq<Seq<char>>
    decreases list.len(),
{
    if list.len() == 0 {
        Seq::empty()
    } else {
        let head = filled_texts(list.drop_last());
        match list.last().text() {
            Some(t) => if t.len() > 0 {
                head.push(t)
            } else {
                head
            },
            None => head,
        }
    }
}

/// The songs that a body lists.
pub open spec fn songs_in_body(body: Result<Json, Seq<char>>) -> Result<Seq<Seq<char>>, Seq<char>> {
    match body {
        Ok(v) => match v.member("songs"@) {
            Some(Json::List(list)) => if filled_texts(list@).len() > 0 {
                Ok(filled_texts(list@))
            } else {
                Err("missing 'songs' array in body"@)
            },
            _ => Err("missing 'songs' array in body"@),
        },
        Err(e) => Err(bad_body(e)),
    }
}

fn collect_texts(list: &Vec<Json>) -> (r: Vec<String>)
    ensures
        texts(r@) == filled_texts(list@),
{
    let mut out: Vec<String> = Vec::new();
    let mut i: usize = 0;
    while i < list.len()
        invariant
            i <= list@.len(),
            texts(out@) == filled_texts(list@.take(i as int)),
        decreases list@.len() - i,
    {
        proof {
            assert(list@.take(i + 1).drop_last() =~= list@.take(i as int));
        }
        let ghost before = out@;
        match &list[i] {
            Json::Text(s) => {
                if s.as_str().unicode_len() > 0 {
                    out.push(s.clone());
                    proof {
                        assert(texts(out@) =~= texts(before).push(s@));
                    }
                }
            },
            _ => {},
        }
        i += 1;
    }
    proof {
        assert(list@.take(i as int) =~= list@);
    }
    out
}

/// The songs that a body lists, without empty ones.
pub fn songs_from_body(body: &Result<Json, String>) -> (r: Result<Vec<String>, String>)
    ensures
        match r {
            Ok(list) => songs_in_body(body_outcome(*body)) == Ok::<Seq<Seq<char>>, Seq<char>>(
                texts(list@),
            ),
            Err(e) => songs_in_body(body_outcome(*body)) == Err::<Seq<Seq<char>>, Seq<char>>(e@),
        },
{
    match body {
        Ok(v) => {
            match v.get("songs") {
                Some(Json::List(list)) => {
                    let out = collect_texts(list);
                    assert(texts(out@).len() == out@.len());
                    if out.len() > 0 {
                        return Ok(out);
                    }
                },
                _ => {},
            }
            Err(String::from_str("missing 'songs' array in body"))
        },
        Err(e) => Err(concat2("invalid JSON body: ", e.as_str())),
    }
}

/// The number at `key`.
pub open spec fn number_at(v: Json, key: Seq<char>) -> Option<Real64> {
    match v.member(key) {
        Some(n) => n.double(),
        None => None,
    }
}

fn get_number_at(v: &Json, key: &str) -> (r: Option<Real64>)
    ensures
        r == number_at(*v, key@),
{
    match v.get(key) {
        Some(n) => n.as_real(),
        None => None,
    }
}

/// The position in a body.
pub open spec fn secs_in_body(body: Result<Json, Seq<char>>) -> Result<Real64, Seq<char>> {
    match body {
        Ok(v) => if number_at(v, "secs"@) is Some {
            Ok(number_at(v, "secs"@)->0)
        } else if number_at(v, "seconds"@) is Some {
            Ok(number_at(v, "seconds"@)->0)
        } else if number_at(v, "pos"@) is Some {
            Ok(number_at(v, "pos"@)->0)
        } else if number_at(v, "position"@) is Some {
            Ok(number_at(v, "position"@)->0)
        } else {
            Err("missing 'secs' in body"@)
        },
        Err(e) => Err(bad_body(e)),
    }
}

/// A number that was read, the error as text.
pub open spec fn number_outcome(r: Result<Real64, String>) -> Result<Real64, Seq<char>> {
    match r {
        Ok(x) => Ok(x),
        Err(e) => Err(e@),
    }
}

/// The position in a body, in seconds.
pub fn secs_from_body(body: &Result<Json, String>) -> (r: Result<Real64, String>)
    ensures
        number_outcome(r) == secs_in_body(body_outcome(*body)),
{
    match body {
        Ok(v) => match get_number_at(v, "secs") {
            Some(x) => Ok(x),
            None => match get_number_at(v, "seconds") {
                Some(x) => Ok(x),
                None => match get_number_at(v, "pos") {
                    Some(x) => Ok(x),
                    None => match get_number_at(v, "position") {
                        Some(x) => Ok(x),
                        None => Err(String::from_str("missing 'secs' in body")),
                    },
                },
            },
        },
        Err(e) => Err(concat2("invalid JSON body: ", e.as_str())),
    }
}

/// The volume in a body.
pub open spec fn vol_in_body(body: Result<Json, Seq<char>>) -> Result<Real64, Seq<char>> {
    match body {
        Ok(v) => if !(v is Object) {
            Err("expected JSON object"@)
        } else if number_at(v, "vol"@) is Some {
            Ok(number_at(v, "vol"@)->0)
        } else if number_at(v, "volume"@) is Some {
            Ok(number_at(v, "volume"@)->0)
        } else if number_at(v, "v"@) is Some {
            Ok(number_at(v, "v"@)->0)
        } else {
            Err("missing 'volume' in body"@)
        },
        Err(e) => Err(bad_body(e)),
    }
}

fn is_object(v: &Json) -> (r: bool)
    ensures
        r == (v is Object),
{
    match v {
        Json::Object(_) => true,
        _ => false,
    }
}

/// The volume in a body.
pub fn vol_from_body(body: &Result<Json, String>) -> (r: Result<Real64, String>)
    ensures
        number_outcome(r) == vol_in_body(body_outcome(*body)),
{
    match body {
        Ok(v) => {
            if !is_object(v) {
                return Err(String::from_str("expected JSON object"));
            }
            match get_number_at(v, "vol") {
                Some(x) => Ok(x),
                None => match get_number_at(v, "volume") {
                    Some(x) => Ok(x),
                    None => match get_number_at(v, "v") {
                        Some(x) => Ok(x),
                        None => Err(String::from_str("missing 'volume' in body")),
                    },
                },
            }
        },
        Err(e) => Err(concat2("invalid JSON body: ", e.as_str())),
    }
}

/// The mode that a text names, or what is wrong with it.
pub open spec fn mode_named(s: Seq<char>) -> Result<RepeatMode, Seq<char>> {
    match repeat_mode_of(s) {
        Some(m) => Ok(m),
        None => Err("invalid mode: "@ + s),
    }
}

/// The repeat mode in a body.
pub open spec fn mode_in_body(body: Result<Json, Seq<char>>) -> Result<RepeatMode, Seq<char>> {
    match body {
        Ok(v) => if !(v is Object) {
            Err("expected JSON object"@)
        } else if v.text_at("mode"@) is Some {
            mode_named(v.text_at("mode"@)->0)
        } else if v.text_at("name"@) is Some {
            mode_named(v.text_at("name"@)->0)
        } else {
            Err("missing 'mode' in body"@)
        },
        Err(e) => Err(bad_body(e)),
    }
}

/// A mode that was read, the error as text.
pub open spec fn mode_outcome(r: Result<RepeatMode, String>) -> Result<RepeatMode, Seq<char>> {
    match r {
        Ok(m) => Ok(m),
        Err(e) => Err(e@),
    }
}

fn read_mode(s: &str) -> (r: Result<RepeatMode, String>)
    ensures
        mode_outcome(r) == mode_named(s@),
{
    match RepeatMode::parse(s) {
        Some(m) => Ok(m),
        None => Err(concat2("invalid mode: ", s)),
    }
}

/// The repeat mode in a body: `mode` or `name`.
pub fn mode_from_body_or_default(body: &Result<Json, String>) -> (r: Result<RepeatMode, String>)
    ensures
        mode_outcome(r) == mode_in_body(body_outcome(*body)),
{
    match body {
        Ok(v) => {
            if !is_object(v) {
                return Err(String::from_str("expected JSON object"));
            }
            match v.get_text("mode") {
                Some(s) => read_mode(s.as_str()),
                None => match v.get_text("name") {
                    Some(s) => read_mode(s.as_str()),
                    None => Err(String::from_str("missing 'mode' in body")),
                },
            }
        },
        Err(e) => Err(concat2("invalid JSON body: ", e.as_str())),
    }
}

/// The whole number at `key`.
pub open spec fn whole_at(v: Json, key: Seq<char>) -> Option<i64> {
    match v.member(key) {
        Some(n) => n.whole(),
        None => None,
    }
}

fn get_whole_at(v: &Json, key: &str) -> (r: Option<i64>)
    ensures
        r == whole_at(*v, key@),
{
    match v.get(key) {
        Some(n) => n.as_whole(),
        None => None,
    }
}

/// The positions in a body between which a song moves.
pub open spec fn reorder_in_body(body: Result<Json, Seq<char>>) -> Result<
    (usize, usize),
    Seq<char>,
> {
    match body {
        Ok(v) => if !(v is Object) {
            Err("expected JSON object"@)
        } else {
            match (whole_at(v, "from"@), whole_at(v, "to"@)) {
                (None, _) => Err("missing integer 'from'"@),
                (Some(_), None) => Err("missing integer 'to'"@),
                (Some(from), Some(to)) => Ok((from as usize, to as usize)),
            }
        },
        Err(e) => Err(bad_body(e)),
    }
}

/// The positions in a body between which a song moves: `from` and `to`.
pub fn reorder_from_body(body: &Result<Json, String>) -> (r: Result<(usize, usize), String>)
    ensures
        match r {
            Ok(p) => reorder_in_body(body_outcome(*body)) == Ok::<(usize, usize), Seq<char>>(p),
            Err(e) => reorder_in_body(body_outcome(*body)) == Err::<(usize, usize), Seq<char>>(e@),
        },
{
    match body {
        Ok(v) => {
            if !is_object(v) {
                return Err(String::from_str("expected JSON object"));
            }
            match get_whole_at(v, "from") {
                None => Err(String::from_str("missing integer 'from'")),
                Some(from) => match get_whole_at(v, "to") {
                    None => Err(String::from_str("missing integer 'to'")),
                    Some(to) => Ok((from as usize, to as usize)),
                },
            }
        },
        Err(e) => Err(concat2("invalid JSON body: ", e.as_str())),
    }
}

/// A request that failed: the status to answer with and what is wrong.
#[derive(Debug)]
pub struct ApiError {
    pub status: u16,
    pub error: String,
}

/// Lets a request in, or turns it away as unauthorized. `token` is the token
/// that is asked for, if one is.
pub fn let_in(
    peer: Option<Peer>,
    headers: &Vec<(String, String)>,
    token: Option<&str>,
) -> (r: Result<(), ApiError>)
    ensures
        is_authorized(peer, headers@, token_text(token)) ==> r is Ok,
        !is_authorized(peer, headers@, token_text(token)) ==> (r matches Err(e) && e.status == 401
            && e.error@ == "unauthorized"@),
{
    if request_is_authorized(peer, headers, token) {
        Ok(())
    } else {
        Err(ApiError { status: 401, error: String::from_str("unauthorized") })
    }
}

/// What a request asks the daemon to do, with everything that it needs.
#[derive(Debug)]
pub enum Request {
    Help,
    Songs(Option<String>),
    Search(String),
    SearchAll(String),
    SearchYt(String, usize),
    SearchYtRanked(String, usize),
    /// A query, how many candidates to show, and the lead that is needed.
    Pick(String, usize, i32),
    Queue,
    NowPlaying,
    Downloads,
    History(usize),
    Stats,
    Play(String),
    Add(String),
    Del(String),
    /// A name and the source to download from.
    Init(String, String),
    InitBatch(Vec<String>),
    Skip,
    QueueShuffle,
    QueueClear,
    Pause,
    Resume,
    Seek(Real64),
    RepeatGet,
    RepeatSet(RepeatMode),
    VolumeGet,
    VolumeSet(Real64),
    PlaylistsList,
    PlaylistCreate(String),
    PlaylistGet(String),
    /// The old name and the new one.
    PlaylistRename(String, String),
    PlaylistDelete(String),
    /// A playlist and what to look for.
    PlaylistAdd(String, String),
    PlaylistPlay(String),
    PlaylistRemoveSong(String, i64),
    /// A playlist and the positions between which a song moves.
    PlaylistReorder(String, usize, usize),
    /// A playlist and the name of the copy.
    PlaylistDuplicate(String, String),
}

/// How many history entries are shown where the request does not say.
pub const DEFAULT_HISTORY: usize = 50;

/// The request was refused with a status and a message.
pub open spec fn refused(r: Result<Request, ApiError>, status: u16, message: Seq<char>) -> bool {
    r matches Err(e) && e.status == status && e.error@ == message
}

/// The count that a parameter gives; `default` where it gives none.
pub open spec fn count_param(
    pairs: Seq<(Seq<char>, Seq<char>)>,
    key: Seq<char>,
    default: usize,
) -> int {
    match param_of(pairs, key) {
        Some(t) => match parsed_unsigned(t, usize::MAX as nat) {
            Some(n) => n as int,
            None => default as int,
        },
        None => default as int,
    }
}

fn read_count(pairs: &Vec<(String, String)>, key: &str, default: usize) -> (r: usize)
    ensures
        r as int == count_param(pair_views(pairs@), key@, default),
{
    match param(pairs, key) {
        Some(t) => match parse_u64(t.as_str(), usize::MAX as u64) {
            Some(n) => n as usize,
            None => default,
        },
        None => default,
    }
}

/// The lead that a request asks for; the default where it asks for none.
pub open spec fn margin_param(pairs: Seq<(Seq<char>, Seq<char>)>) -> int {
    match param_of(pairs, "margin"@) {
        Some(t) => match parsed_signed(t, i32::MAX as nat) {
            Some(n) => n,
            None => AUTO_PICK_MARGIN as int,
        },
        None => AUTO_PICK_MARGIN as int,
    }
}

fn read_margin(pairs: &Vec<(String, String)>) -> (r: i32)
    ensures
        r as int == margin_param(pair_views(pairs@)),
{
    match param(pairs, "margin") {
        Some(t) => match parse_i64(t.as_str(), i32::MAX as i64) {
            Some(n) => {
                proof {
                    lemma_signed_range(t@, i32::MAX as nat);
                }
                n as i32
            },
            None => AUTO_PICK_MARGIN,
        },
        None => AUTO_PICK_MARGIN,
    }
}

proof fn lemma_signed_range(s: Seq<char>, max: nat)
    ensures
        parsed_signed(s, max) matches Some(n) ==> -(max as int) - 1 <= n <= max,
{
}

/// The source that a download uses: the address given, else a search for the
/// name.
pub open spec fn source_for(name: Seq<char>, url: Option<Seq<char>>) -> Seq<char> {
    match url {
        Some(u) => u,
        None => "ytsearch1:"@ + name,
    }
}

/// The source that a download of `name` uses.
pub fn download_source(name: &str, url: Option<String>) -> (r: String)
    ensures
        r@ == source_for(name@, opt_text(url)),
{
    match url {
        Some(u) => u,
        None => concat2("ytsearch1:", name),
    }
}

/// `r` is what a request for one of the search routes asks for.
pub open spec fn is_query_command(
    r: Result<Request, ApiError>,
    route: Route,
    pairs: Seq<(Seq<char>, Seq<char>)>,
    body: Result<Json, Seq<char>>,
    search_count: usize,
) -> bool {
    let limit = count_param(pairs, "limit"@, search_count);
    match wanted_query(pairs, body) {
        Err(e) => refused(r, 400, e),
        Ok(q) => match route {
            Route::Search => r matches Ok(Request::Search(s)) && s@ == q,
            Route::SearchAll => r matches Ok(Request::SearchAll(s)) && s@ == q,
            Route::SearchYt => r matches Ok(Request::SearchYt(s, n)) && s@ == q && n == limit,
            Route::SearchYtRanked => r matches Ok(Request::SearchYtRanked(s, n)) && s@ == q && n
                == limit,
            Route::Pick => r matches Ok(Request::Pick(s, n, m)) && s@ == q && n == limit && m
                == margin_param(pairs),
            Route::Play => r matches Ok(Request::Play(s)) && s@ == q,
            Route::Add => r matches Ok(Request::Add(s)) && s@ == q,
            Route::Del => r matches Ok(Request::Del(s)) && s@ == q,
            Route::PlaylistAdd(name) => r matches Ok(Request::PlaylistAdd(n, s)) && n@ == name@
                && s@ == q,
            _ => true,
        },
    }
}

/// The route takes something to look for.
pub open spec fn takes_query(route: Route) -> bool {
    route is Search || route is SearchAll || route is SearchYt || route is SearchYtRanked
        || route is Pick || route is Play || route is Add || route is Del || route is PlaylistAdd
}

/// `r` is what a request for a route that reads its body asks for.
pub open spec fn is_body_command(
    r: Result<Request, ApiError>,
    route: Route,
    body: Result<Json, Seq<char>>,
) -> bool {
    match route {
        Route::InitAsync => match name_in_body(body) {
            Ok(name) => r matches Ok(Request::Init(n, s)) && n@ == name && (body matches Ok(v)
                && s@ == source_for(name, url_in_body(v))),
            Err(e) => refused(r, 400, e),
        },
        Route::InitBatch => match songs_in_body(body) {
            Ok(list) => r matches Ok(Request::InitBatch(names)) && texts(names@) == list,
            Err(e) => refused(r, 400, e),
        },
        Route::Audio(AudioRoute::Seek) => match secs_in_body(body) {
            Ok(x) => r matches Ok(Request::Seek(s)) && s == x,
            Err(e) => refused(r, 400, e),
        },
        Route::RepeatSet => match mode_in_body(body) {
            Ok(m) => r matches Ok(Request::RepeatSet(mode)) && mode == m,
            Err(e) => refused(r, 400, e),
        },
        Route::VolumeSet => match vol_in_body(body) {
            Ok(x) => r matches Ok(Request::VolumeSet(v)) && v == x,
            Err(e) => refused(r, 400, e),
        },
        Route::PlaylistCreate => match name_in_body(body) {
            Ok(name) => r matches Ok(Request::PlaylistCreate(n)) && n@ == name,
            Err(e) => refused(r, 400, e),
        },
        Route::PlaylistRename(list) => match new_name_in_body(body) {
            Ok(name) => r matches Ok(Request::PlaylistRename(l, n)) && l@ == list@ && n@ == name,
            Err(e) => refused(r, 400, e),
        },
        Route::PlaylistDuplicate(list) => match new_name_in_body(body) {
            Ok(name) => r matches Ok(Request::PlaylistDuplicate(l, n)) && l@ == list@ && n@ == name,
            Err(e) => refused(r, 400, e),
        },
        Route::PlaylistReorder(list) => match reorder_in_body(body) {
            Ok((from, to)) => r matches Ok(Request::PlaylistReorder(l, f, t)) && l@ == list@ && f
                == from && t == to,
            Err(e) => refused(r, 400, e),
        },
        _ => true,
    }
}

/// The route reads its body, and nothing else.
pub open spec fn takes_body(route: Route) -> bool {
    route is InitAsync || route is InitBatch || route == Route::Audio(AudioRoute::Seek)
        || route is RepeatSet || route is VolumeSet || route is PlaylistCreate
        || route is PlaylistRename || route is PlaylistDuplicate || route is PlaylistReorder
}

/// `r` is what a request for a route that needs neither asks for.
pub open spec fn is_plain_command(
    r: Result<Request, ApiError>,
    route: Route,
    pairs: Seq<(Seq<char>, Seq<char>)>,
    method: Seq<char>,
    path: Seq<char>,
) -> bool {
    match route {
        Route::Help => r matches Ok(Request::Help),
        Route::Songs => r matches Ok(Request::Songs(q)) && opt_text(q) == param_of(pairs, "q"@),
        Route::Queue => r matches Ok(Request::Queue),
        Route::NowPlaying => r matches Ok(Request::NowPlaying),
        Route::Downloads => r matches Ok(Request::Downloads),
        Route::History => r matches Ok(Request::History(n)) && n == count_param(
            pairs,
            "limit"@,
            DEFAULT_HISTORY,
        ),
        Route::Stats => r matches Ok(Request::Stats),
        Route::Skip => r matches Ok(Request::Skip),
        Route::QueueShuffle => r matches Ok(Request::QueueShuffle),
        Route::QueueClear => r matches Ok(Request::QueueClear),
        Route::Audio(AudioRoute::Pause) => r matches Ok(Request::Pause),
        Route::Audio(AudioRoute::Resume) => r matches Ok(Request::Resume),
        Route::RepeatGet => r matches Ok(Request::RepeatGet),
        Route::VolumeGet => r matches Ok(Request::VolumeGet),
        Route::PlaylistsList => r matches Ok(Request::PlaylistsList),
        Route::PlaylistGet(name) => r matches Ok(Request::PlaylistGet(n)) && n@ == name@,
        Route::PlaylistDelete(name) => r matches Ok(Request::PlaylistDelete(n)) && n@ == name@,
        Route::PlaylistPlay(name) => r matches Ok(Request::PlaylistPlay(n)) && n@ == name@,
        Route::PlaylistRemoveSong(name, id) => r matches Ok(Request::PlaylistRemoveSong(n, i)) && n@
            == name@ && i == id,
        Route::NotFound => refused(r, 404, "no route for "@ + method + " "@ + path),
        _ => true,
    }
}

/// `r` is what a request asks for, or why it is refused.
pub open spec fn is_command(
    r: Result<Request, ApiError>,
    route: Route,
    method: Method,
    url: Seq<char>,
    body: Result<Json, Seq<char>>,
    search_count: usize,
) -> bool {
    let pairs = query_pairs(url);
    if takes_query(route) {
        is_query_command(r, route, pairs, body, search_count)
    } else if takes_body(route) {
        is_body_command(r, route, body)
    } else {
        is_plain_command(r, route, pairs, method.name(), path_of(url))
    }
}

/// `r` is what the request for an address asks for, or why it is refused.
pub open spec fn decodes_to(
    r: Result<Request, ApiError>,
    method: Method,
    url: Seq<char>,
    body: Result<Json, Seq<char>>,
    search_count: usize,
) -> bool {
    exists|route: Route|
        is_route(route, method, path_of(url)) && #[trigger] is_command(
            r,
            route,
            method,
            url,
            body,
            search_count,
        )
}

/// The body of a request; a method that carries none has a null body.
pub open spec fn request_body(method: Method, body: Seq<char>) -> Result<Json, Seq<char>> {
    if method.carries_body() {
        body_json(body)
    } else {
        Ok(Json::Null)
    }
}

fn bad_request(error: String) -> (r: ApiError)
    ensures
        r.status == 400,
        r.error == error,
{
    ApiError { status: 400, error }
}

fn decode_query(
    route: Route,
    pairs: &Vec<(String, String)>,
    body: &Result<Json, String>,
    search_count: usize,
) -> (r: Result<Request, ApiError>)
    requires
        takes_query(route),
    ensures
        is_query_command(r, route, pair_views(pairs@), body_outcome(*body), search_count),
{
    match query_or_body(pairs, body) {
        Err(e) => Err(bad_request(e)),
        Ok(q) => {
            let limit = read_count(pairs, "limit", search_count);
            match route {
                Route::Search => Ok(Request::Search(q)),
                Route::SearchAll => Ok(Request::SearchAll(q)),
                Route::SearchYt => Ok(Request::SearchYt(q, limit)),
                Route::SearchYtRanked => Ok(Request::SearchYtRanked(q, limit)),
                Route::Pick => Ok(Request::Pick(q, limit, read_margin(pairs))),
                Route::Play => Ok(Request::Play(q)),
                Route::Add => Ok(Request::Add(q)),
                Route::PlaylistAdd(name) => Ok(Request::PlaylistAdd(name, q)),
                _ => Ok(Request::Del(q)),
            }
        },
    }
}

fn decode_body(route: Route, body: &Result<Json, String>) -> (r: Result<Request, ApiError>)
    requires
        takes_body(route),
    ensures
        is_body_command(r, route, body_outcome(*body)),
{
    match route {
        Route::InitAsync => match name_and_url_from_body(body) {
            Ok((name, url)) => {
                let source = download_source(name.as_str(), url);
                Ok(Request::Init(name, source))
            },
            Err(e) => Err(bad_request(e)),
        },
        Route::InitBatch => match songs_from_body(body) {
            Ok(list) => Ok(Request::InitBatch(list)),
            Err(e) => Err(bad_request(e)),
        },
        Route::RepeatSet => match mode_from_body_or_default(body) {
            Ok(m) => Ok(Request::RepeatSet(m)),
            Err(e) => Err(bad_request(e)),
        },
        Route::VolumeSet => match vol_from_body(body) {
            Ok(x) => Ok(Request::VolumeSet(x)),
            Err(e) => Err(bad_request(e)),
        },
        Route::PlaylistCreate => match name_from_body(body) {
            Ok(name) => Ok(Request::PlaylistCreate(name)),
            Err(e) => Err(bad_request(e)),
        },
        Route::PlaylistRename(list) => match new_name_from_body(body) {
            Ok(name) => Ok(Request::PlaylistRename(list, name)),
            Err(e) => Err(bad_request(e)),
        },
        Route::PlaylistDuplicate(list) => match new_name_from_body(body) {
            Ok(name) => Ok(Request::PlaylistDuplicate(list, name)),
            Err(e) => Err(bad_request(e)),
        },
        Route::PlaylistReorder(list) => match reorder_from_body(body) {
            Ok((from, to)) => Ok(Request::PlaylistReorder(list, from, to)),
            Err(e) => Err(bad_request(e)),
        },
        _ => match secs_from_body(body) {
            Ok(x) => Ok(Request::Seek(x)),
            Err(e) => Err(bad_request(e)),
        },
    }
}

fn decode_plain(
    route: Route,
    pairs: &Vec<(String, String)>,
    method: &Method,
    path: &str,
) -> (r: Result<Request, ApiError>)
    requires
        !takes_query(route),
        !takes_body(route),
    ensures
        is_plain_command(r, route, pair_views(pairs@), method.name(), path@),
{
    match route {
        Route::Help => Ok(Request::Help),
        Route::Songs => Ok(Request::Songs(param(pairs, "q"))),
        Route::Queue => Ok(Request::Queue),
        Route::NowPlaying => Ok(Request::NowPlaying),
        Route::Downloads => Ok(Request::Downloads),
        Route::History => Ok(Request::History(read_count(pairs, "limit", DEFAULT_HISTORY))),
        Route::Stats => Ok(Request::Stats),
        Route::Skip => Ok(Request::Skip),
        Route::QueueShuffle => Ok(Request::QueueShuffle),
        Route::QueueClear => Ok(Request::QueueClear),
        Route::Audio(AudioRoute::Pause) => Ok(Request::Pause),
        Route::Audio(AudioRoute::Resume) => Ok(Request::Resume),
        Route::RepeatGet => Ok(Request::RepeatGet),
        Route::VolumeGet => Ok(Request::VolumeGet),
        Route::PlaylistsList => Ok(Request::PlaylistsList),
        Route::PlaylistGet(name) => Ok(Request::PlaylistGet(name)),
        Route::PlaylistDelete(name) => Ok(Request::PlaylistDelete(name)),
        Route::PlaylistPlay(name) => Ok(Request::PlaylistPlay(name)),
        Route::PlaylistRemoveSong(name, id) => Ok(Request::PlaylistRemoveSong(name, id)),
        _ => {
            let head = concat3("no route for ", method.as_str(), " ");
            Err(ApiError { status: 404, error: concat2(head.as_str(), path) })
        },
    }
}

fn wants_query(route: &Route) -> (r: bool)
    ensures
        r == takes_query(*route),
{
    match route {
        Route::Search
        | Route::SearchAll
        | Route::SearchYt
        | Route::SearchYtRanked
        | Route::Pick
        | Route::Play
        | Route::Add
        | Route::Del
        | Route::PlaylistAdd(_) => true,
        _ => false,
    }
}

fn wants_body(route: &Route) -> (r: bool)
    ensures
        r == takes_body(*route),
{
    match route {
        Route::InitAsync
        | Route::InitBatch
        | Route::Audio(AudioRoute::Seek)
        | Route::RepeatSet
        | Route::VolumeSet
        | Route::PlaylistCreate
        | Route::PlaylistRename(_)
        | Route::PlaylistDuplicate(_)
        | Route::PlaylistReorder(_) => true,
        _ => false,
    }
}

/// Reads a request whose body has been parsed. `search_count` is how many
/// search results are wanted where the request does not say.
pub fn decode_parsed(
    method: &Method,
    url: &str,
    body: &Result<Json, String>,
    search_count: usize,
) -> (r: Result<Request, ApiError>)
    ensures
        decodes_to(r, *method, url@, body_outcome(*body), search_count),
{
    let path = url_path(url);
    let route = route_for(method, path.as_str());
    let ghost asked = route;
    let pairs = parse_query(url);
    let r = if wants_query(&route) {
        decode_query(route, &pairs, body, search_count)
    } else if wants_body(&route) {
        decode_body(route, body)
    } else {
        decode_plain(route, &pairs, method, path.as_str())
    };
    assert(is_command(r, asked, *method, url@, body_outcome(*body), search_count));
    r
}

/// Reads a request. A method that carries no body has an empty one.
pub fn decode_request(method: &Method, url: &str, body: &str, search_count: usize) -> (r: Result<
    Request,
    ApiError,
>)
    ensures
        decodes_to(r, *method, url@, request_body(*method, body@), search_count),
{
    let parsed = if method.has_body() {
        parse_body(body)
    } else {
        Ok(Json::Null)
    };
    decode_parsed(method, url, &parsed, search_count)
}

/// `r` is what a request asks for, or why it is refused, given whether it may be
/// served. A request that may not is turned away whatever it holds; `body` is
/// `None` where it could not be read.
pub open spec fn received(
    r: Result<Request, ApiError>,
    authorized: bool,
    method: Method,
    url: Seq<char>,
    body: Option<Seq<char>>,
    search_count: usize,
) -> bool {
    if !authorized {
        refused(r, 401, "unauthorized"@)
    } else {
        match body {
            Some(text) => decodes_to(r, method, url, request_body(method, text), search_count),
            None => refused(r, 400, "could not read request body"@),
        }
    }
}

/// Receives a request: one that may not be served is turned away before
/// anything else is looked at, and any other is read. `body` is `None` where it
/// could not be read.
pub fn receive(
    peer: Option<Peer>,
    headers: &Vec<(String, String)>,
    token: Option<&str>,
    method: &Method,
    url: &str,
    body: Option<&str>,
    search_count: usize,
) -> (r: Result<Request, ApiError>)
    ensures
        received(
            r,
            is_authorized(peer, headers@, token_text(token)),
            *method,
            url@,
            match body {
                Some(text) => Some(text@),
                None => None,
            },
            search_count,
        ),
{
    match let_in(peer, headers, token) {
        Ok(()) => match body {
            Some(text) => decode_request(method, url, text, search_count),
            None => Err(bad_request(String::from_str("could not read request body"))),
        },
        Err(e) => Err(e),
    }
}

/// A request from elsewhere that does not carry the token is answered with 401
/// and asks the daemon for nothing, whatever its method, its address and its
/// body are.
pub proof fn lemma_stranger_refused(
    peer: Option<Peer>,
    headers: Seq<(String, String)>,
    token: Seq<char>,
    r: Result<Request, ApiError>,
    method: Method,
    url: Seq<char>,
    body: Option<Seq<char>>,
    search_count: usize,
)
    requires
        !is_local(peer),
        bearer_of(headers) != Some(token),
        received(r, is_authorized(peer, headers, Some(token)), method, url, body, search_count),
    ensures
        r matches Err(e) && e.status == 401 && e.error@ == "unauthorized"@,
{
}

/// The status of a reply to a command that was carried out.
pub open spec fn success_status_of(c: Request) -> u16 {
    if c is Init || c is InitBatch {
        202
    } else {
        200
    }
}

/// The status of a reply to a command that was carried out: accepted for
/// downloads, which go on in the background.
pub fn success_status(c: &Request) -> (r: u16)
    ensures
        r == success_status_of(*c),
{
    match c {
        Request::Init(_, _) | Request::InitBatch(_) => 202,
        _ => 200,
    }
}

/// The status of a reply to a command that failed.
pub open spec fn failure_status_of(c: Request, error: Seq<char>) -> u16 {
    if c is Search {
        404
    } else if c is Add && contains_text(error, "queue full"@) {
        413
    } else {
        400
    }
}

/// The status of a reply to a command that failed: not found for a search, too
/// large for a full queue, else a bad request.
pub fn failure_status(c: &Request, error: &str) -> (r: u16)
    ensures
        r == failure_status_of(*c, error@),
{
    match c {
        Request::Search(_) => 404,
        Request::Add(_) => {
            if contains(error, "queue full") {
                413
            } else {
                400
            }
        },
        _ => 400,
    }
}

} // verus!
