//! Queries for the video search: splitting what the user typed into artist and
//! title, expanding it into search variants, and recognising download sources
//! that name a search instead of a video.

use vstd::prelude::*;

use crate::text::{
    alphanumeric, ascii_lower, ascii_lower_char, chars_of, concat2, concat3, ends_with, find_chars,
    find_text, has_prefix, has_suffix, is_alphanumeric, is_space, is_white_space, lower_char,
    opt_text, parse_u64, parsed_unsigned, starts_with, string_of, texts, to_ascii_lower, trim,
    trim_range, trimmed,
};

verus! {

/// What a query asks for, as texts.
pub struct QueryView {
    pub artist: Option<Seq<char>>,
    pub title: Seq<char>,
    pub raw: Seq<char>,
}

/// A query split into artist and title.
#[derive(Debug)]
pub struct ParsedQuery {
    /// `None` when the query names no artist.
    pub artist: Option<String>,
    pub title: String,
    /// The query as typed.
    pub raw: String,
}

impl View for ParsedQuery {
    type V = QueryView;

    open spec fn view(&self) -> QueryView {
        QueryView { artist: opt_text(self.artist), title: self.title@, raw: self.raw@ }
    }
}

/// The two sides of the first `sep` in `q`, trimmed, where both hold something.
pub open spec fn sides(q: Seq<char>, sep: Seq<char>) -> Option<(Seq<char>, Seq<char>)> {
    match find_text(q, sep) {
        Some(i) => {
            let a = trimmed(q.subrange(0, i));
            let t = trimmed(q.subrange(i + sep.len(), q.len() as int));
            if a.len() > 0 && t.len() > 0 {
                Some((a, t))
            } else {
                None
            }
        },
        None => None,
    }
}

/// The artist and the title of `q`: the sides of the first separator that
/// splits it, of ` - `, ` | ` and `:` in this order.
pub open spec fn artist_and_title(q: Seq<char>) -> Option<(Seq<char>, Seq<char>)> {
    if sides(q, " - "@) is Some {
        sides(q, " - "@)
    } else if sides(q, " | "@) is Some {
        sides(q, " | "@)
    } else {
        sides(q, ":"@)
    }
}

/// How a query is read; blank text is no query.
pub open spec fn parsed_query(query: Seq<char>) -> Option<QueryView> {
    let q = trimmed(query);
    if q.len() == 0 {
        None
    } else {
        match artist_and_title(q) {
            Some((a, t)) => Some(QueryView { artist: Some(a), title: t, raw: query }),
            None => Some(QueryView { artist: None, title: q, raw: query }),
        }
    }
}

fn split_sides(cs: &Vec<char>, sep: &str) -> (r: Option<(String, String)>)
    ensures
        match r {
            Some((a, t)) => sides(cs@, sep@) == Some((a@, t@)),
            None => sides(cs@, sep@) is None,
        },
{
    match find_chars(cs, sep) {
        Some(i) => {
            let end: usize = cs.len();
            let n: usize = sep.unicode_len();
            let a = trim_range(cs, 0, i);
            let t = trim_range(cs, i + n, end);
            if a.as_str().unicode_len() > 0 && t.as_str().unicode_len() > 0 {
                Some((a, t))
            } else {
                None
            }
        },
        None => None,
    }
}

impl ParsedQuery {
    /// Splits a query at the first separator that leaves text on both sides.
    /// Without one, the whole query is the title. `None` for blank input.
    pub fn parse(query: &str) -> (r: Option<Self>)
        ensures
            match r {
                Some(p) => parsed_query(query@) == Some(p@),
                None => parsed_query(query@) is None,
            },
    {
        let q = trim(query);
        if q.as_str().unicode_len() == 0 {
            return None;
        }
        let cs = chars_of(q.as_str());
        let found = match split_sides(&cs, " - ") {
            Some(p) => Some(p),
            None => match split_sides(&cs, " | ") {
                Some(p) => Some(p),
                None => split_sides(&cs, ":"),
            },
        };
        let raw = String::from_str(query);
        match found {
            Some((a, t)) => Some(ParsedQuery { artist: Some(a), title: t, raw }),
            None => Some(ParsedQuery { artist: None, title: q, raw }),
        }
    }
}

/// A query that parses has a title, and an artist that is there is not empty.
/// The query is kept as it was typed; where it names no artist, all of it but
/// the surrounding white space is the title.
pub proof fn lemma_parsed_query_parts(query: Seq<char>)
    ensures
        parsed_query(query) is None <==> trimmed(query).len() == 0,
        parsed_query(query) matches Some(p) ==> p.raw == query && p.title.len() > 0 && (
        p.artist matches Some(a) ==> a.len() > 0) && (p.artist is None ==> p.title == trimmed(query)),
{
}

/// `s` without trailing hyphens and white space.
pub open spec fn without_dashes(s: Seq<char>) -> Seq<char>
    decreases s.len(),
{
    if s.len() > 0 && (s.last() == '-' || is_space(s.last())) {
        without_dashes(s.drop_last())
    } else {
        s
    }
}

/// `s` ends, in any case, with `suffix`.
pub open spec fn ends_in(s: Seq<char>, suffix: Seq<char>) -> bool {
    has_suffix(ascii_lower(s), suffix)
}

/// `s` without a trailing "official video", "official music video" or
/// "official audio", and without what joined it to the rest.
pub open spec fn without_official(s: Seq<char>) -> Seq<char> {
    if ends_in(s, "official music video"@) {
        without_dashes(s.subrange(0, s.len() - "official music video"@.len()))
    } else if ends_in(s, "official video"@) {
        without_dashes(s.subrange(0, s.len() - "official video"@.len()))
    } else if ends_in(s, "official audio"@) {
        without_dashes(s.subrange(0, s.len() - "official audio"@.len()))
    } else {
        s
    }
}

fn cut_suffix(cs: &Vec<char>, suffix: &str) -> (r: String)
    requires
        suffix@.len() <= cs@.len(),
    ensures
        r@ == without_dashes(cs@.subrange(0, cs@.len() - suffix@.len())),
{
    let start: usize = cs.len() - suffix.unicode_len();
    let mut end: usize = start;
    while end > 0 && (cs[end - 1] == '-' || is_white_space(cs[end - 1]))
        invariant
            end <= start <= cs@.len(),
            without_dashes(cs@.subrange(0, start as int)) == without_dashes(
                cs@.subrange(0, end as int),
            ),
        decreases end,
    {
        proof {
            assert(cs@.subrange(0, end as int).drop_last() =~= cs@.subrange(0, end - 1));
        }
        end -= 1;
    }
    string_of(cs, 0, end)
}

/// Strips a trailing "official ..." phrase, so that adding it again does not
/// double it.
pub fn strip_official_suffix(s: &str) -> (r: String)
    ensures
        r@ == without_official(s@),
{
    let lower = to_ascii_lower(s);
    let low = chars_of(lower.as_str());
    let cs = chars_of(s);
    if ends_with(&low, "official music video") {
        cut_suffix(&cs, "official music video")
    } else if ends_with(&low, "official video") {
        cut_suffix(&cs, "official video")
    } else if ends_with(&low, "official audio") {
        cut_suffix(&cs, "official audio")
    } else {
        string_of(&cs, 0, cs.len())
    }
}

/// The searches that stand for one query.
pub open spec fn variants_of(raw: Seq<char>) -> Seq<Seq<char>> {
    let q = trimmed(raw);
    if q.len() == 0 {
        Seq::empty()
    } else {
        let b = without_official(q);
        seq![b, b + " official video"@, b + " official audio"@, "\""@ + b + "\""@]
    }
}

/// Expands a query into searches: the query itself, the query tagged as
/// official video and as official audio, and the query in quotes. Blank input
/// gives none.
pub fn query_variants(raw: &str) -> (r: Vec<String>)
    ensures
        texts(r@) == variants_of(raw@),
{
    let q = trim(raw);
    let mut out: Vec<String> = Vec::new();
    if q.as_str().unicode_len() == 0 {
        proof {
            assert(texts(out@) =~= variants_of(raw@));
        }
        return out;
    }
    let b = strip_official_suffix(q.as_str());
    let video = concat2(b.as_str(), " official video");
    let audio = concat2(b.as_str(), " official audio");
    let quoted = concat3("\"", b.as_str(), "\"");
    out.push(b);
    out.push(video);
    out.push(audio);
    out.push(quoted);
    proof {
        assert(texts(out@) =~= variants_of(raw@));
    }
    out
}

/// No search is made twice: the variants of a query differ from each other.
pub proof fn lemma_variants_distinct(raw: Seq<char>)
    ensures
        variants_of(raw).no_duplicates(),
{
    reveal_strlit(" official video");
    reveal_strlit(" official audio");
    reveal_strlit("\"");
    let b = without_official(trimmed(raw));
    let v = b + " official video"@;
    let a = b + " official audio"@;
    let n = b.len() as int;
    assert(v[n + 10] == 'v');
    assert(a[n + 10] == 'a');
    assert(v.len() == n + 15 && a.len() == n + 15);
    assert(("\""@ + b + "\""@).len() == n + 2);
}

/// The first `limit` letters and digits of a text, in lower case.
pub open spec fn short_form(s: Seq<char>, limit: nat) -> Seq<char>
    decreases s.len(),
{
    if s.len() == 0 {
        Seq::empty()
    } else {
        let head = short_form(s.drop_last(), limit);
        if alphanumeric(s.last()) && head.len() < limit {
            head.push(ascii_lower_char(s.last()))
        } else {
            head
        }
    }
}

/// A short tag for a query, fit for a thread name.
pub fn short_token(s: &str) -> (r: String)
    ensures
        r@ == short_form(s@, 20),
{
    let cs = chars_of(s);
    let mut out = String::new();
    let mut n: usize = 0;
    let mut i: usize = 0;
    while i < cs.len()
        invariant
            cs@ == s@,
            i <= cs@.len(),
            n == out@.len(),
            n <= 20,
            out@ == short_form(s@.take(i as int), 20),
        decreases cs@.len() - i,
    {
        proof {
            assert(s@.take(i + 1).drop_last() =~= s@.take(i as int));
        }
        if is_alphanumeric(cs[i]) && n < 20 {
            out.push(lower_char(cs[i]));
            n += 1;
        }
        i += 1;
    }
    proof {
        assert(s@.take(i as int) =~= s@);
    }
    out
}

/// The query of a source of the form `ytsearch1:<query>`. Other sources have
/// none: addresses, searches for more than one result, and blank queries.
pub open spec fn source_query(source: Seq<char>) -> Option<Seq<char>> {
    let head = "ytsearch"@;
    if !has_prefix(source, head) {
        None
    } else {
        let rest = source.subrange(head.len() as int, source.len() as int);
        match find_text(rest, ":"@) {
            Some(i) => {
                let query = rest.subrange(i + 1, rest.len() as int);
                if parsed_unsigned(rest.subrange(0, i), usize::MAX as nat) == Some(1nat) && trimmed(
                    query,
                ).len() > 0 {
                    Some(query)
                } else {
                    None
                }
            },
            None => None,
        }
    }
}

/// The query that a download source asks to search for, where a single best
/// result is wanted.
pub fn search_source_query(source: &str) -> (r: Option<String>)
    ensures
        opt_text(r) == source_query(source@),
{
    let cs = chars_of(source);
    if !starts_with(&cs, "ytsearch") {
        return None;
    }
    let from = "ytsearch".unicode_len();
    let n = cs.len();
    let tail = string_of(&cs, from, n);
    let rest = chars_of(tail.as_str());
    match find_chars(&rest, ":") {
        Some(i) => {
            proof {
                reveal_strlit(":");
            }
            let count = string_of(&rest, 0, i);
            let query = string_of(&rest, i + 1, rest.len());
            let blank = trim(query.as_str());
            let one = match parse_u64(count.as_str(), usize::MAX as u64) {
                Some(k) => k == 1,
                None => false,
            };
            if one && blank.as_str().unicode_len() > 0 {
                Some(query)
            } else {
                None
            }
        },
        None => None,
    }
}

} // verus!
