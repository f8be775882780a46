//! What reading a query promises: where artist and title part, which searches
//! stand for it, and which download sources ask for a search.

use vstd::prelude::*;

use crate::text::{
    alphanumeric, ascii_lower, ascii_lower_char, contains_text, decimal, has_prefix, is_space,
    lemma_decimal_parsed, occurs_at, trimmed,
};
use crate::text_laws::{lemma_find_after, lemma_trimmed_same};
use crate::youtube::{
    ends_in, parsed_query, short_form, sides, source_query, variants_of, without_dashes,
    without_official, QueryView,
};

verus! {

/// A text that is not empty and neither begins nor ends with white space.
pub open spec fn is_trim(s: Seq<char>) -> bool {
    s.len() > 0 && !is_space(s[0]) && !is_space(s.last())
}

proof fn lemma_sides(a: Seq<char>, sep: Seq<char>, t: Seq<char>)
    requires
        is_trim(a),
        is_trim(t),
        sep.len() > 0,
        !contains_text(a + sep.drop_last(), sep),
    ensures
        trimmed(a + sep + t) == a + sep + t,
        sides(a + sep + t, sep) == Some((a, t)),
{
    let q = a + sep + t;
    assert(q[0] == a[0] && q.last() == t.last());
    lemma_trimmed_same(q);
    lemma_find_after(a, sep, t);
    lemma_trimmed_same(a);
    lemma_trimmed_same(t);
}

proof fn lemma_no_sides(q: Seq<char>, sep: Seq<char>)
    requires
        !contains_text(q, sep),
    ensures
        sides(q, sep) is None,
{
}

/// A query of an artist, a spaced hyphen and a title is read as these two,
/// where no such hyphen stands earlier, whatever other separators it holds.
pub proof fn lemma_dash_parts(a: Seq<char>, t: Seq<char>)
    requires
        is_trim(a),
        is_trim(t),
        !contains_text(a + " - "@.drop_last(), " - "@),
    ensures
        parsed_query(a + " - "@ + t) == Some(
            QueryView { artist: Some(a), title: t, raw: a + " - "@ + t },
        ),
{
    reveal_strlit(" - ");
    lemma_sides(a, " - "@, t);
}

/// Without a spaced hyphen, a query is parted by its first spaced bar.
pub proof fn lemma_bar_parts(a: Seq<char>, t: Seq<char>)
    requires
        is_trim(a),
        is_trim(t),
        !contains_text(a + " | "@ + t, " - "@),
        !contains_text(a + " | "@.drop_last(), " | "@),
    ensures
        parsed_query(a + " | "@ + t) == Some(
            QueryView { artist: Some(a), title: t, raw: a + " | "@ + t },
        ),
{
    reveal_strlit(" | ");
    lemma_sides(a, " | "@, t);
    lemma_no_sides(a + " | "@ + t, " - "@);
}

/// Without either, a query is parted by its first colon, with or without white
/// space around it.
pub proof fn lemma_colon_parts(a: Seq<char>, t: Seq<char>)
    requires
        is_trim(a),
        is_trim(t),
        !contains_text(a + ":"@ + t, " - "@),
        !contains_text(a + ":"@ + t, " | "@),
        !contains_text(a, ":"@),
    ensures
        parsed_query(a + ":"@ + t) == Some(
            QueryView { artist: Some(a), title: t, raw: a + ":"@ + t },
        ),
{
    reveal_strlit(":");
    assert(a + ":"@.drop_last() =~= a);
    lemma_sides(a, ":"@, t);
    lemma_no_sides(a + ":"@ + t, " - "@);
    lemma_no_sides(a + ":"@ + t, " | "@);
}

/// A query without any of the three separators names no artist: all of it but
/// the white space around it is the title.
pub proof fn lemma_title_alone(query: Seq<char>)
    requires
        trimmed(query).len() > 0,
        !contains_text(trimmed(query), " - "@),
        !contains_text(trimmed(query), " | "@),
        !contains_text(trimmed(query), ":"@),
    ensures
        parsed_query(query) == Some(
            QueryView { artist: None, title: trimmed(query), raw: query },
        ),
{
    lemma_no_sides(trimmed(query), " - "@);
    lemma_no_sides(trimmed(query), " | "@);
    lemma_no_sides(trimmed(query), ":"@);
}

/// Only white space around a query differs: both are read alike, and searched
/// for alike.
pub proof fn lemma_surroundings_ignored(a: Seq<char>, b: Seq<char>)
    requires
        trimmed(a) == trimmed(b),
    ensures
        parsed_query(a) is Some == parsed_query(b) is Some,
        parsed_query(a) is Some ==> parsed_query(a)->0.artist == parsed_query(b)->0.artist
            && parsed_query(a)->0.title == parsed_query(b)->0.title,
        variants_of(a) == variants_of(b),
{
}

/// A query that does not end in an official phrase is searched for as it is,
/// with each of two phrases behind it, and in quotes. A blank one is not.
pub proof fn lemma_variants(raw: Seq<char>)
    ensures
        trimmed(raw).len() == 0 ==> variants_of(raw).len() == 0,
        trimmed(raw).len() > 0 && !ends_in(trimmed(raw), "official music video"@) && !ends_in(
            trimmed(raw),
            "official video"@,
        ) && !ends_in(trimmed(raw), "official audio"@) ==> variants_of(raw) == seq![
            trimmed(raw),
            trimmed(raw) + " official video"@,
            trimmed(raw) + " official audio"@,
            "\""@ + trimmed(raw) + "\""@,
        ],
{
}

proof fn lemma_ends_in_at(s: Seq<char>, suffix: Seq<char>, k: int)
    requires
        ends_in(s, suffix),
        0 < k <= suffix.len(),
    ensures
        s.len() >= suffix.len(),
        ascii_lower(s)[s.len() - k] == suffix[suffix.len() - k],
{
    let low = ascii_lower(s);
    assert(low.len() == s.len());
    assert(low.subrange(s.len() - suffix.len(), s.len() as int)[suffix.len() - k]
        == suffix[suffix.len() - k]);
}

proof fn lemma_space_cut(b: Seq<char>)
    requires
        is_trim(b),
        b.last() != '-',
    ensures
        without_dashes(b.push(' ')) == b,
{
    assert(b.push(' ').drop_last() =~= b);
    reveal_with_fuel(without_dashes, 2);
}

/// A phrase that a search adds is not added twice: a query that ends in one is
/// searched for like the query without it.
pub proof fn lemma_phrase_not_doubled(b: Seq<char>)
    requires
        is_trim(b),
        b.last() != '-',
        !ends_in(b, "official music video"@),
        !ends_in(b, "official video"@),
        !ends_in(b, "official audio"@),
    ensures
        variants_of(b + " official video"@) == variants_of(b),
        variants_of(b + " official audio"@) == variants_of(b),
        variants_of(b + " official music video"@) == variants_of(b),
{
    reveal_strlit(" official video");
    reveal_strlit(" official audio");
    reveal_strlit(" official music video");
    reveal_strlit("official video");
    reveal_strlit("official audio");
    reveal_strlit("official music video");
    lemma_trimmed_same(b);
    let v = b + " official video"@;
    let a = b + " official audio"@;
    let m = b + " official music video"@;
    lemma_trimmed_same(v);
    lemma_trimmed_same(a);
    lemma_trimmed_same(m);
    lemma_space_cut(b);
    assert(without_official(v) == b) by {
        assert(ascii_lower(v).subrange(v.len() - 14, v.len() as int) =~= "official video"@);
        assert(ends_in(v, "official video"@));
        if ends_in(v, "official music video"@) {
            lemma_ends_in_at(v, "official music video"@, 7);
            assert(ascii_lower(v)[v.len() - 7] == 'l');
            assert("official music video"@[13] == 'c');
        }
        assert(v.subrange(0, v.len() - 14) =~= b.push(' '));
    }
    assert(without_official(a) == b) by {
        assert(ascii_lower(a).subrange(a.len() - 14, a.len() as int) =~= "official audio"@);
        assert(ends_in(a, "official audio"@));
        if ends_in(a, "official music video"@) {
            lemma_ends_in_at(a, "official music video"@, 5);
            assert(ascii_lower(a)[a.len() - 5] == 'a');
            assert("official music video"@[15] == 'v');
        }
        if ends_in(a, "official video"@) {
            lemma_ends_in_at(a, "official video"@, 5);
            assert(ascii_lower(a)[a.len() - 5] == 'a');
            assert("official video"@[9] == 'v');
        }
        assert(a.subrange(0, a.len() - 14) =~= b.push(' '));
    }
    assert(without_official(m) == b) by {
        assert(ascii_lower(m).subrange(m.len() - 20, m.len() as int) =~= "official music video"@);
        assert(ends_in(m, "official music video"@));
        assert(m.subrange(0, m.len() - 20) =~= b.push(' '));
    }
}

/// The tag for a query holds its letters and digits in lower case, in their
/// order, up to a limit, and nothing else.
pub proof fn lemma_short_form(s: Seq<char>, limit: nat)
    ensures
        ({
            let kept = ascii_lower(s.filter(|c: char| alphanumeric(c)));
            &&& kept.len() <= limit ==> short_form(s, limit) == kept
            &&& kept.len() > limit ==> short_form(s, limit) == kept.take(limit as int)
        }),
    decreases s.len(),
{
    reveal(Seq::filter);
    let p = |c: char| alphanumeric(c);
    let kept = ascii_lower(s.filter(p));
    if s.len() == 0 {
        assert(short_form(s, limit) =~= kept);
    } else {
        lemma_short_form(s.drop_last(), limit);
        let before = s.drop_last().filter(p);
        if alphanumeric(s.last()) {
            assert(s.filter(p) == before.push(s.last()));
            assert(kept =~= ascii_lower(before).push(ascii_lower_char(s.last())));
            if ascii_lower(before).len() < limit {
                assert(short_form(s, limit) =~= kept);
            } else {
                assert(short_form(s.drop_last(), limit) =~= kept.take(limit as int));
            }
        } else {
            assert(s.filter(p) == before);
        }
    }
}

/// A source for one result asks for a search for what follows its colon.
pub proof fn lemma_single_search(query: Seq<char>)
    requires
        trimmed(query).len() > 0,
    ensures
        source_query("ytsearch1:"@ + query) == Some(query),
{
    reveal_strlit("ytsearch1:");
    lemma_search_source(1, query);
    reveal_strlit("ytsearch");
    reveal_strlit(":");
    assert(decimal(1) =~= seq!['1']);
    assert("ytsearch"@ + decimal(1) + ":"@ + query =~= "ytsearch1:"@ + query);
}

/// Of the sources that ask for a number of results, only those that ask for one
/// are searched for here; a blank query is not.
pub proof fn lemma_search_source(n: nat, query: Seq<char>)
    requires
        n <= usize::MAX,
    ensures
        n == 1 && trimmed(query).len() > 0 ==> source_query(
            "ytsearch"@ + decimal(n) + ":"@ + query,
        ) == Some(query),
        n != 1 || trimmed(query).len() == 0 ==> source_query(
            "ytsearch"@ + decimal(n) + ":"@ + query,
        ) is None,
{
    reveal_strlit("ytsearch");
    reveal_strlit(":");
    let head = "ytsearch"@;
    let d = decimal(n);
    let source = head + d + ":"@ + query;
    assert(source.subrange(0, head.len() as int) =~= head);
    assert(has_prefix(source, head));
    let rest = source.subrange(head.len() as int, source.len() as int);
    assert(rest =~= d + ":"@ + query);
    crate::text::lemma_decimal_chars(n as int);
    assert(!contains_text(d + ":"@.drop_last(), ":"@)) by {
        assert(d + ":"@.drop_last() =~= d);
        if contains_text(d, ":"@) {
            let i = choose|i: int| occurs_at(d, ":"@, i);
            assert(d.subrange(i, i + 1)[0] == ':');
            assert(d[i] == ':');
        }
    }
    lemma_find_after(d, ":"@, query);
    lemma_decimal_parsed(n, usize::MAX as nat);
}

/// What does not begin with the word for a search is an address, and is used as
/// it stands.
pub proof fn lemma_address_kept(source: Seq<char>)
    requires
        source.len() < 8 || source.subrange(0, 8) != "ytsearch"@,
    ensures
        source_query(source) is None,
{
    reveal_strlit("ytsearch");
}

/// All characters are hyphens or white space.
pub open spec fn only_joins(s: Seq<char>) -> bool {
    forall|i: int| 0 <= i < s.len() ==> #[trigger] s[i] == '-' || is_space(s[i])
}

proof fn lemma_joins_cut(b: Seq<char>, joint: Seq<char>)
    requires
        is_trim(b),
        b.last() != '-',
        only_joins(joint),
    ensures
        without_dashes(b + joint) == b,
    decreases joint.len(),
{
    if joint.len() > 0 {
        let front = joint.drop_last();
        assert forall|i: int| 0 <= i < front.len() implies #[trigger] front[i] == '-' || is_space(
            front[i],
        ) by {
            assert(front[i] == joint[i]);
        }
        lemma_joins_cut(b, front);
        assert((b + joint).drop_last() =~= b + front);
        assert((b + joint).last() == joint[joint.len() - 1]);
    } else {
        assert(b + joint =~= b);
    }
}

/// An official phrase in any case is taken off the end of a query, together with
/// the hyphens and the white space that join it to the rest.
pub proof fn lemma_official_tail_cut(b: Seq<char>, joint: Seq<char>, phrase: Seq<char>)
    requires
        is_trim(b),
        b.last() != '-',
        only_joins(joint),
        ascii_lower(phrase) == "official video"@ || ascii_lower(phrase) == "official audio"@
            || ascii_lower(phrase) == "official music video"@,
    ensures
        without_official(b + joint + phrase) == b,
{
    reveal_strlit("official video");
    reveal_strlit("official audio");
    reveal_strlit("official music video");
    let s = b + joint + phrase;
    let n = phrase.len() as int;
    let low = ascii_lower(s);
    assert(ascii_lower(phrase).len() == n);
    assert(low.subrange(s.len() - n, s.len() as int) =~= ascii_lower(phrase));
    assert(s.subrange(0, s.len() - n) =~= b + joint);
    lemma_joins_cut(b, joint);
    assert forall|k: int| 0 < k <= n implies #[trigger] low[s.len() - k] == ascii_lower(phrase)[n
        - k] by {
        assert(low.subrange(s.len() - n, s.len() as int)[n - k] == low[s.len() - k]);
    }
    assert(low[s.len() - 5] == ascii_lower(phrase)[n - 5]);
    assert(low[s.len() - 7] == ascii_lower(phrase)[n - 7]);
    if ascii_lower(phrase) != "official music video"@ && ends_in(s, "official music video"@) {
        lemma_ends_in_at(s, "official music video"@, 5);
        lemma_ends_in_at(s, "official music video"@, 7);
        assert("official music video"@[13] == 'c' && "official music video"@[15] == 'v');
        assert("official video"@[7] == 'l' && "official audio"@[9] == 'a');
    }
    if ascii_lower(phrase) == "official audio"@ && ends_in(s, "official video"@) {
        lemma_ends_in_at(s, "official video"@, 5);
        assert("official video"@[9] == 'v' && "official audio"@[9] == 'a');
    }
}

} // verus!
