//! Token helpers for comparing titles and names: normalisation, removal of
//! bracketed decorations, word tokens, and two similarity measures.
//!
//! Flag scans match whole words, so "Alive" does not count as "live". Title
//! similarity works on the title without its bracketed decorations, so
//! "(Official Video)" does not dilute the overlap of the song's own words.

use vstd::multiset::Multiset;
use vstd::prelude::*;

use crate::real64::{
    divide, lemma_nearest_at_most_one, lemma_nearest_fits, lemma_nearest_is_one, lemma_nearest_one,
    nearest, Real64, ONE_BITS,
};
use crate::text::{
    alphanumeric, ascii_lower, chars_of, is_alphanumeric, lower_char, same_text, split_words,
    string_of, texts, to_ascii_lower, words,
};

verus! {

/// The words of a list with one space between each two.
pub open spec fn joined(ws: Seq<Seq<char>>) -> Seq<char>
    decreases ws.len(),
{
    if ws.len() == 0 {
        Seq::empty()
    } else if ws.len() == 1 {
        ws[0]
    } else {
        joined(ws.drop_last()) + seq![' '] + ws.last()
    }
}

/// Lower case, with every run of white space collapsed to one space.
pub open spec fn normalized(s: Seq<char>) -> Seq<char> {
    ascii_lower(joined(words(s)))
}

/// Lowercases and collapses white space.
pub fn normalize(s: &str) -> (r: String)
    ensures
        r@ == normalized(s@),
{
    let ws = split_words(s);
    let mut out = String::new();
    let mut i: usize = 0;
    while i < ws.len()
        invariant
            texts(ws@) == words(s@),
            i <= ws@.len(),
            out@ == joined(words(s@).take(i as int)),
        decreases ws@.len() - i,
    {
        proof {
            assert(words(s@).len() == ws@.len());
            assert(words(s@)[i as int] == ws@[i as int]@);
            let next = words(s@).take(i + 1);
            assert(next.drop_last() =~= words(s@).take(i as int));
            assert(next.last() == ws@[i as int]@);
            assert(joined(Seq::<Seq<char>>::empty()) =~= Seq::<char>::empty());
        }
        if i > 0 {
            out.push(' ');
        }
        out.append(ws[i].as_str());
        proof {
            if i > 0 {
                assert(joined(words(s@).take(i as int)).push(' ') + ws@[i as int]@ =~= joined(
                    words(s@).take(i as int),
                ) + seq![' '] + ws@[i as int]@);
            } else {
                assert(out@ =~= ws@[0]@);
                assert(words(s@).take(1)[0] == ws@[0]@);
            }
        }
        i += 1;
    }
    proof {
        assert(words(s@).take(i as int) =~= words(s@));
    }
    to_ascii_lower(out.as_str())
}

/// How many brackets are open after `s`; a closing bracket without a partner
/// does not count.
pub open spec fn open_brackets(s: Seq<char>, opening: char, closing: char) -> nat
    decreases s.len(),
{
    if s.len() == 0 {
        0
    } else {
        let before = open_brackets(s.drop_last(), opening, closing);
        if s.last() == opening {
            before + 1
        } else if s.last() == closing && before > 0 {
            (before - 1) as nat
        } else {
            before
        }
    }
}

/// `c` is one of the four brackets that delimit decorations.
pub open spec fn is_bracket(c: char) -> bool {
    c == '(' || c == ')' || c == '[' || c == ']'
}

/// The characters of `s` that stand outside round and square brackets, without
/// the brackets themselves.
pub open spec fn outside_brackets(s: Seq<char>) -> Seq<char>
    decreases s.len(),
{
    if s.len() == 0 {
        Seq::empty()
    } else {
        let head = s.drop_last();
        let rest = outside_brackets(head);
        if is_bracket(s.last()) || open_brackets(head, '(', ')') > 0 || open_brackets(head, '[', ']')
            > 0 {
            rest
        } else {
            rest.push(s.last())
        }
    }
}

/// Lowercases and removes bracketed decorations such as `(Official Video)` or
/// `[4K]`.
pub fn strip_decorations(s: &str) -> (r: String)
    ensures
        r@ == outside_brackets(ascii_lower(s@)),
{
    let cs = chars_of(s);
    let mut out = String::new();
    let mut paren: usize = 0;
    let mut brack: usize = 0;
    let ghost low = ascii_lower(s@);
    let mut i: usize = 0;
    while i < cs.len()
        invariant
            cs@ == s@,
            low == ascii_lower(s@),
            low.len() == s@.len(),
            i <= cs@.len(),
            paren <= i,
            brack <= i,
            paren as nat == open_brackets(low.take(i as int), '(', ')'),
            brack as nat == open_brackets(low.take(i as int), '[', ']'),
            out@ == outside_brackets(low.take(i as int)),
        decreases cs@.len() - i,
    {
        proof {
            assert(low.take(i + 1).drop_last() =~= low.take(i as int));
            assert(low.take(i + 1).last() == low[i as int]);
        }
        let c = lower_char(cs[i]);
        if c == '(' {
            paren += 1;
        } else if c == ')' {
            if paren > 0 {
                paren -= 1;
            }
        } else if c == '[' {
            brack += 1;
        } else if c == ']' {
            if brack > 0 {
                brack -= 1;
            }
        } else if paren == 0 && brack == 0 {
            out.push(c);
        }
        i += 1;
    }
    proof {
        assert(low.take(i as int) =~= low);
    }
    out
}

/// `w` without the punctuation in front.
pub open spec fn bare_start(w: Seq<char>) -> Seq<char>
    decreases w.len(),
{
    if w.len() > 0 && !alphanumeric(w[0]) {
        bare_start(w.drop_first())
    } else {
        w
    }
}

/// `w` without the punctuation at its end.
pub open spec fn bare_end(w: Seq<char>) -> Seq<char>
    decreases w.len(),
{
    if w.len() > 0 && !alphanumeric(w.last()) {
        bare_end(w.drop_last())
    } else {
        w
    }
}

/// `w` without leading and trailing punctuation.
pub open spec fn bare_word(w: Seq<char>) -> Seq<char> {
    bare_end(bare_start(w))
}

/// The bare words of a list, without those that are punctuation alone.
pub open spec fn bare_words(ws: Seq<Seq<char>>) -> Seq<Seq<char>>
    decreases ws.len(),
{
    if ws.len() == 0 {
        Seq::empty()
    } else {
        let head = bare_words(ws.drop_last());
        let w = bare_word(ws.last());
        if w.len() > 0 {
            head.push(w)
        } else {
            head
        }
    }
}

/// The word tokens of a text.
pub open spec fn tokens(s: Seq<char>) -> Seq<Seq<char>> {
    bare_words(words(ascii_lower(s)))
}

fn bare(w: &str) -> (r: String)
    ensures
        r@ == bare_word(w@),
{
    let cs = chars_of(w);
    let mut from: usize = 0;
    proof {
        assert(w@.skip(0) =~= w@);
    }
    while from < cs.len() && !is_alphanumeric(cs[from])
        invariant
            cs@ == w@,
            from <= cs@.len(),
            bare_start(w@) == bare_start(w@.skip(from as int)),
        decreases cs@.len() - from,
    {
        proof {
            assert(w@.skip(from as int).drop_first() =~= w@.skip(from + 1));
        }
        from += 1;
    }
    let mut to: usize = cs.len();
    proof {
        assert(bare_start(w@) == w@.skip(from as int));
        assert(w@.subrange(from as int, to as int) =~= w@.skip(from as int));
    }
    while to > from && !is_alphanumeric(cs[to - 1])
        invariant
            cs@ == w@,
            from <= to <= cs@.len(),
            bare_word(w@) == bare_end(w@.subrange(from as int, to as int)),
        decreases to,
    {
        proof {
            assert(w@.subrange(from as int, to as int).drop_last() =~= w@.subrange(
                from as int,
                to - 1,
            ));
        }
        to -= 1;
    }
    string_of(&cs, from, to)
}

/// White-space separated words, in lower case, with leading and trailing
/// punctuation trimmed: `don't` stays `don't`, `(Edit)` becomes `edit`.
pub fn tokenize(s: &str) -> (r: Vec<String>)
    ensures
        texts(r@) == tokens(s@),
{
    let low = to_ascii_lower(s);
    let ws = split_words(low.as_str());
    let ghost all = words(ascii_lower(s@));
    let mut out: Vec<String> = Vec::new();
    let mut i: usize = 0;
    while i < ws.len()
        invariant
            texts(ws@) == all,
            i <= ws@.len(),
            texts(out@) == bare_words(all.take(i as int)),
        decreases ws@.len() - i,
    {
        proof {
            assert(all.len() == ws@.len());
            assert(all[i as int] == ws@[i as int]@);
            assert(all.take(i + 1).drop_last() =~= all.take(i as int));
        }
        let w = bare(ws[i].as_str());
        let ghost before = out@;
        if w.as_str().unicode_len() > 0 {
            out.push(w);
            proof {
                assert(texts(out@) =~= texts(before).push(w@));
            }
        }
        i += 1;
    }
    proof {
        assert(all.take(i as int) =~= all);
    }
    out
}

/// How many tokens two lists have in common, each counted as often as it
/// occurs in both.
pub open spec fn common_tokens(a: Seq<Seq<char>>, b: Seq<Seq<char>>) -> nat {
    a.to_multiset().intersection_with(b.to_multiset()).len()
}

/// The share of common tokens among all tokens of two lists, rounded to a
/// double; zero where a list is empty.
pub open spec fn token_similarity(a: Seq<Seq<char>>, b: Seq<Seq<char>>) -> Real64 {
    if a.len() == 0 || b.len() == 0 {
        Real64 { bits: 0 }
    } else {
        let m = common_tokens(a, b);
        Real64 { bits: nearest(m, (a.len() + b.len() - m) as nat) as u64 }
    }
}

proof fn lemma_common_hit(a: Multiset<Seq<char>>, b: Multiset<Seq<char>>, t: Seq<char>)
    requires
        a.count(t) > 0,
        b.count(t) > 0,
    ensures
        a.intersection_with(b).len() == 1 + a.remove(t).intersection_with(b.remove(t)).len(),
{
    broadcast use vstd::multiset::group_multiset_axioms;

    let x = a.intersection_with(b);
    let y = a.remove(t).intersection_with(b.remove(t));
    assert forall|v: Seq<char>| #[trigger] x.count(v) == y.insert(t).count(v) by {
        vstd::multiset::lemma_intersection_count(a, b, v);
        vstd::multiset::lemma_intersection_count(a.remove(t), b.remove(t), v);
    }
    assert(x =~= y.insert(t));
}

proof fn lemma_common_miss(a: Multiset<Seq<char>>, b: Multiset<Seq<char>>, t: Seq<char>)
    requires
        a.count(t) > 0,
        b.count(t) == 0,
    ensures
        a.intersection_with(b).len() == a.remove(t).intersection_with(b).len(),
{
    broadcast use vstd::multiset::group_multiset_axioms;

    let x = a.intersection_with(b);
    let y = a.remove(t).intersection_with(b);
    assert forall|v: Seq<char>| #[trigger] x.count(v) == y.count(v) by {
        vstd::multiset::lemma_intersection_count(a, b, v);
        vstd::multiset::lemma_intersection_count(a.remove(t), b, v);
    }
    assert(x =~= y);
}

proof fn lemma_common_none(b: Multiset<Seq<char>>)
    ensures
        Multiset::<Seq<char>>::empty().intersection_with(b).len() == 0,
{
    broadcast use vstd::multiset::group_multiset_axioms;

    let e = Multiset::<Seq<char>>::empty();
    assert forall|v: Seq<char>| #[trigger] e.intersection_with(b).count(v) == e.count(v) by {
        vstd::multiset::lemma_intersection_count(e, b, v);
    }
    assert(e.intersection_with(b) =~= e);
}

/// Common tokens are tokens of both lists.
pub proof fn lemma_common_bound(a: Seq<Seq<char>>, b: Seq<Seq<char>>)
    ensures
        common_tokens(a, b) <= a.len(),
        common_tokens(a, b) <= b.len(),
{
    broadcast use vstd::multiset::group_multiset_axioms;

    let x = a.to_multiset();
    let y = b.to_multiset();
    let m = x.intersection_with(y);
    a.to_multiset_ensures();
    b.to_multiset_ensures();
    assert forall|v: Seq<char>| #[trigger] m.count(v) <= x.count(v) && m.count(v) <= y.count(v) by {
        vstd::multiset::lemma_intersection_count(x, y, v);
    }
    assert(m.subset_of(x) && m.subset_of(y));
    assert(x.sub(m).len() == x.len() - m.len());
    assert(y.sub(m).len() == y.len() - m.len());
}

/// The token similarity of a list and itself is one.
pub proof fn lemma_token_similarity_reflexive(a: Seq<Seq<char>>)
    requires
        a.len() > 0,
    ensures
        token_similarity(a, a).bits == ONE_BITS,
{
    broadcast use vstd::multiset::group_multiset_axioms;

    let x = a.to_multiset();
    a.to_multiset_ensures();
    assert forall|v: Seq<char>| #[trigger] x.intersection_with(x).count(v) == x.count(v) by {
        vstd::multiset::lemma_intersection_count(x, x, v);
    }
    assert(x.intersection_with(x) =~= x);
    lemma_nearest_one(a.len());
}

/// Token similarity does not depend on which list comes first.
pub proof fn lemma_token_similarity_symmetric(a: Seq<Seq<char>>, b: Seq<Seq<char>>)
    ensures
        token_similarity(a, b) == token_similarity(b, a),
{
    broadcast use vstd::multiset::group_multiset_axioms;

    let x = a.to_multiset();
    let y = b.to_multiset();
    assert forall|v: Seq<char>| #[trigger]
        x.intersection_with(y).count(v) == y.intersection_with(x).count(v) by {
        vstd::multiset::lemma_intersection_count(x, y, v);
        vstd::multiset::lemma_intersection_count(y, x, v);
    }
    assert(x.intersection_with(y) =~= y.intersection_with(x));
}

/// Token similarity does not depend on the order of the tokens.
pub proof fn lemma_token_similarity_permuted(
    a: Seq<Seq<char>>,
    b: Seq<Seq<char>>,
    p: Seq<Seq<char>>,
    q: Seq<Seq<char>>,
)
    requires
        a.to_multiset() == p.to_multiset(),
        b.to_multiset() == q.to_multiset(),
    ensures
        token_similarity(a, b) == token_similarity(p, q),
{
    a.to_multiset_ensures();
    b.to_multiset_ensures();
    p.to_multiset_ensures();
    q.to_multiset_ensures();
}

/// Two lists have all their tokens in common exactly where they hold the same
/// tokens, each equally often.
pub proof fn lemma_common_all(a: Seq<Seq<char>>, b: Seq<Seq<char>>)
    ensures
        a.to_multiset() == b.to_multiset() <==> common_tokens(a, b) == a.len() && common_tokens(a, b)
            == b.len(),
{
    broadcast use vstd::multiset::group_multiset_axioms;

    let x = a.to_multiset();
    let y = b.to_multiset();
    let m = x.intersection_with(y);
    a.to_multiset_ensures();
    b.to_multiset_ensures();
    assert forall|v: Seq<char>| #[trigger] m.count(v) <= x.count(v) && m.count(v) <= y.count(v) by {
        vstd::multiset::lemma_intersection_count(x, y, v);
    }
    if x == y {
        assert forall|v: Seq<char>| #[trigger] m.count(v) == x.count(v) by {
            vstd::multiset::lemma_intersection_count(x, y, v);
        }
        assert(m =~= x);
    }
    if m.len() == x.len() && m.len() == y.len() {
        assert(m.subset_of(x) && m.subset_of(y));
        vstd::multiset::lemma_multiset_empty_len(x.sub(m));
        vstd::multiset::lemma_multiset_empty_len(y.sub(m));
        assert forall|v: Seq<char>| x.count(v) == y.count(v) by {
            assert(x.sub(m).count(v) == 0);
            assert(y.sub(m).count(v) == 0);
        }
        assert(x =~= y);
    }
}

/// Lists that are not empty and hold the same tokens, each equally often, have
/// similarity one, and only such lists have it. Where there are two to the power
/// of 54 tokens or more, others can come closer to one than a double can tell.
pub proof fn lemma_token_similarity_one(a: Seq<Seq<char>>, b: Seq<Seq<char>>)
    requires
        a.len() > 0,
        b.len() > 0,
    ensures
        a.to_multiset() == b.to_multiset() ==> token_similarity(a, b).bits == ONE_BITS,
        token_similarity(a, b).bits == ONE_BITS && a.len() + b.len() - common_tokens(a, b)
            < 0x40_0000_0000_0000 ==> a.to_multiset() == b.to_multiset(),
{
    lemma_common_bound(a, b);
    lemma_common_all(a, b);
    let m = common_tokens(a, b);
    let all = (a.len() + b.len() - m) as nat;
    lemma_nearest_is_one(m, all);
    lemma_nearest_fits(m, all);
    if m == all {
        lemma_nearest_one(m);
    }
    if all < 0x40_0000_0000_0000 && m < all {
        assert(4 * 0x10_0000_0000_0000 * (all - m) > all) by (nonlinear_arith)
            requires
                all < 0x40_0000_0000_0000,
                m < all,
        ;
    }
}

/// Token-set similarity: the number of common tokens over the number of all
/// tokens, with multiplicity and in any order. Empty inputs score zero.
pub fn token_set_sim(a: &Vec<String>, b: &Vec<String>) -> (r: Real64)
    ensures
        r == token_similarity(texts(a@), texts(b@)),
        r.bits <= ONE_BITS,
{
    if a.len() == 0 || b.len() == 0 {
        return Real64 { bits: 0 };
    }
    let ghost ta = texts(a@);
    let ghost tb = texts(b@);
    let mut pool: Vec<String> = Vec::new();
    let mut j: usize = 0;
    while j < b.len()
        invariant
            j <= b@.len(),
            texts(pool@) == texts(b@).take(j as int),
        decreases b@.len() - j,
    {
        let ghost before = pool@;
        pool.push(b[j].clone());
        proof {
            assert(texts(pool@) =~= texts(before).push(b@[j as int]@));
            assert(texts(b@).take(j + 1) =~= texts(b@).take(j as int).push(b@[j as int]@));
        }
        j += 1;
    }
    proof {
        assert(tb.take(j as int) =~= tb);
        assert(ta.skip(0) =~= ta);
        lemma_common_bound(ta, tb);
    }
    let mut matched: usize = 0;
    let mut i: usize = 0;
    while i < a.len()
        invariant
            ta == texts(a@),
            i <= a@.len(),
            matched <= i,
            matched + common_tokens(ta.skip(i as int), texts(pool@)) == common_tokens(ta, tb),
        decreases a@.len() - i,
    {
        let ghost rest = ta.skip(i as int);
        let ghost left = texts(pool@);
        let ghost t = a@[i as int]@;
        let mut k: usize = 0;
        while k < pool.len() && !same_text(pool[k].as_str(), a[i].as_str())
            invariant
                i < a@.len(),
                k <= pool@.len(),
                forall|q: int| 0 <= q < k ==> pool@[q]@ != a@[i as int]@,
            decreases pool@.len() - k,
        {
            k += 1;
        }
        proof {
            assert(ta[i as int] == t);
            assert(rest[0] == t);
            assert(rest.remove(0) =~= ta.skip(i + 1));
            rest.to_multiset_ensures();
            left.to_multiset_ensures();
            assert(rest.contains(rest[0]));
        }
        if k < pool.len() {
            matched += 1;
            proof {
                assert(left[k as int] == t);
                assert(left.contains(left[k as int]));
                lemma_common_hit(rest.to_multiset(), left.to_multiset(), t);
                assert(rest.remove(0).to_multiset() == rest.to_multiset().remove(t));
                assert(left.remove(k as int).to_multiset() == left.to_multiset().remove(t));
            }
            let gone = pool.remove(k);
            proof {
                assert(texts(pool@) =~= left.remove(k as int));
            }
        } else {
            proof {
                assert(!left.contains(t)) by {
                    if left.contains(t) {
                        let q = choose|q: int| 0 <= q < left.len() && left[q] == t;
                        assert(pool@[q]@ == t);
                    }
                }
                lemma_common_miss(rest.to_multiset(), left.to_multiset(), t);
                assert(rest.remove(0).to_multiset() == rest.to_multiset().remove(t));
            }
        }
        i += 1;
    }
    proof {
        let none = ta.skip(i as int);
        assert(none.len() == 0);
        none.to_multiset_ensures();
        assert(none.to_multiset() =~= Multiset::empty()) by {
            broadcast use vstd::multiset::group_multiset_axioms;
            vstd::multiset::lemma_multiset_empty_len(none.to_multiset());
        }
        lemma_common_none(texts(pool@).to_multiset());
    }
    let union: u128 = a.len() as u128 + b.len() as u128 - matched as u128;
    let r = divide(matched as u64, union);
    proof {
        lemma_nearest_at_most_one(matched as nat, union as nat);
    }
    r
}

/// What `strsim::jaro_winkler` returns, by its bit pattern.
pub uninterp spec fn jaro_winkler_bits(a: Seq<char>, b: Seq<char>) -> u64;

/// `strsim::jaro_winkler`: a similarity between zero and one. Equal texts have
/// similarity one, and an empty text has similarity zero to any other.
#[verifier::external_body]
pub(crate) fn jaro_winkler(a: &str, b: &str) -> (r: Real64)
    ensures
        r.bits == jaro_winkler_bits(a@, b@),
        r.bits <= ONE_BITS,
        a@ == b@ ==> r.bits == ONE_BITS,
        (a@.len() == 0) != (b@.len() == 0) ==> r.bits == 0,
{
    Real64 { bits: strsim::jaro_winkler(a, b).to_bits() }
}

/// The Jaro-Winkler similarity of two texts, a number between zero and one.
pub open spec fn similarity(a: Seq<char>, b: Seq<char>) -> Real64 {
    if a == b || jaro_winkler_bits(a, b) > ONE_BITS {
        Real64 { bits: ONE_BITS }
    } else if a.len() == 0 || b.len() == 0 {
        Real64 { bits: 0 }
    } else {
        Real64 { bits: jaro_winkler_bits(a, b) }
    }
}

/// A similarity lies between zero and one, and is one for equal texts.
pub proof fn lemma_similarity_bound(a: Seq<char>, b: Seq<char>)
    ensures
        similarity(a, b).bits <= ONE_BITS,
        !similarity(a, b).is_nan(),
        a == b ==> similarity(a, b).bits == ONE_BITS,
{
}

/// The greatest similarity between `word` and a token; zero without tokens.
pub open spec fn best_similarity(word: Seq<char>, toks: Seq<Seq<char>>) -> Real64
    decreases toks.len(),
{
    if toks.len() == 0 {
        Real64 { bits: 0 }
    } else {
        best_similarity(word, toks.drop_last()).spec_max(similarity(word, toks.last()))
    }
}

/// The best Jaro-Winkler similarity between `word` and any token. It catches
/// typing errors and spelling variants that whole-token comparison misses.
pub fn word_similarity(word: &str, toks: &Vec<String>) -> (r: Real64)
    ensures
        r == best_similarity(word@, texts(toks@)),
        r.bits <= ONE_BITS,
{
    let mut best = Real64 { bits: 0 };
    let mut i: usize = 0;
    while i < toks.len()
        invariant
            i <= toks@.len(),
            best == best_similarity(word@, texts(toks@).take(i as int)),
            best.bits <= ONE_BITS,
        decreases toks@.len() - i,
    {
        proof {
            let next = texts(toks@).take(i + 1);
            assert(next.drop_last() =~= texts(toks@).take(i as int));
            assert(next.last() == toks@[i as int]@);
            if word@.len() == 0 && next.last().len() == 0 {
                assert(word@ =~= next.last());
            }
        }
        best = best.greater_of(jaro_winkler(word, toks[i].as_str()));
        i += 1;
    }
    proof {
        assert(texts(toks@).take(i as int) =~= texts(toks@));
    }
    best
}

/// The similarity of two different texts that are not empty is what the measure
/// says, where that is a number up to one; a text is as similar to itself as can
/// be, and not at all to the empty text.
pub proof fn lemma_similarity_measured(a: Seq<char>, b: Seq<char>)
    ensures
        a != b && a.len() > 0 && b.len() > 0 && jaro_winkler_bits(a, b) <= 0x3FF0_0000_0000_0000
            ==> similarity(a, b).bits == jaro_winkler_bits(a, b),
        similarity(a, a).bits == 0x3FF0_0000_0000_0000,
        a.len() > 0 && b.len() == 0 && jaro_winkler_bits(a, b) <= 0x3FF0_0000_0000_0000
            ==> similarity(a, b).bits == 0,
{
}

} // verus!
