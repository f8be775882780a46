//! What the text primitives promise of every text: what trimming takes away,
//! where a text is found, how words, pieces and tokens relate to the text they
//! were cut from.

use vstd::prelude::*;

use crate::matching::{
    bare_end, bare_start, bare_word, bare_words, is_bracket, joined, normalized, open_brackets,
    outside_brackets, tokens,
};
use crate::text::{
    alphanumeric, ascii_lower, ascii_lower_char, contains_text, decimal, decimal_padded, find_text,
    first_at, has_prefix, has_suffix, is_space, lemma_first_at, lemma_words_shape, occurs_at,
    parsed_signed, parsed_unsigned, replaced_char, solid, split_on, trimmed, trimmed_end, trimmed_start, word_scan, words,
};

verus! {

/// Among the ASCII characters, the space and the five control characters from
/// tab to carriage return are white space; no letter, digit or sign is.
pub proof fn lemma_ascii_space(c: char)
    requires
        (c as u32) < 128,
    ensures
        is_space(c) <==> c == ' ' || 9 <= c as u32 <= 13,
{
}

/// All white space there is, by code point.
pub proof fn lemma_space_code_points(c: char)
    ensures
        is_space(c) <==> {
            let n = c as u32;
            9 <= n <= 13 || n == 32 || n == 133 || n == 160 || n == 5760 || 8192 <= n <= 8202 || n
                == 8232 || n == 8233 || n == 8239 || n == 8287 || n == 12288
        },
{
}

/// Among the ASCII characters, the letters and the digits are alphanumeric.
pub proof fn lemma_ascii_alphanumeric(c: char)
    requires
        (c as u32) < 128,
    ensures
        alphanumeric(c) <==> 'a' <= c <= 'z' || 'A' <= c <= 'Z' || '0' <= c <= '9',
{
}

/// Lower case has the length of the text and no letter from `A` to `Z`; every
/// character that is no such letter stays in its place, and such a letter
/// becomes the small one.
pub proof fn lemma_ascii_lower(s: Seq<char>)
    ensures
        ascii_lower(s).len() == s.len(),
        forall|i: int|
            0 <= i < s.len() ==> !('A' <= #[trigger] ascii_lower(s)[i] <= 'Z') && (if 'A' <= s[i]
                <= 'Z' {
                ascii_lower(s)[i] as u32 == s[i] as u32 + 32
            } else {
                ascii_lower(s)[i] == s[i]
            }),
        ascii_lower(ascii_lower(s)) == ascii_lower(s),
{
    assert forall|i: int| 0 <= i < s.len() implies !('A' <= #[trigger] ascii_lower(s)[i] <= 'Z')
        && (if 'A' <= s[i] <= 'Z' {
        ascii_lower(s)[i] as u32 == s[i] as u32 + 32
    } else {
        ascii_lower(s)[i] == s[i]
    }) by {
        lemma_lower_char(s[i]);
    }
    assert(ascii_lower(ascii_lower(s)) =~= ascii_lower(s));
}

proof fn lemma_lower_char(c: char)
    ensures
        !('A' <= ascii_lower_char(c) <= 'Z'),
        'A' <= c <= 'Z' ==> ascii_lower_char(c) as u32 == c as u32 + 32,
        !('A' <= c <= 'Z') ==> ascii_lower_char(c) == c,
{
}

/// Lower case of two texts laid end to end is that of the one followed by that
/// of the other.
pub proof fn lemma_ascii_lower_joined(a: Seq<char>, b: Seq<char>)
    ensures
        ascii_lower(a + b) == ascii_lower(a) + ascii_lower(b),
{
    assert(ascii_lower(a + b) =~= ascii_lower(a) + ascii_lower(b));
}

proof fn lemma_trimmed_start(s: Seq<char>) -> (i: int)
    ensures
        0 <= i <= s.len(),
        trimmed_start(s) == s.subrange(i, s.len() as int),
        forall|k: int| 0 <= k < i ==> is_space(#[trigger] s[k]),
        i < s.len() ==> !is_space(s[i]),
    decreases s.len(),
{
    if s.len() > 0 && is_space(s[0]) {
        let rest = s.drop_first();
        let j = lemma_trimmed_start(rest);
        assert(rest.subrange(j, rest.len() as int) =~= s.subrange(j + 1, s.len() as int));
        assert forall|k: int| 0 <= k < j + 1 implies is_space(#[trigger] s[k]) by {
            if k > 0 {
                assert(rest[k - 1] == s[k]);
            }
        }
        j + 1
    } else {
        assert(s.subrange(0, s.len() as int) =~= s);
        0
    }
}

proof fn lemma_trimmed_end(s: Seq<char>) -> (j: int)
    ensures
        0 <= j <= s.len(),
        trimmed_end(s) == s.subrange(0, j),
        forall|k: int| j <= k < s.len() ==> is_space(#[trigger] s[k]),
        j > 0 ==> !is_space(s[j - 1]),
    decreases s.len(),
{
    if s.len() > 0 && is_space(s.last()) {
        let rest = s.drop_last();
        let j = lemma_trimmed_end(rest);
        assert(rest.subrange(0, j) =~= s.subrange(0, j));
        assert forall|k: int| j <= k < s.len() implies is_space(#[trigger] s[k]) by {
            if k < rest.len() {
                assert(rest[k] == s[k]);
            }
        }
        j
    } else {
        assert(s.subrange(0, s.len() as int) =~= s);
        s.len() as int
    }
}

/// `s` from `i` up to `j` is what trimming leaves: all else is white space, and
/// what is left neither begins nor ends with any.
pub open spec fn trims_to(s: Seq<char>, i: int, j: int) -> bool {
    &&& 0 <= i <= j <= s.len()
    &&& forall|k: int| 0 <= k < s.len() && (k < i || j <= k) ==> is_space(#[trigger] s[k])
    &&& i < j ==> !is_space(s[i]) && !is_space(s[j - 1])
}

/// Trimming takes the white space at both ends and nothing else.
pub proof fn lemma_trimmed(s: Seq<char>)
    ensures
        exists|i: int, j: int| #[trigger] trims_to(s, i, j) && trimmed(s) == s.subrange(i, j),
{
    let i = lemma_trimmed_start(s);
    let rest = s.subrange(i, s.len() as int);
    let j = lemma_trimmed_end(rest);
    assert(rest.subrange(0, j) =~= s.subrange(i, i + j));
    assert forall|k: int| 0 <= k < s.len() && (k < i || i + j <= k) implies is_space(
        #[trigger] s[k],
    ) by {
        if k >= i + j {
            assert(rest[k - i] == s[k]);
        }
    }
    if j > 0 {
        assert(rest[0] == s[i] && rest[j - 1] == s[i + j - 1]);
    }
    assert(trims_to(s, i, i + j) && trimmed(s) == s.subrange(i, i + j));
}

/// A text that neither begins nor ends with white space is left as it is.
pub proof fn lemma_trimmed_same(s: Seq<char>)
    requires
        s.len() > 0 ==> !is_space(s[0]) && !is_space(s.last()),
    ensures
        trimmed(s) == s,
{
}

/// A separator is found where it first stands: after a text `a` in which, with
/// all but the last character of the separator behind it, it does not stand.
pub proof fn lemma_find_after(a: Seq<char>, sep: Seq<char>, t: Seq<char>)
    requires
        sep.len() > 0,
        !contains_text(a + sep.drop_last(), sep),
    ensures
        find_text(a + sep + t, sep) == Some(a.len() as int),
        (a + sep + t).subrange(0, a.len() as int) == a,
        (a + sep + t).subrange((a.len() + sep.len()) as int, (a + sep + t).len() as int) == t,
{
    let s = a + sep + t;
    let n = a.len() as int;
    assert(s.subrange(n, n + sep.len()) =~= sep);
    assert(occurs_at(s, sep, n));
    assert forall|j: int| j < n implies !occurs_at(s, sep, j) by {
        if occurs_at(s, sep, j) {
            let front = a + sep.drop_last();
            assert(front.subrange(j, j + sep.len()) =~= s.subrange(j, j + sep.len()));
            assert(occurs_at(front, sep, j));
        }
    }
    assert(first_at(s, sep, n));
    lemma_first_at(s, sep, n);
    assert(s.subrange(0, n) =~= a);
    assert(s.subrange(n + sep.len(), s.len() as int) =~= t);
}

/// What is found stands there, and does not stand earlier; nothing is found
/// where the text stands nowhere.
pub proof fn lemma_find_text(s: Seq<char>, p: Seq<char>)
    ensures
        find_text(s, p) is None <==> forall|i: int|
            0 <= i && i + p.len() <= s.len() ==> #[trigger] s.subrange(i, i + p.len()) != p,
        find_text(s, p) matches Some(i) ==> 0 <= i && i + p.len() <= s.len() && s.subrange(
            i,
            i + p.len(),
        ) == p && forall|j: int| 0 <= j < i ==> #[trigger] s.subrange(j, j + p.len()) != p,
{
    if contains_text(s, p) {
        let k = choose|k: int| occurs_at(s, p, k);
        lemma_earliest(s, p, k);
        let i = choose|i: int| first_at(s, p, i);
        assert forall|j: int| 0 <= j < i implies #[trigger] s.subrange(j, j + p.len()) != p by {
            assert(!occurs_at(s, p, j));
        }
        assert(s.subrange(i, i + p.len()) == p);
    } else {
        assert forall|i: int| 0 <= i && i + p.len() <= s.len() implies #[trigger] s.subrange(
            i,
            i + p.len(),
        ) != p by {
            assert(!occurs_at(s, p, i));
        }
    }
}

proof fn lemma_earliest(s: Seq<char>, p: Seq<char>, k: int)
    requires
        occurs_at(s, p, k),
    ensures
        exists|i: int| first_at(s, p, i),
    decreases k,
{
    if exists|j: int| j < k && occurs_at(s, p, j) {
        let j = choose|j: int| j < k && occurs_at(s, p, j);
        lemma_earliest(s, p, j);
    } else {
        assert(first_at(s, p, k));
    }
}

/// A text begins with its front and ends with its back.
pub proof fn lemma_prefix_suffix(a: Seq<char>, b: Seq<char>)
    ensures
        has_prefix(a + b, a),
        has_suffix(a + b, b),
{
    assert((a + b).subrange(0, a.len() as int) =~= a);
    assert((a + b).subrange(a.len() as int, (a.len() + b.len()) as int) =~= b);
}

proof fn lemma_word_scan_joined(a: Seq<char>, c: char, b: Seq<char>)
    requires
        is_space(c),
    ensures
        word_scan(a.push(c) + b).0 == words(a) + word_scan(b).0,
        word_scan(a.push(c) + b).1 == word_scan(b).1,
    decreases b.len(),
{
    let s = a.push(c) + b;
    if b.len() == 0 {
        assert(s =~= a.push(c));
        assert(s.drop_last() =~= a);
        assert(words(a) + word_scan(b).0 =~= words(a));
    } else {
        let front = b.drop_last();
        lemma_word_scan_joined(a, c, front);
        assert(s.drop_last() =~= a.push(c) + front);
        assert(s.last() == b.last());
        let open = word_scan(front).1;
        if is_space(b.last()) && open.len() > 0 {
            assert((words(a) + word_scan(front).0).push(open) =~= words(a) + word_scan(
                front,
            ).0.push(open));
        }
    }
}

/// White space parts words: those of a text before it and those of a text
/// behind it are the words of the whole.
pub proof fn lemma_words_joined(a: Seq<char>, c: char, b: Seq<char>)
    requires
        is_space(c),
    ensures
        words(a.push(c) + b) == words(a) + words(b),
{
    lemma_word_scan_joined(a, c, b);
    let open = word_scan(b).1;
    if open.len() > 0 {
        assert((words(a) + word_scan(b).0).push(open) =~= words(a) + word_scan(b).0.push(open));
    }
}

/// A text without white space is one word, and the empty text has none.
pub proof fn lemma_words_solid(w: Seq<char>)
    requires
        solid(w),
    ensures
        w.len() > 0 ==> words(w) == seq![w],
        w.len() == 0 ==> words(w).len() == 0,
{
    lemma_scan_solid(w);
    if w.len() > 0 {
        assert(words(w) =~= seq![w]);
    }
}

proof fn lemma_scan_solid(w: Seq<char>)
    requires
        solid(w),
    ensures
        word_scan(w).0.len() == 0,
        word_scan(w).1 == w,
    decreases w.len(),
{
    if w.len() > 0 {
        assert(solid(w.drop_last())) by {
            assert forall|k: int| 0 <= k < w.drop_last().len() implies !is_space(
                #[trigger] w.drop_last()[k],
            ) by {
                assert(w.drop_last()[k] == w[k]);
            }
        }
        lemma_scan_solid(w.drop_last());
        assert(!is_space(w[w.len() - 1]));
        assert(w.drop_last().push(w.last()) =~= w);
    } else {
        assert(w =~= Seq::<char>::empty());
    }
}

/// The pieces with `sep` between each two.
pub open spec fn joined_by(parts: Seq<Seq<char>>, sep: char) -> Seq<char>
    decreases parts.len(),
{
    if parts.len() == 0 {
        Seq::empty()
    } else if parts.len() == 1 {
        parts[0]
    } else {
        joined_by(parts.drop_last(), sep).push(sep) + parts.last()
    }
}

/// Splitting undoes joining: the pieces, joined by the separator, are the text,
/// and no piece holds the separator.
pub proof fn lemma_split_on(s: Seq<char>, sep: char)
    ensures
        split_on(s, sep).len() > 0,
        joined_by(split_on(s, sep), sep) == s,
        forall|i: int| 0 <= i < split_on(s, sep).len() ==> !(#[trigger] split_on(s, sep)[i]).contains(
            sep,
        ),
    decreases s.len(),
{
    let parts = split_on(s, sep);
    if s.len() == 0 {
        assert(parts[0] =~= s);
    } else {
        let front = s.drop_last();
        lemma_split_on(front, sep);
        let before = split_on(front, sep);
        assert(front.push(s.last()) =~= s);
        if s.last() == sep {
            assert(parts.drop_last() =~= before);
            assert(joined_by(parts, sep) =~= s);
            assert forall|i: int| 0 <= i < parts.len() implies !(#[trigger] parts[i]).contains(
                sep,
            ) by {
                if i < before.len() {
                    assert(parts[i] == before[i]);
                }
            }
        } else {
            let last = before.last().push(s.last());
            assert(parts.drop_last() =~= before.drop_last());
            assert(parts.last() == last);
            assert(joined_by(parts, sep) =~= joined_by(before, sep).push(s.last()));
            assert forall|i: int| 0 <= i < parts.len() implies !(#[trigger] parts[i]).contains(
                sep,
            ) by {
                if i < parts.len() - 1 {
                    assert(parts[i] == before[i]);
                } else {
                    assert(!before[before.len() - 1].contains(sep));
                    if last.contains(sep) {
                        let k = choose|k: int| 0 <= k < last.len() && last[k] == sep;
                        assert(before.last()[k] == sep);
                    }
                }
            }
        }
    }
}

/// Replacing works character by character: it leaves a text without the
/// character alone, and replaces in both halves of a text.
pub proof fn lemma_replaced_char(a: Seq<char>, b: Seq<char>, from: char, to: Seq<char>)
    ensures
        replaced_char(a + b, from, to) == replaced_char(a, from, to) + replaced_char(b, from, to),
        !a.contains(from) ==> replaced_char(a, from, to) == a,
        replaced_char(seq![from], from, to) == to,
    decreases a.len() + b.len(),
{
    assert(seq![from].drop_last() =~= Seq::<char>::empty());
    assert(replaced_char(Seq::<char>::empty(), from, to).len() == 0);
    assert(replaced_char(seq![from], from, to) =~= to);
    if !a.contains(from) {
        if a.len() > 0 {
            let front = a.drop_last();
            assert(!front.contains(from)) by {
                if front.contains(from) {
                    let k = choose|k: int| 0 <= k < front.len() && front[k] == from;
                    assert(a[k] == from);
                }
            }
            lemma_replaced_char(front, Seq::empty(), from, to);
            assert(a[a.len() - 1] == a.last());
            assert(replaced_char(a, from, to) =~= a);
        } else {
            assert(a =~= Seq::<char>::empty());
        }
    }
    if b.len() == 0 {
        assert(a + b =~= a);
        assert(replaced_char(a, from, to) + replaced_char(b, from, to) =~= replaced_char(
            a,
            from,
            to,
        ));
    } else {
        let front = b.drop_last();
        lemma_replaced_char(a, front, from, to);
        assert((a + b).drop_last() =~= a + front);
        assert(replaced_char(a + b, from, to) =~= replaced_char(a, from, to) + replaced_char(
            b,
            from,
            to,
        ));
    }
}

/// A numeral that is filled up ends in the plain numeral, has at least the
/// width asked for, and has nothing but zeros in front.
pub proof fn lemma_decimal_padded(n: nat, width: nat)
    ensures
        decimal_padded(n, width).len() >= width,
        decimal_padded(n, width).len() == width || decimal_padded(n, width) == decimal(n),
        has_suffix(decimal_padded(n, width), decimal(n)),
        forall|i: int|
            0 <= i < decimal_padded(n, width).len() - decimal(n).len() ==> #[trigger] decimal_padded(
                n,
                width,
            )[i] == '0',
{
    let d = decimal(n);
    let p = decimal_padded(n, width);
    assert(p.subrange(p.len() - d.len(), p.len() as int) =~= d);
}

/// A bare word is the part of a word from its first letter or digit to its
/// last: all that is cut off is punctuation.
pub proof fn lemma_bare_word(w: Seq<char>)
    ensures
        exists|i: int, j: int| #[trigger] bares_to(w, i, j) && bare_word(w) == w.subrange(i, j),
{
    let i = lemma_bare_start(w);
    let rest = w.subrange(i, w.len() as int);
    let j = lemma_bare_end(rest);
    assert(rest.subrange(0, j) =~= w.subrange(i, i + j));
    assert forall|k: int| 0 <= k < w.len() && (k < i || i + j <= k) implies !alphanumeric(
        #[trigger] w[k],
    ) by {
        if k >= i + j {
            assert(rest[k - i] == w[k]);
        }
    }
    if j > 0 {
        assert(rest[0] == w[i] && rest[j - 1] == w[i + j - 1]);
    }
    assert(bares_to(w, i, i + j) && bare_word(w) == w.subrange(i, i + j));
}

/// `w` from `i` up to `j` is what is left of it without punctuation at its ends.
pub open spec fn bares_to(w: Seq<char>, i: int, j: int) -> bool {
    &&& 0 <= i <= j <= w.len()
    &&& forall|k: int| 0 <= k < w.len() && (k < i || j <= k) ==> !alphanumeric(#[trigger] w[k])
    &&& i < j ==> alphanumeric(w[i]) && alphanumeric(w[j - 1])
}

proof fn lemma_bare_start(s: Seq<char>) -> (i: int)
    ensures
        0 <= i <= s.len(),
        bare_start(s) == s.subrange(i, s.len() as int),
        forall|k: int| 0 <= k < i ==> !alphanumeric(#[trigger] s[k]),
        i < s.len() ==> alphanumeric(s[i]),
    decreases s.len(),
{
    if s.len() > 0 && !alphanumeric(s[0]) {
        let rest = s.drop_first();
        let j = lemma_bare_start(rest);
        assert(rest.subrange(j, rest.len() as int) =~= s.subrange(j + 1, s.len() as int));
        assert forall|k: int| 0 <= k < j + 1 implies !alphanumeric(#[trigger] s[k]) by {
            if k > 0 {
                assert(rest[k - 1] == s[k]);
            }
        }
        j + 1
    } else {
        assert(s.subrange(0, s.len() as int) =~= s);
        0
    }
}

proof fn lemma_bare_end(s: Seq<char>) -> (j: int)
    ensures
        0 <= j <= s.len(),
        bare_end(s) == s.subrange(0, j),
        forall|k: int| j <= k < s.len() ==> !alphanumeric(#[trigger] s[k]),
        j > 0 ==> alphanumeric(s[j - 1]),
    decreases s.len(),
{
    if s.len() > 0 && !alphanumeric(s.last()) {
        let rest = s.drop_last();
        let j = lemma_bare_end(rest);
        assert(rest.subrange(0, j) =~= s.subrange(0, j));
        assert forall|k: int| j <= k < s.len() implies !alphanumeric(#[trigger] s[k]) by {
            if k < rest.len() {
                assert(rest[k] == s[k]);
            }
        }
        j
    } else {
        assert(s.subrange(0, s.len() as int) =~= s);
        s.len() as int
    }
}

proof fn lemma_bare_words_joined(a: Seq<Seq<char>>, b: Seq<Seq<char>>)
    ensures
        bare_words(a + b) == bare_words(a) + bare_words(b),
    decreases b.len(),
{
    if b.len() == 0 {
        assert(a + b =~= a);
        assert(bare_words(a) + bare_words(b) =~= bare_words(a));
    } else {
        lemma_bare_words_joined(a, b.drop_last());
        assert((a + b).drop_last() =~= a + b.drop_last());
        assert(bare_words(a + b) =~= bare_words(a) + bare_words(b));
    }
}

/// The tokens of a text with white space in it are those of the part before it
/// and those of the part behind it.
pub proof fn lemma_tokens_joined(a: Seq<char>, c: char, b: Seq<char>)
    requires
        is_space(c),
    ensures
        tokens(a.push(c) + b) == tokens(a) + tokens(b),
{
    let low = ascii_lower(a.push(c) + b);
    assert(low =~= ascii_lower(a).push(c) + ascii_lower(b)) by {
        lemma_lower_char(c);
    }
    lemma_words_joined(ascii_lower(a), c, ascii_lower(b));
    lemma_bare_words_joined(words(ascii_lower(a)), words(ascii_lower(b)));
}

/// A text without white space is one token, its bare word in lower case, or no
/// token where it is punctuation alone.
pub proof fn lemma_tokens_solid(w: Seq<char>)
    requires
        solid(w),
    ensures
        bare_word(ascii_lower(w)).len() > 0 ==> tokens(w) == seq![bare_word(ascii_lower(w))],
        bare_word(ascii_lower(w)).len() == 0 ==> tokens(w).len() == 0,
{
    let low = ascii_lower(w);
    assert(solid(low)) by {
        assert forall|k: int| 0 <= k < low.len() implies !is_space(#[trigger] low[k]) by {
            lemma_lower_char(w[k]);
            assert(!is_space(w[k]));
        }
    }
    lemma_words_solid(low);
    if low.len() > 0 {
        assert(seq![low].drop_last() =~= Seq::<Seq<char>>::empty());
        assert(bare_words(Seq::<Seq<char>>::empty()) =~= Seq::<Seq<char>>::empty());
        let t = bare_word(low);
        if t.len() > 0 {
            assert(bare_words(seq![low]) =~= seq![t]);
        }
    } else {
        assert(words(low) =~= Seq::<Seq<char>>::empty());
        assert(low.len() == 0 && bare_word(low).len() == 0);
    }
}

/// What stands outside brackets holds no bracket, and a text without brackets is
/// kept whole.
pub proof fn lemma_outside_brackets(s: Seq<char>)
    ensures
        forall|i: int|
            0 <= i < outside_brackets(s).len() ==> {
                let c = #[trigger] outside_brackets(s)[i];
                c != '(' && c != ')' && c != '[' && c != ']'
            },
        (forall|i: int|
            0 <= i < s.len() ==> {
                let c = #[trigger] s[i];
                c != '(' && c != ')' && c != '[' && c != ']'
            }) ==> outside_brackets(s) == s,
    decreases s.len(),
{
    if s.len() > 0 {
        let front = s.drop_last();
        lemma_outside_brackets(front);
        assert(s[s.len() - 1] == s.last());
        let rest = outside_brackets(front);
        assert forall|i: int| 0 <= i < outside_brackets(s).len() implies {
            let c = #[trigger] outside_brackets(s)[i];
            c != '(' && c != ')' && c != '[' && c != ']'
        } by {
            if i < rest.len() {
                assert(outside_brackets(s)[i] == rest[i]);
            }
        }
        if forall|i: int|
            0 <= i < s.len() ==> {
                let c = #[trigger] s[i];
                c != '(' && c != ')' && c != '[' && c != ']'
            } {
            assert forall|i: int| 0 <= i < front.len() implies {
                let c = #[trigger] front[i];
                c != '(' && c != ')' && c != '[' && c != ']'
            } by {
                assert(front[i] == s[i]);
            }
            lemma_no_brackets(front);
            assert(front.push(s.last()) =~= s);
        }
    } else {
        assert(s =~= Seq::<char>::empty());
    }
}

proof fn lemma_no_brackets(s: Seq<char>)
    requires
        forall|i: int| 0 <= i < s.len() ==> !is_bracket(#[trigger] s[i]),
    ensures
        open_brackets(s, '(', ')') == 0,
        open_brackets(s, '[', ']') == 0,
    decreases s.len(),
{
    if s.len() > 0 {
        let front = s.drop_last();
        assert forall|i: int| 0 <= i < front.len() implies !is_bracket(#[trigger] front[i]) by {
            assert(front[i] == s[i]);
        }
        lemma_no_brackets(front);
        assert(!is_bracket(s[s.len() - 1]));
    }
}

proof fn lemma_inside_dropped(a: Seq<char>, opening: char, x: Seq<char>)
    requires
        opening == '(' || opening == '[',
        open_brackets(a, '(', ')') == 0,
        open_brackets(a, '[', ']') == 0,
        forall|i: int| 0 <= i < x.len() ==> !is_bracket(#[trigger] x[i]),
    ensures
        outside_brackets(a.push(opening) + x) == outside_brackets(a),
        open_brackets(a.push(opening) + x, '(', ')') == (if opening == '(' {
            1nat
        } else {
            0
        }),
        open_brackets(a.push(opening) + x, '[', ']') == (if opening == '[' {
            1nat
        } else {
            0
        }),
    decreases x.len(),
{
    let s = a.push(opening) + x;
    if x.len() == 0 {
        assert(s =~= a.push(opening));
        assert(s.drop_last() =~= a);
    } else {
        let front = x.drop_last();
        assert forall|i: int| 0 <= i < front.len() implies !is_bracket(#[trigger] front[i]) by {
            assert(front[i] == x[i]);
        }
        lemma_inside_dropped(a, opening, front);
        assert(s.drop_last() =~= a.push(opening) + front);
        assert(s.last() == x[x.len() - 1]);
    }
}

/// A decoration in round or square brackets leaves no trace: where all brackets
/// before it are closed, they are again behind it, and nothing of it stands
/// outside brackets.
pub proof fn lemma_decoration_dropped(a: Seq<char>, x: Seq<char>)
    requires
        open_brackets(a, '(', ')') == 0,
        open_brackets(a, '[', ']') == 0,
        forall|i: int|
            0 <= i < x.len() ==> {
                let c = #[trigger] x[i];
                c != '(' && c != ')' && c != '[' && c != ']'
            },
    ensures
        outside_brackets((a.push('(') + x).push(')')) == outside_brackets(a),
        outside_brackets((a.push('[') + x).push(']')) == outside_brackets(a),
        open_brackets((a.push('(') + x).push(')'), '(', ')') == 0,
        open_brackets((a.push('(') + x).push(')'), '[', ']') == 0,
        open_brackets((a.push('[') + x).push(']'), '(', ')') == 0,
        open_brackets((a.push('[') + x).push(']'), '[', ']') == 0,
{
    assert forall|i: int| 0 <= i < x.len() implies !is_bracket(#[trigger] x[i]) by {}
    lemma_inside_dropped(a, '(', x);
    lemma_inside_dropped(a, '[', x);
    assert((a.push('(') + x).push(')').drop_last() =~= a.push('(') + x);
    assert((a.push('[') + x).push(']').drop_last() =~= a.push('[') + x);
}

/// A character that is no bracket is kept where all brackets before it are
/// closed, and closes and opens none.
pub proof fn lemma_outside_kept(a: Seq<char>, c: char)
    requires
        open_brackets(a, '(', ')') == 0,
        open_brackets(a, '[', ']') == 0,
        c != '(' && c != ')' && c != '[' && c != ']',
    ensures
        outside_brackets(a.push(c)) == outside_brackets(a).push(c),
        open_brackets(a.push(c), '(', ')') == 0,
        open_brackets(a.push(c), '[', ']') == 0,
{
    assert(a.push(c).drop_last() =~= a);
}

proof fn lemma_words_of_joined(ws: Seq<Seq<char>>)
    requires
        forall|i: int| 0 <= i < ws.len() ==> (#[trigger] ws[i]).len() > 0 && solid(ws[i]),
    ensures
        words(joined(ws)) == ws,
    decreases ws.len(),
{
    if ws.len() == 0 {
        lemma_words_solid(Seq::empty());
        assert(words(joined(ws)) =~= ws);
    } else if ws.len() == 1 {
        lemma_words_solid(ws[0]);
        assert(words(joined(ws)) =~= ws);
    } else {
        let front = ws.drop_last();
        assert forall|i: int| 0 <= i < front.len() implies (#[trigger] front[i]).len() > 0 && solid(
            front[i],
        ) by {
            assert(front[i] == ws[i]);
        }
        lemma_words_of_joined(front);
        lemma_words_solid(ws[ws.len() - 1]);
        assert(joined(ws) =~= joined(front).push(' ') + ws.last());
        lemma_words_joined(joined(front), ' ', ws.last());
        assert(words(joined(ws)) =~= ws);
    }
}

proof fn lemma_words_lower(s: Seq<char>)
    ensures
        word_scan(ascii_lower(s)).0 == word_scan(s).0.map_values(|w: Seq<char>| ascii_lower(w)),
        word_scan(ascii_lower(s)).1 == ascii_lower(word_scan(s).1),
    decreases s.len(),
{
    let low = ascii_lower(s);
    let f = |w: Seq<char>| ascii_lower(w);
    if s.len() == 0 {
        assert(low =~= Seq::<char>::empty());
        assert(word_scan(low).0 =~= word_scan(s).0.map_values(f));
        assert(word_scan(low).1 =~= ascii_lower(word_scan(s).1));
    } else {
        let front = s.drop_last();
        lemma_words_lower(front);
        assert(low.drop_last() =~= ascii_lower(front));
        let prev = word_scan(front);
        let c = s.last();
        assert(low.last() == ascii_lower_char(c));
        lemma_lower_char(c);
        assert(is_space(ascii_lower_char(c)) == is_space(c));
        if !is_space(c) {
            assert(ascii_lower(prev.1).push(ascii_lower_char(c)) =~= ascii_lower(prev.1.push(c)));
        } else if prev.1.len() > 0 {
            assert(prev.0.map_values(f).push(ascii_lower(prev.1)) =~= prev.0.push(
                prev.1,
            ).map_values(f));
            assert(ascii_lower(Seq::<char>::empty()) =~= Seq::<char>::empty());
        }
    }
}

/// Normalising keeps the words of a text, in lower case, and does nothing to a
/// text that is normal already.
pub proof fn lemma_normalized(s: Seq<char>)
    ensures
        words(normalized(s)) == words(s).map_values(|w: Seq<char>| ascii_lower(w)),
        normalized(normalized(s)) == normalized(s),
{
    let f = |w: Seq<char>| ascii_lower(w);
    let ws = words(s);
    lemma_words_shape(s);
    lemma_words_of_joined(ws);
    let j = joined(ws);
    lemma_words_lower(j);
    let st = word_scan(j);
    assert(words(ascii_lower(j)) =~= words(j).map_values(f)) by {
        if st.1.len() > 0 {
            assert(st.0.map_values(f).push(ascii_lower(st.1)) =~= st.0.push(st.1).map_values(f));
        }
    }
    lemma_joined_lower(ws);
    let low = ws.map_values(f);
    assert(words(normalized(s)) == low);
    assert(normalized(s) == joined(low));
    lemma_ascii_lower(j);
}

proof fn lemma_joined_lower(ws: Seq<Seq<char>>)
    ensures
        ascii_lower(joined(ws)) == joined(ws.map_values(|w: Seq<char>| ascii_lower(w))),
    decreases ws.len(),
{
    let f = |w: Seq<char>| ascii_lower(w);
    let low = ws.map_values(f);
    if ws.len() == 0 {
        assert(ascii_lower(joined(ws)) =~= joined(low));
    } else if ws.len() > 1 {
        lemma_joined_lower(ws.drop_last());
        assert(low.drop_last() =~= ws.drop_last().map_values(f));
        lemma_lower_char(' ');
        assert(ascii_lower(joined(ws)) =~= joined(low));
    }
}

/// The last digit of a numeral is the rest by ten, and what stands before it is
/// the numeral of the tenth part.
pub proof fn lemma_decimal_digits(n: nat)
    ensures
        decimal(n).len() > 0,
        decimal(n).last() as u32 == 48 + n % 10,
        n >= 10 ==> decimal(n).drop_last() == decimal(n / 10),
        n < 10 ==> decimal(n).len() == 1,
{
    if n >= 10 {
        assert(decimal(n).drop_last() =~= decimal(n / 10));
    }
}

/// A text with any character but digits, behind an optional plus sign, is no
/// number; neither is the empty text, nor what exceeds the limit. A plus sign
/// does not matter.
pub proof fn lemma_no_number(s: Seq<char>, max: nat, i: int)
    ensures
        parsed_unsigned(Seq::empty(), max) is None,
        parsed_unsigned(seq!['+'], max) is None,
        0 <= i < s.len() && !('0' <= s[i] <= '9') && !(i == 0 && s[0] == '+') ==> parsed_unsigned(
            s,
            max,
        ) is None,
        parsed_unsigned(s, max) matches Some(v) ==> v <= max,
        s.len() > 0 && s[0] != '+' ==> parsed_unsigned(seq!['+'] + s, max) == parsed_unsigned(
            s,
            max,
        ),
        s.len() > 0 && s[0] != '+' && s[0] != '-' ==> parsed_signed(s, max) == (
        match parsed_unsigned(s, max) {
            Some(v) => Some(v as int),
            None => None,
        }),
        s.len() > 0 && s[0] != '+' ==> parsed_signed(seq!['-'] + s, max) == (match parsed_unsigned(
            s,
            max + 1,
        ) {
            Some(v) => Some(-(v as int)),
            None => None,
        }),
{
    assert((seq!['+'] + s).skip(1) =~= s);
    assert((seq!['-'] + s).skip(1) =~= s);
    assert(seq!['+'].skip(1) =~= Seq::<char>::empty());
    if 0 <= i < s.len() && !('0' <= s[i] <= '9') && !(i == 0 && s[0] == '+') {
        if s[0] == '+' {
            assert(s.skip(1)[i - 1] == s[i]);
            assert(!crate::text::is_digit(s.skip(1)[i - 1]));
        } else {
            assert(!crate::text::is_digit(s[i]));
        }
    }
}

/// The value of a row of digits: each digit more makes it ten times as much, and
/// adds the digit.
pub proof fn lemma_digits_read(s: Seq<char>, d: char, max: nat)
    requires
        '0' <= d <= '9',
    ensures
        parsed_unsigned(seq![d], max) == (if d as int - 48 <= max {
            Some((d as int - 48) as nat)
        } else {
            None::<nat>
        }),
        parsed_unsigned(s, max) matches Some(v) ==> parsed_unsigned(s.push(d), max) == (if v * 10
            + (d as int - 48) <= max {
            Some((v * 10 + (d as int - 48)) as nat)
        } else {
            None::<nat>
        }),
{
    let one = seq![d];
    assert(one.drop_last() =~= Seq::<char>::empty());
    assert(crate::text::digits_value(one.drop_last()) == 0);
    assert(crate::text::all_digits(one));
    if parsed_unsigned(s, max) is Some {
        let plus = s[0] == '+';
        let t = if plus {
            s.skip(1)
        } else {
            s
        };
        assert(s.push(d)[0] == s[0]);
        let u = if plus {
            s.push(d).skip(1)
        } else {
            s.push(d)
        };
        assert(u =~= t.push(d));
        assert(u.drop_last() =~= t);
        assert forall|k: int| 0 <= k < u.len() implies crate::text::is_digit(#[trigger] u[k]) by {
            if k < t.len() {
                assert(u[k] == t[k]);
            }
        }
    }
}

} // verus!
