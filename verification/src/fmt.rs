//! How durations and texts are written.

use vstd::prelude::*;

use crate::real64::{round_whole, Real64};
use crate::text::{chars_of, concat2, concat3, decimal, decimal_fill, decimal_padded, decimal_u64};

verus! {

/// A number of seconds as minutes and two places of seconds.
pub open spec fn minutes_seconds(v: int) -> Seq<char> {
    decimal((v / 60) as nat) + ":"@ + decimal_padded((v % 60) as nat, 2)
}

/// Writes seconds as `m:ss`.
pub fn mmss(secs: Real64) -> (r: String)
    ensures
        r@ == minutes_seconds(secs.rounded()),
{
    let v: u64 = round_whole(secs) as u64;
    let m = decimal_u64(v / 60);
    let s = decimal_fill(v % 60, 2);
    concat3(m.as_str(), ":", s.as_str())
}

/// A number of seconds by its two greatest units.
pub open spec fn rough_duration(v: int) -> Seq<char> {
    let h = v / 3600;
    let m = (v % 3600) / 60;
    let s = v % 60;
    if h > 0 {
        decimal(h as nat) + "h "@ + decimal(m as nat) + "m"@
    } else if m > 0 {
        decimal(m as nat) + "m "@ + decimal(s as nat) + "s"@
    } else {
        decimal(s as nat) + "s"@
    }
}

/// Writes seconds for reading at a glance.
pub fn big_secs(secs: Real64) -> (r: String)
    ensures
        r@ == rough_duration(secs.rounded()),
{
    let v: u64 = round_whole(secs) as u64;
    let h: u64 = v / 3600;
    let m: u64 = (v % 3600) / 60;
    let s: u64 = v % 60;
    if h > 0 {
        let hours = decimal_u64(h);
        let minutes = decimal_u64(m);
        let head = concat3(hours.as_str(), "h ", minutes.as_str());
        return concat2(head.as_str(), "m");
    }
    let seconds = decimal_u64(s);
    if m > 0 {
        let minutes = decimal_u64(m);
        let head = concat3(minutes.as_str(), "m ", seconds.as_str());
        return concat2(head.as_str(), "s");
    }
    concat2(seconds.as_str(), "s")
}

/// How a character is written in markup.
pub open spec fn html_char(c: char) -> Seq<char> {
    if c == '<' {
        "&lt;"@
    } else if c == '>' {
        "&gt;"@
    } else if c == '&' {
        "&amp;"@
    } else if c == '"' {
        "&quot;"@
    } else {
        seq![c]
    }
}

/// A text as it is written in markup.
pub open spec fn html_text(s: Seq<char>) -> Seq<char>
    decreases s.len(),
{
    if s.len() == 0 {
        Seq::empty()
    } else {
        html_text(s.drop_last()) + html_char(s.last())
    }
}

/// Escapes the characters that markup gives a meaning.
pub fn escape_html(s: &str) -> (r: String)
    ensures
        r@ == html_text(s@),
{
    let cs = chars_of(s);
    let mut out = String::new();
    assert(html_text(cs@.take(0)) =~= Seq::empty());
    for i in 0..cs.len()
        invariant
            cs@ == s@,
            out@ == html_text(cs@.take(i as int)),
    {
        let c = cs[i];
        proof {
            assert(cs@.take(i + 1).drop_last() =~= cs@.take(i as int));
            assert(cs@.take(i + 1).last() == c);
        }
        let ghost before = out@;
        if c == '<' {
            out.append("&lt;");
        } else if c == '>' {
            out.append("&gt;");
        } else if c == '&' {
            out.append("&amp;");
        } else if c == '"' {
            out.append("&quot;");
        } else {
            out.push(c);
            proof {
                assert(out@ =~= before + seq![c]);
            }
        }
    }
    proof {
        assert(cs@.take(cs@.len() as int) =~= s@);
    }
    out
}

/// Escaped text holds none of the characters that open markup.
pub proof fn lemma_escaped_text_is_plain(s: Seq<char>)
    ensures
        forall|i: int|
            0 <= i < html_text(s).len() ==> #[trigger] html_text(s)[i] != '<' && html_text(s)[i]
                != '>' && html_text(s)[i] != '"',
    decreases s.len(),
{
    if s.len() > 0 {
        lemma_escaped_text_is_plain(s.drop_last());
        reveal_strlit("&lt;");
        reveal_strlit("&gt;");
        reveal_strlit("&amp;");
        reveal_strlit("&quot;");
        let head = html_text(s.drop_last());
        let tail = html_char(s.last());
        assert forall|i: int| 0 <= i < html_text(s).len() implies #[trigger] html_text(s)[i] != '<'
            && html_text(s)[i] != '>' && html_text(s)[i] != '"' by {
            if i < head.len() {
                assert(html_text(s)[i] == head[i]);
            } else {
                assert(html_text(s)[i] == tail[i - head.len()]);
            }
        }
    }
}

/// Minutes and seconds are shown as they are, the seconds by two places.
pub proof fn lemma_minutes_seconds(minutes: nat, seconds: nat)
    requires
        seconds < 60,
    ensures
        minutes_seconds((60 * minutes + seconds) as int) == decimal(minutes) + ":"@
            + decimal_padded(seconds, 2),
        decimal_padded(seconds, 2).len() == 2,
{
    assert((60 * minutes + seconds) / 60 == minutes && (60 * minutes + seconds) % 60 == seconds);
    reveal_with_fuel(decimal, 3);
}

/// Hours, minutes and seconds are shown by the two greatest that there are.
pub proof fn lemma_rough_duration(hours: nat, minutes: nat, seconds: nat)
    requires
        minutes < 60,
        seconds < 60,
    ensures
        hours > 0 ==> rough_duration((3600 * hours + 60 * minutes + seconds) as int) == decimal(hours)
            + "h "@ + decimal(minutes) + "m"@,
        minutes > 0 ==> rough_duration((60 * minutes + seconds) as int) == decimal(minutes) + "m "@
            + decimal(seconds) + "s"@,
        rough_duration(seconds as int) == decimal(seconds) + "s"@,
{
    let v = 3600 * hours + 60 * minutes + seconds;
    assert(v / 3600 == hours && v % 3600 == 60 * minutes + seconds);
    let w = 60 * minutes + seconds;
    assert(w / 60 == minutes && w % 60 == seconds && w / 3600 == 0 && w % 3600 == w);
}

/// Escaping works character by character: four characters have their own
/// escapes, and a text with none of them stays as it is.
pub proof fn lemma_html_text(a: Seq<char>, b: Seq<char>)
    ensures
        html_text(a + b) == html_text(a) + html_text(b),
        html_text(seq!['<']) == "&lt;"@,
        html_text(seq!['>']) == "&gt;"@,
        html_text(seq!['&']) == "&amp;"@,
        html_text(seq!['"']) == "&quot;"@,
        !a.contains('<') && !a.contains('>') && !a.contains('&') && !a.contains('"') ==> html_text(a)
            == a,
    decreases a.len() + b.len(),
{
    lemma_html_single('<');
    lemma_html_single('>');
    lemma_html_single('&');
    lemma_html_single('"');
    if b.len() > 0 {
        lemma_html_text(a, b.drop_last());
        assert((a + b).drop_last() =~= a + b.drop_last());
        assert(html_text(a + b) =~= html_text(a) + html_text(b));
    } else {
        assert(a + b =~= a);
        assert(html_text(a) + html_text(b) =~= html_text(a));
        if a.len() > 0 {
            lemma_html_text(a.drop_last(), b);
        }
    }
    lemma_html_plain(a);
}

proof fn lemma_html_plain(a: Seq<char>)
    ensures
        !a.contains('<') && !a.contains('>') && !a.contains('&') && !a.contains('"') ==> html_text(a)
            == a,
    decreases a.len(),
{
    if a.len() > 0 {
        let front = a.drop_last();
        lemma_html_plain(front);
        if !a.contains('<') && !a.contains('>') && !a.contains('&') && !a.contains('"') {
            assert(a[a.len() - 1] == a.last());
            assert forall|c: char| !a.contains(c) implies !(#[trigger] front.contains(c)) by {
                if front.contains(c) {
                    let i = choose|i: int| 0 <= i < front.len() && front[i] == c;
                    assert(a[i] == c);
                }
            }
            assert(html_text(a) =~= a);
        }
    } else {
        assert(html_text(a) =~= a);
    }
}

proof fn lemma_html_single(c: char)
    ensures
        html_text(seq![c]) == html_char(c),
{
    assert(seq![c].drop_last() =~= Seq::<char>::empty());
    assert(html_text(Seq::<char>::empty()).len() == 0);
    assert(html_text(seq![c]) =~= html_char(c));
}

} // verus!
