//! Percent encoding of texts in addresses.

use vstd::prelude::*;
use vstd::utf8::{decode_utf8, encode_utf8, is_ascii_chars, valid_utf8};

use crate::text::{replace_char, replaced_char};

verus! {

/// The byte stands for itself in an encoded text.
pub open spec fn is_unreserved(b: u8) -> bool {
    0x30 <= b <= 0x39 || 0x41 <= b <= 0x5A || 0x61 <= b <= 0x7A || b == 0x2D || b == 0x2E || b
        == 0x5F || b == 0x7E
}

/// A hexadecimal digit, in upper case.
pub open spec fn hex_digit(d: int) -> char {
    if d < 10 {
        (0x30 + d) as char
    } else {
        (0x41 + d - 10) as char
    }
}

/// One byte of an encoded text: itself, or `%` and two hexadecimal digits.
pub open spec fn escaped_byte(b: u8) -> Seq<char> {
    if is_unreserved(b) {
        seq![b as char]
    } else {
        seq!['%', hex_digit(b as int / 16), hex_digit(b as int % 16)]
    }
}

/// The encoded form of a row of bytes.
pub open spec fn escaped(bytes: Seq<u8>) -> Seq<char>
    decreases bytes.len(),
{
    if bytes.len() == 0 {
        Seq::empty()
    } else {
        escaped_byte(bytes[0]) + escaped(bytes.drop_first())
    }
}

/// `urlencoding::encode`: letters, digits and `-`, `.`, `_`, `~` stand for
/// themselves, every other byte of the text becomes `%` and two upper-case
/// hexadecimal digits.
#[verifier::external_body]
fn encode(s: &str) -> (r: String)
    ensures
        r@ == escaped(encode_utf8(s@)),
{
    urlencoding::encode(s).into_owned()
}

/// The encoded form of a text, fit for a part of an address.
pub fn urlencode(s: &str) -> (r: String)
    ensures
        r@ == escaped(encode_utf8(s@)),
{
    encode(s)
}

/// The value of a hexadecimal digit.
pub open spec fn hex_value(b: u8) -> Option<int> {
    if 0x30 <= b <= 0x39 {
        Some(b - 0x30)
    } else if 0x41 <= b <= 0x46 {
        Some(b - 0x41 + 10)
    } else if 0x61 <= b <= 0x66 {
        Some(b - 0x61 + 10)
    } else {
        None
    }
}

/// Two hexadecimal digits behind a `%` stand at the front.
pub open spec fn starts_escaped(bytes: Seq<u8>) -> bool {
    bytes.len() >= 3 && bytes[0] == 0x25 && hex_value(bytes[1]) is Some && hex_value(bytes[2]) is Some
}

/// The bytes that an encoded text stands for. A `%` without two hexadecimal
/// digits behind it stands for itself.
pub open spec fn unescaped(bytes: Seq<u8>) -> Seq<u8>
    decreases bytes.len(),
{
    if bytes.len() == 0 {
        Seq::empty()
    } else if starts_escaped(bytes) {
        seq![(hex_value(bytes[1])->0 * 16 + hex_value(bytes[2])->0) as u8] + unescaped(
            bytes.subrange(3, bytes.len() as int),
        )
    } else {
        seq![bytes[0]] + unescaped(bytes.drop_first())
    }
}

/// What percent decoding returns, with ill-formed bytes replaced.
pub uninterp spec fn lossy_decoded(s: Seq<char>) -> Seq<char>;

/// `percent_encoding::percent_decode_str` and `decode_utf8_lossy`: every `%`
/// with two hexadecimal digits becomes a byte, and the bytes are read as UTF-8.
/// How ill-formed bytes are replaced is left unsaid.
#[verifier::external_body]
fn percent_decode(s: &str) -> (r: String)
    ensures
        r@ == lossy_decoded(s@),
        valid_utf8(unescaped(encode_utf8(s@))) ==> r@ == decode_utf8(unescaped(encode_utf8(s@))),
{
    percent_encoding::percent_decode_str(s).decode_utf8_lossy().into_owned()
}

/// The text that an encoded text stands for.
pub open spec fn percent_decoded(s: Seq<char>) -> Seq<char> {
    let bytes = unescaped(encode_utf8(s));
    if valid_utf8(bytes) {
        decode_utf8(bytes)
    } else {
        lossy_decoded(s)
    }
}

/// The text that a part of a query string stands for: percent decoded, with
/// `+` read as a space.
pub open spec fn urldecoded(s: Seq<char>) -> Seq<char> {
    replaced_char(percent_decoded(s), '+', seq![' '])
}

/// Decodes a part of a query string.
pub fn urldecode(s: &str) -> (r: String)
    ensures
        r@ == urldecoded(s@),
{
    let plain = percent_decode(s);
    proof {
        reveal_strlit(" ");
        assert(" "@ =~= seq![' ']);
    }
    replace_char(plain.as_str(), '+', " ")
}

proof fn lemma_escaped_ascii(bytes: Seq<u8>)
    ensures
        is_ascii_chars(escaped(bytes)),
    decreases bytes.len(),
{
    if bytes.len() > 0 {
        lemma_escaped_ascii(bytes.drop_first());
        let rest = escaped(bytes.drop_first());
        let head = escaped_byte(bytes[0]);
        assert forall|i: int| 0 <= i < escaped(bytes).len() implies '\0' <= #[trigger] escaped(
            bytes,
        )[i] <= '\u{7f}' by {
            if i < head.len() {
                assert(escaped(bytes)[i] == head[i]);
            } else {
                assert(escaped(bytes)[i] == rest[i - head.len()]);
            }
        }
    }
}

proof fn lemma_unescape_escaped(bytes: Seq<u8>, wire: Seq<u8>)
    requires
        wire.len() == escaped(bytes).len(),
        forall|i: int| 0 <= i < wire.len() ==> #[trigger] wire[i] == escaped(bytes)[i] as u8,
    ensures
        unescaped(wire) == bytes,
    decreases bytes.len(),
{
    if bytes.len() == 0 {
        assert(unescaped(wire) =~= bytes);
    } else {
        let b = bytes[0];
        let rest = bytes.drop_first();
        let head = escaped_byte(b);
        let n = head.len() as int;
        let tail = wire.subrange(n, wire.len() as int);
        assert forall|i: int| 0 <= i < tail.len() implies #[trigger] tail[i] == escaped(
            rest,
        )[i] as u8 by {
            assert(wire[n + i] == escaped(bytes)[n + i] as u8);
            assert(escaped(bytes)[n + i] == escaped(rest)[i]);
        }
        lemma_unescape_escaped(rest, tail);
        assert(wire[0] == head[0] as u8) by {
            assert(escaped(bytes)[0] == head[0]);
        }
        if is_unreserved(b) {
            assert(wire[0] == b);
            assert(tail =~= wire.drop_first());
        } else {
            assert(escaped(bytes)[1] == head[1]);
            assert(escaped(bytes)[2] == head[2]);
            assert(wire[1] == head[1] as u8);
            assert(wire[2] == head[2] as u8);
            assert(hex_value(wire[1]) == Some(b as int / 16));
            assert(hex_value(wire[2]) == Some(b as int % 16));
            assert((b as int / 16) * 16 + b as int % 16 == b);
        }
        assert(seq![b] + rest =~= bytes);
    }
}

proof fn lemma_nothing_replaced(s: Seq<char>, from: char, to: Seq<char>)
    requires
        !s.contains(from),
    ensures
        replaced_char(s, from, to) == s,
    decreases s.len(),
{
    if s.len() > 0 {
        assert(s[s.len() - 1] != from);
        assert(!s.drop_last().contains(from)) by {
            if s.drop_last().contains(from) {
                let i = choose|i: int| 0 <= i < s.len() - 1 && s.drop_last()[i] == from;
                assert(s[i] == from);
            }
        }
        lemma_nothing_replaced(s.drop_last(), from, to);
        assert(s.drop_last() + seq![s.last()] =~= s);
    } else {
        assert(replaced_char(s, from, to) =~= s);
    }
}

/// Percent decoding undoes encoding.
pub proof fn lemma_percent_round_trip(s: Seq<char>)
    ensures
        percent_decoded(escaped(encode_utf8(s))) == s,
{
    let bytes = encode_utf8(s);
    let wire = escaped(bytes);
    lemma_escaped_ascii(bytes);
    vstd::utf8::is_ascii_chars_encode_utf8(wire);
    assert forall|i: int| 0 <= i < encode_utf8(wire).len() implies #[trigger] encode_utf8(wire)[i]
        == wire[i] as u8 by {
        assert(wire[i] as u8 == encode_utf8(wire)[i]);
    }
    lemma_unescape_escaped(bytes, encode_utf8(wire));
    vstd::utf8::encode_utf8_valid_utf8(s);
    vstd::utf8::encode_utf8_decode_utf8(s);
}

/// What a client encodes, the daemon reads back, except that a `+` arrives as
/// a space.
pub proof fn lemma_query_round_trip(s: Seq<char>)
    ensures
        urldecoded(escaped(encode_utf8(s))) == replaced_char(s, '+', seq![' ']),
        !s.contains('+') ==> urldecoded(escaped(encode_utf8(s))) == s,
{
    lemma_percent_round_trip(s);
    if !s.contains('+') {
        lemma_nothing_replaced(s, '+', seq![' ']);
    }
}

proof fn lemma_plain_bytes(bytes: Seq<u8>)
    requires
        forall|i: int| 0 <= i < bytes.len() ==> is_unreserved(#[trigger] bytes[i]),
    ensures
        escaped(bytes) == bytes.map_values(|b: u8| b as char),
    decreases bytes.len(),
{
    if bytes.len() > 0 {
        let rest = bytes.drop_first();
        assert forall|i: int| 0 <= i < rest.len() implies is_unreserved(#[trigger] rest[i]) by {
            assert(rest[i] == bytes[i + 1]);
        }
        lemma_plain_bytes(rest);
        assert(is_unreserved(bytes[0]));
    }
    assert(escaped(bytes) =~= bytes.map_values(|b: u8| b as char));
}

/// A text of letters, digits and `-`, `.`, `_`, `~` stands for itself.
pub proof fn lemma_plain_text(s: Seq<char>)
    requires
        forall|i: int|
            0 <= i < s.len() ==> '\0' <= #[trigger] s[i] <= '\u{7f}' && is_unreserved(s[i] as u8),
    ensures
        escaped(encode_utf8(s)) == s,
        urldecoded(s) == s,
{
    assert(is_ascii_chars(s));
    vstd::utf8::is_ascii_chars_encode_utf8(s);
    let bytes = encode_utf8(s);
    assert forall|i: int| 0 <= i < bytes.len() implies is_unreserved(#[trigger] bytes[i]) by {
        assert(bytes[i] == s[i] as u8);
    }
    lemma_plain_bytes(bytes);
    assert forall|i: int| 0 <= i < s.len() implies #[trigger] s[i] == bytes[i] as char by {
        assert(bytes[i] == s[i] as u8);
    }
    assert(escaped(bytes) =~= s);
    assert(!s.contains('+')) by {
        if s.contains('+') {
            let i = choose|i: int| 0 <= i < s.len() && s[i] == '+';
            assert(is_unreserved(s[i] as u8));
        }
    }
    lemma_query_round_trip(s);
}

/// A `%` in front of two hexadecimal digits, in upper or lower case, stands for
/// one byte; any other byte stands for itself.
pub proof fn lemma_percent_read(b: u8, hi: u8, lo: u8, rest: Seq<u8>)
    requires
        hi < 16,
        lo < 16,
    ensures
        hi < 10 && lo < 10 ==> unescaped(seq![37u8, (48 + hi) as u8, (48 + lo) as u8] + rest)
            == seq![(16 * hi + lo) as u8] + unescaped(rest),
        hi < 10 && lo >= 10 ==> unescaped(seq![37u8, (48 + hi) as u8, (87 + lo) as u8] + rest)
            == seq![(16 * hi + lo) as u8] + unescaped(rest),
        hi >= 10 && lo < 10 ==> unescaped(seq![37u8, (87 + hi) as u8, (48 + lo) as u8] + rest)
            == seq![(16 * hi + lo) as u8] + unescaped(rest),
        hi >= 10 && lo >= 10 ==> unescaped(seq![37u8, (87 + hi) as u8, (87 + lo) as u8] + rest)
            == seq![(16 * hi + lo) as u8] + unescaped(rest),
        hi >= 10 && lo >= 10 ==> unescaped(seq![37u8, (55 + hi) as u8, (55 + lo) as u8] + rest)
            == seq![(16 * hi + lo) as u8] + unescaped(rest),
        b != 37 ==> unescaped(seq![b] + rest) == seq![b] + unescaped(rest),
        rest.len() < 2 ==> unescaped(seq![37u8] + rest) == seq![37u8] + unescaped(rest),
        rest.len() >= 1 && rest[0] == 37 ==> unescaped(seq![37u8] + rest) == seq![37u8] + unescaped(
            rest,
        ),
{
    let tails = seq![
        seq![37u8, (48 + hi) as u8, (48 + lo) as u8] + rest,
        seq![37u8, (48 + hi) as u8, (87 + lo) as u8] + rest,
        seq![37u8, (87 + hi) as u8, (48 + lo) as u8] + rest,
        seq![37u8, (87 + hi) as u8, (87 + lo) as u8] + rest,
        seq![37u8, (55 + hi) as u8, (55 + lo) as u8] + rest,
    ];
    assert(tails[0].subrange(3, tails[0].len() as int) =~= rest);
    assert(tails[1].subrange(3, tails[1].len() as int) =~= rest);
    assert(tails[2].subrange(3, tails[2].len() as int) =~= rest);
    assert(tails[3].subrange(3, tails[3].len() as int) =~= rest);
    assert(tails[4].subrange(3, tails[4].len() as int) =~= rest);
    assert((seq![b] + rest).drop_first() =~= rest);
    assert((seq![37u8] + rest).drop_first() =~= rest);
}

} // verus!
