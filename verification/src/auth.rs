//! Bearer-token authentication. Requests from the machine itself are always
//! trusted; others have to carry the token, where one is configured.

use base64::Engine;
use rand::RngCore;
use vstd::prelude::*;

use crate::text::{
    ascii_lower, chars_of, has_prefix, opt_text, same_text, starts_with, to_ascii_lower, trim_range,
    trim_start, trimmed, trimmed_start,
};

verus! {

/// Characters of a token.
pub const TOKEN_LEN: usize = 43;

/// A character of the URL-safe alphabet, by its six-bit value.
pub open spec fn base64_char(v: int) -> char {
    if v < 26 {
        (0x41 + v) as char
    } else if v < 52 {
        (0x61 + v - 26) as char
    } else if v < 62 {
        (0x30 + v - 52) as char
    } else if v == 62 {
        '-'
    } else {
        '_'
    }
}

/// `c` is a character of the URL-safe alphabet.
pub open spec fn is_base64_char(c: char) -> bool {
    'A' <= c <= 'Z' || 'a' <= c <= 'z' || '0' <= c <= '9' || c == '-' || c == '_'
}

/// The URL-safe base64 form of some bytes, without padding: three bytes make
/// four characters, and what is left over makes two or three.
pub open spec fn base64_text(bytes: Seq<u8>) -> Seq<char>
    decreases bytes.len(),
{
    if bytes.len() == 0 {
        Seq::empty()
    } else if bytes.len() == 1 {
        let n = bytes[0] as int * 16;
        seq![base64_char(n / 64), base64_char(n % 64)]
    } else if bytes.len() == 2 {
        let n = (bytes[0] as int * 256 + bytes[1] as int) * 4;
        seq![base64_char(n / 4096), base64_char(n / 64 % 64), base64_char(n % 64)]
    } else {
        let n = bytes[0] as int * 65536 + bytes[1] as int * 256 + bytes[2] as int;
        seq![
            base64_char(n / 262144),
            base64_char(n / 4096 % 64),
            base64_char(n / 64 % 64),
            base64_char(n % 64),
        ] + base64_text(bytes.skip(3))
    }
}

/// `base64`'s `URL_SAFE_NO_PAD.encode`: the bytes in base64 with the URL-safe
/// alphabet, without padding.
#[verifier::external_body]
fn encode_base64(bytes: &Vec<u8>) -> (r: String)
    ensures
        r@ == base64_text(bytes@),
{
    base64::engine::general_purpose::URL_SAFE_NO_PAD.encode(bytes)
}

/// `RngCore::fill_bytes` of `rand::thread_rng`: puts other bytes in the place of
/// those given. Which bytes is left to chance.
#[verifier::external_body]
fn fill_random(bytes: &mut Vec<u8>)
    ensures
        final(bytes)@.len() == old(bytes)@.len(),
{
    rand::thread_rng().fill_bytes(bytes);
}

proof fn lemma_base64_shape(bytes: Seq<u8>)
    ensures
        base64_text(bytes).len() == (bytes.len() * 4 + 2) / 3,
        forall|i: int| 0 <= i < base64_text(bytes).len() ==> is_base64_char(#[trigger] base64_text(bytes)[i]),
    decreases bytes.len(),
{
    if bytes.len() > 2 {
        lemma_base64_shape(bytes.skip(3));
        let t = base64_text(bytes);
        let rest = base64_text(bytes.skip(3));
        assert forall|i: int| 0 <= i < t.len() implies is_base64_char(#[trigger] t[i]) by {
            if i >= 4 {
                assert(t[i] == rest[i - 4]);
            }
        }
    }
}

/// The token that stands for some bytes.
pub fn token_of(bytes: &Vec<u8>) -> (r: String)
    ensures
        r@ == base64_text(bytes@),
        r@.len() == (bytes@.len() * 4 + 2) / 3,
        forall|i: int| 0 <= i < r@.len() ==> is_base64_char(#[trigger] r@[i]),
{
    proof {
        lemma_base64_shape(bytes@);
    }
    encode_base64(bytes)
}

/// A fresh token: 32 random bytes in URL-safe base64, safe to put in a header.
pub fn generate_token() -> (r: String)
    ensures
        r@.len() == TOKEN_LEN,
        forall|i: int| 0 <= i < r@.len() ==> is_base64_char(#[trigger] r@[i]),
        exists|bytes: Seq<u8>| bytes.len() == 32 && r@ == #[trigger] base64_text(bytes),
{
    let mut bytes: Vec<u8> = vec![0u8; 32];
    fill_random(&mut bytes);
    token_of(&bytes)
}

/// `std::hint::black_box`: the identity, opaque to the optimiser.
pub assume_specification<T>[ std::hint::black_box::<T> ](dummy: T) -> (r: T)
    ensures
        r == dummy,
;

/// `std::sync::atomic::compiler_fence`: keeps the compiler from moving memory
/// accesses across it.
#[verifier::external_body]
fn fence() {
    std::sync::atomic::compiler_fence(std::sync::atomic::Ordering::SeqCst);
}

fn byte_at(bytes: &Vec<u8>, i: usize) -> (r: u8)
    ensures
        r == (if i < bytes@.len() {
            bytes@[i as int]
        } else {
            0
        }),
{
    if i < bytes.len() {
        bytes[i]
    } else {
        0
    }
}

/// Compares two texts without stopping at the first difference: the time it
/// takes depends on their lengths alone.
pub fn constant_time_eq(a: &str, b: &str) -> (r: bool)
    ensures
        r == (a@ == b@),
{
    let x = a.as_bytes_vec();
    let y = b.as_bytes_vec();
    let n: usize = if x.len() > y.len() {
        x.len()
    } else {
        y.len()
    };
    let mut diff: u8 = if x.len() != y.len() {
        1
    } else {
        0
    };
    let mut i: usize = 0;
    while i < n
        invariant
            n == (if x@.len() > y@.len() {
                x@.len()
            } else {
                y@.len()
            }),
            i <= n,
            x@.len() != y@.len() ==> diff != 0,
            x@.len() == y@.len() ==> (diff == 0 <==> forall|k: int| 0 <= k < i ==> x@[k] == y@[k]),
        decreases n - i,
    {
        let p = byte_at(&x, i);
        let q = byte_at(&y, i);
        let before = diff;
        diff = diff | (p ^ q);
        proof {
            assert((before | (p ^ q)) == 0 <==> (before == 0 && p == q)) by (bit_vector);
        }
        i += 1;
    }
    let diff = std::hint::black_box(diff);
    fence();
    proof {
        if diff == 0 {
            assert(x@ =~= y@);
            vstd::utf8::encode_utf8_decode_utf8(a@);
            vstd::utf8::encode_utf8_decode_utf8(b@);
        } else if a@ == b@ {
            assert(x@ == y@);
        }
    }
    diff == 0
}

/// The address that a request comes from.
#[derive(Clone, Copy, Debug, PartialEq, Eq, Structural)]
pub enum Peer {
    /// The 32 bits of an IPv4 address.
    V4(u32),
    /// The 128 bits of an IPv6 address.
    V6(u128),
}

/// The address lies in `127.0.0.0/8`.
pub open spec fn is_v4_loopback(addr: u32) -> bool {
    addr / 0x100_0000 == 127
}

/// The address is one of the machine itself: `127.0.0.0/8`, `::1`, or an IPv4
/// address of that kind written as IPv6.
pub open spec fn is_loopback(peer: Peer) -> bool {
    match peer {
        Peer::V4(addr) => is_v4_loopback(addr),
        Peer::V6(addr) => addr == 1 || (addr / 0x1_0000_0000 == 0xFFFF && is_v4_loopback(
            (addr % 0x1_0000_0000) as u32,
        )),
    }
}

/// Whether an address is one of the machine itself.
pub fn peer_is_loopback(peer: Peer) -> (r: bool)
    ensures
        r == is_loopback(peer),
{
    match peer {
        Peer::V4(addr) => addr / 0x100_0000 == 127,
        Peer::V6(addr) => {
            if addr == 1 {
                return true;
            }
            let low: u32 = (addr % 0x1_0000_0000) as u32;
            addr / 0x1_0000_0000 == 0xFFFF && low / 0x100_0000 == 127
        },
    }
}

/// A request comes from the machine itself; one from nowhere does not.
pub open spec fn is_local(peer: Option<Peer>) -> bool {
    peer matches Some(p) && is_loopback(p)
}

/// Whether a request comes from the machine itself.
pub fn is_local_request(peer: Option<Peer>) -> (r: bool)
    ensures
        r == is_local(peer),
{
    match peer {
        Some(p) => peer_is_loopback(p),
        None => false,
    }
}

/// The token in the value of an `Authorization` header: what follows the word
/// `Bearer`, in any case, if anything does.
pub open spec fn bearer_value(value: Seq<char>) -> Option<Seq<char>> {
    let v = trimmed_start(value);
    if has_prefix(ascii_lower(v), "bearer "@) && trimmed(
        v.subrange("bearer "@.len() as int, v.len() as int),
    ).len() > 0 {
        Some(trimmed(v.subrange("bearer "@.len() as int, v.len() as int)))
    } else {
        None
    }
}

/// The token that headers carry. Only the first `Authorization` header counts.
pub open spec fn bearer_of(headers: Seq<(String, String)>) -> Option<Seq<char>>
    decreases headers.len(),
{
    if headers.len() == 0 {
        None
    } else if ascii_lower(headers[0].0@) == "authorization"@ {
        bearer_value(headers[0].1@)
    } else {
        bearer_of(headers.drop_first())
    }
}

fn read_bearer(value: &str) -> (r: Option<String>)
    ensures
        opt_text(r) == bearer_value(value@),
{
    let v = trim_start(value);
    let low = to_ascii_lower(v.as_str());
    let cs = chars_of(v.as_str());
    let lows = chars_of(low.as_str());
    if starts_with(&lows, "bearer ") {
        let from: usize = "bearer ".unicode_len();
        let token = trim_range(&cs, from, cs.len());
        if token.as_str().unicode_len() > 0 {
            return Some(token);
        }
    }
    None
}

/// The token that a request carries in its headers.
pub fn bearer_from_request(headers: &Vec<(String, String)>) -> (r: Option<String>)
    ensures
        opt_text(r) == bearer_of(headers@),
{
    proof {
        assert(headers@.skip(0) =~= headers@);
    }
    let mut i: usize = 0;
    while i < headers.len()
        invariant
            i <= headers@.len(),
            bearer_of(headers@) == bearer_of(headers@.skip(i as int)),
        decreases headers@.len() - i,
    {
        let name = to_ascii_lower(headers[i].0.as_str());
        if same_text(name.as_str(), "authorization") {
            return read_bearer(headers[i].1.as_str());
        }
        proof {
            assert(headers@.skip(i as int).drop_first() =~= headers@.skip(i + 1));
        }
        i += 1;
    }
    None
}

/// A request may be served: it is local, no token is asked for, or it carries
/// the token.
pub open spec fn is_authorized(
    peer: Option<Peer>,
    headers: Seq<(String, String)>,
    token: Option<Seq<char>>,
) -> bool {
    is_local(peer) || token is None || bearer_of(headers) == token
}

/// The characters of the token that is asked for, if one is.
pub open spec fn token_text(token: Option<&str>) -> Option<Seq<char>> {
    match token {
        Some(t) => Some(t@),
        None => None,
    }
}

/// Whether a request may be served.
pub fn request_is_authorized(
    peer: Option<Peer>,
    headers: &Vec<(String, String)>,
    auth_token: Option<&str>,
) -> (r: bool)
    ensures
        r == is_authorized(peer, headers@, token_text(auth_token)),
{
    if is_local_request(peer) {
        return true;
    }
    match auth_token {
        None => true,
        Some(expected) => match bearer_from_request(headers) {
            Some(t) => constant_time_eq(t.as_str(), expected),
            None => false,
        },
    }
}

/// Who comes from elsewhere without the token is turned away; who comes from
/// the machine itself, and everybody where no token is asked for, is served.
pub proof fn lemma_authorization(
    peer: Option<Peer>,
    headers: Seq<(String, String)>,
    token: Seq<char>,
)
    ensures
        is_local(peer) ==> is_authorized(peer, headers, Some(token)),
        is_authorized(peer, headers, None),
        !is_local(peer) && bearer_of(headers) != Some(token) ==> !is_authorized(
            peer,
            headers,
            Some(token),
        ),
        bearer_of(headers) == Some(token) ==> is_authorized(peer, headers, Some(token)),
{
}

/// The addresses of the machine itself: those from `127.0.0.0` to
/// `127.255.255.255`, the same as IPv6 from `::ffff:127.0.0.0` to
/// `::ffff:127.255.255.255`, and `::1`. No other address is one of them.
pub proof fn lemma_loopback_ranges(v4: u32, v6: u128)
    ensures
        is_local(Some(Peer::V4(v4))) <==> 0x7F00_0000 <= v4 <= 0x7FFF_FFFF,
        is_local(Some(Peer::V6(v6))) <==> v6 == 1 || 0xFFFF_7F00_0000 <= v6 <= 0xFFFF_7FFF_FFFF,
        !is_local(None),
{
}

/// A header of the word `Bearer`, in any case, a space and a token carries the
/// token; white space around the token does not count.
pub proof fn lemma_bearer_read(word: Seq<char>, token: Seq<char>)
    requires
        ascii_lower(word) == "bearer "@,
        trimmed(token).len() > 0,
    ensures
        bearer_value(word + token) == Some(trimmed(token)),
{
    reveal_strlit("bearer ");
    let v = word + token;
    assert(ascii_lower(word).len() == 7);
    assert(ascii_lower(word)[0] == 'b');
    assert(!crate::text::is_space(v[0]));
    assert(trimmed_start(v) == v);
    assert(ascii_lower(v).subrange(0, 7) =~= ascii_lower(word));
    assert(v.subrange(7, v.len() as int) =~= token);
}

/// A header that does not begin with that word carries no token.
pub proof fn lemma_no_bearer(value: Seq<char>)
    requires
        trimmed_start(value).len() < 7 || ascii_lower(trimmed_start(value).take(7)) != "bearer "@,
    ensures
        bearer_value(value) is None,
{
    reveal_strlit("bearer ");
    let v = trimmed_start(value);
    if v.len() >= 7 {
        assert(ascii_lower(v).subrange(0, 7) =~= ascii_lower(v.take(7)));
    }
}

/// Of several headers, the first one named `Authorization`, in any case, is the
/// one that counts; without one there is no token.
pub proof fn lemma_first_authorization(headers: Seq<(String, String)>, k: int)
    ensures
        (forall|i: int|
            0 <= i < headers.len() ==> ascii_lower((#[trigger] headers[i]).0@) != "authorization"@)
            ==> bearer_of(headers) is None,
        0 <= k < headers.len() && ascii_lower(headers[k].0@) == "authorization"@ && (forall|i: int|
            0 <= i < k ==> ascii_lower((#[trigger] headers[i]).0@) != "authorization"@)
            ==> bearer_of(headers) == bearer_value(headers[k].1@),
    decreases headers.len(),
{
    if headers.len() > 0 {
        let rest = headers.drop_first();
        lemma_first_authorization(rest, k - 1);
        assert forall|i: int| 0 <= i < rest.len() implies #[trigger] rest[i] == headers[i + 1] by {}
        if ascii_lower(headers[0].0@) != "authorization"@ && 0 < k < headers.len() && ascii_lower(
            headers[k].0@,
        ) == "authorization"@ && (forall|i: int|
            0 <= i < k ==> ascii_lower((#[trigger] headers[i]).0@) != "authorization"@) {
            assert(rest[k - 1] == headers[k]);
            assert forall|i: int| 0 <= i < k - 1 implies ascii_lower((#[trigger] rest[i]).0@)
                != "authorization"@ by {
                assert(rest[i] == headers[i + 1]);
            }
        }
        if forall|i: int|
            0 <= i < headers.len() ==> ascii_lower((#[trigger] headers[i]).0@) != "authorization"@ {
            assert(ascii_lower(headers[0].0@) != "authorization"@);
            assert forall|i: int| 0 <= i < rest.len() implies ascii_lower((#[trigger] rest[i]).0@)
                != "authorization"@ by {
                assert(rest[i] == headers[i + 1]);
            }
        }
    }
}

/// Where a token is asked for, a request from an IPv4 address elsewhere is
/// served exactly where it carries that token.
pub proof fn lemma_remote_needs_token(addr: u32, headers: Seq<(String, String)>, token: Seq<char>)
    requires
        addr < 0x7F00_0000 || addr > 0x7FFF_FFFF,
    ensures
        is_authorized(Some(Peer::V4(addr)), headers, Some(token)) <==> bearer_of(headers) == Some(
            token,
        ),
{
}

/// White space before the value of an `Authorization` header is passed over.
pub proof fn lemma_bearer_space_before(value: Seq<char>)
    ensures
        bearer_value(seq![' '] + value) == bearer_value(value),
        bearer_value(seq!['\t'] + value) == bearer_value(value),
{
    let a = seq![' '] + value;
    let b = seq!['\t'] + value;
    assert(a.subrange(1, a.len() as int) =~= value);
    assert(b.subrange(1, b.len() as int) =~= value);
    assert(crate::text::is_space(' ') && crate::text::is_space('\t'));
}

} // verus!
