//! Tokens, peers and who may do what.

use sjnmusic::auth::{
    bearer_from_request, constant_time_eq, generate_token, is_local_request, peer_is_loopback,
    request_is_authorized, token_of, Peer, TOKEN_LEN,
};
use sjnmusic::routes::Method;
use sjnmusic::server::{let_in, receive, Request};

fn v4(a: u8, b: u8, c: u8, d: u8) -> Peer {
    Peer::V4(u32::from_be_bytes([a, b, c, d]))
}

fn v6(groups: [u16; 8]) -> Peer {
    let mut n: u128 = 0;
    for g in groups {
        n = (n << 16) | g as u128;
    }
    Peer::V6(n)
}

fn header(name: &str, value: &str) -> (String, String) {
    (name.to_string(), value.to_string())
}

#[test]
fn constant_time_matches_equal_strings() {
    assert!(constant_time_eq("", ""));
    assert!(constant_time_eq("a", "a"));
    assert!(constant_time_eq("hello world", "hello world"));
}

#[test]
fn constant_time_rejects_unequal_strings() {
    assert!(!constant_time_eq("abc", "abd"));
    assert!(!constant_time_eq("abc", "ab"));
    assert!(!constant_time_eq("ab", "abc"));
    assert!(!constant_time_eq("", "x"));
    assert!(!constant_time_eq("x", ""));
}

#[test]
fn generate_produces_distinct_well_formed_tokens() {
    let t1 = generate_token();
    let t2 = generate_token();
    assert_eq!(t1.len(), TOKEN_LEN);
    assert_eq!(t2.len(), TOKEN_LEN);
    assert_ne!(t1, t2, "32 random bytes should never collide");
    // URL-safe base64 alphabet: A-Z a-z 0-9 - _.
    for c in t1.chars() {
        assert!(
            c.is_ascii_alphanumeric() || c == '-' || c == '_',
            "token contained non-url-safe char: {c:?}"
        );
    }
}

#[test]
fn peer_loopback_accepts_v4_and_v6_variants() {
    let v4_loopback = v4(127, 0, 0, 1);
    let v4_other = v4(10, 0, 0, 1);
    let v6_loopback = v6([0, 0, 0, 0, 0, 0, 0, 1]);
    let v6_other = v6([0x2001, 0xdb8, 0, 0, 0, 0, 0, 1]);
    let v4_mapped_loopback = v6([0, 0, 0, 0, 0, 0xffff, 0x7f00, 1]);
    assert!(peer_is_loopback(v4_loopback));
    assert!(!peer_is_loopback(v4_other));
    assert!(peer_is_loopback(v6_loopback));
    assert!(!peer_is_loopback(v6_other));
    assert!(
        peer_is_loopback(v4_mapped_loopback),
        "IPv4-mapped IPv6 must classify as loopback"
    );
}

#[test]
fn token_is_url_safe_base64_without_padding() {
    assert_eq!(token_of(&vec![]), "");
    assert_eq!(token_of(&vec![0xfb]), "-w");
    assert_eq!(token_of(&vec![0xff, 0xff]), "__8");
    assert_eq!(token_of(&b"Man".to_vec()), "TWFu");
    assert_eq!(token_of(&b"light w".to_vec()), "bGlnaHQgdw");
}

#[test]
fn whole_loopback_block_is_local() {
    assert!(peer_is_loopback(v4(127, 255, 255, 254)));
    assert!(!peer_is_loopback(v4(128, 0, 0, 1)));
    assert!(!peer_is_loopback(v4(126, 255, 255, 255)));
    assert!(!is_local_request(None));
    assert!(is_local_request(Some(v4(127, 0, 0, 1))));
}

#[test]
fn bearer_is_read_from_headers() {
    let none: Vec<(String, String)> = vec![header("Host", "x")];
    assert_eq!(bearer_from_request(&none), None);
    let some = vec![header("Host", "x"), header("authorization", "Bearer abc")];
    assert_eq!(bearer_from_request(&some), Some("abc".to_string()));
}

#[test]
fn remote_peers_need_the_token() {
    let remote = Some(v4(10, 0, 0, 1));
    let good = vec![header("Authorization", "Bearer secret")];
    let bad = vec![header("Authorization", "Bearer secreT")];
    let empty: Vec<(String, String)> = vec![];
    assert!(request_is_authorized(remote, &good, Some("secret")));
    assert!(!request_is_authorized(remote, &bad, Some("secret")));
    assert!(!request_is_authorized(remote, &empty, Some("secret")));
    assert!(request_is_authorized(remote, &empty, None));
    assert!(request_is_authorized(Some(v4(127, 0, 0, 1)), &empty, Some("secret")));
}

#[test]
fn strangers_are_answered_with_401_whatever_they_ask() {
    let stranger = Some(v4(10, 0, 0, 7));
    let bearer = |t: &str| vec![("Authorization".to_string(), format!("Bearer {t}"))];
    let clear = |peer, headers: &Vec<(String, String)>, token, body| {
        receive(peer, headers, token, &Method::Post, "/queue/clear", body, 3)
    };
    for headers in [vec![], bearer("wrong"), bearer("")] {
        for body in [Some(""), Some("{"), None] {
            let e = clear(stranger, &headers, Some("secret"), body).unwrap_err();
            assert_eq!((e.status, e.error.as_str()), (401, "unauthorized"));
        }
        assert_eq!(let_in(stranger, &headers, Some("secret")).unwrap_err().status, 401);
        assert_eq!(let_in(None, &headers, Some("secret")).unwrap_err().status, 401);
    }
    let e = receive(stranger, &vec![], Some("secret"), &Method::Get, "/nowhere", Some(""), 3);
    assert_eq!(e.unwrap_err().status, 401);
}

#[test]
fn who_may_be_served_is_read() {
    let stranger = Some(v4(10, 0, 0, 7));
    let right = vec![("authorization".to_string(), "bearer secret".to_string())];
    let served = [
        (stranger, &right, Some("secret")),
        (stranger, &vec![], None),
        (Some(v4(127, 0, 0, 1)), &vec![], Some("secret")),
    ];
    for (peer, headers, token) in served {
        assert!(let_in(peer, headers, token).is_ok());
        let r = receive(peer, headers, token, &Method::Post, "/queue/clear", Some(""), 3);
        assert!(matches!(r, Ok(Request::QueueClear)));
        let e = receive(peer, headers, token, &Method::Get, "/nowhere", Some(""), 3).unwrap_err();
        assert_eq!(e.status, 404);
        let e = receive(peer, headers, token, &Method::Post, "/play", None, 3).unwrap_err();
        assert_eq!((e.status, e.error.as_str()), (400, "could not read request body"));
    }
}
