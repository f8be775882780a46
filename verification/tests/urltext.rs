//! Percent encoding.

use sjnmusic::urltext::{urldecode, urlencode};

#[test]
fn encoding_leaves_unreserved_characters() {
    assert_eq!(urlencode("aZ09-_.~"), "aZ09-_.~");
    assert_eq!(urlencode("a b&c=d/é+"), "a%20b%26c%3Dd%2F%C3%A9%2B");
    assert_eq!(urlencode(""), "");
}

#[test]
fn decoding_reads_percents_and_pluses() {
    assert_eq!(urldecode("a%20b%26c"), "a b&c");
    assert_eq!(urldecode("a+b"), "a b");
    assert_eq!(urldecode("%C3%A9"), "é");
    assert_eq!(urldecode("100%"), "100%");
    assert_eq!(urldecode("%zz"), "%zz");
    assert_eq!(urldecode("%ff"), "\u{fffd}");
    assert_eq!(urldecode("%2B"), " ");
}

#[test]
fn what_is_encoded_is_read_back() {
    for s in ["", "plain", "a b", "Haftbefehl - RADW", "ä/ö?ü=1&x", "日本 🎵", "%25"] {
        assert_eq!(urldecode(&urlencode(s)), s);
    }
}
