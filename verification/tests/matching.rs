//! Comparing titles and names.

use sjnmusic::matching::{normalize, strip_decorations, token_set_sim, tokenize, word_similarity};
use sjnmusic::order::descending_order;
use sjnmusic::real64::Real64;

fn num(x: f64) -> Real64 {
    Real64 { bits: x.to_bits() }
}

fn words(s: &str) -> Vec<String> {
    s.split(' ').filter(|w| !w.is_empty()).map(|w| w.to_string()).collect()
}

#[test]
fn titles_are_normalised() {
    assert_eq!(normalize("  Hello   World "), "hello world");
    assert_eq!(tokenize("Song (Edit) don't - Editor's"), words("song edit don't editor's"));
    assert_eq!(tokenize(&strip_decorations("Haftbefehl - RADW [HD]")), words("haftbefehl radw"));
    let bare = strip_decorations("A (b [c] d) E");
    assert!(!bare.contains('b') && !bare.contains('c') && !bare.contains('d'));
    assert!(bare.contains('a') && bare.contains('e'));
}

#[test]
fn token_sets_are_compared_by_their_share() {
    assert_eq!(token_set_sim(&words("some song"), &words("some song")), num(1.0));
    assert_eq!(token_set_sim(&words("some song"), &words("song nightcore some")), num(2.0 / 3.0));
    assert_eq!(token_set_sim(&words("a"), &words("b")), num(0.0));
    assert_eq!(token_set_sim(&words(""), &words("")), num(0.0));
    let a = words("one two three");
    let b = words("three four");
    assert_eq!(token_set_sim(&a, &b), token_set_sim(&b, &a));
}

#[test]
fn words_are_compared_by_the_nearest() {
    let toks = words("martha jones");
    let want = strsim::jaro_winkler("marhta", "martha");
    assert!(want > 0.9 && want < 1.0);
    assert_eq!(word_similarity("marhta", &toks), num(want));
    assert_eq!(word_similarity("jones", &toks), num(1.0));
    assert_eq!(word_similarity("x", &words("")), num(0.0));
}

#[test]
fn order_is_descending_and_stable() {
    assert_eq!(descending_order(&vec![3, 9, 3, 9, 1]), vec![1, 3, 0, 2, 4]);
    let none: Vec<i64> = vec![];
    assert_eq!(descending_order(&none), Vec::<usize>::new());
}

#[test]
fn only_the_same_tokens_have_similarity_one() {
    let one = num(1.0);
    assert_eq!(token_set_sim(&words("a b b"), &words("b a b")), one);
    assert_ne!(token_set_sim(&words("a b b"), &words("a a b")), one);
    assert_eq!(token_set_sim(&words("x x"), &words("x")), num(0.5));
    assert_eq!(
        token_set_sim(&words("a b c"), &words("b d")),
        token_set_sim(&words("c b a"), &words("d b"))
    );
}
