//! Parsing queries, scoring candidates, ranking them and picking one.

use sjnmusic::model::YtCandidate;
use sjnmusic::ranking::{
    apply_fan_upload_penalty, apply_view_count_lean, auto_pick_decision, dedupe_candidates,
    AutoPickDecision, RankedCandidate, AUTO_PICK_MARGIN, EQUIVALENT_MARGIN,
};
use sjnmusic::real64::Real64;
use sjnmusic::scoring::{
    score_candidate, ScoreBreakdown, ARTIST_MISMATCH_PENALTY, COVER_PENALTY, LIVE_PENALTY,
    LYRICS_PENALTY, REACTION_PENALTY, SPAM_PENALTY,
};
use sjnmusic::youtube::{query_variants, ParsedQuery};

fn num(x: f64) -> Real64 {
    Real64 { bits: x.to_bits() }
}

fn cand(title: &str, uploader: &str, dur: f64) -> YtCandidate {
    YtCandidate {
        id: title.to_string(),
        title: title.to_string(),
        uploader: uploader.to_string(),
        duration_secs: num(dur),
        url: format!("https://example/{title}"),
        thumbnail: None,
        view_count: num(0.0),
    }
}

fn rc(base: YtCandidate, score: i32, flags: &[&str]) -> RankedCandidate {
    RankedCandidate {
        base,
        score,
        breakdown: Some(ScoreBreakdown {
            total: score,
            ..Default::default()
        }),
        flags: flags.iter().map(|f| f.to_string()).collect(),
    }
}

#[test]
fn parses_artist_title_with_dash_separator() {
    let pq = ParsedQuery::parse("Haftbefehl - RADW").unwrap();
    assert_eq!(pq.artist.as_deref(), Some("Haftbefehl"));
    assert_eq!(pq.title, "RADW");
}

#[test]
fn parses_artist_title_with_colon_separator() {
    let pq = ParsedQuery::parse("Bonez MC: Erde").unwrap();
    assert_eq!(pq.artist.as_deref(), Some("Bonez MC"));
    assert_eq!(pq.title, "Erde");
}

#[test]
fn parses_no_separator_artist_is_none() {
    let pq = ParsedQuery::parse("Just A Title").unwrap();
    assert_eq!(pq.artist, None);
    assert_eq!(pq.title, "Just A Title");
}

#[test]
fn empty_query_returns_none() {
    assert!(ParsedQuery::parse("   ").is_none());
    assert!(ParsedQuery::parse("").is_none());
}

#[test]
fn query_variants_strips_duplicate_official_suffix() {
    let v = query_variants("Haftbefehl - RADW official audio");
    // First entry has the suffix removed; the rest re-add it. The
    // trailing "official audio" duplication is collapsed.
    assert!(v[0] == "Haftbefehl - RADW");
    assert!(v.contains(&"Haftbefehl - RADW official video".to_string()));
    assert_eq!(v.len(), 4);
}

#[test]
fn query_variants_includes_quoted_exact_phrase() {
    let v = query_variants("Haftbefehl - RADW");
    assert_eq!(v[0], "Haftbefehl - RADW");
    assert_eq!(v[1], "Haftbefehl - RADW official video");
    assert_eq!(v[2], "Haftbefehl - RADW official audio");
    assert_eq!(v[3], "\"Haftbefehl - RADW\"");
}

#[test]
fn query_variants_empty_returns_empty() {
    assert!(query_variants("").is_empty());
    assert!(query_variants("   ").is_empty());
}

#[test]
fn official_topic_channel_boosts_hard() {
    let pq = ParsedQuery::parse("Haftbefehl - RADW").unwrap();
    let c = cand("Haftbefehl - RADW", "Haftbefehl - Topic", 200.0);
    let (s, flags) = score_candidate(&pq, &c);
    // Official +100, title match 40+40, graded similarity +50
    // (title has one extra token), artist similarity +30,
    // duration ideal +20.
    assert_eq!(s.total, 100 + 40 + 40 + 50 + 30 + 20);
    assert!(flags.contains(&"official".to_string()));
}

#[test]
fn graded_title_similarity_scales_partial_matches_down() {
    let pq = ParsedQuery::parse("Haftbefehl - RADW").unwrap();
    // Medley decoy: contains the title word but is a different
    // song — must score far below an exact match.
    let (s, _) = score_candidate(&pq, &cand("RADW Megamix", "Random User", 900.0));
    // 1 of 1 query tokens matched → similarity 0.5 → +50, plus the
    // exact-token boost +40, artist mismatch -60, long duration -30.
    assert_eq!(s.title_similarity, 50);
    assert_eq!(s.total, 50 + 40 - 60 - 30);
}

#[test]
fn lyrics_video_gets_lyric_penalty() {
    let pq = ParsedQuery::parse("Haftbefehl - RADW").unwrap();
    let c = cand("Haftbefehl - RADW (Lyric Video)", "Random User", 200.0);
    let (s, flags) = score_candidate(&pq, &c);
    // Title match 40+40, similarity +50, lyrics -40, artist +30,
    // duration +20. The decoration doesn't dilute similarity but
    // the lyrics flag still fires.
    assert_eq!(s.total, 40 + 40 + 50 - 40 + 30 + 20);
    assert_eq!(s.lyrics, LYRICS_PENALTY);
    assert!(flags.contains(&"lyrics".to_string()));
}

#[test]
fn lyrics_penalty_skipped_when_user_typed_lyric() {
    let pq = ParsedQuery::parse("Haftbefehl - RADW lyric video").unwrap();
    let c = cand("Haftbefehl - RADW (Lyric Video)", "Random User", 200.0);
    let (s, _flags) = score_candidate(&pq, &c);
    // Title match: artist tokens only (+40, the query title words
    // live outside the stripped decoration), similarity +25
    // (1 of 4 union tokens), artist +30, duration +20; no lyrics
    // penalty because the user opted in.
    assert_eq!(s.total, 40 + 25 + 30 + 20);
    assert_eq!(s.lyrics, 0);
}

#[test]
fn reaction_video_heavily_penalised() {
    let pq = ParsedQuery::parse("Haftbefehl - RADW").unwrap();
    let c = cand(
        "Haftbefehl - RADW REACTION! First Listen",
        "Reaction Channel",
        300.0,
    );
    let (s, _flags) = score_candidate(&pq, &c);
    // Title match 40+40, similarity +20 (1/5 tokens), reaction -90,
    // artist +30 (full artist in title), duration acceptable +10.
    assert_eq!(s.total, 40 + 40 + 20 - 90 + 30 + 10);
    assert_eq!(s.reaction, REACTION_PENALTY);
}

#[test]
fn artist_mismatch_penalises_wrong_artist() {
    let pq = ParsedQuery::parse("Sido - Narcos").unwrap();
    let c = cand("Narcos", "DOS HERMANOS - Topic", 200.0);
    let (s, _flags) = score_candidate(&pq, &c);
    // Official +100, title exact + similarity +100, duration +20,
    // but the artist doesn't fuzzy-match → -60.
    assert_eq!(s.total, 100 + 140 + 20 - 60);
    assert_eq!(s.artist_match, ARTIST_MISMATCH_PENALTY);
    assert_eq!(s.artist_similarity, 0);
}

#[test]
fn stylized_artist_spelling_still_matches() {
    // "2hermanoz" is the stylized spelling of "Dos Hermanos" — the
    // per-word Jaro-Winkler pass must recognize the relationship the
    // whole-string comparison used to miss.
    let pq = ParsedQuery::parse("2hermanoz - Narcos").unwrap();
    let c = cand("Narcos", "DOS HERMANOS - Topic", 200.0);
    let (s, flags) = score_candidate(&pq, &c);
    assert_eq!(s.artist_match, 0);
    assert!(s.artist_similarity > 0);
    assert!(!flags.contains(&"artist-mismatch".to_string()));
}

#[test]
fn artist_typo_still_matches_via_word_similarity() {
    let pq = ParsedQuery::parse("Haeftbefehl - Song").unwrap();
    let c = cand("Song", "Haftbefehl - Topic", 200.0);
    let (s, flags) = score_candidate(&pq, &c);
    // No mismatch penalty; the fuzzy artist similarity pays a
    // (reduced) bonus instead.
    assert_eq!(s.artist_match, 0);
    assert!(s.artist_similarity > 0);
    assert!(!flags.contains(&"artist-mismatch".to_string()));
}

#[test]
fn nightcore_spam_penalty() {
    let pq = ParsedQuery::parse("Some Song").unwrap();
    let c = cand("Some Song - Nightcore", "Spam Uploader", 180.0);
    let (s, _flags) = score_candidate(&pq, &c);
    // Title match +40, similarity +66, spam -80, no-artist -20,
    // duration +20.
    assert_eq!(s.total, 40 + 66 - 80 - 20 + 20);
    assert_eq!(s.spam, SPAM_PENALTY);
}

#[test]
fn cover_upload_penalised() {
    let pq = ParsedQuery::parse("Drake - Hotline Bling").unwrap();
    let c = cand("Hotline Bling (Cover by SomeArtist)", "SomeArtist", 200.0);
    let (s, flags) = score_candidate(&pq, &c);
    // Title exact + similarity +100, cover -60, artist mismatch
    // -60, duration +20.
    assert_eq!(s.total, 40 + 100 - 60 - 60 + 20);
    assert_eq!(s.cover, COVER_PENALTY);
    assert!(flags.contains(&"cover".to_string()));
}

#[test]
fn cover_penalty_skipped_when_user_typed_cover() {
    let pq = ParsedQuery::parse("Hotline Bling cover").unwrap();
    let c = cand("Hotline Bling (Cover)", "SomeArtist", 200.0);
    let (s, _flags) = score_candidate(&pq, &c);
    assert_eq!(s.cover, 0);
}

#[test]
fn type_beat_penalised() {
    let pq = ParsedQuery::parse("Some Song").unwrap();
    let c = cand("Some Song FREE Type Beat", "Producer", 200.0);
    let (s, flags) = score_candidate(&pq, &c);
    // Title match +40, similarity +40 (2/5 tokens), type beat -50,
    // no-artist -20, duration +20.
    assert_eq!(s.total, 40 + 40 - 50 - 20 + 20);
    assert!(flags.contains(&"type-beat".to_string()));
}

#[test]
fn compilation_penalised() {
    let pq = ParsedQuery::parse("Sample Artist - Song").unwrap();
    let c = cand(
        "DJ Mix 2024 Mega Mix Best Of",
        "Mix Channel",
        3600.0,
    );
    let (s, flags) = score_candidate(&pq, &c);
    // No title match, artist mismatch -60, compilation -45,
    // long duration -30.
    assert_eq!(s.total, -60 - 45 - 30);
    assert!(flags.contains(&"compilation".to_string()));
}

#[test]
fn word_flags_survive_word_boundaries_but_not_substrings() {
    let pq = ParsedQuery::parse("Some Song").unwrap();
    // "Alive" contains "live" and "Discover" contains "cover" —
    // neither must trigger a penalty.
    let (s, flags) = score_candidate(&pq, &cand("Alive And Discover Mix", "User", 200.0));
    assert_eq!(s.live, 0);
    assert_eq!(s.cover, 0);
    assert!(!flags.contains(&"live".to_string()));
    assert!(!flags.contains(&"cover".to_string()));
    // But an actual word hit still fires.
    let (s2, flags2) = score_candidate(&pq, &cand("Some Song Live At Wembley", "User", 400.0));
    assert_eq!(s2.live, LIVE_PENALTY);
    assert!(flags2.contains(&"live".to_string()));
}

#[test]
fn very_long_audiobook_penalised() {
    let pq = ParsedQuery::parse("Some Song").unwrap();
    // Title deliberately omits "song" so title_match stays 0.
    let c = cand("Some Long Audiobook Podcast", "User", 7200.0);
    let (s, _flags) = score_candidate(&pq, &c);
    // similarity +20, no-artist -20, long -30.
    assert_eq!(s.total, 20 - 20 - 30);
}

#[test]
fn fan_upload_penalty_applied_when_official_present() {
    let mut ranked = vec![
        rc(cand("Haftbefehl - RADW", "HaftbefehlVEVO", 200.0), 160, &["official"]),
        rc(cand("Haftbefehl - RADW", "Random User", 200.0), 60, &[]),
    ];
    apply_fan_upload_penalty(&mut ranked);
    // Fan upload: 60 - 10 = 50, with a "fan-upload" flag attached.
    assert_eq!(ranked[1].score, 50);
    assert!(ranked[1].flags.iter().any(|f| f == "fan-upload"));
    // Official: untouched.
    assert_eq!(ranked[0].score, 160);
    assert!(!ranked[0].flags.iter().any(|f| f == "fan-upload"));
}

#[test]
fn fan_upload_penalty_skipped_when_no_official() {
    let mut ranked = vec![
        rc(cand("Some Song", "Random User", 200.0), 60, &[]),
        rc(cand("Another Song", "Other User", 200.0), 60, &[]),
    ];
    apply_fan_upload_penalty(&mut ranked);
    assert_eq!(ranked[0].score, 60);
    assert_eq!(ranked[1].score, 60);
}

#[test]
fn view_count_lean_promotes_dominant_upload_of_same_song() {
    let mut a = rc(cand("Same Song", "Channel A", 200.0), 60, &[]);
    a.base.view_count = num(6_000_000.0);
    let mut b = rc(cand("Same Song", "Channel B", 200.0), 55, &[]);
    b.base.view_count = num(30_000.0);
    let mut ranked = vec![b, a];
    apply_view_count_lean(&mut ranked);
    // 6M views towers over the 30k rival → +6, flipping the order.
    assert_eq!(ranked[1].score, 66);
    assert_eq!(ranked[1].breakdown.as_ref().unwrap().view_count, 6);
    assert_eq!(ranked[0].score, 55);
}

#[test]
fn view_count_lean_never_compares_different_songs() {
    let mut a = rc(cand("Song One", "Channel A", 200.0), 60, &[]);
    a.base.view_count = num(9_000_000.0);
    let b = rc(cand("Song Two", "Channel B", 200.0), 55, &[]);
    let mut ranked = vec![b, a];
    apply_view_count_lean(&mut ranked);
    assert_eq!(ranked[1].score, 60);
    assert_eq!(ranked[0].score, 55);
}

#[test]
fn auto_pick_rejects_vetoed_top_candidate_despite_margin() {
    let ranked = vec![
        rc(cand("Song (Lyric Video)", "Channel A", 200.0), 400, &["lyrics"]),
        rc(cand("Other Song", "Channel B", 200.0), 100, &[]),
    ];
    assert_eq!(auto_pick_decision(&ranked, AUTO_PICK_MARGIN), AutoPickDecision::NoPick);
}

#[test]
fn auto_pick_rejects_weak_leader_below_score_floor() {
    let ranked = vec![rc(cand("Obscure Song", "Tiny Channel", 200.0), 40, &[])];
    assert_eq!(auto_pick_decision(&ranked, AUTO_PICK_MARGIN), AutoPickDecision::NoPick);
}

#[test]
fn auto_pick_rejects_fan_upload_leader() {
    let ranked = vec![
        rc(cand("Song", "Fan Uploads", 200.0), 200, &["fan-upload"]),
        rc(cand("Other Thing", "Channel B", 200.0), 80, &[]),
    ];
    assert_eq!(auto_pick_decision(&ranked, AUTO_PICK_MARGIN), AutoPickDecision::NoPick);
}

#[test]
fn auto_pick_needs_margin_for_different_songs() {
    let ranked = vec![
        rc(cand("Song A", "Channel A", 200.0), 100, &[]),
        rc(cand("Song B", "Channel B", 200.0), 85, &[]),
    ];
    // 100-85=15 < max(30, 25) → picker.
    assert_eq!(auto_pick_decision(&ranked, AUTO_PICK_MARGIN), AutoPickDecision::NoPick);
}

#[test]
fn auto_pick_confident_for_clear_leader() {
    let ranked = vec![
        rc(cand("Song A", "Artist - Topic", 200.0), 240, &["official"]),
        rc(cand("Song B", "Channel B", 200.0), 80, &[]),
    ];
    let d = auto_pick_decision(&ranked, AUTO_PICK_MARGIN);
    match d {
        AutoPickDecision::Auto(meta) => {
            assert_eq!(meta.margin, 160);
            assert_eq!(meta.required_margin, AUTO_PICK_MARGIN);
            assert_eq!(meta.equivalent_count, 0);
        }
        AutoPickDecision::NoPick => panic!("expected confident auto-pick"),
    }
}

#[test]
fn auto_pick_relaxes_margin_for_title_equivalent_runner_up() {
    let ranked = vec![
        rc(cand("Song A", "Artist - Topic", 200.0), 160, &["official"]),
        rc(cand("Song A (Official Audio)", "Fan Channel", 200.0), 145, &[]),
    ];
    // 160-145=15 < 30 normally — but the runner-up is the same song
    // (identical title tokens after decoration stripping), so the
    // equivalence floor applies.
    let d = auto_pick_decision(&ranked, AUTO_PICK_MARGIN);
    match d {
        AutoPickDecision::Auto(meta) => {
            assert_eq!(meta.required_margin, EQUIVALENT_MARGIN);
            assert_eq!(meta.equivalent_count, 1);
        }
        AutoPickDecision::NoPick => panic!("expected equivalence-relaxed auto-pick"),
    }
}

#[test]
fn auto_pick_single_candidate_still_needs_score_floor() {
    let strong = vec![rc(cand("Song A", "Artist - Topic", 200.0), 240, &["official"])];
    assert!(matches!(
        auto_pick_decision(&strong, AUTO_PICK_MARGIN),
        AutoPickDecision::Auto(_)
    ));
    let weak = vec![rc(cand("Song A", "Artist - Topic", 200.0), 50, &["official"])];
    assert_eq!(auto_pick_decision(&weak, AUTO_PICK_MARGIN), AutoPickDecision::NoPick);
}

#[test]
fn dedupe_keeps_distinct_videos() {
    let mut v = vec![
        cand("Haftbefehl - RADW", "VEVO", 180.0),
        cand("Haftbefehl - RADW", "VEVO", 180.0), // exact dup id-less: dedups by title+uploader
        cand("Bonez MC - Spray", "Bonez MC - Topic", 200.0),
    ];
    v = dedupe_candidates(v);
    assert_eq!(v.len(), 2);
}

#[test]
fn dedupe_id_dedupes_with_same_id() {
    let mut a = cand("Some Song", "Topic Channel", 200.0);
    a.id = "abc123".to_string();
    let mut b = cand("Some Song (Official)", "Topic Channel", 200.0);
    b.id = "abc123".to_string();
    let mut c = cand("Other Song", "Topic Channel", 200.0);
    c.id = "zzz999".to_string();
    let v = dedupe_candidates(vec![a, b, c]);
    // a and b share id → only one survives; c is distinct.
    assert_eq!(v.len(), 2);
    assert!(v.iter().any(|c| c.id == "zzz999"));
}
