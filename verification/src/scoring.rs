//! Scoring of search results: how well a candidate fits a query, field by
//! field, and the badges that explain it.

use vstd::prelude::*;

use crate::matching::{
    best_similarity, normalize, normalized, outside_brackets,
    strip_decorations, token_set_sim, token_similarity, tokenize, tokens, word_similarity,
};
use crate::model::YtCandidate;
use crate::real64::{
    floor_product, floor_times, lemma_floor_product_at_most, lemma_scales, Real64, ONE_BITS,
};
use crate::text::{
    ascii_lower, contains, contains_text, list_has, split_words, texts, to_ascii_lower, words,
};
use crate::youtube::{ParsedQuery, QueryView};

verus! {

/// The uploader is an official artist channel.
pub const OFFICIAL_CHANNEL_BOOST: i32 = 100;

/// The title holds "official video", "official music video" or "official audio".
pub const OFFICIAL_PHRASE_BOOST: i32 = 30;

/// All longer words of the wanted title appear in the candidate's title.
pub const TITLE_INCLUDES_QUERY_BOOST: i32 = 40;

/// All longer words of the wanted artist appear in the candidate's title.
pub const TITLE_INCLUDES_ARTIST_BOOST: i32 = 40;

/// Points for a title whose tokens are exactly those of the query.
pub const TITLE_SIMILARITY_SCALE: u64 = 100;

/// Points for an artist that matches exactly.
pub const ARTIST_SIMILARITY_SCALE: u64 = 30;

/// The query names no artist.
pub const NO_ARTIST_INFO_PENALTY: i32 = -20;

/// Two to four minutes.
pub const DURATION_IDEAL_BOOST: i32 = 20;

/// Up to six minutes.
pub const DURATION_ACCEPTABLE_BOOST: i32 = 10;

/// Six to eight minutes.
pub const DURATION_EXTENDED_BOOST: i32 = 5;

/// Over eight minutes.
pub const DURATION_LONG_PENALTY: i32 = -30;

/// Under one minute.
pub const DURATION_SHORT_PENALTY: i32 = -15;

/// No duration reported.
pub const DURATION_UNKNOWN_PENALTY: i32 = -5;

/// A lyrics video.
pub const LYRICS_PENALTY: i32 = -40;

/// A reaction, or somebody's first listen.
pub const REACTION_PENALTY: i32 = -90;

/// A remix, an edit or a mashup.
pub const REMIX_PENALTY: i32 = -50;

/// A live recording.
pub const LIVE_PENALTY: i32 = -40;

/// Nightcore, bass boosted, slowed or with reverb.
pub const SPAM_PENALTY: i32 = -80;

/// An instrumental version.
pub const INSTRUMENTAL_PENALTY: i32 = -60;

/// A karaoke version.
pub const KARAOKE_PENALTY: i32 = -60;

/// Somebody else's rendition.
pub const COVER_PENALTY: i32 = -60;

/// A producer's "type beat".
pub const TYPE_BEAT_PENALTY: i32 = -50;

/// A collection of songs.
pub const COMPILATION_PENALTY: i32 = -45;

/// Neither the uploader nor the title resembles the wanted artist.
pub const ARTIST_MISMATCH_PENALTY: i32 = -60;

/// Least artist similarity that counts as a match: `0.65`, as a bit pattern.
pub const ARTIST_MATCH_REJECT: u64 = 0x3FE4_CCCC_CCCC_CCCD;

/// `120.0` seconds, as a bit pattern.
pub const IDEAL_SONG_SECS: u64 = 0x405E_0000_0000_0000;

/// `240.0` seconds, as a bit pattern.
pub const IDEAL_SONG_SECS_MAX: u64 = 0x406E_0000_0000_0000;

/// `120.0` seconds, as a bit pattern.
pub const MIN_SONG_SECS: u64 = 0x405E_0000_0000_0000;

/// `360.0` seconds, as a bit pattern.
pub const MAX_SONG_SECS: u64 = 0x4076_8000_0000_0000;

/// `480.0` seconds, as a bit pattern.
pub const EXTENDED_SONG_SECS_MAX: u64 = 0x407E_0000_0000_0000;

/// `480.0` seconds, as a bit pattern.
pub const LONG_SONG_SECS: u64 = 0x407E_0000_0000_0000;

/// `60.0` seconds, as a bit pattern.
pub const VERY_SHORT_SECS: u64 = 0x404E_0000_0000_0000;

/// The score of a candidate, field by field. `total` is what ranking uses.
#[derive(Clone, Copy, Debug, PartialEq, Eq, Structural)]
pub struct ScoreBreakdown {
    pub total: i32,
    pub official_channel: i32,
    pub official_phrase: i32,
    pub title_match: i32,
    /// Graded similarity between query and title.
    pub title_similarity: i32,
    /// Penalty for an artist that does not match or is not named.
    pub artist_match: i32,
    /// Graded similarity between artist and uploader or title.
    pub artist_similarity: i32,
    pub duration: i32,
    /// Filled in once all candidates are known.
    pub fan_upload: i32,
    /// Filled in once all candidates are known.
    pub view_count: i32,
    pub lyrics: i32,
    pub reaction: i32,
    pub remix: i32,
    pub live: i32,
    pub spam: i32,
    pub instrumental: i32,
    pub karaoke: i32,
    pub cover: i32,
    pub type_beat: i32,
    pub compilation: i32,
}

impl Default for ScoreBreakdown {
    fn default() -> (r: Self)
        ensures
            r.total == 0,
            r.fan_upload == 0,
            r.view_count == 0,
            r.parts() == 0,
            r.official_channel == 0 && r.official_phrase == 0 && r.title_match == 0
                && r.title_similarity == 0 && r.artist_match == 0 && r.artist_similarity == 0
                && r.duration == 0 && r.lyrics == 0 && r.reaction == 0 && r.remix == 0 && r.live == 0
                && r.spam == 0 && r.instrumental == 0 && r.karaoke == 0 && r.cover == 0
                && r.type_beat == 0 && r.compilation == 0,
    {
        ScoreBreakdown {
            total: 0,
            official_channel: 0,
            official_phrase: 0,
            title_match: 0,
            title_similarity: 0,
            artist_match: 0,
            artist_similarity: 0,
            duration: 0,
            fan_upload: 0,
            view_count: 0,
            lyrics: 0,
            reaction: 0,
            remix: 0,
            live: 0,
            spam: 0,
            instrumental: 0,
            karaoke: 0,
            cover: 0,
            type_beat: 0,
            compilation: 0,
        }
    }
}

impl ScoreBreakdown {
    /// The sum of the fields that one candidate decides by itself.
    pub open spec fn parts(self) -> int {
        self.official_channel + self.official_phrase + self.title_match + self.title_similarity
            + self.artist_match + self.artist_similarity + self.duration + self.lyrics
            + self.reaction + self.remix + self.live + self.spam + self.instrumental + self.karaoke
            + self.cover + self.type_beat + self.compilation
    }

    /// The total is the sum of all fields.
    pub open spec fn balanced(self) -> bool {
        self.total == self.parts() + self.fan_upload + self.view_count
    }
}

/// The words of more than two characters, in lower case.
pub open spec fn long_among(ws: Seq<Seq<char>>) -> Seq<Seq<char>>
    decreases ws.len(),
{
    if ws.len() == 0 {
        Seq::empty()
    } else if ws.last().len() > 2 {
        long_among(ws.drop_last()).push(ascii_lower(ws.last()))
    } else {
        long_among(ws.drop_last())
    }
}

/// The words of a text that have more than two characters, in lower case.
pub open spec fn long_words(s: Seq<char>) -> Seq<Seq<char>> {
    long_among(words(s))
}

fn take_long_words(s: &str) -> (r: Vec<String>)
    ensures
        texts(r@) == long_words(s@),
{
    let ws = split_words(s);
    let mut out: Vec<String> = Vec::new();
    let mut i: usize = 0;
    while i < ws.len()
        invariant
            texts(ws@) == words(s@),
            i <= ws@.len(),
            texts(out@) == long_among(words(s@).take(i as int)),
        decreases ws@.len() - i,
    {
        proof {
            assert(words(s@).len() == ws@.len());
            assert(words(s@)[i as int] == ws@[i as int]@);
            assert(words(s@).take(i + 1).drop_last() =~= words(s@).take(i as int));
        }
        let ghost before = out@;
        if ws[i].as_str().unicode_len() > 2 {
            let w = to_ascii_lower(ws[i].as_str());
            out.push(w);
            proof {
                assert(texts(out@) =~= texts(before).push(w@));
            }
        }
        i += 1;
    }
    proof {
        assert(words(s@).take(i as int) =~= words(s@));
    }
    out
}

/// Every element of `a` is an element of `b`.
pub open spec fn all_within(a: Seq<Seq<char>>, b: Seq<Seq<char>>) -> bool {
    forall|i: int| 0 <= i < a.len() ==> b.contains(#[trigger] a[i])
}

fn all_listed(a: &Vec<String>, b: &Vec<String>) -> (r: bool)
    ensures
        r == all_within(texts(a@), texts(b@)),
{
    let mut i: usize = 0;
    while i < a.len()
        invariant
            i <= a@.len(),
            forall|k: int| 0 <= k < i ==> texts(b@).contains(#[trigger] texts(a@)[k]),
        decreases a@.len() - i,
    {
        proof {
            assert(texts(a@)[i as int] == a@[i as int]@);
        }
        if !list_has(b, a[i].as_str()) {
            return false;
        }
        i += 1;
    }
    true
}

/// The tokens of a title without its bracketed decorations.
pub open spec fn core_tokens(title: Seq<char>) -> Seq<Seq<char>> {
    tokens(outside_brackets(ascii_lower(title)))
}

/// The tokens of a whole title or name.
pub open spec fn all_tokens(s: Seq<char>) -> Seq<Seq<char>> {
    tokens(normalized(s))
}

/// The uploader carries a mark of an official artist channel.
pub open spec fn is_official_channel(uploader: Seq<char>) -> bool {
    let u = ascii_lower(uploader);
    contains_text(u, "vevo"@) || contains_text(u, " - topic"@) || contains_text(u, "(official)"@)
        || contains_text(u, "official artist channel"@)
}

fn official_channel(uploader: &str) -> (r: bool)
    ensures
        r == is_official_channel(uploader@),
{
    let u = to_ascii_lower(uploader);
    contains(u.as_str(), "vevo") || contains(u.as_str(), " - topic") || contains(
        u.as_str(),
        "(official)",
    ) || contains(u.as_str(), "official artist channel")
}

/// The title calls itself official.
pub open spec fn has_official_phrase(title: Seq<char>) -> bool {
    let t = ascii_lower(title);
    contains_text(t, "official music video"@) || contains_text(t, "official video"@)
        || contains_text(t, "official audio"@)
}

fn official_phrase(title: &str) -> (r: bool)
    ensures
        r == has_official_phrase(title@),
{
    let t = to_ascii_lower(title);
    contains(t.as_str(), "official music video") || contains(t.as_str(), "official video")
        || contains(t.as_str(), "official audio")
}

/// What a title says about the kind of upload, less what the user asked for.
#[derive(Clone, Copy, Debug, PartialEq, Eq, Structural)]
pub struct Signals {
    pub lyrics: bool,
    pub reaction: bool,
    pub remix: bool,
    pub live: bool,
    pub nightcore: bool,
    pub bass_boosted: bool,
    pub slowed: bool,
    pub reverb: bool,
    pub instrumental: bool,
    pub karaoke: bool,
    pub cover: bool,
    pub type_beat: bool,
    pub compilation: bool,
}

/// The user typed `word`.
pub open spec fn wants(raw: Seq<char>, word: Seq<char>) -> bool {
    contains_text(ascii_lower(raw), word)
}

/// The title holds `phrase` somewhere.
pub open spec fn mentions(title: Seq<char>, phrase: Seq<char>) -> bool {
    contains_text(ascii_lower(title), phrase)
}

/// `word` is a whole word of the title.
pub open spec fn has_word(title: Seq<char>, word: Seq<char>) -> bool {
    all_tokens(title).contains(word)
}

/// The signals of a title. Lyrics, reactions, remixes, live recordings,
/// instrumentals, covers, type beats and compilations do not count where the
/// query asks for them; the spam genres and karaoke always count.
pub open spec fn signals_of(raw: Seq<char>, title: Seq<char>) -> Signals {
    Signals {
        lyrics: !wants(raw, "lyric"@) && mentions(title, "lyric"@),
        reaction: !wants(raw, "reaction"@) && (mentions(title, "reaction"@) || mentions(
            title,
            "first listen"@,
        ) || has_word(title, "reacts"@) || has_word(title, "reacting"@)),
        remix: !wants(raw, "remix"@) && (has_word(title, "remix"@) || has_word(title, "edit"@)
            || mentions(title, "mashup"@)),
        live: !wants(raw, "live"@) && (has_word(title, "live"@) || has_word(title, "concert"@)),
        nightcore: mentions(title, "nightcore"@),
        bass_boosted: mentions(title, "bass boosted"@) || has_word(title, "bass-boosted"@)
            || has_word(title, "bassboosted"@),
        slowed: has_word(title, "slowed"@) || has_word(title, "slowed+reverb"@) || has_word(
            title,
            "sped"@,
        ),
        reverb: has_word(title, "reverb"@),
        instrumental: !wants(raw, "instrumental"@) && has_word(title, "instrumental"@),
        karaoke: has_word(title, "karaoke"@),
        cover: !wants(raw, "cover"@) && (has_word(title, "cover"@) || has_word(title, "covers"@)),
        type_beat: !wants(raw, "type beat"@) && !wants(raw, "type-beat"@) && (mentions(
            title,
            "type beat"@,
        ) || mentions(title, "type-beat"@)),
        compilation: !wants(raw, "compilation"@) && (mentions(title, "compilation"@) || mentions(
            title,
            "best of"@,
        ) || mentions(title, "greatest hits"@)),
    }
}

fn detect_signals(raw: &str, title: &str, toks: &Vec<String>) -> (r: Signals)
    requires
        texts(toks@) == all_tokens(title@),
    ensures
        r == signals_of(raw@, title@),
{
    let raw_lower = to_ascii_lower(raw);
    let title_lower = to_ascii_lower(title);
    let q = raw_lower.as_str();
    let t = title_lower.as_str();
    Signals {
        lyrics: !contains(q, "lyric") && contains(t, "lyric"),
        reaction: !contains(q, "reaction") && (contains(t, "reaction") || contains(t, "first listen")
            || list_has(toks, "reacts") || list_has(toks, "reacting")),
        remix: !contains(q, "remix") && (list_has(toks, "remix") || list_has(toks, "edit")
            || contains(t, "mashup")),
        live: !contains(q, "live") && (list_has(toks, "live") || list_has(toks, "concert")),
        nightcore: contains(t, "nightcore"),
        bass_boosted: contains(t, "bass boosted") || list_has(toks, "bass-boosted") || list_has(
            toks,
            "bassboosted",
        ),
        slowed: list_has(toks, "slowed") || list_has(toks, "slowed+reverb") || list_has(toks, "sped"),
        reverb: list_has(toks, "reverb"),
        instrumental: !contains(q, "instrumental") && list_has(toks, "instrumental"),
        karaoke: list_has(toks, "karaoke"),
        cover: !contains(q, "cover") && (list_has(toks, "cover") || list_has(toks, "covers")),
        type_beat: !contains(q, "type beat") && !contains(q, "type-beat") && (contains(
            t,
            "type beat",
        ) || contains(t, "type-beat")),
        compilation: !contains(q, "compilation") && (contains(t, "compilation") || contains(
            t,
            "best of",
        ) || contains(t, "greatest hits")),
    }
}

/// The best match between a word of `ws` and a token of the uploader or of the
/// title.
pub open spec fn best_word_match(
    ws: Seq<Seq<char>>,
    uploader: Seq<Seq<char>>,
    title: Seq<Seq<char>>,
) -> Real64
    decreases ws.len(),
{
    if ws.len() == 0 {
        Real64 { bits: 0 }
    } else {
        let w = ascii_lower(ws.last());
        best_word_match(ws.drop_last(), uploader, title).spec_max(
            best_similarity(w, uploader).spec_max(best_similarity(w, title)),
        )
    }
}

/// How close an artist comes to the uploader or to the title: by whole tokens
/// or by its best single word, whichever is more.
pub open spec fn artist_closeness(artist: Seq<char>, uploader: Seq<char>, title: Seq<char>) -> Real64 {
    let ups = all_tokens(uploader);
    let all = all_tokens(title);
    let by_tokens = token_similarity(long_words(artist), ups).spec_max(
        token_similarity(long_words(artist), all),
    );
    by_tokens.spec_max(best_word_match(words(artist), ups, all))
}

fn artist_score(
    artist: &str,
    artist_tokens: &Vec<String>,
    uploader: &str,
    title: &str,
    title_tokens: &Vec<String>,
) -> (r: Real64)
    requires
        texts(artist_tokens@) == long_words(artist@),
        texts(title_tokens@) == all_tokens(title@),
    ensures
        r == artist_closeness(artist@, uploader@, title@),
        r.bits <= ONE_BITS,
{
    let plain = normalize(uploader);
    let up_tokens = tokenize(plain.as_str());
    let ws = split_words(artist);
    let mut best = Real64 { bits: 0 };
    let mut i: usize = 0;
    while i < ws.len()
        invariant
            texts(ws@) == words(artist@),
            texts(up_tokens@) == all_tokens(uploader@),
            texts(title_tokens@) == all_tokens(title@),
            i <= ws@.len(),
            best.bits <= ONE_BITS,
            best == best_word_match(
                words(artist@).take(i as int),
                all_tokens(uploader@),
                all_tokens(title@),
            ),
        decreases ws@.len() - i,
    {
        proof {
            assert(words(artist@).len() == ws@.len());
            assert(words(artist@)[i as int] == ws@[i as int]@);
            assert(words(artist@).take(i + 1).drop_last() =~= words(artist@).take(i as int));
        }
        let w = to_ascii_lower(ws[i].as_str());
        let here = word_similarity(w.as_str(), &up_tokens).greater_of(
            word_similarity(w.as_str(), title_tokens),
        );
        best = best.greater_of(here);
        i += 1;
    }
    proof {
        assert(words(artist@).take(i as int) =~= words(artist@));
    }
    let by_tokens = token_set_sim(artist_tokens, &up_tokens).greater_of(
        token_set_sim(artist_tokens, title_tokens),
    );
    by_tokens.greater_of(best)
}

/// Points for a duration. The bands: two to four minutes, up to six, up to
/// eight, longer, under one minute, and not known. Between one and two minutes
/// there are neither points nor a penalty.
pub open spec fn duration_points(secs: Real64) -> i32 {
    if secs.spec_le(Real64 { bits: 0 }) {
        DURATION_UNKNOWN_PENALTY
    } else if (Real64 { bits: IDEAL_SONG_SECS }).spec_le(secs) && secs.spec_le(
        Real64 { bits: IDEAL_SONG_SECS_MAX },
    ) {
        DURATION_IDEAL_BOOST
    } else if is_long(secs) {
        DURATION_LONG_PENALTY
    } else if is_short(secs) {
        DURATION_SHORT_PENALTY
    } else if (Real64 { bits: MIN_SONG_SECS }).spec_le(secs) && secs.spec_le(
        Real64 { bits: MAX_SONG_SECS },
    ) {
        DURATION_ACCEPTABLE_BOOST
    } else if (Real64 { bits: MAX_SONG_SECS }).spec_lt(secs) && secs.spec_le(
        Real64 { bits: EXTENDED_SONG_SECS_MAX },
    ) {
        DURATION_EXTENDED_BOOST
    } else {
        0
    }
}

/// Over eight minutes.
pub open spec fn is_long(secs: Real64) -> bool {
    Real64 { bits: LONG_SONG_SECS }.spec_lt(secs)
}

/// Known, and under one minute.
pub open spec fn is_short(secs: Real64) -> bool {
    Real64 { bits: 0 }.spec_lt(secs) && secs.spec_lt(Real64 { bits: VERY_SHORT_SECS })
}

fn score_duration(secs: Real64) -> (r: i32)
    ensures
        r == duration_points(secs),
        -30 <= r <= 20,
{
    if secs.at_most(Real64 { bits: 0 }) {
        DURATION_UNKNOWN_PENALTY
    } else if (Real64 { bits: IDEAL_SONG_SECS }).at_most(secs) && secs.at_most(
        Real64 { bits: IDEAL_SONG_SECS_MAX },
    ) {
        DURATION_IDEAL_BOOST
    } else if (Real64 { bits: LONG_SONG_SECS }).less(secs) {
        DURATION_LONG_PENALTY
    } else if secs.less(Real64 { bits: VERY_SHORT_SECS }) {
        DURATION_SHORT_PENALTY
    } else if (Real64 { bits: MIN_SONG_SECS }).at_most(secs) && secs.at_most(
        Real64 { bits: MAX_SONG_SECS },
    ) {
        DURATION_ACCEPTABLE_BOOST
    } else if (Real64 { bits: MAX_SONG_SECS }).less(secs) && secs.at_most(
        Real64 { bits: EXTENDED_SONG_SECS_MAX },
    ) {
        DURATION_EXTENDED_BOOST
    } else {
        0
    }
}

/// `points` where `on` holds, else nothing.
pub open spec fn points_if(on: bool, points: i32) -> i32 {
    if on {
        points
    } else {
        0
    }
}

fn give(on: bool, points: i32) -> (r: i32)
    ensures
        r == points_if(on, points),
        points <= r <= 0 || 0 <= r <= points,
{
    if on {
        points
    } else {
        0
    }
}

/// Points for title words: those of the query and those of the artist, each
/// where there are any and all of them appear.
pub open spec fn title_match_points(q: QueryView, title: Seq<char>) -> i32 {
    let core = core_tokens(title);
    let wanted = long_words(q.title);
    let artist = match q.artist {
        Some(a) => long_words(a),
        None => Seq::empty(),
    };
    (points_if(wanted.len() > 0 && all_within(wanted, core), TITLE_INCLUDES_QUERY_BOOST)
        + points_if(artist.len() > 0 && all_within(artist, core), TITLE_INCLUDES_ARTIST_BOOST)) as i32
}

/// Points for the share of title tokens that the query and the title have in
/// common.
pub open spec fn title_similarity_points(q: QueryView, title: Seq<char>) -> i32 {
    floor_product(
        token_similarity(long_words(q.title), core_tokens(title)).bits as nat,
        TITLE_SIMILARITY_SCALE as nat,
    ) as i32
}

/// The query names an artist whom neither uploader nor title resembles.
pub open spec fn artist_mismatch(q: QueryView, uploader: Seq<char>, title: Seq<char>) -> bool {
    match q.artist {
        Some(a) => a.len() > 0 && artist_closeness(a, uploader, title).spec_lt(
            Real64 { bits: ARTIST_MATCH_REJECT },
        ),
        None => false,
    }
}

/// The penalty for the artist: a mismatch, or none named although the title
/// has words to go by.
pub open spec fn artist_match_points(q: QueryView, uploader: Seq<char>, title: Seq<char>) -> i32 {
    if artist_mismatch(q, uploader, title) {
        ARTIST_MISMATCH_PENALTY
    } else {
        points_if(q.artist is None && long_words(q.title).len() > 0, NO_ARTIST_INFO_PENALTY)
    }
}

/// Points for an artist that matches, by closeness.
pub open spec fn artist_similarity_points(
    q: QueryView,
    uploader: Seq<char>,
    title: Seq<char>,
) -> i32 {
    match q.artist {
        Some(a) => if a.len() > 0 && !artist_mismatch(q, uploader, title) {
            floor_product(
                artist_closeness(a, uploader, title).bits as nat,
                ARTIST_SIMILARITY_SCALE as nat,
            ) as i32
        } else {
            0
        },
        None => 0,
    }
}

/// Penalty points for spam genres, which add up.
pub open spec fn spam_points(s: Signals) -> i32 {
    (points_if(s.nightcore, SPAM_PENALTY) + points_if(s.bass_boosted, SPAM_PENALTY) + points_if(
        s.slowed,
        SPAM_PENALTY,
    ) + points_if(s.reverb, SPAM_PENALTY)) as i32
}

/// The fields of a score: the channel, the phrase, the points for title words
/// and title similarity, the points for the artist's penalty and similarity,
/// the duration and the signals.
pub open spec fn fields_from(
    official: bool,
    phrase: bool,
    title: (i32, i32),
    artist: (i32, i32),
    duration: i32,
    s: Signals,
) -> ScoreBreakdown {
    ScoreBreakdown {
        total: 0,
        official_channel: points_if(official, OFFICIAL_CHANNEL_BOOST),
        official_phrase: points_if(phrase, OFFICIAL_PHRASE_BOOST),
        title_match: title.0,
        title_similarity: title.1,
        artist_match: artist.0,
        artist_similarity: artist.1,
        duration,
        fan_upload: 0,
        view_count: 0,
        lyrics: points_if(s.lyrics, LYRICS_PENALTY),
        reaction: points_if(s.reaction, REACTION_PENALTY),
        remix: points_if(s.remix, REMIX_PENALTY),
        live: points_if(s.live, LIVE_PENALTY),
        spam: spam_points(s),
        instrumental: points_if(s.instrumental, INSTRUMENTAL_PENALTY),
        karaoke: points_if(s.karaoke, KARAOKE_PENALTY),
        cover: points_if(s.cover, COVER_PENALTY),
        type_beat: points_if(s.type_beat, TYPE_BEAT_PENALTY),
        compilation: points_if(s.compilation, COMPILATION_PENALTY),
    }
}

/// A score whose total is the sum of its fields.
pub open spec fn summed(b: ScoreBreakdown) -> ScoreBreakdown {
    ScoreBreakdown { total: b.parts() as i32, ..b }
}

/// The score of a candidate against a query.
pub open spec fn score_of(q: QueryView, c: YtCandidate) -> ScoreBreakdown {
    summed(
        fields_from(
            is_official_channel(c.uploader@),
            has_official_phrase(c.title@),
            (title_match_points(q, c.title@), title_similarity_points(q, c.title@)),
            (
                artist_match_points(q, c.uploader@, c.title@),
                artist_similarity_points(q, c.uploader@, c.title@),
            ),
            duration_points(c.duration_secs),
            signals_of(q.raw, c.title@),
        ),
    )
}

/// `list` with the badge `name` at its end where `on` holds.
pub open spec fn with_badge(list: Seq<Seq<char>>, on: bool, name: Seq<char>) -> Seq<Seq<char>> {
    if on {
        list.push(name)
    } else {
        list
    }
}

/// `list` with the badges for what a title says, in a fixed order.
pub open spec fn with_signal_flags(list: Seq<Seq<char>>, s: Signals) -> Seq<Seq<char>> {
    let l = with_badge(list, s.lyrics, "lyrics"@);
    let l = with_badge(l, s.reaction, "reaction"@);
    let l = with_badge(l, s.remix, "remix"@);
    let l = with_badge(l, s.live, "live"@);
    let l = with_badge(l, s.nightcore, "nightcore"@);
    let l = with_badge(l, s.bass_boosted, "bass-boosted"@);
    let l = with_badge(l, s.slowed, "slowed"@);
    let l = with_badge(l, s.reverb, "reverb"@);
    let l = with_badge(l, s.instrumental, "instrumental"@);
    let l = with_badge(l, s.karaoke, "karaoke"@);
    let l = with_badge(l, s.cover, "cover"@);
    let l = with_badge(l, s.type_beat, "type-beat"@);
    with_badge(l, s.compilation, "compilation"@)
}

/// The badges for a candidate: where it comes from, whether the artist is
/// wrong, whether it is long or short, and what the title says.
pub open spec fn flags_of(q: QueryView, c: YtCandidate) -> Seq<Seq<char>> {
    let official = is_official_channel(c.uploader@);
    let phrase = has_official_phrase(c.title@);
    let l = with_badge(Seq::empty(), official, "official"@);
    let l = with_badge(l, phrase && !official, "official-upload"@);
    let l = with_badge(l, artist_mismatch(q, c.uploader@, c.title@), "artist-mismatch"@);
    let l = with_badge(l, is_long(c.duration_secs), "long"@);
    let l = with_badge(l, is_short(c.duration_secs), "short"@);
    with_signal_flags(l, signals_of(q.raw, c.title@))
}

fn add_badge(flags: &mut Vec<String>, on: bool, name: &str)
    ensures
        texts(final(flags)@) == with_badge(texts(old(flags)@), on, name@),
{
    if on {
        flags.push(String::from_str(name));
        proof {
            assert(texts(flags@) =~= texts(old(flags)@).push(name@));
        }
    }
}

fn add_signal_flags(flags: &mut Vec<String>, s: Signals)
    ensures
        texts(final(flags)@) == with_signal_flags(texts(old(flags)@), s),
{
    add_badge(flags, s.lyrics, "lyrics");
    add_badge(flags, s.reaction, "reaction");
    add_badge(flags, s.remix, "remix");
    add_badge(flags, s.live, "live");
    add_badge(flags, s.nightcore, "nightcore");
    add_badge(flags, s.bass_boosted, "bass-boosted");
    add_badge(flags, s.slowed, "slowed");
    add_badge(flags, s.reverb, "reverb");
    add_badge(flags, s.instrumental, "instrumental");
    add_badge(flags, s.karaoke, "karaoke");
    add_badge(flags, s.cover, "cover");
    add_badge(flags, s.type_beat, "type-beat");
    add_badge(flags, s.compilation, "compilation");
}

/// What the artist adds to a score.
struct ArtistPoints {
    mismatch: bool,
    penalty: i32,
    similarity: i32,
}

fn score_artist(
    pq: &ParsedQuery,
    c: &YtCandidate,
    artist_tokens: &Vec<String>,
    title_tokens: &Vec<String>,
    has_title_words: bool,
) -> (r: ArtistPoints)
    requires
        pq.artist matches Some(a) ==> texts(artist_tokens@) == long_words(a@),
        texts(title_tokens@) == all_tokens(c.title@),
        has_title_words == (long_words(pq.title@).len() > 0),
    ensures
        r.mismatch == artist_mismatch(pq@, c.uploader@, c.title@),
        r.penalty == artist_match_points(pq@, c.uploader@, c.title@),
        r.similarity == artist_similarity_points(pq@, c.uploader@, c.title@),
        -60 <= r.penalty <= 0,
        0 <= r.similarity <= 30,
{
    match &pq.artist {
        Some(a) => {
            if a.as_str().unicode_len() == 0 {
                return ArtistPoints { mismatch: false, penalty: 0, similarity: 0 };
            }
            let best = artist_score(
                a.as_str(),
                artist_tokens,
                c.uploader.as_str(),
                c.title.as_str(),
                title_tokens,
            );
            if best.less(Real64 { bits: ARTIST_MATCH_REJECT }) {
                ArtistPoints { mismatch: true, penalty: ARTIST_MISMATCH_PENALTY, similarity: 0 }
            } else {
                proof {
                    lemma_scales();
                    lemma_floor_product_at_most(
                        best.bits as nat,
                        ARTIST_SIMILARITY_SCALE as nat,
                        0x403E_0000_0000_0000,
                    );
                }
                let similarity: i32 = floor_times(best, ARTIST_SIMILARITY_SCALE) as i32;
                ArtistPoints { mismatch: false, penalty: 0, similarity }
            }
        },
        None => ArtistPoints {
            mismatch: false,
            penalty: give(has_title_words, NO_ARTIST_INFO_PENALTY),
            similarity: 0,
        },
    }
}

fn score_title(
    pq: &ParsedQuery,
    c: &YtCandidate,
    query_tokens: &Vec<String>,
    artist_tokens: &Vec<String>,
) -> (r: (i32, i32))
    requires
        texts(query_tokens@) == long_words(pq.title@),
        texts(artist_tokens@) == (match pq.artist {
            Some(a) => long_words(a@),
            None => Seq::empty(),
        }),
    ensures
        r.0 == title_match_points(pq@, c.title@),
        r.1 == title_similarity_points(pq@, c.title@),
        0 <= r.0 <= 80,
        0 <= r.1 <= 100,
{
    let core_text = strip_decorations(c.title.as_str());
    let title_core = tokenize(core_text.as_str());
    assert(query_tokens@.len() == texts(query_tokens@).len());
    assert(artist_tokens@.len() == texts(artist_tokens@).len());
    let by_query = give(
        query_tokens.len() > 0 && all_listed(query_tokens, &title_core),
        TITLE_INCLUDES_QUERY_BOOST,
    );
    let by_artist = give(
        artist_tokens.len() > 0 && all_listed(artist_tokens, &title_core),
        TITLE_INCLUDES_ARTIST_BOOST,
    );
    let sim = token_set_sim(query_tokens, &title_core);
    proof {
        lemma_scales();
        lemma_floor_product_at_most(
            sim.bits as nat,
            TITLE_SIMILARITY_SCALE as nat,
            0x4059_0000_0000_0000,
        );
    }
    (by_query + by_artist, floor_times(sim, TITLE_SIMILARITY_SCALE) as i32)
}

fn score_spam(s: Signals) -> (r: i32)
    ensures
        r == spam_points(s),
        -320 <= r <= 0,
{
    give(s.nightcore, SPAM_PENALTY) + give(s.bass_boosted, SPAM_PENALTY) + give(
        s.slowed,
        SPAM_PENALTY,
    ) + give(s.reverb, SPAM_PENALTY)
}

/// Every field lies in the range that its rule allows.
spec fn in_range(b: ScoreBreakdown) -> bool {
    &&& 0 <= b.official_channel <= 100
    &&& 0 <= b.official_phrase <= 30
    &&& 0 <= b.title_match <= 80
    &&& 0 <= b.title_similarity <= 100
    &&& -60 <= b.artist_match <= 0
    &&& 0 <= b.artist_similarity <= 30
    &&& -30 <= b.duration <= 20
    &&& -40 <= b.lyrics <= 0
    &&& -90 <= b.reaction <= 0
    &&& -50 <= b.remix <= 0
    &&& -40 <= b.live <= 0
    &&& -320 <= b.spam <= 0
    &&& -60 <= b.instrumental <= 0
    &&& -60 <= b.karaoke <= 0
    &&& -60 <= b.cover <= 0
    &&& -50 <= b.type_beat <= 0
    &&& -45 <= b.compilation <= 0
}

fn sum_up(b: ScoreBreakdown) -> (r: ScoreBreakdown)
    requires
        in_range(b),
        b.fan_upload == 0,
        b.view_count == 0,
    ensures
        r == summed(b),
        r.balanced(),
        0 <= r.title_similarity <= 100,
        0 <= r.artist_similarity <= 30,
        -1000 <= r.total <= 500,
{
    let total: i32 = b.official_channel + b.official_phrase + b.title_match + b.title_similarity
        + b.artist_match + b.artist_similarity + b.duration + b.lyrics + b.reaction + b.remix
        + b.live + b.spam + b.instrumental + b.karaoke + b.cover + b.type_beat + b.compilation;
    ScoreBreakdown { total, ..b }
}

fn fill_fields(
    official: bool,
    phrase: bool,
    title: (i32, i32),
    artist: (i32, i32),
    duration: i32,
    s: Signals,
) -> (r: ScoreBreakdown)
    requires
        0 <= title.0 <= 80,
        0 <= title.1 <= 100,
        -60 <= artist.0 <= 0,
        0 <= artist.1 <= 30,
        -30 <= duration <= 20,
    ensures
        r == fields_from(official, phrase, title, artist, duration, s),
        in_range(r),
        r.fan_upload == 0,
        r.view_count == 0,
{
    ScoreBreakdown {
        total: 0,
        official_channel: give(official, OFFICIAL_CHANNEL_BOOST),
        official_phrase: give(phrase, OFFICIAL_PHRASE_BOOST),
        title_match: title.0,
        title_similarity: title.1,
        artist_match: artist.0,
        artist_similarity: artist.1,
        duration,
        fan_upload: 0,
        view_count: 0,
        lyrics: give(s.lyrics, LYRICS_PENALTY),
        reaction: give(s.reaction, REACTION_PENALTY),
        remix: give(s.remix, REMIX_PENALTY),
        live: give(s.live, LIVE_PENALTY),
        spam: score_spam(s),
        instrumental: give(s.instrumental, INSTRUMENTAL_PENALTY),
        karaoke: give(s.karaoke, KARAOKE_PENALTY),
        cover: give(s.cover, COVER_PENALTY),
        type_beat: give(s.type_beat, TYPE_BEAT_PENALTY),
        compilation: give(s.compilation, COMPILATION_PENALTY),
    }
}

/// Scores one candidate against a query and names what was noticed.
pub fn score_candidate(pq: &ParsedQuery, c: &YtCandidate) -> (r: (ScoreBreakdown, Vec<String>))
    ensures
        r.0 == score_of(pq@, *c),
        texts(r.1@) == flags_of(pq@, *c),
        r.0.balanced(),
        0 <= r.0.title_similarity <= 100,
        0 <= r.0.artist_similarity <= 30,
        -1000 <= r.0.total <= 500,
{
    let plain = normalize(c.title.as_str());
    let title_tokens = tokenize(plain.as_str());
    let query_tokens = take_long_words(pq.title.as_str());
    let artist_tokens = match &pq.artist {
        Some(a) => take_long_words(a.as_str()),
        None => Vec::new(),
    };
    assert(pq.artist is None ==> texts(artist_tokens@) =~= Seq::<Seq<char>>::empty());
    assert(query_tokens@.len() == texts(query_tokens@).len());
    let official = official_channel(c.uploader.as_str());
    let phrase = official_phrase(c.title.as_str());
    let title = score_title(pq, c, &query_tokens, &artist_tokens);
    let artist = score_artist(pq, c, &artist_tokens, &title_tokens, query_tokens.len() > 0);
    let s = detect_signals(pq.raw.as_str(), c.title.as_str(), &title_tokens);
    let fields = fill_fields(
        official,
        phrase,
        title,
        (artist.penalty, artist.similarity),
        score_duration(c.duration_secs),
        s,
    );
    let b = sum_up(fields);

    let secs = c.duration_secs;
    let long = (Real64 { bits: LONG_SONG_SECS }).less(secs);
    let short = (Real64 { bits: 0 }).less(secs) && secs.less(Real64 { bits: VERY_SHORT_SECS });
    let mut flags: Vec<String> = Vec::new();
    assert(texts(flags@) =~= Seq::<Seq<char>>::empty());
    add_badge(&mut flags, official, "official");
    add_badge(&mut flags, phrase && !official, "official-upload");
    add_badge(&mut flags, artist.mismatch, "artist-mismatch");
    add_badge(&mut flags, long, "long");
    add_badge(&mut flags, short, "short");
    add_signal_flags(&mut flags, s);
    (b, flags)
}

} // verus!
