//! What the score of a candidate says about its title, its uploader and its
//! length: one law for each kind of evidence.
//!
//! The laws speak of the words and phrases themselves. In them, a text holds a
//! phrase where the phrase stands in it once letters are in lower case, and a
//! word of a title is one of its tokens.

use vstd::arithmetic::power2::pow2;
use vstd::multiset::Multiset;
use vstd::prelude::*;

use crate::matching::{
    best_similarity, common_tokens, lemma_common_bound, lemma_similarity_bound,
    lemma_token_similarity_one, normalized, outside_brackets, similarity, token_similarity, tokens,
};
use crate::model::YtCandidate;
use crate::real64::{
    lemma_floor_product_at_most, lemma_floor_product_ends, lemma_floor_product_near,
    lemma_floor_product_ordered, lemma_nearest_fits, lemma_nearest_ordered, lemma_nearest_zero,
    lemma_scales, lemma_share_in_parts, nearest, scaled, Real64, ONE_BITS,
};
use crate::scoring::{
    all_within, artist_closeness, artist_match_points, artist_mismatch, artist_similarity_points,
    best_word_match, duration_points, fields_from, flags_of, has_official_phrase, is_long,
    is_official_channel, is_short, long_among, long_words, score_of, signals_of, summed,
    title_match_points, title_similarity_points, with_badge, with_signal_flags, ScoreBreakdown,
    Signals,
};
use crate::text::{ascii_lower, contains_text, words};
use crate::youtube::QueryView;

verus! {

/// The lengths of the badge names, and a character by which names of equal
/// length differ: no two badges have the same name.
pub proof fn lemma_badge_names()
    ensures
        "official"@.len() == 8 && "reaction"@.len() == 8,
        "official"@[0] == 'o' && "reaction"@[0] == 'r',
        "official-upload"@.len() == 15 && "artist-mismatch"@.len() == 15,
        "official-upload"@[0] == 'o' && "artist-mismatch"@[0] == 'a',
        "long"@.len() == 4 && "live"@.len() == 4,
        "long"@[1] == 'o' && "live"@[1] == 'i',
        "short"@.len() == 5 && "remix"@.len() == 5 && "cover"@.len() == 5,
        "short"@[0] == 's' && "remix"@[0] == 'r' && "cover"@[0] == 'c',
        "lyrics"@.len() == 6 && "slowed"@.len() == 6 && "reverb"@.len() == 6,
        "lyrics"@[0] == 'l' && "slowed"@[0] == 's' && "reverb"@[0] == 'r',
        "nightcore"@.len() == 9 && "type-beat"@.len() == 9,
        "nightcore"@[0] == 'n' && "type-beat"@[0] == 't',
        "bass-boosted"@.len() == 12 && "instrumental"@.len() == 12,
        "bass-boosted"@[0] == 'b' && "instrumental"@[0] == 'i',
        "karaoke"@.len() == 7,
        "compilation"@.len() == 11,
        "fan-upload"@.len() == 10,
{
    reveal_strlit("official");
    reveal_strlit("reaction");
    reveal_strlit("official-upload");
    reveal_strlit("artist-mismatch");
    reveal_strlit("long");
    reveal_strlit("live");
    reveal_strlit("short");
    reveal_strlit("remix");
    reveal_strlit("cover");
    reveal_strlit("lyrics");
    reveal_strlit("slowed");
    reveal_strlit("reverb");
    reveal_strlit("nightcore");
    reveal_strlit("type-beat");
    reveal_strlit("bass-boosted");
    reveal_strlit("instrumental");
    reveal_strlit("karaoke");
    reveal_strlit("compilation");
    reveal_strlit("fan-upload");
}

proof fn lemma_with_badge(list: Seq<Seq<char>>, on: bool, name: Seq<char>, x: Seq<char>)
    ensures
        with_badge(list, on, name).contains(x) <==> list.contains(x) || (on && x == name),
{
    let r = with_badge(list, on, name);
    if on {
        assert(r[list.len() as int] == name);
        if list.contains(x) {
            let i = choose|i: int| 0 <= i < list.len() && list[i] == x;
            assert(r[i] == x);
        }
        if r.contains(x) && x != name {
            let i = choose|i: int| 0 <= i < r.len() && r[i] == x;
            assert(list[i] == x);
        }
    }
}

/// Which badges the signals of a title add to a list.
proof fn lemma_signal_flags(list: Seq<Seq<char>>, s: Signals, x: Seq<char>)
    ensures
        with_signal_flags(list, s).contains(x) <==> {
            ||| list.contains(x)
            ||| s.lyrics && x == "lyrics"@
            ||| s.reaction && x == "reaction"@
            ||| s.remix && x == "remix"@
            ||| s.live && x == "live"@
            ||| s.nightcore && x == "nightcore"@
            ||| s.bass_boosted && x == "bass-boosted"@
            ||| s.slowed && x == "slowed"@
            ||| s.reverb && x == "reverb"@
            ||| s.instrumental && x == "instrumental"@
            ||| s.karaoke && x == "karaoke"@
            ||| s.cover && x == "cover"@
            ||| s.type_beat && x == "type-beat"@
            ||| s.compilation && x == "compilation"@
        },
{
    let l0 = list;
    let l1 = with_badge(l0, s.lyrics, "lyrics"@);
    let l2 = with_badge(l1, s.reaction, "reaction"@);
    let l3 = with_badge(l2, s.remix, "remix"@);
    let l4 = with_badge(l3, s.live, "live"@);
    let l5 = with_badge(l4, s.nightcore, "nightcore"@);
    let l6 = with_badge(l5, s.bass_boosted, "bass-boosted"@);
    let l7 = with_badge(l6, s.slowed, "slowed"@);
    let l8 = with_badge(l7, s.reverb, "reverb"@);
    let l9 = with_badge(l8, s.instrumental, "instrumental"@);
    let l10 = with_badge(l9, s.karaoke, "karaoke"@);
    let l11 = with_badge(l10, s.cover, "cover"@);
    let l12 = with_badge(l11, s.type_beat, "type-beat"@);
    let l13 = with_badge(l12, s.compilation, "compilation"@);
    assert(with_signal_flags(list, s) == l13);
    lemma_with_badge(l0, s.lyrics, "lyrics"@, x);
    lemma_with_badge(l1, s.reaction, "reaction"@, x);
    lemma_with_badge(l2, s.remix, "remix"@, x);
    lemma_with_badge(l3, s.live, "live"@, x);
    lemma_with_badge(l4, s.nightcore, "nightcore"@, x);
    lemma_with_badge(l5, s.bass_boosted, "bass-boosted"@, x);
    lemma_with_badge(l6, s.slowed, "slowed"@, x);
    lemma_with_badge(l7, s.reverb, "reverb"@, x);
    lemma_with_badge(l8, s.instrumental, "instrumental"@, x);
    lemma_with_badge(l9, s.karaoke, "karaoke"@, x);
    lemma_with_badge(l10, s.cover, "cover"@, x);
    lemma_with_badge(l11, s.type_beat, "type-beat"@, x);
    lemma_with_badge(l12, s.compilation, "compilation"@, x);
}

/// Which badges a candidate has, by the badge's name.
proof fn lemma_flag(q: QueryView, c: YtCandidate, x: Seq<char>)
    ensures
        ({
            let s = signals_of(q.raw, c.title@);
            flags_of(q, c).contains(x) <==> {
                ||| is_official_channel(c.uploader@) && x == "official"@
                ||| has_official_phrase(c.title@) && !is_official_channel(c.uploader@) && x
                    == "official-upload"@
                ||| artist_mismatch(q, c.uploader@, c.title@) && x == "artist-mismatch"@
                ||| is_long(c.duration_secs) && x == "long"@
                ||| is_short(c.duration_secs) && x == "short"@
                ||| s.lyrics && x == "lyrics"@
                ||| s.reaction && x == "reaction"@
                ||| s.remix && x == "remix"@
                ||| s.live && x == "live"@
                ||| s.nightcore && x == "nightcore"@
                ||| s.bass_boosted && x == "bass-boosted"@
                ||| s.slowed && x == "slowed"@
                ||| s.reverb && x == "reverb"@
                ||| s.instrumental && x == "instrumental"@
                ||| s.karaoke && x == "karaoke"@
                ||| s.cover && x == "cover"@
                ||| s.type_beat && x == "type-beat"@
                ||| s.compilation && x == "compilation"@
            }
        }),
{
    let official = is_official_channel(c.uploader@);
    let phrase = has_official_phrase(c.title@);
    let wrong = artist_mismatch(q, c.uploader@, c.title@);
    let l0 = Seq::<Seq<char>>::empty();
    let l1 = with_badge(l0, official, "official"@);
    let l2 = with_badge(l1, phrase && !official, "official-upload"@);
    let l3 = with_badge(l2, wrong, "artist-mismatch"@);
    let l4 = with_badge(l3, is_long(c.duration_secs), "long"@);
    let l5 = with_badge(l4, is_short(c.duration_secs), "short"@);
    lemma_with_badge(l0, official, "official"@, x);
    lemma_with_badge(l1, phrase && !official, "official-upload"@, x);
    lemma_with_badge(l2, wrong, "artist-mismatch"@, x);
    lemma_with_badge(l3, is_long(c.duration_secs), "long"@, x);
    lemma_with_badge(l4, is_short(c.duration_secs), "short"@, x);
    lemma_signal_flags(l5, signals_of(q.raw, c.title@), x);
}

/// A title that holds "lyric" costs forty points and carries the badge
/// "lyrics", unless the query holds "lyric" too.
pub proof fn lemma_lyrics_video(q: QueryView, c: YtCandidate)
    ensures
        contains_text(ascii_lower(q.raw), "lyric"@) ==> score_of(q, c).lyrics == 0 && !flags_of(q, c).contains(
            "lyrics"@,
        ),
        !contains_text(ascii_lower(q.raw), "lyric"@) && contains_text(ascii_lower(c.title@), "lyric"@) ==> score_of(q, c).lyrics == -40
            && flags_of(q, c).contains("lyrics"@),
        !contains_text(ascii_lower(c.title@), "lyric"@) ==> score_of(q, c).lyrics == 0
            && !flags_of(q, c).contains("lyrics"@),
{
    lemma_badge_names();
    lemma_flag(q, c, "lyrics"@);
}

/// A reaction or a first listen costs ninety points and carries the badge
/// "reaction", unless the query holds "reaction".
pub proof fn lemma_reaction(q: QueryView, c: YtCandidate)
    ensures
        contains_text(ascii_lower(q.raw), "reaction"@) ==> score_of(q, c).reaction == 0 && !flags_of(q, c).contains(
            "reaction"@,
        ),
        !contains_text(ascii_lower(q.raw), "reaction"@) && contains_text(ascii_lower(c.title@), "reaction"@) ==> score_of(q, c).reaction == -90
            && flags_of(q, c).contains("reaction"@),
        !contains_text(ascii_lower(q.raw), "reaction"@) && contains_text(ascii_lower(c.title@), "first listen"@) ==> score_of(q, c).reaction == -90
            && flags_of(q, c).contains("reaction"@),
        !contains_text(ascii_lower(q.raw), "reaction"@) && tokens(normalized(c.title@)).contains("reacts"@) ==> score_of(q, c).reaction == -90
            && flags_of(q, c).contains("reaction"@),
        !contains_text(ascii_lower(q.raw), "reaction"@) && tokens(normalized(c.title@)).contains("reacting"@) ==> score_of(q, c).reaction == -90
            && flags_of(q, c).contains("reaction"@),
        !contains_text(ascii_lower(c.title@), "reaction"@) && !contains_text(ascii_lower(c.title@), "first listen"@) && !tokens(normalized(c.title@)).contains("reacts"@) && !tokens(normalized(c.title@)).contains("reacting"@) ==> score_of(q, c).reaction == 0
            && !flags_of(q, c).contains("reaction"@),
{
    lemma_badge_names();
    lemma_flag(q, c, "reaction"@);
}

/// A remix, an edit or a mashup costs fifty points and carries the badge
/// "remix", unless the query holds "remix".
pub proof fn lemma_remix(q: QueryView, c: YtCandidate)
    ensures
        contains_text(ascii_lower(q.raw), "remix"@) ==> score_of(q, c).remix == 0 && !flags_of(q, c).contains(
            "remix"@,
        ),
        !contains_text(ascii_lower(q.raw), "remix"@) && contains_text(ascii_lower(c.title@), "mashup"@) ==> score_of(q, c).remix == -50
            && flags_of(q, c).contains("remix"@),
        !contains_text(ascii_lower(q.raw), "remix"@) && tokens(normalized(c.title@)).contains("remix"@) ==> score_of(q, c).remix == -50
            && flags_of(q, c).contains("remix"@),
        !contains_text(ascii_lower(q.raw), "remix"@) && tokens(normalized(c.title@)).contains("edit"@) ==> score_of(q, c).remix == -50
            && flags_of(q, c).contains("remix"@),
        !contains_text(ascii_lower(c.title@), "mashup"@) && !tokens(normalized(c.title@)).contains("remix"@) && !tokens(normalized(c.title@)).contains("edit"@) ==> score_of(q, c).remix == 0
            && !flags_of(q, c).contains("remix"@),
{
    lemma_badge_names();
    lemma_flag(q, c, "remix"@);
}

/// A live recording or a concert costs forty points and carries the badge
/// "live", unless the query holds "live".
pub proof fn lemma_live_recording(q: QueryView, c: YtCandidate)
    ensures
        contains_text(ascii_lower(q.raw), "live"@) ==> score_of(q, c).live == 0 && !flags_of(q, c).contains(
            "live"@,
        ),
        !contains_text(ascii_lower(q.raw), "live"@) && tokens(normalized(c.title@)).contains("live"@) ==> score_of(q, c).live == -40
            && flags_of(q, c).contains("live"@),
        !contains_text(ascii_lower(q.raw), "live"@) && tokens(normalized(c.title@)).contains("concert"@) ==> score_of(q, c).live == -40
            && flags_of(q, c).contains("live"@),
        !tokens(normalized(c.title@)).contains("live"@) && !tokens(normalized(c.title@)).contains("concert"@) ==> score_of(q, c).live == 0
            && !flags_of(q, c).contains("live"@),
{
    lemma_badge_names();
    lemma_flag(q, c, "live"@);
}

/// An instrumental costs sixty points and carries the badge "instrumental",
/// unless the query holds that word.
pub proof fn lemma_instrumental(q: QueryView, c: YtCandidate)
    ensures
        contains_text(ascii_lower(q.raw), "instrumental"@) ==> score_of(q, c).instrumental == 0 && !flags_of(q, c).contains(
            "instrumental"@,
        ),
        !contains_text(ascii_lower(q.raw), "instrumental"@) && tokens(normalized(c.title@)).contains("instrumental"@) ==> score_of(q, c).instrumental == -60
            && flags_of(q, c).contains("instrumental"@),
        !tokens(normalized(c.title@)).contains("instrumental"@) ==> score_of(q, c).instrumental == 0
            && !flags_of(q, c).contains("instrumental"@),
{
    lemma_badge_names();
    lemma_flag(q, c, "instrumental"@);
}

/// Karaoke costs sixty points and carries its badge, whatever the query.
pub proof fn lemma_karaoke(q: QueryView, c: YtCandidate)
    ensures
        tokens(normalized(c.title@)).contains("karaoke"@) ==> score_of(q, c).karaoke == -60
            && flags_of(q, c).contains("karaoke"@),
        !tokens(normalized(c.title@)).contains("karaoke"@) ==> score_of(q, c).karaoke == 0
            && !flags_of(q, c).contains("karaoke"@),
{
    lemma_badge_names();
    lemma_flag(q, c, "karaoke"@);
}

/// A cover costs sixty points and carries its badge, unless the query holds
/// "cover".
pub proof fn lemma_cover(q: QueryView, c: YtCandidate)
    ensures
        contains_text(ascii_lower(q.raw), "cover"@) ==> score_of(q, c).cover == 0 && !flags_of(q, c).contains(
            "cover"@,
        ),
        !contains_text(ascii_lower(q.raw), "cover"@) && tokens(normalized(c.title@)).contains("cover"@) ==> score_of(q, c).cover == -60
            && flags_of(q, c).contains("cover"@),
        !contains_text(ascii_lower(q.raw), "cover"@) && tokens(normalized(c.title@)).contains("covers"@) ==> score_of(q, c).cover == -60
            && flags_of(q, c).contains("cover"@),
        !tokens(normalized(c.title@)).contains("cover"@) && !tokens(normalized(c.title@)).contains("covers"@) ==> score_of(q, c).cover == 0
            && !flags_of(q, c).contains("cover"@),
{
    lemma_badge_names();
    lemma_flag(q, c, "cover"@);
}

/// A type beat costs fifty points and carries its badge, unless the query
/// holds "type beat" in either spelling.
pub proof fn lemma_type_beat(q: QueryView, c: YtCandidate)
    ensures
        contains_text(ascii_lower(q.raw), "type beat"@) ==> score_of(q, c).type_beat == 0 && !flags_of(q, c).contains(
            "type-beat"@,
        ),
        contains_text(ascii_lower(q.raw), "type-beat"@) ==> score_of(q, c).type_beat == 0 && !flags_of(q, c).contains(
            "type-beat"@,
        ),
        !contains_text(ascii_lower(q.raw), "type beat"@) && !contains_text(ascii_lower(q.raw), "type-beat"@) && contains_text(ascii_lower(c.title@), "type beat"@) ==> score_of(q, c).type_beat == -50
            && flags_of(q, c).contains("type-beat"@),
        !contains_text(ascii_lower(q.raw), "type beat"@) && !contains_text(ascii_lower(q.raw), "type-beat"@) && contains_text(ascii_lower(c.title@), "type-beat"@) ==> score_of(q, c).type_beat == -50
            && flags_of(q, c).contains("type-beat"@),
        !contains_text(ascii_lower(c.title@), "type beat"@) && !contains_text(ascii_lower(c.title@), "type-beat"@) ==> score_of(q, c).type_beat == 0
            && !flags_of(q, c).contains("type-beat"@),
{
    lemma_badge_names();
    lemma_flag(q, c, "type-beat"@);
}

/// A collection of songs costs forty-five points and carries the badge
/// "compilation", unless the query holds that word.
pub proof fn lemma_compilation(q: QueryView, c: YtCandidate)
    ensures
        contains_text(ascii_lower(q.raw), "compilation"@) ==> score_of(q, c).compilation == 0 && !flags_of(q, c).contains(
            "compilation"@,
        ),
        !contains_text(ascii_lower(q.raw), "compilation"@) && contains_text(ascii_lower(c.title@), "compilation"@) ==> score_of(q, c).compilation == -45
            && flags_of(q, c).contains("compilation"@),
        !contains_text(ascii_lower(q.raw), "compilation"@) && contains_text(ascii_lower(c.title@), "best of"@) ==> score_of(q, c).compilation == -45
            && flags_of(q, c).contains("compilation"@),
        !contains_text(ascii_lower(q.raw), "compilation"@) && contains_text(ascii_lower(c.title@), "greatest hits"@) ==> score_of(q, c).compilation == -45
            && flags_of(q, c).contains("compilation"@),
        !contains_text(ascii_lower(c.title@), "compilation"@) && !contains_text(ascii_lower(c.title@), "best of"@) && !contains_text(ascii_lower(c.title@), "greatest hits"@) ==> score_of(q, c).compilation == 0
            && !flags_of(q, c).contains("compilation"@),
{
    lemma_badge_names();
    lemma_flag(q, c, "compilation"@);
}

/// Each spam genre that a title shows costs eighty points, whatever the query,
/// and carries its own badge: nightcore, bass boosted, slowed or sped up, and
/// reverb.
pub proof fn lemma_spam_genres(q: QueryView, c: YtCandidate)
    ensures
        score_of(q, c).spam == -80 * ((if flags_of(q, c).contains("nightcore"@) {
            1int
        } else {
            0
        }) + (if flags_of(q, c).contains("bass-boosted"@) {
            1int
        } else {
            0
        }) + (if flags_of(q, c).contains("slowed"@) {
            1int
        } else {
            0
        }) + (if flags_of(q, c).contains("reverb"@) {
            1int
        } else {
            0
        })),
        flags_of(q, c).contains("nightcore"@) <==> contains_text(
            ascii_lower(c.title@),
            "nightcore"@,
        ),
        flags_of(q, c).contains("bass-boosted"@) <==> contains_text(
            ascii_lower(c.title@),
            "bass boosted"@,
        ) || tokens(normalized(c.title@)).contains("bass-boosted"@) || tokens(
            normalized(c.title@),
        ).contains("bassboosted"@),
        flags_of(q, c).contains("slowed"@) <==> tokens(normalized(c.title@)).contains("slowed"@)
            || tokens(normalized(c.title@)).contains("slowed+reverb"@) || tokens(
            normalized(c.title@),
        ).contains("sped"@),
        flags_of(q, c).contains("reverb"@) <==> tokens(normalized(c.title@)).contains("reverb"@),
{
    lemma_badge_names();
    lemma_flag(q, c, "nightcore"@);
    lemma_flag(q, c, "bass-boosted"@);
    lemma_flag(q, c, "slowed"@);
    lemma_flag(q, c, "reverb"@);
}

/// An uploader that holds one of the four marks of an official channel earns a
/// hundred points and the badge "official"; no other uploader does. A title
/// that calls itself official earns thirty points, and the badge
/// "official-upload" where the channel is not official.
pub proof fn lemma_official_points(q: QueryView, c: YtCandidate)
    ensures
        contains_text(ascii_lower(c.uploader@), "vevo"@) || contains_text(
            ascii_lower(c.uploader@),
            " - topic"@,
        ) || contains_text(ascii_lower(c.uploader@), "(official)"@) || contains_text(
            ascii_lower(c.uploader@),
            "official artist channel"@,
        ) ==> score_of(q, c).official_channel == 100 && flags_of(q, c).contains("official"@)
            && !flags_of(q, c).contains("official-upload"@),
        !contains_text(ascii_lower(c.uploader@), "vevo"@) && !contains_text(
            ascii_lower(c.uploader@),
            " - topic"@,
        ) && !contains_text(ascii_lower(c.uploader@), "(official)"@) && !contains_text(
            ascii_lower(c.uploader@),
            "official artist channel"@,
        ) ==> score_of(q, c).official_channel == 0 && !flags_of(q, c).contains("official"@) && (
        flags_of(q, c).contains("official-upload"@) <==> score_of(q, c).official_phrase == 30),
        contains_text(ascii_lower(c.title@), "official music video"@) || contains_text(
            ascii_lower(c.title@),
            "official video"@,
        ) || contains_text(ascii_lower(c.title@), "official audio"@) ==> score_of(
            q,
            c,
        ).official_phrase == 30,
        !contains_text(ascii_lower(c.title@), "official music video"@) && !contains_text(
            ascii_lower(c.title@),
            "official video"@,
        ) && !contains_text(ascii_lower(c.title@), "official audio"@) ==> score_of(
            q,
            c,
        ).official_phrase == 0,
{
    lemma_badge_names();
    lemma_flag(q, c, "official"@);
    lemma_flag(q, c, "official-upload"@);
}

/// The points for a length, by the bit pattern of the seconds: unknown, under
/// one minute, under two, up to four, up to six, up to eight, and longer. Only
/// what is known and under a minute carries the badge "short", and only what is
/// over eight minutes the badge "long".
pub proof fn lemma_duration_bands(q: QueryView, c: YtCandidate)
    ensures
        ({
            let secs = c.duration_secs.bits;
            let points = score_of(q, c).duration;
            &&& (secs == 0 || 0x8000_0000_0000_0000 <= secs <= 0xFFF0_0000_0000_0000) ==> points
                == -5
            &&& 0 < secs < 0x404E_0000_0000_0000 ==> points == -15
            &&& 0x404E_0000_0000_0000 <= secs < 0x405E_0000_0000_0000 ==> points == 0
            &&& 0x405E_0000_0000_0000 <= secs <= 0x406E_0000_0000_0000 ==> points == 20
            &&& 0x406E_0000_0000_0000 < secs <= 0x4076_8000_0000_0000 ==> points == 10
            &&& 0x4076_8000_0000_0000 < secs <= 0x407E_0000_0000_0000 ==> points == 5
            &&& 0x407E_0000_0000_0000 < secs <= 0x7FF0_0000_0000_0000 ==> points == -30
            &&& flags_of(q, c).contains("short"@) <==> 0 < secs < 0x404E_0000_0000_0000
            &&& flags_of(q, c).contains("long"@) <==> 0x407E_0000_0000_0000 < secs
                <= 0x7FF0_0000_0000_0000
        }),
{
    lemma_badge_names();
    lemma_flag(q, c, "short"@);
    lemma_flag(q, c, "long"@);
}

/// The longer words of a text are its words of more than two characters, in
/// lower case and in their order.
pub proof fn lemma_long_words(s: Seq<char>)
    ensures
        long_words(s) == words(s).filter(|w: Seq<char>| w.len() > 2).map_values(
            |w: Seq<char>| ascii_lower(w),
        ),
{
    lemma_long_filter(words(s));
}

proof fn lemma_long_filter(ws: Seq<Seq<char>>)
    ensures
        long_among(ws) == ws.filter(|w: Seq<char>| w.len() > 2).map_values(
            |w: Seq<char>| ascii_lower(w),
        ),
    decreases ws.len(),
{
    reveal(Seq::filter);
    let p = |w: Seq<char>| w.len() > 2;
    let f = |w: Seq<char>| ascii_lower(w);
    if ws.len() > 0 {
        lemma_long_filter(ws.drop_last());
        let before = ws.drop_last().filter(p);
        if ws.last().len() > 2 {
            assert(ws.filter(p) == before.push(ws.last()));
            assert(before.push(ws.last()).map_values(f) =~= before.map_values(f).push(
                ascii_lower(ws.last()),
            ));
        }
    }
    assert(long_among(ws) =~= ws.filter(p).map_values(f));
}

proof fn lemma_long_among(ws: Seq<Seq<char>>, x: Seq<char>)
    ensures
        long_among(ws).contains(x) <==> exists|i: int|
            0 <= i < ws.len() && (#[trigger] ws[i]).len() > 2 && ascii_lower(ws[i]) == x,
    decreases ws.len(),
{
    if ws.len() > 0 {
        let head = ws.drop_last();
        lemma_long_among(head, x);
        let rest = long_among(head);
        if rest.contains(x) {
            let i = choose|i: int|
                0 <= i < head.len() && (#[trigger] head[i]).len() > 2 && ascii_lower(head[i]) == x;
            assert(ws[i] == head[i]);
            let k = choose|k: int| 0 <= k < rest.len() && rest[k] == x;
            assert(long_among(ws)[k] == x);
        }
        if ws.last().len() > 2 {
            assert(long_among(ws)[rest.len() as int] == ascii_lower(ws.last()));
        }
        if long_among(ws).contains(x) {
            let k = choose|k: int| 0 <= k < long_among(ws).len() && long_among(ws)[k] == x;
            if k < rest.len() {
                assert(rest[k] == x);
            } else {
                assert(ws[ws.len() - 1].len() > 2);
            }
        }
        if exists|i: int|
            0 <= i < ws.len() && (#[trigger] ws[i]).len() > 2 && ascii_lower(ws[i]) == x {
            let i = choose|i: int|
                0 <= i < ws.len() && (#[trigger] ws[i]).len() > 2 && ascii_lower(ws[i]) == x;
            if i < head.len() {
                assert(head[i] == ws[i]);
            }
        }
    }
}

proof fn lemma_long_words_within(s: Seq<char>, toks: Seq<Seq<char>>)
    ensures
        long_words(s).len() > 0 <==> exists|i: int|
            0 <= i < words(s).len() && (#[trigger] words(s)[i]).len() > 2,
        all_within(long_words(s), toks) <==> forall|i: int|
            0 <= i < words(s).len() && (#[trigger] words(s)[i]).len() > 2 ==> toks.contains(
                ascii_lower(words(s)[i]),
            ),
{
    let l = long_words(s);
    let ws = words(s);
    if l.len() > 0 {
        lemma_long_among(ws, l[0]);
        assert(l.contains(l[0]));
    }
    if exists|i: int| 0 <= i < ws.len() && (#[trigger] ws[i]).len() > 2 {
        let i = choose|i: int| 0 <= i < ws.len() && (#[trigger] ws[i]).len() > 2;
        lemma_long_among(ws, ascii_lower(ws[i]));
    }
    if all_within(l, toks) {
        assert forall|i: int| 0 <= i < ws.len() && (#[trigger] ws[i]).len() > 2 implies toks.contains(
            ascii_lower(ws[i]),
        ) by {
            lemma_long_among(ws, ascii_lower(ws[i]));
            let k = choose|k: int| 0 <= k < l.len() && l[k] == ascii_lower(ws[i]);
            assert(toks.contains(l[k]));
        }
    }
    if forall|i: int|
        0 <= i < ws.len() && (#[trigger] ws[i]).len() > 2 ==> toks.contains(ascii_lower(ws[i])) {
        assert forall|k: int| 0 <= k < l.len() implies toks.contains(#[trigger] l[k]) by {
            lemma_long_among(ws, l[k]);
            assert(l.contains(l[k]));
        }
    }
}

/// Every word of `s` that is longer than two characters stands among `toks`,
/// and there is such a word.
pub open spec fn long_words_found(s: Seq<char>, toks: Seq<Seq<char>>) -> bool {
    &&& exists|i: int| 0 <= i < words(s).len() && (#[trigger] words(s)[i]).len() > 2
    &&& forall|i: int|
        0 <= i < words(s).len() && (#[trigger] words(s)[i]).len() > 2 ==> toks.contains(
            ascii_lower(words(s)[i]),
        )
}

/// The title earns forty points where the longer words of the wanted title are
/// all among its own, outside brackets, and forty where those of the wanted
/// artist are.
pub proof fn lemma_title_words(q: QueryView, c: YtCandidate)
    ensures
        ({
            let own = tokens(outside_brackets(ascii_lower(c.title@)));
            let by_artist = q.artist is Some && long_words_found(q.artist->0, own);
            &&& long_words_found(q.title, own) && by_artist ==> score_of(q, c).title_match == 80
            &&& long_words_found(q.title, own) != by_artist ==> score_of(q, c).title_match == 40
            &&& !long_words_found(q.title, own) && !by_artist ==> score_of(q, c).title_match == 0
        }),
{
    let own = tokens(outside_brackets(ascii_lower(c.title@)));
    lemma_long_words_within(q.title, own);
    if q.artist is Some {
        lemma_long_words_within(q.artist->0, own);
    }
}

/// Two numbers that are at most one and not negative: the greater pattern is
/// the greater number.
proof fn lemma_greater(a: Real64, b: Real64)
    requires
        a.bits <= ONE_BITS,
        b.bits <= ONE_BITS,
    ensures
        a.spec_max(b).bits == if a.bits < b.bits {
            b.bits
        } else {
            a.bits
        },
{
}

/// The best similarity of a word is its similarity to some token, and no token
/// comes closer; without tokens it is zero.
pub proof fn lemma_best_similarity(word: Seq<char>, toks: Seq<Seq<char>>)
    ensures
        best_similarity(word, toks).bits <= 0x3FF0_0000_0000_0000,
        forall|j: int|
            0 <= j < toks.len() ==> similarity(word, #[trigger] toks[j]).bits <= best_similarity(
                word,
                toks,
            ).bits,
        best_similarity(word, toks).bits > 0 ==> exists|j: int|
            0 <= j < toks.len() && similarity(word, #[trigger] toks[j]).bits == best_similarity(
                word,
                toks,
            ).bits,
    decreases toks.len(),
{
    if toks.len() > 0 {
        let head = toks.drop_last();
        lemma_best_similarity(word, head);
        lemma_similarity_bound(word, toks.last());
        let before = best_similarity(word, head);
        let last = similarity(word, toks.last());
        let all = best_similarity(word, toks);
        lemma_greater(before, last);
        assert forall|j: int| 0 <= j < toks.len() implies similarity(word, #[trigger] toks[j]).bits
            <= all.bits by {
            if j < head.len() {
                assert(head[j] == toks[j]);
            }
        }
        if all.bits > 0 {
            if before.bits < last.bits {
                assert(similarity(word, toks[toks.len() - 1]).bits == all.bits);
            } else {
                let j = choose|j: int|
                    0 <= j < head.len() && similarity(word, #[trigger] head[j]).bits == before.bits;
                assert(toks[j] == head[j]);
            }
        }
    }
}

proof fn lemma_best_word_match(
    ws: Seq<Seq<char>>,
    ups: Seq<Seq<char>>,
    all: Seq<Seq<char>>,
)
    ensures
        best_word_match(ws, ups, all).bits <= ONE_BITS,
        forall|i: int|
            0 <= i < ws.len() ==> best_similarity(ascii_lower(#[trigger] ws[i]), ups).bits
                <= best_word_match(ws, ups, all).bits && best_similarity(
                ascii_lower(ws[i]),
                all,
            ).bits <= best_word_match(ws, ups, all).bits,
        best_word_match(ws, ups, all).bits > 0 ==> exists|i: int|
            0 <= i < ws.len() && (best_similarity(ascii_lower(#[trigger] ws[i]), ups).bits
                == best_word_match(ws, ups, all).bits || best_similarity(
                ascii_lower(ws[i]),
                all,
            ).bits == best_word_match(ws, ups, all).bits),
    decreases ws.len(),
{
    if ws.len() > 0 {
        let head = ws.drop_last();
        lemma_best_word_match(head, ups, all);
        let w = ascii_lower(ws.last());
        lemma_best_similarity(w, ups);
        lemma_best_similarity(w, all);
        let u = best_similarity(w, ups);
        let t = best_similarity(w, all);
        let before = best_word_match(head, ups, all);
        lemma_greater(u, t);
        lemma_greater(before, u.spec_max(t));
        let r = best_word_match(ws, ups, all);
        assert(ws[ws.len() - 1] == ws.last());
        assert forall|i: int| 0 <= i < ws.len() implies best_similarity(
            ascii_lower(#[trigger] ws[i]),
            ups,
        ).bits <= r.bits && best_similarity(ascii_lower(ws[i]), all).bits <= r.bits by {
            if i < head.len() {
                assert(head[i] == ws[i]);
            }
        }
        if r.bits > 0 && r.bits == before.bits {
            let i = choose|i: int|
                0 <= i < head.len() && (best_similarity(ascii_lower(#[trigger] head[i]), ups).bits
                    == before.bits || best_similarity(ascii_lower(head[i]), all).bits
                    == before.bits);
            assert(ws[i] == head[i]);
        }
    }
}

proof fn lemma_token_similarity_bits(a: Seq<Seq<char>>, b: Seq<Seq<char>>)
    ensures
        token_similarity(a, b).bits <= ONE_BITS,
        a.len() > 0 && b.len() > 0 ==> token_similarity(a, b).bits == nearest(
            common_tokens(a, b),
            (a.len() + b.len() - common_tokens(a, b)) as nat,
        ),
{
    if a.len() > 0 && b.len() > 0 {
        lemma_common_bound(a, b);
        lemma_nearest_fits(
            common_tokens(a, b),
            (a.len() + b.len() - common_tokens(a, b)) as nat,
        );
    }
}

/// How close an artist comes is at most one, at least what any of the compared
/// words and token lists gives, and not more than the best of them.
proof fn lemma_closeness(artist: Seq<char>, uploader: Seq<char>, title: Seq<char>)
    ensures
        ({
            let r = artist_closeness(artist, uploader, title).bits;
            let ups = tokens(normalized(uploader));
            let all = tokens(normalized(title));
            let ws = words(artist);
            &&& r <= ONE_BITS
            &&& token_similarity(long_words(artist), ups).bits <= r
            &&& token_similarity(long_words(artist), all).bits <= r
            &&& best_word_match(ws, ups, all).bits <= r
            &&& r == token_similarity(long_words(artist), ups).bits || r == token_similarity(
                long_words(artist),
                all,
            ).bits || r == best_word_match(ws, ups, all).bits
        }),
{
    let ups = tokens(normalized(uploader));
    let all = tokens(normalized(title));
    let a = token_similarity(long_words(artist), ups);
    let b = token_similarity(long_words(artist), all);
    let w = best_word_match(words(artist), ups, all);
    lemma_token_similarity_bits(long_words(artist), ups);
    lemma_token_similarity_bits(long_words(artist), all);
    lemma_best_word_match(words(artist), ups, all);
    lemma_greater(a, b);
    lemma_greater(a.spec_max(b), w);
}

/// An artist of whom one word stands in the title or in the name of the uploader
/// is a full match: no penalty, no badge, and thirty points.
pub proof fn lemma_artist_found(q: QueryView, c: YtCandidate, i: int)
    requires
        q.artist is Some,
        0 <= i < words(q.artist->0).len(),
        tokens(normalized(c.uploader@)).contains(ascii_lower(words(q.artist->0)[i])) || tokens(
            normalized(c.title@),
        ).contains(ascii_lower(words(q.artist->0)[i])),
    ensures
        score_of(q, c).artist_match == 0,
        score_of(q, c).artist_similarity == 30,
        !flags_of(q, c).contains("artist-mismatch"@),
{
    let a = q.artist->0;
    let w = ascii_lower(words(a)[i]);
    let ups = tokens(normalized(c.uploader@));
    let all = tokens(normalized(c.title@));
    lemma_closeness(a, c.uploader@, c.title@);
    lemma_best_word_match(words(a), ups, all);
    lemma_best_similarity(w, ups);
    lemma_best_similarity(w, all);
    if ups.contains(w) {
        let j = choose|j: int| 0 <= j < ups.len() && ups[j] == w;
        assert(similarity(w, ups[j]).bits == ONE_BITS);
    } else {
        let j = choose|j: int| 0 <= j < all.len() && all[j] == w;
        assert(similarity(w, all[j]).bits == ONE_BITS);
    }
    assert(best_word_match(words(a), ups, all).bits == ONE_BITS);
    if a.len() == 0 {
        assert(words(a).len() == 0);
    }
    lemma_scales();
    lemma_floor_product_ends(30, 0x403E_0000_0000_0000);
    lemma_badge_names();
    lemma_flag(q, c, "artist-mismatch"@);
}

/// A named artist is a mismatch, at sixty points and with a badge, exactly
/// where all comparisons stay below `0.65`: of every word with every word of
/// the uploader and of the title, and of the longer words together with all
/// words of the one and of the other. Otherwise there is no penalty, and no
/// more than thirty points.
pub proof fn lemma_artist_mismatch(q: QueryView, c: YtCandidate)
    requires
        q.artist is Some,
        q.artist->0.len() > 0,
    ensures
        ({
            let near = token_similarity(
                long_words(q.artist->0),
                tokens(normalized(c.uploader@)),
            ).bits >= 0x3FE4_CCCC_CCCC_CCCD || token_similarity(
                long_words(q.artist->0),
                tokens(normalized(c.title@)),
            ).bits >= 0x3FE4_CCCC_CCCC_CCCD || (exists|i: int|
                0 <= i < words(q.artist->0).len() && (best_similarity(
                    ascii_lower(#[trigger] words(q.artist->0)[i]),
                    tokens(normalized(c.uploader@)),
                ).bits >= 0x3FE4_CCCC_CCCC_CCCD || best_similarity(
                    ascii_lower(words(q.artist->0)[i]),
                    tokens(normalized(c.title@)),
                ).bits >= 0x3FE4_CCCC_CCCC_CCCD));
            &&& !near ==> score_of(q, c).artist_match == -60 && score_of(q, c).artist_similarity
                == 0 && flags_of(q, c).contains("artist-mismatch"@)
            &&& near ==> score_of(q, c).artist_match == 0 && 0 <= score_of(q, c).artist_similarity
                <= 30 && !flags_of(q, c).contains("artist-mismatch"@)
        }),
{
    let a = q.artist->0;
    let ups = tokens(normalized(c.uploader@));
    let all = tokens(normalized(c.title@));
    lemma_closeness(a, c.uploader@, c.title@);
    lemma_best_word_match(words(a), ups, all);
    lemma_badge_names();
    lemma_flag(q, c, "artist-mismatch"@);
    lemma_scales();
    lemma_floor_product_at_most(
        artist_closeness(a, c.uploader@, c.title@).bits as nat,
        30,
        0x403E_0000_0000_0000,
    );
}

/// Where no artist is named, there is neither a mismatch nor a similarity, and
/// twenty points are taken where the title has a word longer than two
/// characters to go by.
pub proof fn lemma_no_artist(q: QueryView, c: YtCandidate)
    requires
        q.artist is None || q.artist->0.len() == 0,
    ensures
        score_of(q, c).artist_similarity == 0,
        !flags_of(q, c).contains("artist-mismatch"@),
        q.artist is None && (exists|i: int|
            0 <= i < words(q.title).len() && (#[trigger] words(q.title)[i]).len() > 2) ==> score_of(
            q,
            c,
        ).artist_match == -20,
        q.artist is Some || (forall|i: int|
            0 <= i < words(q.title).len() ==> (#[trigger] words(q.title)[i]).len() <= 2) ==> score_of(
            q,
            c,
        ).artist_match == 0,
{
    lemma_long_words_within(q.title, Seq::empty());
    lemma_badge_names();
    lemma_flag(q, c, "artist-mismatch"@);
}

/// A title whose words outside brackets are the longer words of the wanted
/// title, in any order, is worth a hundred points; one that shares none of them
/// is worth nothing. No title is worth more than a hundred.
pub proof fn lemma_title_similarity_ends(q: QueryView, c: YtCandidate)
    ensures
        ({
            let own = tokens(outside_brackets(ascii_lower(c.title@)));
            let wanted = long_words(q.title);
            &&& 0 <= score_of(q, c).title_similarity <= 100
            &&& own.len() > 0 && wanted.to_multiset() == own.to_multiset() ==> score_of(
                q,
                c,
            ).title_similarity == 100
            &&& (forall|i: int| 0 <= i < wanted.len() ==> !own.contains(#[trigger] wanted[i]))
                ==> score_of(q, c).title_similarity == 0
        }),
{
    let own = tokens(outside_brackets(ascii_lower(c.title@)));
    let wanted = long_words(q.title);
    lemma_scales();
    lemma_floor_product_ends(100, 0x4059_0000_0000_0000);
    lemma_token_similarity_bits(wanted, own);
    lemma_floor_product_at_most(
        token_similarity(wanted, own).bits as nat,
        100,
        0x4059_0000_0000_0000,
    );
    wanted.to_multiset_ensures();
    own.to_multiset_ensures();
    if own.len() > 0 && wanted.to_multiset() == own.to_multiset() {
        lemma_token_similarity_one(wanted, own);
    }
    if forall|i: int| 0 <= i < wanted.len() ==> !own.contains(#[trigger] wanted[i]) {
        lemma_nothing_common(wanted, own);
        if wanted.len() > 0 && own.len() > 0 {
            lemma_nearest_zero((wanted.len() + own.len()) as nat);
        }
    }
}

/// Lists without a common token have a similarity of zero.
proof fn lemma_nothing_common(a: Seq<Seq<char>>, b: Seq<Seq<char>>)
    requires
        forall|i: int| 0 <= i < a.len() ==> !b.contains(#[trigger] a[i]),
    ensures
        common_tokens(a, b) == 0,
{
    broadcast use vstd::multiset::group_multiset_axioms;

    a.to_multiset_ensures();
    b.to_multiset_ensures();
    let m = a.to_multiset().intersection_with(b.to_multiset());
    assert forall|v: Seq<char>| #[trigger] m.count(v) == 0 by {
        vstd::multiset::lemma_intersection_count(a.to_multiset(), b.to_multiset(), v);
        if a.to_multiset().count(v) > 0 && b.to_multiset().count(v) > 0 {
            assert(a.contains(v) && b.contains(v));
        }
    }
    vstd::multiset::lemma_multiset_empty_len(m);
    assert(m =~= Multiset::empty());
}

/// The greater the share of common words, the more points: where one title
/// shares `m` words with the wanted title, out of `n` words of the two
/// together, and another shares no smaller part, the other is worth no fewer
/// points.
pub proof fn lemma_title_similarity_ordered(q: QueryView, c: YtCandidate, d: YtCandidate)
    requires
        ({
            let wanted = long_words(q.title);
            let less = tokens(outside_brackets(ascii_lower(c.title@)));
            let more = tokens(outside_brackets(ascii_lower(d.title@)));
            let m = common_tokens(wanted, less);
            let n = common_tokens(wanted, more);
            &&& wanted.len() > 0
            &&& less.len() > 0
            &&& more.len() > 0
            &&& m * (wanted.len() + more.len() - n) <= n * (wanted.len() + less.len() - m)
        }),
    ensures
        score_of(q, c).title_similarity <= score_of(q, d).title_similarity,
{
    let wanted = long_words(q.title);
    let less = tokens(outside_brackets(ascii_lower(c.title@)));
    let more = tokens(outside_brackets(ascii_lower(d.title@)));
    let m = common_tokens(wanted, less);
    let n = common_tokens(wanted, more);
    lemma_common_bound(wanted, less);
    lemma_common_bound(wanted, more);
    lemma_token_similarity_bits(wanted, less);
    lemma_token_similarity_bits(wanted, more);
    let x = (wanted.len() + less.len() - m) as nat;
    let y = (wanted.len() + more.len() - n) as nat;
    lemma_nearest_fits(m, x);
    lemma_nearest_fits(n, y);
    lemma_nearest_ordered(m, x, n, y);
    lemma_floor_product_ordered(nearest(m, x), nearest(n, y), 100);
    lemma_title_similarity_ends(q, c);
    lemma_title_similarity_ends(q, d);
    lemma_scales();
    lemma_floor_product_at_most(nearest(m, x), 100, 0x4059_0000_0000_0000);
    lemma_floor_product_at_most(nearest(n, y), 100, 0x4059_0000_0000_0000);
}

proof fn lemma_artist_range(q: QueryView, c: YtCandidate)
    ensures
        -60 <= score_of(q, c).artist_match <= 0,
        0 <= score_of(q, c).artist_similarity <= 30,
{
    if q.artist is Some && q.artist->0.len() > 0 {
        lemma_artist_mismatch(q, c);
    } else {
        lemma_no_artist(q, c);
    }
}

proof fn lemma_fields_sum(
    official: bool,
    phrase: bool,
    title: (i32, i32),
    artist: (i32, i32),
    duration: i32,
    s: Signals,
)
    requires
        0 <= title.0 <= 80,
        0 <= title.1 <= 100,
        -60 <= artist.0 <= 0,
        0 <= artist.1 <= 30,
        -30 <= duration <= 20,
    ensures
        sums_up(summed(fields_from(official, phrase, title, artist, duration, s))),
{
}

/// The total is the sum of the fields, and the two fields that depend on the
/// other candidates are still empty.
pub open spec fn sums_up(b: ScoreBreakdown) -> bool {
    &&& b.total == b.official_channel + b.official_phrase + b.title_match + b.title_similarity
        + b.artist_match + b.artist_similarity + b.duration + b.lyrics + b.reaction + b.remix
        + b.live + b.spam + b.instrumental + b.karaoke + b.cover + b.type_beat + b.compilation
    &&& b.fan_upload == 0
    &&& b.view_count == 0
}

/// The total of a fresh score is the sum of its fields.
pub proof fn lemma_total_is_sum(q: QueryView, c: YtCandidate)
    ensures
        sums_up(score_of(q, c)),
{
    let title = (title_match_points(q, c.title@), title_similarity_points(q, c.title@));
    let artist = (
        artist_match_points(q, c.uploader@, c.title@),
        artist_similarity_points(q, c.uploader@, c.title@),
    );
    let duration = duration_points(c.duration_secs);
    assert(0 <= title.0 <= 80 && 0 <= title.1 <= 100) by {
        lemma_title_words(q, c);
        lemma_title_similarity_ends(q, c);
    }
    assert(-60 <= artist.0 <= 0 && 0 <= artist.1 <= 30) by {
        lemma_artist_range(q, c);
    }
    assert(-30 <= duration <= 20);
    lemma_fields_sum(
        is_official_channel(c.uploader@),
        has_official_phrase(c.title@),
        title,
        artist,
        duration,
        signals_of(q.raw, c.title@),
    );
}

/// The place of a badge among all badges: where the upload comes from, whether
/// the artist is wrong, how long it is, and what the title says.
pub open spec fn badge_place(name: Seq<char>) -> int {
    if name == "official"@ {
        0
    } else if name == "official-upload"@ {
        1
    } else if name == "artist-mismatch"@ {
        2
    } else if name == "long"@ {
        3
    } else if name == "short"@ {
        4
    } else if name == "lyrics"@ {
        5
    } else if name == "reaction"@ {
        6
    } else if name == "remix"@ {
        7
    } else if name == "live"@ {
        8
    } else if name == "nightcore"@ {
        9
    } else if name == "bass-boosted"@ {
        10
    } else if name == "slowed"@ {
        11
    } else if name == "reverb"@ {
        12
    } else if name == "instrumental"@ {
        13
    } else if name == "karaoke"@ {
        14
    } else if name == "cover"@ {
        15
    } else if name == "type-beat"@ {
        16
    } else if name == "compilation"@ {
        17
    } else {
        18
    }
}

/// The badges stand in their order, and none stands twice: each has a later
/// place than the one before it, and a place before `end`.
#[verifier::opaque]
pub open spec fn in_badge_order(list: Seq<Seq<char>>, end: int) -> bool {
    &&& forall|i: int| 0 <= i < list.len() ==> 0 <= #[trigger] badge_place(list[i]) < end
    &&& forall|i: int, j: int|
        0 <= i < j < list.len() ==> badge_place(#[trigger] list[i]) < badge_place(
            #[trigger] list[j],
        )
}

proof fn lemma_badge_in_order(list: Seq<Seq<char>>, on: bool, name: Seq<char>, place: int)
    requires
        in_badge_order(list, place),
        badge_place(name) == place,
        place >= 0,
    ensures
        in_badge_order(with_badge(list, on, name), place + 1),
{
    reveal(in_badge_order);
    let r = with_badge(list, on, name);
    assert forall|i: int| 0 <= i < r.len() implies 0 <= #[trigger] badge_place(r[i]) < place + 1 by {
        if i < list.len() {
            assert(r[i] == list[i]);
            assert(0 <= badge_place(list[i]) < place);
        }
    }
    assert forall|i: int, j: int| 0 <= i < j < r.len() implies badge_place(#[trigger] r[i])
        < badge_place(#[trigger] r[j]) by {
        assert(r[i] == list[i]);
        assert(0 <= badge_place(list[i]) < place);
        if j < list.len() {
            assert(r[j] == list[j]);
        }
    }
}

proof fn lemma_badge_places()
    ensures
        badge_place("official"@) == 0,
        badge_place("official-upload"@) == 1,
        badge_place("artist-mismatch"@) == 2,
        badge_place("long"@) == 3,
        badge_place("short"@) == 4,
        badge_place("lyrics"@) == 5,
        badge_place("reaction"@) == 6,
        badge_place("remix"@) == 7,
        badge_place("live"@) == 8,
        badge_place("nightcore"@) == 9,
        badge_place("bass-boosted"@) == 10,
        badge_place("slowed"@) == 11,
        badge_place("reverb"@) == 12,
        badge_place("instrumental"@) == 13,
        badge_place("karaoke"@) == 14,
        badge_place("cover"@) == 15,
        badge_place("type-beat"@) == 16,
        badge_place("compilation"@) == 17,
{
    lemma_badge_names();
}

proof fn lemma_signal_badges_in_order(list: Seq<Seq<char>>, s: Signals)
    requires
        in_badge_order(list, 5),
    ensures
        in_badge_order(with_signal_flags(list, s), 18),
{
    lemma_badge_places();
    let l0 = list;
    let l1 = with_badge(l0, s.lyrics, "lyrics"@);
    let l2 = with_badge(l1, s.reaction, "reaction"@);
    let l3 = with_badge(l2, s.remix, "remix"@);
    let l4 = with_badge(l3, s.live, "live"@);
    let l5 = with_badge(l4, s.nightcore, "nightcore"@);
    let l6 = with_badge(l5, s.bass_boosted, "bass-boosted"@);
    let l7 = with_badge(l6, s.slowed, "slowed"@);
    let l8 = with_badge(l7, s.reverb, "reverb"@);
    let l9 = with_badge(l8, s.instrumental, "instrumental"@);
    let l10 = with_badge(l9, s.karaoke, "karaoke"@);
    let l11 = with_badge(l10, s.cover, "cover"@);
    let l12 = with_badge(l11, s.type_beat, "type-beat"@);
    let l13 = with_badge(l12, s.compilation, "compilation"@);
    assert(with_signal_flags(list, s) == l13);
    lemma_badge_in_order(l0, s.lyrics, "lyrics"@, 5);
    lemma_badge_in_order(l1, s.reaction, "reaction"@, 6);
    lemma_badge_in_order(l2, s.remix, "remix"@, 7);
    lemma_badge_in_order(l3, s.live, "live"@, 8);
    lemma_badge_in_order(l4, s.nightcore, "nightcore"@, 9);
    lemma_badge_in_order(l5, s.bass_boosted, "bass-boosted"@, 10);
    lemma_badge_in_order(l6, s.slowed, "slowed"@, 11);
    lemma_badge_in_order(l7, s.reverb, "reverb"@, 12);
    lemma_badge_in_order(l8, s.instrumental, "instrumental"@, 13);
    lemma_badge_in_order(l9, s.karaoke, "karaoke"@, 14);
    lemma_badge_in_order(l10, s.cover, "cover"@, 15);
    lemma_badge_in_order(l11, s.type_beat, "type-beat"@, 16);
    lemma_badge_in_order(l12, s.compilation, "compilation"@, 17);
}

proof fn lemma_no_badges()
    ensures
        in_badge_order(Seq::empty(), 0),
{
    reveal(in_badge_order);
}

/// The badges of a candidate stand in one order, none of them twice.
pub proof fn lemma_badges_in_order(q: QueryView, c: YtCandidate)
    ensures
        in_badge_order(flags_of(q, c), 18),
{
    lemma_badge_places();
    lemma_no_badges();
    let official = is_official_channel(c.uploader@);
    let phrase = has_official_phrase(c.title@);
    let wrong = artist_mismatch(q, c.uploader@, c.title@);
    let l0 = Seq::<Seq<char>>::empty();
    let l1 = with_badge(l0, official, "official"@);
    let l2 = with_badge(l1, phrase && !official, "official-upload"@);
    let l3 = with_badge(l2, wrong, "artist-mismatch"@);
    let l4 = with_badge(l3, is_long(c.duration_secs), "long"@);
    let l5 = with_badge(l4, is_short(c.duration_secs), "short"@);
    lemma_badge_in_order(l0, official, "official"@, 0);
    lemma_badge_in_order(l1, phrase && !official, "official-upload"@, 1);
    lemma_badge_in_order(l2, wrong, "artist-mismatch"@, 2);
    lemma_badge_in_order(l3, is_long(c.duration_secs), "long"@, 3);
    lemma_badge_in_order(l4, is_short(c.duration_secs), "short"@, 4);
    lemma_signal_badges_in_order(l5, signals_of(q.raw, c.title@));
}

/// A fresh score lies between the sum of all penalties and that of all points.
pub proof fn lemma_total_range(q: QueryView, c: YtCandidate)
    ensures
        -905 <= score_of(q, c).total <= 360,
{
    let b = score_of(q, c);
    lemma_total_is_sum(q, c);
    assert(0 <= b.title_match <= 80 && 0 <= b.title_similarity <= 100) by {
        lemma_title_words(q, c);
        lemma_title_similarity_ends(q, c);
    }
    assert(-60 <= b.artist_match <= 0 && 0 <= b.artist_similarity <= 30) by {
        lemma_artist_range(q, c);
    }
}

/// The badge for fan uploads is not given to a candidate by itself.
pub proof fn lemma_no_fan_badge(q: QueryView, c: YtCandidate)
    ensures
        !flags_of(q, c).contains("fan-upload"@),
{
    lemma_badge_names();
    lemma_flag(q, c, "fan-upload"@);
}

/// The closer an artist comes, the more points: where neither of two candidates
/// is a mismatch, the one that comes closer gets no fewer.
pub proof fn lemma_artist_similarity_ordered(q: QueryView, c: YtCandidate, d: YtCandidate)
    requires
        q.artist is Some,
        score_of(q, c).artist_match == 0,
        score_of(q, d).artist_match == 0,
        artist_closeness(q.artist->0, c.uploader@, c.title@).bits <= artist_closeness(
            q.artist->0,
            d.uploader@,
            d.title@,
        ).bits,
    ensures
        score_of(q, c).artist_similarity <= score_of(q, d).artist_similarity,
{
    let a = q.artist->0;
    lemma_closeness(a, c.uploader@, c.title@);
    lemma_closeness(a, d.uploader@, d.title@);
    let x = artist_closeness(a, c.uploader@, c.title@).bits as nat;
    let y = artist_closeness(a, d.uploader@, d.title@).bits as nat;
    lemma_floor_product_ordered(x, y, 30);
    lemma_scales();
    lemma_floor_product_at_most(x, 30, 0x403E_0000_0000_0000);
    lemma_floor_product_at_most(y, 30, 0x403E_0000_0000_0000);
}

/// The points for common words are the percentage of common words among all
/// the words of the two titles, each counted as often as it occurs in both: the
/// percentage in whole points, or, where it is a whole number itself, perhaps
/// one point less.
pub proof fn lemma_title_similarity_share(q: QueryView, c: YtCandidate)
    requires
        long_words(q.title).len() + tokens(outside_brackets(ascii_lower(c.title@))).len()
            < 0x1000_0000_0000,
    ensures
        ({
            let own = tokens(outside_brackets(ascii_lower(c.title@)));
            let wanted = long_words(q.title);
            let common = wanted.to_multiset().intersection_with(own.to_multiset()).len();
            let all = wanted.len() + own.len() - common;
            let points = score_of(q, c).title_similarity;
            &&& wanted.len() == 0 || own.len() == 0 ==> points == 0
            &&& wanted.len() > 0 && own.len() > 0 ==> points * all <= 100 * common <= (points + 1)
                * all
        }),
{
    let own = tokens(outside_brackets(ascii_lower(c.title@)));
    let wanted = long_words(q.title);
    lemma_scales();
    if wanted.len() == 0 || own.len() == 0 {
        lemma_floor_product_ends(100, 0x4059_0000_0000_0000);
    } else {
        let m = common_tokens(wanted, own);
        lemma_common_bound(wanted, own);
        lemma_token_similarity_bits(wanted, own);
        let all = (wanted.len() + own.len() - m) as nat;
        lemma_nearest_fits(m, all);
        lemma_share_in_parts(m, all, 100);
        lemma_floor_product_at_most(nearest(m, all), 100, 0x4059_0000_0000_0000);
    }
}

/// An artist who is not named but has a similar enough name near by is worth
/// thirty points times the similarity, in whole points, up to what two roundings
/// of a double lose.
pub proof fn lemma_artist_similarity_share(q: QueryView, c: YtCandidate)
    requires
        q.artist is Some,
        score_of(q, c).artist_match == 0,
    ensures
        ({
            let near = artist_closeness(q.artist->0, c.uploader@, c.title@).bits as nat;
            let points = score_of(q, c).artist_similarity;
            &&& points * pow2(1074) <= 30 * scaled(near) + pow2(1029)
            &&& 30 * scaled(near) <= (points + 1) * pow2(1074) + pow2(1029)
        }),
{
    let a = q.artist->0;
    lemma_closeness(a, c.uploader@, c.title@);
    let x = artist_closeness(a, c.uploader@, c.title@).bits as nat;
    lemma_scales();
    lemma_floor_product_at_most(x, 30, 0x403E_0000_0000_0000);
    lemma_floor_product_near(x, 30);
}

/// A length that is no number is worth nothing and earns no badge.
pub proof fn lemma_length_unreadable(q: QueryView, c: YtCandidate)
    requires
        0x7FF0_0000_0000_0000 < c.duration_secs.bits < 0x8000_0000_0000_0000
            || 0xFFF0_0000_0000_0000 < c.duration_secs.bits,
    ensures
        score_of(q, c).duration == 0,
        !flags_of(q, c).contains("short"@),
        !flags_of(q, c).contains("long"@),
{
    lemma_badge_names();
    lemma_flag(q, c, "short"@);
    lemma_flag(q, c, "long"@);
}

} // verus!
