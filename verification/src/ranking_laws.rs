//! What ranking and picking promise of every list of candidates: which repeats
//! are dropped, whom the penalties and bonuses reach and by how much, and when
//! the first candidate is taken without asking.

use vstd::prelude::*;

use crate::matching::{lemma_similarity_bound, outside_brackets, similarity, tokens};
use crate::model::YtCandidate;
use crate::order::{descending, lemma_descending_complete, lemma_descending_exists};
use crate::ranking::{
    all_scored, answers, at_most, by_score, decision_for, deduped, enriched, equivalent_uploads, fan_penalised,
    is_veto, lean_of, ranked_views, ranking, reconsidered, reported_views, resolved_url, rival_views, scores,
    vetoed, view_leaned, AutoPickDecision, PickResponse, RankedView,
};
use crate::real64::Real64;
use crate::scoring::{flags_of, score_of};
use crate::scoring_laws::{lemma_no_fan_badge, lemma_total_is_sum, lemma_total_range};
use crate::text::{ascii_lower, quoted_text, texts};
use crate::youtube::{source_query, QueryView};

verus! {

/// A candidate with one of these badges is never taken without asking: lyrics,
/// reaction, nightcore, bass-boosted, slowed, reverb, live, karaoke, remix,
/// cover, instrumental, artist-mismatch, fan-upload. Neither is one with a score
/// under sixty, and an empty list offers none.
pub proof fn lemma_never_taken(list: Seq<RankedView>, margin: i32)
    requires
        list.len() == 0 || list[0].score < 60 || list[0].flags.contains("lyrics"@)
            || list[0].flags.contains("reaction"@) || list[0].flags.contains("nightcore"@)
            || list[0].flags.contains("bass-boosted"@) || list[0].flags.contains("slowed"@)
            || list[0].flags.contains("reverb"@) || list[0].flags.contains("live"@)
            || list[0].flags.contains("karaoke"@) || list[0].flags.contains("remix"@)
            || list[0].flags.contains("cover"@) || list[0].flags.contains("instrumental"@)
            || list[0].flags.contains("artist-mismatch"@) || list[0].flags.contains("fan-upload"@),
    ensures
        decision_for(list, margin) == AutoPickDecision::NoPick,
{
    if list.len() > 0 && list[0].score >= 60 && !list[0].flags.contains("fan-upload"@) {
        let f = list[0].flags;
        let name = if f.contains("lyrics"@) {
            "lyrics"@
        } else if f.contains("reaction"@) {
            "reaction"@
        } else if f.contains("nightcore"@) {
            "nightcore"@
        } else if f.contains("bass-boosted"@) {
            "bass-boosted"@
        } else if f.contains("slowed"@) {
            "slowed"@
        } else if f.contains("reverb"@) {
            "reverb"@
        } else if f.contains("live"@) {
            "live"@
        } else if f.contains("karaoke"@) {
            "karaoke"@
        } else if f.contains("remix"@) {
            "remix"@
        } else if f.contains("cover"@) {
            "cover"@
        } else if f.contains("instrumental"@) {
            "instrumental"@
        } else {
            "artist-mismatch"@
        };
        let i = choose|i: int| 0 <= i < f.len() && f[i] == name;
        assert(is_veto(f[i]));
    }
}

/// None of the badges that rule a candidate out.
pub open spec fn free_of_vetoes(flags: Seq<Seq<char>>) -> bool {
    !flags.contains("lyrics"@) && !flags.contains("reaction"@) && !flags.contains("nightcore"@)
        && !flags.contains("bass-boosted"@) && !flags.contains("slowed"@) && !flags.contains(
        "reverb"@,
    ) && !flags.contains("live"@) && !flags.contains("karaoke"@) && !flags.contains("remix"@)
        && !flags.contains("cover"@) && !flags.contains("instrumental"@) && !flags.contains(
        "artist-mismatch"@,
    ) && !flags.contains("fan-upload"@)
}

/// The titles of two candidates have the same words outside brackets, and at
/// least one.
pub open spec fn titles_agree(a: YtCandidate, b: YtCandidate) -> bool {
    tokens(outside_brackets(ascii_lower(a.title@))).len() > 0 && tokens(
        outside_brackets(ascii_lower(a.title@)),
    ) == tokens(outside_brackets(ascii_lower(b.title@)))
}

/// A first candidate with no such badge and a score of sixty or more is taken
/// exactly where nothing follows it, or it leads by enough: by fifteen points
/// over a candidate whose title agrees with its own, else by what the caller
/// asks for and by twenty-five. The answer says by how much it leads and by how
/// much it had to.
pub proof fn lemma_taken(list: Seq<RankedView>, margin: i32)
    requires
        list.len() > 0,
        list[0].score >= 60,
        free_of_vetoes(list[0].flags),
        list.len() > 1 ==> i32::MIN <= list[0].score - list[1].score <= i32::MAX,
    ensures
        list.len() == 1 ==> decision_for(list, margin) is Auto,
        list.len() > 1 && titles_agree(list[0].base, list[1].base) ==> (decision_for(
            list,
            margin,
        ) is Auto <==> list[0].score - list[1].score >= 15),
        list.len() > 1 && !titles_agree(list[0].base, list[1].base) ==> (decision_for(
            list,
            margin,
        ) is Auto <==> list[0].score - list[1].score >= margin && list[0].score - list[1].score
            >= 25),
        decision_for(list, margin) matches AutoPickDecision::Auto(meta) ==> {
            &&& list.len() == 1 ==> meta.margin == i32::MAX
            &&& list.len() > 1 ==> meta.margin == list[0].score - list[1].score
            &&& list.len() > 1 && titles_agree(list[0].base, list[1].base) ==> meta.required_margin
                == 15
            &&& (list.len() == 1 || !titles_agree(list[0].base, list[1].base)) ==> (
            meta.required_margin >= margin && meta.required_margin >= 25 && (meta.required_margin
                == margin || meta.required_margin == 25))
        },
{
    let f = list[0].flags;
    if vetoed(f) {
        let i = choose|i: int| 0 <= i < f.len() && is_veto(#[trigger] f[i]);
        assert(f.contains(f[i]));
    }
    reveal_with_fuel(equivalent_uploads, 5);
}

/// The answer counts the uploads of the same song among the next three
/// candidates, from the very next on; where that one is another song, it counts
/// none.
pub proof fn lemma_equivalents_counted(list: Seq<RankedView>, margin: i32)
    ensures
        decision_for(list, margin) matches AutoPickDecision::Auto(meta) ==> {
            &&& list.len() == 1 || !titles_agree(list[0].base, list[1].base)
                ==> meta.equivalent_count == 0
            &&& list.len() > 1 && titles_agree(list[0].base, list[1].base) ==> meta.equivalent_count
                == 1 + (if list.len() > 2 && titles_agree(list[0].base, list[2].base) {
                1int
            } else {
                0
            }) + (if list.len() > 3 && titles_agree(list[0].base, list[3].base) {
                1int
            } else {
                0
            })
        },
{
    reveal_with_fuel(equivalent_uploads, 5);
}

/// `d` repeats `c`: the same video, or both title and uploader are alike, by
/// more than `0.85` and by more than `0.7`.
pub open spec fn repeats(c: YtCandidate, d: YtCandidate) -> bool {
    c.id@ == d.id@ || (similarity(ascii_lower(c.title@), ascii_lower(d.title@)).bits
        > 0x3FEB_3333_3333_3333 && similarity(
        ascii_lower(c.uploader@),
        ascii_lower(d.uploader@),
    ).bits > 0x3FE6_6666_6666_6666)
}

/// One more candidate at the end changes nothing of what was kept before it,
/// and is kept itself exactly where it repeats none of them.
pub proof fn lemma_deduped_next(list: Seq<YtCandidate>, c: YtCandidate)
    ensures
        deduped(Seq::<YtCandidate>::empty()).len() == 0,
        (exists|i: int| 0 <= i < deduped(list).len() && repeats(#[trigger] deduped(list)[i], c))
            ==> deduped(list.push(c)) == deduped(list),
        (forall|i: int| 0 <= i < deduped(list).len() ==> !repeats(#[trigger] deduped(list)[i], c))
            ==> deduped(list.push(c)) == deduped(list).push(c),
{
    let kept = deduped(list);
    assert(list.push(c).drop_last() =~= list);
    assert forall|i: int| 0 <= i < kept.len() implies (repeats(#[trigger] kept[i], c) <==> (
    kept[i].id@ == c.id@ || crate::ranking::looks_copied(kept[i], c))) by {
        lemma_similarity_bound(ascii_lower(kept[i].title@), ascii_lower(c.title@));
        lemma_similarity_bound(ascii_lower(kept[i].uploader@), ascii_lower(c.uploader@));
    }
}

/// No survivor repeats an earlier one.
pub proof fn lemma_deduped_no_repeats(list: Seq<YtCandidate>, i: int, j: int)
    requires
        0 <= i < j < deduped(list).len(),
    ensures
        !repeats(deduped(list)[i], deduped(list)[j]),
    decreases list.len(),
{
    if list.len() > 0 {
        let front = list.drop_last();
        assert(front.push(list.last()) =~= list);
        lemma_deduped_next(front, list.last());
        if j < deduped(front).len() {
            lemma_deduped_no_repeats(front, i, j);
        }
    }
}

/// A badge says that the upload is official.
pub open spec fn marked_official(rc: RankedView) -> bool {
    rc.flags.contains("official"@) || rc.flags.contains("official-upload"@)
}

/// Where some upload is marked official, each one that is not loses ten points,
/// in its score and in the two fields for it, and has the badge "fan-upload"
/// once; nothing else of it changes. The official ones stay as they are, and so
/// does a list without any.
pub proof fn lemma_fan_uploads(list: Seq<RankedView>, i: int)
    requires
        0 <= i < list.len(),
        list[i].breakdown matches Some(b) && list[i].score == b.total && b.total >= -2147483638
            && b.fan_upload >= -2147483638,
    ensures
        fan_penalised(list).len() == list.len(),
        marked_official(list[i]) ==> fan_penalised(list)[i] == list[i],
        (forall|j: int| 0 <= j < list.len() ==> !marked_official(#[trigger] list[j]))
            ==> fan_penalised(list)[i] == list[i],
        !marked_official(list[i]) && (exists|j: int|
            0 <= j < list.len() && marked_official(#[trigger] list[j])) ==> ({
            let r = fan_penalised(list)[i];
            let b = list[i].breakdown->0;
            &&& r.base == list[i].base
            &&& r.score == list[i].score - 10
            &&& r.breakdown == Some(
                crate::scoring::ScoreBreakdown {
                    total: (b.total - 10) as i32,
                    fan_upload: (b.fan_upload - 10) as i32,
                    ..b
                },
            )
            &&& list[i].flags.contains("fan-upload"@) ==> r.flags == list[i].flags
            &&& !list[i].flags.contains("fan-upload"@) ==> r.flags == list[i].flags.push(
                "fan-upload"@,
            )
        }),
{
    if exists|j: int| 0 <= j < list.len() && marked_official(#[trigger] list[j]) {
        let j = choose|j: int| 0 <= j < list.len() && marked_official(#[trigger] list[j]);
        assert(crate::ranking::official_flags(list[j].flags));
    } else if crate::ranking::any_official(list) {
        let j = choose|j: int|
            0 <= j < list.len() && crate::ranking::official_flags((#[trigger] list[j]).flags);
        assert(marked_official(list[j]));
    }
}

/// A view count of `least` or more, by its bit pattern.
pub open spec fn views_reach(c: YtCandidate, least: u64) -> bool {
    least <= c.view_count.bits <= 0x7FF0_0000_0000_0000
}

/// `j` is another upload of the song at `i`: the titles have the same words
/// outside brackets.
pub open spec fn is_rival(list: Seq<RankedView>, i: int, j: int) -> bool {
    0 <= j < list.len() && j != i && tokens(outside_brackets(ascii_lower(list[j].base.title@)))
        == tokens(outside_brackets(ascii_lower(list[i].base.title@)))
}

proof fn lemma_rival_views(list: Seq<RankedView>, i: int, n: int, least: u64)
    requires
        0 <= i < list.len(),
        0 <= n <= list.len(),
        0 < least <= 0x7FF0_0000_0000_0000,
    ensures
        rival_views(list, i, n).bits <= 0x7FF0_0000_0000_0000,
        rival_views(list, i, n).bits >= least <==> exists|j: int|
            j < n && #[trigger] is_rival(list, i, j) && views_reach(list[j].base, least),
    decreases n,
{
    if n > 0 {
        lemma_rival_views(list, i, n - 1, least);
        let before = rival_views(list, i, n - 1);
        let last = list[n - 1].base;
        if exists|j: int|
            j < n - 1 && #[trigger] is_rival(list, i, j) && views_reach(list[j].base, least) {
            let j = choose|j: int|
                j < n - 1 && #[trigger] is_rival(list, i, j) && views_reach(list[j].base, least);
            assert(j < n && is_rival(list, i, j));
        }
        if is_rival(list, i, n - 1) {
            assert(crate::ranking::same_song(last, list[i].base));
            assert(rival_views(list, i, n) == before.spec_max(last.view_count));
            if rival_views(list, i, n).bits >= least && before.bits < least {
                assert(views_reach(last, least));
            }
        }
        if exists|j: int|
            j < n && #[trigger] is_rival(list, i, j) && views_reach(list[j].base, least) {
            let j = choose|j: int|
                j < n && #[trigger] is_rival(list, i, j) && views_reach(list[j].base, least);
            if j < n - 1 {
                assert(before.bits >= least);
            }
        }
    }
}

/// The bonus for views. It is due to an upload that got none before and has a
/// rival with views of its own: six points for five million views that no rival
/// has reached, else four points for half a million that no rival has reached,
/// else nothing.
pub proof fn lemma_view_bonus(list: Seq<RankedView>, i: int)
    requires
        0 <= i < list.len(),
        list[i].breakdown matches Some(b) ==> b.view_count == 0,
    ensures
        ({
            let own = list[i].base;
            let watched = exists|j: int| #[trigger]
                is_rival(list, i, j) && views_reach(list[j].base, 1);
            let known = exists|j: int| #[trigger]
                is_rival(list, i, j) && views_reach(list[j].base, 0x411E_8480_0000_0000);
            let famous = exists|j: int| #[trigger]
                is_rival(list, i, j) && views_reach(list[j].base, 0x4153_12D0_0000_0000);
            &&& watched && views_reach(own, 0x4153_12D0_0000_0000) && !famous ==> lean_of(list, i)
                == 6
            &&& watched && views_reach(own, 0x411E_8480_0000_0000) && !known && !views_reach(
                own,
                0x4153_12D0_0000_0000,
            ) ==> lean_of(list, i) == 4
            &&& !watched ==> lean_of(list, i) == 0
            &&& !views_reach(own, 0x411E_8480_0000_0000) ==> lean_of(list, i) == 0
            &&& known && (famous || !views_reach(own, 0x4153_12D0_0000_0000)) ==> lean_of(list, i)
                == 0
        }),
{
    let n = list.len() as int;
    lemma_rival_views(list, i, n, 1);
    lemma_rival_views(list, i, n, 0x411E_8480_0000_0000);
    lemma_rival_views(list, i, n, 0x4153_12D0_0000_0000);
    assert forall|j: int, least: u64| #[trigger]
        is_rival(list, i, j) && #[trigger] views_reach(list[j].base, least) implies j < n by {}
}

/// A view-count bonus goes to the score, to the total and to its own field, and
/// to nothing else. Who got one before gets none again.
pub proof fn lemma_view_bonus_given(list: Seq<RankedView>, i: int)
    requires
        0 <= i < list.len(),
        list[i].breakdown matches Some(b) && list[i].score == b.total && b.total <= 2147483641,
    ensures
        view_leaned(list).len() == list.len(),
        view_leaned(list)[i].base == list[i].base,
        view_leaned(list)[i].flags == list[i].flags,
        view_leaned(list)[i].score == list[i].score + lean_of(list, i),
        view_leaned(list)[i].breakdown == Some(
            crate::scoring::ScoreBreakdown {
                total: (list[i].breakdown->0.total + lean_of(list, i)) as i32,
                view_count: (list[i].breakdown->0.view_count + lean_of(list, i)) as i32,
                ..list[i].breakdown->0
            },
        ),
        list[i].breakdown->0.view_count != 0 ==> view_leaned(list)[i] == list[i],
{
}

/// What a lookup reported for a video is the first count that it gave for it.
pub proof fn lemma_reported_views(counts: Seq<(String, Real64)>, id: Seq<char>)
    ensures
        reported_views(counts, id) is None <==> forall|k: int|
            0 <= k < counts.len() ==> (#[trigger] counts[k]).0@ != id,
        reported_views(counts, id) matches Some(v) ==> exists|k: int|
            0 <= k < counts.len() && (#[trigger] counts[k]).0@ == id && counts[k].1 == v && forall|
                m: int,
            |
                0 <= m < k ==> (#[trigger] counts[m]).0@ != id,
    decreases counts.len(),
{
    if counts.len() > 0 {
        if counts[0].0@ != id {
            let rest = counts.drop_first();
            lemma_reported_views(rest, id);
            if reported_views(rest, id) is None {
                assert forall|k: int| 0 <= k < counts.len() implies (#[trigger] counts[k]).0@
                    != id by {
                    if k > 0 {
                        assert(rest[k - 1] == counts[k]);
                    }
                }
            } else {
                let v = reported_views(rest, id)->0;
                let k = choose|k: int|
                    0 <= k < rest.len() && (#[trigger] rest[k]).0@ == id && rest[k].1 == v && forall|
                        m: int,
                    |
                        0 <= m < k ==> (#[trigger] rest[m]).0@ != id;
                assert(counts[k + 1] == rest[k]);
                assert forall|m: int| 0 <= m < k + 1 implies (#[trigger] counts[m]).0@ != id by {
                    if m > 0 {
                        assert(rest[m - 1] == counts[m]);
                    }
                }
            }
        }
    }
}

/// Only the first four candidates have view counts filled in, only where none
/// was known and a positive one was reported; of a candidate nothing but its
/// view count changes.
pub proof fn lemma_views_filled(list: Seq<RankedView>, counts: Seq<(String, Real64)>, i: int)
    requires
        0 <= i < list.len(),
    ensures
        enriched(list, counts).len() == list.len(),
        ({
            let r = enriched(list, counts)[i];
            let known = 0 < list[i].base.view_count.bits <= 0x7FF0_0000_0000_0000;
            let reported = reported_views(counts, list[i].base.id@);
            &&& r.score == list[i].score && r.breakdown == list[i].breakdown && r.flags
                == list[i].flags
            &&& r.base == (YtCandidate { view_count: r.base.view_count, ..list[i].base })
            &&& i >= 4 || known || reported is None ==> r == list[i]
            &&& i < 4 && (list[i].base.view_count.bits == 0 || 0x8000_0000_0000_0000
                <= list[i].base.view_count.bits <= 0xFFF0_0000_0000_0000) && (reported matches Some(
                v,
            ) && 0 < v.bits <= 0x7FF0_0000_0000_0000) ==> r.base.view_count == reported->0
            &&& (reported matches Some(v) && !(0 < v.bits <= 0x7FF0_0000_0000_0000)) ==> r
                == list[i]
        }),
{
}

/// Ordering by score moves candidates about and does nothing else: place `k` of
/// the result is taken by the candidate that stood at `p[k]`, each place is
/// used once, higher scores come first, and equal scores keep their order.
pub proof fn lemma_by_score(list: Seq<RankedView>)
    ensures
        exists|p: Seq<int>| #[trigger] orders_by_score(list, by_score(list), p),
{
    lemma_descending_exists(scores(list));
    let p = descending(scores(list));
    assert forall|x: int| 0 <= x < list.len() implies p.contains(x) && p.no_duplicates() by {
        lemma_descending_complete(scores(list), p, x);
    }
    assert(p.no_duplicates()) by {
        if p.len() > 0 {
            lemma_descending_complete(scores(list), p, 0);
        }
    }
    assert forall|i: int, j: int| 0 <= i < j < p.len() implies list[#[trigger] p[i]].score
        > list[#[trigger] p[j]].score || (list[p[i]].score == list[p[j]].score && p[i] < p[j]) by {
        assert(crate::order::comes_before(scores(list), p[i], p[j]));
    }
    assert(orders_by_score(list, by_score(list), p));
}

/// `sorted` holds the items of `list` in the order of `p`, by falling score.
pub open spec fn orders_by_score(
    list: Seq<RankedView>,
    sorted: Seq<RankedView>,
    p: Seq<int>,
) -> bool {
    &&& sorted.len() == list.len()
    &&& p.len() == list.len()
    &&& p.no_duplicates()
    &&& forall|k: int|
        0 <= k < p.len() ==> 0 <= #[trigger] p[k] < list.len() && sorted[k] == list[p[k]]
    &&& forall|i: int, j: int|
        0 <= i < j < p.len() ==> list[#[trigger] p[i]].score > list[#[trigger] p[j]].score || (
        list[p[i]].score == list[p[j]].score && p[i] < p[j])
}

/// A limit of zero keeps everything; another limit keeps the first so many, or
/// all where there are no more.
pub proof fn lemma_at_most(list: Seq<RankedView>, limit: nat)
    ensures
        limit == 0 ==> at_most(list, limit) == list,
        limit > 0 && limit < list.len() ==> at_most(list, limit).len() == limit,
        limit >= list.len() ==> at_most(list, limit) == list,
        forall|i: int|
            0 <= i < at_most(list, limit).len() ==> #[trigger] at_most(list, limit)[i] == list[i],
{
}

/// A ranking whose first candidate can be taken, or that has no second, is not
/// touched by view counts that were looked up; in any other, the same videos
/// stand in some order.
pub proof fn lemma_reconsidered(
    list: Seq<RankedView>,
    margin: i32,
    counts: Seq<(String, Real64)>,
)
    ensures
        decision_for(list, margin) is Auto || list.len() <= 1 ==> reconsidered(
            list,
            margin,
            counts,
        ) == list,
        decision_for(list, margin) is NoPick && list.len() > 1 ==> reconsidered(list, margin, counts)
            == by_score(view_leaned(enriched(list, counts))),
        reconsidered(list, margin, counts).len() == list.len(),
{
    lemma_descending_exists(scores(view_leaned(enriched(list, counts))));
}

/// What a pick answers. Nothing found is answered by the query. A candidate
/// that may be taken is named by its own address, title, uploader, length,
/// score and badges, with the reason where there was another. Otherwise the
/// best candidates are offered, up to the limit, with the two best scores and
/// their difference.
pub proof fn lemma_answers(
    r: PickResponse,
    query: Seq<char>,
    limit: nat,
    list: Seq<RankedView>,
    margin: i32,
)
    requires
        answers(r, query, limit, list, margin),
    ensures
        r is Empty <==> list.len() == 0,
        r is Auto <==> decision_for(list, margin) is Auto,
        r is NeedsChoice <==> list.len() > 0 && decision_for(list, margin) is NoPick,
        r matches PickResponse::Empty { query: q, message } ==> q@ == query && message@
            == "no yt-dlp results for "@ + quoted_text(query),
        r matches PickResponse::Auto { url, title, uploader, score, duration_secs, flags, decision }
            ==> url@ == list[0].base.url@ && title@ == list[0].base.title@ && uploader@
            == list[0].base.uploader@ && score == list[0].score && duration_secs
            == list[0].base.duration_secs && texts(flags@) == list[0].flags && (decision is Some
            <==> list.len() > 1) && (decision matches Some(meta) ==> decision_for(list, margin)
            == AutoPickDecision::Auto(meta)),
        r matches PickResponse::NeedsChoice { candidates, top_score, runner_up_score, margin: m }
            ==> {
            &&& top_score == list[0].score
            &&& runner_up_score == list[if list.len() > 1 {
                1int
            } else {
                0
            }].score
            &&& m == top_score - runner_up_score
            &&& candidates@.len() == (if limit > 0 && limit < list.len() {
                limit
            } else {
                list.len()
            })
            &&& forall|i: int| 0 <= i < candidates@.len() ==> (#[trigger] candidates@[i])@ == list[i]
        },
{
    match r {
        PickResponse::NeedsChoice { candidates, .. } => {
            let shown = ranked_views(candidates@);
            assert(shown == at_most(list, limit));
            assert(shown.len() == candidates@.len());
            assert forall|i: int| 0 <= i < candidates@.len() implies (#[trigger] candidates@[i])@
                == list[i] by {
                assert(shown[i] == candidates@[i]@);
            }
        },
        _ => {},
    }
}

/// A source that asks for one result stands for the candidate that is taken, or
/// else for the first that is offered; where none was found, and for any other
/// source, there is none.
pub proof fn lemma_resolved_url(source: Seq<char>, picked: PickResponse)
    ensures
        source_query(source) is None ==> resolved_url(source, picked) is None,
        source_query(source) is Some && picked is Empty ==> resolved_url(source, picked) is None,
        source_query(source) is Some ==> (picked matches PickResponse::Auto { url, .. }
            ==> resolved_url(source, picked) == Some(url@)),
        source_query(source) is Some ==> (picked matches PickResponse::NeedsChoice {
            candidates,
            ..
        } ==> (candidates@.len() == 0 ==> resolved_url(source, picked) is None) && (candidates@.len()
            > 0 ==> resolved_url(source, picked) == Some(candidates@[0].base.url@))),
{
}

/// `r` is the entry of the ranking for a survivor `c`: its own score and badges,
/// less ten points and with the badge for it where it is not official while
/// another survivor is, and with a bonus for views of nothing, four or six.
pub open spec fn ranks(
    r: RankedView,
    q: QueryView,
    c: YtCandidate,
    survivors: Seq<YtCandidate>,
) -> bool {
    let own = score_of(q, c);
    let fan = !shown_official(q, c) && exists|j: int|
        0 <= j < survivors.len() && shown_official(q, #[trigger] survivors[j]);
    let fan_points: int = if fan {
        -10
    } else {
        0
    };
    &&& r.base == c
    &&& r.breakdown matches Some(b) && {
        &&& r.score == b.total
        &&& b.fan_upload == fan_points
        &&& b.view_count == 0 || b.view_count == 4 || b.view_count == 6
        &&& b.total == own.total + fan_points + b.view_count
        &&& b == (crate::scoring::ScoreBreakdown {
            total: b.total,
            fan_upload: b.fan_upload,
            view_count: b.view_count,
            ..own
        })
    }
    &&& fan ==> r.flags == flags_of(q, c).push("fan-upload"@)
    &&& !fan ==> r.flags == flags_of(q, c)
}

/// The badges of a candidate mark it as official.
pub open spec fn shown_official(q: QueryView, c: YtCandidate) -> bool {
    flags_of(q, c).contains("official"@) || flags_of(q, c).contains("official-upload"@)
}

/// A ranking has one entry for each survivor, scored by itself and against the
/// others, and the entries stand by falling score.
pub proof fn lemma_ranking_entries(q: QueryView, fetched: Seq<YtCandidate>, k: int)
    requires
        0 <= k < deduped(fetched).len(),
    ensures
        ranking(q, fetched).len() == deduped(fetched).len(),
        exists|i: int|
            0 <= i < deduped(fetched).len() && #[trigger] ranks(
                ranking(q, fetched)[k],
                q,
                deduped(fetched)[i],
                deduped(fetched),
            ),
        exists|m: int|
            0 <= m < ranking(q, fetched).len() && #[trigger] ranks(
                ranking(q, fetched)[m],
                q,
                deduped(fetched)[k],
                deduped(fetched),
            ),
        k > 0 ==> ranking(q, fetched)[k - 1].score >= ranking(q, fetched)[k].score,
{
    let d = deduped(fetched);
    let a = all_scored(q, d);
    let f = fan_penalised(a);
    let v = view_leaned(f);
    let r = ranking(q, fetched);
    lemma_by_score(v);
    let p = choose|p: Seq<int>| #[trigger] orders_by_score(v, by_score(v), p);
    assert(a.len() == d.len());
    assert forall|i: int| 0 <= i < d.len() implies v.len() == d.len() && ranks(
        #[trigger] v[i],
        q,
        d[i],
        d,
    ) by {
        lemma_survivor_ranked(q, d, i);
    }
    lemma_survivor_ranked(q, d, k);
    assert(r[k] == v[p[k]]);
    assert(ranks(r[k], q, d[p[k]], d));
    lemma_descending_exists(scores(v));
    let s = descending(scores(v));
    lemma_descending_complete(scores(v), s, k);
    let m = choose|m: int| 0 <= m < s.len() && s[m] == k;
    assert(r[m] == v[s[m]]);
    assert(ranks(r[m], q, d[k], d));
    if k > 0 {
        assert(v[p[k - 1]].score >= v[p[k]].score);
    }
}

proof fn lemma_survivor_ranked(q: QueryView, d: Seq<YtCandidate>, i: int)
    requires
        0 <= i < d.len(),
    ensures
        view_leaned(fan_penalised(all_scored(q, d))).len() == d.len(),
        ranks(view_leaned(fan_penalised(all_scored(q, d)))[i], q, d[i], d),
{
    let a = all_scored(q, d);
    let f = fan_penalised(a);
    let v = view_leaned(f);
    let own = score_of(q, d[i]);
    assert(a[i].breakdown == Some(own) && a[i].score == own.total && a[i].flags == flags_of(
        q,
        d[i],
    ));
    lemma_total_is_sum(q, d[i]);
    lemma_total_range(q, d[i]);
    lemma_fan_uploads(a, i);
    assert(f.len() == d.len());
    assert forall|j: int| 0 <= j < d.len() implies marked_official(#[trigger] a[j])
        == shown_official(q, d[j]) by {}
    if exists|j: int| 0 <= j < d.len() && shown_official(q, #[trigger] d[j]) {
        let j = choose|j: int| 0 <= j < d.len() && shown_official(q, #[trigger] d[j]);
        assert(marked_official(a[j]));
    } else {
        assert forall|j: int| 0 <= j < a.len() implies !marked_official(#[trigger] a[j]) by {
            assert(!shown_official(q, d[j]));
        }
    }
    lemma_no_fan_badge(q, d[i]);
    lemma_view_bonus_given(f, i);
    let b = f[i].breakdown->0;
    let lean = lean_of(f, i);
    assert(lean == 0 || lean == 4 || lean == 6);
    assert(v[i].breakdown == Some(
        crate::scoring::ScoreBreakdown {
            total: (b.total + lean) as i32,
            view_count: (b.view_count + lean) as i32,
            ..b
        },
    ));
}

/// A result without a breakdown is moved like the others: ten points down for
/// an upload that is not official beside one that is, and up by its bonus for
/// views.
pub proof fn lemma_moved_without_breakdown(list: Seq<RankedView>, i: int)
    requires
        0 <= i < list.len(),
        list[i].breakdown is None,
        -2147483638 <= list[i].score <= 2147483641,
    ensures
        fan_penalised(list)[i].breakdown is None,
        view_leaned(list)[i].breakdown is None,
        fan_penalised(list)[i].base == list[i].base,
        view_leaned(list)[i].base == list[i].base,
        view_leaned(list)[i].flags == list[i].flags,
        view_leaned(list)[i].score == list[i].score + lean_of(list, i),
        fan_penalised(list)[i].score == list[i].score - (if !marked_official(list[i]) && (exists|
            j: int,
        |
            0 <= j < list.len() && marked_official(#[trigger] list[j])) {
            10int
        } else {
            0
        }),
{
    if exists|j: int| 0 <= j < list.len() && marked_official(#[trigger] list[j]) {
        let j = choose|j: int| 0 <= j < list.len() && marked_official(#[trigger] list[j]);
        assert(crate::ranking::official_flags(list[j].flags));
    } else if crate::ranking::any_official(list) {
        let j = choose|j: int|
            0 <= j < list.len() && crate::ranking::official_flags((#[trigger] list[j]).flags);
        assert(marked_official(list[j]));
    }
}

} // verus!
