//! Ranking of search results and the decision whether the best one may be
//! taken without asking.

use vstd::prelude::*;

use crate::matching::{jaro_winkler, similarity, strip_decorations, tokenize};
use crate::model::{clone_texts, YtCandidate};
use crate::order::{descending, descending_order, indices, lemma_descending_exists, sorted_by_key};
use crate::real64::Real64;
use crate::scoring::{core_tokens, flags_of, score_candidate, score_of, ScoreBreakdown};
use crate::text::{ascii_lower, list_has, quote, quoted_text, same_text, texts, to_ascii_lower};
use crate::youtube::{ParsedQuery, QueryView};

verus! {

/// For an upload that is not official while another one is.
pub const FAN_UPLOAD_PENALTY: i32 = -10;

/// Views of the dominant upload of a song: `5000000.0`, as a bit pattern.
pub const VIEW_COUNT_DOMINANT_THRESHOLD: u64 = 0x4153_12D0_0000_0000;

/// Views of a well-known upload: `500000.0`, as a bit pattern.
pub const VIEW_COUNT_STRONG_THRESHOLD: u64 = 0x411E_8480_0000_0000;

/// For the dominant upload of a song.
pub const VIEW_COUNT_DOMINANT_BONUS: i32 = 6;

/// For a well-known upload whose rivals are not.
pub const VIEW_COUNT_STRONG_BONUS: i32 = 4;

/// How many candidates have their view counts looked up.
pub const VIEW_COUNT_ENRICH_TOP_N: usize = 4;

/// Title similarity above which two uploads may be copies: `0.85`, as a bit
/// pattern.
pub const COPY_TITLE_SIMILARITY: u64 = 0x3FEB_3333_3333_3333;

/// Uploader similarity above which two uploads may be copies: `0.7`, as a bit
/// pattern.
pub const COPY_UPLOADER_SIMILARITY: u64 = 0x3FE6_6666_6666_6666;

/// Lead that the best candidate needs by default.
pub const AUTO_PICK_MARGIN: i32 = 30;

/// Least lead over a different song, whatever the caller asks for.
pub const STRONG_PICK_MARGIN: i32 = 25;

/// Lead needed over another upload of the same song.
pub const EQUIVALENT_MARGIN: i32 = 15;

/// Least score of a candidate that is taken without asking.
pub const HARD_VETO_MIN_SCORE: i32 = 60;

/// How many runners-up are compared with the best candidate's title.
pub const EQUIVALENCE_SCAN_DEPTH: usize = 3;

/// How many more results each search asks for than are wanted in the end.
pub const PER_VARIANT_LIMIT_BUMP: usize = 6;

/// Least number of results that each search asks for.
pub const MIN_PER_VARIANT_LIMIT: usize = 8;

/// A candidate with its score and badges.
#[derive(Debug)]
pub struct RankedCandidate {
    pub base: YtCandidate,
    pub score: i32,
    pub breakdown: Option<ScoreBreakdown>,
    pub flags: Vec<String>,
}

/// A ranked candidate, its badges as texts.
pub struct RankedView {
    pub base: YtCandidate,
    pub score: i32,
    pub breakdown: Option<ScoreBreakdown>,
    pub flags: Seq<Seq<char>>,
}

impl View for RankedCandidate {
    type V = RankedView;

    open spec fn view(&self) -> RankedView {
        RankedView {
            base: self.base,
            score: self.score,
            breakdown: self.breakdown,
            flags: texts(self.flags@),
        }
    }
}

impl Clone for RankedCandidate {
    fn clone(&self) -> (r: Self)
        ensures
            r@ == self@,
    {
        RankedCandidate {
            base: self.base.clone(),
            score: self.score,
            breakdown: self.breakdown,
            flags: clone_texts(&self.flags),
        }
    }
}

/// The views of a list of ranked candidates.
pub open spec fn ranked_views(list: Seq<RankedCandidate>) -> Seq<RankedView> {
    list.map_values(|rc: RankedCandidate| rc@)
}

/// `later` looks like a copy of `earlier`: title and uploader are alike.
pub open spec fn looks_copied(earlier: YtCandidate, later: YtCandidate) -> bool {
    Real64 { bits: COPY_TITLE_SIMILARITY }.spec_lt(
        similarity(ascii_lower(earlier.title@), ascii_lower(later.title@)),
    ) && Real64 { bits: COPY_UPLOADER_SIMILARITY }.spec_lt(
        similarity(ascii_lower(earlier.uploader@), ascii_lower(later.uploader@)),
    )
}

/// A list already holds the candidate: the same video, or one it looks copied
/// from.
pub open spec fn already_listed(list: Seq<YtCandidate>, c: YtCandidate) -> bool {
    exists|i: int|
        0 <= i < list.len() && ((#[trigger] list[i]).id@ == c.id@ || looks_copied(list[i], c))
}

/// The candidates that no earlier one stands for.
pub open spec fn deduped(list: Seq<YtCandidate>) -> Seq<YtCandidate>
    decreases list.len(),
{
    if list.len() == 0 {
        Seq::empty()
    } else {
        let head = deduped(list.drop_last());
        if already_listed(head, list.last()) {
            head
        } else {
            head.push(list.last())
        }
    }
}

fn copied_from(earlier: &YtCandidate, later: &YtCandidate) -> (r: bool)
    ensures
        r == looks_copied(*earlier, *later),
{
    let t1 = to_ascii_lower(earlier.title.as_str());
    let t2 = to_ascii_lower(later.title.as_str());
    let u1 = to_ascii_lower(earlier.uploader.as_str());
    let u2 = to_ascii_lower(later.uploader.as_str());
    let by_title = jaro_winkler(t1.as_str(), t2.as_str());
    let by_uploader = jaro_winkler(u1.as_str(), u2.as_str());
    proof {
        if t1@.len() == 0 && t2@.len() == 0 {
            assert(t1@ =~= t2@);
        }
        if u1@.len() == 0 && u2@.len() == 0 {
            assert(u1@ =~= u2@);
        }
    }
    (Real64 { bits: COPY_TITLE_SIMILARITY }).less(by_title) && (Real64 {
        bits: COPY_UPLOADER_SIMILARITY,
    }).less(by_uploader)
}

fn listed(list: &Vec<YtCandidate>, c: &YtCandidate) -> (r: bool)
    ensures
        r == already_listed(list@, *c),
{
    let mut i: usize = 0;
    while i < list.len()
        invariant
            i <= list@.len(),
            forall|k: int|
                0 <= k < i ==> (#[trigger] list@[k]).id@ != c.id@ && !looks_copied(list@[k], *c),
        decreases list@.len() - i,
    {
        if same_text(list[i].id.as_str(), c.id.as_str()) || copied_from(&list[i], c) {
            return true;
        }
        i += 1;
    }
    false
}

/// Drops repeated videos, and uploads that look like copies of an earlier one.
pub fn dedupe_candidates(candidates: Vec<YtCandidate>) -> (r: Vec<YtCandidate>)
    ensures
        r@ == deduped(candidates@),
{
    let mut out: Vec<YtCandidate> = Vec::new();
    let mut i: usize = 0;
    while i < candidates.len()
        invariant
            i <= candidates@.len(),
            out@ == deduped(candidates@.take(i as int)),
        decreases candidates@.len() - i,
    {
        proof {
            assert(candidates@.take(i + 1).drop_last() =~= candidates@.take(i as int));
        }
        if !listed(&out, &candidates[i]) {
            out.push(candidates[i].clone());
        }
        i += 1;
    }
    proof {
        assert(candidates@.take(i as int) =~= candidates@);
    }
    out
}

/// No two candidates that survive are the same video, and none looks copied
/// from an earlier survivor.
pub proof fn lemma_deduped_distinct(list: Seq<YtCandidate>, i: int, j: int)
    requires
        0 <= i < j < deduped(list).len(),
    ensures
        deduped(list)[i].id@ != deduped(list)[j].id@,
        !looks_copied(deduped(list)[i], deduped(list)[j]),
    decreases list.len(),
{
    if list.len() > 0 {
        let head = deduped(list.drop_last());
        if j < head.len() {
            lemma_deduped_distinct(list.drop_last(), i, j);
        } else {
            assert(deduped(list)[i] == head[i]);
        }
    }
}

/// Every candidate survives or is stood for by a survivor, and every survivor
/// is one of the candidates.
pub proof fn lemma_deduped_covers(list: Seq<YtCandidate>)
    ensures
        forall|k: int|
            0 <= k < list.len() ==> deduped(list).contains(#[trigger] list[k]) || already_listed(
                deduped(list),
                list[k],
            ),
        forall|k: int| 0 <= k < deduped(list).len() ==> list.contains(#[trigger] deduped(list)[k]),
        list.len() > 0 ==> deduped(list).len() > 0 && deduped(list)[0] == list[0],
    decreases list.len(),
{
    if list.len() > 0 {
        let front = list.drop_last();
        let head = deduped(front);
        let all = deduped(list);
        lemma_deduped_covers(front);
        assert forall|k: int| 0 <= k < list.len() implies all.contains(#[trigger] list[k])
            || already_listed(all, list[k]) by {
            if k < front.len() {
                assert(front[k] == list[k]);
                if head.contains(list[k]) {
                    let m = choose|m: int| 0 <= m < head.len() && head[m] == list[k];
                    assert(all[m] == list[k]);
                } else {
                    let m = choose|m: int|
                        0 <= m < head.len() && ((#[trigger] head[m]).id@ == list[k].id@
                            || looks_copied(head[m], list[k]));
                    assert(all[m] == head[m]);
                }
            } else if !already_listed(head, list[k]) {
                assert(all[head.len() as int] == list[k]);
            }
        }
        assert forall|k: int| 0 <= k < all.len() implies list.contains(#[trigger] all[k]) by {
            if k < head.len() {
                assert(all[k] == head[k]);
                let m = choose|m: int| 0 <= m < front.len() && front[m] == head[k];
                assert(list[m] == all[k]);
            } else {
                assert(list[list.len() - 1] == all[k]);
            }
        }
        if front.len() > 0 {
            assert(front[0] == list[0]);
        } else {
            assert(!already_listed(head, list.last()));
        }
    }
}

/// The badges mark an official upload.
pub open spec fn official_flags(flags: Seq<Seq<char>>) -> bool {
    flags.contains("official"@) || flags.contains("official-upload"@)
}

/// Whether the badges mark an official channel or an official phrase.
pub fn is_official_flags(flags: &Vec<String>) -> (r: bool)
    ensures
        r == official_flags(texts(flags@)),
{
    list_has(flags, "official") || list_has(flags, "official-upload")
}

/// The penalty can be subtracted without leaving the range of the score.
pub open spec fn can_penalise(rc: RankedView) -> bool {
    match rc.breakdown {
        Some(b) => b.fan_upload >= i32::MIN - FAN_UPLOAD_PENALTY && b.total >= i32::MIN
            - FAN_UPLOAD_PENALTY,
        None => rc.score >= i32::MIN - FAN_UPLOAD_PENALTY,
    }
}

/// A candidate with the penalty of a fan upload and the badge for it.
pub open spec fn as_fan_upload(rc: RankedView) -> RankedView {
    let flags = if rc.flags.contains("fan-upload"@) {
        rc.flags
    } else {
        rc.flags.push("fan-upload"@)
    };
    match rc.breakdown {
        Some(b) => {
            let total = (b.total + FAN_UPLOAD_PENALTY) as i32;
            RankedView {
                score: total,
                breakdown: Some(
                    ScoreBreakdown {
                        fan_upload: (b.fan_upload + FAN_UPLOAD_PENALTY) as i32,
                        total,
                        ..b
                    },
                ),
                flags,
                ..rc
            }
        },
        None => RankedView { score: (rc.score + FAN_UPLOAD_PENALTY) as i32, flags, ..rc },
    }
}

/// Some candidate of the list is official.
pub open spec fn any_official(list: Seq<RankedView>) -> bool {
    exists|i: int| 0 <= i < list.len() && official_flags((#[trigger] list[i]).flags)
}

/// The list with every upload that is not official penalised, where some upload
/// is official; else the list as it is.
pub open spec fn fan_penalised(list: Seq<RankedView>) -> Seq<RankedView> {
    if any_official(list) {
        list.map_values(
            |rc: RankedView| if official_flags(rc.flags) { rc } else { as_fan_upload(rc) },
        )
    } else {
        list
    }
}

fn mark_fan_upload(rc: &mut RankedCandidate)
    requires
        can_penalise(old(rc)@),
    ensures
        final(rc)@ == as_fan_upload(old(rc)@),
{
    match rc.breakdown {
        Some(b) => {
            let total: i32 = b.total + FAN_UPLOAD_PENALTY;
            let fan_upload: i32 = b.fan_upload + FAN_UPLOAD_PENALTY;
            rc.breakdown = Some(ScoreBreakdown { fan_upload, total, ..b });
            rc.score = total;
        },
        None => {
            rc.score = rc.score + FAN_UPLOAD_PENALTY;
        },
    }
    if !list_has(&rc.flags, "fan-upload") {
        let ghost before = rc.flags@;
        rc.flags.push(String::from_str("fan-upload"));
        proof {
            assert(texts(rc.flags@) =~= texts(before).push("fan-upload"@));
        }
    }
}

/// Penalises every upload that is not official, when the list holds an
/// official one. Does nothing otherwise.
pub fn apply_fan_upload_penalty(ranked: &mut Vec<RankedCandidate>)
    requires
        any_official(ranked_views(old(ranked)@)) ==> forall|i: int|
            0 <= i < old(ranked)@.len() && !official_flags((#[trigger] old(ranked)@[i])@.flags)
                ==> can_penalise(old(ranked)@[i]@),
    ensures
        ranked_views(final(ranked)@) == fan_penalised(ranked_views(old(ranked)@)),
{
    let ghost start = ranked_views(ranked@);
    let n = ranked.len();
    let mut found: bool = false;
    let mut k: usize = 0;
    while k < n && !found
        invariant
            n == ranked@.len(),
            k <= n,
            start == ranked_views(ranked@),
            found ==> any_official(start),
            !found ==> forall|j: int| 0 <= j < k ==> !official_flags((#[trigger] start[j]).flags),
        decreases n - k + (if found { 0int } else { 1int }),
    {
        assert(start[k as int] == ranked@[k as int]@);
        if is_official_flags(&ranked[k].flags) {
            found = true;
        } else {
            k += 1;
        }
    }
    if !found {
        return;
    }
    assert forall|j: int| 0 <= j < n && !official_flags((#[trigger] start[j]).flags) implies can_penalise(
        start[j],
    ) by {
        assert(start[j] == ranked@[j]@);
    }
    let mut i: usize = 0;
    while i < n
        invariant
            n == ranked@.len(),
            start.len() == n,
            i <= n,
            forall|j: int| i <= j < n ==> (#[trigger] ranked@[j])@ == start[j],
            forall|j: int|
                0 <= j < n && !official_flags((#[trigger] start[j]).flags) ==> can_penalise(start[j]),
            forall|j: int|
                0 <= j < i ==> (#[trigger] ranked@[j])@ == (if official_flags(start[j].flags) {
                    start[j]
                } else {
                    as_fan_upload(start[j])
                }),
        decreases n - i,
    {
        let ghost before = ranked@;
        assert(before[i as int]@ == start[i as int]);
        if !is_official_flags(&ranked[i].flags) {
            mark_fan_upload(&mut ranked[i]);
        }
        assert(forall|j: int| 0 <= j < n && j != i ==> #[trigger] ranked@[j] == before[j]);
        i += 1;
    }
    proof {
        assert(ranked_views(ranked@) =~= fan_penalised(start));
    }
}

/// The score is the total of the breakdown, and the total is the sum of its
/// fields.
pub open spec fn in_sync(rc: RankedView) -> bool {
    rc.breakdown matches Some(b) && rc.score == b.total && b.balanced()
}

/// The penalty for fan uploads keeps score, total and fields in step.
pub proof fn lemma_fan_penalty_in_sync(list: Seq<RankedView>)
    requires
        forall|i: int|
            0 <= i < list.len() ==> in_sync(#[trigger] list[i]) && can_penalise(list[i]),
    ensures
        fan_penalised(list).len() == list.len(),
        forall|i: int| 0 <= i < list.len() ==> in_sync(#[trigger] fan_penalised(list)[i]),
{
    assert forall|i: int| 0 <= i < list.len() implies in_sync(#[trigger] fan_penalised(list)[i]) by {
        assert(in_sync(list[i]));
    }
}

/// The penalty leaves official uploads alone, takes the same points off every
/// other one, and does nothing where no upload is official.
pub proof fn lemma_fan_penalty_effect(list: Seq<RankedView>, i: int)
    requires
        0 <= i < list.len(),
        in_sync(list[i]),
        can_penalise(list[i]),
    ensures
        official_flags(list[i].flags) ==> fan_penalised(list)[i] == list[i],
        !any_official(list) ==> fan_penalised(list) == list,
        any_official(list) && !official_flags(list[i].flags) ==> fan_penalised(list)[i].score
            == list[i].score - 10 && fan_penalised(list)[i].flags.contains("fan-upload"@),
{
    let f = as_fan_upload(list[i]).flags;
    if !list[i].flags.contains("fan-upload"@) {
        assert(f.last() == "fan-upload"@);
    }
}

/// Two candidates are uploads of the same song: their titles have the same
/// tokens, decorations aside.
pub open spec fn same_song(a: YtCandidate, b: YtCandidate) -> bool {
    core_tokens(a.title@) == core_tokens(b.title@)
}

/// The greatest view count among the first `n` candidates that are other
/// uploads of the song at `i`; zero where there is none.
pub open spec fn rival_views(list: Seq<RankedView>, i: int, n: int) -> Real64
    decreases n,
{
    if n <= 0 {
        Real64 { bits: 0 }
    } else {
        let head = rival_views(list, i, n - 1);
        if n - 1 != i && same_song(list[n - 1].base, list[i].base) {
            head.spec_max(list[n - 1].base.view_count)
        } else {
            head
        }
    }
}

/// The bonus that the views of the candidate at `i` earn it over other uploads
/// of the same song. Nothing without such an upload, without view counts, or
/// where a bonus was given before.
pub open spec fn lean_of(list: Seq<RankedView>, i: int) -> i32 {
    let own = list[i].base.view_count;
    let rival = rival_views(list, i, list.len() as int);
    let zero = Real64 { bits: 0 };
    let dominant = Real64 { bits: VIEW_COUNT_DOMINANT_THRESHOLD };
    let strong = Real64 { bits: VIEW_COUNT_STRONG_THRESHOLD };
    if list[i].breakdown matches Some(b) && b.view_count != 0 {
        0
    } else if own.spec_le(zero) || rival.spec_le(zero) {
        0
    } else if dominant.spec_le(own) && rival.spec_lt(dominant) {
        VIEW_COUNT_DOMINANT_BONUS
    } else if strong.spec_le(own) && rival.spec_lt(strong) {
        VIEW_COUNT_STRONG_BONUS
    } else {
        0
    }
}

/// A candidate with a view-count bonus.
pub open spec fn leaned(rc: RankedView, lean: i32) -> RankedView {
    if lean == 0 {
        rc
    } else {
        RankedView {
            score: (rc.score + lean) as i32,
            breakdown: match rc.breakdown {
                Some(b) => Some(
                    ScoreBreakdown {
                        view_count: (b.view_count + lean) as i32,
                        total: (b.total + lean) as i32,
                        ..b
                    },
                ),
                None => None,
            },
            ..rc
        }
    }
}

/// The list with every view-count bonus given.
pub open spec fn view_leaned(list: Seq<RankedView>) -> Seq<RankedView> {
    Seq::new(list.len(), |i: int| leaned(list[i], lean_of(list, i)))
}

/// A bonus can be added without leaving the range of the score.
pub open spec fn can_lean(rc: RankedView) -> bool {
    rc.score <= i32::MAX - VIEW_COUNT_DOMINANT_BONUS && (rc.breakdown matches Some(b) ==> b.total
        <= i32::MAX - VIEW_COUNT_DOMINANT_BONUS)
}

/// Every bonus that is due can be added.
pub open spec fn can_lean_all(list: Seq<RankedView>) -> bool {
    forall|i: int|
        0 <= i < list.len() && lean_of(list, i) != 0 ==> can_lean(#[trigger] list[i])
}

fn same_list(a: &Vec<String>, b: &Vec<String>) -> (r: bool)
    ensures
        r == (texts(a@) == texts(b@)),
{
    if a.len() != b.len() {
        proof {
            assert(texts(a@).len() != texts(b@).len());
        }
        return false;
    }
    let mut i: usize = 0;
    while i < a.len()
        invariant
            a@.len() == b@.len(),
            i <= a@.len(),
            forall|k: int| 0 <= k < i ==> a@[k]@ == b@[k]@,
        decreases a@.len() - i,
    {
        if !same_text(a[i].as_str(), b[i].as_str()) {
            proof {
                assert(texts(a@)[i as int] != texts(b@)[i as int]);
            }
            return false;
        }
        i += 1;
    }
    proof {
        assert(texts(a@) =~= texts(b@));
    }
    true
}

fn title_tokens(c: &YtCandidate) -> (r: Vec<String>)
    ensures
        texts(r@) == core_tokens(c.title@),
{
    let core = strip_decorations(c.title.as_str());
    tokenize(core.as_str())
}

/// The token lists belong to the candidates' titles.
spec fn tokens_belong(sets: Seq<Vec<String>>, list: Seq<RankedView>) -> bool {
    sets.len() == list.len() && forall|k: int|
        0 <= k < sets.len() ==> texts((#[trigger] sets[k])@) == core_tokens(list[k].base.title@)
}

fn best_rival(ranked: &Vec<RankedCandidate>, sets: &Vec<Vec<String>>, i: usize) -> (r: Real64)
    requires
        i < ranked@.len(),
        tokens_belong(sets@, ranked_views(ranked@)),
    ensures
        r == rival_views(ranked_views(ranked@), i as int, ranked@.len() as int),
{
    let ghost list = ranked_views(ranked@);
    let mut best = Real64 { bits: 0 };
    let mut j: usize = 0;
    while j < ranked.len()
        invariant
            list == ranked_views(ranked@),
            i < ranked@.len(),
            j <= ranked@.len(),
            tokens_belong(sets@, list),
            best == rival_views(list, i as int, j as int),
        decreases ranked@.len() - j,
    {
        assert(list[j as int] == ranked@[j as int]@);
        assert(texts(sets@[j as int]@) == core_tokens(list[j as int].base.title@));
        assert(texts(sets@[i as int]@) == core_tokens(list[i as int].base.title@));
        if j != i && same_list(&sets[j], &sets[i]) {
            best = best.greater_of(ranked[j].base.view_count);
        }
        j += 1;
    }
    best
}

fn view_bonus(ranked: &Vec<RankedCandidate>, sets: &Vec<Vec<String>>, i: usize) -> (r: i32)
    requires
        i < ranked@.len(),
        tokens_belong(sets@, ranked_views(ranked@)),
    ensures
        r == lean_of(ranked_views(ranked@), i as int),
        0 <= r <= VIEW_COUNT_DOMINANT_BONUS,
{
    assert(ranked_views(ranked@)[i as int] == ranked@[i as int]@);
    match ranked[i].breakdown {
        Some(b) => {
            if b.view_count != 0 {
                return 0;
            }
        },
        None => {},
    }
    let own = ranked[i].base.view_count;
    if own.at_most(Real64 { bits: 0 }) {
        return 0;
    }
    let rival = best_rival(ranked, sets, i);
    if rival.at_most(Real64 { bits: 0 }) {
        return 0;
    }
    let dominant = Real64 { bits: VIEW_COUNT_DOMINANT_THRESHOLD };
    let strong = Real64 { bits: VIEW_COUNT_STRONG_THRESHOLD };
    if dominant.at_most(own) && rival.less(dominant) {
        VIEW_COUNT_DOMINANT_BONUS
    } else if strong.at_most(own) && rival.less(strong) {
        VIEW_COUNT_STRONG_BONUS
    } else {
        0
    }
}

fn add_bonus(rc: &mut RankedCandidate, lean: i32)
    requires
        lean != 0 ==> can_lean(old(rc)@),
        0 <= lean <= VIEW_COUNT_DOMINANT_BONUS,
        lean != 0 ==> (old(rc).breakdown matches Some(b) ==> b.view_count == 0),
    ensures
        final(rc)@ == leaned(old(rc)@, lean),
{
    if lean != 0 {
        match rc.breakdown {
            Some(b) => {
                let view_count: i32 = b.view_count + lean;
                let total: i32 = b.total + lean;
                rc.breakdown = Some(ScoreBreakdown { view_count, total, ..b });
            },
            None => {},
        }
        rc.score = rc.score + lean;
    }
}

proof fn lemma_rival_views_base(a: Seq<RankedView>, b: Seq<RankedView>, i: int, n: int)
    requires
        a.len() == b.len(),
        0 <= i < a.len(),
        n <= a.len(),
        forall|k: int| 0 <= k < a.len() ==> (#[trigger] a[k]).base == b[k].base,
    ensures
        rival_views(a, i, n) == rival_views(b, i, n),
    decreases n,
{
    if n > 0 {
        lemma_rival_views_base(a, b, i, n - 1);
        assert(a[n - 1].base == b[n - 1].base);
        assert(a[i].base == b[i].base);
    }
}

/// Gives the upload of a song whose views tower over those of its rivals a
/// small bonus. Different songs are never compared, and giving the bonus twice
/// is giving it once.
pub fn apply_view_count_lean(ranked: &mut Vec<RankedCandidate>)
    requires
        can_lean_all(ranked_views(old(ranked)@)),
    ensures
        ranked_views(final(ranked)@) == view_leaned(ranked_views(old(ranked)@)),
{
    let ghost start = ranked_views(ranked@);
    let n = ranked.len();
    let mut sets: Vec<Vec<String>> = Vec::new();
    let mut k: usize = 0;
    while k < n
        invariant
            n == ranked@.len(),
            start == ranked_views(ranked@),
            k <= n,
            sets@.len() == k,
            forall|j: int|
                0 <= j < k ==> texts((#[trigger] sets@[j])@) == core_tokens(start[j].base.title@),
        decreases n - k,
    {
        assert(start[k as int] == ranked@[k as int]@);
        sets.push(title_tokens(&ranked[k].base));
        k += 1;
    }
    let mut i: usize = 0;
    while i < n
        invariant
            n == ranked@.len(),
            start.len() == n,
            i <= n,
            tokens_belong(sets@, start),
            forall|j: int| i <= j < n ==> (#[trigger] ranked@[j])@ == start[j],
            can_lean_all(start),
            forall|j: int|
                0 <= j < i ==> (#[trigger] ranked@[j])@ == leaned(start[j], lean_of(start, j)),
        decreases n - i,
    {
        let ghost before = ranked@;
        let ghost now = ranked_views(before);
        proof {
            assert forall|j: int| 0 <= j < n implies (#[trigger] now[j]).base == start[j].base by {
                assert(now[j] == before[j]@);
            }
            assert(tokens_belong(sets@, now)) by {
                assert forall|j: int| 0 <= j < sets@.len() implies texts((#[trigger] sets@[j])@)
                    == core_tokens(now[j].base.title@) by {
                    assert(now[j].base == start[j].base);
                }
            }
            lemma_rival_views_base(now, start, i as int, n as int);
            assert(now[i as int] == before[i as int]@);
            assert(before[i as int]@ == start[i as int]);
        }
        let lean = view_bonus(ranked, &sets, i);
        add_bonus(&mut ranked[i], lean);
        assert(forall|j: int| 0 <= j < n && j != i ==> #[trigger] ranked@[j] == before[j]);
        i += 1;
    }
    proof {
        assert(ranked_views(ranked@) =~= view_leaned(start));
    }
}

/// Giving the view-count bonus twice is giving it once, for candidates that
/// carry a breakdown: after the first time no bonus is due.
pub proof fn lemma_view_lean_idempotent(list: Seq<RankedView>)
    requires
        forall|i: int| 0 <= i < list.len() ==> (#[trigger] list[i]).breakdown is Some,
    ensures
        forall|i: int|
            0 <= i < list.len() ==> #[trigger] lean_of(view_leaned(list), i) == 0,
        can_lean_all(view_leaned(list)),
        view_leaned(view_leaned(list)) == view_leaned(list),
{
    let once = view_leaned(list);
    assert forall|i: int| 0 <= i < list.len() implies #[trigger] lean_of(once, i) == 0 by {
        assert(list[i].breakdown is Some);
        assert forall|k: int| 0 <= k < once.len() implies (#[trigger] once[k]).base
            == list[k].base by {}
        lemma_rival_views_base(once, list, i, list.len() as int);
    }
    assert(view_leaned(once) =~= once);
}

/// The view-count bonus keeps score, total and fields in step.
pub proof fn lemma_view_lean_in_sync(list: Seq<RankedView>)
    requires
        forall|i: int| 0 <= i < list.len() ==> in_sync(#[trigger] list[i]),
        can_lean_all(list),
    ensures
        forall|i: int| 0 <= i < list.len() ==> in_sync(#[trigger] view_leaned(list)[i]),
{
    assert forall|i: int| 0 <= i < list.len() implies in_sync(#[trigger] view_leaned(list)[i]) by {
        assert(in_sync(list[i]));
    }
}

proof fn lemma_rival_found(list: Seq<RankedView>, i: int, n: int)
    requires
        0 <= i < list.len(),
        n <= list.len(),
        !rival_views(list, i, n).spec_le(Real64 { bits: 0 }),
    ensures
        exists|j: int|
            0 <= j < n && j != i && same_song((#[trigger] list[j]).base, list[i].base)
                && !list[j].base.view_count.spec_le(Real64 { bits: 0 }),
    decreases n,
{
    if n > 0 {
        let head = rival_views(list, i, n - 1);
        if !head.spec_le(Real64 { bits: 0 }) {
            lemma_rival_found(list, i, n - 1);
        } else {
            assert(same_song(list[n - 1].base, list[i].base));
        }
    }
}

/// Different songs are never compared: who gets a bonus has a rival with
/// another upload of the same song and a view count of its own.
pub proof fn lemma_view_lean_same_song(list: Seq<RankedView>, i: int)
    requires
        0 <= i < list.len(),
        lean_of(list, i) != 0,
    ensures
        exists|j: int|
            0 <= j < list.len() && j != i && same_song((#[trigger] list[j]).base, list[i].base)
                && !list[j].base.view_count.spec_le(Real64 { bits: 0 }),
{
    lemma_rival_found(list, i, list.len() as int);
}

/// The view count reported for a video, if any.
pub open spec fn reported_views(counts: Seq<(String, Real64)>, id: Seq<char>) -> Option<Real64>
    decreases counts.len(),
{
    if counts.len() == 0 {
        None
    } else if counts[0].0@ == id {
        Some(counts[0].1)
    } else {
        reported_views(counts.drop_first(), id)
    }
}

/// A candidate with its view count filled in, where one was reported and none
/// was known.
pub open spec fn enriched_one(rc: RankedView, counts: Seq<(String, Real64)>) -> RankedView {
    let zero = Real64 { bits: 0 };
    match reported_views(counts, rc.base.id@) {
        Some(v) => if zero.spec_lt(v) && rc.base.view_count.spec_le(zero) {
            RankedView { base: YtCandidate { view_count: v, ..rc.base }, ..rc }
        } else {
            rc
        },
        None => rc,
    }
}

/// The list with the view counts of its first few candidates filled in.
pub open spec fn enriched(list: Seq<RankedView>, counts: Seq<(String, Real64)>) -> Seq<RankedView> {
    Seq::new(
        list.len(),
        |i: int| if i < VIEW_COUNT_ENRICH_TOP_N { enriched_one(list[i], counts) } else { list[i] },
    )
}

/// The ids of the videos whose view counts are worth looking up.
pub fn view_count_ids(ranked: &Vec<RankedCandidate>) -> (r: Vec<String>)
    ensures
        r@.len() == if ranked@.len() < VIEW_COUNT_ENRICH_TOP_N {
            ranked@.len()
        } else {
            VIEW_COUNT_ENRICH_TOP_N as nat
        },
        forall|i: int| 0 <= i < r@.len() ==> (#[trigger] r@[i])@ == ranked@[i].base.id@,
{
    let mut out: Vec<String> = Vec::new();
    let mut i: usize = 0;
    while i < ranked.len() && i < VIEW_COUNT_ENRICH_TOP_N
        invariant
            i <= ranked@.len(),
            i <= VIEW_COUNT_ENRICH_TOP_N,
            out@.len() == i,
            forall|k: int| 0 <= k < i ==> (#[trigger] out@[k])@ == ranked@[k].base.id@,
        decreases ranked@.len() - i,
    {
        out.push(ranked[i].base.id.clone());
        i += 1;
    }
    out
}

fn find_views(counts: &Vec<(String, Real64)>, id: &str) -> (r: Option<Real64>)
    ensures
        r == reported_views(counts@, id@),
{
    proof {
        assert(counts@.skip(0) =~= counts@);
    }
    let mut i: usize = 0;
    while i < counts.len()
        invariant
            i <= counts@.len(),
            reported_views(counts@, id@) == reported_views(counts@.skip(i as int), id@),
        decreases counts@.len() - i,
    {
        if same_text(counts[i].0.as_str(), id) {
            return Some(counts[i].1);
        }
        proof {
            assert(counts@.skip(i as int).drop_first() =~= counts@.skip(i + 1));
        }
        i += 1;
    }
    None
}

fn fill_views(rc: &mut RankedCandidate, counts: &Vec<(String, Real64)>)
    ensures
        final(rc)@ == enriched_one(old(rc)@, counts@),
{
    let zero = Real64 { bits: 0 };
    match find_views(counts, rc.base.id.as_str()) {
        Some(v) => {
            if zero.less(v) && rc.base.view_count.at_most(zero) {
                rc.base.view_count = v;
            }
        },
        None => {},
    }
}

/// Fills in the view counts that a lookup reported, for the first few
/// candidates, where none was known.
pub fn enrich_with_view_counts(ranked: &mut Vec<RankedCandidate>, counts: &Vec<(String, Real64)>)
    ensures
        ranked_views(final(ranked)@) == enriched(ranked_views(old(ranked)@), counts@),
{
    let ghost start = ranked_views(ranked@);
    let n = ranked.len();
    let mut i: usize = 0;
    while i < n && i < VIEW_COUNT_ENRICH_TOP_N
        invariant
            n == ranked@.len(),
            start.len() == n,
            i <= n,
            i <= VIEW_COUNT_ENRICH_TOP_N,
            forall|j: int| i <= j < n ==> (#[trigger] ranked@[j])@ == start[j],
            forall|j: int| 0 <= j < i ==> (#[trigger] ranked@[j])@ == enriched_one(start[j], counts@),
        decreases n - i,
    {
        let ghost before = ranked@;
        assert(before[i as int]@ == start[i as int]);
        fill_views(&mut ranked[i], counts);
        assert(forall|j: int| 0 <= j < n && j != i ==> #[trigger] ranked@[j] == before[j]);
        i += 1;
    }
    proof {
        assert(ranked_views(ranked@) =~= enriched(start, counts@));
    }
}

/// The scores of a list.
pub open spec fn scores(list: Seq<RankedView>) -> Seq<i64> {
    list.map_values(|rc: RankedView| rc.score as i64)
}

/// The list by score, best first; equal scores keep their order.
pub open spec fn by_score(list: Seq<RankedView>) -> Seq<RankedView> {
    sorted_by_key(list, scores(list))
}

/// Orders a ranking by score, best first.
pub fn sort_by_score(ranked: &mut Vec<RankedCandidate>)
    ensures
        ranked_views(final(ranked)@) == by_score(ranked_views(old(ranked)@)),
{
    let ghost start = ranked_views(ranked@);
    let n = ranked.len();
    let mut keys: Vec<i64> = Vec::new();
    let mut k: usize = 0;
    while k < n
        invariant
            n == ranked@.len(),
            start == ranked_views(ranked@),
            k <= n,
            keys@ == scores(start).take(k as int),
        decreases n - k,
    {
        assert(start[k as int] == ranked@[k as int]@);
        keys.push(ranked[k].score as i64);
        assert(keys@ =~= scores(start).take(k + 1));
        k += 1;
    }
    assert(keys@ =~= scores(start));
    let p = descending_order(&keys);
    let mut out: Vec<RankedCandidate> = Vec::new();
    let mut i: usize = 0;
    while i < n
        invariant
            n == ranked@.len(),
            start == ranked_views(ranked@),
            p@.len() == n,
            indices(p@) == descending(scores(start)),
            forall|j: int| 0 <= j < p@.len() ==> #[trigger] p@[j] < n,
            i <= n,
            out@.len() == i,
            forall|j: int| 0 <= j < i ==> (#[trigger] out@[j])@ == start[p@[j] as int],
        decreases n - i,
    {
        out.push(ranked[p[i]].clone());
        assert(start[p@[i as int] as int] == ranked@[p@[i as int] as int]@);
        i += 1;
    }
    proof {
        let q = indices(p@);
        assert(ranked_views(out@) =~= by_score(start)) by {
            assert forall|j: int| 0 <= j < n implies ranked_views(out@)[j] == #[trigger] by_score(
                start,
            )[j] by {
                assert(q[j] == p@[j]);
                assert(out@[j]@ == start[p@[j] as int]);
            }
        }
    }
    *ranked = out;
}

/// A candidate with its own score, before it is compared with others.
pub open spec fn scored(q: QueryView, c: YtCandidate) -> RankedView {
    RankedView {
        base: c,
        score: score_of(q, c).total,
        breakdown: Some(score_of(q, c)),
        flags: flags_of(q, c),
    }
}

/// Every candidate with its own score.
pub open spec fn all_scored(q: QueryView, list: Seq<YtCandidate>) -> Seq<RankedView> {
    list.map_values(|c: YtCandidate| scored(q, c))
}

/// The ranking of what a search found: repeats dropped, each candidate scored,
/// fan uploads penalised, view counts considered, best first.
pub open spec fn ranking(q: QueryView, fetched: Seq<YtCandidate>) -> Seq<RankedView> {
    by_score(view_leaned(fan_penalised(all_scored(q, deduped(fetched)))))
}

/// The first `limit` items of a list; all of them where `limit` is zero.
pub open spec fn at_most<A>(list: Seq<A>, limit: nat) -> Seq<A> {
    if limit > 0 && list.len() > limit {
        list.take(limit as int)
    } else {
        list
    }
}

/// What to search for, and how much of it.
#[derive(Debug)]
pub struct RankPlan {
    pub variants: Vec<String>,
    pub per_variant_limit: usize,
}

/// The searches that a ranking needs. `None` for a blank query.
pub fn rank_plan(query: &str, limit: usize) -> (r: Option<RankPlan>)
    requires
        limit <= usize::MAX - PER_VARIANT_LIMIT_BUMP,
    ensures
        match r {
            Some(plan) => crate::youtube::parsed_query(query@) matches Some(q) && texts(
                plan.variants@,
            ) == crate::youtube::variants_of(q.raw) && plan.per_variant_limit == (if limit
                + PER_VARIANT_LIMIT_BUMP > MIN_PER_VARIANT_LIMIT {
                limit + PER_VARIANT_LIMIT_BUMP
            } else {
                MIN_PER_VARIANT_LIMIT as int
            }),
            None => crate::youtube::parsed_query(query@) is None,
        },
        r matches Some(plan) ==> plan.per_variant_limit >= 8 && plan.per_variant_limit >= limit + 6
            && (plan.per_variant_limit == 8 || plan.per_variant_limit == limit + 6),
{
    match ParsedQuery::parse(query) {
        Some(pq) => {
            let variants = crate::youtube::query_variants(pq.raw.as_str());
            let wide: usize = limit + PER_VARIANT_LIMIT_BUMP;
            let per_variant_limit: usize = if wide > MIN_PER_VARIANT_LIMIT {
                wide
            } else {
                MIN_PER_VARIANT_LIMIT
            };
            Some(RankPlan { variants, per_variant_limit })
        },
        None => None,
    }
}

proof fn lemma_ranking_safe(list: Seq<RankedView>)
    requires
        forall|i: int|
            0 <= i < list.len() ==> in_sync(#[trigger] list[i]) && -1000 <= list[i].score <= 500
                && list[i].breakdown->0.fan_upload == 0 && list[i].breakdown->0.view_count == 0,
    ensures
        forall|i: int| 0 <= i < list.len() ==> can_penalise(#[trigger] list[i]),
        forall|i: int|
            0 <= i < list.len() ==> can_lean(#[trigger] fan_penalised(list)[i]) && in_sync(
                fan_penalised(list)[i],
            ) && -1010 <= fan_penalised(list)[i].score <= 500,
        forall|i: int|
            0 <= i < list.len() ==> in_sync(#[trigger] view_leaned(fan_penalised(list))[i]) && -1010
                <= view_leaned(fan_penalised(list))[i].score <= 506,
{
    let f = fan_penalised(list);
    assert forall|i: int| 0 <= i < list.len() implies can_penalise(#[trigger] list[i]) by {}
    assert forall|i: int| 0 <= i < list.len() implies can_lean(#[trigger] f[i]) && in_sync(f[i])
        && -1010 <= f[i].score <= 500 by {
        assert(in_sync(list[i]));
    }
    lemma_view_lean_in_sync(f);
    assert forall|i: int| 0 <= i < list.len() implies in_sync(#[trigger] view_leaned(f)[i]) && -1010
        <= view_leaned(f)[i].score <= 506 by {
        assert(in_sync(f[i]) && can_lean(f[i]));
    }
}

/// A ranking is in order: best score first, every score the sum of its fields,
/// no video twice, and with a limit at most so many candidates.
pub open spec fn well_ranked(list: Seq<RankedView>, limit: nat) -> bool {
    &&& limit > 0 ==> list.len() <= limit
    &&& forall|i: int| 0 <= i < list.len() ==> in_sync(#[trigger] list[i])
    &&& forall|i: int, j: int|
        #![trigger list[i], list[j]]
        0 <= i < j < list.len() ==> list[i].score >= list[j].score
    &&& forall|i: int, j: int|
        #![trigger list[i], list[j]]
        0 <= i < j < list.len() ==> list[i].base.id@ != list[j].base.id@
}

proof fn lemma_by_score_order(v: Seq<RankedView>)
    requires
        forall|i: int| 0 <= i < v.len() ==> in_sync(#[trigger] v[i]),
        forall|i: int, j: int|
            #![trigger v[i], v[j]]
            0 <= i < j < v.len() ==> v[i].base.id@ != v[j].base.id@,
    ensures
        by_score(v).len() == v.len(),
        well_ranked(by_score(v), 0),
{
    let keys = scores(v);
    let s = by_score(v);
    lemma_descending_exists(keys);
    let p = descending(keys);
    assert forall|i: int| 0 <= i < s.len() implies in_sync(#[trigger] s[i]) by {
        assert(s[i] == v[p[i]]);
    }
    assert forall|i: int, j: int|
        #![trigger s[i], s[j]]
        0 <= i < j < s.len() implies s[i].score >= s[j].score by {
        crate::order::lemma_sorted_by_key(v, keys, i, j);
        assert(keys[p[i]] == v[p[i]].score && keys[p[j]] == v[p[j]].score);
    }
    assert forall|i: int, j: int|
        #![trigger s[i], s[j]]
        0 <= i < j < s.len() implies s[i].base.id@ != s[j].base.id@ by {
        crate::order::lemma_sorted_by_key(v, keys, i, j);
        crate::order::lemma_descending_complete(keys, p, p[i]);
        assert(s[i] == v[p[i]] && s[j] == v[p[j]]);
        if p[i] < p[j] {
            assert(v[p[i]].base.id@ != v[p[j]].base.id@);
        } else {
            assert(v[p[j]].base.id@ != v[p[i]].base.id@);
        }
    }
}

proof fn lemma_score_range(v: Seq<RankedView>, lo: int, hi: int)
    requires
        forall|i: int| 0 <= i < v.len() ==> lo <= (#[trigger] v[i]).score <= hi,
    ensures
        by_score(v).len() == v.len(),
        forall|i: int| 0 <= i < v.len() ==> lo <= (#[trigger] by_score(v)[i]).score <= hi,
{
    lemma_descending_exists(scores(v));
    let p = descending(scores(v));
    assert forall|i: int| 0 <= i < v.len() implies lo <= (#[trigger] by_score(v)[i]).score <= hi by {
        assert(by_score(v)[i] == v[p[i]]);
    }
}

proof fn lemma_passes_keep_ids(q: QueryView, fetched: Seq<YtCandidate>)
    ensures
        ({
            let v = view_leaned(fan_penalised(all_scored(q, deduped(fetched))));
            &&& v.len() == deduped(fetched).len()
            &&& forall|i: int, j: int|
                #![trigger v[i], v[j]]
                0 <= i < j < v.len() ==> v[i].base.id@ != v[j].base.id@
        }),
{
    let d = deduped(fetched);
    let first = all_scored(q, d);
    let f = fan_penalised(first);
    let v = view_leaned(f);
    assert forall|i: int| 0 <= i < d.len() implies (#[trigger] v[i]).base == d[i] by {
        assert(first[i].base == d[i]);
        assert(f[i].base == first[i].base);
    }
    assert forall|i: int, j: int|
        #![trigger v[i], v[j]]
        0 <= i < j < v.len() implies v[i].base.id@ != v[j].base.id@ by {
        lemma_deduped_distinct(fetched, i, j);
    }
}

fn score_all(pq: &ParsedQuery, list: Vec<YtCandidate>) -> (r: Vec<RankedCandidate>)
    ensures
        ranked_views(r@) == all_scored(pq@, list@),
        forall|i: int|
            0 <= i < r@.len() ==> in_sync((#[trigger] ranked_views(r@)[i])) && -1000
                <= ranked_views(r@)[i].score <= 500 && ranked_views(r@)[i].breakdown->0.fan_upload
                == 0 && ranked_views(r@)[i].breakdown->0.view_count == 0,
{
    let mut out: Vec<RankedCandidate> = Vec::new();
    let mut i: usize = 0;
    while i < list.len()
        invariant
            i <= list@.len(),
            out@.len() == i,
            forall|k: int|
                0 <= k < i ==> (#[trigger] out@[k])@ == scored(pq@, list@[k]) && in_sync(out@[k]@)
                    && -1000 <= out@[k].score <= 500,
        decreases list@.len() - i,
    {
        let (b, flags) = score_candidate(pq, &list[i]);
        out.push(
            RankedCandidate { base: list[i].clone(), score: b.total, breakdown: Some(b), flags },
        );
        i += 1;
    }
    proof {
        assert(ranked_views(out@) =~= all_scored(pq@, list@)) by {
            assert forall|k: int| 0 <= k < list@.len() implies ranked_views(out@)[k]
                == #[trigger] all_scored(pq@, list@)[k] by {
                assert(out@[k]@ == scored(pq@, list@[k]));
            }
        }
        assert forall|k: int| 0 <= k < out@.len() implies in_sync((#[trigger] ranked_views(out@)[k]))
            && -1000 <= ranked_views(out@)[k].score <= 500 && ranked_views(
            out@,
        )[k].breakdown->0.fan_upload == 0 && ranked_views(out@)[k].breakdown->0.view_count == 0 by {
            assert(out@[k]@ == scored(pq@, list@[k]));
        }
    }
    out
}

/// Ranks what the searches for a query found, and keeps the best `limit`
/// candidates (all of them where `limit` is zero). A blank query ranks nothing.
pub fn rank_query(query: &str, limit: usize, fetched: Vec<YtCandidate>) -> (r: Vec<RankedCandidate>)
    ensures
        match crate::youtube::parsed_query(query@) {
            Some(q) => ranked_views(r@) == at_most(ranking(q, fetched@), limit as nat),
            None => r@.len() == 0,
        },
        well_ranked(ranked_views(r@), limit as nat),
        forall|i: int| 0 <= i < r@.len() ==> -1010 <= (#[trigger] r@[i]).score <= 506,
{
    match ParsedQuery::parse(query) {
        Some(pq) => {
            let unique = dedupe_candidates(fetched);
            let mut ranked = score_all(&pq, unique);
            let ghost first = ranked_views(ranked@);
            proof {
                lemma_ranking_safe(first);
                assert forall|i: int| 0 <= i < ranked@.len() implies can_penalise(
                    (#[trigger] ranked@[i])@,
                ) by {
                    assert(first[i] == ranked@[i]@);
                }
            }
            apply_fan_upload_penalty(&mut ranked);
            proof {
                let f = ranked_views(ranked@);
                assert(f.len() == first.len());
                assert forall|i: int| 0 <= i < ranked@.len() implies can_lean(
                    (#[trigger] ranked@[i])@,
                ) by {
                    assert(f[i] == ranked@[i]@);
                }
            }
            apply_view_count_lean(&mut ranked);
            let ghost v = ranked_views(ranked@);
            sort_by_score(&mut ranked);
            proof {
                lemma_passes_keep_ids(pq@, fetched@);
                lemma_by_score_order(v);
                lemma_score_range(v, -1010, 506);
            }
            let ghost full = ranked_views(ranked@);
            if limit > 0 && ranked.len() > limit {
                let ghost before = ranked@;
                ranked.truncate(limit);
                proof {
                    assert(ranked_views(ranked@) =~= ranked_views(before).take(limit as int));
                }
            }
            proof {
                let kept = ranked_views(ranked@);
                assert(forall|i: int| 0 <= i < kept.len() ==> #[trigger] kept[i] == full[i]);
                assert forall|i: int| 0 <= i < ranked@.len() implies -1010 <= (
                #[trigger] ranked@[i]).score <= 506 by {
                    assert(kept[i] == ranked@[i]@);
                    assert(kept[i] == full[i]);
                }
            }
            ranked
        },
        None => Vec::new(),
    }
}

/// A badge that rules out taking a candidate without asking.
pub open spec fn is_veto(flag: Seq<char>) -> bool {
    flag == "lyrics"@ || flag == "reaction"@ || flag == "nightcore"@ || flag == "bass-boosted"@
        || flag == "slowed"@ || flag == "reverb"@ || flag == "live"@ || flag == "karaoke"@ || flag
        == "remix"@ || flag == "cover"@ || flag == "instrumental"@ || flag == "artist-mismatch"@
}

/// Some badge rules the candidate out.
pub open spec fn vetoed(flags: Seq<Seq<char>>) -> bool {
    exists|i: int| 0 <= i < flags.len() && is_veto(#[trigger] flags[i])
}

fn veto(flag: &str) -> (r: bool)
    ensures
        r == is_veto(flag@),
{
    same_text(flag, "lyrics") || same_text(flag, "reaction") || same_text(flag, "nightcore")
        || same_text(flag, "bass-boosted") || same_text(flag, "slowed") || same_text(
        flag,
        "reverb",
    ) || same_text(flag, "live") || same_text(flag, "karaoke") || same_text(flag, "remix")
        || same_text(flag, "cover") || same_text(flag, "instrumental") || same_text(
        flag,
        "artist-mismatch",
    )
}

fn any_veto(flags: &Vec<String>) -> (r: bool)
    ensures
        r == vetoed(texts(flags@)),
{
    let mut i: usize = 0;
    while i < flags.len()
        invariant
            i <= flags@.len(),
            forall|k: int| 0 <= k < i ==> !is_veto(#[trigger] texts(flags@)[k]),
        decreases flags@.len() - i,
    {
        assert(texts(flags@)[i as int] == flags@[i as int]@);
        if veto(flags[i].as_str()) {
            return true;
        }
        i += 1;
    }
    false
}

/// Why the best candidate was taken.
#[derive(Clone, Copy, Debug, PartialEq, Eq, Structural)]
pub struct AutoPickMeta {
    /// The lead over the runner-up; the greatest integer without one.
    pub margin: i32,
    /// The lead that was needed.
    pub required_margin: i32,
    /// How many of the next candidates are uploads of the same song; none where
    /// the very next is another song.
    pub equivalent_count: usize,
}

impl Default for AutoPickMeta {
    fn default() -> (r: Self)
        ensures
            r == (AutoPickMeta { margin: 0, required_margin: 0, equivalent_count: 0 }),
    {
        AutoPickMeta { margin: 0, required_margin: 0, equivalent_count: 0 }
    }
}

/// Whether the best candidate may be taken without asking.
#[derive(Clone, Copy, Debug, PartialEq, Eq, Structural)]
pub enum AutoPickDecision {
    Auto(AutoPickMeta),
    NoPick,
}

/// The first candidate and the one at `i` are uploads of the same song. A title
/// without tokens is like no other.
pub open spec fn like_first(list: Seq<RankedView>, i: int) -> bool {
    0 < i < list.len() && core_tokens(list[0].base.title@).len() > 0 && same_song(
        list[i].base,
        list[0].base,
    )
}

/// How many of the candidates from `1` up to, not including, `n` are uploads of
/// the same song as the first.
pub open spec fn equivalent_uploads(list: Seq<RankedView>, n: int) -> nat
    decreases n,
{
    if n <= 1 {
        0
    } else {
        let head = equivalent_uploads(list, n - 1);
        if like_first(list, n - 1) {
            head + 1
        } else {
            head
        }
    }
}

/// How many of the runner-ups are uploads of the same song as the first; none
/// where the very next is another song.
pub open spec fn equivalents(list: Seq<RankedView>) -> nat {
    if like_first(list, 1) {
        equivalent_uploads(list, 1 + EQUIVALENCE_SCAN_DEPTH)
    } else {
        0
    }
}

/// The lead of the first candidate over the second.
pub open spec fn lead(list: Seq<RankedView>) -> int {
    if list.len() == 1 {
        i32::MAX as int
    } else {
        list[0].score - list[1].score
    }
}

/// The lead that the first candidate needs: little over another upload of the
/// same song, else what the caller asks for, but not less than a fixed amount.
pub open spec fn needed_lead(list: Seq<RankedView>, margin: i32) -> i32 {
    if equivalents(list) > 0 {
        EQUIVALENT_MARGIN
    } else if margin > STRONG_PICK_MARGIN {
        margin
    } else {
        STRONG_PICK_MARGIN
    }
}

/// Whether the first candidate may be taken: no veto, no fan upload, a score
/// that is high enough and a lead that is large enough.
pub open spec fn decision_for(list: Seq<RankedView>, margin: i32) -> AutoPickDecision {
    if list.len() == 0 || vetoed(list[0].flags) || list[0].flags.contains("fan-upload"@)
        || list[0].score < HARD_VETO_MIN_SCORE || lead(list) < needed_lead(list, margin) {
        AutoPickDecision::NoPick
    } else {
        AutoPickDecision::Auto(
            AutoPickMeta {
                margin: lead(list) as i32,
                required_margin: needed_lead(list, margin),
                equivalent_count: equivalents(list) as usize,
            },
        )
    }
}

/// The difference of the first two scores is a score.
pub open spec fn lead_fits(list: Seq<RankedView>) -> bool {
    list.len() > 1 ==> i32::MIN <= list[0].score - list[1].score <= i32::MAX
}

fn count_equivalents(ranked: &Vec<RankedCandidate>) -> (r: usize)
    requires
        ranked@.len() > 0,
    ensures
        r as nat == equivalents(ranked_views(ranked@)),
{
    let ghost list = ranked_views(ranked@);
    let top = title_tokens(&ranked[0].base);
    assert(list[0] == ranked@[0]@);
    assert(texts(top@).len() == top@.len());
    let mut count: usize = 0;
    let mut i: usize = 1;
    assert(equivalent_uploads(list, 1) == 0);
    while i < 1 + EQUIVALENCE_SCAN_DEPTH
        invariant
            list == ranked_views(ranked@),
            ranked@.len() > 0,
            texts(top@) == core_tokens(list[0].base.title@),
            texts(top@).len() == top@.len(),
            1 <= i <= 1 + EQUIVALENCE_SCAN_DEPTH,
            count < i,
            count as nat == equivalent_uploads(list, i as int),
            i > 1 ==> like_first(list, 1),
        decreases 1 + EQUIVALENCE_SCAN_DEPTH - i,
    {
        if i < ranked.len() {
            assert(list[i as int] == ranked@[i as int]@);
            let t = title_tokens(&ranked[i].base);
            if top.len() > 0 && same_list(&t, &top) {
                count += 1;
            } else if i == 1 {
                return 0;
            }
        } else if i == 1 {
            return 0;
        }
        i += 1;
    }
    count
}

/// Decides whether the ranking is clear enough to take its first candidate.
pub fn auto_pick_decision(ranked: &Vec<RankedCandidate>, margin: i32) -> (r: AutoPickDecision)
    requires
        lead_fits(ranked_views(ranked@)),
    ensures
        r == decision_for(ranked_views(ranked@), margin),
{
    let ghost list = ranked_views(ranked@);
    if ranked.len() == 0 {
        return AutoPickDecision::NoPick;
    }
    assert(list[0] == ranked@[0]@);
    if any_veto(&ranked[0].flags) || list_has(&ranked[0].flags, "fan-upload") || ranked[0].score
        < HARD_VETO_MIN_SCORE {
        return AutoPickDecision::NoPick;
    }
    let equivalent_count = count_equivalents(ranked);
    let required_margin: i32 = if equivalent_count > 0 {
        EQUIVALENT_MARGIN
    } else if margin > STRONG_PICK_MARGIN {
        margin
    } else {
        STRONG_PICK_MARGIN
    };
    let actual: i32 = if ranked.len() == 1 {
        i32::MAX
    } else {
        assert(list[1] == ranked@[1]@);
        ranked[0].score - ranked[1].score
    };
    if actual < required_margin {
        return AutoPickDecision::NoPick;
    }
    AutoPickDecision::Auto(AutoPickMeta { margin: actual, required_margin, equivalent_count })
}

/// A candidate with a veto badge, a fan upload and a low score are never taken
/// without asking, however large the lead.
pub proof fn lemma_veto_is_final(list: Seq<RankedView>, margin: i32)
    requires
        list.len() > 0,
        vetoed(list[0].flags) || list[0].flags.contains("fan-upload"@) || list[0].score
            < HARD_VETO_MIN_SCORE,
    ensures
        decision_for(list, margin) == AutoPickDecision::NoPick,
{
}

/// A candidate that is taken over another song leads by what the caller asked
/// for and by no less than the fixed amount; one that is taken over another
/// upload of the same song leads by the smaller fixed amount.
pub proof fn lemma_pick_has_its_lead(list: Seq<RankedView>, margin: i32)
    requires
        list.len() > 1,
        decision_for(list, margin) is Auto,
    ensures
        like_first(list, 1) ==> list[0].score - list[1].score >= EQUIVALENT_MARGIN,
        !like_first(list, 1) ==> list[0].score - list[1].score >= margin && list[0].score
            - list[1].score >= STRONG_PICK_MARGIN,
        decision_for(list, margin)->0.equivalent_count > 0 ==> like_first(list, 1),
{
}

/// Asking for a larger margin never turns a refusal into a pick.
pub proof fn lemma_margin_monotone(list: Seq<RankedView>, small: i32, large: i32)
    requires
        small <= large,
        decision_for(list, small) == AutoPickDecision::NoPick,
    ensures
        decision_for(list, large) == AutoPickDecision::NoPick,
{
}

/// The answer to a request to pick a video.
#[derive(Debug)]
pub enum PickResponse {
    /// One candidate is clearly best.
    Auto {
        url: String,
        title: String,
        uploader: String,
        score: i32,
        duration_secs: Real64,
        flags: Vec<String>,
        /// Why; nothing to say where there was no other candidate.
        decision: Option<AutoPickMeta>,
    },
    /// The user has to choose.
    NeedsChoice {
        candidates: Vec<RankedCandidate>,
        top_score: i32,
        runner_up_score: i32,
        margin: i32,
    },
    /// Nothing was found.
    Empty { query: String, message: String },
}

/// How many candidates to rank for a pick, so that the comparison with the
/// runner-up means something.
pub open spec fn fetch_count(limit: int) -> int {
    let wide = (if limit > 2 { limit } else { 2 }) + 2;
    if wide > 5 {
        wide
    } else {
        5
    }
}

/// How many candidates to rank for a pick of up to `limit`.
pub fn pick_fetch_limit(limit: usize) -> (r: usize)
    requires
        limit <= usize::MAX - 2,
    ensures
        r == fetch_count(limit as int),
        limit <= 3 ==> r == 5,
        limit > 3 ==> r == limit + 2,
{
    let floor: usize = if limit > 2 {
        limit
    } else {
        2
    };
    let wide: usize = floor + 2;
    if wide > 5 {
        wide
    } else {
        5
    }
}

/// The ranking leaves the choice open although there is something to compare.
pub open spec fn is_uncertain(list: Seq<RankedView>, margin: i32) -> bool {
    list.len() > 1 && decision_for(list, margin) == AutoPickDecision::NoPick
}

/// Whether looking up view counts could settle the choice.
pub fn needs_view_counts(ranked: &Vec<RankedCandidate>, margin: i32) -> (r: bool)
    requires
        lead_fits(ranked_views(ranked@)),
    ensures
        r == is_uncertain(ranked_views(ranked@), margin),
{
    ranked.len() > 1 && auto_pick_decision(ranked, margin) == AutoPickDecision::NoPick
}

/// The ranking once view counts were looked up, where that was called for.
pub open spec fn reconsidered(
    list: Seq<RankedView>,
    margin: i32,
    counts: Seq<(String, Real64)>,
) -> Seq<RankedView> {
    if is_uncertain(list, margin) {
        by_score(view_leaned(enriched(list, counts)))
    } else {
        list
    }
}

/// The scores stay in their range where a pick compares them, before and after
/// view counts are considered.
pub open spec fn can_pick(list: Seq<RankedView>, margin: i32, counts: Seq<(String, Real64)>) -> bool {
    &&& lead_fits(list)
    &&& is_uncertain(list, margin) ==> can_lean_all(enriched(list, counts))
    &&& lead_fits(reconsidered(list, margin, counts))
}

/// What `pick_best` answers, given the ranking that it decides on.
pub open spec fn answers(
    r: PickResponse,
    query: Seq<char>,
    limit: nat,
    list: Seq<RankedView>,
    margin: i32,
) -> bool {
    if list.len() == 0 {
        r matches PickResponse::Empty { query: q, message } && q@ == query && message@
            == "no yt-dlp results for "@ + quoted_text(query)
    } else {
        match decision_for(list, margin) {
            AutoPickDecision::Auto(meta) => r matches PickResponse::Auto {
                url,
                title,
                uploader,
                score,
                duration_secs,
                flags,
                decision,
            } && url == list[0].base.url && title == list[0].base.title && uploader
                == list[0].base.uploader && score == list[0].score && duration_secs
                == list[0].base.duration_secs && texts(flags@) == list[0].flags && decision == (if list.len() > 1 {
                Some(meta)
            } else {
                None
            }),
            AutoPickDecision::NoPick => r matches PickResponse::NeedsChoice {
                candidates,
                top_score,
                runner_up_score,
                margin: actual,
            } && ranked_views(candidates@) == at_most(list, limit) && top_score == list[0].score
                && runner_up_score == (if list.len() > 1 {
                list[1].score
            } else {
                list[0].score
            }) && actual == top_score - runner_up_score,
        }
    }
}

proof fn lemma_reconsidered_len(list: Seq<RankedView>, margin: i32, counts: Seq<(String, Real64)>)
    ensures
        reconsidered(list, margin, counts).len() == list.len(),
{
    lemma_descending_exists(scores(view_leaned(enriched(list, counts))));
}

/// What a ranking comes to can be picked from, whatever view counts a lookup
/// reports.
pub proof fn lemma_ranking_can_be_picked(
    list: Seq<RankedView>,
    margin: i32,
    counts: Seq<(String, Real64)>,
)
    requires
        forall|i: int|
            0 <= i < list.len() ==> in_sync(#[trigger] list[i]) && -1010 <= list[i].score <= 506,
    ensures
        can_pick(list, margin, counts),
{
    let e = enriched(list, counts);
    let v = view_leaned(e);
    let s = by_score(v);
    assert forall|i: int| 0 <= i < list.len() implies can_lean(#[trigger] e[i]) && e[i].score
        == list[i].score by {
        assert(in_sync(list[i]));
    }
    lemma_descending_exists(scores(v));
    let p = descending(scores(v));
    if list.len() > 1 {
        assert(s[0] == v[p[0]] && s[1] == v[p[1]]);
        let a = p[0];
        let b = p[1];
        assert(list[a].score <= v[a].score <= list[a].score + 6) by {
            assert(can_lean(e[a]) && e[a].score == list[a].score);
        }
        assert(list[b].score <= v[b].score <= list[b].score + 6) by {
            assert(can_lean(e[b]) && e[b].score == list[b].score);
        }
    }
}

/// Decides what to answer to a request to pick a video, from its ranking and
/// from the view counts that a lookup reported (none where it was not made or
/// failed). An uncertain ranking is reconsidered with those counts first.
pub fn pick_best(
    query: &str,
    limit: usize,
    margin: i32,
    ranked: Vec<RankedCandidate>,
    counts: &Vec<(String, Real64)>,
) -> (r: PickResponse)
    requires
        can_pick(ranked_views(ranked@), margin, counts@),
    ensures
        answers(
            r,
            query@,
            limit as nat,
            reconsidered(ranked_views(ranked@), margin, counts@),
            margin,
        ),
{
    let mut ranked = ranked;
    let ghost start = ranked_views(ranked@);
    if ranked.len() == 0 {
        let shown = quote(query);
        return PickResponse::Empty {
            query: String::from_str(query),
            message: crate::text::concat2("no yt-dlp results for ", shown.as_str()),
        };
    }
    proof {
        lemma_reconsidered_len(start, margin, counts@);
    }
    if needs_view_counts(&ranked, margin) {
        enrich_with_view_counts(&mut ranked, counts);
        apply_view_count_lean(&mut ranked);
        sort_by_score(&mut ranked);
    }
    let ghost list = ranked_views(ranked@);
    assert(list == reconsidered(start, margin, counts@));
    assert(list.len() == start.len());
    assert(list[0] == ranked@[0]@);
    match auto_pick_decision(&ranked, margin) {
        AutoPickDecision::Auto(meta) => PickResponse::Auto {
            url: ranked[0].base.url.clone(),
            title: ranked[0].base.title.clone(),
            uploader: ranked[0].base.uploader.clone(),
            score: ranked[0].score,
            duration_secs: ranked[0].base.duration_secs,
            flags: clone_texts(&ranked[0].flags),
            decision: if ranked.len() > 1 {
                Some(meta)
            } else {
                None
            },
        },
        AutoPickDecision::NoPick => {
            let top_score = ranked[0].score;
            let runner_up_score = if ranked.len() > 1 {
                assert(list[1] == ranked@[1]@);
                ranked[1].score
            } else {
                top_score
            };
            let actual: i32 = top_score - runner_up_score;
            if limit > 0 && ranked.len() > limit {
                let ghost before = ranked@;
                ranked.truncate(limit);
                proof {
                    assert(ranked_views(ranked@) =~= ranked_views(before).take(limit as int));
                }
            }
            PickResponse::NeedsChoice { candidates: ranked, top_score, runner_up_score, margin: actual }
        },
    }
}

/// The address that a search source stands for, given the answer to its
/// search: the candidate that is clearly best, else the first one.
pub open spec fn resolved_url(source: Seq<char>, picked: PickResponse) -> Option<Seq<char>> {
    if crate::youtube::source_query(source) is None {
        None
    } else {
        match picked {
            PickResponse::Auto { url, .. } => Some(url@),
            PickResponse::NeedsChoice { candidates, .. } => if candidates@.len() > 0 {
                Some(candidates@[0].base.url@)
            } else {
                None
            },
            PickResponse::Empty { .. } => None,
        }
    }
}

/// Resolves a source of the form `ytsearch1:<query>` to the address of a
/// video, given the answer to the search for it. `None` where the source is
/// to be used as it stands.
pub fn resolve_search_source(source: &str, picked: &PickResponse) -> (r: Option<String>)
    ensures
        crate::text::opt_text(r) == resolved_url(source@, *picked),
{
    if crate::youtube::search_source_query(source).is_none() {
        return None;
    }
    match picked {
        PickResponse::Auto { url, .. } => Some(url.clone()),
        PickResponse::NeedsChoice { candidates, .. } => {
            if candidates.len() > 0 {
                Some(candidates[0].base.url.clone())
            } else {
                None
            }
        },
        PickResponse::Empty { .. } => None,
    }
}

} // verus!
