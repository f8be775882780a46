//! The daemon's state in memory: the queue, the song that plays, and the
//! downloads. Songs of the library are handed in as they stand in the
//! database; what has to be written back is handed out.

use rand::seq::SliceRandom;
use vstd::prelude::*;

use crate::matching::{jaro_winkler, jaro_winkler_bits, lemma_similarity_bound, similarity};
use crate::model::{clone_songs, DownloadJob, RepeatMode, Song};
use crate::order::{
    descending, descending_order, indices, lemma_arranged_items, lemma_descending_complete,
    lemma_descending_exists, lemma_sorted_by_key, sorted_by_key,
};
use crate::real64::{Real64, ONE_BITS};
use crate::store::{
    ids_of, lemma_rewrite, rewrite_of, rewrite_queue, stored_after, stored_after_all, without_id,
    StoreOp,
};
use crate::text::{concat2, concat3, decimal, decimal_u64, lowered, same_text, to_lower};

verus! {

/// What the daemon keeps in memory.
#[derive(Debug)]
pub struct DaemonState {
    /// Songs pending play, in order. The first element is the next to play.
    pub queue: Vec<Song>,
    /// The song that plays, if any.
    pub current: Option<Song>,
    pub repeat_mode: RepeatMode,
    /// The songs that repeat-all starts over with once the queue is empty.
    pub cycle_snapshot: Vec<Song>,
    /// Whether the queue row of `current` has been taken out.
    pub popped_for_current: bool,
    /// Downloads, in flight and finished; no id occurs twice.
    pub download_jobs: Vec<DownloadJob>,
    pub next_job_id: i64,
    /// Similarity above which a fuzzy match counts.
    pub fuzzy_threshold: Real64,
    /// Most songs in the queue; zero for no limit.
    pub max_queue_size: usize,
    /// How many search results are wanted by default.
    pub search_count: usize,
}

/// Two names are the same, case aside.
pub open spec fn same_name(a: Seq<char>, b: Seq<char>) -> bool {
    lowered(a) == lowered(b)
}

/// How similar a song's name is to a query, case aside.
pub open spec fn match_score(s: Song, query: Seq<char>) -> Real64 {
    similarity(lowered(s.name@), lowered(query))
}

/// The first song whose name is the query, case aside.
pub open spec fn exact_match(songs: Seq<Song>, query: Seq<char>) -> Option<Song>
    decreases songs.len(),
{
    if songs.len() == 0 {
        None
    } else if same_name(songs[0].name@, query) {
        Some(songs[0])
    } else {
        exact_match(songs.drop_first(), query)
    }
}

/// The most similar song above the threshold; the last one among equals.
pub open spec fn fuzzy_match(songs: Seq<Song>, query: Seq<char>, threshold: Real64) -> Option<Song>
    decreases songs.len(),
{
    if songs.len() == 0 {
        None
    } else {
        let best = fuzzy_match(songs.drop_last(), query, threshold);
        let s = songs.last();
        if !threshold.spec_lt(match_score(s, query)) {
            best
        } else {
            match best {
                Some(b) => if match_score(s, query).spec_lt(match_score(b, query)) {
                    best
                } else {
                    Some(s)
                },
                None => Some(s),
            }
        }
    }
}

/// The song that a query means: one with exactly this name, else the most
/// similar one.
pub open spec fn best_match(songs: Seq<Song>, query: Seq<char>, threshold: Real64) -> Option<Song> {
    match exact_match(songs, query) {
        Some(s) => Some(s),
        None => fuzzy_match(songs, query, threshold),
    }
}

fn find_exact(songs: &Vec<Song>, q: &str, Ghost(query): Ghost<Seq<char>>) -> (r: Option<Song>)
    requires
        q@ == lowered(query),
    ensures
        r == exact_match(songs@, query),
        r matches Some(s) ==> songs@.contains(s) && same_name(s.name@, query),
        r is None ==> forall|k: int|
            0 <= k < songs@.len() ==> !same_name((#[trigger] songs@[k]).name@, query),
{
    proof {
        assert(songs@.skip(0) =~= songs@);
    }
    let mut i: usize = 0;
    while i < songs.len()
        invariant
            q@ == lowered(query),
            i <= songs@.len(),
            exact_match(songs@, query) == exact_match(songs@.skip(i as int), query),
            forall|k: int| 0 <= k < i ==> !same_name((#[trigger] songs@[k]).name@, query),
        decreases songs@.len() - i,
    {
        let name = to_lower(songs[i].name.as_str());
        if same_text(name.as_str(), q) {
            return Some(songs[i].clone());
        }
        proof {
            assert(songs@.skip(i as int).drop_first() =~= songs@.skip(i + 1));
        }
        i += 1;
    }
    None
}

fn score_song(song: &Song, q: &str, Ghost(query): Ghost<Seq<char>>) -> (r: Real64)
    requires
        q@ == lowered(query),
    ensures
        r == match_score(*song, query),
        r.bits == jaro_winkler_bits(lowered(song.name@), lowered(query)),
        r.bits <= ONE_BITS,
{
    let name = to_lower(song.name.as_str());
    proof {
        if name@.len() == 0 && q@.len() == 0 {
            assert(name@ =~= q@);
        }
    }
    jaro_winkler(name.as_str(), q)
}

fn find_fuzzy(
    songs: &Vec<Song>,
    q: &str,
    threshold: Real64,
    Ghost(query): Ghost<Seq<char>>,
) -> (r: Option<Song>)
    requires
        q@ == lowered(query),
    ensures
        r == fuzzy_match(songs@, query, threshold),
        r matches Some(s) ==> songs@.contains(s) && threshold.spec_lt(match_score(s, query)),
        r matches Some(s) ==> forall|k: int|
            0 <= k < songs@.len() ==> !match_score(s, query).spec_lt(
                match_score(#[trigger] songs@[k], query),
            ),
        r is None ==> forall|k: int|
            0 <= k < songs@.len() ==> !threshold.spec_lt(match_score(#[trigger] songs@[k], query)),
        forall|k: int|
            0 <= k < songs@.len() ==> match_score(#[trigger] songs@[k], query).bits
                == jaro_winkler_bits(lowered(songs@[k].name@), lowered(query)),
{
    let mut best: Option<(Song, Real64)> = None;
    let mut i: usize = 0;
    while i < songs.len()
        invariant
            q@ == lowered(query),
            i <= songs@.len(),
            forall|k: int|
                0 <= k < i ==> match_score(#[trigger] songs@[k], query).bits == jaro_winkler_bits(
                    lowered(songs@[k].name@),
                    lowered(query),
                ),
            match best {
                Some((s, score)) => fuzzy_match(songs@.take(i as int), query, threshold) == Some(s)
                    && score == match_score(s, query) && score.bits <= ONE_BITS && songs@.contains(s)
                    && threshold.spec_lt(score) && forall|k: int|
                    0 <= k < i ==> !score.spec_lt(match_score(#[trigger] songs@[k], query)),
                None => fuzzy_match(songs@.take(i as int), query, threshold) is None && forall|k: int|
                    0 <= k < i ==> !threshold.spec_lt(match_score(#[trigger] songs@[k], query)),
            },
        decreases songs@.len() - i,
    {
        proof {
            assert(songs@.take(i + 1).drop_last() =~= songs@.take(i as int));
        }
        let score = score_song(&songs[i], q, Ghost(query));
        if threshold.less(score) {
            let keep = match &best {
                Some((_, top)) => score.less(*top),
                None => false,
            };
            if !keep {
                best = Some((songs[i].clone(), score));
            }
        }
        i += 1;
    }
    proof {
        assert(songs@.take(i as int) =~= songs@);
    }
    match best {
        Some((s, _)) => Some(s),
        None => None,
    }
}

/// A song with its score.
pub open spec fn scored_step(
    list: Seq<(Song, Real64)>,
    s: Song,
    query: Seq<char>,
    threshold: Real64,
) -> Seq<(Song, Real64)> {
    if same_name(s.name@, query) {
        seq![(s, Real64 { bits: ONE_BITS })] + list.filter(|x: (Song, Real64)| x.0.id != s.id)
    } else if threshold.spec_lt(match_score(s, query)) {
        list.push((s, match_score(s, query)))
    } else {
        list
    }
}

/// The songs that match a query with their scores: those with exactly this name
/// in front, then those above the threshold as they come.
pub open spec fn scored_matches(songs: Seq<Song>, query: Seq<char>, threshold: Real64) -> Seq<
    (Song, Real64),
>
    decreases songs.len(),
{
    if songs.len() == 0 {
        Seq::empty()
    } else {
        scored_step(
            scored_matches(songs.drop_last(), query, threshold),
            songs.last(),
            query,
            threshold,
        )
    }
}

/// Integers that order the scores.
pub open spec fn score_keys(list: Seq<(Song, Real64)>) -> Seq<i64> {
    list.map_values(|x: (Song, Real64)| x.1.key() as i64)
}

/// The songs of a list with scores.
pub open spec fn songs_of(list: Seq<(Song, Real64)>) -> Seq<Song> {
    list.map_values(|x: (Song, Real64)| x.0)
}

/// All songs that match a query, best first.
pub open spec fn all_matches(songs: Seq<Song>, query: Seq<char>, threshold: Real64) -> Seq<Song> {
    let list = scored_matches(songs, query, threshold);
    songs_of(sorted_by_key(list, score_keys(list)))
}

proof fn lemma_filter_push(list: Seq<(Song, Real64)>, x: (Song, Real64), id: i64)
    ensures
        list.push(x).filter(|y: (Song, Real64)| y.0.id != id) == (if x.0.id != id {
            list.filter(|y: (Song, Real64)| y.0.id != id).push(x)
        } else {
            list.filter(|y: (Song, Real64)| y.0.id != id)
        }),
{
    reveal(Seq::filter);
    assert(list.push(x).drop_last() =~= list);
}

fn put_in_front(list: &Vec<(Song, Real64)>, s: &Song) -> (r: Vec<(Song, Real64)>)
    ensures
        r@ == seq![(*s, Real64 { bits: ONE_BITS })] + list@.filter(
            |x: (Song, Real64)| x.0.id != s.id,
        ),
{
    let mut out: Vec<(Song, Real64)> = Vec::new();
    out.push((s.clone(), Real64 { bits: ONE_BITS }));
    let ghost keep = |x: (Song, Real64)| x.0.id != s.id;
    proof {
        reveal(Seq::filter);
        assert(list@.take(0).filter(keep) =~= Seq::<(Song, Real64)>::empty());
        assert(out@ =~= seq![(*s, Real64 { bits: ONE_BITS })] + list@.take(0).filter(keep));
    }
    let mut i: usize = 0;
    while i < list.len()
        invariant
            i <= list@.len(),
            keep == (|x: (Song, Real64)| x.0.id != s.id),
            out@ == seq![(*s, Real64 { bits: ONE_BITS })] + list@.take(i as int).filter(keep),
        decreases list@.len() - i,
    {
        let ghost before = out@;
        proof {
            assert(list@.take(i + 1) =~= list@.take(i as int).push(list@[i as int]));
            lemma_filter_push(list@.take(i as int), list@[i as int], s.id);
        }
        if list[i].0.id != s.id {
            out.push((list[i].0.clone(), list[i].1));
            proof {
                assert(out@ =~= seq![(*s, Real64 { bits: ONE_BITS })] + list@.take(i + 1).filter(
                    keep,
                ));
            }
        }
        i += 1;
    }
    proof {
        assert(list@.take(i as int) =~= list@);
    }
    out
}

impl DaemonState {
    /// No two downloads have the same id.
    pub open spec fn wf(self) -> bool {
        forall|i: int, j: int|
            #![trigger self.download_jobs@[i], self.download_jobs@[j]]
            0 <= i < j < self.download_jobs@.len() ==> self.download_jobs@[i].id
                != self.download_jobs@[j].id
    }

    /// The stored queue holds the same songs as the queue in memory.
    pub open spec fn mirrored_by(self, rows: Seq<i64>) -> bool {
        rows == ids_of(self.queue@)
    }

    /// The state at start, with the queue that was stored.
    pub fn new(
        queue: Vec<Song>,
        fuzzy_threshold: Real64,
        max_queue_size: usize,
        repeat_mode: RepeatMode,
        search_count: usize,
    ) -> (r: Self)
        ensures
            r.wf(),
            r.queue == queue,
            r.current is None,
            r.repeat_mode == repeat_mode,
            r.cycle_snapshot@.len() == 0,
            !r.popped_for_current,
            r.download_jobs@.len() == 0,
            r.next_job_id == 1,
            r.fuzzy_threshold == fuzzy_threshold,
            r.max_queue_size == max_queue_size,
            r.search_count == search_count,
    {
        DaemonState {
            queue,
            current: None,
            repeat_mode,
            cycle_snapshot: Vec::new(),
            popped_for_current: false,
            download_jobs: Vec::new(),
            next_job_id: 1,
            fuzzy_threshold,
            max_queue_size,
            search_count,
        }
    }

    /// The song that a query means: one with exactly this name, case aside,
    /// else the most similar one above the threshold.
    pub fn search(&self, songs: &Vec<Song>, query: &str) -> (r: Option<Song>)
        ensures
            r == best_match(songs@, query@, self.fuzzy_threshold),
            r matches Some(s) ==> songs@.contains(s) && (same_name(s.name@, query@)
                || self.fuzzy_threshold.spec_lt(match_score(s, query@))),
            r matches Some(s) ==> (!same_name(s.name@, query@) ==> forall|k: int|
                0 <= k < songs@.len() ==> !same_name((#[trigger] songs@[k]).name@, query@)
                    && !match_score(s, query@).spec_lt(match_score(songs@[k], query@))),
            r is None ==> forall|k: int|
                0 <= k < songs@.len() ==> !same_name((#[trigger] songs@[k]).name@, query@)
                    && !self.fuzzy_threshold.spec_lt(match_score(songs@[k], query@)),
            r matches Some(s) ==> songs@.contains(s) && (lowered(s.name@) == lowered(query@)
                || self.fuzzy_threshold.spec_lt(similarity(lowered(s.name@), lowered(query@)))),
            (exists|k: int|
                0 <= k < songs@.len() && lowered((#[trigger] songs@[k]).name@) == lowered(query@))
                ==> (r matches Some(s) && lowered(s.name@) == lowered(query@)),
            (exists|k: int|
                0 <= k < songs@.len() && self.fuzzy_threshold.spec_lt(
                    similarity(lowered((#[trigger] songs@[k]).name@), lowered(query@)),
                )) ==> r is Some,
            r is None ==> forall|k: int|
                0 <= k < songs@.len() ==> !self.fuzzy_threshold.spec_lt(
                    Real64 {
                        bits: jaro_winkler_bits(
                            lowered((#[trigger] songs@[k]).name@),
                            lowered(query@),
                        ),
                    },
                ),
            r matches Some(s) ==> (lowered(s.name@) != lowered(query@) ==> forall|k: int|
                0 <= k < songs@.len() ==> !(Real64 {
                    bits: jaro_winkler_bits(lowered(s.name@), lowered(query@)),
                }).spec_lt(
                    Real64 {
                        bits: jaro_winkler_bits(
                            lowered((#[trigger] songs@[k]).name@),
                            lowered(query@),
                        ),
                    },
                )),
    {
        let q = to_lower(query);
        match find_exact(songs, q.as_str(), Ghost(query@)) {
            Some(s) => Some(s),
            None => find_fuzzy(songs, q.as_str(), self.fuzzy_threshold, Ghost(query@)),
        }
    }

    fn score_songs(&self, songs: &Vec<Song>, query: &str) -> (r: Vec<(Song, Real64)>)
        ensures
            r@ == scored_matches(songs@, query@, self.fuzzy_threshold),
            forall|k: int|
                0 <= k < songs@.len() && lowered((#[trigger] songs@[k]).name@) != lowered(query@)
                    ==> similarity(lowered(songs@[k].name@), lowered(query@)).bits
                    == jaro_winkler_bits(lowered(songs@[k].name@), lowered(query@)),
    {
        let q = to_lower(query);
        let mut list: Vec<(Song, Real64)> = Vec::new();
        let mut i: usize = 0;
        while i < songs.len()
            invariant
                q@ == lowered(query@),
                i <= songs@.len(),
                forall|k: int|
                    0 <= k < i && lowered((#[trigger] songs@[k]).name@) != lowered(query@)
                        ==> similarity(lowered(songs@[k].name@), lowered(query@)).bits
                        == jaro_winkler_bits(lowered(songs@[k].name@), lowered(query@)),
                list@ == scored_matches(songs@.take(i as int), query@, self.fuzzy_threshold),
            decreases songs@.len() - i,
        {
            proof {
                assert(songs@.take(i + 1).drop_last() =~= songs@.take(i as int));
            }
            let name = to_lower(songs[i].name.as_str());
            if same_text(name.as_str(), q.as_str()) {
                list = put_in_front(&list, &songs[i]);
            } else {
                let score = score_song(&songs[i], q.as_str(), Ghost(query@));
                if self.fuzzy_threshold.less(score) {
                    list.push((songs[i].clone(), score));
                }
            }
            i += 1;
        }
        proof {
            assert(songs@.take(i as int) =~= songs@);
        }
        list
    }
}

/// Shuffles songs with `rand`'s `SliceRandom::shuffle`: the same songs in some
/// order. Which order is left to chance.
#[verifier::external_body]
fn shuffle(songs: &mut Vec<Song>)
    ensures
        final(songs)@.to_multiset() == old(songs)@.to_multiset(),
{
    songs.shuffle(&mut rand::thread_rng());
}

/// The message for a song that nothing matches.
pub open spec fn not_found_message(query: Seq<char>) -> Seq<char> {
    "song not found: "@ + query
}

/// The message for a queue that is full.
pub open spec fn queue_full_message(len: nat, max: nat) -> Seq<char> {
    "queue full ("@ + decimal(len) + " of "@ + decimal(max) + ")"@
}

fn queue_full(len: usize, max: usize) -> (r: String)
    ensures
        r@ == queue_full_message(len as nat, max as nat),
{
    let n = decimal_u64(len as u64);
    let m = decimal_u64(max as u64);
    let head = concat3("queue full (", n.as_str(), " of ");
    concat3(head.as_str(), m.as_str(), ")")
}

/// The songs whose id is not `id`.
pub open spec fn without_song(songs: Seq<Song>, id: i64) -> Seq<Song>
    decreases songs.len(),
{
    if songs.len() == 0 {
        songs
    } else if songs.last().id == id {
        without_song(songs.drop_last(), id)
    } else {
        without_song(songs.drop_last(), id).push(songs.last())
    }
}

/// Taking a song out of a list takes its id out of the list of ids.
pub proof fn lemma_without_song(songs: Seq<Song>, id: i64)
    ensures
        ids_of(without_song(songs, id)) == without_id(ids_of(songs), id),
        !ids_of(without_song(songs, id)).contains(id),
    decreases songs.len(),
{
    let rows = ids_of(songs);
    if songs.len() > 0 {
        let head = songs.drop_last();
        assert(rows.drop_last() =~= ids_of(head));
        lemma_without_song(head, id);
        let w = without_song(head, id);
        if songs.last().id != id {
            assert(ids_of(w.push(songs.last())) =~= ids_of(w).push(songs.last().id));
            assert forall|k: int| 0 <= k < ids_of(w).push(songs.last().id).len() implies ids_of(
                w,
            ).push(songs.last().id)[k] != id by {
                if k < ids_of(w).len() {
                    assert(ids_of(w)[k] == ids_of(w).push(songs.last().id)[k]);
                }
            }
        }
    } else {
        assert(ids_of(songs) =~= without_id(rows, id));
    }
}

/// Copies the songs whose id is not `id`.
pub fn songs_without(songs: &Vec<Song>, id: i64) -> (r: Vec<Song>)
    ensures
        r@ == without_song(songs@, id),
{
    let mut out: Vec<Song> = Vec::new();
    let mut i: usize = 0;
    while i < songs.len()
        invariant
            i <= songs@.len(),
            out@ == without_song(songs@.take(i as int), id),
        decreases songs@.len() - i,
    {
        proof {
            assert(songs@.take(i + 1).drop_last() =~= songs@.take(i as int));
        }
        if songs[i].id != id {
            out.push(songs[i].clone());
        }
        i += 1;
    }
    proof {
        assert(songs@.take(i as int) =~= songs@);
    }
    out
}

impl DaemonState {
    /// All songs that match a query, best first. Songs with exactly this name
    /// come before all others.
    pub fn search_all(&self, songs: &Vec<Song>, query: &str) -> (r: Vec<Song>)
        ensures
            r@ == all_matches(songs@, query@, self.fuzzy_threshold),
            distinct_ids(songs@) ==> forall|k: int|
                0 <= k < songs@.len() ==> (r@.contains(#[trigger] songs@[k]) <==> lowered(
                    songs@[k].name@,
                ) == lowered(query@) || self.fuzzy_threshold.spec_lt(
                    Real64 {
                        bits: jaro_winkler_bits(lowered(songs@[k].name@), lowered(query@)),
                    },
                )),
            distinct_ids(songs@) ==> r@.no_duplicates() && forall|i: int|
                0 <= i < r@.len() ==> songs@.contains(#[trigger] r@[i]),
            distinct_ids(songs@) ==> forall|i: int, j: int|
                0 <= i < j < r@.len() ==> similarity(
                    lowered((#[trigger] r@[j]).name@),
                    lowered(query@),
                ).bits <= similarity(lowered((#[trigger] r@[i]).name@), lowered(query@)).bits,
    {
        let list = self.score_songs(songs, query);
        let mut keys: Vec<i64> = Vec::new();
        let mut k: usize = 0;
        while k < list.len()
            invariant
                k <= list@.len(),
                keys@ == score_keys(list@).take(k as int),
            decreases list@.len() - k,
        {
            keys.push(list[k].1.ordered());
            assert(keys@ =~= score_keys(list@).take(k + 1));
            k += 1;
        }
        assert(keys@ =~= score_keys(list@));
        let p = descending_order(&keys);
        let mut out: Vec<Song> = Vec::new();
        let mut i: usize = 0;
        while i < list.len()
            invariant
                i <= list@.len(),
                p@.len() == list@.len(),
                forall|j: int| 0 <= j < p@.len() ==> #[trigger] p@[j] < list@.len(),
                out@.len() == i,
                forall|j: int| 0 <= j < i ==> #[trigger] out@[j] == list@[p@[j] as int].0,
            decreases list@.len() - i,
        {
            out.push(list[p[i]].0.clone());
            i += 1;
        }
        proof {
            let q = indices(p@);
            let s = all_matches(songs@, query@, self.fuzzy_threshold);
            assert forall|j: int| 0 <= j < out@.len() implies out@[j] == s[j] by {
                assert(q[j] == p@[j]);
            }
            assert(out@ =~= s);
            if distinct_ids(songs@) {
                lemma_all_matches(songs@, query@, self.fuzzy_threshold);
                assert forall|a: int| 0 <= a < songs@.len() implies (out@.contains(
                    #[trigger] songs@[a],
                ) <==> lowered(songs@[a].name@) == lowered(query@) || self.fuzzy_threshold.spec_lt(
                    Real64 {
                        bits: jaro_winkler_bits(lowered(songs@[a].name@), lowered(query@)),
                    },
                )) by {
                    assert(songs@.contains(songs@[a]));
                    assert(out@.contains(songs@[a]) <==> is_match(
                        songs@[a],
                        query@,
                        self.fuzzy_threshold,
                    ));
                }
                assert forall|a: int| 0 <= a < out@.len() implies songs@.contains(
                    #[trigger] out@[a],
                ) by {
                    assert(out@.contains(out@[a]));
                }
                assert forall|a: int, b: int| 0 <= a < b < out@.len() implies similarity(
                    lowered((#[trigger] out@[b]).name@),
                    lowered(query@),
                ).bits <= similarity(lowered((#[trigger] out@[a]).name@), lowered(query@)).bits by {
                    assert(match_score(out@[b], query@).spec_le(match_score(out@[a], query@)));
                    lemma_similarity_bound(lowered(out@[a].name@), lowered(query@));
                    lemma_similarity_bound(lowered(out@[b].name@), lowered(query@));
                }
            }
        }
        out
    }

    /// Puts the song that a query means at the front of the queue. Hands out
    /// the song and what has to be stored; `remember_cycle` follows once it is.
    pub fn play(&mut self, songs: &Vec<Song>, query: &str) -> (r: Result<
        (Song, Vec<StoreOp>),
        String,
    >)
        ensures
            match r {
                Ok((song, ops)) => best_match(songs@, query@, old(self).fuzzy_threshold) == Some(
                    song,
                ) && final(self).queue@ == seq![song] + old(self).queue@ && ops@ == rewrite_of(
                    final(self).queue@,
                ) && *final(self) == (DaemonState { queue: final(self).queue, ..*old(self) }),
                Err(e) => best_match(songs@, query@, old(self).fuzzy_threshold) is None && e@
                    == not_found_message(query@) && *final(self) == *old(self),
            },
    {
        match self.search(songs, query) {
            Some(song) => {
                self.queue.insert(0, song.clone());
                assert(self.queue@ =~= seq![song] + old(self).queue@);
                let ops = rewrite_queue(&self.queue);
                Ok((song, ops))
            },
            None => Err(concat2("song not found: ", query)),
        }
    }

    /// Makes the queue the round that repeat-all starts over with.
    pub fn remember_cycle(&mut self)
        ensures
            final(self).cycle_snapshot@ == old(self).queue@,
            *final(self) == (DaemonState {
                cycle_snapshot: final(self).cycle_snapshot,
                ..*old(self)
            }),
    {
        self.cycle_snapshot = clone_songs(&self.queue);
    }

    /// The queue has as many songs as it may have.
    pub open spec fn is_full(self) -> bool {
        self.max_queue_size > 0 && self.queue@.len() >= self.max_queue_size
    }

    /// Puts the song that a query means at the end of the queue, unless the
    /// queue is full.
    pub fn add(&mut self, songs: &Vec<Song>, query: &str) -> (r: Result<(Song, StoreOp), String>)
        ensures
            match r {
                Ok((song, op)) => !old(self).is_full() && best_match(
                    songs@,
                    query@,
                    old(self).fuzzy_threshold,
                ) == Some(song) && final(self).queue@ == old(self).queue@.push(song) && op
                    == StoreOp::AppendQueue(song.id) && *final(self) == (DaemonState {
                    queue: final(self).queue,
                    ..*old(self)
                }),
                Err(e) => *final(self) == *old(self) && (if old(self).is_full() {
                    e@ == queue_full_message(
                        old(self).queue@.len(),
                        old(self).max_queue_size as nat,
                    )
                } else {
                    best_match(songs@, query@, old(self).fuzzy_threshold) is None && e@
                        == not_found_message(query@)
                }),
            },
            old(self).max_queue_size > 0 && old(self).queue@.len() <= old(self).max_queue_size ==>
                final(self).queue@.len() <= final(self).max_queue_size,
    {
        if self.max_queue_size > 0 && self.queue.len() >= self.max_queue_size {
            return Err(queue_full(self.queue.len(), self.max_queue_size));
        }
        match self.search(songs, query) {
            Some(song) => {
                self.queue.push(song.clone());
                let op = StoreOp::AppendQueue(song.id);
                Ok((song, op))
            },
            None => Err(concat2("song not found: ", query)),
        }
    }

    /// Finds the song that a query asks to delete, and the write that deletes
    /// it. `forget` follows once it is deleted.
    pub fn delete(&self, songs: &Vec<Song>, query: &str) -> (r: Result<(Song, StoreOp), String>)
        ensures
            match r {
                Ok((song, op)) => best_match(songs@, query@, self.fuzzy_threshold) == Some(song)
                    && op == StoreOp::DeleteSong(song.id),
                Err(e) => best_match(songs@, query@, self.fuzzy_threshold) is None && e@
                    == not_found_message(query@),
            },
    {
        match self.search(songs, query) {
            Some(song) => {
                let op = StoreOp::DeleteSong(song.id);
                Ok((song, op))
            },
            None => Err(concat2("song not found: ", query)),
        }
    }

    /// Takes a deleted song out of the queue, and no longer shows it as playing.
    pub fn forget(&mut self, id: i64)
        ensures
            final(self).queue@ == without_song(old(self).queue@, id),
            final(self).current == (match old(self).current {
                Some(c) => if c.id == id {
                    None
                } else {
                    Some(c)
                },
                None => None,
            }),
            *final(self) == (DaemonState {
                queue: final(self).queue,
                current: final(self).current,
                ..*old(self)
            }),
    {
        self.queue = songs_without(&self.queue, id);
        let playing = match &self.current {
            Some(c) => c.id == id,
            None => false,
        };
        if playing {
            self.current = None;
        }
    }

    /// Shuffles the whole library for the queue. Hands out the songs in their
    /// new order and what has to be stored; `load_queue` follows once it is. An
    /// empty library is an error.
    pub fn play_all_random(&self, songs: Vec<Song>) -> (r: Result<(Vec<Song>, Vec<StoreOp>), String>)
        ensures
            match r {
                Ok((order, ops)) => songs@.len() > 0 && order@.to_multiset() == songs@.to_multiset()
                    && order@.len() == songs@.len() && ops@ == rewrite_of(order@),
                Err(e) => songs@.len() == 0 && e@ == "library is empty"@,
            },
    {
        if songs.len() == 0 {
            return Err(String::from_str("library is empty"));
        }
        let mut order = songs;
        let ghost before = order@;
        shuffle(&mut order);
        proof {
            before.to_multiset_ensures();
            order@.to_multiset_ensures();
        }
        let ops = rewrite_queue(&order);
        Ok((order, ops))
    }

    /// Makes a list of songs the queue, and the round that repeat-all starts
    /// over with.
    pub fn load_queue(&mut self, songs: Vec<Song>)
        ensures
            final(self).queue == songs,
            final(self).cycle_snapshot@ == songs@,
            *final(self) == (DaemonState {
                queue: final(self).queue,
                cycle_snapshot: final(self).cycle_snapshot,
                ..*old(self)
            }),
    {
        self.cycle_snapshot = clone_songs(&songs);
        self.queue = songs;
    }

    /// Shuffles the queue, where there is anything to shuffle. Hands out what
    /// has to be stored; `remember_cycle` follows once it is.
    pub fn shuffle_queue(&mut self) -> (r: Option<Vec<StoreOp>>)
        ensures
            final(self).queue@.to_multiset() == old(self).queue@.to_multiset(),
            final(self).queue@.len() == old(self).queue@.len(),
            r is None <==> old(self).queue@.len() < 2,
            r is None ==> final(self).queue == old(self).queue,
            r matches Some(ops) ==> ops@ == rewrite_of(final(self).queue@),
            *final(self) == (DaemonState { queue: final(self).queue, ..*old(self) }),
    {
        if self.queue.len() < 2 {
            return None;
        }
        let ghost before = self.queue@;
        shuffle(&mut self.queue);
        proof {
            before.to_multiset_ensures();
            self.queue@.to_multiset_ensures();
        }
        Some(rewrite_queue(&self.queue))
    }

    /// Empties the queue.
    pub fn clear_queue(&mut self) -> (r: StoreOp)
        ensures
            r == StoreOp::ClearQueue,
            final(self).queue@.len() == 0,
            *final(self) == (DaemonState { queue: final(self).queue, ..*old(self) }),
    {
        self.queue = Vec::new();
        StoreOp::ClearQueue
    }

    /// The write that takes the head of the queue out of the stored queue.
    pub fn head_removal(&self) -> (r: Option<StoreOp>)
        ensures
            r == (if self.queue@.len() == 0 {
                None
            } else {
                Some(StoreOp::RemoveFirst(self.queue@[0].id))
            }),
    {
        if self.queue.len() == 0 {
            None
        } else {
            Some(StoreOp::RemoveFirst(self.queue[0].id))
        }
    }

    /// Takes the head off the queue, given whether its row was taken out of the
    /// stored queue. Where that failed the queue stays as it is.
    pub fn pop_played(&mut self, removed: Result<(), String>) -> (r: Result<Option<Song>, String>)
        ensures
            match r {
                Ok(Some(song)) => removed is Ok && old(self).queue@.len() > 0 && song
                    == old(self).queue@[0] && final(self).queue@ == old(self).queue@.drop_first(),
                Ok(None) => old(self).queue@.len() == 0 && final(self).queue == old(self).queue,
                Err(e) => old(self).queue@.len() > 0 && (removed matches Err(m) && e@
                    == "failed to delete queue row from DB: "@ + m@) && final(self).queue
                    == old(self).queue,
            },
            *final(self) == (DaemonState { queue: final(self).queue, ..*old(self) }),
    {
        if self.queue.len() == 0 {
            return Ok(None);
        }
        match removed {
            Ok(()) => {
                let song = self.queue.remove(0);
                assert(self.queue@ =~= old(self).queue@.drop_first());
                Ok(Some(song))
            },
            Err(m) => Err(concat2("failed to delete queue row from DB: ", m.as_str())),
        }
    }

    /// Gives up the song that plays and takes the head off the queue. Where the
    /// stored queue could not be changed, only the song is given up.
    pub fn skip(&mut self, removed: Result<(), String>) -> (r: Result<Option<Song>, String>)
        ensures
            match r {
                Ok(Some(song)) => removed is Ok && old(self).queue@.len() > 0 && song
                    == old(self).queue@[0] && final(self).queue@ == old(self).queue@.drop_first(),
                Ok(None) => old(self).queue@.len() == 0 && final(self).queue == old(self).queue,
                Err(e) => old(self).queue@.len() > 0 && (removed matches Err(m) && e@
                    == "failed to delete queue row from DB: "@ + m@) && final(self).queue
                    == old(self).queue,
            },
            final(self).current is None,
            !final(self).popped_for_current,
            *final(self) == (DaemonState {
                queue: final(self).queue,
                current: None,
                popped_for_current: false,
                ..*old(self)
            }),
    {
        self.current = None;
        self.popped_for_current = false;
        self.pop_played(removed)
    }

    /// Sets the repeat mode. Entering repeat-all without a round to start over
    /// with makes the queue that round.
    pub fn set_repeat(&mut self, mode: RepeatMode)
        ensures
            final(self).repeat_mode == mode,
            final(self).cycle_snapshot@ == (if mode == RepeatMode::All
                && old(self).cycle_snapshot@.len() == 0 {
                old(self).queue@
            } else {
                old(self).cycle_snapshot@
            }),
            *final(self) == (DaemonState {
                repeat_mode: mode,
                cycle_snapshot: final(self).cycle_snapshot,
                ..*old(self)
            }),
    {
        self.repeat_mode = mode;
        if mode == RepeatMode::All && self.cycle_snapshot.len() == 0 {
            self.cycle_snapshot = clone_songs(&self.queue);
        }
    }
}

/// The writes that go with a change of the queue keep the stored queue the same
/// as the queue in memory: adding a song, taking the head off, deleting a song
/// from the library, emptying the queue, and replacing it.
pub proof fn lemma_queue_mirrored(queue: Seq<Song>, song: Song, id: i64, replaced: Seq<Song>)
    ensures
        stored_after(ids_of(queue), StoreOp::AppendQueue(song.id)) == ids_of(queue.push(song)),
        queue.len() > 0 ==> stored_after(ids_of(queue), StoreOp::RemoveFirst(queue[0].id)) == ids_of(
            queue.drop_first(),
        ),
        stored_after(ids_of(queue), StoreOp::DeleteSong(id)) == ids_of(without_song(queue, id)),
        stored_after(ids_of(queue), StoreOp::ClearQueue) == ids_of(Seq::<Song>::empty()),
        stored_after_all(ids_of(queue), rewrite_of(replaced)) == ids_of(replaced),
{
    assert(ids_of(queue.push(song)) =~= ids_of(queue).push(song.id));
    if queue.len() > 0 {
        assert(ids_of(queue)[0] == queue[0].id);
        assert(ids_of(queue).drop_first() =~= ids_of(queue.drop_first()));
    }
    lemma_without_song(queue, id);
    assert(ids_of(Seq::<Song>::empty()) =~= Seq::<i64>::empty());
    lemma_rewrite(ids_of(queue), replaced);
}

/// All matches are ordered by score, best first.
pub proof fn lemma_all_matches_ordered(
    songs: Seq<Song>,
    query: Seq<char>,
    threshold: Real64,
    i: int,
    j: int,
)
    requires
        0 <= i < j < all_matches(songs, query, threshold).len(),
    ensures
        ({
            let list = scored_matches(songs, query, threshold);
            let p = descending(score_keys(list));
            let all = all_matches(songs, query, threshold);
            &&& all.len() == list.len()
            &&& 0 <= p[i] < list.len() && 0 <= p[j] < list.len()
            &&& all[i] == list[p[i]].0 && all[j] == list[p[j]].0
            &&& list[p[i]].1.key() >= list[p[j]].1.key()
        }),
{
    let list = scored_matches(songs, query, threshold);
    let keys = score_keys(list);
    lemma_descending_exists(keys);
    lemma_sorted_by_key(list, keys, i, j);
    let p = descending(keys);
    assert(keys[p[i]] == list[p[i]].1.key() as i64);
    assert(keys[p[j]] == list[p[j]].1.key() as i64);
}

/// No two songs have the same id.
pub open spec fn distinct_ids(songs: Seq<Song>) -> bool {
    forall|i: int, j: int|
        #![trigger songs[i], songs[j]]
        0 <= i < j < songs.len() ==> songs[i].id != songs[j].id
}

/// A song matches a query: it has this name, case aside, or is more similar than
/// the threshold asks for.
pub open spec fn is_match(s: Song, query: Seq<char>, threshold: Real64) -> bool {
    same_name(s.name@, query) || threshold.spec_lt(match_score(s, query))
}

/// The list holds the songs that match, each once and with its score.
spec fn holds_matches(
    list: Seq<(Song, Real64)>,
    songs: Seq<Song>,
    query: Seq<char>,
    threshold: Real64,
) -> bool {
    &&& forall|k: int|
        0 <= k < list.len() ==> songs.contains((#[trigger] list[k]).0) && is_match(
            list[k].0,
            query,
            threshold,
        ) && list[k].1 == match_score(list[k].0, query)
    &&& forall|i: int|
        0 <= i < songs.len() && is_match(#[trigger] songs[i], query, threshold) ==> songs_of(
            list,
        ).contains(songs[i])
    &&& forall|i: int, j: int|
        #![trigger list[i], list[j]]
        0 <= i < j < list.len() ==> list[i].0.id != list[j].0.id
}

proof fn lemma_filter_all(list: Seq<(Song, Real64)>, keep: spec_fn((Song, Real64)) -> bool)
    requires
        forall|k: int| 0 <= k < list.len() ==> keep(#[trigger] list[k]),
    ensures
        list.filter(keep) == list,
    decreases list.len(),
{
    reveal(Seq::filter);
    if list.len() > 0 {
        lemma_filter_all(list.drop_last(), keep);
        assert(keep(list[list.len() - 1]));
        assert(list.drop_last().push(list.last()) =~= list);
    } else {
        assert(list.filter(keep) =~= list);
    }
}

proof fn lemma_holds_matches(songs: Seq<Song>, query: Seq<char>, threshold: Real64)
    requires
        distinct_ids(songs),
    ensures
        holds_matches(scored_matches(songs, query, threshold), songs, query, threshold),
    decreases songs.len(),
{
    if songs.len() > 0 {
        let before = songs.drop_last();
        let s = songs.last();
        let old_list = scored_matches(before, query, threshold);
        let list = scored_matches(songs, query, threshold);
        assert forall|i: int, j: int|
            #![trigger before[i], before[j]]
            0 <= i < j < before.len() implies before[i].id != before[j].id by {
            assert(songs[i].id != songs[j].id);
        }
        lemma_holds_matches(before, query, threshold);
        assert forall|k: int| 0 <= k < old_list.len() implies (#[trigger] old_list[k]).0.id != s.id
            && songs.contains(old_list[k].0) by {
            assert(before.contains(old_list[k].0));
            let i = choose|i: int| 0 <= i < before.len() && before[i] == old_list[k].0;
            assert(songs[i] == old_list[k].0);
            assert(songs[i].id != songs[songs.len() - 1].id);
        }
        assert(songs[songs.len() - 1] == s);
        assert(songs.contains(s));
        let entry = (s, match_score(s, query));
        if same_name(s.name@, query) {
            lemma_filter_all(old_list, |x: (Song, Real64)| x.0.id != s.id);
            assert(list =~= seq![entry] + old_list);
            assert forall|k: int| 0 <= k < old_list.len() implies #[trigger] list[k + 1]
                == old_list[k] by {}
        } else if threshold.spec_lt(match_score(s, query)) {
            assert(list == old_list.push(entry));
        }
        assert forall|k: int| 0 <= k < list.len() implies songs.contains((#[trigger] list[k]).0)
            && is_match(list[k].0, query, threshold) && list[k].1 == match_score(
            list[k].0,
            query,
        ) by {
            if same_name(s.name@, query) {
                if k > 0 {
                    assert(list[k] == old_list[k - 1]);
                }
            } else if k < old_list.len() {
                assert(list[k] == old_list[k]);
            }
        }
        assert forall|i: int|
            0 <= i < songs.len() && is_match(#[trigger] songs[i], query, threshold) implies songs_of(
            list,
        ).contains(songs[i]) by {
            if i < before.len() {
                assert(before[i] == songs[i]);
                assert(songs_of(old_list).contains(before[i]));
                let k = choose|k: int|
                    0 <= k < songs_of(old_list).len() && songs_of(old_list)[k] == songs[i];
                let at = if same_name(s.name@, query) {
                    k + 1
                } else {
                    k
                };
                assert(list[at] == old_list[k]);
                assert(songs_of(list)[at] == songs[i]);
            } else if same_name(s.name@, query) {
                assert(songs_of(list)[0] == s);
            } else {
                assert(songs_of(list)[old_list.len() as int] == s);
            }
        }
        assert forall|i: int, j: int|
            #![trigger list[i], list[j]]
            0 <= i < j < list.len() implies list[i].0.id != list[j].0.id by {
            if same_name(s.name@, query) {
                assert(list[j] == old_list[j - 1]);
                if i > 0 {
                    assert(list[i] == old_list[i - 1]);
                }
            } else {
                assert(list[i] == old_list[i]);
                if j < old_list.len() {
                    assert(list[j] == old_list[j]);
                }
            }
        }
    }
}

/// All matches of a query are the songs that match it, each once, with scores
/// that do not increase.
pub proof fn lemma_all_matches(songs: Seq<Song>, query: Seq<char>, threshold: Real64)
    requires
        distinct_ids(songs),
    ensures
        forall|s: Song| #[trigger]
            all_matches(songs, query, threshold).contains(s) <==> songs.contains(s) && is_match(
                s,
                query,
                threshold,
            ),
        all_matches(songs, query, threshold).no_duplicates(),
        forall|i: int, j: int|
            0 <= i < j < all_matches(songs, query, threshold).len() ==> match_score(
                #[trigger] all_matches(songs, query, threshold)[j],
                query,
            ).spec_le(match_score(#[trigger] all_matches(songs, query, threshold)[i], query)),
{
    let list = scored_matches(songs, query, threshold);
    let keys = score_keys(list);
    let sorted = sorted_by_key(list, keys);
    let p = descending(keys);
    let all = all_matches(songs, query, threshold);
    lemma_holds_matches(songs, query, threshold);
    lemma_descending_exists(keys);
    lemma_arranged_items(list, keys);
    assert forall|s: Song| #[trigger] all.contains(s) implies songs.contains(s) && is_match(
        s,
        query,
        threshold,
    ) by {
        let k = choose|k: int| 0 <= k < all.len() && all[k] == s;
        assert(list[p[k]].0 == s);
    }
    assert forall|s: Song| songs.contains(s) && is_match(s, query, threshold) implies #[trigger]
        all.contains(s) by {
        let i = choose|i: int| 0 <= i < songs.len() && songs[i] == s;
        assert(songs_of(list).contains(songs[i]));
        let k = choose|k: int| 0 <= k < songs_of(list).len() && songs_of(list)[k] == s;
        assert(list.contains(list[k]));
        assert(sorted.contains(list[k]));
        let m = choose|m: int| 0 <= m < sorted.len() && sorted[m] == list[k];
        assert(all[m] == s);
    }
    assert forall|i: int, j: int| 0 <= i < all.len() && 0 <= j < all.len() && i != j implies all[i]
        != all[j] by {
        lemma_descending_complete(keys, p, p[i]);
        assert(p[i] != p[j]);
        if p[i] < p[j] {
            assert(list[p[i]].0.id != list[p[j]].0.id);
        } else {
            assert(list[p[j]].0.id != list[p[i]].0.id);
        }
    }
    assert forall|i: int, j: int| 0 <= i < j < all.len() implies match_score(
        #[trigger] all[j],
        query,
    ).spec_le(match_score(#[trigger] all[i], query)) by {
        lemma_sorted_by_key(list, keys, i, j);
        assert(all[i] == list[p[i]].0 && all[j] == list[p[j]].0);
        assert(keys[p[i]] == list[p[i]].1.key() as i64);
        assert(keys[p[j]] == list[p[j]].1.key() as i64);
        lemma_similarity_bound(lowered(all[i].name@), lowered(query));
        lemma_similarity_bound(lowered(all[j].name@), lowered(query));
    }
}

proof fn lemma_exact_match(songs: Seq<Song>, query: Seq<char>)
    ensures
        match exact_match(songs, query) {
            Some(s) => songs.contains(s) && same_name(s.name@, query),
            None => forall|k: int|
                0 <= k < songs.len() ==> !same_name((#[trigger] songs[k]).name@, query),
        },
    decreases songs.len(),
{
    if songs.len() > 0 {
        let rest = songs.drop_first();
        lemma_exact_match(rest, query);
        assert(songs[0] == songs.first());
        match exact_match(rest, query) {
            Some(s) => {
                let i = choose|i: int| 0 <= i < rest.len() && rest[i] == s;
                assert(songs[i + 1] == s);
            },
            None => {
                if !same_name(songs[0].name@, query) {
                    assert forall|k: int| 0 <= k < songs.len() implies !same_name(
                        (#[trigger] songs[k]).name@,
                        query,
                    ) by {
                        if k > 0 {
                            assert(songs[k] == rest[k - 1]);
                        }
                    }
                }
            },
        }
    }
}

proof fn lemma_fuzzy_match(songs: Seq<Song>, query: Seq<char>, threshold: Real64)
    ensures
        match fuzzy_match(songs, query, threshold) {
            Some(s) => songs.contains(s) && threshold.spec_lt(match_score(s, query)) && forall|k: int|
                0 <= k < songs.len() ==> match_score(#[trigger] songs[k], query).spec_le(
                    match_score(s, query),
                ),
            None => forall|k: int|
                0 <= k < songs.len() ==> !threshold.spec_lt(match_score(#[trigger] songs[k], query)),
        },
    decreases songs.len(),
{
    if songs.len() > 0 {
        let before = songs.drop_last();
        let s = songs.last();
        lemma_fuzzy_match(before, query, threshold);
        lemma_similarity_bound(lowered(s.name@), lowered(query));
        assert(songs[songs.len() - 1] == s);
        assert forall|k: int| 0 <= k < before.len() implies #[trigger] songs[k] == before[k] by {}
        assert forall|k: int| 0 <= k < songs.len() implies !match_score(
            #[trigger] songs[k],
            query,
        ).is_nan() by {
            lemma_similarity_bound(lowered(songs[k].name@), lowered(query));
        }
        match fuzzy_match(before, query, threshold) {
            Some(b) => {
                let i = choose|i: int| 0 <= i < before.len() && before[i] == b;
                assert(songs[i] == b);
                lemma_similarity_bound(lowered(b.name@), lowered(query));
            },
            None => {},
        }
    }
}

/// The best match of a query is one of its matches, with the highest score among
/// them; there is a best match exactly where there is a match.
pub proof fn lemma_best_match(songs: Seq<Song>, query: Seq<char>, threshold: Real64)
    requires
        distinct_ids(songs),
    ensures
        all_matches(songs, query, threshold).len() == 0 <==> best_match(songs, query, threshold)
            is None,
        best_match(songs, query, threshold) matches Some(s) ==> all_matches(
            songs,
            query,
            threshold,
        ).contains(s) && forall|t: Song| #[trigger]
            all_matches(songs, query, threshold).contains(t) ==> match_score(t, query).spec_le(
                match_score(s, query),
            ),
{
    let all = all_matches(songs, query, threshold);
    lemma_all_matches(songs, query, threshold);
    lemma_exact_match(songs, query);
    lemma_fuzzy_match(songs, query, threshold);
    match best_match(songs, query, threshold) {
        Some(s) => {
            assert(all.contains(s));
            assert forall|t: Song| #[trigger] all.contains(t) implies match_score(t, query).spec_le(
                match_score(s, query),
            ) by {
                lemma_similarity_bound(lowered(t.name@), lowered(query));
                lemma_similarity_bound(lowered(s.name@), lowered(query));
                let k = choose|k: int| 0 <= k < songs.len() && songs[k] == t;
                assert(match_score(songs[k], query) == match_score(t, query));
            }
        },
        None => {
            if all.len() > 0 {
                assert(all.contains(all[0]));
                let k = choose|k: int| 0 <= k < songs.len() && songs[k] == all[0];
                assert(!is_match(songs[k], query, threshold));
            }
        },
    }
}

/// A query finds a song exactly where some song has its name, case aside, or is
/// more similar to it than the threshold asks for.
pub proof fn lemma_search_finds(songs: Seq<Song>, query: Seq<char>, threshold: Real64)
    ensures
        best_match(songs, query, threshold) is Some <==> exists|k: int|
            0 <= k < songs.len() && (lowered((#[trigger] songs[k]).name@) == lowered(query)
                || threshold.spec_lt(similarity(lowered(songs[k].name@), lowered(query)))),
        best_match(songs, query, threshold) matches Some(s) ==> songs.contains(s),
{
    lemma_exact_match(songs, query);
    lemma_fuzzy_match(songs, query, threshold);
    match best_match(songs, query, threshold) {
        Some(s) => {
            let k = choose|k: int| 0 <= k < songs.len() && songs[k] == s;
            assert(lowered(songs[k].name@) == lowered(query) || threshold.spec_lt(
                similarity(lowered(songs[k].name@), lowered(query)),
            ));
        },
        None => {
            assert forall|k: int| 0 <= k < songs.len() implies !(lowered(
                (#[trigger] songs[k]).name@,
            ) == lowered(query) || threshold.spec_lt(
                similarity(lowered(songs[k].name@), lowered(query)),
            )) by {
                assert(!same_name(songs[k].name@, query));
                assert(!threshold.spec_lt(match_score(songs[k], query)));
            }
        },
    }
}

/// The first song with the name of the query, case aside, is what it finds,
/// however similar others are.
pub proof fn lemma_name_wins(songs: Seq<Song>, query: Seq<char>, threshold: Real64, k: int)
    requires
        0 <= k < songs.len(),
        lowered(songs[k].name@) == lowered(query),
        forall|i: int| 0 <= i < k ==> lowered((#[trigger] songs[i]).name@) != lowered(query),
    ensures
        best_match(songs, query, threshold) == Some(songs[k]),
    decreases k,
{
    if k > 0 {
        let rest = songs.drop_first();
        assert(lowered(songs[0].name@) != lowered(query));
        assert forall|i: int| 0 <= i < k - 1 implies lowered((#[trigger] rest[i]).name@) != lowered(
            query,
        ) by {
            assert(rest[i] == songs[i + 1]);
        }
        lemma_name_wins(rest, query, threshold, k - 1);
        lemma_exact_match(rest, query);
        if exact_match(rest, query) is None {
            assert(!same_name(rest[k - 1].name@, query));
        }
    }
}

/// Where no song has the name, the most similar one above the threshold is
/// found, and among equally similar ones the last.
pub proof fn lemma_most_similar_wins(songs: Seq<Song>, query: Seq<char>, threshold: Real64, k: int)
    requires
        0 <= k < songs.len(),
        forall|i: int| 0 <= i < songs.len() ==> lowered((#[trigger] songs[i]).name@) != lowered(query),
        threshold.spec_lt(similarity(lowered(songs[k].name@), lowered(query))),
        forall|i: int|
            0 <= i < k ==> similarity(lowered((#[trigger] songs[i]).name@), lowered(query)).bits
                <= similarity(lowered(songs[k].name@), lowered(query)).bits,
        forall|i: int|
            k < i < songs.len() ==> similarity(
                lowered((#[trigger] songs[i]).name@),
                lowered(query),
            ).bits < similarity(lowered(songs[k].name@), lowered(query)).bits,
    ensures
        best_match(songs, query, threshold) == Some(songs[k]),
{
    lemma_exact_match(songs, query);
    match exact_match(songs, query) {
        Some(s) => {
            let i = choose|i: int| 0 <= i < songs.len() && songs[i] == s;
            assert(lowered(songs[i].name@) != lowered(query));
        },
        None => {},
    }
    lemma_fuzzy_last_best(songs, query, threshold, k);
}

proof fn lemma_fuzzy_last_best(songs: Seq<Song>, query: Seq<char>, threshold: Real64, k: int)
    requires
        0 <= k < songs.len(),
        threshold.spec_lt(match_score(songs[k], query)),
        forall|i: int|
            0 <= i < k ==> match_score(#[trigger] songs[i], query).bits <= match_score(
                songs[k],
                query,
            ).bits,
        forall|i: int|
            k < i < songs.len() ==> match_score(#[trigger] songs[i], query).bits < match_score(
                songs[k],
                query,
            ).bits,
    ensures
        fuzzy_match(songs, query, threshold) == Some(songs[k]),
    decreases songs.len(),
{
    let before = songs.drop_last();
    let s = songs.last();
    lemma_similarity_bound(lowered(s.name@), lowered(query));
    lemma_similarity_bound(lowered(songs[k].name@), lowered(query));
    assert forall|i: int| 0 <= i < before.len() implies #[trigger] before[i] == songs[i] by {}
    if k < songs.len() - 1 {
        assert(songs[songs.len() - 1] == s);
        assert(match_score(songs[songs.len() - 1], query).bits < match_score(songs[k], query).bits);
        assert(before[k] == songs[k]);
        lemma_fuzzy_last_best(before, query, threshold, k);
    } else {
        lemma_fuzzy_match(before, query, threshold);
        match fuzzy_match(before, query, threshold) {
            Some(b) => {
                let i = choose|i: int| 0 <= i < before.len() && before[i] == b;
                assert(songs[i] == b);
                lemma_similarity_bound(lowered(b.name@), lowered(query));
                assert(match_score(songs[i], query).bits <= match_score(songs[k], query).bits);
            },
            None => {},
        }
    }
}

/// A search for all songs finds each song that has the name, case aside, or is
/// more similar than the threshold asks for, and no other; more similar ones
/// come first.
pub proof fn lemma_search_all_finds(songs: Seq<Song>, query: Seq<char>, threshold: Real64, s: Song)
    requires
        distinct_ids(songs),
        songs.contains(s),
    ensures
        all_matches(songs, query, threshold).contains(s) <==> lowered(s.name@) == lowered(query)
            || threshold.spec_lt(similarity(lowered(s.name@), lowered(query))),
        forall|i: int, j: int|
            0 <= i < j < all_matches(songs, query, threshold).len() ==> similarity(
                lowered((#[trigger] all_matches(songs, query, threshold)[j]).name@),
                lowered(query),
            ).bits <= similarity(
                lowered((#[trigger] all_matches(songs, query, threshold)[i]).name@),
                lowered(query),
            ).bits,
{
    lemma_all_matches(songs, query, threshold);
    let all = all_matches(songs, query, threshold);
    assert(all.contains(s) <==> is_match(s, query, threshold));
    assert forall|i: int, j: int| 0 <= i < j < all.len() implies similarity(
        lowered((#[trigger] all[j]).name@),
        lowered(query),
    ).bits <= similarity(lowered((#[trigger] all[i]).name@), lowered(query)).bits by {
        assert(match_score(all[j], query).spec_le(match_score(all[i], query)));
        lemma_similarity_bound(lowered(all[i].name@), lowered(query));
        lemma_similarity_bound(lowered(all[j].name@), lowered(query));
    }
}

/// Taking a song out leaves every other song, in its order.
pub proof fn lemma_without_song_filters(songs: Seq<Song>, id: i64)
    ensures
        without_song(songs, id) == songs.filter(|s: Song| s.id != id),
    decreases songs.len(),
{
    reveal(Seq::filter);
    if songs.len() > 0 {
        lemma_without_song_filters(songs.drop_last(), id);
    } else {
        assert(songs.filter(|s: Song| s.id != id) =~= songs);
    }
}

} // verus!
