//! The playback loop: what to do when a song has started, ended or failed, and
//! when to start the next one.

use vstd::prelude::*;

use crate::model::{clone_songs, RepeatMode, Song};
use crate::state::DaemonState;
use crate::store::{
    ids_of, lemma_rewrite, rewrite_of, rewrite_queue, stored_after, stored_after_all, StoreOp,
};

verus! {

/// What the audio engine reports.
#[derive(Clone, Copy, Debug, PartialEq, Eq, Structural)]
pub struct EngineReport {
    /// A song is sounding, or paused.
    pub playing: bool,
    /// A song is being set up.
    pub pending: bool,
    /// Setting up the last song failed.
    pub failed: bool,
    /// Whole seconds that the song has played.
    pub elapsed_secs: i64,
}

/// What a step of the playback loop asks for.
#[derive(Debug)]
pub struct TickPlan {
    /// What has to be stored, in this order.
    pub ops: Vec<StoreOp>,
    /// The file to start playing.
    pub play: Option<String>,
}

/// The song of the state has ended: it sounds no longer, and nothing is being
/// set up.
pub open spec fn has_ended(s: DaemonState, e: EngineReport) -> bool {
    s.current is Some && !e.pending && (e.failed || !e.playing)
}

/// The song of the state has begun to sound, and its row is still in the queue.
pub open spec fn has_begun(s: DaemonState, e: EngineReport) -> bool {
    s.current is Some && !has_ended(s, e) && e.playing && !s.popped_for_current
}

/// The row of the song at the head of the queue is due to go: its song has
/// begun, or has ended before its row was taken out.
pub open spec fn pop_due(s: DaemonState, e: EngineReport) -> bool {
    s.queue@.len() > 0 && (has_begun(s, e) || (has_ended(s, e) && !s.popped_for_current))
}

/// The write that a step of the loop starts with: the row of a song that has
/// begun is taken out of the stored queue, once.
pub fn tick_removal(s: &DaemonState, e: EngineReport) -> (r: Option<StoreOp>)
    ensures
        r == (if pop_due(*s, e) {
            Some(StoreOp::RemoveFirst(s.queue@[0].id))
        } else {
            None
        }),
{
    if s.queue.len() == 0 || s.popped_for_current || s.current.is_none() {
        return None;
    }
    let ended = !e.pending && (e.failed || !e.playing);
    if ended || e.playing {
        Some(StoreOp::RemoveFirst(s.queue[0].id))
    } else {
        None
    }
}

/// The queue once the head was taken off, where that was due and the stored
/// queue could be changed.
pub open spec fn queue_after_pop(s: DaemonState, e: EngineReport, removed: bool) -> Seq<Song> {
    if pop_due(s, e) && removed {
        s.queue@.drop_first()
    } else {
        s.queue@
    }
}

/// The queue after a song has ended, by the repeat mode: as it is, with the
/// song at its end, or, once it is empty, the whole round again.
pub open spec fn queue_after_end(mode: RepeatMode, queue: Seq<Song>, cycle: Seq<Song>, ended: Song) -> Seq<
    Song,
> {
    match mode {
        RepeatMode::Off => queue,
        RepeatMode::One => queue.push(ended),
        RepeatMode::All => if queue.len() == 0 {
            cycle
        } else {
            queue
        },
    }
}

/// The round that repeat-all starts over with, after a song has ended. Only
/// repeat-one changes it.
pub open spec fn cycle_after_end(mode: RepeatMode, queue: Seq<Song>, cycle: Seq<Song>, ended: Song) -> Seq<
    Song,
> {
    if mode == RepeatMode::One {
        queue.push(ended)
    } else {
        cycle
    }
}

/// What has to be stored for the queue after a song has ended.
pub open spec fn ops_after_end(mode: RepeatMode, queue: Seq<Song>, cycle: Seq<Song>, ended: Song) -> Seq<
    StoreOp,
> {
    match mode {
        RepeatMode::Off => Seq::empty(),
        RepeatMode::One => seq![StoreOp::AppendQueue(ended.id)],
        RepeatMode::All => if queue.len() == 0 && cycle.len() > 0 {
            rewrite_of(cycle)
        } else {
            Seq::empty()
        },
    }
}

/// Applies the repeat mode after a song has ended. Hands out what has to be
/// stored.
pub fn apply_repeat_after_end(s: &mut DaemonState, ended: &Song) -> (r: Vec<StoreOp>)
    ensures
        final(s).queue@ == queue_after_end(
            old(s).repeat_mode,
            old(s).queue@,
            old(s).cycle_snapshot@,
            *ended,
        ),
        final(s).cycle_snapshot@ == cycle_after_end(
            old(s).repeat_mode,
            old(s).queue@,
            old(s).cycle_snapshot@,
            *ended,
        ),
        r@ == ops_after_end(old(s).repeat_mode, old(s).queue@, old(s).cycle_snapshot@, *ended),
        *final(s) == (DaemonState {
            queue: final(s).queue,
            cycle_snapshot: final(s).cycle_snapshot,
            ..*old(s)
        }),
{
    match s.repeat_mode {
        RepeatMode::Off => Vec::new(),
        RepeatMode::One => {
            s.queue.push(ended.clone());
            s.cycle_snapshot = clone_songs(&s.queue);
            let mut ops: Vec<StoreOp> = Vec::new();
            ops.push(StoreOp::AppendQueue(ended.id));
            assert(ops@ =~= seq![StoreOp::AppendQueue(ended.id)]);
            ops
        },
        RepeatMode::All => {
            if s.queue.len() == 0 && s.cycle_snapshot.len() > 0 {
                s.queue = clone_songs(&s.cycle_snapshot);
                rewrite_queue(&s.queue)
            } else {
                assert(s.queue@.len() == 0 ==> s.queue@ =~= s.cycle_snapshot@);
                Vec::new()
            }
        },
    }
}

/// The queue after a step of the loop.
pub open spec fn queue_after_tick(s: DaemonState, e: EngineReport, removed: bool) -> Seq<Song> {
    let q = queue_after_pop(s, e, removed);
    if has_ended(s, e) {
        queue_after_end(s.repeat_mode, q, s.cycle_snapshot@, s.current->0)
    } else {
        q
    }
}

/// The engine can start another song: nothing sounds, nothing is being set up,
/// and no song is current.
pub open spec fn starts_next(s: DaemonState, e: EngineReport, removed: bool) -> bool {
    queue_after_tick(s, e, removed).len() > 0 && !e.playing && !e.pending && (s.current is None
        || has_ended(s, e))
}

/// What is noted in the history: a song that has ended, with the seconds that
/// it played. A song that never sounded is not noted, nor one whose row could
/// not be taken out.
pub open spec fn history_of(s: DaemonState, e: EngineReport, removed: bool, now: i64) -> Seq<
    StoreOp,
> {
    if has_ended(s, e) && !e.failed && (removed || !pop_due(s, e)) {
        seq![
            StoreOp::AddHistory(
                (s.current->0).id,
                now,
                if e.elapsed_secs > 0 {
                    e.elapsed_secs
                } else {
                    0
                },
            ),
        ]
    } else {
        Seq::empty()
    }
}

/// What has to be stored in a step of the loop, besides the row that
/// `tick_removal` takes out.
pub open spec fn tick_ops(s: DaemonState, e: EngineReport, removed: bool, now: i64) -> Seq<StoreOp> {
    if has_ended(s, e) {
        history_of(s, e, removed, now) + ops_after_end(
            s.repeat_mode,
            queue_after_pop(s, e, removed),
            s.cycle_snapshot@,
            s.current->0,
        )
    } else {
        Seq::empty()
    }
}

fn note_history(s: &Song, e: EngineReport, now: i64) -> (r: StoreOp)
    ensures
        r == StoreOp::AddHistory(
            s.id,
            now,
            if e.elapsed_secs > 0 {
                e.elapsed_secs
            } else {
                0
            },
        ),
{
    let secs: i64 = if e.elapsed_secs > 0 {
        e.elapsed_secs
    } else {
        0
    };
    StoreOp::AddHistory(s.id, now, secs)
}

/// One step of the playback loop, given what the engine reports and whether
/// the write of `tick_removal` succeeded.
pub fn tick(s: &mut DaemonState, e: EngineReport, removed: bool, now: i64) -> (r: TickPlan)
    ensures
        r.ops@ == tick_ops(*old(s), e, removed, now),
        final(s).queue@ == queue_after_tick(*old(s), e, removed),
        final(s).cycle_snapshot@ == (if has_ended(*old(s), e) {
            cycle_after_end(
                old(s).repeat_mode,
                queue_after_pop(*old(s), e, removed),
                old(s).cycle_snapshot@,
                old(s).current->0,
            )
        } else {
            old(s).cycle_snapshot@
        }),
        final(s).current == (if starts_next(*old(s), e, removed) {
            Some(final(s).queue@[0])
        } else if has_ended(*old(s), e) {
            None
        } else {
            old(s).current
        }),
        final(s).popped_for_current == (has_begun(*old(s), e) || (old(s).popped_for_current
            && !has_ended(*old(s), e) && !starts_next(*old(s), e, removed))),
        match r.play {
            Some(path) => starts_next(*old(s), e, removed) && path == final(s).queue@[0].path,
            None => !starts_next(*old(s), e, removed),
        },
        !e.playing && !e.pending && final(s).queue@.len() > 0 ==> final(s).current == Some(
            final(s).queue@[0],
        ) && r.play == Some(final(s).queue@[0].path) && !final(s).popped_for_current,
        e.playing || e.pending || final(s).queue@.len() == 0 ==> r.play is None,
        e.pending || (e.playing && !e.failed) ==> final(s).current == old(s).current && r.ops@.len()
            == 0,
        !e.pending && (e.failed || !e.playing) && r.play is None ==> final(s).current is None,
        old(s).current is None ==> final(s).queue@ == old(s).queue@ && r.ops@.len() == 0,
        *final(s) == (DaemonState {
            queue: final(s).queue,
            current: final(s).current,
            cycle_snapshot: final(s).cycle_snapshot,
            popped_for_current: final(s).popped_for_current,
            ..*old(s)
        }),
{
    let due = tick_removal(s, e).is_some();
    let ended = s.current.is_some() && !e.pending && (e.failed || !e.playing);
    let begun = s.current.is_some() && !ended && e.playing && !s.popped_for_current;
    if due && removed {
        let gone = s.queue.remove(0);
    }
    assert(s.queue@ =~= queue_after_pop(*old(s), e, removed));
    let mut ops: Vec<StoreOp> = Vec::new();
    if ended {
        let song = match &s.current {
            Some(c) => Some(c.clone()),
            None => None,
        };
        s.current = None;
        s.popped_for_current = false;
        match song {
            Some(c) => {
                if !e.failed && (removed || !due) {
                    ops.push(note_history(&c, e, now));
                }
                assert(ops@ =~= history_of(*old(s), e, removed, now));
                let mut more = apply_repeat_after_end(s, &c);
                ops.append(&mut more);
            },
            None => {},
        }
    }
    if begun {
        s.popped_for_current = true;
    }
    let mut play: Option<String> = None;
    if s.queue.len() > 0 && !e.playing && !e.pending && s.current.is_none() {
        let next = s.queue[0].clone();
        play = Some(next.path.clone());
        s.current = Some(next);
        s.popped_for_current = false;
    }
    TickPlan { ops, play }
}

/// Writes to the history leave the stored queue alone.
proof fn lemma_history_first(rows: Seq<i64>, h: Seq<StoreOp>, ops: Seq<StoreOp>)
    requires
        forall|i: int| 0 <= i < h.len() ==> (#[trigger] h[i]) is AddHistory,
    ensures
        stored_after_all(rows, h + ops) == stored_after_all(rows, ops),
    decreases h.len() + ops.len(),
{
    let all = h + ops;
    if ops.len() > 0 {
        assert(all.drop_last() =~= h + ops.drop_last());
        assert(all.last() == ops.last());
        lemma_history_first(rows, h, ops.drop_last());
    } else if h.len() > 0 {
        assert(all =~= h);
        assert(h.drop_last() + ops =~= h.drop_last());
        assert(h.last() is AddHistory) by {
            assert(h[h.len() - 1] is AddHistory);
        }
        assert forall|i: int| 0 <= i < h.drop_last().len() implies (#[trigger] h.drop_last()[i]) is AddHistory by {
            assert(h[i] is AddHistory);
        }
        lemma_history_first(rows, h.drop_last(), ops);
    } else {
        assert(all =~= ops);
    }
}

/// The stored queue after the write that a step of the loop starts with.
pub open spec fn rows_after_removal(s: DaemonState, e: EngineReport, rows: Seq<i64>) -> Seq<i64> {
    if pop_due(s, e) {
        stored_after(rows, StoreOp::RemoveFirst(s.queue@[0].id))
    } else {
        rows
    }
}

/// A step of the loop keeps the stored queue and the queue in memory the same,
/// where its writes succeed.
pub proof fn lemma_tick_mirrored(s: DaemonState, e: EngineReport, now: i64, rows: Seq<i64>)
    requires
        s.mirrored_by(rows),
    ensures
        stored_after_all(rows_after_removal(s, e, rows), tick_ops(s, e, true, now)) == ids_of(
            queue_after_tick(s, e, true),
        ),
{
    let q = queue_after_pop(s, e, true);
    let rows1 = rows_after_removal(s, e, rows);
    if pop_due(s, e) {
        assert(rows[0] == s.queue@[0].id);
        assert(ids_of(s.queue@).drop_first() =~= ids_of(s.queue@.drop_first()));
    }
    assert(rows1 == ids_of(q));
    if has_ended(s, e) {
        let ended = s.current->0;
        let h = history_of(s, e, true, now);
        let ops = ops_after_end(s.repeat_mode, q, s.cycle_snapshot@, ended);
        lemma_history_first(rows1, h, ops);
        match s.repeat_mode {
            RepeatMode::Off => {},
            RepeatMode::One => {
                assert(ops.drop_last() =~= Seq::<StoreOp>::empty());
                assert(stored_after_all(rows1, ops.drop_last()) == rows1);
                assert(ids_of(q.push(ended)) =~= ids_of(q).push(ended.id));
            },
            RepeatMode::All => {
                if q.len() == 0 {
                    if s.cycle_snapshot@.len() > 0 {
                        lemma_rewrite(rows1, s.cycle_snapshot@);
                    } else {
                        assert(q =~= s.cycle_snapshot@);
                    }
                }
            },
        }
    }
}

/// Repeat-all starts the same round over, again and again: when the last song
/// has ended the queue is the round once more, its first song plays, and the
/// round stays what it was.
pub proof fn lemma_repeat_all_loops(s: DaemonState, e: EngineReport)
    requires
        s.repeat_mode == RepeatMode::All,
        s.cycle_snapshot@.len() > 0,
        has_ended(s, e),
        queue_after_pop(s, e, true).len() == 0,
        !e.playing,
    ensures
        queue_after_tick(s, e, true) == s.cycle_snapshot@,
        starts_next(s, e, true),
        cycle_after_end(
            s.repeat_mode,
            queue_after_pop(s, e, true),
            s.cycle_snapshot@,
            s.current->0,
        ) == s.cycle_snapshot@,
{
}

/// A song that has ended takes no other song out of the queue: once its own row
/// is out, every song that waits still waits.
pub proof fn lemma_end_keeps_waiting_songs(s: DaemonState, e: EngineReport, removed: bool)
    requires
        has_ended(s, e),
        s.popped_for_current,
    ensures
        queue_after_pop(s, e, removed) == s.queue@,
        s.repeat_mode == RepeatMode::Off ==> queue_after_tick(s, e, removed) == s.queue@,
        s.repeat_mode == RepeatMode::One ==> queue_after_tick(s, e, removed) == s.queue@.push(
            s.current->0,
        ),
        s.queue@.len() > 0 && s.repeat_mode == RepeatMode::All ==> queue_after_tick(s, e, removed)
            == s.queue@,
{
}

/// A song that could not be set up leaves no trace in the history.
pub proof fn lemma_failure_not_noted(s: DaemonState, e: EngineReport, removed: bool, now: i64, i: int)
    requires
        e.failed,
        0 <= i < tick_ops(s, e, removed, now).len(),
    ensures
        !(tick_ops(s, e, removed, now)[i] is AddHistory),
{
    let q = queue_after_pop(s, e, removed);
    let ops = ops_after_end(s.repeat_mode, q, s.cycle_snapshot@, s.current->0);
    assert(tick_ops(s, e, removed, now) =~= ops);
}

/// The loop goes on: where nothing sounds and nothing is being set up, a queue
/// that holds a song has its first song started, whether the song before it
/// ended or failed and whatever the repeat mode.
pub proof fn lemma_loop_goes_on(s: DaemonState, e: EngineReport, removed: bool)
    ensures
        !e.playing && !e.pending && queue_after_tick(s, e, removed).len() > 0 ==> starts_next(
            s,
            e,
            removed,
        ),
        e.playing || e.pending || queue_after_tick(s, e, removed).len() == 0 ==> !starts_next(
            s,
            e,
            removed,
        ),
{
}

/// A queue that holds a song is never left standing: with nothing sounding and
/// nothing being set up, a song is started even where the step before it took
/// one out, as long as two were waiting, or one that was out already.
pub proof fn lemma_waiting_song_starts(s: DaemonState, e: EngineReport, removed: bool)
    requires
        !e.playing,
        !e.pending,
        s.queue@.len() > 1 || (s.queue@.len() == 1 && (s.current is None || s.popped_for_current
            || !removed || s.repeat_mode == RepeatMode::One)),
    ensures
        starts_next(s, e, removed),
{
}

/// The row of a song leaves the queue once: as its song begins to sound, or, if
/// that was never seen, as the song ends or fails. Where the stored row could
/// not be taken out, it stays.
pub proof fn lemma_row_leaves_once(s: DaemonState, e: EngineReport, removed: bool)
    ensures
        ({
            let q = queue_after_pop(s, e, removed);
            let settled = !e.pending || e.playing;
            &&& s.current is Some && !s.popped_for_current && removed && settled && s.queue@.len() > 0
                ==> q == s.queue@.drop_first()
            &&& s.current is None || s.popped_for_current || !removed || !settled ==> q == s.queue@
        }),
{
}

/// What the repeat mode makes of the queue once a song has ended or failed: with
/// repeat off the queue stays, with repeat-one the song goes to its end, and with
/// repeat-all an empty queue becomes the round again. While a song sounds or is
/// being set up, the mode does nothing.
pub proof fn lemma_repeat_modes(s: DaemonState, e: EngineReport, removed: bool)
    ensures
        ({
            let q = queue_after_pop(s, e, removed);
            let r = queue_after_tick(s, e, removed);
            let over = s.current is Some && !e.pending && (e.failed || !e.playing);
            &&& !over ==> r == q
            &&& over && s.repeat_mode == RepeatMode::Off ==> r == q
            &&& over && s.repeat_mode == RepeatMode::One ==> r.len() == q.len() + 1 && r.drop_last()
                == q && Some(r.last()) == s.current
            &&& over && s.repeat_mode == RepeatMode::All && q.len() > 0 ==> r == q
            &&& over && s.repeat_mode == RepeatMode::All && q.len() == 0 ==> r
                == s.cycle_snapshot@
        }),
{
    let q = queue_after_pop(s, e, removed);
    if s.current is Some {
        assert(q.push(s.current->0).drop_last() =~= q);
    }
}

/// The round that repeat-all starts over with changes only where a song ends
/// under repeat-one: it is then the queue, with that song at its end.
pub proof fn lemma_round_kept(mode: RepeatMode, queue: Seq<Song>, cycle: Seq<Song>, ended: Song)
    ensures
        mode == RepeatMode::Off || mode == RepeatMode::All ==> cycle_after_end(
            mode,
            queue,
            cycle,
            ended,
        ) == cycle,
        mode == RepeatMode::One ==> cycle_after_end(mode, queue, cycle, ended) == queue_after_end(
            mode,
            queue,
            cycle,
            ended,
        ) && cycle_after_end(mode, queue, cycle, ended).last() == ended,
{
}

/// A song that was heard to its end is noted first, with the seconds that it
/// played, none of them negative; a song that failed, or that has not ended, is
/// not noted. Nothing is noted twice.
pub proof fn lemma_heard_song_noted(s: DaemonState, e: EngineReport, removed: bool, now: i64)
    ensures
        ({
            let ops = tick_ops(s, e, removed, now);
            let over = s.current is Some && !e.pending && !e.failed && !e.playing;
            let heard = over && (removed || s.popped_for_current || s.queue@.len() == 0);
            &&& heard ==> ops.len() > 0 && ops[0] == StoreOp::AddHistory(
                s.current->0.id,
                now,
                if e.elapsed_secs < 0 {
                    0
                } else {
                    e.elapsed_secs
                },
            )
            &&& forall|i: int|
                0 <= i < ops.len() && (#[trigger] ops[i]) is AddHistory ==> heard && i == 0
        }),
{
    let ops = tick_ops(s, e, removed, now);
    let h = history_of(s, e, removed, now);
    if has_ended(s, e) {
        let rest = ops_after_end(
            s.repeat_mode,
            queue_after_pop(s, e, removed),
            s.cycle_snapshot@,
            s.current->0,
        );
        assert forall|i: int| 0 <= i < ops.len() && (#[trigger] ops[i]) is AddHistory implies i
            < h.len() by {
            if i >= h.len() {
                assert(ops[i] == rest[i - h.len()]);
            }
        }
    }
}

} // verus!
