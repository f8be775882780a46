//! What the daemon writes to its database, and the patterns it searches with.

use vstd::prelude::*;

use crate::model::Song;
use crate::text::{
    ascii_lower, ascii_lower_char, concat3, contains_text, occurs_at,
};

verus! {

/// One write to the database.
#[derive(Clone, Copy, Debug, PartialEq, Eq, Structural)]
pub enum StoreOp {
    /// Empty the stored queue.
    ClearQueue,
    /// Put a song at the end of the stored queue.
    AppendQueue(i64),
    /// Take the first row of a song out of the stored queue.
    RemoveFirst(i64),
    /// Delete a song, and with it its rows in the stored queue.
    DeleteSong(i64),
    /// Note that a song was played: song, time, seconds.
    AddHistory(i64, i64, i64),
}

/// The ids of a list of songs.
pub open spec fn ids_of(songs: Seq<Song>) -> Seq<i64> {
    songs.map_values(|s: Song| s.id)
}

/// A row without the first occurrence of `id`.
pub open spec fn without_first(rows: Seq<i64>, id: i64) -> Seq<i64>
    decreases rows.len(),
{
    if rows.len() == 0 {
        rows
    } else if rows[0] == id {
        rows.drop_first()
    } else {
        seq![rows[0]] + without_first(rows.drop_first(), id)
    }
}

/// Rows without any occurrence of `id`.
pub open spec fn without_id(rows: Seq<i64>, id: i64) -> Seq<i64>
    decreases rows.len(),
{
    if rows.len() == 0 {
        rows
    } else if rows.last() == id {
        without_id(rows.drop_last(), id)
    } else {
        without_id(rows.drop_last(), id).push(rows.last())
    }
}

/// The stored queue after a write.
pub open spec fn stored_after(rows: Seq<i64>, op: StoreOp) -> Seq<i64> {
    match op {
        StoreOp::ClearQueue => Seq::empty(),
        StoreOp::AppendQueue(id) => rows.push(id),
        StoreOp::RemoveFirst(id) => without_first(rows, id),
        StoreOp::DeleteSong(id) => without_id(rows, id),
        StoreOp::AddHistory(_, _, _) => rows,
    }
}

/// The stored queue after several writes.
pub open spec fn stored_after_all(rows: Seq<i64>, ops: Seq<StoreOp>) -> Seq<i64>
    decreases ops.len(),
{
    if ops.len() == 0 {
        rows
    } else {
        stored_after(stored_after_all(rows, ops.drop_last()), ops.last())
    }
}

/// The writes that make the stored queue hold `songs`.
pub open spec fn rewrite_of(songs: Seq<Song>) -> Seq<StoreOp> {
    seq![StoreOp::ClearQueue] + songs.map_values(|s: Song| StoreOp::AppendQueue(s.id))
}

/// The writes that make the stored queue hold `songs`.
pub fn rewrite_queue(songs: &Vec<Song>) -> (r: Vec<StoreOp>)
    ensures
        r@ == rewrite_of(songs@),
{
    let mut ops: Vec<StoreOp> = Vec::new();
    ops.push(StoreOp::ClearQueue);
    let mut i: usize = 0;
    while i < songs.len()
        invariant
            i <= songs@.len(),
            ops@ == rewrite_of(songs@).take(i + 1),
        decreases songs@.len() - i,
    {
        ops.push(StoreOp::AppendQueue(songs[i].id));
        assert(ops@ =~= rewrite_of(songs@).take(i + 2));
        i += 1;
    }
    assert(rewrite_of(songs@).take(i + 1) =~= rewrite_of(songs@));
    ops
}

proof fn lemma_rewrite_prefix(rows: Seq<i64>, songs: Seq<Song>, n: int)
    requires
        0 <= n <= songs.len(),
    ensures
        stored_after_all(rows, rewrite_of(songs).take(n + 1)) == ids_of(songs).take(n),
    decreases n,
{
    let ops = rewrite_of(songs).take(n + 1);
    if n == 0 {
        assert(ops.drop_last() =~= Seq::<StoreOp>::empty());
        assert(ops.last() == StoreOp::ClearQueue);
        assert(ids_of(songs).take(0) =~= Seq::<i64>::empty());
    } else {
        assert(ops.drop_last() =~= rewrite_of(songs).take(n));
        lemma_rewrite_prefix(rows, songs, n - 1);
        assert(ops.last() == StoreOp::AppendQueue(songs[n - 1].id));
        assert(ids_of(songs).take(n) =~= ids_of(songs).take(n - 1).push(songs[n - 1].id));
    }
}

/// Rewriting the stored queue leaves exactly the songs that were written,
/// whatever it held before.
pub proof fn lemma_rewrite(rows: Seq<i64>, songs: Seq<Song>)
    ensures
        stored_after_all(rows, rewrite_of(songs)) == ids_of(songs),
{
    lemma_rewrite_prefix(rows, songs, songs.len() as int);
    assert(rewrite_of(songs).take(songs.len() as int + 1) =~= rewrite_of(songs));
    assert(ids_of(songs).take(songs.len() as int) =~= ids_of(songs));
}

/// `q` with a backslash before every backslash, percent sign and underscore.
pub open spec fn like_escaped(q: Seq<char>) -> Seq<char>
    decreases q.len(),
{
    if q.len() == 0 {
        Seq::empty()
    } else if q[0] == '\\' || q[0] == '%' || q[0] == '_' {
        seq!['\\', q[0]] + like_escaped(q.drop_first())
    } else {
        seq![q[0]] + like_escaped(q.drop_first())
    }
}

/// The pattern that finds names holding `q`.
pub open spec fn like_pattern_of(q: Seq<char>) -> Seq<char> {
    "%"@ + like_escaped(q) + "%"@
}

/// The pattern that finds the names that hold `q`, for the comparison
/// `LIKE ? ESCAPE '\'`.
pub fn like_pattern(q: &str) -> (r: String)
    ensures
        r@ == like_pattern_of(q@),
{
    let cs = crate::text::chars_of(q);
    let mut out = String::new();
    let mut i: usize = 0;
    proof {
        assert(q@.skip(0) =~= q@);
        assert(out@ + like_escaped(q@) =~= like_escaped(q@));
    }
    while i < cs.len()
        invariant
            cs@ == q@,
            i <= cs@.len(),
            out@ + like_escaped(q@.skip(i as int)) == like_escaped(q@),
        decreases cs@.len() - i,
    {
        let c = cs[i];
        let ghost before = out@;
        let ghost rest = q@.skip(i as int);
        proof {
            assert(rest[0] == c);
            assert(rest.drop_first() =~= q@.skip(i + 1));
        }
        if c == '\\' || c == '%' || c == '_' {
            out.push('\\');
            out.push(c);
            proof {
                assert(out@ + like_escaped(q@.skip(i + 1)) =~= before + (seq!['\\', c]
                    + like_escaped(q@.skip(i + 1))));
            }
        } else {
            out.push(c);
            proof {
                assert(out@ + like_escaped(q@.skip(i + 1)) =~= before + (seq![c] + like_escaped(
                    q@.skip(i + 1),
                )));
            }
        }
        i += 1;
    }
    proof {
        assert(like_escaped(q@.skip(i as int)) =~= Seq::<char>::empty());
        assert(out@ =~= like_escaped(q@));
    }
    concat3("%", out.as_str(), "%")
}

/// How the comparison `LIKE ? ESCAPE '\'` reads a pattern: `%` stands for any
/// text, `_` for any character, a backslash makes the next character stand for
/// itself, and ASCII letters match in either case.
pub open spec fn like_matches(s: Seq<char>, p: Seq<char>) -> bool
    decreases p.len(), s.len(),
{
    if p.len() == 0 {
        s.len() == 0
    } else if p[0] == '%' {
        like_matches(s, p.drop_first()) || (s.len() > 0 && like_matches(s.drop_first(), p))
    } else if p[0] == '_' {
        s.len() > 0 && like_matches(s.drop_first(), p.drop_first())
    } else if p[0] == '\\' && p.len() > 1 {
        s.len() > 0 && ascii_lower_char(s[0]) == ascii_lower_char(p[1]) && like_matches(
            s.drop_first(),
            p.skip(2),
        )
    } else {
        s.len() > 0 && ascii_lower_char(s[0]) == ascii_lower_char(p[0]) && like_matches(
            s.drop_first(),
            p.drop_first(),
        )
    }
}

/// `s` begins with `q`, ASCII case aside.
spec fn begins_like(s: Seq<char>, q: Seq<char>) -> bool {
    q.len() <= s.len() && ascii_lower(s.take(q.len() as int)) == ascii_lower(q)
}

proof fn lemma_any_text(s: Seq<char>)
    ensures
        like_matches(s, "%"@),
    decreases s.len(),
{
    reveal_strlit("%");
    let p = "%"@;
    assert(p.drop_first() =~= Seq::<char>::empty());
    if s.len() > 0 {
        lemma_any_text(s.drop_first());
    } else {
        assert(like_matches(s, p.drop_first()));
    }
}

proof fn lemma_literal_then_any(s: Seq<char>, q: Seq<char>)
    ensures
        like_matches(s, like_escaped(q) + "%"@) == begins_like(s, q),
    decreases q.len(),
{
    let p = like_escaped(q) + "%"@;
    if q.len() == 0 {
        assert(p =~= "%"@);
        lemma_any_text(s);
        assert(s.take(0) =~= q);
        assert(ascii_lower(s.take(0)) =~= ascii_lower(q));
    } else {
        let rest = q.drop_first();
        let tail = like_escaped(rest) + "%"@;
        reveal_strlit("%");
        if q[0] == '\\' || q[0] == '%' || q[0] == '_' {
            assert(p.skip(2) =~= tail);
            assert(p[0] == '\\' && p[1] == q[0]);
        } else {
            assert(p.drop_first() =~= tail);
            assert(p[0] == q[0]);
        }
        if s.len() > 0 {
            lemma_literal_then_any(s.drop_first(), rest);
            let n = q.len() as int;
            if begins_like(s, q) {
                let a = ascii_lower(s.take(n));
                assert(a[0] == ascii_lower(q)[0]);
                assert(ascii_lower(s.drop_first().take(n - 1)) =~= a.skip(1));
                assert(ascii_lower(rest) =~= ascii_lower(q).skip(1));
            }
            if ascii_lower_char(s[0]) == ascii_lower_char(q[0]) && begins_like(
                s.drop_first(),
                rest,
            ) {
                let b = ascii_lower(s.drop_first().take(n - 1));
                assert(ascii_lower(s.take(n)) =~= seq![ascii_lower_char(s[0])] + b);
                assert(ascii_lower(q) =~= seq![ascii_lower_char(q[0])] + ascii_lower(rest));
            }
        }
    }
}

proof fn lemma_any_then_literal(s: Seq<char>, q: Seq<char>)
    ensures
        like_matches(s, like_pattern_of(q)) == contains_text(ascii_lower(s), ascii_lower(q)),
    decreases s.len(),
{
    let p = like_pattern_of(q);
    let tail = like_escaped(q) + "%"@;
    reveal_strlit("%");
    assert(p.drop_first() =~= tail);
    assert(p[0] == '%');
    lemma_literal_then_any(s, q);
    let low = ascii_lower(s);
    let lq = ascii_lower(q);
    let n = q.len() as int;
    if begins_like(s, q) {
        assert(low.subrange(0, n) =~= ascii_lower(s.take(n)));
        assert(occurs_at(low, lq, 0));
    }
    if occurs_at(low, lq, 0) {
        assert(ascii_lower(s.take(n)) =~= low.subrange(0, n));
    }
    if s.len() > 0 {
        lemma_any_then_literal(s.drop_first(), q);
        let rest = ascii_lower(s.drop_first());
        assert(rest =~= low.drop_first());
        if contains_text(rest, lq) {
            let k = choose|k: int| occurs_at(rest, lq, k);
            assert(low.subrange(k + 1, k + 1 + n) =~= rest.subrange(k, k + n));
            assert(occurs_at(low, lq, k + 1));
        }
        if contains_text(low, lq) {
            let k = choose|k: int| occurs_at(low, lq, k);
            if k > 0 {
                assert(rest.subrange(k - 1, k - 1 + n) =~= low.subrange(k, k + n));
                assert(occurs_at(rest, lq, k - 1));
            }
        }
    } else if contains_text(low, lq) {
        let k = choose|k: int| occurs_at(low, lq, k);
        assert(k == 0);
    }
}

/// The pattern finds exactly the names that hold `q`, ASCII case aside: percent
/// signs, underscores and backslashes of `q` stand for themselves.
pub proof fn lemma_like_pattern(name: Seq<char>, q: Seq<char>)
    ensures
        like_matches(name, like_pattern_of(q)) == contains_text(ascii_lower(name), ascii_lower(q)),
{
    lemma_any_then_literal(name, q);
}

/// What each write does to the stored queue, place by place: emptying leaves no
/// row, appending puts one row behind the others, deleting a song leaves the
/// rows of all other songs in their order, and noting a play changes nothing.
pub proof fn lemma_stored_after(rows: Seq<i64>, id: i64, at: i64, secs: i64)
    ensures
        stored_after(rows, StoreOp::ClearQueue).len() == 0,
        stored_after(rows, StoreOp::AppendQueue(id)).drop_last() == rows,
        stored_after(rows, StoreOp::AppendQueue(id)).last() == id,
        stored_after(rows, StoreOp::AddHistory(id, at, secs)) == rows,
        stored_after(rows, StoreOp::DeleteSong(id)) == rows.filter(|x: i64| x != id),
{
    assert(rows.push(id).drop_last() =~= rows);
    lemma_without_id_filters(rows, id);
}

proof fn lemma_without_id_filters(rows: Seq<i64>, id: i64)
    ensures
        without_id(rows, id) == rows.filter(|x: i64| x != id),
    decreases rows.len(),
{
    reveal(Seq::filter);
    if rows.len() > 0 {
        lemma_without_id_filters(rows.drop_last(), id);
    } else {
        assert(rows.filter(|x: i64| x != id) =~= rows);
    }
}

/// Taking out the first row of a song takes out that row alone, and nothing
/// where the song has none.
pub proof fn lemma_first_row_taken(rows: Seq<i64>, id: i64, k: int)
    ensures
        !rows.contains(id) ==> stored_after(rows, StoreOp::RemoveFirst(id)) == rows,
        0 <= k < rows.len() && rows[k] == id && !rows.take(k).contains(id) ==> stored_after(
            rows,
            StoreOp::RemoveFirst(id),
        ) == rows.remove(k),
    decreases rows.len(),
{
    if rows.len() > 0 {
        let rest = rows.drop_first();
        lemma_first_row_taken(rest, id, k - 1);
        assert(rows =~= seq![rows[0]] + rest);
        if !rows.contains(id) {
            assert(!rest.contains(id)) by {
                if rest.contains(id) {
                    let i = choose|i: int| 0 <= i < rest.len() && rest[i] == id;
                    assert(rows[i + 1] == id);
                }
            }
            assert(rows[0] != id);
        }
        if 0 <= k < rows.len() && rows[k] == id && !rows.take(k).contains(id) {
            if k == 0 {
                assert(rows.remove(0) =~= rest);
            } else {
                assert(rows.take(k)[0] == rows[0]);
                assert(!rest.take(k - 1).contains(id)) by {
                    let front = rest.take(k - 1);
                    if front.contains(id) {
                        let i = choose|i: int| 0 <= i < front.len() && front[i] == id;
                        assert(rows.take(k)[i + 1] == id);
                    }
                }
                assert(rows.remove(k) =~= seq![rows[0]] + rest.remove(k - 1));
            }
        }
    }
}

} // verus!
