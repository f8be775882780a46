//! Bookkeeping of downloads.

use vstd::prelude::*;

use crate::model::DownloadJob;
use crate::order::{descending_order, indices, sorted_by_key};
use crate::state::DaemonState;
use crate::text::{concat2, opt_text, texts};

verus! {

/// A job that waits for its worker.
pub open spec fn is_queued(
    job: DownloadJob,
    id: i64,
    name: Seq<char>,
    source: Seq<char>,
    now: i64,
) -> bool {
    &&& job.id == id
    &&& job.name@ == name
    &&& job.status@ == "queued"@
    &&& job.song_id is None
    &&& job.error is None
    &&& job.started_at == now
    &&& job.finished_at is None
    &&& opt_text(job.source) == Some(source)
}

/// `after` is `before`, running.
pub open spec fn is_running(before: DownloadJob, after: DownloadJob) -> bool {
    &&& after.status@ == "running"@
    &&& after == (DownloadJob { status: after.status, ..before })
}

/// `after` is `before`, finished with an outcome: the song's id, or an error.
pub open spec fn is_finished(
    before: DownloadJob,
    after: DownloadJob,
    outcome: Result<i64, Seq<char>>,
    now: i64,
) -> bool {
    &&& after.finished_at == Some(now)
    &&& match outcome {
        Ok(song) => after.status@ == "done"@ && after.song_id == Some(song) && after == (
        DownloadJob {
            status: after.status,
            song_id: after.song_id,
            finished_at: after.finished_at,
            ..before
        }),
        Err(e) => after.status@ == "failed"@ && opt_text(after.error) == Some(e) && after == (
        DownloadJob {
            status: after.status,
            error: after.error,
            finished_at: after.finished_at,
            ..before
        }),
    }
}

/// The times at which jobs started.
pub open spec fn start_times(jobs: Seq<DownloadJob>) -> Seq<i64> {
    jobs.map_values(|j: DownloadJob| j.started_at)
}

/// The id after `id`; behind the greatest comes the least.
pub open spec fn next_id(id: i64) -> i64 {
    if id == i64::MAX {
        i64::MIN
    } else {
        (id + 1) as i64
    }
}

/// The sources that stand for a list of names: a search for each.
pub open spec fn batch_sources_of(names: Seq<Seq<char>>) -> Seq<Seq<char>> {
    names.map_values(|n: Seq<char>| "ytsearch1:"@ + n)
}

/// The source to download each name of a list from.
pub fn batch_sources(names: &Vec<String>) -> (r: Vec<String>)
    ensures
        texts(r@) == batch_sources_of(texts(names@)),
{
    let mut out: Vec<String> = Vec::new();
    let mut i: usize = 0;
    while i < names.len()
        invariant
            i <= names@.len(),
            out@.len() == i,
            forall|k: int| 0 <= k < i ==> (#[trigger] out@[k])@ == "ytsearch1:"@ + names@[k]@,
        decreases names@.len() - i,
    {
        out.push(concat2("ytsearch1:", names[i].as_str()));
        i += 1;
    }
    proof {
        assert(texts(out@) =~= batch_sources_of(texts(names@)));
    }
    out
}

impl DaemonState {
    /// The job with an id.
    pub open spec fn has_job(self, id: i64) -> bool {
        exists|i: int| 0 <= i < self.download_jobs@.len() && (#[trigger] self.download_jobs@[i]).id == id
    }

    fn find_job(&self, id: i64) -> (r: Option<usize>)
        ensures
            match r {
                Some(i) => i < self.download_jobs@.len() && self.download_jobs@[i as int].id == id,
                None => !self.has_job(id),
            },
    {
        let mut i: usize = 0;
        while i < self.download_jobs.len()
            invariant
                i <= self.download_jobs@.len(),
                forall|k: int| 0 <= k < i ==> (#[trigger] self.download_jobs@[k]).id != id,
            decreases self.download_jobs@.len() - i,
        {
            if self.download_jobs[i].id == id {
                return Some(i);
            }
            i += 1;
        }
        None
    }

    /// Registers a download and hands out its id. A job that had this id gives
    /// way to it.
    pub fn start_download(&mut self, name: &str, source: &str, now: i64) -> (r: i64)
        requires
            old(self).wf(),
        ensures
            r == old(self).next_job_id,
            final(self).next_job_id == next_id(r),
            final(self).wf(),
            exists|i: int|
                0 <= i < final(self).download_jobs@.len() && is_queued(
                    #[trigger] final(self).download_jobs@[i],
                    r,
                    name@,
                    source@,
                    now,
                ),
            !old(self).has_job(r) ==> final(self).download_jobs@.len()
                == old(self).download_jobs@.len() + 1,
            old(self).has_job(r) ==> final(self).download_jobs@.len()
                == old(self).download_jobs@.len(),
            forall|i: int|
                0 <= i < old(self).download_jobs@.len() && (#[trigger] old(
                    self,
                ).download_jobs@[i]).id != r ==> final(self).download_jobs@[i]
                    == old(self).download_jobs@[i],
            *final(self) == (DaemonState {
                download_jobs: final(self).download_jobs,
                next_job_id: final(self).next_job_id,
                ..*old(self)
            }),
    {
        let id = self.next_job_id;
        self.next_job_id = if id == i64::MAX {
            i64::MIN
        } else {
            id + 1
        };
        let job = DownloadJob {
            id,
            name: String::from_str(name),
            status: String::from_str("queued"),
            song_id: None,
            error: None,
            started_at: now,
            finished_at: None,
            source: Some(String::from_str(source)),
        };
        match self.find_job(id) {
            Some(i) => {
                self.download_jobs.set(i, job);
                assert(is_queued(self.download_jobs@[i as int], id, name@, source@, now));
                proof {
                    assert(old(self).download_jobs@[i as int].id == id);
                }
            },
            None => {
                let ghost before = self.download_jobs@;
                self.download_jobs.push(job);
                proof {
                    let n = before.len() as int;
                    assert(is_queued(self.download_jobs@[n], id, name@, source@, now));
                    assert(self.wf()) by {
                        assert forall|i: int, j: int|
                            #![trigger self.download_jobs@[i], self.download_jobs@[j]]
                            0 <= i < j < self.download_jobs@.len() implies self.download_jobs@[i].id
                            != self.download_jobs@[j].id by {
                            assert(old(self).download_jobs@[i].id != id);
                        }
                    }
                }
            },
        }
        id
    }

    /// Marks a job as running, if there is one with this id.
    pub fn mark_running(&mut self, id: i64)
        requires
            old(self).wf(),
        ensures
            final(self).wf(),
            final(self).download_jobs@.len() == old(self).download_jobs@.len(),
            forall|i: int|
                0 <= i < old(self).download_jobs@.len() ==> if old(self).download_jobs@[i].id == id {
                    is_running(
                        old(self).download_jobs@[i],
                        #[trigger] final(self).download_jobs@[i],
                    )
                } else {
                    final(self).download_jobs@[i] == old(self).download_jobs@[i]
                },
            *final(self) == (DaemonState { download_jobs: final(self).download_jobs, ..*old(self) }),
    {
        match self.find_job(id) {
            Some(i) => {
                let mut job = self.download_jobs[i].clone();
                job.status = String::from_str("running");
                self.download_jobs.set(i, job);
            },
            None => {},
        }
    }

    /// Notes how a job ended, if there is one with this id.
    pub fn finish_download(&mut self, id: i64, outcome: Result<i64, String>, now: i64)
        requires
            old(self).wf(),
        ensures
            final(self).wf(),
            final(self).download_jobs@.len() == old(self).download_jobs@.len(),
            forall|i: int|
                0 <= i < old(self).download_jobs@.len() ==> if old(self).download_jobs@[i].id == id {
                    is_finished(
                        old(self).download_jobs@[i],
                        #[trigger] final(self).download_jobs@[i],
                        (match outcome {
                            Ok(song) => Ok(song),
                            Err(e) => Err(e@),
                        }),
                        now,
                    )
                } else {
                    final(self).download_jobs@[i] == old(self).download_jobs@[i]
                },
            *final(self) == (DaemonState { download_jobs: final(self).download_jobs, ..*old(self) }),
    {
        match self.find_job(id) {
            Some(i) => {
                let mut job = self.download_jobs[i].clone();
                job.finished_at = Some(now);
                match outcome {
                    Ok(song) => {
                        job.status = String::from_str("done");
                        job.song_id = Some(song);
                    },
                    Err(e) => {
                        job.status = String::from_str("failed");
                        job.error = Some(e);
                    },
                }
                self.download_jobs.set(i, job);
            },
            None => {},
        }
    }

    /// The jobs, those that started last first.
    pub fn list_downloads(&self) -> (r: Vec<DownloadJob>)
        ensures
            r@ == sorted_by_key(self.download_jobs@, start_times(self.download_jobs@)),
    {
        let mut keys: Vec<i64> = Vec::new();
        let mut k: usize = 0;
        while k < self.download_jobs.len()
            invariant
                k <= self.download_jobs@.len(),
                keys@ == start_times(self.download_jobs@).take(k as int),
            decreases self.download_jobs@.len() - k,
        {
            keys.push(self.download_jobs[k].started_at);
            assert(keys@ =~= start_times(self.download_jobs@).take(k + 1));
            k += 1;
        }
        assert(keys@ =~= start_times(self.download_jobs@));
        let p = descending_order(&keys);
        let mut out: Vec<DownloadJob> = Vec::new();
        let mut i: usize = 0;
        while i < p.len()
            invariant
                i <= p@.len(),
                p@.len() == self.download_jobs@.len(),
                forall|j: int| 0 <= j < p@.len() ==> #[trigger] p@[j] < self.download_jobs@.len(),
                out@.len() == i,
                forall|j: int| 0 <= j < i ==> #[trigger] out@[j] == self.download_jobs@[p@[j] as int],
            decreases p@.len() - i,
        {
            out.push(self.download_jobs[p[i]].clone());
            i += 1;
        }
        proof {
            let q = indices(p@);
            let s = sorted_by_key(self.download_jobs@, start_times(self.download_jobs@));
            assert forall|j: int| 0 <= j < out@.len() implies out@[j] == s[j] by {
                assert(q[j] == p@[j]);
            }
            assert(out@ =~= s);
        }
        out
    }
}

/// Ids are given out one after the other, and no id follows two others.
pub proof fn lemma_next_id(a: i64, b: i64)
    ensures
        a < i64::MAX ==> next_id(a) == a + 1,
        next_id(a) != a,
        next_id(a) == next_id(b) ==> a == b,
{
}

/// The life of a job: queued, running, finished. It keeps its id, its name, its
/// source and the time at which it started, and ends with a song and no error,
/// or with an error and no song.
pub proof fn lemma_job_life(
    first: DownloadJob,
    second: DownloadJob,
    third: DownloadJob,
    id: i64,
    name: Seq<char>,
    source: Seq<char>,
    start: i64,
    outcome: Result<i64, Seq<char>>,
    end: i64,
)
    requires
        is_queued(first, id, name, source, start),
        is_running(first, second),
        is_finished(second, third, outcome, end),
    ensures
        first.status@ == "queued"@ && second.status@ == "running"@,
        third.id == id && third.name@ == name && opt_text(third.source) == Some(source),
        third.started_at == start && third.finished_at == Some(end),
        second.finished_at is None && second.song_id is None && second.error is None,
        outcome matches Ok(song) ==> third.status@ == "done"@ && third.song_id == Some(song)
            && third.error is None,
        outcome matches Err(e) ==> third.status@ == "failed"@ && third.song_id is None && opt_text(
            third.error,
        ) == Some(e),
{
}

/// Every job is listed, and a job that started later stands before one that
/// started earlier.
pub proof fn lemma_jobs_listed(jobs: Seq<DownloadJob>)
    ensures
        ({
            let shown = sorted_by_key(jobs, start_times(jobs));
            &&& shown.len() == jobs.len()
            &&& forall|j: DownloadJob| #[trigger] jobs.contains(j) <==> shown.contains(j)
            &&& forall|i: int, k: int|
                0 <= i < k < shown.len() ==> (#[trigger] shown[i]).started_at >= (
                #[trigger] shown[k]).started_at
        }),
{
    let keys = start_times(jobs);
    let shown = sorted_by_key(jobs, keys);
    crate::order::lemma_arranged_items(jobs, keys);
    assert forall|i: int, k: int| 0 <= i < k < shown.len() implies (#[trigger] shown[i]).started_at
        >= (#[trigger] shown[k]).started_at by {
        crate::order::lemma_sorted_by_key(jobs, keys, i, k);
    }
}

/// Each name of a batch is downloaded from a search for that name.
pub proof fn lemma_batch_searches(names: Seq<Seq<char>>, i: int)
    requires
        0 <= i < names.len(),
        crate::text::trimmed(names[i]).len() > 0,
    ensures
        batch_sources_of(names).len() == names.len(),
        crate::youtube::source_query(batch_sources_of(names)[i]) == Some(names[i]),
{
    crate::query_laws::lemma_single_search(names[i]);
}

} // verus!
