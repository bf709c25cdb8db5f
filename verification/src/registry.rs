//! The job registry: which jobs run, how many may run at once, and the results
//! of the jobs that finished.

use std::collections::VecDeque;
use vstd::prelude::*;
use crate::table::StrTable;
use crate::text::{first_index, keep_last, lemma_first_index_is, same_text};

verus! {

/// Most finished jobs whose results are remembered.
pub const MAX_COMPLETED: usize = 1000;

/// Result of a finished job, kept to answer a repeated submission.
#[derive(Clone, Debug, PartialEq, Eq)]
pub struct CompletedJob {
    pub exit_code: i32,
    pub error: String,
}

/// What the registry knows of a job id.
#[derive(Clone, Debug, PartialEq, Eq)]
pub enum IsKnown {
    /// The job is running (or queued for a permit).
    Running,
    /// The job finished with this result.
    Completed(CompletedJob),
    /// The job was never seen, or its result has left the cache.
    Unknown,
}

/// A remembered result: job id, exit code, error text.
pub struct CompletedView {
    pub job_id: Seq<char>,
    pub exit_code: i32,
    pub error: Seq<char>,
}

/// What a registry with these running jobs and remembered results knows of `job_id`.
pub enum Known {
    Running,
    Completed { exit_code: i32, error: Seq<char> },
    Unknown,
}

/// The ids of remembered results.
pub open spec fn completed_ids(completed: Seq<CompletedView>) -> Seq<Seq<char>> {
    completed.map_values(|c: CompletedView| c.job_id)
}

/// Running wins over completed, and among completed results the oldest wins.
pub open spec fn known(running: Map<Seq<char>, u64>, completed: Seq<CompletedView>, job_id: Seq<char>) -> Known {
    if running.contains_key(job_id) {
        Known::Running
    } else if completed_ids(completed).contains(job_id) {
        let c = completed[first_index(completed_ids(completed), job_id)];
        Known::Completed { exit_code: c.exit_code, error: c.error }
    } else {
        Known::Unknown
    }
}

/// Tracks running jobs, limits how many execute at once, and remembers the
/// results of finished jobs.
pub struct JobRegistry {
    jobs: StrTable<u64>,
    completed: VecDeque<(String, CompletedJob)>,
    max_concurrent: usize,
    in_flight: usize,
}

impl JobRegistry {
    /// Running jobs, each with the token of its cancel channel.
    pub closed spec fn running(&self) -> Map<Seq<char>, u64> {
        self.jobs.map()
    }

    /// Ids of the running jobs, in the order of their registration.
    pub closed spec fn running_ids(&self) -> Seq<Seq<char>> {
        self.jobs.keys()
    }

    /// Remembered results, oldest first.
    pub closed spec fn completed(&self) -> Seq<CompletedView> {
        self.completed@.map_values(
            |e: (String, CompletedJob)| CompletedView { job_id: e.0@, exit_code: e.1.exit_code, error: e.1.error@ },
        )
    }

    /// Number of permits that are out.
    pub closed spec fn in_flight(&self) -> nat {
        self.in_flight as nat
    }

    /// Number of permits there are.
    pub closed spec fn limit(&self) -> nat {
        self.max_concurrent as nat
    }

    /// The registry's invariant: no more permits are out than there are, no
    /// more results are remembered than the cache holds, and no job runs twice.
    pub closed spec fn wf(&self) -> bool {
        &&& self.jobs.wf()
        &&& self.in_flight <= self.max_concurrent
        &&& self.completed@.len() <= MAX_COMPLETED
    }

    /// The invariant in terms of the public state.
    pub proof fn lemma_wf(&self)
        requires
            self.wf(),
        ensures
            self.in_flight() <= self.limit(),
            self.completed().len() <= MAX_COMPLETED,
            self.running_ids().no_duplicates(),
            forall|j: Seq<char>| self.running().contains_key(j) <==> self.running_ids().contains(j),
    {
        self.jobs.lemma_shape();
    }

    /// A registry with `max_concurrent` permits, no job and no result.
    pub fn new(max_concurrent: usize) -> (r: JobRegistry)
        ensures
            r.wf(),
            r.running() == Map::<Seq<char>, u64>::empty(),
            r.running_ids().len() == 0,
            r.completed().len() == 0,
            r.in_flight() == 0,
            r.limit() == max_concurrent,
    {
        JobRegistry { jobs: StrTable::new(), completed: VecDeque::new(), max_concurrent, in_flight: 0 }
    }

    /// Takes a permit if one is free. The caller that gets `false` waits and
    /// asks again after a permit came back.
    pub fn acquire_permit(&mut self) -> (granted: bool)
        requires
            old(self).wf(),
        ensures
            final(self).wf(),
            granted == (old(self).in_flight() < old(self).limit()),
            final(self).in_flight() == old(self).in_flight() + (if granted { 1nat } else { 0nat }),
            final(self).in_flight() <= final(self).limit(),
            final(self).limit() == old(self).limit(),
            final(self).running() == old(self).running(),
            final(self).running_ids() == old(self).running_ids(),
            final(self).completed() == old(self).completed(),
    {
        if self.in_flight < self.max_concurrent {
            self.in_flight = self.in_flight + 1;
            true
        } else {
            false
        }
    }

    /// Gives a permit back.
    pub fn release_permit(&mut self)
        requires
            old(self).wf(),
        ensures
            final(self).wf(),
            final(self).in_flight() == (if old(self).in_flight() > 0 { old(self).in_flight() - 1 } else { 0 }),
            final(self).limit() == old(self).limit(),
            final(self).running() == old(self).running(),
            final(self).running_ids() == old(self).running_ids(),
            final(self).completed() == old(self).completed(),
    {
        if self.in_flight > 0 {
            self.in_flight = self.in_flight - 1;
        }
    }

    /// Enters a job into the running table, before it has a permit, so that a
    /// cancel can reach it while it waits.
    pub fn register(&mut self, job_id: String, cancel_token: u64)
        requires
            old(self).wf(),
        ensures
            final(self).wf(),
            final(self).running() == old(self).running().insert(job_id@, cancel_token),
            old(self).running().contains_key(job_id@) ==> final(self).running_ids() == old(self).running_ids(),
            !old(self).running().contains_key(job_id@) ==> final(self).running_ids() == old(
                self,
            ).running_ids().push(job_id@),
            final(self).completed() == old(self).completed(),
            final(self).in_flight() == old(self).in_flight(),
            final(self).limit() == old(self).limit(),
    {
        proof {
            old(self).jobs.lemma_shape();
        }
        self.jobs.insert(job_id, cancel_token);
    }

    /// The token of the cancel channel to signal, if the job is running.
    pub fn cancel(&self, job_id: &str) -> (token: Option<u64>)
        requires
            self.wf(),
        ensures
            token is Some <==> self.running().contains_key(job_id@),
            token is Some ==> token->0 == self.running()[job_id@],
    {
        match self.jobs.find(job_id) {
            Some(i) => Some(*self.jobs.value_at(i)),
            None => None,
        }
    }

    /// Takes a job out of the running table.
    pub fn remove(&mut self, job_id: &str)
        requires
            old(self).wf(),
        ensures
            final(self).wf(),
            final(self).running() == old(self).running().remove(job_id@),
            final(self).running_ids().len() == old(self).running_ids().len() - (if old(
                self,
            ).running().contains_key(job_id@) { 1int } else { 0int }),
            final(self).completed() == old(self).completed(),
            final(self).in_flight() == old(self).in_flight(),
            final(self).limit() == old(self).limit(),
    {
        proof {
            old(self).jobs.lemma_shape();
        }
        let _ = self.jobs.remove(job_id);
    }

    /// Whether a job id is running, finished or unknown.
    pub fn is_known(&self, job_id: &str) -> (r: IsKnown)
        requires
            self.wf(),
        ensures
            match known(self.running(), self.completed(), job_id@) {
                Known::Running => r is Running,
                Known::Completed { exit_code, error } => r matches IsKnown::Completed(c) && c.exit_code
                    == exit_code && c.error@ == error,
                Known::Unknown => r is Unknown,
            },
    {
        if self.jobs.find(job_id).is_some() {
            return IsKnown::Running;
        }
        let ghost ids = completed_ids(self.completed());
        let mut i: usize = 0;
        while i < self.completed.len()
            invariant
                !self.running().contains_key(job_id@),
                i <= self.completed.len(),
                ids == completed_ids(self.completed()),
                ids.len() == self.completed@.len(),
                forall|j: int| 0 <= j < i ==> ids[j] != job_id@,
            decreases self.completed.len() - i,
        {
            assert(ids[i as int] == self.completed@[i as int].0@);
            if same_text(self.completed[i].0.as_str(), job_id) {
                proof {
                    lemma_first_index_is(ids, job_id@, i as int);
                    assert(ids.contains(job_id@));
                    assert(self.completed()[i as int].exit_code == self.completed@[i as int].1.exit_code);
                    assert(self.completed()[i as int].error == self.completed@[i as int].1.error@);
                }
                return IsKnown::Completed(
                    CompletedJob { exit_code: self.completed[i].1.exit_code, error: self.completed[i].1.error.clone() },
                );
            }
            i += 1;
        }
        assert(!ids.contains(job_id@));
        IsKnown::Unknown
    }

    /// Remembers the result of a finished job; the oldest result leaves once
    /// the cache is full.
    pub fn mark_completed(&mut self, job_id: String, exit_code: i32, error: String)
        requires
            old(self).wf(),
        ensures
            final(self).wf(),
            final(self).completed() == keep_last(
                old(self).completed().push(CompletedView { job_id: job_id@, exit_code, error: error@ }),
                MAX_COMPLETED as int,
            ),
            final(self).running() == old(self).running(),
            final(self).running_ids() == old(self).running_ids(),
            final(self).in_flight() == old(self).in_flight(),
            final(self).limit() == old(self).limit(),
    {
        self.completed.push_back((job_id, CompletedJob { exit_code, error }));
        let ghost full = self.completed();
        assert(full =~= old(self).completed().push(CompletedView { job_id: job_id@, exit_code, error: error@ }));
        while self.completed.len() > MAX_COMPLETED
            invariant
                self.jobs == old(self).jobs,
                self.in_flight == old(self).in_flight,
                self.max_concurrent == old(self).max_concurrent,
                self.completed().len() <= full.len(),
                self.completed().len() == full.len() || self.completed().len() >= MAX_COMPLETED,
                self.completed() =~= full.subrange(full.len() - self.completed().len(), full.len() as int),
            decreases self.completed.len(),
        {
            let ghost before = self.completed();
            self.completed.pop_front();
            assert(self.completed() =~= before.subrange(1, before.len() as int));
        }
        assert(self.completed() =~= keep_last(full, MAX_COMPLETED as int));
    }

    /// Number of running jobs.
    pub fn active_count(&self) -> (n: usize)
        requires
            self.wf(),
        ensures
            n == self.running_ids().len(),
    {
        self.jobs.len()
    }
}

} // verus!
