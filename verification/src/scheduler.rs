//! Bookkeeping of the bounded-concurrency batch pipeline.
//!
//! A batch is an ordered list of jobs, one per file path.  At most `cap`
//! jobs are in flight at once: the first `min(cap, jobs)` are dispatched
//! immediately and in input order, and whenever one completes — in
//! whatever order the network decides — its outcome is recorded and the
//! next pending job, if any, takes the freed slot.  The structure here is
//! the single coordinating point that owns the pending queue and the
//! in-flight set; the caller runs the jobs and reports each completion
//! back through [`Scheduler::complete`].
//!
//! The well-formedness invariant [`Scheduler::wf`] pins the bookkeeping
//! down: the in-flight count never exceeds the cap, the pool stays
//! saturated while jobs are pending, and the dispatched paths are exactly
//! the in-flight paths plus the completed ones.

use vstd::prelude::*;

verus! {

use crate::errors::TinyPngError;
use vstd::multiset::group_multiset_axioms;
use vstd::multiset::Multiset;
use vstd::seq_lib::group_to_multiset_ensures;

/// One file-compression request: the source path, which is also the
/// destination path.
#[derive(Debug)]
pub struct CompressionJob {
    pub path: String,
}

/// The terminal result of one job: its path, and either the byte sizes
/// before and after compression or the error that stopped it.
#[derive(Debug)]
pub struct CompressionOutcome {
    pub path: String,
    pub result: Result<(u64, u64), TinyPngError>,
}

/// The paths of a sequence of strings, as character sequences.
pub open spec fn path_views(paths: Seq<String>) -> Seq<Seq<char>> {
    paths.map_values(|p: String| p@)
}

/// The paths of a sequence of jobs.
pub open spec fn job_paths(jobs: Seq<CompressionJob>) -> Seq<Seq<char>> {
    jobs.map_values(|j: CompressionJob| j.path@)
}

/// The paths of a sequence of outcomes.
pub open spec fn outcome_paths(outcomes: Seq<CompressionOutcome>) -> Seq<Seq<char>> {
    outcomes.map_values(|o: CompressionOutcome| o.path@)
}

/// The single owner of the pending queue and the in-flight set.
///
/// `jobs` is the whole input batch; `next` is the index of the first
/// job not yet dispatched, so the pending queue is `jobs[next..]`.
pub struct Scheduler {
    pub jobs: Vec<CompressionJob>,
    pub next: usize,
    pub in_flight: Vec<String>,
    pub outcomes: Vec<CompressionOutcome>,
    pub cap: usize,
}

impl Scheduler {
    /// The multiset of paths dispatched so far.
    pub open spec fn dispatched_paths(&self) -> Multiset<Seq<char>> {
        job_paths(self.jobs@.take(self.next as int)).to_multiset()
    }

    /// The bookkeeping invariant, established by [`Scheduler::new`] and
    /// preserved by every operation:
    /// every dispatched job is in flight or completed, and nothing else
    /// is; the in-flight count never exceeds the cap; the pool is
    /// saturated whenever jobs are still pending; and a cap of zero
    /// dispatches nothing.
    pub open spec fn wf(&self) -> bool {
        &&& self.next <= self.jobs@.len()
        &&& self.in_flight@.len() + self.outcomes@.len() == self.next
        &&& self.in_flight@.len() <= self.cap
        &&& (self.in_flight@.len() == self.cap || self.next == self.jobs@.len())
        &&& (self.cap == 0 ==> self.next == 0)
        &&& path_views(self.in_flight@).to_multiset().add(
            outcome_paths(self.outcomes@).to_multiset(),
        ) == self.dispatched_paths()
    }

    /// Whether every job has been dispatched and completed.
    pub open spec fn done(&self) -> bool {
        self.next == self.jobs@.len() && self.in_flight@.len() == 0
    }

    /// Builds the scheduler over a batch and dispatches the initial
    /// jobs: the first `min(cap, jobs.len())` of them, in input order.
    /// Their paths are the initial in-flight set, for the caller to
    /// launch.  With no jobs or a cap of zero, nothing is dispatched.
    pub fn new(jobs: Vec<CompressionJob>, cap: usize) -> (s: Scheduler)
        ensures
            s.wf(),
            s.jobs@ == jobs@,
            s.cap == cap,
            s.outcomes@.len() == 0,
            s.next as int == (if cap <= jobs@.len() {
                cap as int
            } else {
                jobs@.len() as int
            }),
            path_views(s.in_flight@) == job_paths(jobs@.take(s.next as int)),
            (cap == 0 || jobs@.len() == 0) ==> s.in_flight@.len() == 0,
    {
        let k: usize = if cap <= jobs.len() {
            cap
        } else {
            jobs.len()
        };
        let mut in_flight: Vec<String> = Vec::new();
        let mut idx: usize = 0;
        while idx < k
            invariant
                idx <= k,
                k <= jobs@.len(),
                in_flight@.len() == idx,
                path_views(in_flight@) =~= job_paths(jobs@.take(idx as int)),
            decreases k - idx,
        {
            let ghost prev: Seq<String> = in_flight@;
            let p: String = jobs[idx].path.clone();
            proof {
                assert(p@ == jobs@[idx as int].path@);
            }
            in_flight.push(p);
            idx = idx + 1;
            proof {
                assert(path_views(in_flight@) =~= path_views(prev).push(
                    jobs@[idx as int - 1].path@,
                ));
                assert(jobs@.take(idx as int) =~= jobs@.take(idx as int - 1).push(
                    jobs@[idx as int - 1],
                ));
                assert(job_paths(jobs@.take(idx as int)) =~= job_paths(
                    jobs@.take(idx as int - 1),
                ).push(jobs@[idx as int - 1].path@));
                assert(path_views(in_flight@) =~= job_paths(jobs@.take(idx as int)));
            }
        }
        let s = Scheduler { jobs, next: k, in_flight, outcomes: Vec::new(), cap };
        proof {
            broadcast use group_to_multiset_ensures, group_multiset_axioms;

            assert(path_views(s.in_flight@) =~= job_paths(s.jobs@.take(s.next as int)));
            assert(outcome_paths(s.outcomes@) =~= Seq::<Seq<char>>::empty());
            assert(path_views(s.in_flight@).to_multiset().add(
                outcome_paths(s.outcomes@).to_multiset(),
            ) =~= s.dispatched_paths());
        }
        s
    }

    /// Whether a path is currently in flight: the caller's guard before
    /// reporting a completion.
    pub fn has_in_flight(&self, path: &String) -> (present: bool)
        ensures
            present == path_views(self.in_flight@).contains(path@),
    {
        let mut idx: usize = 0;
        while idx < self.in_flight.len()
            invariant
                idx <= self.in_flight@.len(),
                forall|j: int| 0 <= j < idx ==> path_views(self.in_flight@)[j] != path@,
            decreases self.in_flight@.len() - idx,
        {
            if self.in_flight[idx] == *path {
                proof {
                    assert(path_views(self.in_flight@)[idx as int] == path@);
                }
                return true;
            }
            idx = idx + 1;
        }
        false
    }

    /// Whether every job has been dispatched and completed.
    pub fn is_finished(&self) -> (finished: bool)
        ensures
            finished == self.done(),
    {
        self.next == self.jobs.len() && self.in_flight.len() == 0
    }

    /// Records the outcome of an in-flight job and refills the freed
    /// slot: if jobs are pending, the next one in input order is
    /// dispatched and its path returned for the caller to launch.
    pub fn complete(&mut self, outcome: CompressionOutcome) -> (launched: Option<String>)
        requires
            old(self).wf(),
            path_views(old(self).in_flight@).contains(outcome.path@),
        ensures
            final(self).wf(),
            final(self).jobs@ == old(self).jobs@,
            final(self).cap == old(self).cap,
            final(self).outcomes@ == old(self).outcomes@.push(outcome),
            old(self).next < old(self).jobs@.len() ==> (launched matches Some(p) && p@ == job_paths(
                old(self).jobs@,
            )[old(self).next as int] && final(self).next == old(self).next + 1),
            old(self).next == old(self).jobs@.len() ==> (launched is None && final(self).next == old(
                self,
            ).next),
            launched matches Some(p) ==> path_views(final(self).in_flight@).to_multiset()
                == path_views(old(self).in_flight@).to_multiset().remove(outcome.path@).insert(p@),
            launched is None ==> path_views(final(self).in_flight@).to_multiset() == path_views(
                old(self).in_flight@,
            ).to_multiset().remove(outcome.path@),
    {
        let mut idx: usize = 0;
        while idx < self.in_flight.len() && !(self.in_flight[idx] == outcome.path)
            invariant
                *self == *old(self),
                idx <= self.in_flight@.len(),
                forall|j: int| 0 <= j < idx ==> path_views(self.in_flight@)[j] != outcome.path@,
            decreases self.in_flight@.len() - idx,
        {
            idx = idx + 1;
        }
        proof {
            if idx >= self.in_flight@.len() {
                let w: int = choose|w: int|
                    0 <= w < path_views(self.in_flight@).len() && path_views(self.in_flight@)[w]
                        == outcome.path@;
                assert(0 <= w < idx);
                assert(false);
            }
            assert(idx < self.in_flight@.len());
            assert(self.in_flight@[idx as int]@ == outcome.path@);
        }
        let _removed: String = self.in_flight.remove(idx);
        self.outcomes.push(outcome);
        proof {
            broadcast use group_to_multiset_ensures, group_multiset_axioms;

            assert(path_views(self.in_flight@) =~= path_views(old(self).in_flight@).remove(
                idx as int,
            ));
            assert(path_views(self.in_flight@).to_multiset() =~= path_views(
                old(self).in_flight@,
            ).to_multiset().remove(outcome.path@));
            assert(outcome_paths(self.outcomes@) =~= outcome_paths(old(self).outcomes@).push(
                outcome.path@,
            ));
            assert(outcome_paths(self.outcomes@).to_multiset() =~= outcome_paths(
                old(self).outcomes@,
            ).to_multiset().insert(outcome.path@));
        }
        if self.next < self.jobs.len() {
            let p: String = self.jobs[self.next].path.clone();
            let handed: String = p.clone();
            let ghost mid_in_flight: Seq<String> = self.in_flight@;
            self.in_flight.push(p);
            self.next = self.next + 1;
            proof {
                broadcast use group_to_multiset_ensures, group_multiset_axioms;

                let a = path_views(old(self).in_flight@).to_multiset();
                let b = outcome_paths(old(self).outcomes@).to_multiset();
                let pth = outcome.path@;
                let q = job_paths(old(self).jobs@)[old(self).next as int];
                assert(path_views(self.in_flight@) =~= path_views(mid_in_flight).push(q));
                assert(path_views(self.in_flight@).to_multiset() =~= a.remove(pth).insert(q));
                assert(job_paths(self.jobs@.take(self.next as int)) =~= job_paths(
                    self.jobs@.take(old(self).next as int),
                ).push(q));
                assert(self.dispatched_paths() =~= old(self).dispatched_paths().insert(q));
                lemma_refill_shuffle(a, b, pth, q);
                assert(path_views(self.in_flight@).to_multiset().add(
                    outcome_paths(self.outcomes@).to_multiset(),
                ) =~= self.dispatched_paths());
            }
            Some(handed)
        } else {
            proof {
                broadcast use group_to_multiset_ensures, group_multiset_axioms;

                let a = path_views(old(self).in_flight@).to_multiset();
                let b = outcome_paths(old(self).outcomes@).to_multiset();
                let pth = outcome.path@;
                assert(self.jobs@.take(self.next as int) =~= old(self).jobs@.take(
                    old(self).next as int,
                ));
                lemma_drain_shuffle(a, b, pth);
                assert(path_views(self.in_flight@).to_multiset().add(
                    outcome_paths(self.outcomes@).to_multiset(),
                ) =~= self.dispatched_paths());
            }
            None
        }
    }
}

/// Moving one element of `a` over to `b` while inserting a fresh one
/// into `a` leaves the combined contents grown by just the fresh one.
proof fn lemma_refill_shuffle(
    a: Multiset<Seq<char>>,
    b: Multiset<Seq<char>>,
    p: Seq<char>,
    q: Seq<char>,
)
    requires
        a.contains(p),
    ensures
        a.remove(p).insert(q).add(b.insert(p)) == a.add(b).insert(q),
{
    broadcast use group_multiset_axioms;

    assert(a.remove(p).insert(q).add(b.insert(p)) =~= a.add(b).insert(q));
}

/// Moving one element of `a` over to `b` leaves the combined contents
/// unchanged.
proof fn lemma_drain_shuffle(a: Multiset<Seq<char>>, b: Multiset<Seq<char>>, p: Seq<char>)
    requires
        a.contains(p),
    ensures
        a.remove(p).add(b.insert(p)) == a.add(b),
{
    broadcast use group_multiset_axioms;

    assert(a.remove(p).add(b.insert(p)) =~= a.add(b));
}

/// When the scheduler is done — every dispatched job completed and no
/// job pending — there is exactly one outcome per input job, and the
/// outcomes' paths are exactly the input paths, order set aside.
pub proof fn lemma_all_jobs_accounted(s: Scheduler)
    requires
        s.wf(),
        s.done(),
    ensures
        s.outcomes@.len() == s.jobs@.len(),
        outcome_paths(s.outcomes@).to_multiset() == job_paths(s.jobs@).to_multiset(),
        outcome_paths(s.outcomes@).to_set() == job_paths(s.jobs@).to_set(),
{
    broadcast use group_to_multiset_ensures, group_multiset_axioms;

    assert(s.jobs@.take(s.next as int) =~= s.jobs@);
    assert(path_views(s.in_flight@) =~= Seq::<Seq<char>>::empty());
    assert(outcome_paths(s.outcomes@).to_multiset() =~= s.dispatched_paths());
    assert(outcome_paths(s.outcomes@).to_set() =~= job_paths(s.jobs@).to_set()) by {
        broadcast use vstd::set::group_set_axioms;

        assert forall|x: Seq<char>|
            outcome_paths(s.outcomes@).contains(x) <==> job_paths(s.jobs@).contains(x) by {
            assert(outcome_paths(s.outcomes@).contains(x) <==> outcome_paths(
                s.outcomes@,
            ).to_multiset().count(x) > 0);
            assert(job_paths(s.jobs@).contains(x) <==> job_paths(s.jobs@).to_multiset().count(x)
                > 0);
        };
    };
}

/// The number of concurrently in-flight jobs never exceeds the cap.
pub proof fn lemma_concurrency_capped(s: Scheduler)
    requires
        s.wf(),
    ensures
        s.in_flight@.len() <= s.cap,
{
}

/// With a cap of zero or an empty batch, nothing is ever in flight and
/// no outcome is ever produced.
pub proof fn lemma_no_work_no_outcomes(s: Scheduler)
    requires
        s.wf(),
        s.cap == 0 || s.jobs@.len() == 0,
    ensures
        s.outcomes@.len() == 0,
        s.in_flight@.len() == 0,
{
}

} // verus!
