//! Draining promise jobs under a cap on their number and on the clock.
//!
//! An engine's own executor runs until its queue is empty, so a script that keeps queueing jobs
//! would hold the host for ever. [`BoundedJobExecutor`] looks at both caps between jobs. `P` is
//! a promise job and `G` any other job that can run.

use std::collections::VecDeque;
use vstd::prelude::*;

use crate::errors::ScriptError;

verus! {

/// A job that the engine hands over.
pub enum Job<P, G> {
    Promise(P),
    Generic(G),
    /// Async and timer jobs: a script has no timers, and these are refused.
    Unsupported,
}

/// A job to run.
pub enum Ready<P, G> {
    Promise(P),
    Generic(G),
}

pub struct BoundedJobExecutor<P, G> {
    pub(crate) promise_jobs: VecDeque<P>,
    pub(crate) generic_jobs: VecDeque<G>,
    pub(crate) rejected_unsupported: bool,
    pub(crate) max_jobs: usize,
    pub(crate) jobs_run: usize,
}

/// What a [`BoundedJobExecutor`] holds.
#[verifier::ext_equal]
pub struct Jobs<P, G> {
    pub promises: Seq<P>,
    pub generics: Seq<G>,
    pub rejected: bool,
    pub max_jobs: nat,
    pub jobs_run: nat,
}

impl<P, G> View for BoundedJobExecutor<P, G> {
    type V = Jobs<P, G>;

    open(crate) spec fn view(&self) -> Jobs<P, G> {
        Jobs {
            promises: self.promise_jobs@,
            generics: self.generic_jobs@,
            rejected: self.rejected_unsupported,
            max_jobs: self.max_jobs as nat,
            jobs_run: self.jobs_run as nat,
        }
    }
}

impl<P, G> Jobs<P, G> {
    /// No more jobs have run than may.
    pub open spec fn wf(self) -> bool {
        1 <= self.max_jobs && self.jobs_run <= self.max_jobs
    }

    /// Nothing waits.
    pub open spec fn cleared(self) -> Self {
        Jobs { promises: Seq::empty(), generics: Seq::empty(), ..self }
    }

    pub open spec fn enqueue(self, job: Job<P, G>) -> Self {
        match job {
            Job::Promise(promise) => Jobs { promises: self.promises.push(promise), ..self },
            Job::Generic(generic) => Jobs { generics: self.generics.push(generic), ..self },
            Job::Unsupported => Jobs { rejected: true, ..self },
        }
    }

    /// Why no further job may run, if none may. The clock is looked at before the count.
    pub open spec fn refusal(self, deadline_passed: bool) -> Option<ScriptError> {
        if deadline_passed {
            Some(ScriptError::JobDeadline)
        } else if self.jobs_run >= self.max_jobs {
            Some(ScriptError::JobBudget { max_jobs: self.max_jobs as usize })
        } else {
            None
        }
    }

    /// The job to run next: the promise job that waits longest, or else the other job that
    /// waits longest.
    pub open spec fn head(self) -> Option<Ready<P, G>> {
        if self.promises.len() > 0 {
            Some(Ready::Promise(self.promises[0]))
        } else if self.generics.len() > 0 {
            Some(Ready::Generic(self.generics[0]))
        } else {
            None
        }
    }

    /// The head was taken to run.
    pub open spec fn advanced(self) -> Self {
        if self.promises.len() > 0 {
            Jobs { promises: self.promises.drop_first(), jobs_run: self.jobs_run + 1, ..self }
        } else {
            Jobs { generics: self.generics.drop_first(), jobs_run: self.jobs_run + 1, ..self }
        }
    }
}

impl<P, G> BoundedJobExecutor<P, G> {
    pub open spec fn wf(&self) -> bool {
        self@.wf()
    }

    pub fn new(max_jobs: usize) -> (executor: Self)
        ensures
            executor.wf(),
            executor@ == (Jobs::<P, G> {
                promises: Seq::empty(),
                generics: Seq::empty(),
                rejected: false,
                max_jobs: if max_jobs == 0 {
                    1
                } else {
                    max_jobs as nat
                },
                jobs_run: 0,
            }),
    {
        BoundedJobExecutor {
            promise_jobs: VecDeque::new(),
            generic_jobs: VecDeque::new(),
            rejected_unsupported: false,
            max_jobs: if max_jobs == 0 {
                1
            } else {
                max_jobs
            },
            jobs_run: 0,
        }
    }

    /// How many jobs were taken to run.
    pub fn jobs_run(&self) -> (count: usize)
        ensures
            count == self@.jobs_run,
    {
        self.jobs_run
    }

    /// Whether no job waits.
    pub fn is_empty(&self) -> (empty: bool)
        ensures
            empty == (self@.promises.len() == 0 && self@.generics.len() == 0),
    {
        self.promise_jobs.len() == 0 && self.generic_jobs.len() == 0
    }

    /// Drops every job that waits: after a failed job, as after a refusal.
    pub fn clear(&mut self)
        requires
            old(self).wf(),
        ensures
            final(self).wf(),
            final(self)@ == old(self)@.cleared(),
    {
        self.promise_jobs.clear();
        self.generic_jobs.clear();
    }

    /// Whether another job may run. Where none may, those that wait are dropped.
    pub fn check_budget(&mut self, deadline_passed: bool) -> (checked: Result<(), ScriptError>)
        requires
            old(self).wf(),
        ensures
            final(self).wf(),
            match old(self)@.refusal(deadline_passed) {
                Some(error) => checked == Err::<(), ScriptError>(error) && final(self)@ == old(self)@.cleared(),
                None => checked is Ok && *final(self) == *old(self),
            },
    {
        if deadline_passed {
            self.clear();
            return Err(ScriptError::JobDeadline);
        }
        if self.jobs_run >= self.max_jobs {
            let max_jobs: usize = self.max_jobs;
            self.clear();
            return Err(ScriptError::JobBudget { max_jobs });
        }
        Ok(())
    }

    /// Takes a job from the engine.
    pub fn enqueue_job(&mut self, job: Job<P, G>)
        requires
            old(self).wf(),
        ensures
            final(self).wf(),
            final(self)@ == old(self)@.enqueue(job),
    {
        match job {
            Job::Promise(promise) => self.promise_jobs.push_back(promise),
            Job::Generic(generic) => self.generic_jobs.push_back(generic),
            Job::Unsupported => {
                self.rejected_unsupported = true;
            },
        }
    }

    /// Refuses to drain once an unsupported job was queued.
    pub fn check_supported(&mut self) -> (checked: Result<(), ScriptError>)
        requires
            old(self).wf(),
        ensures
            final(self).wf(),
            old(self)@.rejected ==> checked == Err::<(), ScriptError>(ScriptError::UnsupportedJob)
                && final(self)@ == old(self)@.cleared(),
            !old(self)@.rejected ==> checked is Ok && *final(self) == *old(self),
    {
        if self.rejected_unsupported {
            self.clear();
            return Err(ScriptError::UnsupportedJob);
        }
        Ok(())
    }

    /// The next job to run; none where the queue is drained. The caller runs the jobs in turn,
    /// after [`BoundedJobExecutor::check_supported`], and calls [`BoundedJobExecutor::clear`]
    /// where one fails.
    pub fn next_job(&mut self, deadline_passed: bool) -> (next: Result<
        Option<Ready<P, G>>,
        ScriptError,
    >)
        requires
            old(self).wf(),
        ensures
            final(self).wf(),
            final(self)@ == old(self)@.asked(deadline_passed),
            match old(self)@.refusal(deadline_passed) {
                Some(error) => next == Err::<Option<Ready<P, G>>, ScriptError>(error) && final(self)@ == old(self)@.cleared(),
                None => match old(self)@.head() {
                    Some(job) => next == Ok::<Option<Ready<P, G>>, ScriptError>(Some(job))
                        && final(self)@ == old(self)@.advanced(),
                    None => final(self)@ == old(self)@ && if old(self)@.rejected {
                        next == Err::<Option<Ready<P, G>>, ScriptError>(
                            ScriptError::UnsupportedJob,
                        )
                    } else {
                        next == Ok::<Option<Ready<P, G>>, ScriptError>(None)
                    },
                },
            },
    {
        match self.check_budget(deadline_passed) {
            Ok(()) => {},
            Err(error) => return Err(error),
        }
        match self.promise_jobs.pop_front() {
            Some(promise) => {
                self.jobs_run = self.jobs_run + 1;
                return Ok(Some(Ready::Promise(promise)));
            },
            None => {},
        }
        match self.generic_jobs.pop_front() {
            Some(generic) => {
                self.jobs_run = self.jobs_run + 1;
                return Ok(Some(Ready::Generic(generic)));
            },
            None => {},
        }
        match self.check_supported() {
            Ok(()) => Ok(None),
            Err(error) => Err(error),
        }
    }
}

/// What happens to an executor.
pub enum JobStep<P, G> {
    /// The engine queues a job.
    Enqueue(Job<P, G>),
    /// The next job is asked for; `true` says that the clock has run out.
    Next(bool),
    /// A job failed, or an unsupported one was noticed: those that wait are dropped.
    Clear,
}

impl<P, G> Jobs<P, G> {
    /// The executor after the next job was asked for.
    pub open spec fn asked(self, deadline_passed: bool) -> Self {
        if self.refusal(deadline_passed) is Some {
            self.cleared()
        } else if self.head() is Some {
            self.advanced()
        } else {
            self
        }
    }

    /// The executor after the steps.
    pub open spec fn after(self, steps: Seq<JobStep<P, G>>) -> Self
        decreases steps.len(),
    {
        if steps.len() == 0 {
            self
        } else {
            let before = self.after(steps.drop_last());
            match steps.last() {
                JobStep::Enqueue(job) => before.enqueue(job),
                JobStep::Next(deadline_passed) => before.asked(deadline_passed),
                JobStep::Clear => before.cleared(),
            }
        }
    }
}

/// However a script keeps queueing jobs, and whether or not jobs fail, no more of them run than
/// the cap allows, and an unsupported job once queued is never forgotten.
pub proof fn law_jobs_stay_bounded<P, G>(jobs: Jobs<P, G>, steps: Seq<JobStep<P, G>>)
    requires
        jobs.wf(),
    ensures
        jobs.after(steps).wf(),
        jobs.after(steps).max_jobs == jobs.max_jobs,
        jobs.after(steps).jobs_run <= jobs.max_jobs,
        jobs.rejected ==> jobs.after(steps).rejected,
    decreases steps.len(),
{
    if steps.len() > 0 {
        law_jobs_stay_bounded(jobs, steps.drop_last());
    }
}

/// How many times the next job is asked for.
pub open spec fn asks<P, G>(steps: Seq<JobStep<P, G>>) -> nat
    decreases steps.len(),
{
    if steps.len() == 0 {
        0
    } else {
        asks(steps.drop_last()) + if steps.last() is Next {
            1nat
        } else {
            0
        }
    }
}

/// Promise jobs run in the order in which they wait, before any other job, and none is lost or
/// overtaken: whatever is queued meanwhile, after as many jobs as wait before it a promise job is
/// the next to run.
pub proof fn law_promise_jobs_run_in_turn<P, G>(jobs: Jobs<P, G>, steps: Seq<JobStep<P, G>>)
    requires
        asks(steps) < jobs.promises.len(),
        jobs.jobs_run + asks(steps) < jobs.max_jobs,
        forall|i: int|
            0 <= i < steps.len() ==> (#[trigger] steps[i]) is Enqueue || steps[i]
                == JobStep::<P, G>::Next(false),
    ensures
        jobs.after(steps).head() == Some(
            Ready::<P, G>::Promise(jobs.promises[asks(steps) as int]),
        ),
        jobs.after(steps).refusal(false) is None,
        jobs.after(steps).jobs_run == jobs.jobs_run + asks(steps),
{
    lemma_promises_move_up(jobs, steps);
    let rest = jobs.promises.skip(asks(steps) as int);
    let after = jobs.after(steps);
    assert(rest =~= after.promises.take(rest.len() as int));
    assert(rest[0] == jobs.promises[asks(steps) as int]);
    assert(after.promises[0] == rest[0]);
}

proof fn lemma_promises_move_up<P, G>(jobs: Jobs<P, G>, steps: Seq<JobStep<P, G>>)
    requires
        asks(steps) <= jobs.promises.len(),
        jobs.jobs_run + asks(steps) <= jobs.max_jobs,
        forall|i: int|
            0 <= i < steps.len() ==> (#[trigger] steps[i]) is Enqueue || steps[i]
                == JobStep::<P, G>::Next(false),
    ensures
        jobs.promises.skip(asks(steps) as int).is_prefix_of(jobs.after(steps).promises),
        jobs.after(steps).jobs_run == jobs.jobs_run + asks(steps),
        jobs.after(steps).max_jobs == jobs.max_jobs,
    decreases steps.len(),
{
    if steps.len() > 0 {
        let front = steps.drop_last();
        assert(forall|i: int| 0 <= i < front.len() ==> #[trigger] front[i] == steps[i]);
        lemma_promises_move_up(jobs, front);
        let before = jobs.after(front);
        let rest = jobs.promises.skip(asks(front) as int);
        assert(rest =~= before.promises.take(rest.len() as int));
        assert(steps.last() == steps[steps.len() - 1]);
        let left = jobs.promises.skip(asks(steps) as int);
        if steps.last() is Next {
            assert(rest.len() > 0);
            assert(before.promises.len() > 0);
            assert(left =~= rest.drop_first());
            assert(left =~= jobs.after(steps).promises.take(left.len() as int));
        } else {
            assert(left =~= rest);
            assert(left =~= jobs.after(steps).promises.take(left.len() as int));
        }
    } else {
        assert(jobs.promises.skip(0) =~= jobs.promises);
        assert(jobs.promises.take(jobs.promises.len() as int) =~= jobs.promises);
    }
}

/// Without a promise job that waits, other jobs run in the order in which they wait.
pub proof fn law_other_jobs_run_in_turn<P, G>(jobs: Jobs<P, G>, steps: Seq<JobStep<P, G>>)
    requires
        jobs.promises.len() == 0,
        asks(steps) < jobs.generics.len(),
        jobs.jobs_run + asks(steps) < jobs.max_jobs,
        forall|i: int|
            0 <= i < steps.len() ==> ((#[trigger] steps[i]) matches JobStep::Enqueue(job) && !(
            job is Promise)) || steps[i] == JobStep::<P, G>::Next(false),
    ensures
        jobs.after(steps).head() == Some(
            Ready::<P, G>::Generic(jobs.generics[asks(steps) as int]),
        ),
        jobs.after(steps).jobs_run == jobs.jobs_run + asks(steps),
{
    lemma_generics_move_up(jobs, steps);
    let rest = jobs.generics.skip(asks(steps) as int);
    let after = jobs.after(steps);
    assert(rest =~= after.generics.take(rest.len() as int));
    assert(rest[0] == jobs.generics[asks(steps) as int]);
    assert(after.generics[0] == rest[0]);
}

proof fn lemma_generics_move_up<P, G>(jobs: Jobs<P, G>, steps: Seq<JobStep<P, G>>)
    requires
        jobs.promises.len() == 0,
        asks(steps) <= jobs.generics.len(),
        jobs.jobs_run + asks(steps) <= jobs.max_jobs,
        forall|i: int|
            0 <= i < steps.len() ==> ((#[trigger] steps[i]) matches JobStep::Enqueue(job) && !(
            job is Promise)) || steps[i] == JobStep::<P, G>::Next(false),
    ensures
        jobs.after(steps).promises.len() == 0,
        jobs.generics.skip(asks(steps) as int).is_prefix_of(jobs.after(steps).generics),
        jobs.after(steps).jobs_run == jobs.jobs_run + asks(steps),
        jobs.after(steps).max_jobs == jobs.max_jobs,
    decreases steps.len(),
{
    if steps.len() > 0 {
        let front = steps.drop_last();
        assert(forall|i: int| 0 <= i < front.len() ==> #[trigger] front[i] == steps[i]);
        lemma_generics_move_up(jobs, front);
        let before = jobs.after(front);
        let rest = jobs.generics.skip(asks(front) as int);
        assert(rest =~= before.generics.take(rest.len() as int));
        assert(steps.last() == steps[steps.len() - 1]);
        let left = jobs.generics.skip(asks(steps) as int);
        if steps.last() is Next {
            assert(rest.len() > 0);
            assert(before.generics.len() > 0);
            assert(left =~= rest.drop_first());
            assert(left =~= jobs.after(steps).generics.take(left.len() as int));
        } else {
            assert(left =~= rest);
            assert(left =~= jobs.after(steps).generics.take(left.len() as int));
        }
    } else {
        assert(jobs.generics.skip(0) =~= jobs.generics);
        assert(jobs.generics.take(jobs.generics.len() as int) =~= jobs.generics);
    }
}

/// A job that is queued goes behind those of its kind and moves no other; an unsupported one is
/// remembered and waits nowhere.
pub proof fn law_queued_jobs_go_last<P, G>(jobs: Jobs<P, G>, promise: P, generic: G)
    ensures
        jobs.enqueue(Job::Promise(promise)).promises == jobs.promises.push(promise),
        jobs.enqueue(Job::Promise(promise)).generics == jobs.generics,
        jobs.enqueue(Job::Promise(promise)).rejected == jobs.rejected,
        jobs.enqueue(Job::Generic(generic)).promises == jobs.promises,
        jobs.enqueue(Job::Generic(generic)).generics == jobs.generics.push(generic),
        jobs.enqueue(Job::Generic(generic)).rejected == jobs.rejected,
        jobs.enqueue(Job::Unsupported).promises == jobs.promises,
        jobs.enqueue(Job::Unsupported).generics == jobs.generics,
        jobs.enqueue(Job::Unsupported).rejected,
        forall|job: Job<P, G>|
            (#[trigger] jobs.enqueue(job)).jobs_run == jobs.jobs_run && jobs.enqueue(job).max_jobs
                == jobs.max_jobs,
{
}

/// A job may run while fewer ran than the cap and the clock has not run out; a script that has
/// used up both is told of the clock. Where none may, all that wait are dropped, and nothing else
/// changes; where none waits, nothing does.
pub proof fn law_jobs_are_refused_by_clock_then_budget<P, G>(jobs: Jobs<P, G>)
    requires
        jobs.max_jobs <= usize::MAX,
    ensures
        jobs.refusal(true) == Some(ScriptError::JobDeadline),
        jobs.jobs_run < jobs.max_jobs ==> jobs.refusal(false) is None,
        jobs.jobs_run >= jobs.max_jobs ==> (jobs.refusal(false) matches Some(
            ScriptError::JobBudget { max_jobs },
        ) && max_jobs == jobs.max_jobs),
        forall|late: bool|
            late || jobs.jobs_run >= jobs.max_jobs ==> {
                let after = #[trigger] jobs.asked(late);
                &&& after.promises.len() == 0 && after.generics.len() == 0
                &&& after.jobs_run == jobs.jobs_run && after.max_jobs == jobs.max_jobs
                &&& after.rejected == jobs.rejected
            },
        jobs.jobs_run < jobs.max_jobs && jobs.promises.len() == 0 && jobs.generics.len() == 0
            ==> jobs.asked(false) == jobs && jobs.head() is None,
        jobs.cleared().promises.len() == 0,
        jobs.cleared().generics.len() == 0,
        jobs.cleared().jobs_run == jobs.jobs_run,
        jobs.cleared().max_jobs == jobs.max_jobs,
        jobs.cleared().rejected == jobs.rejected,
{
}

/// Taking a job to run counts one and takes that job alone from those that wait.
pub proof fn law_taking_a_job_takes_one<P, G>(jobs: Jobs<P, G>)
    requires
        jobs.jobs_run < jobs.max_jobs,
        jobs.promises.len() > 0 || jobs.generics.len() > 0,
    ensures
        ({
            let after = jobs.asked(false);
            &&& after == jobs.advanced()
            &&& after.jobs_run == jobs.jobs_run + 1
            &&& after.max_jobs == jobs.max_jobs
            &&& after.rejected == jobs.rejected
            &&& jobs.promises.len() > 0 ==> {
                &&& jobs.head() == Some(Ready::<P, G>::Promise(jobs.promises[0]))
                &&& after.promises == jobs.promises.skip(1)
                &&& after.generics == jobs.generics
            }
            &&& jobs.promises.len() == 0 ==> {
                &&& jobs.head() == Some(Ready::<P, G>::Generic(jobs.generics[0]))
                &&& after.generics == jobs.generics.skip(1)
                &&& after.promises == jobs.promises
            }
        }),
{
    assert(jobs.promises.drop_first() =~= jobs.promises.skip(1));
    assert(jobs.generics.drop_first() =~= jobs.generics.skip(1));
}

} // verus!
