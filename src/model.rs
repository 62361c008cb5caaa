use vstd::prelude::*;

use crate::queue::Message;

verus! {

/// Where a worker stands in its receive-execute loop.
#[derive(Clone, Copy, PartialEq, Eq, Structural, Debug)]
pub enum WorkerState {
    /// Running, between jobs: waiting on the queue.
    Idle,
    /// Running, executing the job it took last.
    Busy,
    /// Took a terminate message; its loop is over.
    Exited,
}

/// How the execution of one job ended.
#[derive(Clone, Copy, PartialEq, Eq, Structural, Debug)]
pub enum JobOutcome {
    Completed,
    Faulted,
}

/// What a worker is told to do when it asks the queue for work.
pub enum Dispatch<J> {
    /// Execute this job, then report back.
    Run(J),
    /// A terminate message was taken: leave the loop.
    Exit,
    /// Nothing is queued: block until something is sent.
    Wait,
}

/// The abstract state of a pool.
pub struct PoolView<J> {
    /// One entry per worker, indexed by the worker's ordinal.
    pub workers: Seq<WorkerState>,
    /// The work queue, front first.
    pub queue: Seq<Message<J>>,
    /// Teardown has begun: terminate messages were sent, submission is refused.
    pub terminating: bool,
    /// Every job accepted so far, in submission order.
    pub submitted: Seq<J>,
    /// Every job handed to a worker so far, in dispatch order.
    pub dispatched: Seq<J>,
    /// How each executed job ended, in order of completion.
    pub finished: Seq<JobOutcome>,
}

/// The number of workers in state `st`.
pub open spec fn count_state(s: Seq<WorkerState>, st: WorkerState) -> nat
    decreases s.len(),
{
    if s.len() == 0 {
        0
    } else {
        count_state(s.drop_last(), st) + if s.last() == st { 1nat } else { 0nat }
    }
}

pub open spec fn job_messages<J>(jobs: Seq<J>) -> Seq<Message<J>> {
    Seq::new(jobs.len(), |i: int| Message::NewJob(jobs[i]))
}

pub open spec fn terminate_messages<J>(k: nat) -> Seq<Message<J>> {
    Seq::new(k, |i: int| Message::<J>::Terminate)
}

/// A pool of `size` idle workers with an empty queue.
pub open spec fn initial_view<J>(size: nat) -> PoolView<J> {
    PoolView {
        workers: Seq::new(size, |i: int| WorkerState::Idle),
        queue: Seq::empty(),
        terminating: false,
        submitted: Seq::empty(),
        dispatched: Seq::empty(),
        finished: Seq::empty(),
    }
}

impl<J> PoolView<J> {
    pub open spec fn size(self) -> nat {
        self.workers.len()
    }

    /// Jobs accepted and not yet handed to a worker.
    pub open spec fn pending(self) -> Seq<J> {
        self.submitted.skip(self.dispatched.len() as int)
    }

    pub open spec fn exited(self) -> nat {
        count_state(self.workers, WorkerState::Exited)
    }

    pub open spec fn busy(self) -> nat {
        count_state(self.workers, WorkerState::Busy)
    }

    /// Terminate messages still on the queue.
    pub open spec fn terminates_left(self) -> nat {
        if self.terminating {
            (self.size() - self.exited()) as nat
        } else {
            0
        }
    }

    /// Every worker has left its loop.
    pub open spec fn drained(self) -> bool {
        self.terminating && self.exited() == self.size()
    }

    /// The invariant of every reachable pool state.
    pub open spec fn wf(self) -> bool {
        &&& self.size() >= 1
        &&& self.dispatched.len() <= self.submitted.len()
        &&& self.dispatched == self.submitted.take(self.dispatched.len() as int)
        &&& self.exited() <= self.size()
        &&& !self.terminating ==> self.exited() == 0
        &&& self.exited() > 0 ==> self.dispatched.len() == self.submitted.len()
        &&& self.queue == job_messages(self.pending()) + terminate_messages::<J>(
            self.terminates_left(),
        )
        &&& self.finished.len() + self.busy() == self.dispatched.len()
    }

    /// Submitting `job`: queued at the back, unless teardown has begun.
    pub open spec fn submit(self, job: J) -> PoolView<J> {
        if self.terminating {
            self
        } else {
            PoolView {
                queue: self.queue.push(Message::NewJob(job)),
                submitted: self.submitted.push(job),
                ..self
            }
        }
    }

    /// Beginning teardown: one terminate message per worker, sent once.
    pub open spec fn shut_down(self) -> PoolView<J> {
        if self.terminating {
            self
        } else {
            PoolView {
                queue: self.queue + terminate_messages::<J>(self.size()),
                terminating: true,
                ..self
            }
        }
    }

    /// What worker `id` is told when it asks for work.
    pub open spec fn next_for(self, id: int) -> Dispatch<J> {
        if self.queue.len() == 0 {
            Dispatch::Wait
        } else {
            match self.queue[0] {
                Message::NewJob(j) => Dispatch::Run(j),
                Message::Terminate => Dispatch::Exit,
            }
        }
    }

    /// Worker `id` takes the front message, if any.
    pub open spec fn dispatch(self, id: int) -> PoolView<J> {
        if self.queue.len() == 0 {
            self
        } else {
            match self.queue[0] {
                Message::NewJob(j) => PoolView {
                    workers: self.workers.update(id, WorkerState::Busy),
                    queue: self.queue.drop_first(),
                    dispatched: self.dispatched.push(j),
                    ..self
                },
                Message::Terminate => PoolView {
                    workers: self.workers.update(id, WorkerState::Exited),
                    queue: self.queue.drop_first(),
                    ..self
                },
            }
        }
    }

    /// Worker `id` reports that its job ended with `outcome`. Whatever the
    /// outcome, the worker goes back to waiting for work.
    pub open spec fn finish(self, id: int, outcome: JobOutcome) -> PoolView<J> {
        PoolView {
            workers: self.workers.update(id, WorkerState::Idle),
            finished: self.finished.push(outcome),
            ..self
        }
    }
}


proof fn lemma_count_update(s: Seq<WorkerState>, i: int, x: WorkerState, st: WorkerState)
    requires
        0 <= i < s.len(),
    ensures
        count_state(s.update(i, x), st) + (if s[i] == st { 1int } else { 0int }) == count_state(
            s,
            st,
        ) + (if x == st { 1int } else { 0int }),
    decreases s.len(),
{
    let t = s.update(i, x);
    if i == s.len() - 1 {
        assert(t.drop_last() =~= s.drop_last());
    } else {
        assert(t.drop_last() =~= s.drop_last().update(i, x));
        lemma_count_update(s.drop_last(), i, x, st);
    }
}

proof fn lemma_count_disjoint(s: Seq<WorkerState>, a: WorkerState, b: WorkerState)
    requires
        a != b,
    ensures
        count_state(s, a) + count_state(s, b) <= s.len(),
    decreases s.len(),
{
    if s.len() > 0 {
        lemma_count_disjoint(s.drop_last(), a, b);
    }
}

proof fn lemma_count_absent(s: Seq<WorkerState>, st: WorkerState)
    requires
        forall|i: int| 0 <= i < s.len() ==> s[i] != st,
    ensures
        count_state(s, st) == 0,
    decreases s.len(),
{
    if s.len() > 0 {
        lemma_count_absent(s.drop_last(), st);
    }
}

proof fn lemma_count_full(s: Seq<WorkerState>, st: WorkerState)
    requires
        count_state(s, st) == s.len(),
    ensures
        forall|i: int| 0 <= i < s.len() ==> s[i] == st,
    decreases s.len(),
{
    if s.len() > 0 {
        let d = s.drop_last();
        lemma_count_le(d, st);
        lemma_count_full(d, st);
        assert forall|i: int| 0 <= i < s.len() implies s[i] == st by {
            if i < s.len() - 1 {
                assert(s[i] == d[i]);
            }
        }
    }
}

proof fn lemma_count_le(s: Seq<WorkerState>, st: WorkerState)
    ensures
        count_state(s, st) <= s.len(),
    decreases s.len(),
{
    if s.len() > 0 {
        lemma_count_le(s.drop_last(), st);
    }
}

/// A freshly built pool satisfies the invariant.
pub proof fn lemma_initial_wf<J>(size: nat)
    requires
        size >= 1,
    ensures
        initial_view::<J>(size).wf(),
{
    let v = initial_view::<J>(size);
    lemma_count_absent(v.workers, WorkerState::Exited);
    lemma_count_absent(v.workers, WorkerState::Busy);
    assert(v.submitted.take(0) =~= v.dispatched);
    assert(v.queue =~= job_messages(v.pending()) + terminate_messages::<J>(0));
}

/// Submission keeps the invariant.
pub proof fn lemma_submit_wf<J>(v: PoolView<J>, job: J)
    requires
        v.wf(),
    ensures
        v.submit(job).wf(),
{
    if !v.terminating {
        let w = v.submit(job);
        let d = v.dispatched.len() as int;
        assert(w.submitted.take(d) =~= v.submitted.take(d));
        assert(w.pending() =~= v.pending().push(job));
        assert(w.queue =~= job_messages(w.pending()) + terminate_messages::<J>(0));
    }
}

/// Beginning teardown keeps the invariant.
pub proof fn lemma_shut_down_wf<J>(v: PoolView<J>)
    requires
        v.wf(),
    ensures
        v.shut_down().wf(),
{
    if !v.terminating {
        let w = v.shut_down();
        assert(w.queue =~= job_messages(w.pending()) + terminate_messages::<J>(w.size()));
    }
}

/// Handing out the front message to an idle worker keeps the invariant.
pub proof fn lemma_dispatch_wf<J>(v: PoolView<J>, id: int)
    requires
        v.wf(),
        0 <= id < v.size(),
        v.workers[id] == WorkerState::Idle,
    ensures
        v.dispatch(id).wf(),
{
    if v.queue.len() > 0 {
        let w = v.dispatch(id);
        let d = v.dispatched.len() as int;
        let p = v.pending();
        let k = v.terminates_left();
        lemma_count_update(v.workers, id, w.workers[id], WorkerState::Exited);
        lemma_count_update(v.workers, id, w.workers[id], WorkerState::Busy);
        lemma_count_le(w.workers, WorkerState::Exited);
        if p.len() > 0 {
            assert(v.queue[0] == job_messages(p)[0]);
            assert(v.submitted[d] == p[0]);
            assert(w.dispatched =~= v.submitted.take(d + 1));
            assert(w.pending() =~= p.drop_first());
            assert(w.queue =~= job_messages(w.pending()) + terminate_messages::<J>(k));
        } else {
            assert(v.queue[0] == terminate_messages::<J>(k)[0]);
            assert(w.pending() =~= p);
            assert(w.queue =~= job_messages(w.pending()) + terminate_messages::<J>(
                (k - 1) as nat,
            ));
        }
    }
}

/// A worker's report on its job keeps the invariant.
pub proof fn lemma_finish_wf<J>(v: PoolView<J>, id: int, outcome: JobOutcome)
    requires
        v.wf(),
        0 <= id < v.size(),
        v.workers[id] == WorkerState::Busy,
    ensures
        v.finish(id, outcome).wf(),
{
    let w = v.finish(id, outcome);
    lemma_count_update(v.workers, id, WorkerState::Idle, WorkerState::Exited);
    lemma_count_update(v.workers, id, WorkerState::Idle, WorkerState::Busy);
    assert(w.pending() =~= v.pending());
}

/// Taking a terminate message adds one to the count of exited workers.
pub proof fn lemma_exited_after_terminate<J>(v: PoolView<J>, id: int)
    requires
        v.wf(),
        0 <= id < v.size(),
        v.workers[id] == WorkerState::Idle,
        v.next_for(id) is Exit,
    ensures
        v.dispatch(id).exited() == v.exited() + 1,
        v.exited() < v.size(),
{
    lemma_count_update(v.workers, id, WorkerState::Exited, WorkerState::Exited);
    lemma_count_le(v.dispatch(id).workers, WorkerState::Exited);
}

/// A report on a job leaves the count of exited workers alone.
pub proof fn lemma_exited_after_finish<J>(v: PoolView<J>, id: int, outcome: JobOutcome)
    requires
        0 <= id < v.size(),
        v.workers[id] == WorkerState::Busy,
    ensures
        v.finish(id, outcome).exited() == v.exited(),
{
    lemma_count_update(v.workers, id, WorkerState::Idle, WorkerState::Exited);
}

/// No job is lost or duplicated: the jobs handed out, followed by the jobs
/// still waiting, are exactly the jobs submitted, in order; and every job
/// handed out has either ended or is held by exactly one busy worker.
pub proof fn lemma_jobs_conserved<J>(v: PoolView<J>)
    requires
        v.wf(),
    ensures
        v.dispatched + v.pending() == v.submitted,
        v.finished.len() + v.busy() == v.dispatched.len(),
{
    assert(v.dispatched + v.pending() =~= v.submitted);
}

/// Once every worker has left its loop, no job is in flight, the queue is
/// empty, and every submitted job was handed out exactly once and has ended.
pub proof fn lemma_drained_pool_ran_everything<J>(v: PoolView<J>)
    requires
        v.wf(),
        v.drained(),
    ensures
        forall|i: int| 0 <= i < v.size() ==> v.workers[i] == WorkerState::Exited,
        v.busy() == 0,
        v.queue.len() == 0,
        v.dispatched == v.submitted,
        v.finished.len() == v.submitted.len(),
{
    lemma_count_full(v.workers, WorkerState::Exited);
    lemma_count_disjoint(v.workers, WorkerState::Exited, WorkerState::Busy);
    assert(v.dispatched =~= v.submitted);
}

/// Each request for work takes exactly one message off the queue: a job
/// handed out is the oldest waiting submission, and only it leaves the queue.
pub proof fn lemma_dispatch_takes_one<J>(v: PoolView<J>, id: int)
    requires
        v.wf(),
        0 <= id < v.size(),
        v.workers[id] == WorkerState::Idle,
    ensures
        v.dispatch(id).wf(),
        v.next_for(id) is Run <==> v.pending().len() > 0,
        v.next_for(id) is Run ==> v.next_for(id) == Dispatch::Run(v.submitted[v.dispatched.len() as int])
            && v.dispatch(id).dispatched == v.dispatched.push(v.submitted[v.dispatched.len() as int])
            && v.dispatch(id).queue == v.queue.drop_first()
            && v.dispatch(id).workers[id] == WorkerState::Busy,
        !(v.next_for(id) is Run) ==> v.dispatch(id).dispatched == v.dispatched,
{
    lemma_dispatch_wf(v, id);
    let p = v.pending();
    if p.len() > 0 {
        assert(v.queue[0] == job_messages(p)[0]);
    } else if v.queue.len() > 0 {
        assert(v.queue[0] == terminate_messages::<J>(v.terminates_left())[0]);
    }
}

/// Two workers that ask for work one after the other never receive the same
/// submission: the first gets the oldest waiting job and the second the one
/// after it.
pub proof fn lemma_no_job_dispatched_twice<J>(v: PoolView<J>, a: int, b: int)
    requires
        v.wf(),
        0 <= a < v.size(),
        0 <= b < v.size(),
        a != b,
        v.workers[a] == WorkerState::Idle,
        v.workers[b] == WorkerState::Idle,
    ensures
        v.pending().len() >= 2 ==> v.next_for(a) == Dispatch::Run(v.pending()[0]) && v.dispatch(
            a,
        ).next_for(b) == Dispatch::Run(v.pending()[1]),
        v.dispatch(a).dispatch(b).dispatched.len() <= v.dispatched.len() + 2,
        v.dispatch(a).dispatch(b).dispatched == v.submitted.take(
            v.dispatch(a).dispatch(b).dispatched.len() as int,
        ),
{
    lemma_dispatch_takes_one(v, a);
    let w = v.dispatch(a);
    assert(w.workers[b] == v.workers[b]);
    lemma_dispatch_takes_one(w, b);
}

/// A job that faults costs no worker: the worker returns to waiting exactly
/// as after a job that completed, the other workers and the queue are left
/// alone, and the next waiting job goes to that same worker when it asks.
pub proof fn lemma_fault_contained<J>(v: PoolView<J>, id: int)
    requires
        v.wf(),
        0 <= id < v.size(),
        v.workers[id] == WorkerState::Busy,
    ensures
        v.finish(id, JobOutcome::Faulted).wf(),
        v.finish(id, JobOutcome::Faulted).workers[id] == WorkerState::Idle,
        v.finish(id, JobOutcome::Faulted).workers == v.finish(id, JobOutcome::Completed).workers,
        forall|i: int|
            0 <= i < v.size() && i != id ==> v.finish(id, JobOutcome::Faulted).workers[i]
                == v.workers[i],
        v.finish(id, JobOutcome::Faulted).queue == v.queue,
        v.finish(id, JobOutcome::Faulted).pending() == v.pending(),
        v.pending().len() > 0 ==> v.finish(id, JobOutcome::Faulted).next_for(id) == Dispatch::Run(
            v.pending()[0],
        ),
{
    let w = v.finish(id, JobOutcome::Faulted);
    lemma_finish_wf(v, id, JobOutcome::Faulted);
    assert(w.pending() =~= v.pending());
    lemma_dispatch_takes_one(w, id);
}

/// One thing that can happen to a pool: a submission, the start of teardown,
/// a worker asking for work, or a worker reporting on its job. Concurrent
/// callers act on the pool one at a time, so every execution is a sequence
/// of these.
pub enum Step<J> {
    Submit(J),
    ShutDown,
    Dispatch(int),
    Finish(int, JobOutcome),
}

impl<J> PoolView<J> {
    /// The step may be taken here: only an idle worker asks for work, and only
    /// a busy one reports.
    pub open spec fn allows(self, s: Step<J>) -> bool {
        match s {
            Step::Dispatch(id) => 0 <= id < self.size() && self.workers[id] == WorkerState::Idle,
            Step::Finish(id, _) => 0 <= id < self.size() && self.workers[id] == WorkerState::Busy,
            _ => true,
        }
    }

    pub open spec fn step(self, s: Step<J>) -> PoolView<J> {
        match s {
            Step::Submit(job) => self.submit(job),
            Step::ShutDown => self.shut_down(),
            Step::Dispatch(id) => self.dispatch(id),
            Step::Finish(id, outcome) => self.finish(id, outcome),
        }
    }
}

/// The state after taking `steps` in order from `v`; `None` if one of them
/// is not allowed where it is taken.
pub open spec fn run<J>(v: PoolView<J>, steps: Seq<Step<J>>) -> Option<PoolView<J>>
    decreases steps.len(),
{
    if steps.len() == 0 {
        Some(v)
    } else if v.allows(steps[0]) {
        run(v.step(steps[0]), steps.drop_first())
    } else {
        None
    }
}

/// Every state reached from a well-formed one is well formed.
pub proof fn lemma_run_wf<J>(v: PoolView<J>, steps: Seq<Step<J>>)
    requires
        v.wf(),
        run(v, steps) is Some,
    ensures
        run(v, steps)->0.wf(),
    decreases steps.len(),
{
    if steps.len() > 0 {
        match steps[0] {
            Step::Submit(job) => lemma_submit_wf(v, job),
            Step::ShutDown => lemma_shut_down_wf(v),
            Step::Dispatch(id) => lemma_dispatch_wf(v, id),
            Step::Finish(id, outcome) => lemma_finish_wf(v, id, outcome),
        }
        lemma_run_wf(v.step(steps[0]), steps.drop_first());
    }
}

/// Whatever the interleaving of submitters and workers, in every state that a
/// pool of `size` workers reaches, the k-th job handed out is the k-th job
/// submitted, so no submission is handed out twice, to the same worker or to
/// two; the jobs handed out followed by those still queued are exactly the
/// jobs submitted; and each job handed out has ended or is held by exactly
/// one busy worker.
pub proof fn lemma_no_job_handed_out_twice<J>(size: nat, steps: Seq<Step<J>>)
    requires
        size >= 1,
        run(initial_view::<J>(size), steps) is Some,
    ensures
        ({
            let w = run(initial_view::<J>(size), steps)->0;
            &&& w.dispatched == w.submitted.take(w.dispatched.len() as int)
            &&& w.dispatched + w.pending() == w.submitted
            &&& w.finished.len() + w.busy() == w.dispatched.len()
        }),
{
    lemma_initial_wf::<J>(size);
    lemma_run_wf(initial_view::<J>(size), steps);
    lemma_jobs_conserved(run(initial_view::<J>(size), steps)->0);
}

/// Whatever the interleaving of submitters and workers, once every worker of
/// a pool of `size` workers has exited, each job submitted was handed out
/// exactly once, in submission order, and has ended; nothing is queued or in
/// flight.
pub proof fn lemma_every_job_runs_once<J>(size: nat, steps: Seq<Step<J>>)
    requires
        size >= 1,
        run(initial_view::<J>(size), steps) is Some,
        run(initial_view::<J>(size), steps)->0.drained(),
    ensures
        ({
            let w = run(initial_view::<J>(size), steps)->0;
            &&& w.dispatched == w.submitted
            &&& w.finished.len() == w.submitted.len()
            &&& w.busy() == 0
            &&& w.queue.len() == 0
        }),
{
    lemma_initial_wf::<J>(size);
    lemma_run_wf(initial_view::<J>(size), steps);
    lemma_drained_pool_ran_everything(run(initial_view::<J>(size), steps)->0);
}

} // verus!
