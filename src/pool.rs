use vstd::prelude::*;

use crate::model::{
    initial_view, lemma_dispatch_wf, lemma_exited_after_finish, lemma_exited_after_terminate,
    lemma_finish_wf, lemma_initial_wf, lemma_shut_down_wf, lemma_submit_wf, Dispatch, JobOutcome,
    PoolView, WorkerState,
};
use crate::queue::{Message, WorkQueue};

verus! {

/// Why a pool operation was refused.
#[derive(Clone, Copy, PartialEq, Eq, Structural, Debug)]
pub enum PoolError {
    /// A pool was asked for with no workers.
    InvalidConfiguration,
    /// A job was submitted after teardown began.
    Disconnected,
}

/// The bookkeeping of a fixed-size worker pool: the work queue, the state of
/// each worker, and the shutdown protocol. The threads that run the jobs ask
/// it what to do and report back; all of that goes through `&mut self`, so a
/// runtime shares it behind one lock.
pub struct ThreadPool<J> {
    workers: Vec<WorkerState>,
    queue: WorkQueue<J>,
    terminating: bool,
    exited: usize,
    submitted: Ghost<Seq<J>>,
    dispatched: Ghost<Seq<J>>,
    finished: Ghost<Seq<JobOutcome>>,
}

impl<J> View for ThreadPool<J> {
    type V = PoolView<J>;

    closed spec fn view(&self) -> PoolView<J> {
        PoolView {
            workers: self.workers@,
            queue: self.queue@,
            terminating: self.terminating,
            submitted: self.submitted@,
            dispatched: self.dispatched@,
            finished: self.finished@,
        }
    }
}

impl<J> ThreadPool<J> {
    /// The fields agree with the model, and the model is well formed.
    pub closed spec fn wf(&self) -> bool {
        &&& self@.wf()
        &&& self.exited == self@.exited()
    }

    /// A pool that keeps its invariant has a well-formed model, so every law
    /// stated of well-formed models holds of it.
    pub proof fn lemma_view_wf(&self)
        requires
            self.wf(),
        ensures
            self@.wf(),
    {
    }

    /// A pool of `size` idle workers, numbered `0..size`, with an empty queue.
    /// Fails with `InvalidConfiguration` exactly when `size` is zero.
    pub fn new(size: usize) -> (r: Result<ThreadPool<J>, PoolError>)
        ensures
            r is Err <==> size == 0,
            r is Err ==> r == Err::<ThreadPool<J>, PoolError>(PoolError::InvalidConfiguration),
            r matches Ok(p) ==> p.wf() && p@ == initial_view::<J>(size as nat),
    {
        if size == 0 {
            return Err(PoolError::InvalidConfiguration);
        }
        let mut workers: Vec<WorkerState> = Vec::with_capacity(size);
        let mut i: usize = 0;
        while i < size
            invariant
                i <= size,
                workers@ == Seq::new(i as nat, |k: int| WorkerState::Idle),
            decreases size - i,
        {
            workers.push(WorkerState::Idle);
            i = i + 1;
            assert(workers@ =~= Seq::new(i as nat, |k: int| WorkerState::Idle));
        }
        let pool = ThreadPool {
            workers,
            queue: WorkQueue::new(),
            terminating: false,
            exited: 0,
            submitted: Ghost(Seq::empty()),
            dispatched: Ghost(Seq::empty()),
            finished: Ghost(Seq::empty()),
        };
        proof {
            lemma_initial_wf::<J>(size as nat);
            assert(pool@ =~= initial_view::<J>(size as nat));
        }
        Ok(pool)
    }

    /// The number of workers, fixed at construction.
    pub fn size(&self) -> (r: usize)
        ensures
            r == self@.size(),
    {
        self.workers.len()
    }

    /// Where worker `id` stands.
    pub fn state_of(&self, id: usize) -> (r: WorkerState)
        requires
            id < self@.size(),
        ensures
            r == self@.workers[id as int],
    {
        self.workers[id]
    }

    /// The number of messages on the queue.
    pub fn queued(&self) -> (r: usize)
        ensures
            r == self@.queue.len(),
    {
        self.queue.len()
    }

    /// Teardown has begun.
    pub fn is_terminating(&self) -> (r: bool)
        ensures
            r == self@.terminating,
    {
        self.terminating
    }

    /// Every worker has taken its terminate message and left its loop.
    pub fn is_drained(&self) -> (r: bool)
        requires
            self.wf(),
        ensures
            r == self@.drained(),
    {
        self.terminating && self.exited == self.workers.len()
    }

    /// Queues `job` for some worker. Refused with `Disconnected`, and nothing
    /// changes, once teardown has begun.
    pub fn execute(&mut self, job: J) -> (r: Result<(), PoolError>)
        requires
            old(self).wf(),
        ensures
            final(self).wf(),
            final(self)@ == old(self)@.submit(job),
            r is Err <==> old(self)@.terminating,
            r is Err ==> r == Err::<(), PoolError>(PoolError::Disconnected),
    {
        if self.terminating {
            return Err(PoolError::Disconnected);
        }
        proof {
            lemma_submit_wf(self@, job);
            self.submitted@ = self.submitted@.push(job);
        }
        self.queue.send(Message::NewJob(job));
        proof {
            assert(self@ =~= old(self)@.submit(job));
        }
        Ok(())
    }

    /// Begins teardown: sends one terminate message per worker, behind every
    /// job already queued, and refuses submission from then on. A second call
    /// changes nothing.
    pub fn shut_down(&mut self)
        requires
            old(self).wf(),
        ensures
            final(self).wf(),
            final(self)@ == old(self)@.shut_down(),
    {
        if self.terminating {
            return;
        }
        proof {
            lemma_shut_down_wf(self@);
        }
        let n = self.workers.len();
        let mut i: usize = 0;
        while i < n
            invariant
                i <= n,
                n == self.workers@.len(),
                self.workers@ == old(self).workers@,
                self.queue@ == old(self).queue@ + Seq::new(i as nat, |k: int| Message::<J>::Terminate),
                !self.terminating,
                self.exited == old(self).exited,
                self.submitted == old(self).submitted,
                self.dispatched == old(self).dispatched,
                self.finished == old(self).finished,
            decreases n - i,
        {
            self.queue.send(Message::Terminate);
            i = i + 1;
            assert(self.queue@ =~= old(self).queue@ + Seq::new(i as nat, |k: int| Message::<J>::Terminate));
        }
        self.terminating = true;
        proof {
            assert(self@ =~= old(self)@.shut_down());
        }
    }

    /// Called by idle worker `id` for its next instruction: the job at the
    /// front of the queue, the order to exit if a terminate message is at the
    /// front, or to wait if the queue is empty.
    pub fn dispatch(&mut self, id: usize) -> (r: Dispatch<J>)
        requires
            old(self).wf(),
            id < old(self)@.size(),
            old(self)@.workers[id as int] == WorkerState::Idle,
        ensures
            final(self).wf(),
            r == old(self)@.next_for(id as int),
            final(self)@ == old(self)@.dispatch(id as int),
    {
        proof {
            lemma_dispatch_wf(self@, id as int);
        }
        match self.queue.receive() {
            None => Dispatch::Wait,
            Some(Message::NewJob(job)) => {
                self.workers.set(id, WorkerState::Busy);
                proof {
                    self.dispatched@ = self.dispatched@.push(job);
                    assert(self@ =~= old(self)@.dispatch(id as int));
                }
                Dispatch::Run(job)
            },
            Some(Message::Terminate) => {
                let n = self.workers.len();
                proof {
                    lemma_exited_after_terminate(old(self)@, id as int);
                }
                assert(self.exited < n);
                self.workers.set(id, WorkerState::Exited);
                proof {
                    assert(self@ =~= old(self)@.dispatch(id as int));
                }
                self.exited = self.exited + 1;
                Dispatch::Exit
            },
        }
    }

    /// Called by busy worker `id` once its job has ended, however it ended:
    /// the worker goes back to waiting for work.
    pub fn finish(&mut self, id: usize, outcome: JobOutcome)
        requires
            old(self).wf(),
            id < old(self)@.size(),
            old(self)@.workers[id as int] == WorkerState::Busy,
        ensures
            final(self).wf(),
            final(self)@ == old(self)@.finish(id as int, outcome),
    {
        proof {
            lemma_finish_wf(self@, id as int, outcome);
            lemma_exited_after_finish(old(self)@, id as int, outcome);
        }
        self.workers.set(id, WorkerState::Idle);
        proof {
            self.finished@ = self.finished@.push(outcome);
            assert(self@ =~= old(self)@.finish(id as int, outcome));
        }
    }
}

} // verus!
