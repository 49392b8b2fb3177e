use crate::channel::Channel;
use crate::laws::{
    lemma_complete_inv, lemma_exit_after_all_work, lemma_fail_inv, lemma_fifo_dispatch,
    lemma_idle_worker_has_message, lemma_init_inv, lemma_join_inv, lemma_receive_inv,
    lemma_shutdown_inv, lemma_stopped_means_drained, lemma_submit_inv,
};
use crate::message::Message;
use crate::protocol::{signals, PoolView};
use crate::worker::{Action, Worker, WorkerState, WorkerView};
use vstd::prelude::*;

verus! {

/// Why waiting for a worker did not end well: its thread was brought down by
/// a failing task.
#[derive(Debug, Clone, Copy, PartialEq, Eq)]
pub struct JoinError {
    /// The id of the worker whose thread failed.
    pub worker: usize,
}

/// A pool of a fixed number of workers behind one dispatch channel.
///
/// The pool is the shared state of the protocol: producers submit tasks,
/// workers ask for their next action and report how a task ended, and the
/// owner shuts the pool down in two passes. The threads themselves, and the
/// blocking that goes with them, belong to the caller.
pub struct ThreadPool<T> {
    workers: Vec<Worker<T>>,
    channel: Channel<T>,
    shutting_down: bool,
    joined: usize,
    submitted: Ghost<Seq<T>>,
    started: Ghost<Seq<T>>,
    finished: Ghost<Seq<T>>,
}

impl<T> View for ThreadPool<T> {
    type V = PoolView<T>;

    closed spec fn view(&self) -> PoolView<T> {
        PoolView {
            workers: Seq::new(self.workers@.len(), |w: int| self.workers@[w]@),
            queue: self.channel@,
            shutting_down: self.shutting_down,
            joined: self.joined as nat,
            submitted: self.submitted@,
            started: self.started@,
            finished: self.finished@,
        }
    }
}

impl<T> ThreadPool<T> {
    /// The pool is well formed: each worker stands at the index of its id and
    /// agrees with its ghost state, and the protocol invariant holds.
    pub closed spec fn wf(&self) -> bool {
        &&& forall|w: int|
            0 <= w < self.workers@.len() ==> (#[trigger] self.workers@[w]).wf()
                && self.workers@[w].spec_id() == w
        &&& self@.inv()
    }

    /// Every well-formed pool satisfies the protocol invariant.
    pub proof fn lemma_wf_inv(&self)
        requires
            self.wf(),
        ensures
            self@.inv(),
    {
    }

    /// Creates a pool of `size` idle workers with ids `0..size` and an empty
    /// channel.
    pub fn new(size: usize) -> (pool: Self)
        requires
            size > 0,
        ensures
            pool.wf(),
            pool@ == PoolView::<T>::init(size as nat),
            pool@.accepting(),
    {
        let mut workers: Vec<Worker<T>> = Vec::with_capacity(size);
        let mut id: usize = 0;
        while id < size
            invariant
                id <= size,
                workers@.len() == id,
                forall|w: int|
                    0 <= w < id ==> (#[trigger] workers@[w]).wf() && workers@[w].spec_id() == w
                        && workers@[w]@ == WorkerView::<T>::Idle,
            decreases size - id,
        {
            workers.push(Worker::new(id));
            id = id + 1;
        }
        let pool = ThreadPool {
            workers,
            channel: Channel::new(),
            shutting_down: false,
            joined: 0,
            submitted: Ghost(Seq::empty()),
            started: Ghost(Seq::empty()),
            finished: Ghost(Seq::empty()),
        };
        proof {
            lemma_init_inv::<T>(size as nat);
            assert(pool@.workers =~= PoolView::<T>::init(size as nat).workers);
        }
        pool
    }

    /// The number of workers.
    pub fn size(&self) -> (n: usize)
        ensures
            n == self@.size(),
    {
        self.workers.len()
    }

    /// The number of messages waiting in the channel.
    pub fn pending(&self) -> (n: usize)
        ensures
            n == self@.queue.len(),
    {
        self.channel.len()
    }

    /// Whether the terminate messages were sent.
    pub fn is_shutting_down(&self) -> (b: bool)
        ensures
            b == self@.shutting_down,
    {
        self.shutting_down
    }

    /// The number of workers joined so far.
    pub fn joined(&self) -> (n: usize)
        ensures
            n == self@.joined,
    {
        self.joined
    }

    /// Whether every worker was signalled and joined.
    pub fn is_stopped(&self) -> (b: bool)
        ensures
            b == self@.stopped(),
    {
        self.shutting_down && self.joined == self.workers.len()
    }

    /// The state of the worker with id `id`.
    pub fn state_of(&self, id: usize) -> (state: WorkerState)
        requires
            self.wf(),
            id < self@.size(),
        ensures
            state == self@.workers[id as int].state(),
    {
        self.workers[id].state()
    }

    /// Whether some worker thread is left to receive from the channel.
    pub fn is_alive(&self) -> (b: bool)
        requires
            self.wf(),
        ensures
            b == self@.alive(),
    {
        let mut id: usize = 0;
        while id < self.workers.len()
            invariant
                self.wf(),
                id <= self.workers@.len(),
                forall|w: int|
                    0 <= w < id ==> !((#[trigger] self@.workers[w]) is Idle
                        || self@.workers[w] is Executing),
            decreases self.workers@.len() - id,
        {
            let state = self.workers[id].state();
            if state == WorkerState::Idle || state == WorkerState::Executing {
                assert(self@.workers[id as int] is Idle || self@.workers[id as int] is Executing);
                return true;
            }
            id = id + 1;
        }
        false
    }

    /// Whether the pool takes new tasks.
    pub fn is_accepting(&self) -> (b: bool)
        requires
            self.wf(),
        ensures
            b == self@.accepting(),
    {
        !self.shutting_down && self.is_alive()
    }

    /// Submits `task`: it is sent on the channel as a job, behind everything
    /// sent before.
    pub fn execute(&mut self, task: T)
        requires
            old(self).wf(),
            old(self)@.accepting(),
        ensures
            final(self).wf(),
            final(self)@ == old(self)@.submit(task),
            final(self)@.accepting(),
    {
        let ghost before = self@;
        self.channel.send(Message::NewJob(task));
        self.submitted = Ghost(self.submitted@.push(task));
        proof {
            lemma_submit_inv(before, task);
        }
    }

    /// The next action of the idle worker `id`: it receives the head of the
    /// channel and acts on it, or is told to wait when the channel is empty.
    ///
    /// A task handed out is the oldest one waiting; the worker is told to
    /// exit only when no task waits any more; and once the terminate messages
    /// were sent, it is never told to wait.
    pub fn next_action(&mut self, id: usize) -> (action: Action<T>)
        requires
            old(self).wf(),
            old(self)@.can_receive(id as int),
        ensures
            final(self).wf(),
            final(self)@ == old(self)@.receive(id as int),
            action == old(self)@.action(),
            action matches Action::Run(task) ==> old(self)@.backlog().len() > 0
                && task == old(self)@.backlog()[0],
            action is Exit ==> old(self)@.backlog().len() == 0,
            action is Wait ==> !old(self)@.shutting_down,
    {
        let ghost before = self@;
        proof {
            lemma_fifo_dispatch(before);
            if before.action() is Exit {
                lemma_exit_after_all_work(before, id as int);
            }
            if before.shutting_down {
                lemma_idle_worker_has_message(before, id as int);
            }
        }
        match self.channel.receive() {
            None => {
                Action::Wait
            },
            Some(message) => {
                let ghost head = message;
                let action = self.workers[id].handle(message);
                proof {
                    match head {
                        Message::NewJob(task) => {
                            self.started@ = self.started@.push(task);
                        },
                        Message::Terminate => {},
                    }
                    lemma_receive_inv(before, id as int);
                    assert(self@.workers =~= before.receive(id as int).workers);
                }
                action
            },
        }
    }

    /// Records that worker `id` ran its task to completion.
    pub fn complete(&mut self, id: usize)
        requires
            old(self).wf(),
            old(self)@.is_executing(id as int),
        ensures
            final(self).wf(),
            final(self)@ == old(self)@.complete(id as int),
    {
        let ghost before = self@;
        self.workers[id].finish();
        proof {
            self.finished@ = self.finished@.push(before.workers[id as int]->Executing_0);
            lemma_complete_inv(before, id as int);
            assert(self@.workers =~= before.complete(id as int).workers);
        }
    }

    /// Records that the task of worker `id` failed and ended its thread.
    pub fn fail(&mut self, id: usize)
        requires
            old(self).wf(),
            old(self)@.is_executing(id as int),
        ensures
            final(self).wf(),
            final(self)@ == old(self)@.fail(id as int),
    {
        let ghost before = self@;
        self.workers[id].fail();
        proof {
            lemma_fail_inv(before, id as int);
            assert(self@.workers =~= before.fail(id as int).workers);
        }
    }

    /// The first pass of shutdown: sends one terminate message per worker,
    /// all of them before any worker is waited for.
    pub fn shutdown(&mut self)
        requires
            old(self).wf(),
            old(self)@.accepting(),
        ensures
            final(self).wf(),
            final(self)@ == old(self)@.shutdown(),
    {
        let ghost before = self@;
        let size = self.workers.len();
        let mut sent: usize = 0;
        while sent < size
            invariant
                sent <= size,
                size == before.workers.len(),
                self.channel@ == before.queue + signals::<T>(sent as nat),
                self.workers == old(self).workers,
                self.shutting_down == old(self).shutting_down,
                self.joined == old(self).joined,
                self.submitted == old(self).submitted,
                self.started == old(self).started,
                self.finished == old(self).finished,
            decreases size - sent,
        {
            self.channel.send(Message::Terminate);
            sent = sent + 1;
        }
        self.shutting_down = true;
        proof {
            lemma_shutdown_inv(before);
        }
    }

    /// Whether it is the turn of worker `id` to be joined and its thread has
    /// ended.
    pub fn is_joinable(&self, id: usize) -> (b: bool)
        requires
            self.wf(),
        ensures
            b == self@.can_join(id as int),
    {
        if self.shutting_down && id == self.joined && id < self.workers.len() {
            let state = self.workers[id].state();
            state == WorkerState::Terminated || state == WorkerState::Failed
        } else {
            false
        }
    }

    /// The second pass of shutdown, one worker at a time and in the order of
    /// the ids: records that the thread of worker `id` was waited for. A
    /// worker that exited cleanly is joined; one whose thread failed is
    /// reported and the pool stays as it was.
    pub fn join(&mut self, id: usize) -> (joined: Result<(), JoinError>)
        requires
            old(self).wf(),
            old(self)@.can_join(id as int),
        ensures
            final(self).wf(),
            final(self)@ == old(self)@.join(id as int),
            joined is Ok <==> old(self)@.workers[id as int] is Terminated,
            joined is Err ==> joined->Err_0.worker == id,
            final(self)@.stopped() ==> final(self)@.queue.len() == 0,
            final(self)@.stopped() ==> final(self)@.finished.to_multiset() == final(
                self
            )@.submitted.to_multiset(),
    {
        let ghost before = self@;
        let state = self.workers[id].state();
        if state == WorkerState::Terminated {
            assert(id < self.workers.len());
            self.joined = id + 1;
            proof {
                lemma_join_inv(before, id as int);
                if self@.stopped() {
                    lemma_stopped_means_drained(self@);
                }
            }
            Ok(())
        } else {
            Err(JoinError { worker: id })
        }
    }
}

} // verus!
