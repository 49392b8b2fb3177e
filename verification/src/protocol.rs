use crate::message::Message;
use crate::worker::{action_for, Action, WorkerState, WorkerView};
use vstd::multiset::Multiset;
use vstd::prelude::*;

verus! {

/// The mathematical state of a pool.
///
/// `workers[w]` is the state of the worker with id `w`; `queue` is the content
/// of the dispatch channel, oldest message first. The three histories record
/// every task that was submitted, handed to a worker, and completed, each in
/// the order in which that happened.
pub struct PoolView<T> {
    pub workers: Seq<WorkerView<T>>,
    pub queue: Seq<Message<T>>,
    pub shutting_down: bool,
    pub joined: nat,
    pub submitted: Seq<T>,
    pub started: Seq<T>,
    pub finished: Seq<T>,
}

/// One step of the pool.
pub enum Event<T> {
    /// A producer submits a task.
    Submit(T),
    /// The worker with this id asks the channel for a message.
    Receive(int),
    /// The worker with this id completed its task.
    Complete(int),
    /// The task of the worker with this id failed.
    Fail(int),
    /// The pool sends one terminate message per worker.
    Shutdown,
    /// The pool waited for the thread of the worker with this id.
    Join(int),
}

/// How many of `workers` are in `state`.
pub open spec fn count_in<T>(workers: Seq<WorkerView<T>>, state: WorkerState) -> nat
    decreases workers.len(),
{
    if workers.len() == 0 {
        0
    } else {
        count_in(workers.drop_last(), state) + if workers.last().state() == state {
            1nat
        } else {
            0nat
        }
    }
}

/// The tasks held by those of `workers` that are in `state`.
pub open spec fn tasks_in<T>(workers: Seq<WorkerView<T>>, state: WorkerState) -> Multiset<T>
    decreases workers.len(),
{
    if workers.len() == 0 {
        Multiset::empty()
    } else {
        tasks_in(workers.drop_last(), state).add(workers.last().holding(state))
    }
}

/// A channel content of `n` terminate messages.
pub open spec fn signals<T>(n: nat) -> Seq<Message<T>> {
    Seq::new(n, |i: int| Message::Terminate)
}

/// A channel content that holds `tasks` as jobs, in order.
pub open spec fn jobs<T>(tasks: Seq<T>) -> Seq<Message<T>> {
    Seq::new(tasks.len(), |i: int| Message::NewJob(tasks[i]))
}

/// The tasks that `events` submit, in order.
pub open spec fn submissions<T>(events: Seq<Event<T>>) -> Seq<T>
    decreases events.len(),
{
    if events.len() == 0 {
        Seq::empty()
    } else {
        match events.last() {
            Event::Submit(task) => submissions(events.drop_last()).push(task),
            _ => submissions(events.drop_last()),
        }
    }
}

impl<T> PoolView<T> {
    /// The number of workers.
    pub open spec fn size(self) -> nat {
        self.workers.len()
    }

    /// The pool right after construction with `size` workers.
    pub open spec fn init(size: nat) -> PoolView<T> {
        PoolView {
            workers: Seq::new(size, |w: int| WorkerView::Idle),
            queue: Seq::empty(),
            shutting_down: false,
            joined: 0,
            submitted: Seq::empty(),
            started: Seq::empty(),
            finished: Seq::empty(),
        }
    }

    /// Some worker thread is still there to hold the receiving side of the
    /// channel.
    pub open spec fn alive(self) -> bool {
        exists|w: int|
            0 <= w < self.workers.len() && ((#[trigger] self.workers[w]) is Idle
                || self.workers[w] is Executing)
    }

    /// The pool takes new tasks: shutdown has not begun and the channel has a
    /// receiver.
    pub open spec fn accepting(self) -> bool {
        !self.shutting_down && self.alive()
    }

    /// Every worker was signalled and joined.
    pub open spec fn stopped(self) -> bool {
        self.shutting_down && self.joined == self.workers.len()
    }

    /// The submitted tasks that no worker has taken yet, oldest first.
    pub open spec fn backlog(self) -> Seq<T> {
        self.submitted.skip(self.started.len() as int)
    }

    /// The number of terminate messages that are still owed to a worker.
    pub open spec fn signals_due(self) -> nat {
        if self.shutting_down {
            (self.workers.len() - count_in(self.workers, WorkerState::Terminated)) as nat
        } else {
            0
        }
    }

    /// The state after `task` was submitted.
    pub open spec fn submit(self, task: T) -> PoolView<T> {
        PoolView {
            queue: self.queue.push(Message::NewJob(task)),
            submitted: self.submitted.push(task),
            ..self
        }
    }

    /// Worker `w` may ask for a message: it exists and is idle.
    pub open spec fn can_receive(self, w: int) -> bool {
        0 <= w < self.workers.len() && self.workers[w] is Idle
    }

    /// What a worker that asks for a message now is told to do.
    pub open spec fn action(self) -> Action<T> {
        if self.queue.len() == 0 {
            Action::Wait
        } else {
            action_for(self.queue[0])
        }
    }

    /// The state after worker `w` asked for a message: the head of the
    /// channel, if there is one, went to `w`.
    pub open spec fn receive(self, w: int) -> PoolView<T> {
        if self.queue.len() == 0 {
            self
        } else {
            PoolView {
                workers: self.workers.update(w, WorkerView::after_message(self.queue[0])),
                queue: self.queue.skip(1),
                started: match self.queue[0] {
                    Message::NewJob(task) => self.started.push(task),
                    Message::Terminate => self.started,
                },
                ..self
            }
        }
    }

    /// Worker `w` exists and is running a task.
    pub open spec fn is_executing(self, w: int) -> bool {
        0 <= w < self.workers.len() && self.workers[w] is Executing
    }

    /// The state after worker `w` completed its task.
    pub open spec fn complete(self, w: int) -> PoolView<T> {
        PoolView {
            workers: self.workers.update(w, self.workers[w].after_completion()),
            finished: match self.workers[w] {
                WorkerView::Executing(task) => self.finished.push(task),
                _ => self.finished,
            },
            ..self
        }
    }

    /// The state after the task of worker `w` failed.
    pub open spec fn fail(self, w: int) -> PoolView<T> {
        PoolView { workers: self.workers.update(w, self.workers[w].after_failure()), ..self }
    }

    /// The state after the pool sent one terminate message per worker.
    pub open spec fn shutdown(self) -> PoolView<T> {
        PoolView {
            queue: self.queue + signals(self.workers.len()),
            shutting_down: true,
            ..self
        }
    }

    /// The thread of worker `w` has ended and it is `w`'s turn to be joined:
    /// every signal was sent and the workers with smaller ids are joined.
    pub open spec fn can_join(self, w: int) -> bool {
        &&& self.shutting_down
        &&& w == self.joined
        &&& 0 <= w < self.workers.len()
        &&& (self.workers[w] is Terminated || self.workers[w] is Failed)
    }

    /// The state after the pool waited for worker `w`: a clean exit advances
    /// the join cursor, a failed worker leaves the shutdown where it was.
    pub open spec fn join(self, w: int) -> PoolView<T> {
        if self.workers[w] is Terminated {
            PoolView { joined: self.joined + 1, ..self }
        } else {
            self
        }
    }

    /// An upper bound on the number of steps that a pool in shutdown can
    /// still take: two for every message waiting, one for every task being
    /// run, one for every worker not yet joined.
    pub open spec fn remaining_steps(self) -> nat {
        (2 * self.queue.len() + count_in(self.workers, WorkerState::Executing) + (
        self.workers.len() - self.joined)) as nat
    }

    /// `event` is the join of a worker whose thread failed: the fatal end of
    /// a shutdown.
    pub open spec fn join_fails(self, event: Event<T>) -> bool {
        event matches Event::Join(w) && 0 <= w < self.workers.len() && self.workers[w] is Failed
    }

    /// `event` may happen in this state.
    pub open spec fn enabled(self, event: Event<T>) -> bool {
        match event {
            Event::Submit(_) => self.accepting(),
            Event::Receive(w) => self.can_receive(w),
            Event::Complete(w) => self.is_executing(w),
            Event::Fail(w) => self.is_executing(w),
            Event::Shutdown => self.accepting(),
            Event::Join(w) => self.can_join(w),
        }
    }

    /// The state after `event`.
    pub open spec fn next(self, event: Event<T>) -> PoolView<T> {
        match event {
            Event::Submit(task) => self.submit(task),
            Event::Receive(w) => self.receive(w),
            Event::Complete(w) => self.complete(w),
            Event::Fail(w) => self.fail(w),
            Event::Shutdown => self.shutdown(),
            Event::Join(w) => self.join(w),
        }
    }

    /// In a pool of one worker, the tasks handed out are the completed ones,
    /// in the same order, followed by the task that the worker has in hand.
    pub open spec fn in_order(self) -> bool {
        self.workers.len() == 1 ==> self.started == self.finished + self.workers[0].in_hand()
    }

    /// The state after `events` happened one after the other.
    pub open spec fn run(self, events: Seq<Event<T>>) -> PoolView<T>
        decreases events.len(),
    {
        if events.len() == 0 {
            self
        } else {
            self.run(events.drop_last()).next(events.last())
        }
    }

    /// `events` can happen one after the other: each of them is enabled when
    /// its turn comes.
    pub open spec fn can_run(self, events: Seq<Event<T>>) -> bool
        decreases events.len(),
    {
        events.len() == 0 || (self.can_run(events.drop_last()) && self.run(
            events.drop_last(),
        ).enabled(events.last()))
    }

    /// `events` can happen one after the other, and none of them is the join
    /// of a worker whose thread failed.
    pub open spec fn can_run_cleanly(self, events: Seq<Event<T>>) -> bool
        decreases events.len(),
    {
        events.len() == 0 || (self.can_run_cleanly(events.drop_last()) && self.run(
            events.drop_last(),
        ).enabled(events.last()) && !self.run(events.drop_last()).join_fails(events.last()))
    }

    /// What holds of every state that the pool can reach.
    ///
    /// - There is at least one worker.
    /// - Tasks are handed out in the order of their submission.
    /// - The channel holds exactly the backlog, in order, followed by the
    ///   terminate messages still owed.
    /// - Every task handed out is completed, being run, or lost with its
    ///   worker, and each exactly once.
    /// - Before shutdown no worker has exited and none is joined.
    /// - Once a worker has exited, no task is left in the backlog.
    /// - The joined workers are the first `joined` ones, and each of them
    ///   exited cleanly.
    pub open spec fn inv(self) -> bool {
        &&& self.workers.len() >= 1
        &&& self.started.len() <= self.submitted.len()
        &&& self.started == self.submitted.take(self.started.len() as int)
        &&& self.queue == jobs(self.backlog()) + signals(self.signals_due())
        &&& self.started.to_multiset() == self.finished.to_multiset().add(
            tasks_in(self.workers, WorkerState::Executing),
        ).add(tasks_in(self.workers, WorkerState::Failed))
        &&& !self.shutting_down ==> count_in(self.workers, WorkerState::Terminated) == 0
            && self.joined == 0
        &&& count_in(self.workers, WorkerState::Terminated) > 0 ==> self.started
            == self.submitted
        &&& self.joined <= self.workers.len()
        &&& forall|w: int| 0 <= w < self.joined ==> (#[trigger] self.workers[w]) is Terminated
    }
}

} // verus!
