use crate::message::Message;
use vstd::multiset::Multiset;
use vstd::prelude::*;

verus! {

/// Where a worker stands in its life cycle.
#[derive(Debug, Clone, Copy, PartialEq, Eq, Structural)]
pub enum WorkerState {
    /// Waiting for the next message.
    Idle,
    /// Running a task.
    Executing,
    /// Left its loop after a terminate message.
    Terminated,
    /// Its thread ended because the task it was running failed.
    Failed,
}

impl WorkerState {
    /// The steps of a worker's life cycle: it stays where it is, takes up a
    /// task when idle, is idle again after its task, exits when idle, or
    /// fails with its task. A worker that has exited or failed stays so.
    pub open spec fn may_become(self, next: WorkerState) -> bool {
        ||| self == next
        ||| self == WorkerState::Idle && next == WorkerState::Executing
        ||| self == WorkerState::Executing && next == WorkerState::Idle
        ||| self == WorkerState::Idle && next == WorkerState::Terminated
        ||| self == WorkerState::Executing && next == WorkerState::Failed
    }
}

/// What a worker does after it was handed a message, or found none.
#[derive(Debug, PartialEq, Eq)]
pub enum Action<T> {
    /// Run the job to completion, then say how it ended.
    Run(T),
    /// Leave the loop: the thread ends normally.
    Exit,
    /// No message is waiting: block until one is sent.
    Wait,
}

/// The mathematical state of a worker: its life-cycle state together with the
/// task it holds, if any.
pub enum WorkerView<T> {
    Idle,
    Executing(T),
    Terminated,
    Failed(T),
}

impl<T> WorkerView<T> {
    /// The life-cycle state, without the task.
    pub open spec fn state(self) -> WorkerState {
        match self {
            WorkerView::Idle => WorkerState::Idle,
            WorkerView::Executing(_) => WorkerState::Executing,
            WorkerView::Terminated => WorkerState::Terminated,
            WorkerView::Failed(_) => WorkerState::Failed,
        }
    }

    /// The task that the worker holds while in `state`, as a multiset of at
    /// most one element: the task being run for `Executing`, the task that
    /// brought the worker down for `Failed`, nothing otherwise.
    pub open spec fn holding(self, state: WorkerState) -> Multiset<T> {
        match self {
            WorkerView::Executing(task) if state == WorkerState::Executing => Multiset::singleton(
                task,
            ),
            WorkerView::Failed(task) if state == WorkerState::Failed => Multiset::singleton(task),
            _ => Multiset::empty(),
        }
    }

    /// The task that the worker took and did not complete, as a sequence of
    /// at most one element.
    pub open spec fn in_hand(self) -> Seq<T> {
        match self {
            WorkerView::Executing(task) => seq![task],
            WorkerView::Failed(task) => seq![task],
            _ => Seq::empty(),
        }
    }

    /// The state after the worker was handed `message` while idle.
    pub open spec fn after_message(message: Message<T>) -> WorkerView<T> {
        match message {
            Message::NewJob(task) => WorkerView::Executing(task),
            Message::Terminate => WorkerView::Terminated,
        }
    }

    /// The state after the task in hand ran to completion.
    pub open spec fn after_completion(self) -> WorkerView<T> {
        match self {
            WorkerView::Executing(_) => WorkerView::Idle,
            other => other,
        }
    }

    /// The state after the task in hand failed.
    pub open spec fn after_failure(self) -> WorkerView<T> {
        match self {
            WorkerView::Executing(task) => WorkerView::Failed(task),
            other => other,
        }
    }
}

/// What a worker does with `message`.
pub open spec fn action_for<T>(message: Message<T>) -> Action<T> {
    match message {
        Message::NewJob(task) => Action::Run(task),
        Message::Terminate => Action::Exit,
    }
}

/// One worker of the pool: its id and its life-cycle state.
///
/// The task itself is handed to whoever runs the worker's thread; the worker
/// only remembers, as ghost state, which task that was.
pub struct Worker<T> {
    id: usize,
    state: WorkerState,
    holds: Ghost<WorkerView<T>>,
}

impl<T> View for Worker<T> {
    type V = WorkerView<T>;

    closed spec fn view(&self) -> WorkerView<T> {
        self.holds@
    }
}

impl<T> Worker<T> {
    /// The recorded state agrees with the ghost view.
    pub closed spec fn wf(&self) -> bool {
        self.state == self.holds@.state()
    }

    /// The worker's id, as a specification value.
    pub closed spec fn spec_id(&self) -> usize {
        self.id
    }

    /// A fresh, idle worker.
    pub fn new(id: usize) -> (worker: Self)
        ensures
            worker.wf(),
            worker.spec_id() == id,
            worker@ == WorkerView::<T>::Idle,
    {
        Worker { id, state: WorkerState::Idle, holds: Ghost(WorkerView::Idle) }
    }

    /// The worker's id.
    pub fn id(&self) -> (id: usize)
        ensures
            id == self.spec_id(),
    {
        self.id
    }

    /// The worker's life-cycle state.
    pub fn state(&self) -> (state: WorkerState)
        requires
            self.wf(),
        ensures
            state == self@.state(),
    {
        self.state
    }

    /// The decision an idle worker takes on a received message: a job is
    /// handed out to be run, a terminate message ends the loop.
    pub fn handle(&mut self, message: Message<T>) -> (action: Action<T>)
        requires
            old(self).wf(),
            old(self)@ is Idle,
        ensures
            final(self).wf(),
            final(self).spec_id() == old(self).spec_id(),
            final(self)@ == WorkerView::after_message(message),
            action == action_for(message),
    {
        match message {
            Message::NewJob(task) => {
                self.state = WorkerState::Executing;
                self.holds = Ghost(WorkerView::Executing(task));
                Action::Run(task)
            },
            Message::Terminate => {
                self.state = WorkerState::Terminated;
                self.holds = Ghost(WorkerView::Terminated);
                Action::Exit
            },
        }
    }

    /// Records that the task in hand ran to completion: the worker is idle
    /// again.
    pub fn finish(&mut self)
        requires
            old(self).wf(),
            old(self)@ is Executing,
        ensures
            final(self).wf(),
            final(self).spec_id() == old(self).spec_id(),
            final(self)@ == old(self)@.after_completion(),
    {
        self.state = WorkerState::Idle;
        self.holds = Ghost(WorkerView::Idle);
    }

    /// Records that the task in hand failed and took the worker's thread with
    /// it.
    pub fn fail(&mut self)
        requires
            old(self).wf(),
            old(self)@ is Executing,
        ensures
            final(self).wf(),
            final(self).spec_id() == old(self).spec_id(),
            final(self)@ == old(self)@.after_failure(),
    {
        self.state = WorkerState::Failed;
        self.holds = Ghost(old(self)@.after_failure());
    }
}

} // verus!
