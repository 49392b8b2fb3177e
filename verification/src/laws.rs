use crate::counting::{
    lemma_count_bounds, lemma_count_update, lemma_no_worker_no_task, lemma_tasks_gained,
    lemma_tasks_released, lemma_tasks_unchanged,
};
use crate::message::Message;
use crate::protocol::{jobs, signals, submissions, tasks_in, Event, PoolView};
use crate::worker::{WorkerState, WorkerView};
use vstd::multiset::Multiset;
use vstd::prelude::*;

verus! {

/// A freshly built pool satisfies the invariant.
pub proof fn lemma_init_inv<T>(size: nat)
    requires
        size >= 1,
    ensures
        PoolView::<T>::init(size).inv(),
        PoolView::<T>::init(size).accepting(),
{
    broadcast use vstd::multiset::group_multiset_axioms;

    let s = PoolView::<T>::init(size);
    lemma_count_bounds(s.workers, WorkerState::Terminated);
    lemma_no_worker_no_task(s.workers, WorkerState::Executing);
    lemma_no_worker_no_task(s.workers, WorkerState::Failed);
    assert(s.started =~= s.submitted.take(0));
    assert(s.queue =~= jobs(s.backlog()) + signals(s.signals_due()));
    vstd::seq_lib::to_multiset_len(s.started);
    vstd::multiset::lemma_multiset_empty_len(s.started.to_multiset());
    assert(s.finished.to_multiset().add(tasks_in(s.workers, WorkerState::Executing)).add(
        tasks_in(s.workers, WorkerState::Failed),
    ) =~= Multiset::<T>::empty());
}

/// Submitting a task keeps the invariant.
pub proof fn lemma_submit_inv<T>(s: PoolView<T>, task: T)
    requires
        s.inv(),
        s.accepting(),
    ensures
        s.submit(task).inv(),
        s.submit(task).accepting(),
{
    let t = s.submit(task);
    assert(t.started =~= t.submitted.take(t.started.len() as int));
    assert(t.queue =~= jobs(t.backlog()) + signals(t.signals_due()));
    let w = choose|w: int|
        0 <= w < s.workers.len() && ((#[trigger] s.workers[w]) is Idle
            || s.workers[w] is Executing);
    assert(t.workers[w] is Idle || t.workers[w] is Executing);
}

/// Handing the head of the channel to an idle worker keeps the invariant.
pub proof fn lemma_receive_inv<T>(s: PoolView<T>, w: int)
    requires
        s.inv(),
        s.can_receive(w),
    ensures
        s.receive(w).inv(),
{
    broadcast use vstd::multiset::group_multiset_axioms;
    broadcast use vstd::seq_lib::to_multiset_build;

    if s.queue.len() > 0 {
        let t = s.receive(w);
        let head = s.queue[0];
        let worker = WorkerView::after_message(head);
        lemma_count_update(s.workers, w, worker, WorkerState::Terminated);
        lemma_count_bounds(s.workers, WorkerState::Terminated);
        lemma_tasks_unchanged(s.workers, w, worker, WorkerState::Failed);
        if s.backlog().len() > 0 {
            let task = s.backlog()[0];
            assert(t.started =~= t.submitted.take(t.started.len() as int));
            assert(t.queue =~= jobs(t.backlog()) + signals(t.signals_due()));
            lemma_tasks_gained(s.workers, w, worker, WorkerState::Executing, task);
            assert(t.started.to_multiset() =~= t.finished.to_multiset().add(
                tasks_in(t.workers, WorkerState::Executing),
            ).add(tasks_in(t.workers, WorkerState::Failed)));
        } else {
            assert(s.started =~= s.submitted);
            assert(t.queue =~= jobs(t.backlog()) + signals(t.signals_due()));
            lemma_tasks_unchanged(s.workers, w, worker, WorkerState::Executing);
        }
    }
}

/// Completing a task keeps the invariant.
pub proof fn lemma_complete_inv<T>(s: PoolView<T>, w: int)
    requires
        s.inv(),
        s.is_executing(w),
    ensures
        s.complete(w).inv(),
{
    broadcast use vstd::multiset::group_multiset_axioms;
    broadcast use vstd::seq_lib::to_multiset_build;

    let t = s.complete(w);
    let task = s.workers[w]->Executing_0;
    let worker = s.workers[w].after_completion();
    lemma_count_update(s.workers, w, worker, WorkerState::Terminated);
    lemma_tasks_released(s.workers, w, worker, WorkerState::Executing, task);
    lemma_tasks_unchanged(s.workers, w, worker, WorkerState::Failed);
    assert(t.started.to_multiset() =~= t.finished.to_multiset().add(
        tasks_in(t.workers, WorkerState::Executing),
    ).add(tasks_in(t.workers, WorkerState::Failed)));
}

/// A failing task keeps the invariant.
pub proof fn lemma_fail_inv<T>(s: PoolView<T>, w: int)
    requires
        s.inv(),
        s.is_executing(w),
    ensures
        s.fail(w).inv(),
{
    broadcast use vstd::multiset::group_multiset_axioms;

    let t = s.fail(w);
    let task = s.workers[w]->Executing_0;
    let worker = s.workers[w].after_failure();
    lemma_count_update(s.workers, w, worker, WorkerState::Terminated);
    lemma_tasks_released(s.workers, w, worker, WorkerState::Executing, task);
    lemma_tasks_gained(s.workers, w, worker, WorkerState::Failed, task);
    assert(t.started.to_multiset() =~= t.finished.to_multiset().add(
        tasks_in(t.workers, WorkerState::Executing),
    ).add(tasks_in(t.workers, WorkerState::Failed)));
}

/// Sending the terminate messages keeps the invariant.
pub proof fn lemma_shutdown_inv<T>(s: PoolView<T>)
    requires
        s.inv(),
        s.accepting(),
    ensures
        s.shutdown().inv(),
{
}

/// Joining a worker keeps the invariant.
pub proof fn lemma_join_inv<T>(s: PoolView<T>, w: int)
    requires
        s.inv(),
        s.can_join(w),
    ensures
        s.join(w).inv(),
{
}

/// Every step that is enabled leads from a state that satisfies the invariant
/// to another one: the invariant holds of every state the pool can reach.
pub proof fn lemma_step_keeps_invariant<T>(s: PoolView<T>, event: Event<T>)
    requires
        s.inv(),
        s.enabled(event),
    ensures
        s.next(event).inv(),
{
    match event {
        Event::Submit(task) => lemma_submit_inv(s, task),
        Event::Receive(w) => lemma_receive_inv(s, w),
        Event::Complete(w) => lemma_complete_inv(s, w),
        Event::Fail(w) => lemma_fail_inv(s, w),
        Event::Shutdown => lemma_shutdown_inv(s),
        Event::Join(w) => lemma_join_inv(s, w),
    }
}

/// No loss, no duplication: at every moment each submitted task is in exactly
/// one place. It waits in the backlog, is being run by a worker, was lost with
/// a failed worker, or is completed.
pub proof fn lemma_every_task_in_one_place<T>(s: PoolView<T>)
    requires
        s.inv(),
    ensures
        s.submitted == s.started + s.backlog(),
        s.submitted.to_multiset() == s.finished.to_multiset().add(
            tasks_in(s.workers, WorkerState::Executing),
        ).add(tasks_in(s.workers, WorkerState::Failed)).add(s.backlog().to_multiset()),
{
    assert(s.submitted =~= s.started + s.backlog());
    vstd::seq_lib::lemma_multiset_commutative(s.started, s.backlog());
}

/// Tasks leave the channel in the order in which they were submitted, and the
/// terminate messages wait behind every job: the channel holds the backlog in
/// submission order, then nothing but terminate messages.
pub proof fn lemma_fifo_dispatch<T>(s: PoolView<T>)
    requires
        s.inv(),
    ensures
        s.started.is_prefix_of(s.submitted),
        s.queue.len() == s.backlog().len() + s.signals_due(),
        forall|i: int|
            0 <= i < s.backlog().len() ==> #[trigger] s.queue[i] == Message::NewJob(
                s.submitted[s.started.len() + i],
            ),
        forall|i: int| s.backlog().len() <= i < s.queue.len() ==> #[trigger] s.queue[i] is Terminate,
{
}

/// The drain guarantee: once shutdown has returned, the channel is empty and
/// every submitted task was run to completion exactly once. In particular as
/// many tasks completed as were submitted, and if the submitted tasks were
/// pairwise distinct, so are the completed ones.
pub proof fn lemma_stopped_means_drained<T>(s: PoolView<T>)
    requires
        s.inv(),
        s.stopped(),
    ensures
        s.queue.len() == 0,
        s.started == s.submitted,
        s.finished.to_multiset() == s.submitted.to_multiset(),
        s.finished.len() == s.submitted.len(),
        s.submitted.no_duplicates() ==> s.finished.no_duplicates(),
{
    broadcast use vstd::multiset::group_multiset_axioms;

    lemma_count_bounds(s.workers, WorkerState::Terminated);
    lemma_no_worker_no_task(s.workers, WorkerState::Executing);
    lemma_no_worker_no_task(s.workers, WorkerState::Failed);
    assert(s.finished.to_multiset().add(Multiset::empty()).add(Multiset::empty())
        =~= s.finished.to_multiset());
    vstd::seq_lib::to_multiset_len(s.finished);
    vstd::seq_lib::to_multiset_len(s.submitted);
    if s.submitted.no_duplicates() {
        s.submitted.lemma_multiset_has_no_duplicates();
        s.finished.lemma_multiset_has_no_duplicates_conv();
    }
}

/// The pool keeps its size: no step adds or removes a worker.
pub proof fn lemma_size_is_fixed<T>(s: PoolView<T>, event: Event<T>)
    requires
        s.inv(),
        s.enabled(event),
    ensures
        s.next(event).size() == s.size(),
{
}

/// What has happened stays so: every step leaves the tasks submitted, handed
/// out and completed so far in place, and adds at most one task at the end of
/// one of the three histories.
pub proof fn lemma_histories_only_grow<T>(s: PoolView<T>, event: Event<T>)
    requires
        s.inv(),
        s.enabled(event),
    ensures
        s.submitted.is_prefix_of(s.next(event).submitted),
        s.started.is_prefix_of(s.next(event).started),
        s.finished.is_prefix_of(s.next(event).finished),
        s.next(event).submitted.len() + s.next(event).started.len() + s.next(
            event,
        ).finished.len() <= s.submitted.len() + s.started.len() + s.finished.len() + 1,
        s.shutting_down ==> s.next(event).shutting_down,
        s.joined <= s.next(event).joined,
{
}

/// Every worker follows its life cycle: a step leaves it where it is, hands
/// it a task when idle, makes it idle again after its task, lets it exit when
/// idle, or fails it with its task. It exits only by receiving a terminate
/// message itself, and never while it runs a task.
pub proof fn lemma_worker_life_cycle<T>(s: PoolView<T>, event: Event<T>, w: int)
    requires
        s.inv(),
        s.enabled(event),
        0 <= w < s.size(),
    ensures
        s.workers[w].state().may_become(s.next(event).workers[w].state()),
        s.next(event).workers[w] != s.workers[w] ==> event == Event::<T>::Receive(w) || event
            == Event::<T>::Complete(w) || event == Event::<T>::Fail(w),
        !(s.workers[w] is Terminated) && s.next(event).workers[w] is Terminated ==> event
            == Event::<T>::Receive(w) && s.action() is Exit,
{
}

/// Mutual exclusion per worker: a worker that is running a task is not handed
/// another message, and no step changes the task it holds other than by
/// ending it.
pub proof fn lemma_one_task_per_worker<T>(s: PoolView<T>, event: Event<T>, w: int)
    requires
        s.inv(),
        s.enabled(event),
        s.is_executing(w),
    ensures
        event != Event::<T>::Receive(w),
        s.next(event).workers[w] is Executing ==> s.next(event).workers[w] == s.workers[w],
{
}

/// A worker is joined once: after its join it is never again its turn.
pub proof fn lemma_joined_once<T>(s: PoolView<T>, w: int)
    requires
        s.inv(),
        s.can_join(w),
        s.workers[w] is Terminated,
    ensures
        s.join(w).joined == w + 1,
        !s.join(w).can_join(w),
{
}

/// A worker is told to exit only when every task submitted before has been
/// handed to a worker: the terminate messages are received behind all jobs.
/// The tasks not yet completed at that moment are those that other workers
/// hold; in a pool of one worker there are none, so every submitted task has
/// completed.
pub proof fn lemma_exit_after_all_work<T>(s: PoolView<T>, w: int)
    requires
        s.inv(),
        s.can_receive(w),
        s.action() is Exit,
    ensures
        s.shutting_down,
        s.started == s.submitted,
        s.receive(w).workers[w] is Terminated,
        s.submitted.to_multiset() == s.finished.to_multiset().add(
            tasks_in(s.workers, WorkerState::Executing),
        ).add(tasks_in(s.workers, WorkerState::Failed)),
        s.workers.len() == 1 ==> s.finished.to_multiset() == s.submitted.to_multiset(),
{
    broadcast use vstd::multiset::group_multiset_axioms;

    // The head of the channel is a terminate message, so the backlog is
    // empty: a job in the backlog would stand in front of it.
    if s.backlog().len() > 0 {
        assert(s.queue[0] == jobs(s.backlog())[0]);
    }
    assert(s.started =~= s.submitted);
    if s.workers.len() == 1 {
        // The only worker is idle: it holds no task.
        assert(s.workers[0] is Idle);
        lemma_no_worker_no_task(s.workers, WorkerState::Executing);
        lemma_no_worker_no_task(s.workers, WorkerState::Failed);
        assert(s.finished.to_multiset().add(Multiset::empty()).add(Multiset::empty())
            =~= s.finished.to_multiset());
    }
}

/// During shutdown an idle worker never waits: a terminate message is still
/// owed to it, so the channel is not empty.
pub proof fn lemma_idle_worker_has_message<T>(s: PoolView<T>, w: int)
    requires
        s.inv(),
        s.shutting_down,
        s.can_receive(w),
    ensures
        s.queue.len() > 0,
        !(s.action() is Wait),
{
    lemma_count_bounds(s.workers, WorkerState::Terminated);
}

/// Shutdown is never stuck: as long as some worker is not joined, a worker can
/// receive a message or complete its task, or the next worker can be joined.
/// That step brings the shutdown closer to its end, unless it is the join of a
/// worker whose thread failed, which ends it with that failure.
pub proof fn lemma_shutdown_never_stuck<T>(s: PoolView<T>) -> (event: Event<T>)
    requires
        s.inv(),
        s.shutting_down,
        !s.stopped(),
    ensures
        event is Receive || event is Complete || event is Join,
        s.enabled(event),
        s.join_fails(event) || s.next(event).remaining_steps() < s.remaining_steps(),
{
    if exists|w: int| 0 <= w < s.workers.len() && (#[trigger] s.workers[w]) is Executing {
        let w = choose|w: int| 0 <= w < s.workers.len() && (#[trigger] s.workers[w]) is Executing;
        let event = Event::Complete(w);
        lemma_shutdown_step_decreases(s, event);
        event
    } else if exists|w: int| 0 <= w < s.workers.len() && (#[trigger] s.workers[w]) is Idle {
        let w = choose|w: int| 0 <= w < s.workers.len() && (#[trigger] s.workers[w]) is Idle;
        let event = Event::Receive(w);
        lemma_shutdown_step_decreases(s, event);
        event
    } else {
        let w = s.joined as int;
        let event = Event::Join(w);
        if !s.join_fails(event) {
            lemma_shutdown_step_decreases(s, event);
        }
        event
    }
}

/// Shutdown ends: every step taken after the terminate messages were sent
/// lowers the bound on the steps that remain, except the join of a worker
/// whose thread failed, which ends the shutdown with that failure.
pub proof fn lemma_shutdown_step_decreases<T>(s: PoolView<T>, event: Event<T>)
    requires
        s.inv(),
        s.shutting_down,
        s.enabled(event),
        !s.join_fails(event),
    ensures
        s.next(event).remaining_steps() < s.remaining_steps(),
{
    match event {
        Event::Submit(_) => {},
        Event::Shutdown => {},
        Event::Receive(w) => {
            lemma_idle_worker_has_message(s, w);
            lemma_count_update(
                s.workers,
                w,
                WorkerView::after_message(s.queue[0]),
                WorkerState::Executing,
            );
        },
        Event::Complete(w) => {
            lemma_count_update(
                s.workers,
                w,
                s.workers[w].after_completion(),
                WorkerState::Executing,
            );
        },
        Event::Fail(w) => {
            lemma_count_update(s.workers, w, s.workers[w].after_failure(), WorkerState::Executing);
        },
        Event::Join(w) => {},
    }
}

/// Whatever happens to a pool of at least one worker, in whatever order: the
/// invariant holds afterwards, the pool has the size it was built with, and
/// its record of submitted tasks is what was submitted.
pub proof fn lemma_every_run_keeps_invariant<T>(size: nat, events: Seq<Event<T>>)
    requires
        size >= 1,
        PoolView::<T>::init(size).can_run(events),
    ensures
        PoolView::<T>::init(size).run(events).inv(),
        PoolView::<T>::init(size).run(events).size() == size,
        PoolView::<T>::init(size).run(events).submitted == submissions(events),
    decreases events.len(),
{
    let init = PoolView::<T>::init(size);
    if events.len() == 0 {
        lemma_init_inv::<T>(size);
    } else {
        lemma_every_run_keeps_invariant::<T>(size, events.drop_last());
        lemma_step_keeps_invariant(init.run(events.drop_last()), events.last());
    }
}

/// Exactly once, regardless of scheduling: whenever a pool of at least one
/// worker has gone through its shutdown, by whatever steps, the tasks that
/// ran to completion are the tasks that were submitted, each as often as it
/// was submitted, and nothing is left in the channel.
pub proof fn lemma_every_run_drains<T>(size: nat, events: Seq<Event<T>>)
    requires
        size >= 1,
        PoolView::<T>::init(size).can_run(events),
        PoolView::<T>::init(size).run(events).stopped(),
    ensures
        PoolView::<T>::init(size).run(events).finished.to_multiset() == submissions(
            events,
        ).to_multiset(),
        PoolView::<T>::init(size).run(events).finished.len() == submissions(events).len(),
        submissions(events).no_duplicates() ==> PoolView::<T>::init(size).run(
            events,
        ).finished.no_duplicates(),
        PoolView::<T>::init(size).run(events).queue.len() == 0,
{
    lemma_every_run_keeps_invariant::<T>(size, events);
    lemma_stopped_means_drained(PoolView::<T>::init(size).run(events));
}

/// Shutdown returns: once the terminate messages were sent, the pool takes at
/// most `remaining_steps` steps, whatever the schedule, as long as no join
/// meets a worker whose thread failed.
pub proof fn lemma_shutdown_run_is_bounded<T>(s: PoolView<T>, events: Seq<Event<T>>)
    requires
        s.inv(),
        s.shutting_down,
        s.can_run_cleanly(events),
    ensures
        s.run(events).inv(),
        s.run(events).shutting_down,
        events.len() + s.run(events).remaining_steps() <= s.remaining_steps(),
    decreases events.len(),
{
    if events.len() > 0 {
        let before = s.run(events.drop_last());
        lemma_shutdown_run_is_bounded(s, events.drop_last());
        lemma_step_keeps_invariant(before, events.last());
        lemma_shutdown_step_decreases(before, events.last());
    }
}

/// A pool of one worker completes its tasks in the order in which they were
/// submitted: whatever happens, the completed tasks are the first of the
/// submitted ones.
pub proof fn lemma_single_worker_keeps_order<T>(events: Seq<Event<T>>)
    requires
        PoolView::<T>::init(1).can_run(events),
    ensures
        PoolView::<T>::init(1).run(events).in_order(),
        PoolView::<T>::init(1).run(events).finished.is_prefix_of(submissions(events)),
    decreases events.len(),
{
    let init = PoolView::<T>::init(1);
    let end = init.run(events);
    lemma_every_run_keeps_invariant::<T>(1, events);
    if events.len() == 0 {
        assert(end.started =~= end.finished + end.workers[0].in_hand());
    } else {
        let before = init.run(events.drop_last());
        lemma_single_worker_keeps_order(events.drop_last());
        lemma_every_run_keeps_invariant::<T>(1, events.drop_last());
        assert(before.started == before.finished + before.workers[0].in_hand());
        assert(end.started =~= end.finished + end.workers[0].in_hand());
    }
    assert(end.finished =~= end.started.subrange(0, end.finished.len() as int));
    assert(end.finished =~= end.submitted.subrange(0, end.finished.len() as int));
}

} // verus!
