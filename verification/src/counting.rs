use crate::protocol::{count_in, tasks_in};
use crate::worker::{WorkerState, WorkerView};
use vstd::multiset::Multiset;
use vstd::prelude::*;

verus! {

/// Replacing one worker changes the count of a state by what the old and the
/// new worker contribute.
pub proof fn lemma_count_update<T>(
    workers: Seq<WorkerView<T>>,
    w: int,
    worker: WorkerView<T>,
    state: WorkerState,
)
    requires
        0 <= w < workers.len(),
    ensures
        count_in(workers.update(w, worker), state) + (if workers[w].state() == state {
            1nat
        } else {
            0nat
        }) == count_in(workers, state) + (if worker.state() == state {
            1nat
        } else {
            0nat
        }),
    decreases workers.len(),
{
    let updated = workers.update(w, worker);
    if w == workers.len() - 1 {
        assert(updated.drop_last() =~= workers.drop_last());
    } else {
        assert(updated.drop_last() =~= workers.drop_last().update(w, worker));
        lemma_count_update(workers.drop_last(), w, worker, state);
    }
}

/// Replacing one worker changes the tasks held in a state by what the old and
/// the new worker hold.
pub proof fn lemma_tasks_update<T>(
    workers: Seq<WorkerView<T>>,
    w: int,
    worker: WorkerView<T>,
    state: WorkerState,
)
    requires
        0 <= w < workers.len(),
    ensures
        tasks_in(workers.update(w, worker), state).add(workers[w].holding(state)) == tasks_in(
            workers,
            state,
        ).add(worker.holding(state)),
    decreases workers.len(),
{
    broadcast use vstd::multiset::group_multiset_axioms;

    let updated = workers.update(w, worker);
    if w == workers.len() - 1 {
        assert(updated.drop_last() =~= workers.drop_last());
    } else {
        assert(updated.drop_last() =~= workers.drop_last().update(w, worker));
        lemma_tasks_update(workers.drop_last(), w, worker, state);
        let before = tasks_in(workers.drop_last(), state);
        let after = tasks_in(updated.drop_last(), state);
        assert forall|task: T|
            tasks_in(updated, state).add(workers[w].holding(state)).count(task) == tasks_in(
                workers,
                state,
            ).add(worker.holding(state)).count(task) by {
            assert(after.add(workers[w].holding(state)).count(task) == before.add(
                worker.holding(state),
            ).count(task));
        }
    }
}

/// A worker that holds nothing in a state before and after its replacement
/// leaves the tasks held in that state as they were.
pub proof fn lemma_tasks_unchanged<T>(
    workers: Seq<WorkerView<T>>,
    w: int,
    worker: WorkerView<T>,
    state: WorkerState,
)
    requires
        0 <= w < workers.len(),
        workers[w].holding(state) == Multiset::<T>::empty(),
        worker.holding(state) == Multiset::<T>::empty(),
    ensures
        tasks_in(workers.update(w, worker), state) == tasks_in(workers, state),
{
    broadcast use vstd::multiset::group_multiset_axioms;

    lemma_tasks_update(workers, w, worker, state);
    let after = tasks_in(workers.update(w, worker), state);
    assert(after.add(Multiset::empty()) =~= after);
}

/// A worker that takes up `task` in a state adds it to the tasks held in that
/// state.
pub proof fn lemma_tasks_gained<T>(
    workers: Seq<WorkerView<T>>,
    w: int,
    worker: WorkerView<T>,
    state: WorkerState,
    task: T,
)
    requires
        0 <= w < workers.len(),
        workers[w].holding(state) == Multiset::<T>::empty(),
        worker.holding(state) == Multiset::singleton(task),
    ensures
        tasks_in(workers.update(w, worker), state) == tasks_in(workers, state).insert(task),
{
    broadcast use vstd::multiset::group_multiset_axioms;

    lemma_tasks_update(workers, w, worker, state);
}

/// A worker that lets go of `task` in a state takes it from the tasks held in
/// that state.
pub proof fn lemma_tasks_released<T>(
    workers: Seq<WorkerView<T>>,
    w: int,
    worker: WorkerView<T>,
    state: WorkerState,
    task: T,
)
    requires
        0 <= w < workers.len(),
        workers[w].holding(state) == Multiset::singleton(task),
        worker.holding(state) == Multiset::<T>::empty(),
    ensures
        tasks_in(workers.update(w, worker), state).insert(task) == tasks_in(workers, state),
{
    broadcast use vstd::multiset::group_multiset_axioms;

    lemma_tasks_update(workers, w, worker, state);
}

/// No more workers are in a state than there are workers; all of them are
/// exactly when each one is.
pub proof fn lemma_count_bounds<T>(workers: Seq<WorkerView<T>>, state: WorkerState)
    ensures
        count_in(workers, state) <= workers.len(),
        count_in(workers, state) == workers.len() <==> forall|w: int|
            0 <= w < workers.len() ==> (#[trigger] workers[w]).state() == state,
        count_in(workers, state) == 0 <==> forall|w: int|
            0 <= w < workers.len() ==> (#[trigger] workers[w]).state() != state,
    decreases workers.len(),
{
    if workers.len() > 0 {
        let front = workers.drop_last();
        lemma_count_bounds(front, state);
        assert forall|w: int| 0 <= w < front.len() implies front[w] == workers[w] by {}
    }
}

/// Where no worker is in a state, no task is held in it.
pub proof fn lemma_no_worker_no_task<T>(workers: Seq<WorkerView<T>>, state: WorkerState)
    requires
        forall|w: int| 0 <= w < workers.len() ==> (#[trigger] workers[w]).state() != state,
    ensures
        tasks_in(workers, state) == Multiset::<T>::empty(),
    decreases workers.len(),
{
    broadcast use vstd::multiset::group_multiset_axioms;

    if workers.len() > 0 {
        let front = workers.drop_last();
        lemma_no_worker_no_task(front, state);
    }
}

} // verus!
