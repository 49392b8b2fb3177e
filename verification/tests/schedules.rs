use worker_pool::{Action, ThreadPool, WorkerState};

/// A small linear congruential generator: the schedules are arbitrary but
/// the same on every run.
struct Dice(u64);

impl Dice {
    fn roll(&mut self, bound: usize) -> usize {
        self.0 = self.0.wrapping_mul(6364136223846793005).wrapping_add(1442695040888963407);
        ((self.0 >> 33) as usize) % bound
    }
}

/// What the threads around a pool would hold: the task each worker is
/// running, and the tasks that ran to completion, in that order.
struct Threads {
    running: Vec<Option<u32>>,
    done: Vec<u32>,
    steps: usize,
}

impl Threads {
    fn new(size: usize) -> Threads {
        Threads { running: vec![None; size], done: Vec::new(), steps: 0 }
    }

    /// Lets worker `id` take its next step. Returns whether anything changed.
    fn step(&mut self, pool: &mut ThreadPool<u32>, id: usize) -> bool {
        match pool.state_of(id) {
            WorkerState::Idle => match pool.next_action(id) {
                Action::Run(task) => {
                    assert_eq!(self.running[id], None, "worker {} was handed a second task", id);
                    self.running[id] = Some(task);
                    self.steps += 1;
                    true
                }
                Action::Exit => {
                    assert_eq!(self.running[id], None);
                    self.steps += 1;
                    true
                }
                Action::Wait => false,
            },
            WorkerState::Executing => {
                let task = self.running[id].take().expect("an executing worker holds a task");
                pool.complete(id);
                self.done.push(task);
                self.steps += 1;
                true
            }
            WorkerState::Terminated | WorkerState::Failed => false,
        }
    }

    /// Runs the workers in an arbitrary order until all have exited, then
    /// joins them in the order of their ids.
    fn finish(&mut self, pool: &mut ThreadPool<u32>, dice: &mut Dice) {
        let size = pool.size();
        while (0..size).any(|id| pool.state_of(id) != WorkerState::Terminated) {
            let id = dice.roll(size);
            self.step(pool, id);
        }
        for id in 0..size {
            assert!(pool.is_joinable(id));
            assert_eq!(pool.join(id), Ok(()));
            self.steps += 1;
        }
    }
}

fn sorted(mut tasks: Vec<u32>) -> Vec<u32> {
    tasks.sort();
    tasks
}

#[test]
fn every_task_runs_exactly_once_under_any_schedule() {
    let mut dice = Dice(1);
    for size in 1..=5usize {
        for count in [0u32, 1, 2, 7, 40] {
            for _ in 0..20 {
                let mut pool = ThreadPool::<u32>::new(size);
                let mut threads = Threads::new(size);
                let mut next = 0;
                while next < count {
                    if dice.roll(3) == 0 {
                        pool.execute(next);
                        next += 1;
                    } else {
                        threads.step(&mut pool, dice.roll(size));
                    }
                }
                pool.shutdown();
                threads.finish(&mut pool, &mut dice);
                assert!(pool.is_stopped());
                assert_eq!(pool.pending(), 0);
                assert_eq!(threads.done.len(), count as usize);
                assert_eq!(sorted(threads.done), (0..count).collect::<Vec<u32>>());
            }
        }
    }
}

#[test]
fn tasks_are_handed_out_in_submission_order() {
    let mut dice = Dice(2);
    let mut pool = ThreadPool::<u32>::new(3);
    let mut handed_out = Vec::new();
    let mut next = 0;
    while handed_out.len() < 60 {
        if next < 60 && dice.roll(2) == 0 {
            pool.execute(next);
            next += 1;
            continue;
        }
        let id = dice.roll(3);
        match pool.state_of(id) {
            WorkerState::Idle => {
                if let Action::Run(task) = pool.next_action(id) {
                    handed_out.push(task);
                }
            }
            WorkerState::Executing => pool.complete(id),
            _ => unreachable!(),
        }
    }
    assert_eq!(handed_out, (0..60).collect::<Vec<u32>>());
}

#[test]
fn single_worker_completes_tasks_in_submission_order() {
    let mut dice = Dice(3);
    let mut pool = ThreadPool::<u32>::new(1);
    let mut threads = Threads::new(1);
    for task in 0..25 {
        pool.execute(task);
        if dice.roll(2) == 0 {
            threads.step(&mut pool, 0);
        }
    }
    pool.shutdown();
    threads.finish(&mut pool, &mut dice);
    assert_eq!(threads.done, (0..25).collect::<Vec<u32>>());
}

#[test]
fn ten_producers_of_fifty_tasks_give_five_hundred_runs() {
    let mut dice = Dice(4);
    let mut pool = ThreadPool::<u32>::new(4);
    let mut threads = Threads::new(4);
    let mut sent = [0u32; 10];
    let mut left = 500;
    while left > 0 {
        if dice.roll(2) == 0 {
            let mut producer = dice.roll(10);
            while sent[producer] == 50 {
                producer = (producer + 1) % 10;
            }
            pool.execute(producer as u32 * 50 + sent[producer]);
            sent[producer] += 1;
            left -= 1;
        } else {
            threads.step(&mut pool, dice.roll(4));
        }
    }
    pool.shutdown();
    threads.finish(&mut pool, &mut dice);
    assert!(pool.is_stopped());
    assert_eq!(threads.done.len(), 500);
    assert_eq!(sorted(threads.done.clone()), (0..500).collect::<Vec<u32>>());
    for producer in 0..10u32 {
        let own: Vec<u32> =
            threads.done.iter().copied().filter(|task| task / 50 == producer).collect();
        assert_eq!(own.len(), 50);
    }
}

#[test]
fn shutdown_ends_within_the_bound_on_its_steps() {
    let mut dice = Dice(5);
    for size in 1..=6usize {
        for count in [0u32, 3, 30] {
            let mut pool = ThreadPool::<u32>::new(size);
            let mut threads = Threads::new(size);
            for task in 0..count {
                pool.execute(task);
                threads.step(&mut pool, dice.roll(size));
            }
            let executing =
                (0..size).filter(|&id| pool.state_of(id) == WorkerState::Executing).count();
            pool.shutdown();
            let bound = 2 * pool.pending() + executing + size;
            threads.steps = 0;
            threads.finish(&mut pool, &mut dice);
            assert!(pool.is_stopped());
            assert!(threads.steps <= bound);
            assert_eq!(threads.done.len(), count as usize);
        }
    }
}

#[test]
fn no_worker_waits_once_shutdown_has_begun() {
    let mut dice = Dice(6);
    let mut pool = ThreadPool::<u32>::new(3);
    for task in 0..10 {
        pool.execute(task);
    }
    pool.shutdown();
    let mut exited = 0;
    while exited < 3 {
        let id = dice.roll(3);
        match pool.state_of(id) {
            WorkerState::Idle => match pool.next_action(id) {
                Action::Run(_) => {}
                Action::Exit => exited += 1,
                Action::Wait => panic!("worker {} waits during shutdown", id),
            },
            WorkerState::Executing => pool.complete(id),
            _ => {}
        }
    }
    assert_eq!(pool.pending(), 0);
}

#[test]
fn failed_workers_lose_only_their_own_task() {
    let mut pool = ThreadPool::<u32>::new(3);
    let mut threads = Threads::new(3);
    for task in 0..9 {
        pool.execute(task);
    }
    assert!(threads.step(&mut pool, 0));
    assert!(threads.step(&mut pool, 1));
    assert_eq!(threads.running[1], Some(1));
    pool.fail(1);
    pool.shutdown();
    let mut turn = 0;
    while pool.state_of(0) != WorkerState::Terminated
        || pool.state_of(2) != WorkerState::Terminated
    {
        threads.step(&mut pool, turn % 3);
        turn += 1;
    }
    assert_eq!(sorted(threads.done), vec![0, 2, 3, 4, 5, 6, 7, 8]);
    assert_eq!(pool.pending(), 1);
    assert_eq!(pool.join(0), Ok(()));
    assert!(pool.join(1).is_err());
    assert!(!pool.is_stopped());
}
