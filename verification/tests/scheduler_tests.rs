use flights::thread_manager::{ManagedTask, Runnable, TaskAction, TaskPacer, ThreadManager};

// A simple runnable task for counting and self-stopping
#[derive(Debug)]
struct CountingTask {
    count: std::sync::Arc<std::sync::Mutex<usize>>,
    limit: usize,
    sender: std::sync::mpsc::Sender<usize>,
}

impl CountingTask {
    fn new(limit: usize, sender: std::sync::mpsc::Sender<usize>) -> Self {
        Self { count: std::sync::Arc::new(std::sync::Mutex::new(0)), limit, sender }
    }
}

impl Runnable for CountingTask {
    fn step(&mut self) -> bool {
        let mut count = self.count.lock().unwrap();
        *count += 1;
        self.sender.send(*count).unwrap();
        *count < self.limit
    }
}

// A runnable task that runs indefinitely until stopped externally
#[derive(Debug)]
struct LoopingTask {
    sender: std::sync::mpsc::Sender<usize>,
    executions: std::sync::Arc<std::sync::Mutex<usize>>,
}

impl LoopingTask {
    fn new(sender: std::sync::mpsc::Sender<usize>) -> Self {
        Self { sender, executions: std::sync::Arc::new(std::sync::Mutex::new(0)) }
    }
}

impl Runnable for LoopingTask {
    fn step(&mut self) -> bool {
        let mut executions = self.executions.lock().unwrap();
        *executions += 1;
        let _ = self.sender.send(*executions);
        true // Always return true, so it must be stopped externally
    }
}

const MILLISECOND: u64 = 1_000_000;

/// Runs `task` as its thread would, on a clock that the test moves: each
/// step takes `step_cost`, and the signal to stop is there from `stop_at`
/// on. Returns the instant at which the task ended.
fn run_task<T: Runnable>(task: &mut T, period: u64, start: u64, step_cost: u64, stop_at: Option<u64>) -> u64 {
    let mut now = start;
    let mut pacer = TaskPacer::new(period, now);
    let mut action = TaskAction::Step;
    loop {
        match action {
            TaskAction::Step => {
                let keep_going = task.step();
                now += step_cost;
                assert!(pacer.can_advance());
                action = pacer.after_step(keep_going, now);
            }
            TaskAction::WaitUntil { deadline } => {
                assert!(deadline > now);
                let stopped = stop_at.map_or(false, |stop| stop <= deadline);
                now = if stopped { stop_at.unwrap().max(now) } else { deadline };
                action = TaskPacer::after_wait(stopped);
            }
            TaskAction::Poll { .. } => {
                let stopped = stop_at.map_or(false, |stop| stop <= now);
                action = TaskPacer::after_wait(stopped);
            }
            TaskAction::Finish => return now,
        }
    }
}

#[test]
fn when_multiple_tasks_added_then_all_tasks_completed() {
    let mut manager = ThreadManager::new();
    let (counter_1_sender, counter_1_receiver) = std::sync::mpsc::channel();
    let (counter_2_sender, counter_2_receiver) = std::sync::mpsc::channel();

    let counter_1_limit = 5;
    let counter_2_limit = 10;
    let mut task_1 = CountingTask::new(counter_1_limit, counter_1_sender);
    let mut task_2 = CountingTask::new(counter_2_limit, counter_2_sender);
    let task_1_id = manager.add_task(50 * MILLISECOND);
    let task_2_id = manager.add_task(50 * MILLISECOND);
    let end_1 = run_task(&mut task_1, 50 * MILLISECOND, 0, MILLISECOND, None);
    let end_2 = run_task(&mut task_2, 50 * MILLISECOND, 0, MILLISECOND, None);

    assert!(manager.wait_on_task_finish(task_2_id));
    assert!(manager.wait_on_task_finish(task_1_id));

    // check that all tasks have been run
    assert_eq!(manager.task_count(), 0);

    // check that all tasks executed
    let counter_2_messages: Vec<usize> = counter_2_receiver.try_iter().collect();
    let counter_1_messages: Vec<usize> = counter_1_receiver.try_iter().collect();
    assert_eq!(counter_1_messages.len(), counter_1_limit);
    assert_eq!(counter_2_messages.len(), counter_2_limit);
    // steps are one period apart: the last one starts after limit - 1 periods
    assert_eq!(end_1, 4 * 50 * MILLISECOND + MILLISECOND);
    assert_eq!(end_2, 9 * 50 * MILLISECOND + MILLISECOND);
}

#[test]
fn when_stop_all_tasks_is_called() {
    let mut manager = ThreadManager::new();
    let (counter_sender, counter_receiver) = std::sync::mpsc::channel();
    let (looper_sender, looper_receiver) = std::sync::mpsc::channel();

    let counter_limit = 5;
    let mut counter_task = CountingTask::new(counter_limit, counter_sender);
    let mut looping_task = LoopingTask::new(looper_sender);
    let counter_task_id = manager.add_task(50 * MILLISECOND);
    let looping_task_id = manager.add_task(50 * MILLISECOND);

    // give ample time for counter to be executed
    let stop_at = counter_limit as u64 * 100 * MILLISECOND;
    let to_signal = manager.stop_all_tasks();
    assert_eq!(to_signal.len(), 2);
    run_task(&mut counter_task, 50 * MILLISECOND, 0, MILLISECOND, Some(stop_at));
    let looper_end = run_task(&mut looping_task, 50 * MILLISECOND, 0, MILLISECOND, Some(stop_at));
    manager.wait_on_task_finish(counter_task_id);
    manager.wait_on_task_finish(looping_task_id);

    assert_eq!(manager.task_count(), 0);

    let counter_messages: Vec<usize> = counter_receiver.try_iter().collect();
    assert_eq!(counter_messages.len(), counter_limit);
    // the looping task stepped at 0, 50, ..., 450 ms and ended on the signal
    assert_eq!(looper_receiver.try_iter().count(), 10);
    assert_eq!(looper_end, stop_at);
}

#[test]
fn when_wait_on_task_finish_called_then_task_id_removed() {
    let mut manager = ThreadManager::new();

    let task_id1 = manager.add_task(100 * MILLISECOND);
    let task_id2 = manager.add_task(100 * MILLISECOND);

    assert_eq!(manager.task_count(), 2);

    manager.stop_all_tasks();
    manager.wait_on_task_finish(task_id1);

    assert_eq!(manager.task_count(), 1);
    assert!(manager.is_known(task_id2));
    assert!(!manager.is_known(task_id1));

    manager.wait_on_task_finish(task_id2);
    assert_eq!(manager.task_count(), 0); // No tasks left
}

#[test]
fn identifiers_grow_from_zero_and_are_not_used_again() {
    let mut manager = ThreadManager::default();
    assert!(manager.has_room());
    assert_eq!(manager.add_task(1), 0);
    assert_eq!(manager.add_task(2), 1);
    assert!(manager.wait_on_task_finish(0));
    assert!(manager.wait_on_task_finish(1));
    assert_eq!(manager.add_task(3), 2);
    assert!(!manager.is_known(0));
    assert!(manager.is_known(2));
}

#[test]
fn waiting_for_an_unknown_task_changes_nothing() {
    let mut manager = ThreadManager::new();
    let id = manager.add_task(1);
    assert!(!manager.wait_on_task_finish(id + 1));
    assert!(!manager.wait_on_task_finish(-1));
    assert_eq!(manager.task_count(), 1);
    assert!(manager.wait_on_task_finish(id));
    assert!(!manager.wait_on_task_finish(id));
    assert_eq!(manager.task_count(), 0);
}

#[test]
fn the_signal_to_stop_goes_to_each_task_once() {
    let mut manager = ThreadManager::new();
    let a = manager.add_task(1);
    let b = manager.add_task(1);
    let mut first = manager.stop_all_tasks();
    first.sort();
    assert_eq!(first, vec![a, b]);
    assert!(manager.stop_all_tasks().is_empty());
    let c = manager.add_task(1);
    assert_eq!(manager.stop_all_tasks(), vec![c]);
    assert_eq!(manager.task_count(), 3);
    for id in [a, b, c] {
        assert!(manager.wait_on_task_finish(id));
    }
    assert_eq!(manager.task_count(), 0);
}

#[test]
fn a_step_in_time_waits_for_the_next_period() {
    let mut pacer = TaskPacer::new(50, 1_000);
    assert_eq!(pacer, TaskPacer { next_run: 1_000, period: 50 });
    assert_eq!(pacer.after_step(true, 1_010), TaskAction::WaitUntil { deadline: 1_050 });
    assert_eq!(pacer.next_run, 1_050);
    assert_eq!(pacer.after_step(true, 1_099), TaskAction::WaitUntil { deadline: 1_100 });
    assert_eq!(pacer.next_run, 1_100);
}

#[test]
fn a_step_that_falls_behind_does_not_catch_up() {
    let mut pacer = TaskPacer::new(50, 1_000);
    assert_eq!(pacer.after_step(true, 1_050), TaskAction::Poll { yield_first: false });
    assert_eq!(pacer.next_run, 1_050);
    assert_eq!(pacer.after_step(true, 5_000), TaskAction::Poll { yield_first: false });
    assert_eq!(pacer.next_run, 5_000);
    assert_eq!(pacer.after_step(true, 5_001), TaskAction::WaitUntil { deadline: 5_050 });
}

#[test]
fn a_period_of_zero_runs_on_and_yields() {
    let mut pacer = TaskPacer::new(0, 7);
    assert_eq!(pacer.after_step(true, 7), TaskAction::Poll { yield_first: true });
    assert_eq!(pacer.after_step(true, 9), TaskAction::Poll { yield_first: true });
    assert_eq!(pacer.next_run, 9);
}

#[test]
fn a_task_that_is_done_ends() {
    let mut pacer = TaskPacer::new(50, 1_000);
    assert_eq!(pacer.after_step(false, 1_001), TaskAction::Finish);
    assert_eq!(pacer, TaskPacer { next_run: 1_000, period: 50 });
    assert_eq!(TaskPacer::after_wait(true), TaskAction::Finish);
    assert_eq!(TaskPacer::after_wait(false), TaskAction::Step);
}

#[test]
fn the_pacer_says_when_the_clock_runs_out() {
    assert!(TaskPacer { next_run: u64::MAX - 5, period: 5 }.can_advance());
    assert!(!TaskPacer { next_run: u64::MAX - 5, period: 6 }.can_advance());
    assert!(TaskPacer { next_run: u64::MAX, period: 0 }.can_advance());
    let task = ManagedTask { period: 5, stop_sent: false };
    assert_eq!(task, ManagedTask { period: 5, stop_sent: false });
}
