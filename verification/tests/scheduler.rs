use odcrawler_discovery::scheduler::{Scheduler, Step, Task, TaskKind};

fn task(kind: TaskKind, frequency: u16) -> Task {
    Task { kind, frequency }
}

/// Runs one tick and returns the indices of the tasks that ran; `fails`
/// says which of them fail.
fn tick(scheduler: &mut Scheduler, fails: &dyn Fn(usize) -> bool) -> Vec<usize> {
    let mut ran = Vec::new();
    let mut step = scheduler.begin_tick();
    while let Step::Run(index) = step {
        ran.push(index);
        step = scheduler.after_task(index, fails(index));
    }
    scheduler.end_tick();
    ran
}

fn three(continue_on_error: bool) -> Scheduler {
    Scheduler::new(
        vec![
            task(TaskKind::ProcessResults, 1),
            task(TaskKind::CheckLinks, 2),
            task(TaskKind::UpdateStats, 3),
        ],
        continue_on_error,
    )
    .unwrap()
}

#[test]
fn failure_on_one_tick_does_not_reach_the_next() {
    for continue_on_error in [false, true] {
        let mut scheduler = three(continue_on_error);
        assert_eq!(scheduler.counter(), 1);
        assert_eq!(tick(&mut scheduler, &|_| false), vec![0]);
        assert_eq!(scheduler.counter(), 2);
        assert_eq!(tick(&mut scheduler, &|index| index == 1), vec![0, 1]);
        assert_eq!(scheduler.counter(), 3);
        assert_eq!(tick(&mut scheduler, &|_| false), vec![0, 2]);
    }
}

#[test]
fn tick_ends_at_the_first_failure_unless_told_to_go_on() {
    let mut stops = three(false);
    let mut goes_on = three(true);
    for _ in 1..6 {
        tick(&mut stops, &|_| false);
        tick(&mut goes_on, &|_| false);
    }
    assert_eq!(stops.counter(), 6);
    assert_eq!(tick(&mut stops, &|index| index == 0), vec![0]);
    assert_eq!(tick(&mut goes_on, &|index| index == 0), vec![0, 1, 2]);
    assert_eq!(stops.counter(), 7);
    assert_eq!(goes_on.counter(), 7);
}

#[test]
fn tasks_run_when_their_frequency_divides_the_tick() {
    let mut scheduler = three(true);
    let mut runs = vec![Vec::new(); 3];
    for number in 1..=12u16 {
        assert_eq!(scheduler.counter(), number);
        for index in tick(&mut scheduler, &|_| true) {
            runs[index].push(number);
        }
    }
    assert_eq!(runs[0], (1..=12).collect::<Vec<u16>>());
    assert_eq!(runs[1], vec![2, 4, 6, 8, 10, 12]);
    assert_eq!(runs[2], vec![3, 6, 9, 12]);
}

#[test]
fn counter_wraps_to_zero_and_every_task_is_due_then() {
    let mut scheduler = three(true);
    for _ in 1..u16::MAX {
        scheduler.end_tick();
    }
    assert_eq!(scheduler.counter(), u16::MAX);
    assert_eq!(tick(&mut scheduler, &|_| false), vec![0, 2]);
    assert_eq!(scheduler.counter(), 0);
    assert_eq!(tick(&mut scheduler, &|_| false), vec![0, 1, 2]);
    assert_eq!(scheduler.counter(), 1);
}

#[test]
fn frequency_zero_is_refused() {
    assert!(Scheduler::new(vec![task(TaskKind::CheckLinks, 0)], true).is_none());
    assert!(Scheduler::new(
        vec![task(TaskKind::CheckLinks, 1), task(TaskKind::CreateDump, 0)],
        false
    )
    .is_none());
    assert!(Scheduler::new(Vec::new(), false).is_some());
}

#[test]
fn scheduler_without_tasks_only_sleeps() {
    let mut scheduler = Scheduler::new(Vec::new(), false).unwrap();
    assert_eq!(scheduler.begin_tick(), Step::Sleep);
    assert!(tick(&mut scheduler, &|_| false).is_empty());
}

#[test]
fn the_service_runs_its_five_tasks_at_their_usual_frequencies() {
    let scheduler = Scheduler::standard();
    assert_eq!(scheduler.counter(), 1);
    assert_eq!(
        scheduler.tasks(),
        &vec![
            task(TaskKind::ProcessResults, 2),
            task(TaskKind::ScanOpendirectory, 4),
            task(TaskKind::CheckLinks, 100),
            task(TaskKind::UpdateStats, 3),
            task(TaskKind::CreateDump, 250),
        ]
    );
    assert_eq!(scheduler.begin_tick(), Step::Sleep);
}

#[test]
fn the_service_goes_on_after_an_error() {
    let mut scheduler = Scheduler::standard();
    for _ in 1..12 {
        scheduler.end_tick();
    }
    assert_eq!(scheduler.counter(), 12);
    assert_eq!(tick(&mut scheduler, &|index| index == 1), vec![0, 1, 3]);
    assert_eq!(scheduler.counter(), 13);
}

#[test]
fn names_and_usual_frequencies() {
    let expected = [
        (TaskKind::ProcessResults, "process results", 2),
        (TaskKind::ScanOpendirectory, "scan opendirectory", 4),
        (TaskKind::CheckLinks, "check links", 100),
        (TaskKind::UpdateStats, "update stats", 3),
        (TaskKind::CreateDump, "create dump", 250),
    ];
    for (kind, name, frequency) in expected {
        assert_eq!(kind.name(), name);
        assert_eq!(kind.frequency(), frequency);
    }
}
