//! The scheduler: a fixed list of tasks, each run once every so many ticks.

use vstd::prelude::*;

verus! {

/// The tasks that the service knows.
#[derive(Debug, Clone, Copy, PartialEq, Eq, Structural)]
pub enum TaskKind {
    /// Takes in one scan result.
    ProcessResults,
    /// Scans one open directory.
    ScanOpendirectory,
    /// Probes the roots and reconciles the index.
    CheckLinks,
    /// Writes the statistics.
    UpdateStats,
    /// Writes a dump of the links.
    CreateDump,
}

impl TaskKind {
    /// The name of the task, as it appears in the log.
    pub fn name(&self) -> (name: &'static str)
        ensures
            name@ == match *self {
                TaskKind::ProcessResults => "process results"@,
                TaskKind::ScanOpendirectory => "scan opendirectory"@,
                TaskKind::CheckLinks => "check links"@,
                TaskKind::UpdateStats => "update stats"@,
                TaskKind::CreateDump => "create dump"@,
            },
    {
        match self {
            TaskKind::ProcessResults => "process results",
            TaskKind::ScanOpendirectory => "scan opendirectory",
            TaskKind::CheckLinks => "check links",
            TaskKind::UpdateStats => "update stats",
            TaskKind::CreateDump => "create dump",
        }
    }

    /// How often the task runs unless configured otherwise: once every this
    /// many ticks.
    pub open spec fn usual_frequency(self) -> u16 {
        match self {
            TaskKind::ProcessResults => 2,
            TaskKind::ScanOpendirectory => 4,
            TaskKind::CheckLinks => 100,
            TaskKind::UpdateStats => 3,
            TaskKind::CreateDump => 250,
        }
    }

    /// How often the task runs unless configured otherwise: 1 is every tick,
    /// 5 is every fifth tick.
    pub fn frequency(&self) -> (frequency: u16)
        ensures
            frequency == self.usual_frequency(),
            frequency > 0,
    {
        match self {
            TaskKind::ProcessResults => 2,
            TaskKind::ScanOpendirectory => 4,
            TaskKind::CheckLinks => 100,
            TaskKind::UpdateStats => 3,
            TaskKind::CreateDump => 250,
        }
    }
}

/// A task with the frequency at which it runs.
#[derive(Debug, Clone, Copy, PartialEq, Eq, Structural)]
pub struct Task {
    pub kind: TaskKind,
    /// The task runs once every `frequency` ticks.
    pub frequency: u16,
}

/// What the scheduler does next.
#[derive(Debug, Clone, Copy, PartialEq, Eq, Structural)]
pub enum Step {
    /// Run the task at this index of the list.
    Run(usize),
    /// The tick is over: wait for the next one.
    Sleep,
}

/// A task is due at a tick if its frequency divides the tick's number.
pub open spec fn is_due(task: Task, counter: u16) -> bool {
    task.frequency > 0 && counter % task.frequency == 0
}

/// The first task at or after index `from` that is due, if there is one.
pub open spec fn next_due(tasks: Seq<Task>, counter: u16, from: int) -> Option<int>
    decreases tasks.len() - from,
{
    if from < 0 || from >= tasks.len() {
        None
    } else if is_due(tasks[from], counter) {
        Some(from)
    } else {
        next_due(tasks, counter, from + 1)
    }
}

/// The step that stands for the next task due.
pub open spec fn step_from(tasks: Seq<Task>, counter: u16, from: int) -> Step {
    match next_due(tasks, counter, from) {
        Some(index) => Step::Run(index as usize),
        None => Step::Sleep,
    }
}

/// The indices of the tasks that are due at a tick, in the order of the list.
pub open spec fn due_tasks(tasks: Seq<Task>, counter: u16) -> Seq<int> {
    Seq::new(tasks.len(), |i: int| i).filter(|i: int| 0 <= i < tasks.len() && is_due(tasks[i], counter))
}

/// The tasks that run in one tick, from index `from` on, where `fails` says
/// which of them fail: the tasks due, in order, up to the first failure
/// unless the scheduler goes on after an error.
pub open spec fn tick_runs(
    tasks: Seq<Task>,
    counter: u16,
    continue_on_error: bool,
    fails: spec_fn(int) -> bool,
    from: int,
) -> Seq<int>
    decreases tasks.len() - from,
{
    match next_due(tasks, counter, from) {
        None => Seq::empty(),
        Some(index) => if from <= index < tasks.len() {
            if fails(index) && !continue_on_error {
                seq![index]
            } else {
                seq![index] + tick_runs(tasks, counter, continue_on_error, fails, index + 1)
            }
        } else {
            Seq::empty()
        },
    }
}

/// The number of the tick after `counter`: one more, and zero after the
/// largest number.
pub open spec fn next_counter(counter: u16) -> u16 {
    if counter == u16::MAX {
        0
    } else {
        (counter + 1) as u16
    }
}

/// The task found by `next_due` lies at or after `from`, is due, and no task
/// between the two is.
pub proof fn lemma_next_due(tasks: Seq<Task>, counter: u16, from: int)
    requires
        0 <= from,
    ensures
        next_due(tasks, counter, from) matches Some(index) ==> from <= index < tasks.len()
            && is_due(tasks[index], counter) && forall|i: int|
            from <= i < index ==> !is_due(#[trigger] tasks[i], counter),
        next_due(tasks, counter, from) is None ==> forall|i: int|
            from <= i < tasks.len() ==> !is_due(#[trigger] tasks[i], counter),
    decreases tasks.len() - from,
{
    if from < tasks.len() && !is_due(tasks[from], counter) {
        lemma_next_due(tasks, counter, from + 1);
    }
}

/// The scheduler: the tasks, the number of the current tick, and whether a
/// tick goes on with the remaining tasks after one of them failed.
#[derive(Debug)]
pub struct Scheduler {
    tasks: Vec<Task>,
    counter: u16,
    continue_on_error: bool,
}

/// A [`Scheduler`] as contracts see it.
pub struct SchedulerView {
    pub tasks: Seq<Task>,
    pub counter: u16,
    pub continue_on_error: bool,
}

impl View for Scheduler {
    type V = SchedulerView;

    closed spec fn view(&self) -> SchedulerView {
        SchedulerView {
            tasks: self.tasks@,
            counter: self.counter,
            continue_on_error: self.continue_on_error,
        }
    }
}

impl Scheduler {
    /// Every task of a scheduler has a frequency of at least 1.
    pub open spec fn wf(&self) -> bool {
        forall|i: int| 0 <= i < self@.tasks.len() ==> (#[trigger] self@.tasks[i]).frequency > 0
    }

    #[verifier::type_invariant]
    spec fn valid(&self) -> bool {
        self.wf()
    }

    /// A scheduler for `tasks` that is about to make its first tick, which
    /// has the number 1. A task with frequency 0 could never run: a list
    /// that holds one is refused.
    pub fn new(tasks: Vec<Task>, continue_on_error: bool) -> (scheduler: Option<Scheduler>)
        ensures
            scheduler is Some <==> forall|i: int|
                0 <= i < tasks@.len() ==> (#[trigger] tasks@[i]).frequency > 0,
            scheduler matches Some(s) ==> s.wf() && s@ == (SchedulerView {
                tasks: tasks@,
                counter: 1,
                continue_on_error,
            }),
    {
        let mut i: usize = 0;
        while i < tasks.len()
            invariant
                i <= tasks@.len(),
                forall|k: int| 0 <= k < i ==> (#[trigger] tasks@[k]).frequency > 0,
            decreases tasks@.len() - i,
        {
            if tasks[i].frequency == 0 {
                return None;
            }
            i += 1;
        }
        Some(Scheduler { tasks, counter: 1, continue_on_error })
    }

    /// The scheduler of the service: its five tasks at their usual
    /// frequencies. A tick goes on after a task has failed, so that a task
    /// that fails often cannot starve those behind it.
    pub fn standard() -> (scheduler: Scheduler)
        ensures
            scheduler.wf(),
            scheduler@ == (SchedulerView {
                tasks: seq![
                    Task { kind: TaskKind::ProcessResults, frequency: 2 },
                    Task { kind: TaskKind::ScanOpendirectory, frequency: 4 },
                    Task { kind: TaskKind::CheckLinks, frequency: 100 },
                    Task { kind: TaskKind::UpdateStats, frequency: 3 },
                    Task { kind: TaskKind::CreateDump, frequency: 250 },
                ],
                counter: 1,
                continue_on_error: true,
            }),
    {
        let mut tasks: Vec<Task> = Vec::new();
        tasks.push(
            Task { kind: TaskKind::ProcessResults, frequency: TaskKind::ProcessResults.frequency() },
        );
        tasks.push(
            Task {
                kind: TaskKind::ScanOpendirectory,
                frequency: TaskKind::ScanOpendirectory.frequency(),
            },
        );
        tasks.push(Task { kind: TaskKind::CheckLinks, frequency: TaskKind::CheckLinks.frequency() });
        tasks.push(
            Task { kind: TaskKind::UpdateStats, frequency: TaskKind::UpdateStats.frequency() },
        );
        tasks.push(Task { kind: TaskKind::CreateDump, frequency: TaskKind::CreateDump.frequency() });
        let scheduler = Scheduler { tasks, counter: 1, continue_on_error: true };
        assert(scheduler@.tasks =~= seq![
            Task { kind: TaskKind::ProcessResults, frequency: 2 },
            Task { kind: TaskKind::ScanOpendirectory, frequency: 4 },
            Task { kind: TaskKind::CheckLinks, frequency: 100 },
            Task { kind: TaskKind::UpdateStats, frequency: 3 },
            Task { kind: TaskKind::CreateDump, frequency: 250 },
        ]);
        scheduler
    }

    /// The number of the current tick.
    pub fn counter(&self) -> (counter: u16)
        ensures
            counter == self@.counter,
    {
        self.counter
    }

    /// The tasks, in the order in which a tick runs them.
    pub fn tasks(&self) -> (tasks: &Vec<Task>)
        ensures
            tasks@ == self@.tasks,
    {
        &self.tasks
    }

    /// The first task at or after index `from` that is due at the current
    /// tick.
    fn step_at(&self, from: usize) -> (step: Step)
        ensures
            step == step_from(self@.tasks, self@.counter, from as int),
    {
        let mut i: usize = from;
        proof {
            use_type_invariant(self);
        }
        while i < self.tasks.len()
            invariant
                self.wf(),
                from <= i,
                next_due(self@.tasks, self@.counter, from as int) == next_due(
                    self@.tasks,
                    self@.counter,
                    i as int,
                ),
            decreases self.tasks@.len() - i,
        {
            assert(self@.tasks[i as int].frequency > 0);
            if self.counter % self.tasks[i].frequency == 0 {
                return Step::Run(i);
            }
            i += 1;
        }
        Step::Sleep
    }

    /// The first step of the current tick: the first task that is due.
    pub fn begin_tick(&self) -> (step: Step)
        ensures
            step == step_from(self@.tasks, self@.counter, 0),
    {
        self.step_at(0)
    }

    /// The step after the task at index `finished` has run. After a failure
    /// the tick is over, unless the scheduler goes on after an error; else
    /// the next task that is due follows.
    pub fn after_task(&self, finished: usize, failed: bool) -> (step: Step)
        requires
            finished < self@.tasks.len(),
        ensures
            step == if failed && !self@.continue_on_error {
                Step::Sleep
            } else {
                step_from(self@.tasks, self@.counter, finished + 1)
            },
    {
        if failed && !self.continue_on_error {
            Step::Sleep
        } else {
            assert(finished < self.tasks.len());
            self.step_at(finished + 1)
        }
    }

    /// Ends the current tick. The number of the next one is one more, and
    /// zero after the largest number; tasks and policy stay as they are,
    /// whatever happened in the tick.
    pub fn end_tick(&mut self)
        ensures
            final(self).wf(),
            final(self)@ == (SchedulerView {
                counter: next_counter(old(self)@.counter),
                ..old(self)@
            }),
    {
        proof {
            use_type_invariant(&*self);
        }
        self.counter = self.counter.wrapping_add(1);
    }
}

/// Failures are isolated: a tick runs every task that is due, in order, if
/// the scheduler goes on after an error or if no task fails in this very
/// tick. What failed in an earlier tick has no bearing on it.
pub proof fn lemma_failures_are_isolated(
    tasks: Seq<Task>,
    counter: u16,
    continue_on_error: bool,
    fails: spec_fn(int) -> bool,
)
    requires
        continue_on_error || forall|i: int| !#[trigger] fails(i),
    ensures
        tick_runs(tasks, counter, continue_on_error, fails, 0) == due_tasks(tasks, counter),
{
    lemma_tick_runs_from(tasks, counter, continue_on_error, fails, 0);
    assert(Seq::new(tasks.len(), |i: int| i).skip(0) =~= Seq::new(tasks.len(), |i: int| i));
}

/// From index `from` on, such a tick runs the tasks that are due among those
/// at or after `from`.
proof fn lemma_tick_runs_from(
    tasks: Seq<Task>,
    counter: u16,
    continue_on_error: bool,
    fails: spec_fn(int) -> bool,
    from: int,
)
    requires
        0 <= from <= tasks.len(),
        continue_on_error || forall|i: int| !#[trigger] fails(i),
    ensures
        tick_runs(tasks, counter, continue_on_error, fails, from) == Seq::new(
            tasks.len(),
            |i: int| i,
        ).skip(from).filter(|i: int| 0 <= i < tasks.len() && is_due(tasks[i], counter)),
    decreases tasks.len() - from,
{
    let all = Seq::new(tasks.len(), |i: int| i);
    let due = |i: int| 0 <= i < tasks.len() && is_due(tasks[i], counter);
    lemma_skipped_until_due(tasks, counter, from, from);
    lemma_next_due(tasks, counter, from);
    match next_due(tasks, counter, from) {
        None => {
            lemma_skipped_until_due(tasks, counter, from, tasks.len() as int);
            assert(all.skip(tasks.len() as int) =~= Seq::<int>::empty());
            reveal(Seq::filter);
        },
        Some(index) => {
            lemma_skipped_until_due(tasks, counter, from, index);
            lemma_tick_runs_from(tasks, counter, continue_on_error, fails, index + 1);
            let rest = all.skip(index);
            assert(rest =~= seq![index] + all.skip(index + 1));
            Seq::filter_distributes_over_add(seq![index], all.skip(index + 1), due);
            assert(seq![index].filter(due) =~= seq![index]) by {
                reveal_with_fuel(Seq::filter, 2);
                assert(seq![index].drop_last() =~= Seq::<int>::empty());
            }
        },
    }
}

/// Tasks that are not due do not count: where none of the tasks from `from`
/// up to `to` is due, the due ones from `from` on are those from `to` on.
proof fn lemma_skipped_until_due(tasks: Seq<Task>, counter: u16, from: int, to: int)
    requires
        0 <= from <= to <= tasks.len(),
        forall|i: int| from <= i < to ==> !is_due(#[trigger] tasks[i], counter),
    ensures
        Seq::new(tasks.len(), |i: int| i).skip(from).filter(
            |i: int| 0 <= i < tasks.len() && is_due(tasks[i], counter),
        ) == Seq::new(tasks.len(), |i: int| i).skip(to).filter(
            |i: int| 0 <= i < tasks.len() && is_due(tasks[i], counter),
        ),
    decreases to - from,
{
    let all = Seq::new(tasks.len(), |i: int| i);
    let due = |i: int| 0 <= i < tasks.len() && is_due(tasks[i], counter);
    if from < to {
        lemma_skipped_until_due(tasks, counter, from + 1, to);
        assert(all.skip(from) =~= seq![from] + all.skip(from + 1));
        Seq::filter_distributes_over_add(seq![from], all.skip(from + 1), due);
        assert(seq![from].filter(due) =~= Seq::<int>::empty()) by {
            reveal_with_fuel(Seq::filter, 2);
            assert(seq![from].drop_last() =~= Seq::<int>::empty());
            assert(!is_due(tasks[from], counter));
        }
    }
}

} // verus!
