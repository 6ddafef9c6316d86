//! The polling loops: one per source, each on its own fixed cadence.
//!
//! Running a task and sleeping are the caller's work. The library decides
//! what follows each event of a loop: after a run, whatever its outcome, the
//! loop sleeps for exactly its interval; after the sleep it runs again. A
//! failure is recorded and changes nothing else, in its own loop or in any
//! other.
use vstd::prelude::*;
use vstd::string::*;

use crate::models::AppConfig;

verus! {

/// What happened in one loop.
#[derive(Debug)]
pub enum TaskEvent {
    /// The loop has been started.
    Started,
    /// The task ran and succeeded.
    Succeeded,
    /// The task ran and returned an error; the text describes it.
    Failed(String),
    /// The task ran and panicked; the text describes the fault.
    Panicked(String),
    /// The sleep between two runs is over.
    Woke,
}

/// What a loop does next.
#[derive(Clone, Copy, Debug, PartialEq, Eq, Structural)]
pub enum TaskAction {
    /// Run the task once.
    Run,
    /// Sleep for this many seconds.
    Sleep(u64),
}

/// One registered loop and what it has recorded.
#[derive(Debug)]
pub struct SourceTask {
    pub source: String,
    /// Seconds to sleep between two runs.
    pub interval: u64,
    /// Runs finished; the count stops at the largest number.
    pub runs: u64,
    /// Runs that failed or panicked; the count stops at the largest number.
    pub failures: u64,
    /// What the last failed run reported.
    pub last_error: Option<String>,
}

pub struct SourceTaskView {
    pub source: Seq<char>,
    pub interval: u64,
    pub runs: u64,
    pub failures: u64,
    pub last_error: Option<Seq<char>>,
}

impl View for SourceTask {
    type V = SourceTaskView;

    open spec fn view(&self) -> SourceTaskView {
        SourceTaskView {
            source: self.source@,
            interval: self.interval,
            runs: self.runs,
            failures: self.failures,
            last_error: crate::text::opt_text(self.last_error),
        }
    }
}

/// One more, up to the largest number.
pub open spec fn bumped(n: u64) -> u64 {
    if n < u64::MAX {
        (n + 1) as u64
    } else {
        n
    }
}

/// What a failed run reported, if the event is one.
pub open spec fn fault_of(event: TaskEvent) -> Option<Seq<char>> {
    match event {
        TaskEvent::Failed(e) => Some(e@),
        TaskEvent::Panicked(e) => Some(e@),
        _ => None,
    }
}

/// Whether the event ends a run.
pub open spec fn ends_run(event: TaskEvent) -> bool {
    event is Succeeded || event is Failed || event is Panicked
}

/// What a loop does after an event: it sleeps for its interval after a run,
/// whatever the outcome, and runs otherwise.
pub open spec fn action_after(task: SourceTaskView, event: TaskEvent) -> TaskAction {
    if ends_run(event) {
        TaskAction::Sleep(task.interval)
    } else {
        TaskAction::Run
    }
}

/// What a loop has recorded after an event. Source and interval never
/// change; a finished run is counted; a failed run is counted as such and its
/// report kept.
pub open spec fn task_after(task: SourceTaskView, event: TaskEvent) -> SourceTaskView {
    SourceTaskView {
        source: task.source,
        interval: task.interval,
        runs: if ends_run(event) {
            bumped(task.runs)
        } else {
            task.runs
        },
        failures: if fault_of(event) is Some {
            bumped(task.failures)
        } else {
            task.failures
        },
        last_error: if fault_of(event) is Some {
            fault_of(event)
        } else {
            task.last_error
        },
    }
}

/// The names and intervals of the loops that the service runs, in the order
/// in which they are started.
pub open spec fn standard_sources(config: AppConfig) -> Seq<(Seq<char>, u64)> {
    seq![
        ("osdr"@, config.every_osdr),
        ("iss"@, config.every_iss),
        ("apod"@, config.every_apod),
        ("neo"@, config.every_neo),
        ("donki"@, config.every_donki),
        ("spacex"@, config.every_spacex),
    ]
}

/// A loop as it is registered: nothing run, nothing recorded.
pub open spec fn registered(source: Seq<char>, interval: u64) -> SourceTaskView {
    SourceTaskView { source, interval, runs: 0, failures: 0, last_error: None }
}

/// What a loop has recorded after a run of events, in order.
pub open spec fn task_after_all(task: SourceTaskView, events: Seq<TaskEvent>) -> SourceTaskView
    decreases events.len(),
{
    if events.len() == 0 {
        task
    } else {
        task_after(task_after_all(task, events.drop_last()), events.last())
    }
}

/// The cadence of a loop is fixed. Whatever has happened in the loop, and
/// however often it has failed, its source and its interval are the ones it
/// was registered with, and the next event is answered as the first one
/// would have been: a finished run by a sleep of exactly the interval,
/// anything else by a run.
pub proof fn law_cadence_is_fixed(task: SourceTaskView, events: Seq<TaskEvent>, next: TaskEvent)
    ensures
        task_after_all(task, events).source == task.source,
        task_after_all(task, events).interval == task.interval,
        action_after(task_after_all(task, events), next) == action_after(task, next),
        ends_run(next) ==> action_after(task_after_all(task, events), next) == TaskAction::Sleep(
            task.interval,
        ),
    decreases events.len(),
{
    if events.len() > 0 {
        law_cadence_is_fixed(task, events.drop_last(), next);
    }
}

/// The loops are independent. An event of one loop leaves every other loop
/// as it was.
pub proof fn law_loops_are_independent(
    tasks: Seq<SourceTaskView>,
    handle: int,
    event: TaskEvent,
    other: int,
)
    requires
        0 <= handle < tasks.len(),
        0 <= other < tasks.len(),
        other != handle,
    ensures
        tasks.update(handle, task_after(tasks[handle], event))[other] == tasks[other],
{
}

fn bump(n: u64) -> (r: u64)
    ensures
        r == bumped(n),
{
    if n < u64::MAX {
        n + 1
    } else {
        n
    }
}

impl SourceTask {
    /// Takes an event of this loop: records it and says what the loop does
    /// next.
    pub fn on_event(&mut self, event: TaskEvent) -> (action: TaskAction)
        ensures
            action == action_after(old(self)@, event),
            final(self)@ == task_after(old(self)@, event),
    {
        match event {
            TaskEvent::Started => TaskAction::Run,
            TaskEvent::Woke => TaskAction::Run,
            TaskEvent::Succeeded => {
                self.runs = bump(self.runs);
                TaskAction::Sleep(self.interval)
            },
            TaskEvent::Failed(e) => {
                self.runs = bump(self.runs);
                self.failures = bump(self.failures);
                self.last_error = Some(e);
                TaskAction::Sleep(self.interval)
            },
            TaskEvent::Panicked(e) => {
                self.runs = bump(self.runs);
                self.failures = bump(self.failures);
                self.last_error = Some(e);
                TaskAction::Sleep(self.interval)
            },
        }
    }
}

/// The registered loops.
pub struct Scheduler {
    tasks: Vec<SourceTask>,
}

impl View for Scheduler {
    type V = Seq<SourceTaskView>;

    closed spec fn view(&self) -> Seq<SourceTaskView> {
        self.tasks@.map_values(|t: SourceTask| t@)
    }
}

impl Scheduler {
    /// A scheduler without loops.
    pub fn new() -> (r: Scheduler)
        ensures
            r@ == Seq::<SourceTaskView>::empty(),
    {
        let r = Scheduler { tasks: Vec::new() };
        assert(r@ =~= Seq::empty());
        r
    }

    /// Registers a loop for a source and returns its handle. The loops
    /// already there stay as they are.
    pub fn register(&mut self, source: &str, interval: u64) -> (handle: usize)
        ensures
            handle == old(self)@.len(),
            final(self)@ == old(self)@.push(registered(source@, interval)),
    {
        let handle = self.tasks.len();
        self.tasks.push(
            SourceTask {
                source: String::from_str(source),
                interval,
                runs: 0,
                failures: 0,
                last_error: None,
            },
        );
        assert(self@ =~= old(self)@.push(registered(source@, interval)));
        handle
    }

    /// The number of loops.
    pub fn len(&self) -> (r: usize)
        ensures
            r == self@.len(),
    {
        self.tasks.len()
    }

    /// The interval of a loop, in seconds.
    pub fn interval(&self, handle: usize) -> (r: Option<u64>)
        ensures
            r == if handle < self@.len() {
                Some(self@[handle as int].interval)
            } else {
                None
            },
    {
        if handle < self.tasks.len() {
            assert(self@[handle as int] == self.tasks@[handle as int]@);
            Some(self.tasks[handle].interval)
        } else {
            None
        }
    }

    /// The number of failed runs that a loop has recorded.
    pub fn failures(&self, handle: usize) -> (r: Option<u64>)
        ensures
            r == if handle < self@.len() {
                Some(self@[handle as int].failures)
            } else {
                None
            },
    {
        if handle < self.tasks.len() {
            assert(self@[handle as int] == self.tasks@[handle as int]@);
            Some(self.tasks[handle].failures)
        } else {
            None
        }
    }

    /// Takes an event of one loop. That loop records it and is told what to
    /// do next; every other loop stays as it is. A handle that names no loop
    /// changes nothing and gives no action.
    pub fn on_event(&mut self, handle: usize, event: TaskEvent) -> (action: Option<TaskAction>)
        ensures
            handle < old(self)@.len() ==> action == Some(
                action_after(old(self)@[handle as int], event),
            ) && final(self)@ == old(self)@.update(
                handle as int,
                task_after(old(self)@[handle as int], event),
            ),
            handle >= old(self)@.len() ==> action is None && final(self)@ == old(self)@,
    {
        if handle >= self.tasks.len() {
            return None;
        }
        assert(self@[handle as int] == self.tasks@[handle as int]@);
        let action = self.tasks[handle].on_event(event);
        assert(self@ =~= old(self)@.update(
            handle as int,
            task_after(old(self)@[handle as int], event),
        ));
        Some(action)
    }
}

/// The scheduler of the service: one loop per source, each with the interval
/// that the settings give it.
pub fn spawn_background_tasks(config: &AppConfig) -> (r: Scheduler)
    ensures
        r@.len() == 6,
        forall|i: int|
            0 <= i < 6 ==> #[trigger] r@[i] == registered(
                standard_sources(*config)[i].0,
                standard_sources(*config)[i].1,
            ),
{
    let mut s = Scheduler::new();
    s.register("osdr", config.every_osdr);
    s.register("iss", config.every_iss);
    s.register("apod", config.every_apod);
    s.register("neo", config.every_neo);
    s.register("donki", config.every_donki);
    s.register("spacex", config.every_spacex);
    s
}

} // verus!
