//! The recording task as the operate window drives it: the start button
//! starts or pauses recording and begins a task, the stop button ends it.
use vstd::prelude::*;

verus! {

/// Whether devices are being recorded and whether a task is under way.
#[derive(Clone, Copy, Debug, PartialEq, Eq, Structural)]
pub struct TaskState {
    pub monitoring: bool,
    pub task_running: bool,
}

/// A click on the operate window.
#[derive(Clone, Copy, Debug, PartialEq, Eq, Structural)]
pub enum TaskEvent {
    StartClicked,
    StopClicked,
}

/// The icon the start button shows.
#[derive(Clone, Copy, Debug, PartialEq, Eq, Structural)]
pub enum StartIcon {
    Start,
    Pause,
}

/// What the window does after a click.
#[derive(Clone, Copy, Debug, PartialEq, Eq, Structural)]
pub struct TaskActions {
    /// Start the thread that records the devices.
    pub spawn_monitor: bool,
    /// Note now as the task's start and clear its end.
    pub mark_task_start: bool,
    /// Note now as the task's end.
    pub mark_task_end: bool,
    /// The icon the start button shows next.
    pub start_icon: StartIcon,
    /// Whether the stop button becomes usable or unusable; `None` leaves it.
    pub stop_sensitive: Option<bool>,
    /// Whether the view and analyse buttons are usable.
    pub results_sensitive: bool,
}

/// The next state and the actions of a click.
pub open spec fn task_next(state: TaskState, event: TaskEvent) -> (TaskState, TaskActions) {
    match event {
        TaskEvent::StartClicked => {
            let monitoring = !state.monitoring;
            (
                TaskState { monitoring, task_running: true },
                TaskActions {
                    spawn_monitor: monitoring,
                    mark_task_start: !state.task_running,
                    mark_task_end: false,
                    start_icon: if monitoring {
                        StartIcon::Pause
                    } else {
                        StartIcon::Start
                    },
                    stop_sensitive: if monitoring {
                        Some(true)
                    } else {
                        None
                    },
                    results_sensitive: false,
                },
            )
        },
        TaskEvent::StopClicked => (
            if state.task_running {
                TaskState { monitoring: false, task_running: false }
            } else {
                state
            },
            TaskActions {
                spawn_monitor: false,
                mark_task_start: false,
                mark_task_end: state.task_running,
                start_icon: StartIcon::Start,
                stop_sensitive: Some(false),
                results_sensitive: true,
            },
        ),
    }
}

impl TaskState {
    /// Nothing recorded, no task.
    pub fn new() -> (s: Self)
        ensures
            s == (TaskState { monitoring: false, task_running: false }),
    {
        TaskState { monitoring: false, task_running: false }
    }

    /// Takes a click and returns what the window does.
    pub fn step(&mut self, event: TaskEvent) -> (actions: TaskActions)
        ensures
            (*final(self), actions) == task_next(*old(self), event),
    {
        match event {
            TaskEvent::StartClicked => {
                let monitoring = !self.monitoring;
                let mark_task_start = !self.task_running;
                self.monitoring = monitoring;
                self.task_running = true;
                TaskActions {
                    spawn_monitor: monitoring,
                    mark_task_start,
                    mark_task_end: false,
                    start_icon: if monitoring {
                        StartIcon::Pause
                    } else {
                        StartIcon::Start
                    },
                    stop_sensitive: if monitoring {
                        Some(true)
                    } else {
                        None
                    },
                    results_sensitive: false,
                }
            },
            TaskEvent::StopClicked => {
                let was_running = self.task_running;
                if was_running {
                    self.monitoring = false;
                    self.task_running = false;
                }
                TaskActions {
                    spawn_monitor: false,
                    mark_task_start: false,
                    mark_task_end: was_running,
                    start_icon: StartIcon::Start,
                    stop_sensitive: Some(false),
                    results_sensitive: true,
                }
            },
        }
    }
}

/// Recording only happens within a task: every click keeps "recording
/// implies a task under way", and a monitor thread is started only when
/// recording begins.
pub proof fn lemma_recording_within_task(state: TaskState, event: TaskEvent)
    requires
        state.monitoring ==> state.task_running,
    ensures
        task_next(state, event).0.monitoring ==> task_next(state, event).0.task_running,
        task_next(state, event).1.spawn_monitor ==> !state.monitoring
            && task_next(state, event).0.monitoring,
{
}

/// A stop click after a task was begun ends it: the end is noted once,
/// recording stops, and the results become available.
pub proof fn lemma_stop_ends_task(state: TaskState)
    requires
        state.task_running,
    ensures
        task_next(state, TaskEvent::StopClicked).0 == (TaskState {
            monitoring: false,
            task_running: false,
        }),
        task_next(state, TaskEvent::StopClicked).1.mark_task_end,
        task_next(state, TaskEvent::StopClicked).1.results_sensitive,
        !task_next(task_next(state, TaskEvent::StopClicked).0, TaskEvent::StopClicked).1.mark_task_end,
{
}

/// The operate window as the task rules see it: the task state, the instants
/// noted as the task's start and end, and whether the stop button and the
/// view and analyse buttons can be clicked.
pub struct TaskWindow {
    pub task: TaskState,
    pub started: Option<int>,
    pub ended: Option<int>,
    pub stop_usable: bool,
    pub results_usable: bool,
}

/// The window as it opens: nothing recorded, no task, only start usable.
pub open spec fn opened_window() -> TaskWindow {
    TaskWindow {
        task: TaskState { monitoring: false, task_running: false },
        started: None,
        ended: None,
        stop_usable: false,
        results_usable: false,
    }
}

/// Whether a click reaches the window: the start button is always usable,
/// the stop button only when it has been made so.
pub open spec fn click_reaches(w: TaskWindow, event: TaskEvent) -> bool {
    match event {
        TaskEvent::StartClicked => true,
        TaskEvent::StopClicked => w.stop_usable,
    }
}

/// The window after a click at instant `now`, the actions of the step
/// carried out.
pub open spec fn after_click(w: TaskWindow, event: TaskEvent, now: int) -> TaskWindow {
    let (task, a) = task_next(w.task, event);
    TaskWindow {
        task,
        started: if a.mark_task_start {
            Some(now)
        } else {
            w.started
        },
        ended: if a.mark_task_start {
            None
        } else if a.mark_task_end {
            Some(now)
        } else {
            w.ended
        },
        stop_usable: match a.stop_sensitive {
            Some(b) => b,
            None => w.stop_usable,
        },
        results_usable: a.results_sensitive,
    }
}

/// The window after a run of clicks, each with its instant; a click on an
/// unusable button does nothing.
pub open spec fn after_clicks(w: TaskWindow, clicks: Seq<(TaskEvent, int)>) -> TaskWindow
    decreases clicks.len(),
{
    if clicks.len() == 0 {
        w
    } else {
        let before = after_clicks(w, clicks.drop_last());
        let (event, now) = clicks.last();
        if click_reaches(before, event) {
            after_click(before, event, now)
        } else {
            before
        }
    }
}

/// What the window keeps: recording only within a task; a running task has
/// a start and no end; stop is usable only while a task runs; the results
/// are usable only for a finished task, which started no later than it
/// ended.
pub open spec fn window_consistent(w: TaskWindow) -> bool {
    &&& w.task.monitoring ==> w.task.task_running
    &&& w.task.task_running ==> w.started is Some && w.ended is None
    &&& w.stop_usable ==> w.task.task_running
    &&& w.results_usable ==> !w.task.task_running && w.started is Some && w.ended is Some
        && w.started->0 <= w.ended->0
}

/// Whether the instants the window has noted are no later than `t`.
pub open spec fn noted_by(w: TaskWindow, t: int) -> bool {
    &&& (w.started matches Some(s) ==> s <= t)
    &&& (w.ended matches Some(e) ==> e <= t)
}

proof fn lemma_clicks_keep_window(clicks: Seq<(TaskEvent, int)>)
    requires
        forall|i: int, j: int| 0 <= i <= j < clicks.len() ==> clicks[i].1 <= clicks[j].1,
    ensures
        window_consistent(after_clicks(opened_window(), clicks)),
        clicks.len() > 0 ==> noted_by(after_clicks(opened_window(), clicks), clicks.last().1),
    decreases clicks.len(),
{
    if clicks.len() > 0 {
        let rest = clicks.drop_last();
        assert forall|i: int, j: int| 0 <= i <= j < rest.len() implies rest[i].1 <= rest[j].1 by {
            assert(rest[i] == clicks[i]);
            assert(rest[j] == clicks[j]);
        }
        lemma_clicks_keep_window(rest);
        if rest.len() > 0 {
            assert(rest.last() == clicks[rest.len() - 1]);
        }
    }
}

/// The operate window stays consistent under any run of clicks at
/// nondecreasing instants from the moment it opens: recording happens only
/// within a task, a running task has a start and no end, stop is usable
/// only while a task runs, and the view and analyse buttons are usable only
/// for a finished task that started no later than it ended.
pub proof fn lemma_operate_window_consistent(clicks: Seq<(TaskEvent, int)>)
    requires
        forall|i: int, j: int| 0 <= i <= j < clicks.len() ==> clicks[i].1 <= clicks[j].1,
    ensures
        window_consistent(after_clicks(opened_window(), clicks)),
{
    lemma_clicks_keep_window(clicks);
}

} // verus!
