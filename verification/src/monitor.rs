//! The decisions of the clipboard monitor's start and stop: whether a worker
//! runs, when the previous one is reaped, and what each failure reports.
//! Spawning and joining the worker thread are done by the caller, which feeds
//! their outcome back as events.

use vstd::prelude::*;

verus! {

/// What the monitor knows: whether watching is switched on, and whether it
/// holds a worker thread that has not been joined.
#[derive(Clone, Copy, PartialEq, Eq, Structural, Debug)]
pub struct MonitorState {
    pub running: bool,
    pub has_worker: bool,
}

/// Something that happened to the monitor.
#[derive(Debug)]
pub enum MonitorEvent {
    /// `start` was called; `slot_available` tells whether the worker slot
    /// could be locked.
    StartRequested { slot_available: bool },
    /// `stop` was called; `slot_available` tells whether the worker slot
    /// could be locked.
    StopRequested { slot_available: bool },
    /// The worker left from an earlier start was joined.
    PreviousWorkerJoined { panicked: bool },
    /// A new worker was spawned, or spawning it failed with this message.
    WorkerSpawned { error: Option<String> },
    /// The running worker was joined after a stop.
    WorkerJoined { panicked: bool },
}

/// Why a start or a stop failed.
#[derive(Debug)]
pub enum MonitorError {
    /// The worker slot could not be locked.
    SlotUnavailable,
    /// The worker left from an earlier start had panicked.
    PreviousWorkerPanicked,
    /// The worker thread could not be spawned; the text says why.
    SpawnFailed(String),
    /// The stopped worker had panicked.
    WorkerPanicked,
}

/// What the caller does next.
#[derive(Debug)]
pub enum MonitorAction {
    /// Return this from `start` or `stop`.
    Finish(Result<(), MonitorError>),
    /// Join the worker left from an earlier start and report how it ended.
    JoinPreviousWorker,
    /// Spawn a new worker and report whether that succeeded.
    SpawnWorker,
    /// Join the worker that was stopped and report how it ended.
    JoinWorker,
}

/// Whether watching is on after `event`: a start (with the slot locked)
/// switches it on, a stop switches it off, a panicked earlier worker or a
/// failed spawn switches it off, and nothing else changes it.
pub open spec fn running_after(state: MonitorState, event: MonitorEvent) -> bool {
    match event {
        MonitorEvent::StartRequested { slot_available } => slot_available || state.running,
        MonitorEvent::StopRequested { .. } => false,
        MonitorEvent::PreviousWorkerJoined { panicked } => state.running && !panicked,
        MonitorEvent::WorkerSpawned { error } => state.running && error is None,
        MonitorEvent::WorkerJoined { .. } => state.running,
    }
}

/// Whether the monitor holds an unjoined worker after `event`: a start on a
/// stopped monitor and a stop (with the slot locked) take the worker out to
/// join it, a spawn puts the new one in, and nothing else changes it.
pub open spec fn worker_after(state: MonitorState, event: MonitorEvent) -> bool {
    match event {
        MonitorEvent::StartRequested { slot_available } => state.has_worker && !(slot_available
            && !state.running),
        MonitorEvent::StopRequested { slot_available } => state.has_worker && !slot_available,
        MonitorEvent::PreviousWorkerJoined { .. } => state.has_worker,
        MonitorEvent::WorkerSpawned { error } => state.has_worker || error is None,
        MonitorEvent::WorkerJoined { .. } => state.has_worker,
    }
}

/// What the caller does after `event`: an unlockable slot fails the call; a
/// start while running succeeds at once; a start otherwise reaps the earlier
/// worker, if any, and then spawns; a stop joins the worker, if any; a
/// panicked worker or a failed spawn fails the call with its reason.
pub open spec fn action_after(state: MonitorState, event: MonitorEvent) -> MonitorAction {
    match event {
        MonitorEvent::StartRequested { slot_available } => if !slot_available {
            MonitorAction::Finish(Err(MonitorError::SlotUnavailable))
        } else if state.running {
            MonitorAction::Finish(Ok(()))
        } else if state.has_worker {
            MonitorAction::JoinPreviousWorker
        } else {
            MonitorAction::SpawnWorker
        },
        MonitorEvent::StopRequested { slot_available } => if !slot_available {
            MonitorAction::Finish(Err(MonitorError::SlotUnavailable))
        } else if state.has_worker {
            MonitorAction::JoinWorker
        } else {
            MonitorAction::Finish(Ok(()))
        },
        MonitorEvent::PreviousWorkerJoined { panicked } => if panicked {
            MonitorAction::Finish(Err(MonitorError::PreviousWorkerPanicked))
        } else {
            MonitorAction::SpawnWorker
        },
        MonitorEvent::WorkerSpawned { error } => match error {
            Some(reason) => MonitorAction::Finish(Err(MonitorError::SpawnFailed(reason))),
            None => MonitorAction::Finish(Ok(())),
        },
        MonitorEvent::WorkerJoined { panicked } => if panicked {
            MonitorAction::Finish(Err(MonitorError::WorkerPanicked))
        } else {
            MonitorAction::Finish(Ok(()))
        },
    }
}

/// The monitor's next state and action when `event` happens in `state`.
pub open spec fn monitor_transition(state: MonitorState, event: MonitorEvent) -> (
    MonitorState,
    MonitorAction,
) {
    (
        MonitorState {
            running: running_after(state, event),
            has_worker: worker_after(state, event),
        },
        action_after(state, event),
    )
}

/// The text of a monitor error, as reported to the user.
pub open spec fn monitor_error_text(error: MonitorError) -> Seq<char> {
    match error {
        MonitorError::SlotUnavailable => "clipboard worker state is unavailable"@,
        MonitorError::PreviousWorkerPanicked => "previous clipboard worker panicked"@,
        MonitorError::SpawnFailed(reason) => "could not start clipboard worker: "@ + reason@,
        MonitorError::WorkerPanicked => "clipboard worker panicked"@,
    }
}

impl MonitorError {
    /// The error as text.
    pub fn message(&self) -> (text: String)
        ensures
            text@ == monitor_error_text(*self),
    {
        match self {
            MonitorError::SlotUnavailable => String::from_str("clipboard worker state is unavailable"),
            MonitorError::PreviousWorkerPanicked => String::from_str(
                "previous clipboard worker panicked",
            ),
            MonitorError::SpawnFailed(reason) => {
                let mut text = String::from_str("could not start clipboard worker: ");
                text.append(reason.as_str());
                text
            },
            MonitorError::WorkerPanicked => String::from_str("clipboard worker panicked"),
        }
    }
}

/// Decides the monitor's next state and action when `event` happens in
/// `state`: a start while running does nothing; a start reaps a worker left
/// from an earlier start before spawning a new one; a failed reap or spawn
/// switches watching off; a stop switches watching off and joins the worker.
pub fn monitor_step(state: MonitorState, event: MonitorEvent) -> (next: (MonitorState, MonitorAction))
    ensures
        next == monitor_transition(state, event),
{
    match event {
        MonitorEvent::StartRequested { slot_available } => if !slot_available {
            (state, MonitorAction::Finish(Err(MonitorError::SlotUnavailable)))
        } else if state.running {
            (state, MonitorAction::Finish(Ok(())))
        } else if state.has_worker {
            (MonitorState { running: true, has_worker: false }, MonitorAction::JoinPreviousWorker)
        } else {
            (MonitorState { running: true, has_worker: false }, MonitorAction::SpawnWorker)
        },
        MonitorEvent::PreviousWorkerJoined { panicked } => if panicked {
            (
                MonitorState { running: false, has_worker: state.has_worker },
                MonitorAction::Finish(Err(MonitorError::PreviousWorkerPanicked)),
            )
        } else {
            (state, MonitorAction::SpawnWorker)
        },
        MonitorEvent::WorkerSpawned { error } => match error {
            Some(message) => (
                MonitorState { running: false, has_worker: state.has_worker },
                MonitorAction::Finish(Err(MonitorError::SpawnFailed(message))),
            ),
            None => (
                MonitorState { running: state.running, has_worker: true },
                MonitorAction::Finish(Ok(())),
            ),
        },
        MonitorEvent::StopRequested { slot_available } => if !slot_available {
            (
                MonitorState { running: false, has_worker: state.has_worker },
                MonitorAction::Finish(Err(MonitorError::SlotUnavailable)),
            )
        } else if state.has_worker {
            (MonitorState { running: false, has_worker: false }, MonitorAction::JoinWorker)
        } else {
            (MonitorState { running: false, has_worker: false }, MonitorAction::Finish(Ok(())))
        },
        MonitorEvent::WorkerJoined { panicked } => if panicked {
            (state, MonitorAction::Finish(Err(MonitorError::WorkerPanicked)))
        } else {
            (state, MonitorAction::Finish(Ok(())))
        },
    }
}

/// Starting a monitor that is already running changes nothing and succeeds.
pub proof fn lemma_start_while_running_is_noop(state: MonitorState)
    requires
        state.running,
    ensures
        monitor_transition(state, MonitorEvent::StartRequested { slot_available: true }) == (
            state,
            MonitorAction::Finish(Ok(())),
        ),
{
}

/// A stop switches watching off at once, and once the worker (if any) has been
/// joined the monitor holds no worker, whether or not the worker panicked.
pub proof fn lemma_stop_leaves_monitor_idle(state: MonitorState, panicked: bool)
    ensures
        ({
            let (stopped, action) = monitor_transition(
                state,
                MonitorEvent::StopRequested { slot_available: true },
            );
            &&& stopped == (MonitorState { running: false, has_worker: false })
            &&& (action is JoinWorker) == state.has_worker
            &&& monitor_transition(stopped, MonitorEvent::WorkerJoined { panicked }).0 == stopped
        }),
{
}

/// A start that fails after switching watching on, because the earlier worker
/// panicked or a new one could not be spawned, switches watching off again.
pub proof fn lemma_failed_start_switches_off(state: MonitorState, event: MonitorEvent)
    requires
        event matches MonitorEvent::PreviousWorkerJoined { panicked } ==> panicked,
        event matches MonitorEvent::WorkerSpawned { error } ==> error is Some,
        event is PreviousWorkerJoined || event is WorkerSpawned,
    ensures
        !monitor_transition(state, event).0.running,
        monitor_transition(state, event).1 matches MonitorAction::Finish(Err(_)),
{
}

/// Starting a monitor that is not running, when the earlier worker (if any)
/// ended cleanly and the new one spawns, leaves it running with a worker.
pub proof fn lemma_successful_start_runs(state: MonitorState)
    requires
        !state.running,
    ensures
        ({
            let (started, action) = monitor_transition(
                state,
                MonitorEvent::StartRequested { slot_available: true },
            );
            let (reaped, next) = if action is JoinPreviousWorker {
                monitor_transition(started, MonitorEvent::PreviousWorkerJoined { panicked: false })
            } else {
                (started, action)
            };
            &&& next is SpawnWorker
            &&& monitor_transition(reaped, MonitorEvent::WorkerSpawned { error: None }) == (
                MonitorState { running: true, has_worker: true },
                MonitorAction::Finish(Ok(())),
            )
        }),
{
}

} // verus!
