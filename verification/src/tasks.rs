//! The periodic tasks of the agent: how long each waits between two runs,
//! and what its loop does next. The loop itself, with its sleeping and its
//! shutdown signal, belongs to the program around this library.

use vstd::prelude::*;

verus! {

/// Seconds between two runs of retention.
pub const MAINTAIN_INTERVAL_SECS: u64 = 1800;

/// What happened last in the loop of a periodic task.
#[derive(Clone, Copy, Debug, PartialEq, Eq, Structural)]
pub enum TaskEvent {
    /// The loop was entered.
    Started,
    /// A run came back, with or without an error.
    RunFinished,
    /// The wait between two runs ran out.
    IntervalElapsed,
    /// Shutdown was signalled during the wait.
    ShutdownSignalled,
}

/// What the loop of a periodic task does next.
#[derive(Clone, Copy, Debug, PartialEq, Eq, Structural)]
pub enum TaskAction {
    /// Run the task once.
    Run,
    /// Wait this many seconds, or until shutdown is signalled.
    Wait(u64),
    /// Leave the loop.
    Stop,
}

/// The step that follows `event` in the loop of a task that waits
/// `interval_secs` seconds between two runs: a run at the start and after
/// every wait, a wait after every run, whether it failed or not, and the end
/// once shutdown was signalled.
pub fn next_action(event: TaskEvent, interval_secs: u64) -> (action: TaskAction)
    ensures
        action == (match event {
            TaskEvent::Started => TaskAction::Run,
            TaskEvent::IntervalElapsed => TaskAction::Run,
            TaskEvent::RunFinished => TaskAction::Wait(interval_secs),
            TaskEvent::ShutdownSignalled => TaskAction::Stop,
        }),
{
    match event {
        TaskEvent::Started | TaskEvent::IntervalElapsed => TaskAction::Run,
        TaskEvent::RunFinished => TaskAction::Wait(interval_secs),
        TaskEvent::ShutdownSignalled => TaskAction::Stop,
    }
}

/// The task that fetches the inventory.
#[derive(Clone, Copy, Debug)]
pub struct FetchInventory {}

/// The task that fetches the system state and takes it into the series.
#[derive(Clone, Copy, Debug)]
pub struct FetchState {}

/// The task that runs retention on the series.
#[derive(Clone, Copy, Debug)]
pub struct MaintainState {}

impl FetchInventory {
    /// Seconds between two runs: the configured interval of inventory
    /// polls.
    pub fn interval_secs(inventory_poll_interval_secs: u32) -> (secs: u64)
        ensures
            secs == inventory_poll_interval_secs,
    {
        inventory_poll_interval_secs as u64
    }
}

impl FetchState {
    /// Seconds between two runs: the configured interval of state polls.
    pub fn interval_secs(poll_interval_secs: u32) -> (secs: u64)
        ensures
            secs == poll_interval_secs,
    {
        poll_interval_secs as u64
    }
}

impl MaintainState {
    /// Seconds between two runs: fixed.
    pub fn interval_secs() -> (secs: u64)
        ensures
            secs == MAINTAIN_INTERVAL_SECS,
    {
        MAINTAIN_INTERVAL_SECS
    }
}

} // verus!
