//! Supervision state and decisions: the three task-liveness flags, how a
//! finished task's outcome is classified, and when a shutdown poll may
//! stop waiting.
//!
//! The embedding process spawns the tasks, waits on their handles, and
//! sleeps between polls; every decision it acts on is taken here.

use vstd::prelude::*;

use crate::errors::TaskError;
use crate::text::str_eq;

verus! {

/// How often the supervisor re-reads the task flags while shutting down.
pub const SHUTDOWN_CHECK_INTERVAL_MS: u64 = 100;

/// How long tasks get to quiesce after the shutdown signal.
pub const SHUTDOWN_TIMEOUT_MS: u64 = 5000;

/// The number of long-running tasks the supervisor runs.
pub const MAX_CONCURRENT_TASKS: usize = 3;

/// The liveness flags of the three long-running tasks.  All false means
/// it is safe to terminate.
#[derive(Debug, Clone, Copy, PartialEq, Eq, Structural)]
pub struct TaskState {
    pub reader_active: bool,
    pub writer_active: bool,
    pub analysis_active: bool,
}

impl TaskState {
    pub fn new() -> (r: TaskState)
        ensures
            r.reader_active == false,
            r.writer_active == false,
            r.analysis_active == false,
    {
        TaskState { reader_active: false, writer_active: false, analysis_active: false }
    }

    /// True exactly when every task has cleared its flag.
    pub fn is_all_inactive(&self) -> (r: bool)
        ensures
            r == (!self.reader_active && !self.writer_active && !self.analysis_active),
    {
        !self.reader_active && !self.writer_active && !self.analysis_active
    }

    /// Sets the named task's flag; an unknown name changes nothing and
    /// is an error.
    pub fn set_task(&mut self, task_name: &str, active: bool) -> (r: Result<(), TaskError>)
        ensures
            task_name@ == "reader"@ ==> (r is Ok && *final(self) == (TaskState {
                reader_active: active,
                ..*old(self)
            })),
            task_name@ == "writer"@ ==> (r is Ok && *final(self) == (TaskState {
                writer_active: active,
                ..*old(self)
            })),
            task_name@ == "analysis"@ ==> (r is Ok && *final(self) == (TaskState {
                analysis_active: active,
                ..*old(self)
            })),
            (task_name@ != "reader"@ && task_name@ != "writer"@ && task_name@ != "analysis"@)
                ==> ((r matches Err(e) && e is StateUpdateError) && *final(self) == *old(self)),
    {
        proof {
            reveal_strlit("reader");
            reveal_strlit("writer");
            reveal_strlit("analysis");
            assert("reader"@.len() == 6);
            assert("writer"@.len() == 6);
            assert("analysis"@.len() == 8);
            assert("reader"@[0] == 'r');
            assert("writer"@[0] == 'w');
        }
        if str_eq(task_name, "reader") {
            self.reader_active = active;
            Ok(())
        } else if str_eq(task_name, "writer") {
            self.writer_active = active;
            Ok(())
        } else if str_eq(task_name, "analysis") {
            self.analysis_active = active;
            Ok(())
        } else {
            Err(TaskError::StateUpdateError(String::new()))
        }
    }
}

/// How a supervised task ended, as the join reports it.
pub enum TaskOutcome {
    Completed,
    Failed(String),
    Panicked(String),
}

/// What the shutdown poll does next.
#[derive(Debug, Clone, Copy, PartialEq, Eq, Structural)]
pub enum ShutdownDecision {
    CleanExit,
    KeepWaiting,
    TimedOut,
}

/// Classifies a finished task: a clean completion is fine, an error or
/// a panic is fatal to the supervisor.
pub fn handle_task_result(outcome: TaskOutcome) -> (r: Result<(), TaskError>)
    ensures
        outcome is Completed ==> r is Ok,
        outcome is Failed ==> (r matches Err(e) && e is ExecutionError),
        outcome is Panicked ==> (r matches Err(e) && e is PanicError),
{
    match outcome {
        TaskOutcome::Completed => Ok(()),
        TaskOutcome::Failed(message) => Err(TaskError::ExecutionError(message)),
        TaskOutcome::Panicked(message) => Err(TaskError::PanicError(message)),
    }
}

/// One step of the shutdown wait: exit cleanly once every flag is
/// clear, give up after the timeout, keep polling otherwise.
pub fn shutdown_decision(state: &TaskState, elapsed_ms: u64, timeout_ms: u64) -> (r:
    ShutdownDecision)
    ensures
        (!state.reader_active && !state.writer_active && !state.analysis_active) ==> r
            == ShutdownDecision::CleanExit,
        ((state.reader_active || state.writer_active || state.analysis_active) && elapsed_ms
            >= timeout_ms) ==> r == ShutdownDecision::TimedOut,
        ((state.reader_active || state.writer_active || state.analysis_active) && elapsed_ms
            < timeout_ms) ==> r == ShutdownDecision::KeepWaiting,
{
    if state.is_all_inactive() {
        ShutdownDecision::CleanExit
    } else if elapsed_ms >= timeout_ms {
        ShutdownDecision::TimedOut
    } else {
        ShutdownDecision::KeepWaiting
    }
}

} // verus!
