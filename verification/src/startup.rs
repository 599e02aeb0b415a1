//! Starting with the user's session: a scheduled task replaces the older
//! registry entries. The program runs the system tools; this module decides
//! what to run and reads their outcome.
use vstd::prelude::*;

verus! {

/// A step of changing whether the program starts with the session.
#[derive(Clone, Copy, Debug, PartialEq, Eq, Structural)]
pub enum StartupStep {
    /// Remove the legacy "Run" registry values.
    RemoveLegacyRunEntries,
    /// Register the logon task.
    RegisterTask,
    /// Delete the logon task.
    DeleteTask,
}

/// The steps that turn starting with the session on or off: the legacy
/// entries are always removed first, then the task is registered or deleted.
pub fn set_enabled(enabled: bool) -> (steps: Vec<StartupStep>)
    ensures
        steps@ == seq![
            StartupStep::RemoveLegacyRunEntries,
            if enabled { StartupStep::RegisterTask } else { StartupStep::DeleteTask },
        ],
{
    let mut steps: Vec<StartupStep> = Vec::new();
    steps.push(StartupStep::RemoveLegacyRunEntries);
    steps.push(if enabled { StartupStep::RegisterTask } else { StartupStep::DeleteTask });
    steps
}

/// Whether the task is registered, from the exit code of querying it (none
/// when the query was ended by a signal): a query that succeeds finds it.
pub fn is_enabled(query_exit_code: Option<i32>) -> (enabled: bool)
    ensures
        enabled == (query_exit_code == Some(0i32)),
{
    match query_exit_code {
        Some(code) => code == 0,
        None => false,
    }
}

/// Whether deleting the task achieved its end: the deletion succeeded, or
/// the task is not registered (anymore) anyway.
pub fn task_removed(delete_succeeded: bool, still_registered: bool) -> (removed: bool)
    ensures
        removed == (delete_succeeded || !still_registered),
{
    delete_succeeded || !still_registered
}

} // verus!
