//! State that the scheduler and sessions share.

use vstd::prelude::*;

verus! {

/// State that the scheduler and sessions share.
#[derive(Debug, Clone, Copy, PartialEq, Eq, Structural)]
pub struct PgStreamSharedState {
    /// Goes up when the dependency graph changes.
    pub dag_version: u64,
    /// The process of the scheduler, zero if it does not run.
    pub scheduler_pid: i32,
    pub scheduler_running: bool,
    /// When the scheduler last woke, in seconds since 1970.
    pub last_scheduler_wake: i64,
}

impl Default for PgStreamSharedState {
    /// The state before the scheduler runs.
    fn default() -> (r: PgStreamSharedState)
        ensures
            r == (PgStreamSharedState {
                dag_version: 0,
                scheduler_pid: 0,
                scheduler_running: false,
                last_scheduler_wake: 0,
            }),
    {
        PgStreamSharedState {
            dag_version: 0,
            scheduler_pid: 0,
            scheduler_running: false,
            last_scheduler_wake: 0,
        }
    }
}

/// The rebuild signal after one more change of the dependency graph.  It goes
/// up by one, modulo 2^64, and stays where there is no shared memory.
pub open spec fn signalled(signal: u64, available: bool) -> u64 {
    if !available {
        signal
    } else if signal == u64::MAX {
        0
    } else {
        (signal + 1) as u64
    }
}

/// The rebuild signal after one more change of the dependency graph.
pub fn signal_dag_rebuild(signal: u64, available: bool) -> (r: u64)
    ensures
        r == signalled(signal, available),
{
    if available {
        signal.wrapping_add(1)
    } else {
        signal
    }
}

/// The version of the dependency graph: the rebuild signal, or zero where
/// there is no shared memory.
pub fn current_dag_version(signal: u64, available: bool) -> (r: u64)
    ensures
        r == if available {
            signal
        } else {
            0
        },
{
    if available {
        signal
    } else {
        0
    }
}

/// A signal is seen: the version differs from what it was.
pub proof fn signal_is_seen(signal: u64)
    ensures
        signalled(signal, true) != signal,
        signalled(signal, false) == signal,
{
}

} // verus!
