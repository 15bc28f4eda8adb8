//! The lock that keeps two ipak processes from changing the packages of one
//! scope at the same time, and the file of tasks left for later.
use crate::paths::{global, local, path_join};
use vstd::prelude::*;

verus! {

/// How long a lock is held at most, in milliseconds: an older lock is stale,
/// and a process gives up waiting for a lock after this long.
pub const LOCK_TIMEOUT_MILLIS: u128 = 60000;

/// The lock file and the task file of one scope.
#[derive(Debug)]
pub struct LockManager {
    lock_path: String,
    tasks_path: String,
}

impl LockManager {
    /// The path of the lock file.
    pub closed spec fn lock_file(&self) -> Seq<char> {
        self.lock_path@
    }

    /// The path of the task file.
    pub closed spec fn tasks_file(&self) -> Seq<char> {
        self.tasks_path@
    }

    /// The lock and task files of the system scope (`is_global`) or of the
    /// scope of the user whose home directory is `home`.
    pub fn new(is_global: bool, home: &str) -> (r: LockManager)
        ensures
            is_global ==> r.lock_file() == path_join(global::ipak_dir(), "lock"@) && r.tasks_file() == path_join(
                global::ipak_dir(),
                "tasks"@,
            ),
            !is_global ==> r.lock_file() == path_join(local::ipak_dir(home@), "lock"@) && r.tasks_file()
                == path_join(local::ipak_dir(home@), "tasks"@),
    {
        if is_global {
            LockManager { lock_path: global::lock_filepath(), tasks_path: global::tasks_filepath() }
        } else {
            LockManager { lock_path: local::lock_filepath(home), tasks_path: local::tasks_filepath(home) }
        }
    }

    /// The path of the lock file.
    pub fn lock_path(&self) -> (r: &str)
        ensures
            r@ == self.lock_file(),
    {
        self.lock_path.as_str()
    }

    /// The path of the task file.
    pub fn tasks_path(&self) -> (r: &str)
        ensures
            r@ == self.tasks_file(),
    {
        self.tasks_path.as_str()
    }

    /// Whether a wait or an age of `elapsed_millis` milliseconds is past the
    /// lock timeout.
    pub fn is_timed_out(elapsed_millis: u128) -> (r: bool)
        ensures
            r == (elapsed_millis > LOCK_TIMEOUT_MILLIS),
    {
        elapsed_millis > LOCK_TIMEOUT_MILLIS
    }
}

/// What the taking of a lock does after one attempt to create the lock file.
#[derive(Debug, Clone, Copy, PartialEq, Eq, Structural)]
pub enum LockStep {
    /// The lock file was created: the lock is taken.
    Acquired,
    /// The lock stays taken past the timeout: taking it fails.
    GiveUp,
    /// Wait a moment and try again.
    Retry,
}

/// The next step of taking a lock, after an attempt that created the lock
/// file (`created`) or not, `waited_millis` milliseconds after the first.
pub fn after_attempt(created: bool, waited_millis: u128) -> (r: LockStep)
    ensures
        r == (if created {
            LockStep::Acquired
        } else if waited_millis > LOCK_TIMEOUT_MILLIS {
            LockStep::GiveUp
        } else {
            LockStep::Retry
        }),
{
    if created {
        LockStep::Acquired
    } else if LockManager::is_timed_out(waited_millis) {
        LockStep::GiveUp
    } else {
        LockStep::Retry
    }
}

/// Whether a lock file `age_millis` milliseconds old (`None`: there is none)
/// is stale, so that it is cleared and the pending tasks run before the next
/// attempt.
pub fn is_stale(age_millis: Option<u128>) -> (r: bool)
    ensures
        r == match age_millis {
            Some(a) => a > LOCK_TIMEOUT_MILLIS,
            None => false,
        },
{
    match age_millis {
        Some(a) => LockManager::is_timed_out(a),
        None => false,
    }
}

} // verus!
