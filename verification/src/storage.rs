//! Durable-store plumbing: the names of temporary files, and how long to wait
//! for the repo mutation lock.
//!
//! Navi exists for concurrent agents, so its own bookkeeping must survive
//! concurrent navi processes. Writes go through a temporary file that is
//! renamed into place, and mutating verbs serialize on one advisory lock.

use vstd::prelude::*;

use crate::error::{self, Error, ErrorKind};
use crate::jj_output::{self, timeout_millis};
use crate::text::{self, cat3, copy, number};

verus! {

/// How long to wait for the lock where nothing else is set, in milliseconds.
pub const DEFAULT_LOCK_TIMEOUT_MILLIS: u64 = 60_000;

/// How long to sleep between two attempts, in milliseconds.
pub const LOCK_RETRY_MILLIS: u64 = 50;

/// The name of the temporary file through which a file is written.
pub fn temp_file_name(file_name: &str, process_id: u32) -> (res: String)
    ensures
        res@ == file_name@ + ".tmp."@ + text::decimal(process_id as nat),
{
    cat3(file_name, ".tmp.", number(process_id as u128).as_str())
}

/// How long to wait for the lock, by the setting for it.
pub fn lock_timeout(setting: &Option<String>) -> (res: u64)
    ensures
        res == jj_output::timeout_of(text::opt_view(*setting), DEFAULT_LOCK_TIMEOUT_MILLIS),
{
    timeout_millis(setting, DEFAULT_LOCK_TIMEOUT_MILLIS)
}

/// What an attempt to take the lock came to.
#[derive(Debug, PartialEq, Eq)]
pub enum LockAttempt {
    /// The lock is held now.
    Acquired,
    /// Another process holds the lock.
    WouldBlock,
    /// The attempt failed.
    Failed(String),
}

/// What to do after an attempt.
#[derive(Debug, PartialEq, Eq)]
pub enum LockStep {
    /// Go on under the lock.
    Proceed,
    /// Sleep and try again.
    Retry,
    /// Give up, with nothing applied.
    GiveUp(Error),
}

/// What to do after an attempt to take the lock, `waited_millis` after the
/// first one.
pub fn lock_step(attempt: LockAttempt, path: &str, waited_millis: u64, timeout: u64) -> (res:
    LockStep)
    ensures
        match attempt {
            LockAttempt::Acquired => res == LockStep::Proceed,
            LockAttempt::WouldBlock => if waited_millis >= timeout {
                res matches LockStep::GiveUp(e) && e@ == error::about2(
                    ErrorKind::MutationLockTimeout,
                    path@,
                    text::decimal(timeout as nat),
                )
            } else {
                res == LockStep::Retry
            },
            LockAttempt::Failed(message) => res matches LockStep::GiveUp(e) && e@ == error::about(
                ErrorKind::Io,
                message@,
            ),
        },
{
    match attempt {
        LockAttempt::Acquired => LockStep::Proceed,
        LockAttempt::WouldBlock => {
            if waited_millis >= timeout {
                LockStep::GiveUp(
                    Error::MutationLockTimeout { path: copy(path), waited_ms: timeout as u128 },
                )
            } else {
                LockStep::Retry
            }
        },
        LockAttempt::Failed(message) => LockStep::GiveUp(Error::Io(message)),
    }
}

} // verus!
