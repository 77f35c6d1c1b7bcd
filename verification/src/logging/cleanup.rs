//! Retention of stray files in the log directory: any file more than 31 days old goes.
use vstd::prelude::*;

verus! {

/// Archived logs are retained for 30 days, so anything more than 31 days old is definitely
/// eligible for cleanup: 31 days, in nanoseconds.
pub const MAX_AGE_NANOS: i128 = 2678400000000000;

/// A time a `SystemTime` can hold, in nanoseconds from the Unix epoch: within 2^63 seconds
/// of it.
pub open spec fn is_system_time(t: i128) -> bool {
    -0x8000_0000_0000_0000 * 1_000_000_000 <= t < 0x8000_0000_0000_0000 * 1_000_000_000
}

/// What cleanup does with one entry of the log directory.
#[derive(Debug, Clone, Copy, PartialEq, Eq, Structural)]
pub enum CleanupAction {
    /// Leave the entry alone and go on with the next.
    Keep,
    /// Delete the file.
    Delete,
    /// The file system reports no modification times: stop cleaning up altogether.
    Stop,
}

/// Decides what becomes of a directory entry at time `now`, given whether it is a
/// directory and its modification time (`None` when the file system does not report one).
/// Times are nanoseconds from the Unix epoch. Directories are kept; files modified in the
/// future are kept; files at least 31 days old are deleted.
pub fn cleanup_action(is_dir: bool, modified: Option<i128>, now: i128) -> (r: CleanupAction)
    requires
        is_system_time(now),
        modified matches Some(m) ==> is_system_time(m),
    ensures
        r == (if is_dir {
            CleanupAction::Keep
        } else {
            match modified {
                None => CleanupAction::Stop,
                Some(m) => if m > now || now - m < MAX_AGE_NANOS {
                    CleanupAction::Keep
                } else {
                    CleanupAction::Delete
                },
            }
        }),
{
    if is_dir {
        return CleanupAction::Keep;
    }
    match modified {
        None => CleanupAction::Stop,
        Some(m) => {
            if m > now {
                return CleanupAction::Keep;
            }
            let age = now - m;
            if age < MAX_AGE_NANOS {
                CleanupAction::Keep
            } else {
                CleanupAction::Delete
            }
        },
    }
}

} // verus!
