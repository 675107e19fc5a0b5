//! Setting up the hook at which frames are intercepted.
//!
//! Before a classifier can be attached to an interface, the interface needs
//! a `clsact` queueing discipline. Adding one is idempotent from the caller's
//! point of view: an interface that has it already is as good as one that
//! just got it.

use vstd::prelude::*;

verus! {

/// The error number with which the system answers a request to create what
/// exists already.
pub const EEXIST: i32 = 17;

/// What came of an attempt to add `clsact` to an interface.
#[derive(Clone, Copy, Debug, PartialEq, Eq, Structural)]
pub enum ClsactSetup {
    /// The interface had none and has one now.
    Added,
    /// The interface had one already. Nothing was changed, and nothing is
    /// wrong.
    AlreadyPresent,
    /// The attempt failed for another reason. The payload is the error
    /// number the system gave, if it gave one.
    Failed(Option<i32>),
}

/// How an attempt is to be taken: success as success, `EEXIST` as success
/// too, and every other failure as a failure.
pub open spec fn clsact_outcome(attempt: Result<(), Option<i32>>) -> ClsactSetup {
    match attempt {
        Ok(_) => ClsactSetup::Added,
        Err(raw_os_error) => if raw_os_error == Some(EEXIST) {
            ClsactSetup::AlreadyPresent
        } else {
            ClsactSetup::Failed(raw_os_error)
        },
    }
}

/// Judges an attempt to add `clsact` to an interface. `attempt` is what the
/// system answered: `Ok`, or the error number of the failure where there is
/// one.
pub fn setup_clsact(attempt: Result<(), Option<i32>>) -> (outcome: ClsactSetup)
    ensures
        outcome == clsact_outcome(attempt),
{
    match attempt {
        Ok(_) => ClsactSetup::Added,
        Err(Some(code)) => {
            if code == EEXIST {
                ClsactSetup::AlreadyPresent
            } else {
                ClsactSetup::Failed(Some(code))
            }
        },
        Err(None) => ClsactSetup::Failed(None),
    }
}

} // verus!
