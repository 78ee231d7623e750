//! The retry policy of the reconcile loop.
//!
//! A successful pass waits for the next change of the watched object; any
//! failure, whatever its kind, asks for the same fixed-delay requeue.

use crate::errors::EngineError;
use vstd::prelude::*;

verus! {

/// What the reconcile loop should do next.
#[derive(PartialEq, Eq, Structural, Clone, Copy, Debug)]
pub enum ReconcileAction {
    /// Wait for the next change of the watched object.
    AwaitChange,
    /// Run the pass again after this many seconds.
    RequeueAfterSecs(u64),
}

/// The fixed requeue delay, in seconds, used after every failure.
pub const RETRY_DELAY_SECS: u64 = 300;

/// Maps a reconcile failure to the next action: every failure, of whatever
/// kind, yields the same fixed-delay requeue.
pub fn error_policy(error: &EngineError) -> (r: ReconcileAction)
    ensures
        r == ReconcileAction::RequeueAfterSecs(RETRY_DELAY_SECS),
{
    ReconcileAction::RequeueAfterSecs(RETRY_DELAY_SECS)
}

} // verus!
