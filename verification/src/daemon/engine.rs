//! When a failed request is tried once more.

use vstd::prelude::*;
use crate::daemon::utils::{is_broken_pipe, Cause, IoKind};

verus! {

/// What follows an attempt at a request.
#[derive(Clone, Copy, Debug, PartialEq, Eq, Structural)]
pub enum Retry {
    /// The attempt succeeded.
    Accept,
    /// The connection to the compositor broke: build the engine anew and
    /// try once more.
    Rebuild,
    /// The request failed for good.
    GiveUp,
}

/// Decides what follows attempt number `attempt` (from 0) of a request,
/// given the chain of causes of its failure, if it failed. Only the first
/// attempt is repeated, and only after a broken pipe.
pub fn after_attempt(attempt: u32, failure: &Option<Vec<Cause>>) -> (r: Retry)
    ensures
        failure is None ==> r == Retry::Accept,
        failure is Some ==> r == (if attempt == 0 && exists|i: int|
            0 <= i < failure.unwrap().len() && (#[trigger] failure.unwrap()[i]).io == Some(
                IoKind::BrokenPipe,
            ) {
            Retry::Rebuild
        } else {
            Retry::GiveUp
        }),
{
    match failure {
        None => Retry::Accept,
        Some(chain) => {
            if attempt == 0 && is_broken_pipe(chain) {
                Retry::Rebuild
            } else {
                Retry::GiveUp
            }
        },
    }
}

} // verus!
