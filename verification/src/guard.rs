//! Guards, which say between two steps of a long traversal whether it may go on.

use crate::error::HarnessError;
use vstd::prelude::*;

verus! {

/// How many entries are traversed between two questions to a guard.
pub const DISCOVERY_GUARD_INTERVAL: usize = 64;

/// Whether a guard may end a traversal with an error.
pub open spec fn stops<G: Fn() -> Result<(), HarnessError>>(guard: G, error: HarnessError) -> bool {
    call_ensures(guard, (), Err::<(), HarnessError>(error))
}

/// Asks a guard, where a traversal has come to the start of an interval.
pub(crate) fn ask_at<G: Fn() -> Result<(), HarnessError>>(guard: &G, position: usize) -> (result:
    Result<(), HarnessError>)
    requires
        call_requires(*guard, ()),
    ensures
        match result {
            Ok(()) => true,
            Err(error) => position % DISCOVERY_GUARD_INTERVAL == 0 && stops(*guard, error),
        },
{
    if position % DISCOVERY_GUARD_INTERVAL == 0 {
        guard()
    } else {
        Ok(())
    }
}

} // verus!
