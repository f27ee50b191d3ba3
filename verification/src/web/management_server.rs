//! The earlier management server, which has no state of its own.
use vstd::prelude::*;

verus! {

/// A management server whose listener runs detached; stopping it does nothing.
pub struct ManagementServer {}

} // verus!
