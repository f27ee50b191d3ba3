//! The payload of the public API server.
use vstd::prelude::*;

verus! {

/// The health of the daemon, as the `/health` endpoint reports it.
pub struct Health {
    pub healthy: bool,
}

} // verus!
