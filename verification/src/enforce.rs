//! Backend-neutral dataplane enforcement: what an authorization applies to, and a
//! recorder of enforcement calls.

pub mod recording;

use crate::pacp::ethernet::{mac_eq, MacAddr};
pub use recording::RecordingEnforcer;
use vstd::prelude::*;

verus! {

/// What an authorization applies to on a port.
#[derive(Debug, Clone, Copy, PartialEq, Eq, Hash)]
pub enum Target {
    /// The whole port (the initial unauthorized state, or a multi-host open).
    Port,
    /// A single supplicant identified by MAC (multi-auth / multi-domain).
    Mac(MacAddr),
}

/// Whether two targets are the same.
pub fn target_eq(a: Target, b: Target) -> (r: bool)
    ensures
        r == (a == b),
{
    match (a, b) {
        (Target::Port, Target::Port) => true,
        (Target::Mac(x), Target::Mac(y)) => mac_eq(&x, &y),
        _ => false,
    }
}

} // verus!
