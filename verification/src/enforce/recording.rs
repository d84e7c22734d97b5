//! An enforcer that only records the calls made to it.

use super::Target;
use crate::pae::effect::{PortAuthorization, PortAuthorizationView};
use vstd::prelude::*;

verus! {

/// A recorded enforcement call.
#[derive(Debug, PartialEq, Eq)]
pub enum Call {
    /// `ensure_eapol_trap(port)`.
    EnsureEapolTrap {
        /// The port a trap was requested for.
        port: String,
    },
    /// `apply(port, target, auth)`.
    Apply {
        /// The port.
        port: String,
        /// The target (whole port or a MAC).
        target: Target,
        /// The authorization applied.
        auth: PortAuthorization,
    },
}

/// What a recorded call says.
#[verifier::ext_equal]
pub enum CallView {
    EnsureEapolTrap { port: Seq<char> },
    Apply { port: Seq<char>, target: Target, auth: PortAuthorizationView },
}

impl View for Call {
    type V = CallView;

    open spec fn view(&self) -> CallView {
        match *self {
            Call::EnsureEapolTrap { port } => CallView::EnsureEapolTrap { port: port@ },
            Call::Apply { port, target, auth } => CallView::Apply { port: port@, target, auth: auth@ },
        }
    }
}

impl Clone for Call {
    fn clone(&self) -> (r: Self)
        ensures
            r@ == self@,
    {
        match self {
            Call::EnsureEapolTrap { port } => Call::EnsureEapolTrap { port: port.clone() },
            Call::Apply { port, target, auth } => Call::Apply {
                port: port.clone(),
                target: *target,
                auth: auth.clone(),
            },
        }
    }
}

/// What a list of recorded calls says, in order.
pub open spec fn call_views(calls: Seq<Call>) -> Seq<CallView> {
    Seq::new(calls.len(), |i: int| calls[i]@)
}

/// Records every enforcement call; never fails.
#[derive(Debug)]
pub struct RecordingEnforcer {
    calls: Vec<Call>,
}

impl View for RecordingEnforcer {
    type V = Seq<CallView>;

    closed spec fn view(&self) -> Seq<CallView> {
        call_views(self.calls@)
    }
}

impl RecordingEnforcer {
    /// A fresh recorder.
    pub fn new() -> (r: Self)
        ensures
            r@ == Seq::<CallView>::empty(),
    {
        let r = RecordingEnforcer { calls: Vec::new() };
        assert(r@ =~= Seq::<CallView>::empty());
        r
    }

    /// Snapshot of the calls recorded so far, in order.
    pub fn calls(&self) -> (r: Vec<Call>)
        ensures
            call_views(r@) == self@,
    {
        let mut out: Vec<Call> = Vec::new();
        let mut i: usize = 0;
        while i < self.calls.len()
            invariant
                i <= self.calls.len(),
                call_views(out@) == self@.take(i as int),
            decreases self.calls.len() - i,
        {
            let ghost done = call_views(out@);
            out.push(self.calls[i].clone());
            assert(call_views(out@) =~= done.push(self.calls@[i as int]@));
            assert(done.push(self.calls@[i as int]@) =~= self@.take(i + 1));
            i += 1;
        }
        assert(call_views(out@) =~= self@);
        out
    }

    /// Record that a trap was requested for `port`.
    pub fn ensure_eapol_trap(&mut self, port: &str)
        ensures
            final(self)@ == old(self)@.push(CallView::EnsureEapolTrap { port: port@ }),
    {
        self.calls.push(Call::EnsureEapolTrap { port: port.to_owned() });
        assert(self@ =~= old(self)@.push(CallView::EnsureEapolTrap { port: port@ }));
    }

    /// Record that `auth` was applied to `target` on `port`.
    pub fn apply(&mut self, port: &str, target: Target, auth: &PortAuthorization)
        ensures
            final(self)@ == old(self)@.push(CallView::Apply { port: port@, target, auth: auth@ }),
    {
        self.calls.push(Call::Apply { port: port.to_owned(), target, auth: auth.clone() });
        assert(self@ =~= old(self)@.push(CallView::Apply { port: port@, target, auth: auth@ }));
    }
}

impl Default for RecordingEnforcer {
    fn default() -> (r: Self)
        ensures
            r@ == Seq::<CallView>::empty(),
    {
        RecordingEnforcer::new()
    }
}

} // verus!
