//! Mapping [`TimerKind`]s to durations from the configured [`Timers`].
//!
//! All kinds except `SessionTimeout` are backed by a config field. The
//! `SessionTimeout` duration comes from the RADIUS `Session-Timeout` of the current
//! authorization, so it is `None` here.

use crate::pae::config::{TimerKind, Timers};
use core::time::Duration;
use vstd::prelude::*;

verus! {

/// The duration that `Duration::from_secs` makes of a number of seconds.
pub uninterp spec fn seconds(secs: u64) -> Duration;

/// `Duration::from_secs`: the duration of that many seconds.
#[verifier::external_body]
fn from_secs(secs: u64) -> (r: Duration)
    ensures
        r == seconds(secs),
{
    Duration::from_secs(secs)
}

/// The configured number of seconds for a timer kind.
pub open spec fn period_of(timers: Timers, kind: TimerKind) -> Option<u32> {
    match kind {
        TimerKind::TxPeriod => Some(timers.tx_period),
        TimerKind::Held => Some(timers.held_period),
        TimerKind::Reauth => Some(timers.reauth_period),
        TimerKind::ServerTimeout => Some(timers.server_timeout),
        TimerKind::SuppTimeout => Some(timers.supp_timeout),
        TimerKind::SessionTimeout => None,
    }
}

/// The configured number of seconds for a timer kind, or `None` for
/// `SessionTimeout`.
pub fn period(timers: &Timers, kind: TimerKind) -> (r: Option<u32>)
    ensures
        r == period_of(*timers, kind),
{
    match kind {
        TimerKind::TxPeriod => Some(timers.tx_period),
        TimerKind::Held => Some(timers.held_period),
        TimerKind::Reauth => Some(timers.reauth_period),
        TimerKind::ServerTimeout => Some(timers.server_timeout),
        TimerKind::SuppTimeout => Some(timers.supp_timeout),
        TimerKind::SessionTimeout => None,
    }
}

/// The configured duration for a timer kind, or `None` for `SessionTimeout` (whose
/// duration is the per-session RADIUS `Session-Timeout`).
pub fn duration(timers: &Timers, kind: TimerKind) -> (r: Option<Duration>)
    ensures
        r == (match period_of(*timers, kind) {
            Some(secs) => Some(seconds(secs as u64)),
            None => None,
        }),
{
    match period(timers, kind) {
        Some(secs) => Some(from_secs(secs as u64)),
        None => None,
    }
}

} // verus!
