//! The effect orchestrator: what each effect of the state machine asks of the four
//! boundaries (supplicant link, authentication server, dataplane, timers), and how a
//! RADIUS reply becomes the event that is fed back.
//!
//! [`Orchestrator::dispatch`] turns one effect into an [`Action`] for the daemon to
//! perform; an [`Action::AccessRequest`] is answered with [`Orchestrator::on_reply`].
//! [`Exchange`] keeps the events of one exchange in order and bounds it.

use super::error::AuthdError;
use super::session::{fresh, radius_result, RadiusSession, RadiusSessionView};
use super::timers::{period, period_of};
use crate::bytes::{option_view, outcome};
use crate::enforce::Target;
use crate::pacp::eap::{eap_decodes, EapPacket};
use crate::pacp::ethernet::{format_mac, law_station_id_identifies, mac_eq, mac_text, MacAddr};
use crate::pae::config::{TimerKind, Timers};
use crate::pae::effect::{
    AcctTrigger, Effect, EffectView, PortAuthorization, PortAuthorizationView,
};
use crate::pae::event::{Event, EventView};
use crate::pae::port::{
    directed, handled, law_port_stays_well_formed, DirectedEffect, DirectedView, PortPae, PortView,
};
use crate::radius::packet::{Packet, PacketView};
use crate::radius_client::accounting::accounting_outcome;
use crate::radius_client::context::{ContextView, RequestContext};
use crate::radius_client::request::{eap_request, mab_request};
use crate::table::{
    distinct, holds, lemma_table_at, lemma_table_push, lemma_table_update, table,
};
use crate::text::{decimal, push_decimal};
use std::collections::VecDeque;
use vstd::prelude::*;
use vstd::slice::slice_to_vec;

verus! {

/// Per-supplicant orchestration state.
#[derive(Debug)]
pub struct SessionState {
    radius: RadiusSession,
    /// Session-Timeout (seconds) from the last Accept.
    session_timeout: Option<u32>,
    /// Stable accounting session id.
    acct_id: Option<String>,
}

/// What is known of one supplicant.
#[verifier::ext_equal]
pub struct StateView {
    pub radius: RadiusSessionView,
    pub session_timeout: Option<u32>,
    pub acct_id: Option<Seq<char>>,
}

impl View for SessionState {
    type V = StateView;

    closed spec fn view(&self) -> StateView {
        StateView {
            radius: self.radius@,
            session_timeout: self.session_timeout,
            acct_id: option_view(self.acct_id),
        }
    }
}

/// What is known of a supplicant that was not seen before.
pub open spec fn fresh_state() -> StateView {
    StateView { radius: fresh(), session_timeout: None, acct_id: None }
}

/// What the daemon has to do for an effect.
#[derive(Debug)]
pub enum Action {
    /// Nothing.
    Nothing,
    /// Send `eap` to the supplicant `mac`.
    SendEap {
        /// The supplicant.
        mac: MacAddr,
        /// The EAP packet.
        eap: Vec<u8>,
    },
    /// Seal `request`, send it to the authentication server, and hand the reply to
    /// [`Orchestrator::on_reply`].
    AccessRequest {
        /// The supplicant that the request is for.
        mac: MacAddr,
        /// The request, its `Message-Authenticator` zeroed.
        request: Packet,
    },
    /// Send `request` to the accounting server; its response is not needed.
    Accounting {
        /// The request, its authenticator zeroed.
        request: Packet,
    },
    /// Program the dataplane.
    Apply {
        /// What to program it for.
        target: Target,
        /// The authorization to program.
        auth: PortAuthorization,
    },
    /// Arm a timer.
    Arm {
        /// The supplicant whose timer it is.
        mac: MacAddr,
        /// Which timer.
        kind: TimerKind,
        /// After how many seconds it fires.
        secs: u32,
    },
    /// Cancel a timer.
    Cancel {
        /// The supplicant whose timer it is.
        mac: MacAddr,
        /// Which timer.
        kind: TimerKind,
    },
    /// Cancel every timer of a supplicant.
    CancelAll {
        /// The supplicant.
        mac: MacAddr,
    },
}

/// What an action says.
#[verifier::ext_equal]
pub enum ActionView {
    Nothing,
    SendEap { mac: MacAddr, eap: Seq<u8> },
    AccessRequest { mac: MacAddr, request: PacketView },
    Accounting { request: PacketView },
    Apply { target: Target, auth: PortAuthorizationView },
    Arm { mac: MacAddr, kind: TimerKind, secs: u32 },
    Cancel { mac: MacAddr, kind: TimerKind },
    CancelAll { mac: MacAddr },
}

impl View for Action {
    type V = ActionView;

    open spec fn view(&self) -> ActionView {
        match *self {
            Action::Nothing => ActionView::Nothing,
            Action::SendEap { mac, eap } => ActionView::SendEap { mac, eap: eap@ },
            Action::AccessRequest { mac, request } => ActionView::AccessRequest {
                mac,
                request: request@,
            },
            Action::Accounting { request } => ActionView::Accounting { request: request@ },
            Action::Apply { target, auth } => ActionView::Apply { target, auth: auth@ },
            Action::Arm { mac, kind, secs } => ActionView::Arm { mac, kind, secs },
            Action::Cancel { mac, kind } => ActionView::Cancel { mac, kind },
            Action::CancelAll { mac } => ActionView::CancelAll { mac },
        }
    }
}

/// Orchestrates one port's sessions.
#[derive(Debug)]
pub struct Orchestrator {
    port: String,
    ctx_template: RequestContext,
    sessions: Vec<(MacAddr, SessionState)>,
    acct_counter: u64,
}

/// What an orchestrator knows.
#[verifier::ext_equal]
pub struct OrchestratorView {
    pub port: Seq<char>,
    pub ctx: ContextView,
    pub sessions: Map<MacAddr, StateView>,
    pub acct_counter: u64,
}

pub open spec fn state_views(sessions: Seq<(MacAddr, SessionState)>) -> Seq<(MacAddr, StateView)> {
    Seq::new(sessions.len(), |i: int| (sessions[i].0, sessions[i].1@))
}

impl View for Orchestrator {
    type V = OrchestratorView;

    closed spec fn view(&self) -> OrchestratorView {
        OrchestratorView {
            port: self.port@,
            ctx: self.ctx_template@,
            sessions: table(state_views(self.sessions@)),
            acct_counter: self.acct_counter,
        }
    }
}

/// The counter after `n`, wrapping.
pub open spec fn next_count(n: u64) -> u64 {
    if n == u64::MAX {
        0
    } else {
        (n + 1) as u64
    }
}

/// The accounting session id of a station: port, address and a running number.
pub open spec fn acct_id_text(port: Seq<char>, mac: MacAddr, n: u64) -> Seq<char> {
    port + seq!['-'] + mac_text(mac) + seq!['-'] + decimal(n as nat)
}

/// The identity that an EAP packet carries, if it is an EAP-Response/Identity.
pub open spec fn identity_of(eap: Seq<u8>) -> Option<Seq<u8>> {
    match eap_decodes(eap) {
        Ok(packet) => packet.identity(),
        Err(_) => None,
    }
}

impl OrchestratorView {
    /// What is known of a supplicant.
    pub open spec fn state_of(self, mac: MacAddr) -> StateView {
        if self.sessions.dom().contains(mac) {
            self.sessions[mac]
        } else {
            fresh_state()
        }
    }

    /// The same with something else known of one supplicant.
    pub open spec fn with_state(self, mac: MacAddr, state: StateView) -> OrchestratorView {
        OrchestratorView { sessions: self.sessions.insert(mac, state), ..self }
    }

    /// The request context of a supplicant.
    pub open spec fn ctx_of(self, mac: MacAddr) -> ContextView {
        ContextView { calling_station: mac, ..self.ctx }
    }

    /// After how many seconds a timer fires: a configured period, or the lifetime
    /// that the server granted the session. A lifetime that was not granted is no
    /// timer at all.
    pub open spec fn timer_of(self, mac: MacAddr, kind: TimerKind, timers: Timers) -> Option<u32> {
        match period_of(timers, kind) {
            Some(secs) => Some(secs),
            None => self.state_of(mac).session_timeout,
        }
    }

    /// The orchestrator once a supplicant has an accounting session id.
    pub open spec fn identified(self, mac: MacAddr) -> OrchestratorView {
        let st = self.state_of(mac);
        if st.acct_id is Some {
            self
        } else {
            let n = next_count(self.acct_counter);
            OrchestratorView { acct_counter: n, ..self }.with_state(
                mac,
                StateView { acct_id: Some(acct_id_text(self.port, mac, n)), ..st },
            )
        }
    }

    /// What relaying an EAP packet to the server comes to.
    pub open spec fn relaying(self, mac: MacAddr, eap: Seq<u8>, nonce: [u8; 16]) -> (
        OrchestratorView,
        Result<ActionView, AuthdError>,
    ) {
        let st = self.state_of(mac);
        (
            self.with_state(mac, StateView { radius: st.radius.awaiting(nonce), ..st }),
            match radius_result(
                eap_request(
                    self.ctx_of(mac),
                    st.radius.next_id,
                    nonce,
                    identity_of(eap),
                    st.radius.last_state,
                    eap,
                ),
            ) {
                Ok(request) => Ok(ActionView::AccessRequest { mac, request }),
                Err(e) => Err(e),
            },
        )
    }

    /// What asking the server about a bare address comes to.
    pub open spec fn bypassing(self, mac: MacAddr, nonce: [u8; 16]) -> (
        OrchestratorView,
        Result<ActionView, AuthdError>,
    ) {
        let st = self.state_of(mac);
        (
            self.with_state(mac, StateView { radius: st.radius.awaiting(nonce), ..st }),
            match radius_result(mab_request(self.ctx_of(mac), st.radius.next_id, nonce)) {
                Ok(request) => Ok(ActionView::AccessRequest { mac, request }),
                Err(e) => Err(e),
            },
        )
    }

    /// What an accounting trigger comes to.
    pub open spec fn accounting(self, mac: MacAddr, trigger: AcctTrigger) -> (
        OrchestratorView,
        Result<ActionView, AuthdError>,
    ) {
        let o = self.identified(mac);
        let st = o.state_of(mac);
        let counted = RadiusSessionView {
            next_acct_id: crate::pae::session::next_id(st.radius.next_acct_id),
            ..st.radius
        };
        (
            o.with_state(mac, StateView { radius: counted, ..st }),
            match radius_result(
                accounting_outcome(
                    self.ctx_of(mac),
                    st.radius.next_acct_id,
                    trigger,
                    st.acct_id->0,
                    st.radius.class,
                ),
            ) {
                Ok(request) => Ok(ActionView::Accounting { request }),
                Err(e) => Err(e),
            },
        )
    }

    /// What an effect comes to: what the orchestrator knows then, and the action to
    /// perform or the error. `nonce` is used for a request if the effect asks for one.
    pub open spec fn dispatched(self, de: DirectedView, timers: Timers, nonce: [u8; 16]) -> (
        OrchestratorView,
        Result<ActionView, AuthdError>,
    ) {
        match de.effect {
            EffectView::StartMab(mac) => self.bypassing(mac, nonce),
            EffectView::SetAuthorization(auth) => (
                match (auth, de.mac) {
                    (PortAuthorizationView::Authorized(a), Some(mac)) => self.with_state(
                        mac,
                        StateView { session_timeout: a.session_timeout, ..self.state_of(mac) },
                    ),
                    _ => self,
                },
                Ok(
                    ActionView::Apply {
                        target: match de.mac {
                            Some(mac) => Target::Mac(mac),
                            None => Target::Port,
                        },
                        auth,
                    },
                ),
            ),
            other => match de.mac {
                None => (self, Ok(ActionView::Nothing)),
                Some(mac) => match other {
                    EffectView::TxEapToSupplicant(eap) => (self, Ok(ActionView::SendEap { mac, eap })),
                    EffectView::ToAuthServer(eap) => self.relaying(mac, eap, nonce),
                    EffectView::ArmTimer(kind) => (
                        self,
                        Ok(
                            match self.timer_of(mac, kind, timers) {
                                Some(secs) => ActionView::Arm { mac, kind, secs },
                                None => ActionView::Nothing,
                            },
                        ),
                    ),
                    EffectView::CancelTimer(kind) => (self, Ok(ActionView::Cancel { mac, kind })),
                    EffectView::CancelAllTimers => (self, Ok(ActionView::CancelAll { mac })),
                    EffectView::Accounting(trigger) => self.accounting(mac, trigger),
                    _ => (self, Ok(ActionView::Nothing)),
                },
            },
        }
    }

    /// What the reply to a supplicant's request comes to.
    pub open spec fn answered(
        self,
        mac: MacAddr,
        reply: PacketView,
        authenticator: [u8; 16],
        mac_digest: [u8; 16],
    ) -> (OrchestratorView, Result<EventView, AuthdError>) {
        let st = self.state_of(mac);
        let (radius, event) = st.radius.replied(reply, authenticator, mac_digest);
        (self.with_state(mac, StateView { radius, ..st }), event)
    }
}

impl SessionState {
    fn new() -> (r: Self)
        ensures
            r@ == fresh_state(),
    {
        SessionState { radius: RadiusSession::new(), session_timeout: None, acct_id: None }
    }
}

impl Orchestrator {
    /// Each supplicant is known once.
    pub closed spec fn well_formed(&self) -> bool {
        distinct(state_views(self.sessions@))
    }

    /// Create an orchestrator for `port`. `ctx_template` carries the NAS attributes
    /// shared by every session (the per-MAC `calling_station` is filled in per
    /// request).
    pub fn new(port: String, ctx_template: RequestContext) -> (r: Self)
        ensures
            r.well_formed(),
            r@ == (OrchestratorView {
                port: port@,
                ctx: ctx_template@,
                sessions: Map::empty(),
                acct_counter: 0,
            }),
    {
        let r = Orchestrator { port, ctx_template, sessions: Vec::new(), acct_counter: 0 };
        assert(r@.sessions =~= Map::<MacAddr, StateView>::empty());
        r
    }

    /// The port that this orchestrates.
    pub fn port(&self) -> (r: &str)
        ensures
            r@ == self@.port,
    {
        self.port.as_str()
    }

    /// Perform one effect as far as it can be decided here: the action that is left
    /// for the daemon. `nonce` is a fresh random Request Authenticator, used if the
    /// effect asks for a request.
    pub fn dispatch(&mut self, de: DirectedEffect, timers: &Timers, nonce: [u8; 16]) -> (r: Result<
        Action,
        AuthdError,
    >)
        requires
            old(self).well_formed(),
        ensures
            final(self).well_formed(),
            (final(self)@, outcome(r)) == old(self)@.dispatched(de@, *timers, nonce),
    {
        match de.effect {
            Effect::TxEapToSupplicant(eap) => match de.mac {
                Some(mac) => Ok(Action::SendEap { mac, eap }),
                None => Ok(Action::Nothing),
            },
            Effect::ToAuthServer { eap } => match de.mac {
                Some(mac) => self.relay(mac, eap, nonce),
                None => Ok(Action::Nothing),
            },
            Effect::StartMab { mac } => self.start_mab(mac, nonce),
            Effect::SetAuthorization(auth) => {
                if let PortAuthorization::Authorized(a) = &auth {
                    if let Some(mac) = de.mac {
                        let state = self.session(mac);
                        state.session_timeout = a.session_timeout;
                    }
                }
                let target = match de.mac {
                    Some(mac) => Target::Mac(mac),
                    None => Target::Port,
                };
                Ok(Action::Apply { target, auth })
            },
            Effect::ArmTimer(kind) => match de.mac {
                Some(mac) => match self.timer_duration(mac, kind, timers) {
                    Some(secs) => Ok(Action::Arm { mac, kind, secs }),
                    None => Ok(Action::Nothing),
                },
                None => Ok(Action::Nothing),
            },
            Effect::CancelTimer(kind) => match de.mac {
                Some(mac) => Ok(Action::Cancel { mac, kind }),
                None => Ok(Action::Nothing),
            },
            Effect::CancelAllTimers => match de.mac {
                Some(mac) => Ok(Action::CancelAll { mac }),
                None => Ok(Action::Nothing),
            },
            Effect::Accounting(trigger) => match de.mac {
                Some(mac) => self.account(mac, trigger),
                None => Ok(Action::Nothing),
            },
        }
    }

    /// Where a supplicant is known.
    fn find(&self, mac: MacAddr) -> (r: Option<usize>)
        requires
            self.well_formed(),
        ensures
            r is Some <==> self@.sessions.dom().contains(mac),
            r matches Some(i) ==> i < self.sessions@.len() && self.sessions@[i as int].0 == mac
                && self@.sessions[mac] == self.sessions@[i as int].1@,
    {
        let ghost entries = state_views(self.sessions@);
        let mut i: usize = 0;
        while i < self.sessions.len()
            invariant
                i <= self.sessions.len(),
                entries == state_views(self.sessions@),
                distinct(entries),
                forall|j: int| 0 <= j < i ==> (#[trigger] entries[j]).0 != mac,
            decreases self.sessions.len() - i,
        {
            assert(entries[i as int] == (self.sessions@[i as int].0, self.sessions@[i as int].1@));
            if mac_eq(&self.sessions[i].0, &mac) {
                proof {
                    lemma_table_at(entries, i as int);
                }
                return Some(i);
            }
            i += 1;
        }
        None
    }

    /// What is known of a supplicant, to be changed.
    fn session(&mut self, mac: MacAddr) -> (r: &mut SessionState)
        requires
            old(self).well_formed(),
        ensures
            r@ == old(self)@.state_of(mac),
            final(self)@ == old(self)@.with_state(mac, final(r)@),
            final(self).well_formed(),
    {
        let i: usize = match self.find(mac) {
            Some(i) => i,
            None => {
                let ghost entries = state_views(self.sessions@);
                let state = SessionState::new();
                proof {
                    assert(!holds(entries, mac));
                    lemma_table_push(entries, mac, state@);
                }
                self.sessions.push((mac, state));
                assert(state_views(self.sessions@) =~= entries.push((mac, state@)));
                self.sessions.len() - 1
            },
        };
        let ghost entries = state_views(self.sessions@);
        let ghost now = self.sessions@;
        assert forall|t: (MacAddr, SessionState)| t.0 == mac implies distinct(
            state_views(#[trigger] now.update(i as int, t)),
        ) && table(state_views(now.update(i as int, t))) == table(entries).insert(mac, t.1@) by {
            lemma_table_update(entries, i as int, t.1@);
            assert(state_views(now.update(i as int, t)) =~= entries.update(i as int, (mac, t.1@)));
        }
        &mut self.sessions[i].1
    }

    /// The request context of a supplicant.
    fn ctx_for(&self, mac: MacAddr) -> (r: RequestContext)
        ensures
            r@ == self@.ctx_of(mac),
    {
        let mut ctx = self.ctx_template.clone();
        ctx.calling_station = mac;
        ctx
    }

    fn relay(&mut self, mac: MacAddr, eap: Vec<u8>, nonce: [u8; 16]) -> (r: Result<Action, AuthdError>)
        requires
            old(self).well_formed(),
        ensures
            final(self).well_formed(),
            (final(self)@, outcome(r)) == old(self)@.relaying(mac, eap@, nonce),
    {
        let ctx = self.ctx_for(mac);
        let identity = eap_identity(eap.as_slice());
        let identity_slice = match &identity {
            Some(id) => Some(id.as_slice()),
            None => None,
        };
        let built = self.session(mac).radius.build_eap_request(
            &ctx,
            identity_slice,
            eap.as_slice(),
            nonce,
        );
        match built {
            Ok(request) => Ok(Action::AccessRequest { mac, request }),
            Err(e) => Err(e),
        }
    }

    fn start_mab(&mut self, mac: MacAddr, nonce: [u8; 16]) -> (r: Result<Action, AuthdError>)
        requires
            old(self).well_formed(),
        ensures
            final(self).well_formed(),
            (final(self)@, outcome(r)) == old(self)@.bypassing(mac, nonce),
    {
        let ctx = self.ctx_for(mac);
        let built = self.session(mac).radius.build_mab_request(&ctx, nonce);
        match built {
            Ok(request) => Ok(Action::AccessRequest { mac, request }),
            Err(e) => Err(e),
        }
    }

    /// The Request Authenticator of a supplicant's outstanding request, if it has one:
    /// the digests that [`Orchestrator::on_reply`] takes are computed with it.
    pub fn pending(&self, mac: MacAddr) -> (r: Option<[u8; 16]>)
        requires
            self.well_formed(),
        ensures
            r == self@.state_of(mac).radius.pending,
    {
        match self.find(mac) {
            Some(i) => self.sessions[i].1.radius.pending(),
            None => None,
        }
    }

    /// Take the reply to a supplicant's request: the event that it drives, if it is
    /// genuine.
    pub fn on_reply(
        &mut self,
        mac: MacAddr,
        reply: &Packet,
        expected_authenticator: &[u8; 16],
        expected_mac: &[u8; 16],
    ) -> (r: Result<Event, AuthdError>)
        requires
            old(self).well_formed(),
        ensures
            final(self).well_formed(),
            (final(self)@, outcome(r)) == old(self)@.answered(
                mac,
                reply@,
                *expected_authenticator,
                *expected_mac,
            ),
    {
        self.session(mac).radius.handle_reply(reply, expected_authenticator, expected_mac)
    }

    /// The accounting session id of a supplicant, allocated on first use.
    fn acct_id_for(&mut self, mac: MacAddr) -> (r: String)
        requires
            old(self).well_formed(),
        ensures
            final(self).well_formed(),
            final(self)@ == old(self)@.identified(mac),
            Some(r@) == final(self)@.state_of(mac).acct_id,
    {
        if let Some(i) = self.find(mac) {
            if let Some(existing) = &self.sessions[i].1.acct_id {
                return existing.clone();
            }
        }
        self.acct_counter = self.acct_counter.wrapping_add(1);
        let mut id = self.port.clone();
        id.push('-');
        let station = format_mac(&mac);
        id.append(station.as_str());
        id.push('-');
        push_decimal(&mut id, self.acct_counter);
        assert(id@ =~= acct_id_text(self@.port, mac, self@.acct_counter));
        self.session(mac).acct_id = Some(id.clone());
        id
    }

    fn account(&mut self, mac: MacAddr, trigger: AcctTrigger) -> (r: Result<Action, AuthdError>)
        requires
            old(self).well_formed(),
        ensures
            final(self).well_formed(),
            (final(self)@, outcome(r)) == old(self)@.accounting(mac, trigger),
    {
        let ctx = self.ctx_for(mac);
        let acct_id = self.acct_id_for(mac);
        let state = self.session(mac);
        let id = state.radius.next_accounting_identifier();
        let built = state.radius.build_accounting(&ctx, id, trigger, acct_id.as_str());
        match built {
            Ok(request) => Ok(Action::Accounting { request }),
            Err(e) => Err(e),
        }
    }

    /// Resolve a timer: config-backed kinds from [`Timers`], and `SessionTimeout` from
    /// the session's RADIUS `Session-Timeout`. `None` for a `SessionTimeout` with no
    /// per-session value, so that no timer is armed that would fire at once.
    fn timer_duration(&self, mac: MacAddr, kind: TimerKind, timers: &Timers) -> (r: Option<u32>)
        requires
            self.well_formed(),
        ensures
            r == self@.timer_of(mac, kind, *timers),
    {
        match period(timers, kind) {
            Some(secs) => Some(secs),
            None => match self.find(mac) {
                Some(i) => self.sessions[i].1.session_timeout,
                None => None,
            },
        }
    }
}

/// Extract a `User-Name` from an EAP-Response/Identity packet, if that is what this
/// EAP packet is.
fn eap_identity(eap: &[u8]) -> (r: Option<Vec<u8>>)
    ensures
        option_view(r) == identity_of(eap@),
{
    match EapPacket::decode(eap) {
        Ok(packet) => match packet.identity() {
            Some(id) => Some(slice_to_vec(id)),
            None => None,
        },
        Err(_) => None,
    }
}

/// The most events that one exchange takes: a healthy one resolves in a few, and this
/// stops any feedback loop.
pub const MAX_STEPS: u32 = 64;

/// One exchange: the events that are still to be fed to the state machine, in the
/// order in which they were produced, and the effects of the last one that are still
/// to be performed.
#[derive(Debug)]
pub struct Exchange {
    queue: VecDeque<(MacAddr, Event)>,
    steps: u32,
    effects: VecDeque<DirectedEffect>,
    /// The session whose event is being performed.
    origin: Option<MacAddr>,
    /// The session that the last effect was for.
    target: Option<MacAddr>,
}

/// What an exchange is at.
#[verifier::ext_equal]
pub struct ExchangeView {
    pub queue: Seq<(MacAddr, EventView)>,
    pub steps: u32,
    pub effects: Seq<DirectedView>,
    pub origin: Option<MacAddr>,
    pub target: Option<MacAddr>,
}

pub open spec fn event_views(events: Seq<(MacAddr, Event)>) -> Seq<(MacAddr, EventView)> {
    Seq::new(events.len(), |i: int| (events[i].0, events[i].1@))
}

impl View for Exchange {
    type V = ExchangeView;

    closed spec fn view(&self) -> ExchangeView {
        ExchangeView {
            queue: event_views(self.queue@),
            steps: self.steps,
            effects: directed(self.effects@),
            origin: self.origin,
            target: self.target,
        }
    }
}

impl ExchangeView {
    /// The session that a reply to the last effect belongs to: the one it was for, or
    /// else the one whose event led to it.
    pub open spec fn answers_to(self) -> Option<MacAddr> {
        match self.target {
            Some(mac) => Some(mac),
            None => self.origin,
        }
    }

    /// The exchange once an answer gave an event.
    pub open spec fn followed_up(self, event: EventView) -> ExchangeView {
        match self.answers_to() {
            Some(mac) => ExchangeView { queue: self.queue.push((mac, event)), ..self },
            None => self,
        }
    }
}

/// The port and the exchange once there is an effect to perform, or nothing is left:
/// events are fed to the state machine one after the other until one has effects.
pub open spec fn fed(p: PortView, x: ExchangeView) -> (PortView, ExchangeView)
    decreases MAX_STEPS - x.steps,
{
    if x.effects.len() > 0 || x.queue.len() == 0 || x.steps >= MAX_STEPS {
        (p, x)
    } else {
        let (mac, event) = x.queue[0];
        let (q, fx) = handled(p, mac, event);
        fed(
            q,
            ExchangeView {
                queue: x.queue.skip(1),
                steps: (x.steps + 1) as u32,
                effects: fx,
                origin: Some(mac),
                ..x
            },
        )
    }
}

proof fn lemma_fed_well_formed(p: PortView, x: ExchangeView)
    requires
        p.well_formed(),
    ensures
        fed(p, x).0.well_formed(),
    decreases MAX_STEPS - x.steps,
{
    if !(x.effects.len() > 0 || x.queue.len() == 0 || x.steps >= MAX_STEPS) {
        let (mac, event) = x.queue[0];
        law_port_stays_well_formed(p, mac, event);
        let (q, fx) = handled(p, mac, event);
        lemma_fed_well_formed(
            q,
            ExchangeView {
                queue: x.queue.skip(1),
                steps: (x.steps + 1) as u32,
                effects: fx,
                origin: Some(mac),
                ..x
            },
        );
    }
}

impl Exchange {
    /// An exchange that starts with one event.
    pub fn new(mac: MacAddr, event: Event) -> (r: Self)
        ensures
            r@ == (ExchangeView {
                queue: seq![(mac, event@)],
                steps: 0,
                effects: Seq::empty(),
                origin: None,
                target: None,
            }),
    {
        let mut queue: VecDeque<(MacAddr, Event)> = VecDeque::new();
        queue.push_back((mac, event));
        let r = Exchange { queue, steps: 0, effects: VecDeque::new(), origin: None, target: None };
        assert(r@.queue =~= seq![(mac, event@)]);
        assert(r@.effects =~= Seq::<DirectedView>::empty());
        r
    }

    /// An exchange that only performs a batch of port-level effects.
    pub fn of_effects(effects: Vec<DirectedEffect>) -> (r: Self)
        ensures
            r@ == (ExchangeView {
                queue: Seq::empty(),
                steps: 0,
                effects: directed(effects@),
                origin: None,
                target: None,
            }),
    {
        let r = Exchange {
            queue: VecDeque::new(),
            steps: 0,
            effects: to_queue(effects),
            origin: None,
            target: None,
        };
        assert(r@.queue =~= Seq::<(MacAddr, EventView)>::empty());
        r
    }

    /// Add the event that the reply to the last effect gave, behind those that wait
    /// already. An event that belongs to no session is dropped.
    pub fn follow_up(&mut self, event: Event)
        ensures
            final(self)@ == old(self)@.followed_up(event@),
    {
        let to = match self.target {
            Some(mac) => Some(mac),
            None => self.origin,
        };
        if let Some(mac) = to {
            self.queue.push_back((mac, event));
            assert(self@.queue =~= old(self)@.queue.push((mac, event@)));
        }
    }
}

fn to_queue(effects: Vec<DirectedEffect>) -> (r: VecDeque<DirectedEffect>)
    ensures
        directed(r@) == directed(effects@),
{
    let mut out: VecDeque<DirectedEffect> = VecDeque::new();
    let mut i: usize = 0;
    while i < effects.len()
        invariant
            i <= effects.len(),
            directed(out@) == directed(effects@).take(i as int),
        decreases effects.len() - i,
    {
        let ghost done = directed(out@);
        out.push_back(effects[i].clone());
        assert(directed(out@) =~= done.push(effects@[i as int]@));
        assert(directed(out@) =~= directed(effects@).take(i + 1));
        i += 1;
    }
    assert(directed(out@) =~= directed(effects@));
    out
}

/// What an exchange came to: an action to perform, nothing more, or the error.
pub open spec fn action_outcome(r: Result<Option<Action>, AuthdError>) -> Result<
    Option<ActionView>,
    AuthdError,
> {
    match r {
        Ok(Some(action)) => Ok(Some(action@)),
        Ok(None) => Ok(None),
        Err(e) => Err(e),
    }
}

/// What taking an exchange one effect further comes to.
pub open spec fn advanced(
    o: OrchestratorView,
    p: PortView,
    x: ExchangeView,
    timers: Timers,
    nonce: [u8; 16],
) -> (OrchestratorView, PortView, ExchangeView, Result<Option<ActionView>, AuthdError>) {
    let (q, y) = fed(p, x);
    if y.effects.len() == 0 {
        (o, q, y, Ok(None))
    } else {
        let (n, action) = o.dispatched(y.effects[0], timers, nonce);
        (
            n,
            q,
            ExchangeView { effects: y.effects.skip(1), target: y.effects[0].mac, ..y },
            match action {
                Ok(a) => Ok(Some(a)),
                Err(e) => Err(e),
            },
        )
    }
}

impl Orchestrator {
    /// Take an exchange one effect further: feed waiting events to the state machine
    /// until there is an effect, and say what it asks for. `None` ends the exchange.
    pub fn advance(
        &mut self,
        pae: &mut PortPae,
        exchange: &mut Exchange,
        timers: &Timers,
        nonce: [u8; 16],
    ) -> (r: Result<Option<Action>, AuthdError>)
        requires
            old(self).well_formed(),
            old(pae)@.well_formed(),
        ensures
            final(self).well_formed(),
            final(pae)@.well_formed(),
            (final(self)@, final(pae)@, final(exchange)@, action_outcome(r)) == advanced(
                old(self)@,
                old(pae)@,
                old(exchange)@,
                *timers,
                nonce,
            ),
    {
        proof {
            lemma_fed_well_formed(pae@, exchange@);
        }
        while exchange.effects.len() == 0 && exchange.steps < MAX_STEPS
            invariant
                pae@.well_formed(),
                fed(pae@, exchange@) == fed(old(pae)@, old(exchange)@),
                *self == *old(self),
            ensures
                exchange@.effects.len() > 0 || exchange@.queue.len() == 0 || exchange@.steps >= MAX_STEPS,
            decreases MAX_STEPS - exchange.steps,
        {
            let ghost before = exchange@;
            match exchange.queue.pop_front() {
                Some((mac, event)) => {
                    exchange.steps = exchange.steps + 1;
                    exchange.origin = Some(mac);
                    let fx = pae.handle(mac, event);
                    exchange.effects = to_queue(fx);
                    assert(exchange@.queue =~= before.queue.skip(1));
                },
                None => {
                    break ;
                },
            }
        }
        match exchange.effects.pop_front() {
            Some(de) => {
                exchange.target = de.mac;
                proof {
                    let y = fed(old(pae)@, old(exchange)@).1;
                    assert(exchange@.effects =~= y.effects.skip(1));
                }
                match self.dispatch(de, timers, nonce) {
                    Ok(action) => Ok(Some(action)),
                    Err(e) => Err(e),
                }
            },
            None => Ok(None),
        }
    }
}

/// An exchange feeds at most [`MAX_STEPS`] events to the state machine.
pub proof fn law_exchange_is_bounded(p: PortView, x: ExchangeView)
    requires
        x.steps <= MAX_STEPS,
    ensures
        x.steps <= fed(p, x).1.steps <= MAX_STEPS,
    decreases MAX_STEPS - x.steps,
{
    if !(x.effects.len() > 0 || x.queue.len() == 0 || x.steps >= MAX_STEPS) {
        let (mac, event) = x.queue[0];
        let (q, fx) = handled(p, mac, event);
        law_exchange_is_bounded(
            q,
            ExchangeView {
                queue: x.queue.skip(1),
                steps: (x.steps + 1) as u32,
                effects: fx,
                origin: Some(mac),
                ..x
            },
        );
    }
}

/// An effect for one supplicant changes nothing that is known of another.
pub proof fn law_dispatch_leaves_others_alone(
    o: OrchestratorView,
    de: DirectedView,
    timers: Timers,
    nonce: [u8; 16],
    other: MacAddr,
)
    requires
        de.mac != Some(other),
        de.effect != EffectView::StartMab(other),
    ensures
        o.dispatched(de, timers, nonce).0.state_of(other) == o.state_of(other),
{
}

/// A reply for one supplicant changes nothing that is known of another, and nobody's
/// accounting session id.
pub proof fn law_reply_leaves_others_alone(
    o: OrchestratorView,
    mac: MacAddr,
    reply: PacketView,
    authenticator: [u8; 16],
    digest: [u8; 16],
    other: MacAddr,
)
    ensures
        ({
            let p = o.answered(mac, reply, authenticator, digest).0;
            &&& other != mac ==> p.state_of(other) == o.state_of(other)
            &&& p.state_of(other).acct_id == o.state_of(other).acct_id
        }),
{
}

/// An accounting session id, once given, is kept through every effect, so that the
/// Start and the Stop of a session carry the same one.
pub proof fn law_acct_id_is_stable(
    o: OrchestratorView,
    de: DirectedView,
    timers: Timers,
    nonce: [u8; 16],
    mac: MacAddr,
)
    requires
        o.state_of(mac).acct_id is Some,
    ensures
        o.dispatched(de, timers, nonce).0.state_of(mac).acct_id == o.state_of(mac).acct_id,
{
}

/// Every accounting session id that was given names its port and its station.
pub open spec fn ids_name_stations(o: OrchestratorView) -> bool {
    forall|mac: MacAddr| #[trigger]
        o.state_of(mac).acct_id matches Some(id) ==> exists|n: u64| id == #[trigger] acct_id_text(
            o.port,
            mac,
            n,
        )
}

/// Accounting session ids keep naming their stations.
pub proof fn law_acct_ids_keep_naming(
    o: OrchestratorView,
    de: DirectedView,
    timers: Timers,
    nonce: [u8; 16],
)
    requires
        ids_name_stations(o),
    ensures
        ids_name_stations(o.dispatched(de, timers, nonce).0),
{
    let p = o.dispatched(de, timers, nonce).0;
    assert forall|mac: MacAddr| #[trigger] p.state_of(mac).acct_id is Some implies exists|n: u64|
        p.state_of(mac).acct_id->0 == #[trigger] acct_id_text(p.port, mac, n) by {
        if o.state_of(mac).acct_id is Some {
            law_acct_id_is_stable(o, de, timers, nonce, mac);
            let id = o.state_of(mac).acct_id->0;
            let n = choose|n: u64| id == #[trigger] acct_id_text(o.port, mac, n);
            assert(p.state_of(mac).acct_id->0 == acct_id_text(p.port, mac, n));
        } else {
            let n = next_count(o.acct_counter);
            assert(p.state_of(mac).acct_id->0 == acct_id_text(p.port, mac, n));
        }
    }
}

/// No two stations on a port share an accounting session id.
pub proof fn law_acct_ids_tell_stations_apart(o: OrchestratorView, a: MacAddr, b: MacAddr)
    requires
        ids_name_stations(o),
        o.state_of(a).acct_id is Some,
        o.state_of(a).acct_id == o.state_of(b).acct_id,
    ensures
        a == b,
{
    let id = o.state_of(a).acct_id->0;
    let n = choose|n: u64| id == #[trigger] acct_id_text(o.port, a, n);
    let m = choose|m: u64| id == #[trigger] acct_id_text(o.port, b, m);
    let at = o.port.len() as int + 1;
    assert(id.subrange(at, at + 17) =~= mac_text(a));
    assert(id.subrange(at, at + 17) =~= mac_text(b));
    law_station_id_identifies(a, b);
}

} // verus!
