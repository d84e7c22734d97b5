//! The per-`{port, MAC}` authenticator state machine (IEEE 802.1X-2020 sections 8
//! and 12): the merged authenticator-PAE and backend-authentication behavior.
//!
//! [`PortSession::step`] takes one [`Event`] plus the port [`PaeConfig`] and
//! returns an ordered list of [`Effect`]s. [`step_of`] is the same machine as a
//! function on values, which the laws at the end speak of.

use super::config::{ConfigView, HostMode, PaeConfig, TimerKind};
use super::effect::{
    effects, AcctTrigger, Authorization, AuthorizationView, Effect, EffectView, FallbackReason,
    PortAuthorization, PortAuthorizationView, TerminateCause,
};
use super::event::{Event, EventView};
use crate::bytes::option_view;
use crate::pacp::eap::{request_identity, request_identity_bytes, EapCode};
use crate::pacp::ethernet::MacAddr;
use vstd::prelude::*;
use vstd::slice::slice_to_vec;

verus! {

/// Which credential path is in flight for the current attempt.
#[derive(Debug, Clone, Copy, PartialEq, Eq, Structural)]
pub enum AuthKind {
    /// 802.1X / EAP.
    Dot1x,
    /// MAC Authentication Bypass.
    Mab,
}

/// The session lifecycle state.
#[derive(Debug, Clone, Copy, PartialEq, Eq, Structural)]
pub enum State {
    /// Not yet brought into service.
    New,
    /// Soliciting an identity (EAP-Request/Identity outstanding) or falling
    /// through to MAB/guest on `tx-period` expiry.
    Connecting,
    /// An Access-Request is outstanding; awaiting the server.
    AuthServer,
    /// A server challenge was relayed; awaiting the supplicant.
    Authenticating,
    /// Authorized.
    Authenticated,
    /// Held after a failure; retries after the quiet period.
    Held,
    /// A fallback VLAN is active (guest / auth-fail / critical).
    Fallback(FallbackReason),
}

/// One authenticator session for a single supplicant MAC on a port.
#[derive(Debug)]
pub struct PortSession {
    mac: MacAddr,
    state: State,
    auth_kind: AuthKind,
    /// EAP Identifier of the last originated Request/Identity.
    eap_id: u8,
    /// EAP-Request/Identity transmissions in the current connecting attempt.
    tx_count: u32,
    /// Last granted authorization.
    authz: Option<Authorization>,
    /// Whether an accounting session is currently open (gates Start/Stop and
    /// distinguishes a re-auth failure from a first-attempt reject).
    accounting_open: bool,
}

/// What a session is at.
#[verifier::ext_equal]
pub struct SessionView {
    pub mac: MacAddr,
    pub state: State,
    pub auth_kind: AuthKind,
    pub eap_id: u8,
    pub tx_count: u32,
    pub authz: Option<AuthorizationView>,
    pub accounting_open: bool,
}

impl View for PortSession {
    type V = SessionView;

    closed spec fn view(&self) -> SessionView {
        SessionView {
            mac: self.mac,
            state: self.state,
            auth_kind: self.auth_kind,
            eap_id: self.eap_id,
            tx_count: self.tx_count,
            authz: option_view(self.authz),
            accounting_open: self.accounting_open,
        }
    }
}

/// A session and what it asks for: the outcome of one transition.
pub type Outcome = (SessionView, Seq<EffectView>);

/// A session that was never in service.
pub open spec fn idle(mac: MacAddr) -> SessionView {
    SessionView {
        mac,
        state: State::New,
        auth_kind: AuthKind::Dot1x,
        eap_id: 0,
        tx_count: 0,
        authz: None,
        accounting_open: false,
    }
}

/// The Identifier after `id`, wrapping at one octet.
pub open spec fn next_id(id: u8) -> u8 {
    if id == 255 {
        0
    } else {
        (id + 1) as u8
    }
}

/// Nothing happens.
pub open spec fn ignored(s: SessionView) -> Outcome {
    (s, Seq::empty())
}

/// Send an EAP-Request/Identity under a fresh Identifier and arm `tx-period`.
pub open spec fn solicited(s: SessionView) -> Outcome {
    (
        SessionView { eap_id: next_id(s.eap_id), ..s },
        seq![
            EffectView::TxEapToSupplicant(request_identity_bytes(next_id(s.eap_id))),
            EffectView::ArmTimer(TimerKind::TxPeriod),
        ],
    )
}

/// Perform `first`, then start a fresh connecting attempt.
pub open spec fn restarted(s: SessionView, first: Seq<EffectView>) -> Outcome {
    let (t, fx) = solicited(SessionView { state: State::Connecting, tx_count: 1, ..s });
    (t, first + fx)
}

/// The port is closed and held for the quiet period.
pub open spec fn held(s: SessionView) -> Outcome {
    (
        SessionView { state: State::Held, ..s },
        seq![
            EffectView::CancelAllTimers,
            EffectView::SetAuthorization(PortAuthorizationView::Unauthorized),
            EffectView::ArmTimer(TimerKind::Held),
        ],
    )
}

/// A fallback VLAN is entered.
pub open spec fn fallen_back(s: SessionView, reason: FallbackReason, vlan: Seq<char>) -> Outcome {
    (
        SessionView { state: State::Fallback(reason), ..s },
        seq![
            EffectView::CancelAllTimers,
            EffectView::SetAuthorization(PortAuthorizationView::Fallback { reason, vlan: Some(vlan) }),
        ],
    )
}

/// The session is over: accounting stops if it was open, the port closes, and the
/// session is back at `New`.
pub open spec fn ended(s: SessionView, cause: TerminateCause) -> Outcome {
    if s.state is New {
        ignored(s)
    } else {
        (
            SessionView {
                state: State::New,
                auth_kind: AuthKind::Dot1x,
                tx_count: 0,
                authz: None,
                accounting_open: false,
                ..s
            },
            (if s.accounting_open {
                seq![EffectView::Accounting(AcctTrigger::Stop(cause))]
            } else {
                Seq::empty()
            }) + seq![
                EffectView::CancelAllTimers,
                EffectView::SetAuthorization(PortAuthorizationView::Unauthorized),
            ],
        )
    }
}

/// The session is put into service: closed, soliciting an identity.
pub open spec fn enabled(s: SessionView) -> Outcome {
    restarted(
        SessionView { authz: None, accounting_open: false, auth_kind: AuthKind::Dot1x, ..s },
        seq![EffectView::SetAuthorization(PortAuthorizationView::Unauthorized)],
    )
}

/// Re-authentication begins; the port stays as it is meanwhile.
pub open spec fn reauthenticating(s: SessionView) -> Outcome {
    restarted(s, seq![EffectView::CancelTimer(TimerKind::Reauth)])
}

/// An EAP response goes to the server.
pub open spec fn relayed(s: SessionView, armed: TimerKind, packet: Seq<u8>) -> Outcome {
    (
        SessionView { state: State::AuthServer, ..s },
        seq![
            EffectView::CancelTimer(armed),
            EffectView::ToAuthServer(packet),
            EffectView::ArmTimer(TimerKind::ServerTimeout),
        ],
    )
}

/// Nobody answered the solicitations: an open session fails closed; otherwise
/// MAB, else the guest VLAN, else the quiet period.
pub open spec fn unanswered(s: SessionView, cfg: ConfigView) -> Outcome {
    if s.accounting_open {
        ended(s, TerminateCause::ReauthFailure)
    } else if cfg.mab_enabled {
        (
            SessionView { auth_kind: AuthKind::Mab, state: State::AuthServer, ..s },
            seq![
                EffectView::CancelTimer(TimerKind::TxPeriod),
                EffectView::StartMab(s.mac),
                EffectView::ArmTimer(TimerKind::ServerTimeout),
            ],
        )
    } else if let Some(vlan) = cfg.guest_vlan {
        fallen_back(s, FallbackReason::Guest, vlan)
    } else {
        held(s)
    }
}

/// One effect if there is a packet to relay, none otherwise.
pub open spec fn relay_down(eap: Option<Seq<u8>>) -> Seq<EffectView> {
    match eap {
        Some(packet) => seq![EffectView::TxEapToSupplicant(packet)],
        None => Seq::empty(),
    }
}

/// The server accepted: the port opens with what the server granted.
pub open spec fn accepted(
    s: SessionView,
    authz: AuthorizationView,
    eap: Option<Seq<u8>>,
    cfg: ConfigView,
) -> Outcome {
    let start = if s.accounting_open {
        Seq::empty()
    } else {
        seq![EffectView::Accounting(AcctTrigger::Start)]
    };
    let reauth = if cfg.reauth_enabled {
        seq![EffectView::ArmTimer(TimerKind::Reauth)]
    } else {
        Seq::empty()
    };
    let lifetime = if authz.session_timeout is Some {
        seq![EffectView::ArmTimer(TimerKind::SessionTimeout)]
    } else {
        Seq::empty()
    };
    (
        SessionView { state: State::Authenticated, authz: Some(authz), accounting_open: true, ..s },
        relay_down(eap) + seq![
            EffectView::CancelAllTimers,
            EffectView::SetAuthorization(PortAuthorizationView::Authorized(authz)),
        ] + start + reauth + lifetime,
    )
}

/// What becomes of a session after the server refused it: an open one ends; another
/// goes to the auth-fail VLAN where there is one; without one, an endpoint that MAB was
/// declined goes to the guest VLAN where there is one; else the quiet period.
pub open spec fn refused(s: SessionView, cfg: ConfigView) -> Outcome {
    if s.accounting_open {
        ended(s, TerminateCause::ReauthFailure)
    } else if let Some(vlan) = cfg.auth_fail_vlan {
        fallen_back(s, FallbackReason::AuthFail, vlan)
    } else if s.auth_kind is Mab && cfg.guest_vlan is Some {
        fallen_back(s, FallbackReason::Guest, cfg.guest_vlan->0)
    } else {
        held(s)
    }
}

/// The server refused; its EAP-Failure, if any, is relayed first.
pub open spec fn rejected(s: SessionView, eap: Option<Seq<u8>>, cfg: ConfigView) -> Outcome {
    let (t, fx) = refused(s, cfg);
    (t, relay_down(eap) + fx)
}

/// The server cannot be reached: an open session rides out the outage; otherwise
/// the critical VLAN with a later retry, else the quiet period.
pub open spec fn cut_off(s: SessionView, cfg: ConfigView) -> Outcome {
    if s.accounting_open {
        (
            SessionView { state: State::Authenticated, ..s },
            seq![EffectView::CancelTimer(TimerKind::ServerTimeout)] + if cfg.reauth_enabled {
                seq![EffectView::ArmTimer(TimerKind::Reauth)]
            } else {
                Seq::empty()
            },
        )
    } else if let Some(vlan) = cfg.critical_vlan {
        let (t, fx) = fallen_back(s, FallbackReason::Critical, vlan);
        (t, fx.push(EffectView::ArmTimer(TimerKind::ServerTimeout)))
    } else {
        held(s)
    }
}

/// The authorization of an open session is replaced in place.
pub open spec fn reauthorized(s: SessionView, authz: AuthorizationView) -> Outcome {
    if s.state is Authenticated {
        (
            SessionView { authz: Some(authz), ..s },
            seq![EffectView::SetAuthorization(PortAuthorizationView::Authorized(authz))],
        )
    } else {
        ignored(s)
    }
}

/// The lifetime that the server granted is over: full de-authentication
/// (RFC 3580 section 3.18), then a fresh solicitation.
pub open spec fn expired(s: SessionView) -> Outcome {
    let (t, fx) = ended(s, TerminateCause::SessionTimeout);
    restarted(t, fx)
}

pub open spec fn connecting_of(s: SessionView, e: EventView, cfg: ConfigView) -> Outcome {
    match e {
        EventView::EapolStart | EventView::LinkUp => solicited(s),
        EventView::Timer(TimerKind::TxPeriod) => if s.tx_count < cfg.max_reauth_req {
            solicited(SessionView { tx_count: (s.tx_count + 1) as u32, ..s })
        } else {
            unanswered(s, cfg)
        },
        EventView::EapFromSupplicant(eap) => if eap.code is Response {
            relayed(SessionView { auth_kind: AuthKind::Dot1x, ..s }, TimerKind::TxPeriod, eap.packet)
        } else {
            ignored(s)
        },
        EventView::EapolLogoff => ended(s, TerminateCause::SupplicantLogoff),
        _ => ignored(s),
    }
}

pub open spec fn auth_server_of(s: SessionView, e: EventView, cfg: ConfigView) -> Outcome {
    match e {
        EventView::AccessChallenge { eap } => (
            SessionView { state: State::Authenticating, ..s },
            seq![
                EffectView::CancelTimer(TimerKind::ServerTimeout),
                EffectView::TxEapToSupplicant(eap),
                EffectView::ArmTimer(TimerKind::SuppTimeout),
            ],
        ),
        EventView::AccessAccept { authorization, eap } => accepted(s, authorization, eap, cfg),
        EventView::AccessReject { eap } => rejected(s, eap, cfg),
        EventView::ServerUnreachable | EventView::Timer(TimerKind::ServerTimeout) => cut_off(s, cfg),
        EventView::EapolLogoff => ended(s, TerminateCause::SupplicantLogoff),
        _ => ignored(s),
    }
}

pub open spec fn authenticating_of(s: SessionView, e: EventView) -> Outcome {
    match e {
        EventView::EapFromSupplicant(eap) => if eap.code is Response {
            relayed(s, TimerKind::SuppTimeout, eap.packet)
        } else {
            ignored(s)
        },
        EventView::Timer(TimerKind::SuppTimeout) => if s.accounting_open {
            ended(s, TerminateCause::ReauthFailure)
        } else {
            held(s)
        },
        EventView::EapolStart => {
            let (t, fx) = solicited(SessionView { state: State::Connecting, ..s });
            (t, seq![EffectView::CancelTimer(TimerKind::SuppTimeout)] + fx)
        },
        EventView::EapolLogoff => ended(s, TerminateCause::SupplicantLogoff),
        _ => ignored(s),
    }
}

pub open spec fn authenticated_of(s: SessionView, e: EventView) -> Outcome {
    match e {
        EventView::Timer(TimerKind::Reauth) | EventView::EapolStart => reauthenticating(s),
        EventView::EapolLogoff => ended(s, TerminateCause::SupplicantLogoff),
        EventView::Timer(TimerKind::SessionTimeout) => expired(s),
        _ => ignored(s),
    }
}

pub open spec fn held_of(s: SessionView, e: EventView) -> Outcome {
    match e {
        EventView::Timer(TimerKind::Held) | EventView::EapolStart => restarted(
            s,
            seq![EffectView::CancelTimer(TimerKind::Held)],
        ),
        _ => ignored(s),
    }
}

/// A supplicant that appears preempts any fallback; the critical one is left also
/// when the server is due another try.
pub open spec fn fallback_of(s: SessionView, e: EventView) -> Outcome {
    match e {
        EventView::EapolStart => restarted(s, Seq::empty()),
        EventView::Timer(TimerKind::ServerTimeout) => if s.state == State::Fallback(
            FallbackReason::Critical,
        ) {
            restarted(s, Seq::empty())
        } else {
            ignored(s)
        },
        _ => ignored(s),
    }
}

/// The whole machine: what one event does to a session.
pub open spec fn step_of(s: SessionView, e: EventView, cfg: ConfigView) -> Outcome {
    match e {
        EventView::LinkDown => ended(s, TerminateCause::PortLinkDown),
        EventView::CoaDisconnect => ended(s, TerminateCause::AdminReset),
        EventView::CoaAuthorize { authorization } => reauthorized(s, authorization),
        EventView::CoaReauthenticate => if s.state is Authenticated {
            reauthenticating(s)
        } else {
            ignored(s)
        },
        EventView::Enable => enabled(s),
        _ => match s.state {
            State::Connecting => connecting_of(s, e, cfg),
            State::AuthServer => auth_server_of(s, e, cfg),
            State::Authenticating => authenticating_of(s, e),
            State::Authenticated => authenticated_of(s, e),
            State::Held => held_of(s, e),
            State::Fallback(_) => fallback_of(s, e),
            State::New => ignored(s),
        },
    }
}

impl Clone for PortSession {
    fn clone(&self) -> (r: Self)
        ensures
            r@ == self@,
    {
        PortSession {
            mac: self.mac,
            state: self.state,
            auth_kind: self.auth_kind,
            eap_id: self.eap_id,
            tx_count: self.tx_count,
            authz: match &self.authz {
                Some(a) => Some(a.clone()),
                None => None,
            },
            accounting_open: self.accounting_open,
        }
    }
}

impl PortSession {
    /// Create an idle session for `mac`. No effects until [`Event::Enable`].
    pub fn new(mac: MacAddr) -> (r: Self)
        ensures
            r@ == idle(mac),
    {
        PortSession {
            mac,
            state: State::New,
            auth_kind: AuthKind::Dot1x,
            eap_id: 0,
            tx_count: 0,
            authz: None,
            accounting_open: false,
        }
    }

    /// The MAC this session authenticates.
    pub fn mac(&self) -> (r: MacAddr)
        ensures
            r == self@.mac,
    {
        self.mac
    }

    /// The current state.
    pub fn state(&self) -> (r: State)
        ensures
            r == self@.state,
    {
        self.state
    }

    /// Whether the session currently holds an open (authorized) session.
    pub fn is_authorized(&self) -> (r: bool)
        ensures
            r == (self@.state is Authenticated),
    {
        self.state == State::Authenticated
    }

    /// Whether the session holds a grant of the server's, also while it is being
    /// authenticated anew.
    pub(crate) fn holds_grant(&self) -> (r: bool)
        ensures
            r == self@.accounting_open,
    {
        self.accounting_open
    }

    /// Whether the in-flight (or last) attempt used MAC Authentication Bypass
    /// rather than 802.1X.
    pub fn is_mab(&self) -> (r: bool)
        ensures
            r == (self@.auth_kind is Mab),
    {
        self.auth_kind == AuthKind::Mab
    }

    /// Advance the machine by one event, returning the effects to perform.
    pub fn step(&mut self, event: Event, cfg: &PaeConfig) -> (fx: Vec<Effect>)
        ensures
            (final(self)@, effects(fx@)) == step_of(old(self)@, event@, cfg@),
    {
        match event {
            Event::LinkDown => self.teardown(TerminateCause::PortLinkDown),
            Event::CoaDisconnect => self.teardown(TerminateCause::AdminReset),
            Event::CoaAuthorize { authorization } => self.coa_authorize(authorization),
            Event::CoaReauthenticate => {
                if self.state == State::Authenticated {
                    self.begin_reauth()
                } else {
                    no_effects()
                }
            },
            Event::Enable => self.enable(),
            event => match self.state {
                State::Connecting => self.in_connecting(event, cfg),
                State::AuthServer => self.in_auth_server(event, cfg),
                State::Authenticating => self.in_authenticating(event),
                State::Authenticated => self.in_authenticated(event),
                State::Held => self.in_held(event),
                State::Fallback(_) => self.in_fallback(event),
                State::New => no_effects(),
            },
        }
    }

    fn enable(&mut self) -> (fx: Vec<Effect>)
        ensures
            (final(self)@, effects(fx@)) == enabled(old(self)@),
    {
        self.authz = None;
        self.accounting_open = false;
        self.auth_kind = AuthKind::Dot1x;
        let fx = vec![Effect::SetAuthorization(PortAuthorization::Unauthorized)];
        proof {
            assert(effects(fx@) =~= seq![
                EffectView::SetAuthorization(PortAuthorizationView::Unauthorized),
            ]);
        }
        self.restart(fx)
    }

    fn in_connecting(&mut self, event: Event, cfg: &PaeConfig) -> (fx: Vec<Effect>)
        ensures
            (final(self)@, effects(fx@)) == connecting_of(old(self)@, event@, cfg@),
    {
        match event {
            Event::EapolStart => self.send_identity(),
            Event::LinkUp => self.send_identity(),
            Event::Timer(TimerKind::TxPeriod) => {
                if self.tx_count < cfg.max_reauth_req {
                    self.tx_count = self.tx_count + 1;
                    self.send_identity()
                } else {
                    self.no_supplicant(cfg)
                }
            },
            Event::EapFromSupplicant(eap) => {
                if eap.code == EapCode::Response {
                    self.auth_kind = AuthKind::Dot1x;
                    self.relay(TimerKind::TxPeriod, eap.packet)
                } else {
                    no_effects()
                }
            },
            Event::EapolLogoff => self.teardown(TerminateCause::SupplicantLogoff),
            _ => no_effects(),
        }
    }

    fn in_auth_server(&mut self, event: Event, cfg: &PaeConfig) -> (fx: Vec<Effect>)
        ensures
            (final(self)@, effects(fx@)) == auth_server_of(old(self)@, event@, cfg@),
    {
        match event {
            Event::AccessChallenge { eap } => {
                self.state = State::Authenticating;
                let fx = vec![
                    Effect::CancelTimer(TimerKind::ServerTimeout),
                    Effect::TxEapToSupplicant(eap),
                    Effect::ArmTimer(TimerKind::SuppTimeout),
                ];
                assert(effects(fx@) =~= auth_server_of(old(self)@, event@, cfg@).1);
                fx
            },
            Event::AccessAccept { authorization, eap } => self.authorize(authorization, eap, cfg),
            Event::AccessReject { eap } => self.reject(eap, cfg),
            Event::ServerUnreachable => self.server_unreachable(cfg),
            Event::Timer(TimerKind::ServerTimeout) => self.server_unreachable(cfg),
            Event::EapolLogoff => self.teardown(TerminateCause::SupplicantLogoff),
            _ => no_effects(),
        }
    }

    fn in_authenticating(&mut self, event: Event) -> (fx: Vec<Effect>)
        ensures
            (final(self)@, effects(fx@)) == authenticating_of(old(self)@, event@),
    {
        match event {
            Event::EapFromSupplicant(eap) => {
                if eap.code == EapCode::Response {
                    self.relay(TimerKind::SuppTimeout, eap.packet)
                } else {
                    no_effects()
                }
            },
            Event::Timer(TimerKind::SuppTimeout) => {
                if self.accounting_open {
                    self.teardown(TerminateCause::ReauthFailure)
                } else {
                    self.hold()
                }
            },
            Event::EapolStart => {
                self.state = State::Connecting;
                let mut fx = vec![Effect::CancelTimer(TimerKind::SuppTimeout)];
                let mut rest = self.send_identity();
                fx.append(&mut rest);
                assert(effects(fx@) =~= authenticating_of(old(self)@, event@).1);
                fx
            },
            Event::EapolLogoff => self.teardown(TerminateCause::SupplicantLogoff),
            _ => no_effects(),
        }
    }

    fn in_authenticated(&mut self, event: Event) -> (fx: Vec<Effect>)
        ensures
            (final(self)@, effects(fx@)) == authenticated_of(old(self)@, event@),
    {
        match event {
            Event::Timer(TimerKind::Reauth) => self.begin_reauth(),
            Event::EapolStart => self.begin_reauth(),
            Event::EapolLogoff => self.teardown(TerminateCause::SupplicantLogoff),
            Event::Timer(TimerKind::SessionTimeout) => {
                let fx = self.teardown(TerminateCause::SessionTimeout);
                self.restart(fx)
            },
            _ => no_effects(),
        }
    }

    fn in_held(&mut self, event: Event) -> (fx: Vec<Effect>)
        ensures
            (final(self)@, effects(fx@)) == held_of(old(self)@, event@),
    {
        let retry = match event {
            Event::Timer(TimerKind::Held) => true,
            Event::EapolStart => true,
            _ => false,
        };
        if retry {
            let fx = vec![Effect::CancelTimer(TimerKind::Held)];
            assert(effects(fx@) =~= seq![EffectView::CancelTimer(TimerKind::Held)]);
            self.restart(fx)
        } else {
            no_effects()
        }
    }

    fn in_fallback(&mut self, event: Event) -> (fx: Vec<Effect>)
        ensures
            (final(self)@, effects(fx@)) == fallback_of(old(self)@, event@),
    {
        let retry = match event {
            Event::EapolStart => true,
            Event::Timer(TimerKind::ServerTimeout) => self.state == State::Fallback(
                FallbackReason::Critical,
            ),
            _ => false,
        };
        if retry {
            self.restart(no_effects())
        } else {
            no_effects()
        }
    }

    /// Emit an EAP-Request/Identity with a fresh Identifier and arm `tx-period`.
    fn send_identity(&mut self) -> (fx: Vec<Effect>)
        ensures
            (final(self)@, effects(fx@)) == solicited(old(self)@),
    {
        self.eap_id = self.eap_id.wrapping_add(1);
        let packet = request_identity(self.eap_id);
        let fx = vec![
            Effect::TxEapToSupplicant(slice_to_vec(packet.as_slice())),
            Effect::ArmTimer(TimerKind::TxPeriod),
        ];
        assert(effects(fx@) =~= solicited(old(self)@).1);
        fx
    }

    /// Start a fresh connecting attempt, after the effects in `first`.
    fn restart(&mut self, first: Vec<Effect>) -> (fx: Vec<Effect>)
        ensures
            (final(self)@, effects(fx@)) == restarted(old(self)@, effects(first@)),
    {
        self.tx_count = 1;
        self.state = State::Connecting;
        let mut fx = first;
        let mut rest = self.send_identity();
        fx.append(&mut rest);
        assert(effects(fx@) =~= restarted(old(self)@, effects(first@)).1);
        fx
    }

    /// Hand an EAP response to the server, which gets `ServerTimeout` to answer.
    fn relay(&mut self, armed: TimerKind, packet: Vec<u8>) -> (fx: Vec<Effect>)
        ensures
            (final(self)@, effects(fx@)) == relayed(old(self)@, armed, packet@),
    {
        self.state = State::AuthServer;
        let fx = vec![
            Effect::CancelTimer(armed),
            Effect::ToAuthServer { eap: packet },
            Effect::ArmTimer(TimerKind::ServerTimeout),
        ];
        assert(effects(fx@) =~= relayed(old(self)@, armed, packet@).1);
        fx
    }

    /// No supplicant within `max_reauth_req` prompts: try MAB, else guest VLAN,
    /// else hold the (closed) port. An open session whose supplicant has gone
    /// silent fails closed instead.
    fn no_supplicant(&mut self, cfg: &PaeConfig) -> (fx: Vec<Effect>)
        ensures
            (final(self)@, effects(fx@)) == unanswered(old(self)@, cfg@),
    {
        if self.accounting_open {
            return self.teardown(TerminateCause::ReauthFailure);
        }
        if cfg.mab_enabled {
            self.auth_kind = AuthKind::Mab;
            self.state = State::AuthServer;
            let fx = vec![
                Effect::CancelTimer(TimerKind::TxPeriod),
                Effect::StartMab { mac: self.mac },
                Effect::ArmTimer(TimerKind::ServerTimeout),
            ];
            assert(effects(fx@) =~= unanswered(old(self)@, cfg@).1);
            return fx;
        }
        match &cfg.guest_vlan {
            Some(vlan) => self.enter_fallback(FallbackReason::Guest, vlan.clone()),
            None => self.hold(),
        }
    }

    fn authorize(&mut self, authz: Authorization, eap: Option<Vec<u8>>, cfg: &PaeConfig) -> (fx: Vec<
        Effect,
    >)
        ensures
            (final(self)@, effects(fx@)) == accepted(old(self)@, authz@, option_view(eap), cfg@),
    {
        let mut fx: Vec<Effect> = Vec::new();
        if let Some(success) = eap {
            fx.push(Effect::TxEapToSupplicant(success));
        }
        fx.push(Effect::CancelAllTimers);
        fx.push(Effect::SetAuthorization(PortAuthorization::Authorized(authz.clone())));
        if !self.accounting_open {
            fx.push(Effect::Accounting(AcctTrigger::Start));
            self.accounting_open = true;
        }
        if cfg.reauth_enabled {
            fx.push(Effect::ArmTimer(TimerKind::Reauth));
        }
        if authz.session_timeout.is_some() {
            fx.push(Effect::ArmTimer(TimerKind::SessionTimeout));
        }
        self.authz = Some(authz);
        self.state = State::Authenticated;
        assert(effects(fx@) =~= accepted(old(self)@, authz@, option_view(eap), cfg@).1);
        fx
    }

    fn reject(&mut self, eap: Option<Vec<u8>>, cfg: &PaeConfig) -> (fx: Vec<Effect>)
        ensures
            (final(self)@, effects(fx@)) == rejected(old(self)@, option_view(eap), cfg@),
    {
        let mut fx: Vec<Effect> = Vec::new();
        if let Some(failure) = eap {
            fx.push(Effect::TxEapToSupplicant(failure));
        }
        let mut rest = if self.accounting_open {
            // A reject while a session is open is a re-authentication failure.
            self.teardown(TerminateCause::ReauthFailure)
        } else {
            self.refuse(cfg)
        };
        fx.append(&mut rest);
        assert(effects(fx@) =~= rejected(old(self)@, option_view(eap), cfg@).1);
        fx
    }

    /// Where an endpoint without a session goes once the server refused it.
    fn refuse(&mut self, cfg: &PaeConfig) -> (fx: Vec<Effect>)
        requires
            !old(self)@.accounting_open,
        ensures
            (final(self)@, effects(fx@)) == refused(old(self)@, cfg@),
    {
        if let Some(vlan) = &cfg.auth_fail_vlan {
            return self.enter_fallback(FallbackReason::AuthFail, vlan.clone());
        }
        if self.auth_kind == AuthKind::Mab {
            if let Some(vlan) = &cfg.guest_vlan {
                return self.enter_fallback(FallbackReason::Guest, vlan.clone());
            }
        }
        self.hold()
    }

    fn server_unreachable(&mut self, cfg: &PaeConfig) -> (fx: Vec<Effect>)
        ensures
            (final(self)@, effects(fx@)) == cut_off(old(self)@, cfg@),
    {
        if self.accounting_open {
            // Keep the working session through the outage; re-validate later only
            // where periodic re-authentication is configured.
            self.state = State::Authenticated;
            let mut fx = vec![Effect::CancelTimer(TimerKind::ServerTimeout)];
            if cfg.reauth_enabled {
                fx.push(Effect::ArmTimer(TimerKind::Reauth));
            }
            assert(effects(fx@) =~= cut_off(old(self)@, cfg@).1);
            return fx;
        }
        match &cfg.critical_vlan {
            Some(vlan) => {
                let mut fx = self.enter_fallback(FallbackReason::Critical, vlan.clone());
                fx.push(Effect::ArmTimer(TimerKind::ServerTimeout));
                assert(effects(fx@) =~= cut_off(old(self)@, cfg@).1);
                fx
            },
            None => self.hold(),
        }
    }

    /// Begin re-authentication while keeping the port authorized meanwhile.
    fn begin_reauth(&mut self) -> (fx: Vec<Effect>)
        ensures
            (final(self)@, effects(fx@)) == reauthenticating(old(self)@),
    {
        let fx = vec![Effect::CancelTimer(TimerKind::Reauth)];
        assert(effects(fx@) =~= seq![EffectView::CancelTimer(TimerKind::Reauth)]);
        self.restart(fx)
    }

    fn coa_authorize(&mut self, authz: Authorization) -> (fx: Vec<Effect>)
        ensures
            (final(self)@, effects(fx@)) == reauthorized(old(self)@, authz@),
    {
        if self.state != State::Authenticated {
            return no_effects();
        }
        self.authz = Some(authz.clone());
        let fx = vec![Effect::SetAuthorization(PortAuthorization::Authorized(authz))];
        assert(effects(fx@) =~= seq![
            EffectView::SetAuthorization(PortAuthorizationView::Authorized(authz@)),
        ]);
        fx
    }

    /// Enter a fallback VLAN. The state's reason and the emitted one cannot
    /// disagree.
    fn enter_fallback(&mut self, reason: FallbackReason, vlan: String) -> (fx: Vec<Effect>)
        ensures
            (final(self)@, effects(fx@)) == fallen_back(old(self)@, reason, vlan@),
    {
        self.state = State::Fallback(reason);
        let fx = vec![
            Effect::CancelAllTimers,
            Effect::SetAuthorization(PortAuthorization::Fallback { reason, vlan: Some(vlan) }),
        ];
        assert(effects(fx@) =~= fallen_back(old(self)@, reason, vlan@).1);
        fx
    }

    /// Close the port and hold it for the quiet period before retrying.
    fn hold(&mut self) -> (fx: Vec<Effect>)
        ensures
            (final(self)@, effects(fx@)) == held(old(self)@),
    {
        self.state = State::Held;
        let fx = vec![
            Effect::CancelAllTimers,
            Effect::SetAuthorization(PortAuthorization::Unauthorized),
            Effect::ArmTimer(TimerKind::Held),
        ];
        assert(effects(fx@) =~= held(old(self)@).1);
        fx
    }

    /// Fully tear the session down: stop accounting if open, close the port,
    /// cancel timers, and return to `New`.
    fn teardown(&mut self, cause: TerminateCause) -> (fx: Vec<Effect>)
        ensures
            (final(self)@, effects(fx@)) == ended(old(self)@, cause),
    {
        if self.state == State::New {
            return no_effects();
        }
        let mut fx: Vec<Effect> = Vec::new();
        if self.accounting_open {
            fx.push(Effect::Accounting(AcctTrigger::Stop(cause)));
            self.accounting_open = false;
        }
        fx.push(Effect::CancelAllTimers);
        fx.push(Effect::SetAuthorization(PortAuthorization::Unauthorized));
        self.state = State::New;
        self.authz = None;
        self.auth_kind = AuthKind::Dot1x;
        self.tx_count = 0;
        assert(effects(fx@) =~= ended(old(self)@, cause).1);
        fx
    }
}

fn no_effects() -> (fx: Vec<Effect>)
    ensures
        effects(fx@) == Seq::<EffectView>::empty(),
{
    let fx: Vec<Effect> = Vec::new();
    assert(effects(fx@) =~= Seq::<EffectView>::empty());
    fx
}

/// How many sessions a port of the given mode admits; `None` is no limit.
pub open spec fn session_limit(mode: HostMode) -> Option<usize> {
    match mode {
        HostMode::SingleHost | HostMode::MultiHost => Some(1),
        HostMode::MultiDomain => Some(2),
        HostMode::MultiAuth => None,
    }
}

/// The host mode governs how many sessions a port admits.
pub fn max_sessions(mode: HostMode) -> (r: Option<usize>)
    ensures
        r == session_limit(mode),
{
    match mode {
        HostMode::SingleHost => Some(1),
        HostMode::MultiHost => Some(1),
        HostMode::MultiDomain => Some(2),
        HostMode::MultiAuth => None,
    }
}

} // verus!
