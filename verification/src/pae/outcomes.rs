//! What each event brings about, seen from outside the session: what the supplicant is
//! told, what the server is asked, what accounting hears, what the dataplane is set to,
//! and which timers run afterwards. None of it depends on how the effects are listed.

use super::config::{ConfigView, TimerKind};
use super::effect::{
    AcctTrigger, AuthorizationView, EffectView, FallbackReason, PortAuthorizationView, TerminateCause,
};
use super::event::{EventView, InboundEapView};
use super::laws::{
    arrived, lemma_accepted, lemma_ended, lemma_rejected, lemma_restarted, lemma_short,
    performed_all, sound, world_of, Question, World,
};
use super::session::{ended, refused, relay_down, step_of, AuthKind, SessionView, State};
use vstd::prelude::*;

verus! {

/// Nobody outside hears anything: neither the supplicant nor the server nor accounting.
pub open spec fn unheard(w: World, v: World) -> bool {
    v.told == w.told && v.asked == w.asked && v.reported == w.reported
}

/// Just one timer is running.
pub open spec fn only(kind: TimerKind) -> Set<TimerKind> {
    Set::<TimerKind>::empty().insert(kind)
}

/// The packets told so far, and the one that the server sent along if it did.
pub open spec fn passed_on(told: Seq<Seq<u8>>, eap: Option<Seq<u8>>) -> Seq<Seq<u8>> {
    match eap {
        Some(packet) => told.push(packet),
        None => told,
    }
}

/// The session is out of service and closed, its accounting stopped for `cause` if it
/// was open, and no timer is running.
pub open spec fn over(s: SessionView, cause: TerminateCause, t: SessionView, w: World, v: World) -> bool {
    &&& t.state is New
    &&& t.authz is None
    &&& !t.accounting_open
    &&& t.mac == s.mac
    &&& t.auth_kind is Dot1x
    &&& t.tx_count == 0
    &&& t.eap_id == s.eap_id
    &&& v.posture is Unauthorized
    &&& v.armed == Set::<TimerKind>::empty()
    &&& v.asked == w.asked
    &&& v.reported == (if s.accounting_open {
        w.reported.push(AcctTrigger::Stop(cause))
    } else {
        w.reported
    })
}

/// The port is closed for the quiet period, with nothing but its timer running.
pub open spec fn quieted(s: SessionView, t: SessionView, v: World) -> bool {
    &&& t == (SessionView { state: State::Held, ..s })
    &&& v.posture is Unauthorized
    &&& v.armed == only(TimerKind::Held)
}

/// The port is on the VLAN of a fallback.
pub open spec fn on_fallback(
    s: SessionView,
    reason: FallbackReason,
    vlan: Seq<char>,
    t: SessionView,
    v: World,
) -> bool {
    &&& t == (SessionView { state: State::Fallback(reason), ..s })
    &&& v.posture == (PortAuthorizationView::Fallback { reason, vlan: Some(vlan) })
}

/// The identity is asked for under the next Identifier: an EAP-Request (1) with that
/// Identifier, of 5 octets, of type Identity (1). Its retransmission timer is running,
/// next to whatever else was in `armed`.
pub open spec fn prompted(s: SessionView, t: SessionView, w: World, v: World, armed: Set<TimerKind>) -> bool {
    &&& t.state is Connecting
    &&& t.eap_id as int == (s.eap_id + 1) % 256
    &&& t.mac == s.mac
    &&& v.told == w.told.push(seq![1u8, t.eap_id, 0u8, 5u8, 1u8])
    &&& v.asked == w.asked
    &&& v.armed == armed.insert(TimerKind::TxPeriod)
}

/// An accept that a session takes while it awaits the server opens the port with just
/// what was granted, whether or not the session held a grant before. The lifetime runs
/// exactly if the grant has one, periodic re-authentication exactly if it is configured,
/// and no other timer; a session that was not open yet is reported as started; and the
/// supplicant is told what the server sent along.
pub proof fn law_accept_opens(
    w: World,
    s: SessionView,
    authorization: AuthorizationView,
    eap: Option<Seq<u8>>,
    cfg: ConfigView,
)
    requires
        s.state is AuthServer,
    ensures
        ({
            let e = EventView::AccessAccept { authorization, eap };
            let t = step_of(s, e, cfg).0;
            let v = world_of(w, s, e, cfg);
            &&& t == (SessionView {
                state: State::Authenticated,
                authz: Some(authorization),
                accounting_open: true,
                ..s
            })
            &&& v.posture == PortAuthorizationView::Authorized(authorization)
            &&& v.armed.contains(TimerKind::SessionTimeout) <==> authorization.session_timeout is Some
            &&& v.armed.contains(TimerKind::Reauth) <==> cfg.reauth_enabled
            &&& forall|k: TimerKind| #[trigger]
                v.armed.contains(k) ==> k is SessionTimeout || k is Reauth
            &&& v.told == passed_on(w.told, eap)
            &&& v.asked == w.asked
            &&& v.reported == (if s.accounting_open {
                w.reported
            } else {
                w.reported.push(AcctTrigger::Start)
            })
        }),
{
    lemma_accepted(w, s, authorization, eap, cfg);
}

/// A challenge goes to the supplicant as it came, and the wait for the server becomes a
/// wait for the supplicant. The port stays as it is.
pub proof fn law_challenge_is_relayed(w: World, s: SessionView, eap: Seq<u8>, cfg: ConfigView)
    requires
        s.state is AuthServer,
    ensures
        ({
            let e = EventView::AccessChallenge { eap };
            let v = world_of(w, s, e, cfg);
            &&& step_of(s, e, cfg).0 == (SessionView { state: State::Authenticating, ..s })
            &&& v.told == w.told.push(eap)
            &&& v.asked == w.asked
            &&& v.reported == w.reported
            &&& v.posture == w.posture
            &&& v.armed == w.armed.remove(TimerKind::ServerTimeout).insert(TimerKind::SuppTimeout)
        }),
{
    lemma_short(w, step_of(s, EventView::AccessChallenge { eap }, cfg).1);
}

/// A response of the supplicant goes to the server as it came, and the wait for the
/// supplicant becomes a wait for the server. The first one makes the attempt one of
/// 802.1X. The port stays as it is.
pub proof fn law_response_is_relayed(w: World, s: SessionView, eap: InboundEapView, cfg: ConfigView)
    requires
        s.state is Connecting || s.state is Authenticating,
        eap.code is Response,
    ensures
        ({
            let e = EventView::EapFromSupplicant(eap);
            let v = world_of(w, s, e, cfg);
            let awaited = if s.state is Connecting {
                TimerKind::TxPeriod
            } else {
                TimerKind::SuppTimeout
            };
            &&& step_of(s, e, cfg).0 == (SessionView {
                state: State::AuthServer,
                auth_kind: if s.state is Connecting {
                    AuthKind::Dot1x
                } else {
                    s.auth_kind
                },
                ..s
            })
            &&& v.asked == w.asked.push(Question::Eap(eap.packet))
            &&& v.told == w.told
            &&& v.reported == w.reported
            &&& v.posture == w.posture
            &&& v.armed == w.armed.remove(awaited).insert(TimerKind::ServerTimeout)
        }),
{
    lemma_short(w, step_of(s, EventView::EapFromSupplicant(eap), cfg).1);
}

/// A rejection is passed on to the supplicant. It ends a session that was open; without
/// one the port goes to the auth-fail VLAN; without that VLAN, a station that was asked
/// about by its bare address goes to the guest VLAN; without that either, the port stays
/// closed for the quiet period.
pub proof fn law_refusal_closes(w: World, s: SessionView, eap: Option<Seq<u8>>, cfg: ConfigView)
    requires
        s.state is AuthServer,
    ensures
        ({
            let e = EventView::AccessReject { eap };
            let t = step_of(s, e, cfg).0;
            let v = world_of(w, s, e, cfg);
            &&& v.told == passed_on(w.told, eap)
            &&& s.accounting_open ==> over(s, TerminateCause::ReauthFailure, t, w, v)
            &&& !s.accounting_open ==> v.asked == w.asked && v.reported == w.reported
            &&& !s.accounting_open && cfg.auth_fail_vlan is Some ==> on_fallback(
                s,
                FallbackReason::AuthFail,
                cfg.auth_fail_vlan->0,
                t,
                v,
            ) && v.armed == Set::<TimerKind>::empty()
            &&& !s.accounting_open && cfg.auth_fail_vlan is None && s.auth_kind is Mab
                && cfg.guest_vlan is Some ==> on_fallback(
                s,
                FallbackReason::Guest,
                cfg.guest_vlan->0,
                t,
                v,
            ) && v.armed == Set::<TimerKind>::empty()
            &&& !s.accounting_open && cfg.auth_fail_vlan is None && !(s.auth_kind is Mab
                && cfg.guest_vlan is Some) ==> quieted(s, t, v)
        }),
{
    lemma_rejected(w, s, eap, cfg);
    let relayed = performed_all(w, relay_down(eap));
    lemma_short(w, relay_down(eap));
    if s.accounting_open {
        lemma_ended(relayed, s, TerminateCause::ReauthFailure);
    } else {
        lemma_short(relayed, refused(s, cfg).1);
    }
}

/// A server that cannot be reached, or does not answer in time, costs an open session
/// nothing: the grant stands, and re-authentication is tried again later where it is
/// configured. A session that is not open goes to the critical VLAN, from where the
/// server is tried again; without that VLAN the port stays closed for the quiet period.
pub proof fn law_outage_is_ridden_out(w: World, s: SessionView, e: EventView, cfg: ConfigView)
    requires
        s.state is AuthServer,
        e is ServerUnreachable || e == EventView::Timer(TimerKind::ServerTimeout),
    ensures
        ({
            let t = step_of(s, e, cfg).0;
            let v = world_of(w, s, e, cfg);
            &&& unheard(w, v)
            &&& s.accounting_open ==> t == (SessionView { state: State::Authenticated, ..s }) && v.posture
                == w.posture && v.armed == (if cfg.reauth_enabled {
                w.armed.remove(TimerKind::ServerTimeout).insert(TimerKind::Reauth)
            } else {
                w.armed.remove(TimerKind::ServerTimeout)
            })
            &&& !s.accounting_open && cfg.critical_vlan is Some ==> on_fallback(
                s,
                FallbackReason::Critical,
                cfg.critical_vlan->0,
                t,
                v,
            ) && v.armed == only(TimerKind::ServerTimeout)
            &&& !s.accounting_open && cfg.critical_vlan is None ==> quieted(s, t, v)
        }),
{
    lemma_short(arrived(w, e), step_of(s, e, cfg).1);
}

/// While nobody answers, the identity is asked for again until it was asked for as often
/// as configured. After that an open session ends; without one, the server is asked about
/// the bare address where that is configured; without that, the port goes to the guest
/// VLAN; without that VLAN, it stays closed for the quiet period.
pub proof fn law_silence_is_counted(w: World, s: SessionView, cfg: ConfigView)
    requires
        s.state is Connecting,
    ensures
        ({
            let e = EventView::Timer(TimerKind::TxPeriod);
            let t = step_of(s, e, cfg).0;
            let v = world_of(w, s, e, cfg);
            let tried = s.tx_count >= cfg.max_reauth_req;
            &&& !tried ==> prompted(s, t, w, v, w.armed) && t.tx_count == s.tx_count + 1 && t.authz
                == s.authz && t.accounting_open == s.accounting_open && t.auth_kind == s.auth_kind
                && v.posture == w.posture && v.reported == w.reported
            &&& tried && s.accounting_open ==> over(s, TerminateCause::ReauthFailure, t, w, v) && v.told
                == w.told
            &&& tried && !s.accounting_open ==> v.told == w.told && v.reported == w.reported
            &&& tried && !s.accounting_open && cfg.mab_enabled ==> t == (SessionView {
                state: State::AuthServer,
                auth_kind: AuthKind::Mab,
                ..s
            }) && v.asked == w.asked.push(Question::Station(s.mac)) && v.posture == w.posture && v.armed
                == w.armed.remove(TimerKind::TxPeriod).insert(TimerKind::ServerTimeout)
            &&& tried && !s.accounting_open && !cfg.mab_enabled ==> v.asked == w.asked
            &&& tried && !s.accounting_open && !cfg.mab_enabled && cfg.guest_vlan is Some
                ==> on_fallback(s, FallbackReason::Guest, cfg.guest_vlan->0, t, v) && v.armed == Set::<
                TimerKind,
            >::empty()
            &&& tried && !s.accounting_open && !cfg.mab_enabled && cfg.guest_vlan is None ==> quieted(
                s,
                t,
                v,
            )
        }),
{
    let e = EventView::Timer(TimerKind::TxPeriod);
    let before = arrived(w, e);
    let v = world_of(w, s, e, cfg);
    lemma_short(before, step_of(s, e, cfg).1);
    if s.tx_count < cfg.max_reauth_req {
        assert(v.armed =~= w.armed.insert(TimerKind::TxPeriod));
    } else if s.accounting_open {
        lemma_ended(before, s, TerminateCause::ReauthFailure);
    } else {
        assert(before.armed.remove(TimerKind::TxPeriod) =~= before.armed);
    }
}

/// A supplicant that leaves a challenge unanswered ends a session that was open, and else
/// has the port closed for the quiet period.
pub proof fn law_unanswered_challenge_closes(w: World, s: SessionView, cfg: ConfigView)
    requires
        s.state is Authenticating,
    ensures
        ({
            let e = EventView::Timer(TimerKind::SuppTimeout);
            let t = step_of(s, e, cfg).0;
            let v = world_of(w, s, e, cfg);
            &&& s.accounting_open ==> over(s, TerminateCause::ReauthFailure, t, w, v) && v.told
                == w.told
            &&& !s.accounting_open ==> quieted(s, t, v) && unheard(w, v)
        }),
{
    let e = EventView::Timer(TimerKind::SuppTimeout);
    lemma_short(arrived(w, e), step_of(s, e, cfg).1);
    if s.accounting_open {
        lemma_ended(arrived(w, e), s, TerminateCause::ReauthFailure);
    }
}

/// Losing the link, a disconnect by the server and a logoff end a session, and accounting
/// hears which of them it was.
pub proof fn law_endings_say_why(w: World, s: SessionView, e: EventView, cfg: ConfigView)
    requires
        !(s.state is New),
        e is LinkDown || e is CoaDisconnect || (e is EapolLogoff && !(s.state is Held)
            && !(s.state is Fallback)),
    ensures
        ({
            let v = world_of(w, s, e, cfg);
            let cause = if e is LinkDown {
                TerminateCause::PortLinkDown
            } else if e is CoaDisconnect {
                TerminateCause::AdminReset
            } else {
                TerminateCause::SupplicantLogoff
            };
            over(s, cause, step_of(s, e, cfg).0, w, v) && v.told == w.told
        }),
{
    let cause = if e is LinkDown {
        TerminateCause::PortLinkDown
    } else if e is CoaDisconnect {
        TerminateCause::AdminReset
    } else {
        TerminateCause::SupplicantLogoff
    };
    assert(step_of(s, e, cfg) == ended(s, cause));
    lemma_ended(w, s, cause);
}

/// When the lifetime that was granted is over, the session ends for that reason, and the
/// supplicant is asked for its identity from the start; nothing but the timer of that
/// request is running.
pub proof fn law_lifetime_is_hard(w: World, s: SessionView, cfg: ConfigView)
    requires
        s.state is Authenticated,
    ensures
        ({
            let e = EventView::Timer(TimerKind::SessionTimeout);
            let t = step_of(s, e, cfg).0;
            let v = world_of(w, s, e, cfg);
            &&& prompted(s, t, w, v, Set::empty())
            &&& t.tx_count == 1
            &&& t.authz is None
            &&& !t.accounting_open
            &&& t.auth_kind is Dot1x
            &&& v.posture is Unauthorized
            &&& v.reported == (if s.accounting_open {
                w.reported.push(AcctTrigger::Stop(TerminateCause::SessionTimeout))
            } else {
                w.reported
            })
        }),
{
    let e = EventView::Timer(TimerKind::SessionTimeout);
    let before = arrived(w, e);
    let (u, gone) = ended(s, TerminateCause::SessionTimeout);
    lemma_ended(before, s, TerminateCause::SessionTimeout);
    lemma_restarted(before, u, gone);
}

/// Re-authentication, whether it is due, asked for by the server or begun by the
/// supplicant, asks for the identity while the grant and the port stay as they are. The
/// lifetime runs on meanwhile.
pub proof fn law_reauthentication_keeps_the_port_open(
    w: World,
    s: SessionView,
    e: EventView,
    cfg: ConfigView,
)
    requires
        s.state is Authenticated,
        e == EventView::Timer(TimerKind::Reauth) || e is EapolStart || e is CoaReauthenticate,
    ensures
        ({
            let t = step_of(s, e, cfg).0;
            let v = world_of(w, s, e, cfg);
            &&& prompted(s, t, w, v, w.armed.remove(TimerKind::Reauth))
            &&& t.tx_count == 1
            &&& t.authz == s.authz
            &&& t.accounting_open == s.accounting_open
            &&& t.auth_kind == s.auth_kind
            &&& v.posture == w.posture
            &&& v.reported == w.reported
            &&& v.armed.contains(TimerKind::SessionTimeout) <==> w.armed.contains(
                TimerKind::SessionTimeout,
            )
        }),
{
    let before = arrived(w, e);
    let first = seq![EffectView::CancelTimer(TimerKind::Reauth)];
    lemma_short(before, first);
    lemma_restarted(before, s, first);
    assert(before.armed.remove(TimerKind::Reauth) =~= w.armed.remove(TimerKind::Reauth));
}

/// A grant that the server replaces is in force at once, and nothing else changes.
pub proof fn law_grant_is_replaced_in_place(
    w: World,
    s: SessionView,
    authorization: AuthorizationView,
    cfg: ConfigView,
)
    requires
        s.state is Authenticated,
    ensures
        ({
            let e = EventView::CoaAuthorize { authorization };
            let v = world_of(w, s, e, cfg);
            &&& step_of(s, e, cfg).0 == (SessionView { authz: Some(authorization), ..s })
            &&& v.posture == PortAuthorizationView::Authorized(authorization)
            &&& v.armed == w.armed
            &&& unheard(w, v)
        }),
{
    lemma_short(w, step_of(s, EventView::CoaAuthorize { authorization }, cfg).1);
}

/// A session that is put into service is closed, holds nothing, and asks for the identity
/// for the first time.
pub proof fn law_service_starts_closed(w: World, s: SessionView, cfg: ConfigView)
    ensures
        ({
            let e = EventView::Enable;
            let t = step_of(s, e, cfg).0;
            let v = world_of(w, s, e, cfg);
            &&& prompted(s, t, w, v, w.armed)
            &&& t.tx_count == 1
            &&& t.authz is None
            &&& !t.accounting_open
            &&& t.auth_kind is Dot1x
            &&& v.posture is Unauthorized
            &&& v.reported == w.reported
        }),
{
    let closed = seq![EffectView::SetAuthorization(PortAuthorizationView::Unauthorized)];
    lemma_short(w, closed);
    lemma_restarted(
        w,
        SessionView { authz: None, accounting_open: false, auth_kind: AuthKind::Dot1x, ..s },
        closed,
    );
}

/// The quiet period, and any fallback, ends with a fresh attempt: once the quiet period is
/// over, once the server is due another try from the critical VLAN, or as soon as a
/// supplicant speaks up. Until something comes of the attempt the port stays as it is.
pub proof fn law_attempts_start_afresh(w: World, s: SessionView, e: EventView, cfg: ConfigView)
    requires
        s.state is Held ==> e is EapolStart || e == EventView::Timer(TimerKind::Held),
        s.state matches State::Fallback(reason) ==> e is EapolStart || (reason is Critical && e
            == EventView::Timer(TimerKind::ServerTimeout)),
        s.state is Held || s.state is Fallback,
    ensures
        ({
            let t = step_of(s, e, cfg).0;
            let v = world_of(w, s, e, cfg);
            let gone = if s.state is Held {
                w.armed.remove(TimerKind::Held)
            } else {
                arrived(w, e).armed
            };
            &&& prompted(s, t, w, v, gone)
            &&& t.tx_count == 1
            &&& t.authz == s.authz
            &&& t.accounting_open == s.accounting_open
            &&& t.auth_kind == s.auth_kind
            &&& v.posture == w.posture
            &&& v.reported == w.reported
        }),
{
    let before = arrived(w, e);
    let first = if s.state is Held {
        seq![EffectView::CancelTimer(TimerKind::Held)]
    } else {
        Seq::empty()
    };
    lemma_short(before, first);
    lemma_restarted(before, s, first);
    if s.state is Held {
        assert(before.armed.remove(TimerKind::Held) =~= w.armed.remove(TimerKind::Held));
    }
}

/// A supplicant that starts over while it is being asked, or a link that comes up then, is
/// asked again within the same attempt: the count of requests goes on from where it was.
pub proof fn law_starting_over_stays_in_the_attempt(
    w: World,
    s: SessionView,
    e: EventView,
    cfg: ConfigView,
)
    requires
        (s.state is Connecting && (e is EapolStart || e is LinkUp)) || (s.state is Authenticating
            && e is EapolStart),
    ensures
        ({
            let t = step_of(s, e, cfg).0;
            let v = world_of(w, s, e, cfg);
            let gone = if s.state is Authenticating {
                w.armed.remove(TimerKind::SuppTimeout)
            } else {
                w.armed
            };
            &&& prompted(s, t, w, v, gone)
            &&& t.tx_count == s.tx_count
            &&& t.authz == s.authz
            &&& t.accounting_open == s.accounting_open
            &&& t.auth_kind == s.auth_kind
            &&& v.posture == w.posture
            &&& v.reported == w.reported
        }),
{
    let (t, fx) = step_of(s, e, cfg);
    lemma_short(w, fx);
}

/// An open session ends by nothing but these: being put into service anew, losing the
/// link, a disconnect, a logoff, the end of its lifetime, a rejection, or a supplicant
/// that stays silent when it is asked to authenticate again.
pub proof fn law_a_grant_outlives_everything_else(s: SessionView, e: EventView, cfg: ConfigView)
    requires
        sound(s),
        s.accounting_open,
    ensures
        step_of(s, e, cfg).0.accounting_open <==> !(match e {
            EventView::Enable
            | EventView::LinkDown
            | EventView::CoaDisconnect
            | EventView::EapolLogoff => true,
            EventView::AccessReject { .. } => s.state is AuthServer,
            EventView::Timer(TimerKind::SessionTimeout) => s.state is Authenticated,
            EventView::Timer(TimerKind::SuppTimeout) => s.state is Authenticating,
            EventView::Timer(TimerKind::TxPeriod) => s.state is Connecting && s.tx_count
                >= cfg.max_reauth_req,
            _ => false,
        }),
        step_of(s, e, cfg).0.accounting_open && !(e is AccessAccept) && !(e is CoaAuthorize)
            ==> step_of(s, e, cfg).0.authz == s.authz,
{
}

/// A session opens by nothing but an accept, and only while it awaits the server.
pub proof fn law_nothing_else_opens(s: SessionView, e: EventView, cfg: ConfigView)
    requires
        !s.accounting_open,
    ensures
        step_of(s, e, cfg).0.accounting_open <==> e is AccessAccept && s.state is AuthServer,
{
}

/// An event that is out of place leaves the session, and everything outside it but the
/// timer that has fired, as it was. Out of service only being put into it counts. In
/// service, putting it there anew, losing the link and a disconnect always count, and
/// besides these: in the quiet period its end and a supplicant that starts over; on a
/// fallback the latter, and on the critical one another try of the server; while asking
/// for the identity a response, a start, a logoff, the link coming up and silence; while
/// awaiting the server its answers and its silence, and a logoff; while awaiting the
/// supplicant a response, its silence, a start and a logoff; and once authenticated what
/// the server changes, a start, a logoff, and the ends of the two periods.
pub proof fn law_out_of_place_is_harmless(w: World, s: SessionView, e: EventView, cfg: ConfigView)
    requires
        !(e is Enable),
        !(s.state is New) ==> !(e is LinkDown) && !(e is CoaDisconnect),
        s.state is Held ==> !(e is EapolStart) && e != EventView::Timer(TimerKind::Held),
        s.state is Fallback ==> !(e is EapolStart),
        s.state == State::Fallback(FallbackReason::Critical) ==> e != EventView::Timer(
            TimerKind::ServerTimeout,
        ),
        s.state is Connecting ==> !(e matches EventView::EapFromSupplicant(eap) && eap.code is Response)
            && !(e is EapolStart) && !(e is EapolLogoff) && !(e is LinkUp) && e != EventView::Timer(
            TimerKind::TxPeriod,
        ),
        s.state is AuthServer ==> !(e is AccessChallenge) && !(e is AccessAccept) && !(e is AccessReject)
            && !(e is ServerUnreachable) && e != EventView::Timer(TimerKind::ServerTimeout)
            && !(e is EapolLogoff),
        s.state is Authenticating ==> !(e matches EventView::EapFromSupplicant(eap)
            && eap.code is Response) && !(e is EapolStart) && !(e is EapolLogoff) && e
            != EventView::Timer(TimerKind::SuppTimeout),
        s.state is Authenticated ==> !(e is CoaAuthorize) && !(e is CoaReauthenticate)
            && !(e is EapolStart) && !(e is EapolLogoff) && e != EventView::Timer(TimerKind::Reauth)
            && e != EventView::Timer(TimerKind::SessionTimeout),
    ensures
        step_of(s, e, cfg).0 == s,
        world_of(w, s, e, cfg) == arrived(w, e),
        step_of(s, e, cfg).1.len() == 0,
{
}

/// What comes first matters: the dataplane is set before accounting hears of a start, and
/// accounting hears of a stop before the dataplane is closed.
pub proof fn law_accounting_brackets_the_opening(
    s: SessionView,
    e: EventView,
    cfg: ConfigView,
    i: int,
    j: int,
)
    requires
        0 <= i < step_of(s, e, cfg).1.len(),
        0 <= j < step_of(s, e, cfg).1.len(),
        step_of(s, e, cfg).1[i] is SetAuthorization,
        step_of(s, e, cfg).1[j] is Accounting,
    ensures
        step_of(s, e, cfg).1[j] == EffectView::Accounting(AcctTrigger::Start) <==> i < j,
{
}

/// The supplicant hears what the server sent along with its verdict before anything else
/// is done about it.
pub proof fn law_verdicts_are_passed_on_first(
    s: SessionView,
    e: EventView,
    cfg: ConfigView,
    packet: Seq<u8>,
)
    requires
        s.state is AuthServer,
        match e {
            EventView::AccessAccept { eap, .. } => eap == Some(packet),
            EventView::AccessReject { eap } => eap == Some(packet),
            _ => false,
        },
    ensures
        step_of(s, e, cfg).1.len() > 0,
        step_of(s, e, cfg).1[0] == EffectView::TxEapToSupplicant(packet),
{
}

} // verus!
