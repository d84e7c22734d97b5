//! What holds of every session, whatever events arrive and in whatever order.

use super::config::{ConfigView, TimerKind};
use super::effect::{
    AcctTrigger, AuthorizationView, EffectView, FallbackReason, PortAuthorizationView, TerminateCause,
};
use super::event::EventView;
use super::session::{
    accepted, ended, idle, ignored, next_id, refused, rejected, relay_down, restarted, solicited, step_of,
    SessionView, State,
};
use crate::pacp::eap::request_identity_bytes;
use crate::pacp::ethernet::MacAddr;
use vstd::prelude::*;

verus! {

/// The pairs of state and event that the machine reacts to.
pub open spec fn handles(state: State, e: EventView) -> bool {
    match e {
        EventView::Enable => true,
        EventView::LinkDown | EventView::CoaDisconnect => !(state is New),
        EventView::CoaAuthorize { .. } | EventView::CoaReauthenticate => state is Authenticated,
        EventView::EapolStart => state is Connecting || state is Authenticating || state is Authenticated
            || state is Held || state is Fallback,
        EventView::EapolLogoff => state is Connecting || state is AuthServer || state is Authenticating
            || state is Authenticated,
        EventView::LinkUp => state is Connecting,
        EventView::EapFromSupplicant(eap) => eap.code is Response && (state is Connecting
            || state is Authenticating),
        EventView::AccessChallenge { .. }
        | EventView::AccessAccept { .. }
        | EventView::AccessReject { .. }
        | EventView::ServerUnreachable => state is AuthServer,
        EventView::Timer(TimerKind::TxPeriod) => state is Connecting,
        EventView::Timer(TimerKind::Held) => state is Held,
        EventView::Timer(TimerKind::Reauth) => state is Authenticated,
        EventView::Timer(TimerKind::SessionTimeout) => state is Authenticated,
        EventView::Timer(TimerKind::SuppTimeout) => state is Authenticating,
        EventView::Timer(TimerKind::ServerTimeout) => state is AuthServer || state
            == State::Fallback(FallbackReason::Critical),
    }
}

/// An event that the state does not handle changes nothing and asks for nothing.
pub proof fn law_unhandled_is_ignored(s: SessionView, e: EventView, cfg: ConfigView)
    requires
        !handles(s.state, e),
    ensures
        step_of(s, e, cfg) == ignored(s),
{
}

/// The machine fails closed: the dataplane is told to open only when the server
/// that was asked accepted, or when the server replaces the authorization of a
/// session that is already authenticated; and always with just what it granted.
pub proof fn law_only_the_server_opens(
    s: SessionView,
    e: EventView,
    cfg: ConfigView,
    i: int,
    granted: AuthorizationView,
)
    requires
        0 <= i < step_of(s, e, cfg).1.len(),
        step_of(s, e, cfg).1[i] == EffectView::SetAuthorization(
            PortAuthorizationView::Authorized(granted),
        ),
    ensures
        match e {
            EventView::AccessAccept { authorization, .. } => s.state is AuthServer && authorization
                == granted,
            EventView::CoaAuthorize { authorization } => s.state is Authenticated && authorization
                == granted,
            _ => false,
        },
{
}

/// A session becomes authenticated only by an accept, or by riding out an outage
/// with a session that an accept had opened.
pub proof fn law_only_an_accept_authenticates(s: SessionView, e: EventView, cfg: ConfigView)
    requires
        !(s.state is Authenticated),
        step_of(s, e, cfg).0.state is Authenticated,
    ensures
        s.state is AuthServer,
        e is AccessAccept || s.accounting_open,
{
}

/// EAP passes through untouched on its way up: what goes to the server is the
/// supplicant's response.
pub proof fn law_relay_up_is_verbatim(s: SessionView, e: EventView, cfg: ConfigView, i: int, packet: Seq<u8>)
    requires
        0 <= i < step_of(s, e, cfg).1.len(),
        step_of(s, e, cfg).1[i] == EffectView::ToAuthServer(packet),
    ensures
        e matches EventView::EapFromSupplicant(eap) && eap.code is Response && eap.packet == packet,
{
}

/// EAP passes through untouched on its way down: what goes to the supplicant is
/// what the server sent, or else the machine's own solicitation under the
/// session's identifier.
pub proof fn law_relay_down_is_verbatim(s: SessionView, e: EventView, cfg: ConfigView, i: int, packet: Seq<u8>)
    requires
        0 <= i < step_of(s, e, cfg).1.len(),
        step_of(s, e, cfg).1[i] == EffectView::TxEapToSupplicant(packet),
    ensures
        match e {
            EventView::AccessChallenge { eap } => eap == packet,
            EventView::AccessAccept { eap, .. } => eap == Some(packet),
            EventView::AccessReject { eap } => eap == Some(packet),
            _ => packet == request_identity_bytes(step_of(s, e, cfg).0.eap_id),
        },
{
}

/// What a session's fields say of each other: an accounting session is open
/// exactly while an authorization is held, throughout authentication, and never
/// in a state that has none.
pub open spec fn sound(s: SessionView) -> bool {
    &&& s.accounting_open <==> s.authz is Some
    &&& s.state is Authenticated ==> s.accounting_open
    &&& (s.state is New || s.state is Held || s.state is Fallback) ==> !s.accounting_open
}

/// What the server is asked.
#[verifier::ext_equal]
pub enum Question {
    /// What to make of an EAP packet of the supplicant.
    Eap(Seq<u8>),
    /// What to make of a bare address.
    Station(MacAddr),
}

/// What the effects of one session have brought about outside it.
#[verifier::ext_equal]
pub struct World {
    /// What the dataplane was last told.
    pub posture: PortAuthorizationView,
    /// Whether the accounting server has an open session, or `None` once a Start
    /// came while one was open or a Stop while none was.
    pub accounting: Option<bool>,
    /// The timers that are running.
    pub armed: Set<TimerKind>,
    /// Whether a port that opens and closes with this session is open: the
    /// session's openings and closings, without its fallbacks.
    pub port_open: bool,
    /// The EAP packets that were sent to the supplicant, in order.
    pub told: Seq<Seq<u8>>,
    /// What the server was asked, in order.
    pub asked: Seq<Question>,
    /// What was reported to accounting, in order.
    pub reported: Seq<AcctTrigger>,
}

/// What performing one effect brings about.
pub open spec fn performed(w: World, x: EffectView) -> World {
    match x {
        EffectView::SetAuthorization(posture) => World {
            posture,
            port_open: match posture {
                PortAuthorizationView::Authorized(_) => true,
                PortAuthorizationView::Unauthorized => false,
                PortAuthorizationView::Fallback { .. } => w.port_open,
            },
            ..w
        },
        EffectView::Accounting(AcctTrigger::Start) => World {
            accounting: if w.accounting == Some(false) { Some(true) } else { None },
            reported: w.reported.push(AcctTrigger::Start),
            ..w
        },
        EffectView::Accounting(AcctTrigger::Stop(cause)) => World {
            accounting: if w.accounting == Some(true) { Some(false) } else { None },
            reported: w.reported.push(AcctTrigger::Stop(cause)),
            ..w
        },
        EffectView::ArmTimer(k) => World { armed: w.armed.insert(k), ..w },
        EffectView::CancelTimer(k) => World { armed: w.armed.remove(k), ..w },
        EffectView::CancelAllTimers => World { armed: Set::empty(), ..w },
        EffectView::TxEapToSupplicant(packet) => World { told: w.told.push(packet), ..w },
        EffectView::ToAuthServer(packet) => World { asked: w.asked.push(Question::Eap(packet)), ..w },
        EffectView::StartMab(mac) => World { asked: w.asked.push(Question::Station(mac)), ..w },
    }
}

/// What performing a list of effects in order brings about.
pub open spec fn performed_all(w: World, fx: Seq<EffectView>) -> World
    decreases fx.len(),
{
    if fx.len() == 0 {
        w
    } else {
        performed(performed_all(w, fx.drop_last()), fx.last())
    }
}

/// The world as an event finds it: a timer that has fired is not running any more.
pub open spec fn arrived(w: World, e: EventView) -> World {
    match e {
        EventView::Timer(k) => World { armed: w.armed.remove(k), ..w },
        _ => w,
    }
}

/// The world after a session has taken an event and its effects are performed.
pub open spec fn world_of(w: World, s: SessionView, e: EventView, cfg: ConfigView) -> World {
    performed_all(arrived(w, e), step_of(s, e, cfg).1)
}

/// The dataplane agrees with the session: it is open exactly while the session
/// is, with the session's own authorization; it is closed for a session that is
/// held or not in service; and a fallback has the reason the session is in.
pub open spec fn enforced(s: SessionView, p: PortAuthorizationView) -> bool {
    &&& p is Authorized <==> s.accounting_open
    &&& p matches PortAuthorizationView::Authorized(a) ==> s.authz == Some(a)
    &&& (s.state is New || s.state is Held) ==> p is Unauthorized
    &&& s.state matches State::Fallback(reason) ==> (p matches PortAuthorizationView::Fallback {
        reason: r,
        ..
    } && r == reason)
}

/// A session that waits for something has the timer running that ends the wait;
/// one that is out of service has none.
pub open spec fn timed(s: SessionView, armed: Set<TimerKind>) -> bool {
    match s.state {
        State::New => armed == Set::<TimerKind>::empty(),
        State::Connecting => armed.contains(TimerKind::TxPeriod),
        State::AuthServer => armed.contains(TimerKind::ServerTimeout),
        State::Authenticating => armed.contains(TimerKind::SuppTimeout),
        State::Held => armed.contains(TimerKind::Held),
        State::Fallback(FallbackReason::Critical) => armed.contains(TimerKind::ServerTimeout),
        _ => true,
    }
}

pub proof fn lemma_append(w: World, a: Seq<EffectView>, b: Seq<EffectView>)
    ensures
        performed_all(w, a + b) == performed_all(performed_all(w, a), b),
    decreases b.len(),
{
    if b.len() == 0 {
        assert(a + b =~= a);
    } else {
        assert((a + b).last() == b.last());
        assert((a + b).drop_last() =~= a + b.drop_last());
        lemma_append(w, a, b.drop_last());
    }
}

/// The effect of a list of up to three effects, written out.
pub proof fn lemma_short(w: World, fx: Seq<EffectView>)
    ensures
        fx.len() == 0 ==> performed_all(w, fx) == w,
        fx.len() == 1 ==> performed_all(w, fx) == performed(w, fx[0]),
        fx.len() == 2 ==> performed_all(w, fx) == performed(performed(w, fx[0]), fx[1]),
        fx.len() == 3 ==> performed_all(w, fx) == performed(
            performed(performed(w, fx[0]), fx[1]),
            fx[2],
        ),
{
    reveal_with_fuel(performed_all, 4);
}

/// What a fresh solicitation adds to what comes before it.
pub proof fn lemma_restarted(w: World, s: SessionView, first: Seq<EffectView>)
    ensures
        ({
            let v = performed_all(w, first);
            performed_all(w, restarted(s, first).1) == World {
                armed: v.armed.insert(TimerKind::TxPeriod),
                told: v.told.push(request_identity_bytes(next_id(s.eap_id))),
                ..v
            }
        }),
{
    let fresh = SessionView { state: State::Connecting, tx_count: 1, ..s };
    lemma_append(w, first, solicited(fresh).1);
    lemma_short(performed_all(w, first), solicited(fresh).1);
}

/// What ending a session brings about.
pub proof fn lemma_ended(w: World, s: SessionView, cause: TerminateCause)
    requires
        !(s.state is New),
    ensures
        ({
            let v = performed_all(w, ended(s, cause).1);
            &&& v.posture is Unauthorized
            &&& v.armed == Set::<TimerKind>::empty()
            &&& w.accounting == Some(s.accounting_open) ==> v.accounting == Some(false)
            &&& !v.port_open
            &&& v.told == w.told
            &&& v.asked == w.asked
            &&& v.reported == (if s.accounting_open {
                w.reported.push(AcctTrigger::Stop(cause))
            } else {
                w.reported
            })
        }),
{
    lemma_short(w, ended(s, cause).1);
}

/// What an accept brings about, whether or not the session held a grant before.
pub proof fn lemma_accepted(
    w: World,
    s: SessionView,
    authz: AuthorizationView,
    eap: Option<Seq<u8>>,
    cfg: ConfigView,
)
    ensures
        ({
            let v = performed_all(w, accepted(s, authz, eap, cfg).1);
            &&& v.posture == PortAuthorizationView::Authorized(authz)
            &&& w.accounting == Some(s.accounting_open) ==> v.accounting == Some(true)
            &&& v.port_open
            &&& forall|k: TimerKind| #[trigger]
                v.armed.contains(k) <==> (k is Reauth && cfg.reauth_enabled) || (k is SessionTimeout
                    && authz.session_timeout is Some)
            &&& v.told == (match eap {
                Some(packet) => w.told.push(packet),
                None => w.told,
            })
            &&& v.asked == w.asked
            &&& v.reported == (if s.accounting_open {
                w.reported
            } else {
                w.reported.push(AcctTrigger::Start)
            })
        }),
{
    let opening = seq![
        EffectView::CancelAllTimers,
        EffectView::SetAuthorization(PortAuthorizationView::Authorized(authz)),
    ];
    let start = if s.accounting_open {
        Seq::empty()
    } else {
        seq![EffectView::Accounting(AcctTrigger::Start)]
    };
    let reauth = if cfg.reauth_enabled {
        seq![EffectView::ArmTimer(TimerKind::Reauth)]
    } else {
        Seq::empty()
    };
    let lifetime = if authz.session_timeout is Some {
        seq![EffectView::ArmTimer(TimerKind::SessionTimeout)]
    } else {
        Seq::empty()
    };
    let down = relay_down(eap);
    lemma_append(w, down, opening);
    lemma_append(w, down + opening, start);
    lemma_append(w, down + opening + start, reauth);
    lemma_append(w, down + opening + start + reauth, lifetime);
    let w1 = performed_all(w, down);
    lemma_short(w, down);
    let w2 = performed_all(w1, opening);
    lemma_short(w1, opening);
    let w3 = performed_all(w2, start);
    lemma_short(w2, start);
    let w4 = performed_all(w3, reauth);
    lemma_short(w3, reauth);
    lemma_short(w4, lifetime);
}

/// A rejection brings about what the refusal does, once its EAP is relayed.
pub proof fn lemma_rejected(w: World, s: SessionView, eap: Option<Seq<u8>>, cfg: ConfigView)
    ensures
        performed_all(w, rejected(s, eap, cfg).1) == performed_all(
            World {
                told: match eap {
                    Some(packet) => w.told.push(packet),
                    None => w.told,
                },
                ..w
            },
            refused(s, cfg).1,
        ),
{
    lemma_append(w, relay_down(eap), refused(s, cfg).1);
    lemma_short(w, relay_down(eap));
}

/// The world agrees with a session.
pub open spec fn follows(s: SessionView, w: World) -> bool {
    sound(s) && enforced(s, w.posture) && timed(s, w.armed)
}

/// One step, with all that it keeps.
proof fn lemma_step(w: World, s: SessionView, e: EventView, cfg: ConfigView)
    requires
        follows(s, w),
    ensures
        follows(step_of(s, e, cfg).0, world_of(w, s, e, cfg)),
        w.accounting == Some(s.accounting_open) && !(e is Enable && s.accounting_open)
            ==> world_of(w, s, e, cfg).accounting == Some(step_of(s, e, cfg).0.accounting_open),
        w.port_open == s.accounting_open ==> world_of(w, s, e, cfg).port_open == step_of(
            s,
            e,
            cfg,
        ).0.accounting_open,
{
    let w = arrived(w, e);
    let (t, fx) = step_of(s, e, cfg);
    if !handles(s.state, e) {
        law_unhandled_is_ignored(s, e, cfg);
        if let EventView::Timer(k) = e {
            assert(Set::<TimerKind>::empty().remove(k) =~= Set::<TimerKind>::empty());
        }
    } else if e is Enable {
        let closed = seq![EffectView::SetAuthorization(PortAuthorizationView::Unauthorized)];
        lemma_short(w, closed);
        lemma_restarted(
            w,
            SessionView {
                authz: None,
                accounting_open: false,
                auth_kind: super::session::AuthKind::Dot1x,
                ..s
            },
            closed,
        );
    } else if e is LinkDown {
        lemma_ended(w, s, TerminateCause::PortLinkDown);
    } else if e is CoaDisconnect {
        lemma_ended(w, s, TerminateCause::AdminReset);
    } else if e is EapolLogoff {
        lemma_ended(w, s, TerminateCause::SupplicantLogoff);
    } else if e is CoaAuthorize {
        lemma_short(w, fx);
    } else if s.state is Connecting {
        if t.state is New {
            lemma_ended(w, s, TerminateCause::ReauthFailure);
        } else {
            lemma_short(w, fx);
        }
    } else if s.state is AuthServer {
        match e {
            EventView::AccessAccept { authorization, eap } => lemma_accepted(w, s, authorization, eap, cfg),
            EventView::AccessReject { eap } => {
                lemma_rejected(w, s, eap, cfg);
                let relayed = performed_all(w, relay_down(eap));
                lemma_short(w, relay_down(eap));
                if s.accounting_open {
                    lemma_ended(relayed, s, TerminateCause::ReauthFailure);
                } else {
                    lemma_short(relayed, refused(s, cfg).1);
                }
            },
            _ => lemma_short(w, fx),
        }
    } else if s.state is Authenticating {
        if t.state is New {
            lemma_ended(w, s, TerminateCause::ReauthFailure);
        } else {
            lemma_short(w, fx);
        }
    } else if s.state is Authenticated {
        if e == EventView::Timer(TimerKind::SessionTimeout) {
            let (u, gone) = ended(s, TerminateCause::SessionTimeout);
            lemma_ended(w, s, TerminateCause::SessionTimeout);
            lemma_restarted(w, u, gone);
        } else {
            lemma_short(w, fx);
        }
    } else {
        lemma_short(w, fx);
    }
}

/// Every step keeps a session sound.
pub proof fn law_session_stays_sound(s: SessionView, e: EventView, cfg: ConfigView)
    requires
        sound(s),
    ensures
        sound(step_of(s, e, cfg).0),
{
}

/// Every step keeps the world in agreement with the session: the dataplane is open
/// for it exactly while the server's grant stands, and no wait is without a timer
/// that ends it.
pub proof fn law_world_follows_the_session(w: World, s: SessionView, e: EventView, cfg: ConfigView)
    requires
        follows(s, w),
    ensures
        follows(step_of(s, e, cfg).0, world_of(w, s, e, cfg)),
{
    lemma_step(w, s, e, cfg);
}

/// Accounting Starts and Stops come in turn, and what the accounting server knows
/// is what the session knows. Putting a session into service anew while it is open
/// is left out: that drops the open accounting session without a Stop.
pub proof fn law_accounting_alternates(w: World, s: SessionView, e: EventView, cfg: ConfigView)
    requires
        follows(s, w),
        w.accounting == Some(s.accounting_open),
        !(e is Enable && s.accounting_open),
    ensures
        world_of(w, s, e, cfg).accounting == Some(step_of(s, e, cfg).0.accounting_open),
{
    lemma_step(w, s, e, cfg);
}

/// The world before a session has done anything.
pub open spec fn quiet() -> World {
    World {
        posture: PortAuthorizationView::Unauthorized,
        accounting: Some(false),
        armed: Set::empty(),
        port_open: false,
        told: Seq::empty(),
        asked: Seq::empty(),
        reported: Seq::empty(),
    }
}

/// An event, and the configuration that it is taken under.
pub type Turn = (EventView, ConfigView);

/// A session and its world after a history of events, from the very start.
pub open spec fn history(mac: MacAddr, turns: Seq<Turn>) -> (SessionView, World)
    decreases turns.len(),
{
    if turns.len() == 0 {
        (idle(mac), quiet())
    } else {
        let (s, w) = history(mac, turns.drop_last());
        let (e, cfg) = turns.last();
        (step_of(s, e, cfg).0, world_of(w, s, e, cfg))
    }
}

/// After any history at all the world agrees with the session.
pub proof fn law_every_history_is_enforced(mac: MacAddr, turns: Seq<Turn>)
    ensures
        follows(history(mac, turns).0, history(mac, turns).1),
        history(mac, turns).0.mac == mac,
    decreases turns.len(),
{
    if turns.len() > 0 {
        law_every_history_is_enforced(mac, turns.drop_last());
        let (s, w) = history(mac, turns.drop_last());
        let (e, cfg) = turns.last();
        lemma_step(w, s, e, cfg);
    }
}

/// In any history that puts the session into service only while it is out of it, every
/// accounting Start is followed by at most one Stop before the next Start, and what is
/// left open is what the session still holds.
pub proof fn law_accounting_is_balanced(mac: MacAddr, turns: Seq<Turn>)
    requires
        forall|i: int|
            0 <= i < turns.len() && (#[trigger] turns[i]).0 is Enable ==> history(
                mac,
                turns.take(i),
            ).0.state is New,
    ensures
        history(mac, turns).1.accounting == Some(history(mac, turns).0.accounting_open),
    decreases turns.len(),
{
    if turns.len() > 0 {
        let before = turns.drop_last();
        assert forall|i: int| 0 <= i < before.len() && (#[trigger] before[i]).0 is Enable implies history(
            mac,
            before.take(i),
        ).0.state is New by {
            assert(before[i] == turns[i]);
            assert(before.take(i) =~= turns.take(i));
        }
        law_accounting_is_balanced(mac, before);
        law_every_history_is_enforced(mac, before);
        let (s, w) = history(mac, before);
        let (e, cfg) = turns.last();
        assert(turns.take(turns.len() - 1) =~= before);
        assert(turns[turns.len() - 1] == turns.last());
        law_accounting_alternates(w, s, e, cfg);
    }
}

/// A port that opens and closes with a session is open after a step exactly if the
/// session then is, for any session that is sound.
pub proof fn lemma_port_open(w: World, s: SessionView, e: EventView, cfg: ConfigView)
    requires
        sound(s),
        w.port_open == s.accounting_open,
    ensures
        performed_all(w, step_of(s, e, cfg).1).port_open == step_of(s, e, cfg).0.accounting_open,
{
    let posture = match (s.authz, s.state) {
        (Some(a), _) => PortAuthorizationView::Authorized(a),
        (None, State::Fallback(reason)) => PortAuthorizationView::Fallback { reason, vlan: None },
        (None, _) => PortAuthorizationView::Unauthorized,
    };
    let armed = if s.state is New {
        Set::empty()
    } else {
        Set::empty().insert(TimerKind::TxPeriod).insert(TimerKind::Held).insert(
            TimerKind::ServerTimeout,
        ).insert(TimerKind::SuppTimeout)
    };
    let v = World { posture, armed, ..w };
    lemma_step(v, s, e, cfg);
    lemma_port_open_alone(w, arrived(v, e), step_of(s, e, cfg).1);
}

/// What the port is told depends on nothing else of the world.
proof fn lemma_port_open_alone(w: World, v: World, fx: Seq<EffectView>)
    requires
        w.port_open == v.port_open,
    ensures
        performed_all(w, fx).port_open == performed_all(v, fx).port_open,
    decreases fx.len(),
{
    if fx.len() > 0 {
        lemma_port_open_alone(w, v, fx.drop_last());
    }
}

/// What ends a session: losing the link and a disconnect by the server do in any state,
/// a logoff wherever there is something to log off from.
pub open spec fn ends(state: State, e: EventView) -> bool {
    match e {
        EventView::LinkDown | EventView::CoaDisconnect => true,
        EventView::EapolLogoff => !(state is Held) && !(state is Fallback),
        _ => false,
    }
}

/// Whatever a session was at, what ends it closes the port for it, stops its
/// accounting if that was open, and leaves it out of service with no timer.
pub proof fn law_ending_closes(w: World, s: SessionView, e: EventView, cfg: ConfigView)
    requires
        follows(s, w),
        ends(s.state, e),
    ensures
        step_of(s, e, cfg).0.state is New,
        world_of(w, s, e, cfg).posture is Unauthorized,
        world_of(w, s, e, cfg).armed == Set::<TimerKind>::empty(),
        w.accounting == Some(s.accounting_open) ==> world_of(w, s, e, cfg).accounting == Some(false),
{
    lemma_step(w, s, e, cfg);
}

/// The lifetime that the server granted is a hard one: when it is over the port closes,
/// the accounting stops, and the supplicant has to authenticate from the start.
pub proof fn law_expiry_deauthorizes(w: World, s: SessionView, cfg: ConfigView)
    requires
        follows(s, w),
        s.state is Authenticated,
    ensures
        ({
            let e = EventView::Timer(TimerKind::SessionTimeout);
            let t = step_of(s, e, cfg).0;
            let v = world_of(w, s, e, cfg);
            &&& t.state is Connecting
            &&& t.authz is None
            &&& v.posture is Unauthorized
            &&& w.accounting == Some(true) ==> v.accounting == Some(false)
        }),
{
    let e = EventView::Timer(TimerKind::SessionTimeout);
    let before = arrived(w, e);
    let (u, gone) = ended(s, TerminateCause::SessionTimeout);
    lemma_ended(before, s, TerminateCause::SessionTimeout);
    lemma_restarted(before, u, gone);
}

/// A supplicant that speaks up is heard: unless the server is being asked already, an
/// EAPOL-Start to a session in service solicits its identity anew, whether the session
/// is held, on a fallback VLAN, or open by MAC Authentication Bypass.
pub proof fn law_start_solicits(s: SessionView, cfg: ConfigView)
    requires
        !(s.state is New) && !(s.state is AuthServer),
    ensures
        step_of(s, EventView::EapolStart, cfg).0.state is Connecting,
        step_of(s, EventView::EapolStart, cfg).0.eap_id == next_id(s.eap_id),
        step_of(s, EventView::EapolStart, cfg).1.contains(
            EffectView::TxEapToSupplicant(request_identity_bytes(next_id(s.eap_id))),
        ),
{
    let fx = step_of(s, EventView::EapolStart, cfg).1;
    let ask = EffectView::TxEapToSupplicant(request_identity_bytes(next_id(s.eap_id)));
    assert(fx[fx.len() - 2] == ask);
}

} // verus!
