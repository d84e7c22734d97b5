//! What the daemon asks of the server, the dataplane and the timers on behalf of each
//! station, and what becomes of the answers.

use super::dispatch::{
    advanced, fed, identity_of, ActionView, ExchangeView, OrchestratorView, StateView, MAX_STEPS,
};
use super::error::AuthdError;
use super::session::{radius_result, RadiusSessionView};
use crate::enforce::Target;
use crate::pacp::eap::{eap_decodes, law_identity_is_verbatim};
use crate::pacp::ethernet::{mac_text, MacAddr};
use crate::pae::config::{TimerKind, Timers};
use crate::pae::effect::{AcctTrigger, AuthorizationView, EffectView, PortAuthorizationView};
use crate::pae::event::EventView;
use crate::pae::port::{handled, DirectedView, PortView};
use crate::radius::packet::{first_of, PacketView};
use crate::radius_client::accounting::accounting_outcome;
use crate::radius_client::context::ContextView;
use crate::radius_client::eap_message::{eap_of, lemma_eap_of_none};
use crate::radius_client::laws::{
    cause_number, introduces, is_number, law_accounting_says_it_all, law_eap_request_says_it_all,
    law_mab_request_says_it_all,
};
use crate::radius_client::reply::{genuine, reply_event};
use crate::radius_client::request::{eap_request, mab_request};
use crate::text::decimal;
use vstd::prelude::*;
use vstd::utf8::encode_utf8;

verus! {

/// The NAS and the port of the template, and the station in its place.
pub open spec fn about(template: ContextView, station: MacAddr) -> ContextView {
    ContextView {
        nas_ip: template.nas_ip,
        nas_identifier: template.nas_identifier,
        nas_port_id: template.nas_port_id,
        nas_port: template.nas_port,
        called_station: template.called_station,
        calling_station: station,
    }
}

/// A request is about a station: the first Calling-Station-Id (31) in it is the text of
/// that station's address, and the rest of the NAS attributes are those of the template.
pub open spec fn is_about(request: PacketView, template: ContextView, station: MacAddr) -> bool {
    &&& first_of(request.attributes, 31) == Some(encode_utf8(mac_text(station)))
    &&& introduces(request.attributes, about(template, station))
}

/// What is known of a station once it has been asked about: the Identifier is used up,
/// the authenticator is outstanding, and the rest is as it was.
pub open spec fn asked_about(before: StateView, after: StateView, nonce: [u8; 16]) -> bool {
    &&& after.radius.next_id as int == (before.radius.next_id + 1) % 256
    &&& after.radius.pending == Some(nonce)
    &&& after.radius.next_acct_id == before.radius.next_acct_id
    &&& after.radius.last_state == before.radius.last_state
    &&& after.radius.class == before.radius.class
    &&& after.session_timeout == before.session_timeout
    &&& after.acct_id == before.acct_id
}

/// The EAP of a station goes to the server in an Access-Request about that station, under
/// the next Identifier and the fresh authenticator, as a Framed (2) login (6), with the
/// State (24) of the last challenge, and with the User-Name (1) where the EAP gives one.
pub proof fn law_eap_is_relayed_for_its_station(
    o: OrchestratorView,
    mac: MacAddr,
    eap: Seq<u8>,
    timers: Timers,
    nonce: [u8; 16],
)
    ensures
        ({
            let de = DirectedView { mac: Some(mac), effect: EffectView::ToAuthServer(eap) };
            let (p, r) = o.dispatched(de, timers, nonce);
            let st = o.state_of(mac);
            &&& asked_about(st, p.state_of(mac), nonce)
            &&& r is Ok <==> eap_request(
                about(o.ctx, mac),
                st.radius.next_id,
                nonce,
                identity_of(eap),
                st.radius.last_state,
                eap,
            ) is Ok
            &&& match r {
                Ok(ActionView::AccessRequest { mac: m, request }) => {
                    &&& m == mac
                    &&& is_about(request, o.ctx, mac)
                    &&& request.identifier == st.radius.next_id
                    &&& request.authenticator == nonce
                    &&& is_number(first_of(request.attributes, 6), 2)
                    &&& eap_of(request.attributes) == eap
                    &&& first_of(request.attributes, 24) == st.radius.last_state
                    &&& first_of(request.attributes, 1) == identity_of(eap)
                },
                Ok(_) => false,
                Err(e) => e is Radius,
            }
        }),
{
    let st = o.state_of(mac);
    let ctx = about(o.ctx, mac);
    assert(ctx == o.ctx_of(mac));
    let (id, state) = (st.radius.next_id, st.radius.last_state);
    if eap_request(ctx, id, nonce, identity_of(eap), state, eap) is Ok {
        law_eap_request_says_it_all(ctx, id, nonce, identity_of(eap), state, eap);
    }
}

/// A station without a supplicant is asked about by its bare address, in an
/// Access-Request about that station, under the next Identifier and the fresh
/// authenticator, as a Call-Check (10) login (6), whose User-Name (1) is that address,
/// and without EAP.
pub proof fn law_bypass_names_its_station(
    o: OrchestratorView,
    target: Option<MacAddr>,
    mac: MacAddr,
    timers: Timers,
    nonce: [u8; 16],
)
    ensures
        ({
            let de = DirectedView { mac: target, effect: EffectView::StartMab(mac) };
            let (p, r) = o.dispatched(de, timers, nonce);
            let st = o.state_of(mac);
            &&& asked_about(st, p.state_of(mac), nonce)
            &&& r is Ok <==> mab_request(about(o.ctx, mac), st.radius.next_id, nonce) is Ok
            &&& match r {
                Ok(ActionView::AccessRequest { mac: m, request }) => {
                    &&& m == mac
                    &&& is_about(request, o.ctx, mac)
                    &&& request.identifier == st.radius.next_id
                    &&& request.authenticator == nonce
                    &&& is_number(first_of(request.attributes, 6), 10)
                    &&& first_of(request.attributes, 1) == Some(encode_utf8(mac_text(mac)))
                    &&& eap_of(request.attributes) == Seq::<u8>::empty()
                },
                Ok(_) => false,
                Err(e) => e is Radius,
            }
        }),
{
    let st = o.state_of(mac);
    let ctx = about(o.ctx, mac);
    assert(ctx == o.ctx_of(mac));
    if mab_request(ctx, st.radius.next_id, nonce) is Ok {
        law_mab_request_says_it_all(ctx, st.radius.next_id, nonce);
        lemma_eap_of_none(mab_request(ctx, st.radius.next_id, nonce)->Ok_0.attributes);
    }
}

/// The accounting of a station goes out in an Accounting-Request about that station,
/// under the next accounting Identifier, under the station's session id (44) and with the
/// Class (25) that the server gave the station; it says whether the session started (1)
/// or stopped (2) by its Acct-Status-Type (40), and a stop says why (49). A station that
/// had no session id has one from then on: the port, its address and the next number.
pub proof fn law_accounting_is_about_its_station(
    o: OrchestratorView,
    mac: MacAddr,
    trigger: AcctTrigger,
    timers: Timers,
    nonce: [u8; 16],
)
    ensures
        ({
            let de = DirectedView { mac: Some(mac), effect: EffectView::Accounting(trigger) };
            let (p, r) = o.dispatched(de, timers, nonce);
            let (before, after) = (o.state_of(mac), p.state_of(mac));
            &&& after.acct_id is Some
            &&& before.acct_id is Some ==> after.acct_id == before.acct_id && p.acct_counter
                == o.acct_counter
            &&& before.acct_id is None ==> p.acct_counter as int == (o.acct_counter + 1) % (u64::MAX + 1)
                && after.acct_id == Some(
                o.port + seq!['-'] + mac_text(mac) + seq!['-'] + decimal(p.acct_counter as nat),
            )
            &&& after.radius.next_acct_id as int == (before.radius.next_acct_id + 1) % 256
            &&& after.radius == (RadiusSessionView {
                next_acct_id: after.radius.next_acct_id,
                ..before.radius
            })
            &&& after.session_timeout == before.session_timeout
            &&& match r {
                Ok(ActionView::Accounting { request }) => {
                    &&& is_about(request, o.ctx, mac)
                    &&& request.identifier == before.radius.next_acct_id
                    &&& first_of(request.attributes, 44) == Some(encode_utf8(after.acct_id->0))
                    &&& first_of(request.attributes, 25) == before.radius.class
                    &&& match trigger {
                        AcctTrigger::Start => is_number(first_of(request.attributes, 40), 1)
                            && first_of(request.attributes, 49) is None,
                        AcctTrigger::Stop(cause) => is_number(first_of(request.attributes, 40), 2)
                            && is_number(first_of(request.attributes, 49), cause_number(cause)),
                    }
                },
                Ok(_) => false,
                Err(e) => e is Radius,
            }
        }),
{
    let de = DirectedView { mac: Some(mac), effect: EffectView::Accounting(trigger) };
    let (p, r) = o.dispatched(de, timers, nonce);
    let st = o.identified(mac).state_of(mac);
    let ctx = about(o.ctx, mac);
    assert(ctx == o.ctx_of(mac));
    let (id, class) = (st.radius.next_acct_id, st.radius.class);
    if accounting_outcome(ctx, id, trigger, st.acct_id->0, class) is Ok {
        law_accounting_says_it_all(ctx, id, trigger, st.acct_id->0, class);
    }
}

/// The dataplane is programmed with just what the session asked for, for the station it
/// asked for, or for the whole port where it is no station's. An opening also leaves the
/// granted lifetime known.
pub proof fn law_authorization_is_applied_as_asked(
    o: OrchestratorView,
    target: Option<MacAddr>,
    auth: PortAuthorizationView,
    timers: Timers,
    nonce: [u8; 16],
)
    ensures
        ({
            let de = DirectedView { mac: target, effect: EffectView::SetAuthorization(auth) };
            let (p, r) = o.dispatched(de, timers, nonce);
            &&& r == Ok::<ActionView, AuthdError>(
                ActionView::Apply {
                    target: if target is Some {
                        Target::Mac(target->0)
                    } else {
                        Target::Port
                    },
                    auth,
                },
            )
            &&& target is Some ==> p.state_of(target->0) == (StateView {
                session_timeout: match auth {
                    PortAuthorizationView::Authorized(a) => a.session_timeout,
                    _ => o.state_of(target->0).session_timeout,
                },
                ..o.state_of(target->0)
            })
            &&& target is None ==> p == o
        }),
{
}

/// What a session has to say to its supplicant, and which of its timers it cancels, goes
/// out unchanged under the session's address, and leaves what is known as it was. Without
/// an address there is nobody to do it for.
pub proof fn law_plain_effects_go_out_unchanged(
    o: OrchestratorView,
    target: Option<MacAddr>,
    x: EffectView,
    timers: Timers,
    nonce: [u8; 16],
)
    requires
        !(x is StartMab) && !(x is SetAuthorization),
    ensures
        ({
            let (p, r) = o.dispatched(DirectedView { mac: target, effect: x }, timers, nonce);
            match target {
                None => p == o && r == Ok::<ActionView, AuthdError>(ActionView::Nothing),
                Some(mac) => match x {
                    EffectView::TxEapToSupplicant(eap) => p == o && r == Ok::<ActionView, AuthdError>(
                        ActionView::SendEap { mac, eap },
                    ),
                    EffectView::CancelTimer(kind) => p == o && r == Ok::<ActionView, AuthdError>(
                        ActionView::Cancel { mac, kind },
                    ),
                    EffectView::CancelAllTimers => p == o && r == Ok::<ActionView, AuthdError>(
                        ActionView::CancelAll { mac },
                    ),
                    _ => true,
                },
            }
        }),
{
}

/// Each timer runs for its own configured period, and the lifetime of a session for as
/// long as the server granted last; without such a grant it does not run at all.
pub proof fn law_timers_run_for_their_periods(
    o: OrchestratorView,
    mac: MacAddr,
    kind: TimerKind,
    timers: Timers,
    nonce: [u8; 16],
)
    ensures
        ({
            let de = DirectedView { mac: Some(mac), effect: EffectView::ArmTimer(kind) };
            let (p, r) = o.dispatched(de, timers, nonce);
            let secs = if kind is TxPeriod {
                Some(timers.tx_period)
            } else if kind is Held {
                Some(timers.held_period)
            } else if kind is Reauth {
                Some(timers.reauth_period)
            } else if kind is ServerTimeout {
                Some(timers.server_timeout)
            } else if kind is SuppTimeout {
                Some(timers.supp_timeout)
            } else {
                o.state_of(mac).session_timeout
            };
            &&& p == o
            &&& secs is Some ==> r == Ok::<ActionView, AuthdError>(
                ActionView::Arm { mac, kind, secs: secs->0 },
            )
            &&& secs is None ==> r == Ok::<ActionView, AuthdError>(ActionView::Nothing)
        }),
{
}

/// The lifetime that is armed after an opening is the one of that opening, whatever was
/// done for other stations in between.
pub proof fn law_lifetime_is_the_granted_one(
    o: OrchestratorView,
    mac: MacAddr,
    granted: AuthorizationView,
    between: DirectedView,
    timers: Timers,
    nonce: [u8; 16],
)
    requires
        between.mac != Some(mac),
    ensures
        ({
            let open = DirectedView {
                mac: Some(mac),
                effect: EffectView::SetAuthorization(PortAuthorizationView::Authorized(granted)),
            };
            let arm = DirectedView {
                mac: Some(mac),
                effect: EffectView::ArmTimer(TimerKind::SessionTimeout),
            };
            let opened = o.dispatched(open, timers, nonce).0;
            let between_done = opened.dispatched(between, timers, nonce).0;
            between_done.dispatched(arm, timers, nonce).1 == Ok::<ActionView, AuthdError>(
                match granted.session_timeout {
                    Some(secs) => ActionView::Arm { mac, kind: TimerKind::SessionTimeout, secs },
                    None => ActionView::Nothing,
                },
            )
        }),
{
}

/// A reply counts only while a request is outstanding, and uses it up. One that is not
/// genuine changes nothing else. A genuine one leaves its State (24) for the next request
/// and gives the event that it stands for; an accept leaves its Class (25) for
/// accounting, and nothing else does.
pub proof fn law_replies_are_taken_once_and_read(
    o: OrchestratorView,
    mac: MacAddr,
    reply: PacketView,
    authenticator: [u8; 16],
    digest: [u8; 16],
)
    ensures
        ({
            let (p, r) = o.answered(mac, reply, authenticator, digest);
            let (before, after) = (o.state_of(mac), p.state_of(mac));
            let read = before.radius.pending is Some && genuine(reply, authenticator, digest);
            &&& after.radius.pending is None
            &&& after.radius.next_id == before.radius.next_id
            &&& after.radius.next_acct_id == before.radius.next_acct_id
            &&& after.session_timeout == before.session_timeout
            &&& after.acct_id == before.acct_id
            &&& before.radius.pending is None ==> r == Err::<EventView, AuthdError>(
                AuthdError::NoPendingRequest,
            )
            &&& before.radius.pending is Some && !read ==> r == Err::<EventView, AuthdError>(
                AuthdError::ReplyVerificationFailed,
            )
            &&& read ==> r == radius_result(reply_event(reply))
            &&& after.radius.last_state == (if read {
                first_of(reply.attributes, 24)
            } else {
                before.radius.last_state
            })
            &&& after.radius.class == (if r is Ok && r->Ok_0 is AccessAccept {
                first_of(reply.attributes, 25)
            } else {
                before.radius.class
            })
        }),
{
}

/// The name that an EAP packet gives is all that follows the header of a Response (2) of
/// type Identity (1); any other packet gives none.
pub proof fn law_names_come_from_identity_responses(eap: Seq<u8>)
    ensures
        identity_of(eap) is Some ==> eap.len() >= 5 && eap[0] == 2 && eap[4] == 1 && eap[2] * 256 + eap[3]
            == eap.len() && identity_of(eap) == Some(eap.skip(5)),
        eap.len() >= 5 && eap[0] == 2 && eap[4] == 1 && eap[2] * 256 + eap[3] == eap.len()
            ==> identity_of(eap) == Some(eap.skip(5)),
{
    if eap_decodes(eap) is Ok {
        law_identity_is_verbatim(eap);
        if identity_of(eap) is Some {
            assert(identity_of(eap)->0 =~= eap.skip(5));
        }
    }
}

/// A port after a series of events.
pub open spec fn port_after(p: PortView, events: Seq<(MacAddr, EventView)>) -> PortView
    decreases events.len(),
{
    if events.len() == 0 {
        p
    } else {
        let (mac, event) = events.last();
        handled(port_after(p, events.drop_last()), mac, event).0
    }
}

proof fn lemma_port_after_first(p: PortView, events: Seq<(MacAddr, EventView)>)
    requires
        events.len() > 0,
    ensures
        port_after(p, events) == port_after(
            handled(p, events[0].0, events[0].1).0,
            events.skip(1),
        ),
    decreases events.len(),
{
    if events.len() == 1 {
        reveal_with_fuel(port_after, 2);
        assert(events.drop_last() =~= Seq::<(MacAddr, EventView)>::empty());
        assert(events.skip(1) =~= Seq::<(MacAddr, EventView)>::empty());
        assert(events.last() == events[0]);
    } else {
        lemma_port_after_first(p, events.drop_last());
        assert(events.drop_last().skip(1) =~= events.skip(1).drop_last());
        assert(events.skip(1).last() == events.last());
    }
}

/// Leaving the first event to an earlier port leaves the rest in their order.
proof fn lemma_port_after_shift(p: PortView, events: Seq<(MacAddr, EventView)>, k: int)
    requires
        0 <= k < events.len(),
    ensures
        port_after(p, events.take(k + 1)) == port_after(
            handled(p, events[0].0, events[0].1).0,
            events.skip(1).take(k),
        ),
{
    lemma_port_after_first(p, events.take(k + 1));
    assert(events.take(k + 1).skip(1) =~= events.skip(1).take(k));
}

/// What feeding one event makes of an exchange.
spec fn once(p: PortView, x: ExchangeView) -> (PortView, ExchangeView) {
    let (mac, event) = x.queue[0];
    let (q, fx) = handled(p, mac, event);
    (
        q,
        ExchangeView {
            queue: x.queue.skip(1),
            steps: (x.steps + 1) as u32,
            effects: fx,
            origin: Some(mac),
            ..x
        },
    )
}

/// How far feeding got: after `n` events the port is where they led it, and the rest
/// waits.
spec fn got_to(p: PortView, x: ExchangeView, q: PortView, y: ExchangeView) -> bool {
    let n = y.steps - x.steps;
    &&& 0 <= n <= x.queue.len()
    &&& y.steps <= 64
    &&& q == port_after(p, x.queue.take(n))
    &&& y.queue == x.queue.skip(n)
    &&& y.target == x.target
    &&& y.effects.len() == 0 ==> y.queue.len() == 0 || y.steps == 64
    &&& n == 0 ==> y == x
    &&& n > 0 ==> y.effects == handled(
        port_after(p, x.queue.take(n - 1)),
        x.queue[n - 1].0,
        x.queue[n - 1].1,
    ).1 && y.origin == Some(x.queue[n - 1].0)
}

proof fn lemma_got_to_next(p: PortView, x: ExchangeView, q: PortView, y: ExchangeView)
    requires
        x.queue.len() > 0,
        x.steps < 64,
        got_to(once(p, x).0, once(p, x).1, q, y),
        y.steps > x.steps + 1 || (q == once(p, x).0 && y == once(p, x).1),
    ensures
        got_to(p, x, q, y),
{
    let (p1, x1) = once(p, x);
    let n = y.steps - x.steps;
    assert(x.queue.skip(n) =~= x1.queue.skip(n - 1));
    lemma_port_after_shift(p, x.queue, n - 1);
    if n > 1 {
        lemma_port_after_shift(p, x.queue, n - 2);
        assert(x1.queue[n - 2] == x.queue[n - 1]);
    } else {
        assert(x.queue.take(0) =~= Seq::<(MacAddr, EventView)>::empty());
        assert(x1.queue.take(0) =~= Seq::<(MacAddr, EventView)>::empty());
    }
}

/// Events are taken in the order in which they were put into an exchange, each once, by
/// the port as the ones before it left it. Feeding stops at the first event that asks for
/// something, and goes on to the 64th event of the exchange as long as none does.
pub proof fn law_events_are_fed_in_order(p: PortView, x: ExchangeView)
    requires
        x.effects.len() == 0,
        x.steps <= 64,
    ensures
        ({
            let (q, y) = fed(p, x);
            let n = y.steps - x.steps;
            &&& 0 <= n <= x.queue.len()
            &&& y.steps <= 64
            &&& q == port_after(p, x.queue.take(n))
            &&& y.queue == x.queue.skip(n)
            &&& y.target == x.target
            &&& y.effects.len() == 0 ==> y.queue.len() == 0 || y.steps == 64
            &&& n == 0 ==> y == x
            &&& n > 0 ==> y.effects == handled(
                port_after(p, x.queue.take(n - 1)),
                x.queue[n - 1].0,
                x.queue[n - 1].1,
            ).1 && y.origin == Some(x.queue[n - 1].0)
        }),
{
    lemma_fed(p, x);
}

proof fn lemma_fed(p: PortView, x: ExchangeView)
    requires
        x.effects.len() == 0,
        x.steps <= 64,
    ensures
        got_to(p, x, fed(p, x).0, fed(p, x).1),
    decreases MAX_STEPS - x.steps,
{
    if x.queue.len() == 0 || x.steps >= MAX_STEPS {
        assert(x.queue.take(0) =~= Seq::<(MacAddr, EventView)>::empty());
        assert(x.queue.skip(0) =~= x.queue);
    } else {
        let (p1, x1) = once(p, x);
        let (q, y) = fed(p, x);
        assert((q, y) == fed(p1, x1));
        if x1.effects.len() == 0 {
            lemma_fed(p1, x1);
        } else {
            assert(x1.queue.take(0) =~= Seq::<(MacAddr, EventView)>::empty());
            assert(x1.queue.skip(0) =~= x1.queue);
        }
        lemma_got_to_next(p, x, q, y);
    }
}

/// An event is passed over only if it asked for nothing: of those that were fed, none but
/// the last had effects.
pub proof fn law_no_effect_is_passed_over(p: PortView, x: ExchangeView, k: int)
    requires
        x.effects.len() == 0,
        x.steps <= 64,
        0 <= k < fed(p, x).1.steps - x.steps - 1,
        k < x.queue.len(),
    ensures
        handled(port_after(p, x.queue.take(k)), x.queue[k].0, x.queue[k].1).1.len() == 0,
    decreases MAX_STEPS - x.steps,
{
    if x.queue.len() > 0 && x.steps < MAX_STEPS {
        let (p1, x1) = once(p, x);
        assert(fed(p, x) == fed(p1, x1));
        if k == 0 {
            assert(x.queue.take(0) =~= Seq::<(MacAddr, EventView)>::empty());
        } else if x1.effects.len() == 0 {
            law_no_effect_is_passed_over(p1, x1, k - 1);
            lemma_port_after_shift(p, x.queue, k - 1);
            assert(x1.queue[k - 1] == x.queue[k]);
        }
    }
}

/// The answer to what was done for a station belongs to that station; to what was done for
/// the whole port, it belongs to the station whose event led to it.
pub proof fn law_answers_find_their_station(x: ExchangeView, mac: MacAddr)
    ensures
        x.target == Some(mac) ==> x.answers_to() == Some(mac),
        x.target is None ==> x.answers_to() == x.origin,
{
}

/// An event that an answer gave waits behind all that wait already, for the station that
/// the answer belongs to; where it belongs to none, nothing waits for it.
pub proof fn law_answers_wait_their_turn(x: ExchangeView, event: EventView)
    ensures
        ({
            let y = x.followed_up(event);
            &&& x.answers_to() is Some ==> y.queue.len() == x.queue.len() + 1 && y.queue.drop_last()
                == x.queue && y.queue.last() == ((x.answers_to()->0), event)
            &&& x.answers_to() is None ==> y.queue == x.queue
            &&& y.steps == x.steps
            &&& y.effects == x.effects
            &&& y.origin == x.origin
            &&& y.target == x.target
        }),
{
    let y = x.followed_up(event);
    if x.answers_to() is Some {
        assert(y.queue.drop_last() =~= x.queue);
    }
}

/// Effects are performed one at a time and in their order, none of them twice or left out,
/// before another event is fed: the next one is asked for of whom it is for, and an answer
/// to it will belong to that station.
pub proof fn law_effects_are_performed_in_order(
    o: OrchestratorView,
    p: PortView,
    x: ExchangeView,
    timers: Timers,
    nonce: [u8; 16],
)
    requires
        x.effects.len() > 0,
    ensures
        ({
            let (n, q, y, r) = advanced(o, p, x, timers, nonce);
            let (known, action) = o.dispatched(x.effects[0], timers, nonce);
            &&& n == known
            &&& q == p
            &&& x.effects == seq![x.effects[0]] + y.effects
            &&& y.target == x.effects[0].mac
            &&& y.origin == x.origin
            &&& y.queue == x.queue
            &&& y.steps == x.steps
            &&& action is Ok ==> r == Ok::<Option<ActionView>, AuthdError>(Some(action->Ok_0))
            &&& action is Err ==> r == Err::<Option<ActionView>, AuthdError>(action->Err_0)
        }),
{
    let y = advanced(o, p, x, timers, nonce).2;
    assert(x.effects =~= seq![x.effects[0]] + y.effects);
}

/// Once the effects are performed, the waiting events are fed until one has effects, of
/// which the first is performed; where none has any, the exchange is over and nothing was
/// done.
pub proof fn law_exchange_goes_on_until_nothing_is_left(
    o: OrchestratorView,
    p: PortView,
    x: ExchangeView,
    timers: Timers,
    nonce: [u8; 16],
)
    requires
        x.effects.len() == 0,
    ensures
        ({
            let (n, q, y, r) = advanced(o, p, x, timers, nonce);
            let (port, fresh) = fed(p, x);
            &&& q == port
            &&& fresh.effects.len() == 0 ==> n == o && y == fresh && r == Ok::<
                Option<ActionView>,
                AuthdError,
            >(None)
            &&& fresh.effects.len() > 0 ==> r != Ok::<Option<ActionView>, AuthdError>(None)
                && advanced(o, port, fresh, timers, nonce) == (n, q, y, r)
        }),
{
}

} // verus!
