//! How a port shares its events and effects out among the stations on it.

use super::config::{HostMode, TimerKind};
use super::effect::{AcctTrigger, EffectView, PortAuthorizationView, TerminateCause};
use super::event::EventView;
use super::laws::{performed_all, World};
use super::outcomes::{law_endings_say_why, over};
use super::port::{
    admitted, all_ended, decorated, decorated_one, handled, law_port_stays_well_formed, lemma_live_all,
    lemma_live_update, mirrored, own_effects, port_closed,
    seat, seated, DirectedView, PortView,
};
use super::session::{ended, idle, session_limit, step_of, SessionView};
use crate::pacp::ethernet::MacAddr;
use vstd::prelude::*;

verus! {

/// The effects that are for one station, in order.
pub open spec fn those_for(mac: MacAddr, fx: Seq<DirectedView>) -> Seq<EffectView>
    decreases fx.len(),
{
    if fx.len() == 0 {
        Seq::empty()
    } else if fx.last().mac == Some(mac) {
        those_for(mac, fx.drop_last()).push(fx.last().effect)
    } else {
        those_for(mac, fx.drop_last())
    }
}

proof fn lemma_those_append(mac: MacAddr, a: Seq<DirectedView>, b: Seq<DirectedView>)
    ensures
        those_for(mac, a + b) == those_for(mac, a) + those_for(mac, b),
    decreases b.len(),
{
    if b.len() == 0 {
        assert(a + b =~= a);
        assert(those_for(mac, a) + those_for(mac, b) =~= those_for(mac, a));
    } else {
        assert((a + b).last() == b.last());
        assert((a + b).drop_last() =~= a + b.drop_last());
        lemma_those_append(mac, a, b.drop_last());
        assert(those_for(mac, a + b) =~= those_for(mac, a) + those_for(mac, b));
    }
}

proof fn lemma_those_decorated(mode: HostMode, open: bool, mac: MacAddr, fx: Seq<EffectView>)
    ensures
        those_for(mac, decorated(mode, open, mac, fx)) == fx,
        forall|i: int|
            0 <= i < decorated(mode, open, mac, fx).len() ==> (#[trigger] decorated(mode, open, mac, fx)[i]).mac
                == Some(mac) || (decorated(mode, open, mac, fx)[i].mac is None && mode is MultiHost
                && decorated(mode, open, mac, fx)[i].effect is SetAuthorization && i + 1 < decorated(
                mode,
                open,
                mac,
                fx,
            ).len() && decorated(mode, open, mac, fx)[i + 1] == (DirectedView {
                mac: Some(mac),
                effect: decorated(mode, open, mac, fx)[i].effect,
            })),
    decreases fx.len(),
{
    if fx.len() == 0 {
        assert(those_for(mac, decorated(mode, open, mac, fx)) =~= fx);
    } else {
        let (front, x) = (fx.drop_last(), fx.last());
        let (a, b) = (decorated(mode, open, mac, front), decorated_one(mode, open, mac, x));
        lemma_those_decorated(mode, open, mac, front);
        lemma_those_append(mac, a, b);
        reveal_with_fuel(those_for, 3);
        if mirrored(mode, open, x) {
            assert(b.drop_last() =~= seq![DirectedView { mac: None, effect: x }]);
            assert(b.drop_last().drop_last() =~= Seq::<DirectedView>::empty());
        } else {
            assert(b.drop_last() =~= Seq::<DirectedView>::empty());
        }
        assert(those_for(mac, b) =~= seq![x]);
        assert(those_for(mac, a + b) =~= fx);
        assert forall|i: int| 0 <= i < (a + b).len() implies (#[trigger] (a + b)[i]).mac == Some(mac) || (
        (a + b)[i].mac is None && mode is MultiHost && (a + b)[i].effect is SetAuthorization && i + 1 < (a
            + b).len() && (a + b)[i + 1] == (DirectedView { mac: Some(mac), effect: (a + b)[i].effect })) by {
            if i < a.len() {
                assert((a + b)[i] == a[i]);
                if a[i].mac is None {
                    assert((a + b)[i + 1] == a[i + 1]);
                }
            }
        }
    }
}

/// An event for a station that has a session is taken by that session, and what the
/// session asks for is asked for on that station's behalf, all of it and in its order.
pub proof fn law_event_reaches_its_session(p: PortView, mac: MacAddr, e: EventView)
    requires
        p.well_formed(),
        seated(p.sessions, mac),
    ensures
        ({
            let (t, fx) = step_of(p.sessions[seat(p.sessions, mac)], e, p.cfg);
            let (q, out) = handled(p, mac, e);
            &&& those_for(mac, out) == fx
            &&& seated(q.sessions, mac) <==> !(t.state is New)
            &&& seated(q.sessions, mac) ==> q.sessions[seat(q.sessions, mac)] == t
        }),
{
    let i = seat(p.sessions, mac);
    let s = p.sessions[i];
    let (t, fx) = step_of(s, e, p.cfg);
    let q = handled(p, mac, e).0;
    lemma_those_decorated(p.cfg.host_mode, s.accounting_open, mac, fx);
    law_port_stays_well_formed(p, mac, e);
    lemma_live_update(p.sessions, i, t);
    if t.state is New {
        assert forall|j: int| 0 <= j < q.sessions.len() implies (#[trigger] q.sessions[j]).mac != mac by {
            let k = if j < i { j } else { j + 1 };
            assert(q.sessions[j] == p.sessions[k]);
            assert(p.sessions[i].mac == mac);
        }
    } else {
        assert(q.sessions[i] == t);
        assert(t.mac == mac);
    }
}

/// A station without a session gets one where the host mode leaves room: one station in
/// single-host and multi-host, two in multi-domain, any number in multi-auth. It is put
/// into service, which asks for its identity, and then takes the event, unless that only
/// asked to be put into service. Where there is no room nothing is done for it.
pub proof fn law_newcomers_are_admitted_by_host_mode(p: PortView, mac: MacAddr, e: EventView)
    requires
        p.well_formed(),
        !seated(p.sessions, mac),
    ensures
        ({
            let room = match p.cfg.host_mode {
                HostMode::SingleHost | HostMode::MultiHost => p.sessions.len() < 1,
                HostMode::MultiDomain => p.sessions.len() < 2,
                HostMode::MultiAuth => true,
            };
            let (s, first) = step_of(idle(mac), EventView::Enable, p.cfg);
            let (t, rest) = if e is Enable || e is EapolStart {
                (s, Seq::empty())
            } else {
                step_of(s, e, p.cfg)
            };
            let (q, out) = handled(p, mac, e);
            &&& q.cfg == p.cfg
            &&& room <==> session_limit(p.cfg.host_mode) is None || p.sessions.len() < session_limit(
                p.cfg.host_mode,
            )->0
            &&& room ==> those_for(mac, out) == first + rest
            &&& room ==> (seated(q.sessions, mac) <==> !(t.state is New))
            &&& room && !(t.state is New) ==> q.sessions[seat(q.sessions, mac)] == t
            &&& !room ==> q == p && out.len() == 0
        }),
{
    let (t, fx) = admitted(mac, e, p.cfg);
    let (s, first) = step_of(idle(mac), EventView::Enable, p.cfg);
    let (q, out) = handled(p, mac, e);
    lemma_live_all(p.sessions);
    law_port_stays_well_formed(p, mac, e);
    assert(first + Seq::<EffectView>::empty() =~= first);
    if p.has_room() {
        lemma_those_decorated(p.cfg.host_mode, false, mac, fx);
        reveal(Seq::filter);
        assert(p.sessions.push(t).drop_last() =~= p.sessions);
        assert(p.sessions.push(t).last() == t);
        assert(t.mac == mac);
        if !(t.state is New) {
            assert(q.sessions == p.sessions.push(t));
            assert(q.sessions[p.sessions.len() as int] == t);
        }
    }
}

/// Whatever is done for a station is done for it alone, but that in multi-host its
/// opening and closing are those of the whole port, each told just before its own.
pub proof fn law_effects_are_directed(p: PortView, mac: MacAddr, e: EventView, i: int)
    requires
        p.well_formed(),
        0 <= i < handled(p, mac, e).1.len(),
    ensures
        ({
            let out = handled(p, mac, e).1;
            out[i].mac == Some(mac) || (out[i].mac is None && p.cfg.host_mode is MultiHost
                && out[i].effect is SetAuthorization && i + 1 < out.len() && out[i + 1] == (DirectedView {
                mac: Some(mac),
                effect: out[i].effect,
            }))
        }),
{
    if seated(p.sessions, mac) {
        let s = p.sessions[seat(p.sessions, mac)];
        lemma_those_decorated(p.cfg.host_mode, s.accounting_open, mac, step_of(s, e, p.cfg).1);
    } else {
        lemma_those_decorated(p.cfg.host_mode, false, mac, admitted(mac, e, p.cfg).1);
    }
}

proof fn lemma_those_own(mac: MacAddr, other: MacAddr, fx: Seq<EffectView>)
    ensures
        those_for(mac, own_effects(other, fx)) == (if mac == other {
            fx
        } else {
            Seq::empty()
        }),
    decreases fx.len(),
{
    let own = own_effects(other, fx);
    if fx.len() == 0 {
        assert(those_for(mac, own) =~= Seq::<EffectView>::empty());
        assert(fx =~= Seq::<EffectView>::empty());
    } else {
        lemma_those_own(mac, other, fx.drop_last());
        assert(own.drop_last() =~= own_effects(other, fx.drop_last()));
        assert(fx =~= fx.drop_last().push(fx.last()));
    }
}

proof fn lemma_those_ended(sessions: Seq<SessionView>, mac: MacAddr)
    requires
        forall|i: int, j: int|
            0 <= i < j < sessions.len() ==> (#[trigger] sessions[i]).mac != (#[trigger] sessions[j]).mac,
    ensures
        forall|i: int|
            0 <= i < sessions.len() && (#[trigger] sessions[i]).mac == mac ==> those_for(
                mac,
                all_ended(sessions),
            ) == ended(sessions[i], TerminateCause::PortLinkDown).1,
        !seated(sessions, mac) ==> those_for(mac, all_ended(sessions)) == Seq::<EffectView>::empty(),
    decreases sessions.len(),
{
    if sessions.len() > 0 {
        let (front, s) = (sessions.drop_last(), sessions.last());
        let own = own_effects(s.mac, ended(s, TerminateCause::PortLinkDown).1);
        assert forall|i: int, j: int| 0 <= i < j < front.len() implies (#[trigger] front[i]).mac != (
        #[trigger] front[j]).mac by {
            assert(sessions[i].mac != sessions[j].mac);
        }
        lemma_those_ended(front, mac);
        lemma_those_append(mac, all_ended(front), own);
        lemma_those_own(mac, s.mac, ended(s, TerminateCause::PortLinkDown).1);
        assert(sessions[sessions.len() - 1] == s);
        if s.mac == mac {
            assert forall|i: int| 0 <= i < front.len() implies (#[trigger] front[i]).mac != mac by {
                assert(sessions[i].mac != sessions[sessions.len() - 1].mac);
            }
            assert(!seated(front, mac));
            assert(those_for(mac, all_ended(sessions)) =~= ended(s, TerminateCause::PortLinkDown).1);
        } else {
            assert(those_for(mac, all_ended(sessions)) =~= those_for(mac, all_ended(front)));
            assert forall|i: int| 0 <= i < sessions.len() && (#[trigger] sessions[i]).mac
                == mac implies those_for(mac, all_ended(sessions)) == ended(
                sessions[i],
                TerminateCause::PortLinkDown,
            ).1 by {
                assert(front[i] == sessions[i]);
            }
            if !seated(sessions, mac) {
                assert forall|i: int| 0 <= i < front.len() implies (#[trigger] front[i]).mac != mac by {
                    assert(sessions[i].mac != mac);
                }
            }
        }
    }
}

/// Losing the link ends every session on the port: whichever station had one, its port is
/// closed, its timers are cancelled, and its accounting is stopped for that reason.
pub proof fn law_link_loss_ends_every_session(p: PortView, w: World, i: int)
    requires
        p.well_formed(),
        0 <= i < p.sessions.len(),
    ensures
        ({
            let s = p.sessions[i];
            let out = all_ended(p.sessions).push(port_closed());
            let v = performed_all(w, those_for(s.mac, out));
            &&& v.posture is Unauthorized
            &&& v.armed == Set::<TimerKind>::empty()
            &&& v.told == w.told
            &&& v.asked == w.asked
            &&& v.reported == (if s.accounting_open {
                w.reported.push(AcctTrigger::Stop(TerminateCause::PortLinkDown))
            } else {
                w.reported
            })
        }),
{
    let s = p.sessions[i];
    let all = all_ended(p.sessions);
    lemma_those_ended(p.sessions, s.mac);
    assert(all.push(port_closed()).drop_last() =~= all);
    law_endings_say_why(w, s, EventView::LinkDown, p.cfg);
    let v = performed_all(w, those_for(s.mac, all.push(port_closed())));
    assert(over(
        s,
        TerminateCause::PortLinkDown,
        step_of(s, EventView::LinkDown, p.cfg).0,
        w,
        v,
    ));
}

/// In multi-host the whole port is told of every opening of its session, and of the
/// closing of a session that was open, right before the session's own; and of nothing
/// else.
pub proof fn law_multi_host_mirrors_openings(p: PortView, mac: MacAddr, e: EventView, j: int)
    requires
        p.well_formed(),
        0 <= j < handled(p, mac, e).1.len(),
        handled(p, mac, e).1[j].mac == Some(mac),
    ensures
        ({
            let out = handled(p, mac, e).1;
            let open = seated(p.sessions, mac) && p.sessions[seat(p.sessions, mac)].accounting_open;
            let twin = DirectedView { mac: None, effect: out[j].effect };
            (j > 0 && out[j - 1] == twin) <==> p.cfg.host_mode is MultiHost && match out[j].effect {
                EffectView::SetAuthorization(PortAuthorizationView::Authorized(_)) => true,
                EffectView::SetAuthorization(PortAuthorizationView::Unauthorized) => open,
                _ => false,
            }
        }),
{
    if seated(p.sessions, mac) {
        let s = p.sessions[seat(p.sessions, mac)];
        let fx = step_of(s, e, p.cfg).1;
        lemma_those_decorated(p.cfg.host_mode, s.accounting_open, mac, fx);
        lemma_twins(p.cfg.host_mode, s.accounting_open, mac, fx, j);
    } else {
        let fx = admitted(mac, e, p.cfg).1;
        lemma_those_decorated(p.cfg.host_mode, false, mac, fx);
        lemma_twins(p.cfg.host_mode, false, mac, fx, j);
    }
}

proof fn lemma_twins(mode: HostMode, open: bool, mac: MacAddr, fx: Seq<EffectView>, j: int)
    requires
        0 <= j < decorated(mode, open, mac, fx).len(),
        decorated(mode, open, mac, fx)[j].mac == Some(mac),
    ensures
        ({
            let out = decorated(mode, open, mac, fx);
            (j > 0 && out[j - 1] == (DirectedView { mac: None, effect: out[j].effect })) <==> mirrored(
                mode,
                open,
                out[j].effect,
            )
        }),
    decreases fx.len(),
{
    if fx.len() > 0 {
        let a = decorated(mode, open, mac, fx.drop_last());
        let b = decorated_one(mode, open, mac, fx.last());
        let out = a + b;
        lemma_those_decorated(mode, open, mac, fx.drop_last());
        if j < a.len() {
            lemma_twins(mode, open, mac, fx.drop_last(), j);
            assert(out[j] == a[j]);
            if j > 0 {
                assert(out[j - 1] == a[j - 1]);
            }
        } else if !mirrored(mode, open, fx.last()) {
            assert(j == a.len());
            if j > 0 {
                assert(out[j - 1] == a[j - 1]);
                assert(a[j - 1].mac == Some(mac));
            }
        }
    }
}

} // verus!
