//! Per-port host-mode logic: routes events to the right `{port, MAC}` session and
//! enforces how many supplicants a port admits (IEEE 802.1X-2020 section 12.4).
//!
//! There is one [`PortSession`] per supplicant MAC, created on first contact and
//! dropped once it has torn down.

use super::config::{ConfigView, HostMode, PaeConfig};
use super::effect::{effects, Effect, EffectView, PortAuthorization, PortAuthorizationView};
use super::event::{Event, EventView};
use super::laws::{
    law_only_the_server_opens, law_session_stays_sound, lemma_append, lemma_port_open, performed_all, quiet, sound, World,
};
use super::session::{
    ended, idle, session_limit, step_of, Outcome, PortSession, SessionView, State,
};
use super::TerminateCause;
use crate::pacp::ethernet::{mac_eq, MacAddr};
use vstd::prelude::*;

verus! {

/// An effect with its target: `None` means the whole port (the initial
/// unauthorized state, or a multi-host port-open), `Some(mac)` a single session.
#[derive(Debug, PartialEq, Eq)]
pub struct DirectedEffect {
    /// Target MAC, or `None` for a port-wide effect.
    pub mac: Option<MacAddr>,
    /// The effect to perform.
    pub effect: Effect,
}

/// What a directed effect asks for, and of whom.
#[verifier::ext_equal]
pub struct DirectedView {
    pub mac: Option<MacAddr>,
    pub effect: EffectView,
}

impl View for DirectedEffect {
    type V = DirectedView;

    open spec fn view(&self) -> DirectedView {
        DirectedView { mac: self.mac, effect: self.effect@ }
    }
}

impl Clone for DirectedEffect {
    fn clone(&self) -> (r: Self)
        ensures
            r@ == self@,
    {
        DirectedEffect { mac: self.mac, effect: self.effect.clone() }
    }
}

/// What a list of directed effects asks for, in order.
pub open spec fn directed(fx: Seq<DirectedEffect>) -> Seq<DirectedView> {
    Seq::new(fx.len(), |i: int| fx[i]@)
}

/// The authenticator for one physical port.
#[derive(Debug)]
pub struct PortPae {
    cfg: PaeConfig,
    sessions: Vec<PortSession>,
}

/// What a port is at: its configuration and the sessions on it.
#[verifier::ext_equal]
pub struct PortView {
    pub cfg: ConfigView,
    pub sessions: Seq<SessionView>,
}

pub open spec fn session_views(sessions: Seq<PortSession>) -> Seq<SessionView> {
    Seq::new(sessions.len(), |i: int| sessions[i]@)
}

impl View for PortPae {
    type V = PortView;

    closed spec fn view(&self) -> PortView {
        PortView { cfg: self.cfg@, sessions: session_views(self.sessions@) }
    }
}

/// Whether one of the sessions is for `mac`.
pub open spec fn seated(sessions: Seq<SessionView>, mac: MacAddr) -> bool {
    exists|i: int| 0 <= i < sessions.len() && (#[trigger] sessions[i]).mac == mac
}

/// Where the session for `mac` is.
pub open spec fn seat(sessions: Seq<SessionView>, mac: MacAddr) -> int {
    choose|i: int| 0 <= i < sessions.len() && (#[trigger] sessions[i]).mac == mac
}

/// The sessions that are in service.
pub open spec fn live(sessions: Seq<SessionView>) -> Seq<SessionView> {
    sessions.filter(|s: SessionView| !(s.state is New))
}

impl PortView {
    /// Each MAC has one session at most, every session is in service and sound,
    /// and there are no more of them than the host mode admits.
    pub open spec fn well_formed(self) -> bool {
        &&& forall|i: int, j: int|
            0 <= i < j < self.sessions.len() ==> (#[trigger] self.sessions[i]).mac != (
            #[trigger] self.sessions[j]).mac
        &&& forall|i: int|
            0 <= i < self.sessions.len() ==> !((#[trigger] self.sessions[i]).state is New) && sound(
                self.sessions[i],
            )
        &&& session_limit(self.cfg.host_mode) matches Some(n) ==> self.sessions.len() <= n
    }

    /// Whether the host mode leaves room for another supplicant.
    pub open spec fn has_room(self) -> bool {
        match self.cfg.host_mode {
            HostMode::MultiAuth => true,
            HostMode::SingleHost | HostMode::MultiHost => live(self.sessions).len() == 0,
            HostMode::MultiDomain => live(self.sessions).len() < 2,
        }
    }
}

/// Whether a session's effect also stands for the whole port: in multi-host the
/// session's opening opens the port for every MAC behind it, and the closing of a
/// session that was `open` closes the port again.
pub open spec fn mirrored(mode: HostMode, open: bool, x: EffectView) -> bool {
    mode is MultiHost && match x {
        EffectView::SetAuthorization(PortAuthorizationView::Authorized(_)) => true,
        EffectView::SetAuthorization(PortAuthorizationView::Unauthorized) => open,
        _ => false,
    }
}

/// One session effect with its target, after its port-wide twin if it has one.
pub open spec fn decorated_one(mode: HostMode, open: bool, mac: MacAddr, x: EffectView) -> Seq<
    DirectedView,
> {
    let own = DirectedView { mac: Some(mac), effect: x };
    if mirrored(mode, open, x) {
        seq![DirectedView { mac: None, effect: x }, own]
    } else {
        seq![own]
    }
}

/// The effects of a session with their targets, where `open` is whether it held a
/// grant before.
pub open spec fn decorated(mode: HostMode, open: bool, mac: MacAddr, fx: Seq<EffectView>) -> Seq<
    DirectedView,
>
    decreases fx.len(),
{
    if fx.len() == 0 {
        Seq::empty()
    } else {
        decorated(mode, open, mac, fx.drop_last()) + decorated_one(mode, open, mac, fx.last())
    }
}

/// What a new session makes of the event that it was created for: it is put into
/// service, which already solicits an identity, and then takes the event.
pub open spec fn admitted(mac: MacAddr, e: EventView, cfg: ConfigView) -> Outcome {
    let (s, first) = step_of(idle(mac), EventView::Enable, cfg);
    if e is Enable || e is EapolStart {
        (s, first)
    } else {
        let (t, rest) = step_of(s, e, cfg);
        (t, first + rest)
    }
}

/// What an event for `mac` does to a port.
pub open spec fn handled(p: PortView, mac: MacAddr, e: EventView) -> (PortView, Seq<DirectedView>) {
    if seated(p.sessions, mac) {
        let i = seat(p.sessions, mac);
        let (t, fx) = step_of(p.sessions[i], e, p.cfg);
        (
            PortView { sessions: live(p.sessions.update(i, t)), ..p },
            decorated(p.cfg.host_mode, p.sessions[i].accounting_open, mac, fx),
        )
    } else if p.has_room() {
        let (t, fx) = admitted(mac, e, p.cfg);
        (
            PortView { sessions: live(p.sessions.push(t)), ..p },
            decorated(p.cfg.host_mode, false, mac, fx),
        )
    } else {
        (p, Seq::empty())
    }
}

/// A session's own effects, each for its MAC.
pub open spec fn own_effects(mac: MacAddr, fx: Seq<EffectView>) -> Seq<DirectedView> {
    Seq::new(fx.len(), |i: int| DirectedView { mac: Some(mac), effect: fx[i] })
}

/// What ending every one of the sessions asks for, in order.
pub open spec fn all_ended(sessions: Seq<SessionView>) -> Seq<DirectedView>
    decreases sessions.len(),
{
    if sessions.len() == 0 {
        Seq::empty()
    } else {
        let s = sessions.last();
        all_ended(sessions.drop_last()) + own_effects(s.mac, ended(s, TerminateCause::PortLinkDown).1)
    }
}

/// The whole port is closed.
pub open spec fn port_closed() -> DirectedView {
    DirectedView {
        mac: None,
        effect: EffectView::SetAuthorization(PortAuthorizationView::Unauthorized),
    }
}

impl Clone for PortPae {
    fn clone(&self) -> (r: Self)
        ensures
            r@ == self@,
    {
        let mut sessions: Vec<PortSession> = Vec::new();
        let mut i: usize = 0;
        while i < self.sessions.len()
            invariant
                i <= self.sessions.len(),
                session_views(sessions@) == session_views(self.sessions@).take(i as int),
            decreases self.sessions.len() - i,
        {
            let ghost done = session_views(sessions@);
            sessions.push(self.sessions[i].clone());
            assert(session_views(sessions@) =~= done.push(self.sessions@[i as int]@));
            assert(done.push(self.sessions@[i as int]@) =~= session_views(self.sessions@).take(i + 1));
            i += 1;
        }
        assert(session_views(sessions@) =~= session_views(self.sessions@));
        PortPae { cfg: self.cfg.clone(), sessions }
    }
}

impl PortPae {
    /// Create the port authenticator with the given configuration.
    pub fn new(cfg: PaeConfig) -> (r: Self)
        ensures
            r@ == (PortView { cfg: cfg@, sessions: Seq::empty() }),
            r@.well_formed(),
    {
        let r = PortPae { cfg, sessions: Vec::new() };
        assert(r@.sessions =~= Seq::<SessionView>::empty());
        r
    }

    /// Bring the port into 802.1X service: it starts unauthorized port-wide.
    pub fn enable(&self) -> (fx: Vec<DirectedEffect>)
        ensures
            directed(fx@) == seq![port_closed()],
    {
        let fx = vec![
            DirectedEffect {
                mac: None,
                effect: Effect::SetAuthorization(PortAuthorization::Unauthorized),
            },
        ];
        assert(directed(fx@) =~= seq![port_closed()]);
        fx
    }

    /// The current session for `mac`, if any.
    pub fn session(&self, mac: MacAddr) -> (r: Option<&PortSession>)
        requires
            self@.well_formed(),
        ensures
            r is Some <==> seated(self@.sessions, mac),
            r matches Some(s) ==> s@ == self@.sessions[seat(self@.sessions, mac)],
    {
        match self.find(mac) {
            Some(i) => Some(&self.sessions[i]),
            None => None,
        }
    }

    /// Number of live (non-`New`) sessions on the port.
    pub fn active_sessions(&self) -> (n: usize)
        ensures
            n == live(self@.sessions).len(),
    {
        let mut n: usize = 0;
        let mut i: usize = 0;
        while i < self.sessions.len()
            invariant
                i <= self.sessions.len(),
                n <= i,
                n == live(session_views(self.sessions@).take(i as int)).len(),
            decreases self.sessions.len() - i,
        {
            proof {
                let all = session_views(self.sessions@);
                reveal(Seq::filter);
                assert(all.take(i + 1).drop_last() =~= all.take(i as int));
                assert(all.take(i + 1).last() == all[i as int]);
            }
            if self.sessions[i].state() != State::New {
                n += 1;
            }
            i += 1;
        }
        assert(session_views(self.sessions@).take(i as int) =~= session_views(self.sessions@));
        n
    }

    /// Handle an event for a specific supplicant `mac`.
    ///
    /// Where the host mode admits no further supplicant the event is dropped: in
    /// multi-host a later MAC rides on the open port, in single-host it is denied.
    pub fn handle(&mut self, mac: MacAddr, event: Event) -> (fx: Vec<DirectedEffect>)
        requires
            old(self)@.well_formed(),
        ensures
            (final(self)@, directed(fx@)) == handled(old(self)@, mac, event@),
            final(self)@.well_formed(),
    {
        proof {
            law_port_stays_well_formed(self@, mac, event@);
            if !seated(self@.sessions, mac) && !self@.has_room() {
                lemma_live_all(self@.sessions);
            }
        }
        let host_mode = self.cfg.host_mode;
        let fx = match self.find(mac) {
            Some(i) => {
                let mut session = self.sessions.remove(i);
                let open = session.holds_grant();
                let fx = session.step(event, &self.cfg);
                self.sessions.insert(i, session);
                assert(self@.sessions =~= old(self)@.sessions.update(i as int, session@));
                decorate(host_mode, open, mac, fx)
            },
            None => {
                if self.can_admit() {
                    self.seat_new(mac, event)
                } else {
                    let none: Vec<DirectedEffect> = Vec::new();
                    assert(directed(none@) =~= Seq::<DirectedView>::empty());
                    none
                }
            },
        };
        self.prune();
        fx
    }

    /// Tear every session down (link lost): the port returns to unauthorized.
    pub fn link_down(&mut self) -> (fx: Vec<DirectedEffect>)
        requires
            old(self)@.well_formed(),
        ensures
            final(self)@ == (PortView { sessions: Seq::empty(), ..old(self)@ }),
            final(self)@.well_formed(),
            directed(fx@) == all_ended(old(self)@.sessions).push(port_closed()),
    {
        let mut out: Vec<DirectedEffect> = Vec::new();
        let ghost before = self@.sessions;
        assert(directed(out@) =~= all_ended(before.take(0)));
        let mut i: usize = 0;
        while i < self.sessions.len()
            invariant
                i <= self.sessions.len(),
                self.cfg@ == old(self)@.cfg,
                self@.sessions.len() == before.len(),
                self.sessions.len() == before.len(),
                before == old(self)@.sessions,
                forall|j: int| i <= j < before.len() ==> self@.sessions[j] == #[trigger] before[j],
                forall|j: int| 0 <= j < i ==> (#[trigger] self@.sessions[j]).state is New,
                directed(out@) == all_ended(before.take(i as int)),
            decreases self.sessions.len() - i,
        {
            let ghost now = self@.sessions;
            let mut session = self.sessions.remove(i);
            let mac = session.mac();
            assert(session@ == now[i as int]);
            assert(session@ == before[i as int]);
            let torn = session.step(Event::LinkDown, &self.cfg);
            self.sessions.insert(i, session);
            assert(self@.sessions =~= now.update(i as int, session@));
            proof {
                assert(before.take(i + 1).drop_last() =~= before.take(i as int));
                assert(before.take(i + 1).last() == before[i as int]);
            }
            let mut own = tag(mac, torn);
            out.append(&mut own);
            assert(directed(out@) =~= all_ended(before.take(i + 1)));
            i += 1;
        }
        out.push(
            DirectedEffect {
                mac: None,
                effect: Effect::SetAuthorization(PortAuthorization::Unauthorized),
            },
        );
        proof {
            assert(before.take(i as int) =~= before);
            assert(directed(out@) =~= all_ended(before).push(port_closed()));
            lemma_live_none(self@.sessions);
        }
        self.prune();
        out
    }

    /// Where the session for `mac` is.
    fn find(&self, mac: MacAddr) -> (r: Option<usize>)
        requires
            self@.well_formed(),
        ensures
            r is Some <==> seated(self@.sessions, mac),
            r matches Some(i) ==> i == seat(self@.sessions, mac) && i < self.sessions.len()
                && self@.sessions[i as int].mac == mac,
    {
        let mut i: usize = 0;
        while i < self.sessions.len()
            invariant
                i <= self.sessions.len(),
                self@.well_formed(),
                forall|j: int| 0 <= j < i ==> (#[trigger] self@.sessions[j]).mac != mac,
            decreases self.sessions.len() - i,
        {
            assert(self@.sessions[i as int] == self.sessions@[i as int]@);
            if mac_eq(&self.sessions[i].mac(), &mac) {
                proof {
                    let k = seat(self@.sessions, mac);
                    assert(self@.sessions[k].mac == mac);
                    assert(k == i as int);
                }
                return Some(i);
            }
            i += 1;
        }
        None
    }

    /// Create a session for a new MAC, bootstrap it, then apply the triggering
    /// event.
    fn seat_new(&mut self, mac: MacAddr, event: Event) -> (fx: Vec<DirectedEffect>)
        ensures
            final(self)@ == (PortView {
                sessions: old(self)@.sessions.push(admitted(mac, event@, old(self)@.cfg).0),
                ..old(self)@
            }),
            directed(fx@) == decorated(
                old(self)@.cfg.host_mode,
                false,
                mac,
                admitted(mac, event@, old(self)@.cfg).1,
            ),
    {
        let mut session = PortSession::new(mac);
        let mut fx = session.step(Event::Enable, &self.cfg);
        let solicited = match event {
            Event::Enable => true,
            Event::EapolStart => true,
            _ => false,
        };
        if !solicited {
            let mut rest = session.step(event, &self.cfg);
            fx.append(&mut rest);
        }
        assert(effects(fx@) =~= admitted(mac, event@, self@.cfg).1);
        self.sessions.push(session);
        assert(self@.sessions =~= old(self)@.sessions.push(session@));
        decorate(self.cfg.host_mode, false, mac, fx)
    }

    /// Whether the port can admit another supplicant MAC right now.
    fn can_admit(&self) -> (r: bool)
        ensures
            r == self@.has_room(),
    {
        let active = self.active_sessions();
        match self.cfg.host_mode {
            HostMode::MultiAuth => true,
            HostMode::SingleHost => active == 0,
            HostMode::MultiHost => active == 0,
            HostMode::MultiDomain => active < 2,
        }
    }

    /// Drop sessions that have torn down to `New`, freeing host-mode capacity.
    fn prune(&mut self)
        ensures
            final(self)@ == (PortView { sessions: live(old(self)@.sessions), ..old(self)@ }),
    {
        let mut i: usize = 0;
        while i < self.sessions.len()
            invariant
                i <= self.sessions.len(),
                self.cfg@ == old(self)@.cfg,
                live(self@.sessions) == live(old(self)@.sessions),
                forall|j: int| 0 <= j < i ==> !((#[trigger] self@.sessions[j]).state is New),
            decreases self.sessions.len() - i,
        {
            let ghost now = self@.sessions;
            assert(now[i as int] == self.sessions@[i as int]@);
            if self.sessions[i].state() == State::New {
                self.sessions.remove(i);
                proof {
                    lemma_live_drop(now, i as int);
                    assert(self@.sessions =~= now.remove(i as int));
                }
            } else {
                i += 1;
            }
        }
        proof {
            lemma_live_all(self@.sessions);
        }
    }
}

/// Tag a session's effects with its MAC.
fn tag(mac: MacAddr, fx: Vec<Effect>) -> (out: Vec<DirectedEffect>)
    ensures
        directed(out@) == own_effects(mac, effects(fx@)),
{
    let mut out: Vec<DirectedEffect> = Vec::new();
    let mut i: usize = 0;
    while i < fx.len()
        invariant
            i <= fx.len(),
            directed(out@) == own_effects(mac, effects(fx@)).take(i as int),
        decreases fx.len() - i,
    {
        let ghost done = directed(out@);
        let ghost own = DirectedView { mac: Some(mac), effect: fx@[i as int]@ };
        out.push(DirectedEffect { mac: Some(mac), effect: fx[i].clone() });
        assert(directed(out@) =~= done.push(own));
        assert(done.push(own) =~= own_effects(mac, effects(fx@)).take(i + 1));
        i += 1;
    }
    assert(directed(out@) =~= own_effects(mac, effects(fx@)));
    out
}

/// Tag a session's effects with its MAC, and in multi-host mirror an opening, or the
/// closing of a session that was open, as one of the whole port.
fn decorate(host_mode: HostMode, open: bool, mac: MacAddr, fx: Vec<Effect>) -> (out: Vec<
    DirectedEffect,
>)
    ensures
        directed(out@) == decorated(host_mode, open, mac, effects(fx@)),
{
    let mut out: Vec<DirectedEffect> = Vec::new();
    let ghost all = effects(fx@);
    assert(directed(out@) =~= decorated(host_mode, open, mac, all.take(0)));
    let mut i: usize = 0;
    while i < fx.len()
        invariant
            i <= fx.len(),
            all == effects(fx@),
            directed(out@) == decorated(host_mode, open, mac, all.take(i as int)),
        decreases fx.len() - i,
    {
        let ghost before = directed(out@);
        let port_wide = host_mode == HostMode::MultiHost && match &fx[i] {
            Effect::SetAuthorization(PortAuthorization::Authorized(_)) => true,
            Effect::SetAuthorization(PortAuthorization::Unauthorized) => open,
            _ => false,
        };
        if port_wide {
            out.push(DirectedEffect { mac: None, effect: fx[i].clone() });
        }
        out.push(DirectedEffect { mac: Some(mac), effect: fx[i].clone() });
        proof {
            assert(all.take(i + 1).drop_last() =~= all.take(i as int));
            assert(all.take(i + 1).last() == fx@[i as int]@);
            assert(directed(out@) =~= before + decorated_one(host_mode, open, mac, fx@[i as int]@));
        }
        i += 1;
    }
    assert(all.take(i as int) =~= all);
    out
}

pub proof fn lemma_live_all(s: Seq<SessionView>)
    requires
        forall|i: int| 0 <= i < s.len() ==> !((#[trigger] s[i]).state is New),
    ensures
        live(s) == s,
    decreases s.len(),
{
    reveal(Seq::filter);
    if s.len() > 0 {
        lemma_live_all(s.drop_last());
        assert(s.drop_last().push(s.last()) =~= s);
    }
}

proof fn lemma_live_none(s: Seq<SessionView>)
    requires
        forall|i: int| 0 <= i < s.len() ==> (#[trigger] s[i]).state is New,
    ensures
        live(s) == Seq::<SessionView>::empty(),
    decreases s.len(),
{
    reveal(Seq::filter);
    if s.len() > 0 {
        lemma_live_none(s.drop_last());
    }
}

proof fn lemma_live_drop(s: Seq<SessionView>, i: int)
    requires
        0 <= i < s.len(),
        s[i].state is New,
    ensures
        live(s.remove(i)) == live(s),
{
    let keep = |x: SessionView| !(x.state is New);
    let (a, b, c) = (s.take(i), seq![s[i]], s.skip(i + 1));
    assert(s =~= a + b + c);
    assert(s.remove(i) =~= a + c);
    Seq::filter_distributes_over_add(a, b, keep);
    Seq::filter_distributes_over_add(a + b, c, keep);
    Seq::filter_distributes_over_add(a, c, keep);
    lemma_live_none(b);
    assert(live(a) + live(b) =~= live(a));
}

/// Dropping the one session that may have ended from otherwise live ones.
pub proof fn lemma_live_update(s: Seq<SessionView>, i: int, t: SessionView)
    requires
        0 <= i < s.len(),
        forall|j: int| 0 <= j < s.len() ==> !((#[trigger] s[j]).state is New),
    ensures
        live(s.update(i, t)) == (if t.state is New { s.remove(i) } else { s.update(i, t) }),
{
    let u = s.update(i, t);
    if t.state is New {
        lemma_live_drop(u, i);
        assert(u.remove(i) =~= s.remove(i));
        lemma_live_all(s.remove(i));
    } else {
        lemma_live_all(u);
    }
}

/// Whatever event comes for whichever MAC, a port never holds more sessions than
/// its host mode admits, nor two for one MAC, nor one that is out of service.
pub proof fn law_port_stays_well_formed(p: PortView, mac: MacAddr, e: EventView)
    requires
        p.well_formed(),
    ensures
        handled(p, mac, e).0.well_formed(),
{
    let q = handled(p, mac, e).0;
    if seated(p.sessions, mac) {
        let i = seat(p.sessions, mac);
        let t = step_of(p.sessions[i], e, p.cfg).0;
        law_session_stays_sound(p.sessions[i], e, p.cfg);
        lemma_live_update(p.sessions, i, t);
        assert(t.mac == mac);
        if t.state is New {
            assert(q.sessions == p.sessions.remove(i));
        } else {
            assert(q.sessions == p.sessions.update(i, t));
        }
    } else if p.has_room() {
        let t = admitted(mac, e, p.cfg).0;
        law_session_stays_sound(idle(mac), EventView::Enable, p.cfg);
        law_session_stays_sound(step_of(idle(mac), EventView::Enable, p.cfg).0, e, p.cfg);
        lemma_live_all(p.sessions);
        reveal(Seq::filter);
        assert(p.sessions.push(t).drop_last() =~= p.sessions);
        assert(p.sessions.push(t).last() == t);
        if t.state is New {
            assert(q.sessions == p.sessions);
        } else {
            assert(q.sessions == p.sessions.push(t));
        }
    }
}

/// A port that has all the sessions its host mode admits takes no notice of anyone
/// else.
pub proof fn law_full_port_ignores_strangers(p: PortView, mac: MacAddr, e: EventView)
    requires
        p.well_formed(),
        session_limit(p.cfg.host_mode) == Some(p.sessions.len() as usize),
        !seated(p.sessions, mac),
    ensures
        handled(p, mac, e) == (p, Seq::<DirectedView>::empty()),
{
    lemma_live_all(p.sessions);
}

/// An event for one MAC leaves the sessions of all others as they were.
pub proof fn law_other_sessions_are_undisturbed(
    p: PortView,
    mac: MacAddr,
    e: EventView,
    other: MacAddr,
)
    requires
        p.well_formed(),
        mac != other,
    ensures
        seated(handled(p, mac, e).0.sessions, other) == seated(p.sessions, other),
        seated(p.sessions, other) ==> handled(p, mac, e).0.sessions[seat(
            handled(p, mac, e).0.sessions,
            other,
        )] == p.sessions[seat(p.sessions, other)],
{
    let q = handled(p, mac, e).0;
    law_port_stays_well_formed(p, mac, e);
    if seated(p.sessions, mac) {
        let i = seat(p.sessions, mac);
        let t = step_of(p.sessions[i], e, p.cfg).0;
        lemma_live_update(p.sessions, i, t);
        assert(t.mac == mac);
        if t.state is New {
            assert(q.sessions == p.sessions.remove(i));
            assert forall|j: int| 0 <= j < p.sessions.len() && j != i implies p.sessions[j]
                == q.sessions[if j < i { j } else { j - 1 }] by {}
            assert forall|j: int| 0 <= j < q.sessions.len() implies q.sessions[j] == p.sessions[if j
                < i { j } else { j + 1 }] by {}
        } else {
            assert(q.sessions == p.sessions.update(i, t));
            assert forall|j: int| 0 <= j < p.sessions.len() && j != i implies p.sessions[j]
                == q.sessions[j] by {}
        }
        if seated(p.sessions, other) {
            let k = seat(p.sessions, other);
            assert(k != i);
            let m = if t.state is New && k > i { k - 1 } else { k };
            assert(q.sessions[m].mac == other);
        }
        if seated(q.sessions, other) {
            let m = seat(q.sessions, other);
            let k = if t.state is New && m >= i { m + 1 } else { m };
            assert(q.sessions[m].mac == other);
            assert(p.sessions[k].mac == other);
        }
    } else if p.has_room() {
        let t = admitted(mac, e, p.cfg).0;
        lemma_live_all(p.sessions);
        reveal(Seq::filter);
        assert(p.sessions.push(t).drop_last() =~= p.sessions);
        assert(p.sessions.push(t).last() == t);
        assert(t.mac == mac);
        if seated(p.sessions, other) {
            let k = seat(p.sessions, other);
            assert(q.sessions[k] == p.sessions[k]);
            assert(q.sessions[k].mac == other);
        }
        if seated(q.sessions, other) {
            let m = seat(q.sessions, other);
            assert(q.sessions[m].mac == other);
            assert(m < p.sessions.len());
            assert(p.sessions[m].mac == other);
        }
    }
}

/// Whether the port as a whole is open, after what it was told port-wide in `fx`.
pub open spec fn port_told(open: bool, fx: Seq<DirectedView>) -> bool
    decreases fx.len(),
{
    if fx.len() == 0 {
        open
    } else {
        match fx.last() {
            DirectedView { mac: None, effect: EffectView::SetAuthorization(a) } => a is Authorized,
            _ => port_told(open, fx.drop_last()),
        }
    }
}

/// Whether one of the sessions holds a grant.
pub open spec fn any_open(sessions: Seq<SessionView>) -> bool {
    exists|i: int| 0 <= i < sessions.len() && (#[trigger] sessions[i]).accounting_open
}

/// No effect opens.
spec fn opens_nothing(fx: Seq<EffectView>) -> bool {
    forall|i: int|
        0 <= i < fx.len() ==> !(#[trigger] fx[i] matches EffectView::SetAuthorization(a)
            && a is Authorized)
}

/// No effect closes.
spec fn closes_nothing(fx: Seq<EffectView>) -> bool {
    forall|i: int|
        0 <= i < fx.len() ==> #[trigger] fx[i] != EffectView::SetAuthorization(
            PortAuthorizationView::Unauthorized,
        )
}

/// The port-wide effects tell the port what the session's own do: a closing that is
/// not mirrored is one of a session that was not open, and nothing opened before it.
proof fn lemma_port_told(w: World, mac: MacAddr, fx: Seq<EffectView>)
    requires
        w.port_open || opens_nothing(fx) || closes_nothing(fx),
    ensures
        port_told(w.port_open, decorated(HostMode::MultiHost, w.port_open, mac, fx)) == performed_all(
            w,
            fx,
        ).port_open,
        !w.port_open && opens_nothing(fx) ==> !performed_all(w, fx).port_open,
    decreases fx.len(),
{
    if fx.len() > 0 {
        let (front, last) = (fx.drop_last(), fx.last());
        assert forall|i: int| 0 <= i < front.len() implies #[trigger] front[i] == fx[i] by {}
        assert(last == fx[fx.len() - 1]);
        lemma_port_told(w, mac, front);
        let before = decorated(HostMode::MultiHost, w.port_open, mac, front);
        let all = decorated(HostMode::MultiHost, w.port_open, mac, fx);
        reveal_with_fuel(port_told, 3);
        if mirrored(HostMode::MultiHost, w.port_open, last) {
            assert(all.drop_last().drop_last() =~= before);
        } else {
            assert(all.drop_last() =~= before);
        }
    }
}

/// A session that is not open does not open and close in one step.
proof fn lemma_one_way(s: SessionView, e: EventView, cfg: ConfigView)
    requires
        sound(s),
        !s.accounting_open,
    ensures
        opens_nothing(step_of(s, e, cfg).1) || closes_nothing(step_of(s, e, cfg).1),
        !(s.state is AuthServer) ==> opens_nothing(step_of(s, e, cfg).1),
{
    let fx = step_of(s, e, cfg).1;
    if !(e is AccessAccept && s.state is AuthServer) {
        assert forall|i: int| 0 <= i < fx.len() implies !(#[trigger] fx[i] matches EffectView::SetAuthorization(
            a,
        ) && a is Authorized) by {
            if let EffectView::SetAuthorization(PortAuthorizationView::Authorized(a)) = fx[i] {
                law_only_the_server_opens(s, e, cfg, i, a);
            }
        }
    }
}

/// In multi-host the port as a whole is open exactly while the one session on it
/// holds a grant: the opener's leaving closes it for everybody.
pub proof fn law_multi_host_port_follows_its_session(p: PortView, mac: MacAddr, e: EventView)
    requires
        p.well_formed(),
        p.cfg.host_mode is MultiHost,
    ensures
        port_told(any_open(p.sessions), handled(p, mac, e).1) == any_open(handled(p, mac, e).0.sessions),
{
    let open = any_open(p.sessions);
    let w = World { port_open: open, ..quiet() };
    let q = handled(p, mac, e).0;
    law_port_stays_well_formed(p, mac, e);
    if seated(p.sessions, mac) {
        let i = seat(p.sessions, mac);
        assert(i == 0 && p.sessions.len() == 1);
        let (t, fx) = step_of(p.sessions[i], e, p.cfg);
        assert(open == p.sessions[0].accounting_open);
        lemma_port_open(w, p.sessions[0], e, p.cfg);
        if !open {
            lemma_one_way(p.sessions[0], e, p.cfg);
        }
        lemma_port_told(w, mac, fx);
        law_session_stays_sound(p.sessions[0], e, p.cfg);
        lemma_live_update(p.sessions, 0, t);
        if !(t.state is New) {
            assert(q.sessions[0] == t);
        }
    } else if p.has_room() {
        lemma_live_all(p.sessions);
        assert(p.sessions =~= Seq::<SessionView>::empty());
        let (s, first) = step_of(idle(mac), EventView::Enable, p.cfg);
        let (t, fx) = admitted(mac, e, p.cfg);
        law_session_stays_sound(idle(mac), EventView::Enable, p.cfg);
        law_session_stays_sound(s, e, p.cfg);
        lemma_port_open(w, idle(mac), EventView::Enable, p.cfg);
        lemma_one_way(idle(mac), EventView::Enable, p.cfg);
        if !(e is Enable || e is EapolStart) {
            lemma_append(w, first, step_of(s, e, p.cfg).1);
            lemma_port_open(performed_all(w, first), s, e, p.cfg);
            lemma_one_way(s, e, p.cfg);
        }
        lemma_port_told(w, mac, fx);
        reveal(Seq::filter);
        assert(p.sessions.push(t).drop_last() =~= p.sessions);
        assert(p.sessions.push(t).last() == t);
        if !(t.state is New) {
            assert(q.sessions[0] == t);
        }
    }
}

/// Losing the link closes the port as a whole, in every mode.
pub proof fn law_link_loss_closes_the_port(open: bool, sessions: Seq<SessionView>)
    ensures
        !port_told(open, all_ended(sessions).push(port_closed())),
{
}

} // verus!
