//! [`SonicEnforcer`] keeps the last-applied posture per `{port, target}`, plans the
//! minimal transition, and lets a posture count only once everything that has to be
//! confirmed of it has been.
//!
//! Ports are opened and closed as a whole. Once a port has been closed, no target on it
//! counts as open any more, and letting one in opens the port again.
//!
//! An enforcement is a [`Plan`]: its steps are performed against the database one
//! after the other by whoever holds the connection, and what came of each is handed
//! back to the plan.

use super::db::{op_views, Db, DbOp, DbOpView};
use super::error::SonicError;
use super::schema::{
    acl_table_key, close_ops, closed_posture, deny_all, deny_rule_key, desired_of, is_valid_vlan,
    plan_close, plan_eapol_trap, table_key, transition, transition_ops, trap_op, valid_vlan,
    vlan_member, vlan_member_key, Desired, DesiredView, EAPOL_TRAP_KEY,
};
use crate::enforce::{target_eq, Target};
use crate::pae::effect::{PortAuthorization, PortAuthorizationView};
use crate::table::{
    distinct, holds, lemma_table_at, lemma_table_push, lemma_table_same_keys, lemma_table_update,
    place, table,
};
use vstd::prelude::*;

verus! {

/// One step of an enforcement.
#[derive(Debug)]
pub enum PlanStep {
    /// Look whether `key` exists in `db`; it has to if `present`, and must not
    /// otherwise.
    Confirm {
        /// The database to look in.
        db: Db,
        /// The key to look for.
        key: String,
        /// Whether it has to be there.
        present: bool,
    },
    /// Apply the operations in order.
    Apply {
        /// The operations.
        ops: Vec<DbOp>,
    },
}

/// What a step asks for.
#[verifier::ext_equal]
pub enum StepView {
    Confirm { db: Db, key: Seq<char>, present: bool },
    Apply { ops: Seq<DbOpView> },
}

impl View for PlanStep {
    type V = StepView;

    open spec fn view(&self) -> StepView {
        match *self {
            PlanStep::Confirm { db, key, present } => StepView::Confirm { db, key: key@, present },
            PlanStep::Apply { ops } => StepView::Apply { ops: op_views(ops@) },
        }
    }
}

pub open spec fn step_views(steps: Seq<PlanStep>) -> Seq<StepView> {
    Seq::new(steps.len(), |i: int| steps[i]@)
}

/// A port and what is enforced on it.
pub type Place = (Seq<char>, Target);

/// An enforcement under way.
#[derive(Debug)]
pub struct Plan {
    steps: Vec<PlanStep>,
    at: usize,
    port: String,
    posture: Option<(Target, Desired)>,
}

/// How far an enforcement is: its steps, how many of them are done, the port, and the
/// posture to remember of a target on it once all are. A plan without one closes the
/// port.
#[verifier::ext_equal]
pub struct PlanView {
    pub steps: Seq<StepView>,
    pub at: nat,
    pub port: Seq<char>,
    pub posture: Option<(Target, DesiredView)>,
}

impl View for Plan {
    type V = PlanView;

    closed spec fn view(&self) -> PlanView {
        PlanView {
            steps: step_views(self.steps@),
            at: self.at as nat,
            port: self.port@,
            posture: match self.posture {
                Some((target, desired)) => Some((target, desired@)),
                None => None,
            },
        }
    }
}

impl PlanView {
    /// All steps are done.
    pub open spec fn complete(self) -> bool {
        self.at >= self.steps.len()
    }

    /// The step to perform next, if any is left.
    pub open spec fn next(self) -> Option<StepView> {
        if self.complete() {
            None
        } else {
            Some(self.steps[self.at as int])
        }
    }

    /// The plan with one more step done.
    pub open spec fn advanced(self) -> PlanView {
        PlanView { at: self.at + 1, ..self }
    }
}

impl Plan {
    /// The step to perform next, or `None` once all are done.
    pub fn next_step(&self) -> (r: Option<&PlanStep>)
        ensures
            self@.next() == (match r {
                Some(s) => Some(s@),
                None => None,
            }),
    {
        if self.at < self.steps.len() {
            Some(&self.steps[self.at])
        } else {
            None
        }
    }

    /// Take the answer to a confirmation: whether the key exists. An answer that is
    /// not the one wanted ends the enforcement without success.
    pub fn confirmed<E>(&mut self, exists: bool) -> (r: Result<(), SonicError<E>>)
        requires
            old(self)@.next() matches Some(s) && s is Confirm,
        ensures
            old(self)@.next() matches Some(StepView::Confirm { db, key, present }) && (if exists
                == present {
                r is Ok && final(self)@ == old(self)@.advanced()
            } else {
                final(self)@ == old(self)@ && (r matches Err(SonicError::Unconfirmed { db: d, key: k })
                    && d == db && k@ == key)
            }),
    {
        match &self.steps[self.at] {
            PlanStep::Confirm { db, key, present } => {
                if exists != *present {
                    return Err(SonicError::Unconfirmed { db: *db, key: key.clone() });
                }
            },
            PlanStep::Apply { .. } => {},
        }
        assert(self.at < self.steps.len());
        self.at = self.at + 1;
        Ok(())
    }

    /// Take note that the operations of the current step were applied.
    pub fn applied(&mut self)
        requires
            old(self)@.next() matches Some(s) && s is Apply,
        ensures
            final(self)@ == old(self)@.advanced(),
    {
        assert(self.at < self.steps.len());
        self.at = self.at + 1;
    }
}

/// A confirmation in CONFIG_DB.
pub open spec fn check(key: Seq<char>, present: bool) -> StepView {
    StepView::Confirm { db: Db::Config, key, present }
}

/// What has to hold before a posture is applied: a named ACL has to be provisioned.
pub open spec fn checks_before(new: DesiredView) -> Seq<StepView> {
    match new.filter_id {
        Some(f) => seq![check(table_key(f), true)],
        None => Seq::empty(),
    }
}

/// What has to hold after a posture was applied: an open port is in its VLAN and is
/// not denied, a closed one is denied. Since it is the port that is open or closed, a
/// station that was never let in is not confirmed closed while another holds the port
/// open.
pub open spec fn checks_after(port: Seq<char>, new: DesiredView) -> Seq<StepView> {
    if new.authorized {
        (match new.vlan {
            Some(v) => seq![check(vlan_member(v, port), true)],
            None => Seq::empty(),
        }) + seq![check(deny_all(port), false)]
    } else {
        seq![check(deny_all(port), true)]
    }
}

/// The steps from one posture to another.
pub open spec fn posture_steps(port: Seq<char>, old: DesiredView, new: DesiredView) -> Seq<StepView> {
    checks_before(new) + seq![StepView::Apply { ops: transition_ops(port, old, new) }] + checks_after(
        port,
        new,
    )
}

/// The steps that bring a port into service: the EAPOL trap is installed and the
/// port is closed, both confirmed.
pub open spec fn trap_steps(port: Seq<char>) -> Seq<StepView> {
    seq![
        StepView::Apply { ops: seq![trap_op()] + close_ops(port) },
        check(EAPOL_TRAP_KEY@, true),
        check(deny_all(port), true),
    ]
}

/// The posture that is remembered for a place; closed where none is.
pub open spec fn remembered(applied: Map<Place, DesiredView>, at: Place) -> DesiredView {
    if applied.dom().contains(at) {
        applied[at]
    } else {
        closed_posture()
    }
}

/// The postures on a port that was closed: none of them is open any more, and their
/// VLANs and ACLs are still there to be taken back.
pub open spec fn shut(applied: Map<Place, DesiredView>, port: Seq<char>) -> Map<
    Place,
    DesiredView,
> {
    Map::new(
        |at: Place| applied.dom().contains(at),
        |at: Place|
            if at.0 == port {
                DesiredView { authorized: false, ..applied[at] }
            } else {
                applied[at]
            },
    )
}

/// What is remembered once all steps of a plan are done.
pub open spec fn concluded(
    applied: Map<Place, DesiredView>,
    port: Seq<char>,
    posture: Option<(Target, DesiredView)>,
) -> Map<Place, DesiredView> {
    match posture {
        Some((target, desired)) => if desired.authorized {
            applied.insert((port, target), desired)
        } else {
            shut(applied, port).insert((port, target), desired)
        },
        None => shut(applied, port),
    }
}

/// What is remembered once a plan is handed in: nothing new unless it is complete.
pub open spec fn finished(applied: Map<Place, DesiredView>, plan: PlanView) -> Map<
    Place,
    DesiredView,
> {
    if plan.complete() {
        concluded(applied, plan.port, plan.posture)
    } else {
        applied
    }
}

/// What planning an authorization comes to: a plan, or the VLAN that cannot be
/// programmed.
pub open spec fn planned(
    applied: Map<Place, DesiredView>,
    at: Place,
    auth: PortAuthorizationView,
) -> Result<PlanView, Seq<char>> {
    let new = desired_of(auth);
    if new.vlan matches Some(v) && !valid_vlan(v) {
        Err(new.vlan->0)
    } else {
        Ok(
            PlanView {
                steps: posture_steps(at.0, remembered(applied, at), new),
                at: 0,
                port: at.0,
                posture: Some((at.1, new)),
            },
        )
    }
}

/// Decides how port authorization is programmed on SONiC.
#[derive(Debug)]
pub struct SonicEnforcer {
    applied: Vec<(String, Target, Desired)>,
}

pub open spec fn entry_views(entries: Seq<(String, Target, Desired)>) -> Seq<(Place, DesiredView)> {
    Seq::new(entries.len(), |i: int| ((entries[i].0@, entries[i].1), entries[i].2@))
}

impl View for SonicEnforcer {
    type V = Map<Place, DesiredView>;

    closed spec fn view(&self) -> Map<Place, DesiredView> {
        table(entry_views(self.applied@))
    }
}

impl SonicEnforcer {
    /// Each place is remembered once.
    pub closed spec fn well_formed(&self) -> bool {
        distinct(entry_views(self.applied@))
    }

    /// An enforcer that has applied nothing yet.
    pub fn new() -> (r: Self)
        ensures
            r.well_formed(),
            r@ == Map::<Place, DesiredView>::empty(),
    {
        let r = SonicEnforcer { applied: Vec::new() };
        assert(r@ =~= Map::<Place, DesiredView>::empty());
        r
    }

    /// Plan to bring `port` into 802.1X service: trap EAPOL to the CPU and close the
    /// port, so that it is never open before it authenticates.
    pub fn ensure_eapol_trap(&self, port: &str) -> (r: Plan)
        ensures
            r@ == (PlanView { steps: trap_steps(port@), at: 0, port: port@, posture: None }),
    {
        let mut ops = plan_eapol_trap();
        let mut close = plan_close(port);
        ops.append(&mut close);
        assert(op_views(ops@) =~= seq![trap_op()] + close_ops(port@));
        let steps = vec![
            PlanStep::Apply { ops },
            PlanStep::Confirm { db: Db::Config, key: EAPOL_TRAP_KEY.to_owned(), present: true },
            PlanStep::Confirm {
                db: Db::Config,
                key: deny_rule_key(port, Target::Port),
                present: true,
            },
        ];
        assert(step_views(steps@) =~= trap_steps(port@));
        Plan { steps, at: 0, port: port.to_owned(), posture: None }
    }

    /// Plan to apply `auth` to `target` on `port`. A VLAN that cannot be programmed
    /// is refused before anything is touched.
    pub fn apply<E>(&self, port: &str, target: Target, auth: &PortAuthorization) -> (r: Result<
        Plan,
        SonicError<E>,
    >)
        requires
            self.well_formed(),
        ensures
            match planned(self@, (port@, target), auth@) {
                Ok(plan) => r matches Ok(p) && p@ == plan,
                Err(vlan) => r matches Err(SonicError::InvalidVlan(v)) && v@ == vlan,
            },
    {
        let new = Desired::from_authorization(auth);
        if let Some(vlan) = &new.vlan {
            if !is_valid_vlan(vlan.as_str()) {
                return Err(SonicError::InvalidVlan(vlan.clone()));
            }
        }
        let old = self.previous(port, target);
        let mut steps: Vec<PlanStep> = Vec::new();
        if let Some(f) = &new.filter_id {
            steps.push(
                PlanStep::Confirm { db: Db::Config, key: acl_table_key(f.as_str()), present: true },
            );
        }
        steps.push(PlanStep::Apply { ops: transition(port, &old, &new) });
        if new.authorized {
            if let Some(vlan) = &new.vlan {
                steps.push(
                    PlanStep::Confirm {
                        db: Db::Config,
                        key: vlan_member_key(vlan.as_str(), port),
                        present: true,
                    },
                );
            }
        }
        steps.push(
            PlanStep::Confirm {
                db: Db::Config,
                key: deny_rule_key(port, Target::Port),
                present: !new.authorized,
            },
        );
        assert(step_views(steps@) =~= posture_steps(port@, old@, new@));
        Ok(Plan { steps, at: 0, port: port.to_owned(), posture: Some((target, new)) })
    }

    /// Remember what a plan did, if all of its steps are done: the posture that it
    /// reached, and where it closed the port, that no target there is open. A plan that
    /// is not done changes nothing.
    pub fn finish(&mut self, plan: Plan) -> (r: bool)
        requires
            old(self).well_formed(),
        ensures
            final(self).well_formed(),
            r == plan@.complete(),
            final(self)@ == finished(old(self)@, plan@),
    {
        if plan.at < plan.steps.len() {
            return false;
        }
        match plan.posture {
            Some((target, desired)) => {
                if !desired.authorized {
                    self.shut_port(&plan.port);
                }
                self.remember(plan.port, target, desired);
            },
            None => self.shut_port(&plan.port),
        }
        true
    }

    /// Where a place is remembered.
    fn find(&self, port: &String, target: Target) -> (r: Option<usize>)
        requires
            self.well_formed(),
        ensures
            r is Some <==> self@.dom().contains((port@, target)),
            r matches Some(i) ==> i < self.applied@.len() && entry_views(self.applied@)[i as int].0 == (
                port@,
                target,
            ) && self@[(port@, target)] == self.applied@[i as int].2@,
    {
        let ghost entries = entry_views(self.applied@);
        let mut i: usize = 0;
        while i < self.applied.len()
            invariant
                i <= self.applied.len(),
                entries == entry_views(self.applied@),
                distinct(entries),
                forall|j: int| 0 <= j < i ==> (#[trigger] entries[j]).0 != (port@, target),
            decreases self.applied.len() - i,
        {
            assert(entries[i as int].0 == (self.applied@[i as int].0@, self.applied@[i as int].1));
            if self.applied[i].0 == *port && target_eq(self.applied[i].1, target) {
                proof {
                    lemma_table_at(entries, i as int);
                }
                return Some(i);
            }
            i += 1;
        }
        None
    }

    /// The posture last applied; closed where none was.
    fn previous(&self, port: &str, target: Target) -> (r: Desired)
        requires
            self.well_formed(),
        ensures
            r@ == remembered(self@, (port@, target)),
    {
        let port = port.to_owned();
        match self.find(&port, target) {
            Some(i) => self.applied[i].2.clone(),
            None => Desired::default(),
        }
    }

    /// No posture on the port is open any more.
    fn shut_port(&mut self, port: &String)
        requires
            old(self).well_formed(),
        ensures
            final(self).well_formed(),
            final(self)@ == shut(old(self)@, port@),
    {
        let ghost before = entry_views(self.applied@);
        let mut i: usize = 0;
        while i < self.applied.len()
            invariant
                i <= self.applied.len(),
                before.len() == self.applied@.len(),
                forall|j: int|
                    0 <= j < before.len() ==> (#[trigger] before[j]).0 == entry_views(self.applied@)[j].0,
                forall|j: int|
                    0 <= j < i ==> entry_views(self.applied@)[j].1 == (if (#[trigger] before[j]).0.0
                        == port@ {
                        DesiredView { authorized: false, ..before[j].1 }
                    } else {
                        before[j].1
                    }),
                forall|j: int|
                    i <= j < before.len() ==> (#[trigger] before[j]).1 == entry_views(
                        self.applied@,
                    )[j].1,
            decreases self.applied.len() - i,
        {
            assert(before[i as int].0 == entry_views(self.applied@)[i as int].0);
            if self.applied[i].0 == *port {
                let (on, target, desired) = (
                    self.applied[i].0.clone(),
                    self.applied[i].1,
                    self.applied[i].2.clone(),
                );
                self.applied.set(i, (on, target, Desired { authorized: false, ..desired }));
            }
            i += 1;
        }
        proof {
            let after = entry_views(self.applied@);
            lemma_table_same_keys(before, after);
            assert forall|at: Place| holds(before, at) implies #[trigger] table(after)[at] == shut(
                table(before),
                port@,
            )[at] by {
                let j = place(before, at);
                assert(before[j].0 == at);
                lemma_table_at(before, j);
                lemma_table_at(after, j);
            }
            assert(table(after) =~= shut(table(before), port@));
        }
    }

    fn remember(&mut self, port: String, target: Target, desired: Desired)
        requires
            old(self).well_formed(),
        ensures
            final(self).well_formed(),
            final(self)@ == old(self)@.insert((port@, target), desired@),
    {
        let ghost entries = entry_views(self.applied@);
        let ghost at = (port@, target);
        match self.find(&port, target) {
            Some(i) => {
                proof {
                    lemma_table_update(entries, i as int, desired@);
                }
                self.applied.set(i, (port, target, desired));
                assert(entry_views(self.applied@) =~= entries.update(i as int, (at, desired@)));
            },
            None => {
                proof {
                    assert(!holds(entries, at));
                    lemma_table_push(entries, at, desired@);
                }
                self.applied.push((port, target, desired));
                assert(entry_views(self.applied@) =~= entries.push((at, desired@)));
            },
        }
    }
}

/// What came of a step: the answer to a confirmation, or operations applied.
pub enum Reply {
    Exists(bool),
    Applied,
}

/// Whether a reply is what a step needs to count as done.
pub open spec fn satisfies(step: StepView, reply: Reply) -> bool {
    match (step, reply) {
        (StepView::Confirm { present, .. }, Reply::Exists(exists)) => exists == present,
        (StepView::Apply { .. }, Reply::Applied) => true,
        _ => false,
    }
}

/// A plan after a series of replies; a reply that does not satisfy its step leaves
/// it where it is.
pub open spec fn driven(plan: PlanView, replies: Seq<Reply>) -> PlanView
    decreases replies.len(),
{
    if replies.len() == 0 {
        plan
    } else {
        let p = driven(plan, replies.drop_last());
        if p.next() matches Some(step) && satisfies(step, replies.last()) {
            p.advanced()
        } else {
            p
        }
    }
}

/// A plan is complete only once every one of its steps was satisfied, in order: an
/// unconfirmed change never counts.
pub proof fn law_only_confirmed_plans_complete(plan: PlanView, replies: Seq<Reply>)
    requires
        plan.at == 0,
        driven(plan, replies).complete(),
    ensures
        exists|turn: Seq<int>|
            #![trigger turn.len()]
            turn.len() == plan.steps.len() && (forall|i: int|
                0 <= i < turn.len() ==> 0 <= #[trigger] turn[i] < replies.len() && satisfies(
                    plan.steps[i],
                    replies[turn[i]],
                )) && (forall|i: int, j: int| 0 <= i < j < turn.len() ==> turn[i] < turn[j]),
{
    let turn = lemma_driven(plan, replies);
    assert(driven(plan, replies).steps == plan.steps);
}

proof fn lemma_driven(plan: PlanView, replies: Seq<Reply>) -> (turn: Seq<int>)
    requires
        plan.at == 0,
    ensures
        driven(plan, replies).steps == plan.steps,
        driven(plan, replies).at <= plan.steps.len(),
        turn.len() == driven(plan, replies).at,
        forall|i: int|
            0 <= i < turn.len() ==> 0 <= #[trigger] turn[i] < replies.len() && satisfies(
                plan.steps[i],
                replies[turn[i]],
            ),
        forall|i: int, j: int| 0 <= i < j < turn.len() ==> turn[i] < turn[j],
    decreases replies.len(),
{
    if replies.len() == 0 {
        Seq::empty()
    } else {
        let front = replies.drop_last();
        let before = lemma_driven(plan, front);
        let p = driven(plan, front);
        assert forall|i: int| 0 <= i < before.len() implies replies[before[i]] == front[before[i]] by {}
        if p.next() matches Some(step) && satisfies(step, replies.last()) {
            before.push(replies.len() - 1)
        } else {
            before
        }
    }
}

} // verus!
