//! What the switch makes of a frame under the rules in its database, and what a completed
//! plan is worth.

use super::db::DbOpView;
use super::enforcer::{
    checks_after, checks_before, concluded, finished, planned, remembered, trap_steps, Place,
    PlanView, StepView,
};
use super::laws::{
    guarded, key_of, law_bring_up_closes_the_port, lemma_rules, lemma_untouched, performed_all,
    priority, says, Config,
};
use super::list::plain_item;
use super::schema::{
    allow_eapol, close_ops, deny_all, desired_of, filter_ops, gate_ops, number_of, table_key,
    table_name, transition_ops, trap_op, valid_vlan, vlan_member, vlan_ops, DesiredView,
    EAPOL_TRAP_KEY,
};
use crate::pae::effect::PortAuthorizationView;
use crate::text::decimal;
use vstd::prelude::*;

verus! {

/// Whether a rule is about frames of this EtherType: it names none, or this one.
pub open spec fn applies(db: Config, rule: Seq<char>, ether_type: Seq<char>) -> bool {
    &&& db.dom().contains(rule)
    &&& db[rule].dom().contains("ETHER_TYPE"@) ==> db[rule]["ETHER_TYPE"@] == ether_type
}

/// Whether a rule of the port's own decides over frames of this EtherType: it applies, and
/// goes before the other one where that applies too.
pub open spec fn decides(db: Config, port: Seq<char>, rule: Seq<char>, ether_type: Seq<char>) -> bool {
    &&& rule == allow_eapol(port) || rule == deny_all(port)
    &&& applies(db, rule, ether_type)
    &&& forall|other: Seq<char>|
        (other == allow_eapol(port) || other == deny_all(port)) && other != rule && #[trigger] applies(
            db,
            other,
            ether_type,
        ) ==> priority(db, rule) > priority(db, other)
}

/// On a port that is guarded, the rule that decides over EAPOL (EtherType 0x888E)
/// forwards it, and the one that decides over anything else drops it, as long as the drop
/// is not restricted to one EtherType.
pub proof fn law_guarded_port_lets_only_eapol_in(db: Config, port: Seq<char>, ether_type: Seq<char>)
    requires
        guarded(db, port),
        !db[deny_all(port)].dom().contains("ETHER_TYPE"@),
    ensures
        ether_type == "0x888E"@ ==> decides(db, port, allow_eapol(port), ether_type) && says(
            db,
            allow_eapol(port),
            "PACKET_ACTION"@,
            "FORWARD"@,
        ),
        ether_type != "0x888E"@ ==> decides(db, port, deny_all(port), ether_type) && says(
            db,
            deny_all(port),
            "PACKET_ACTION"@,
            "DROP"@,
        ),
{
}

/// Bringing a port into service leaves it guarded, whatever was there before; and where
/// it had no rules yet, the drop is one of everything, so that all but EAPOL is dropped.
pub proof fn law_bring_up_drops_all_but_eapol(db: Config, port: Seq<char>, ether_type: Seq<char>)
    requires
        plain_item(port),
        !db.dom().contains(deny_all(port)),
    ensures
        ({
            let after = performed_all(db, seq![trap_op()] + close_ops(port));
            &&& ether_type == "0x888E"@ ==> decides(after, port, allow_eapol(port), ether_type)
            &&& ether_type != "0x888E"@ ==> decides(after, port, deny_all(port), ether_type)
        }),
{
    let after = performed_all(db, seq![trap_op()] + close_ops(port));
    law_bring_up_closes_the_port(db, port);
    law_guarded_port_lets_only_eapol_in(after, port, ether_type);
}

/// The rules of a port are rules of the table that is bound to it, and its membership of a
/// VLAN is one of that VLAN.
pub proof fn law_rules_are_in_the_table(port: Seq<char>, vlan: Seq<char>)
    ensures
        vlan_member(vlan, port) == "VLAN_MEMBER|Vlan"@ + vlan + "|"@ + port,
        table_key(table_name(port)) == "ACL_TABLE|"@ + table_name(port),
        deny_all(port) == "ACL_RULE|"@ + table_name(port) + "|"@ + "DENY_ALL"@,
        allow_eapol(port) == "ACL_RULE|"@ + table_name(port) + "|"@ + "ALLOW_EAPOL"@,
        table_name(port) == "DOT1X_"@ + port,
{
}

/// A transition touches nothing but the port's membership of the old and the new VLAN, the
/// port list of the old and the new named ACL, and the port's own table and rules.
pub proof fn law_transition_touches_only_its_own(
    db: Config,
    port: Seq<char>,
    old: DesiredView,
    new: DesiredView,
    key: Seq<char>,
)
    requires
        old.vlan is Some ==> key != vlan_member(old.vlan->0, port),
        new.vlan is Some ==> key != vlan_member(new.vlan->0, port),
        old.filter_id is Some ==> key != table_key(old.filter_id->0),
        new.filter_id is Some ==> key != table_key(new.filter_id->0),
        key != table_key(table_name(port)),
        key != deny_all(port),
        key != allow_eapol(port),
    ensures
        ({
            let after = performed_all(db, transition_ops(port, old, new));
            &&& after.dom().contains(key) == db.dom().contains(key)
            &&& after[key] == db[key]
        }),
{
    lemma_untouched(db, transition_ops(port, old, new), key);
}

/// The posture that is asked for is the one that was authorized: the server's VLAN and
/// ACL, a fallback's VLAN and no ACL, and a closed port for whoever is not authorized.
pub proof fn law_posture_is_what_was_authorized(auth: PortAuthorizationView)
    ensures
        desired_of(auth).authorized <==> !(auth is Unauthorized),
        match auth {
            PortAuthorizationView::Authorized(a) => desired_of(auth).vlan == a.vlan && desired_of(
                auth,
            ).filter_id == a.filter_id,
            PortAuthorizationView::Fallback { vlan, .. } => desired_of(auth).vlan == vlan && desired_of(
                auth,
            ).filter_id is None,
            PortAuthorizationView::Unauthorized => desired_of(auth).vlan is None && desired_of(
                auth,
            ).filter_id is None,
        },
{
}

/// Whether it is this database that is asked, and it answers a confirmation as the plan wants it answered.
pub open spec fn holds_in(step: StepView, db: Config) -> bool {
    match step {
        StepView::Confirm { db: at, key, present } => at is Config && db.dom().contains(key) == present,
        StepView::Apply { .. } => true,
    }
}

/// A plan applies its operations in one step, and what it confirms is worth something: if
/// everything before that step holds in the database as it was, and everything after it
/// in the database as it became, then the named ACL was there to be bound, and the port is
/// open, in its VLAN, for whoever is authorized, and denied for whoever is not. A VLAN
/// that is no number of one is refused before anything is planned, and nothing else is.
pub proof fn law_confirmed_means_enforced(
    applied: Map<Place, DesiredView>,
    at: Place,
    auth: PortAuthorizationView,
    db: Config,
)
    ensures
        ({
            let new = desired_of(auth);
            let ops = transition_ops(at.0, remembered(applied, at), new);
            let after = performed_all(db, ops);
            match planned(applied, at, auth) {
                Err(vlan) => new.vlan == Some(vlan) && !valid_vlan(vlan),
                Ok(plan) => {
                    &&& new.vlan is Some ==> valid_vlan(new.vlan->0)
                    &&& plan.at == 0
                    &&& plan.port == at.0
                    &&& plan.posture == Some((at.1, new))
                    &&& exists|k: int| #[trigger]
                        is_turn(plan.steps, k, ops) && ((forall|i: int|
                            0 <= i < k ==> holds_in(#[trigger] plan.steps[i], db)) && (forall|i: int|
                            k < i < plan.steps.len() ==> holds_in(#[trigger] plan.steps[i], after))
                            <==> confirms(db, after, at.0, new))
                },
            }
        }),
{
    let new = desired_of(auth);
    let old = remembered(applied, at);
    let ops = transition_ops(at.0, old, new);
    let after = performed_all(db, ops);
    if let Ok(plan) = planned(applied, at, auth) {
        let (a, b) = (checks_before(new), checks_after(at.0, new));
        let k = a.len() as int;
        assert(plan.steps == a + seq![StepView::Apply { ops }] + b);
        assert forall|i: int| 0 <= i < k implies #[trigger] plan.steps[i] == a[i] by {}
        assert forall|i: int| 0 <= i < b.len() implies plan.steps[k + 1 + i] == #[trigger] b[i] by {}
        assert(plan.steps[k] == (StepView::Apply { ops }));
        assert(is_turn(plan.steps, k, ops));
        let first = forall|i: int| 0 <= i < k ==> holds_in(#[trigger] plan.steps[i], db);
        let second = forall|i: int|
            k < i < plan.steps.len() ==> holds_in(#[trigger] plan.steps[i], after);
        if first && second {
            if new.filter_id is Some {
                assert(holds_in(plan.steps[0], db));
            }
            assert(plan.steps[k + 1] == b[0]);
            assert(holds_in(plan.steps[k + 1], after));
            assert(plan.steps[plan.steps.len() - 1] == b[b.len() - 1]);
            assert(holds_in(plan.steps[plan.steps.len() - 1], after));
        }
        if confirms(db, after, at.0, new) {
            assert forall|i: int| k < i < plan.steps.len() implies holds_in(
                #[trigger] plan.steps[i],
                after,
            ) by {
                assert(plan.steps[i] == b[i - k - 1]);
            }
        }
    }
}

/// The operations are applied in the step at `k`, and every other step is a confirmation.
pub open spec fn is_turn(steps: Seq<StepView>, k: int, ops: Seq<DbOpView>) -> bool {
    &&& 0 <= k < steps.len()
    &&& steps[k] == (StepView::Apply { ops })
    &&& forall|i: int| 0 <= i < steps.len() && i != k ==> #[trigger] steps[i] is Confirm
}

/// The named ACL was there; the port is in its VLAN and not denied, or else denied.
pub open spec fn confirms(before: Config, after: Config, port: Seq<char>, new: DesiredView) -> bool {
    &&& new.filter_id is Some ==> before.dom().contains(table_key(new.filter_id->0))
    &&& new.authorized && new.vlan is Some ==> after.dom().contains(vlan_member(new.vlan->0, port))
    &&& after.dom().contains(deny_all(port)) <==> !new.authorized
}

/// Bringing a port into service is complete only once the EAPOL trap and the drop are
/// both confirmed to be there.
pub proof fn law_bring_up_is_confirmed(port: Seq<char>, db: Config)
    ensures
        is_turn(trap_steps(port), 0, seq![trap_op()] + close_ops(port)),
        (forall|i: int| 0 <= i < trap_steps(port).len() ==> holds_in(#[trigger] trap_steps(port)[i], db))
            <==> db.dom().contains(EAPOL_TRAP_KEY@) && db.dom().contains(deny_all(port)),
{
    assert(holds_in(trap_steps(port)[1], db) == db.dom().contains(EAPOL_TRAP_KEY@));
    assert(holds_in(trap_steps(port)[2], db) == db.dom().contains(deny_all(port)));
}

/// What was applied is remembered: applying the same again finds nothing to do.
pub proof fn law_applying_twice_changes_nothing(
    applied: Map<Place, DesiredView>,
    at: Place,
    auth: PortAuthorizationView,
)
    requires
        planned(applied, at, auth) is Ok,
    ensures
        ({
            let plan = planned(applied, at, auth)->Ok_0;
            let now = concluded(applied, plan.port, plan.posture);
            &&& remembered(now, at) == desired_of(auth)
            &&& planned(now, at, auth) is Ok
            &&& forall|i: int|
                0 <= i < (planned(now, at, auth)->Ok_0).steps.len() ==> match #[trigger] (planned(
                    now,
                    at,
                    auth,
                )->Ok_0).steps[i] {
                    StepView::Apply { ops } => ops.len() == 0,
                    _ => true,
                }
        }),
{
}

/// Nobody's VLAN or ACL is forgotten by what is done for somebody else, nor is anything
/// known of other ports.
pub proof fn law_others_are_remembered(
    applied: Map<Place, DesiredView>,
    at: Place,
    new: DesiredView,
    other: Place,
)
    requires
        other != at,
    ensures
        ({
            let now = concluded(applied, at.0, Some((at.1, new)));
            let up = concluded(applied, at.0, None);
            &&& remembered(now, other).vlan == remembered(applied, other).vlan
            &&& remembered(now, other).filter_id == remembered(applied, other).filter_id
            &&& remembered(up, other).vlan == remembered(applied, other).vlan
            &&& remembered(up, other).filter_id == remembered(applied, other).filter_id
            &&& other.0 != at.0 ==> remembered(now, other) == remembered(applied, other)
                && remembered(up, other) == remembered(applied, other)
            &&& new.authorized ==> remembered(now, other) == remembered(applied, other)
            &&& other.0 == at.0 ==> !remembered(up, other).authorized && (!new.authorized
                ==> !remembered(now, other).authorized)
        }),
{
}

/// The numeral of a number spells that number in digits.
pub proof fn law_numerals_spell_their_numbers(n: nat)
    ensures
        number_of(decimal(n)) == n,
        decimal(n).len() > 0,
        forall|i: int| 0 <= i < decimal(n).len() ==> '0' <= #[trigger] decimal(n)[i] <= '9',
    decreases n,
{
    reveal_with_fuel(number_of, 2);
    if n < 10 {
        assert(decimal(n).drop_last() =~= Seq::<char>::empty());
        assert(decimal(n).last() as int == 48 + n);
    } else {
        law_numerals_spell_their_numbers(n / 10);
        assert(decimal(n).drop_last() =~= decimal(n / 10));
        assert(decimal(n).last() as int == 48 + n % 10);
    }
}

/// The numeral of a number is a VLAN exactly from 1 to 4094, and a text with anything but
/// digits in it never is, nor is an empty one.
pub proof fn law_vlans_are_numbers(n: nat, text: Seq<char>, i: int)
    ensures
        valid_vlan(decimal(n)) <==> 1 <= n <= 4094,
        0 <= i < text.len() && !('0' <= text[i] <= '9') ==> !valid_vlan(text),
        text.len() == 0 ==> !valid_vlan(text),
{
    law_numerals_spell_their_numbers(n);
}

/// Nothing is remembered of a plan before each of its steps is done; from then on its
/// posture is.
pub proof fn law_unfinished_plans_leave_no_trace(
    applied: Map<Place, DesiredView>,
    at: Place,
    auth: PortAuthorizationView,
    done: nat,
)
    requires
        planned(applied, at, auth) is Ok,
    ensures
        ({
            let plan = planned(applied, at, auth)->Ok_0;
            let now = finished(applied, PlanView { at: done, ..plan });
            &&& done < plan.steps.len() ==> now == applied
            &&& done >= plan.steps.len() ==> remembered(now, at) == desired_of(auth)
        }),
{
}

/// The key is that of one of the port's own rules.
pub open spec fn is_rule_of(port: Seq<char>, key: Seq<char>) -> bool {
    key == deny_all(port) || key == allow_eapol(port)
}

/// A port is never open with less than it was granted: its VLAN and its ACL are in place
/// before its rules are touched. Nor is EAPOL ever cut off: the rule that lets it in is
/// there before the drop is, and goes only after it. A VLAN is left before another is
/// joined.
pub proof fn law_operations_are_in_a_safe_order(
    port: Seq<char>,
    old: DesiredView,
    new: DesiredView,
    i: int,
    j: int,
)
    requires
        0 <= i < j < transition_ops(port, old, new).len(),
    ensures
        ({
            let (a, b) = (transition_ops(port, old, new)[i].op, transition_ops(port, old, new)[j].op);
            &&& is_rule_of(port, key_of(a)) ==> is_rule_of(port, key_of(b))
            &&& key_of(a) == deny_all(port) && key_of(b) == allow_eapol(port) ==> a is Del && b is Del
            &&& key_of(a) == allow_eapol(port) && key_of(b) == deny_all(port) ==> a is HSet && b is HSet
            &&& b is Del && !is_rule_of(port, key_of(b)) ==> !(a is HSet)
        }),
{
    let ops = transition_ops(port, old, new);
    let v = vlan_ops(port, old.vlan, new.vlan);
    let f = filter_ops(port, old.filter_id, new.filter_id);
    let g = gate_ops(port, old.authorized, new.authorized);
    lemma_rules(port, port);
    assert(ops =~= v + f + g);
    if j < v.len() {
        assert(ops[i] == v[i] && ops[j] == v[j]);
    } else if j < v.len() + f.len() {
        assert(ops[j] == f[j - v.len()]);
        if i < v.len() {
            assert(ops[i] == v[i]);
        } else {
            assert(ops[i] == f[i - v.len()]);
        }
    } else {
        assert(ops[j] == g[j - v.len() - f.len()]);
        if i < v.len() {
            assert(ops[i] == v[i]);
        } else if i < v.len() + f.len() {
            assert(ops[i] == f[i - v.len()]);
        } else {
            assert(ops[i] == g[i - v.len() - f.len()]);
        }
    }
}

} // verus!
