//! What the planned operations do to a configuration database.

use super::db::{Db, DbOpView, Field, OpView};
use super::enforcer::{concluded, remembered, Place};
use super::list::{
    items, joined, law_add_binds, law_list_round_trip, law_remove_unbinds, plain_item, with_item,
    without_item,
};
use super::schema::{
    allow_eapol, close_ops, closed_posture, config_op, deny_all, filter_ops, gate_ops, number_of, table_key,
    table_name, transition_ops, trap_op, vlan_member, vlan_ops, DesiredView, EAPOL_TRAP_KEY,
};
use vstd::prelude::*;

verus! {

/// One hash entry: its fields and their values.
pub type Entry = Map<Seq<char>, Seq<char>>;

/// A configuration database: its keys and their entries.
pub type Config = Map<Seq<char>, Entry>;

/// An entry with some fields set.
pub open spec fn with_fields(entry: Entry, fields: Seq<Field>) -> Entry
    decreases fields.len(),
{
    if fields.len() == 0 {
        entry
    } else {
        with_fields(entry, fields.drop_last()).insert(fields.last().0, fields.last().1)
    }
}

/// The entry of a key; empty where there is none.
pub open spec fn entry_of(db: Config, key: Seq<char>) -> Entry {
    if db.dom().contains(key) {
        db[key]
    } else {
        Map::empty()
    }
}

/// The items in a list field; none where there is no such field.
pub open spec fn listed(db: Config, key: Seq<char>, field: Seq<char>) -> Seq<Seq<char>> {
    if entry_of(db, key).dom().contains(field) {
        items(entry_of(db, key)[field])
    } else {
        Seq::empty()
    }
}

/// What an operation on CONFIG_DB does to it.
pub open spec fn performed(db: Config, x: DbOpView) -> Config {
    if x.db != Db::Config {
        db
    } else {
        match x.op {
            OpView::HSet { key, fields } => db.insert(key, with_fields(entry_of(db, key), fields)),
            OpView::Del { key } => db.remove(key),
            OpView::ListAdd { key, field, value } => db.insert(
                key,
                entry_of(db, key).insert(field, joined(with_item(listed(db, key, field), value))),
            ),
            OpView::ListRemove { key, field, value } => if entry_of(db, key).dom().contains(field) {
                db.insert(
                    key,
                    entry_of(db, key).insert(
                        field,
                        joined(without_item(listed(db, key, field), value)),
                    ),
                )
            } else {
                db
            },
        }
    }
}

/// What a list of operations does, in order.
pub open spec fn performed_all(db: Config, ops: Seq<DbOpView>) -> Config
    decreases ops.len(),
{
    if ops.len() == 0 {
        db
    } else {
        performed(performed_all(db, ops.drop_last()), ops.last())
    }
}

/// A key has a field with this value.
pub open spec fn says(db: Config, key: Seq<char>, field: Seq<char>, value: Seq<char>) -> bool {
    db.dom().contains(key) && db[key].dom().contains(field) && db[key][field] == value
}

/// The port lets EAPOL in and drops the rest.
pub open spec fn denied(db: Config, port: Seq<char>) -> bool {
    &&& says(db, deny_all(port), "PACKET_ACTION"@, "DROP"@)
    &&& says(db, allow_eapol(port), "ETHER_TYPE"@, "0x888E"@)
    &&& says(db, allow_eapol(port), "PACKET_ACTION"@, "FORWARD"@)
}

/// The number in the `PRIORITY` field of a rule.
pub open spec fn priority(db: Config, key: Seq<char>) -> nat {
    number_of(db[key]["PRIORITY"@])
}

/// The port is denied, and the rule that lets EAPOL in goes before the one that drops the
/// rest, so that a supplicant can still authenticate.
pub open spec fn guarded(db: Config, port: Seq<char>) -> bool {
    &&& denied(db, port)
    &&& db[allow_eapol(port)].dom().contains("PRIORITY"@)
    &&& db[deny_all(port)].dom().contains("PRIORITY"@)
    &&& priority(db, allow_eapol(port)) > priority(db, deny_all(port))
}

/// The table of a port's own rules is there, looks at what comes in, and is bound to the
/// port.
pub open spec fn table_bound(db: Config, port: Seq<char>) -> bool {
    &&& says(db, table_key(table_name(port)), "type"@, "L3"@)
    &&& says(db, table_key(table_name(port)), "stage"@, "ingress"@)
    &&& listed(db, table_key(table_name(port)), "ports"@).contains(port)
}

/// The database says what a posture asks for.
pub open spec fn realizes(db: Config, port: Seq<char>, d: DesiredView) -> bool {
    &&& d.authorized ==> !db.dom().contains(deny_all(port)) && !db.dom().contains(allow_eapol(port))
    &&& !d.authorized ==> denied(db, port)
    &&& d.vlan matches Some(v) ==> says(db, vlan_member(v, port), "tagging_mode"@, "untagged"@)
    &&& d.filter_id matches Some(f) ==> listed(db, table_key(f), "ports"@).contains(port)
}

proof fn lemma_append(db: Config, a: Seq<DbOpView>, b: Seq<DbOpView>)
    ensures
        performed_all(db, a + b) == performed_all(performed_all(db, a), b),
    decreases b.len(),
{
    if b.len() == 0 {
        assert(a + b =~= a);
    } else {
        assert((a + b).last() == b.last());
        assert((a + b).drop_last() =~= a + b.drop_last());
        lemma_append(db, a, b.drop_last());
    }
}

proof fn lemma_short(db: Config, ops: Seq<DbOpView>)
    ensures
        ops.len() == 0 ==> performed_all(db, ops) == db,
        ops.len() == 1 ==> performed_all(db, ops) == performed(db, ops[0]),
        ops.len() == 2 ==> performed_all(db, ops) == performed(performed(db, ops[0]), ops[1]),
        ops.len() == 3 ==> performed_all(db, ops) == performed(
            performed(performed(db, ops[0]), ops[1]),
            ops[2],
        ),
{
    reveal_with_fuel(performed_all, 4);
}

/// The keys of different tables, rules and members do not collide.
proof fn lemma_keys(port: Seq<char>, v: Seq<char>, w: Seq<char>, f: Seq<char>, g: Seq<char>)
    ensures
        deny_all(port) != allow_eapol(port),
        vlan_member(v, port) != deny_all(port),
        vlan_member(v, port) != allow_eapol(port),
        forall|t: Seq<char>|
            #![trigger table_key(t)]
            table_key(t) != vlan_member(v, port) && table_key(t) != deny_all(port) && table_key(t)
                != allow_eapol(port),
        vlan_member(v, port) == vlan_member(w, port) ==> v == w,
        table_key(f) == table_key(g) ==> f == g,
{
    reveal_strlit("VLAN_MEMBER|Vlan");
    reveal_strlit("|");
    reveal_strlit("ACL_TABLE|");
    reveal_strlit("ACL_RULE|");
    reveal_strlit("DENY_ALL");
    reveal_strlit("ALLOW_EAPOL");
    assert(deny_all(port).len() != allow_eapol(port).len());
    assert(vlan_member(v, port)[0] == 'V');
    assert(deny_all(port)[0] == 'A' && deny_all(port)[4] == 'R');
    assert(allow_eapol(port)[0] == 'A' && allow_eapol(port)[4] == 'R');
    assert forall|t: Seq<char>|
        #![trigger table_key(t)]
        table_key(t) != vlan_member(v, port) && table_key(t) != deny_all(port) && table_key(t)
            != allow_eapol(port) by {
        assert(table_key(t)[0] == 'A' && table_key(t)[4] == 'T');
    }
    if vlan_member(v, port) == vlan_member(w, port) {
        let (a, b) = (vlan_member(v, port), vlan_member(w, port));
        assert(a.len() == 17 + v.len() + port.len() && b.len() == 17 + w.len() + port.len());
        assert(a.subrange(16, 16 + v.len() as int) =~= v);
        assert(b.subrange(16, 16 + w.len() as int) =~= w);
    }
    if table_key(f) == table_key(g) {
        assert(table_key(f).skip(10) =~= f);
        assert(table_key(g).skip(10) =~= g);
    }
}

/// Up to three fields, set one after the other.
pub proof fn lemma_fields(entry: Entry, fields: Seq<Field>)
    ensures
        fields.len() == 1 ==> with_fields(entry, fields) == entry.insert(fields[0].0, fields[0].1),
        fields.len() == 2 ==> with_fields(entry, fields) == entry.insert(
            fields[0].0,
            fields[0].1,
        ).insert(fields[1].0, fields[1].1),
        fields.len() == 3 ==> with_fields(entry, fields) == entry.insert(
            fields[0].0,
            fields[0].1,
        ).insert(fields[1].0, fields[1].1).insert(fields[2].0, fields[2].1),
{
    reveal_with_fuel(with_fields, 4);
}

/// Moving to another VLAN: the port is in the new one and not in the old one, and
/// nothing else has changed.
proof fn lemma_vlan_ops(db: Config, port: Seq<char>, old: Option<Seq<char>>, new: Option<Seq<char>>)
    ensures
        ({
            let after = performed_all(db, vlan_ops(port, old, new));
            &&& old != new && new is Some ==> says(
                after,
                vlan_member(new->0, port),
                "tagging_mode"@,
                "untagged"@,
            )
            &&& old != new && old is Some ==> !after.dom().contains(vlan_member(old->0, port))
            &&& old == new ==> after == db
            &&& forall|key: Seq<char>|
                #![trigger after.dom().contains(key)]
                #![trigger after[key]]
                (old is Some ==> key != vlan_member(old->0, port)) && (new is Some ==> key
                    != vlan_member(new->0, port)) ==> after.dom().contains(key)
                    == db.dom().contains(key) && after[key] == db[key]
        }),
{
    let ops = vlan_ops(port, old, new);
    lemma_short(db, ops);
    if let (Some(v), Some(w)) = (old, new) {
        lemma_keys(port, v, w, v, w);
    }
    if let Some(w) = new {
        let fields = seq![("tagging_mode"@, "untagged"@)];
        lemma_fields(entry_of(db, vlan_member(w, port)), fields);
        if let Some(v) = old {
            lemma_fields(entry_of(db.remove(vlan_member(v, port)), vlan_member(w, port)), fields);
        }
    }
}

/// Moving to another named ACL: the port is in the new one's list and not in the
/// old one's, and no key but theirs has changed.
proof fn lemma_filter_ops(
    db: Config,
    port: Seq<char>,
    old: Option<Seq<char>>,
    new: Option<Seq<char>>,
)
    requires
        plain_item(port),
    ensures
        ({
            let after = performed_all(db, filter_ops(port, old, new));
            &&& old != new && new is Some ==> listed(after, table_key(new->0), "ports"@).contains(port)
            &&& old != new && old is Some ==> !listed(after, table_key(old->0), "ports"@).contains(port)
            &&& old == new ==> after == db
            &&& forall|key: Seq<char>|
                #![trigger after.dom().contains(key)]
                #![trigger after[key]]
                (old is Some ==> key != table_key(old->0)) && (new is Some ==> key != table_key(
                    new->0,
                )) ==> after.dom().contains(key) == db.dom().contains(key) && after[key] == db[key]
        }),
{
    let ops = filter_ops(port, old, new);
    lemma_short(db, ops);
    if let (Some(f), Some(g)) = (old, new) {
        lemma_keys(port, f, g, f, g);
    }
    if old != new {
        let mid = match old {
            Some(f) => performed(
                db,
                config_op(OpView::ListRemove { key: table_key(f), field: "ports"@, value: port }),
            ),
            None => db,
        };
        if let Some(f) = old {
            if entry_of(db, table_key(f)).dom().contains("ports"@) {
                law_remove_unbinds(entry_of(db, table_key(f))["ports"@], port);
            }
            assert(!listed(mid, table_key(f), "ports"@).contains(port));
        }
        if let Some(g) = new {
            let key = table_key(g);
            if entry_of(mid, key).dom().contains("ports"@) {
                law_add_binds(entry_of(mid, key)["ports"@], port);
            } else {
                law_add_binds(Seq::empty(), port);
                assert(items(Seq::<char>::empty()) =~= Seq::<Seq<char>>::empty());
            }
            let after = performed(
                mid,
                config_op(OpView::ListAdd { key, field: "ports"@, value: port }),
            );
            assert(listed(after, key, "ports"@).contains(port));
        }
    }
}

/// Closing a port leaves it denied whatever was there before, and touches nothing
/// but its own table and rules.
proof fn lemma_close_ops(db: Config, port: Seq<char>)
    requires
        plain_item(port),
    ensures
        ({
            let after = performed_all(db, close_ops(port));
            &&& denied(after, port)
            &&& guarded(after, port)
            &&& table_bound(after, port)
            &&& after[deny_all(port)].dom().contains("ETHER_TYPE"@) == entry_of(
                db,
                deny_all(port),
            ).dom().contains("ETHER_TYPE"@)
            &&& forall|key: Seq<char>|
                #![trigger after.dom().contains(key)]
                #![trigger after[key]]
                key != deny_all(port) && key != allow_eapol(port) && key != table_key(table_name(port))
                    ==> after.dom().contains(key) == db.dom().contains(key) && after[key] == db[key]
            &&& listed(after, table_key(table_name(port)), "ports"@).contains(port)
        }),
{
    let name = table_name(port);
    lemma_short(db, close_ops(port));
    lemma_keys(port, port, port, name, name);
    reveal_strlit("type");
    reveal_strlit("stage");
    reveal_strlit("ports");
    reveal_strlit("PRIORITY");
    reveal_strlit("ETHER_TYPE");
    reveal_strlit("PACKET_ACTION");
    assert("type"@.len() == 4 && "stage"@.len() == 5 && "ports"@.len() == 5);
    assert("stage"@[0] == 's' && "ports"@[0] == 'p');
    assert("PRIORITY"@.len() == 8 && "ETHER_TYPE"@.len() == 10 && "PACKET_ACTION"@.len() == 13);
    let table_fields = seq![("type"@, "L3"@), ("stage"@, "ingress"@), ("ports"@, port)];
    let allow_fields = seq![
        ("PRIORITY"@, "100"@),
        ("ETHER_TYPE"@, "0x888E"@),
        ("PACKET_ACTION"@, "FORWARD"@),
    ];
    let deny_fields = seq![("PRIORITY"@, "1"@), ("PACKET_ACTION"@, "DROP"@)];
    let one = performed(db, close_ops(port)[0]);
    let two = performed(one, close_ops(port)[1]);
    let three = performed(two, close_ops(port)[2]);
    lemma_fields(entry_of(db, table_key(name)), table_fields);
    lemma_fields(entry_of(one, allow_eapol(port)), allow_fields);
    lemma_fields(entry_of(two, deny_all(port)), deny_fields);
    assert(says(one, table_key(name), "ports"@, port));
    assert(says(three, table_key(name), "ports"@, port));
    law_list_round_trip(seq![port]);
    assert(joined(seq![port]) =~= port);
    assert(items(port) == seq![port]);
    assert(seq![port][0] == port);
    lemma_priorities();
}

/// The two priorities, as numbers.
proof fn lemma_priorities()
    ensures
        number_of("100"@) == 100,
        number_of("1"@) == 1,
{
    reveal_strlit("100");
    reveal_strlit("1");
    reveal_with_fuel(number_of, 4);
    assert("100"@.drop_last() =~= seq!['1', '0']);
    assert(seq!['1', '0'].drop_last() =~= seq!['1']);
    assert(seq!['1'].drop_last() =~= Seq::<char>::empty());
    assert("1"@ =~= seq!['1']);
}

/// Opening or closing the port does just that, and touches nothing but the port's
/// own table and rules.
proof fn lemma_gate_ops(db: Config, port: Seq<char>, old: bool, new: bool)
    requires
        plain_item(port),
        old ==> !db.dom().contains(deny_all(port)) && !db.dom().contains(allow_eapol(port)),
        !old ==> denied(db, port),
    ensures
        ({
            let after = performed_all(db, gate_ops(port, old, new));
            &&& new ==> !after.dom().contains(deny_all(port)) && !after.dom().contains(allow_eapol(port))
            &&& !new ==> denied(after, port)
            &&& !new && (old || guarded(db, port)) ==> guarded(after, port)
            &&& forall|key: Seq<char>|
                #![trigger after.dom().contains(key)]
                #![trigger after[key]]
                key != deny_all(port) && key != allow_eapol(port) && key != table_key(table_name(port))
                    ==> after.dom().contains(key) == db.dom().contains(key) && after[key] == db[key]
            &&& listed(db, table_key(table_name(port)), "ports"@).contains(port) ==> listed(
                after,
                table_key(table_name(port)),
                "ports"@,
            ).contains(port)
        }),
{
    let name = table_name(port);
    lemma_short(db, gate_ops(port, old, new));
    lemma_keys(port, port, port, name, name);
    lemma_close_ops(db, port);
}

/// Bringing a port into service, whatever the database held before, leaves EAPOL
/// trapped and the port denied: it is never open before it authenticates.
pub proof fn law_bring_up_closes_the_port(db: Config, port: Seq<char>)
    requires
        plain_item(port),
    ensures
        ({
            let after = performed_all(db, seq![trap_op()] + close_ops(port));
            &&& denied(after, port)
            &&& guarded(after, port)
            &&& table_bound(after, port)
            &&& realizes(after, port, closed_posture())
            &&& says(after, EAPOL_TRAP_KEY@, "trap_ids"@, "eapol"@)
            &&& says(after, EAPOL_TRAP_KEY@, "trap_group"@, "queue4_group1"@)
            &&& after[deny_all(port)].dom().contains("ETHER_TYPE"@) == entry_of(
                db,
                deny_all(port),
            ).dom().contains("ETHER_TYPE"@)
        }),
{
    let first = seq![trap_op()];
    lemma_append(db, first, close_ops(port));
    lemma_short(db, first);
    let mid = performed_all(db, first);
    lemma_close_ops(mid, port);
    let fields = seq![("trap_ids"@, "eapol"@), ("trap_group"@, "queue4_group1"@)];
    lemma_fields(entry_of(db, EAPOL_TRAP_KEY@), fields);
    reveal_strlit("trap_ids");
    reveal_strlit("trap_group");
    assert("trap_ids"@.len() == 8 && "trap_group"@.len() == 10);
    reveal_strlit("COPP_TRAP|eapol");
    reveal_strlit("ACL_TABLE|");
    reveal_strlit("ACL_RULE|");
    let key = EAPOL_TRAP_KEY@;
    assert(key[0] == 'C');
    assert(deny_all(port)[0] == 'A' && allow_eapol(port)[0] == 'A');
    assert(table_key(table_name(port))[0] == 'A');
    let after = performed_all(mid, close_ops(port));
    assert(after.dom().contains(key) == mid.dom().contains(key) && after[key] == mid[key]);
}

/// The planned operations take a database that realizes the old posture to one that
/// realizes the new one, leaving the old VLAN, and the old named ACL unless that is
/// the port's own deny table.
pub proof fn law_transition_reaches_the_posture(
    db: Config,
    port: Seq<char>,
    old: DesiredView,
    new: DesiredView,
)
    requires
        plain_item(port),
        realizes(db, port, old),
    ensures
        ({
            let after = performed_all(db, transition_ops(port, old, new));
            &&& realizes(after, port, new)
            &&& !new.authorized && (old.authorized || guarded(db, port)) ==> guarded(after, port)
            &&& old.vlan is Some && old.vlan != new.vlan ==> !after.dom().contains(
                vlan_member(old.vlan->0, port),
            )
            &&& old.filter_id is Some && old.filter_id != new.filter_id && old.filter_id != Some(
                table_name(port),
            ) ==> !listed(after, table_key(old.filter_id->0), "ports"@).contains(port)
        }),
{
    let a = vlan_ops(port, old.vlan, new.vlan);
    let b = filter_ops(port, old.filter_id, new.filter_id);
    let c = gate_ops(port, old.authorized, new.authorized);
    lemma_append(db, a + b, c);
    lemma_append(db, a, b);
    let one = performed_all(db, a);
    let two = performed_all(one, b);
    let three = performed_all(two, c);
    lemma_vlan_ops(db, port, old.vlan, new.vlan);
    lemma_filter_ops(one, port, old.filter_id, new.filter_id);
    let ov = if old.vlan is Some { old.vlan->0 } else { port };
    let nv = if new.vlan is Some { new.vlan->0 } else { port };
    let of = if old.filter_id is Some { old.filter_id->0 } else { port };
    let nf = if new.filter_id is Some { new.filter_id->0 } else { port };
    lemma_keys(port, ov, nv, of, nf);
    lemma_keys(port, nv, ov, nf, of);
    lemma_keys(port, nv, ov, table_name(port), nf);
    lemma_keys(port, ov, nv, table_name(port), of);
    assert(two.dom().contains(deny_all(port)) == db.dom().contains(deny_all(port)));
    assert(two.dom().contains(allow_eapol(port)) == db.dom().contains(allow_eapol(port)));
    assert(two[deny_all(port)] == db[deny_all(port)]);
    assert(two[allow_eapol(port)] == db[allow_eapol(port)]);
    lemma_gate_ops(two, port, old.authorized, new.authorized);
    if let Some(v) = new.vlan {
        let key = vlan_member(v, port);
        assert(one.dom().contains(key));
        assert(two.dom().contains(key) && two[key] == one[key]);
        assert(three.dom().contains(key) && three[key] == two[key]);
    }
    if old.vlan is Some && old.vlan != new.vlan {
        let key = vlan_member(ov, port);
        assert(!two.dom().contains(key));
        assert(!three.dom().contains(key));
    }
    if let Some(f) = new.filter_id {
        let key = table_key(f);
        assert(one.dom().contains(key) == db.dom().contains(key) && one[key] == db[key]);
        assert(listed(two, key, "ports"@).contains(port));
        if f != table_name(port) {
            assert(three.dom().contains(key) == two.dom().contains(key) && three[key] == two[key]);
        }
    }
    if old.filter_id is Some && old.filter_id != new.filter_id && old.filter_id != Some(
        table_name(port),
    ) {
        let key = table_key(of);
        assert(three.dom().contains(key) == two.dom().contains(key) && three[key] == two[key]);
    }
}

/// The key that an operation is on.
pub open spec fn key_of(op: OpView) -> Seq<char> {
    match op {
        OpView::HSet { key, .. } => key,
        OpView::Del { key } => key,
        OpView::ListAdd { key, .. } => key,
        OpView::ListRemove { key, .. } => key,
    }
}

/// A key that no operation is on is left as it was.
pub proof fn lemma_untouched(db: Config, ops: Seq<DbOpView>, key: Seq<char>)
    requires
        forall|i: int| 0 <= i < ops.len() ==> key_of((#[trigger] ops[i]).op) != key,
    ensures
        performed_all(db, ops).dom().contains(key) == db.dom().contains(key),
        performed_all(db, ops)[key] == db[key],
    decreases ops.len(),
{
    if ops.len() > 0 {
        let front = ops.drop_last();
        assert forall|i: int| 0 <= i < front.len() implies key_of((#[trigger] front[i]).op) != key by {
            assert(front[i] == ops[i]);
        }
        lemma_untouched(db, front, key);
        assert(key_of(ops[ops.len() - 1].op) != key);
    }
}

/// The rules of a port are told apart from those of other ports and from all other
/// keys.
pub proof fn lemma_rules(p: Seq<char>, q: Seq<char>)
    ensures
        deny_all(p) != allow_eapol(q),
        p != q ==> deny_all(p) != deny_all(q) && allow_eapol(p) != allow_eapol(q),
        forall|v: Seq<char>|
            #![trigger vlan_member(v, q)]
            vlan_member(v, q) != deny_all(p) && vlan_member(v, q) != allow_eapol(p),
        forall|t: Seq<char>|
            #![trigger table_key(t)]
            table_key(t) != deny_all(p) && table_key(t) != allow_eapol(p),
        EAPOL_TRAP_KEY@ != deny_all(p) && EAPOL_TRAP_KEY@ != allow_eapol(p),
{
    reveal_strlit("VLAN_MEMBER|Vlan");
    reveal_strlit("|");
    reveal_strlit("ACL_TABLE|");
    reveal_strlit("ACL_RULE|");
    reveal_strlit("DOT1X_");
    reveal_strlit("DENY_ALL");
    reveal_strlit("ALLOW_EAPOL");
    reveal_strlit("COPP_TRAP|eapol");
    let (dp, dq, ap, aq) = (deny_all(p), deny_all(q), allow_eapol(p), allow_eapol(q));
    assert(dp.len() == 24 + p.len() && dq.len() == 24 + q.len());
    assert(ap.len() == 27 + p.len() && aq.len() == 27 + q.len());
    assert(dp[dp.len() - 2] == 'L');
    assert(aq[aq.len() - 2] == 'O');
    assert(dp.subrange(15, 15 + p.len() as int) =~= p && dq.subrange(15, 15 + q.len() as int) =~= q);
    assert(ap.subrange(15, 15 + p.len() as int) =~= p && aq.subrange(15, 15 + q.len() as int) =~= q);
    assert(dp[0] == 'A' && dp[4] == 'R' && ap[0] == 'A' && ap[4] == 'R');
    assert(EAPOL_TRAP_KEY@[0] == 'C');
    assert forall|v: Seq<char>|
        #![trigger vlan_member(v, q)]
        vlan_member(v, q) != dp && vlan_member(v, q) != ap by {
        assert(vlan_member(v, q)[0] == 'V');
    }
    assert forall|t: Seq<char>|
        #![trigger table_key(t)]
        table_key(t) != dp && table_key(t) != ap by {
        assert(table_key(t)[4] == 'T');
    }
}

/// What the operations of a transition do to the rules of its port.
proof fn lemma_own_rules(db: Config, port: Seq<char>, old: DesiredView, new: DesiredView)
    ensures
        ({
            let after = performed_all(db, transition_ops(port, old, new));
            &&& old.authorized == new.authorized ==> after.dom().contains(deny_all(port))
                == db.dom().contains(deny_all(port)) && after.dom().contains(allow_eapol(port))
                == db.dom().contains(allow_eapol(port))
            &&& !old.authorized && new.authorized ==> !after.dom().contains(deny_all(port))
                && !after.dom().contains(allow_eapol(port))
            &&& old.authorized && !new.authorized ==> after.dom().contains(deny_all(port))
                && after.dom().contains(allow_eapol(port))
        }),
{
    let first = vlan_ops(port, old.vlan, new.vlan) + filter_ops(port, old.filter_id, new.filter_id);
    let last = gate_ops(port, old.authorized, new.authorized);
    lemma_append(db, first, last);
    lemma_short(performed_all(db, first), last);
    lemma_rules(port, port);
    lemma_untouched(db, first, deny_all(port));
    lemma_untouched(db, first, allow_eapol(port));
}

/// A transition leaves the rules of other ports as they were.
proof fn lemma_other_rules(
    db: Config,
    port: Seq<char>,
    old: DesiredView,
    new: DesiredView,
    other: Seq<char>,
)
    requires
        other != port,
    ensures
        ({
            let after = performed_all(db, transition_ops(port, old, new));
            &&& after.dom().contains(deny_all(other)) == db.dom().contains(deny_all(other))
            &&& after.dom().contains(allow_eapol(other)) == db.dom().contains(allow_eapol(other))
        }),
{
    lemma_rules(other, port);
    lemma_rules(port, other);
    lemma_untouched(db, transition_ops(port, old, new), deny_all(other));
    lemma_untouched(db, transition_ops(port, old, new), allow_eapol(other));
}

/// Where a target is remembered as open, the database does not deny its port.
pub open spec fn in_step(applied: Map<Place, DesiredView>, db: Config) -> bool {
    forall|at: Place| #[trigger]
        applied.dom().contains(at) && applied[at].authorized ==> !db.dom().contains(deny_all(at.0))
            && !db.dom().contains(allow_eapol(at.0))
}

/// The memory stays in step with the database: once the operations of a plan are
/// performed and the plan is concluded, whoever is remembered as open is on a port that
/// is not denied, on this port and on every other.
pub proof fn law_memory_stays_in_step(
    applied: Map<Place, DesiredView>,
    db: Config,
    at: Place,
    new: DesiredView,
)
    requires
        in_step(applied, db),
    ensures
        in_step(
            concluded(applied, at.0, Some((at.1, new))),
            performed_all(db, transition_ops(at.0, remembered(applied, at), new)),
        ),
{
    let after = performed_all(db, transition_ops(at.0, remembered(applied, at), new));
    let now = concluded(applied, at.0, Some((at.1, new)));
    lemma_own_rules(db, at.0, remembered(applied, at), new);
    assert forall|x: Place| #[trigger]
        now.dom().contains(x) && now[x].authorized implies !after.dom().contains(
        deny_all(x.0),
    ) && !after.dom().contains(allow_eapol(x.0)) by {
        if x.0 != at.0 {
            assert(applied.dom().contains(x) && applied[x].authorized);
            lemma_other_rules(db, at.0, remembered(applied, at), new, x.0);
        }
    }
}

/// Bringing a port into service keeps the memory in step, also where the port was in
/// service before: no target on it is remembered as open, and no other port changes.
pub proof fn law_bring_up_stays_in_step(
    applied: Map<Place, DesiredView>,
    db: Config,
    port: Seq<char>,
)
    requires
        in_step(applied, db),
    ensures
        in_step(
            concluded(applied, port, None),
            performed_all(db, seq![trap_op()] + close_ops(port)),
        ),
{
    let ops = seq![trap_op()] + close_ops(port);
    let after = performed_all(db, ops);
    let now = concluded(applied, port, None);
    assert forall|x: Place| #[trigger]
        now.dom().contains(x) && now[x].authorized implies !after.dom().contains(
        deny_all(x.0),
    ) && !after.dom().contains(allow_eapol(x.0)) by {
        assert(applied.dom().contains(x) && applied[x].authorized);
        lemma_rules(x.0, port);
        lemma_rules(port, x.0);
        lemma_untouched(db, ops, deny_all(x.0));
        lemma_untouched(db, ops, allow_eapol(x.0));
    }
}

/// Letting a target in leaves its port open, whatever was done before for other targets
/// on it or in bringing it up anew; and deauthorizing a target that is remembered as
/// open leaves the port denied for all. So the confirmation that a plan ends with
/// succeeds in both.
pub proof fn law_open_and_close_are_confirmed(
    applied: Map<Place, DesiredView>,
    db: Config,
    at: Place,
    new: DesiredView,
)
    requires
        in_step(applied, db),
    ensures
        ({
            let old = remembered(applied, at);
            let after = performed_all(db, transition_ops(at.0, old, new));
            &&& new.authorized ==> !after.dom().contains(deny_all(at.0)) && !after.dom().contains(
                allow_eapol(at.0),
            )
            &&& old.authorized && !new.authorized ==> after.dom().contains(deny_all(at.0))
                && after.dom().contains(allow_eapol(at.0))
        }),
{
    lemma_own_rules(db, at.0, remembered(applied, at), new);
}

} // verus!
