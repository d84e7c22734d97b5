//! The CONFIG_DB mapping: desired authorization to declarative [`DbOp`]s.
//!
//! - VLAN assignment: `VLAN_MEMBER|Vlan<id>|<port>` untagged. A port has one
//!   untagged VLAN.
//! - Named ACL: `Filter-Id` names a pre-provisioned `ACL_TABLE`; binding adds the
//!   port to that table's `ports` list.
//! - Unauthorized: a per-port `ACL_TABLE` whose rules let EAPOL in and drop the
//!   rest of what arrives.
//! - EAPOL trap: a global `COPP_TRAP` entry punts EAPOL to the CPU.
//!
//! Forwarding is opened and closed for a port as a whole, not for each station on it:
//! a station's authorization opens the port for all that are on it, and its
//! deauthorization closes the port for all.

use super::db::{field_views, op_views, Db, DbOp, DbOpView, Op, OpView};
use crate::bytes::option_view;
use crate::enforce::Target;
use crate::pacp::ethernet::{format_mac, mac_text};
use crate::pae::effect::{PortAuthorization, PortAuthorizationView};
use crate::text::{copy_optional_text, optional_text_eq};
use vstd::prelude::*;

verus! {

/// CoPP trap key for EAPOL.
pub const EAPOL_TRAP_KEY: &'static str = "COPP_TRAP|eapol";

/// The desired dataplane posture for a `{port, target}`, distilled from a
/// [`PortAuthorization`]. `Default` is the closed (unauthorized) state.
#[derive(Debug, PartialEq, Eq)]
pub struct Desired {
    /// Whether the controlled port is open (forwarding) for this target.
    pub authorized: bool,
    /// Assigned VLAN id, if any.
    pub vlan: Option<String>,
    /// Bound `Filter-Id` ACL table name, if any.
    pub filter_id: Option<String>,
}

/// What a desired posture says.
#[verifier::ext_equal]
pub struct DesiredView {
    pub authorized: bool,
    pub vlan: Option<Seq<char>>,
    pub filter_id: Option<Seq<char>>,
}

impl View for Desired {
    type V = DesiredView;

    open spec fn view(&self) -> DesiredView {
        DesiredView {
            authorized: self.authorized,
            vlan: option_view(self.vlan),
            filter_id: option_view(self.filter_id),
        }
    }
}

impl Clone for Desired {
    fn clone(&self) -> (r: Self)
        ensures
            r@ == self@,
    {
        Desired {
            authorized: self.authorized,
            vlan: copy_optional_text(&self.vlan),
            filter_id: copy_optional_text(&self.filter_id),
        }
    }
}

/// The closed posture.
pub open spec fn closed_posture() -> DesiredView {
    DesiredView { authorized: false, vlan: None, filter_id: None }
}

/// The posture that an authorization asks for. A fallback VLAN forwards on that
/// VLAN without a server-supplied ACL.
pub open spec fn desired_of(auth: PortAuthorizationView) -> DesiredView {
    match auth {
        PortAuthorizationView::Authorized(a) => DesiredView {
            authorized: true,
            vlan: a.vlan,
            filter_id: a.filter_id,
        },
        PortAuthorizationView::Fallback { vlan, .. } => DesiredView {
            authorized: true,
            vlan,
            filter_id: None,
        },
        PortAuthorizationView::Unauthorized => closed_posture(),
    }
}

impl Default for Desired {
    fn default() -> (r: Self)
        ensures
            r@ == closed_posture(),
    {
        Desired { authorized: false, vlan: None, filter_id: None }
    }
}

impl Desired {
    /// Distill a [`PortAuthorization`] into the desired posture.
    pub fn from_authorization(auth: &PortAuthorization) -> (r: Self)
        ensures
            r@ == desired_of(auth@),
    {
        match auth {
            PortAuthorization::Authorized(a) => Desired {
                authorized: true,
                vlan: copy_optional_text(&a.vlan),
                filter_id: copy_optional_text(&a.filter_id),
            },
            PortAuthorization::Fallback { vlan, .. } => Desired {
                authorized: true,
                vlan: copy_optional_text(vlan),
                filter_id: None,
            },
            PortAuthorization::Unauthorized => Desired::default(),
        }
    }
}

/// The text of `VLAN_MEMBER|Vlan<id>|<port>`.
pub open spec fn vlan_member(vlan: Seq<char>, port: Seq<char>) -> Seq<char> {
    "VLAN_MEMBER|Vlan"@ + vlan + "|"@ + port
}

/// The text of `DOT1X_<port>`.
pub open spec fn table_name(port: Seq<char>) -> Seq<char> {
    "DOT1X_"@ + port
}

/// The text of `ACL_TABLE|<table>`.
pub open spec fn table_key(table: Seq<char>) -> Seq<char> {
    "ACL_TABLE|"@ + table
}

/// The text of `ACL_RULE|DOT1X_<port>|<rule>`.
pub open spec fn rule_key(port: Seq<char>, rule: Seq<char>) -> Seq<char> {
    "ACL_RULE|"@ + table_name(port) + "|"@ + rule
}

/// The rule that drops everything.
pub open spec fn deny_all(port: Seq<char>) -> Seq<char> {
    rule_key(port, "DENY_ALL"@)
}

/// The rule that lets EAPOL in.
pub open spec fn allow_eapol(port: Seq<char>) -> Seq<char> {
    rule_key(port, "ALLOW_EAPOL"@)
}

/// `VLAN_MEMBER|Vlan<id>|<port>` key.
pub fn vlan_member_key(vlan: &str, port: &str) -> (r: String)
    ensures
        r@ == vlan_member(vlan@, port@),
{
    let mut key = "VLAN_MEMBER|Vlan".to_owned();
    key.append(vlan);
    key.append("|");
    key.append(port);
    key
}

/// The per-port ACL table name (`DOT1X_<port>`).
pub fn deny_table(port: &str) -> (r: String)
    ensures
        r@ == table_name(port@),
{
    let mut name = "DOT1X_".to_owned();
    name.append(port);
    name
}

/// `ACL_TABLE|<table>` key.
pub fn acl_table_key(table: &str) -> (r: String)
    ensures
        r@ == table_key(table@),
{
    let mut key = "ACL_TABLE|".to_owned();
    key.append(table);
    key
}

fn acl_rule_key(port: &str, rule: &str) -> (r: String)
    ensures
        r@ == rule_key(port@, rule@),
{
    let mut key = "ACL_RULE|".to_owned();
    let table = deny_table(port);
    key.append(table.as_str());
    key.append("|");
    key.append(rule);
    key
}

/// The deny rule key of a target: `DENY_ALL` for the whole port, `DENY_<mac>` for
/// one station on it. A station's key is a name only: no plan installs that rule or
/// asks for it, since a port is closed by `DENY_ALL` for every station on it.
pub fn deny_rule_key(port: &str, target: Target) -> (r: String)
    ensures
        r@ == (match target {
            Target::Port => deny_all(port@),
            Target::Mac(mac) => rule_key(port@, "DENY_"@ + mac_text(mac)),
        }),
{
    match target {
        Target::Port => acl_rule_key(port, "DENY_ALL"),
        Target::Mac(mac) => {
            let mut rule = "DENY_".to_owned();
            let station = format_mac(&mac);
            rule.append(station.as_str());
            acl_rule_key(port, rule.as_str())
        },
    }
}

/// An operation on CONFIG_DB.
pub open spec fn config_op(op: OpView) -> DbOpView {
    DbOpView { db: Db::Config, op }
}

/// The operation that installs the EAPOL trap.
pub open spec fn trap_op() -> DbOpView {
    config_op(
        OpView::HSet {
            key: EAPOL_TRAP_KEY@,
            fields: seq![("trap_ids"@, "eapol"@), ("trap_group"@, "queue4_group1"@)],
        },
    )
}

/// The operations that close a port: its table, the EAPOL permit at high priority
/// and the catch-all drop at the lowest.
pub open spec fn close_ops(port: Seq<char>) -> Seq<DbOpView> {
    seq![
        config_op(
            OpView::HSet {
                key: table_key(table_name(port)),
                fields: seq![("type"@, "L3"@), ("stage"@, "ingress"@), ("ports"@, port)],
            },
        ),
        config_op(
            OpView::HSet {
                key: allow_eapol(port),
                fields: seq![
                    ("PRIORITY"@, "100"@),
                    ("ETHER_TYPE"@, "0x888E"@),
                    ("PACKET_ACTION"@, "FORWARD"@),
                ],
            },
        ),
        config_op(
            OpView::HSet {
                key: deny_all(port),
                fields: seq![("PRIORITY"@, "1"@), ("PACKET_ACTION"@, "DROP"@)],
            },
        ),
    ]
}

/// The operations that open a port: both rules go.
pub open spec fn open_ops(port: Seq<char>) -> Seq<DbOpView> {
    seq![
        config_op(OpView::Del { key: deny_all(port) }),
        config_op(OpView::Del { key: allow_eapol(port) }),
    ]
}

/// The operations that move a port from one VLAN to another.
pub open spec fn vlan_ops(port: Seq<char>, old: Option<Seq<char>>, new: Option<Seq<char>>) -> Seq<
    DbOpView,
> {
    if old == new {
        Seq::empty()
    } else {
        (match old {
            Some(v) => seq![config_op(OpView::Del { key: vlan_member(v, port) })],
            None => Seq::empty(),
        }) + match new {
            Some(v) => seq![
                config_op(
                    OpView::HSet {
                        key: vlan_member(v, port),
                        fields: seq![("tagging_mode"@, "untagged"@)],
                    },
                ),
            ],
            None => Seq::empty(),
        }
    }
}

/// The operations that move a port from one named ACL to another.
pub open spec fn filter_ops(port: Seq<char>, old: Option<Seq<char>>, new: Option<Seq<char>>) -> Seq<
    DbOpView,
> {
    if old == new {
        Seq::empty()
    } else {
        (match old {
            Some(f) => seq![
                config_op(OpView::ListRemove { key: table_key(f), field: "ports"@, value: port }),
            ],
            None => Seq::empty(),
        }) + match new {
            Some(f) => seq![
                config_op(OpView::ListAdd { key: table_key(f), field: "ports"@, value: port }),
            ],
            None => Seq::empty(),
        }
    }
}

/// The operations that open or close a port, if it has to change.
pub open spec fn gate_ops(port: Seq<char>, old: bool, new: bool) -> Seq<DbOpView> {
    if old == new {
        Seq::empty()
    } else if new {
        open_ops(port)
    } else {
        close_ops(port)
    }
}

/// The operations that move a port from one posture to another: VLAN, named ACL
/// and gate, each only where it differs.
pub open spec fn transition_ops(port: Seq<char>, old: DesiredView, new: DesiredView) -> Seq<DbOpView> {
    vlan_ops(port, old.vlan, new.vlan) + filter_ops(port, old.filter_id, new.filter_id) + gate_ops(
        port,
        old.authorized,
        new.authorized,
    )
}

fn hset(key: String, fields: Vec<(String, String)>) -> (r: DbOp)
    ensures
        r@ == config_op(OpView::HSet { key: key@, fields: field_views(fields@) }),
{
    DbOp { db: Db::Config, op: Op::HSet { key, fields } }
}

fn del(key: String) -> (r: DbOp)
    ensures
        r@ == config_op(OpView::Del { key: key@ }),
{
    DbOp { db: Db::Config, op: Op::Del { key } }
}

/// Plan the global EAPOL trap-to-CPU (idempotent).
pub fn plan_eapol_trap() -> (r: Vec<DbOp>)
    ensures
        op_views(r@) == seq![trap_op()],
{
    let fields = vec![
        ("trap_ids".to_owned(), "eapol".to_owned()),
        ("trap_group".to_owned(), "queue4_group1".to_owned()),
    ];
    assert(field_views(fields@) =~= seq![("trap_ids"@, "eapol"@), ("trap_group"@, "queue4_group1"@)]);
    let ops = vec![hset(EAPOL_TRAP_KEY.to_owned(), fields)];
    assert(op_views(ops@) =~= seq![trap_op()]);
    ops
}

/// Plan the closing of the controlled port: EAPOL is let in so that a supplicant
/// can authenticate, everything else is dropped.
pub fn plan_close(port: &str) -> (r: Vec<DbOp>)
    ensures
        op_views(r@) == close_ops(port@),
{
    let table = vec![
        ("type".to_owned(), "L3".to_owned()),
        ("stage".to_owned(), "ingress".to_owned()),
        ("ports".to_owned(), port.to_owned()),
    ];
    assert(field_views(table@) =~= seq![("type"@, "L3"@), ("stage"@, "ingress"@), ("ports"@, port@)]);
    let allow = vec![
        ("PRIORITY".to_owned(), "100".to_owned()),
        ("ETHER_TYPE".to_owned(), "0x888E".to_owned()),
        ("PACKET_ACTION".to_owned(), "FORWARD".to_owned()),
    ];
    assert(field_views(allow@) =~= seq![
        ("PRIORITY"@, "100"@),
        ("ETHER_TYPE"@, "0x888E"@),
        ("PACKET_ACTION"@, "FORWARD"@),
    ]);
    let deny = vec![
        ("PRIORITY".to_owned(), "1".to_owned()),
        ("PACKET_ACTION".to_owned(), "DROP".to_owned()),
    ];
    assert(field_views(deny@) =~= seq![("PRIORITY"@, "1"@), ("PACKET_ACTION"@, "DROP"@)]);
    let name = deny_table(port);
    let ops = vec![
        hset(acl_table_key(name.as_str()), table),
        hset(acl_rule_key(port, "ALLOW_EAPOL"), allow),
        hset(acl_rule_key(port, "DENY_ALL"), deny),
    ];
    assert(op_views(ops@) =~= close_ops(port@));
    ops
}

/// Plan the opening of the controlled port: both rules are removed so traffic
/// forwards.
fn plan_open(port: &str) -> (r: Vec<DbOp>)
    ensures
        op_views(r@) == open_ops(port@),
{
    let ops = vec![del(acl_rule_key(port, "DENY_ALL")), del(acl_rule_key(port, "ALLOW_EAPOL"))];
    assert(op_views(ops@) =~= open_ops(port@));
    ops
}

/// Plan the ops to move `port` from `old` to `new`. Only the deltas are emitted,
/// so re-applying the same posture is a no-op. The ops are those of the whole port,
/// whichever station on it the posture is for.
pub fn transition(port: &str, old: &Desired, new: &Desired) -> (r: Vec<DbOp>)
    ensures
        op_views(r@) == transition_ops(port@, old@, new@),
{
    let mut ops: Vec<DbOp> = Vec::new();
    if !optional_text_eq(&old.vlan, &new.vlan) {
        if let Some(prev) = &old.vlan {
            ops.push(del(vlan_member_key(prev.as_str(), port)));
        }
        if let Some(next) = &new.vlan {
            let fields = vec![("tagging_mode".to_owned(), "untagged".to_owned())];
            assert(field_views(fields@) =~= seq![("tagging_mode"@, "untagged"@)]);
            ops.push(hset(vlan_member_key(next.as_str(), port), fields));
        }
    }
    assert(op_views(ops@) =~= vlan_ops(port@, old@.vlan, new@.vlan));
    if !optional_text_eq(&old.filter_id, &new.filter_id) {
        if let Some(prev) = &old.filter_id {
            ops.push(
                DbOp {
                    db: Db::Config,
                    op: Op::ListRemove {
                        key: acl_table_key(prev.as_str()),
                        field: "ports".to_owned(),
                        value: port.to_owned(),
                    },
                },
            );
        }
        if let Some(next) = &new.filter_id {
            ops.push(
                DbOp {
                    db: Db::Config,
                    op: Op::ListAdd {
                        key: acl_table_key(next.as_str()),
                        field: "ports".to_owned(),
                        value: port.to_owned(),
                    },
                },
            );
        }
    }
    assert(op_views(ops@) =~= vlan_ops(port@, old@.vlan, new@.vlan) + filter_ops(
        port@,
        old@.filter_id,
        new@.filter_id,
    ));
    if old.authorized != new.authorized {
        let mut gate = if new.authorized {
            plan_open(port)
        } else {
            plan_close(port)
        };
        ops.append(&mut gate);
    }
    assert(op_views(ops@) =~= transition_ops(port@, old@, new@));
    ops
}

/// The number that a run of decimal digits stands for.
pub open spec fn number_of(s: Seq<char>) -> nat
    decreases s.len(),
{
    if s.len() == 0 {
        0
    } else {
        (10 * number_of(s.drop_last()) + (s.last() as int - 48)) as nat
    }
}

/// Whether a text is a VLAN number: decimal digits for 1 to 4094.
pub open spec fn valid_vlan(s: Seq<char>) -> bool {
    &&& s.len() > 0
    &&& forall|i: int| 0 <= i < s.len() ==> '0' <= #[trigger] s[i] <= '9'
    &&& 1 <= number_of(s) <= 4094
}

proof fn lemma_number_grows(s: Seq<char>, n: int)
    requires
        0 <= n <= s.len(),
        forall|i: int| 0 <= i < s.len() ==> '0' <= #[trigger] s[i] <= '9',
    ensures
        number_of(s.take(n)) <= number_of(s),
    decreases s.len() - n,
{
    if n == s.len() {
        assert(s.take(n) =~= s);
    } else {
        lemma_number_grows(s, n + 1);
        assert(s.take(n + 1).drop_last() =~= s.take(n));
    }
}

/// Whether a VLAN assignment can be programmed: a number from 1 to 4094.
pub fn is_valid_vlan(vlan: &str) -> (r: bool)
    ensures
        r == valid_vlan(vlan@),
{
    let mut value: u32 = 0;
    for c in it: vlan.chars()
        invariant
            it.seq() == vlan@,
            value == number_of(vlan@.take(it.index())),
            value <= 4094,
            forall|j: int| 0 <= j < it.index() ==> '0' <= #[trigger] vlan@[j] <= '9',
    {
        proof {
            assert(vlan@.take(it.index() + 1).drop_last() =~= vlan@.take(it.index()));
        }
        if c < '0' || c > '9' {
            assert(!('0' <= vlan@[it.index()] <= '9'));
            return false;
        }
        value = value * 10 + (c as u32 - 48);
        if value > 4094 {
            proof {
                if forall|i: int| 0 <= i < vlan@.len() ==> '0' <= #[trigger] vlan@[i] <= '9' {
                    lemma_number_grows(vlan@, it.index() + 1);
                }
            }
            return false;
        }
    }
    assert(vlan@.take(vlan@.len() as int) =~= vlan@);
    value >= 1
}

/// Applying the same posture again changes nothing.
pub proof fn law_same_posture_is_a_no_op(port: Seq<char>, d: DesiredView)
    ensures
        transition_ops(port, d, d) == Seq::<DbOpView>::empty(),
{
    assert(transition_ops(port, d, d) =~= Seq::<DbOpView>::empty());
}

} // verus!
