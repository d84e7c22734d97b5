//! Tests for the SONiC op planner and the SonicEnforcer, against an in-memory
//! database.

use authenticator::enforce::Target;
use authenticator::enforce_sonic::command::{Access, Command, access, edited};
use authenticator::enforce_sonic::db::{Db, DbOp, Op};
use authenticator::enforce_sonic::enforcer::{Plan, PlanStep};
use authenticator::enforce_sonic::list::{list_add, list_remove};
use authenticator::enforce_sonic::schema::{self, Desired};
use authenticator::enforce_sonic::{SonicEnforcer, SonicError};
use authenticator::pae::{Authorization, FallbackReason, PortAuthorization};
use std::collections::HashMap;
use std::convert::Infallible;

const PORT: &str = "Ethernet12";
const MAC: [u8; 6] = [0x00, 0x11, 0x22, 0x33, 0x44, 0x55];

// ---- A database in memory, and an enforcer that works on it ----

struct MockDb {
    keys: HashMap<String, HashMap<String, String>>,
    confirm_everything: bool,
}

impl MockDb {
    fn new() -> Self {
        MockDb { keys: HashMap::new(), confirm_everything: true }
    }

    /// Pre-create a key (e.g. a provisioned ACL_TABLE).
    fn seed(&mut self, key: &str) {
        self.keys.insert(key.to_string(), HashMap::new());
    }

    fn fail_confirmation(&mut self) {
        self.confirm_everything = false;
    }

    fn apply(&mut self, ops: &[DbOp]) {
        for op in ops {
            assert_eq!(op.db, Db::Config);
            match access(&op.op) {
                Access::Run { command } => self.run(command),
                Access::Read { key, field } => {
                    let current = self.keys.get(&key).and_then(|e| e.get(&field)).cloned();
                    if let Some(command) = edited(&op.op, current.as_deref()) {
                        self.run(command);
                    }
                }
            }
        }
    }

    fn run(&mut self, command: Command) {
        match command {
            Command::HSet { key, fields } => self.keys.entry(key).or_default().extend(fields),
            Command::Del { key } => {
                self.keys.remove(&key);
            }
        }
    }

    fn confirm(&self, key: &str) -> bool {
        self.confirm_everything && self.keys.contains_key(key)
    }
}

struct Switch {
    enforcer: SonicEnforcer,
    db: MockDb,
}

impl Switch {
    fn new(db: MockDb) -> Self {
        Switch { enforcer: SonicEnforcer::new(), db }
    }

    fn perform(&mut self, mut plan: Plan) -> Result<(), SonicError<Infallible>> {
        while let Some(step) = plan.next_step() {
            match step {
                PlanStep::Confirm { key, .. } => {
                    let exists = self.db.confirm(key);
                    plan.confirmed(exists)?;
                }
                PlanStep::Apply { ops } => {
                    self.db.apply(ops);
                    plan.applied();
                }
            }
        }
        assert!(self.enforcer.finish(plan));
        Ok(())
    }

    fn ensure_eapol_trap(&mut self, port: &str) -> Result<(), SonicError<Infallible>> {
        let plan = self.enforcer.ensure_eapol_trap(port);
        self.perform(plan)
    }

    fn apply(
        &mut self,
        port: &str,
        target: Target,
        auth: &PortAuthorization,
    ) -> Result<(), SonicError<Infallible>> {
        let plan = self.enforcer.apply(port, target, auth)?;
        self.perform(plan)
    }

    fn has(&self, key: &str) -> bool {
        self.db.keys.contains_key(key)
    }
}

fn authz(vlan: Option<&str>, filter: Option<&str>) -> PortAuthorization {
    PortAuthorization::Authorized(Authorization {
        vlan: vlan.map(str::to_string),
        filter_id: filter.map(str::to_string),
        ..Authorization::default()
    })
}

// ---- Planner ----

#[test]
fn eapol_trap_plan_targets_copp() {
    let ops = schema::plan_eapol_trap();
    assert_eq!(ops.len(), 1);
    assert_eq!(ops[0].db, Db::Config);
    assert!(matches!(&ops[0].op, Op::HSet { key, .. } if key == "COPP_TRAP|eapol"));
}

#[test]
fn close_permits_eapol_and_drops_the_rest() {
    let ops = schema::plan_close(PORT);
    // EAPOL permit at high priority...
    assert!(ops.iter().any(|o| matches!(&o.op,
        Op::HSet { key, fields } if key.contains("ALLOW_EAPOL")
            && fields.iter().any(|(f, v)| f == "ETHER_TYPE" && v == "0x888E"))));
    // ...and a catch-all DROP.
    assert!(ops.iter().any(|o| matches!(&o.op,
        Op::HSet { key, fields } if key.contains("DENY_ALL")
            && fields.iter().any(|(f, v)| f == "PACKET_ACTION" && v == "DROP"))));
}

#[test]
fn transition_unauthorized_to_authorized_with_vlan_and_acl() {
    let old = Desired::default();
    let new = Desired::from_authorization(&authz(Some("100"), Some("acl-staff")));
    let ops = schema::transition(PORT, &old, &new);

    assert!(ops.iter().any(|o| matches!(&o.op,
        Op::HSet { key, fields } if key == "VLAN_MEMBER|Vlan100|Ethernet12"
            && fields.iter().any(|(f, v)| f == "tagging_mode" && v == "untagged"))));
    assert!(ops.iter().any(|o| matches!(&o.op,
        Op::ListAdd { key, value, .. } if key == "ACL_TABLE|acl-staff" && value == "Ethernet12")));
    // Opening removes both the deny and the EAPOL-permit rules.
    assert!(
        ops.iter()
            .any(|o| matches!(&o.op, Op::Del { key } if key.contains("DENY_ALL")))
    );
    assert!(
        ops.iter()
            .any(|o| matches!(&o.op, Op::Del { key } if key.contains("ALLOW_EAPOL")))
    );
}

#[test]
fn transition_authorized_to_unauthorized_installs_default_deny_and_drops_vlan() {
    let old = Desired::from_authorization(&authz(Some("100"), None));
    let new = Desired::default();
    let ops = schema::transition(PORT, &old, &new);

    assert!(
        ops.iter()
            .any(|o| matches!(&o.op, Op::Del { key } if key == "VLAN_MEMBER|Vlan100|Ethernet12"))
    );
    assert!(ops.iter().any(|o| matches!(&o.op,
        Op::HSet { key, fields } if key.contains("DENY_ALL")
            && fields.iter().any(|(f, v)| f == "PACKET_ACTION" && v == "DROP"))));
}

#[test]
fn reapplying_same_posture_is_a_noop() {
    let d = Desired::from_authorization(&authz(Some("100"), Some("f")));
    assert!(schema::transition(PORT, &d, &d).is_empty());
}

#[test]
fn fallback_authorization_forwards_on_restricted_vlan() {
    let d = Desired::from_authorization(&PortAuthorization::Fallback {
        reason: FallbackReason::Guest,
        vlan: Some("guest".to_string()),
    });
    assert!(d.authorized);
    assert_eq!(d.vlan.as_deref(), Some("guest"));
    assert_eq!(d.filter_id, None);
}

#[test]
fn vlan_validity() {
    assert!(schema::is_valid_vlan("100"));
    assert!(schema::is_valid_vlan("4094"));
    assert!(!schema::is_valid_vlan("0"));
    assert!(!schema::is_valid_vlan("4095"));
    assert!(!schema::is_valid_vlan("ENGINEERING"));
}

// ---- SonicEnforcer ----

#[test]
fn ensure_eapol_trap_closes_the_port_fail_closed_start() {
    let mut enf = Switch::new(MockDb::new());
    // Bring-up installs the trap AND closes the port (deny present), so the
    // port is never open before it authenticates.
    enf.ensure_eapol_trap(PORT).unwrap();
}

#[test]
fn ensure_eapol_trap_fails_closed_when_unconfirmed() {
    let mut db = MockDb::new();
    db.fail_confirmation();
    let mut enf = Switch::new(db);
    assert!(matches!(
        enf.ensure_eapol_trap(PORT),
        Err(SonicError::Unconfirmed { .. })
    ));
}

#[test]
fn full_lifecycle_close_authorize_unauthorize() {
    let mut enf = Switch::new(MockDb::new());
    enf.ensure_eapol_trap(PORT).unwrap(); // closed
    enf.apply(PORT, Target::Mac(MAC), &authz(Some("100"), None))
        .unwrap(); // open on VLAN 100
    enf.apply(PORT, Target::Mac(MAC), &PortAuthorization::Unauthorized)
        .unwrap(); // closed again
}

#[test]
fn authorized_without_vlan_confirms_port_is_open() {
    let mut enf = Switch::new(MockDb::new());
    enf.ensure_eapol_trap(PORT).unwrap(); // deny present
    // Bare accept (no VLAN): opening must remove the deny; confirmed via absence.
    enf.apply(PORT, Target::Port, &authz(None, None))
        .unwrap();
}

#[test]
fn non_numeric_vlan_is_rejected_fail_closed() {
    let mut enf = Switch::new(MockDb::new());
    assert!(matches!(
        enf.apply(PORT, Target::Port, &authz(Some("ENGINEERING"), None)),
        Err(SonicError::InvalidVlan(_))
    ));
}

#[test]
fn filter_id_to_missing_acl_table_fails_closed() {
    let mut enf = Switch::new(MockDb::new());
    // ACL_TABLE|acl-x is NOT provisioned → authorize must fail closed.
    assert!(matches!(
        enf.apply(PORT, Target::Port, &authz(Some("100"), Some("acl-x"))),
        Err(SonicError::Unconfirmed { .. })
    ));
}

#[test]
fn filter_id_to_provisioned_acl_table_succeeds() {
    let mut db = MockDb::new();
    db.seed("ACL_TABLE|acl-staff"); // pre-provisioned named ACL
    let mut enf = Switch::new(db);
    enf.apply(PORT, Target::Port, &authz(Some("100"), Some("acl-staff")))
        .unwrap();
}

#[test]
fn apply_fails_closed_when_change_is_not_confirmed() {
    let mut db = MockDb::new();
    db.fail_confirmation();
    let mut enf = Switch::new(db);
    assert!(matches!(
        enf.apply(PORT, Target::Mac(MAC), &authz(Some("100"), None)),
        Err(SonicError::Unconfirmed { .. })
    ));
}

// ---- What the switch ends up with ----

#[test]
fn bring_up_closes_the_port_but_for_eapol() {
    let mut enf = Switch::new(MockDb::new());
    enf.ensure_eapol_trap(PORT).unwrap();
    assert_eq!(enf.db.keys["COPP_TRAP|eapol"]["trap_ids"], "eapol");
    let table = schema::deny_table(PORT);
    assert_eq!(enf.db.keys[&schema::acl_table_key(&table)]["ports"], PORT);
    let deny = schema::deny_rule_key(PORT, Target::Port);
    assert_eq!(enf.db.keys[&deny]["PACKET_ACTION"], "DROP");
}

#[test]
fn postures_are_reached_from_one_another() {
    let mut db = MockDb::new();
    db.seed("ACL_TABLE|acl-a");
    db.seed("ACL_TABLE|acl-b");
    let mut enf = Switch::new(db);
    enf.ensure_eapol_trap(PORT).unwrap();
    let deny = schema::deny_rule_key(PORT, Target::Port);

    enf.apply(PORT, Target::Port, &authz(Some("100"), Some("acl-a"))).unwrap();
    assert!(enf.has("VLAN_MEMBER|Vlan100|Ethernet12"));
    assert_eq!(enf.db.keys["ACL_TABLE|acl-a"]["ports"], PORT);
    assert!(!enf.has(&deny));

    enf.apply(PORT, Target::Port, &authz(Some("200"), Some("acl-b"))).unwrap();
    assert!(!enf.has("VLAN_MEMBER|Vlan100|Ethernet12"));
    assert!(enf.has("VLAN_MEMBER|Vlan200|Ethernet12"));
    assert_eq!(enf.db.keys["ACL_TABLE|acl-a"]["ports"], "");
    assert_eq!(enf.db.keys["ACL_TABLE|acl-b"]["ports"], PORT);

    enf.apply(PORT, Target::Port, &PortAuthorization::Unauthorized).unwrap();
    assert!(!enf.has("VLAN_MEMBER|Vlan200|Ethernet12"));
    assert_eq!(enf.db.keys["ACL_TABLE|acl-b"]["ports"], "");
    assert!(enf.has(&deny));
}

#[test]
fn unfinished_plans_are_not_remembered() {
    let mut enforcer = SonicEnforcer::new();
    let plan = enforcer.apply::<Infallible>(PORT, Target::Port, &authz(Some("100"), None)).unwrap();
    assert!(!enforcer.finish(plan));
    // The next plan still starts from the closed posture.
    let plan = enforcer.apply::<Infallible>(PORT, Target::Port, &authz(Some("100"), None)).unwrap();
    match plan.next_step() {
        Some(PlanStep::Apply { ops }) => assert_eq!(ops.len(), 3),
        other => panic!("expected operations, got {other:?}"),
    }
}

#[test]
fn refused_vlan_is_named_and_nothing_is_touched() {
    let mut enf = Switch::new(MockDb::new());
    assert!(matches!(
        enf.apply(PORT, Target::Port, &authz(Some("4095"), None)),
        Err(SonicError::InvalidVlan(v)) if v == "4095"
    ));
    assert!(enf.db.keys.is_empty());
}

#[test]
fn keys_and_indices_of_the_switch() {
    assert_eq!(schema::vlan_member_key("7", "Ethernet0"), "VLAN_MEMBER|Vlan7|Ethernet0");
    assert_eq!(schema::acl_table_key("x"), "ACL_TABLE|x");
    let table = schema::deny_table("Ethernet0");
    assert_eq!(
        schema::deny_rule_key("Ethernet0", Target::Port),
        format!("ACL_RULE|{table}|DENY_ALL")
    );
    assert_eq!(
        schema::deny_rule_key("Ethernet0", Target::Mac(MAC)),
        format!("ACL_RULE|{table}|DENY_00-11-22-33-44-55")
    );
    assert_eq!(
        [Db::Appl.index(), Db::Asic.index(), Db::Config.index(), Db::State.index()],
        [0, 1, 4, 6]
    );
}

#[test]
fn vlans_are_plain_decimal_numbers() {
    for ok in ["1", "4094", "0100", "00042"] {
        assert!(schema::is_valid_vlan(ok), "{ok}");
    }
    for bad in ["", "-1", " 1", "1 ", "1.0", "99999999999999999999", "65546", "0x10"] {
        assert!(!schema::is_valid_vlan(bad), "{bad}");
    }
}

#[test]
fn list_fields_are_sets_with_commas() {
    assert_eq!(list_add(None, "a"), "a");
    assert_eq!(list_add(Some(""), "a"), "a");
    assert_eq!(list_add(Some("a,b"), "c"), "a,b,c");
    assert_eq!(list_add(Some("a,b"), "a"), "a,b");
    assert_eq!(list_add(Some(",a,,b,"), "a"), "a,b");
    assert_eq!(list_remove("a,b,a", "a"), "b");
    assert_eq!(list_remove("a,ab", "a"), "ab");
    assert_eq!(list_remove("a", "a"), "");
    assert_eq!(list_remove(&list_add(Some("x,y"), "z"), "z"), "x,y");
}

#[test]
fn enforcement_errors_read_as_sentences() {
    assert_eq!(
        SonicError::Backend("boom").message("connection refused"),
        "SONiC DB error: connection refused"
    );
    let unconfirmed: SonicError<Infallible> =
        SonicError::Unconfirmed { db: Db::Config, key: "COPP_TRAP|eapol".to_string() };
    assert_eq!(
        unconfirmed.message(""),
        "dataplane change not confirmed in Config: COPP_TRAP|eapol"
    );
    let invalid: SonicError<Infallible> = SonicError::InvalidVlan("x".to_string());
    assert_eq!(invalid.message(""), "VLAN \"x\" is not a number from 1 to 4094");
}

#[test]
fn operations_become_commands() {
    let text = str::to_string;
    let set = Op::HSet { key: text("K"), fields: vec![(text("f"), text("v"))] };
    assert_eq!(access(&set), Access::Run {
        command: Command::HSet { key: text("K"), fields: vec![(text("f"), text("v"))] },
    });
    let del = Op::Del { key: text("K") };
    assert_eq!(access(&del), Access::Run { command: Command::Del { key: text("K") } });

    let add = Op::ListAdd { key: text("K"), field: text("f"), value: text("b") };
    assert_eq!(access(&add), Access::Read { key: text("K"), field: text("f") });
    let written = |list: &str| {
        Some(Command::HSet { key: text("K"), fields: vec![(text("f"), text(list))] })
    };
    assert_eq!(edited(&add, None), written("b"));
    assert_eq!(edited(&add, Some("a")), written("a,b"));

    let remove = Op::ListRemove { key: text("K"), field: text("f"), value: text("b") };
    assert_eq!(access(&remove), Access::Read { key: text("K"), field: text("f") });
    assert_eq!(edited(&remove, Some("a,b")), written("a"));
    assert_eq!(edited(&remove, None), None);
}

#[test]
fn ports_open_and_close_for_all_stations_at_once() {
    let other = [0x00, 0x11, 0x22, 0x33, 0x44, 0x56];
    let deny = schema::deny_rule_key(PORT, Target::Port);
    let mut enf = Switch::new(MockDb::new());
    enf.ensure_eapol_trap(PORT).unwrap();
    enf.apply(PORT, Target::Mac(MAC), &authz(None, None)).unwrap();
    assert!(!enf.has(&deny));
    // A station that is closed already is not confirmed closed on an open port.
    assert!(matches!(
        enf.apply(PORT, Target::Mac(other), &PortAuthorization::Unauthorized),
        Err(SonicError::Unconfirmed { db: Db::Config, key }) if key == deny
    ));
    enf.apply(PORT, Target::Mac(MAC), &PortAuthorization::Unauthorized).unwrap();
    assert!(enf.has(&deny));
    assert!(!enf.has(&schema::deny_rule_key(PORT, Target::Mac(MAC))));
}

#[test]
fn bringing_a_port_up_anew_lets_stations_in_again() {
    let deny = schema::deny_rule_key(PORT, Target::Port);
    let member = schema::vlan_member_key("100", PORT);
    let mut enf = Switch::new(MockDb::new());
    enf.ensure_eapol_trap(PORT).unwrap();
    enf.ensure_eapol_trap("Ethernet8").unwrap();
    enf.apply(PORT, Target::Mac(MAC), &authz(Some("100"), None)).unwrap();
    enf.apply("Ethernet8", Target::Mac(MAC), &authz(None, None)).unwrap();
    enf.ensure_eapol_trap(PORT).unwrap();
    assert!(enf.has(&deny));
    enf.apply(PORT, Target::Mac(MAC), &authz(Some("100"), None)).unwrap();
    assert!(!enf.has(&deny));
    assert!(enf.has(&member));
    // The other port was open throughout, and its posture still counts.
    let plan = enf
        .enforcer
        .apply::<Infallible>("Ethernet8", Target::Mac(MAC), &authz(None, None))
        .unwrap();
    assert!(matches!(plan.next_step(), Some(PlanStep::Apply { ops }) if ops.is_empty()));
}

#[test]
fn a_station_is_let_in_again_after_another_logged_off() {
    let other = [0x00, 0x11, 0x22, 0x33, 0x44, 0x56];
    let deny = schema::deny_rule_key(PORT, Target::Port);
    let mut enf = Switch::new(MockDb::new());
    enf.ensure_eapol_trap(PORT).unwrap();
    enf.apply(PORT, Target::Mac(MAC), &authz(None, None)).unwrap();
    enf.apply(PORT, Target::Mac(other), &authz(Some("200"), None)).unwrap();
    enf.apply(PORT, Target::Mac(MAC), &PortAuthorization::Unauthorized).unwrap();
    assert!(enf.has(&deny));
    enf.apply(PORT, Target::Mac(other), &authz(Some("200"), None)).unwrap();
    assert!(!enf.has(&deny));
    // The VLAN that it had before the port was closed is still taken back.
    enf.apply(PORT, Target::Mac(MAC), &authz(None, None)).unwrap();
    enf.apply(PORT, Target::Mac(MAC), &PortAuthorization::Unauthorized).unwrap();
    enf.apply(PORT, Target::Mac(other), &PortAuthorization::Unauthorized).unwrap();
    assert!(enf.has(&deny));
    assert!(!enf.has(&schema::vlan_member_key("200", PORT)));
}
