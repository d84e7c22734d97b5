//! The recording enforcer keeps every call, in order.

use authenticator::enforce::recording::Call;
use authenticator::enforce::{RecordingEnforcer, Target, target_eq};
use authenticator::pae::{Authorization, PortAuthorization};

const MAC: [u8; 6] = [0x00, 0x11, 0x22, 0x33, 0x44, 0x55];

#[test]
fn records_trap_and_apply_in_order() {
    let mut enf = RecordingEnforcer::new();
    enf.ensure_eapol_trap("Ethernet1");
    let auth = PortAuthorization::Authorized(Authorization {
        vlan: Some("100".to_string()),
        ..Authorization::default()
    });
    enf.apply("Ethernet1", Target::Mac(MAC), &auth);
    enf.apply("Ethernet1", Target::Port, &PortAuthorization::Unauthorized);

    let calls = enf.calls();
    assert_eq!(calls.len(), 3);
    assert_eq!(calls[0], Call::EnsureEapolTrap { port: "Ethernet1".to_string() });
    assert!(matches!(
        &calls[1],
        Call::Apply { target: Target::Mac(m), auth: PortAuthorization::Authorized(_), .. } if *m == MAC
    ));
    assert!(matches!(
        &calls[2],
        Call::Apply { target: Target::Port, auth: PortAuthorization::Unauthorized, .. }
    ));
}

#[test]
fn fresh_recorders_are_empty() {
    assert!(RecordingEnforcer::new().calls().is_empty());
    assert!(RecordingEnforcer::default().calls().is_empty());
}

#[test]
fn targets_compare_by_address() {
    let mut other = MAC;
    other[0] = 0x02;
    assert!(target_eq(Target::Port, Target::Port));
    assert!(target_eq(Target::Mac(MAC), Target::Mac(MAC)));
    assert!(!target_eq(Target::Mac(MAC), Target::Mac(other)));
    assert!(!target_eq(Target::Mac(MAC), Target::Port));
}
