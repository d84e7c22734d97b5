//! Tests for the per-port host-mode multiplexing in `PortPae`.


use authenticator::pacp::eap::{EapCode, EapType};
use authenticator::pae::config::HostMode;
use authenticator::pae::effect::{
    AcctTrigger, Authorization, Effect, PortAuthorization, TerminateCause,
};
use authenticator::pae::event::{Event, InboundEap};
use authenticator::pae::session::max_sessions;
use authenticator::pae::{DirectedEffect, PaeConfig, PortPae};

const MAC_A: [u8; 6] = [0x00, 0x11, 0x22, 0x33, 0x44, 0x55];
const MAC_B: [u8; 6] = [0x00, 0xAA, 0xBB, 0xCC, 0xDD, 0xEE];

fn cfg(mode: HostMode) -> PaeConfig {
    PaeConfig {
        host_mode: mode,
        ..PaeConfig::default()
    }
}

fn resp_identity(id: u8, name: &[u8]) -> InboundEap {
    let len = (5 + name.len()) as u16;
    let mut packet = vec![2, id, (len >> 8) as u8, len as u8, 1];
    packet.extend_from_slice(name);
    InboundEap {
        code: EapCode::Response,
        identifier: id,
        eap_type: Some(EapType::Identity),
        packet,
    }
}

fn accept(vlan: &str) -> Event {
    Event::AccessAccept {
        authorization: Authorization {
            vlan: Some(vlan.to_string()),
            ..Authorization::default()
        },
        eap: None,
    }
}

/// Drive a given MAC's session to authorized within a port.
fn authorize(port: &mut PortPae, mac: [u8; 6], vlan: &str) -> Vec<DirectedEffect> {
    port.handle(mac, Event::EapolStart);
    port.handle(mac, Event::EapFromSupplicant(resp_identity(1, b"x")));
    port.handle(mac, accept(vlan))
}

#[test]
fn first_contact_creates_session_and_solicits_identity() {
    let mut port = PortPae::new(cfg(HostMode::MultiAuth));
    let fx = port.handle(MAC_A, Event::EapolStart);
    // The new session is bootstrapped (Enable): port-unauthorized + identity.
    assert!(
        fx.iter()
            .any(|d| d.mac == Some(MAC_A) && matches!(d.effect, Effect::TxEapToSupplicant(_)))
    );
    assert!(port.session(MAC_A).is_some());
    assert_eq!(port.active_sessions(), 1);
}

#[test]
fn multi_auth_admits_independent_sessions_per_mac() {
    let mut port = PortPae::new(cfg(HostMode::MultiAuth));
    authorize(&mut port, MAC_A, "10");
    authorize(&mut port, MAC_B, "20");

    assert!(port.session(MAC_A).unwrap().is_authorized());
    assert!(port.session(MAC_B).unwrap().is_authorized());
    assert_eq!(port.active_sessions(), 2);
}

#[test]
fn single_host_denies_a_second_mac() {
    let mut port = PortPae::new(cfg(HostMode::SingleHost));
    authorize(&mut port, MAC_A, "10");

    // A different MAC gets no session and no effects while the first holds.
    let fx = port.handle(MAC_B, Event::EapolStart);
    assert!(fx.is_empty());
    assert!(port.session(MAC_B).is_none());
    assert_eq!(port.active_sessions(), 1);
}

#[test]
fn multi_host_opens_whole_port_on_first_auth() {
    let mut port = PortPae::new(cfg(HostMode::MultiHost));
    let fx = authorize(&mut port, MAC_A, "10");

    // The session authorization is mirrored as a port-wide open (mac == None)
    // so the dataplane admits every MAC behind the port.
    assert!(fx.iter().any(|d| d.mac.is_none()
        && matches!(
            d.effect,
            Effect::SetAuthorization(PortAuthorization::Authorized(_))
        )));

    // A second MAC rides the open port: no new session, no effects.
    let fx = port.handle(MAC_B, Event::EapolStart);
    assert!(fx.is_empty());
    assert_eq!(port.active_sessions(), 1);
}

#[test]
fn multi_host_logoff_revokes_the_port_wide_open() {
    // Regression: in multi-host the opener logging off must revoke the port-wide
    // open, not leave the whole port admitting every MAC.
    let mut port = PortPae::new(cfg(HostMode::MultiHost));
    authorize(&mut port, MAC_A, "10");

    let fx = port.handle(MAC_A, Event::EapolLogoff);
    assert!(fx.iter().any(|d| d.mac.is_none()
        && matches!(
            d.effect,
            Effect::SetAuthorization(PortAuthorization::Unauthorized)
        )));
    assert_eq!(port.active_sessions(), 0);
}

#[test]
fn multi_domain_admits_two_then_caps() {
    let mut port = PortPae::new(cfg(HostMode::MultiDomain));
    port.handle(MAC_A, Event::EapolStart);
    port.handle(MAC_B, Event::EapolStart);
    assert_eq!(port.active_sessions(), 2);

    // A third MAC is refused.
    let third = [0x00, 0x99, 0x99, 0x99, 0x99, 0x99];
    let fx = port.handle(third, Event::EapolStart);
    assert!(fx.is_empty());
    assert_eq!(port.active_sessions(), 2);
}

#[test]
fn teardown_frees_capacity_in_single_host() {
    let mut port = PortPae::new(cfg(HostMode::SingleHost));
    authorize(&mut port, MAC_A, "10");

    // MAC_A logs off → its session is torn down and pruned.
    let fx = port.handle(MAC_A, Event::EapolLogoff);
    assert!(fx.iter().any(|d| matches!(
        d.effect,
        Effect::SetAuthorization(PortAuthorization::Unauthorized)
    )));
    assert_eq!(port.active_sessions(), 0);
    assert!(port.session(MAC_A).is_none());

    // Now a different MAC can take the port.
    authorize(&mut port, MAC_B, "20");
    assert!(port.session(MAC_B).unwrap().is_authorized());
}

#[test]
fn link_down_tears_down_all_sessions() {
    let mut port = PortPae::new(cfg(HostMode::MultiAuth));
    authorize(&mut port, MAC_A, "10");
    authorize(&mut port, MAC_B, "20");

    let fx = port.link_down();
    // Every session is torn down and the port goes unauthorized port-wide.
    assert!(fx.iter().any(|d| d.mac.is_none()
        && matches!(
            d.effect,
            Effect::SetAuthorization(PortAuthorization::Unauthorized)
        )));
    assert_eq!(port.active_sessions(), 0);
}

// ---- What holds of every port ----

#[test]
fn a_port_starts_closed_and_empty() {
    let mut port = PortPae::new(cfg(HostMode::SingleHost));
    assert_eq!(port.active_sessions(), 0);
    let fx = port.enable();
    assert_eq!(
        fx,
        vec![DirectedEffect {
            mac: None,
            effect: Effect::SetAuthorization(PortAuthorization::Unauthorized),
        }]
    );
    assert_eq!(port.active_sessions(), 0);
}

#[test]
fn one_session_leaves_the_others_undisturbed() {
    let mut port = PortPae::new(cfg(HostMode::MultiAuth));
    authorize(&mut port, MAC_A, "10");
    authorize(&mut port, MAC_B, "20");

    let fx = port.handle(MAC_A, Event::CoaDisconnect);
    assert!(fx.iter().all(|d| d.mac == Some(MAC_A)));
    assert!(port.session(MAC_A).is_none());
    assert!(port.session(MAC_B).unwrap().is_authorized());
    assert_eq!(port.active_sessions(), 1);
}

#[test]
fn an_accept_for_a_stranger_opens_nothing() {
    let mut port = PortPae::new(cfg(HostMode::MultiAuth));
    let fx = port.handle(MAC_A, accept("10"));
    assert!(!fx.iter().any(|d| matches!(
        d.effect,
        Effect::SetAuthorization(PortAuthorization::Authorized(_))
    )));
    assert!(!port.session(MAC_A).unwrap().is_authorized());

    // A logoff from a stranger leaves no session behind.
    port.handle(MAC_B, Event::EapolLogoff);
    assert!(port.session(MAC_B).is_none());
}

#[test]
fn multi_host_port_follows_its_session_through_a_change() {
    let mut port = PortPae::new(cfg(HostMode::MultiHost));
    authorize(&mut port, MAC_A, "10");
    let granted = Authorization { vlan: Some("30".to_string()), ..Authorization::default() };
    let fx = port.handle(MAC_A, Event::CoaAuthorize { authorization: granted.clone() });
    let opened = Effect::SetAuthorization(PortAuthorization::Authorized(granted));
    assert_eq!(
        fx,
        vec![
            DirectedEffect { mac: None, effect: opened.clone() },
            DirectedEffect { mac: Some(MAC_A), effect: opened },
        ]
    );
}

#[test]
fn link_loss_ends_with_the_whole_port_closed() {
    let mut port = PortPae::new(cfg(HostMode::MultiAuth));
    authorize(&mut port, MAC_A, "10");
    port.handle(MAC_B, Event::EapolStart);

    let fx = port.link_down();
    assert_eq!(
        fx.last(),
        Some(&DirectedEffect {
            mac: None,
            effect: Effect::SetAuthorization(PortAuthorization::Unauthorized),
        })
    );
    assert!(fx.iter().any(|d| d.mac == Some(MAC_A)
        && matches!(d.effect, Effect::Accounting(AcctTrigger::Stop(TerminateCause::PortLinkDown)))));
    assert!(!fx.iter().any(|d| d.mac == Some(MAC_B) && matches!(d.effect, Effect::Accounting(_))));
    assert!(port.session(MAC_A).is_none());
    assert!(port.session(MAC_B).is_none());
}

#[test]
fn host_modes_have_their_limits() {
    assert_eq!(max_sessions(HostMode::SingleHost), Some(1));
    assert_eq!(max_sessions(HostMode::MultiHost), Some(1));
    assert_eq!(max_sessions(HostMode::MultiDomain), Some(2));
    assert_eq!(max_sessions(HostMode::MultiAuth), None);
}

#[test]
fn multi_host_port_is_told_only_of_the_opener() {
    let mut port = PortPae::new(cfg(HostMode::MultiHost));
    // Admission closes for the session, which was not open.
    let fx = port.handle(MAC_A, Event::EapolStart);
    assert_eq!(fx.len(), 3);
    assert!(fx.iter().all(|d| d.mac == Some(MAC_A)));
    // So does a first attempt that is refused.
    port.handle(MAC_A, Event::EapFromSupplicant(resp_identity(1, b"x")));
    let fx = port.handle(MAC_A, Event::AccessReject { eap: None });
    assert!(fx.iter().all(|d| d.mac == Some(MAC_A)));
    assert!(fx.iter().any(|d| matches!(
        d.effect,
        Effect::SetAuthorization(PortAuthorization::Unauthorized)
    )));
}
