//! Tests for the daemon's decisions: config validation, RADIUS session correlation
//! (Identifier, State, verification), timer mapping, and effects carried out against
//! boundaries in memory.

use authenticator::authd::dispatch::{Action, Exchange, MAX_STEPS, Orchestrator};
use authenticator::authd::timers;
use authenticator::authd::worker::{eap_frame, frame_event};
use authenticator::authd::{
    AuthdConfig, AuthdError, ConfigError, PortConfig, RadiusConfig, RadiusSession,
};
use authenticator::eapol_io::EapolError;
use authenticator::enforce::recording::Call;
use authenticator::enforce::{RecordingEnforcer, Target};
use authenticator::pacp::PacpError;
use authenticator::pacp::eap::{EapCode, EapType, request_identity};
use authenticator::pacp::ethernet::{MacAddr, PAE_GROUP_ADDR};
use authenticator::pacp::pdu::{EapolPdu, PacketType};
use authenticator::pae::{
    AcctTrigger, Authorization, DirectedEffect, Effect, Event, InboundEap, PaeConfig,
    PortAuthorization, PortPae, TerminateCause, TimerKind, Timers,
};
use authenticator::radius::attr;
use authenticator::radius::{Attribute, Code, Packet};
use authenticator::radius_client::request::{
    message_authenticator_input, seal_message_authenticator,
};
use authenticator::radius_client::{RadiusClientError, RequestContext};
use authenticator::radsec::RadSecError;

const SECRET: &[u8] = b"radsec";
const MAC: MacAddr = [0x00, 0x11, 0x22, 0x33, 0x44, 0x55];
const CALLED: MacAddr = [0x02, 0, 0, 0, 0, 1];
const REQ_AUTH: [u8; 16] = [0x5A; 16];

fn ctx() -> RequestContext {
    RequestContext {
        nas_ip: Some([10, 0, 0, 1]),
        nas_identifier: "sw1".to_string(),
        nas_port_id: "Ethernet1".to_string(),
        nas_port: None,
        calling_station: MAC,
        called_station: CALLED,
    }
}

fn radius_cfg() -> RadiusConfig {
    RadiusConfig {
        server_addr: "radius.example:2083".to_string(),
        server_name: "radius.example".to_string(),
        ca_pem: b"ca".to_vec(),
        client_cert_pem: b"cert".to_vec(),
        client_key_pem: b"key".to_vec(),
    }
}

// ---- Config validation ----

#[test]
fn valid_config_passes() {
    let cfg = AuthdConfig {
        radius: radius_cfg(),
        ports: vec![PortConfig {
            name: "Ethernet1".to_string(),
            pae: PaeConfig::default(),
        }],
        io_timeout_secs: 30,
    };
    assert!(cfg.validate().is_ok());
}

#[test]
fn config_rejects_no_ports_dupes_and_empties() {
    let base = AuthdConfig {
        radius: radius_cfg(),
        ports: vec![],
        io_timeout_secs: 30,
    };
    assert_eq!(base.validate(), Err(ConfigError::NoPorts));

    let dupe = AuthdConfig {
        ports: vec![
            PortConfig {
                name: "E1".into(),
                pae: PaeConfig::default(),
            },
            PortConfig {
                name: "E1".into(),
                pae: PaeConfig::default(),
            },
        ],
        ..base.clone()
    };
    assert_eq!(
        dupe.validate(),
        Err(ConfigError::DuplicatePort("E1".into()))
    );

    let zero = AuthdConfig {
        io_timeout_secs: 0,
        ..base.clone()
    };
    assert_eq!(zero.validate(), Err(ConfigError::ZeroTimeout));

    let mut empty_field = base.clone();
    empty_field.radius.server_name = String::new();
    empty_field.ports = vec![PortConfig {
        name: "E1".into(),
        pae: PaeConfig::default(),
    }];
    assert_eq!(
        empty_field.validate(),
        Err(ConfigError::EmptyField("radius.server_name"))
    );
}

// ---- Timer mapping ----

#[test]
fn timer_durations_map_from_config_except_session_timeout() {
    let timers = Timers::default();
    assert_eq!(
        timers::duration(&timers, TimerKind::TxPeriod),
        Some(core::time::Duration::from_secs(u64::from(timers.tx_period)))
    );
    assert_eq!(
        timers::duration(&timers, TimerKind::Held),
        Some(core::time::Duration::from_secs(u64::from(
            timers.held_period
        )))
    );
    // SessionTimeout is session-supplied, not config-backed.
    assert_eq!(
        timers::duration(&timers, TimerKind::SessionTimeout),
        None
    );
}

// ---- RADIUS session correlation ----

// ---- Keyed digests as a RADIUS peer computes them (RFC 1321, RFC 2104) ----

const SHIFTS: [[u32; 4]; 4] =
    [[7, 12, 17, 22], [5, 9, 14, 20], [4, 11, 16, 23], [6, 10, 15, 21]];

fn md5(input: &[u8]) -> [u8; 16] {
    let mut data = input.to_vec();
    data.push(0x80);
    while data.len() % 64 != 56 {
        data.push(0);
    }
    data.extend_from_slice(&((input.len() as u64) * 8).to_le_bytes());
    let mut h: [u32; 4] = [0x67452301, 0xefcdab89, 0x98badcfe, 0x10325476];
    for block in data.chunks(64) {
        let m: Vec<u32> =
            block.chunks(4).map(|w| u32::from_le_bytes([w[0], w[1], w[2], w[3]])).collect();
        let [mut a, mut b, mut c, mut d] = h;
        for i in 0..64usize {
            let (f, g) = match i / 16 {
                0 => ((b & c) | (!b & d), i),
                1 => ((d & b) | (!d & c), (5 * i + 1) % 16),
                2 => (b ^ c ^ d, (3 * i + 5) % 16),
                _ => (c ^ (b | !d), (7 * i) % 16),
            };
            let k = (((i + 1) as f64).sin().abs() * 4294967296.0) as u32;
            let sum = a.wrapping_add(f).wrapping_add(k).wrapping_add(m[g]);
            (a, d, c) = (d, c, b);
            b = b.wrapping_add(sum.rotate_left(SHIFTS[i / 16][i % 4]));
        }
        h = [
            h[0].wrapping_add(a),
            h[1].wrapping_add(b),
            h[2].wrapping_add(c),
            h[3].wrapping_add(d),
        ];
    }
    let mut out = [0u8; 16];
    for (i, word) in h.iter().enumerate() {
        out[4 * i..4 * i + 4].copy_from_slice(&word.to_le_bytes());
    }
    out
}

fn hmac_md5(key: &[u8], message: &[u8]) -> [u8; 16] {
    let pad = |mask: u8| -> Vec<u8> {
        (0..64).map(|i| key.get(i).copied().unwrap_or(0) ^ mask).collect()
    };
    let mut inner = pad(0x36);
    inner.extend_from_slice(message);
    let mut outer = pad(0x5c);
    outer.extend_from_slice(&md5(&inner));
    md5(&outer)
}

/// The Response Authenticator of `reply` to a request that bore `request_auth`.
fn response_authenticator(reply: &Packet, request_auth: &[u8; 16]) -> [u8; 16] {
    let mut covered = reply.clone();
    covered.authenticator = *request_auth;
    let mut octets = covered.encode().unwrap();
    octets.extend_from_slice(SECRET);
    md5(&octets)
}

/// Fill in the `Message-Authenticator` of a packet exchanged under `request_auth`.
fn seal(packet: &mut Packet, request_auth: &[u8; 16]) {
    let covered = message_authenticator_input(packet, *request_auth).unwrap();
    seal_message_authenticator(packet, hmac_md5(SECRET, &covered));
}

/// Seal a reply like the server: M-A (with the request authenticator) then the
/// Response Authenticator.
fn seal_reply(code: Code, attrs: Vec<Attribute>, req_auth: &[u8; 16]) -> Packet {
    let mut p = Packet::new(code, 0, [0u8; 16]);
    for a in attrs {
        p.add_attribute(a);
    }
    p.add_attribute(Attribute::new(80, vec![0u8; 16]).unwrap());
    p.authenticator = *req_auth;
    let mac = hmac_md5(SECRET, &p.encode().unwrap());
    for a in &mut p.attributes {
        if a.attr_type == 80 {
            a.value = mac.to_vec();
        }
    }
    p.authenticator = response_authenticator(&p, req_auth);
    p
}

/// What the two digests of `reply` have to be in answer to `request_auth`.
fn expected(reply: &Packet, request_auth: &[u8; 16]) -> ([u8; 16], [u8; 16]) {
    let covered = message_authenticator_input(reply, *request_auth).unwrap();
    (response_authenticator(reply, request_auth), hmac_md5(SECRET, &covered))
}

fn reply_to(session: &mut RadiusSession, reply: &Packet) -> Result<Event, AuthdError> {
    let (authenticator, mac) = expected(reply, &session.pending().unwrap_or([0; 16]));
    session.handle_reply(reply, &authenticator, &mac)
}

#[test]
fn session_builds_request_echoes_state_and_verifies_reply() {
    let mut s = RadiusSession::new();
    let eap = [2u8, 1, 0, 10, 1, b'a', b'l', b'i', b'c', b'e'];

    // First request: no State yet, identity "alice".
    let req = s
        .build_eap_request(&ctx(), Some(b"alice"), &eap, REQ_AUTH)
        .unwrap();
    assert_eq!(req.code, Code::AccessRequest);
    assert_eq!(req.identifier, 0);
    assert!(req.find_attribute(24).is_none()); // no State on the first request

    // Server challenges with a State.
    let challenge = seal_reply(
        Code::AccessChallenge,
        vec![
            Attribute::new(79, vec![1, 2, 0, 6, 13, 0]).unwrap(),
            Attribute::new(24, b"sess-state".to_vec()).unwrap(),
        ],
        &REQ_AUTH,
    );
    let ev = reply_to(&mut s, &challenge).unwrap();
    assert!(matches!(ev, Event::AccessChallenge { .. }));

    // Next request echoes the State and uses the next Identifier.
    let req2 = s
        .build_eap_request(&ctx(), None, &[2, 2, 0, 6, 13, 0], [0x11; 16])
        .unwrap();
    assert_eq!(req2.identifier, 1);
    assert_eq!(req2.find_attribute(24).unwrap().value, b"sess-state");
}

#[test]
fn session_rejects_forged_reply_and_missing_pending() {
    let mut s = RadiusSession::new();
    // No request outstanding.
    let accept = seal_reply(Code::AccessAccept, vec![], &REQ_AUTH);
    assert!(matches!(
        reply_to(&mut s, &accept),
        Err(AuthdError::NoPendingRequest)
    ));

    // Build a request, then reply sealed with the WRONG authenticator.
    s.build_eap_request(&ctx(), Some(b"x"), &[2, 1, 0, 5, 1], REQ_AUTH)
        .unwrap();
    let forged = seal_reply(Code::AccessAccept, vec![], &[0u8; 16]);
    assert!(matches!(
        reply_to(&mut s, &forged),
        Err(AuthdError::ReplyVerificationFailed)
    ));
}

// ---- Effects against boundaries in memory ----

/// The boundaries: what was sent, asked, programmed and armed. The server seals a
/// valid Access-Accept (VLAN 100) for any request.
#[derive(Default)]
struct World {
    sent: Vec<(MacAddr, Vec<u8>)>,
    requests: Vec<Packet>,
    accounting: Vec<Packet>,
    enforcer: RecordingEnforcer,
    armed: Vec<(MacAddr, TimerKind, u32)>,
    cancelled: Vec<(MacAddr, Option<TimerKind>)>,
}

impl World {
    fn access_request(&mut self, mut request: Packet) -> Packet {
        let authenticator = request.authenticator;
        seal(&mut request, &authenticator);
        self.requests.push(request.clone());
        let group = {
            let mut v = vec![1u8];
            v.extend_from_slice(b"100");
            v
        };
        let attrs = vec![
            Attribute::new(64, vec![1, 0, 0, 13]).unwrap(),
            Attribute::new(65, vec![1, 0, 0, 6]).unwrap(),
            Attribute::new(81, group).unwrap(),
            Attribute::new(79, vec![3, request.identifier, 0, 4]).unwrap(),
        ];
        seal_reply(Code::AccessAccept, attrs, &request.authenticator)
    }

    /// Drive an exchange to its end.
    fn drive(
        &mut self,
        orch: &mut Orchestrator,
        pae: &mut PortPae,
        mut exchange: Exchange,
    ) -> Result<(), AuthdError> {
        let timers = Timers::default();
        while let Some(action) = orch.advance(pae, &mut exchange, &timers, REQ_AUTH)? {
            match action {
                Action::Nothing => {}
                Action::SendEap { mac, eap } => self.sent.push((mac, eap)),
                Action::AccessRequest { mac, request } => {
                    let reply = self.access_request(request);
                    let pending = orch.pending(mac).unwrap();
                    let (authenticator, digest) = expected(&reply, &pending);
                    exchange.follow_up(orch.on_reply(mac, &reply, &authenticator, &digest)?);
                }
                Action::Accounting { request } => self.accounting.push(request),
                Action::Apply { target, auth } => self.enforcer.apply(orch.port(), target, &auth),
                Action::Arm { mac, kind, secs } => self.armed.push((mac, kind, secs)),
                Action::Cancel { mac, kind } => self.cancelled.push((mac, Some(kind))),
                Action::CancelAll { mac } => self.cancelled.push((mac, None)),
            }
        }
        Ok(())
    }

    fn handle_event(
        &mut self,
        orch: &mut Orchestrator,
        pae: &mut PortPae,
        mac: MacAddr,
        event: Event,
    ) -> Result<(), AuthdError> {
        self.drive(orch, pae, Exchange::new(mac, event))
    }
}

#[test]
fn dispatch_set_authorization_calls_enforcer() {
    let mut world = World::default();
    let mut orch = Orchestrator::new("Ethernet1".to_string(), ctx());
    let mut pae = PortPae::new(PaeConfig::default());

    // The port-wide unauthorized of enable() reaches the enforcer.
    let effects = pae.enable();
    world.drive(&mut orch, &mut pae, Exchange::of_effects(effects)).unwrap();
    assert!(world.enforcer.calls().iter().any(|c| matches!(
        c,
        Call::Apply { target: Target::Port, auth: PortAuthorization::Unauthorized, .. }
    )));
}

fn identity_response() -> Event {
    Event::EapFromSupplicant(InboundEap {
        code: EapCode::Response,
        identifier: 1,
        eap_type: Some(EapType::Identity),
        packet: vec![2u8, 1, 0, 10, 1, b'a', b'l', b'i', b'c', b'e'],
    })
}

#[test]
fn full_eap_exchange_authorizes_via_mock_server() {
    let mut world = World::default();
    let mut orch = Orchestrator::new("Ethernet1".to_string(), ctx());
    let mut pae = PortPae::new(PaeConfig::default());

    // Supplicant appears and sends its identity; the server returns Accept.
    world.handle_event(&mut orch, &mut pae, MAC, Event::EapolStart).unwrap();
    world.handle_event(&mut orch, &mut pae, MAC, identity_response()).unwrap();

    // A RADIUS round-trip happened and the port was authorized on VLAN 100.
    assert_eq!(world.requests.len(), 1);
    assert!(world.enforcer.calls().iter().any(|c| matches!(
        c,
        Call::Apply { auth: PortAuthorization::Authorized(a), .. } if a.vlan.as_deref() == Some("100")
    )));
    // Accounting-Start was sent, and a reauth timer armed.
    assert_eq!(world.accounting.len(), 1);
    assert!(world.armed.iter().any(|(_, k, _)| *k == TimerKind::Reauth));
    // The supplicant got the relayed EAP-Success.
    assert!(!world.sent.is_empty());
    assert!(pae.session(MAC).unwrap().is_authorized());

    // What went out is what the supplicant and the configuration say.
    assert_eq!(world.sent[0], (MAC, request_identity(1).to_vec()));
    assert_eq!(world.sent[1], (MAC, vec![3, 0, 0, 4]));
    assert_eq!(world.requests[0].find_attribute(attr::USER_NAME).unwrap().value, b"alice");
    assert_eq!(
        world.requests[0].find_attribute(attr::CALLING_STATION_ID).unwrap().value,
        b"00-11-22-33-44-55"
    );
    assert!(world.armed.contains(&(MAC, TimerKind::Reauth, 3600)));
    assert!(world.cancelled.contains(&(MAC, None)));
    assert_eq!(
        world.accounting[0].find_attribute(attr::ACCT_SESSION_ID).unwrap().value,
        b"Ethernet1-00-11-22-33-44-55-1"
    );
}

#[test]
fn accounting_keeps_its_session_id_and_echoes_class() {
    let mut orch = Orchestrator::new("Ethernet1".to_string(), ctx());
    let timers = Timers::default();
    let start = |mac| DirectedEffect {
        mac: Some(mac),
        effect: Effect::Accounting(AcctTrigger::Start),
    };
    let stop = |mac| DirectedEffect {
        mac: Some(mac),
        effect: Effect::Accounting(AcctTrigger::Stop(TerminateCause::SupplicantLogoff)),
    };
    let other = [0x00, 0x11, 0x22, 0x33, 0x44, 0x56];

    // The server's Class, once accepted, goes into accounting.
    let eap = vec![2, 1, 0, 5, 1];
    let relay = DirectedEffect { mac: Some(MAC), effect: Effect::ToAuthServer { eap } };
    assert!(matches!(
        orch.dispatch(relay, &timers, REQ_AUTH).unwrap_err(),
        AuthdError::Radius(RadiusClientError::InvalidUserName)
    ));
    let eap = vec![2, 1, 0, 6, 13, 0];
    let relay = DirectedEffect { mac: Some(MAC), effect: Effect::ToAuthServer { eap } };
    assert!(matches!(
        orch.dispatch(relay, &timers, REQ_AUTH).unwrap(),
        Action::AccessRequest { mac: MAC, .. }
    ));
    let accept = seal_reply(
        Code::AccessAccept,
        vec![Attribute::new(25, vec![0xde, 0xad]).unwrap()],
        &REQ_AUTH,
    );
    let (authenticator, digest) = expected(&accept, &orch.pending(MAC).unwrap());
    orch.on_reply(MAC, &accept, &authenticator, &digest).unwrap();
    assert_eq!(orch.pending(MAC), None);

    let mut ids = Vec::new();
    for (n, de) in [start(MAC), start(other), stop(MAC)].into_iter().enumerate() {
        match orch.dispatch(de, &timers, REQ_AUTH).unwrap() {
            Action::Accounting { request } => {
                let id = &request.find_attribute(attr::ACCT_SESSION_ID).unwrap().value;
                ids.push(String::from_utf8(id.clone()).unwrap());
                let class = request.find_attribute(attr::CLASS).map(|a| a.value.clone());
                assert_eq!(class, if n == 1 { None } else { Some(vec![0xde, 0xad]) });
                assert_eq!(request.identifier, if n == 2 { 1 } else { 0 });
            }
            other => panic!("expected accounting, got {other:?}"),
        }
    }
    assert_eq!(ids, [
        "Ethernet1-00-11-22-33-44-55-1",
        "Ethernet1-00-11-22-33-44-56-2",
        "Ethernet1-00-11-22-33-44-55-1",
    ]);
}

#[test]
fn session_timeout_is_armed_only_where_granted() {
    let mut orch = Orchestrator::new("Ethernet1".to_string(), ctx());
    let timers = Timers::default();
    let arm = || DirectedEffect {
        mac: Some(MAC),
        effect: Effect::ArmTimer(TimerKind::SessionTimeout),
    };
    assert!(matches!(orch.dispatch(arm(), &timers, REQ_AUTH).unwrap(), Action::Nothing));

    let granted = Authorization { session_timeout: Some(120), ..Authorization::default() };
    let open = DirectedEffect {
        mac: Some(MAC),
        effect: Effect::SetAuthorization(PortAuthorization::Authorized(granted)),
    };
    orch.dispatch(open, &timers, REQ_AUTH).unwrap();
    assert!(matches!(
        orch.dispatch(arm(), &timers, REQ_AUTH).unwrap(),
        Action::Arm { mac: MAC, kind: TimerKind::SessionTimeout, secs: 120 }
    ));
}

#[test]
fn effects_without_a_station_go_nowhere_but_the_dataplane() {
    let mut orch = Orchestrator::new("Ethernet1".to_string(), ctx());
    let timers = Timers::default();
    for effect in [
        Effect::TxEapToSupplicant(vec![1]),
        Effect::ToAuthServer { eap: vec![1] },
        Effect::ArmTimer(TimerKind::Held),
        Effect::CancelTimer(TimerKind::Held),
        Effect::CancelAllTimers,
        Effect::Accounting(AcctTrigger::Start),
    ] {
        let action = orch.dispatch(DirectedEffect { mac: None, effect }, &timers, REQ_AUTH);
        assert!(matches!(action.unwrap(), Action::Nothing));
    }
    let mab = DirectedEffect { mac: None, effect: Effect::StartMab { mac: MAC } };
    match orch.dispatch(mab, &timers, REQ_AUTH).unwrap() {
        Action::AccessRequest { mac, request } => {
            assert_eq!(mac, MAC);
            assert_eq!(request.authenticator, REQ_AUTH);
            assert_eq!(request.find_attribute(attr::SERVICE_TYPE).unwrap().value, [0, 0, 0, 10]);
        }
        other => panic!("expected a request, got {other:?}"),
    }
}

#[test]
fn an_exchange_that_feeds_itself_is_cut_off() {
    let mut orch = Orchestrator::new("Ethernet1".to_string(), ctx());
    let mut pae = PortPae::new(PaeConfig::default());
    let timers = Timers::default();
    let mut exchange = Exchange::new(MAC, Event::EapolStart);
    let mut solicited = 0;
    while let Some(action) = orch.advance(&mut pae, &mut exchange, &timers, REQ_AUTH).unwrap() {
        if let Action::SendEap { .. } = action {
            solicited += 1;
            exchange.follow_up(Event::EapolStart);
        }
    }
    assert_eq!(solicited, 64);
    assert_eq!(MAX_STEPS, 64);
}

// ---- RADIUS session state ----

#[test]
fn replies_are_consumed_once() {
    let mut s = RadiusSession::new();
    s.build_mab_request(&ctx(), REQ_AUTH).unwrap();
    assert_eq!(s.pending(), Some(REQ_AUTH));
    let accept = seal_reply(
        Code::AccessAccept,
        vec![Attribute::new(25, vec![7]).unwrap()],
        &REQ_AUTH,
    );
    assert!(matches!(reply_to(&mut s, &accept).unwrap(), Event::AccessAccept { .. }));
    assert_eq!(s.class(), Some(&[7][..]));
    assert!(matches!(reply_to(&mut s, &accept), Err(AuthdError::NoPendingRequest)));
}

#[test]
fn identifiers_of_requests_and_accounting_count_apart() {
    let mut s = RadiusSession::default();
    for id in 0..=255u8 {
        assert_eq!(s.next_identifier(), id);
    }
    assert_eq!(s.next_identifier(), 0);
    assert_eq!(s.next_accounting_identifier(), 0);
    assert_eq!(s.next_accounting_identifier(), 1);
    assert_eq!(s.next_identifier(), 1);
    let stop = AcctTrigger::Stop(TerminateCause::AdminReset);
    let request = s.build_accounting(&ctx(), 9, stop, "id").unwrap();
    assert_eq!(request.identifier, 9);
    assert_eq!(request.code, Code::AccountingRequest);
}

#[test]
fn unusable_replies_are_errors() {
    let mut s = RadiusSession::new();
    s.build_eap_request(&ctx(), None, &[2, 1, 0, 4], REQ_AUTH).unwrap();
    let challenge = seal_reply(Code::AccessChallenge, vec![], &REQ_AUTH);
    assert!(matches!(
        reply_to(&mut s, &challenge),
        Err(AuthdError::Radius(RadiusClientError::MissingEapMessage))
    ));
}

// ---- Frames in and out ----

#[test]
fn frames_become_events() {
    let frame = |packet_type, body: &[u8]| {
        EapolPdu::new(packet_type, body.to_vec()).encode_frame(PAE_GROUP_ADDR, MAC).unwrap()
    };
    assert_eq!(frame_event(&frame(PacketType::Start, b"")), Some((MAC, Event::EapolStart)));
    assert_eq!(frame_event(&frame(PacketType::Logoff, b"")), Some((MAC, Event::EapolLogoff)));
    let body = [2u8, 1, 0, 10, 1, b'a', b'l', b'i', b'c', b'e'];
    assert_eq!(frame_event(&frame(PacketType::Eap, &body)), Some((MAC, identity_response())));
    // Malformed EAP, other packet types and other frames are no events.
    assert_eq!(frame_event(&frame(PacketType::Eap, &[2, 1, 0])), None);
    assert_eq!(frame_event(&frame(PacketType::Mka, b"")), None);
    assert_eq!(frame_event(&[0; 10]), None);
}

#[test]
fn eap_goes_out_in_an_eapol_frame() {
    let frame = eap_frame(MAC, CALLED, vec![1, 7, 0, 5, 1]).unwrap();
    let mut octets = MAC.to_vec();
    octets.extend_from_slice(&CALLED);
    octets.extend_from_slice(&[0x88, 0x8e, 3, 0, 0, 5, 1, 7, 0, 5, 1]);
    assert_eq!(frame, octets);
    assert!(matches!(
        eap_frame(MAC, CALLED, vec![0; 65536]),
        Err(AuthdError::Frame(PacpError::BodyTooLong { len: 65536 }))
    ));
}

#[test]
fn timer_periods_are_those_of_the_configuration() {
    let t = Timers {
        tx_period: 1,
        held_period: 2,
        reauth_period: 3,
        server_timeout: 4,
        supp_timeout: 5,
    };
    let kinds = [
        (TimerKind::TxPeriod, Some(1)),
        (TimerKind::Held, Some(2)),
        (TimerKind::Reauth, Some(3)),
        (TimerKind::ServerTimeout, Some(4)),
        (TimerKind::SuppTimeout, Some(5)),
        (TimerKind::SessionTimeout, None),
    ];
    for (kind, secs) in kinds {
        assert_eq!(timers::period(&t, kind), secs);
        assert_eq!(timers::duration(&t, kind).map(|d| d.as_secs()), secs.map(u64::from));
    }
}

#[test]
fn every_required_field_has_to_be_there() {
    let valid = AuthdConfig {
        radius: radius_cfg(),
        ports: vec![PortConfig { name: "E1".into(), pae: PaeConfig::default() }],
        io_timeout_secs: 1,
    };
    let mut problems = Vec::new();
    for i in 0..6 {
        let mut cfg = valid.clone();
        match i {
            0 => cfg.radius.server_addr.clear(),
            1 => cfg.radius.server_name.clear(),
            2 => cfg.radius.ca_pem.clear(),
            3 => cfg.radius.client_cert_pem.clear(),
            4 => cfg.radius.client_key_pem.clear(),
            _ => cfg.ports[0].name.clear(),
        }
        match cfg.validate() {
            Err(ConfigError::EmptyField(field)) => problems.push(field),
            other => panic!("expected an empty field, got {other:?}"),
        }
    }
    assert_eq!(problems, [
        "radius.server_addr",
        "radius.server_name",
        "radius.ca_pem",
        "radius.client_cert_pem",
        "radius.client_key_pem",
        "port.name",
    ]);
}

#[test]
fn daemon_errors_read_as_sentences() {
    let texts = [
        AuthdError::from(ConfigError::NoPorts).message(),
        AuthdError::Config(ConfigError::DuplicatePort("E1".into())).message(),
        AuthdError::Config(ConfigError::EmptyField("radius.ca_pem")).message(),
        AuthdError::Config(ConfigError::ZeroTimeout).message(),
        AuthdError::Radius(RadiusClientError::EmptyEapRelay).message(),
        AuthdError::NoPendingRequest.message(),
        AuthdError::ReplyVerificationFailed.message(),
        AuthdError::RadSec(RadSecError::Timeout).message(),
        AuthdError::from(EapolError::FrameTooShort(3)).message(),
        AuthdError::Enforce("no".into()).message(),
        AuthdError::Frame(PacpError::BodyTooLong { len: 65536 }).message(),
    ];
    assert_eq!(texts, [
        "config error: no ports configured",
        "config error: duplicate port \"E1\"",
        "config error: required field radius.ca_pem is empty",
        "config error: io_timeout_secs must be non-zero",
        "RADIUS error: no EAP packet to relay",
        "RADIUS reply with no outstanding request",
        "RADIUS reply failed verification",
        "RadSec error: the server did not answer in time",
        "EAPOL socket error: frame too short to send: 3 octets",
        "enforcement error: no",
        "EAPOL frame error: body length 65536 exceeds the 16-bit length field",
    ]);
}

#[test]
fn copied_configurations_are_equal() {
    let config = AuthdConfig {
        radius: radius_cfg(),
        ports: vec![
            PortConfig { name: "E1".into(), pae: PaeConfig::default() },
            PortConfig {
                name: "E2".into(),
                pae: PaeConfig {
                    mab_enabled: true,
                    guest_vlan: Some("7".into()),
                    max_reauth_req: 5,
                    ..PaeConfig::default()
                },
            },
        ],
        io_timeout_secs: 9,
    };
    assert_eq!(format!("{:?}", config.clone()), format!("{config:?}"));
}
