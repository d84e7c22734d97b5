//! Tests for RADIUS request building, reply parsing and verification, accounting,
//! State echoing and User-Name sanitization, with the digests of a real peer.


use authenticator::pae::{AcctTrigger, Authorization, Event, TerminateCause};
use authenticator::radius::attr;
use authenticator::radius::{Attribute, Code, Packet, PacketError};
use authenticator::radius_client::eap_message::{fragment_into, reassemble};
use authenticator::radius_client::request::{
    message_authenticator_input, seal_message_authenticator,
};
use authenticator::radius_client::sanitize::user_name;
use authenticator::radius_client::{
    RadiusClientError, RequestContext, access_request_eap, access_request_mab, accounting_request,
    extract_state, parse_authorization, parse_reply, verify_reply,
};

const SECRET: &[u8] = b"radsec";
const REQ_AUTH: [u8; 16] = [0xA5; 16];
const CALLING: [u8; 6] = [0x00, 0x11, 0x22, 0x33, 0x44, 0x55];
const CALLED: [u8; 6] = [0x02, 0x00, 0x00, 0x00, 0x00, 0x01];

fn ctx() -> RequestContext {
    RequestContext {
        nas_ip: Some([10, 0, 0, 1]),
        nas_identifier: "tor-sw-1".to_string(),
        nas_port_id: "Ethernet12".to_string(),
        nas_port: Some(12),
        calling_station: CALLING,
        called_station: CALLED,
    }
}

fn find_string(p: &Packet, ty: u8) -> String {
    String::from_utf8(p.find_attribute(ty).unwrap().value.clone()).unwrap()
}

// ---- Keyed digests as a RADIUS peer computes them (RFC 1321, RFC 2104) ----

const SHIFTS: [[u32; 4]; 4] =
    [[7, 12, 17, 22], [5, 9, 14, 20], [4, 11, 16, 23], [6, 10, 15, 21]];

fn md5(input: &[u8]) -> [u8; 16] {
    let mut data = input.to_vec();
    data.push(0x80);
    while data.len() % 64 != 56 {
        data.push(0);
    }
    data.extend_from_slice(&((input.len() as u64) * 8).to_le_bytes());
    let mut h: [u32; 4] = [0x67452301, 0xefcdab89, 0x98badcfe, 0x10325476];
    for block in data.chunks(64) {
        let m: Vec<u32> =
            block.chunks(4).map(|w| u32::from_le_bytes([w[0], w[1], w[2], w[3]])).collect();
        let [mut a, mut b, mut c, mut d] = h;
        for i in 0..64usize {
            let (f, g) = match i / 16 {
                0 => ((b & c) | (!b & d), i),
                1 => ((d & b) | (!d & c), (5 * i + 1) % 16),
                2 => (b ^ c ^ d, (3 * i + 5) % 16),
                _ => (c ^ (b | !d), (7 * i) % 16),
            };
            let k = (((i + 1) as f64).sin().abs() * 4294967296.0) as u32;
            let sum = a.wrapping_add(f).wrapping_add(k).wrapping_add(m[g]);
            (a, d, c) = (d, c, b);
            b = b.wrapping_add(sum.rotate_left(SHIFTS[i / 16][i % 4]));
        }
        h = [
            h[0].wrapping_add(a),
            h[1].wrapping_add(b),
            h[2].wrapping_add(c),
            h[3].wrapping_add(d),
        ];
    }
    let mut out = [0u8; 16];
    for (i, word) in h.iter().enumerate() {
        out[4 * i..4 * i + 4].copy_from_slice(&word.to_le_bytes());
    }
    out
}

fn hmac_md5(key: &[u8], message: &[u8]) -> [u8; 16] {
    let pad = |mask: u8| -> Vec<u8> {
        (0..64).map(|i| key.get(i).copied().unwrap_or(0) ^ mask).collect()
    };
    let mut inner = pad(0x36);
    inner.extend_from_slice(message);
    let mut outer = pad(0x5c);
    outer.extend_from_slice(&md5(&inner));
    md5(&outer)
}

/// The Response Authenticator of `reply` to a request that bore `request_auth`.
fn response_authenticator(reply: &Packet, request_auth: &[u8; 16]) -> [u8; 16] {
    let mut covered = reply.clone();
    covered.authenticator = *request_auth;
    let mut octets = covered.encode().unwrap();
    octets.extend_from_slice(SECRET);
    md5(&octets)
}

/// Fill in the `Message-Authenticator` of a packet exchanged under `request_auth`.
fn seal(packet: &mut Packet, request_auth: &[u8; 16]) {
    let covered = message_authenticator_input(packet, *request_auth).unwrap();
    seal_message_authenticator(packet, hmac_md5(SECRET, &covered));
}

/// Whether `reply` is one that the server made in answer to `request_auth`.
fn verifies(reply: &Packet, request_auth: &[u8; 16]) -> bool {
    let mac = hmac_md5(SECRET, &message_authenticator_input(reply, *request_auth).unwrap());
    verify_reply(reply, &response_authenticator(reply, request_auth), &mac)
}

#[test]
fn digests_match_published_vectors() {
    assert_eq!(
        md5(b"abc"),
        [
            0x90, 0x01, 0x50, 0x98, 0x3c, 0xd2, 0x4f, 0xb0, 0xd6, 0x96, 0x3f, 0x7d, 0x28, 0xe1,
            0x7f, 0x72
        ]
    );
    assert_eq!(
        hmac_md5(b"Jefe", b"what do ya want for nothing?"),
        [
            0x75, 0x0c, 0x78, 0x3e, 0x6a, 0xb0, 0xb5, 0x03, 0xea, 0xa8, 0x6e, 0x31, 0x0a, 0x5d,
            0xb7, 0x38
        ]
    );
}

// ---- Access-Request (EAP) ----

#[test]
fn access_request_carries_nas_attrs_username_and_eap() {
    let eap = [2u8, 1, 0, 10, 1, b'a', b'l', b'i', b'c', b'e'];
    let pkt = access_request_eap(&ctx(), 7, REQ_AUTH, Some(b"alice"), None, &eap).unwrap();

    assert_eq!(pkt.code, Code::AccessRequest);
    assert_eq!(find_string(&pkt, attr::USER_NAME), "alice");
    assert_eq!(
        find_string(&pkt, attr::CALLING_STATION_ID),
        "00-11-22-33-44-55"
    );
    assert_eq!(find_string(&pkt, attr::NAS_IDENTIFIER), "tor-sw-1");
    let npt = pkt
        .find_attribute(attr::NAS_PORT_TYPE)
        .unwrap();
    assert_eq!(npt.value, 15u32.to_be_bytes());
    assert_eq!(pkt.find_attribute(79).unwrap().value, eap);
    // No challenge yet → no State echoed.
    assert!(pkt.find_attribute(24).is_none());
}

#[test]
fn access_request_echoes_state_from_challenge() {
    let eap = [2u8, 5, 0, 6, 13, 0x00];
    let state = b"opaque-server-state";
    let pkt = access_request_eap(&ctx(), 5, REQ_AUTH, None, Some(state), &eap).unwrap();
    // The State attribute (24) is echoed verbatim so the server finds the
    // in-flight EAP session.
    assert_eq!(pkt.find_attribute(24).unwrap().value, state);
}

#[test]
fn empty_eap_relay_is_rejected() {
    assert!(matches!(
        access_request_eap(&ctx(), 1, REQ_AUTH, None, None, &[]),
        Err(RadiusClientError::EmptyEapRelay)
    ));
}

#[test]
fn access_request_message_authenticator_is_valid() {
    let eap = [2u8, 1, 0, 5, 1];
    let mut pkt = access_request_eap(&ctx(), 1, REQ_AUTH, Some(b"x"), None, &eap).unwrap();
    seal(&mut pkt, &REQ_AUTH);
    seal(&mut pkt, &REQ_AUTH);

    let mut zeroed = pkt.clone();
    let stored = zeroed
        .attributes
        .iter()
        .find(|a| a.attr_type == 80)
        .unwrap()
        .value
        .clone();
    // Exactly one Message-Authenticator (seal is idempotent).
    assert_eq!(
        zeroed
            .attributes
            .iter()
            .filter(|a| a.attr_type == 80)
            .count(),
        1
    );
    for a in &mut zeroed.attributes {
        if a.attr_type == 80 {
            a.value = vec![0u8; 16];
        }
    }
    let expected = hmac_md5(SECRET, &zeroed.encode().unwrap());
    assert_eq!(stored, expected.to_vec());
}

#[test]
fn long_eap_is_fragmented_then_reassembles_verbatim() {
    let eap: Vec<u8> = (0..600u32).map(|i| (i % 251) as u8).collect();
    let pkt = access_request_eap(&ctx(), 3, REQ_AUTH, None, None, &eap).unwrap();

    let frags = pkt.find_all_attributes(79);
    assert!(frags.len() >= 3);
    assert!(frags.iter().all(|a| a.value.len() <= 253));
    let reassembled: Vec<u8> = frags.iter().flat_map(|a| a.value.clone()).collect();
    assert_eq!(reassembled, eap);
}

// ---- MAB ----

#[test]
fn mab_request_uses_mac_username_and_call_check() {
    let pkt = access_request_mab(&ctx(), 9, REQ_AUTH).unwrap();
    assert_eq!(
        find_string(&pkt, attr::USER_NAME),
        "00-11-22-33-44-55"
    );
    let st = pkt
        .find_attribute(attr::SERVICE_TYPE)
        .unwrap();
    assert_eq!(st.value, 10u32.to_be_bytes());
    assert!(pkt.find_attribute(79).is_none());
}

// ---- User-Name sanitization (fail closed) ----

#[test]
fn identity_with_control_or_separator_chars_is_rejected() {
    let eap = [2u8, 1, 0, 5, 1];
    let line_sep = "a\u{2028}b";
    for bad in [
        &b"alice\n"[..],
        &b"a\0b"[..],
        &b"x\r\nFilter-Id"[..],
        line_sep.as_bytes(),
    ] {
        let err = access_request_eap(&ctx(), 1, REQ_AUTH, Some(bad), None, &eap);
        assert!(matches!(err, Err(RadiusClientError::InvalidUserName)));
    }
}

#[test]
fn empty_or_oversize_identity_is_rejected() {
    let eap = [2u8, 1, 0, 5, 1];
    assert!(matches!(
        access_request_eap(&ctx(), 1, REQ_AUTH, Some(b""), None, &eap),
        Err(RadiusClientError::InvalidUserName)
    ));
    let huge = vec![b'a'; 254];
    assert!(matches!(
        access_request_eap(&ctx(), 1, REQ_AUTH, Some(&huge), None, &eap),
        Err(RadiusClientError::InvalidUserName)
    ));
}

// ---- Reply fixtures: seal like the server (M-A then Response Authenticator) ----

fn seal_reply(code: Code, attrs: Vec<Attribute>) -> Packet {
    let mut p = Packet::new(code, 7, [0u8; 16]);
    for a in attrs {
        p.add_attribute(a);
    }
    // Message-Authenticator is computed with the Request Authenticator in the
    // authenticator field (RFC 3579 §3.2).
    p.add_attribute(Attribute::new(80, vec![0u8; 16]).unwrap());
    p.authenticator = REQ_AUTH;
    let mac = hmac_md5(SECRET, &p.encode().unwrap());
    for a in &mut p.attributes {
        if a.attr_type == 80 {
            a.value = mac.to_vec();
        }
    }
    p.authenticator = response_authenticator(&p, &REQ_AUTH);
    p
}

/// A valid RFC 3580 VLAN group: Tunnel-Type=13, Tunnel-Medium-Type=6, and the
/// Tunnel-Private-Group-ID (tagged or untagged).
fn vlan_group(vlan: &str, tagged: bool) -> Vec<Attribute> {
    let group = if tagged {
        let mut v = vec![1u8];
        v.extend_from_slice(vlan.as_bytes());
        v
    } else {
        vlan.as_bytes().to_vec()
    };
    vec![
        Attribute::new(64, vec![1, 0, 0, 13]).unwrap(),
        Attribute::new(65, vec![1, 0, 0, 6]).unwrap(),
        Attribute::new(81, group).unwrap(),
    ]
}

#[test]
fn parse_access_accept_extracts_authorization() {
    let mut attrs = vlan_group("100", true);
    attrs.push(Attribute::string(attr::FILTER_ID, "acl-staff").unwrap());
    attrs.push(Attribute::integer(attr::SESSION_TIMEOUT, 3600).unwrap());
    attrs.push(Attribute::new(attr::CLASS, vec![0xDE, 0xAD]).unwrap());
    attrs.push(Attribute::new(79, vec![3, 7, 0, 4]).unwrap()); // EAP-Success
    let reply = seal_reply(Code::AccessAccept, attrs);

    assert!(verifies(&reply, &REQ_AUTH));
    match parse_reply(&reply).unwrap() {
        Event::AccessAccept { authorization, eap } => {
            assert_eq!(authorization.vlan.as_deref(), Some("100"));
            assert_eq!(authorization.filter_id.as_deref(), Some("acl-staff"));
            assert_eq!(authorization.session_timeout, Some(3600));
            assert_eq!(authorization.class.as_deref(), Some(&[0xDE, 0xAD][..]));
            assert_eq!(eap.as_deref(), Some(&[3, 7, 0, 4][..]));
        }
        other => panic!("expected AccessAccept, got {other:?}"),
    }
}

#[test]
fn challenge_verifies_and_state_is_extracted() {
    let reply = seal_reply(
        Code::AccessChallenge,
        vec![
            Attribute::new(79, vec![1, 8, 0, 6, 13, 0]).unwrap(),
            Attribute::new(24, b"sess-7".to_vec()).unwrap(),
        ],
    );
    assert!(verifies(&reply, &REQ_AUTH));
    assert_eq!(extract_state(&reply), Some(b"sess-7".to_vec()));
    assert!(matches!(
        parse_reply(&reply).unwrap(),
        Event::AccessChallenge { eap } if eap == vec![1, 8, 0, 6, 13, 0]
    ));
}

#[test]
fn reject_parses_with_no_eap() {
    let rej = seal_reply(Code::AccessReject, vec![]);
    assert!(verifies(&rej, &REQ_AUTH));
    assert!(matches!(
        parse_reply(&rej).unwrap(),
        Event::AccessReject { eap: None }
    ));
}

#[test]
fn challenge_without_eap_is_rejected() {
    let chal = seal_reply(Code::AccessChallenge, vec![]);
    assert!(matches!(
        parse_reply(&chal),
        Err(RadiusClientError::MissingEapMessage)
    ));
}

#[test]
fn reply_with_eap_but_no_message_authenticator_fails_verification() {
    // Access-Accept carrying EAP but WITHOUT a Message-Authenticator, with only a
    // valid Response Authenticator — must fail (RFC 3579 §3.2).
    let mut p = Packet::new(Code::AccessAccept, 7, [0u8; 16]);
    p.add_attribute(Attribute::new(79, vec![3, 7, 0, 4]).unwrap());
    p.authenticator = response_authenticator(&p, &REQ_AUTH);
    assert!(!verifies(&p, &REQ_AUTH));
}

#[test]
fn forged_reply_fails_verification() {
    let reply = seal_reply(Code::AccessAccept, vlan_group("100", true));
    let wrong = [0u8; 16];
    assert!(!verifies(&reply, &wrong));
}

#[test]
fn vlan_without_tunnel_type_is_rejected_fail_closed() {
    // A Tunnel-Private-Group-ID present without Tunnel-Type/Medium-Type.
    let group = {
        let mut v = vec![1u8];
        v.extend_from_slice(b"100");
        v
    };
    let reply = seal_reply(Code::AccessAccept, vec![Attribute::new(81, group).unwrap()]);
    assert!(matches!(
        parse_reply(&reply),
        Err(RadiusClientError::MalformedVlanAssignment)
    ));
}

#[test]
fn untagged_tunnel_group_is_parsed() {
    // First octet >= 0x20 → no tag; whole value is the VLAN id.
    let reply = seal_reply(Code::AccessAccept, vlan_group("200", false));
    match parse_reply(&reply).unwrap() {
        Event::AccessAccept { authorization, .. } => {
            assert_eq!(authorization.vlan.as_deref(), Some("200"));
        }
        other => panic!("expected AccessAccept, got {other:?}"),
    }
}

// ---- Accounting ----

#[test]
fn accounting_start_and_stop_round_trip() {
    let start = accounting_request(&ctx(), 1, AcctTrigger::Start, "sess-42", None).unwrap();
    assert_eq!(start.code, Code::AccountingRequest);
    let st = start
        .find_attribute(attr::ACCT_STATUS_TYPE)
        .unwrap();
    assert_eq!(st.value, 1u32.to_be_bytes());
    assert_eq!(find_string(&start, attr::ACCT_SESSION_ID), "sess-42");

    let mut stop = accounting_request(
        &ctx(),
        2,
        AcctTrigger::Stop(TerminateCause::SupplicantLogoff),
        "sess-42",
        Some(&[0xDE, 0xAD]),
    )
    .unwrap();
    let st = stop
        .find_attribute(attr::ACCT_STATUS_TYPE)
        .unwrap();
    assert_eq!(st.value, 2u32.to_be_bytes());
    let tc = stop
        .find_attribute(attr::ACCT_TERMINATE_CAUSE)
        .unwrap();
    assert_eq!(tc.value, 1u32.to_be_bytes()); // User-Request
    assert_eq!(
        stop.find_attribute(attr::CLASS)
            .unwrap()
            .value,
        vec![0xDE, 0xAD]
    );
    let mut covered = stop.encode().unwrap();
    covered.extend_from_slice(SECRET);
    stop.authenticator = md5(&covered);
    assert_ne!(stop.authenticator, [0u8; 16]);
    assert_eq!(Packet::decode(&stop.encode().unwrap()).unwrap(), stop);
}

#[test]
fn terminate_causes_have_their_numbers() {
    for (cause, number) in [
        (TerminateCause::SupplicantLogoff, 1u32),
        (TerminateCause::PortLinkDown, 2),
        (TerminateCause::SessionTimeout, 5),
        (TerminateCause::AdminReset, 6),
        (TerminateCause::ReauthFailure, 10),
    ] {
        let stop = accounting_request(&ctx(), 2, AcctTrigger::Stop(cause), "s", None).unwrap();
        let value = &stop.find_attribute(attr::ACCT_TERMINATE_CAUSE).unwrap().value;
        assert_eq!(*value, number.to_be_bytes());
        assert!(stop.find_attribute(attr::CLASS).is_none());
    }
    let start = accounting_request(&ctx(), 2, AcctTrigger::Start, "s", None).unwrap();
    assert!(start.find_attribute(attr::ACCT_TERMINATE_CAUSE).is_none());
}

// ---- The wire format ----

#[test]
fn packet_octets_on_the_wire() {
    let mut p = Packet::new(Code::AccessRequest, 7, [0x11; 16]);
    p.add_attribute(Attribute::string(1, "bob").unwrap());
    p.add_attribute(Attribute::integer(6, 2).unwrap());
    p.add_attribute(Attribute::ipv4(4, [10, 0, 0, 1]).unwrap());
    let mut expected = vec![1, 7, 0, 37];
    expected.extend_from_slice(&[0x11; 16]);
    expected.extend_from_slice(&[1, 5, b'b', b'o', b'b']);
    expected.extend_from_slice(&[6, 6, 0, 0, 0, 2]);
    expected.extend_from_slice(&[4, 6, 10, 0, 0, 1]);
    assert_eq!(p.encode().unwrap(), expected);
    assert_eq!(Packet::decode(&expected).unwrap(), p);
    // Octets past the Length field are padding.
    expected.push(0xff);
    assert_eq!(Packet::decode(&expected).unwrap(), p);
}

#[test]
fn malformed_packets_are_refused() {
    assert_eq!(Packet::decode(&[1, 2, 0]), Err(PacketError::TruncatedHeader(3)));

    let mut short = Packet::new(Code::AccessReject, 1, [0; 16]).encode().unwrap();
    short[3] = 19;
    assert_eq!(Packet::decode(&short), Err(PacketError::BadLength(19)));
    short[3] = 21;
    assert_eq!(
        Packet::decode(&short),
        Err(PacketError::TruncatedPacket { declared: 21, available: 20 })
    );
    let mut long = vec![0u8; 4097];
    long[2] = 0x10;
    long[3] = 0x01;
    assert_eq!(Packet::decode(&long), Err(PacketError::BadLength(4097)));

    // An attribute shorter than its own header, and one that runs past the end.
    let mut p = Packet::new(Code::AccessReject, 1, [0; 16]);
    p.add_attribute(Attribute::new(24, vec![9]).unwrap());
    let mut octets = p.encode().unwrap();
    octets[21] = 1;
    assert_eq!(Packet::decode(&octets), Err(PacketError::BadAttribute));
    octets[21] = 4;
    assert_eq!(Packet::decode(&octets), Err(PacketError::BadAttribute));
}

#[test]
fn attributes_and_packets_have_a_largest_size() {
    assert!(Attribute::new(24, vec![0; 253]).is_ok());
    assert_eq!(Attribute::new(24, vec![0; 254]), Err(PacketError::AttributeTooLong(254)));
    assert_eq!(
        Attribute::string(1, &"x".repeat(300)),
        Err(PacketError::AttributeTooLong(300))
    );
    let mut p = Packet::new(Code::AccessRequest, 1, [0; 16]);
    for _ in 0..16 {
        p.add_attribute(Attribute::new(79, vec![0; 252]).unwrap());
    }
    p.add_attribute(Attribute::new(79, vec![0; 10]).unwrap());
    assert_eq!(p.encode().unwrap().len(), 4096);
    p.add_attribute(Attribute::new(79, vec![]).unwrap());
    assert_eq!(p.encode(), Err(PacketError::PacketTooLong));
}

#[test]
fn codes_round_trip_their_octets() {
    for octet in [1u8, 2, 3, 4, 5, 11, 40] {
        assert_eq!(Code::from_u8(octet).as_u8(), octet);
    }
    assert_eq!(Code::from_u8(11), Code::AccessChallenge);
    assert_eq!(Code::from_u8(40), Code::Other(40));
}

#[test]
fn oversize_relay_is_refused_whole() {
    assert_eq!(
        access_request_eap(&ctx(), 1, REQ_AUTH, None, None, &[2; 5000]),
        Err(RadiusClientError::Proto(PacketError::PacketTooLong))
    );
    assert_eq!(
        access_request_eap(&ctx(), 1, REQ_AUTH, None, Some(&[7; 254]), &[2, 1, 0, 4]),
        Err(RadiusClientError::Proto(PacketError::AttributeTooLong(254)))
    );
    let mut wordy = ctx();
    wordy.nas_identifier = "n".repeat(254);
    assert_eq!(
        access_request_mab(&wordy, 1, REQ_AUTH),
        Err(RadiusClientError::Proto(PacketError::AttributeTooLong(254)))
    );
    assert_eq!(
        accounting_request(&ctx(), 1, AcctTrigger::Start, &"s".repeat(254), None),
        Err(RadiusClientError::Proto(PacketError::AttributeTooLong(254)))
    );
}

#[test]
fn nas_attributes_stand_in_order() {
    let mut p = Packet::new(Code::AccessRequest, 1, REQ_AUTH);
    ctx().append_nas_attributes(&mut p).unwrap();
    let found: Vec<(u8, Vec<u8>)> =
        p.attributes.iter().map(|a| (a.attr_type, a.value.clone())).collect();
    let text = |s: &str| s.as_bytes().to_vec();
    assert!(found.contains(&(4, vec![10, 0, 0, 1])));
    assert!(found.contains(&(5, vec![0, 0, 0, 12])));
    assert!(found.contains(&(30, text("02-00-00-00-00-01"))));
    assert!(found.contains(&(31, text("00-11-22-33-44-55"))));
    assert!(found.contains(&(32, text("tor-sw-1"))));
    assert!(found.contains(&(61, vec![0, 0, 0, 15])));
    assert!(found.contains(&(87, text("Ethernet12"))));
    assert_eq!(found.len(), 7);

    let bare = RequestContext { nas_ip: None, nas_port: None, ..ctx() };
    let mut p = Packet::new(Code::AccessRequest, 1, REQ_AUTH);
    bare.append_nas_attributes(&mut p).unwrap();
    assert_eq!(p.attributes.len(), 5);
    assert!(p.find_attribute(4).is_none());
    assert!(p.find_attribute(5).is_none());
}

#[test]
fn fragments_split_at_the_largest_value() {
    for (len, sizes) in [
        (0usize, vec![]),
        (1, vec![1]),
        (253, vec![253]),
        (254, vec![253, 1]),
        (600, vec![253, 253, 94]),
    ] {
        let eap: Vec<u8> = (0..len).map(|i| i as u8).collect();
        let mut p = Packet::new(Code::AccessRequest, 1, REQ_AUTH);
        fragment_into(&mut p, &eap).unwrap();
        let found: Vec<usize> = p.attributes.iter().map(|a| a.value.len()).collect();
        assert_eq!(found, sizes);
        assert_eq!(reassemble(&p), eap);
    }
}

#[test]
fn user_names_are_text_without_controls() {
    assert_eq!(user_name("caf\u{e9}".as_bytes()).unwrap(), "caf\u{e9}");
    assert_eq!(user_name(&[b'a'; 253]).unwrap().len(), 253);
    for bad in [&[0xffu8, 0xfe][..], &[b'a', 0x7f][..], "a\u{2029}".as_bytes(), "\u{85}".as_bytes()] {
        assert_eq!(user_name(bad), Err(RadiusClientError::InvalidUserName));
    }
}

// ---- Replies ----

#[test]
fn tampering_with_a_reply_breaks_it() {
    let reply = seal_reply(
        Code::AccessChallenge,
        vec![Attribute::new(79, vec![1, 8, 0, 6, 13, 0]).unwrap()],
    );
    assert!(verifies(&reply, &REQ_AUTH));
    let mut tampered = reply.clone();
    tampered.attributes[0].value[5] = 1;
    assert!(!verifies(&tampered, &REQ_AUTH));
    let mut tampered = reply.clone();
    tampered.identifier = 8;
    assert!(!verifies(&tampered, &REQ_AUTH));
    // A Message-Authenticator that is wrong fails though the Response
    // Authenticator covers it.
    let mut tampered = reply.clone();
    seal_message_authenticator(&mut tampered, [9; 16]);
    tampered.authenticator = response_authenticator(&tampered, &REQ_AUTH);
    assert!(!verifies(&tampered, &REQ_AUTH));
}

#[test]
fn reply_codes_off_the_path_are_errors() {
    for code in [Code::AccessRequest, Code::AccountingResponse, Code::Other(43)] {
        let reply = Packet::new(code, 1, REQ_AUTH);
        assert_eq!(
            parse_reply(&reply),
            Err(RadiusClientError::UnexpectedReplyCode(code.as_u8()))
        );
    }
}

#[test]
fn vlan_groups_of_another_kind_are_refused() {
    let mut attrs = vlan_group("100", true);
    attrs[0] = Attribute::new(64, vec![1, 0, 0, 3]).unwrap();
    let reply = seal_reply(Code::AccessAccept, attrs);
    assert_eq!(parse_authorization(&reply), Err(RadiusClientError::MalformedVlanAssignment));

    let mut attrs = vlan_group("100", true);
    attrs[1] = Attribute::new(65, vec![1, 0, 0]).unwrap();
    let reply = seal_reply(Code::AccessAccept, attrs);
    assert_eq!(parse_authorization(&reply), Err(RadiusClientError::MalformedVlanAssignment));
}

#[test]
fn accept_without_attributes_authorizes_without_a_vlan() {
    let reply = seal_reply(Code::AccessAccept, vec![]);
    assert_eq!(parse_authorization(&reply).unwrap(), Authorization::default());
    assert_eq!(
        parse_reply(&reply).unwrap(),
        Event::AccessAccept { authorization: Authorization::default(), eap: None }
    );
}

#[test]
fn filter_ids_that_are_not_text_are_read_lossily() {
    let reply = seal_reply(
        Code::AccessAccept,
        vec![
            Attribute::new(11, vec![b'a', 0xff, b'b']).unwrap(),
            Attribute::new(27, vec![0, 1]).unwrap(),
        ],
    );
    let authorization = parse_authorization(&reply).unwrap();
    assert_eq!(authorization.filter_id.as_deref(), Some("a\u{fffd}b"));
    // A Session-Timeout that is not four octets is none.
    assert_eq!(authorization.session_timeout, None);
}

#[test]
fn radius_errors_read_as_sentences() {
    let texts = [
        RadiusClientError::Proto(PacketError::AttributeTooLong(254)).message(),
        RadiusClientError::Proto(PacketError::PacketTooLong).message(),
        RadiusClientError::Proto(PacketError::TruncatedHeader(3)).message(),
        RadiusClientError::Proto(PacketError::BadLength(19)).message(),
        RadiusClientError::Proto(PacketError::TruncatedPacket { declared: 21, available: 20 })
            .message(),
        RadiusClientError::Proto(PacketError::BadAttribute).message(),
        RadiusClientError::InvalidUserName.message(),
        RadiusClientError::EmptyEapRelay.message(),
        RadiusClientError::UnexpectedReplyCode(43).message(),
        RadiusClientError::MissingEapMessage.message(),
        RadiusClientError::MalformedVlanAssignment.message(),
    ];
    assert_eq!(
        texts,
        [
            "RADIUS codec error: attribute value of 254 octet(s) does not fit",
            "RADIUS codec error: packet exceeds 4096 octets",
            "RADIUS codec error: truncated packet header: 3 octet(s) available, need 20",
            "RADIUS codec error: packet length field 19 outside 20..=4096",
            "RADIUS codec error: truncated packet: declared 21, available 20",
            "RADIUS codec error: attributes do not fill the packet",
            "EAP identity is not a valid User-Name (empty/long/control chars)",
            "no EAP packet to relay",
            "unexpected RADIUS reply code 43",
            "Access-Challenge carried no EAP-Message",
            "VLAN assignment is not of type VLAN on medium 802",
        ]
    );
}
