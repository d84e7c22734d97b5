//! Tests for the locked crypto policy, the client configuration built under it,
//! and the framing of RADIUS packets on a byte stream.

use authenticator::kat::from_hex;
use authenticator::radius::{Attribute, Code, Packet, PacketError};
use authenticator::radsec::client::{RADSEC_PORT, match_reply};
use authenticator::radsec::framing::{self, MAX_RADIUS_LEN, MIN_RADIUS_LEN};
use authenticator::radsec::tls::{client_config_when, server_name};
use authenticator::radsec::{RadSecError, client_config, fips};
use rustls::crypto::aws_lc_rs;
use rustls::{CipherSuite, NamedGroup};
use std::io::Read;

// ---- Crypto policy ----

#[test]
fn provider_offers_only_mlkem1024_and_aes256() {
    let p = fips::provider();
    assert_eq!(p.kx_groups.len(), 1, "exactly one key-exchange group");
    assert_eq!(p.kx_groups[0].name(), NamedGroup::MLKEM1024);
    assert_eq!(p.cipher_suites.len(), 1, "exactly one cipher suite");
    assert_eq!(p.cipher_suites[0].suite(), CipherSuite::TLS13_AES_256_GCM_SHA384);
    // The policy assertion accepts exactly this provider.
    assert!(fips::assert_policy(&p).is_ok());
}

#[test]
fn assert_policy_rejects_a_widened_provider() {
    // A provider that also offers X25519 (classical) must be rejected.
    let mut p = fips::provider();
    p.kx_groups.push(aws_lc_rs::kx_group::X25519);
    assert!(fips::assert_policy(&p).is_err());

    // Adding AES-128 must also be rejected.
    let mut p = fips::provider();
    p.cipher_suites.push(aws_lc_rs::cipher_suite::TLS13_AES_128_GCM_SHA256);
    assert!(fips::assert_policy(&p).is_err());
}

#[test]
fn assert_fips_requires_the_fips_module() {
    // The module here is not FIPS-validated, so the fail-closed check must reject
    // the provider (the policy is still correct).
    let p = fips::provider();
    assert!(matches!(fips::assert_fips(&p), Err(RadSecError::NotFips)));
}

#[test]
fn client_config_fails_closed_without_fips_module() {
    // The whole transport refuses to build a config off the FIPS boundary: the
    // check runs before any PEM is parsed.
    assert!(matches!(client_config(b"", b"", b""), Err(RadSecError::NotFips)));
}

#[test]
fn policy_numbers_are_those_of_the_suite_and_group() {
    assert_eq!(u16::from(NamedGroup::MLKEM1024), fips::MLKEM1024);
    assert_eq!(u16::from(CipherSuite::TLS13_AES_256_GCM_SHA384), fips::AES_256_GCM_SHA384);
    assert!(fips::check_policy(&[0x0202], &[0x1302]).is_ok());
    for (groups, suites) in [
        (vec![], vec![0x1302]),
        (vec![0x0202], vec![]),
        (vec![0x001d], vec![0x1302]),
        (vec![0x0202], vec![0x1301]),
        (vec![0x0202, 0x0202], vec![0x1302]),
    ] {
        assert!(matches!(
            fips::check_policy(&groups, &suites),
            Err(RadSecError::CryptoPolicyViolation)
        ));
    }
}

#[test]
fn validated_module_still_has_to_offer_the_policy() {
    let p = fips::provider();
    assert!(fips::check_fips(true, &p).is_ok());
    assert!(matches!(fips::check_fips(false, &p), Err(RadSecError::NotFips)));
    assert!(matches!(
        fips::check_fips(true, &aws_lc_rs::default_provider()),
        Err(RadSecError::CryptoPolicyViolation)
    ));
}

// ---- Client configuration ----

/// A self-signed P-256 certificate.
const CERT_DER: &str = "308201893082012fa00302010202147f132cf2986645da4932c0d8b63b4a3ba04f2e17300a06082a \
    8648ce3d04030230193117301506035504030c0e7261646975732e6578616d706c653020170d3236 \
    313131363135353830315a180f32313236313032333135353830315a30193117301506035504030c \
    0e7261646975732e6578616d706c653059301306072a8648ce3d020106082a8648ce3d0301070342 \
    0004d5a5cad4dc7c89ec935cdf63385d4bed2aad9cf49a18cfba2cdc6ff0b1998e1dc76f434bf036 \
    f9156c6f21859013bd3bb30d19d9f888acd862963b252cdaa631a3533051301d0603551d0e041604 \
    1471231e96f2bcc6dbb565dcf573d26aee18af1f24301f0603551d2304183016801471231e96f2bc \
    c6dbb565dcf573d26aee18af1f24300f0603551d130101ff040530030101ff300a06082a8648ce3d \
    040302034800304502210092a50f932b868047df269fb0f072d2e82a26e12d6b00ad9cc6e2da5240 \
    2f2a8f0220731a2a836e38dfc2700e07ef2c29ff3a375a2f68cca5102f891981d886816505";

/// Its key, and the key of another.
const KEY_DER: &str = "307702010104202e237569fff441f783f3007321dff3785dbcda6cb75db0724d2ebda55ada72e3a0 \
    0a06082a8648ce3d030107a14403420004d5a5cad4dc7c89ec935cdf63385d4bed2aad9cf49a18cf \
    ba2cdc6ff0b1998e1dc76f434bf036f9156c6f21859013bd3bb30d19d9f888acd862963b252cdaa6 \
    31";
const OTHER_KEY_DER: &str = "307702010104208bca01dad71028fb14d621a1780e0dab098242c1fd5f8117838726c5749c40f2a0 \
    0a06082a8648ce3d030107a144034200044508dab7725a8ad942fa23e7ab35ceedc1e8ed978310b6 \
    26f2146b19ad4b0a065f2e278539b5dd5eb40425c5274fb3f02ead28cbdaa9fd7ecf8df3b493f6f7 \
    55";

fn base64(octets: &[u8]) -> String {
    let alphabet = b"ABCDEFGHIJKLMNOPQRSTUVWXYZabcdefghijklmnopqrstuvwxyz0123456789+/";
    let mut out = String::new();
    for chunk in octets.chunks(3) {
        let mut bits = 0u32;
        for i in 0..3 {
            bits = (bits << 8) | u32::from(chunk.get(i).copied().unwrap_or(0));
        }
        for i in 0..4 {
            if i <= chunk.len() {
                let index = (bits >> (18 - 6 * i)) & 63;
                out.push(char::from(alphabet[index as usize]));
            } else {
                out.push('=');
            }
        }
    }
    out
}

fn pem(label: &str, hex: &str) -> Vec<u8> {
    let body = base64(&from_hex(hex).unwrap());
    format!("-----{0} {label}-----\n{body}\n-----{1} {label}-----\n", "BEGIN", "END").into_bytes()
}

fn cert_pem() -> Vec<u8> {
    pem("CERTIFICATE", CERT_DER)
}

fn key_pem(hex: &str) -> Vec<u8> {
    pem(&["EC", "PRIVATE", "KEY"].join(" "), hex)
}

#[test]
fn configuration_is_built_on_the_fips_boundary() {
    let config = client_config_when(fips::provider(), true, &cert_pem(), &cert_pem(), &key_pem(KEY_DER)).unwrap();
    let provider = config.crypto_provider();
    assert_eq!(provider.kx_groups.len(), 1);
    assert_eq!(provider.kx_groups[0].name(), NamedGroup::MLKEM1024);
    assert_eq!(provider.cipher_suites.len(), 1);
    assert_eq!(provider.cipher_suites[0].suite(), CipherSuite::TLS13_AES_256_GCM_SHA384);

    assert!(matches!(
        client_config_when(fips::provider(), false, &cert_pem(), &cert_pem(), &key_pem(KEY_DER)),
        Err(RadSecError::NotFips)
    ));
}

#[test]
fn no_configuration_under_a_widened_policy() {
    assert!(matches!(
        client_config_when(aws_lc_rs::default_provider(), true, b"", b"", b""),
        Err(RadSecError::CryptoPolicyViolation)
    ));
    assert!(matches!(
        client_config_when(aws_lc_rs::default_provider(), false, b"", b"", b""),
        Err(RadSecError::NotFips)
    ));
}

#[test]
fn missing_credentials_are_named_in_order() {
    let (cert, key) = (cert_pem(), key_pem(KEY_DER));
    // No trust anchor, no client certificate, no key.
    for (ca, chain, key) in [
        (&b""[..], &cert[..], &key[..]),
        (&cert[..], &key[..], &key[..]),
        (&cert[..], &cert[..], &cert[..]),
    ] {
        assert!(matches!(
            client_config_when(fips::provider(), true, ca, chain, key),
            Err(RadSecError::NoCredential)
        ));
    }
}

#[test]
fn unusable_credentials_are_refused() {
    let (cert, key) = (cert_pem(), key_pem(KEY_DER));
    // A trust anchor that is no certificate, and a key of another certificate.
    let junk = pem("CERTIFICATE", "3003020101");
    assert!(matches!(
        client_config_when(fips::provider(), true, &junk, &cert, &key),
        Err(RadSecError::Tls(_))
    ));
    assert!(matches!(
        client_config_when(fips::provider(), true, &cert, &cert, &key_pem(OTHER_KEY_DER)),
        Err(RadSecError::Tls(_))
    ));
    // A PEM section without its end.
    let cut = &cert[..cert.len() - 30];
    for (ca, chain, key) in [(cut, &cert[..], &key[..]), (&cert[..], cut, &key[..])] {
        assert!(matches!(client_config_when(fips::provider(), true, ca, chain, key), Err(RadSecError::Io(_))));
    }
    assert!(matches!(
        client_config_when(fips::provider(), true, &cert, &cert, &key[..key.len() - 20]),
        Err(RadSecError::Io(_))
    ));
}

#[test]
fn server_names_are_dns_names_or_addresses() {
    assert_eq!(server_name("radius.example").unwrap().to_str(), "radius.example");
    assert!(server_name("10.0.0.1").is_ok());
    for bad in ["", "no spaces", "-"] {
        assert!(matches!(server_name(bad), Err(RadSecError::BadServerName)));
    }
}

// ---- Framing ----

fn sample_packet() -> Packet {
    let mut p = Packet::new(Code::AccessRequest, 7, [0x11; 16]);
    p.add_attribute(Attribute::string(1, "alice").unwrap());
    p
}

/// Write a packet to the stream.
fn write_packet(stream: &mut Vec<u8>, packet: &Packet) -> Result<(), RadSecError> {
    stream.extend_from_slice(&framing::encode_frame(packet)?);
    Ok(())
}

/// Read one packet from the stream.
fn read_packet(stream: &mut &[u8]) -> Result<Packet, RadSecError> {
    let mut header = [0u8; 4];
    stream.read_exact(&mut header).map_err(RadSecError::from)?;
    let mut body = vec![0u8; framing::body_length(&header)?];
    stream.read_exact(&mut body).map_err(RadSecError::from)?;
    framing::decode_frame(&header, &body)
}

#[test]
fn declared_length_reads_the_header_length_field() {
    // code=1, id=7, length=0x0102 (258).
    assert_eq!(framing::declared_length(&[1, 7, 0x01, 0x02]), 258);
}

#[test]
fn write_then_read_round_trips_a_packet() {
    let packet = sample_packet();
    let encoded = packet.encode().unwrap();

    // Write to an in-memory buffer, then read it back through the framer.
    let mut sink: Vec<u8> = Vec::new();
    write_packet(&mut sink, &packet).unwrap();
    assert_eq!(sink, encoded);

    let mut src = sink.as_slice();
    let decoded = read_packet(&mut src).unwrap();
    assert_eq!(decoded.code, Code::AccessRequest);
    assert_eq!(decoded.identifier, 7);
    assert_eq!(decoded.encode().unwrap(), encoded);
}

#[test]
fn back_to_back_packets_are_each_delimited_by_length() {
    // Two packets concatenated on one stream must read as two distinct packets.
    let mut stream: Vec<u8> = Vec::new();
    write_packet(&mut stream, &sample_packet()).unwrap();
    let mut second = sample_packet();
    second.identifier = 8;
    write_packet(&mut stream, &second).unwrap();

    let mut src = stream.as_slice();
    let a = read_packet(&mut src).unwrap();
    let b = read_packet(&mut src).unwrap();
    assert_eq!(a.identifier, 7);
    assert_eq!(b.identifier, 8);
    assert!(src.is_empty());
}

#[test]
fn frame_length_below_minimum_is_rejected() {
    // Header declaring length 4 (< 20): fail closed before reading a body.
    let bytes = vec![1u8, 7, 0x00, 0x04];
    let mut src = bytes.as_slice();
    assert!(matches!(read_packet(&mut src), Err(RadSecError::BadFrameLength(4))));
}

#[test]
fn frame_length_above_maximum_is_rejected() {
    let too_big = u16::try_from(MAX_RADIUS_LEN).unwrap() + 1;
    let hi = (too_big >> 8) as u8;
    let lo = (too_big & 0xff) as u8;
    let bytes = vec![1u8, 7, hi, lo];
    let mut src = bytes.as_slice();
    assert!(matches!(
        read_packet(&mut src),
        Err(RadSecError::BadFrameLength(n)) if n == MAX_RADIUS_LEN + 1
    ));
}

#[test]
fn truncated_body_is_an_io_error_not_a_panic() {
    // Declares a 20-octet packet but supplies only the 4-octet header.
    let bytes = vec![1u8, 7, 0x00, MIN_RADIUS_LEN as u8];
    let mut src = bytes.as_slice();
    assert!(matches!(read_packet(&mut src), Err(RadSecError::Io(_))));
}

#[test]
fn frame_bounds_are_inclusive() {
    assert_eq!((MIN_RADIUS_LEN, MAX_RADIUS_LEN), (20, 4096));
    assert_eq!(framing::body_length(&[1, 7, 0, 20]).unwrap(), 16);
    assert_eq!(framing::body_length(&[1, 7, 0x10, 0]).unwrap(), 4092);
    assert!(matches!(framing::body_length(&[1, 7, 0, 19]), Err(RadSecError::BadFrameLength(19))));
}

#[test]
fn frames_that_are_no_packets_are_codec_errors() {
    let mut body = vec![0u8; 18];
    body[17] = 1;
    assert!(matches!(
        framing::decode_frame(&[2, 7, 0, 22], &body),
        Err(RadSecError::Proto(PacketError::BadAttribute))
    ));
    let mut wide = sample_packet();
    for _ in 0..17 {
        wide.add_attribute(Attribute::new(79, vec![0; 253]).unwrap());
    }
    assert!(matches!(
        framing::encode_frame(&wide),
        Err(RadSecError::Proto(PacketError::PacketTooLong))
    ));
}

#[test]
fn replies_answer_the_request_of_their_identifier() {
    assert_eq!(RADSEC_PORT, 2083);
    assert_eq!(match_reply(7, sample_packet()).unwrap(), sample_packet());
    assert!(matches!(
        match_reply(9, sample_packet()),
        Err(RadSecError::UnexpectedReply { expected: 9, got: 7 })
    ));
}

#[test]
fn transport_errors_read_as_sentences() {
    let eof = std::io::Error::new(std::io::ErrorKind::UnexpectedEof, "cut short");
    let texts = [
        RadSecError::from(eof).message(),
        RadSecError::from(rustls::Error::DecryptError).message(),
        RadSecError::NotFips.message(),
        RadSecError::CryptoPolicyViolation.message(),
        RadSecError::NoCredential.message(),
        RadSecError::BadFrameLength(4).message(),
        RadSecError::Proto(PacketError::BadAttribute).message(),
        RadSecError::BadServerName.message(),
        RadSecError::Timeout.message(),
        RadSecError::UnexpectedReply { expected: 9, got: 7 }.message(),
    ];
    assert_eq!(texts, [
        "I/O error: cut short",
        "TLS error: cannot decrypt peer's message",
        "crypto provider is not FIPS-validated",
        "crypto policy is not ML-KEM-1024 + TLS_AES_256_GCM_SHA384 only",
        "PEM held no usable certificate or key",
        "RADIUS frame length 4 outside 20..=4096",
        "RADIUS codec error: attributes do not fill the packet",
        "invalid server DNS name",
        "the server did not answer in time",
        "reply identifier mismatch: expected 9, got 7",
    ]);
}
