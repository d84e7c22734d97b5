//! Tests for what the EAPOL socket layer decides before it touches a socket. Opening
//! one needs a live interface; `open` here is the part that does not.

use authenticator::eapol_io::socket::{IFNAMSIZ, check_frame, htons, ifname_octets, resolved_index};
use authenticator::eapol_io::{ETH_P_PAE, EapolError};

/// Resolve an interface name on a host whose interfaces are these.
fn open(interfaces: &[(&str, u32)], name: &str) -> Result<i32, EapolError> {
    let octets = ifname_octets(name)?;
    let index = interfaces
        .iter()
        .find(|(known, _)| known.as_bytes() == &octets[..octets.len() - 1])
        .map_or(0, |(_, index)| *index);
    resolved_index(name, index)
}

#[test]
fn eapol_ethertype_and_byteorder() {
    assert_eq!(ETH_P_PAE, 0x888E);
    // htons puts the value in network (big-endian) byte order.
    assert_eq!(htons(ETH_P_PAE).to_ne_bytes(), [0x88, 0x8E]);
}

#[test]
fn empty_interface_name_is_rejected() {
    assert!(matches!(open(&[("", 3)], ""), Err(EapolError::InvalidInterfaceName(_))));
}

#[test]
fn overlong_interface_name_is_rejected() {
    // >= IFNAMSIZ (16) characters.
    let name = "abcdefghijklmnop"; // 16 chars
    assert!(matches!(open(&[(name, 3)], name), Err(EapolError::InvalidInterfaceName(_))));
}

#[test]
fn unknown_interface_is_not_found() {
    // A short, syntactically valid name that the host does not have.
    assert!(matches!(open(&[("Ethernet1", 3)], "zzz9"), Err(EapolError::InterfaceNotFound(_))));
}

#[test]
fn known_interface_resolves_to_its_index() {
    assert_eq!(open(&[("Ethernet0", 2), ("Ethernet1", 3)], "Ethernet1").unwrap(), 3);
    assert_eq!(IFNAMSIZ, 16);
    let longest = "abcdefghijklmno";
    assert_eq!(open(&[(longest, 7)], longest).unwrap(), 7);
    assert_eq!(ifname_octets("lo").unwrap(), b"lo\0");
}

#[test]
fn names_with_a_nul_are_rejected() {
    assert!(matches!(
        ifname_octets("eth\00"),
        Err(EapolError::InvalidInterfaceName(n)) if n == "eth\00"
    ));
}

#[test]
fn indices_outside_the_c_int_are_not_found() {
    assert_eq!(resolved_index("lo", i32::MAX as u32).unwrap(), i32::MAX);
    for index in [0, i32::MAX as u32 + 1, u32::MAX] {
        assert!(matches!(
            resolved_index("lo", index),
            Err(EapolError::InterfaceNotFound(n)) if n == "lo"
        ));
    }
}

#[test]
fn frames_need_a_whole_header() {
    assert!(check_frame(&[0; 14]).is_ok());
    assert!(matches!(check_frame(&[0; 13]), Err(EapolError::FrameTooShort(13))));
}

#[test]
fn socket_errors_read_as_sentences() {
    let texts = [
        EapolError::InvalidInterfaceName("a\"b".to_string()).message(),
        EapolError::InterfaceNotFound("zzz9".to_string()).message(),
        EapolError::Io(std::io::Error::new(std::io::ErrorKind::Other, "link lost")).message(),
        EapolError::FrameTooShort(13).message(),
    ];
    assert_eq!(texts, [
        "invalid interface name \"a\\\"b\"",
        "interface \"zzz9\" not found",
        "socket I/O error: link lost",
        "frame too short to send: 13 octets",
    ]);
}
