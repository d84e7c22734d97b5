//! The EAPOL PDU: `Protocol Version(1) | Packet Type(1) | Body Length(2) | Body`
//! (IEEE Std 802.1X-2020 section 11.3). The body is opaque here.

use super::error::PacpError;
use super::ethernet::{header_bytes, EthernetHeader, MacAddr, ETHERTYPE_EAPOL};
use crate::bytes::{
    be16, be16_octets, copy_octets, lemma_be16, lemma_be16_octets, outcome, push_be16, push_octets,
    read_be16,
};
use vstd::prelude::*;
use vstd::slice::{slice_subrange, slice_to_vec};

verus! {

/// Octets in an EAPOL PDU header: `version(1) | type(1) | body_length(2)`.
pub const HEADER_LEN: usize = 4;

/// EAPOL protocol version 3 (IEEE 802.1X-2010 and -2020).
pub const PROTOCOL_VERSION_2010: u8 = 3;

/// EAPOL protocol version 2 (IEEE 802.1X-2004).
pub const PROTOCOL_VERSION_2004: u8 = 2;

/// EAPOL protocol version 1 (IEEE 802.1X-2001).
pub const PROTOCOL_VERSION_2001: u8 = 1;

/// EAPOL packet type (IEEE 802.1X-2020 Table 11-3).
#[derive(Debug, Clone, Copy, PartialEq, Eq, Structural)]
pub enum PacketType {
    /// EAPOL-EAP (0): the body is an EAP packet.
    Eap,
    /// EAPOL-Start (1).
    Start,
    /// EAPOL-Logoff (2).
    Logoff,
    /// EAPOL-Key (3).
    Key,
    /// EAPOL-Encapsulated-ASF-Alert (4).
    EncapsulatedAsfAlert,
    /// EAPOL-MKA (5): `MACsec` Key Agreement.
    Mka,
    /// EAPOL-Announcement, Generic (6).
    AnnouncementGeneric,
    /// EAPOL-Announcement, Specific (7).
    AnnouncementSpecific,
    /// EAPOL-Announcement-Req (8).
    AnnouncementReq,
    /// An unassigned/reserved packet type, preserved verbatim.
    Unknown(u8),
}

/// The octet that stands for a packet type on the wire.
pub open spec fn type_octet(t: PacketType) -> u8 {
    match t {
        PacketType::Eap => 0,
        PacketType::Start => 1,
        PacketType::Logoff => 2,
        PacketType::Key => 3,
        PacketType::EncapsulatedAsfAlert => 4,
        PacketType::Mka => 5,
        PacketType::AnnouncementGeneric => 6,
        PacketType::AnnouncementSpecific => 7,
        PacketType::AnnouncementReq => 8,
        PacketType::Unknown(v) => v,
    }
}

/// The packet type that an octet stands for.
pub open spec fn octet_type(v: u8) -> PacketType {
    match v {
        0 => PacketType::Eap,
        1 => PacketType::Start,
        2 => PacketType::Logoff,
        3 => PacketType::Key,
        4 => PacketType::EncapsulatedAsfAlert,
        5 => PacketType::Mka,
        6 => PacketType::AnnouncementGeneric,
        7 => PacketType::AnnouncementSpecific,
        8 => PacketType::AnnouncementReq,
        _ => PacketType::Unknown(v),
    }
}

impl PacketType {
    /// The on-the-wire octet for this packet type.
    pub fn to_u8(self) -> (v: u8)
        ensures
            v == type_octet(self),
    {
        match self {
            PacketType::Eap => 0,
            PacketType::Start => 1,
            PacketType::Logoff => 2,
            PacketType::Key => 3,
            PacketType::EncapsulatedAsfAlert => 4,
            PacketType::Mka => 5,
            PacketType::AnnouncementGeneric => 6,
            PacketType::AnnouncementSpecific => 7,
            PacketType::AnnouncementReq => 8,
            PacketType::Unknown(v) => v,
        }
    }

    /// Decode a packet-type octet. Unassigned values map to
    /// [`PacketType::Unknown`] rather than failing: the frame is still well-formed.
    pub fn from_u8(v: u8) -> (t: Self)
        ensures
            t == octet_type(v),
    {
        match v {
            0 => PacketType::Eap,
            1 => PacketType::Start,
            2 => PacketType::Logoff,
            3 => PacketType::Key,
            4 => PacketType::EncapsulatedAsfAlert,
            5 => PacketType::Mka,
            6 => PacketType::AnnouncementGeneric,
            7 => PacketType::AnnouncementSpecific,
            8 => PacketType::AnnouncementReq,
            _ => PacketType::Unknown(v),
        }
    }
}

/// A decoded EAPOL PDU.
#[derive(Debug, PartialEq, Eq)]
pub struct EapolPdu {
    /// Protocol version octet, kept verbatim.
    pub version: u8,
    /// The packet type.
    pub packet_type: PacketType,
    /// The body, exactly `body_length` octets (no trailing padding).
    pub body: Vec<u8>,
}

/// What a PDU holds.
#[verifier::ext_equal]
pub struct PduView {
    pub version: u8,
    pub packet_type: PacketType,
    pub body: Seq<u8>,
}

impl View for EapolPdu {
    type V = PduView;

    open spec fn view(&self) -> PduView {
        PduView { version: self.version, packet_type: self.packet_type, body: self.body@ }
    }
}

impl PduView {
    /// The packet type is the one its octet is decoded as: an assigned octet is
    /// not written as [`PacketType::Unknown`].
    pub open spec fn canonical(self) -> bool {
        octet_type(type_octet(self.packet_type)) == self.packet_type
    }
}

/// The octets of a PDU.
pub open spec fn pdu_bytes(pdu: PduView) -> Seq<u8> {
    seq![pdu.version, type_octet(pdu.packet_type)] + be16_octets(pdu.body.len()) + pdu.body
}

/// The octets of the Ethernet frame that carries a PDU.
pub open spec fn frame_bytes(pdu: PduView, dst: MacAddr, src: MacAddr) -> Seq<u8> {
    header_bytes(EthernetHeader { dst, src, ethertype: ETHERTYPE_EAPOL }) + pdu_bytes(pdu)
}

/// What decoding a PDU from an Ethernet payload comes to. The Body Length field
/// is authoritative: octets beyond it are padding.
pub open spec fn pdu_decodes(buf: Seq<u8>) -> Result<PduView, PacpError> {
    if buf.len() < HEADER_LEN {
        Err(PacpError::TruncatedEapolHeader { available: buf.len() as usize })
    } else {
        let declared = be16(buf[2], buf[3]) as int;
        if HEADER_LEN + declared > buf.len() {
            Err(
                PacpError::TruncatedEapolBody {
                    declared: declared as usize,
                    available: (buf.len() - HEADER_LEN) as usize,
                },
            )
        } else {
            Ok(
                PduView {
                    version: buf[0],
                    packet_type: octet_type(buf[1]),
                    body: buf.subrange(HEADER_LEN as int, HEADER_LEN + declared),
                },
            )
        }
    }
}

impl Clone for EapolPdu {
    fn clone(&self) -> (r: Self)
        ensures
            r@ == self@,
    {
        EapolPdu {
            version: self.version,
            packet_type: self.packet_type,
            body: copy_octets(&self.body),
        }
    }
}

impl EapolPdu {
    /// Construct a PDU with the default protocol version (3, 802.1X-2010/2020).
    pub fn new(packet_type: PacketType, body: Vec<u8>) -> (r: Self)
        ensures
            r@ == (PduView { version: PROTOCOL_VERSION_2010, packet_type, body: body@ }),
    {
        EapolPdu { version: PROTOCOL_VERSION_2010, packet_type, body }
    }

    /// Decode an EAPOL PDU from `buf` (the Ethernet payload).
    ///
    /// Octets beyond the Body Length (Ethernet padding) are ignored, but a Body
    /// Length larger than the buffer is an error, never a short read.
    pub fn decode(buf: &[u8]) -> (r: Result<Self, PacpError>)
        ensures
            outcome(r) == pdu_decodes(buf@),
    {
        if buf.len() < HEADER_LEN {
            return Err(PacpError::TruncatedEapolHeader { available: buf.len() });
        }
        let declared: usize = read_be16(buf[2], buf[3]) as usize;
        if declared > buf.len() - HEADER_LEN {
            return Err(
                PacpError::TruncatedEapolBody { declared, available: buf.len() - HEADER_LEN },
            );
        }
        let body = slice_subrange(buf, HEADER_LEN, HEADER_LEN + declared);
        Ok(
            EapolPdu {
                version: buf[0],
                packet_type: PacketType::from_u8(buf[1]),
                body: slice_to_vec(body),
            },
        )
    }

    /// Serialize this PDU onto `out`, which is left alone when the body exceeds
    /// the 16-bit length field.
    pub fn encode_into(&self, out: &mut Vec<u8>) -> (r: Result<(), PacpError>)
        ensures
            self@.body.len() <= 0xFFFF ==> r is Ok && final(out)@ == old(out)@ + pdu_bytes(self@),
            self@.body.len() > 0xFFFF ==> r == Err::<(), PacpError>(
                PacpError::BodyTooLong { len: self.body.len() },
            ) && final(out)@ == old(out)@,
    {
        if self.body.len() > 0xFFFF {
            return Err(PacpError::BodyTooLong { len: self.body.len() });
        }
        out.push(self.version);
        out.push(self.packet_type.to_u8());
        push_be16(out, self.body.len() as u16);
        push_octets(out, self.body.as_slice());
        assert(out@ =~= old(out)@ + pdu_bytes(self@));
        Ok(())
    }

    /// Serialize this PDU to a fresh buffer.
    pub fn encode(&self) -> (r: Result<Vec<u8>, PacpError>)
        ensures
            outcome(r) == (if self@.body.len() <= 0xFFFF {
                Ok(pdu_bytes(self@))
            } else {
                Err(PacpError::BodyTooLong { len: self.body.len() })
            }),
    {
        let mut out: Vec<u8> = Vec::new();
        match self.encode_into(&mut out) {
            Ok(()) => {
                assert(out@ =~= pdu_bytes(self@));
                Ok(out)
            },
            Err(e) => Err(e),
        }
    }

    /// Serialize this PDU as a full Ethernet frame from `src` to `dst`.
    pub fn encode_frame(&self, dst: MacAddr, src: MacAddr) -> (r: Result<Vec<u8>, PacpError>)
        ensures
            outcome(r) == (if self@.body.len() <= 0xFFFF {
                Ok(frame_bytes(self@, dst, src))
            } else {
                Err(PacpError::BodyTooLong { len: self.body.len() })
            }),
    {
        let header = EthernetHeader { dst, src, ethertype: ETHERTYPE_EAPOL };
        let mut out: Vec<u8> = Vec::new();
        header.encode_into(&mut out);
        match self.encode_into(&mut out) {
            Ok(()) => {
                assert(out@ =~= frame_bytes(self@, dst, src));
                Ok(out)
            },
            Err(e) => Err(e),
        }
    }
}

/// Every packet-type octet survives being decoded and encoded.
pub proof fn law_packet_type_octet(v: u8)
    ensures
        type_octet(octet_type(v)) == v,
        octet_type(type_octet(octet_type(v))) == octet_type(v),
{
}

/// A PDU comes back from its own octets, whatever padding follows them.
pub proof fn law_pdu_round_trip(pdu: PduView, padding: Seq<u8>)
    requires
        pdu.body.len() <= 0xFFFF,
        pdu.canonical(),
    ensures
        pdu_decodes(pdu_bytes(pdu) + padding) == Ok::<PduView, PacpError>(pdu),
{
    let buf = pdu_bytes(pdu) + padding;
    lemma_be16(pdu.body.len());
    assert(buf.subrange(HEADER_LEN as int, HEADER_LEN + pdu.body.len()) =~= pdu.body);
}

/// The octets of a decoded PDU are the octets it was decoded from.
pub proof fn law_pdu_bit_exact(buf: Seq<u8>)
    requires
        pdu_decodes(buf) is Ok,
    ensures
        ({
            let p = pdu_decodes(buf)->Ok_0;
            let encoded = pdu_bytes(p);
            p.canonical() && p.body.len() <= 0xFFFF && encoded.len() <= buf.len() && encoded
                == buf.take(encoded.len() as int)
        }),
{
    let p = pdu_decodes(buf)->Ok_0;
    lemma_be16_octets(buf[2], buf[3]);
    law_packet_type_octet(buf[1]);
    assert(pdu_bytes(p) =~= buf.take(pdu_bytes(p).len() as int));
}

/// The packet types by their numbers.
pub proof fn law_packet_types_by_number(v: u8)
    ensures
        octet_type(v) is Eap <==> v == 0,
        octet_type(v) is Start <==> v == 1,
        octet_type(v) is Logoff <==> v == 2,
        octet_type(v) is Key <==> v == 3,
        octet_type(v) is EncapsulatedAsfAlert <==> v == 4,
        octet_type(v) is Mka <==> v == 5,
        octet_type(v) is AnnouncementGeneric <==> v == 6,
        octet_type(v) is AnnouncementSpecific <==> v == 7,
        octet_type(v) is AnnouncementReq <==> v == 8,
        v > 8 ==> octet_type(v) == PacketType::Unknown(v),
{
}

/// What a PDU is encoded to is decoded as that PDU, if its body is no longer than the
/// 16-bit length can tell; a longer one is refused.
pub proof fn law_encoded_is_decoded(pdu: EapolPdu, r: Result<Vec<u8>, PacpError>)
    requires
        call_ensures(EapolPdu::encode, (&pdu,), r),
        pdu@.canonical(),
    ensures
        r is Ok <==> pdu@.body.len() <= 65535,
        r matches Ok(octets) ==> pdu_decodes(octets@) == Ok::<PduView, PacpError>(pdu@),
{
    if pdu@.body.len() <= 65535 {
        law_pdu_round_trip(pdu@, Seq::empty());
        assert(pdu_bytes(pdu@) + Seq::<u8>::empty() =~= pdu_bytes(pdu@));
    }
}

} // verus!
