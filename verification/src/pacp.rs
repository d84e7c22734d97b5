//! The EAPOL frame codec: Ethernet II framing, the EAPOL PDU, and a read-only
//! view of the EAP packet inside (IEEE 802.1X-2020, RFC 3748).
//!
//! The codec validates framing and length fields only. EAP method content is
//! never interpreted: the EAP body is relayed verbatim.

pub mod eap;
pub mod error;
pub mod ethernet;
pub mod pdu;

use crate::bytes::outcome;
pub use error::PacpError;
use vstd::prelude::*;

verus! {

/// A fully-decoded inbound EAPOL frame: the Ethernet header and the EAPOL PDU.
#[derive(Debug, PartialEq, Eq)]
pub struct EapolFrame {
    /// The Ethernet header (its source MAC becomes `Calling-Station-Id`).
    pub ethernet: ethernet::EthernetHeader,
    /// The decoded EAPOL PDU.
    pub pdu: pdu::EapolPdu,
}

/// What an EAPOL frame holds.
#[verifier::ext_equal]
pub struct EapolFrameView {
    pub ethernet: ethernet::EthernetHeader,
    pub pdu: pdu::PduView,
}

impl View for EapolFrame {
    type V = EapolFrameView;

    open spec fn view(&self) -> EapolFrameView {
        EapolFrameView { ethernet: self.ethernet, pdu: self.pdu@ }
    }
}

impl Clone for EapolFrame {
    fn clone(&self) -> (r: Self)
        ensures
            r@ == self@,
    {
        EapolFrame { ethernet: self.ethernet.clone(), pdu: self.pdu.clone() }
    }
}

/// What decoding a raw Ethernet frame as EAPOL comes to.
pub open spec fn frame_decodes(buf: Seq<u8>) -> Result<EapolFrameView, PacpError> {
    if buf.len() < ethernet::HEADER_LEN {
        Err(PacpError::TruncatedEthernet { available: buf.len() as usize })
    } else if ethernet::header_of(buf).ethertype != ethernet::ETHERTYPE_EAPOL {
        Err(PacpError::NotEapol { ethertype: ethernet::header_of(buf).ethertype })
    } else {
        match pdu::pdu_decodes(buf.skip(ethernet::HEADER_LEN as int)) {
            Ok(pdu) => Ok(EapolFrameView { ethernet: ethernet::header_of(buf), pdu }),
            Err(e) => Err(e),
        }
    }
}

/// Decode a raw Ethernet frame into an [`EapolFrame`], requiring the
/// `EtherType` to be EAPOL.
pub fn decode_frame(buf: &[u8]) -> (r: Result<EapolFrame, PacpError>)
    ensures
        outcome(r) == frame_decodes(buf@),
{
    let frame = match ethernet::decode_eapol_frame(buf) {
        Ok(f) => f,
        Err(e) => return Err(e),
    };
    match pdu::EapolPdu::decode(frame.payload) {
        Ok(pdu) => Ok(EapolFrame { ethernet: frame.header, pdu }),
        Err(e) => Err(e),
    }
}

/// A PDU that is put into a frame comes out of it again with its addresses,
/// whatever padding the link appended.
pub proof fn law_frame_round_trip(
    pdu: pdu::PduView,
    dst: ethernet::MacAddr,
    src: ethernet::MacAddr,
    padding: Seq<u8>,
)
    requires
        pdu.body.len() <= 0xFFFF,
        pdu.canonical(),
    ensures
        frame_decodes(pdu::frame_bytes(pdu, dst, src) + padding) == Ok::<EapolFrameView, PacpError>(
            EapolFrameView {
                ethernet: ethernet::EthernetHeader { dst, src, ethertype: ethernet::ETHERTYPE_EAPOL },
                pdu,
            },
        ),
{
    let header = ethernet::EthernetHeader { dst, src, ethertype: ethernet::ETHERTYPE_EAPOL };
    let buf = pdu::frame_bytes(pdu, dst, src) + padding;
    ethernet::lemma_header_round_trip(header, pdu::pdu_bytes(pdu) + padding);
    assert(buf =~= ethernet::header_bytes(header) + (pdu::pdu_bytes(pdu) + padding));
    assert(buf.skip(ethernet::HEADER_LEN as int) =~= pdu::pdu_bytes(pdu) + padding);
    pdu::law_pdu_round_trip(pdu, padding);
}

/// Encoding what was decoded from a frame gives that frame back bit for bit, up
/// to the padding that followed it.
pub proof fn law_frame_bit_exact(buf: Seq<u8>)
    requires
        frame_decodes(buf) is Ok,
    ensures
        ({
            let f = frame_decodes(buf)->Ok_0;
            let encoded = pdu::frame_bytes(f.pdu, f.ethernet.dst, f.ethernet.src);
            encoded.len() <= buf.len() && encoded == buf.take(encoded.len() as int)
        }),
{
    let f = frame_decodes(buf)->Ok_0;
    let rest = buf.skip(ethernet::HEADER_LEN as int);
    pdu::law_pdu_bit_exact(rest);
    ethernet::lemma_header_bit_exact(buf);
    let encoded = pdu::frame_bytes(f.pdu, f.ethernet.dst, f.ethernet.src);
    assert(f.ethernet == ethernet::header_of(buf));
    assert(encoded =~= buf.take(encoded.len() as int));
}

/// A frame is accepted exactly if its EtherType is 0x888E, its EAPOL header is whole, and
/// its body is as long as declared or longer. What is read from it is what stands in it.
pub proof fn law_frame_is_read_as_it_stands(buf: Seq<u8>)
    ensures
        frame_decodes(buf) is Ok <==> buf.len() >= 18 && buf[12] == 0x88 && buf[13] == 0x8E && 18 + buf[16]
            * 256 + buf[17] <= buf.len(),
        frame_decodes(buf) matches Ok(f) ==> {
            &&& forall|i: int| 0 <= i < 6 ==> #[trigger] f.ethernet.dst@[i] == buf[i]
            &&& forall|i: int| 0 <= i < 6 ==> #[trigger] f.ethernet.src@[i] == buf[6 + i]
            &&& f.pdu.version == buf[14]
            &&& pdu::type_octet(f.pdu.packet_type) == buf[15]
            &&& f.pdu.body == buf.subrange(18, 18 + buf[16] * 256 + buf[17])
        },
        buf.len() < 14 ==> frame_decodes(buf) == Err::<EapolFrameView, PacpError>(
            PacpError::TruncatedEthernet { available: buf.len() as usize },
        ),
        buf.len() >= 14 && !(buf[12] == 0x88 && buf[13] == 0x8E) ==> frame_decodes(buf) == Err::<
            EapolFrameView,
            PacpError,
        >(PacpError::NotEapol { ethertype: (buf[12] * 256 + buf[13]) as u16 }),
        14 <= buf.len() < 18 && buf[12] == 0x88 && buf[13] == 0x8E ==> frame_decodes(buf) == Err::<
            EapolFrameView,
            PacpError,
        >(PacpError::TruncatedEapolHeader { available: (buf.len() - 14) as usize }),
        buf.len() >= 18 && buf[12] == 0x88 && buf[13] == 0x8E && 18 + buf[16] * 256 + buf[17] > buf.len()
            ==> frame_decodes(buf) == Err::<EapolFrameView, PacpError>(
            PacpError::TruncatedEapolBody {
                declared: (buf[16] * 256 + buf[17]) as usize,
                available: (buf.len() - 18) as usize,
            },
        ),
{
    if buf.len() >= 14 {
        let rest = buf.skip(14);
        if buf.len() >= 18 {
            assert(rest[0] == buf[14] && rest[1] == buf[15] && rest[2] == buf[16] && rest[3] == buf[17]);
            pdu::law_packet_type_octet(buf[15]);
            if 18 + buf[16] * 256 + buf[17] <= buf.len() {
                assert(rest.subrange(4, 4 + buf[16] * 256 + buf[17]) =~= buf.subrange(
                    18,
                    18 + buf[16] * 256 + buf[17],
                ));
            }
        }
    }
}

} // verus!
