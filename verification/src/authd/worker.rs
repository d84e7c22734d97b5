//! What the per-port event loop decides: which event an inbound frame stands for, and
//! which frame carries an EAP packet out.

use super::error::AuthdError;
use crate::bytes::{copy_octets, outcome};
use crate::pacp;
use crate::pacp::eap::{eap_decodes, EapPacket};
use crate::pacp::error::PacpError;
use crate::pacp::ethernet::MacAddr;
use crate::pacp::frame_decodes;
use crate::pacp::pdu::{frame_bytes, EapolPdu, PacketType, PduView, PROTOCOL_VERSION_2010};
use crate::pae::config::{PaeConfig, Timers};
use crate::pae::event::{Event, EventView, InboundEap, InboundEapView};
use crate::radius_client::context::RequestContext;
use vstd::prelude::*;

verus! {

/// The static per-port parameters of the event loop.
#[derive(Debug)]
pub struct PortSetup {
    /// Front-panel interface name.
    pub port: String,
    /// The switch port's own MAC (the EAPOL source / `Called-Station-Id`).
    pub switch_mac: MacAddr,
    /// Session policy.
    pub pae_cfg: PaeConfig,
    /// Timer durations.
    pub timers: Timers,
    /// RADIUS shared secret.
    pub secret: Vec<u8>,
    /// NAS attribute template (per-MAC `calling_station` filled in per request).
    pub ctx_template: RequestContext,
}

impl Clone for PortSetup {
    fn clone(&self) -> (r: Self)
        ensures
            r.port@ == self.port@,
            r.switch_mac == self.switch_mac,
            r.pae_cfg@ == self.pae_cfg@,
            r.timers == self.timers,
            r.secret@ == self.secret@,
            r.ctx_template@ == self.ctx_template@,
    {
        PortSetup {
            port: self.port.clone(),
            switch_mac: self.switch_mac,
            pae_cfg: self.pae_cfg.clone(),
            timers: self.timers,
            secret: copy_octets(&self.secret),
            ctx_template: self.ctx_template.clone(),
        }
    }
}

/// The event that the body of an EAPOL-EAP frame stands for.
pub open spec fn eap_event(body: Seq<u8>) -> Option<EventView> {
    match eap_decodes(body) {
        Ok(eap) => Some(
            EventView::EapFromSupplicant(
                InboundEapView {
                    code: eap.code,
                    identifier: eap.identifier,
                    eap_type: eap.eap_type,
                    packet: body,
                },
            ),
        ),
        Err(_) => None,
    }
}

/// The event that a frame stands for, and the station it is from. Frames that are
/// not well-formed EAPOL, and those that are no part of the pass-through, stand for
/// none.
pub open spec fn event_of(bytes: Seq<u8>) -> Option<(MacAddr, EventView)> {
    match frame_decodes(bytes) {
        Err(_) => None,
        Ok(frame) => {
            let event = match frame.pdu.packet_type {
                PacketType::Start => Some(EventView::EapolStart),
                PacketType::Logoff => Some(EventView::EapolLogoff),
                PacketType::Eap => eap_event(frame.pdu.body),
                _ => None,
            };
            match event {
                Some(e) => Some((frame.ethernet.src, e)),
                None => None,
            }
        },
    }
}

/// Decode one inbound EAPOL frame into the event it stands for.
pub fn frame_event(bytes: &[u8]) -> (r: Option<(MacAddr, Event)>)
    ensures
        event_of(bytes@) == (match r {
            Some((mac, event)) => Some((mac, event@)),
            None => None,
        }),
{
    let frame = match pacp::decode_frame(bytes) {
        Ok(frame) => frame,
        Err(_) => return None,
    };
    let mac = frame.ethernet.src;
    match frame.pdu.packet_type {
        PacketType::Start => Some((mac, Event::EapolStart)),
        PacketType::Logoff => Some((mac, Event::EapolLogoff)),
        PacketType::Eap => {
            let eap = match EapPacket::decode(frame.pdu.body.as_slice()) {
                Ok(eap) => eap,
                Err(_) => return None,
            };
            let inbound = InboundEap {
                code: eap.code,
                identifier: eap.identifier,
                eap_type: eap.eap_type,
                packet: copy_octets(&frame.pdu.body),
            };
            Some((mac, Event::EapFromSupplicant(inbound)))
        },
        _ => None,
    }
}

/// The PDU that carries an EAP packet.
pub open spec fn eap_pdu(eap: Seq<u8>) -> PduView {
    PduView { version: PROTOCOL_VERSION_2010, packet_type: PacketType::Eap, body: eap }
}

/// The frame that carries an EAP packet to the supplicant `mac`.
pub fn eap_frame(mac: MacAddr, src: MacAddr, eap: Vec<u8>) -> (r: Result<Vec<u8>, AuthdError>)
    ensures
        outcome(r) == (if eap@.len() <= 0xFFFF {
            Ok(frame_bytes(eap_pdu(eap@), mac, src))
        } else {
            Err(AuthdError::Frame(PacpError::BodyTooLong { len: eap.len() }))
        }),
{
    let pdu = EapolPdu::new(PacketType::Eap, eap);
    match pdu.encode_frame(mac, src) {
        Ok(frame) => Ok(frame),
        Err(e) => Err(AuthdError::Frame(e)),
    }
}

/// What a supplicant sends as EAP reaches the state machine verbatim, under the
/// address it was sent from, whatever padding the link appended.
pub proof fn law_eap_arrives_verbatim(
    eap: Seq<u8>,
    src: MacAddr,
    dst: MacAddr,
    padding: Seq<u8>,
)
    requires
        eap_decodes(eap) is Ok,
    ensures
        ({
            let arrived = event_of(frame_bytes(eap_pdu(eap), dst, src) + padding);
            &&& arrived is Some
            &&& (arrived->0).0 == src
            &&& (arrived->0).1 matches EventView::EapFromSupplicant(e) && e.packet == eap
        }),
{
    pacp::law_frame_round_trip(eap_pdu(eap), dst, src, padding);
}

/// An EAPOL-Start and an EAPOL-Logoff are what they are, whatever their body; an
/// EAPOL-EAP stands for the EAP packet in it, if it is one; and no other frame stands for
/// anything. The station is always the one that sent the frame.
pub proof fn law_frames_become_events(pdu: PduView, src: MacAddr, dst: MacAddr, padding: Seq<u8>)
    requires
        pdu.body.len() <= 0xFFFF,
        pdu.canonical(),
    ensures
        ({
            let r = event_of(frame_bytes(pdu, dst, src) + padding);
            &&& pdu.packet_type is Start ==> r == Some((src, EventView::EapolStart))
            &&& pdu.packet_type is Logoff ==> r == Some((src, EventView::EapolLogoff))
            &&& pdu.packet_type is Eap ==> match eap_decodes(pdu.body) {
                Ok(eap) => r is Some && (r->0).0 == src && (
                (r->0).1 matches EventView::EapFromSupplicant(e) && e.packet == pdu.body && e.code
                    == eap.code && e.identifier == eap.identifier && e.eap_type == eap.eap_type),
                Err(_) => r is None,
            }
            &&& !(pdu.packet_type is Start) && !(pdu.packet_type is Logoff) && !(
            pdu.packet_type is Eap) ==> r is None
        }),
{
    pacp::law_frame_round_trip(pdu, dst, src, padding);
}

/// What does not decode as an EAPOL frame stands for nothing.
pub proof fn law_noise_is_ignored(bytes: Seq<u8>)
    requires
        frame_decodes(bytes) is Err,
    ensures
        event_of(bytes) is None,
{
}

/// An EAP packet goes out as the body of an EAPOL-EAP of version 3, from the switch to the
/// supplicant.
pub proof fn law_eap_leaves_verbatim(eap: Seq<u8>, mac: MacAddr, src: MacAddr)
    requires
        eap.len() <= 0xFFFF,
    ensures
        ({
            let r = frame_decodes(frame_bytes(eap_pdu(eap), mac, src));
            &&& r is Ok
            &&& (r->Ok_0).ethernet.dst == mac
            &&& (r->Ok_0).ethernet.src == src
            &&& (r->Ok_0).pdu.version == 3
            &&& (r->Ok_0).pdu.packet_type is Eap
            &&& (r->Ok_0).pdu.body == eap
        }),
{
    pacp::law_frame_round_trip(eap_pdu(eap), mac, src, Seq::empty());
    assert(frame_bytes(eap_pdu(eap), mac, src) + Seq::<u8>::empty() =~= frame_bytes(
        eap_pdu(eap),
        mac,
        src,
    ));
}

/// A frame for a supplicant is made of any EAP packet that the 16-bit length of a body can
/// tell, and carries it from the switch to that supplicant.
pub proof fn law_frames_carry_eap_to_the_supplicant(
    mac: MacAddr,
    src: MacAddr,
    eap: Vec<u8>,
    r: Result<Vec<u8>, AuthdError>,
)
    requires
        call_ensures(eap_frame, (mac, src, eap), r),
    ensures
        r is Ok <==> eap@.len() <= 65535,
        r matches Ok(frame) ==> {
            let got = frame_decodes(frame@);
            &&& got is Ok
            &&& (got->Ok_0).ethernet.dst == mac
            &&& (got->Ok_0).ethernet.src == src
            &&& (got->Ok_0).pdu.packet_type is Eap
            &&& (got->Ok_0).pdu.body == eap@
        },
        r matches Err(e) ==> e == AuthdError::Frame(PacpError::BodyTooLong { len: eap.len() }),
{
    if eap@.len() <= 65535 {
        law_eap_leaves_verbatim(eap@, mac, src);
    }
}

} // verus!
