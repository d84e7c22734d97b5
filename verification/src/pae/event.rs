//! The inputs that drive the state machine: decoded EAPOL frames, RADIUS replies,
//! timer expiries and CoA requests.

use super::config::TimerKind;
use super::effect::{Authorization, AuthorizationView};
use crate::bytes::{copy_octets, copy_optional_octets, option_view};
use crate::pacp::eap::{EapCode, EapType};
use vstd::prelude::*;

verus! {

/// An EAP packet received from the supplicant, already decoded. The raw `packet`
/// is carried so it can be relayed verbatim to the server.
#[derive(Debug, PartialEq, Eq)]
pub struct InboundEap {
    /// EAP code (Request/Response/Success/Failure).
    pub code: EapCode,
    /// EAP identifier.
    pub identifier: u8,
    /// Method type, if the code carries one.
    pub eap_type: Option<EapType>,
    /// The full EAP packet bytes, for verbatim relay to RADIUS.
    pub packet: Vec<u8>,
}

/// What an inbound EAP packet holds.
#[verifier::ext_equal]
pub struct InboundEapView {
    pub code: EapCode,
    pub identifier: u8,
    pub eap_type: Option<EapType>,
    pub packet: Seq<u8>,
}

impl View for InboundEap {
    type V = InboundEapView;

    open spec fn view(&self) -> InboundEapView {
        InboundEapView {
            code: self.code,
            identifier: self.identifier,
            eap_type: self.eap_type,
            packet: self.packet@,
        }
    }
}

impl Clone for InboundEap {
    fn clone(&self) -> (r: Self)
        ensures
            r@ == self@,
    {
        InboundEap {
            code: self.code,
            identifier: self.identifier,
            eap_type: self.eap_type,
            packet: copy_octets(&self.packet),
        }
    }
}

/// An input event for a single `{port, MAC}` session.
#[derive(Debug, PartialEq, Eq)]
#[allow(inconsistent_fields)]
pub enum Event {
    /// The port has been brought into 802.1X service for this MAC.
    Enable,
    /// Physical link came up.
    LinkUp,
    /// Physical link went down.
    LinkDown,
    /// EAPOL-Start from the supplicant.
    EapolStart,
    /// EAPOL-Logoff from the supplicant.
    EapolLogoff,
    /// An EAP packet from the supplicant.
    EapFromSupplicant(InboundEap),
    /// RADIUS `Access-Challenge`.
    AccessChallenge {
        /// The EAP request the server wants delivered to the supplicant.
        eap: Vec<u8>,
    },
    /// RADIUS `Access-Accept`.
    AccessAccept {
        /// Parsed authorization parameters.
        authorization: Authorization,
        /// The EAP-Success to relay to the supplicant, if the Accept carried one.
        eap: Option<Vec<u8>>,
    },
    /// RADIUS `Access-Reject`.
    AccessReject {
        /// The EAP-Failure to relay to the supplicant, if the Reject carried one.
        eap: Option<Vec<u8>>,
    },
    /// Every configured authentication server is unreachable.
    ServerUnreachable,
    /// A previously-armed timer expired.
    Timer(TimerKind),
    /// `CoA` `Disconnect-Request`: terminate the session (RFC 5176).
    CoaDisconnect,
    /// `CoA` `Request` asking for re-authentication.
    CoaReauthenticate,
    /// `CoA` `Request` changing authorization in place (no re-auth).
    CoaAuthorize {
        /// The new authorization to apply.
        authorization: Authorization,
    },
}

/// What an event says.
#[verifier::ext_equal]
#[allow(inconsistent_fields)]
pub enum EventView {
    Enable,
    LinkUp,
    LinkDown,
    EapolStart,
    EapolLogoff,
    EapFromSupplicant(InboundEapView),
    AccessChallenge { eap: Seq<u8> },
    AccessAccept { authorization: AuthorizationView, eap: Option<Seq<u8>> },
    AccessReject { eap: Option<Seq<u8>> },
    ServerUnreachable,
    Timer(TimerKind),
    CoaDisconnect,
    CoaReauthenticate,
    CoaAuthorize { authorization: AuthorizationView },
}

impl View for Event {
    type V = EventView;

    open spec fn view(&self) -> EventView {
        match *self {
            Event::Enable => EventView::Enable,
            Event::LinkUp => EventView::LinkUp,
            Event::LinkDown => EventView::LinkDown,
            Event::EapolStart => EventView::EapolStart,
            Event::EapolLogoff => EventView::EapolLogoff,
            Event::EapFromSupplicant(e) => EventView::EapFromSupplicant(e@),
            Event::AccessChallenge { eap } => EventView::AccessChallenge { eap: eap@ },
            Event::AccessAccept { authorization, eap } => EventView::AccessAccept {
                authorization: authorization@,
                eap: option_view(eap),
            },
            Event::AccessReject { eap } => EventView::AccessReject { eap: option_view(eap) },
            Event::ServerUnreachable => EventView::ServerUnreachable,
            Event::Timer(k) => EventView::Timer(k),
            Event::CoaDisconnect => EventView::CoaDisconnect,
            Event::CoaReauthenticate => EventView::CoaReauthenticate,
            Event::CoaAuthorize { authorization } => EventView::CoaAuthorize {
                authorization: authorization@,
            },
        }
    }
}

impl Clone for Event {
    fn clone(&self) -> (r: Self)
        ensures
            r@ == self@,
    {
        match self {
            Event::Enable => Event::Enable,
            Event::LinkUp => Event::LinkUp,
            Event::LinkDown => Event::LinkDown,
            Event::EapolStart => Event::EapolStart,
            Event::EapolLogoff => Event::EapolLogoff,
            Event::EapFromSupplicant(e) => Event::EapFromSupplicant(e.clone()),
            Event::AccessChallenge { eap } => Event::AccessChallenge { eap: copy_octets(eap) },
            Event::AccessAccept { authorization, eap } => Event::AccessAccept {
                authorization: authorization.clone(),
                eap: copy_optional_octets(eap),
            },
            Event::AccessReject { eap } => Event::AccessReject { eap: copy_optional_octets(eap) },
            Event::ServerUnreachable => Event::ServerUnreachable,
            Event::Timer(k) => Event::Timer(*k),
            Event::CoaDisconnect => Event::CoaDisconnect,
            Event::CoaReauthenticate => Event::CoaReauthenticate,
            Event::CoaAuthorize { authorization } => Event::CoaAuthorize {
                authorization: authorization.clone(),
            },
        }
    }
}

} // verus!
