//! Verifying RADIUS replies and parsing them into session events.

use super::consts::{
    EAP_MESSAGE, MAX_TAG_OCTET, MESSAGE_AUTHENTICATOR, TUNNEL_MEDIUM_802, TUNNEL_PRIVATE_GROUP_ID,
    TUNNEL_TYPE_VLAN,
};
use super::eap_message::{eap_of, reassemble};
use super::error::RadiusClientError;
use crate::bytes::{be32, copy_octets, octets_eq, option_view, outcome, read_be32};
use crate::pae::effect::{Authorization, AuthorizationView};
use crate::pae::event::{Event, EventView};
use crate::radius::attr::{
    CLASS, FILTER_ID, SESSION_TIMEOUT, STATE, TUNNEL_MEDIUM_TYPE, TUNNEL_TYPE,
};
use crate::radius::packet::{code_octet, first_of, AttributeView, Code, Packet, PacketView};
use crate::text::{lossy_text, utf8_lossy};
use vstd::prelude::*;
use vstd::slice::slice_subrange;

verus! {

/// Whether a reply is one that only the server can have made in answer to the
/// request: it bears the Response Authenticator that belongs to the request, and
/// the `Message-Authenticator` too where it has one; one that carries EAP has to
/// (RFC 3579 section 3.2).
pub open spec fn genuine(reply: PacketView, authenticator: [u8; 16], mac: [u8; 16]) -> bool {
    &&& reply.authenticator == authenticator
    &&& match first_of(reply.attributes, MESSAGE_AUTHENTICATOR) {
        Some(value) => value == mac@,
        None => first_of(reply.attributes, EAP_MESSAGE) is None,
    }
}

/// Verify a reply against the request that was sent. `expected_authenticator` is
/// the Response Authenticator (RFC 2865) and `expected_mac` the
/// `Message-Authenticator` (RFC 3579) that the shared secret gives for this reply
/// and the request's authenticator. A reply that fails is to be discarded.
pub fn verify_reply(
    reply: &Packet,
    expected_authenticator: &[u8; 16],
    expected_mac: &[u8; 16],
) -> (r: bool)
    ensures
        r == genuine(reply@, *expected_authenticator, *expected_mac),
{
    let bound = authenticator_eq(&reply.authenticator, expected_authenticator);
    match reply.find_attribute(MESSAGE_AUTHENTICATOR) {
        Some(a) => bound && octets_eq(a.value.as_slice(), expected_mac.as_slice()),
        None => bound && reply.find_attribute(EAP_MESSAGE).is_none(),
    }
}

fn authenticator_eq(a: &[u8; 16], b: &[u8; 16]) -> (r: bool)
    ensures
        r == (*a == *b),
{
    let r = octets_eq(a.as_slice(), b.as_slice());
    proof {
        if a@ == b@ {
            assert forall|i: int| 0 <= i < 16 implies a[i] == b[i] by {
                assert(a@[i] == b@[i]);
            }
            assert(*a =~= *b);
        }
    }
    r
}

/// The `State` of a challenge, which the next request has to echo.
pub fn extract_state(reply: &Packet) -> (r: Option<Vec<u8>>)
    ensures
        option_view(r) == first_of(reply@.attributes, STATE),
{
    match reply.find_attribute(STATE) {
        Some(a) => Some(copy_octets(&a.value)),
        None => None,
    }
}

/// The number in a tagged integer attribute (RFC 2868): a tag octet and 24 bits.
pub open spec fn tagged_integer(value: Seq<u8>) -> Option<nat> {
    if value.len() == 4 {
        Some((value[1] * 0x1_0000 + value[2] * 0x100 + value[3]) as nat)
    } else {
        None
    }
}

/// The value of a tagged text attribute (RFC 2868): a leading octet of at most
/// 0x1F is a tag.
pub open spec fn untagged(value: Seq<u8>) -> Seq<u8> {
    if value.len() > 0 && value[0] <= MAX_TAG_OCTET {
        value.skip(1)
    } else {
        value
    }
}

/// Whether an attribute says what a VLAN assignment needs: `owed` is whether it
/// has to be there at all.
pub open spec fn tunnel_says(value: Option<Seq<u8>>, wanted: nat, owed: bool) -> bool {
    match value {
        Some(v) => tagged_integer(v) == Some(wanted),
        None => !owed,
    }
}

/// The VLAN that a reply assigns, or `Err` for an assignment that is not of type
/// VLAN on medium 802 (RFC 3580).
pub open spec fn vlan_of(attrs: Seq<AttributeView>) -> Result<Option<Seq<char>>, RadiusClientError> {
    let group = first_of(attrs, TUNNEL_PRIVATE_GROUP_ID);
    if tunnel_says(first_of(attrs, TUNNEL_TYPE), TUNNEL_TYPE_VLAN as nat, group is Some)
        && tunnel_says(first_of(attrs, TUNNEL_MEDIUM_TYPE), TUNNEL_MEDIUM_802 as nat, group is Some) {
        match group {
            Some(value) => Ok(Some(lossy_text(untagged(value)))),
            None => Ok(None),
        }
    } else {
        Err(RadiusClientError::MalformedVlanAssignment)
    }
}

/// The number of seconds in a `Session-Timeout`, where it is one.
pub open spec fn timeout_of(attrs: Seq<AttributeView>) -> Option<u32> {
    match first_of(attrs, SESSION_TIMEOUT) {
        Some(v) => if v.len() == 4 {
            Some(be32(v) as u32)
        } else {
            None
        },
        None => None,
    }
}

/// What a reply authorizes.
pub open spec fn authorization_of(attrs: Seq<AttributeView>) -> Result<
    AuthorizationView,
    RadiusClientError,
> {
    match vlan_of(attrs) {
        Err(e) => Err(e),
        Ok(vlan) => Ok(
            AuthorizationView {
                vlan,
                filter_id: match first_of(attrs, FILTER_ID) {
                    Some(v) => Some(lossy_text(v)),
                    None => None,
                },
                session_timeout: timeout_of(attrs),
                class: first_of(attrs, CLASS),
            },
        ),
    }
}

/// The EAP packet that a reply carries, if it carries one.
pub open spec fn carried_eap(attrs: Seq<AttributeView>) -> Option<Seq<u8>> {
    if eap_of(attrs).len() == 0 {
        None
    } else {
        Some(eap_of(attrs))
    }
}

/// The event that a reply stands for.
pub open spec fn reply_event(reply: PacketView) -> Result<EventView, RadiusClientError> {
    match reply.code {
        Code::AccessChallenge => match carried_eap(reply.attributes) {
            Some(eap) => Ok(EventView::AccessChallenge { eap }),
            None => Err(RadiusClientError::MissingEapMessage),
        },
        Code::AccessAccept => match authorization_of(reply.attributes) {
            Ok(authorization) => Ok(
                EventView::AccessAccept { authorization, eap: carried_eap(reply.attributes) },
            ),
            Err(e) => Err(e),
        },
        Code::AccessReject => Ok(EventView::AccessReject { eap: carried_eap(reply.attributes) }),
        other => Err(RadiusClientError::UnexpectedReplyCode(code_octet(other))),
    }
}

/// Map a RADIUS reply to the session event it drives.
pub fn parse_reply(reply: &Packet) -> (r: Result<Event, RadiusClientError>)
    ensures
        outcome(r) == reply_event(reply@),
{
    let eap = non_empty(reassemble(reply));
    match reply.code {
        Code::AccessChallenge => match eap {
            Some(eap) => Ok(Event::AccessChallenge { eap }),
            None => Err(RadiusClientError::MissingEapMessage),
        },
        Code::AccessAccept => match parse_authorization(reply) {
            Ok(authorization) => Ok(Event::AccessAccept { authorization, eap }),
            Err(e) => Err(e),
        },
        Code::AccessReject => Ok(Event::AccessReject { eap }),
        other => Err(RadiusClientError::UnexpectedReplyCode(other.as_u8())),
    }
}

/// Extract the authorization parameters of an `Access-Accept`: VLAN, ACL name,
/// session lifetime and class. A VLAN assignment of another tunnel type or medium
/// is refused rather than dropped.
pub fn parse_authorization(reply: &Packet) -> (r: Result<Authorization, RadiusClientError>)
    ensures
        outcome(r) == authorization_of(reply@.attributes),
{
    let group = reply.find_attribute(TUNNEL_PRIVATE_GROUP_ID);
    let owed = group.is_some();
    let typed = match reply.find_attribute(TUNNEL_TYPE) {
        Some(a) => is_tagged_integer(a.value.as_slice(), TUNNEL_TYPE_VLAN),
        None => !owed,
    };
    let wired = match reply.find_attribute(TUNNEL_MEDIUM_TYPE) {
        Some(a) => is_tagged_integer(a.value.as_slice(), TUNNEL_MEDIUM_802),
        None => !owed,
    };
    if !typed || !wired {
        return Err(RadiusClientError::MalformedVlanAssignment);
    }
    let vlan = match group {
        Some(a) => Some(parse_tunnel_group(a.value.as_slice())),
        None => None,
    };
    let filter_id = match reply.find_attribute(FILTER_ID) {
        Some(a) => Some(utf8_lossy(a.value.as_slice())),
        None => None,
    };
    let session_timeout = match reply.find_attribute(SESSION_TIMEOUT) {
        Some(a) => {
            if a.value.len() == 4 {
                Some(read_be32(a.value.as_slice()))
            } else {
                None
            }
        },
        None => None,
    };
    let class = match reply.find_attribute(CLASS) {
        Some(a) => Some(copy_octets(&a.value)),
        None => None,
    };
    Ok(Authorization { vlan, filter_id, session_timeout, class })
}

/// Whether a tagged integer attribute holds the number `wanted`.
fn is_tagged_integer(value: &[u8], wanted: u32) -> (r: bool)
    ensures
        r == (tagged_integer(value@) == Some(wanted as nat)),
{
    value.len() == 4 && value[1] as u32 * 0x1_0000 + value[2] as u32 * 0x100 + value[3] as u32
        == wanted
}

/// Decode a `Tunnel-Private-Group-ID`: a leading tag octet is stripped; the
/// remainder is the VLAN id or name.
fn parse_tunnel_group(value: &[u8]) -> (r: String)
    ensures
        r@ == lossy_text(untagged(value@)),
{
    if value.len() > 0 && value[0] <= MAX_TAG_OCTET {
        utf8_lossy(slice_subrange(value, 1, value.len()))
    } else {
        utf8_lossy(value)
    }
}

fn non_empty(v: Vec<u8>) -> (r: Option<Vec<u8>>)
    ensures
        option_view(r) == (if v@.len() == 0 { None } else { Some(v@) }),
{
    if v.is_empty() {
        None
    } else {
        Some(v)
    }
}

/// Only a reply with the code of an `Access-Accept` can authorize, and a faulty
/// VLAN assignment in it authorizes nothing.
pub proof fn law_only_an_accept_authorizes(reply: PacketView)
    requires
        reply_event(reply) matches Ok(e) && e is AccessAccept,
    ensures
        reply.code is AccessAccept,
        vlan_of(reply.attributes) is Ok,
{
}

/// A reply with EAP in it but without a `Message-Authenticator` is never genuine,
/// nor is any reply under another request's authenticator.
pub proof fn law_unprotected_eap_is_forged(
    reply: PacketView,
    authenticator: [u8; 16],
    mac: [u8; 16],
)
    requires
        (first_of(reply.attributes, MESSAGE_AUTHENTICATOR) is None && first_of(
            reply.attributes,
            EAP_MESSAGE,
        ) is Some) || reply.authenticator != authenticator,
    ensures
        !genuine(reply, authenticator, mac),
{
}

} // verus!
