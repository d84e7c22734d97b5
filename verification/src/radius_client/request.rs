//! Building `Access-Request` packets, both EAP pass-through and MAC
//! Authentication Bypass, with a mandatory `Message-Authenticator` (RFC 3579).
//!
//! A request is built with a zeroed `Message-Authenticator`; the keyed digest over
//! [`message_authenticator_input`] is then put into it with
//! [`seal_message_authenticator`].

use super::consts::{
    MESSAGE_AUTHENTICATOR, SERVICE_TYPE_CALL_CHECK, SERVICE_TYPE_FRAMED,
};
use super::context::{append, extended, lemma_mac_text_fits, ContextView, RequestContext};
use super::eap_message::{
    eap_of, fragment_into, fragments, law_relay_round_trip, no_eap,
};
use super::error::RadiusClientError;
use super::sanitize::{fit_user_name, user_name};
use crate::bytes::outcome;
use crate::pacp::ethernet::{format_mac, mac_text};
use crate::radius::attr::{SERVICE_TYPE, STATE, USER_NAME};
use crate::radius::packet::{
    attribute_views, first_of, integer_attr, text_attr, Attribute, AttributeView, Code, Packet, PacketError,
    PacketView, MAX_VALUE_LEN,
};
use vstd::prelude::*;
use vstd::slice::slice_to_vec;

verus! {

/// Sixteen zero octets.
pub open spec fn zeroes() -> Seq<u8> {
    Seq::new(16, |i: int| 0u8)
}

/// The `Message-Authenticator` before its digest is known.
pub open spec fn placeholder() -> AttributeView {
    AttributeView { attr_type: MESSAGE_AUTHENTICATOR, value: zeroes() }
}

/// An attribute with the given value, if there is a value.
pub open spec fn optional_attr(attr_type: u8, value: Option<Seq<u8>>) -> Seq<AttributeView> {
    match value {
        Some(v) => seq![AttributeView { attr_type, value: v }],
        None => Seq::empty(),
    }
}

/// The packet, unless it is too long to be sent.
pub open spec fn sendable(p: PacketView) -> Result<PacketView, RadiusClientError> {
    match p.fault() {
        Some(e) => Err(RadiusClientError::Proto(e)),
        None => Ok(p),
    }
}

/// The attributes of an EAP Access-Request, in order.
pub open spec fn eap_request_attributes(
    ctx: ContextView,
    identity: Option<Seq<u8>>,
    state: Option<Seq<u8>>,
    eap: Seq<u8>,
) -> Seq<AttributeView> {
    optional_attr(USER_NAME, identity) + seq![integer_attr(SERVICE_TYPE, SERVICE_TYPE_FRAMED as nat)]
        + ctx.attributes() + optional_attr(STATE, state) + fragments(eap) + seq![placeholder()]
}

/// What building an EAP Access-Request comes to.
pub open spec fn eap_request(
    ctx: ContextView,
    identifier: u8,
    authenticator: [u8; 16],
    identity: Option<Seq<u8>>,
    state: Option<Seq<u8>>,
    eap: Seq<u8>,
) -> Result<PacketView, RadiusClientError> {
    if eap.len() == 0 {
        Err(RadiusClientError::EmptyEapRelay)
    } else if identity matches Some(id) && !fit_user_name(id) {
        Err(RadiusClientError::InvalidUserName)
    } else if let Some(e) = ctx.fault() {
        Err(RadiusClientError::Proto(e))
    } else if state matches Some(s) && s.len() > MAX_VALUE_LEN {
        Err(RadiusClientError::Proto(PacketError::AttributeTooLong((state->0).len() as usize)))
    } else {
        sendable(
            PacketView {
                code: Code::AccessRequest,
                identifier,
                authenticator,
                attributes: eap_request_attributes(ctx, identity, state, eap),
            },
        )
    }
}

/// The attributes of a MAC Authentication Bypass request, in order.
pub open spec fn mab_request_attributes(ctx: ContextView) -> Seq<AttributeView> {
    seq![
        text_attr(USER_NAME, mac_text(ctx.calling_station)),
        integer_attr(SERVICE_TYPE, SERVICE_TYPE_CALL_CHECK as nat),
    ] + ctx.attributes() + seq![placeholder()]
}

/// What building a MAC Authentication Bypass request comes to.
pub open spec fn mab_request(ctx: ContextView, identifier: u8, authenticator: [u8; 16]) -> Result<
    PacketView,
    RadiusClientError,
> {
    if let Some(e) = ctx.fault() {
        Err(RadiusClientError::Proto(e))
    } else {
        sendable(
            PacketView {
                code: Code::AccessRequest,
                identifier,
                authenticator,
                attributes: mab_request_attributes(ctx),
            },
        )
    }
}

/// An optional slice replaced by what it holds.
pub open spec fn slice_view(s: Option<&[u8]>) -> Option<Seq<u8>> {
    match s {
        Some(v) => Some(v@),
        None => None,
    }
}

/// Build an EAP pass-through `Access-Request`, its `Message-Authenticator` zeroed.
///
/// `request_authenticator` is the random Request Authenticator. `identity` is the
/// supplicant's EAP identity for the `User-Name`, when known (the first relay);
/// `None` omits it. `state` is the `State` of the challenge that is answered,
/// echoed verbatim. `eap` is the EAP response relayed verbatim.
pub fn access_request_eap(
    ctx: &RequestContext,
    identifier: u8,
    request_authenticator: [u8; 16],
    identity: Option<&[u8]>,
    state: Option<&[u8]>,
    eap: &[u8],
) -> (r: Result<Packet, RadiusClientError>)
    ensures
        outcome(r) == eap_request(
            ctx@,
            identifier,
            request_authenticator,
            slice_view(identity),
            slice_view(state),
            eap@,
        ),
{
    if eap.is_empty() {
        return Err(RadiusClientError::EmptyEapRelay);
    }
    let mut packet = Packet::new(Code::AccessRequest, identifier, request_authenticator);
    if let Some(id) = identity {
        let name = user_name(id)?;
        append(&mut packet, Attribute::string(USER_NAME, name.as_str()))?;
    }
    append(&mut packet, Attribute::integer(SERVICE_TYPE, SERVICE_TYPE_FRAMED))?;
    ctx.append_nas_attributes(&mut packet)?;
    if let Some(s) = state {
        append(&mut packet, Attribute::new(STATE, slice_to_vec(s)))?;
    }
    fragment_into(&mut packet, eap)?;
    add_placeholder(&mut packet);
    assert(packet@.attributes =~= eap_request_attributes(
        ctx@,
        slice_view(identity),
        slice_view(state),
        eap@,
    ));
    check_sendable(packet)
}

/// Build a MAC Authentication Bypass `Access-Request`, its `Message-Authenticator`
/// zeroed: `User-Name` and `Calling-Station-Id` are the endpoint MAC,
/// `Service-Type = Call-Check`, no EAP.
pub fn access_request_mab(
    ctx: &RequestContext,
    identifier: u8,
    request_authenticator: [u8; 16],
) -> (r: Result<Packet, RadiusClientError>)
    ensures
        outcome(r) == mab_request(ctx@, identifier, request_authenticator),
{
    proof {
        lemma_mac_text_fits(ctx.calling_station);
    }
    let mut packet = Packet::new(Code::AccessRequest, identifier, request_authenticator);
    let name = format_mac(&ctx.calling_station);
    append(&mut packet, Attribute::string(USER_NAME, name.as_str()))?;
    append(&mut packet, Attribute::integer(SERVICE_TYPE, SERVICE_TYPE_CALL_CHECK))?;
    ctx.append_nas_attributes(&mut packet)?;
    add_placeholder(&mut packet);
    assert(packet@.attributes =~= mab_request_attributes(ctx@));
    check_sendable(packet)
}

fn add_placeholder(packet: &mut Packet)
    ensures
        final(packet)@ == extended(old(packet)@, seq![placeholder()]),
{
    let value: [u8; 16] = [0; 16];
    assert(value@ =~= zeroes());
    packet.add_attribute(
        Attribute { attr_type: MESSAGE_AUTHENTICATOR, value: slice_to_vec(value.as_slice()) },
    );
    assert(packet@.attributes =~= old(packet)@.attributes + seq![placeholder()]);
}

fn check_sendable(packet: Packet) -> (r: Result<Packet, RadiusClientError>)
    ensures
        outcome(r) == sendable(packet@),
{
    match packet.encode() {
        Ok(_) => Ok(packet),
        Err(e) => Err(RadiusClientError::Proto(e)),
    }
}

/// Attributes with the value of the first `Message-Authenticator` replaced.
pub open spec fn sealed(attrs: Seq<AttributeView>, mac: Seq<u8>) -> Seq<AttributeView>
    decreases attrs.len(),
{
    if attrs.len() == 0 {
        attrs
    } else if attrs[0].attr_type == MESSAGE_AUTHENTICATOR {
        attrs.update(0, AttributeView { value: mac, ..attrs[0] })
    } else {
        seq![attrs[0]] + sealed(attrs.skip(1), mac)
    }
}

/// Attributes with every `Message-Authenticator` zeroed.
pub open spec fn unsealed(attrs: Seq<AttributeView>) -> Seq<AttributeView> {
    Seq::new(
        attrs.len(),
        |i: int|
            if attrs[i].attr_type == MESSAGE_AUTHENTICATOR {
                placeholder()
            } else {
                attrs[i]
            },
    )
}

/// Write the keyed digest into the `Message-Authenticator` attribute.
pub fn seal_message_authenticator(packet: &mut Packet, mac: [u8; 16])
    ensures
        final(packet)@ == (PacketView {
            attributes: sealed(old(packet)@.attributes, mac@),
            ..old(packet)@
        }),
{
    let mut i: usize = 0;
    let ghost all = packet@.attributes;
    assert(all.skip(0) =~= all);
    assert(all.take(0) + sealed(all.skip(0), mac@) =~= sealed(all, mac@));
    while i < packet.attributes.len()
        invariant
            i <= packet.attributes.len(),
            *packet == *old(packet),
            all == packet@.attributes,
            all.take(i as int) + sealed(all.skip(i as int), mac@) == sealed(all, mac@),
        decreases packet.attributes.len() - i,
    {
        let ghost rest = all.skip(i as int);
        assert(rest[0] == packet.attributes@[i as int]@);
        assert(rest.skip(1) =~= all.skip(i + 1));
        if packet.attributes[i].attr_type == MESSAGE_AUTHENTICATOR {
            let value = slice_to_vec(mac.as_slice());
            let attribute = Attribute { attr_type: MESSAGE_AUTHENTICATOR, value };
            packet.attributes.set(i, attribute);
            assert(packet@.attributes =~= all.update(i as int, attribute@));
            assert(all.update(i as int, attribute@) =~= all.take(i as int) + rest.update(
                0,
                attribute@,
            ));
            return ;
        }
        assert(all.take(i as int) + (seq![rest[0]] + sealed(rest.skip(1), mac@)) =~= all.take(i + 1)
            + sealed(all.skip(i + 1), mac@));
        i += 1;
    }
    assert(all.take(i as int) + sealed(all.skip(i as int), mac@) =~= all);
}

/// The octets that a `Message-Authenticator` covers (RFC 3579 section 3.2): the
/// packet with the Request Authenticator in its authenticator field and every
/// `Message-Authenticator` zeroed.
pub fn message_authenticator_input(packet: &Packet, request_authenticator: [u8; 16]) -> (r: Result<
    Vec<u8>,
    PacketError,
>)
    ensures
        ({
            let covered = PacketView {
                authenticator: request_authenticator,
                attributes: unsealed(packet@.attributes),
                ..packet@
            };
            outcome(r) == (match covered.fault() {
                Some(e) => Err(e),
                None => Ok(covered.bytes()),
            })
        }),
{
    let mut attributes: Vec<Attribute> = Vec::new();
    let mut i: usize = 0;
    while i < packet.attributes.len()
        invariant
            i <= packet.attributes.len(),
            attribute_views(attributes@) == unsealed(packet@.attributes).take(i as int),
        decreases packet.attributes.len() - i,
    {
        let ghost done = attribute_views(attributes@);
        let attribute = if packet.attributes[i].attr_type == MESSAGE_AUTHENTICATOR {
            let value: [u8; 16] = [0; 16];
            assert(value@ =~= zeroes());
            Attribute { attr_type: MESSAGE_AUTHENTICATOR, value: slice_to_vec(value.as_slice()) }
        } else {
            packet.attributes[i].clone()
        };
        proof {
            assert(attribute@ == unsealed(packet@.attributes)[i as int]) by {
                assert(packet@.attributes[i as int] == packet.attributes@[i as int]@);
            }
        }
        attributes.push(attribute);
        assert(attribute_views(attributes@) =~= done.push(attribute@));
        assert(done.push(attribute@) =~= unsealed(packet@.attributes).take(i + 1));
        i += 1;
    }
    assert(attribute_views(attributes@) =~= unsealed(packet@.attributes));
    let covered = Packet {
        code: packet.code,
        identifier: packet.identifier,
        authenticator: request_authenticator,
        attributes,
    };
    covered.encode()
}

/// How many `Message-Authenticator` attributes there are.
pub open spec fn seal_count(attrs: Seq<AttributeView>) -> nat {
    attrs.filter(|a: AttributeView| a.attr_type == MESSAGE_AUTHENTICATOR).len()
}

/// No attribute of the list is a `Message-Authenticator`.
pub open spec fn no_seal(attrs: Seq<AttributeView>) -> bool {
    forall|i: int| 0 <= i < attrs.len() ==> (#[trigger] attrs[i]).attr_type != MESSAGE_AUTHENTICATOR
}

proof fn lemma_no_seal_count(attrs: Seq<AttributeView>)
    requires
        no_seal(attrs),
    ensures
        seal_count(attrs) == 0,
    decreases attrs.len(),
{
    reveal(Seq::filter);
    if attrs.len() > 0 {
        lemma_no_seal_count(attrs.drop_last());
    }
}

/// What sealing does to attributes of which only the last is a
/// `Message-Authenticator`.
proof fn lemma_sealed_last(attrs: Seq<AttributeView>, mac: Seq<u8>)
    requires
        no_seal(attrs),
    ensures
        sealed(attrs.push(placeholder()), mac) == attrs.push(
            AttributeView { value: mac, ..placeholder() },
        ),
    decreases attrs.len(),
{
    let all = attrs.push(placeholder());
    if attrs.len() == 0 {
        assert(sealed(all, mac) =~= attrs.push(AttributeView { value: mac, ..placeholder() }));
    } else {
        assert(no_seal(attrs.skip(1)));
        lemma_sealed_last(attrs.skip(1), mac);
        assert(all.skip(1) =~= attrs.skip(1).push(placeholder()));
        assert(sealed(all, mac) =~= attrs.push(AttributeView { value: mac, ..placeholder() }));
    }
}

/// A request carries exactly one `Message-Authenticator`, sealing it fills in the
/// digest and nothing else, and zeroing it again gives the very octets that the
/// digest was computed over.
pub proof fn law_seal_covers_the_request(attrs: Seq<AttributeView>, mac: Seq<u8>)
    requires
        no_seal(attrs),
    ensures
        seal_count(attrs.push(placeholder())) == 1,
        sealed(attrs.push(placeholder()), mac) == attrs.push(
            AttributeView { value: mac, ..placeholder() },
        ),
        unsealed(sealed(attrs.push(placeholder()), mac)) == attrs.push(placeholder()),
{
    reveal(Seq::filter);
    let all = attrs.push(placeholder());
    lemma_no_seal_count(attrs);
    assert(all.drop_last() =~= attrs);
    lemma_sealed_last(attrs, mac);
    assert(unsealed(sealed(all, mac)) =~= all);
}

/// An EAP request relays the EAP packet verbatim, echoes the `State` it was given,
/// names the user exactly as the supplicant did, and has one
/// `Message-Authenticator`, at its end.
pub proof fn law_eap_request_is_faithful(
    ctx: ContextView,
    identity: Option<Seq<u8>>,
    state: Option<Seq<u8>>,
    eap: Seq<u8>,
)
    ensures
        ({
            let attrs = eap_request_attributes(ctx, identity, state, eap);
            &&& eap_of(attrs) == eap
            &&& attrs.last() == placeholder()
            &&& no_seal(attrs.drop_last())
            &&& first_of(attrs, STATE) == state
            &&& first_of(attrs, USER_NAME) == identity
        }),
{
    let attrs = eap_request_attributes(ctx, identity, state, eap);
    let user = optional_attr(USER_NAME, identity);
    let front = user + seq![integer_attr(SERVICE_TYPE, SERVICE_TYPE_FRAMED as nat)]
        + ctx.attributes();
    let before = front + optional_attr(STATE, state);
    assert(attrs =~= before + fragments(eap) + seq![placeholder()]);
    assert(no_eap(before));
    assert(no_eap(seq![placeholder()]));
    law_relay_round_trip(before, eap, seq![placeholder()]);
    assert(attrs.drop_last() =~= before + fragments(eap));
    lemma_first_of_skip(front, optional_attr(STATE, state) + fragments(eap) + seq![placeholder()], STATE);
    assert(attrs =~= front + (optional_attr(STATE, state) + fragments(eap) + seq![placeholder()]));
    lemma_first_of_optional(STATE, state, fragments(eap) + seq![placeholder()]);
    assert(optional_attr(STATE, state) + fragments(eap) + seq![placeholder()] =~= optional_attr(
        STATE,
        state,
    ) + (fragments(eap) + seq![placeholder()]));
    let rest = seq![integer_attr(SERVICE_TYPE, SERVICE_TYPE_FRAMED as nat)] + ctx.attributes()
        + optional_attr(STATE, state) + fragments(eap) + seq![placeholder()];
    assert(attrs =~= user + rest);
    lemma_first_of_optional(USER_NAME, identity, rest);
}

/// Attributes of other types in front do not hide the first one of a type.
pub proof fn lemma_first_of_skip(a: Seq<AttributeView>, b: Seq<AttributeView>, attr_type: u8)
    requires
        forall|i: int| 0 <= i < a.len() ==> (#[trigger] a[i]).attr_type != attr_type,
    ensures
        first_of(a + b, attr_type) == first_of(b, attr_type),
    decreases a.len(),
{
    if a.len() == 0 {
        assert(a + b =~= b);
    } else {
        assert((a + b).skip(1) =~= a.skip(1) + b);
        assert((a + b)[0] == a[0]);
        lemma_first_of_skip(a.skip(1), b, attr_type);
    }
}

/// An optional attribute in front of others is the first of its type.
pub proof fn lemma_first_of_optional(attr_type: u8, value: Option<Seq<u8>>, rest: Seq<AttributeView>)
    requires
        forall|i: int| 0 <= i < rest.len() ==> (#[trigger] rest[i]).attr_type != attr_type,
    ensures
        first_of(optional_attr(attr_type, value) + rest, attr_type) == value,
{
    if value is Some {
        assert((optional_attr(attr_type, value) + rest)[0].attr_type == attr_type);
    } else {
        lemma_first_of_skip(rest, Seq::empty(), attr_type);
        assert(rest + Seq::<AttributeView>::empty() =~= rest);
        assert(optional_attr(attr_type, value) + rest =~= rest);
    }
}

} // verus!
