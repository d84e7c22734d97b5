//! What the server reads in a request, and what a session learns from a reply, by the
//! attribute numbers and values of RFC 2865, 2866, 2868, 2869, 3579 and 3580.

use super::accounting::{
    accounting_attributes, accounting_outcome, cause_of, law_accounting_names_the_session, status_of,
};
use super::context::{lemma_mac_text_fits, ContextView};
use super::eap_message::{eap_of, fragments, lemma_eap_of_append};
use super::error::RadiusClientError;
use super::reply::{authorization_of, genuine, reply_event, tagged_integer};
use super::request::{
    eap_request, eap_request_attributes, law_eap_request_is_faithful, mab_request,
    mab_request_attributes, optional_attr, placeholder, sealed, unsealed, zeroes,
};
use super::sanitize::fit_user_name;
use crate::bytes::be32_octets;
use crate::pacp::ethernet::mac_text;
use crate::pae::effect::{AcctTrigger, TerminateCause};
use crate::pae::event::EventView;
use crate::radius::packet::{
    attrs_bytes, code_octet, first_of, integer_attr, lemma_attrs_bytes_len, oversize, text_attr,
    AttributeView, PacketError, PacketView,
};
use crate::text::lossy_text;
use vstd::prelude::*;
use vstd::utf8::{encode_utf8, encode_utf8_decode_utf8, encode_utf8_valid_utf8};

verus! {

/// The value is a number of four octets, most significant first.
pub open spec fn is_number(value: Option<Seq<u8>>, n: nat) -> bool {
    value matches Some(v) && v.len() == 4 && v[0] * 16777216 + v[1] * 65536 + v[2] * 256 + v[3] == n
}

/// An attribute that comes before all others of its type is the first of its type.
pub proof fn lemma_first_at(attrs: Seq<AttributeView>, i: int, attr_type: u8)
    requires
        0 <= i < attrs.len(),
        attrs[i].attr_type == attr_type,
        forall|j: int| 0 <= j < i ==> (#[trigger] attrs[j]).attr_type != attr_type,
    ensures
        first_of(attrs, attr_type) == Some(attrs[i].value),
    decreases attrs.len(),
{
    if i > 0 {
        let rest = attrs.skip(1);
        assert(attrs[0].attr_type != attr_type);
        assert forall|j: int| 0 <= j < i - 1 implies (#[trigger] rest[j]).attr_type != attr_type by {
            assert(rest[j] == attrs[j + 1]);
        }
        lemma_first_at(rest, i - 1, attr_type);
    }
}

/// Where no attribute is of a type there is no first one of it.
pub proof fn lemma_first_none(attrs: Seq<AttributeView>, attr_type: u8)
    requires
        forall|j: int| 0 <= j < attrs.len() ==> (#[trigger] attrs[j]).attr_type != attr_type,
    ensures
        first_of(attrs, attr_type) is None,
    decreases attrs.len(),
{
    if attrs.len() > 0 {
        let rest = attrs.skip(1);
        assert forall|j: int| 0 <= j < rest.len() implies (#[trigger] rest[j]).attr_type != attr_type by {
            assert(rest[j] == attrs[j + 1]);
        }
        lemma_first_none(rest, attr_type);
    }
}

/// The first attribute of a type is the one that no other of its type comes before.
pub proof fn law_first_comes_first(attrs: Seq<AttributeView>, attr_type: u8)
    ensures
        match first_of(attrs, attr_type) {
            Some(value) => exists|i: int|
                0 <= i < attrs.len() && #[trigger] attrs[i] == (AttributeView { attr_type, value })
                    && forall|j: int| 0 <= j < i ==> (#[trigger] attrs[j]).attr_type != attr_type,
            None => forall|j: int|
                0 <= j < attrs.len() ==> (#[trigger] attrs[j]).attr_type != attr_type,
        },
{
    if exists|i: int| 0 <= i < attrs.len() && (#[trigger] attrs[i]).attr_type == attr_type {
        let k = choose|i: int| 0 <= i < attrs.len() && (#[trigger] attrs[i]).attr_type == attr_type;
        let i = lemma_least(attrs, attr_type, k);
        lemma_first_at(attrs, i, attr_type);
    } else {
        lemma_first_none(attrs, attr_type);
    }
}

proof fn lemma_least(attrs: Seq<AttributeView>, attr_type: u8, k: int) -> (i: int)
    requires
        0 <= k < attrs.len(),
        attrs[k].attr_type == attr_type,
    ensures
        0 <= i < attrs.len(),
        attrs[i].attr_type == attr_type,
        forall|j: int| 0 <= j < i ==> (#[trigger] attrs[j]).attr_type != attr_type,
    decreases k,
{
    if exists|j: int| 0 <= j < k && (#[trigger] attrs[j]).attr_type == attr_type {
        let j = choose|j: int| 0 <= j < k && (#[trigger] attrs[j]).attr_type == attr_type;
        lemma_least(attrs, attr_type, j)
    } else {
        k
    }
}

/// The attributes say which NAS asks, through which port, and about which station:
/// NAS-IP-Address (4), NAS-Identifier (32), NAS-Port-Id (87), NAS-Port-Type (61) Ethernet
/// (15), NAS-Port (5), Calling-Station-Id (31) and Called-Station-Id (30).
pub open spec fn introduces(attrs: Seq<AttributeView>, ctx: ContextView) -> bool {
    &&& match ctx.nas_ip {
        Some(ip) => first_of(attrs, 4) == Some(ip@),
        None => first_of(attrs, 4) is None,
    }
    &&& first_of(attrs, 32) == Some(encode_utf8(ctx.nas_identifier))
    &&& first_of(attrs, 87) == Some(encode_utf8(ctx.nas_port_id))
    &&& is_number(first_of(attrs, 61), 15)
    &&& match ctx.nas_port {
        Some(port) => is_number(first_of(attrs, 5), port as nat),
        None => first_of(attrs, 5) is None,
    }
    &&& first_of(attrs, 31) == Some(encode_utf8(mac_text(ctx.calling_station)))
    &&& first_of(attrs, 30) == Some(encode_utf8(mac_text(ctx.called_station)))
}

/// No attribute but an EAP-Message (79) is there twice.
pub open spec fn each_once(attrs: Seq<AttributeView>) -> bool {
    forall|i: int, j: int|
        0 <= i < j < attrs.len() && (#[trigger] attrs[i]).attr_type == (#[trigger] attrs[j]).attr_type
            ==> attrs[i].attr_type == 79
}

/// A number in four octets.
proof fn lemma_number(n: u32)
    ensures
        is_number(Some(be32_octets(n as nat)), n as nat),
{
    let v = n as int;
    let o = be32_octets(n as nat);
    assert(0 <= v / 0x100_0000 < 256) by (nonlinear_arith)
        requires
            0 <= v < 0x1_0000_0000,
    ;
    assert(v == v / 0x100_0000 * 0x100_0000 + v / 0x1_0000 % 256 * 0x1_0000 + v / 0x100 % 256 * 0x100 + v
        % 256);
    assert(o[0] == v / 0x100_0000 && o[1] == v / 0x1_0000 % 256 && o[2] == v / 0x100 % 256 && o[3] == v
        % 256);
}

/// The types of the attributes that name the NAS, the port and the station.
spec fn is_context_type(t: u8) -> bool {
    t == 4 || t == 32 || t == 87 || t == 61 || t == 5 || t == 31 || t == 30
}

/// A list of attributes introduces the NAS if the ones of the context are in it, each for
/// the first time.
proof fn lemma_introduces(before: Seq<AttributeView>, ctx: ContextView, after: Seq<AttributeView>)
    requires
        forall|i: int| 0 <= i < before.len() ==> !is_context_type((#[trigger] before[i]).attr_type),
        forall|i: int| 0 <= i < after.len() ==> !is_context_type((#[trigger] after[i]).attr_type),
    ensures
        introduces(before + ctx.attributes() + after, ctx),
{
    let mid = ctx.attributes();
    let attrs = before + mid + after;
    let b = before.len() as int;
    let a = ctx.address().len() as int;
    let n = ctx.port_number().len() as int;
    assert forall|i: int| 0 <= i < b implies !is_context_type((#[trigger] attrs[i]).attr_type) by {
        assert(attrs[i] == before[i]);
    }
    assert forall|i: int| 0 <= i < mid.len() implies #[trigger] attrs[b + i] == mid[i] by {}
    assert forall|i: int| b + mid.len() <= i < attrs.len() implies !is_context_type(
        (#[trigger] attrs[i]).attr_type,
    ) by {
        assert(attrs[i] == after[i - b - mid.len()]);
    }
    assert(mid.len() == a + 3 + n + 2);
    assert(attrs[b + a] == mid[a] && attrs[b + a + 1] == mid[a + 1] && attrs[b + a + 2] == mid[a + 2]);
    assert(attrs[b + a + 3 + n] == mid[a + 3 + n] && attrs[b + a + 4 + n] == mid[a + 4 + n]);
    if ctx.nas_ip is Some {
        assert(attrs[b] == mid[0]);
        lemma_first_at(attrs, b, 4);
    } else {
        lemma_first_none(attrs, 4);
    }
    lemma_first_at(attrs, b + a, 32);
    lemma_first_at(attrs, b + a + 1, 87);
    lemma_first_at(attrs, b + a + 2, 61);
    lemma_number(15);
    if let Some(port) = ctx.nas_port {
        assert(attrs[b + a + 3] == mid[a + 3]);
        lemma_first_at(attrs, b + a + 3, 5);
        lemma_number(port);
    } else {
        lemma_first_none(attrs, 5);
    }
    lemma_first_at(attrs, b + a + 3 + n, 31);
    lemma_first_at(attrs, b + a + 4 + n, 30);
}

/// An EAP request is an Access-Request (1) under the given Identifier and authenticator.
/// Its Service-Type (6) is Framed (2). It carries the EAP packet, the User-Name (1) and
/// the State (24) that it was given, introduces the NAS, and ends with the one
/// Message-Authenticator (80), which is still sixteen zeroes. Nothing else is in it, and
/// nothing is in it twice.
pub proof fn law_eap_request_says_it_all(
    ctx: ContextView,
    identifier: u8,
    authenticator: [u8; 16],
    identity: Option<Seq<u8>>,
    state: Option<Seq<u8>>,
    eap: Seq<u8>,
)
    requires
        eap_request(ctx, identifier, authenticator, identity, state, eap) is Ok,
    ensures
        ({
            let p = eap_request(ctx, identifier, authenticator, identity, state, eap)->Ok_0;
            let attrs = p.attributes;
            &&& code_octet(p.code) == 1
            &&& p.identifier == identifier
            &&& p.authenticator == authenticator
            &&& is_number(first_of(attrs, 6), 2)
            &&& first_of(attrs, 1) == identity
            &&& first_of(attrs, 24) == state
            &&& eap_of(attrs) == eap
            &&& introduces(attrs, ctx)
            &&& attrs.last() == (AttributeView { attr_type: 80, value: Seq::new(16, |i: int| 0u8) })
            &&& each_once(attrs)
            &&& forall|i: int|
                0 <= i < attrs.len() ==> {
                    let t = (#[trigger] attrs[i]).attr_type;
                    t == 1 || t == 4 || t == 5 || t == 6 || t == 24 || t == 30 || t == 31 || t == 32 || t
                        == 61 || t == 79 || t == 80 || t == 87
                }
        }),
{
    let attrs = eap_request_attributes(ctx, identity, state, eap);
    law_eap_request_is_faithful(ctx, identity, state, eap);
    let user = optional_attr(1, identity);
    let echoed = optional_attr(24, state);
    let service = seq![integer_attr(6, 2)];
    let seal = seq![placeholder()];
    let before = user + service;
    let after = echoed + fragments(eap) + seal;
    assert(attrs =~= before + ctx.attributes() + after);
    lemma_introduces(before, ctx, after);
    lemma_first_at(attrs, user.len() as int, 6);
    lemma_number(2);
    assert(zeroes() =~= Seq::new(16, |i: int| 0u8));
}

/// A MAC Authentication Bypass request is an Access-Request (1) under the given
/// Identifier and authenticator. Its Service-Type (6) is Call-Check (10). Its User-Name
/// (1) is the address that it is about, just as its Calling-Station-Id (31) is. It carries
/// neither EAP (79) nor State (24), introduces the NAS, and ends with the one
/// Message-Authenticator (80), which is still sixteen zeroes.
pub proof fn law_mab_request_says_it_all(ctx: ContextView, identifier: u8, authenticator: [u8; 16])
    requires
        mab_request(ctx, identifier, authenticator) is Ok,
    ensures
        ({
            let p = mab_request(ctx, identifier, authenticator)->Ok_0;
            let attrs = p.attributes;
            &&& code_octet(p.code) == 1
            &&& p.identifier == identifier
            &&& p.authenticator == authenticator
            &&& is_number(first_of(attrs, 6), 10)
            &&& first_of(attrs, 1) == Some(encode_utf8(mac_text(ctx.calling_station)))
            &&& first_of(attrs, 1) == first_of(attrs, 31)
            &&& introduces(attrs, ctx)
            &&& attrs.last() == (AttributeView { attr_type: 80, value: Seq::new(16, |i: int| 0u8) })
            &&& each_once(attrs)
            &&& forall|i: int|
                0 <= i < attrs.len() ==> {
                    let t = (#[trigger] attrs[i]).attr_type;
                    t == 1 || t == 4 || t == 5 || t == 6 || t == 30 || t == 31 || t == 32 || t == 61 || t
                        == 80 || t == 87
                }
        }),
{
    let attrs = mab_request_attributes(ctx);
    let before = seq![
        text_attr(1, mac_text(ctx.calling_station)),
        integer_attr(6, 10),
    ];
    let after = seq![placeholder()];
    assert(attrs =~= before + ctx.attributes() + after);
    lemma_introduces(before, ctx, after);
    lemma_first_at(attrs, 0, 1);
    lemma_first_at(attrs, 1, 6);
    lemma_number(10);
    assert(zeroes() =~= Seq::new(16, |i: int| 0u8));
}

/// The server can tell an 802.1X login from a MAC Authentication Bypass by the
/// Service-Type (6).
pub proof fn law_kinds_of_request_differ(
    a: ContextView,
    b: ContextView,
    identifier: u8,
    authenticator: [u8; 16],
    identity: Option<Seq<u8>>,
    state: Option<Seq<u8>>,
    eap: Seq<u8>,
)
    requires
        eap_request(a, identifier, authenticator, identity, state, eap) is Ok,
        mab_request(b, identifier, authenticator) is Ok,
    ensures
        ({
            let p = eap_request(a, identifier, authenticator, identity, state, eap)->Ok_0;
            let q = mab_request(b, identifier, authenticator)->Ok_0;
            &&& first_of(p.attributes, 6) is Some
            &&& first_of(q.attributes, 6) is Some
            &&& first_of(p.attributes, 6) != first_of(q.attributes, 6)
        }),
{
    law_eap_request_says_it_all(a, identifier, authenticator, identity, state, eap);
    law_mab_request_says_it_all(b, identifier, authenticator);
}

/// A request is refused for one of these reasons and no other: there is no EAP to relay;
/// the identity is unfit for a User-Name; a name or the State is longer than the 253
/// octets of an attribute; or the whole is longer than the 4096 octets of a packet. The
/// first two go before the rest, in this order.
pub proof fn law_eap_requests_are_refused_for_a_reason(
    ctx: ContextView,
    identifier: u8,
    authenticator: [u8; 16],
    identity: Option<Seq<u8>>,
    state: Option<Seq<u8>>,
    eap: Seq<u8>,
)
    ensures
        ({
            let r = eap_request(ctx, identifier, authenticator, identity, state, eap);
            let unfit = identity is Some && !fit_user_name(identity->0);
            let long = encode_utf8(ctx.nas_identifier).len() > 253 || encode_utf8(ctx.nas_port_id).len()
                > 253 || (state is Some && (state->0).len() > 253);
            let too_long = if encode_utf8(ctx.nas_identifier).len() > 253 {
                encode_utf8(ctx.nas_identifier).len()
            } else if encode_utf8(ctx.nas_port_id).len() > 253 {
                encode_utf8(ctx.nas_port_id).len()
            } else {
                (state->0).len()
            };
            let attrs = eap_request_attributes(ctx, identity, state, eap);
            &&& r == Err::<PacketView, RadiusClientError>(RadiusClientError::EmptyEapRelay) <==> eap.len()
                == 0
            &&& r == Err::<PacketView, RadiusClientError>(RadiusClientError::InvalidUserName)
                <==> eap.len() > 0 && unfit
            &&& eap.len() > 0 && !unfit && long ==> r == Err::<PacketView, RadiusClientError>(
                RadiusClientError::Proto(PacketError::AttributeTooLong(too_long as usize)),
            )
            &&& r is Ok <==> eap.len() > 0 && !unfit && !long && 20 + attrs_bytes(attrs).len() <= 4096
        }),
{
    let attrs = eap_request_attributes(ctx, identity, state, eap);
    lemma_attrs_bytes_len(attrs);
    if !(encode_utf8(ctx.nas_identifier).len() > 253 || encode_utf8(ctx.nas_port_id).len() > 253 || (
    state is Some && (state->0).len() > 253)) && !(identity is Some && !fit_user_name(identity->0)) {
        lemma_mac_text_fits(ctx.calling_station);
        lemma_mac_text_fits(ctx.called_station);
        assert forall|i: int| 0 <= i < attrs.len() implies (#[trigger] attrs[i]).value.len() <= 253 by {}
        lemma_none_oversize(attrs);
    }
}

proof fn lemma_none_oversize(attrs: Seq<AttributeView>)
    requires
        forall|i: int| 0 <= i < attrs.len() ==> (#[trigger] attrs[i]).value.len() <= 253,
    ensures
        oversize(attrs) is None,
    decreases attrs.len(),
{
    if attrs.len() > 0 {
        let rest = attrs.skip(1);
        assert forall|i: int| 0 <= i < rest.len() implies (#[trigger] rest[i]).value.len() <= 253 by {
            assert(rest[i] == attrs[i + 1]);
        }
        lemma_none_oversize(rest);
    }
}

/// A text is fit for a User-Name exactly if it takes 1 to 253 octets and none of its
/// characters is a control character or a line or paragraph separator.
pub proof fn law_user_names_are_plain_text(name: Seq<char>)
    ensures
        fit_user_name(encode_utf8(name)) <==> 1 <= encode_utf8(name).len() <= 253 && forall|i: int|
            0 <= i < name.len() ==> {
                let c = #[trigger] name[i] as u32;
                c >= 0x20 && !(0x7F <= c <= 0x9F) && c != 0x2028 && c != 0x2029
            },
{
    encode_utf8_decode_utf8(name);
    encode_utf8_valid_utf8(name);
}

/// A bypass request is refused only where a name of the NAS is longer than the 253 octets
/// of an attribute, or the whole is longer than the 4096 octets of a packet.
pub proof fn law_mab_requests_are_refused_for_a_reason(
    ctx: ContextView,
    identifier: u8,
    authenticator: [u8; 16],
)
    ensures
        ({
            let r = mab_request(ctx, identifier, authenticator);
            let attrs = mab_request_attributes(ctx);
            let long = encode_utf8(ctx.nas_identifier).len() > 253 || encode_utf8(ctx.nas_port_id).len()
                > 253;
            &&& r is Ok <==> !long && 20 + attrs_bytes(attrs).len() <= 4096
            &&& r matches Err(e) ==> e is Proto
        }),
{
    let attrs = mab_request_attributes(ctx);
    lemma_attrs_bytes_len(attrs);
    if encode_utf8(ctx.nas_identifier).len() <= 253 && encode_utf8(ctx.nas_port_id).len() <= 253 {
        lemma_mac_text_fits(ctx.calling_station);
        lemma_mac_text_fits(ctx.called_station);
        assert forall|i: int| 0 <= i < attrs.len() implies (#[trigger] attrs[i]).value.len() <= 253 by {}
        lemma_none_oversize(attrs);
    }
}

/// The number of a cause in an Acct-Terminate-Cause: User-Request (1), Lost-Carrier (2),
/// Session-Timeout (5), Admin-Reset (6), and NAS-Request (10) for a failed
/// re-authentication.
pub open spec fn cause_number(cause: TerminateCause) -> nat {
    match cause {
        TerminateCause::SupplicantLogoff => 1,
        TerminateCause::PortLinkDown => 2,
        TerminateCause::SessionTimeout => 5,
        TerminateCause::AdminReset => 6,
        TerminateCause::ReauthFailure => 10,
    }
}

/// An accounting request is an Accounting-Request (4) under the given Identifier, its
/// authenticator still zero. Its Acct-Status-Type (40) is Start (1) or Stop (2), as the
/// trigger is. It names the session by Acct-Session-Id (44), echoes the Class (25), and
/// introduces the NAS. A Stop says why by Acct-Terminate-Cause (49), and a Start does not.
/// Nothing else is in it, and nothing is in it twice.
pub proof fn law_accounting_says_it_all(
    ctx: ContextView,
    identifier: u8,
    trigger: AcctTrigger,
    session_id: Seq<char>,
    class: Option<Seq<u8>>,
)
    requires
        accounting_outcome(ctx, identifier, trigger, session_id, class) is Ok,
    ensures
        ({
            let p = accounting_outcome(ctx, identifier, trigger, session_id, class)->Ok_0;
            let attrs = p.attributes;
            &&& code_octet(p.code) == 4
            &&& p.identifier == identifier
            &&& forall|i: int| 0 <= i < 16 ==> #[trigger] p.authenticator[i] == 0
            &&& is_number(
                first_of(attrs, 40),
                if trigger is Start {
                    1
                } else {
                    2
                },
            )
            &&& first_of(attrs, 44) == Some(encode_utf8(session_id))
            &&& first_of(attrs, 25) == class
            &&& match trigger {
                AcctTrigger::Start => first_of(attrs, 49) is None,
                AcctTrigger::Stop(cause) => is_number(first_of(attrs, 49), cause_number(cause)),
            }
            &&& introduces(attrs, ctx)
            &&& each_once(attrs)
            &&& forall|i: int|
                0 <= i < attrs.len() ==> {
                    let t = (#[trigger] attrs[i]).attr_type;
                    t == 4 || t == 5 || t == 25 || t == 30 || t == 31 || t == 32 || t == 40 || t == 44 || t
                        == 49 || t == 61 || t == 87
                }
        }),
{
    let attrs = accounting_attributes(ctx, trigger, session_id, class);
    law_accounting_names_the_session(ctx, trigger, session_id, class);
    let head = seq![
        integer_attr(40, status_of(trigger) as nat),
        text_attr(44, session_id),
    ];
    let reason = match trigger {
        AcctTrigger::Start => Seq::empty(),
        AcctTrigger::Stop(cause) => seq![integer_attr(49, cause_of(cause) as nat)],
    };
    let after = optional_attr(25, class) + reason;
    assert(attrs =~= head + ctx.attributes() + after);
    lemma_introduces(head, ctx, after);
    lemma_first_at(attrs, 0, 40);
    lemma_number(status_of(trigger));
    assert(each_once(attrs));
    match trigger {
        AcctTrigger::Start => {
            lemma_first_none(attrs, 49);
        },
        AcctTrigger::Stop(cause) => {
            assert(attrs[attrs.len() - 1] == reason[0]);
            lemma_first_at(attrs, attrs.len() - 1, 49);
            lemma_number(cause_of(cause));
        },
    }
}

/// An accounting request is refused only where the session id, a name of the NAS or the
/// Class is longer than the 253 octets of an attribute.
pub proof fn law_accounting_is_refused_for_a_reason(
    ctx: ContextView,
    identifier: u8,
    trigger: AcctTrigger,
    session_id: Seq<char>,
    class: Option<Seq<u8>>,
)
    ensures
        ({
            let r = accounting_outcome(ctx, identifier, trigger, session_id, class);
            &&& r is Ok <==> encode_utf8(session_id).len() <= 253 && encode_utf8(ctx.nas_identifier).len()
                <= 253 && encode_utf8(ctx.nas_port_id).len() <= 253 && (class is Some ==> (
            class->0).len() <= 253)
            &&& r matches Err(e) ==> e is Proto
        }),
{
}

/// The EAP in a list of attributes is that of its parts, one after the other: an
/// EAP-Message (79) adds its whole value, any other attribute nothing.
pub proof fn law_eap_is_joined_in_order(
    before: Seq<AttributeView>,
    x: AttributeView,
    after: Seq<AttributeView>,
)
    ensures
        eap_of(before + seq![x] + after) == eap_of(before) + (if x.attr_type == 79 {
            x.value
        } else {
            Seq::empty()
        }) + eap_of(after),
        eap_of(Seq::empty()) == Seq::<u8>::empty(),
{
    lemma_eap_of_append(before, seq![x]);
    lemma_eap_of_append(before + seq![x], after);
    reveal_with_fuel(eap_of, 2);
    assert(seq![x].drop_last() =~= Seq::<AttributeView>::empty());
    assert(eap_of(seq![x]) =~= (if x.attr_type == 79 {
        x.value
    } else {
        Seq::empty()
    }));
}

/// The octets, or none where there are no octets.
pub open spec fn some_octets(octets: Seq<u8>) -> Option<Seq<u8>> {
    if octets.len() > 0 {
        Some(octets)
    } else {
        None
    }
}

/// Whatever event comes of a reply, it carries exactly the EAP of the reply, and no EAP
/// only where the reply has none.
pub proof fn law_reply_carries_its_eap(reply: PacketView)
    requires
        reply_event(reply) is Ok,
    ensures
        match reply_event(reply)->Ok_0 {
            EventView::AccessChallenge { eap } => Some(eap) == some_octets(eap_of(reply.attributes)),
            EventView::AccessAccept { eap, .. } => eap == some_octets(eap_of(reply.attributes)),
            EventView::AccessReject { eap } => eap == some_octets(eap_of(reply.attributes)),
            _ => false,
        },
{
}

/// What the server says is what the session hears: an Access-Challenge (11) is a
/// challenge, and needs EAP; an Access-Accept (2) is an accept with what is granted, and
/// needs its VLAN assignment to be in order; an Access-Reject (3) is always a rejection;
/// and nothing else is an answer.
pub proof fn law_reply_codes_mean_what_they_say(reply: PacketView)
    requires
        reply.canonical(),
    ensures
        ({
            let r = reply_event(reply);
            let code = code_octet(reply.code);
            &&& code == 11 && eap_of(reply.attributes).len() > 0 ==> r is Ok && r->Ok_0 is AccessChallenge
            &&& code == 11 && eap_of(reply.attributes).len() == 0 ==> r == Err::<
                EventView,
                RadiusClientError,
            >(RadiusClientError::MissingEapMessage)
            &&& code == 2 ==> match authorization_of(reply.attributes) {
                Ok(granted) => r is Ok && (r->Ok_0 matches EventView::AccessAccept { authorization, .. }
                    && authorization == granted),
                Err(e) => r == Err::<EventView, RadiusClientError>(e),
            }
            &&& code == 3 ==> r is Ok && r->Ok_0 is AccessReject
            &&& code != 11 && code != 2 && code != 3 ==> r == Err::<EventView, RadiusClientError>(
                RadiusClientError::UnexpectedReplyCode(code),
            )
        }),
{
}

/// The value of a Tunnel-Type (64) or Tunnel-Medium-Type (65): a tag, and a small number.
pub open spec fn is_tagged(value: Seq<u8>, n: u8) -> bool {
    value.len() == 4 && value[1] == 0 && value[2] == 0 && value[3] == n
}

/// A tunnel is one to a VLAN (13) on an 802 network (6): what is said of it says so, and
/// where a VLAN is assigned, it is said.
pub open spec fn tunnel_in_order(attrs: Seq<AttributeView>) -> bool {
    let assigned = first_of(attrs, 81) is Some;
    &&& match first_of(attrs, 64) {
        Some(v) => is_tagged(v, 13),
        None => !assigned,
    }
    &&& match first_of(attrs, 65) {
        Some(v) => is_tagged(v, 6),
        None => !assigned,
    }
}

/// What an accept grants is what the server put into it: the VLAN of the
/// Tunnel-Private-Group-ID (81) without its tag, the ACL of the Filter-Id (11), the
/// seconds of the Session-Timeout (27) where that is a number, and the Class (25). A
/// VLAN assignment that is not in order is refused, and nothing else is.
pub proof fn law_grant_is_what_the_server_sent(attrs: Seq<AttributeView>)
    ensures
        authorization_of(attrs) is Ok <==> tunnel_in_order(attrs),
        authorization_of(attrs) matches Err(e) ==> e is MalformedVlanAssignment,
        authorization_of(attrs) matches Ok(a) ==> {
            &&& a.vlan == (match first_of(attrs, 81) {
                Some(v) => Some(lossy_text(if v.len() > 0 && v[0] < 32 {
                    v.skip(1)
                } else {
                    v
                })),
                None => None,
            })
            &&& a.filter_id == (match first_of(attrs, 11) {
                Some(v) => Some(lossy_text(v)),
                None => None,
            })
            &&& forall|n: u32|
                #![trigger is_number(first_of(attrs, 27), n as nat)]
                a.session_timeout == Some(n) <==> is_number(first_of(attrs, 27), n as nat)
            &&& a.class == first_of(attrs, 25)
        },
{
    if let Some(v) = first_of(attrs, 64) {
        lemma_tagged(v, 13);
    }
    if let Some(v) = first_of(attrs, 65) {
        lemma_tagged(v, 6);
    }
}

proof fn lemma_tagged(value: Seq<u8>, n: u8)
    ensures
        is_tagged(value, n) <==> tagged_integer(value) == Some(n as nat),
{
}

/// A reply is genuine exactly if it bears the authenticator that answers the request, and
/// a Message-Authenticator (80) with the right digest; the latter may be missing only
/// where the reply carries no EAP-Message (79).
pub proof fn law_genuine_replies_bear_both_digests(
    reply: PacketView,
    authenticator: [u8; 16],
    mac: [u8; 16],
)
    ensures
        ({
            let digest = first_of(reply.attributes, 80);
            let eap = first_of(reply.attributes, 79);
            genuine(reply, authenticator, mac) <==> reply.authenticator == authenticator && (digest
                == Some(mac@) || (digest is None && eap is None))
        }),
{
}

/// An EAP packet is cut into as few EAP-Messages (79) as possible: every one but the last
/// is full, with 253 octets.
pub proof fn law_fragments_are_full(eap: Seq<u8>, i: int)
    requires
        0 <= i < fragments(eap).len(),
    ensures
        fragments(eap)[i].attr_type == 79,
        i < fragments(eap).len() - 1 ==> fragments(eap)[i].value.len() == 253,
        0 < fragments(eap)[i].value.len() <= 253,
        fragments(eap)[i].value == eap.subrange(253 * i, 253 * i + fragments(eap)[i].value.len()),
{
}

/// What the digest of a Message-Authenticator (80) covers: all attributes, in their places
/// and with their values, but for the digests themselves, which count as zeroes.
pub proof fn law_digest_covers_all_but_itself(attrs: Seq<AttributeView>, i: int)
    requires
        0 <= i < attrs.len(),
    ensures
        unsealed(attrs).len() == attrs.len(),
        unsealed(attrs)[i].attr_type == attrs[i].attr_type,
        attrs[i].attr_type != 80 ==> unsealed(attrs)[i] == attrs[i],
        attrs[i].attr_type == 80 ==> unsealed(attrs)[i].value == Seq::new(16, |j: int| 0u8),
{
    assert(zeroes() =~= Seq::new(16, |j: int| 0u8));
}

/// Sealing writes the digest into the first Message-Authenticator (80), and changes nothing
/// else.
pub proof fn law_sealing_writes_the_digest_alone(
    attrs: Seq<AttributeView>,
    digest: Seq<u8>,
    i: int,
)
    requires
        0 <= i < attrs.len(),
    ensures
        sealed(attrs, digest).len() == attrs.len(),
        sealed(attrs, digest)[i].attr_type == attrs[i].attr_type,
        sealed(attrs, digest)[i] == (if attrs[i].attr_type == 80 && forall|j: int|
            0 <= j < i ==> (#[trigger] attrs[j]).attr_type != 80 {
            AttributeView { attr_type: 80, value: digest }
        } else {
            attrs[i]
        }),
    decreases attrs.len(),
{
    let rest = attrs.skip(1);
    reveal_with_fuel(sealed, 2);
    if attrs[0].attr_type != 80 && i > 0 {
        law_sealing_writes_the_digest_alone(rest, digest, i - 1);
        let clear = forall|j: int| 0 <= j < i ==> (#[trigger] attrs[j]).attr_type != 80;
        let rest_clear = forall|j: int| 0 <= j < i - 1 ==> (#[trigger] rest[j]).attr_type != 80;
        if clear {
            assert forall|j: int| 0 <= j < i - 1 implies (#[trigger] rest[j]).attr_type != 80 by {
                assert(rest[j] == attrs[j + 1]);
            }
        }
        if rest_clear {
            assert forall|j: int| 0 <= j < i implies (#[trigger] attrs[j]).attr_type != 80 by {
                if j > 0 {
                    assert(rest[j - 1] == attrs[j]);
                }
            }
        }
    } else if attrs[0].attr_type != 80 {
        if rest.len() > 0 {
            law_sealing_writes_the_digest_alone(rest, digest, 0);
        }
    }
}

} // verus!
