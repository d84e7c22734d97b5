//! Building `Accounting-Request` packets (RFC 2866) for session start and stop.

use super::context::{append, ContextView, RequestContext};
use super::error::RadiusClientError;
use super::consts::NAS_PORT_ID;
use super::request::{
    lemma_first_of_optional, lemma_first_of_skip, optional_attr, slice_view,
};
use crate::bytes::outcome;
use crate::pacp::ethernet::mac_text;
use crate::pae::effect::{AcctTrigger, TerminateCause};
use crate::radius::attr::{
    ACCT_SESSION_ID, ACCT_STATUS_TYPE, ACCT_TERMINATE_CAUSE, CALLING_STATION_ID, CLASS,
};
use crate::radius::packet::{
    first_of, integer_attr, text_attr, Attribute, AttributeView, Code, Packet, PacketError, PacketView,
    MAX_VALUE_LEN,
};
use vstd::prelude::*;
use vstd::slice::slice_to_vec;
use vstd::utf8::encode_utf8;

verus! {

/// The authenticator field of a request whose digest is not computed yet.
pub const NO_AUTHENTICATOR: [u8; 16] = [0, 0, 0, 0, 0, 0, 0, 0, 0, 0, 0, 0, 0, 0, 0, 0];

/// `Acct-Status-Type = Start`.
pub const STATUS_START: u32 = 1;

/// `Acct-Status-Type = Stop`.
pub const STATUS_STOP: u32 = 2;

/// `Acct-Terminate-Cause = User-Request`.
pub const CAUSE_USER_REQUEST: u32 = 1;

/// `Acct-Terminate-Cause = Lost-Carrier`.
pub const CAUSE_LOST_CARRIER: u32 = 2;

/// `Acct-Terminate-Cause = Session-Timeout`.
pub const CAUSE_SESSION_TIMEOUT: u32 = 5;

/// `Acct-Terminate-Cause = Admin-Reset`.
pub const CAUSE_ADMIN_RESET: u32 = 6;

/// `Acct-Terminate-Cause = NAS-Request`.
pub const CAUSE_NAS_REQUEST: u32 = 10;

/// The status that a trigger reports.
pub open spec fn status_of(trigger: AcctTrigger) -> u32 {
    match trigger {
        AcctTrigger::Start => STATUS_START,
        AcctTrigger::Stop(_) => STATUS_STOP,
    }
}

/// The RADIUS number of a cause.
pub open spec fn cause_of(cause: TerminateCause) -> u32 {
    match cause {
        TerminateCause::SupplicantLogoff => CAUSE_USER_REQUEST,
        TerminateCause::PortLinkDown => CAUSE_LOST_CARRIER,
        TerminateCause::SessionTimeout => CAUSE_SESSION_TIMEOUT,
        TerminateCause::AdminReset => CAUSE_ADMIN_RESET,
        TerminateCause::ReauthFailure => CAUSE_NAS_REQUEST,
    }
}

/// The attributes of an Accounting-Request, in order: a Stop says why.
pub open spec fn accounting_attributes(
    ctx: ContextView,
    trigger: AcctTrigger,
    session_id: Seq<char>,
    class: Option<Seq<u8>>,
) -> Seq<AttributeView> {
    seq![
        integer_attr(ACCT_STATUS_TYPE, status_of(trigger) as nat),
        text_attr(ACCT_SESSION_ID, session_id),
    ] + ctx.attributes() + optional_attr(CLASS, class) + match trigger {
        AcctTrigger::Start => Seq::empty(),
        AcctTrigger::Stop(cause) => seq![integer_attr(ACCT_TERMINATE_CAUSE, cause_of(cause) as nat)],
    }
}

/// What building an Accounting-Request comes to.
pub open spec fn accounting_outcome(
    ctx: ContextView,
    identifier: u8,
    trigger: AcctTrigger,
    session_id: Seq<char>,
    class: Option<Seq<u8>>,
) -> Result<PacketView, RadiusClientError> {
    if encode_utf8(session_id).len() > MAX_VALUE_LEN {
        Err(
            RadiusClientError::Proto(
                PacketError::AttributeTooLong(encode_utf8(session_id).len() as usize),
            ),
        )
    } else if let Some(e) = ctx.fault() {
        Err(RadiusClientError::Proto(e))
    } else if class matches Some(c) && c.len() > MAX_VALUE_LEN {
        Err(RadiusClientError::Proto(PacketError::AttributeTooLong((class->0).len() as usize)))
    } else {
        Ok(
            PacketView {
                code: Code::AccountingRequest,
                identifier,
                authenticator: NO_AUTHENTICATOR,
                attributes: accounting_attributes(ctx, trigger, session_id, class),
            },
        )
    }
}

/// Build an `Accounting-Request` for the given lifecycle `trigger`.
///
/// `class` is the opaque RADIUS `Class` from the `Access-Accept`, echoed for
/// server-side correlation. The Request Authenticator is left zero: the keyed
/// digest that goes there (RFC 2866) covers exactly that form.
pub fn accounting_request(
    ctx: &RequestContext,
    identifier: u8,
    trigger: AcctTrigger,
    session_id: &str,
    class: Option<&[u8]>,
) -> (r: Result<Packet, RadiusClientError>)
    ensures
        outcome(r) == accounting_outcome(ctx@, identifier, trigger, session_id@, slice_view(class)),
{
    let status = match trigger {
        AcctTrigger::Start => STATUS_START,
        AcctTrigger::Stop(_) => STATUS_STOP,
    };
    let mut packet = Packet::new(Code::AccountingRequest, identifier, NO_AUTHENTICATOR);
    append(&mut packet, Attribute::integer(ACCT_STATUS_TYPE, status))?;
    append(&mut packet, Attribute::string(ACCT_SESSION_ID, session_id))?;
    ctx.append_nas_attributes(&mut packet)?;
    if let Some(class) = class {
        append(&mut packet, Attribute::new(CLASS, slice_to_vec(class)))?;
    }
    if let AcctTrigger::Stop(cause) = trigger {
        append(&mut packet, Attribute::integer(ACCT_TERMINATE_CAUSE, terminate_cause(cause)))?;
    }
    assert(packet@.attributes =~= accounting_attributes(
        ctx@,
        trigger,
        session_id@,
        slice_view(class),
    ));
    Ok(packet)
}

/// Map a session's [`TerminateCause`] to the RADIUS `Acct-Terminate-Cause`.
fn terminate_cause(cause: TerminateCause) -> (r: u32)
    ensures
        r == cause_of(cause),
{
    match cause {
        TerminateCause::SupplicantLogoff => CAUSE_USER_REQUEST,
        TerminateCause::PortLinkDown => CAUSE_LOST_CARRIER,
        TerminateCause::SessionTimeout => CAUSE_SESSION_TIMEOUT,
        TerminateCause::AdminReset => CAUSE_ADMIN_RESET,
        TerminateCause::ReauthFailure => CAUSE_NAS_REQUEST,
    }
}

/// An accounting request says which session it is about, by session id, port and
/// station, and echoes the `Class` that the server gave the session.
pub proof fn law_accounting_names_the_session(
    ctx: ContextView,
    trigger: AcctTrigger,
    session_id: Seq<char>,
    class: Option<Seq<u8>>,
)
    ensures
        ({
            let attrs = accounting_attributes(ctx, trigger, session_id, class);
            &&& first_of(attrs, ACCT_SESSION_ID) == Some(encode_utf8(session_id))
            &&& first_of(attrs, NAS_PORT_ID) == Some(encode_utf8(ctx.nas_port_id))
            &&& first_of(attrs, CALLING_STATION_ID) == Some(encode_utf8(mac_text(ctx.calling_station)))
            &&& first_of(attrs, CLASS) == class
        }),
{
    let attrs = accounting_attributes(ctx, trigger, session_id, class);
    let status = seq![integer_attr(ACCT_STATUS_TYPE, status_of(trigger) as nat)];
    let head = status.push(text_attr(ACCT_SESSION_ID, session_id));
    let cause = match trigger {
        AcctTrigger::Start => Seq::empty(),
        AcctTrigger::Stop(c) => seq![integer_attr(ACCT_TERMINATE_CAUSE, cause_of(c) as nat)],
    };

    let after_status = attrs.skip(1);
    assert(attrs =~= status + after_status);
    lemma_first_of_skip(status, after_status, ACCT_SESSION_ID);

    let to_port = head + ctx.address() + seq![ctx.attributes()[ctx.address().len() as int]];
    let from_port = attrs.skip(to_port.len() as int);
    assert(attrs =~= to_port + from_port);
    lemma_first_of_skip(to_port, from_port, NAS_PORT_ID);
    assert(from_port[0] == text_attr(NAS_PORT_ID, ctx.nas_port_id));

    let station = ctx.attributes().len() - 2;
    let to_station = head + ctx.attributes().take(station);
    let from_station = attrs.skip(to_station.len() as int);
    assert(attrs =~= to_station + from_station);
    lemma_first_of_skip(to_station, from_station, CALLING_STATION_ID);
    assert(from_station[0] == text_attr(CALLING_STATION_ID, mac_text(ctx.calling_station)));

    let to_class = head + ctx.attributes();
    assert(attrs =~= to_class + (optional_attr(CLASS, class) + cause));
    lemma_first_of_skip(to_class, optional_attr(CLASS, class) + cause, CLASS);
    lemma_first_of_optional(CLASS, class, cause);
}

} // verus!
