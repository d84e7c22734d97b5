//! Per-`{port, MAC}` RADIUS correlation: allocates RADIUS Identifiers, echoes the
//! server's `State` across challenge rounds, builds requests, and verifies and
//! parses replies into session events.

use super::error::AuthdError;
use crate::bytes::{copy_optional_octets, option_view};
use crate::pae::effect::AcctTrigger;
use crate::pae::event::{Event, EventView};
use crate::pae::session::next_id;
use crate::radius::attr::{CLASS, STATE};
use crate::radius::packet::{first_of, Packet, PacketView};
use crate::radius_client::accounting::{
    accounting_outcome, accounting_request, law_accounting_names_the_session,
};
use crate::radius_client::context::{ContextView, RequestContext};
use crate::radius_client::error::RadiusClientError;
use crate::radius_client::reply::{
    extract_state, genuine, parse_reply, reply_event, verify_reply,
};
use crate::radius_client::request::{
    access_request_eap, access_request_mab, eap_request, mab_request, slice_view,
};
use vstd::prelude::*;

verus! {

/// RADIUS correlation state for one supplicant session.
#[derive(Debug)]
pub struct RadiusSession {
    /// Next RADIUS Identifier for an Access-Request (wraps).
    next_id: u8,
    /// Next RADIUS Identifier for an Accounting-Request (wraps).
    next_acct_id: u8,
    /// The server's last `State`, echoed in the next Access-Request.
    last_state: Option<Vec<u8>>,
    /// The Request Authenticator of the outstanding request, if there is one: what
    /// binds a reply to it.
    pending: Option<[u8; 16]>,
    /// `Class` from the last Access-Accept, echoed in accounting.
    class: Option<Vec<u8>>,
}

/// What a RADIUS session is at.
#[verifier::ext_equal]
pub struct RadiusSessionView {
    pub next_id: u8,
    pub next_acct_id: u8,
    pub last_state: Option<Seq<u8>>,
    pub pending: Option<[u8; 16]>,
    pub class: Option<Seq<u8>>,
}

impl View for RadiusSession {
    type V = RadiusSessionView;

    closed spec fn view(&self) -> RadiusSessionView {
        RadiusSessionView {
            next_id: self.next_id,
            next_acct_id: self.next_acct_id,
            last_state: option_view(self.last_state),
            pending: self.pending,
            class: option_view(self.class),
        }
    }
}

/// A session that has sent nothing yet.
pub open spec fn fresh() -> RadiusSessionView {
    RadiusSessionView { next_id: 0, next_acct_id: 0, last_state: None, pending: None, class: None }
}

impl RadiusSessionView {
    /// The session once a request has gone out under its Identifier.
    pub open spec fn awaiting(self, request_authenticator: [u8; 16]) -> RadiusSessionView {
        RadiusSessionView {
            next_id: next_id(self.next_id),
            pending: Some(request_authenticator),
            ..self
        }
    }

    /// What a reply does to the session, given the digests that a genuine one bears:
    /// the outstanding request is used up by any reply, and only a genuine reply is
    /// read.
    pub open spec fn replied(self, reply: PacketView, authenticator: [u8; 16], mac: [u8; 16]) -> (
        RadiusSessionView,
        Result<EventView, AuthdError>,
    ) {
        let used = RadiusSessionView { pending: None, ..self };
        if self.pending is None {
            (self, Err(AuthdError::NoPendingRequest))
        } else if !genuine(reply, authenticator, mac) {
            (used, Err(AuthdError::ReplyVerificationFailed))
        } else {
            let read = RadiusSessionView { last_state: first_of(reply.attributes, STATE), ..used };
            match reply_event(reply) {
                Err(e) => (read, Err(AuthdError::Radius(e))),
                Ok(event) => match event {
                    EventView::AccessAccept { authorization, .. } => (
                        RadiusSessionView { class: authorization.class, ..read },
                        Ok(event),
                    ),
                    _ => (read, Ok(event)),
                },
            }
        }
    }
}

/// A result of the RADIUS client as one of the daemon.
pub open spec fn radius_result<T>(r: Result<T, RadiusClientError>) -> Result<T, AuthdError> {
    match r {
        Ok(v) => Ok(v),
        Err(e) => Err(AuthdError::Radius(e)),
    }
}

impl RadiusSession {
    /// A fresh session.
    pub fn new() -> (r: Self)
        ensures
            r@ == fresh(),
    {
        RadiusSession { next_id: 0, next_acct_id: 0, last_state: None, pending: None, class: None }
    }

    /// The `Class` to echo in accounting for this session, if one was granted.
    pub fn class(&self) -> (r: Option<&[u8]>)
        ensures
            slice_view(r) == self@.class,
    {
        match &self.class {
            Some(c) => Some(c.as_slice()),
            None => None,
        }
    }

    /// The Request Authenticator of the outstanding request, which the digests of its
    /// reply are computed with.
    pub fn pending(&self) -> (r: Option<[u8; 16]>)
        ensures
            r == self@.pending,
    {
        self.pending
    }

    /// Allocate the next RADIUS Identifier (wraps at 256).
    pub fn next_identifier(&mut self) -> (id: u8)
        ensures
            id == old(self)@.next_id,
            final(self)@ == (RadiusSessionView {
                next_id: next_id(old(self)@.next_id),
                ..old(self)@
            }),
    {
        let id = self.next_id;
        self.next_id = self.next_id.wrapping_add(1);
        id
    }

    /// Allocate the next RADIUS Identifier for accounting (wraps at 256).
    pub fn next_accounting_identifier(&mut self) -> (id: u8)
        ensures
            id == old(self)@.next_acct_id,
            final(self)@ == (RadiusSessionView {
                next_acct_id: next_id(old(self)@.next_acct_id),
                ..old(self)@
            }),
    {
        let id = self.next_acct_id;
        self.next_acct_id = self.next_acct_id.wrapping_add(1);
        id
    }

    /// Build an EAP pass-through `Access-Request`, echoing the current `State`.
    /// `request_authenticator` is a fresh random nonce; from now on it is what a
    /// reply has to answer to.
    pub fn build_eap_request(
        &mut self,
        ctx: &RequestContext,
        identity: Option<&[u8]>,
        eap: &[u8],
        request_authenticator: [u8; 16],
    ) -> (r: Result<Packet, AuthdError>)
        ensures
            final(self)@ == old(self)@.awaiting(request_authenticator),
            crate::bytes::outcome(r) == radius_result(
                eap_request(
                    ctx@,
                    old(self)@.next_id,
                    request_authenticator,
                    slice_view(identity),
                    old(self)@.last_state,
                    eap@,
                ),
            ),
    {
        let id = self.next_identifier();
        self.pending = Some(request_authenticator);
        let state = match &self.last_state {
            Some(s) => Some(s.as_slice()),
            None => None,
        };
        match access_request_eap(ctx, id, request_authenticator, identity, state, eap) {
            Ok(packet) => Ok(packet),
            Err(e) => Err(AuthdError::Radius(e)),
        }
    }

    /// Build a MAC Authentication Bypass `Access-Request`.
    pub fn build_mab_request(
        &mut self,
        ctx: &RequestContext,
        request_authenticator: [u8; 16],
    ) -> (r: Result<Packet, AuthdError>)
        ensures
            final(self)@ == old(self)@.awaiting(request_authenticator),
            crate::bytes::outcome(r) == radius_result(
                mab_request(ctx@, old(self)@.next_id, request_authenticator),
            ),
    {
        let id = self.next_identifier();
        self.pending = Some(request_authenticator);
        match access_request_mab(ctx, id, request_authenticator) {
            Ok(packet) => Ok(packet),
            Err(e) => Err(AuthdError::Radius(e)),
        }
    }

    /// Verify a reply against the outstanding request, parse it into the event it
    /// drives, and remember the new `State` and `Class`. The two digests are those
    /// that [`verify_reply`] compares with.
    pub fn handle_reply(
        &mut self,
        reply: &Packet,
        expected_authenticator: &[u8; 16],
        expected_mac: &[u8; 16],
    ) -> (r: Result<Event, AuthdError>)
        ensures
            (final(self)@, crate::bytes::outcome(r)) == old(self)@.replied(
                reply@,
                *expected_authenticator,
                *expected_mac,
            ),
    {
        if self.pending.is_none() {
            return Err(AuthdError::NoPendingRequest);
        }
        self.pending = None;
        if !verify_reply(reply, expected_authenticator, expected_mac) {
            return Err(AuthdError::ReplyVerificationFailed);
        }
        self.last_state = extract_state(reply);
        let event = match parse_reply(reply) {
            Ok(event) => event,
            Err(e) => return Err(AuthdError::Radius(e)),
        };
        if let Event::AccessAccept { authorization, .. } = &event {
            self.class = copy_optional_octets(&authorization.class);
        }
        Ok(event)
    }

    /// Build an `Accounting-Request` for `trigger`, echoing `Class`.
    pub fn build_accounting(
        &self,
        ctx: &RequestContext,
        identifier: u8,
        trigger: AcctTrigger,
        session_id: &str,
    ) -> (r: Result<Packet, AuthdError>)
        ensures
            crate::bytes::outcome(r) == radius_result(
                accounting_outcome(ctx@, identifier, trigger, session_id@, self@.class),
            ),
    {
        match accounting_request(ctx, identifier, trigger, session_id, self.class()) {
            Ok(packet) => Ok(packet),
            Err(e) => Err(AuthdError::Radius(e)),
        }
    }
}

impl Default for RadiusSession {
    fn default() -> (r: Self)
        ensures
            r@ == fresh(),
    {
        RadiusSession::new()
    }
}

/// An event comes out of a reply only if a request was outstanding and the reply is
/// genuine; a forged reply is never read, and leaves `State` and `Class` alone.
pub proof fn law_only_genuine_replies_count(
    s: RadiusSessionView,
    reply: PacketView,
    authenticator: [u8; 16],
    mac: [u8; 16],
)
    ensures
        s.replied(reply, authenticator, mac).1 is Ok ==> s.pending is Some && genuine(
            reply,
            authenticator,
            mac,
        ),
        !genuine(reply, authenticator, mac) ==> s.replied(reply, authenticator, mac).1 is Err && s.replied(
            reply,
            authenticator,
            mac,
        ).0.last_state == s.last_state && s.replied(reply, authenticator, mac).0.class == s.class,
{
}

/// A request is answered once: whatever the first reply was, a second one finds no
/// request outstanding.
pub proof fn law_replies_are_not_replayed(
    s: RadiusSessionView,
    first: PacketView,
    first_authenticator: [u8; 16],
    first_mac: [u8; 16],
    second: PacketView,
    second_authenticator: [u8; 16],
    second_mac: [u8; 16],
)
    ensures
        ({
            let t = s.replied(first, first_authenticator, first_mac).0;
            t.replied(second, second_authenticator, second_mac) == (
                t,
                Err::<EventView, AuthdError>(AuthdError::NoPendingRequest),
            )
        }),
{
}

/// The `State` of a genuine challenge is what the next request carries.
pub proof fn law_state_is_echoed(
    s: RadiusSessionView,
    reply: PacketView,
    authenticator: [u8; 16],
    mac: [u8; 16],
    ctx: ContextView,
    nonce: [u8; 16],
    identity: Option<Seq<u8>>,
    eap: Seq<u8>,
)
    requires
        s.pending is Some,
        genuine(reply, authenticator, mac),
        ({
            let t = s.replied(reply, authenticator, mac).0;
            eap_request(ctx, t.next_id, nonce, identity, t.last_state, eap) is Ok
        }),
    ensures
        ({
            let t = s.replied(reply, authenticator, mac).0;
            let request = eap_request(ctx, t.next_id, nonce, identity, t.last_state, eap)->Ok_0;
            first_of(request.attributes, STATE) == first_of(reply.attributes, STATE)
        }),
{
    let t = s.replied(reply, authenticator, mac).0;
    crate::radius_client::request::law_eap_request_is_faithful(ctx, identity, t.last_state, eap);
}

/// The `Class` of a genuine accept is what the accounting of the session carries from
/// then on.
pub proof fn law_class_is_echoed(
    s: RadiusSessionView,
    reply: PacketView,
    authenticator: [u8; 16],
    mac: [u8; 16],
    ctx: ContextView,
    identifier: u8,
    trigger: AcctTrigger,
    session_id: Seq<char>,
)
    requires
        s.replied(reply, authenticator, mac).1 matches Ok(event) && event is AccessAccept,
        ({
            let t = s.replied(reply, authenticator, mac).0;
            accounting_outcome(ctx, identifier, trigger, session_id, t.class) is Ok
        }),
    ensures
        ({
            let t = s.replied(reply, authenticator, mac).0;
            let request = accounting_outcome(ctx, identifier, trigger, session_id, t.class)->Ok_0;
            first_of(request.attributes, CLASS) == first_of(reply.attributes, CLASS)
        }),
{
    let t = s.replied(reply, authenticator, mac).0;
    law_accounting_names_the_session(ctx, trigger, session_id, t.class);
}

} // verus!
