//! What a `RadSec` connection decides about a reply.

use super::error::RadSecError;
use crate::radius::packet::Packet;
use vstd::prelude::*;

verus! {

/// Default `RadSec` port (RFC 6614).
pub const RADSEC_PORT: u16 = 2083;

/// Take the one reply that was read after a request, if its Identifier is the
/// request's (RFC 2865 section 3): anything else is stale, duplicated or unasked.
pub fn match_reply(expected: u8, reply: Packet) -> (r: Result<Packet, RadSecError>)
    ensures
        r == (if reply.identifier == expected {
            Ok(reply)
        } else {
            Err(RadSecError::UnexpectedReply { expected, got: reply.identifier })
        }),
{
    if reply.identifier != expected {
        return Err(RadSecError::UnexpectedReply { expected, got: reply.identifier });
    }
    Ok(reply)
}

/// A reply is taken exactly if it has the Identifier of the request, and is then handed on
/// as it came.
pub proof fn law_replies_match_their_request(
    expected: u8,
    reply: Packet,
    r: Result<Packet, RadSecError>,
)
    requires
        call_ensures(match_reply, (expected, reply), r),
    ensures
        r is Ok <==> reply.identifier == expected,
        r matches Ok(taken) ==> taken == reply,
        r matches Err(e) ==> e == (RadSecError::UnexpectedReply { expected, got: reply.identifier }),
{
}

} // verus!
