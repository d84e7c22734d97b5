//! A minimal, read-only view of an EAP packet (RFC 3748 section 4): enough for
//! the pass-through authenticator to drive its state machine and to find the
//! identity that becomes the RADIUS `User-Name`, without interpreting any method.

use super::error::PacpError;
use crate::bytes::{be16, option_view, outcome, read_be16};
use vstd::prelude::*;
use vstd::slice::slice_subrange;

verus! {

/// Octets in the common EAP header: `Code(1) | Identifier(1) | Length(2)`.
pub const HEADER_LEN: usize = 4;

/// Minimum length of a Request/Response EAP packet (header + 1 Type octet).
pub const MIN_REQUEST_RESPONSE_LEN: usize = 5;

/// EAP Code (RFC 3748 section 4).
#[derive(Debug, Clone, Copy, PartialEq, Eq, Structural)]
pub enum EapCode {
    /// Request (1), server to peer.
    Request,
    /// Response (2), peer to server.
    Response,
    /// Success (3).
    Success,
    /// Failure (4).
    Failure,
    /// An unassigned code, preserved verbatim.
    Unknown(u8),
}

/// The code that an octet stands for.
pub open spec fn octet_code(v: u8) -> EapCode {
    match v {
        1 => EapCode::Request,
        2 => EapCode::Response,
        3 => EapCode::Success,
        4 => EapCode::Failure,
        _ => EapCode::Unknown(v),
    }
}

/// Whether a code carries a Type octet.
pub open spec fn carries_type(code: EapCode) -> bool {
    code is Request || code is Response
}

impl EapCode {
    /// Decode a code octet.
    pub fn from_u8(v: u8) -> (c: Self)
        ensures
            c == octet_code(v),
    {
        match v {
            1 => EapCode::Request,
            2 => EapCode::Response,
            3 => EapCode::Success,
            4 => EapCode::Failure,
            _ => EapCode::Unknown(v),
        }
    }

    /// Whether this code carries a Type octet (Request/Response only).
    pub fn has_type(self) -> (r: bool)
        ensures
            r == carries_type(self),
    {
        match self {
            EapCode::Request => true,
            EapCode::Response => true,
            _ => false,
        }
    }
}

/// EAP method Type number (IANA). Only the ones the authenticator's logic
/// branches on are named.
#[derive(Debug, Clone, Copy, PartialEq, Eq, Structural)]
pub enum EapType {
    /// Identity (1).
    Identity,
    /// Notification (2).
    Notification,
    /// Legacy Nak (3).
    Nak,
    /// EAP-TLS (13).
    Tls,
    /// EAP-TEAP (55).
    Teap,
    /// Any other method type.
    Other(u8),
}

/// The method type that an octet stands for.
pub open spec fn octet_method(v: u8) -> EapType {
    match v {
        1 => EapType::Identity,
        2 => EapType::Notification,
        3 => EapType::Nak,
        13 => EapType::Tls,
        55 => EapType::Teap,
        _ => EapType::Other(v),
    }
}

impl EapType {
    /// Decode a Type octet.
    pub fn from_u8(v: u8) -> (t: Self)
        ensures
            t == octet_method(v),
    {
        match v {
            1 => EapType::Identity,
            2 => EapType::Notification,
            3 => EapType::Nak,
            13 => EapType::Tls,
            55 => EapType::Teap,
            _ => EapType::Other(v),
        }
    }
}

/// A decoded EAP packet header with borrowed type-data.
#[derive(Debug, PartialEq, Eq)]
pub struct EapPacket<'a> {
    /// The EAP code.
    pub code: EapCode,
    /// The Identifier, used to match Requests with Responses.
    pub identifier: u8,
    /// The method Type: `Some` for Request/Response only.
    pub eap_type: Option<EapType>,
    /// Type-Data (the method payload), borrowed. Empty where there is no Type,
    /// or nothing beyond the Type octet.
    pub type_data: &'a [u8],
}

/// What an EAP packet holds.
#[verifier::ext_equal]
pub struct EapView {
    pub code: EapCode,
    pub identifier: u8,
    pub eap_type: Option<EapType>,
    pub type_data: Seq<u8>,
}

impl<'a> View for EapPacket<'a> {
    type V = EapView;

    open spec fn view(&self) -> EapView {
        EapView {
            code: self.code,
            identifier: self.identifier,
            eap_type: self.eap_type,
            type_data: self.type_data@,
        }
    }
}

impl EapView {
    /// The identity that an EAP-Response/Identity carries.
    pub open spec fn identity(self) -> Option<Seq<u8>> {
        if self.code is Response && self.eap_type == Some(EapType::Identity) {
            Some(self.type_data)
        } else {
            None
        }
    }
}

/// The least length that a packet of this code may declare: Request and Response
/// have room for a Type octet, the others have the bare header.
pub open spec fn least_length(code: EapCode) -> nat {
    if carries_type(code) {
        MIN_REQUEST_RESPONSE_LEN as nat
    } else {
        HEADER_LEN as nat
    }
}

/// Whether packets of this code are the bare header and no more (RFC 3748
/// section 4.2).
pub open spec fn header_only(code: EapCode) -> bool {
    code is Success || code is Failure
}

/// What decoding an EAP packet comes to. The Length field must not exceed the buffer,
/// nor be less than the code allows; and it has to be that of the whole buffer, since
/// the layer below hands over a body without padding.
pub open spec fn eap_decodes(buf: Seq<u8>) -> Result<EapView, PacpError> {
    if buf.len() < HEADER_LEN {
        Err(PacpError::TruncatedEapHeader { available: buf.len() as usize })
    } else {
        let declared = be16(buf[2], buf[3]);
        let code = octet_code(buf[0]);
        let mismatch = PacpError::EapLengthMismatch {
            declared: declared as usize,
            available: buf.len() as usize,
        };
        let unfit = PacpError::EapTooShort { code: buf[0], declared: declared as usize };
        if declared > buf.len() {
            Err(mismatch)
        } else if declared < least_length(code) {
            Err(unfit)
        } else if declared < buf.len() {
            Err(mismatch)
        } else if header_only(code) && declared != HEADER_LEN {
            Err(unfit)
        } else if carries_type(code) {
            Ok(
                EapView {
                    code,
                    identifier: buf[1],
                    eap_type: Some(octet_method(buf[4])),
                    type_data: buf.skip(MIN_REQUEST_RESPONSE_LEN as int),
                },
            )
        } else {
            Ok(EapView { code, identifier: buf[1], eap_type: None, type_data: Seq::empty() })
        }
    }
}

impl<'a> Clone for EapPacket<'a> {
    fn clone(&self) -> (r: Self)
        ensures
            r == *self,
    {
        EapPacket {
            code: self.code,
            identifier: self.identifier,
            eap_type: self.eap_type,
            type_data: self.type_data,
        }
    }
}

impl<'a> EapPacket<'a> {
    /// Decode an EAP packet from `buf` (an EAPOL-EAP body, exact and without
    /// padding).
    pub fn decode(buf: &'a [u8]) -> (r: Result<Self, PacpError>)
        ensures
            outcome(r) == eap_decodes(buf@),
    {
        if buf.len() < HEADER_LEN {
            return Err(PacpError::TruncatedEapHeader { available: buf.len() });
        }
        let declared: usize = read_be16(buf[2], buf[3]) as usize;
        if declared > buf.len() {
            return Err(PacpError::EapLengthMismatch { declared, available: buf.len() });
        }
        let code = EapCode::from_u8(buf[0]);
        let identifier = buf[1];
        let least: usize = if code.has_type() {
            MIN_REQUEST_RESPONSE_LEN
        } else {
            HEADER_LEN
        };
        if declared < least {
            return Err(PacpError::EapTooShort { code: buf[0], declared });
        }
        if declared < buf.len() {
            return Err(PacpError::EapLengthMismatch { declared, available: buf.len() });
        }
        if code.has_type() {
            let eap_type = Some(EapType::from_u8(buf[HEADER_LEN]));
            let type_data = slice_subrange(buf, MIN_REQUEST_RESPONSE_LEN, declared);
            assert(type_data@ =~= buf@.skip(MIN_REQUEST_RESPONSE_LEN as int));
            Ok(EapPacket { code, identifier, eap_type, type_data })
        } else {
            let fixed = match code {
                EapCode::Success => true,
                EapCode::Failure => true,
                _ => false,
            };
            if fixed && declared != HEADER_LEN {
                return Err(PacpError::EapTooShort { code: buf[0], declared });
            }
            let type_data = slice_subrange(buf, 0, 0);
            assert(type_data@ =~= Seq::<u8>::empty());
            Ok(EapPacket { code, identifier, eap_type: None, type_data })
        }
    }

    /// If this is an EAP-Response/Identity, the identity octets (the value that
    /// becomes RADIUS `User-Name`), which may be empty (RFC 3748 section 5.1).
    /// `None` for any other packet.
    pub fn identity(&self) -> (r: Option<&'a [u8]>)
        ensures
            option_view(r) == self@.identity(),
    {
        let is_identity = match self.eap_type {
            Some(EapType::Identity) => true,
            _ => false,
        };
        if self.code == EapCode::Response && is_identity {
            Some(self.type_data)
        } else {
            None
        }
    }
}

/// The octets of an EAP-Request/Identity.
pub open spec fn request_identity_bytes(identifier: u8) -> Seq<u8> {
    seq![1, identifier, 0, 5, 1]
}

/// The EAP-Request/Identity that solicits a supplicant: Code 1, the given
/// Identifier, Length 5 and Type 1, with no data.
pub fn request_identity(identifier: u8) -> (r: [u8; 5])
    ensures
        r@ == request_identity_bytes(identifier),
{
    let r: [u8; 5] = [1, identifier, 0, 5, 1];
    assert(r@ =~= request_identity_bytes(identifier));
    r
}

/// The solicitation is a well-formed Request of type Identity under its
/// identifier, and is never taken for an answer to itself.
pub proof fn law_request_identity_decodes(identifier: u8)
    ensures
        eap_decodes(request_identity_bytes(identifier)) == Ok::<EapView, PacpError>(
            EapView {
                code: EapCode::Request,
                identifier,
                eap_type: Some(EapType::Identity),
                type_data: Seq::empty(),
            },
        ),
        (eap_decodes(request_identity_bytes(identifier))->Ok_0).identity() is None,
{
    let b = request_identity_bytes(identifier);
    assert(b.skip(MIN_REQUEST_RESPONSE_LEN as int) =~= Seq::<u8>::empty());
}

/// An accepted packet is exactly as long as it declares, so nothing of it is cut
/// off and nothing is added: the identity of an answer is all that follows its
/// Type octet.
pub proof fn law_identity_is_verbatim(buf: Seq<u8>)
    requires
        eap_decodes(buf) is Ok,
    ensures
        be16(buf[2], buf[3]) == buf.len(),
        (eap_decodes(buf)->Ok_0).identity() is Some <==> buf[0] == 2 && buf[4] == 1,
        (eap_decodes(buf)->Ok_0).identity() matches Some(name) ==> buf == buf.take(5) + name,
{
    if (eap_decodes(buf)->Ok_0).identity() is Some {
        assert(buf =~= buf.take(5) + buf.skip(5));
    }
}

/// A packet is accepted exactly if it has a header, is as long as its Length field says,
/// has a Type octet where it is a Request (1) or a Response (2), and is nothing but the
/// header where it is a Success (3) or a Failure (4). What is read from it is what stands
/// in it.
pub proof fn law_eap_is_read_as_it_stands(buf: Seq<u8>)
    ensures
        eap_decodes(buf) is Ok <==> buf.len() >= 4 && buf[2] * 256 + buf[3] == buf.len() && (buf[0] == 1
            || buf[0] == 2 ==> buf.len() >= 5) && (buf[0] == 3 || buf[0] == 4 ==> buf.len() == 4),
        eap_decodes(buf) matches Ok(p) ==> {
            &&& p.identifier == buf[1]
            &&& p.code is Request <==> buf[0] == 1
            &&& p.code is Response <==> buf[0] == 2
            &&& p.code is Success <==> buf[0] == 3
            &&& p.code is Failure <==> buf[0] == 4
            &&& !(1 <= buf[0] <= 4) ==> p.code == EapCode::Unknown(buf[0])
            &&& p.eap_type is Some <==> buf[0] == 1 || buf[0] == 2
            &&& p.eap_type is Some ==> {
                &&& p.eap_type->0 is Identity <==> buf[4] == 1
                &&& p.eap_type->0 is Notification <==> buf[4] == 2
                &&& p.eap_type->0 is Nak <==> buf[4] == 3
                &&& p.eap_type->0 is Tls <==> buf[4] == 13
                &&& p.eap_type->0 is Teap <==> buf[4] == 55
                &&& p.eap_type->0 is Other ==> p.eap_type->0 == EapType::Other(buf[4])
                &&& p.type_data == buf.skip(5)
            }
            &&& p.eap_type is None ==> p.type_data.len() == 0
        },
{
}

/// What is wrong with a packet that is refused: it has no whole header; its Length field
/// claims more than there is; it claims less than its code needs; it claims less than
/// there is; or it is a Success or a Failure with more than a header. The first of these
/// that is true is reported.
pub proof fn law_eap_faults_are_told(buf: Seq<u8>)
    ensures
        eap_decodes(buf) matches Err(e) ==> {
            let declared = if buf.len() >= 4 {
                buf[2] * 256 + buf[3]
            } else {
                0
            };
            let least: int = if buf.len() >= 4 && (buf[0] == 1 || buf[0] == 2) {
                5
            } else {
                4
            };
            let unfit = PacpError::EapTooShort { code: buf[0], declared: declared as usize };
            let mismatch = PacpError::EapLengthMismatch {
                declared: declared as usize,
                available: buf.len() as usize,
            };
            if buf.len() < 4 {
                e == (PacpError::TruncatedEapHeader { available: buf.len() as usize })
            } else if declared > buf.len() {
                e == mismatch
            } else if declared < least {
                e == unfit
            } else if declared < buf.len() {
                e == mismatch
            } else {
                e == unfit
            }
        },
{
}

} // verus!
