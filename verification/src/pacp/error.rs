//! Errors produced by the EAPOL codec. Every decode failure is one of these.

use crate::text::{decimal, hex16, numbered, push_decimal, push_hex16};
use vstd::prelude::*;

verus! {

/// Codec error.
#[derive(Debug, Clone, Copy, PartialEq, Eq, Structural)]
pub enum PacpError {
    /// Too few octets remain for an Ethernet header.
    TruncatedEthernet {
        /// Octets actually available.
        available: usize,
    },
    /// The frame's `EtherType` is not EAPOL.
    NotEapol {
        /// The `EtherType` that was found.
        ethertype: u16,
    },
    /// Too few octets remain for an EAPOL PDU header.
    TruncatedEapolHeader {
        /// Octets actually available.
        available: usize,
    },
    /// The EAPOL header's declared body length exceeds the remaining buffer.
    TruncatedEapolBody {
        /// Declared body length.
        declared: usize,
        /// Octets actually available for the body.
        available: usize,
    },
    /// Too few octets remain for an EAP header.
    TruncatedEapHeader {
        /// Octets actually available.
        available: usize,
    },
    /// The EAP header's Length field disagrees with the bytes available.
    /// RFC 3748 section 4: the Length field counts the entire EAP packet.
    EapLengthMismatch {
        /// Length declared in the EAP header.
        declared: usize,
        /// Octets actually available.
        available: usize,
    },
    /// An EAP packet declared a length that its code does not allow.
    EapTooShort {
        /// The EAP code (1=Request, 2=Response, 3=Success, 4=Failure).
        code: u8,
        /// The declared length.
        declared: usize,
    },
    /// A value could not be serialized because the body exceeds the 16-bit
    /// EAPOL length field.
    BodyTooLong {
        /// The oversized length.
        len: usize,
    },
}

impl PacpError {
    /// What the error says.
    pub open spec fn text(self) -> Seq<char> {
        match self {
            PacpError::TruncatedEthernet { available } => "truncated Ethernet header: "@ + decimal(
                available as nat,
            ) + " octet(s) available, need 14"@,
            PacpError::NotEapol { ethertype } => "EtherType 0x"@ + hex16(ethertype as nat)
                + " is not EAPOL"@,
            PacpError::TruncatedEapolHeader { available } => "truncated EAPOL header: "@ + decimal(
                available as nat,
            ) + " octet(s) available, need 4"@,
            PacpError::TruncatedEapolBody { declared, available } => "truncated EAPOL body: declared "@
                + decimal(declared as nat) + ", available "@ + decimal(available as nat),
            PacpError::TruncatedEapHeader { available } => "truncated EAP header: "@ + decimal(
                available as nat,
            ) + " octet(s) available, need 4"@,
            PacpError::EapLengthMismatch { declared, available } => "EAP length field "@ + decimal(
                declared as nat,
            ) + " disagrees with "@ + decimal(available as nat) + " available octet(s)"@,
            PacpError::EapTooShort { code, declared } => "EAP packet (code "@ + decimal(code as nat)
                + ") length "@ + decimal(declared as nat) + " is below minimum"@,
            PacpError::BodyTooLong { len } => "body length "@ + decimal(len as nat)
                + " exceeds the 16-bit length field"@,
        }
    }

    /// What the error says, for a log.
    pub fn message(&self) -> (r: String)
        ensures
            r@ == self.text(),
    {
        match *self {
            PacpError::TruncatedEthernet { available } => numbered(
                "truncated Ethernet header: ",
                available,
                " octet(s) available, need 14",
            ),
            PacpError::NotEapol { ethertype } => {
                let mut out = "EtherType 0x".to_owned();
                push_hex16(&mut out, ethertype);
                out.append(" is not EAPOL");
                out
            },
            PacpError::TruncatedEapolHeader { available } => numbered(
                "truncated EAPOL header: ",
                available,
                " octet(s) available, need 4",
            ),
            PacpError::TruncatedEapolBody { declared, available } => {
                let mut out = numbered("truncated EAPOL body: declared ", declared, ", available ");
                push_decimal(&mut out, available as u64);
                out
            },
            PacpError::TruncatedEapHeader { available } => numbered(
                "truncated EAP header: ",
                available,
                " octet(s) available, need 4",
            ),
            PacpError::EapLengthMismatch { declared, available } => {
                let mut out = numbered("EAP length field ", declared, " disagrees with ");
                push_decimal(&mut out, available as u64);
                out.append(" available octet(s)");
                out
            },
            PacpError::EapTooShort { code, declared } => {
                let mut out = numbered("EAP packet (code ", code as usize, ") length ");
                push_decimal(&mut out, declared as u64);
                out.append(" is below minimum");
                out
            },
            PacpError::BodyTooLong { len } => numbered(
                "body length ",
                len,
                " exceeds the 16-bit length field",
            ),
        }
    }
}

} // verus!
