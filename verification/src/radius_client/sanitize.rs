//! `User-Name` sanitization.
//!
//! The EAP identity comes from the supplicant and becomes the `User-Name` that the
//! server keys its policy on. One that carries control or line-separator
//! characters could split or spoof a policy condition, so it is refused and no
//! Access-Request is sent.

use super::consts::MAX_ATTR_VALUE;
use super::error::RadiusClientError;
use crate::text::utf8_text;
use vstd::prelude::*;
use vstd::utf8::{decode_utf8, decode_utf8_encode_utf8, encode_utf8, valid_utf8};

verus! {

/// A control character (Unicode category Cc), or a line or paragraph separator.
pub open spec fn splits_text(c: char) -> bool {
    ||| c as u32 <= 0x1F
    ||| 0x7F <= c as u32 <= 0x9F
    ||| c as u32 == 0x2028
    ||| c as u32 == 0x2029
}

/// Whether an identity is fit for a `User-Name`: valid UTF-8 of 1 to 253 octets
/// without a character that splits text.
pub open spec fn fit_user_name(identity: Seq<u8>) -> bool {
    &&& 0 < identity.len() <= MAX_ATTR_VALUE
    &&& valid_utf8(identity)
    &&& forall|i: int|
        0 <= i < decode_utf8(identity).len() ==> !splits_text(#[trigger] decode_utf8(identity)[i])
}

/// Validate an EAP identity and return it as a `User-Name` string.
pub fn user_name(identity: &[u8]) -> (r: Result<String, RadiusClientError>)
    ensures
        r is Ok <==> fit_user_name(identity@),
        r matches Ok(name) ==> name@ == decode_utf8(identity@) && encode_utf8(name@) == identity@,
        r matches Err(e) ==> e is InvalidUserName,
{
    if identity.is_empty() || identity.len() > MAX_ATTR_VALUE {
        return Err(RadiusClientError::InvalidUserName);
    }
    let s = match utf8_text(identity) {
        Some(s) => s,
        None => return Err(RadiusClientError::InvalidUserName),
    };
    for c in it: s.chars()
        invariant
            it.seq() == s@,
            s@ == decode_utf8(identity@),
            forall|j: int| 0 <= j < it.index() ==> !splits_text(#[trigger] s@[j]),
    {
        let v: u32 = c as u32;
        if v <= 0x1F || (0x7F <= v && v <= 0x9F) || v == 0x2028 || v == 0x2029 {
            assert(splits_text(s@[it.index()]));
            return Err(RadiusClientError::InvalidUserName);
        }
    }
    proof {
        decode_utf8_encode_utf8(identity@);
    }
    Ok(s.to_owned())
}

} // verus!
