//! The checks in front of an `AF_PACKET` socket that is bound to the EAPOL
//! EtherType, for one front-panel interface.

use super::error::EapolError;
use crate::pacp::ethernet::HEADER_LEN;
use vstd::endian::{endianness, Endian};
use vstd::prelude::*;
use vstd::slice::slice_to_vec;
use vstd::utf8::encode_utf8;

verus! {

/// EAPOL EtherType (IEEE 802.1X).
pub const ETH_P_PAE: u16 = 0x888E;

/// Max interface-name length including the trailing NUL (`IFNAMSIZ`).
pub const IFNAMSIZ: usize = 16;

/// The number whose octets are those of `value` in the other order.
pub open spec fn swapped(value: u16) -> u16 {
    (value % 256 * 256 + value / 256) as u16
}

/// The number that has the octets of `value` in memory with the most significant
/// one first.
pub open spec fn network_order(value: u16) -> u16 {
    match endianness() {
        Endian::Big => value,
        Endian::Little => swapped(value),
    }
}

/// `u16::to_be`: on a big-endian machine the number itself, on a little-endian one
/// the number with its two octets swapped.
#[verifier::external_body]
fn to_be(value: u16) -> (r: u16)
    ensures
        r == network_order(value),
{
    value.to_be()
}

/// Convert a `u16` to network byte order.
pub fn htons(value: u16) -> (r: u16)
    ensures
        r == network_order(value),
{
    to_be(value)
}

/// Whether the kernel takes this as an interface name: 1 to 15 octets, no NUL.
pub open spec fn valid_interface_name(name: Seq<char>) -> bool {
    let octets = encode_utf8(name);
    0 < octets.len() < IFNAMSIZ && !octets.contains(0u8)
}

/// Validate an interface name and return its octets with the trailing NUL that
/// the system calls want.
pub fn ifname_octets(ifname: &str) -> (r: Result<Vec<u8>, EapolError>)
    ensures
        r is Ok <==> valid_interface_name(ifname@),
        r matches Ok(octets) ==> octets@ == encode_utf8(ifname@).push(0u8),
        r matches Err(e) ==> (e matches EapolError::InvalidInterfaceName(n) && n@ == ifname@),
{
    let octets = ifname.as_bytes();
    if octets.len() == 0 || octets.len() >= IFNAMSIZ {
        return Err(EapolError::InvalidInterfaceName(ifname.to_owned()));
    }
    let mut i: usize = 0;
    while i < octets.len()
        invariant
            i <= octets.len(),
            octets@ == encode_utf8(ifname@),
            forall|j: int| 0 <= j < i ==> octets@[j] != 0,
        decreases octets.len() - i,
    {
        if octets[i] == 0 {
            assert(encode_utf8(ifname@)[i as int] == 0u8);
            return Err(EapolError::InvalidInterfaceName(ifname.to_owned()));
        }
        i += 1;
    }
    let mut out = slice_to_vec(octets);
    out.push(0);
    Ok(out)
}

/// The index that the system resolved an interface name to; it answers zero for a
/// name it does not know.
pub fn resolved_index(ifname: &str, index: u32) -> (r: Result<i32, EapolError>)
    ensures
        r is Ok <==> 0 < index <= i32::MAX,
        r matches Ok(i) ==> i == index,
        r matches Err(e) ==> (e matches EapolError::InterfaceNotFound(n) && n@ == ifname@),
{
    if index == 0 || index > 0x7FFF_FFFF {
        return Err(EapolError::InterfaceNotFound(ifname.to_owned()));
    }
    Ok(index as i32)
}

/// Whether a frame is long enough to be sent: it has to hold an Ethernet header.
pub fn check_frame(frame: &[u8]) -> (r: Result<(), EapolError>)
    ensures
        r is Ok <==> frame@.len() >= HEADER_LEN,
        r matches Err(e) ==> e == EapolError::FrameTooShort(frame.len()),
{
    if frame.len() < HEADER_LEN {
        return Err(EapolError::FrameTooShort(frame.len()));
    }
    Ok(())
}

/// An interface name is good exactly if it takes 1 to 15 octets and has no zero octet, and
/// is then handed on with a zero octet at its end.
pub proof fn law_interface_names_fit(name: &str, r: Result<Vec<u8>, EapolError>)
    requires
        call_ensures(ifname_octets, (name,), r),
    ensures
        r is Ok <==> 1 <= encode_utf8(name@).len() <= 15 && forall|i: int|
            0 <= i < encode_utf8(name@).len() ==> #[trigger] encode_utf8(name@)[i] != 0,
        r matches Ok(octets) ==> octets@.drop_last() == encode_utf8(name@) && octets@.last() == 0,
{
    let octets = encode_utf8(name@);
    if octets.contains(0u8) {
        let i = choose|i: int| 0 <= i < octets.len() && octets[i] == 0u8;
        assert(octets[i] == 0);
    } else {
        assert forall|i: int| 0 <= i < octets.len() implies #[trigger] octets[i] != 0 by {}
    }
    if let Ok(out) = r {
        assert(out@.drop_last() =~= octets);
    }
}

/// A name resolves to any index but zero that the system calls can take, unchanged.
pub proof fn law_indices_resolve(name: &str, index: u32, r: Result<i32, EapolError>)
    requires
        call_ensures(resolved_index, (name, index), r),
    ensures
        r is Ok <==> 1 <= index <= 0x7FFF_FFFF,
        r matches Ok(i) ==> i as int == index as int,
{
}

/// A frame is sent exactly if it holds the 14 octets of an Ethernet header.
pub proof fn law_short_frames_are_not_sent(frame: &[u8], r: Result<(), EapolError>)
    requires
        call_ensures(check_frame, (frame,), r),
    ensures
        r is Ok <==> frame@.len() >= 14,
{
}

} // verus!
