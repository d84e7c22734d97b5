//! The Ethernet II framing that carries EAPOL on the wire:
//! `dst | src | EtherType | payload`.
//!
//! A captured frame has no FCS, and short frames are zero-padded, so the payload
//! may be longer than the EAPOL PDU; the PDU's own length field is authoritative.

use super::error::PacpError;
use crate::bytes::{be16, be16_octets, lemma_be16, lemma_be16_octets, octets_eq, push_be16, push_octets, read_be16};
use crate::text::{hex_upper, upper_digit};
use vstd::prelude::*;
use vstd::slice::slice_subrange;

verus! {

/// Octets in an Ethernet II header: `dst(6) | src(6) | EtherType(2)`.
pub const HEADER_LEN: usize = 14;

/// A 48-bit MAC address.
pub type MacAddr = [u8; 6];

/// `EtherType` for EAPOL (IEEE Std 802.1X).
pub const ETHERTYPE_EAPOL: u16 = 0x888E;

/// PAE group address, "Nearest non-TPMR Bridge": the destination a supplicant
/// uses for EAPOL on a wired LAN (IEEE 802.1X-2020 Table 11-1).
pub const PAE_GROUP_ADDR: MacAddr = [0x01, 0x80, 0xC2, 0x00, 0x00, 0x03];

/// "Nearest Customer Bridge" group address.
pub const NEAREST_CUSTOMER_BRIDGE_ADDR: MacAddr = [0x01, 0x80, 0xC2, 0x00, 0x00, 0x00];

/// "Nearest Bridge" group address.
pub const NEAREST_BRIDGE_ADDR: MacAddr = [0x01, 0x80, 0xC2, 0x00, 0x00, 0x0E];

/// A decoded Ethernet II header.
#[derive(Debug, PartialEq, Eq)]
pub struct EthernetHeader {
    /// Destination MAC (a PAE group address for supplicant-originated EAPOL).
    pub dst: MacAddr,
    /// Source MAC: the supplicant's address; becomes `Calling-Station-Id`.
    pub src: MacAddr,
    /// `EtherType`. For EAPOL frames this is [`ETHERTYPE_EAPOL`].
    pub ethertype: u16,
}

/// The result of decoding an Ethernet frame: the header plus the borrowed payload.
#[derive(Debug, PartialEq, Eq)]
pub struct EthernetFrame<'a> {
    /// The decoded header.
    pub header: EthernetHeader,
    /// The payload following the header (the EAPOL PDU, possibly with trailing
    /// Ethernet padding).
    pub payload: &'a [u8],
}

/// The six octets of `s` that start at `at`, as an address.
pub open spec fn mac_at(s: Seq<u8>, at: int) -> MacAddr {
    [s[at], s[at + 1], s[at + 2], s[at + 3], s[at + 4], s[at + 5]]
}

/// The header at the front of a frame.
pub open spec fn header_of(buf: Seq<u8>) -> EthernetHeader {
    EthernetHeader { dst: mac_at(buf, 0), src: mac_at(buf, 6), ethertype: be16(buf[12], buf[13]) as u16 }
}

/// The octets of a header.
pub open spec fn header_bytes(header: EthernetHeader) -> Seq<u8> {
    header.dst@ + header.src@ + be16_octets(header.ethertype as nat)
}

/// The text of an address: upper-case octets with hyphens between them.
pub open spec fn mac_text(mac: MacAddr) -> Seq<char> {
    Seq::new(
        17,
        |i: int|
            if i % 3 == 2 {
                '-'
            } else if i % 3 == 0 {
                hex_upper(mac@[i / 3] as int / 16)
            } else {
                hex_upper(mac@[i / 3] as int % 16)
            },
    )
}

impl Clone for EthernetHeader {
    fn clone(&self) -> (r: Self)
        ensures
            r == *self,
    {
        EthernetHeader { dst: self.dst, src: self.src, ethertype: self.ethertype }
    }
}

impl<'a> Clone for EthernetFrame<'a> {
    fn clone(&self) -> (r: Self)
        ensures
            r == *self,
    {
        EthernetFrame { header: self.header.clone(), payload: self.payload }
    }
}

impl EthernetHeader {
    /// Format `src` as the IETF-canonical `AA-BB-CC-DD-EE-FF` string used for
    /// `Calling-Station-Id`.
    pub fn src_station_id(&self) -> (r: String)
        ensures
            r@ == mac_text(self.src),
    {
        format_mac(&self.src)
    }

    /// Serialize the header onto `out`.
    pub fn encode_into(&self, out: &mut Vec<u8>)
        ensures
            final(out)@ == old(out)@ + header_bytes(*self),
    {
        push_octets(out, self.dst.as_slice());
        push_octets(out, self.src.as_slice());
        push_be16(out, self.ethertype);
        assert(out@ =~= old(out)@ + header_bytes(*self));
    }
}

/// Whether two addresses are the same.
pub fn mac_eq(a: &MacAddr, b: &MacAddr) -> (r: bool)
    ensures
        r == (*a == *b),
{
    let r = octets_eq(a.as_slice(), b.as_slice());
    proof {
        if a@ == b@ {
            assert forall|i: int| 0 <= i < 6 implies a[i] == b[i] by {
                assert(a@[i] == b@[i]);
            }
            assert(*a =~= *b);
        }
    }
    r
}

/// Format a MAC as upper-case hyphen-separated `AA-BB-CC-DD-EE-FF`.
pub fn format_mac(mac: &MacAddr) -> (r: String)
    ensures
        r@ == mac_text(*mac),
{
    let mut out = String::new();
    let mut i: usize = 0;
    while i < 6
        invariant
            i <= 6,
            out@ == mac_text(*mac).take(if i == 0 { 0 } else { 3 * i - 1 }),
        decreases 6 - i,
    {
        if i != 0 {
            out.push('-');
        }
        out.push(upper_digit(mac[i] / 16));
        out.push(upper_digit(mac[i] % 16));
        i += 1;
        assert(out@ =~= mac_text(*mac).take(3 * i - 1));
    }
    assert(mac_text(*mac).take(17) =~= mac_text(*mac));
    out
}

/// Decode an Ethernet II frame, returning the header and the borrowed payload.
///
/// This does not require the `EtherType` to be EAPOL.
pub fn decode_frame(buf: &[u8]) -> (r: Result<EthernetFrame<'_>, PacpError>)
    ensures
        r is Ok <==> buf@.len() >= HEADER_LEN,
        r matches Ok(f) ==> f.header == header_of(buf@) && f.payload@ == buf@.skip(HEADER_LEN as int),
        r matches Err(e) ==> e == (PacpError::TruncatedEthernet { available: buf.len() }),
{
    if buf.len() < HEADER_LEN {
        return Err(PacpError::TruncatedEthernet { available: buf.len() });
    }
    let header = EthernetHeader {
        dst: [buf[0], buf[1], buf[2], buf[3], buf[4], buf[5]],
        src: [buf[6], buf[7], buf[8], buf[9], buf[10], buf[11]],
        ethertype: read_be16(buf[12], buf[13]),
    };
    let payload = slice_subrange(buf, HEADER_LEN, buf.len());
    assert(header.dst =~= mac_at(buf@, 0));
    assert(header.src =~= mac_at(buf@, 6));
    Ok(EthernetFrame { header, payload })
}

/// Decode an Ethernet frame and require it to carry EAPOL.
pub fn decode_eapol_frame(buf: &[u8]) -> (r: Result<EthernetFrame<'_>, PacpError>)
    ensures
        r is Ok <==> buf@.len() >= HEADER_LEN && header_of(buf@).ethertype == ETHERTYPE_EAPOL,
        r matches Ok(f) ==> f.header == header_of(buf@) && f.payload@ == buf@.skip(HEADER_LEN as int),
        r matches Err(e) ==> e == (if buf@.len() < HEADER_LEN {
            PacpError::TruncatedEthernet { available: buf.len() }
        } else {
            PacpError::NotEapol { ethertype: header_of(buf@).ethertype }
        }),
{
    let frame = match decode_frame(buf) {
        Ok(f) => f,
        Err(e) => return Err(e),
    };
    if frame.header.ethertype != ETHERTYPE_EAPOL {
        return Err(PacpError::NotEapol { ethertype: frame.header.ethertype });
    }
    Ok(frame)
}

/// The header is read back from the front of any frame that starts with it.
pub proof fn lemma_header_round_trip(header: EthernetHeader, rest: Seq<u8>)
    ensures
        header_bytes(header).len() == HEADER_LEN,
        header_of(header_bytes(header) + rest) == header,
{
    let buf = header_bytes(header) + rest;
    lemma_be16(header.ethertype as nat);
    assert(mac_at(buf, 0) =~= header.dst);
    assert(mac_at(buf, 6) =~= header.src);
}

/// The octets of the header that was read are the octets it was read from.
pub proof fn lemma_header_bit_exact(buf: Seq<u8>)
    requires
        buf.len() >= HEADER_LEN,
    ensures
        header_bytes(header_of(buf)) == buf.take(HEADER_LEN as int),
{
    lemma_be16_octets(buf[12], buf[13]);
    assert(header_bytes(header_of(buf)) =~= buf.take(HEADER_LEN as int));
}

/// No two addresses share a text, so a station identifier names one station.
pub proof fn law_station_id_identifies(a: MacAddr, b: MacAddr)
    requires
        mac_text(a) == mac_text(b),
    ensures
        a == b,
{
    assert forall|i: int| 0 <= i < 6 implies a@[i] == b@[i] by {
        assert((3 * i) / 3 == i && (3 * i) % 3 == 0 && (3 * i + 1) / 3 == i && (3 * i + 1) % 3 == 1);
        let (ta, tb) = (mac_text(a), mac_text(b));
        assert(ta[3 * i] == hex_upper(a@[i] as int / 16) && tb[3 * i] == hex_upper(b@[i] as int / 16));
        assert(ta[3 * i + 1] == hex_upper(a@[i] as int % 16));
        assert(tb[3 * i + 1] == hex_upper(b@[i] as int % 16));
        lemma_hex_upper_injective(a@[i] as int / 16, b@[i] as int / 16);
        lemma_hex_upper_injective(a@[i] as int % 16, b@[i] as int % 16);
    }
    assert(a =~= b);
}

proof fn lemma_hex_upper_injective(a: int, b: int)
    requires
        0 <= a < 16,
        0 <= b < 16,
        hex_upper(a) == hex_upper(b),
    ensures
        a == b,
{
}

/// The value of an upper-case hexadecimal digit.
pub open spec fn upper_value(c: char) -> int {
    if '0' <= c <= '9' {
        c as int - '0' as int
    } else {
        c as int - 'A' as int + 10
    }
}

/// A station identifier is six pairs of upper-case hexadecimal digits with hyphens between
/// them, each pair the octet of the address in its place.
pub proof fn law_station_id_spells_the_address(mac: MacAddr, i: int)
    requires
        0 <= i < 6,
    ensures
        ({
            let t = mac_text(mac);
            let (hi, lo) = (t[3 * i], t[3 * i + 1]);
            &&& t.len() == 17
            &&& '0' <= hi <= '9' || 'A' <= hi <= 'F'
            &&& '0' <= lo <= '9' || 'A' <= lo <= 'F'
            &&& upper_value(hi) * 16 + upper_value(lo) == mac@[i]
            &&& i < 5 ==> t[3 * i + 2] == '-'
        }),
{
    assert((3 * i) / 3 == i && (3 * i) % 3 == 0 && (3 * i + 1) / 3 == i && (3 * i + 1) % 3 == 1 && (3 * i
        + 2) % 3 == 2);
    let o = mac@[i] as int;
    assert(0 <= o / 16 < 16 && 0 <= o % 16 < 16 && o / 16 * 16 + o % 16 == o);
}

} // verus!
