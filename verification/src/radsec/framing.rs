//! RADIUS-over-stream framing (RFC 6614 section 2.4): packets stand back to back
//! on the byte stream, each delimited by the Length field at octets 2 and 3 of its
//! header.

use super::error::RadSecError;
use crate::bytes::{be16, lemma_be16, outcome, push_octets, read_be16};
use crate::radius::packet::{
    law_packet_round_trip, packet_decodes, Packet, PacketError, PacketView,
};
use vstd::prelude::*;

verus! {

/// Smallest valid RADIUS packet (header only).
pub const MIN_RADIUS_LEN: usize = crate::radius::packet::HEADER_LEN;

/// Largest RADIUS packet that is accepted.
pub const MAX_RADIUS_LEN: usize = crate::radius::packet::MAX_PACKET_LEN;

/// Octets that have to be read to know the length of a packet.
pub const HEADER_LEN: usize = 4;

/// The packet length declared by a 4-octet RADIUS header.
pub fn declared_length(header: &[u8; 4]) -> (r: usize)
    ensures
        r == be16(header@[2], header@[3]),
{
    read_be16(header[2], header[3]) as usize
}

/// How many octets follow the header of a frame, or the length it declares where
/// that is none a packet can have.
pub open spec fn body_of(header: Seq<u8>) -> Result<nat, nat> {
    let len = be16(header[2], header[3]);
    if MIN_RADIUS_LEN <= len <= MAX_RADIUS_LEN {
        Ok((len - HEADER_LEN) as nat)
    } else {
        Err(len)
    }
}

/// How many octets to read after the header. A length outside 20..=4096 is refused
/// before any body is read.
pub fn body_length(header: &[u8; 4]) -> (r: Result<usize, RadSecError>)
    ensures
        match body_of(header@) {
            Ok(n) => r == Ok::<usize, RadSecError>(n as usize),
            Err(len) => r == Err::<usize, RadSecError>(RadSecError::BadFrameLength(len as usize)),
        },
{
    let len = declared_length(header);
    if len < MIN_RADIUS_LEN || len > MAX_RADIUS_LEN {
        return Err(RadSecError::BadFrameLength(len));
    }
    Ok(len - HEADER_LEN)
}

/// Decode the packet that a header and the body read after it make up.
pub fn decode_frame(header: &[u8; 4], body: &[u8]) -> (r: Result<Packet, RadSecError>)
    ensures
        outcome(r) == (match packet_decodes(header@ + body@) {
            Ok(p) => Ok(p),
            Err(e) => Err(RadSecError::Proto(e)),
        }),
{
    let mut buf: Vec<u8> = Vec::new();
    push_octets(&mut buf, header.as_slice());
    push_octets(&mut buf, body);
    assert(buf@ =~= header@ + body@);
    match Packet::decode(buf.as_slice()) {
        Ok(p) => Ok(p),
        Err(e) => Err(RadSecError::Proto(e)),
    }
}

/// The octets that put a packet on the stream.
pub fn encode_frame(packet: &Packet) -> (r: Result<Vec<u8>, RadSecError>)
    ensures
        outcome(r) == (match packet@.fault() {
            Some(e) => Err(RadSecError::Proto(e)),
            None => Ok(packet@.bytes()),
        }),
{
    match packet.encode() {
        Ok(bytes) => Ok(bytes),
        Err(e) => Err(RadSecError::Proto(e)),
    }
}

/// A packet on a stream is read back whatever follows it: its first four octets
/// tell how many more belong to it, those decode to the packet, and the rest of
/// the stream is left for the next one.
pub proof fn law_stream_is_self_delimiting(p: PacketView, rest: Seq<u8>)
    requires
        p.fault() is None,
        p.canonical(),
    ensures
        ({
            let stream = p.bytes() + rest;
            let header = stream.take(HEADER_LEN as int);
            &&& body_of(header) == Ok::<nat, nat>((p.size() - HEADER_LEN) as nat)
            &&& packet_decodes(header + stream.subrange(HEADER_LEN as int, p.size() as int)) == Ok::<
                PacketView,
                PacketError,
            >(p)
            &&& stream.skip(p.size() as int) == rest
        }),
{
    let stream = p.bytes() + rest;
    let header = stream.take(HEADER_LEN as int);
    lemma_be16(p.size());
    law_packet_round_trip(p, rest);
    law_packet_round_trip(p, Seq::empty());
    assert(header + stream.subrange(HEADER_LEN as int, p.size() as int) =~= p.bytes()
        + Seq::<u8>::empty());
    assert(stream.skip(p.size() as int) =~= rest);
}

/// A packet of 20 to 4096 octets is read on, and no other: the four octets that were read
/// to know its length are part of it.
pub proof fn law_lengths_are_bounded(header: Seq<u8>)
    requires
        header.len() == 4,
    ensures
        ({
            let len = header[2] * 256 + header[3];
            if 20 <= len <= 4096 {
                body_of(header) == Ok::<nat, nat>((len - 4) as nat)
            } else {
                body_of(header) == Err::<nat, nat>(len as nat)
            }
        }),
{
}

/// What is written to the stream for a packet is read back as that packet.
pub proof fn law_frames_are_read_back(packet: Packet, r: Result<Vec<u8>, RadSecError>)
    requires
        call_ensures(encode_frame, (&packet,), r),
        packet@.canonical(),
    ensures
        r is Ok <==> packet@.fault() is None,
        r matches Ok(octets) ==> packet_decodes(octets@) == Ok::<PacketView, PacketError>(packet@),
        r matches Err(e) ==> e is Proto,
{
    if packet@.fault() is None {
        law_packet_round_trip(packet@, Seq::empty());
        assert(packet@.bytes() + Seq::<u8>::empty() =~= packet@.bytes());
    }
}

} // verus!
