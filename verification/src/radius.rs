//! The RADIUS wire format (RFC 2865): packets, their attributes, and the numbers
//! that name them.

pub mod attr;
pub mod packet;

pub use packet::{Attribute, Code, Packet, PacketError};
