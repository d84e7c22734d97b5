//! What the EAPOL raw-socket layer decides before it touches a socket: interface
//! names, frame bounds and byte order.

pub mod error;
pub mod socket;

pub use error::EapolError;
pub use socket::ETH_P_PAE;
