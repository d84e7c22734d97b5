//! An IEEE 802.1X authenticator: the network-access-server side of port-based
//! access control, with every decision it takes stated and proved.

pub mod authd;
pub mod bytes;
pub mod eapol_io;
pub mod enforce;
pub mod enforce_sonic;
pub mod kat;
pub mod pacp;
pub mod pae;
pub mod radius;
pub mod radius_client;
pub mod radsec;
pub mod table;
pub mod text;
