//! The SONiC dataplane backend: desired state is written to CONFIG_DB, where the
//! switch picks it up, and read back before it counts.
//!
//! [`schema`] maps an authorization to declarative database operations,
//! [`enforcer`] decides which of them to apply and what has to be confirmed,
//! [`command`] turns each into database commands, and [`list`] edits the
//! comma-separated list fields. Nothing here talks to a database.

pub mod command;
pub mod dataplane;
pub mod db;
pub mod enforcer;
pub mod error;
pub mod laws;
pub mod list;
pub mod schema;

pub use db::{Db, DbOp, Op};
pub use enforcer::SonicEnforcer;
pub use error::SonicError;
pub use schema::Desired;
