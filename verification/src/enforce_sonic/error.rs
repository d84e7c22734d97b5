//! Errors from the SONiC enforcement backend.

use super::db::Db;
use crate::text::{prefixed, quoted, quoted_text, wrapped};
use vstd::prelude::*;

verus! {

/// Why an enforcement failed, generic over the error of the database connection.
#[derive(Debug)]
pub enum SonicError<E> {
    /// The underlying database connection failed.
    Backend(E),
    /// What a check wanted of the dataplane did not hold. The port is not reported
    /// authorized on an unconfirmed change.
    Unconfirmed {
        /// The database the confirmation read targeted.
        db: Db,
        /// The key that was looked for.
        key: String,
    },
    /// The assigned VLAN is not a number from 1 to 4094.
    InvalidVlan(String),
}

/// The name of a database.
pub open spec fn db_name(db: Db) -> Seq<char> {
    match db {
        Db::Config => "Config"@,
        Db::Appl => "Appl"@,
        Db::Asic => "Asic"@,
        Db::State => "State"@,
    }
}

impl<E> SonicError<E> {
    /// What the error says, for a log. `cause` is the text of the connection's own
    /// error, for where that is what happened.
    pub fn message(&self, cause: &str) -> (r: String)
        ensures
            r@ == (match *self {
                SonicError::Backend(_) => "SONiC DB error: "@ + cause@,
                SonicError::Unconfirmed { db, key } => "dataplane change not confirmed in "@ + db_name(
                    db,
                ) + ": "@ + key@,
                SonicError::InvalidVlan(v) => "VLAN "@ + quoted_text(v@)
                    + " is not a number from 1 to 4094"@,
            }),
    {
        match self {
            SonicError::Backend(_) => prefixed("SONiC DB error: ", cause),
            SonicError::Unconfirmed { db, key } => {
                let name = match db {
                    Db::Config => "Config",
                    Db::Appl => "Appl",
                    Db::Asic => "Asic",
                    Db::State => "State",
                };
                let mut out = wrapped("dataplane change not confirmed in ", name, ": ");
                out.append(key.as_str());
                out
            },
            SonicError::InvalidVlan(v) => {
                let vlan = quoted(v.as_str());
                wrapped("VLAN ", vlan.as_str(), " is not a number from 1 to 4094")
            },
        }
    }
}

} // verus!
