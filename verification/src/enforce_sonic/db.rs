//! The SONiC database operation model.

use vstd::prelude::*;

verus! {

/// A SONiC Redis database.
#[derive(Debug, Clone, Copy, PartialEq, Eq, Hash, Structural)]
pub enum Db {
    /// CONFIG_DB (index 4): desired configuration.
    Config,
    /// APPL_DB (index 0): application state.
    Appl,
    /// ASIC_DB (index 1): what was actually programmed.
    Asic,
    /// STATE_DB (index 6): operational state.
    State,
}

/// The number of a database.
pub open spec fn db_index(db: Db) -> i64 {
    match db {
        Db::Appl => 0,
        Db::Asic => 1,
        Db::Config => 4,
        Db::State => 6,
    }
}

impl Db {
    /// The SONiC Redis logical database index.
    pub fn index(self) -> (r: i64)
        ensures
            r == db_index(self),
    {
        match self {
            Db::Appl => 0,
            Db::Asic => 1,
            Db::Config => 4,
            Db::State => 6,
        }
    }
}

/// A single declarative database operation.
#[derive(Debug, PartialEq, Eq)]
pub struct DbOp {
    /// Which database the op targets.
    pub db: Db,
    /// The operation.
    pub op: Op,
}

/// The kinds of mutation the planner emits.
#[derive(Debug, PartialEq, Eq)]
pub enum Op {
    /// Create a hash entry, or set fields of one (`HSET key field value ...`).
    HSet {
        /// The `TABLE|key...` Redis key.
        key: String,
        /// Field/value pairs.
        fields: Vec<(String, String)>,
    },
    /// Delete a key (`DEL key`).
    Del {
        /// The key to delete.
        key: String,
    },
    /// Add `value` to the comma-separated list in `key`'s `field`.
    ListAdd {
        /// The Redis key.
        key: String,
        /// The list-valued field.
        field: String,
        /// The value to add (idempotent).
        value: String,
    },
    /// Remove `value` from the comma-separated list in `key`'s `field`.
    ListRemove {
        /// The Redis key.
        key: String,
        /// The list-valued field.
        field: String,
        /// The value to remove.
        value: String,
    },
}

/// A field and its value.
pub type Field = (Seq<char>, Seq<char>);

/// What an operation does.
#[verifier::ext_equal]
pub enum OpView {
    HSet { key: Seq<char>, fields: Seq<Field> },
    Del { key: Seq<char> },
    ListAdd { key: Seq<char>, field: Seq<char>, value: Seq<char> },
    ListRemove { key: Seq<char>, field: Seq<char>, value: Seq<char> },
}

/// What a database operation does, and to which database.
#[verifier::ext_equal]
pub struct DbOpView {
    pub db: Db,
    pub op: OpView,
}

/// What a list of fields holds, in order.
pub open spec fn field_views(fields: Seq<(String, String)>) -> Seq<Field> {
    Seq::new(fields.len(), |i: int| (fields[i].0@, fields[i].1@))
}

impl View for Op {
    type V = OpView;

    open spec fn view(&self) -> OpView {
        match *self {
            Op::HSet { key, fields } => OpView::HSet { key: key@, fields: field_views(fields@) },
            Op::Del { key } => OpView::Del { key: key@ },
            Op::ListAdd { key, field, value } => OpView::ListAdd {
                key: key@,
                field: field@,
                value: value@,
            },
            Op::ListRemove { key, field, value } => OpView::ListRemove {
                key: key@,
                field: field@,
                value: value@,
            },
        }
    }
}

impl View for DbOp {
    type V = DbOpView;

    open spec fn view(&self) -> DbOpView {
        DbOpView { db: self.db, op: self.op@ }
    }
}

/// What a list of operations does, in order.
pub open spec fn op_views(ops: Seq<DbOp>) -> Seq<DbOpView> {
    Seq::new(ops.len(), |i: int| ops[i]@)
}

impl Clone for Op {
    fn clone(&self) -> (r: Self)
        ensures
            r@ == self@,
    {
        match self {
            Op::HSet { key, fields } => {
                let mut copy: Vec<(String, String)> = Vec::new();
                let mut i: usize = 0;
                while i < fields.len()
                    invariant
                        i <= fields.len(),
                        field_views(copy@) == field_views(fields@).take(i as int),
                    decreases fields.len() - i,
                {
                    let ghost done = field_views(copy@);
                    copy.push((fields[i].0.clone(), fields[i].1.clone()));
                    assert(field_views(copy@) =~= done.push((fields@[i as int].0@, fields@[i as int].1@)));
                    assert(field_views(copy@) =~= field_views(fields@).take(i + 1));
                    i += 1;
                }
                assert(field_views(copy@) =~= field_views(fields@));
                Op::HSet { key: key.clone(), fields: copy }
            },
            Op::Del { key } => Op::Del { key: key.clone() },
            Op::ListAdd { key, field, value } => Op::ListAdd {
                key: key.clone(),
                field: field.clone(),
                value: value.clone(),
            },
            Op::ListRemove { key, field, value } => Op::ListRemove {
                key: key.clone(),
                field: field.clone(),
                value: value.clone(),
            },
        }
    }
}

impl Clone for DbOp {
    fn clone(&self) -> (r: Self)
        ensures
            r@ == self@,
    {
        DbOp { db: self.db, op: self.op.clone() }
    }
}

} // verus!
