//! The database commands that carry out an operation. A list edit reads the list
//! first and then writes it back whole.

use super::db::{field_views, Field, Op, OpView};
use super::laws::{entry_of, lemma_fields, performed, with_fields, Config};
use super::list::{items, joined, list_add, list_remove, with_item, without_item};
use super::schema::config_op;
use vstd::prelude::*;

verus! {

/// One command to a database.
#[derive(Debug, PartialEq, Eq)]
pub enum Command {
    /// Set fields of a hash entry (`HSET key field value ...`).
    HSet {
        /// The key of the entry.
        key: String,
        /// Field/value pairs.
        fields: Vec<(String, String)>,
    },
    /// Delete a key (`DEL key`).
    Del {
        /// The key to delete.
        key: String,
    },
}

/// What a command says.
#[verifier::ext_equal]
pub enum CommandView {
    HSet { key: Seq<char>, fields: Seq<Field> },
    Del { key: Seq<char> },
}

impl View for Command {
    type V = CommandView;

    open spec fn view(&self) -> CommandView {
        match *self {
            Command::HSet { key, fields } => CommandView::HSet {
                key: key@,
                fields: field_views(fields@),
            },
            Command::Del { key } => CommandView::Del { key: key@ },
        }
    }
}

/// How an operation is carried out.
#[derive(Debug, PartialEq, Eq)]
pub enum Access {
    /// By one command.
    Run {
        /// The command.
        command: Command,
    },
    /// By reading `field` of `key` (`HGET key field`), and then as [`edited`] says.
    Read {
        /// The key of the entry.
        key: String,
        /// The field to read.
        field: String,
    },
}

/// What carrying out an operation takes.
#[verifier::ext_equal]
pub enum AccessView {
    Run { command: CommandView },
    Read { key: Seq<char>, field: Seq<char> },
}

impl View for Access {
    type V = AccessView;

    open spec fn view(&self) -> AccessView {
        match *self {
            Access::Run { command } => AccessView::Run { command: command@ },
            Access::Read { key, field } => AccessView::Read { key: key@, field: field@ },
        }
    }
}

/// How an operation is carried out.
pub open spec fn access_of(op: OpView) -> AccessView {
    match op {
        OpView::HSet { key, fields } => AccessView::Run {
            command: CommandView::HSet { key, fields },
        },
        OpView::Del { key } => AccessView::Run { command: CommandView::Del { key } },
        OpView::ListAdd { key, field, .. } => AccessView::Read { key, field },
        OpView::ListRemove { key, field, .. } => AccessView::Read { key, field },
    }
}

/// The command that ends a list edit, where `current` is what the field held. A value
/// cannot be removed from a list that is not there.
pub open spec fn edited_of(op: OpView, current: Option<Seq<char>>) -> Option<CommandView> {
    match op {
        OpView::ListAdd { key, field, value } => {
            let old = match current {
                Some(list) => items(list),
                None => Seq::empty(),
            };
            Some(CommandView::HSet { key, fields: seq![(field, joined(with_item(old, value)))] })
        },
        OpView::ListRemove { key, field, value } => match current {
            Some(list) => Some(
                CommandView::HSet {
                    key,
                    fields: seq![(field, joined(without_item(items(list), value)))],
                },
            ),
            None => None,
        },
        _ => None,
    }
}

/// How to carry out an operation.
pub fn access(op: &Op) -> (r: Access)
    ensures
        r@ == access_of(op@),
{
    match op.clone() {
        Op::HSet { key, fields } => Access::Run { command: Command::HSet { key, fields } },
        Op::Del { key } => Access::Run { command: Command::Del { key } },
        Op::ListAdd { key, field, .. } => Access::Read { key, field },
        Op::ListRemove { key, field, .. } => Access::Read { key, field },
    }
}

fn write_field(key: &String, field: &String, value: String) -> (r: Command)
    ensures
        r@ == (CommandView::HSet { key: key@, fields: seq![(field@, value@)] }),
{
    let fields = vec![(field.clone(), value)];
    assert(field_views(fields@) =~= seq![(field@, value@)]);
    Command::HSet { key: key.clone(), fields }
}

/// What ends a list edit once the field was read: the command to run, or `None` where
/// there is nothing to do.
pub fn edited(op: &Op, current: Option<&str>) -> (r: Option<Command>)
    ensures
        edited_of(
            op@,
            match current {
                Some(list) => Some(list@),
                None => None,
            },
        ) == (match r {
            Some(command) => Some(command@),
            None => None,
        }),
{
    match op {
        Op::ListAdd { key, field, value } => {
            let list = list_add(current, value.as_str());
            Some(write_field(key, field, list))
        },
        Op::ListRemove { key, field, value } => match current {
            Some(list) => {
                let rest = list_remove(list, value.as_str());
                Some(write_field(key, field, rest))
            },
            None => None,
        },
        _ => None,
    }
}

/// What a command does to a database.
pub open spec fn ran(db: Config, command: CommandView) -> Config {
    match command {
        CommandView::HSet { key, fields } => db.insert(key, with_fields(entry_of(db, key), fields)),
        CommandView::Del { key } => db.remove(key),
    }
}

/// What reading a field gives.
pub open spec fn read(db: Config, key: Seq<char>, field: Seq<char>) -> Option<Seq<char>> {
    if entry_of(db, key).dom().contains(field) {
        Some(entry_of(db, key)[field])
    } else {
        None
    }
}

/// The database after an operation was carried out command by command.
pub open spec fn carried_out(db: Config, op: OpView) -> Config {
    match access_of(op) {
        AccessView::Run { command } => ran(db, command),
        AccessView::Read { key, field } => match edited_of(op, read(db, key, field)) {
            Some(command) => ran(db, command),
            None => db,
        },
    }
}

/// The commands of an operation do what the operation stands for.
pub proof fn law_commands_perform_the_operation(db: Config, op: OpView)
    ensures
        carried_out(db, op) == performed(db, config_op(op)),
{
    match access_of(op) {
        AccessView::Run { .. } => {},
        AccessView::Read { key, field } => match edited_of(op, read(db, key, field)) {
            Some(CommandView::HSet { fields, .. }) => {
                lemma_fields(entry_of(db, key), fields);
            },
            _ => {},
        },
    }
}

} // verus!
