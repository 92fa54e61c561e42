//! What type checking decides around its one question to the database:
//! which statements are asked about at all, and how the database's answer
//! becomes a type error over the statement's text.

use crate::range::ByteRange;
use vstd::prelude::*;

verus! {

/// The kind of a statement's root node, as far as type checking cares.
#[derive(Clone, Copy, Debug, PartialEq, Eq, Structural)]
pub enum StatementKind {
    Select,
    Insert,
    Update,
    Delete,
    CommonTableExpr,
    /// Every other kind of statement.
    Other,
}

/// How severe the database calls its complaint.
#[derive(Clone, Copy, Debug, PartialEq, Eq, Structural)]
pub enum PgSeverity {
    Panic,
    Fatal,
    Error,
    Warning,
    Notice,
    Debug,
    Info,
    Log,
}

/// Where the database places its complaint. Positions count characters
/// from 1.
#[derive(Clone, Copy, Debug, PartialEq, Eq, Structural)]
pub enum ErrorPosition {
    /// A position in the statement that was sent.
    Original(usize),
    /// A position in a query that the database generated itself.
    Internal(usize),
}

/// The database's complaint about a statement, in plain values.
#[derive(Debug, PartialEq, Eq)]
pub struct DatabaseError {
    pub message: String,
    pub code: String,
    pub severity: PgSeverity,
    pub position: Option<ErrorPosition>,
    pub table: Option<String>,
    pub column: Option<String>,
    pub data_type: Option<String>,
    pub constraint: Option<String>,
}

/// A type error in a statement.
#[derive(Debug, PartialEq, Eq)]
pub struct TypeError {
    pub message: String,
    pub code: String,
    pub severity: PgSeverity,
    /// Offset into the statement, counted from 0.
    pub position: Option<usize>,
    /// The syntax node around the position, where one is known.
    pub range: Option<ByteRange>,
    pub table: Option<String>,
    pub column: Option<String>,
    pub data_type: Option<String>,
    pub constraint: Option<String>,
}

/// Only statements that can be prepared are checked: select, insert,
/// update, delete, and common table expressions.
pub open spec fn checked(kind: StatementKind) -> bool {
    !(kind is Other)
}

/// The offset, counted from 0, that a position in the statement stands
/// for. A position in a generated query stands for none, and neither does
/// the impossible position 0.
pub open spec fn offset_of(position: Option<ErrorPosition>) -> Option<usize> {
    match position {
        Some(ErrorPosition::Original(at)) if at > 0 => Some((at - 1) as usize),
        _ => None,
    }
}

/// The type error that a complaint of the database stands for. A range is
/// kept only where the complaint has an offset.
pub open spec fn reported(error: DatabaseError, range: Option<ByteRange>) -> TypeError {
    TypeError {
        message: error.message,
        code: error.code,
        severity: error.severity,
        position: offset_of(error.position),
        range: if offset_of(error.position) is Some {
            range
        } else {
            None
        },
        table: error.table,
        column: error.column,
        data_type: error.data_type,
        constraint: error.constraint,
    }
}

/// Whether statements of this kind are checked.
pub fn is_checked(kind: StatementKind) -> (b: bool)
    ensures
        b == checked(kind),
{
    match kind {
        StatementKind::Select
        | StatementKind::Insert
        | StatementKind::Update
        | StatementKind::Delete
        | StatementKind::CommonTableExpr => true,
        StatementKind::Other => false,
    }
}

/// The offset into the statement at which the database places its
/// complaint.
pub fn error_offset(position: Option<ErrorPosition>) -> (offset: Option<usize>)
    ensures
        offset == offset_of(position),
{
    match position {
        Some(ErrorPosition::Original(at)) => {
            if at > 0 {
                Some(at - 1)
            } else {
                None
            }
        },
        _ => None,
    }
}

/// The type errors of one statement, given what the database said when
/// asked to prepare it, and the syntax node around the place it complained
/// of. A statement that is not checked has none, whatever was said.
pub fn check_sql(kind: StatementKind, failure: Option<DatabaseError>, range: Option<ByteRange>) -> (errors:
    Vec<TypeError>)
    ensures
        !checked(kind) || failure is None ==> errors@.len() == 0,
        checked(kind) && failure is Some ==> errors@ == seq![reported(failure->0, range)],
{
    let mut errors: Vec<TypeError> = Vec::new();
    if !is_checked(kind) {
        return errors;
    }
    if let Some(error) = failure {
        let position = error_offset(error.position);
        let range = if position.is_some() {
            range
        } else {
            None
        };
        errors.push(
            TypeError {
                message: error.message,
                code: error.code,
                severity: error.severity,
                position,
                range,
                table: error.table,
                column: error.column,
                data_type: error.data_type,
                constraint: error.constraint,
            },
        );
        assert(errors@ =~= seq![reported(failure->0, range)]);
    }
    errors
}

} // verus!
