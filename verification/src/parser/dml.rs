//! Statements that read or change data.

use crate::error::InternalError;
use crate::parser::common::{anchored, unknown};
use crate::parser::Parser;
use crate::token::SyntaxKind;
use vstd::prelude::*;

verus! {

/// One `select` statement.
pub fn select(p: &mut Parser) -> (res: Result<(), InternalError>)
    requires
        old(p)@.wf(),
    ensures
        final(p)@.wf(),
        anchored(old(p)@, SyntaxKind::Select, res, final(p)@),
        old(p)@.cursor <= final(p)@.cursor,
{
    match p.start_stmt() {
        Err(e) => Err(e),
        Ok(()) => {
            p.expect(SyntaxKind::Select);
            unknown(p);
            p.close_stmt()
        },
    }
}

/// One `insert` statement.
pub fn insert(p: &mut Parser) -> (res: Result<(), InternalError>)
    requires
        old(p)@.wf(),
    ensures
        final(p)@.wf(),
        anchored(old(p)@, SyntaxKind::Insert, res, final(p)@),
        old(p)@.cursor <= final(p)@.cursor,
{
    match p.start_stmt() {
        Err(e) => Err(e),
        Ok(()) => {
            p.expect(SyntaxKind::Insert);
            unknown(p);
            p.close_stmt()
        },
    }
}

/// One `update` statement.
pub fn update(p: &mut Parser) -> (res: Result<(), InternalError>)
    requires
        old(p)@.wf(),
    ensures
        final(p)@.wf(),
        anchored(old(p)@, SyntaxKind::Update, res, final(p)@),
        old(p)@.cursor <= final(p)@.cursor,
{
    match p.start_stmt() {
        Err(e) => Err(e),
        Ok(()) => {
            p.expect(SyntaxKind::Update);
            unknown(p);
            p.close_stmt()
        },
    }
}

/// One `delete` statement.
pub fn delete(p: &mut Parser) -> (res: Result<(), InternalError>)
    requires
        old(p)@.wf(),
    ensures
        final(p)@.wf(),
        anchored(old(p)@, SyntaxKind::Delete, res, final(p)@),
        old(p)@.cursor <= final(p)@.cursor,
{
    match p.start_stmt() {
        Err(e) => Err(e),
        Ok(()) => {
            p.expect(SyntaxKind::Delete);
            unknown(p);
            p.close_stmt()
        },
    }
}

/// One statement that opens with a common table expression.
pub fn cte(p: &mut Parser) -> (res: Result<(), InternalError>)
    requires
        old(p)@.wf(),
    ensures
        final(p)@.wf(),
        anchored(old(p)@, SyntaxKind::With, res, final(p)@),
        old(p)@.cursor <= final(p)@.cursor,
{
    match p.start_stmt() {
        Err(e) => Err(e),
        Ok(()) => {
            p.expect(SyntaxKind::With);
            unknown(p);
            p.close_stmt()
        },
    }
}

} // verus!
