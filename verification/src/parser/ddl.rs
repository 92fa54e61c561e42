//! Statements that define or change schema objects.

use crate::error::InternalError;
use crate::parser::common::{anchored, unknown};
use crate::parser::Parser;
use crate::token::SyntaxKind;
use vstd::prelude::*;

verus! {

/// One `create` statement.
pub fn create(p: &mut Parser) -> (res: Result<(), InternalError>)
    requires
        old(p)@.wf(),
    ensures
        final(p)@.wf(),
        anchored(old(p)@, SyntaxKind::Create, res, final(p)@),
        old(p)@.cursor <= final(p)@.cursor,
{
    match p.start_stmt() {
        Err(e) => Err(e),
        Ok(()) => {
            p.expect(SyntaxKind::Create);
            unknown(p);
            p.close_stmt()
        },
    }
}

/// One `alter` statement.
pub fn alter(p: &mut Parser) -> (res: Result<(), InternalError>)
    requires
        old(p)@.wf(),
    ensures
        final(p)@.wf(),
        anchored(old(p)@, SyntaxKind::Alter, res, final(p)@),
        old(p)@.cursor <= final(p)@.cursor,
{
    match p.start_stmt() {
        Err(e) => Err(e),
        Ok(()) => {
            p.expect(SyntaxKind::Alter);
            unknown(p);
            p.close_stmt()
        },
    }
}

} // verus!
