//! The dispatcher and the recovery consumer.

use crate::coverage::lemma_source_keeps_resolvable;
use crate::error::InternalError;
use crate::parser::ddl::{alter, create};
use crate::parser::dml::{cte, delete, insert, select, update};
use crate::parser::{Parser, Session, Span};
use crate::token::{SyntaxKind, Token};
use vstd::prelude::*;

verus! {

/// Where recovery from position `c` comes to rest: just behind the first
/// statement terminator at or after `c`, or on the first blank-line separator,
/// or at the end of the stream, whichever comes first.
pub open spec fn boundary_after(ts: Seq<Token>, c: int) -> int
    decreases ts.len() - c,
{
    if c < 0 || c >= ts.len() {
        c
    } else if ts[c].kind is Semicolon {
        c + 1
    } else if ts[c].kind is Newline {
        c
    } else {
        boundary_after(ts, c + 1)
    }
}

/// Recovery never moves backwards and never leaves the stream; it moves
/// forward exactly when it starts on a token that is not a separator.
pub proof fn lemma_boundary_after_bounds(ts: Seq<Token>, c: int)
    requires
        0 <= c <= ts.len(),
    ensures
        c <= boundary_after(ts, c) <= ts.len(),
        boundary_after(ts, c) > c <==> c < ts.len() && !(ts[c].kind is Newline),
    decreases ts.len() - c,
{
    if c < ts.len() && !(ts[c].kind is Semicolon) && !(ts[c].kind is Newline) {
        lemma_boundary_after_bounds(ts, c + 1);
    }
}

/// The cursor only ever moves forward, and never past the end of the
/// stream: consuming a token moves it by one until the end is reached,
/// recovery moves it to the next boundary, and opening or closing a
/// statement or recording an error leaves it where it is.
pub proof fn lemma_monotonic_progress(s: Session, kind: SyntaxKind, message: Seq<char>)
    requires
        s.wf(),
    ensures
        s.cursor <= s.advanced().cursor <= s.tokens.len(),
        s.cursor < s.tokens.len() ==> s.advanced().cursor == s.cursor + 1,
        s.cursor <= s.expected(kind).cursor <= s.tokens.len(),
        s.cursor <= recovered(s).cursor <= s.tokens.len(),
        s.with_error(message).cursor == s.cursor,
        s.opened().cursor == s.cursor,
        s.closed().cursor == s.cursor,
{
    lemma_boundary_after_bounds(s.tokens, s.cursor);
}

/// The session after the recovery consumer has run.
pub open spec fn recovered(s: Session) -> Session {
    Session { cursor: boundary_after(s.tokens, s.cursor), ..s }
}

/// The statements that the dispatcher finds from position `c` on: separators
/// between statements are stepped over, and each statement runs from its
/// first token to the boundary that recovery finds.
pub open spec fn statements_from(ts: Seq<Token>, c: int) -> Seq<Span>
    decreases ts.len() - c,
{
    if c < 0 || c >= ts.len() {
        Seq::empty()
    } else if ts[c].kind is Newline {
        statements_from(ts, c + 1)
    } else {
        proof {
            lemma_boundary_after_bounds(ts, c);
        }
        seq![Span { first: c, last: boundary_after(ts, c) - 1 }] + statements_from(
            ts,
            boundary_after(ts, c),
        )
    }
}

/// Index of the first token at or after `c` that is not a separator, or the
/// length of the stream.
pub open spec fn skip_separators(ts: Seq<Token>, c: int) -> int
    decreases ts.len() - c,
{
    if c < 0 || c >= ts.len() || !(ts[c].kind is Newline) {
        c
    } else {
        skip_separators(ts, c + 1)
    }
}

/// What a statement parser leaves behind when it has scanned the session
/// into `scanned` with the statement still open: the statement is closed on
/// the last token consumed, unless no token has been consumed since the
/// session began.
pub open spec fn closes(scanned: Session, res: Result<(), InternalError>, after: Session) -> bool {
    if scanned.closable() {
        res is Ok && after == scanned.closed()
    } else {
        res == Err::<(), InternalError>(InternalError::EmptyStatement) && after == scanned
    }
}

/// What a statement parser that anchors on `kind` leaves behind: it refuses
/// to nest; otherwise it opens a statement, asks for the anchor, lets
/// recovery run and closes.
pub open spec fn anchored(
    before: Session,
    kind: SyntaxKind,
    res: Result<(), InternalError>,
    after: Session,
) -> bool {
    if before.open is Some {
        res == Err::<(), InternalError>(InternalError::StatementAlreadyOpen) && after == before
    } else {
        closes(recovered(before.opened().expected(kind)), res, after)
    }
}

/// What the dispatcher leaves behind for one statement: it refuses to nest;
/// otherwise the statement runs from the cursor to the boundary that recovery
/// finds from there, whatever its kind, and no error is recorded.
pub open spec fn dispatched(before: Session, res: Result<(), InternalError>, after: Session) -> bool {
    if before.open is Some {
        res == Err::<(), InternalError>(InternalError::StatementAlreadyOpen) && after == before
    } else {
        closes(recovered(before.opened()), res, after)
    }
}

/// What the dispatcher leaves behind for a whole document. With no statement
/// open it runs to the end of input and adds every statement from the cursor
/// on. With a statement open it steps over separators and fails on the first
/// token that would start a statement.
pub open spec fn sourced(before: Session, res: Result<(), InternalError>, after: Session) -> bool {
    if before.open is None {
        &&& res is Ok
        &&& after == (Session {
            cursor: before.tokens.len() as int,
            spans: before.spans + statements_from(before.tokens, before.cursor),
            ..before
        })
    } else {
        let at = skip_separators(before.tokens, before.cursor);
        &&& after == (Session { cursor: at, ..before })
        &&& if at >= before.tokens.len() {
            res is Ok
        } else {
            res == Err::<(), InternalError>(InternalError::StatementAlreadyOpen)
        }
    }
}

/// The kinds that open a statement with a parser of its own.
pub open spec fn anchors_statement(kind: SyntaxKind) -> bool {
    kind is Create || kind is Alter || kind is Select || kind is Insert || kind is Update
        || kind is Delete || kind is With
}

/// A statement parser that is entered on its own anchor behaves as the
/// fallback does: the anchor is consumed, no error is recorded, and recovery
/// ends where it would have ended from the anchor itself.
pub proof fn lemma_anchored_is_dispatched(
    before: Session,
    kind: SyntaxKind,
    res: Result<(), InternalError>,
    after: Session,
)
    requires
        before.wf(),
        anchors_statement(kind),
        before.peek().kind == kind,
        anchored(before, kind, res, after),
    ensures
        dispatched(before, res, after),
{
    if before.open is None {
        assert(before.cursor < before.tokens.len());
        assert(before.opened().expected(kind) == before.opened().advanced());
    }
}

/// Swallows tokens up to the next statement boundary: a terminator, which is
/// swallowed too, a blank-line separator or the end of input, which are not.
pub fn unknown(p: &mut Parser)
    requires
        old(p)@.wf(),
    ensures
        final(p)@.wf(),
        final(p)@ == recovered(old(p)@),
        old(p)@.cursor <= final(p)@.cursor,
{
    let ghost start = p@;
    proof {
        lemma_boundary_after_bounds(start.tokens, start.cursor);
    }
    loop
        invariant_except_break
            boundary_after(start.tokens, p@.cursor) == boundary_after(start.tokens, start.cursor),
        invariant
            p@.wf(),
            start.wf(),
            start.cursor <= p@.cursor,
            p@ == (Session { cursor: p@.cursor, ..start }),
        ensures
            p@.wf(),
            p@ == recovered(start),
            start.cursor <= p@.cursor,
        decreases p@.tokens.len() - p@.cursor,
    {
        match p.peek().kind {
            SyntaxKind::Semicolon => {
                p.advance();
                break ;
            },
            SyntaxKind::Newline | SyntaxKind::Eof => {
                break ;
            },
            _ => {
                p.advance();
            },
        }
    }
}

/// Splits off one statement: picks the statement parser by the kind of the
/// token under the cursor, and falls back to plain recovery for any other.
pub fn statement(p: &mut Parser) -> (res: Result<(), InternalError>)
    requires
        old(p)@.wf(),
    ensures
        final(p)@.wf(),
        dispatched(old(p)@, res, final(p)@),
        old(p)@.cursor <= final(p)@.cursor,
{
    let kind = p.peek().kind;
    let res = match kind {
        SyntaxKind::With => cte(p),
        SyntaxKind::Select => select(p),
        SyntaxKind::Insert => insert(p),
        SyntaxKind::Update => update(p),
        SyntaxKind::Delete => delete(p),
        SyntaxKind::Create => create(p),
        SyntaxKind::Alter => alter(p),
        _ => {
            match p.start_stmt() {
                Err(e) => Err(e),
                Ok(()) => {
                    unknown(p);
                    p.close_stmt()
                },
            }
        },
    };
    proof {
        if anchors_statement(kind) {
            lemma_anchored_is_dispatched(old(p)@, kind, res, p@);
        }
    }
    res
}

/// Splits the rest of the document into statements: steps over the
/// separators between statements and hands every other token to `statement`,
/// until the end of input. Every statement it adds holds a token, so a
/// session that could be finished before can be finished after.
pub fn source(p: &mut Parser) -> (res: Result<(), InternalError>)
    requires
        old(p)@.wf(),
    ensures
        final(p)@.wf(),
        sourced(old(p)@, res, final(p)@),
        old(p)@.open is None && old(p)@.resolvable() ==> final(p)@.resolvable(),
        old(p)@.cursor <= final(p)@.cursor,
{
    let ghost start = p@;
    loop
        invariant
            start == old(p)@,
            p@.wf(),
            start.wf(),
            start.cursor <= p@.cursor,
            p@ == (Session { cursor: p@.cursor, spans: p@.spans, ..start }),
            start.open is None ==> start.spans + statements_from(start.tokens, start.cursor)
                == p@.spans + statements_from(start.tokens, p@.cursor),
            start.open is Some ==> p@.spans == start.spans && skip_separators(
                start.tokens,
                p@.cursor,
            ) == skip_separators(start.tokens, start.cursor),
        decreases p@.tokens.len() - p@.cursor,
    {
        let ghost here = p@;
        match p.peek().kind {
            SyntaxKind::Eof => {
                proof {
                    assert(here.cursor == here.tokens.len());
                    assert(here.spans + statements_from(start.tokens, here.cursor) =~= here.spans);
                    if start.open is None && start.resolvable() {
                        lemma_source_keeps_resolvable(start, here);
                    }
                }
                return Ok(());
            },
            SyntaxKind::Newline => {
                p.advance();
            },
            _ => {
                proof {
                    lemma_boundary_after_bounds(here.tokens, here.cursor);
                }
                match statement(p) {
                    Err(e) => {
                        return Err(e);
                    },
                    Ok(()) => {
                        proof {
                            let span = Span {
                                first: here.cursor,
                                last: boundary_after(here.tokens, here.cursor) - 1,
                            };
                            assert(p@.spans == here.spans.push(span));
                            assert(here.spans + (seq![span] + statements_from(
                                start.tokens,
                                p@.cursor,
                            )) =~= here.spans.push(span) + statements_from(start.tokens, p@.cursor));
                        }
                    },
                }
            },
        }
    }
}

} // verus!
