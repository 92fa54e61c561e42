//! The splitting session: a forward-only cursor over the filtered token
//! stream, the statement spans found so far and the errors recorded.

use crate::error::{error_views, InternalError, SyntaxError, SyntaxErrorView};
use crate::range::ByteRange;
use crate::stream::{
    all_significant, end_offset, lemma_significant_tokens, retain_significant, significant_tokens,
    well_formed,
};
use crate::token::{is_irrelevant_token, SyntaxKind, Token};
use vstd::prelude::*;
use vstd::string::StringExecFns;

pub mod common;
pub mod ddl;
pub mod dml;

verus! {

/// A closed statement: the indices of its first and last token, both inclusive.
pub struct Span {
    pub first: int,
    pub last: int,
}

/// The session as a mathematical value.
pub struct Session {
    /// The filtered token stream.
    pub tokens: Seq<Token>,
    /// The end-of-input sentinel.
    pub eof: Token,
    /// Index of the next token to look at.
    pub cursor: int,
    /// The statements closed so far, in source order.
    pub spans: Seq<Span>,
    /// Index of the first token of the open statement, if one is open.
    pub open: Option<int>,
    /// The syntax errors recorded so far, in discovery order.
    pub errors: Seq<SyntaxErrorView>,
}

impl Session {
    /// The invariant of a session.
    pub open spec fn wf(self) -> bool {
        &&& well_formed(self.tokens)
        &&& all_significant(self.tokens)
        &&& self.eof.kind is Eof
        &&& self.eof.text@.len() == 0
        &&& self.eof.span.start == end_offset(self.tokens)
        &&& self.eof.span.end == end_offset(self.tokens)
        &&& 0 <= self.cursor <= self.tokens.len()
        &&& forall|k: int|
            0 <= k < self.spans.len() ==> {
                &&& 0 <= (#[trigger] self.spans[k]).first <= self.spans[k].last + 1
                &&& 0 <= self.spans[k].last < self.cursor
            }
        &&& forall|k: int, m: int|
            0 <= k < m < self.spans.len() ==> (#[trigger] self.spans[k]).last
                < (#[trigger] self.spans[m]).first
        &&& self.open matches Some(s) ==> {
            &&& 0 <= s <= self.cursor
            &&& forall|k: int| 0 <= k < self.spans.len() ==> (#[trigger] self.spans[k]).last < s
        }
    }

    /// The token at index `i`; past the end of the stream, the sentinel.
    pub open spec fn token_at(self, i: int) -> Token {
        if 0 <= i < self.tokens.len() {
            self.tokens[i]
        } else {
            self.eof
        }
    }

    /// The token under the cursor.
    pub open spec fn peek(self) -> Token {
        self.token_at(self.cursor)
    }

    /// The session after the token under the cursor has been consumed. At
    /// the end of input there is nothing to consume.
    pub open spec fn advanced(self) -> Session {
        Session {
            cursor: if self.cursor < self.tokens.len() {
                self.cursor + 1
            } else {
                self.cursor
            },
            ..self
        }
    }

    /// The session after an error with `message` has been recorded at the
    /// token under the cursor.
    pub open spec fn with_error(self, message: Seq<char>) -> Session {
        Session {
            errors: self.errors.push(
                SyntaxErrorView { message, position: Some(self.peek().span.start) },
            ),
            ..self
        }
    }

    /// The session after a missing token of `kind` has been asked for: the
    /// token is consumed if it is there, and an error is recorded if not.
    pub open spec fn expected(self, kind: SyntaxKind) -> Session {
        if self.peek().kind == kind {
            self.advanced()
        } else {
            self.with_error(expected_message(kind))
        }
    }

    /// The session after a statement has been opened at the cursor.
    pub open spec fn opened(self) -> Session {
        Session { open: Some(self.cursor), ..self }
    }

    /// Whether the open statement can be closed: one is open, and at least
    /// one token has been consumed since the session began.
    pub open spec fn closable(self) -> bool {
        self.open is Some && self.cursor > 0
    }

    /// The session after the open statement has been closed on the last
    /// token consumed. Where nothing was consumed since the statement was
    /// opened, the span holds no token: it ends just before it starts.
    pub open spec fn closed(self) -> Session
        recommends
            self.closable(),
    {
        Session {
            spans: self.spans.push(Span { first: self.open->0, last: self.cursor - 1 }),
            open: None,
            ..self
        }
    }

    /// The bytes that a span covers: from the start of its first token to the
    /// end of its last.
    pub open spec fn byte_range(self, span: Span) -> ByteRange {
        ByteRange {
            start: self.token_at(span.first).span.start,
            end: self.token_at(span.last).span.end,
        }
    }

    /// Whether every closed statement can be turned into a byte range: its
    /// first token is a token of the stream, and does not start behind the
    /// end of its last.
    pub open spec fn resolvable(self) -> bool {
        forall|k: int|
            0 <= k < self.spans.len() ==> (#[trigger] self.spans[k]).first < self.tokens.len()
                && self.byte_range(self.spans[k]).wf()
    }

    /// The byte ranges of all closed statements, in order.
    pub open spec fn byte_ranges(self) -> Seq<ByteRange> {
        Seq::new(self.spans.len(), |k: int| self.byte_range(self.spans[k]))
    }
}

/// The message of the error that a missing token of `kind` leaves behind.
pub open spec fn expected_message(kind: SyntaxKind) -> Seq<char> {
    "expected "@ + kind.name()
}

/// The session over one document.
pub struct Parser {
    /// The statements closed so far, as inclusive token index pairs.
    ranges: Vec<(usize, usize)>,
    /// The syntax errors accumulated so far.
    errors: Vec<SyntaxError>,
    /// The start of the open statement, if any.
    current_stmt_start: Option<usize>,
    /// The filtered token stream.
    tokens: Vec<Token>,
    eof_token: Token,
    next_pos: usize,
}

/// What a finished session hands back.
#[derive(Debug, PartialEq, Eq)]
pub struct Parse {
    /// The byte range of each statement, in source order.
    pub ranges: Vec<ByteRange>,
    /// The syntax errors accumulated while splitting.
    pub errors: Vec<SyntaxError>,
}

impl View for Parser {
    type V = Session;

    closed spec fn view(&self) -> Session {
        Session {
            tokens: self.tokens@,
            eof: self.eof_token,
            cursor: self.next_pos as int,
            spans: self.ranges@.map_values(
                |r: (usize, usize)| Span { first: r.0 as int, last: r.1 as int },
            ),
            open: match self.current_stmt_start {
                Some(s) => Some(s as int),
                None => None,
            },
            errors: error_views(self.errors@),
        }
    }
}

/// Index of the first token at or after `from` that the cursor does not step
/// over, or the length of the stream if there is none.
fn skip_irrelevant(tokens: &Vec<Token>, from: usize) -> (at: usize)
    requires
        from <= tokens.len(),
    ensures
        from <= at <= tokens.len(),
        forall|k: int| from <= k < at ==> (#[trigger] tokens[k]).irrelevant(),
        at < tokens.len() ==> !tokens[at as int].irrelevant(),
{
    let mut at = from;
    while at < tokens.len() && is_irrelevant_token(&tokens[at])
        invariant
            from <= at <= tokens.len(),
            forall|k: int| from <= k < at ==> (#[trigger] tokens[k]).irrelevant(),
        decreases tokens.len() - at,
    {
        at += 1;
    }
    at
}

impl Parser {
    /// Opens a session over the tokens of one document: drops the
    /// insignificant ones, sets the sentinel at the end of what is left and
    /// puts the cursor on the first token.
    pub fn new(tokens: Vec<Token>) -> (p: Parser)
        requires
            well_formed(tokens@),
        ensures
            p@.wf(),
            p@.tokens == significant_tokens(tokens@),
            p@.cursor == 0,
            p@.spans.len() == 0,
            p@.open is None,
            p@.errors.len() == 0,
    {
        proof {
            lemma_significant_tokens(tokens@);
        }
        let kept = retain_significant(tokens);
        let end: u32 = if kept.len() > 0 {
            kept[kept.len() - 1].span.end
        } else {
            0
        };
        let eof_token = Token::eof(end);
        let next_pos = skip_irrelevant(&kept, 0);
        assert(next_pos == 0) by {
            if next_pos > 0 {
                assert(kept@[0].irrelevant());
                assert(kept@[0].significant());
            }
        }
        Parser {
            ranges: Vec::new(),
            errors: Vec::new(),
            current_stmt_start: None,
            tokens: kept,
            eof_token,
            next_pos,
        }
    }

    /// The token at index `i`, or the sentinel past the end of the stream.
    fn token_at(&self, i: usize) -> (t: &Token)
        ensures
            *t == self@.token_at(i as int),
    {
        if i < self.tokens.len() {
            &self.tokens[i]
        } else {
            &self.eof_token
        }
    }

    /// The token under the cursor, or the sentinel at the end of input.
    pub fn peek(&self) -> (t: &Token)
        ensures
            *t == self@.peek(),
    {
        self.token_at(self.next_pos)
    }

    /// Whether the session can be finished: every closed statement can be
    /// turned into a byte range.
    pub fn is_resolvable(&self) -> (b: bool)
        requires
            self@.wf(),
        ensures
            b == self@.resolvable(),
    {
        let mut k: usize = 0;
        while k < self.ranges.len()
            invariant
                self@.wf(),
                k <= self.ranges.len(),
                forall|j: int|
                    0 <= j < k ==> (#[trigger] self@.spans[j]).first < self@.tokens.len()
                        && self@.byte_range(self@.spans[j]).wf(),
            decreases self.ranges.len() - k,
        {
            let (first, last) = self.ranges[k];
            assert(self@.spans[k as int].first == first && self@.spans[k as int].last == last);
            if first >= self.tokens.len() || self.token_at(first).span.start > self.token_at(
                last,
            ).span.end {
                return false;
            }
            k += 1;
        }
        true
    }

    /// Ends the session: every closed statement becomes the byte range from
    /// the start of its first token to the end of its last. A session with a
    /// statement that cannot be turned into a byte range cannot be finished.
    pub fn finish(self) -> (parse: Parse)
        requires
            self@.wf(),
            self@.resolvable(),
        ensures
            parse.ranges@ == self@.byte_ranges(),
            error_views(parse.errors@) == self@.errors,
    {
        let mut ranges: Vec<ByteRange> = Vec::new();
        let mut k: usize = 0;
        while k < self.ranges.len()
            invariant
                self@.resolvable(),
                k <= self.ranges.len(),
                ranges@ == self@.byte_ranges().take(k as int),
            decreases self.ranges.len() - k,
        {
            let (first, last) = self.ranges[k];
            let from = self.token_at(first);
            let to = self.token_at(last);
            proof {
                let span = self@.spans[k as int];
                assert(span.first == first && span.last == last);
                assert(self@.byte_range(span).wf());
            }
            ranges.push(ByteRange::new(from.span.start, to.span.end));
            assert(ranges@ =~= self@.byte_ranges().take(k + 1));
            k += 1;
        }
        assert(ranges@ =~= self@.byte_ranges());
        Parse { ranges, errors: self.errors }
    }

    /// Opens a statement at the cursor. Fails, and changes nothing, if a
    /// statement is open already.
    pub fn start_stmt(&mut self) -> (res: Result<(), InternalError>)
        requires
            old(self)@.wf(),
        ensures
            final(self)@.wf(),
            old(self)@.open is Some ==> res == Err::<(), InternalError>(
                InternalError::StatementAlreadyOpen,
            ) && final(self)@ == old(self)@,
            old(self)@.open is None ==> res is Ok && final(self)@ == old(self)@.opened(),
            old(self)@.cursor <= final(self)@.cursor,
    {
        if self.current_stmt_start.is_some() {
            return Err(InternalError::StatementAlreadyOpen);
        }
        self.current_stmt_start = Some(self.next_pos);
        Ok(())
    }

    /// Closes the open statement on the last token consumed. Fails, and
    /// changes nothing, if no statement is open or if no token has been
    /// consumed since the session began.
    pub fn close_stmt(&mut self) -> (res: Result<(), InternalError>)
        requires
            old(self)@.wf(),
        ensures
            final(self)@.wf(),
            old(self)@.open is None ==> res == Err::<(), InternalError>(
                InternalError::NoOpenStatement,
            ) && final(self)@ == old(self)@,
            old(self)@.open is Some && !old(self)@.closable() ==> res == Err::<(), InternalError>(
                InternalError::EmptyStatement,
            ) && final(self)@ == old(self)@,
            old(self)@.closable() ==> res is Ok && final(self)@ == old(self)@.closed(),
            old(self)@.cursor <= final(self)@.cursor,
    {
        match self.current_stmt_start {
            None => Err(InternalError::NoOpenStatement),
            Some(start) => {
                if self.next_pos == 0 {
                    return Err(InternalError::EmptyStatement);
                }
                self.ranges.push((start, self.next_pos - 1));
                self.current_stmt_start = None;
                proof {
                    assert(self@.spans =~= old(self)@.closed().spans);
                }
                Ok(())
            },
        }
    }

    /// Consumes the token under the cursor and returns it. The cursor comes
    /// to rest on the next token that matters. At the end of input the
    /// sentinel is returned and the cursor stays where it is.
    pub fn advance(&mut self) -> (t: &Token)
        requires
            old(self)@.wf(),
        ensures
            final(self)@ == old(self)@.advanced(),
            final(self)@.wf(),
            *t == old(self)@.peek(),
            old(self)@.cursor <= final(self)@.cursor,
    {
        let first = skip_irrelevant(&self.tokens, self.next_pos);
        assert(first == self.next_pos) by {
            if first > self.next_pos {
                assert(self.tokens@[self.next_pos as int].irrelevant());
                assert(self.tokens@[self.next_pos as int].significant());
            }
        }
        if first < self.tokens.len() {
            let next = skip_irrelevant(&self.tokens, first + 1);
            assert(next == first + 1) by {
                if next > first + 1 {
                    assert(self.tokens@[first + 1].irrelevant());
                    assert(self.tokens@[first + 1].significant());
                }
            }
            self.next_pos = next;
            &self.tokens[first]
        } else {
            &self.eof_token
        }
    }

    /// Consumes the token under the cursor if it is of `kind`, and says
    /// whether it was.
    pub fn eat(&mut self, kind: SyntaxKind) -> (eaten: bool)
        requires
            old(self)@.wf(),
        ensures
            final(self)@.wf(),
            eaten == (old(self)@.peek().kind == kind),
            eaten ==> final(self)@ == old(self)@.advanced(),
            !eaten ==> final(self)@ == old(self)@,
            old(self)@.cursor <= final(self)@.cursor,
    {
        if self.peek().kind == kind {
            self.advance();
            true
        } else {
            false
        }
    }

    /// Consumes the token under the cursor if it is of `kind`. If it is not,
    /// records an error at the cursor and consumes nothing.
    pub fn expect(&mut self, kind: SyntaxKind)
        requires
            old(self)@.wf(),
        ensures
            final(self)@.wf(),
            final(self)@ == old(self)@.expected(kind),
            old(self)@.cursor <= final(self)@.cursor,
    {
        if self.eat(kind) {
            return ;
        }
        let mut message = String::from_str("expected ");
        message.append(kind.as_str());
        self.error_at(message);
    }

    /// Records a syntax error with `message` at the start of the token under
    /// the cursor. Nothing else changes.
    pub fn error_at(&mut self, message: String)
        requires
            old(self)@.wf(),
        ensures
            final(self)@.wf(),
            final(self)@ == old(self)@.with_error(message@),
            old(self)@.cursor <= final(self)@.cursor,
    {
        let position = self.peek().span.start;
        self.errors.push(SyntaxError::new(message, Some(position)));
        proof {
            assert(self@.errors =~= old(self)@.with_error(message@).errors);
        }
    }

    /// Index of the next token to look at.
    pub fn position(&self) -> (at: usize)
        ensures
            at == self@.cursor,
    {
        self.next_pos
    }

    /// The filtered token stream.
    pub fn tokens(&self) -> (tokens: &Vec<Token>)
        ensures
            tokens@ == self@.tokens,
    {
        &self.tokens
    }

    /// The syntax errors recorded so far.
    pub fn errors(&self) -> (errors: &Vec<SyntaxError>)
        ensures
            error_views(errors@) == self@.errors,
    {
        &self.errors
    }

    /// Index of the first token of the open statement, if one is open.
    pub fn open_statement(&self) -> (open: Option<usize>)
        ensures
            open is Some == self@.open is Some,
            open matches Some(s) ==> self@.open == Some(s as int),
    {
        self.current_stmt_start
    }

    /// Number of statements closed so far.
    pub fn closed_statements(&self) -> (n: usize)
        ensures
            n == self@.spans.len(),
    {
        self.ranges.len()
    }
}

} // verus!
