//! Statement splitting for a SQL language server, together with the small
//! decision procedures of the tooling around it.

use crate::coverage::{
    covers_content, disjoint_in_order, lemma_byte_ranges, lemma_total_coverage, statement_ranges,
    trimmed, within_document,
};
use crate::error::InternalError;
use crate::parser::common::{source, statements_from};
use crate::parser::{Parse, Parser};
use crate::stream::{check_stream, well_formed};
use crate::token::Token;
use vstd::prelude::*;

pub mod codegen;
pub mod completions;
pub mod coverage;
pub mod error;
pub mod flags;
pub mod parser;
pub mod range;
pub mod report;
pub mod stream;
pub mod token;
pub mod typecheck;

verus! {

/// Splits one document, given as the tokens of its text, into statements.
///
/// A well-formed token stream is always split: the result holds the byte
/// range of every statement, in source order, and no error. A stream that is
/// not well formed is refused.
pub fn split(tokens: Vec<Token>) -> (res: Result<Parse, InternalError>)
    ensures
        !well_formed(tokens@) ==> res == Err::<Parse, InternalError>(
            InternalError::MalformedTokens,
        ),
        well_formed(tokens@) ==> res is Ok,
        res matches Ok(parse) ==> {
            &&& parse.ranges@ == statement_ranges(tokens@)
            &&& parse.errors@.len() == 0
            &&& disjoint_in_order(parse.ranges@)
            &&& within_document(tokens@, parse.ranges@)
            &&& covers_content(tokens@, parse.ranges@)
            &&& trimmed(tokens@, parse.ranges@)
        },
{
    if !check_stream(&tokens) {
        return Err(InternalError::MalformedTokens);
    }
    let mut parser = Parser::new(tokens);
    let ghost opened = parser@;
    match source(&mut parser) {
        Err(e) => Err(e),
        Ok(()) => {
            proof {
                lemma_byte_ranges(parser@);
                lemma_total_coverage(tokens@);
                assert(parser@.spans =~= statements_from(opened.tokens, 0));
            }
            let parse = parser.finish();
            Ok(parse)
        },
    }
}

} // verus!
