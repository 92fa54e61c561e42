//! Tokens as the splitter sees them: a kind, the token's text and its byte span.

use crate::range::ByteRange;
use vstd::prelude::*;
use vstd::string::StrSliceExecFns;

verus! {

/// The token kinds that the splitter tells apart. Every kind of the tokenizer
/// that plays no role in finding statement boundaries is `Other`.
#[derive(Clone, Copy, Debug, PartialEq, Eq, Structural)]
pub enum SyntaxKind {
    Whitespace,
    Tab,
    /// One or more consecutive line breaks.
    Newline,
    SqlComment,
    /// The statement terminator `;`.
    Semicolon,
    Create,
    Alter,
    Select,
    Insert,
    Update,
    Delete,
    /// Introduces a common table expression.
    With,
    /// Any other keyword, identifier, literal or punctuation.
    Other,
    /// The synthetic end-of-input marker; a tokenizer never produces it.
    Eof,
}

impl SyntaxKind {
    /// The kinds that carry no SQL content.
    pub open spec fn whitespace_like(self) -> bool {
        self is Whitespace || self is Tab || self is Newline || self is SqlComment
    }

    pub fn is_whitespace_like(self) -> (b: bool)
        ensures
            b == self.whitespace_like(),
    {
        match self {
            SyntaxKind::Whitespace
            | SyntaxKind::Tab
            | SyntaxKind::Newline
            | SyntaxKind::SqlComment => true,
            _ => false,
        }
    }

    /// The kind's name, as it appears in error messages.
    pub open spec fn name(self) -> Seq<char> {
        match self {
            SyntaxKind::Whitespace => "Whitespace"@,
            SyntaxKind::Tab => "Tab"@,
            SyntaxKind::Newline => "Newline"@,
            SyntaxKind::SqlComment => "SqlComment"@,
            SyntaxKind::Semicolon => "Semicolon"@,
            SyntaxKind::Create => "Create"@,
            SyntaxKind::Alter => "Alter"@,
            SyntaxKind::Select => "Select"@,
            SyntaxKind::Insert => "Insert"@,
            SyntaxKind::Update => "Update"@,
            SyntaxKind::Delete => "Delete"@,
            SyntaxKind::With => "With"@,
            SyntaxKind::Other => "Other"@,
            SyntaxKind::Eof => "Eof"@,
        }
    }

    pub fn as_str(self) -> (s: &'static str)
        ensures
            s@ == self.name(),
    {
        match self {
            SyntaxKind::Whitespace => "Whitespace",
            SyntaxKind::Tab => "Tab",
            SyntaxKind::Newline => "Newline",
            SyntaxKind::SqlComment => "SqlComment",
            SyntaxKind::Semicolon => "Semicolon",
            SyntaxKind::Create => "Create",
            SyntaxKind::Alter => "Alter",
            SyntaxKind::Select => "Select",
            SyntaxKind::Insert => "Insert",
            SyntaxKind::Update => "Update",
            SyntaxKind::Delete => "Delete",
            SyntaxKind::With => "With",
            SyntaxKind::Other => "Other",
            SyntaxKind::Eof => "Eof",
        }
    }
}

/// The smallest lexical unit: a kind, the source text and where it stands.
#[derive(Clone, Debug, PartialEq, Eq)]
pub struct Token {
    pub kind: SyntaxKind,
    pub text: String,
    pub span: ByteRange,
}

impl Token {
    /// A token survives filtering when it is not whitespace-like, or when it
    /// is a run of two or more line breaks (a blank-line separator).
    pub open spec fn significant(self) -> bool {
        !self.kind.whitespace_like() || (self.kind is Newline && self.text@.len() > 1)
    }

    /// A token that the cursor steps over: whitespace-like, and not a
    /// blank-line separator.
    pub open spec fn irrelevant(self) -> bool {
        self.kind.whitespace_like() && (!(self.kind is Newline) || self.text@.len() == 1)
    }

    /// In a filtered stream the only whitespace-like tokens left are the
    /// blank-line separators.
    pub open spec fn separator(self) -> bool {
        self.kind is Newline
    }

    /// The end-of-input sentinel at byte offset `pos`.
    pub fn eof(pos: u32) -> (t: Token)
        ensures
            t.kind is Eof,
            t.text@.len() == 0,
            t.span.start == pos,
            t.span.end == pos,
    {
        Token { kind: SyntaxKind::Eof, text: String::new(), span: ByteRange::empty(pos) }
    }

    pub fn is_significant(&self) -> (b: bool)
        ensures
            b == self.significant(),
    {
        !self.kind.is_whitespace_like() || (self.kind == SyntaxKind::Newline
            && self.text.as_str().unicode_len() > 1)
    }
}

/// Whether the cursor steps over `t`.
pub fn is_irrelevant_token(t: &Token) -> (b: bool)
    ensures
        b == t.irrelevant(),
{
    t.kind.is_whitespace_like() && (t.kind != SyntaxKind::Newline
        || t.text.as_str().unicode_len() == 1)
}

} // verus!
