//! The kinds of problems, as values, and how each is shown on its own.
//!
//! Lexical and syntax errors end the parse of a file; semantic errors are
//! gathered over the whole file.

use crate::format::{
    decimal, format_block, format_plain, spec_format_err, spec_format_plain, spec_place,
    to_decimal,
};
use crate::lexer::LexFault;
use crate::symbol::span;
use crate::text::{get_token_line, get_token_line_number, join3, spec_line_number};
use crate::token::Token;
use vstd::prelude::*;
use vstd::string::*;
use vstd::utf8::{decode_utf8, encode_utf8_decode_utf8, is_char_boundary};

verus! {

/// A problem with the tokens of a file or with their order.
#[derive(Clone, Debug, PartialEq, Eq)]
pub enum SyntaxError {
    /// The token was found where the description says what may stand.
    UnexpectedToken(Token, String),
    UnexpectedEof,
    UnterminatedString,
    UnterminatedComment,
}

/// A problem with the meaning of a file whose syntax is sound.
#[derive(Clone, Debug, PartialEq, Eq)]
pub enum SemanticError {
    /// `duplicate` declares a name that an earlier declaration has taken.
    DuplicateIdentifier { duplicate: Token },
}

/// Any problem of a file.
#[derive(Clone, Debug, PartialEq, Eq)]
pub enum GenericError {
    Syntax(SyntaxError),
    Semantic(SemanticError),
}

impl SyntaxError {
    /// The error of a fault of the lexer.
    pub fn of_fault(fault: LexFault) -> (error: SyntaxError)
        ensures
            error == (match fault {
                LexFault::UnterminatedString => SyntaxError::UnterminatedString,
                LexFault::UnterminatedComment => SyntaxError::UnterminatedComment,
                LexFault::UnexpectedEof => SyntaxError::UnexpectedEof,
            }),
    {
        match fault {
            LexFault::UnterminatedString => SyntaxError::UnterminatedString,
            LexFault::UnterminatedComment => SyntaxError::UnterminatedComment,
            LexFault::UnexpectedEof => SyntaxError::UnexpectedEof,
        }
    }

    /// The error in one line, without a place.
    pub open spec fn spec_summary(self) -> Seq<char> {
        match self {
            SyntaxError::UnexpectedToken(token, expected) => "Unexpected token: expected "@
                + expected@ + " but found "@ + token.kind.spec_label(),
            SyntaxError::UnexpectedEof => "Unexpected EOF"@,
            SyntaxError::UnterminatedString => "Unterminated string"@,
            SyntaxError::UnterminatedComment => "Unterminated comment"@,
        }
    }

    /// The error in one line, without a place.
    pub fn to_string(&self) -> (s: String)
        ensures
            s@ == self.spec_summary(),
    {
        match self {
            SyntaxError::UnexpectedToken(token, expected) => {
                let mut s = join3("Unexpected token: expected ", expected.as_str(), " but found ");
                s.append(token.kind.label());
                s
            },
            SyntaxError::UnexpectedEof => "Unexpected EOF".to_owned(),
            SyntaxError::UnterminatedString => "Unterminated string".to_owned(),
            SyntaxError::UnterminatedComment => "Unterminated comment".to_owned(),
        }
    }
}

/// A token with its kind and its place, as it is shown in summaries.
pub open spec fn spec_token_summary(token: Token) -> Seq<char> {
    "Token { kind: "@ + token.kind.spec_label() + ", span: Span { start: "@ + decimal(
        token.span.start as nat,
    ) + ", end: "@ + decimal(token.span.end as nat) + ", file: SourceFile { id: "@ + decimal(
        token.span.file.id as nat,
    ) + " } } }"@
}

/// A token with its kind and its place.
pub fn token_summary(token: &Token) -> (s: String)
    ensures
        s@ == spec_token_summary(*token),
{
    let mut s = "Token { kind: ".to_owned();
    s.append(token.kind.label());
    s.append(", span: Span { start: ");
    s.append(to_decimal(token.span.start as u128).as_str());
    s.append(", end: ");
    s.append(to_decimal(token.span.end as u128).as_str());
    s.append(", file: SourceFile { id: ");
    s.append(to_decimal(token.span.file.id as u128).as_str());
    s.append(" } } }");
    s
}

impl SemanticError {
    /// The error in one line.
    pub open spec fn spec_summary(self) -> Seq<char> {
        match self {
            SemanticError::DuplicateIdentifier { duplicate } => "duplicate identifier: "@
                + spec_token_summary(duplicate) + " already defined"@,
        }
    }

    /// The error in one line.
    pub fn to_string(&self) -> (s: String)
        ensures
            s@ == self.spec_summary(),
    {
        match self {
            SemanticError::DuplicateIdentifier { duplicate } => join3(
                "duplicate identifier: ",
                token_summary(duplicate).as_str(),
                " already defined",
            ),
        }
    }
}

impl GenericError {
    /// The error in one line.
    pub open spec fn spec_summary(self) -> Seq<char> {
        match self {
            GenericError::Syntax(err) => err.spec_summary(),
            GenericError::Semantic(err) => err.spec_summary(),
        }
    }

    /// The error in one line.
    pub fn to_string(&self) -> (s: String)
        ensures
            s@ == self.spec_summary(),
    {
        match self {
            GenericError::Syntax(err) => err.to_string(),
            GenericError::Semantic(err) => err.to_string(),
        }
    }
}

/// The text that a token covers, where it covers whole characters of the
/// text.
pub open spec fn spec_token_text(text: Seq<u8>, token: Token) -> Option<Seq<char>> {
    if token.span.within(text.len() as int) && is_char_boundary(text, token.span.start as int)
        && is_char_boundary(text, token.span.end as int) {
        Some(decode_utf8(text.subrange(token.span.start as int, token.span.end as int)))
    } else {
        None
    }
}

/// A syntax error as the user sees it. An unexpected token is shown with
/// the number, counted from 0, of the line that holds its start, and with
/// its text; where the
/// text has no line for it, the error is shown in one line without a place.
pub open spec fn spec_format_syntax_err(text: Seq<u8>, err: SyntaxError) -> Seq<char> {
    match err {
        SyntaxError::UnexpectedToken(token, expected) => match (
            spec_line_number(text, token.span.start as int),
            spec_token_text(text, token),
        ) {
            (Some(line), Some(found)) => "Syntax error on line "@ + decimal(line as nat)
                + ": expected "@ + expected@ + " but found \""@ + found + "\""@,
            _ => err.spec_summary(),
        },
        _ => err.spec_summary(),
    }
}

/// A semantic error as the user sees it: a block of five lines at the
/// duplicate, or, where the text has no line for it, the message and the
/// path.
pub open spec fn spec_format_semantic_err(path: Seq<char>, text: Seq<u8>, err: SemanticError) -> Seq<
    char,
> {
    match err {
        SemanticError::DuplicateIdentifier { duplicate } => match (
            spec_place(text, duplicate.span.start as int),
            spec_token_text(text, duplicate),
        ) {
            (Some(at), Some(ident)) => spec_format_err(
                "Found duplicate identifier \""@ + ident + "\""@,
                path,
                at.line,
                decode_utf8(text.subrange(at.from, at.to)),
                at.col,
                duplicate.span.spec_len(),
                "there can only be one type with this name"@,
            ),
            _ => spec_format_plain("Found duplicate identifier"@, path),
        },
    }
}

/// An error as the user sees it, for a file at `path` that holds `text`.
pub open spec fn spec_format(path: Seq<char>, text: Seq<u8>, err: GenericError) -> Seq<char> {
    match err {
        GenericError::Syntax(err) => spec_format_syntax_err(text, err),
        GenericError::Semantic(err) => spec_format_semantic_err(path, text, err),
    }
}

/// Shows an error of the file at `path`, which holds `input`.
pub fn format(path: &str, input: &str, err: GenericError) -> (s: String)
    ensures
        s@ == spec_format(path@, input.spec_bytes(), err),
{
    match err {
        GenericError::Syntax(err) => format_syntax_err(input, err),
        GenericError::Semantic(err) => format_semantic_err(path, input, err),
    }
}

/// Shows a syntax error.
pub fn format_syntax_err(input: &str, err: SyntaxError) -> (s: String)
    ensures
        s@ == spec_format_syntax_err(input.spec_bytes(), err),
{
    match &err {
        SyntaxError::UnexpectedToken(token, expected) => {
            let line = get_token_line_number(input, token.span.start);
            let found = span(input, token);
            match (line, found) {
                (Some(line), Some(found)) => {
                    proof {
                        encode_utf8_decode_utf8(found@);
                    }
                    let mut s = "Syntax error on line ".to_owned();
                    s.append(to_decimal(line as u128).as_str());
                    s.append(": expected ");
                    s.append(expected.as_str());
                    s.append(" but found \"");
                    s.append(found);
                    s.append("\"");
                    s
                },
                _ => err.to_string(),
            }
        },
        _ => err.to_string(),
    }
}

/// Shows a semantic error.
pub fn format_semantic_err(path: &str, input: &str, err: SemanticError) -> (s: String)
    ensures
        s@ == spec_format_semantic_err(path@, input.spec_bytes(), err),
{
    match err {
        SemanticError::DuplicateIdentifier { duplicate } => {
            let start = duplicate.span.start;
            let (line_number, from, line, ident) = match (
                get_token_line(input, start),
                span(input, &duplicate),
            ) {
                (Some((line_number, from, line)), Some(ident)) => (line_number, from, line, ident),
                _ => {
                    return format_plain("Found duplicate identifier", path);
                },
            };
            let char_col: u128 = (start - from) as u128 + 1;
            proof {
                encode_utf8_decode_utf8(ident@);
                encode_utf8_decode_utf8(line@);
            }
            let message = join3("Found duplicate identifier \"", ident, "\"");
            format_block(
                message.as_str(),
                path,
                line_number,
                line,
                char_col,
                duplicate.span.len(),
                "there can only be one type with this name",
            )
        },
    }
}

} // verus!
