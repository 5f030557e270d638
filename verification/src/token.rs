//! Tokens: the minimal lexical units of the language.

use crate::span::{SourceFile, Span};
use vstd::prelude::*;

verus! {

/// What a token is.
#[derive(Clone, Copy, Debug, PartialEq, Eq, Structural, Hash)]
pub enum TokenKind {
    /// A `// ...` or `/* ... */` comment
    Comment,
    /// `package`
    Package,
    /// `import`
    Import,
    /// `constructor`
    Constructor,
    /// `annotation`
    Annotation,
    /// `struct`
    Struct,
    /// `map`
    MapKeyword,
    /// `unknown`
    Unknown,
    /// `union`
    Union,
    /// `repeatable`
    Repeatable,
    /// `tagged`
    Tagged,
    /// `uint32`
    Uint32,
    /// `uint64`
    Uint64,
    /// `int32`
    Int32,
    /// `int64`
    Int64,
    /// `float32`
    Float32,
    /// `float64`
    Float64,
    /// `string`
    String,
    /// `"the quick brown fox"`
    StringLiteral,
    /// `1231`
    IntLiteral,
    /// `143.92`
    FloatLiteral,
    /// A name such as `GetUserRequest`
    Ident,
    /// `(`
    OpenParen,
    /// `)`
    CloseParen,
    /// `{`
    OpenBrace,
    /// `}`
    CloseBrace,
    /// `<`
    OpenChevron,
    /// `>`
    CloseChevron,
    /// `:`
    Colon,
    /// `?`
    QuestionMark,
    /// `@`
    At,
    /// `;`
    Semi,
    /// `,`
    Comma,
    /// `.`
    Period,
    /// A character that begins no token
    Invalid,
    /// The end of the text
    Eof,
}

impl TokenKind {
    /// How the kind reads in a message to the user.
    pub open spec fn spec_name(self) -> Seq<char> {
        match self {
            TokenKind::Comment => "comment"@,
            TokenKind::Package => "package"@,
            TokenKind::Import => "import"@,
            TokenKind::Constructor => "constructor"@,
            TokenKind::Annotation => "annotation"@,
            TokenKind::Struct => "struct"@,
            TokenKind::MapKeyword => "map"@,
            TokenKind::Unknown => "unknown"@,
            TokenKind::Union => "union"@,
            TokenKind::Repeatable => "repeatable"@,
            TokenKind::Tagged => "tagged"@,
            TokenKind::Uint32 => "uint32"@,
            TokenKind::Uint64 => "uint64"@,
            TokenKind::Int32 => "int32"@,
            TokenKind::Int64 => "int64"@,
            TokenKind::Float32 => "float32"@,
            TokenKind::Float64 => "float64"@,
            TokenKind::String => "string"@,
            TokenKind::StringLiteral => "string literal"@,
            TokenKind::IntLiteral => "int literal"@,
            TokenKind::FloatLiteral => "float literal"@,
            TokenKind::Ident => "identifier"@,
            TokenKind::OpenParen => "("@,
            TokenKind::CloseParen => ")"@,
            TokenKind::OpenBrace => "{"@,
            TokenKind::CloseBrace => "}"@,
            TokenKind::OpenChevron => "<"@,
            TokenKind::CloseChevron => ">"@,
            TokenKind::Colon => ":"@,
            TokenKind::QuestionMark => "?"@,
            TokenKind::At => "@"@,
            TokenKind::Semi => ";"@,
            TokenKind::Comma => ","@,
            TokenKind::Period => "."@,
            TokenKind::Invalid => "invalid token"@,
            TokenKind::Eof => "eof"@,
        }
    }

    /// The kind's own name: `Ident` for an identifier, `Map` for `map`.
    pub open spec fn spec_label(self) -> Seq<char> {
        match self {
            TokenKind::Comment => "Comment"@,
            TokenKind::Package => "Package"@,
            TokenKind::Import => "Import"@,
            TokenKind::Constructor => "Constructor"@,
            TokenKind::Annotation => "Annotation"@,
            TokenKind::Struct => "Struct"@,
            TokenKind::MapKeyword => "Map"@,
            TokenKind::Unknown => "Unknown"@,
            TokenKind::Union => "Union"@,
            TokenKind::Repeatable => "Repeatable"@,
            TokenKind::Tagged => "Tagged"@,
            TokenKind::Uint32 => "Uint32"@,
            TokenKind::Uint64 => "Uint64"@,
            TokenKind::Int32 => "Int32"@,
            TokenKind::Int64 => "Int64"@,
            TokenKind::Float32 => "Float32"@,
            TokenKind::Float64 => "Float64"@,
            TokenKind::String => "String"@,
            TokenKind::StringLiteral => "StringLiteral"@,
            TokenKind::IntLiteral => "IntLiteral"@,
            TokenKind::FloatLiteral => "FloatLiteral"@,
            TokenKind::Ident => "Ident"@,
            TokenKind::OpenParen => "OpenParen"@,
            TokenKind::CloseParen => "CloseParen"@,
            TokenKind::OpenBrace => "OpenBrace"@,
            TokenKind::CloseBrace => "CloseBrace"@,
            TokenKind::OpenChevron => "OpenChevron"@,
            TokenKind::CloseChevron => "CloseChevron"@,
            TokenKind::Colon => "Colon"@,
            TokenKind::QuestionMark => "QuestionMark"@,
            TokenKind::At => "At"@,
            TokenKind::Semi => "Semi"@,
            TokenKind::Comma => "Comma"@,
            TokenKind::Period => "Period"@,
            TokenKind::Invalid => "Invalid"@,
            TokenKind::Eof => "Eof"@,
        }
    }

    /// The kind as a user reads it: the keyword or punctuation itself, or a
    /// short description for the kinds that have many spellings.
    pub fn name(&self) -> (s: &'static str)
        ensures
            s@ == self.spec_name(),
    {
        match self {
            TokenKind::Comment => "comment",
            TokenKind::Package => "package",
            TokenKind::Import => "import",
            TokenKind::Constructor => "constructor",
            TokenKind::Annotation => "annotation",
            TokenKind::Struct => "struct",
            TokenKind::MapKeyword => "map",
            TokenKind::Unknown => "unknown",
            TokenKind::Union => "union",
            TokenKind::Repeatable => "repeatable",
            TokenKind::Tagged => "tagged",
            TokenKind::Uint32 => "uint32",
            TokenKind::Uint64 => "uint64",
            TokenKind::Int32 => "int32",
            TokenKind::Int64 => "int64",
            TokenKind::Float32 => "float32",
            TokenKind::Float64 => "float64",
            TokenKind::String => "string",
            TokenKind::StringLiteral => "string literal",
            TokenKind::IntLiteral => "int literal",
            TokenKind::FloatLiteral => "float literal",
            TokenKind::Ident => "identifier",
            TokenKind::OpenParen => "(",
            TokenKind::CloseParen => ")",
            TokenKind::OpenBrace => "{",
            TokenKind::CloseBrace => "}",
            TokenKind::OpenChevron => "<",
            TokenKind::CloseChevron => ">",
            TokenKind::Colon => ":",
            TokenKind::QuestionMark => "?",
            TokenKind::At => "@",
            TokenKind::Semi => ";",
            TokenKind::Comma => ",",
            TokenKind::Period => ".",
            TokenKind::Invalid => "invalid token",
            TokenKind::Eof => "eof",
        }
    }

    /// The kind's own name, for messages that name the kind itself.
    pub fn label(&self) -> (s: &'static str)
        ensures
            s@ == self.spec_label(),
    {
        match self {
            TokenKind::Comment => "Comment",
            TokenKind::Package => "Package",
            TokenKind::Import => "Import",
            TokenKind::Constructor => "Constructor",
            TokenKind::Annotation => "Annotation",
            TokenKind::Struct => "Struct",
            TokenKind::MapKeyword => "Map",
            TokenKind::Unknown => "Unknown",
            TokenKind::Union => "Union",
            TokenKind::Repeatable => "Repeatable",
            TokenKind::Tagged => "Tagged",
            TokenKind::Uint32 => "Uint32",
            TokenKind::Uint64 => "Uint64",
            TokenKind::Int32 => "Int32",
            TokenKind::Int64 => "Int64",
            TokenKind::Float32 => "Float32",
            TokenKind::Float64 => "Float64",
            TokenKind::String => "String",
            TokenKind::StringLiteral => "StringLiteral",
            TokenKind::IntLiteral => "IntLiteral",
            TokenKind::FloatLiteral => "FloatLiteral",
            TokenKind::Ident => "Ident",
            TokenKind::OpenParen => "OpenParen",
            TokenKind::CloseParen => "CloseParen",
            TokenKind::OpenBrace => "OpenBrace",
            TokenKind::CloseBrace => "CloseBrace",
            TokenKind::OpenChevron => "OpenChevron",
            TokenKind::CloseChevron => "CloseChevron",
            TokenKind::Colon => "Colon",
            TokenKind::QuestionMark => "QuestionMark",
            TokenKind::At => "At",
            TokenKind::Semi => "Semi",
            TokenKind::Comma => "Comma",
            TokenKind::Period => "Period",
            TokenKind::Invalid => "Invalid",
            TokenKind::Eof => "Eof",
        }
    }

    /// `name` as an owned string.
    pub fn to_string(&self) -> (s: String)
        ensures
            s@ == self.spec_name(),
    {
        self.name().to_owned()
    }
}

/// A lexical unit: its kind and the bytes it was read from.
#[derive(Clone, Copy, Debug, PartialEq, Eq, Structural, Hash)]
pub struct Token {
    pub kind: TokenKind,
    pub span: Span,
}

impl Token {
    pub fn new(kind: TokenKind, span: Span) -> (token: Token)
        ensures
            token == (Token { kind, span }),
    {
        Token { kind, span }
    }

    /// The empty token that marks the end of a text, placed at byte `start`.
    pub fn eof(start: usize, file: SourceFile) -> (token: Token)
        ensures
            token == Token::spec_eof(start, file),
    {
        Token { kind: TokenKind::Eof, span: Span { start, end: start, file } }
    }

    pub open spec fn spec_eof(start: usize, file: SourceFile) -> Token {
        Token { kind: TokenKind::Eof, span: Span { start, end: start, file } }
    }
}

} // verus!
