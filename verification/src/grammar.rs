//! The grammar of the language, as functions from a text and a position to
//! what is written there.
//!
//! ```text
//! Item           := PackageStmt | ImportStmt | AnnotationRun | Comment
//! PackageStmt    := 'package' Ident ('.' Ident)* ';'
//! ImportStmt     := 'import' StringLiteral ';'
//! AnnotationRun  := ('@' Ident)* (ConstructorDecl | StructDecl | AnnotationDecl)
//! ConstructorDecl := 'constructor' Ident Block
//! StructDecl     := 'struct' Ident Block
//! Block          := '{' ( 'union' '{' FieldSet '}'
//!                       | 'repeatable' '{' FieldSet '}'
//!                       | MapType
//!                       | FieldSet ) '}'
//! FieldSet       := ( Ident ('?' ':' | ':') FieldType ';' )*
//! FieldType      := Ident | 'string' | NumericKeyword | 'unknown' | 'struct' | MapType
//! MapType        := 'map' '<' FieldType ',' FieldType '>'
//! AnnotationDecl := 'annotation' Ident '{' (Ident ('?' ':' | ':') AnnotationValue ',')* '}'
//! ```
//!
//! Each function reads one production. It gives the value read and the
//! position behind it, or the one diagnostic that ends the parse: the first
//! token that fits nowhere, with a description of what was expected, or the
//! lexer's fault.

use crate::ast::{
    AliasDecl, AnnotationFieldDecl, AnnotationFieldValue, AnnotationView, BlockView, DeclView,
    FieldDecl, FieldType, MapDecl, StmtView,
};
use crate::diagnostics::{report_unexpected_token, DiagnosticView};
use crate::lexer::{fault_report, lemma_lex_bounds, lex, token_at, Lexed};
use crate::span::SourceFile;
use crate::token::{Token, TokenKind};
use vstd::prelude::*;

verus! {

/// What the parser reads: the bytes of a text, and the file they belong to.
pub struct Source {
    pub text: Seq<u8>,
    pub file: SourceFile,
}

/// The result of reading one production.
pub enum Parsed<T> {
    /// `value` was read, and the reading goes on at `pos`.
    Read { value: T, pos: int },
    /// The parse ends with this diagnostic; the reading has come to `at`.
    Stop { report: DiagnosticView, at: int },
}

impl<T> Parsed<T> {
    /// A value that was read from `from` on ends at or behind `from` and
    /// inside a text of `len` bytes.
    pub open spec fn forward(self, from: int, len: int) -> bool {
        match self {
            Parsed::Read { value, pos } => from <= pos <= len,
            Parsed::Stop { report, at } => true,
        }
    }

    /// As `forward`, and at least one byte was read.
    pub open spec fn advanced(self, from: int, len: int) -> bool {
        match self {
            Parsed::Read { value, pos } => from < pos <= len,
            Parsed::Stop { report, at } => true,
        }
    }
}

/// The token at `pos`. The end of the text reads as a token of kind `Eof`
/// that covers nothing.
pub open spec fn next_token(src: Source, pos: int) -> Parsed<Token> {
    match lex(src.text, pos) {
        Lexed::Token { kind, start, end } => Parsed::Read {
            value: token_at(kind, start, end, src.file),
            pos: end,
        },
        Lexed::End => Parsed::Read {
            value: Token::spec_eof(src.text.len() as usize, src.file),
            pos: src.text.len() as int,
        },
        Lexed::Fault { fault, kind, start, end } => Parsed::Stop {
            report: fault_report(fault, token_at(kind, start, end, src.file)),
            at: src.text.len() as int,
        },
    }
}

/// The token at `pos`, which must be of `kind`.
pub open spec fn expect(src: Source, pos: int, kind: TokenKind) -> Parsed<Token> {
    match next_token(src, pos) {
        Parsed::Read { value, pos: p } => if value.kind == kind {
            Parsed::Read { value, pos: p }
        } else {
            Parsed::Stop { report: report_unexpected_token(value, kind.spec_name()), at: p }
        },
        Parsed::Stop { report, at } => Parsed::Stop { report, at },
    }
}

/// The field type that a single token stands for.
pub open spec fn spec_leaf_type(token: Token) -> Option<FieldType> {
    match token.kind {
        TokenKind::Ident => Some(FieldType::Ident(token)),
        TokenKind::String => Some(FieldType::String(token)),
        TokenKind::Uint32 => Some(FieldType::Uint32(token)),
        TokenKind::Uint64 => Some(FieldType::Uint64(token)),
        TokenKind::Int32 => Some(FieldType::Int32(token)),
        TokenKind::Int64 => Some(FieldType::Int64(token)),
        TokenKind::Float32 => Some(FieldType::Float32(token)),
        TokenKind::Float64 => Some(FieldType::Float64(token)),
        TokenKind::Unknown => Some(FieldType::Unknown(token)),
        TokenKind::Struct => Some(FieldType::Struct(token)),
        _ => None,
    }
}

/// The annotation value that a token stands for.
pub open spec fn spec_annotation_value(token: Token) -> Option<AnnotationFieldValue> {
    match token.kind {
        TokenKind::String => Some(AnnotationFieldValue::String(token)),
        TokenKind::Uint32 => Some(AnnotationFieldValue::Uint32(token)),
        TokenKind::Uint64 => Some(AnnotationFieldValue::Uint64(token)),
        TokenKind::Int32 => Some(AnnotationFieldValue::Int32(token)),
        TokenKind::Int64 => Some(AnnotationFieldValue::Int64(token)),
        TokenKind::Float32 => Some(AnnotationFieldValue::Float32(token)),
        TokenKind::Float64 => Some(AnnotationFieldValue::Float64(token)),
        _ => None,
    }
}

/// A token lies inside the text and ends where the reading goes on; only
/// the end of the text reads as `Eof`, and every other token has bytes.
pub proof fn lemma_next_token(src: Source, pos: int)
    requires
        0 <= pos <= src.text.len() <= usize::MAX,
    ensures
        (match next_token(src, pos) {
            Parsed::Read { value, pos: p } => {
                &&& pos <= p <= src.text.len()
                &&& value.span.file == src.file
                &&& pos <= value.span.start <= value.span.end == p
                &&& value.kind != TokenKind::Eof ==> pos < p && value.span.start < value.span.end
                &&& value.kind == TokenKind::Eof ==> p == src.text.len() && value.span.start == p
            },
            Parsed::Stop { report, at } => true,
        }),
{
    lemma_lex_bounds(src.text, pos);
}

/// `FieldType`.
///
/// The second field type of a map is read only behind the position where
/// the map began; `lemma_field_type` shows that it always stands there.
pub open spec fn parse_field_type(src: Source, pos: int) -> Parsed<FieldType>
    decreases src.text.len() - pos, 1int,
    when 0 <= pos <= src.text.len() <= usize::MAX
{
    match next_token(src, pos) {
        Parsed::Read { value: token, pos: p } => match spec_leaf_type(token) {
            Some(leaf) => Parsed::Read { value: leaf, pos: p },
            None => if token.kind == TokenKind::MapKeyword {
                proof {
                    lemma_next_token(src, pos);
                }
                match parse_map(src, p) {
                    Parsed::Read { value: map, pos: q } => Parsed::Read {
                        value: FieldType::MapType(Box::new(map)),
                        pos: q,
                    },
                    Parsed::Stop { report, at } => Parsed::Stop { report, at },
                }
            } else {
                Parsed::Stop {
                    report: report_unexpected_token(token, "a field value type"@),
                    at: p,
                }
            },
        },
        Parsed::Stop { report, at } => Parsed::Stop { report, at },
    }
}

/// `MapType`, behind its `map`.
pub open spec fn parse_map(src: Source, pos: int) -> Parsed<MapDecl>
    decreases src.text.len() - pos, 0int,
    when 0 <= pos <= src.text.len() <= usize::MAX
{
    match expect(src, pos, TokenKind::OpenChevron) {
        Parsed::Read { value: open, pos: at_key } => {
            proof {
                lemma_next_token(src, pos);
            }
            match parse_field_type(src, at_key) {
                Parsed::Read { value: key, pos: at_comma } => match expect(src, at_comma, TokenKind::Comma) {
                    Parsed::Read { value: comma, pos: at_value } => if pos < at_value <= src.text.len() {
                        match parse_field_type(src, at_value) {
                            Parsed::Read { value, pos: at_close } => match expect(
                                src,
                                at_close,
                                TokenKind::CloseChevron,
                            ) {
                                Parsed::Read { value: close, pos: behind } => Parsed::Read {
                                    value: MapDecl { key, value },
                                    pos: behind,
                                },
                                Parsed::Stop { report, at } => Parsed::Stop { report, at },
                            },
                            Parsed::Stop { report, at } => Parsed::Stop { report, at },
                        }
                    } else {
                        Parsed::Stop { report: report_unexpected_token(comma, ","@), at: at_value }
                    },
                    Parsed::Stop { report, at } => Parsed::Stop { report, at },
                },
                Parsed::Stop { report, at } => Parsed::Stop { report, at },
            }
        },
        Parsed::Stop { report, at } => Parsed::Stop { report, at },
    }
}

/// A field type, and a map behind its `map`, end behind the position that
/// they were read from.
pub proof fn lemma_field_type(src: Source, pos: int)
    requires
        0 <= pos <= src.text.len() <= usize::MAX,
    ensures
        parse_field_type(src, pos).advanced(pos, src.text.len() as int),
    decreases src.text.len() - pos, 1int,
{
    lemma_next_token(src, pos);
    match next_token(src, pos) {
        Parsed::Read { value: token, pos: p } => {
            if spec_leaf_type(token) is None && token.kind == TokenKind::MapKeyword {
                lemma_map(src, p);
            }
        },
        Parsed::Stop { report, at } => {},
    }
}

pub proof fn lemma_map(src: Source, pos: int)
    requires
        0 <= pos <= src.text.len() <= usize::MAX,
    ensures
        parse_map(src, pos).advanced(pos, src.text.len() as int),
    decreases src.text.len() - pos, 0int,
{
    lemma_next_token(src, pos);
    match expect(src, pos, TokenKind::OpenChevron) {
        Parsed::Read { value: open, pos: at_key } => {
            lemma_field_type(src, at_key);
            match parse_field_type(src, at_key) {
                Parsed::Read { value: key, pos: at_comma } => {
                    lemma_next_token(src, at_comma);
                    match expect(src, at_comma, TokenKind::Comma) {
                        Parsed::Read { value: comma, pos: at_value } => {
                            lemma_field_type(src, at_value);
                            match parse_field_type(src, at_value) {
                                Parsed::Read { value, pos: at_close } => {
                                    lemma_next_token(src, at_close);
                                },
                                Parsed::Stop { report, at } => {},
                            }
                        },
                        Parsed::Stop { report, at } => {},
                    }
                },
                Parsed::Stop { report, at } => {},
            }
        },
        Parsed::Stop { report, at } => {},
    }
}

/// `'?' ':' | ':'`: whether the field in front of it is optional.
#[verifier::opaque]
pub open spec fn parse_optional_mark(src: Source, pos: int, expected: Seq<char>) -> Parsed<bool> {
    match next_token(src, pos) {
        Parsed::Read { value: mark, pos: p } => if mark.kind == TokenKind::QuestionMark {
            match expect(src, p, TokenKind::Colon) {
                Parsed::Read { value: colon, pos: q } => Parsed::Read { value: true, pos: q },
                Parsed::Stop { report, at } => Parsed::Stop { report, at },
            }
        } else if mark.kind == TokenKind::Colon {
            Parsed::Read { value: false, pos: p }
        } else {
            Parsed::Stop { report: report_unexpected_token(mark, expected), at: p }
        },
        Parsed::Stop { report, at } => Parsed::Stop { report, at },
    }
}

/// `('?' ':' | ':') FieldType ';'`: the field named `name`, behind its name.
/// `expected` describes what may follow the name.
#[verifier::opaque]
pub open spec fn parse_field(src: Source, pos: int, name: Token, expected: Seq<char>) -> Parsed<
    FieldDecl,
> {
    match parse_optional_mark(src, pos, expected) {
        Parsed::Read { value: optional, pos: p } => match parse_field_type(src, p) {
            Parsed::Read { value: typ, pos: q } => match expect(src, q, TokenKind::Semi) {
                Parsed::Read { value: semi, pos: r } => Parsed::Read {
                    value: FieldDecl { name, typ, optional },
                    pos: r,
                },
                Parsed::Stop { report, at } => Parsed::Stop { report, at },
            },
            Parsed::Stop { report, at } => Parsed::Stop { report, at },
        },
        Parsed::Stop { report, at } => Parsed::Stop { report, at },
    }
}

pub proof fn lemma_optional_mark(src: Source, pos: int, expected: Seq<char>)
    requires
        0 <= pos <= src.text.len() <= usize::MAX,
    ensures
        parse_optional_mark(src, pos, expected).advanced(pos, src.text.len() as int),
{
    reveal(parse_optional_mark);
    lemma_next_token(src, pos);
    match next_token(src, pos) {
        Parsed::Read { value: mark, pos: p } => {
            lemma_next_token(src, p);
        },
        Parsed::Stop { report, at } => {},
    }
}

pub proof fn lemma_field(src: Source, pos: int, name: Token, expected: Seq<char>)
    requires
        0 <= pos <= src.text.len() <= usize::MAX,
    ensures
        parse_field(src, pos, name, expected).advanced(pos, src.text.len() as int),
{
    reveal(parse_field);
    lemma_optional_mark(src, pos, expected);
    match parse_optional_mark(src, pos, expected) {
        Parsed::Read { value: optional, pos: p } => {
            lemma_field_type(src, p);
            match parse_field_type(src, p) {
                Parsed::Read { value: typ, pos: q } => {
                    lemma_next_token(src, q);
                },
                Parsed::Stop { report, at } => {},
            }
        },
        Parsed::Stop { report, at } => {},
    }
}

/// `( Ident ('?' ':' | ':') FieldType ';' )* '}'`: the fields that follow
/// `fields`, through the closing brace.
pub open spec fn parse_fields(src: Source, pos: int, fields: Seq<FieldDecl>) -> Parsed<
    Seq<FieldDecl>,
>
    decreases src.text.len() - pos,
    when 0 <= pos <= src.text.len() <= usize::MAX
{
    match next_token(src, pos) {
        Parsed::Read { value: token, pos: p } => if token.kind == TokenKind::CloseBrace {
            Parsed::Read { value: fields, pos: p }
        } else if token.kind == TokenKind::Ident {
            proof {
                lemma_next_token(src, pos);
                lemma_field(src, p, token, "question mark or colon"@);
            }
            match parse_field(src, p, token, "question mark or colon"@) {
                Parsed::Read { value: field, pos: q } => parse_fields(src, q, fields.push(field)),
                Parsed::Stop { report, at } => Parsed::Stop { report, at },
            }
        } else {
            Parsed::Stop {
                report: report_unexpected_token(token, "a closing brace or identifier"@),
                at: p,
            }
        },
        Parsed::Stop { report, at } => Parsed::Stop { report, at },
    }
}

/// `FieldSet '}'`. Where the name of the first field has been read
/// already, it is handed over as `leading`.
#[verifier::opaque]
pub open spec fn parse_field_set(src: Source, pos: int, leading: Option<Token>) -> Parsed<
    Seq<FieldDecl>,
> {
    match leading {
        Some(name) => match parse_field(src, pos, name, "a question mark or colon"@) {
            Parsed::Read { value: field, pos: p } => parse_fields(src, p, seq![field]),
            Parsed::Stop { report, at } => Parsed::Stop { report, at },
        },
        None => parse_fields(src, pos, Seq::empty()),
    }
}

pub proof fn lemma_fields(src: Source, pos: int, fields: Seq<FieldDecl>)
    requires
        0 <= pos <= src.text.len() <= usize::MAX,
    ensures
        parse_fields(src, pos, fields).advanced(pos, src.text.len() as int),
    decreases src.text.len() - pos,
{
    lemma_next_token(src, pos);
    match next_token(src, pos) {
        Parsed::Read { value: token, pos: p } => {
            if token.kind == TokenKind::Ident {
                lemma_field(src, p, token, "question mark or colon"@);
                match parse_field(src, p, token, "question mark or colon"@) {
                    Parsed::Read { value: field, pos: q } => {
                        lemma_fields(src, q, fields.push(field));
                    },
                    Parsed::Stop { report, at } => {},
                }
            }
        },
        Parsed::Stop { report, at } => {},
    }
}

pub proof fn lemma_field_set(src: Source, pos: int, leading: Option<Token>)
    requires
        0 <= pos <= src.text.len() <= usize::MAX,
    ensures
        parse_field_set(src, pos, leading).advanced(pos, src.text.len() as int),
{
    reveal(parse_field_set);
    match leading {
        Some(name) => {
            lemma_field(src, pos, name, "a question mark or colon"@);
            match parse_field(src, pos, name, "a question mark or colon"@) {
                Parsed::Read { value: field, pos: p } => {
                    lemma_fields(src, p, seq![field]);
                },
                Parsed::Stop { report, at } => {},
            }
        },
        None => {
            lemma_fields(src, pos, Seq::empty());
        },
    }
}

/// `'{' FieldSet '}' '}'`: the inner block of a `union` or a `repeatable`,
/// and the brace that closes the outer one.
#[verifier::opaque]
pub open spec fn parse_nested_fields(src: Source, pos: int) -> Parsed<Seq<FieldDecl>> {
    match expect(src, pos, TokenKind::OpenBrace) {
        Parsed::Read { value: open, pos: p } => match parse_field_set(src, p, None) {
            Parsed::Read { value: fields, pos: q } => match expect(src, q, TokenKind::CloseBrace) {
                Parsed::Read { value: close, pos: r } => Parsed::Read { value: fields, pos: r },
                Parsed::Stop { report, at } => Parsed::Stop { report, at },
            },
            Parsed::Stop { report, at } => Parsed::Stop { report, at },
        },
        Parsed::Stop { report, at } => Parsed::Stop { report, at },
    }
}

/// A plain field set, where fields were read.
pub open spec fn as_field_set(fields: Parsed<Seq<FieldDecl>>) -> Parsed<BlockView> {
    match fields {
        Parsed::Read { value, pos } => Parsed::Read { value: BlockView::FieldSet(value), pos },
        Parsed::Stop { report, at } => Parsed::Stop { report, at },
    }
}

/// A repeatable block, where fields were read.
pub open spec fn as_repeatable(fields: Parsed<Seq<FieldDecl>>) -> Parsed<BlockView> {
    match fields {
        Parsed::Read { value, pos } => Parsed::Read { value: BlockView::Repeatable(value), pos },
        Parsed::Stop { report, at } => Parsed::Stop { report, at },
    }
}

/// `Block`. The fields of a `union` are kept as a plain field set.
#[verifier::opaque]
pub open spec fn parse_block(src: Source, pos: int) -> Parsed<BlockView> {
    match expect(src, pos, TokenKind::OpenBrace) {
        Parsed::Read { value: open, pos: p } => match next_token(src, p) {
            Parsed::Read { value: first, pos: q } => match first.kind {
                TokenKind::Union => as_field_set(parse_nested_fields(src, q)),
                TokenKind::Repeatable => as_repeatable(parse_nested_fields(src, q)),
                TokenKind::MapKeyword => match parse_map(src, q) {
                    Parsed::Read { value: map, pos: r } => match expect(
                        src,
                        r,
                        TokenKind::CloseBrace,
                    ) {
                        Parsed::Read { value: close, pos: s } => Parsed::Read {
                            value: BlockView::Alias(AliasDecl::MapDecl(map)),
                            pos: s,
                        },
                        Parsed::Stop { report, at } => Parsed::Stop { report, at },
                    },
                    Parsed::Stop { report, at } => Parsed::Stop { report, at },
                },
                TokenKind::Ident => as_field_set(parse_field_set(src, q, Some(first))),
                TokenKind::CloseBrace => Parsed::Read {
                    value: BlockView::FieldSet(Seq::empty()),
                    pos: q,
                },
                _ => Parsed::Stop {
                    report: report_unexpected_token(first, "union, repeatable or an identifier"@),
                    at: q,
                },
            },
            Parsed::Stop { report, at } => Parsed::Stop { report, at },
        },
        Parsed::Stop { report, at } => Parsed::Stop { report, at },
    }
}

pub proof fn lemma_nested_fields(src: Source, pos: int)
    requires
        0 <= pos <= src.text.len() <= usize::MAX,
    ensures
        parse_nested_fields(src, pos).advanced(pos, src.text.len() as int),
{
    reveal(parse_nested_fields);
    lemma_next_token(src, pos);
    match expect(src, pos, TokenKind::OpenBrace) {
        Parsed::Read { value: open, pos: p } => {
            lemma_field_set(src, p, None);
            match parse_field_set(src, p, None) {
                Parsed::Read { value: fields, pos: q } => {
                    lemma_next_token(src, q);
                },
                Parsed::Stop { report, at } => {},
            }
        },
        Parsed::Stop { report, at } => {},
    }
}

pub proof fn lemma_block(src: Source, pos: int)
    requires
        0 <= pos <= src.text.len() <= usize::MAX,
    ensures
        parse_block(src, pos).advanced(pos, src.text.len() as int),
{
    reveal(parse_block);
    lemma_next_token(src, pos);
    match expect(src, pos, TokenKind::OpenBrace) {
        Parsed::Read { value: open, pos: p } => {
            lemma_next_token(src, p);
            match next_token(src, p) {
                Parsed::Read { value: first, pos: q } => {
                    lemma_nested_fields(src, q);
                    lemma_map(src, q);
                    lemma_field_set(src, q, Some(first));
                    match parse_map(src, q) {
                        Parsed::Read { value: map, pos: r } => {
                            lemma_next_token(src, r);
                        },
                        Parsed::Stop { report, at } => {},
                    }
                },
                Parsed::Stop { report, at } => {},
            }
        },
        Parsed::Stop { report, at } => {},
    }
}

/// `(Ident ('?' ':' | ':') AnnotationValue ',')* '}'`: the annotation
/// fields that follow `fields`, through the closing brace.
pub open spec fn parse_annotation_fields(
    src: Source,
    pos: int,
    fields: Seq<AnnotationFieldDecl>,
) -> Parsed<Seq<AnnotationFieldDecl>>
    decreases src.text.len() - pos,
    when 0 <= pos <= src.text.len() <= usize::MAX
{
    match next_token(src, pos) {
        Parsed::Read { value: token, pos: p } => if token.kind == TokenKind::CloseBrace {
            Parsed::Read { value: fields, pos: p }
        } else if token.kind == TokenKind::Ident {
            proof {
                lemma_next_token(src, pos);
                lemma_annotation_field(src, p, token);
            }
            match parse_annotation_field(src, p, token) {
                Parsed::Read { value: field, pos: q } => parse_annotation_fields(
                    src,
                    q,
                    fields.push(field),
                ),
                Parsed::Stop { report, at } => Parsed::Stop { report, at },
            }
        } else {
            Parsed::Stop {
                report: report_unexpected_token(token, "closing brace or identifier"@),
                at: p,
            }
        },
        Parsed::Stop { report, at } => Parsed::Stop { report, at },
    }
}

/// `AnnotationValue`.
#[verifier::opaque]
pub open spec fn parse_annotation_value(src: Source, pos: int) -> Parsed<AnnotationFieldValue> {
    match next_token(src, pos) {
        Parsed::Read { value: token, pos: p } => match spec_annotation_value(token) {
            Some(value) => Parsed::Read { value, pos: p },
            None => Parsed::Stop {
                report: report_unexpected_token(token, "a string or number type"@),
                at: p,
            },
        },
        Parsed::Stop { report, at } => Parsed::Stop { report, at },
    }
}

/// `('?' ':' | ':') AnnotationValue ','`: the annotation field named
/// `name`, behind its name.
#[verifier::opaque]
pub open spec fn parse_annotation_field(src: Source, pos: int, name: Token) -> Parsed<
    AnnotationFieldDecl,
> {
    match parse_optional_mark(src, pos, "a question mark or colon"@) {
        Parsed::Read { value: optional, pos: p } => match parse_annotation_value(src, p) {
            Parsed::Read { value, pos: q } => match expect(src, q, TokenKind::Comma) {
                Parsed::Read { value: comma, pos: r } => Parsed::Read {
                    value: AnnotationFieldDecl { name, value, optional },
                    pos: r,
                },
                Parsed::Stop { report, at } => Parsed::Stop { report, at },
            },
            Parsed::Stop { report, at } => Parsed::Stop { report, at },
        },
        Parsed::Stop { report, at } => Parsed::Stop { report, at },
    }
}

pub proof fn lemma_annotation_value(src: Source, pos: int)
    requires
        0 <= pos <= src.text.len() <= usize::MAX,
    ensures
        parse_annotation_value(src, pos).advanced(pos, src.text.len() as int),
{
    reveal(parse_annotation_value);
    lemma_next_token(src, pos);
}

pub proof fn lemma_annotation_field(src: Source, pos: int, name: Token)
    requires
        0 <= pos <= src.text.len() <= usize::MAX,
    ensures
        parse_annotation_field(src, pos, name).advanced(pos, src.text.len() as int),
{
    reveal(parse_annotation_field);
    reveal(parse_annotation_value);
    lemma_optional_mark(src, pos, "a question mark or colon"@);
    match parse_optional_mark(src, pos, "a question mark or colon"@) {
        Parsed::Read { value: optional, pos: p } => {
            lemma_next_token(src, p);
            match next_token(src, p) {
                Parsed::Read { value: token, pos: q } => {
                    lemma_next_token(src, q);
                },
                Parsed::Stop { report, at } => {},
            }
        },
        Parsed::Stop { report, at } => {},
    }
}

pub proof fn lemma_annotation_fields(src: Source, pos: int, fields: Seq<AnnotationFieldDecl>)
    requires
        0 <= pos <= src.text.len() <= usize::MAX,
    ensures
        parse_annotation_fields(src, pos, fields).advanced(pos, src.text.len() as int),
    decreases src.text.len() - pos,
{
    lemma_next_token(src, pos);
    match next_token(src, pos) {
        Parsed::Read { value: token, pos: p } => {
            if token.kind == TokenKind::Ident {
                lemma_annotation_field(src, p, token);
                match parse_annotation_field(src, p, token) {
                    Parsed::Read { value: field, pos: q } => {
                        lemma_annotation_fields(src, q, fields.push(field));
                    },
                    Parsed::Stop { report, at } => {},
                }
            }
        },
        Parsed::Stop { report, at } => {},
    }
}

/// `Ident Block`, behind `constructor` or `struct`.
#[verifier::opaque]
pub open spec fn parse_named_block(src: Source, pos: int, annotations: Seq<Token>) -> Parsed<
    DeclView,
> {
    match expect(src, pos, TokenKind::Ident) {
        Parsed::Read { value: name, pos: p } => match parse_block(src, p) {
            Parsed::Read { value: content, pos: q } => Parsed::Read {
                value: DeclView { annotations, name, content },
                pos: q,
            },
            Parsed::Stop { report, at } => Parsed::Stop { report, at },
        },
        Parsed::Stop { report, at } => Parsed::Stop { report, at },
    }
}

/// `'{' (Ident ('?' ':' | ':') AnnotationValue ',')* '}'`: the fields of an
/// annotation, with their braces.
#[verifier::opaque]
pub open spec fn parse_annotation_block(src: Source, pos: int) -> Parsed<Seq<AnnotationFieldDecl>> {
    match expect(src, pos, TokenKind::OpenBrace) {
        Parsed::Read { value: open, pos: p } => parse_annotation_fields(src, p, Seq::empty()),
        Parsed::Stop { report, at } => Parsed::Stop { report, at },
    }
}

/// `Ident '{' ... '}'`, behind `annotation`.
#[verifier::opaque]
pub open spec fn parse_annotation_decl(src: Source, pos: int, annotations: Seq<Token>) -> Parsed<
    AnnotationView,
> {
    match expect(src, pos, TokenKind::Ident) {
        Parsed::Read { value: name, pos: p } => match parse_annotation_block(src, p) {
            Parsed::Read { value: fields, pos: q } => Parsed::Read {
                value: AnnotationView { annotations, name, fields },
                pos: q,
            },
            Parsed::Stop { report, at } => Parsed::Stop { report, at },
        },
        Parsed::Stop { report, at } => Parsed::Stop { report, at },
    }
}

/// The declaration that `keyword` begins, behind that keyword.
#[verifier::opaque]
pub open spec fn parse_decl(src: Source, pos: int, keyword: TokenKind, annotations: Seq<Token>) -> Parsed<
    StmtView,
>
    recommends
        keyword == TokenKind::Constructor || keyword == TokenKind::Struct || keyword
            == TokenKind::Annotation,
{
    if keyword == TokenKind::Constructor {
        match parse_named_block(src, pos, annotations) {
            Parsed::Read { value, pos: p } => Parsed::Read {
                value: StmtView::Constructor(value),
                pos: p,
            },
            Parsed::Stop { report, at } => Parsed::Stop { report, at },
        }
    } else if keyword == TokenKind::Struct {
        match parse_named_block(src, pos, annotations) {
            Parsed::Read { value, pos: p } => Parsed::Read { value: StmtView::Struct(value), pos: p },
            Parsed::Stop { report, at } => Parsed::Stop { report, at },
        }
    } else {
        match parse_annotation_decl(src, pos, annotations) {
            Parsed::Read { value, pos: p } => Parsed::Read {
                value: StmtView::Annotation(value),
                pos: p,
            },
            Parsed::Stop { report, at } => Parsed::Stop { report, at },
        }
    }
}

pub proof fn lemma_decl(src: Source, pos: int, keyword: TokenKind, annotations: Seq<Token>)
    requires
        0 <= pos <= src.text.len() <= usize::MAX,
    ensures
        parse_decl(src, pos, keyword, annotations).advanced(pos, src.text.len() as int),
        (parse_decl(src, pos, keyword, annotations) matches Parsed::Read { value, pos: p } ==> value
            != StmtView::Eof),
{
    reveal(parse_decl);
    reveal(parse_named_block);
    reveal(parse_annotation_decl);
    reveal(parse_annotation_block);
    lemma_next_token(src, pos);
    match expect(src, pos, TokenKind::Ident) {
        Parsed::Read { value: name, pos: p } => {
            lemma_block(src, p);
            lemma_next_token(src, p);
            match expect(src, p, TokenKind::OpenBrace) {
                Parsed::Read { value: open, pos: q } => {
                    lemma_annotation_fields(src, q, Seq::empty());
                },
                Parsed::Stop { report, at } => {},
            }
        },
        Parsed::Stop { report, at } => {},
    }
}

/// `Ident ('@' Ident)* Declaration`: the annotations that follow
/// `annotations`, behind an `@`, and the declaration that they stand at.
pub open spec fn parse_annotations(src: Source, pos: int, annotations: Seq<Token>) -> Parsed<
    StmtView,
>
    decreases src.text.len() - pos,
    when 0 <= pos <= src.text.len() <= usize::MAX
{
    match expect(src, pos, TokenKind::Ident) {
        Parsed::Read { value: name, pos: p } => match next_token(src, p) {
            Parsed::Read { value: token, pos: q } => if token.kind == TokenKind::At {
                proof {
                    lemma_next_token(src, pos);
                    lemma_next_token(src, p);
                }
                parse_annotations(src, q, annotations.push(name))
            } else if token.kind == TokenKind::Constructor || token.kind == TokenKind::Struct
                || token.kind == TokenKind::Annotation {
                parse_decl(src, q, token.kind, annotations.push(name))
            } else {
                Parsed::Stop {
                    report: report_unexpected_token(token, "an annotation, constructor or struct"@),
                    at: q,
                }
            },
            Parsed::Stop { report, at } => Parsed::Stop { report, at },
        },
        Parsed::Stop { report, at } => Parsed::Stop { report, at },
    }
}

pub proof fn lemma_annotations(src: Source, pos: int, annotations: Seq<Token>)
    requires
        0 <= pos <= src.text.len() <= usize::MAX,
    ensures
        parse_annotations(src, pos, annotations).advanced(pos, src.text.len() as int),
        (parse_annotations(src, pos, annotations) matches Parsed::Read { value, pos: p } ==> value
            != StmtView::Eof),
    decreases src.text.len() - pos,
{
    lemma_next_token(src, pos);
    match expect(src, pos, TokenKind::Ident) {
        Parsed::Read { value: name, pos: p } => {
            lemma_next_token(src, p);
            match next_token(src, p) {
                Parsed::Read { value: token, pos: q } => {
                    if token.kind == TokenKind::At {
                        lemma_annotations(src, q, annotations.push(name));
                    } else {
                        lemma_decl(src, q, token.kind, annotations.push(name));
                    }
                },
                Parsed::Stop { report, at } => {},
            }
        },
        Parsed::Stop { report, at } => {},
    }
}

/// `Ident ('.' Ident)* ';'`: the segments that follow `segments`, behind
/// `package` or a `.`.
pub open spec fn parse_package(src: Source, pos: int, segments: Seq<Token>) -> Parsed<StmtView>
    decreases src.text.len() - pos,
    when 0 <= pos <= src.text.len() <= usize::MAX
{
    match expect(src, pos, TokenKind::Ident) {
        Parsed::Read { value: segment, pos: p } => match next_token(src, p) {
            Parsed::Read { value: token, pos: q } => if token.kind == TokenKind::Period {
                proof {
                    lemma_next_token(src, pos);
                    lemma_next_token(src, p);
                }
                parse_package(src, q, segments.push(segment))
            } else if token.kind == TokenKind::Semi {
                Parsed::Read { value: StmtView::Package(segments.push(segment)), pos: q }
            } else {
                Parsed::Stop {
                    report: report_unexpected_token(token, "period or semicolon"@),
                    at: q,
                }
            },
            Parsed::Stop { report, at } => Parsed::Stop { report, at },
        },
        Parsed::Stop { report, at } => Parsed::Stop { report, at },
    }
}

pub proof fn lemma_package(src: Source, pos: int, segments: Seq<Token>)
    requires
        0 <= pos <= src.text.len() <= usize::MAX,
    ensures
        parse_package(src, pos, segments).advanced(pos, src.text.len() as int),
        (parse_package(src, pos, segments) matches Parsed::Read { value, pos: p } ==> value
            != StmtView::Eof),
    decreases src.text.len() - pos,
{
    lemma_next_token(src, pos);
    match expect(src, pos, TokenKind::Ident) {
        Parsed::Read { value: segment, pos: p } => {
            lemma_next_token(src, p);
            match next_token(src, p) {
                Parsed::Read { value: token, pos: q } => {
                    if token.kind == TokenKind::Period {
                        lemma_package(src, q, segments.push(segment));
                    }
                },
                Parsed::Stop { report, at } => {},
            }
        },
        Parsed::Stop { report, at } => {},
    }
}

/// `StringLiteral ';'`, behind `import`.
#[verifier::opaque]
pub open spec fn parse_import(src: Source, pos: int) -> Parsed<StmtView> {
    match expect(src, pos, TokenKind::StringLiteral) {
        Parsed::Read { value: path, pos: p } => match expect(src, p, TokenKind::Semi) {
            Parsed::Read { value: semi, pos: q } => Parsed::Read {
                value: StmtView::Import(path),
                pos: q,
            },
            Parsed::Stop { report, at } => Parsed::Stop { report, at },
        },
        Parsed::Stop { report, at } => Parsed::Stop { report, at },
    }
}

/// `Item`, or `Eof` at the end of the text.
#[verifier::opaque]
pub open spec fn parse_stmt(src: Source, pos: int) -> Parsed<StmtView> {
    match next_token(src, pos) {
        Parsed::Read { value: token, pos: p } => match token.kind {
            TokenKind::Package => parse_package(src, p, Seq::empty()),
            TokenKind::Import => parse_import(src, p),
            TokenKind::At => parse_annotations(src, p, Seq::empty()),
            TokenKind::Struct => parse_decl(src, p, TokenKind::Struct, Seq::empty()),
            TokenKind::Constructor => parse_decl(src, p, TokenKind::Constructor, Seq::empty()),
            TokenKind::Annotation => parse_decl(src, p, TokenKind::Annotation, Seq::empty()),
            TokenKind::Comment => Parsed::Read { value: StmtView::Comment(token), pos: p },
            TokenKind::Eof => Parsed::Read { value: StmtView::Eof, pos: p },
            _ => Parsed::Stop {
                report: report_unexpected_token(token, "a package, import or declaration"@),
                at: p,
            },
        },
        Parsed::Stop { report, at } => Parsed::Stop { report, at },
    }
}

/// A statement ends inside the text, and any statement but `Eof` ends
/// behind the position that it was read from.
pub proof fn lemma_stmt(src: Source, pos: int)
    requires
        0 <= pos <= src.text.len() <= usize::MAX,
    ensures
        parse_stmt(src, pos).forward(pos, src.text.len() as int),
        (parse_stmt(src, pos) matches Parsed::Read { value, pos: p } ==> (value != StmtView::Eof
            ==> pos < p)),
{
    reveal(parse_stmt);
    reveal(parse_import);
    lemma_next_token(src, pos);
    match next_token(src, pos) {
        Parsed::Read { value: token, pos: p } => {
            lemma_package(src, p, Seq::empty());
            lemma_annotations(src, p, Seq::empty());
            lemma_decl(src, p, token.kind, Seq::empty());
            lemma_next_token(src, p);
            match expect(src, p, TokenKind::StringLiteral) {
                Parsed::Read { value: path, pos: q } => {
                    lemma_next_token(src, q);
                },
                Parsed::Stop { report, at } => {},
            }
        },
        Parsed::Stop { report, at } => {},
    }
}

/// What parsing a text comes to: the statements, or no tree, the one
/// diagnostic that ended the parse, and the position that the reading had
/// come to.
pub enum Outcome {
    Tree { stmts: Seq<StmtView> },
    Failed { report: DiagnosticView, at: int },
}

/// The statements that follow `stmts`, through the end of the text.
pub open spec fn parse_stmts(src: Source, pos: int, stmts: Seq<StmtView>) -> Outcome
    decreases src.text.len() - pos,
    when 0 <= pos <= src.text.len() <= usize::MAX
{
    match parse_stmt(src, pos) {
        Parsed::Read { value: stmt, pos: p } => if stmt == StmtView::Eof {
            Outcome::Tree { stmts }
        } else {
            proof {
                lemma_stmt(src, pos);
            }
            parse_stmts(src, p, stmts.push(stmt))
        },
        Parsed::Stop { report, at } => Outcome::Failed { report, at },
    }
}

/// What parsing the whole of a text comes to.
pub open spec fn parse_text(src: Source) -> Outcome {
    parse_stmts(src, 0, Seq::empty())
}

impl Outcome {
    /// The tree, if there is one.
    pub open spec fn ast(self) -> Option<Seq<StmtView>> {
        match self {
            Outcome::Tree { stmts } => Some(stmts),
            Outcome::Failed { report, at } => None,
        }
    }

    /// The diagnostics of the parse: none with a tree, else exactly one.
    pub open spec fn reports(self) -> Seq<DiagnosticView> {
        match self {
            Outcome::Tree { stmts } => Seq::empty(),
            Outcome::Failed { report, at } => seq![report],
        }
    }
}

} // verus!
