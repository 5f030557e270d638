//! The parser: recursive descent over the tokens of one source file.
//!
//! The lexer hands out one token at a time and takes none back, so a
//! production that has read the token by which it chose what follows hands
//! that token on to the production it chose. Each method reads what the
//! function of the same production in `grammar` describes. The first token
//! that fits nowhere is reported, and the parse ends without a tree.

use crate::ast::{
    stmt_views, AliasDecl, AnnotationDecl, AnnotationFieldDecl, AnnotationFieldValue, Ast,
    BlockDecl, Comment, ConstructorDecl, FieldDecl, FieldSetDecl, FieldType, ImportStmt, MapDecl,
    PackageStmt, Stmt, StmtView, StructDecl,
};
use crate::db::Database;
use crate::diagnostics::{DiagnosticView, Emitter};
use crate::grammar::{
    as_field_set, as_repeatable, expect, lemma_next_token, lemma_stmt, next_token,
    parse_annotation_block, parse_annotation_decl, parse_annotation_field,
    parse_annotation_fields, parse_annotation_value, parse_annotations, parse_block, parse_decl,
    parse_field, parse_field_set, parse_field_type, parse_fields, parse_import, parse_map,
    parse_named_block, parse_nested_fields, parse_optional_mark, parse_package, parse_stmt,
    parse_stmts, spec_leaf_type, Outcome, Parsed, Source,
};
use crate::lexer::{Lexeme, Lexer};
use crate::span::{SourceFile, Span};
use crate::text::substring;
use crate::token::{Token, TokenKind};
use crate::writing::{law_stmts_are_read_where_they_are_written, written_file};
use vstd::prelude::*;
use vstd::string::*;
use vstd::utf8::is_char_boundary;

verus! {

/// One file of a database, about to be parsed.
pub struct ParseSession<'db> {
    pub db: &'db Database,
    pub file: SourceFile,
}

impl<'db> ParseSession<'db> {
    /// The file is one of the database.
    pub open spec fn wf(&self) -> bool {
        self.db.inputs.has_file(self.file)
    }

    /// The text of the file, as bytes.
    pub open spec fn bytes(&self) -> Seq<u8> {
        self.db.inputs.spec_bytes(self.file)
    }

    pub fn new(db: &'db Database, file: SourceFile) -> (sess: Self)
        ensures
            sess.db == db,
            sess.file == file,
    {
        ParseSession { db, file }
    }

    /// The text of the file.
    pub fn text(&self) -> (text: &'db str)
        requires
            self.wf(),
        ensures
            text@ == self.db.inputs.spec_file(self.file).text,
            text.spec_bytes() == self.bytes(),
    {
        self.db.inputs.text(self.file)
    }

    /// The text that `span` covers. `None` for a span that does not cover
    /// whole characters of the text.
    pub fn span_text(&self, span: &Span) -> (text: Option<&'db str>)
        requires
            self.wf(),
        ensures
            text is Some <==> span.within(self.bytes().len() as int) && is_char_boundary(
                self.bytes(),
                span.start as int,
            ) && is_char_boundary(self.bytes(), span.end as int),
            text matches Some(t) ==> t.spec_bytes() == span.of(self.bytes()),
    {
        substring(self.text(), span.start, span.end)
    }
}

/// Turns tokens into statements.
pub struct Parser<'a, E: Emitter> {
    pub lexer: Lexer<'a, E>,
}

/// The field type that a single token stands for.
pub fn leaf_type(token: Token) -> (typ: Option<FieldType>)
    ensures
        typ == spec_leaf_type(token),
{
    match token.kind {
        TokenKind::Ident => Some(FieldType::Ident(token)),
        TokenKind::String => Some(FieldType::String(token)),
        TokenKind::Uint32 => Some(FieldType::Uint32(token)),
        TokenKind::Uint64 => Some(FieldType::Uint64(token)),
        TokenKind::Int32 => Some(FieldType::Int32(token)),
        TokenKind::Int64 => Some(FieldType::Int64(token)),
        TokenKind::Float32 => Some(FieldType::Float32(token)),
        TokenKind::Float64 => Some(FieldType::Float64(token)),
        TokenKind::Unknown => Some(FieldType::Unknown(token)),
        TokenKind::Struct => Some(FieldType::Struct(token)),
        _ => None,
    }
}

impl<'a, E: Emitter> Parser<'a, E> {
    /// The parser stands between two tokens of its text.
    pub open spec fn wf(&self) -> bool {
        self.lexer.at_rest()
    }

    /// What is being parsed.
    pub open spec fn source(&self) -> Source {
        Source { text: self.lexer.bytes(), file: self.lexer.file }
    }

    /// Where the next token is read from.
    pub open spec fn pos(&self) -> int {
        self.lexer.pos as int
    }

    /// What has been reported so far.
    pub open spec fn emitted(&self) -> Seq<DiagnosticView> {
        self.lexer.emitter.emitted()
    }

    /// `post` is a parser over the text of `pre`, at or behind its position.
    pub open spec fn follows(pre: &Self, post: &Self) -> bool {
        &&& post.wf()
        &&& post.lexer.text == pre.lexer.text
        &&& post.lexer.file == pre.lexer.file
        &&& pre.pos() <= post.pos()
    }

    /// `post` and `r` are what a parser in state `pre` comes to when
    /// `parsed` is what is written at its position: the value is handed out
    /// and the parser stands behind it with nothing reported, or there is no
    /// value, the one diagnostic was reported, and the parser stands behind
    /// the token that did not fit, or at the end of the text after a fault
    /// of the lexer.
    pub open spec fn proceeds<T>(pre: &Self, post: &Self, parsed: Parsed<T>, r: Option<T>) -> bool {
        &&& Self::follows(pre, post)
        &&& match parsed {
            Parsed::Read { value, pos } => {
                &&& r == Some(value)
                &&& post.pos() == pos
                &&& post.lexer.emitter == pre.lexer.emitter
            },
            Parsed::Stop { report, at } => {
                &&& r is None
                &&& post.pos() == at
                &&& post.emitted() == pre.emitted().push(report)
            },
        }
    }

    /// As `proceeds`, for a value that is compared by its view.
    pub open spec fn proceeds_to<T: View>(
        pre: &Self,
        post: &Self,
        parsed: Parsed<T::V>,
        r: Option<T>,
    ) -> bool {
        &&& Self::follows(pre, post)
        &&& match parsed {
            Parsed::Read { value, pos } => {
                &&& r is Some
                &&& r->0@ == value
                &&& post.pos() == pos
                &&& post.lexer.emitter == pre.lexer.emitter
            },
            Parsed::Stop { report, at } => {
                &&& r is None
                &&& post.pos() == at
                &&& post.emitted() == pre.emitted().push(report)
            },
        }
    }

    /// A parser at the start of the session's file, which reports to
    /// `emitter`.
    pub fn new(sess: &ParseSession<'a>, emitter: E) -> (parser: Self)
        requires
            sess.wf(),
        ensures
            parser.wf(),
            parser.pos() == 0,
            parser.source() == (Source { text: sess.bytes(), file: sess.file }),
            parser.lexer.emitter == emitter,
    {
        Parser { lexer: Lexer::new(sess, emitter) }
    }

    /// Gives up the parser for the emitter that it reported to.
    pub fn finish(self) -> (emitter: E)
        ensures
            emitter == self.lexer.emitter,
    {
        self.lexer.emitter
    }

    /// `post` and `r` are what a parser in state `pre` comes to when
    /// `outcome` is what the rest of its text comes to: the tree is handed
    /// out with nothing reported, or there is no tree, the one diagnostic
    /// was reported, and the parser stands where the reading ended.
    pub open spec fn concludes(pre: &Self, post: &Self, outcome: Outcome, r: Option<Ast>) -> bool {
        &&& Self::follows(pre, post)
        &&& match outcome {
            Outcome::Tree { stmts } => {
                &&& r is Some
                &&& r->0@ == stmts
                &&& post.lexer.emitter == pre.lexer.emitter
            },
            Outcome::Failed { report, at } => {
                &&& r is None
                &&& post.pos() == at
                &&& post.emitted() == pre.emitted().push(report)
            },
        }
    }

    /// Parses the rest of the text: every statement through the end. The
    /// tree is the one that the rest of the text spells; where it spells
    /// none, there is no tree.
    pub fn parse(&mut self) -> (r: Option<Ast>)
        requires
            old(self).wf(),
        ensures
            Self::concludes(
                old(self),
                final(self),
                parse_stmts(old(self).source(), old(self).pos(), Seq::empty()),
                r,
            ),
            r matches Some(ast) ==> written_file(old(self).source(), old(self).pos(), ast@),
            r is None ==> forall|stmts: Seq<StmtView>|
                !written_file(old(self).source(), old(self).pos(), stmts),
    {
        proof {
            let src = self.source();
            let pos = self.pos();
            assert forall|stmts: Seq<StmtView>|
                parse_stmts(src, pos, Seq::empty()) == (Outcome::Tree { stmts })
                    <==> #[trigger] written_file(src, pos, stmts) by {
                assert(Seq::<StmtView>::empty() + stmts =~= stmts);
                law_stmts_are_read_where_they_are_written(src, pos, Seq::empty(), stmts);
            }
        }
        let mut stmts: Vec<Stmt> = Vec::new();
        let ghost start = self.pos();
        assert(stmt_views(stmts@) =~= Seq::empty());
        loop
            invariant
                Self::follows(old(self), self),
                self.lexer.emitter == old(self).lexer.emitter,
                start == old(self).pos(),
                parse_stmts(self.source(), self.pos(), stmt_views(stmts@)) == parse_stmts(
                    old(self).source(),
                    start,
                    Seq::empty(),
                ),
                forall|all: Seq<StmtView>|
                    parse_stmts(old(self).source(), start, Seq::empty()) == (Outcome::Tree {
                        stmts: all,
                    }) <==> #[trigger] written_file(old(self).source(), start, all),
            decreases self.lexer.bytes().len() - self.lexer.pos,
        {
            let ghost before = self.pos();
            let ghost seen = stmt_views(stmts@);
            proof {
                lemma_stmt(self.source(), before);
            }
            match self.advance() {
                Some(stmt) => match stmt {
                    Stmt::Eof => {
                        return Some(Ast { stmts });
                    },
                    _ => {
                        stmts.push(stmt);
                        assert(stmt_views(stmts@) =~= seen.push(stmt@));
                    },
                },
                None => {
                    return None;
                },
            }
        }
    }

    /// Parses one statement; `Stmt::Eof` at the end of the text.
    pub fn advance(&mut self) -> (r: Option<Stmt>)
        requires
            old(self).wf(),
        ensures
            Self::proceeds_to(old(self), final(self), parse_stmt(old(self).source(), old(self).pos()), r),
    {
        proof {
            reveal(parse_stmt);
        }
        let token = match self.advance_token() {
            Some(token) => token,
            None => {
                return None;
            },
        };
        match token.kind {
            TokenKind::Package => self.package_stmt(),
            TokenKind::Import => self.import_stmt(),
            TokenKind::At => self.annotation_def(),
            TokenKind::Struct => self.struct_decl(Vec::new()),
            TokenKind::Constructor => self.constructor_decl(Vec::new()),
            TokenKind::Annotation => self.annotation_decl(Vec::new()),
            TokenKind::Comment => Some(Stmt::Comment(Comment { value: token })),
            TokenKind::Eof => Some(Stmt::Eof),
            _ => {
                self.lexer.emitter.emit_unexpected_token(token, "a package, import or declaration");
                None
            },
        }
    }

    /// `Ident ('.' Ident)* ';'`, behind `package`.
    fn package_stmt(&mut self) -> (r: Option<Stmt>)
        requires
            old(self).wf(),
        ensures
            Self::proceeds_to(
                old(self),
                final(self),
                parse_package(old(self).source(), old(self).pos(), Seq::empty()),
                r,
            ),
    {
        let mut segments: Vec<Token> = Vec::new();
        let ghost start = self.pos();
        loop
            invariant
                Self::follows(old(self), self),
                self.lexer.emitter == old(self).lexer.emitter,
                start == old(self).pos(),
                parse_package(self.source(), self.pos(), segments@) == parse_package(
                    old(self).source(),
                    start,
                    Seq::empty(),
                ),
            decreases self.lexer.bytes().len() - self.lexer.pos,
        {
            proof {
                lemma_next_token(self.source(), self.pos());
            }
            let segment = match self.pop(TokenKind::Ident) {
                Some(segment) => segment,
                None => {
                    return None;
                },
            };
            segments.push(segment);
            let token = match self.advance_token() {
                Some(token) => token,
                None => {
                    return None;
                },
            };
            match token.kind {
                TokenKind::Period => {},
                TokenKind::Semi => {
                    return Some(Stmt::PackageStmt(PackageStmt { segments }));
                },
                _ => {
                    self.lexer.emitter.emit_unexpected_token(token, "period or semicolon");
                    return None;
                },
            }
        }
    }

    /// `StringLiteral ';'`, behind `import`.
    fn import_stmt(&mut self) -> (r: Option<Stmt>)
        requires
            old(self).wf(),
        ensures
            Self::proceeds_to(old(self), final(self), parse_import(old(self).source(), old(self).pos()), r),
    {
        proof {
            reveal(parse_import);
        }
        let path = match self.pop(TokenKind::StringLiteral) {
            Some(path) => path,
            None => {
                return None;
            },
        };
        match self.pop(TokenKind::Semi) {
            Some(_) => Some(Stmt::ImportStmt(ImportStmt { path })),
            None => None,
        }
    }

    /// `Ident ('@' Ident)*` and the declaration behind it, behind an `@`.
    fn annotation_def(&mut self) -> (r: Option<Stmt>)
        requires
            old(self).wf(),
        ensures
            Self::proceeds_to(
                old(self),
                final(self),
                parse_annotations(old(self).source(), old(self).pos(), Seq::empty()),
                r,
            ),
    {
        let mut annotations: Vec<Token> = Vec::new();
        let ghost start = self.pos();
        loop
            invariant
                Self::follows(old(self), self),
                self.lexer.emitter == old(self).lexer.emitter,
                start == old(self).pos(),
                parse_annotations(self.source(), self.pos(), annotations@) == parse_annotations(
                    old(self).source(),
                    start,
                    Seq::empty(),
                ),
            decreases self.lexer.bytes().len() - self.lexer.pos,
        {
            proof {
                lemma_next_token(self.source(), self.pos());
            }
            let name = match self.pop(TokenKind::Ident) {
                Some(name) => name,
                None => {
                    return None;
                },
            };
            annotations.push(name);
            let token = match self.advance_token() {
                Some(token) => token,
                None => {
                    return None;
                },
            };
            match token.kind {
                TokenKind::At => {},
                TokenKind::Constructor => {
                    return self.constructor_decl(annotations);
                },
                TokenKind::Struct => {
                    return self.struct_decl(annotations);
                },
                TokenKind::Annotation => {
                    return self.annotation_decl(annotations);
                },
                _ => {
                    self.lexer.emitter.emit_unexpected_token(
                        token,
                        "an annotation, constructor or struct",
                    );
                    return None;
                },
            }
        }
    }

    /// `Ident Block`, behind `struct`.
    fn struct_decl(&mut self, annotations: Vec<Token>) -> (r: Option<Stmt>)
        requires
            old(self).wf(),
        ensures
            Self::proceeds_to(
                old(self),
                final(self),
                parse_decl(old(self).source(), old(self).pos(), TokenKind::Struct, annotations@),
                r,
            ),
    {
        proof {
            reveal(parse_decl);
            reveal(parse_named_block);
        }
        let name = match self.pop(TokenKind::Ident) {
            Some(name) => name,
            None => {
                return None;
            },
        };
        match self.block_decl() {
            Some(content) => Some(Stmt::StructDecl(StructDecl { annotations, name, content })),
            None => None,
        }
    }

    /// `Ident Block`, behind `constructor`.
    fn constructor_decl(&mut self, annotations: Vec<Token>) -> (r: Option<Stmt>)
        requires
            old(self).wf(),
        ensures
            Self::proceeds_to(
                old(self),
                final(self),
                parse_decl(old(self).source(), old(self).pos(), TokenKind::Constructor, annotations@),
                r,
            ),
    {
        proof {
            reveal(parse_decl);
            reveal(parse_named_block);
        }
        let name = match self.pop(TokenKind::Ident) {
            Some(name) => name,
            None => {
                return None;
            },
        };
        match self.block_decl() {
            Some(content) => Some(
                Stmt::ConstructorDecl(ConstructorDecl { annotations, name, content }),
            ),
            None => None,
        }
    }

    /// `Block`.
    fn block_decl(&mut self) -> (r: Option<BlockDecl>)
        requires
            old(self).wf(),
        ensures
            Self::proceeds_to(old(self), final(self), parse_block(old(self).source(), old(self).pos()), r),
    {
        proof {
            reveal(parse_block);
        }
        match self.pop(TokenKind::OpenBrace) {
            Some(_) => {},
            None => {
                return None;
            },
        }
        let discriminator = match self.advance_token() {
            Some(token) => token,
            None => {
                return None;
            },
        };
        match discriminator.kind {
            TokenKind::Union => self.union_decl(),
            TokenKind::Repeatable => self.repeatable_decl(),
            TokenKind::MapKeyword => {
                let map = match self.map_decl() {
                    Some(map) => map,
                    None => {
                        return None;
                    },
                };
                match self.pop(TokenKind::CloseBrace) {
                    Some(_) => Some(BlockDecl::Alias(AliasDecl::MapDecl(map))),
                    None => None,
                }
            },
            TokenKind::Ident => match self.field_set_decl(Some(discriminator)) {
                Some(fields) => Some(BlockDecl::FieldSet(fields)),
                None => None,
            },
            TokenKind::CloseBrace => Some(BlockDecl::FieldSet(FieldSetDecl { fields: Vec::new() })),
            _ => {
                self.lexer.emitter.emit_unexpected_token(
                    discriminator,
                    "union, repeatable or an identifier",
                );
                None
            },
        }
    }

    /// `'{' FieldSet '}' '}'`, behind `union`.
    fn union_decl(&mut self) -> (r: Option<BlockDecl>)
        requires
            old(self).wf(),
        ensures
            Self::proceeds_to(
                old(self),
                final(self),
                as_field_set(parse_nested_fields(old(self).source(), old(self).pos())),
                r,
            ),
    {
        match self.nested_field_set() {
            Some(fields) => Some(BlockDecl::FieldSet(fields)),
            None => None,
        }
    }

    /// `'{' FieldSet '}' '}'`, behind `repeatable`.
    fn repeatable_decl(&mut self) -> (r: Option<BlockDecl>)
        requires
            old(self).wf(),
        ensures
            Self::proceeds_to(
                old(self),
                final(self),
                as_repeatable(parse_nested_fields(old(self).source(), old(self).pos())),
                r,
            ),
    {
        match self.nested_field_set() {
            Some(fields) => Some(BlockDecl::Repeatable(fields)),
            None => None,
        }
    }

    /// The braces and fields that `union` and `repeatable` share.
    fn nested_field_set(&mut self) -> (r: Option<FieldSetDecl>)
        requires
            old(self).wf(),
        ensures
            Self::proceeds_to(
                old(self),
                final(self),
                parse_nested_fields(old(self).source(), old(self).pos()),
                r,
            ),
    {
        proof {
            reveal(parse_nested_fields);
        }
        match self.pop(TokenKind::OpenBrace) {
            Some(_) => {},
            None => {
                return None;
            },
        }
        let fields = match self.field_set_decl(None) {
            Some(fields) => fields,
            None => {
                return None;
            },
        };
        match self.pop(TokenKind::CloseBrace) {
            Some(_) => Some(fields),
            None => None,
        }
    }

    /// `Ident '{' ... '}'`, behind `annotation`.
    fn annotation_decl(&mut self, annotations: Vec<Token>) -> (r: Option<Stmt>)
        requires
            old(self).wf(),
        ensures
            Self::proceeds_to(
                old(self),
                final(self),
                parse_decl(old(self).source(), old(self).pos(), TokenKind::Annotation, annotations@),
                r,
            ),
    {
        proof {
            reveal(parse_decl);
            reveal(parse_annotation_decl);
        }
        let name = match self.pop(TokenKind::Ident) {
            Some(name) => name,
            None => {
                return None;
            },
        };
        match self.annotation_field_set_decl() {
            Some(fields) => Some(Stmt::AnnotationDecl(AnnotationDecl { annotations, name, fields })),
            None => None,
        }
    }

    /// `FieldSet '}'`. `leading_ident` is the name of the first field where
    /// the caller had to read it to know that a field set begins.
    fn field_set_decl(&mut self, leading_ident: Option<Token>) -> (r: Option<FieldSetDecl>)
        requires
            old(self).wf(),
        ensures
            Self::proceeds_to(
                old(self),
                final(self),
                parse_field_set(old(self).source(), old(self).pos(), leading_ident),
                r,
            ),
    {
        proof {
            reveal(parse_field_set);
        }
        let mut fields: Vec<FieldDecl> = Vec::new();
        if let Some(name) = leading_ident {
            match self.field_decl(name, "a question mark or colon") {
                Some(field) => {
                    fields.push(field);
                    assert(fields@ =~= seq![field]);
                },
                None => {
                    return None;
                },
            }
        }
        let ghost start = self.pos();
        let ghost first = fields@;
        loop
            invariant
                Self::follows(old(self), self),
                self.lexer.emitter == old(self).lexer.emitter,
                parse_fields(self.source(), self.pos(), fields@) == parse_fields(
                    old(self).source(),
                    start,
                    first,
                ),
                parse_field_set(old(self).source(), old(self).pos(), leading_ident) == parse_fields(
                    old(self).source(),
                    start,
                    first,
                ),
            decreases self.lexer.bytes().len() - self.lexer.pos,
        {
            proof {
                lemma_next_token(self.source(), self.pos());
            }
            let token = match self.advance_token() {
                Some(token) => token,
                None => {
                    return None;
                },
            };
            match token.kind {
                TokenKind::CloseBrace => {
                    return Some(FieldSetDecl { fields });
                },
                TokenKind::Ident => {},
                _ => {
                    self.lexer.emitter.emit_unexpected_token(token, "a closing brace or identifier");
                    return None;
                },
            }
            match self.field_decl(token, "question mark or colon") {
                Some(field) => {
                    fields.push(field);
                },
                None => {
                    return None;
                },
            }
        }
    }

    /// `('?' ':' | ':') FieldType ';'`: the field named `name`.
    fn field_decl(&mut self, name: Token, expected: &str) -> (r: Option<FieldDecl>)
        requires
            old(self).wf(),
        ensures
            Self::proceeds(
                old(self),
                final(self),
                parse_field(old(self).source(), old(self).pos(), name, expected@),
                r,
            ),
    {
        proof {
            reveal(parse_field);
        }
        let optional = match self.optional_mark(expected) {
            Some(optional) => optional,
            None => {
                return None;
            },
        };
        let typ = match self.field_value() {
            Some(typ) => typ,
            None => {
                return None;
            },
        };
        match self.pop(TokenKind::Semi) {
            Some(_) => Some(FieldDecl { name, typ, optional }),
            None => None,
        }
    }

    /// `'?' ':' | ':'`: whether the field in front of it is optional.
    fn optional_mark(&mut self, expected: &str) -> (r: Option<bool>)
        requires
            old(self).wf(),
        ensures
            Self::proceeds(
                old(self),
                final(self),
                parse_optional_mark(old(self).source(), old(self).pos(), expected@),
                r,
            ),
    {
        proof {
            reveal(parse_optional_mark);
        }
        let token = match self.advance_token() {
            Some(token) => token,
            None => {
                return None;
            },
        };
        match token.kind {
            TokenKind::QuestionMark => match self.pop(TokenKind::Colon) {
                Some(_) => Some(true),
                None => None,
            },
            TokenKind::Colon => Some(false),
            _ => {
                self.lexer.emitter.emit_unexpected_token(token, expected);
                None
            },
        }
    }

    /// `FieldType`.
    fn field_value(&mut self) -> (r: Option<FieldType>)
        requires
            old(self).wf(),
        ensures
            Self::proceeds(
                old(self),
                final(self),
                parse_field_type(old(self).source(), old(self).pos()),
                r,
            ),
        decreases old(self).lexer.bytes().len() - old(self).lexer.pos, 1int,
    {
        proof {
            lemma_next_token(self.source(), self.pos());
        }
        let token = match self.advance_token() {
            Some(token) => token,
            None => {
                return None;
            },
        };
        match leaf_type(token) {
            Some(leaf) => Some(leaf),
            None => match token.kind {
                TokenKind::MapKeyword => match self.map_decl() {
                    Some(map) => Some(FieldType::MapType(Box::new(map))),
                    None => None,
                },
                _ => {
                    self.lexer.emitter.emit_unexpected_token(token, "a field value type");
                    None
                },
            },
        }
    }

    /// `(Ident ('?' ':' | ':') AnnotationValue ',')* '}'`, and the `{` in
    /// front of it.
    fn annotation_field_set_decl(&mut self) -> (r: Option<Vec<AnnotationFieldDecl>>)
        requires
            old(self).wf(),
        ensures
            Self::proceeds_to(
                old(self),
                final(self),
                parse_annotation_block(old(self).source(), old(self).pos()),
                r,
            ),
    {
        proof {
            reveal(parse_annotation_block);
        }
        let open = match self.pop(TokenKind::OpenBrace) {
            Some(open) => open,
            None => {
                return None;
            },
        };
        let mut fields: Vec<AnnotationFieldDecl> = Vec::new();
        let ghost start = self.pos();
        loop
            invariant
                Self::follows(old(self), self),
                self.lexer.emitter == old(self).lexer.emitter,
                parse_annotation_fields(self.source(), self.pos(), fields@)
                    == parse_annotation_fields(old(self).source(), start, Seq::empty()),
                parse_annotation_block(old(self).source(), old(self).pos())
                    == parse_annotation_fields(old(self).source(), start, Seq::empty()),
            decreases self.lexer.bytes().len() - self.lexer.pos,
        {
            proof {
                            reveal(parse_annotation_field);
            }
            proof {
                lemma_next_token(self.source(), self.pos());
            }
            let token = match self.advance_token() {
                Some(token) => token,
                None => {
                    return None;
                },
            };
            match token.kind {
                TokenKind::CloseBrace => {
                    return Some(fields);
                },
                TokenKind::Ident => {},
                _ => {
                    self.lexer.emitter.emit_unexpected_token(token, "closing brace or identifier");
                    return None;
                },
            }
            let optional = match self.optional_mark("a question mark or colon") {
                Some(optional) => optional,
                None => {
                    return None;
                },
            };
            let value = match self.annotation_field_value() {
                Some(value) => value,
                None => {
                    return None;
                },
            };
            match self.pop(TokenKind::Comma) {
                Some(_) => {},
                None => {
                    return None;
                },
            }
            fields.push(AnnotationFieldDecl { name: token, value, optional });
        }
    }

    /// `AnnotationValue`.
    fn annotation_field_value(&mut self) -> (r: Option<AnnotationFieldValue>)
        requires
            old(self).wf(),
        ensures
            Self::proceeds(
                old(self),
                final(self),
                parse_annotation_value(old(self).source(), old(self).pos()),
                r,
            ),
    {
        proof {
            reveal(parse_annotation_value);
        }
        let token = match self.advance_token() {
            Some(token) => token,
            None => {
                return None;
            },
        };
        match token.kind {
            TokenKind::String => Some(AnnotationFieldValue::String(token)),
            TokenKind::Uint32 => Some(AnnotationFieldValue::Uint32(token)),
            TokenKind::Uint64 => Some(AnnotationFieldValue::Uint64(token)),
            TokenKind::Int32 => Some(AnnotationFieldValue::Int32(token)),
            TokenKind::Int64 => Some(AnnotationFieldValue::Int64(token)),
            TokenKind::Float32 => Some(AnnotationFieldValue::Float32(token)),
            TokenKind::Float64 => Some(AnnotationFieldValue::Float64(token)),
            _ => {
                self.lexer.emitter.emit_unexpected_token(token, "a string or number type");
                None
            },
        }
    }

    /// `'<' FieldType ',' FieldType '>'`, behind `map`.
    fn map_decl(&mut self) -> (r: Option<MapDecl>)
        requires
            old(self).wf(),
        ensures
            Self::proceeds(old(self), final(self), parse_map(old(self).source(), old(self).pos()), r),
        decreases old(self).lexer.bytes().len() - old(self).lexer.pos, 0int,
    {
        proof {
            lemma_next_token(self.source(), self.pos());
        }
        match self.pop(TokenKind::OpenChevron) {
            Some(_) => {},
            None => {
                return None;
            },
        }
        let key = match self.field_value() {
            Some(key) => key,
            None => {
                return None;
            },
        };
        proof {
            lemma_next_token(self.source(), self.pos());
        }
        match self.pop(TokenKind::Comma) {
            Some(_) => {},
            None => {
                return None;
            },
        }
        let value = match self.field_value() {
            Some(value) => value,
            None => {
                return None;
            },
        };
        match self.pop(TokenKind::CloseChevron) {
            Some(_) => Some(MapDecl { key, value }),
            None => None,
        }
    }

    /// Reads the next token, which must be of `kind`.
    fn pop(&mut self, kind: TokenKind) -> (r: Option<Token>)
        requires
            old(self).wf(),
        ensures
            Self::proceeds(old(self), final(self), expect(old(self).source(), old(self).pos(), kind), r),
    {
        let token = match self.advance_token() {
            Some(token) => token,
            None => {
                return None;
            },
        };
        if token.kind == kind {
            Some(token)
        } else {
            self.lexer.emitter.emit_unexpected_token(token, kind.name());
            None
        }
    }

    /// Reads the next token. The end of the text reads as a token of kind
    /// `Eof`; `None` says that the lexer reported a fault.
    fn advance_token(&mut self) -> (r: Option<Token>)
        requires
            old(self).wf(),
        ensures
            Self::proceeds(old(self), final(self), next_token(old(self).source(), old(self).pos()), r),
    {
        match self.lexer.scan() {
            Lexeme::Token(token) => Some(token),
            Lexeme::End => Some(Token::eof(self.lexer.pos, self.lexer.file)),
            Lexeme::Fault => None,
        }
    }
}

} // verus!
