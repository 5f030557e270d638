//! The declaration tree that a source file is parsed to.
//!
//! A node owns its children. Nodes that hold lists are compared in
//! contracts by their views, in which each list is a sequence.

use crate::token::Token;
use vstd::prelude::*;

verus! {

/// A comment between two statements.
#[derive(Debug, PartialEq, Eq)]
pub struct Comment {
    pub value: Token,
}

/// `package a.b.c;`
#[derive(Debug, PartialEq, Eq)]
pub struct PackageStmt {
    pub segments: Vec<Token>,
}

/// `import "path";`
#[derive(Debug, PartialEq, Eq)]
pub struct ImportStmt {
    pub path: Token,
}

/// The type of a field.
#[derive(Debug, PartialEq, Eq)]
pub enum FieldType {
    /// The name of another declaration
    Ident(Token),
    String(Token),
    Uint32(Token),
    Uint64(Token),
    Int32(Token),
    Int64(Token),
    Float32(Token),
    Float64(Token),
    Unknown(Token),
    Struct(Token),
    /// `map<key, value>`
    MapType(Box<MapDecl>),
}

/// `map<key, value>`
#[derive(Debug, PartialEq, Eq)]
pub struct MapDecl {
    pub key: FieldType,
    pub value: FieldType,
}

/// A block that gives another type a name.
#[derive(Debug, PartialEq, Eq)]
pub enum AliasDecl {
    MapDecl(MapDecl),
}

/// `name: type;` or `name?: type;`
#[derive(Debug, PartialEq, Eq)]
pub struct FieldDecl {
    pub name: Token,
    pub typ: FieldType,
    pub optional: bool,
}

/// The fields between two braces.
#[derive(Debug, PartialEq, Eq)]
pub struct FieldSetDecl {
    pub fields: Vec<FieldDecl>,
}

/// What stands between the braces of a constructor or a struct.
#[derive(Debug, PartialEq, Eq)]
pub enum BlockDecl {
    Alias(AliasDecl),
    Repeatable(FieldSetDecl),
    FieldSet(FieldSetDecl),
}

/// `constructor name { ... }`, with the annotations in front of it.
#[derive(Debug, PartialEq, Eq)]
pub struct ConstructorDecl {
    pub annotations: Vec<Token>,
    pub name: Token,
    pub content: BlockDecl,
}

/// `struct name { ... }`, with the annotations in front of it.
#[derive(Debug, PartialEq, Eq)]
pub struct StructDecl {
    pub annotations: Vec<Token>,
    pub name: Token,
    pub content: BlockDecl,
}

/// The value of an annotation's field.
#[derive(Clone, Copy, Debug, PartialEq, Eq, Structural)]
pub enum AnnotationFieldValue {
    String(Token),
    Uint32(Token),
    Uint64(Token),
    Int32(Token),
    Int64(Token),
    Float32(Token),
    Float64(Token),
}

/// `name: value,` or `name?: value,`
#[derive(Clone, Copy, Debug, PartialEq, Eq, Structural)]
pub struct AnnotationFieldDecl {
    pub name: Token,
    pub value: AnnotationFieldValue,
    pub optional: bool,
}

/// `annotation name { ... }`, with the annotations in front of it.
#[derive(Debug, PartialEq, Eq)]
pub struct AnnotationDecl {
    pub annotations: Vec<Token>,
    pub name: Token,
    pub fields: Vec<AnnotationFieldDecl>,
}

/// One statement at the top level of a file.
#[derive(Debug, PartialEq, Eq)]
pub enum Stmt {
    Comment(Comment),
    PackageStmt(PackageStmt),
    ImportStmt(ImportStmt),
    ConstructorDecl(ConstructorDecl),
    StructDecl(StructDecl),
    AnnotationDecl(AnnotationDecl),
    /// The end of the file: it ends the statements and is no part of an `Ast`.
    Eof,
}

/// The statements of one file, in the order of the text.
#[derive(Debug, PartialEq, Eq)]
pub struct Ast {
    pub stmts: Vec<Stmt>,
}

/// A block as a mathematical value.
pub enum BlockView {
    Alias(AliasDecl),
    Repeatable(Seq<FieldDecl>),
    FieldSet(Seq<FieldDecl>),
}

/// A constructor or a struct as a mathematical value.
pub struct DeclView {
    pub annotations: Seq<Token>,
    pub name: Token,
    pub content: BlockView,
}

/// An annotation declaration as a mathematical value.
pub struct AnnotationView {
    pub annotations: Seq<Token>,
    pub name: Token,
    pub fields: Seq<AnnotationFieldDecl>,
}

/// A statement as a mathematical value.
pub enum StmtView {
    Comment(Token),
    Package(Seq<Token>),
    Import(Token),
    Constructor(DeclView),
    Struct(DeclView),
    Annotation(AnnotationView),
    Eof,
}

impl View for PackageStmt {
    type V = Seq<Token>;

    open spec fn view(&self) -> Seq<Token> {
        self.segments@
    }
}

impl View for FieldSetDecl {
    type V = Seq<FieldDecl>;

    open spec fn view(&self) -> Seq<FieldDecl> {
        self.fields@
    }
}

impl View for BlockDecl {
    type V = BlockView;

    open spec fn view(&self) -> BlockView {
        match self {
            BlockDecl::Alias(alias) => BlockView::Alias(*alias),
            BlockDecl::Repeatable(fields) => BlockView::Repeatable(fields@),
            BlockDecl::FieldSet(fields) => BlockView::FieldSet(fields@),
        }
    }
}

impl View for ConstructorDecl {
    type V = DeclView;

    open spec fn view(&self) -> DeclView {
        DeclView { annotations: self.annotations@, name: self.name, content: self.content@ }
    }
}

impl View for StructDecl {
    type V = DeclView;

    open spec fn view(&self) -> DeclView {
        DeclView { annotations: self.annotations@, name: self.name, content: self.content@ }
    }
}

impl View for AnnotationDecl {
    type V = AnnotationView;

    open spec fn view(&self) -> AnnotationView {
        AnnotationView { annotations: self.annotations@, name: self.name, fields: self.fields@ }
    }
}

impl View for Stmt {
    type V = StmtView;

    open spec fn view(&self) -> StmtView {
        match self {
            Stmt::Comment(comment) => StmtView::Comment(comment.value),
            Stmt::PackageStmt(package) => StmtView::Package(package@),
            Stmt::ImportStmt(import) => StmtView::Import(import.path),
            Stmt::ConstructorDecl(decl) => StmtView::Constructor(decl@),
            Stmt::StructDecl(decl) => StmtView::Struct(decl@),
            Stmt::AnnotationDecl(decl) => StmtView::Annotation(decl@),
            Stmt::Eof => StmtView::Eof,
        }
    }
}

/// The views of a list of statements, in order.
pub open spec fn stmt_views(stmts: Seq<Stmt>) -> Seq<StmtView> {
    Seq::new(stmts.len(), |i: int| stmts[i]@)
}

impl View for Ast {
    type V = Seq<StmtView>;

    open spec fn view(&self) -> Seq<StmtView> {
        stmt_views(self.stmts@)
    }
}

/// A copy of a list of tokens.
pub fn clone_tokens(tokens: &Vec<Token>) -> (copy: Vec<Token>)
    ensures
        copy@ == tokens@,
{
    let mut copy: Vec<Token> = Vec::new();
    let mut i: usize = 0;
    while i < tokens.len()
        invariant
            i <= tokens.len(),
            copy@ == tokens@.take(i as int),
        decreases tokens.len() - i,
    {
        copy.push(tokens[i]);
        assert(tokens@.take(i + 1) =~= tokens@.take(i as int).push(tokens@[i as int]));
        i = i + 1;
    }
    assert(tokens@.take(i as int) =~= tokens@);
    copy
}

impl Clone for Comment {
    fn clone(&self) -> (copy: Self)
        ensures
            copy == *self,
    {
        Comment { value: self.value }
    }
}

impl Clone for PackageStmt {
    fn clone(&self) -> (copy: Self)
        ensures
            copy@ == self@,
    {
        PackageStmt { segments: clone_tokens(&self.segments) }
    }
}

impl Clone for ImportStmt {
    fn clone(&self) -> (copy: Self)
        ensures
            copy == *self,
    {
        ImportStmt { path: self.path }
    }
}

impl Clone for FieldType {
    fn clone(&self) -> (copy: Self)
        ensures
            copy == *self,
        decreases *self,
    {
        match self {
            FieldType::Ident(t) => FieldType::Ident(*t),
            FieldType::String(t) => FieldType::String(*t),
            FieldType::Uint32(t) => FieldType::Uint32(*t),
            FieldType::Uint64(t) => FieldType::Uint64(*t),
            FieldType::Int32(t) => FieldType::Int32(*t),
            FieldType::Int64(t) => FieldType::Int64(*t),
            FieldType::Float32(t) => FieldType::Float32(*t),
            FieldType::Float64(t) => FieldType::Float64(*t),
            FieldType::Unknown(t) => FieldType::Unknown(*t),
            FieldType::Struct(t) => FieldType::Struct(*t),
            FieldType::MapType(map) => {
                let key = map.key.clone();
                let value = map.value.clone();
                FieldType::MapType(Box::new(MapDecl { key, value }))
            },
        }
    }
}

impl Clone for MapDecl {
    fn clone(&self) -> (copy: Self)
        ensures
            copy == *self,
    {
        MapDecl { key: self.key.clone(), value: self.value.clone() }
    }
}

impl Clone for AliasDecl {
    fn clone(&self) -> (copy: Self)
        ensures
            copy == *self,
    {
        match self {
            AliasDecl::MapDecl(map) => AliasDecl::MapDecl(map.clone()),
        }
    }
}

impl Clone for FieldDecl {
    fn clone(&self) -> (copy: Self)
        ensures
            copy == *self,
    {
        FieldDecl { name: self.name, typ: self.typ.clone(), optional: self.optional }
    }
}

impl Clone for FieldSetDecl {
    fn clone(&self) -> (copy: Self)
        ensures
            copy@ == self@,
    {
        let mut fields: Vec<FieldDecl> = Vec::new();
        let mut i: usize = 0;
        while i < self.fields.len()
            invariant
                i <= self.fields.len(),
                fields@ == self.fields@.take(i as int),
            decreases self.fields.len() - i,
        {
            fields.push(self.fields[i].clone());
            assert(self.fields@.take(i + 1) =~= self.fields@.take(i as int).push(
                self.fields@[i as int],
            ));
            i = i + 1;
        }
        assert(self.fields@.take(i as int) =~= self.fields@);
        FieldSetDecl { fields }
    }
}

impl Clone for BlockDecl {
    fn clone(&self) -> (copy: Self)
        ensures
            copy@ == self@,
    {
        match self {
            BlockDecl::Alias(alias) => BlockDecl::Alias(alias.clone()),
            BlockDecl::Repeatable(fields) => BlockDecl::Repeatable(fields.clone()),
            BlockDecl::FieldSet(fields) => BlockDecl::FieldSet(fields.clone()),
        }
    }
}

impl Clone for ConstructorDecl {
    fn clone(&self) -> (copy: Self)
        ensures
            copy@ == self@,
    {
        ConstructorDecl {
            annotations: clone_tokens(&self.annotations),
            name: self.name,
            content: self.content.clone(),
        }
    }
}

impl Clone for StructDecl {
    fn clone(&self) -> (copy: Self)
        ensures
            copy@ == self@,
    {
        StructDecl {
            annotations: clone_tokens(&self.annotations),
            name: self.name,
            content: self.content.clone(),
        }
    }
}

impl Clone for AnnotationDecl {
    fn clone(&self) -> (copy: Self)
        ensures
            copy@ == self@,
    {
        let mut fields: Vec<AnnotationFieldDecl> = Vec::new();
        let mut i: usize = 0;
        while i < self.fields.len()
            invariant
                i <= self.fields.len(),
                fields@ == self.fields@.take(i as int),
            decreases self.fields.len() - i,
        {
            fields.push(self.fields[i]);
            assert(self.fields@.take(i + 1) =~= self.fields@.take(i as int).push(
                self.fields@[i as int],
            ));
            i = i + 1;
        }
        assert(self.fields@.take(i as int) =~= self.fields@);
        AnnotationDecl { annotations: clone_tokens(&self.annotations), name: self.name, fields }
    }
}

impl Clone for Stmt {
    fn clone(&self) -> (copy: Self)
        ensures
            copy@ == self@,
    {
        match self {
            Stmt::Comment(comment) => Stmt::Comment(comment.clone()),
            Stmt::PackageStmt(package) => Stmt::PackageStmt(package.clone()),
            Stmt::ImportStmt(import) => Stmt::ImportStmt(import.clone()),
            Stmt::ConstructorDecl(decl) => Stmt::ConstructorDecl(decl.clone()),
            Stmt::StructDecl(decl) => Stmt::StructDecl(decl.clone()),
            Stmt::AnnotationDecl(decl) => Stmt::AnnotationDecl(decl.clone()),
            Stmt::Eof => Stmt::Eof,
        }
    }
}

impl Clone for Ast {
    fn clone(&self) -> (copy: Self)
        ensures
            copy@ == self@,
    {
        let mut stmts: Vec<Stmt> = Vec::new();
        let mut i: usize = 0;
        while i < self.stmts.len()
            invariant
                i <= self.stmts.len(),
                stmts.len() == i,
                forall|j: int| 0 <= j < i ==> stmts@[j]@ == self.stmts@[j]@,
            decreases self.stmts.len() - i,
        {
            stmts.push(self.stmts[i].clone());
            i = i + 1;
        }
        let copy = Ast { stmts };
        assert(copy@ =~= self@);
        copy
    }
}

} // verus!
