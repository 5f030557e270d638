//! Walking a tree: a visitor is shown the nodes in the order of the text.
//!
//! A visitor has one method for each kind of node. What it makes of a node
//! is its own business, but it must say so: its `state` is a mathematical
//! value, and `step` says what the state is after a node was seen. `walk`
//! then promises the state after the whole tree.

use crate::ast::{
    AliasDecl, AnnotationDecl, AnnotationView, Ast, BlockDecl, BlockView, Comment,
    ConstructorDecl, DeclView, FieldDecl, FieldSetDecl, ImportStmt, PackageStmt, Stmt, StmtView,
    StructDecl,
};
use crate::token::Token;
use vstd::prelude::*;

verus! {

/// One call of a visitor: the node it is shown.
pub enum Visit {
    Package(Seq<Token>),
    Import(Token),
    ConstructorDecl(DeclView),
    StructDecl(DeclView),
    RepeatableDecl(Seq<FieldDecl>),
    AliasDecl(AliasDecl),
    FieldDecl(FieldDecl),
    AnnotationDecl(AnnotationView),
    AnnotationDef(Token),
    Comment(Token),
}

/// A pass over the tree.
pub trait Visitor: Sized {
    /// What the visitor has gathered, as a mathematical value.
    type State;

    /// What the visitor needs to hold of itself between two calls.
    spec fn wf(&self) -> bool;

    spec fn state(&self) -> Self::State;

    /// The state after `event`, for a visitor that was in `state`.
    spec fn step(state: Self::State, event: Visit) -> Self::State;

    fn package(&mut self, decl: &PackageStmt)
        requires
            old(self).wf(),
        ensures
            final(self).wf(),
            final(self).state() == Self::step(old(self).state(), Visit::Package(decl@)),
    ;

    fn import(&mut self, decl: &ImportStmt)
        requires
            old(self).wf(),
        ensures
            final(self).wf(),
            final(self).state() == Self::step(old(self).state(), Visit::Import(decl.path)),
    ;

    fn constructor_decl(&mut self, decl: &ConstructorDecl)
        requires
            old(self).wf(),
        ensures
            final(self).wf(),
            final(self).state() == Self::step(old(self).state(), Visit::ConstructorDecl(decl@)),
    ;

    fn struct_decl(&mut self, decl: &StructDecl)
        requires
            old(self).wf(),
        ensures
            final(self).wf(),
            final(self).state() == Self::step(old(self).state(), Visit::StructDecl(decl@)),
    ;

    fn repeatable_decl(&mut self, decl: &FieldSetDecl)
        requires
            old(self).wf(),
        ensures
            final(self).wf(),
            final(self).state() == Self::step(old(self).state(), Visit::RepeatableDecl(decl@)),
    ;

    fn alias_decl(&mut self, decl: &AliasDecl)
        requires
            old(self).wf(),
        ensures
            final(self).wf(),
            final(self).state() == Self::step(old(self).state(), Visit::AliasDecl(*decl)),
    ;

    fn field_decl(&mut self, decl: &FieldDecl)
        requires
            old(self).wf(),
        ensures
            final(self).wf(),
            final(self).state() == Self::step(old(self).state(), Visit::FieldDecl(*decl)),
    ;

    fn annotation_decl(&mut self, decl: &AnnotationDecl)
        requires
            old(self).wf(),
        ensures
            final(self).wf(),
            final(self).state() == Self::step(old(self).state(), Visit::AnnotationDecl(decl@)),
    ;

    fn annotation_def(&mut self, def: &Token)
        requires
            old(self).wf(),
        ensures
            final(self).wf(),
            final(self).state() == Self::step(old(self).state(), Visit::AnnotationDef(*def)),
    ;

    fn comment(&mut self, stmt: &Comment)
        requires
            old(self).wf(),
        ensures
            final(self).wf(),
            final(self).state() == Self::step(old(self).state(), Visit::Comment(stmt.value)),
    ;
}

/// The state of a visitor that was in `state` and has been shown `events`,
/// first to last.
pub open spec fn run<V: Visitor>(state: V::State, events: Seq<Visit>) -> V::State
    decreases events.len(),
{
    if events.len() == 0 {
        state
    } else {
        V::step(run::<V>(state, events.drop_last()), events.last())
    }
}

/// Events shown one after the other are shown as one list.
pub proof fn lemma_run_concat<V: Visitor>(state: V::State, first: Seq<Visit>, second: Seq<Visit>)
    ensures
        run::<V>(state, first + second) == run::<V>(run::<V>(state, first), second),
    decreases second.len(),
{
    if second.len() == 0 {
        assert(first + second =~= first);
    } else {
        lemma_run_concat::<V>(state, first, second.drop_last());
        assert((first + second).drop_last() =~= first + second.drop_last());
        assert((first + second).last() == second.last());
    }
}

/// One event more.
pub proof fn lemma_run_push<V: Visitor>(state: V::State, events: Seq<Visit>, event: Visit)
    ensures
        run::<V>(state, events.push(event)) == V::step(run::<V>(state, events), event),
{
    assert(events.push(event).drop_last() =~= events);
}

/// The fields of a field set, each shown once.
pub open spec fn visits_fields(fields: Seq<FieldDecl>) -> Seq<Visit> {
    Seq::new(fields.len(), |i: int| Visit::FieldDecl(fields[i]))
}

/// The annotations in front of a declaration, each shown once.
pub open spec fn visits_annotations(annotations: Seq<Token>) -> Seq<Visit> {
    Seq::new(annotations.len(), |i: int| Visit::AnnotationDef(annotations[i]))
}

/// A block: an alias is shown as such; a repeatable block is shown, then
/// its fields; a plain field set is shown field by field.
pub open spec fn visits_block(block: BlockView) -> Seq<Visit> {
    match block {
        BlockView::Alias(alias) => seq![Visit::AliasDecl(alias)],
        BlockView::Repeatable(fields) => seq![Visit::RepeatableDecl(fields)] + visits_fields(fields),
        BlockView::FieldSet(fields) => visits_fields(fields),
    }
}

/// A constructor: the declaration, its annotations, its block.
pub open spec fn visits_constructor(decl: DeclView) -> Seq<Visit> {
    seq![Visit::ConstructorDecl(decl)] + visits_annotations(decl.annotations) + visits_block(
        decl.content,
    )
}

/// One statement. Only a constructor is walked into.
pub open spec fn visits_stmt(stmt: StmtView) -> Seq<Visit> {
    match stmt {
        StmtView::Comment(value) => seq![Visit::Comment(value)],
        StmtView::Package(segments) => seq![Visit::Package(segments)],
        StmtView::Import(path) => seq![Visit::Import(path)],
        StmtView::Constructor(decl) => visits_constructor(decl),
        StmtView::Struct(decl) => seq![Visit::StructDecl(decl)],
        StmtView::Annotation(decl) => seq![Visit::AnnotationDecl(decl)],
        StmtView::Eof => Seq::empty(),
    }
}

/// A whole tree: its statements in order.
pub open spec fn visits(stmts: Seq<StmtView>) -> Seq<Visit>
    decreases stmts.len(),
{
    if stmts.len() == 0 {
        Seq::empty()
    } else {
        visits(stmts.drop_last()) + visits_stmt(stmts.last())
    }
}

/// Shows `visitor` every node of `ast`.
pub fn walk<V: Visitor>(ast: &Ast, visitor: &mut V)
    requires
        old(visitor).wf(),
    ensures
        final(visitor).wf(),
        final(visitor).state() == run::<V>(old(visitor).state(), visits(ast@)),
{
    let mut i: usize = 0;
    assert(ast@.take(0) =~= Seq::empty());
    while i < ast.stmts.len()
        invariant
            i <= ast.stmts@.len(),
            visitor.wf(),
            visitor.state() == run::<V>(old(visitor).state(), visits(ast@.take(i as int))),
        decreases ast.stmts.len() - i,
    {
        let ghost before = visitor.state();
        let ghost seen = visits(ast@.take(i as int));
        let stmt = &ast.stmts[i];
        match stmt {
            Stmt::PackageStmt(stmt) => {
                visitor.package(stmt);
                proof {
                    lemma_run_push::<V>(before, Seq::empty(), Visit::Package(stmt@));
                }
            },
            Stmt::ImportStmt(stmt) => {
                visitor.import(stmt);
                proof {
                    lemma_run_push::<V>(before, Seq::empty(), Visit::Import(stmt.path));
                }
            },
            Stmt::ConstructorDecl(stmt) => constructor_decl(visitor, stmt),
            Stmt::StructDecl(stmt) => {
                visitor.struct_decl(stmt);
                proof {
                    lemma_run_push::<V>(before, Seq::empty(), Visit::StructDecl(stmt@));
                }
            },
            Stmt::AnnotationDecl(stmt) => {
                visitor.annotation_decl(stmt);
                proof {
                    lemma_run_push::<V>(before, Seq::empty(), Visit::AnnotationDecl(stmt@));
                }
            },
            Stmt::Comment(stmt) => {
                visitor.comment(stmt);
                proof {
                    lemma_run_push::<V>(before, Seq::empty(), Visit::Comment(stmt.value));
                }
            },
            Stmt::Eof => {},
        }
        proof {
            let next = ast@.take(i + 1);
            assert(next.drop_last() =~= ast@.take(i as int));
            assert(next.last() == ast.stmts@[i as int]@);
            assert(visitor.state() == run::<V>(before, visits_stmt(stmt@)));
            lemma_run_concat::<V>(old(visitor).state(), seen, visits_stmt(stmt@));
        }
        i = i + 1;
    }
    assert(ast@.take(i as int) =~= ast@);
}

impl Ast {
    /// Shows `visitor` every node of the tree.
    pub fn walk<V: Visitor>(&self, visitor: &mut V)
        requires
            old(visitor).wf(),
        ensures
            final(visitor).wf(),
            final(visitor).state() == run::<V>(old(visitor).state(), visits(self@)),
    {
        walk(self, visitor)
    }
}

/// Shows `visitor` a constructor: the declaration, its annotations, its
/// block.
pub fn constructor_decl<V: Visitor>(visitor: &mut V, decl: &ConstructorDecl)
    requires
        old(visitor).wf(),
    ensures
        final(visitor).wf(),
        final(visitor).state() == run::<V>(old(visitor).state(), visits_constructor(decl@)),
{
    visitor.constructor_decl(decl);
    let ghost head = seq![Visit::ConstructorDecl(decl@)];
    proof {
        lemma_run_push::<V>(old(visitor).state(), Seq::empty(), Visit::ConstructorDecl(decl@));
        assert(Seq::<Visit>::empty().push(Visit::ConstructorDecl(decl@)) =~= head);
    }
    let mut i: usize = 0;
    assert(visits_annotations(decl.annotations@.take(0)) =~= Seq::empty());
    assert(head + Seq::<Visit>::empty() =~= head);
    while i < decl.annotations.len()
        invariant
            i <= decl.annotations@.len(),
            visitor.wf(),
            head == seq![Visit::ConstructorDecl(decl@)],
            visitor.state() == run::<V>(
                old(visitor).state(),
                head + visits_annotations(decl.annotations@.take(i as int)),
            ),
        decreases decl.annotations.len() - i,
    {
        let ghost seen = head + visits_annotations(decl.annotations@.take(i as int));
        visitor.annotation_def(&decl.annotations[i]);
        proof {
            lemma_run_push::<V>(
                old(visitor).state(),
                seen,
                Visit::AnnotationDef(decl.annotations@[i as int]),
            );
            assert(seen.push(Visit::AnnotationDef(decl.annotations@[i as int])) =~= head
                + visits_annotations(decl.annotations@.take(i + 1)));
        }
        i = i + 1;
    }
    assert(decl.annotations@.take(i as int) =~= decl.annotations@);
    block_decl(visitor, &decl.content);
    proof {
        lemma_run_concat::<V>(
            old(visitor).state(),
            head + visits_annotations(decl.annotations@),
            visits_block(decl.content@),
        );
    }
}

/// Shows `visitor` a block.
pub fn block_decl<V: Visitor>(visitor: &mut V, decl: &BlockDecl)
    requires
        old(visitor).wf(),
    ensures
        final(visitor).wf(),
        final(visitor).state() == run::<V>(old(visitor).state(), visits_block(decl@)),
{
    match decl {
        BlockDecl::Alias(decl) => alias_decl(visitor, decl),
        BlockDecl::Repeatable(decl) => repeatable_decl(visitor, decl),
        BlockDecl::FieldSet(decl) => field_set_decl(visitor, decl),
    }
}

/// Shows `visitor` an alias.
pub fn alias_decl<V: Visitor>(visitor: &mut V, alias: &AliasDecl)
    requires
        old(visitor).wf(),
    ensures
        final(visitor).wf(),
        final(visitor).state() == run::<V>(old(visitor).state(), seq![Visit::AliasDecl(*alias)]),
{
    visitor.alias_decl(alias);
    proof {
        lemma_run_push::<V>(old(visitor).state(), Seq::empty(), Visit::AliasDecl(*alias));
        assert(Seq::<Visit>::empty().push(Visit::AliasDecl(*alias)) =~= seq![
            Visit::AliasDecl(*alias),
        ]);
    }
}

/// Shows `visitor` a repeatable block, then its fields.
pub fn repeatable_decl<V: Visitor>(visitor: &mut V, field_set: &FieldSetDecl)
    requires
        old(visitor).wf(),
    ensures
        final(visitor).wf(),
        final(visitor).state() == run::<V>(
            old(visitor).state(),
            seq![Visit::RepeatableDecl(field_set@)] + visits_fields(field_set@),
        ),
{
    visitor.repeatable_decl(field_set);
    let ghost head = seq![Visit::RepeatableDecl(field_set@)];
    proof {
        lemma_run_push::<V>(old(visitor).state(), Seq::empty(), Visit::RepeatableDecl(field_set@));
        assert(Seq::<Visit>::empty().push(Visit::RepeatableDecl(field_set@)) =~= head);
    }
    field_set_decl(visitor, field_set);
    proof {
        lemma_run_concat::<V>(old(visitor).state(), head, visits_fields(field_set@));
    }
}

/// Shows `visitor` the fields of a field set, in order.
pub fn field_set_decl<V: Visitor>(visitor: &mut V, field_set: &FieldSetDecl)
    requires
        old(visitor).wf(),
    ensures
        final(visitor).wf(),
        final(visitor).state() == run::<V>(old(visitor).state(), visits_fields(field_set@)),
{
    let mut i: usize = 0;
    assert(visits_fields(field_set@.take(0)) =~= Seq::empty());
    while i < field_set.fields.len()
        invariant
            i <= field_set.fields@.len(),
            visitor.wf(),
            visitor.state() == run::<V>(
                old(visitor).state(),
                visits_fields(field_set@.take(i as int)),
            ),
        decreases field_set.fields.len() - i,
    {
        let ghost seen = visits_fields(field_set@.take(i as int));
        field_type_decl(visitor, &field_set.fields[i]);
        proof {
            lemma_run_push::<V>(
                old(visitor).state(),
                seen,
                Visit::FieldDecl(field_set.fields@[i as int]),
            );
            assert(seen.push(Visit::FieldDecl(field_set.fields@[i as int])) =~= visits_fields(
                field_set@.take(i + 1),
            ));
        }
        i = i + 1;
    }
    assert(field_set@.take(i as int) =~= field_set@);
}

/// Shows `visitor` one field.
pub fn field_type_decl<V: Visitor>(visitor: &mut V, field: &FieldDecl)
    requires
        old(visitor).wf(),
    ensures
        final(visitor).wf(),
        final(visitor).state() == V::step(old(visitor).state(), Visit::FieldDecl(*field)),
{
    visitor.field_decl(field);
}

} // verus!
