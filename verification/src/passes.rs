//! The duplicate-name pass: every declaration of a file is visited, the
//! first declaration of each name is recorded, and every later one is
//! reported. The pass never stops early.

use crate::ast::{
    AliasDecl, AnnotationDecl, Ast, Comment, ConstructorDecl, FieldDecl, FieldSetDecl, ImportStmt,
    PackageStmt, StmtView, StructDecl,
};
use crate::diagnostics::{report_duplicate_identifier, DiagnosticView, Emitter};
use crate::error::SemanticError;
use crate::grammar::{
    expect, lemma_next_token, lemma_stmt, next_token, parse_annotation_decl, parse_annotations,
    parse_decl, parse_import, parse_named_block, parse_package, parse_stmt, parse_stmts,
    parse_text, Outcome, Parsed, Source,
};
use crate::interner::Interner;
use crate::symbol::spelling;
use crate::symbols::{Symbol, SymbolTable};
use crate::token::{Token, TokenKind};
use crate::visitor::{run, visits, walk, Visit, Visitor};
use vstd::prelude::*;
use vstd::string::*;

verus! {

/// The name that a statement declares, if it declares one.
pub open spec fn declared_name(stmt: StmtView) -> Option<Token> {
    match stmt {
        StmtView::Constructor(decl) => Some(decl.name),
        StmtView::Struct(decl) => Some(decl.name),
        StmtView::Annotation(decl) => Some(decl.name),
        _ => None,
    }
}

/// Whether the name at place `i` of `names` is spelled as an earlier one.
pub open spec fn repeats(text: Seq<u8>, names: Seq<Token>, i: int) -> bool {
    exists|j: int|
        0 <= j < i && spelling(text, (#[trigger] names[j]).span) == spelling(text, names[i].span)
}

/// The names that are the first of their spelling, in order.
pub open spec fn first_names(text: Seq<u8>, names: Seq<Token>) -> Seq<Token>
    decreases names.len(),
{
    if names.len() == 0 {
        Seq::empty()
    } else if repeats(text, names, names.len() - 1) {
        first_names(text, names.drop_last())
    } else {
        first_names(text, names.drop_last()).push(names.last())
    }
}

/// The names that are spelled as an earlier one, in order.
pub open spec fn repeated_names(text: Seq<u8>, names: Seq<Token>) -> Seq<Token>
    decreases names.len(),
{
    if names.len() == 0 {
        Seq::empty()
    } else if repeats(text, names, names.len() - 1) {
        repeated_names(text, names.drop_last()).push(names.last())
    } else {
        repeated_names(text, names.drop_last())
    }
}

/// One report for each repeated name, in order.
pub open spec fn duplicate_reports(text: Seq<u8>, names: Seq<Token>) -> Seq<DiagnosticView> {
    let repeated = repeated_names(text, names);
    Seq::new(repeated.len(), |i: int| report_duplicate_identifier(repeated[i]))
}

/// What the pass has seen: the text, every name that was declared in it,
/// in order, and what had been reported before the pass began.
pub struct PassState {
    pub text: Seq<u8>,
    pub seen: Seq<Token>,
    pub base: Seq<DiagnosticView>,
}

/// The state after the name `name` was declared. A name that does not lie
/// in the text declares nothing.
pub open spec fn declare(state: PassState, name: Token) -> PassState {
    if name.span.within(state.text.len() as int) {
        PassState { seen: state.seen.push(name), ..state }
    } else {
        state
    }
}

/// The pass as a visitor of the tree.
pub struct SymbolTablePass<'i, E: Emitter> {
    pub symbols: SymbolTable<'i>,
    pub emitter: E,
    /// The first declaration of each name, in order.
    pub names: Vec<Token>,
    /// The declarations that repeat a name, in order.
    pub duplicates: Vec<Token>,
    pub seen: Ghost<Seq<Token>>,
    pub base: Ghost<Seq<DiagnosticView>>,
}

impl<'i, E: Emitter> SymbolTablePass<'i, E> {
    /// A pass over the declarations of `input` that has seen nothing yet.
    pub fn new(input: &'i str, emitter: E) -> (pass: Self)
        ensures
            pass.wf(),
            pass.state() == (PassState {
                text: input.spec_bytes(),
                seen: Seq::empty(),
                base: emitter.emitted(),
            }),
            pass.emitter == emitter,
            pass.names@ == Seq::<Token>::empty(),
            pass.duplicates@ == Seq::<Token>::empty(),
    {
        let pass = SymbolTablePass {
            symbols: SymbolTable::new(Interner::new(input)),
            emitter,
            names: Vec::new(),
            duplicates: Vec::new(),
            seen: Ghost(Seq::empty()),
            base: Ghost(emitter.emitted()),
        };
        assert(duplicate_reports(pass.symbols.bytes(), pass.seen@) =~= Seq::empty());
        assert(pass.base@ + Seq::<DiagnosticView>::empty() =~= pass.base@);
        pass
    }

    /// Records the declaration of `name`: the first of its spelling is
    /// bound to `symbol`, a later one is reported.
    fn declare(&mut self, name: Token, symbol: Symbol)
        requires
            old(self).wf(),
        ensures
            final(self).wf(),
            final(self).state() == declare(old(self).state(), name),
    {
        let len = self.symbols.interner.input.as_bytes().len();
        if name.span.start <= name.span.end && name.span.end <= len {
            let ghost text = self.symbols.bytes();
            let ghost seen = self.seen@;
            let ghost next = seen.push(name);
            proof {
                assert(next.drop_last() =~= seen);
                assert(repeats(text, next, seen.len() as int) <==> self.symbols.bound(
                    spelling(text, name.span),
                ) is Some) by {
                    if repeats(text, next, seen.len() as int) {
                        let j = choose|j: int|
                            0 <= j < seen.len() && spelling(text, (#[trigger] next[j]).span)
                                == spelling(text, next[seen.len() as int].span);
                        assert(spelling(text, seen[j].span) == spelling(text, name.span));
                    }
                    if self.symbols.bound(spelling(text, name.span)) is Some {
                        let j = choose|j: int|
                            0 <= j < seen.len() && spelling(text, (#[trigger] seen[j]).span)
                                == spelling(text, name.span);
                        assert(spelling(text, next[j].span) == spelling(
                            text,
                            next[seen.len() as int].span,
                        ));
                    }
                }
            }
            if self.symbols.contains(&name) {
                self.emitter.emit_duplicate_identifier(name);
                self.duplicates.push(name);
                proof {
                    let before = repeated_names(text, seen);
                    assert(duplicate_reports(text, next) =~= duplicate_reports(text, seen).push(
                        report_duplicate_identifier(name),
                    ));
                    assert(self.base@ + duplicate_reports(text, next) =~= (self.base@
                        + duplicate_reports(text, seen)).push(report_duplicate_identifier(name)));
                }
            } else {
                self.symbols.insert(&name, symbol);
                self.names.push(name);
            }
            proof {
                self.seen@ = next;
                assert forall|word: Seq<u8>|
                    self.symbols.bound(word) is Some <==> (exists|i: int|
                        0 <= i < next.len() && spelling(text, (#[trigger] next[i]).span) == word) by {
                    if self.symbols.bound(word) is Some {
                        if word == spelling(text, name.span) {
                            assert(spelling(text, next[seen.len() as int].span) == word);
                        } else {
                            let i = choose|i: int|
                                0 <= i < seen.len() && spelling(text, (#[trigger] seen[i]).span)
                                    == word;
                            assert(spelling(text, next[i].span) == word);
                        }
                    }
                    if exists|i: int|
                        0 <= i < next.len() && spelling(text, (#[trigger] next[i]).span) == word {
                        let i = choose|i: int|
                            0 <= i < next.len() && spelling(text, (#[trigger] next[i]).span)
                                == word;
                        if i < seen.len() {
                            assert(spelling(text, seen[i].span) == word);
                        }
                    }
                }
            }
        }
    }

    /// Gives up the pass for what it found: the emitter it reported to, the
    /// first declaration of each name, and the declarations that repeat one.
    pub fn finish(self) -> (found: (E, Vec<Token>, Vec<Token>))
        requires
            self.wf(),
        ensures
            found.0 == self.emitter,
            found.1@ == first_names(self.state().text, self.state().seen),
            found.2@ == repeated_names(self.state().text, self.state().seen),
    {
        (self.emitter, self.names, self.duplicates)
    }
}

impl<'i, E: Emitter> Visitor for SymbolTablePass<'i, E> {
    type State = PassState;

    /// The table binds exactly the spellings seen, the lists are those of
    /// the names seen, and one report was made for each repeated name.
    open spec fn wf(&self) -> bool {
        &&& self.symbols.wf()
        &&& forall|i: int|
            0 <= i < self.seen@.len() ==> (#[trigger] self.seen@[i]).span.within(
                self.symbols.bytes().len() as int,
            )
        &&& self.names@ == first_names(self.symbols.bytes(), self.seen@)
        &&& self.duplicates@ == repeated_names(self.symbols.bytes(), self.seen@)
        &&& self.emitter.emitted() == self.base@ + duplicate_reports(
            self.symbols.bytes(),
            self.seen@,
        )
        &&& forall|word: Seq<u8>|
            self.symbols.bound(word) is Some <==> (exists|i: int|
                0 <= i < self.seen@.len() && spelling(
                    self.symbols.bytes(),
                    (#[trigger] self.seen@[i]).span,
                ) == word)
    }

    open spec fn state(&self) -> PassState {
        PassState { text: self.symbols.bytes(), seen: self.seen@, base: self.base@ }
    }

    open spec fn step(state: PassState, event: Visit) -> PassState {
        match event {
            Visit::ConstructorDecl(decl) => declare(state, decl.name),
            Visit::StructDecl(decl) => declare(state, decl.name),
            Visit::AnnotationDecl(decl) => declare(state, decl.name),
            _ => state,
        }
    }

    fn package(&mut self, decl: &PackageStmt)
        ensures
            final(self).state() == old(self).state(),
    {
    }

    fn import(&mut self, decl: &ImportStmt)
        ensures
            final(self).state() == old(self).state(),
    {
    }

    fn constructor_decl(&mut self, decl: &ConstructorDecl)
        ensures
            final(self).state() == declare(old(self).state(), decl.name),
    {
        self.declare(decl.name, Symbol::ConstructorDecl(decl.name));
    }

    fn struct_decl(&mut self, decl: &StructDecl)
        ensures
            final(self).state() == declare(old(self).state(), decl.name),
    {
        self.declare(decl.name, Symbol::StructDecl(decl.name));
    }

    fn repeatable_decl(&mut self, decl: &FieldSetDecl)
        ensures
            final(self).state() == old(self).state(),
    {
    }

    fn alias_decl(&mut self, decl: &AliasDecl)
        ensures
            final(self).state() == old(self).state(),
    {
    }

    fn field_decl(&mut self, decl: &FieldDecl)
        ensures
            final(self).state() == old(self).state(),
    {
    }

    fn annotation_decl(&mut self, decl: &AnnotationDecl)
        ensures
            final(self).state() == declare(old(self).state(), decl.name),
    {
        self.declare(decl.name, Symbol::AnnotationDecl(decl.name));
    }

    fn annotation_def(&mut self, def: &Token)
        ensures
            final(self).state() == old(self).state(),
    {
    }

    fn comment(&mut self, stmt: &Comment)
        ensures
            final(self).state() == old(self).state(),
    {
    }
}

/// The names that the statements declare and that lie in `text`, in order.
pub open spec fn declared_names(text: Seq<u8>, stmts: Seq<StmtView>) -> Seq<Token>
    decreases stmts.len(),
{
    if stmts.len() == 0 {
        Seq::empty()
    } else {
        let rest = declared_names(text, stmts.drop_last());
        match declared_name(stmts.last()) {
            Some(name) => if name.span.within(text.len() as int) {
                rest.push(name)
            } else {
                rest
            },
            None => rest,
        }
    }
}

/// Events that declare nothing leave the pass as it is.
proof fn lemma_run_idle<'i, E: Emitter>(state: PassState, events: Seq<Visit>)
    requires
        forall|i: int|
            0 <= i < events.len() ==> !(#[trigger] events[i] is ConstructorDecl) && !(events[i]
                is StructDecl) && !(events[i] is AnnotationDecl),
    ensures
        run::<SymbolTablePass<'i, E>>(state, events) == state,
    decreases events.len(),
{
    if events.len() > 0 {
        lemma_run_idle::<E>(state, events.drop_last());
    }
}

/// The pass sees of one statement the name that it declares.
proof fn lemma_run_stmt<'i, E: Emitter>(state: PassState, stmt: StmtView)
    ensures
        (run::<SymbolTablePass<'i, E>>(state, crate::visitor::visits_stmt(stmt)) == match declared_name(
            stmt,
        ) {
            Some(name) => declare(state, name),
            None => state,
        }),
{
    match stmt {
        StmtView::Constructor(decl) => {
            let head = seq![Visit::ConstructorDecl(decl)];
            let tail = crate::visitor::visits_annotations(decl.annotations)
                + crate::visitor::visits_block(decl.content);
            assert(crate::visitor::visits_stmt(stmt) =~= head + tail);
            crate::visitor::lemma_run_concat::<SymbolTablePass<'i, E>>(state, head, tail);
            crate::visitor::lemma_run_push::<SymbolTablePass<'i, E>>(
                state,
                Seq::empty(),
                Visit::ConstructorDecl(decl),
            );
            assert(Seq::<Visit>::empty().push(Visit::ConstructorDecl(decl)) =~= head);
            lemma_run_idle::<E>(declare(state, decl.name), tail);
        },
        StmtView::Eof => {},
        _ => {
            let events = crate::visitor::visits_stmt(stmt);
            crate::visitor::lemma_run_push::<SymbolTablePass<'i, E>>(
                state,
                Seq::empty(),
                events[0],
            );
            assert(Seq::<Visit>::empty().push(events[0]) =~= events);
        },
    }
}

/// The pass sees of a tree the names that its statements declare.
pub proof fn lemma_run_pass<'i, E: Emitter>(state: PassState, stmts: Seq<StmtView>)
    ensures
        run::<SymbolTablePass<'i, E>>(state, visits(stmts)) == (PassState {
            seen: state.seen + declared_names(state.text, stmts),
            ..state
        }),
    decreases stmts.len(),
{
    if stmts.len() == 0 {
        assert(state.seen + declared_names(state.text, stmts) =~= state.seen);
    } else {
        let front = stmts.drop_last();
        lemma_run_pass::<E>(state, front);
        let mid = PassState { seen: state.seen + declared_names(state.text, front), ..state };
        crate::visitor::lemma_run_concat::<SymbolTablePass<'i, E>>(
            state,
            visits(front),
            crate::visitor::visits_stmt(stmts.last()),
        );
        lemma_run_stmt::<E>(mid, stmts.last());
        match declared_name(stmts.last()) {
            Some(name) => {
                if name.span.within(state.text.len() as int) {
                    assert(mid.seen.push(name) =~= state.seen + declared_names(state.text, stmts));
                }
            },
            None => {},
        }
    }
}

/// The typed errors of the repeated names, in order.
pub open spec fn duplicate_errors(repeated: Seq<Token>) -> Seq<SemanticError> {
    Seq::new(repeated.len(), |i: int| SemanticError::DuplicateIdentifier { duplicate: repeated[i] })
}

/// What the pass finds in a tree.
pub struct Resolution<E> {
    /// Whether no name is declared twice.
    pub ok: bool,
    /// One error for each declaration that repeats a name, in order.
    pub errors: Vec<SemanticError>,
    /// The first declaration of each name, in order.
    pub names: Vec<Token>,
    /// The emitter, to which each error was reported.
    pub emitter: E,
}

/// Finds out whether every name of `ast`, a tree of the text `input`, is
/// declared once. Every repeated declaration is reported to `emitter`, in
/// the order of the text.
pub fn check_can_resolve_symbols<E: Emitter>(input: &str, ast: &Ast, emitter: E) -> (found:
    Resolution<E>)
    ensures
        found.ok == (repeated_names(
            input.spec_bytes(),
            declared_names(input.spec_bytes(), ast@),
        ).len() == 0),
        found.errors@ == duplicate_errors(
            repeated_names(input.spec_bytes(), declared_names(input.spec_bytes(), ast@)),
        ),
        found.names@ == first_names(
            input.spec_bytes(),
            declared_names(input.spec_bytes(), ast@),
        ),
        found.emitter.emitted() == emitter.emitted() + duplicate_reports(
            input.spec_bytes(),
            declared_names(input.spec_bytes(), ast@),
        ),
{
    let mut pass = SymbolTablePass::new(input, emitter);
    let ghost start = pass.state();
    walk(ast, &mut pass);
    proof {
        lemma_run_pass::<E>(start, ast@);
        assert(start.seen + declared_names(start.text, ast@) =~= declared_names(start.text, ast@));
    }
    let (emitter, names, duplicates) = pass.finish();
    let mut errors: Vec<SemanticError> = Vec::new();
    let mut i: usize = 0;
    while i < duplicates.len()
        invariant
            i <= duplicates@.len(),
            errors@ == duplicate_errors(duplicates@.take(i as int)),
        decreases duplicates.len() - i,
    {
        errors.push(SemanticError::DuplicateIdentifier { duplicate: duplicates[i] });
        assert(errors@ =~= duplicate_errors(duplicates@.take(i + 1)));
        i = i + 1;
    }
    assert(duplicates@.take(i as int) =~= duplicates@);
    Resolution { ok: duplicates.len() == 0, errors, names, emitter }
}

/// Every name is the first of its spelling or repeats an earlier one, and
/// there is one report for each name that repeats one.
pub proof fn law_every_name_is_first_or_repeated(text: Seq<u8>, names: Seq<Token>)
    ensures
        first_names(text, names).len() + repeated_names(text, names).len() == names.len(),
        duplicate_reports(text, names).len() == repeated_names(text, names).len(),
    decreases names.len(),
{
    if names.len() > 0 {
        law_every_name_is_first_or_repeated(text, names.drop_last());
    }
}

/// Where no two names are spelled alike, nothing is reported, and every
/// name is the first of its spelling.
pub proof fn law_unique_names_are_not_reported(text: Seq<u8>, names: Seq<Token>)
    requires
        forall|i: int, j: int|
            0 <= i < j < names.len() ==> spelling(text, names[i].span) != spelling(
                text,
                names[j].span,
            ),
    ensures
        duplicate_reports(text, names) == Seq::<DiagnosticView>::empty(),
        repeated_names(text, names) == Seq::<Token>::empty(),
        first_names(text, names) == names,
    decreases names.len(),
{
    if names.len() > 0 {
        let front = names.drop_last();
        assert forall|i: int, j: int| 0 <= i < j < front.len() implies spelling(
            text,
            front[i].span,
        ) != spelling(text, front[j].span) by {
            assert(front[i] == names[i] && front[j] == names[j]);
        }
        law_unique_names_are_not_reported(text, front);
        assert(!repeats(text, names, names.len() - 1));
        assert(first_names(text, names) =~= names);
    }
    assert(duplicate_reports(text, names) =~= Seq::<DiagnosticView>::empty());
}

/// Where exactly two names are spelled alike, exactly one report is made,
/// and it is made of the second of the two.
pub proof fn law_one_repeat_is_reported_once(text: Seq<u8>, names: Seq<Token>, first: int, second: int)
    requires
        0 <= first < second < names.len(),
        spelling(text, names[first].span) == spelling(text, names[second].span),
        forall|i: int, j: int|
            0 <= i < j < names.len() && !(i == first && j == second) ==> spelling(
                text,
                names[i].span,
            ) != spelling(text, names[j].span),
    ensures
        duplicate_reports(text, names) == seq![report_duplicate_identifier(names[second])],
        duplicate_reports(text, names)[0].span == Some(names[second].span),
        repeated_names(text, names) == seq![names[second]],
    decreases names.len(),
{
    let last = names.len() - 1;
    let front = names.drop_last();
    if second == last {
        assert forall|i: int, j: int| 0 <= i < j < front.len() implies spelling(
            text,
            front[i].span,
        ) != spelling(text, front[j].span) by {
            assert(front[i] == names[i] && front[j] == names[j]);
        }
        law_unique_names_are_not_reported(text, front);
        assert(repeats(text, names, last));
        assert(repeated_names(text, names) =~= seq![names[second]]);
    } else {
        assert forall|i: int, j: int|
            0 <= i < j < front.len() && !(i == first && j == second) implies spelling(
            text,
            front[i].span,
        ) != spelling(text, front[j].span) by {
            assert(front[i] == names[i] && front[j] == names[j]);
        }
        assert(front[first] == names[first] && front[second] == names[second]);
        law_one_repeat_is_reported_once(text, front, first, second);
        assert(!repeats(text, names, last));
    }
    assert(duplicate_reports(text, names) =~= seq![report_duplicate_identifier(names[second])]);
}

/// The names that the statements declare, in order.
pub open spec fn names_of(stmts: Seq<StmtView>) -> Seq<Token>
    decreases stmts.len(),
{
    if stmts.len() == 0 {
        Seq::empty()
    } else {
        match declared_name(stmts.last()) {
            Some(name) => names_of(stmts.drop_last()).push(name),
            None => names_of(stmts.drop_last()),
        }
    }
}

/// The name that the statement declares, if any, lies in a text of `len`
/// bytes.
pub open spec fn name_lies_in(stmt: StmtView, len: int) -> bool {
    match declared_name(stmt) {
        Some(name) => name.span.within(len),
        None => true,
    }
}

/// The name of a declaration that was parsed lies in the text.
proof fn lemma_decl_name(src: Source, pos: int, keyword: TokenKind, annotations: Seq<Token>)
    requires
        0 <= pos <= src.text.len() <= usize::MAX,
    ensures
        (parse_decl(src, pos, keyword, annotations) matches Parsed::Read { value, pos: p }
            ==> name_lies_in(value, src.text.len() as int)),
{
    reveal(parse_decl);
    reveal(parse_named_block);
    reveal(parse_annotation_decl);
    lemma_next_token(src, pos);
}

proof fn lemma_annotations_name(src: Source, pos: int, annotations: Seq<Token>)
    requires
        0 <= pos <= src.text.len() <= usize::MAX,
    ensures
        (parse_annotations(src, pos, annotations) matches Parsed::Read { value, pos: p }
            ==> name_lies_in(value, src.text.len() as int)),
    decreases src.text.len() - pos,
{
    lemma_next_token(src, pos);
    match expect(src, pos, TokenKind::Ident) {
        Parsed::Read { value: name, pos: p } => {
            lemma_next_token(src, p);
            match next_token(src, p) {
                Parsed::Read { value: token, pos: q } => {
                    if token.kind == TokenKind::At {
                        lemma_annotations_name(src, q, annotations.push(name));
                    } else {
                        lemma_decl_name(src, q, token.kind, annotations.push(name));
                    }
                },
                Parsed::Stop { report, at } => {},
            }
        },
        Parsed::Stop { report, at } => {},
    }
}

proof fn lemma_stmt_name(src: Source, pos: int)
    requires
        0 <= pos <= src.text.len() <= usize::MAX,
    ensures
        (parse_stmt(src, pos) matches Parsed::Read { value, pos: p } ==> name_lies_in(
            value,
            src.text.len() as int,
        )),
{
    reveal(parse_stmt);
    reveal(parse_import);
    lemma_next_token(src, pos);
    match next_token(src, pos) {
        Parsed::Read { value: token, pos: p } => {
            lemma_annotations_name(src, p, Seq::empty());
            lemma_decl_name(src, p, token.kind, Seq::empty());
            lemma_package_name(src, p, Seq::empty());
        },
        Parsed::Stop { report, at } => {},
    }
}

proof fn lemma_package_name(src: Source, pos: int, segments: Seq<Token>)
    requires
        0 <= pos <= src.text.len() <= usize::MAX,
    ensures
        (parse_package(src, pos, segments) matches Parsed::Read { value, pos: p } ==> declared_name(
            value,
        ) is None),
    decreases src.text.len() - pos,
{
    lemma_next_token(src, pos);
    match expect(src, pos, TokenKind::Ident) {
        Parsed::Read { value: segment, pos: p } => {
            lemma_next_token(src, p);
            match next_token(src, p) {
                Parsed::Read { value: token, pos: q } => {
                    if token.kind == TokenKind::Period {
                        lemma_package_name(src, q, segments.push(segment));
                    }
                },
                Parsed::Stop { report, at } => {},
            }
        },
        Parsed::Stop { report, at } => {},
    }
}

proof fn lemma_stmts_names(src: Source, pos: int, stmts: Seq<StmtView>)
    requires
        0 <= pos <= src.text.len() <= usize::MAX,
        forall|i: int| 0 <= i < stmts.len() ==> name_lies_in(#[trigger] stmts[i], src.text.len() as int),
    ensures
        (parse_stmts(src, pos, stmts) matches Outcome::Tree { stmts: all } ==> forall|i: int|
            0 <= i < all.len() ==> name_lies_in(#[trigger] all[i], src.text.len() as int)),
    decreases src.text.len() - pos,
{
    lemma_stmt(src, pos);
    lemma_stmt_name(src, pos);
    match parse_stmt(src, pos) {
        Parsed::Read { value: stmt, pos: p } => {
            if stmt != StmtView::Eof {
                lemma_stmts_names(src, p, stmts.push(stmt));
            }
        },
        Parsed::Stop { report, at } => {},
    }
}

/// Names that all lie in the text are all declared.
proof fn lemma_declared_names_all(text: Seq<u8>, stmts: Seq<StmtView>)
    requires
        forall|i: int| 0 <= i < stmts.len() ==> name_lies_in(#[trigger] stmts[i], text.len() as int),
    ensures
        declared_names(text, stmts) == names_of(stmts),
    decreases stmts.len(),
{
    if stmts.len() > 0 {
        let front = stmts.drop_last();
        assert forall|i: int| 0 <= i < front.len() implies name_lies_in(
            #[trigger] front[i],
            text.len() as int,
        ) by {
            assert(front[i] == stmts[i]);
        }
        lemma_declared_names_all(text, front);
        assert(name_lies_in(stmts[stmts.len() - 1], text.len() as int));
    }
}

/// In the tree of a text every declared name lies in the text: the pass
/// over it sees the name of every declaration.
pub proof fn law_parsed_names_lie_in_the_text(src: Source)
    requires
        src.text.len() <= usize::MAX,
    ensures
        (parse_text(src) matches Outcome::Tree { stmts } ==> declared_names(src.text, stmts)
            == names_of(stmts)),
{
    lemma_stmts_names(src, 0, Seq::empty());
    match parse_text(src) {
        Outcome::Tree { stmts } => {
            lemma_declared_names_all(src.text, stmts);
        },
        Outcome::Failed { report, at } => {},
    }
}

} // verus!
