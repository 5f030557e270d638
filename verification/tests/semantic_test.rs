use hamlc::ast::{
    AliasDecl, AnnotationDecl, Ast, Comment, ConstructorDecl, FieldDecl, FieldSetDecl,
    ImportStmt, PackageStmt, StructDecl,
};
use hamlc::db::Database;
use hamlc::diagnostics::Diagnostics;
use hamlc::error::SemanticError;
use hamlc::interner::Interner;
use hamlc::passes::check_can_resolve_symbols;
use hamlc::span::Span;
use hamlc::symbol::{same_spelling, span};
use hamlc::symbols::{Symbol, SymbolTable};
use hamlc::testing::TestContext;
use hamlc::token::{Token, TokenKind};
use hamlc::visitor::{walk, Visit, Visitor};

fn ident(ctx: &TestContext, start: usize, end: usize) -> Token {
    Token::new(TokenKind::Ident, Span::new(start, end, ctx.file))
}

#[test]
fn the_interner_numbers_spellings_in_order_of_first_appearance() {
    let text = "foo bar foo baz bar é";
    let ctx = TestContext::new(Database::default(), text);
    let mut interner = Interner::new(text);
    assert_eq!(interner.intern(&ident(&ctx, 0, 3)), 0);
    assert_eq!(interner.intern(&ident(&ctx, 4, 7)), 1);
    assert_eq!(interner.intern(&ident(&ctx, 8, 11)), 0);
    assert_eq!(interner.intern(&ident(&ctx, 12, 15)), 2);
    assert_eq!(interner.intern(&ident(&ctx, 16, 19)), 1);
    assert_eq!(interner.intern(&ident(&ctx, 0, 3)), 0);
    assert_eq!(interner.intern(&ident(&ctx, 0, 2)), 3);
    assert_eq!(interner.intern(&ident(&ctx, 5, 5)), 4);
    assert_eq!(interner.intern(&ident(&ctx, 9, 9)), 4);
    assert_eq!(interner.intern(&ident(&ctx, 21, 22)), 5);

    assert_eq!(interner.lookup(0), Some("foo"));
    assert_eq!(interner.lookup(1), Some("bar"));
    assert_eq!(interner.lookup(2), Some("baz"));
    assert_eq!(interner.lookup(3), Some("fo"));
    assert_eq!(interner.lookup(4), Some(""));
    // Half a character is no text.
    assert_eq!(interner.lookup(5), None);
    assert_eq!(interner.lookup(6), None);
    assert_eq!(interner.first_seen(1), Some(Span::new(4, 7, ctx.file)));
    assert_eq!(interner.first_seen(5), Some(Span::new(21, 22, ctx.file)));
    assert_eq!(interner.first_seen(6), None);
}

#[test]
fn spellings_are_compared_byte_by_byte() {
    let text = b"abc abd abc ab";
    let file = TestContext::new(Database::default(), "").file;
    assert!(same_spelling(text, Span::new(0, 3, file), Span::new(8, 11, file)));
    assert!(same_spelling(text, Span::new(0, 3, file), Span::new(0, 3, file)));
    assert!(!same_spelling(text, Span::new(0, 3, file), Span::new(4, 7, file)));
    assert!(!same_spelling(text, Span::new(0, 3, file), Span::new(12, 14, file)));
    assert!(same_spelling(text, Span::new(0, 2, file), Span::new(12, 14, file)));
    assert!(same_spelling(text, Span::new(1, 1, file), Span::new(14, 14, file)));
}

#[test]
fn the_text_of_a_token_is_its_span_of_the_input() {
    let text = "package é;";
    let ctx = TestContext::new(Database::default(), text);
    assert_eq!(span(text, &ident(&ctx, 0, 7)), Some("package"));
    assert_eq!(span(text, &ident(&ctx, 8, 10)), Some("é"));
    assert_eq!(span(text, &ident(&ctx, 8, 9)), None);
    assert_eq!(span(text, &ident(&ctx, 3, 2)), None);
    assert_eq!(span(text, &ident(&ctx, 0, 12)), None);
}

#[test]
fn the_symbol_table_keeps_the_first_declaration() {
    let text = "foo bar foo";
    let ctx = TestContext::new(Database::default(), text);
    let mut table = SymbolTable::new(Interner::new(text));
    let first = ident(&ctx, 0, 3);
    let other = ident(&ctx, 4, 7);
    let second = ident(&ctx, 8, 11);

    assert!(!table.contains(&first));
    assert!(table.insert(&first, Symbol::StructDecl(first)));
    assert!(table.contains(&first));
    assert!(table.contains(&second));
    assert!(!table.contains(&other));

    assert!(!table.insert(&second, Symbol::ConstructorDecl(second)));
    assert_eq!(table.symbols.len(), 1);
    assert_eq!(table.symbols.get(&0), Some(&Symbol::StructDecl(first)));

    assert!(table.insert(&other, Symbol::AnnotationDecl(other)));
    assert!(table.contains(&other));
    assert_eq!(table.symbols.len(), 2);
}

fn parse(ctx: &TestContext) -> Ast {
    let mut parser = ctx.parser();
    parser.parse().unwrap()
}

#[test]
fn every_repeated_declaration_is_an_error() {
    let text = "struct a {}\nconstructor b {}\nannotation a {}\nstruct c {}\nstruct b {}\nstruct a {}\n";
    let ctx = TestContext::new(Database::default(), text);
    let ast = parse(&ctx);
    let found = check_can_resolve_symbols(text, &ast, Diagnostics::new());
    assert!(!found.ok);
    assert_eq!(
        found.errors,
        vec![
            SemanticError::DuplicateIdentifier { duplicate: ident(&ctx, 40, 41) },
            SemanticError::DuplicateIdentifier { duplicate: ident(&ctx, 64, 65) },
            SemanticError::DuplicateIdentifier { duplicate: ident(&ctx, 76, 77) },
        ]
    );
    assert_eq!(found.names, vec![ident(&ctx, 7, 8), ident(&ctx, 24, 25), ident(&ctx, 52, 53)]);
    assert_eq!(found.emitter.len(), 3);
    assert_eq!(found.emitter.get(2).unwrap().span, Some(Span::new(76, 77, ctx.file)));
}

#[test]
fn a_tree_of_unique_names_resolves() {
    let text = "package p; import \"x\"; struct a {} constructor b { f: a; } annotation c {}";
    let ctx = TestContext::new(Database::default(), text);
    let ast = parse(&ctx);
    let found = check_can_resolve_symbols(text, &ast, Diagnostics::new());
    assert!(found.ok);
    assert!(found.errors.is_empty());
    assert_eq!(found.names.len(), 3);
    assert!(found.emitter.is_empty());
}

#[test]
fn names_are_told_apart_by_their_whole_spelling() {
    let text = "struct a {} struct ab {} struct A {} struct a_ {}";
    let ctx = TestContext::new(Database::default(), text);
    let ast = parse(&ctx);
    let found = check_can_resolve_symbols(text, &ast, Diagnostics::new());
    assert!(found.ok);
    assert_eq!(found.names.len(), 4);
}

#[test]
fn reports_go_behind_what_the_emitter_holds() {
    let text = "struct a {} struct a {}";
    let ctx = TestContext::new(Database::default(), text);
    let ast = parse(&ctx);
    let mut emitter = Diagnostics::new();
    hamlc::diagnostics::emit_message(&mut emitter, "earlier");
    let found = check_can_resolve_symbols(text, &ast, emitter);
    assert_eq!(found.emitter.len(), 2);
    assert_eq!(found.emitter.get(0).unwrap().message, "earlier");
    assert_eq!(found.emitter.get(1).unwrap().span, Some(Span::new(19, 20, ctx.file)));
}

#[test]
fn a_name_outside_the_text_declares_nothing() {
    let text = "struct a {}";
    let ctx = TestContext::new(Database::default(), text);
    let mut ast = parse(&ctx);
    let mut stray = match &ast.stmts[0] {
        hamlc::ast::Stmt::StructDecl(decl) => decl.clone(),
        other => panic!("{:?}", other),
    };
    stray.name = ident(&ctx, 7, 99);
    ast.stmts.push(hamlc::ast::Stmt::StructDecl(stray.clone()));
    ast.stmts.push(hamlc::ast::Stmt::StructDecl(stray));
    let found = check_can_resolve_symbols(text, &ast, Diagnostics::new());
    assert!(found.ok);
    assert_eq!(found.names, vec![ident(&ctx, 7, 8)]);
}

/// A visitor that writes down what it is shown.
struct Recorder {
    seen: Vec<String>,
}

impl Visitor for Recorder {
    type State = ();

    fn wf(&self) -> bool {
        true
    }

    fn state(&self) {}

    fn step(_state: (), _event: Visit) {}

    fn package(&mut self, decl: &PackageStmt) {
        self.seen.push(format!("package/{}", decl.segments.len()));
    }

    fn import(&mut self, decl: &ImportStmt) {
        self.seen.push(format!("import@{}", decl.path.span.start));
    }

    fn constructor_decl(&mut self, decl: &ConstructorDecl) {
        self.seen.push(format!("constructor@{}", decl.name.span.start));
    }

    fn struct_decl(&mut self, decl: &StructDecl) {
        self.seen.push(format!("struct@{}", decl.name.span.start));
    }

    fn repeatable_decl(&mut self, decl: &FieldSetDecl) {
        self.seen.push(format!("repeatable/{}", decl.fields.len()));
    }

    fn alias_decl(&mut self, _decl: &AliasDecl) {
        self.seen.push("alias".to_string());
    }

    fn field_decl(&mut self, decl: &FieldDecl) {
        self.seen.push(format!("field@{}", decl.name.span.start));
    }

    fn annotation_decl(&mut self, decl: &AnnotationDecl) {
        self.seen.push(format!("annotation@{}", decl.name.span.start));
    }

    fn annotation_def(&mut self, def: &Token) {
        self.seen.push(format!("def@{}", def.span.start));
    }

    fn comment(&mut self, stmt: &Comment) {
        self.seen.push(format!("comment@{}", stmt.value.span.start));
    }
}

#[test]
fn walk_shows_the_nodes_in_the_order_of_the_text() {
    let text = "// c\npackage a.b;\nimport \"x\";\n@m @n constructor k { f: int32; g?: string; }\nconstructor r { repeatable { h: k; } }\nconstructor l { map<string, k> }\nstruct s { i: k; }\nannotation t { j: int32, }\n";
    let ctx = TestContext::new(Database::default(), text);
    let ast = parse(&ctx);
    let mut recorder = Recorder { seen: vec![] };
    walk(&ast, &mut recorder);
    let at = |word: &str| text.find(word).unwrap();
    let expected = vec![
        "comment@0".to_string(),
        "package/2".to_string(),
        format!("import@{}", at("\"x\"")),
        format!("constructor@{}", at("k {")),
        format!("def@{}", at("m @n")),
        format!("def@{}", at("n constructor")),
        format!("field@{}", at("f: int32")),
        format!("field@{}", at("g?")),
        format!("constructor@{}", at("r {")),
        "repeatable/1".to_string(),
        format!("field@{}", at("h: k")),
        format!("constructor@{}", at("l {")),
        "alias".to_string(),
        format!("struct@{}", at("s {")),
        format!("annotation@{}", at("t {")),
    ];
    assert_eq!(recorder.seen, expected);

    let mut again = Recorder { seen: vec![] };
    ast.walk(&mut again);
    assert_eq!(again.seen, expected);
}
