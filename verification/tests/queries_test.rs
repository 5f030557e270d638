use hamlc::ast::Stmt;
use hamlc::db::{Database, Query, TrackedAst, TrackedSpan};
use hamlc::diagnostics::Diagnostics;
use hamlc::parser::ParseSession;
use hamlc::queries::{
    build_symbol_table, build_symbol_table_diagnostics, file_read, parse_file,
    parse_file_diagnostics, read_file, read_span, FileReader,
};
use hamlc::span::Span;

/// Files held in memory, and how often each path was read.
struct MemoryFiles {
    files: Vec<(String, String)>,
    reads: Vec<String>,
}

impl MemoryFiles {
    fn new(files: &[(&str, &str)]) -> MemoryFiles {
        MemoryFiles {
            files: files.iter().map(|(p, t)| (p.to_string(), t.to_string())).collect(),
            reads: vec![],
        }
    }
}

impl FileReader for MemoryFiles {
    fn read_to_string(&mut self, path: &str) -> Option<String> {
        self.reads.push(path.to_string());
        self.files.iter().find(|(p, _)| p == path).map(|(_, t)| t.clone())
    }
}

#[test]
fn inputs_are_held_by_value() {
    let mut db = Database::default();
    let a = db.source_file("a.haml", "package a;");
    let b = db.source_file("b.haml", "package a;");
    let c = db.source_file("a.haml", "package b;");
    assert_ne!(a, b);
    assert_ne!(a, c);
    assert_ne!(b, c);
    assert_eq!(db.source_file("a.haml", "package a;"), a);
    assert_eq!(db.source_file("b.haml", "package a;"), b);
    assert_eq!(db.source_file("a.haml", "package b;"), c);
    assert_eq!(db.inputs.text(a), "package a;");
    assert_eq!(db.inputs.file_path(a), "a.haml");
    assert_eq!(db.inputs.text(c), "package b;");

    let p = db.path("a.haml");
    let q = db.path("b.haml");
    assert_ne!(p, q);
    assert_eq!(db.path("a.haml"), p);
    assert_eq!(db.inputs.path_of(q), "b.haml");
    assert!(db.log().is_empty());
}

#[test]
fn parse_file_is_computed_once() {
    let mut db = Database::new();
    let file = db.source_file("a.haml", "package one.two;\nstruct s { a: int32; }\n");

    let first = parse_file(&mut db, file);
    assert_eq!(db.log(), &vec![Query::ParseFile(file)]);
    let second = parse_file(&mut db, file);
    assert_eq!(db.log(), &vec![Query::ParseFile(file)]);

    assert!(first.is_some());
    assert_eq!(first, second);
    assert_eq!(first.unwrap().stmts.len(), 2);
    assert!(parse_file_diagnostics(&mut db, file).is_empty());
    assert_eq!(db.log().len(), 1);
}

#[test]
fn diagnostics_of_a_parse_are_kept_once() {
    let mut db = Database::new();
    let file = db.source_file("a.haml", "package one two;");

    assert_eq!(parse_file(&mut db, file), None);
    assert_eq!(parse_file(&mut db, file), None);
    let first = parse_file_diagnostics(&mut db, file);
    let second = parse_file_diagnostics(&mut db, file);
    assert_eq!(first.len(), 1);
    assert_eq!(first, second);
    assert_eq!(
        first.get(0).unwrap().message,
        "expected period or semicolon but found a identifier"
    );
    assert_eq!(db.log(), &vec![Query::ParseFile(file)]);
}

#[test]
fn asking_for_diagnostics_first_runs_the_parse() {
    let mut db = Database::new();
    let file = db.source_file("a.haml", "import;");
    let diagnostics = parse_file_diagnostics(&mut db, file);
    assert_eq!(diagnostics.len(), 1);
    assert_eq!(db.log(), &vec![Query::ParseFile(file)]);
    assert_eq!(parse_file(&mut db, file), None);
    assert_eq!(db.log().len(), 1);
}

#[test]
fn diagnostics_belong_to_the_file_they_arose_in() {
    let mut db = Database::new();
    let good = db.source_file("good.haml", "package a;");
    let bad = db.source_file("bad.haml", "package ;");
    assert!(parse_file(&mut db, good).is_some());
    assert!(parse_file(&mut db, bad).is_none());
    assert!(parse_file_diagnostics(&mut db, good).is_empty());
    let of_bad = parse_file_diagnostics(&mut db, bad);
    assert_eq!(of_bad.len(), 1);
    assert_eq!(of_bad.get(0).unwrap().span, Some(Span::new(8, 9, bad)));
    assert_eq!(db.log(), &vec![Query::ParseFile(good), Query::ParseFile(bad)]);
}

#[test]
fn a_changed_text_is_a_new_file_with_a_parse_of_its_own() {
    let mut db = Database::new();
    let old = db.source_file("a.haml", "package ;");
    assert!(parse_file(&mut db, old).is_none());
    let new = db.source_file("a.haml", "package a;");
    assert_ne!(old, new);
    assert!(parse_file(&mut db, new).is_some());
    assert!(parse_file(&mut db, old).is_none());
    assert_eq!(parse_file_diagnostics(&mut db, old).len(), 1);
    assert_eq!(db.log(), &vec![Query::ParseFile(old), Query::ParseFile(new)]);
}

#[test]
fn read_file_reads_each_path_once() {
    let mut db = Database::new();
    let mut reader = MemoryFiles::new(&[("a.haml", "package a;")]);
    let here = db.path("a.haml");
    let gone = db.path("gone.haml");

    let file = read_file(&mut db, &mut reader, here).unwrap();
    assert_eq!(db.inputs.text(file), "package a;");
    assert_eq!(db.inputs.file_path(file), "a.haml");
    assert_eq!(read_file(&mut db, &mut reader, gone), None);
    assert_eq!(read_file(&mut db, &mut reader, here), Some(file));
    assert_eq!(read_file(&mut db, &mut reader, gone), None);

    assert_eq!(reader.reads, vec!["a.haml", "gone.haml"]);
    assert_eq!(db.log(), &vec![Query::ReadFile(here), Query::ReadFile(gone)]);
}

#[test]
fn what_was_read_first_stays() {
    let mut db = Database::new();
    let mut reader = MemoryFiles::new(&[("a.haml", "package a;")]);
    let path = db.path("a.haml");
    let file = read_file(&mut db, &mut reader, path).unwrap();
    reader.files[0].1 = "package changed;".to_string();
    assert_eq!(read_file(&mut db, &mut reader, path), Some(file));
    assert_eq!(db.inputs.text(file), "package a;");
}

#[test]
fn file_read_takes_what_reading_gave() {
    let mut db = Database::new();
    let path = db.path("a.haml");
    let other = db.path("b.haml");
    let file = file_read(&mut db, path, Some("struct s {}".to_string())).unwrap();
    assert_eq!(db.inputs.text(file), "struct s {}");
    assert_eq!(db.inputs.file_path(file), "a.haml");
    // A path that was read is answered as before, whatever is handed in.
    assert_eq!(file_read(&mut db, path, None), Some(file));
    assert_eq!(file_read(&mut db, path, Some("other".to_string())), Some(file));
    assert_eq!(file_read(&mut db, other, None), None);
    assert_eq!(file_read(&mut db, other, Some("late".to_string())), None);
    assert_eq!(db.log(), &vec![Query::ReadFile(path), Query::ReadFile(other)]);
}

#[test]
fn a_file_that_was_read_is_the_file_that_was_handed_in() {
    let mut db = Database::new();
    let mut reader = MemoryFiles::new(&[("a.haml", "package a;")]);
    let by_hand = db.source_file("a.haml", "package a;");
    let path = db.path("a.haml");
    assert_eq!(read_file(&mut db, &mut reader, path), Some(by_hand));
}

#[test]
fn read_span_slices_the_file() {
    let mut db = Database::new();
    let mut reader = MemoryFiles::new(&[("a.haml", "package é;")]);
    let path = db.path("a.haml");
    let gone = db.path("gone.haml");
    let file = db.source_file("a.haml", "package é;");

    let span = TrackedSpan::new(Span::new(0, 7, file));
    assert_eq!(read_span(&mut db, &mut reader, path, span), Some("package".to_string()));
    assert_eq!(db.log(), &vec![Query::ReadFile(path), Query::ReadSpan(path, span.span)]);
    assert_eq!(read_span(&mut db, &mut reader, path, span), Some("package".to_string()));
    assert_eq!(db.log().len(), 2);
    assert_eq!(reader.reads, vec!["a.haml"]);

    let whole = TrackedSpan::new(Span::new(8, 10, file));
    assert_eq!(read_span(&mut db, &mut reader, path, whole), Some("é".to_string()));
    let half = TrackedSpan::new(Span::new(8, 9, file));
    assert_eq!(read_span(&mut db, &mut reader, path, half), None);
    let outside = TrackedSpan::new(Span::new(8, 99, file));
    assert_eq!(read_span(&mut db, &mut reader, path, outside), None);
    let backwards = TrackedSpan::new(Span::new(7, 0, file));
    assert_eq!(read_span(&mut db, &mut reader, path, backwards), None);
    assert_eq!(read_span(&mut db, &mut reader, gone, span), None);
    assert_eq!(reader.reads, vec!["a.haml", "gone.haml"]);
    assert_eq!(db.log().len(), 8);
}

#[test]
fn build_symbol_table_gives_the_first_declaration_of_each_name() {
    let text = "struct a {}\nconstructor b {}\nannotation a {}\nstruct c {}\nstruct b {}\nstruct a {}\n";
    let mut db = Database::new();
    let file = db.source_file("a.haml", text);

    let names = build_symbol_table(&mut db, file).unwrap();
    let spans: Vec<(usize, usize)> = names.iter().map(|t| (t.span.start, t.span.end)).collect();
    assert_eq!(spans, vec![(7, 8), (24, 25), (52, 53)]);
    assert_eq!(db.log(), &vec![Query::ParseFile(file), Query::BuildSymbolTable(file)]);

    let diagnostics = build_symbol_table_diagnostics(&mut db, file);
    assert_eq!(diagnostics.len(), 3);
    let repeated: Vec<(usize, usize)> = diagnostics
        .items
        .iter()
        .map(|d| {
            assert_eq!(d.message, "type `Ident` defined multiple times");
            assert_eq!(
                d.span_message.as_deref(),
                Some("there can only be one type with this name")
            );
            let span = d.span.unwrap();
            (span.start, span.end)
        })
        .collect();
    assert_eq!(repeated, vec![(40, 41), (64, 65), (76, 77)]);

    assert_eq!(build_symbol_table(&mut db, file), Some(names));
    assert_eq!(db.log().len(), 2);
    // The diagnostics of the parse are its own: there are none.
    assert!(parse_file_diagnostics(&mut db, file).is_empty());
}

#[test]
fn build_symbol_table_uses_the_parse_that_is_kept() {
    let mut db = Database::new();
    let file = db.source_file("a.haml", "struct a {}");
    assert!(parse_file(&mut db, file).is_some());
    assert!(build_symbol_table(&mut db, file).is_some());
    assert_eq!(db.log(), &vec![Query::ParseFile(file), Query::BuildSymbolTable(file)]);
}

#[test]
fn a_file_without_a_tree_has_no_symbols() {
    let mut db = Database::new();
    let file = db.source_file("a.haml", "struct a {} struct a {");
    assert_eq!(build_symbol_table(&mut db, file), None);
    let diagnostics = build_symbol_table_diagnostics(&mut db, file);
    assert_eq!(diagnostics, parse_file_diagnostics(&mut db, file));
    assert_eq!(diagnostics.len(), 1);
    assert_eq!(
        diagnostics.get(0).unwrap().message,
        "expected union, repeatable or an identifier but found a eof"
    );
    assert_eq!(db.log(), &vec![Query::ParseFile(file), Query::BuildSymbolTable(file)]);
}

#[test]
fn unique_names_have_no_duplicate_diagnostics() {
    let mut db = Database::new();
    let file = db.source_file("a.haml", "struct a {} struct ab {} constructor b {} annotation A {}");
    assert_eq!(build_symbol_table(&mut db, file).unwrap().len(), 4);
    assert!(build_symbol_table_diagnostics(&mut db, file).is_empty());
}

#[test]
fn two_declarations_of_one_name_give_one_diagnostic_at_the_second() {
    let mut db = Database::new();
    let file = db.source_file("a.haml", "struct one {}\nstruct two {}\nstruct one {}\n");
    let names = build_symbol_table(&mut db, file).unwrap();
    assert_eq!(names.len(), 2);
    let diagnostics = build_symbol_table_diagnostics(&mut db, file);
    assert_eq!(diagnostics.len(), 1);
    assert_eq!(diagnostics.get(0).unwrap().span, Some(Span::new(35, 38, file)));
}

#[test]
fn a_session_gives_the_text_of_its_file() {
    let mut db = Database::new();
    let file = db.source_file("a.haml", "package é;");
    let sess = ParseSession::new(&db, file);
    assert_eq!(sess.text(), "package é;");
    assert_eq!(sess.span_text(&Span::new(0, 7, file)), Some("package"));
    assert_eq!(sess.span_text(&Span::new(8, 10, file)), Some("é"));
    assert_eq!(sess.span_text(&Span::new(9, 10, file)), None);
    assert_eq!(sess.span_text(&Span::new(0, 12, file)), None);
}

#[test]
fn tracked_values_hold_what_they_were_made_of() {
    let mut db = Database::new();
    let file = db.source_file("a.haml", "package a;");
    let ast = parse_file(&mut db, file).unwrap();
    let input = TrackedAst::new(ast.clone());
    assert_eq!(input.ast, ast);
    assert!(matches!(input.ast.stmts[0], Stmt::PackageStmt(_)));
    let span = Span::new(1, 2, file);
    assert_eq!(TrackedSpan::new(span).span, span);
    assert_eq!(Diagnostics::new().len(), 0);
}

#[test]
fn what_is_kept_can_be_asked_for_without_computing() {
    let mut db = Database::new();
    let file = db.source_file("a.haml", "struct a {} struct a {}");
    let other = db.source_file("b.haml", "package ;");
    assert!(db.parse_kept(file).is_none());
    assert!(db.symbols_kept(file).is_none());

    assert!(parse_file(&mut db, file).is_some());
    assert!(parse_file(&mut db, other).is_none());
    {
        let kept = db.parse_kept(file).unwrap();
        assert_eq!(kept.ast.as_ref().unwrap().stmts.len(), 2);
        assert!(kept.diagnostics.is_empty());
        let kept = db.parse_kept(other).unwrap();
        assert!(kept.ast.is_none());
        assert_eq!(kept.diagnostics.len(), 1);
    }
    assert!(db.symbols_kept(file).is_none());

    assert!(build_symbol_table(&mut db, file).is_some());
    {
        let kept = db.symbols_kept(file).unwrap();
        assert_eq!(kept.names.as_ref().unwrap().len(), 1);
        assert_eq!(kept.diagnostics.len(), 1);
    }
    let stranger = hamlc::span::SourceFile { id: 7 };
    assert!(db.parse_kept(stranger).is_none());
    assert!(db.symbols_kept(stranger).is_none());
    assert_eq!(db.log().len(), 3);
}
