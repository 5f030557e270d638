use hamlc::ast::{
    AliasDecl, AnnotationDecl, AnnotationFieldDecl, AnnotationFieldValue, Ast, BlockDecl, Comment,
    ConstructorDecl, FieldDecl, FieldSetDecl, FieldType, ImportStmt, MapDecl, PackageStmt, Stmt,
    StructDecl,
};
use hamlc::db::Database;
use hamlc::diagnostics::{Diagnostic, Level};
use hamlc::span::Span;
use hamlc::testing::TestContext;
use hamlc::token::{Token, TokenKind};

/// The tree of `text`, and what parsing it reported.
fn parse(text: &str) -> (Option<Ast>, Vec<Diagnostic>) {
    let ctx = TestContext::new(Database::default(), text);
    let mut parser = ctx.parser();
    let ast = parser.parse();
    (ast, parser.finish().items)
}

/// The token of `kind` over the `nth` occurrence of `word` in `text`.
fn tok(text: &str, kind: TokenKind, word: &str, nth: usize) -> Token {
    let ctx = TestContext::new(Database::default(), text);
    let (start, _) = text.match_indices(word).nth(nth).unwrap();
    Token::new(kind, Span::new(start, start + word.len(), ctx.file))
}

/// The one diagnostic of a parse that failed.
fn failure(text: &str) -> Diagnostic {
    let (ast, mut diagnostics) = parse(text);
    assert_eq!(ast, None, "{}", text);
    assert_eq!(diagnostics.len(), 1, "{}", text);
    diagnostics.pop().unwrap()
}

/// Asserts that parsing `text` fails at the token `[start, end)` with
/// `expected` as what was expected, found a `found`.
fn assert_unexpected(text: &str, start: usize, end: usize, expected: &str, found: &str) {
    let d = failure(text);
    assert_eq!(d.level, Level::Error);
    assert_eq!(d.message, format!("expected {} but found a {}", expected, found), "{}", text);
    assert_eq!(d.span_message, Some(format!("expected {}", expected)), "{}", text);
    let span = d.span.unwrap();
    assert_eq!((span.start, span.end), (start, end), "{}", text);
}

#[test]
fn parses_package_statement() {
    let text = "package one.two;";
    let (ast, diagnostics) = parse(text);
    let expected = Ast {
        stmts: vec![Stmt::PackageStmt(PackageStmt {
            segments: vec![
                tok(text, TokenKind::Ident, "one", 0),
                tok(text, TokenKind::Ident, "two", 0),
            ],
        })],
    };
    assert_eq!(ast, Some(expected));
    assert!(diagnostics.is_empty());
}

#[test]
fn parses_import_statement() {
    let text = "import \"testing\";";
    let (ast, diagnostics) = parse(text);
    let expected = Ast {
        stmts: vec![Stmt::ImportStmt(ImportStmt {
            path: tok(text, TokenKind::StringLiteral, "\"testing\"", 0),
        })],
    };
    assert_eq!(ast, Some(expected));
    assert!(diagnostics.is_empty());
}

#[test]
fn parses_a_file_with_package_import_and_annotated_constructor() {
    let text = "package http.request;\nimport \"testing\";\n@singleton\nconstructor api {\n    get: int64;\n}\n";
    let (ast, diagnostics) = parse(text);
    let expected = Ast {
        stmts: vec![
            Stmt::PackageStmt(PackageStmt {
                segments: vec![
                    tok(text, TokenKind::Ident, "http", 0),
                    tok(text, TokenKind::Ident, "request", 0),
                ],
            }),
            Stmt::ImportStmt(ImportStmt {
                path: tok(text, TokenKind::StringLiteral, "\"testing\"", 0),
            }),
            Stmt::ConstructorDecl(ConstructorDecl {
                annotations: vec![tok(text, TokenKind::Ident, "singleton", 0)],
                name: tok(text, TokenKind::Ident, "api", 0),
                content: BlockDecl::FieldSet(FieldSetDecl {
                    fields: vec![FieldDecl {
                        name: tok(text, TokenKind::Ident, "get", 0),
                        typ: FieldType::Int64(tok(text, TokenKind::Int64, "int64", 0)),
                        optional: false,
                    }],
                }),
            }),
        ],
    };
    assert_eq!(ast, Some(expected));
    assert!(diagnostics.is_empty());
}

#[test]
fn question_mark_makes_a_field_optional() {
    let text = "struct s { get?: int64; put: int64; }";
    let (ast, _) = parse(text);
    let expected = Ast {
        stmts: vec![Stmt::StructDecl(StructDecl {
            annotations: vec![],
            name: tok(text, TokenKind::Ident, "s", 1),
            content: BlockDecl::FieldSet(FieldSetDecl {
                fields: vec![
                    FieldDecl {
                        name: tok(text, TokenKind::Ident, "get", 0),
                        typ: FieldType::Int64(tok(text, TokenKind::Int64, "int64", 0)),
                        optional: true,
                    },
                    FieldDecl {
                        name: tok(text, TokenKind::Ident, "put", 0),
                        typ: FieldType::Int64(tok(text, TokenKind::Int64, "int64", 1)),
                        optional: false,
                    },
                ],
            }),
        })],
    };
    assert_eq!(ast, Some(expected));
}

#[test]
fn parses_map_type() {
    let text = "struct s { m: map<string, int32>; }";
    let (ast, _) = parse(text);
    let expected = Ast {
        stmts: vec![Stmt::StructDecl(StructDecl {
            annotations: vec![],
            name: tok(text, TokenKind::Ident, "s", 1),
            content: BlockDecl::FieldSet(FieldSetDecl {
                fields: vec![FieldDecl {
                    name: tok(text, TokenKind::Ident, "m", 0),
                    typ: FieldType::MapType(Box::new(MapDecl {
                        key: FieldType::String(tok(text, TokenKind::String, "string", 0)),
                        value: FieldType::Int32(tok(text, TokenKind::Int32, "int32", 0)),
                    })),
                    optional: false,
                }],
            }),
        })],
    };
    assert_eq!(ast, Some(expected));
}

#[test]
fn maps_nest_on_both_sides() {
    let text = "struct s { m: map<map<a, uint32>, map<float32, map<b, unknown>>>; }";
    let (ast, diagnostics) = parse(text);
    assert!(diagnostics.is_empty());
    let inner = FieldType::MapType(Box::new(MapDecl {
        key: FieldType::Ident(tok(text, TokenKind::Ident, "b", 0)),
        value: FieldType::Unknown(tok(text, TokenKind::Unknown, "unknown", 0)),
    }));
    let typ = FieldType::MapType(Box::new(MapDecl {
        key: FieldType::MapType(Box::new(MapDecl {
            key: FieldType::Ident(tok(text, TokenKind::Ident, "a", 2)),
            value: FieldType::Uint32(tok(text, TokenKind::Uint32, "uint32", 0)),
        })),
        value: FieldType::MapType(Box::new(MapDecl {
            key: FieldType::Float32(tok(text, TokenKind::Float32, "float32", 0)),
            value: inner,
        })),
    }));
    let expected = Ast {
        stmts: vec![Stmt::StructDecl(StructDecl {
            annotations: vec![],
            name: tok(text, TokenKind::Ident, "s", 1),
            content: BlockDecl::FieldSet(FieldSetDecl {
                fields: vec![FieldDecl {
                    name: tok(text, TokenKind::Ident, "m", 0),
                    typ,
                    optional: false,
                }],
            }),
        })],
    };
    assert_eq!(ast, Some(expected));
}

#[test]
fn every_leaf_type_is_a_field_type() {
    let text = "constructor c { a: string; b: uint32; c: uint64; d: int32; e: int64; f: float32; g: float64; h: unknown; i: struct; j: Other; }";
    let (ast, diagnostics) = parse(text);
    assert!(diagnostics.is_empty());
    let ast = ast.unwrap();
    let fields = match &ast.stmts[0] {
        Stmt::ConstructorDecl(decl) => match &decl.content {
            BlockDecl::FieldSet(set) => &set.fields,
            other => panic!("{:?}", other),
        },
        other => panic!("{:?}", other),
    };
    let kinds: Vec<TokenKind> = fields
        .iter()
        .map(|f| match &f.typ {
            FieldType::String(t) if t.kind == TokenKind::String => t.kind,
            FieldType::Uint32(t) if t.kind == TokenKind::Uint32 => t.kind,
            FieldType::Uint64(t) if t.kind == TokenKind::Uint64 => t.kind,
            FieldType::Int32(t) if t.kind == TokenKind::Int32 => t.kind,
            FieldType::Int64(t) if t.kind == TokenKind::Int64 => t.kind,
            FieldType::Float32(t) if t.kind == TokenKind::Float32 => t.kind,
            FieldType::Float64(t) if t.kind == TokenKind::Float64 => t.kind,
            FieldType::Unknown(t) if t.kind == TokenKind::Unknown => t.kind,
            FieldType::Struct(t) if t.kind == TokenKind::Struct => t.kind,
            FieldType::Ident(t) if t.kind == TokenKind::Ident => t.kind,
            other => panic!("{:?}", other),
        })
        .collect();
    assert_eq!(
        kinds,
        vec![
            TokenKind::String,
            TokenKind::Uint32,
            TokenKind::Uint64,
            TokenKind::Int32,
            TokenKind::Int64,
            TokenKind::Float32,
            TokenKind::Float64,
            TokenKind::Unknown,
            TokenKind::Struct,
            TokenKind::Ident
        ]
    );
}

#[test]
fn blocks_come_in_five_forms() {
    let text = "struct a {} struct b { x: string; } struct c { union { y: int32; } } struct d { repeatable { z?: int64; } } struct e { map<string, string> }";
    let (ast, diagnostics) = parse(text);
    assert!(diagnostics.is_empty());
    let ast = ast.unwrap();
    assert_eq!(ast.stmts.len(), 5);
    let contents: Vec<&BlockDecl> = ast
        .stmts
        .iter()
        .map(|s| match s {
            Stmt::StructDecl(decl) => &decl.content,
            other => panic!("{:?}", other),
        })
        .collect();
    assert_eq!(*contents[0], BlockDecl::FieldSet(FieldSetDecl { fields: vec![] }));
    assert_eq!(
        *contents[1],
        BlockDecl::FieldSet(FieldSetDecl {
            fields: vec![FieldDecl {
                name: tok(text, TokenKind::Ident, "x", 0),
                typ: FieldType::String(tok(text, TokenKind::String, "string", 0)),
                optional: false,
            }]
        })
    );
    assert_eq!(
        *contents[2],
        BlockDecl::FieldSet(FieldSetDecl {
            fields: vec![FieldDecl {
                name: tok(text, TokenKind::Ident, "y", 0),
                typ: FieldType::Int32(tok(text, TokenKind::Int32, "int32", 0)),
                optional: false,
            }]
        })
    );
    assert_eq!(
        *contents[3],
        BlockDecl::Repeatable(FieldSetDecl {
            fields: vec![FieldDecl {
                name: tok(text, TokenKind::Ident, "z", 0),
                typ: FieldType::Int64(tok(text, TokenKind::Int64, "int64", 0)),
                optional: true,
            }]
        })
    );
    assert_eq!(
        *contents[4],
        BlockDecl::Alias(AliasDecl::MapDecl(MapDecl {
            key: FieldType::String(tok(text, TokenKind::String, "string", 1)),
            value: FieldType::String(tok(text, TokenKind::String, "string", 2)),
        }))
    );
}

#[test]
fn annotation_declarations_hold_flat_fields() {
    let text = "@a @b annotation limit { min: uint32, max?: float64, name: string, }";
    let (ast, diagnostics) = parse(text);
    assert!(diagnostics.is_empty());
    let expected = Ast {
        stmts: vec![Stmt::AnnotationDecl(AnnotationDecl {
            annotations: vec![
                tok(text, TokenKind::Ident, "a", 0),
                tok(text, TokenKind::Ident, "b", 0),
            ],
            name: tok(text, TokenKind::Ident, "limit", 0),
            fields: vec![
                AnnotationFieldDecl {
                    name: tok(text, TokenKind::Ident, "min", 0),
                    value: AnnotationFieldValue::Uint32(tok(text, TokenKind::Uint32, "uint32", 0)),
                    optional: false,
                },
                AnnotationFieldDecl {
                    name: tok(text, TokenKind::Ident, "max", 0),
                    value: AnnotationFieldValue::Float64(tok(
                        text,
                        TokenKind::Float64,
                        "float64",
                        0,
                    )),
                    optional: true,
                },
                AnnotationFieldDecl {
                    name: tok(text, TokenKind::Ident, "name", 0),
                    value: AnnotationFieldValue::String(tok(text, TokenKind::String, "string", 0)),
                    optional: false,
                },
            ],
        })],
    };
    assert_eq!(ast, Some(expected));
}

#[test]
fn annotations_stand_in_front_of_structs_too() {
    let text = "@one @two struct s {}";
    let (ast, _) = parse(text);
    let expected = Ast {
        stmts: vec![Stmt::StructDecl(StructDecl {
            annotations: vec![
                tok(text, TokenKind::Ident, "one", 0),
                tok(text, TokenKind::Ident, "two", 0),
            ],
            name: tok(text, TokenKind::Ident, "s", 1),
            content: BlockDecl::FieldSet(FieldSetDecl { fields: vec![] }),
        })],
    };
    assert_eq!(ast, Some(expected));
}

#[test]
fn comments_between_statements_are_kept() {
    let text = "// first\npackage a;\n/* second */";
    let (ast, diagnostics) = parse(text);
    assert!(diagnostics.is_empty());
    let expected = Ast {
        stmts: vec![
            Stmt::Comment(Comment { value: tok(text, TokenKind::Comment, "// first", 0) }),
            Stmt::PackageStmt(PackageStmt { segments: vec![tok(text, TokenKind::Ident, "a", 2)] }),
            Stmt::Comment(Comment { value: tok(text, TokenKind::Comment, "/* second */", 0) }),
        ],
    };
    assert_eq!(ast, Some(expected));
}

#[test]
fn an_empty_text_is_an_empty_tree() {
    for text in ["", "  \n\t "] {
        let (ast, diagnostics) = parse(text);
        assert_eq!(ast, Some(Ast { stmts: vec![] }));
        assert!(diagnostics.is_empty());
    }
}

#[test]
fn advance_gives_one_statement_at_a_time() {
    let text = "package a; import \"b\";";
    let ctx = TestContext::new(Database::default(), text);
    let mut parser = ctx.parser();
    assert!(matches!(parser.advance(), Some(Stmt::PackageStmt(_))));
    assert!(matches!(parser.advance(), Some(Stmt::ImportStmt(_))));
    assert_eq!(parser.advance(), Some(Stmt::Eof));
    assert_eq!(parser.advance(), Some(Stmt::Eof));
    assert!(parser.finish().is_empty());
}

#[test]
fn a_token_that_begins_no_statement_is_rejected() {
    assert_unexpected("foo", 0, 3, "a package, import or declaration", "identifier");
    assert_unexpected("package a; ;", 11, 12, "a package, import or declaration", ";");
    assert_unexpected("#", 0, 1, "a package, import or declaration", "invalid token");
    assert_unexpected("union", 0, 5, "a package, import or declaration", "union");
}

#[test]
fn package_statement_errors() {
    assert_unexpected("package ;", 8, 9, "identifier", ";");
    assert_unexpected("package one two;", 12, 15, "period or semicolon", "identifier");
    assert_unexpected("package one.;", 12, 13, "identifier", ";");
}

#[test]
fn import_statement_errors() {
    assert_unexpected("import testing;", 7, 14, "string literal", "identifier");
    assert_unexpected("import \"testing\" x", 17, 18, ";", "identifier");
}

#[test]
fn annotation_run_errors() {
    assert_unexpected("@ struct", 2, 8, "identifier", "struct");
    assert_unexpected("@a package", 3, 10, "an annotation, constructor or struct", "package");
}

#[test]
fn block_errors() {
    assert_unexpected("struct {", 7, 8, "identifier", "{");
    assert_unexpected("struct s ;", 9, 10, "{", ";");
    assert_unexpected("struct s { 1 }", 11, 12, "union, repeatable or an identifier", "int literal");
    assert_unexpected("struct s { union x }", 17, 18, "{", "identifier");
    assert_unexpected("struct s { union { } x", 21, 22, "}", "identifier");
    assert_unexpected("struct s { map<a, b> x }", 21, 22, "}", "identifier");
}

#[test]
fn field_errors() {
    assert_unexpected("struct s { a; }", 12, 13, "a question mark or colon", ";");
    assert_unexpected("struct s { a: b; c; }", 18, 19, "question mark or colon", ";");
    assert_unexpected("struct s { a?; }", 13, 14, ":", ";");
    assert_unexpected("struct s { a: ; }", 14, 15, "a field value type", ";");
    assert_unexpected("struct s { a: b }", 16, 17, ";", "}");
    assert_unexpected("struct s { a: b; 1 }", 17, 18, "a closing brace or identifier", "int literal");
    assert_unexpected("struct s { a: \"x\"; }", 14, 17, "a field value type", "string literal");
}

#[test]
fn map_errors() {
    assert_unexpected("struct s { a: map; }", 17, 18, "<", ";");
    assert_unexpected("struct s { a: map<>; }", 18, 19, "a field value type", ">");
    assert_unexpected("struct s { a: map<b>; }", 19, 20, ",", ">");
    assert_unexpected("struct s { a: map<b, c; }", 22, 23, ">", ";");
}

#[test]
fn annotation_declaration_errors() {
    assert_unexpected("annotation { }", 11, 12, "identifier", "{");
    assert_unexpected("annotation a ( }", 13, 14, "{", "(");
    assert_unexpected("annotation a { 1 }", 15, 16, "closing brace or identifier", "int literal");
    assert_unexpected("annotation a { b; }", 16, 17, "a question mark or colon", ";");
    assert_unexpected("annotation a { b: c, }", 18, 19, "a string or number type", "identifier");
    assert_unexpected("annotation a { b: string; }", 24, 25, ",", ";");
    assert_unexpected("annotation a { b: map<string, string>, }", 18, 21, "a string or number type", "map");
}

#[test]
fn the_end_of_the_text_within_a_statement_is_rejected_as_a_token() {
    assert_unexpected("package one", 11, 11, "period or semicolon", "eof");
    assert_unexpected("package", 7, 7, "identifier", "eof");
    assert_unexpected("struct s {", 10, 10, "union, repeatable or an identifier", "eof");
    assert_unexpected("struct s { a: b; ", 17, 17, "a closing brace or identifier", "eof");
    assert_unexpected("@a", 2, 2, "an annotation, constructor or struct", "eof");
}

#[test]
fn a_comment_within_a_statement_is_rejected() {
    assert_unexpected("package /* a */ one;", 8, 15, "identifier", "comment");
}

#[test]
fn a_fault_of_the_lexer_ends_the_parse_with_its_diagnostic() {
    let d = failure("import \"testing;");
    assert_eq!(d.message, "found unterminated string");
    let span = d.span.unwrap();
    assert_eq!((span.start, span.end), (7, 16));

    let d = failure("package a; /* b");
    assert_eq!(d.message, "found unterminated comment");

    let d = failure("struct s { a: 1.");
    assert_eq!(d.message, "file ended unexpectedly when reading `FloatLiteral`");
}

#[test]
fn only_the_first_problem_is_reported() {
    let (ast, diagnostics) = parse("package ; package ; \"");
    assert_eq!(ast, None);
    assert_eq!(diagnostics.len(), 1);
}

#[test]
fn copies_of_a_tree_are_equal_to_it() {
    let text = "package a.b;\n@x constructor c { repeatable { f?: map<string, d>; } }\nannotation n { k: int32, }\n// done";
    let (ast, _) = parse(text);
    let ast = ast.unwrap();
    assert_eq!(ast.clone(), ast);
    assert_eq!(ast.stmts.len(), 4);
}

#[test]
fn after_a_token_that_does_not_fit_the_parser_stands_behind_it() {
    let ctx = TestContext::new(Database::default(), "package one two; import");
    let mut parser = ctx.parser();
    assert_eq!(parser.advance(), None);
    assert_eq!(parser.lexer.pos, 15);
    assert_eq!(parser.finish().len(), 1);

    let ctx = TestContext::new(Database::default(), "struct s { a: b c }");
    let mut parser = ctx.parser();
    assert_eq!(parser.parse(), None);
    assert_eq!(parser.lexer.pos, 17);

    let ctx = TestContext::new(Database::default(), "import \"a\" ");
    let mut parser = ctx.parser();
    assert_eq!(parser.parse(), None);
    assert_eq!(parser.lexer.pos, 11);
}

#[test]
fn after_a_fault_of_the_lexer_the_parser_stands_at_the_end() {
    let text = "import \"unclosed;\nstruct s {}";
    let ctx = TestContext::new(Database::default(), text);
    let mut parser = ctx.parser();
    assert_eq!(parser.parse(), None);
    assert_eq!(parser.lexer.pos, text.len());
    assert_eq!(parser.advance(), Some(Stmt::Eof));
    assert_eq!(parser.finish().len(), 1);
}

#[test]
fn after_a_statement_the_parser_stands_behind_it() {
    let ctx = TestContext::new(Database::default(), "package a;  import \"b\";");
    let mut parser = ctx.parser();
    assert!(matches!(parser.advance(), Some(Stmt::PackageStmt(_))));
    assert_eq!(parser.lexer.pos, 10);
    assert!(matches!(parser.advance(), Some(Stmt::ImportStmt(_))));
    assert_eq!(parser.lexer.pos, 23);
}
