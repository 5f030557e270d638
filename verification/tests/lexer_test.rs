use hamlc::db::Database;
use hamlc::diagnostics::{Diagnostics, Level};
use hamlc::lexer::{keyword, punctuation, Lexeme, Lexer};
use hamlc::parser::ParseSession;
use hamlc::span::Span;
use hamlc::testing::TestContext;
use hamlc::token::{Token, TokenKind};

/// Every token of `text`, and whether the reading ended in a fault.
fn lex_all(text: &str) -> (Vec<(TokenKind, usize, usize)>, Diagnostics) {
    let ctx = TestContext::new(Database::default(), text);
    let sess = ParseSession::new(&ctx.db, ctx.file);
    let mut lexer = Lexer::new(&sess, Diagnostics::new());
    let mut tokens = vec![];
    while let Some(token) = lexer.advance() {
        assert_eq!(token.span.file, ctx.file);
        tokens.push((token.kind, token.span.start, token.span.end));
    }
    assert_eq!(lexer.advance(), None);
    (tokens, lexer.emitter)
}

#[test]
fn test_lexes_package_statement() {
    let text = "package one.two";

    let db = Database::default();
    let ctx = TestContext::new(db, text);
    let mut lexer = ctx.lexer();

    let span = ctx.span(0, 7);
    let token = Token::new(TokenKind::Package, span);
    assert_eq!(lexer.advance(), Some(token));

    let span = ctx.span(8, 11);
    let token = Token::new(TokenKind::Ident, span);
    assert_eq!(lexer.advance(), Some(token));

    let span = ctx.span(11, 12);
    let token = Token::new(TokenKind::Period, span);
    assert_eq!(lexer.advance(), Some(token));

    let span = ctx.span(12, 15);
    let token = Token::new(TokenKind::Ident, span);
    assert_eq!(lexer.advance(), Some(token));
}

#[test]
fn test_lexes_import_statement() {
    let text = "import \"testing\"";

    let db = Database::default();
    let ctx = TestContext::new(db, text);
    let mut lexer = ctx.lexer();

    let span = ctx.span(0, 6);
    let token = Token::new(TokenKind::Import, span);
    assert_eq!(lexer.advance(), Some(token));

    let span = ctx.span(7, 16);
    let token = Token::new(TokenKind::StringLiteral, span);
    assert_eq!(lexer.advance(), Some(token));
}

#[test]
fn test_lexes_string_literals() {
    let cases = vec!["\"foo\"", "\"foo bar\"", "\"foo bar 1.23 ?\""];

    cases.iter().for_each(|text| {
        let db = Database::default();
        let ctx = TestContext::new(db, text);
        let mut lexer = ctx.lexer();

        let span = ctx.span(0, text.len());
        let token = Token::new(TokenKind::StringLiteral, span);
        assert_eq!(lexer.advance(), Some(token));
    });
}

#[test]
fn test_lexes_identifiers() {
    let cases = vec!["foo", "foo_bar", "FooBar", "_foo", "_Foo9"];

    cases.iter().for_each(|text| {
        let db = Database::default();
        let ctx = TestContext::new(db, text);
        let mut lexer = ctx.lexer();

        let span = ctx.span(0, text.len());
        let expected = Token::new(TokenKind::Ident, span);

        let token = lexer.advance();
        assert_eq!(token, Some(expected));
        assert_eq!(lexer.advance(), None);
    });
}

#[test]
fn test_lexes_numeric_literals() {
    let cases = vec![
        ("1", TokenKind::IntLiteral),
        ("12", TokenKind::IntLiteral),
        ("123", TokenKind::IntLiteral),
        ("123", TokenKind::IntLiteral),
        ("1.2", TokenKind::FloatLiteral),
        ("1.23", TokenKind::FloatLiteral),
        ("12.34", TokenKind::FloatLiteral),
    ];

    cases.iter().for_each(|(text, kind)| {
        let db = Database::default();
        let ctx = TestContext::new(db, text);
        let mut lexer = ctx.lexer();

        let span = ctx.span(0, text.len());
        let expected = Token::new(*kind, span);

        let token = lexer.advance();
        assert_eq!(token, Some(expected));
    });
}

#[test]
fn test_lexes_reserved_characters() {
    let cases = vec![
        ("(", TokenKind::OpenParen),
        (")", TokenKind::CloseParen),
        ("{", TokenKind::OpenBrace),
        ("}", TokenKind::CloseBrace),
        ("<", TokenKind::OpenChevron),
        (">", TokenKind::CloseChevron),
        (":", TokenKind::Colon),
        (";", TokenKind::Semi),
        ("@", TokenKind::At),
        (".", TokenKind::Period),
        ("?", TokenKind::QuestionMark),
    ];

    cases.iter().for_each(|(text, kind)| {
        let db = Database::default();
        let ctx = TestContext::new(db, text);
        let mut lexer = ctx.lexer();

        let span = ctx.span(0, 1);
        let expected = Token::new(*kind, span);

        let token = lexer.advance();
        assert_eq!(token, Some(expected));
    });
}

#[test]
fn comma_is_a_token_of_its_own() {
    let (tokens, diagnostics) = lex_all(",");
    assert_eq!(tokens, vec![(TokenKind::Comma, 0, 1)]);
    assert!(diagnostics.is_empty());
}

#[test]
fn every_keyword_lexes_to_its_kind() {
    let cases = vec![
        ("package", TokenKind::Package),
        ("import", TokenKind::Import),
        ("constructor", TokenKind::Constructor),
        ("annotation", TokenKind::Annotation),
        ("struct", TokenKind::Struct),
        ("map", TokenKind::MapKeyword),
        ("unknown", TokenKind::Unknown),
        ("union", TokenKind::Union),
        ("repeatable", TokenKind::Repeatable),
        ("tagged", TokenKind::Tagged),
        ("uint32", TokenKind::Uint32),
        ("uint64", TokenKind::Uint64),
        ("int32", TokenKind::Int32),
        ("int64", TokenKind::Int64),
        ("float32", TokenKind::Float32),
        ("float64", TokenKind::Float64),
        ("string", TokenKind::String),
    ];
    for (text, kind) in cases {
        let (tokens, diagnostics) = lex_all(text);
        assert_eq!(tokens, vec![(kind, 0, text.len())], "{}", text);
        assert!(diagnostics.is_empty());
        assert_eq!(keyword(text.as_bytes()), kind);
        assert_eq!(kind.name(), text);
    }
}

#[test]
fn a_keyword_within_a_longer_word_is_an_identifier() {
    for text in ["packages", "Package", "map_", "int3", "string2", "_struct"] {
        let (tokens, _) = lex_all(text);
        assert_eq!(tokens, vec![(TokenKind::Ident, 0, text.len())], "{}", text);
    }
    assert_eq!(keyword(b""), TokenKind::Ident);
}

#[test]
fn punctuation_knows_twelve_marks() {
    let marks = b"(){}<>:;,@.?";
    let mut found = 0;
    for b in 0u8..=255 {
        if punctuation(b).is_some() {
            assert!(marks.contains(&b));
            found += 1;
        }
    }
    assert_eq!(found, 12);
}

#[test]
fn white_space_and_control_characters_are_skipped() {
    let (tokens, diagnostics) = lex_all(" \t\r\n\x00\x1f\x7f a \n b\n");
    assert_eq!(tokens, vec![(TokenKind::Ident, 8, 9), (TokenKind::Ident, 12, 13)]);
    assert!(diagnostics.is_empty());
}

#[test]
fn empty_and_blank_texts_have_no_tokens() {
    for text in ["", " ", "\n\n", "\t \r\n"] {
        let (tokens, diagnostics) = lex_all(text);
        assert!(tokens.is_empty());
        assert!(diagnostics.is_empty());
    }
}

#[test]
fn unterminated_string_is_reported_and_ends_the_stream() {
    let (tokens, diagnostics) = lex_all("\"abc");
    assert!(tokens.is_empty());
    assert_eq!(diagnostics.len(), 1);
    let d = diagnostics.get(0).unwrap();
    assert_eq!(d.level, Level::Error);
    assert_eq!(d.message, "found unterminated string");
    assert_eq!(d.span_message.as_deref(), Some("add a `\"` character"));
    let span = d.span.unwrap();
    assert_eq!((span.start, span.end), (0, 4));
}

#[test]
fn tokens_before_a_fault_are_handed_out_and_none_after_it() {
    let (tokens, diagnostics) = lex_all("import \"abc\n;");
    assert_eq!(tokens, vec![(TokenKind::Import, 0, 6)]);
    assert_eq!(diagnostics.len(), 1);
    let span = diagnostics.get(0).unwrap().span.unwrap();
    assert_eq!((span.start, span.end), (7, 13));
}

#[test]
fn a_string_may_hold_anything_but_a_quote() {
    let text = "\"a\nb // é /* \" x";
    let (tokens, diagnostics) = lex_all(text);
    assert_eq!(tokens, vec![(TokenKind::StringLiteral, 0, 15), (TokenKind::Ident, 16, 17)]);
    assert!(diagnostics.is_empty());
}

#[test]
fn a_number_at_the_end_of_the_text_is_a_number() {
    let (tokens, diagnostics) = lex_all("x 42");
    assert_eq!(tokens, vec![(TokenKind::Ident, 0, 1), (TokenKind::IntLiteral, 2, 4)]);
    assert!(diagnostics.is_empty());
}

#[test]
fn a_float_may_lack_digits_behind_its_point() {
    let (tokens, diagnostics) = lex_all("1.;");
    assert_eq!(tokens, vec![(TokenKind::FloatLiteral, 0, 2), (TokenKind::Semi, 2, 3)]);
    assert!(diagnostics.is_empty());
}

#[test]
fn a_float_has_one_point() {
    let (tokens, _) = lex_all("1.2.3");
    assert_eq!(
        tokens,
        vec![
            (TokenKind::FloatLiteral, 0, 3),
            (TokenKind::Period, 3, 4),
            (TokenKind::IntLiteral, 4, 5)
        ]
    );
}

#[test]
fn the_text_may_not_end_behind_the_point_of_a_number() {
    let (tokens, diagnostics) = lex_all("a 12.");
    assert_eq!(tokens, vec![(TokenKind::Ident, 0, 1)]);
    assert_eq!(diagnostics.len(), 1);
    let d = diagnostics.get(0).unwrap();
    assert_eq!(d.message, "file ended unexpectedly when reading `FloatLiteral`");
    assert_eq!(d.span_message.as_deref(), Some("expected more code, but the file ended"));
    let span = d.span.unwrap();
    assert_eq!((span.start, span.end), (2, 5));
}

#[test]
fn a_number_ends_where_a_letter_begins() {
    let (tokens, _) = lex_all("12ab");
    assert_eq!(tokens, vec![(TokenKind::IntLiteral, 0, 2), (TokenKind::Ident, 2, 4)]);
}

#[test]
fn line_comments_run_to_the_end_of_the_line() {
    let (tokens, diagnostics) = lex_all("a // b c\nd //");
    assert_eq!(
        tokens,
        vec![
            (TokenKind::Ident, 0, 1),
            (TokenKind::Comment, 2, 8),
            (TokenKind::Ident, 9, 10),
            (TokenKind::Comment, 11, 13)
        ]
    );
    assert!(diagnostics.is_empty());
}

#[test]
fn block_comments_run_through_their_closing() {
    let (tokens, diagnostics) = lex_all("/* a\n * b **/x/**/y/***/");
    assert_eq!(
        tokens,
        vec![
            (TokenKind::Comment, 0, 13),
            (TokenKind::Ident, 13, 14),
            (TokenKind::Comment, 14, 18),
            (TokenKind::Ident, 18, 19),
            (TokenKind::Comment, 19, 24)
        ]
    );
    assert!(diagnostics.is_empty());
}

#[test]
fn the_star_that_opens_a_block_comment_does_not_close_it() {
    let (tokens, diagnostics) = lex_all("/*/");
    assert!(tokens.is_empty());
    assert_eq!(diagnostics.len(), 1);
    let d = diagnostics.get(0).unwrap();
    assert_eq!(d.message, "found unterminated comment");
    assert_eq!(
        d.span_message.as_deref(),
        Some("this comment must be ended with a `*/` characters")
    );
    let span = d.span.unwrap();
    assert_eq!((span.start, span.end), (0, 3));
}

#[test]
fn unterminated_block_comment_is_reported() {
    let (tokens, diagnostics) = lex_all("a /* b *");
    assert_eq!(tokens, vec![(TokenKind::Ident, 0, 1)]);
    assert_eq!(diagnostics.len(), 1);
    let span = diagnostics.get(0).unwrap().span.unwrap();
    assert_eq!((span.start, span.end), (2, 8));
}

#[test]
fn a_lone_slash_is_invalid() {
    let (tokens, diagnostics) = lex_all("/ a /");
    assert_eq!(
        tokens,
        vec![(TokenKind::Invalid, 0, 1), (TokenKind::Ident, 2, 3), (TokenKind::Invalid, 4, 5)]
    );
    assert!(diagnostics.is_empty());
}

#[test]
fn other_characters_are_invalid_tokens_of_their_own_length() {
    let (tokens, diagnostics) = lex_all("#é€😀a");
    assert_eq!(
        tokens,
        vec![
            (TokenKind::Invalid, 0, 1),
            (TokenKind::Invalid, 1, 3),
            (TokenKind::Invalid, 3, 6),
            (TokenKind::Invalid, 6, 10),
            (TokenKind::Ident, 10, 11)
        ]
    );
    assert!(diagnostics.is_empty());
}

#[test]
fn scan_tells_the_end_from_a_fault() {
    let ctx = TestContext::new(Database::default(), "a");
    let mut lexer = ctx.lexer();
    assert_eq!(
        lexer.scan(),
        Lexeme::Token(Token::new(TokenKind::Ident, Span::new(0, 1, ctx.file)))
    );
    assert_eq!(lexer.scan(), Lexeme::End);
    assert_eq!(lexer.scan(), Lexeme::End);

    let ctx = TestContext::new(Database::default(), "\"");
    let mut lexer = ctx.lexer();
    assert_eq!(lexer.scan(), Lexeme::Fault);
    assert_eq!(lexer.scan(), Lexeme::End);
}

#[test]
fn eof_token_is_empty() {
    let ctx = TestContext::new(Database::default(), "abc");
    let token = Token::eof(3, ctx.file);
    assert_eq!(token.kind, TokenKind::Eof);
    assert_eq!(token.span, Span::new(3, 3, ctx.file));
    assert_eq!(token.span.len(), 0);
}

#[test]
fn token_kinds_have_names_and_labels() {
    assert_eq!(TokenKind::StringLiteral.name(), "string literal");
    assert_eq!(TokenKind::IntLiteral.name(), "int literal");
    assert_eq!(TokenKind::FloatLiteral.name(), "float literal");
    assert_eq!(TokenKind::Ident.name(), "identifier");
    assert_eq!(TokenKind::Invalid.name(), "invalid token");
    assert_eq!(TokenKind::Comment.name(), "comment");
    assert_eq!(TokenKind::Eof.name(), "eof");
    assert_eq!(TokenKind::OpenChevron.to_string(), "<");
    assert_eq!(TokenKind::MapKeyword.label(), "Map");
    assert_eq!(TokenKind::Ident.label(), "Ident");
    assert_eq!(TokenKind::QuestionMark.label(), "QuestionMark");
}
