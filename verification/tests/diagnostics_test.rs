use hamlc::db::Database;
use hamlc::diagnostics::{
    emit_duplicate_identifier, emit_message, emit_unexpected_eof, emit_unexpected_token,
    emit_unterminated_comment, emit_unterminated_string, Diagnostic, Diagnostics, Emitter, Level,
    MockEmitter,
};
use hamlc::format::{
    bold, dim, format_block, format_err, format_plain, green, purple, red, repeated,
    to_decimal,
};
use hamlc::span::Span;
use hamlc::testing::TestContext;
use hamlc::text::{
    get_line_span, get_token_char_col, get_token_line, get_token_line_number, join, join3,
    substring,
};
use hamlc::token::{Token, TokenKind};

fn token(ctx: &TestContext, kind: TokenKind, start: usize, end: usize) -> Token {
    Token::new(kind, Span::new(start, end, ctx.file))
}

#[test]
fn colours_wrap_their_text_in_escape_sequences() {
    assert_eq!(bold("x"), "\x1B[1mx\x1B[0m");
    assert_eq!(red("x"), "\x1B[31mx\x1B[0m");
    assert_eq!(dim("x"), "\x1B[2mx\x1B[0m");
    assert_eq!(purple("x"), "\x1B[34mx\x1B[0m");
    assert_eq!(green("x"), "\x1B[32mx\x1B[0m");
    assert_eq!(bold(""), "\x1B[1m\x1B[0m");
    assert_eq!(bold(&red("error")), "\x1B[1m\x1B[31merror\x1B[0m\x1B[0m");
}

#[test]
fn numbers_are_shown_in_decimal() {
    assert_eq!(to_decimal(0), "0");
    assert_eq!(to_decimal(7), "7");
    assert_eq!(to_decimal(10), "10");
    assert_eq!(to_decimal(1234567890), "1234567890");
    assert_eq!(to_decimal(u128::MAX), "340282366920938463463374607431768211455");
}

#[test]
fn pieces_are_repeated_and_joined() {
    assert_eq!(repeated("-", 0), "");
    assert_eq!(repeated("-", 3), "---");
    assert_eq!(repeated("ab", 2), "abab");
    assert_eq!(join("a", "b"), "ab");
    assert_eq!(join3("a", "", "c"), "ac");
}

#[test]
fn each_situation_has_its_diagnostic() {
    let ctx = TestContext::new(Database::default(), "some text");
    let mut d = Diagnostics::new();
    assert!(d.is_empty());

    emit_message(&mut d, "plain");
    emit_unexpected_eof(&mut d, token(&ctx, TokenKind::IntLiteral, 1, 2));
    emit_duplicate_identifier(&mut d, token(&ctx, TokenKind::Ident, 2, 3));
    emit_unexpected_token(&mut d, token(&ctx, TokenKind::OpenBrace, 3, 4), "a name");
    emit_unterminated_comment(&mut d, token(&ctx, TokenKind::Comment, 4, 5));
    emit_unterminated_string(&mut d, token(&ctx, TokenKind::StringLiteral, 5, 6));
    assert_eq!(d.len(), 6);
    assert!(d.get(6).is_none());

    let expected = vec![
        Diagnostic::new(Level::Error, "plain".to_string(), None, None),
        Diagnostic::new(
            Level::Error,
            "file ended unexpectedly when reading `IntLiteral`".to_string(),
            Some(Span::new(1, 2, ctx.file)),
            Some("expected more code, but the file ended".to_string()),
        ),
        Diagnostic::new(
            Level::Error,
            "type `Ident` defined multiple times".to_string(),
            Some(Span::new(2, 3, ctx.file)),
            Some("there can only be one type with this name".to_string()),
        ),
        Diagnostic::new(
            Level::Error,
            "expected a name but found a {".to_string(),
            Some(Span::new(3, 4, ctx.file)),
            Some("expected a name".to_string()),
        ),
        Diagnostic::new(
            Level::Error,
            "found unterminated comment".to_string(),
            Some(Span::new(4, 5, ctx.file)),
            Some("this comment must be ended with a `*/` characters".to_string()),
        ),
        Diagnostic::new(
            Level::Error,
            "found unterminated string".to_string(),
            Some(Span::new(5, 6, ctx.file)),
            Some("add a `\"` character".to_string()),
        ),
    ];
    assert_eq!(d.items, expected);
    assert_eq!(d.clone(), d);
}

#[test]
fn the_accumulator_is_an_emitter() {
    let ctx = TestContext::new(Database::default(), "some text");
    let mut by_method = Diagnostics::new();
    by_method.emit_message("plain");
    by_method.emit_unexpected_eof(token(&ctx, TokenKind::IntLiteral, 1, 2));
    by_method.emit_duplicate_identifier(token(&ctx, TokenKind::Ident, 2, 3));
    by_method.emit_unexpected_token(token(&ctx, TokenKind::OpenBrace, 3, 4), "a name");
    by_method.emit_unterminated_comment(token(&ctx, TokenKind::Comment, 4, 5));
    by_method.emit_unterminated_string(token(&ctx, TokenKind::StringLiteral, 5, 6));

    let mut by_function = Diagnostics::new();
    emit_message(&mut by_function, "plain");
    emit_unexpected_eof(&mut by_function, token(&ctx, TokenKind::IntLiteral, 1, 2));
    emit_duplicate_identifier(&mut by_function, token(&ctx, TokenKind::Ident, 2, 3));
    emit_unexpected_token(&mut by_function, token(&ctx, TokenKind::OpenBrace, 3, 4), "a name");
    emit_unterminated_comment(&mut by_function, token(&ctx, TokenKind::Comment, 4, 5));
    emit_unterminated_string(&mut by_function, token(&ctx, TokenKind::StringLiteral, 5, 6));
    assert_eq!(by_method, by_function);
}

#[test]
fn the_mock_emitter_takes_every_report() {
    let ctx = TestContext::new(Database::default(), "some text");
    let mut mock = MockEmitter::new();
    mock.emit_message("plain");
    mock.emit_unexpected_eof(token(&ctx, TokenKind::IntLiteral, 1, 2));
    mock.emit_duplicate_identifier(token(&ctx, TokenKind::Ident, 2, 3));
    mock.emit_unexpected_token(token(&ctx, TokenKind::OpenBrace, 3, 4), "a name");
    mock.emit_unterminated_comment(token(&ctx, TokenKind::Comment, 4, 5));
    mock.emit_unterminated_string(token(&ctx, TokenKind::StringLiteral, 5, 6));
}

#[test]
fn a_position_is_in_the_line_that_holds_it() {
    let text = "ab\ncd\n\nef";
    // A line feed belongs to the line that it ends, and the end of a text
    // without a last line feed to its last line.
    let expected = [0, 0, 0, 1, 1, 1, 2, 3, 3, 3];
    for (start, line) in expected.iter().enumerate() {
        assert_eq!(get_token_line_number(text, start), Some(*line), "{}", start);
    }
    assert_eq!(get_token_line_number(text, 10), None);
    assert_eq!(get_token_line_number("", 0), None);
    assert_eq!(get_token_line_number("a", 0), Some(0));
    assert_eq!(get_token_line_number("a", 1), Some(0));
    assert_eq!(get_token_line_number("a", 2), None);
    assert_eq!(get_token_line_number("a\n", 1), Some(0));
    assert_eq!(get_token_line_number("a\n", 2), None);
    assert_eq!(get_token_line_number("\n\nx", 2), Some(2));
}

#[test]
fn columns_count_from_one_within_the_line() {
    let text = "ab\ncd\n\nef";
    let expected = [1, 2, 3, 1, 2, 3, 1, 1, 2, 3];
    for (start, col) in expected.iter().enumerate() {
        assert_eq!(get_token_char_col(text, start), Some(*col), "{}", start);
    }
    assert_eq!(get_token_char_col(text, 10), None);
    assert_eq!(get_token_char_col("", 0), None);
    assert_eq!(get_token_char_col("a\n", 2), None);
}

#[test]
fn the_line_of_a_position_comes_with_its_start_and_its_text() {
    let text = "ab\ncd\n\néf";
    assert_eq!(get_token_line(text, 0), Some((0, 0, "ab")));
    assert_eq!(get_token_line(text, 2), Some((0, 0, "ab")));
    assert_eq!(get_token_line(text, 3), Some((1, 3, "cd")));
    assert_eq!(get_token_line(text, 5), Some((1, 3, "cd")));
    assert_eq!(get_token_line(text, 6), Some((2, 6, "")));
    assert_eq!(get_token_line(text, 8), Some((3, 7, "éf")));
    assert_eq!(get_token_line(text, 10), Some((3, 7, "éf")));
    assert_eq!(get_token_line(text, 11), None);
    assert_eq!(get_token_line("", 0), None);
    assert_eq!(get_token_line("a\r\nb", 1), Some((0, 0, "a\r")));
}

#[test]
fn a_span_at_the_first_byte_of_a_line_is_shown_in_that_line() {
    let ctx = TestContext::new(Database::default(), "ab\ncd");
    let d = Diagnostic::new(
        Level::Error,
        "m".to_string(),
        Some(ctx.span(3, 4)),
        Some("s".to_string()),
    );
    let expected = concat_lines(&[
        "  \x1B[1m\x1B[31merror\x1B[0m\x1B[0m\x1B[1m: m\x1B[0m",
        "  \x1B[2m  \x1B[0mfile.haml:2:1",
        "\x1B[2m     |\x1B[0m",
        "   2 \x1B[2m|\x1B[0m cd",
        "     \x1B[2m|\x1B[0m \x1B[1m\x1B[34m-\x1B[0m\x1B[0m \x1B[1m\x1B[34ms\x1B[0m\x1B[0m",
    ]);
    assert_eq!(d.to_user_message(&ctx.db, &ctx.file), expected);
}

#[test]
fn a_span_at_the_end_of_the_text_is_shown_in_the_last_line() {
    let ctx = TestContext::new(Database::default(), "ab\ncd");
    let d = Diagnostic::new(
        Level::Error,
        "m".to_string(),
        Some(ctx.span(5, 5)),
        Some("s".to_string()),
    );
    let expected = concat_lines(&[
        "  \x1B[1m\x1B[31merror\x1B[0m\x1B[0m\x1B[1m: m\x1B[0m",
        "  \x1B[2m  \x1B[0mfile.haml:2:3",
        "\x1B[2m     |\x1B[0m",
        "   2 \x1B[2m|\x1B[0m cd",
        "     \x1B[2m|\x1B[0m   \x1B[1m\x1B[34m\x1B[0m\x1B[0m \x1B[1m\x1B[34ms\x1B[0m\x1B[0m",
    ]);
    assert_eq!(d.to_user_message(&ctx.db, &ctx.file), expected);
}

#[test]
fn lines_are_found_by_number() {
    let text = "ab\ncd\n\nef";
    assert_eq!(get_line_span(text, 0), Some("ab"));
    assert_eq!(get_line_span(text, 1), Some("cd"));
    assert_eq!(get_line_span(text, 2), Some(""));
    assert_eq!(get_line_span(text, 3), Some("ef"));
    assert_eq!(get_line_span(text, 4), None);
    assert_eq!(get_line_span("ab\n", 0), Some("ab"));
    assert_eq!(get_line_span("ab\n", 1), None);
    assert_eq!(get_line_span("", 0), None);
    assert_eq!(get_line_span("é\nü€", 1), Some("ü€"));
    assert_eq!(get_line_span("a\r\nb", 0), Some("a\r"));
}

#[test]
fn substrings_lie_on_character_boundaries() {
    let text = "aé€b";
    assert_eq!(substring(text, 0, 0), Some(""));
    assert_eq!(substring(text, 0, 1), Some("a"));
    assert_eq!(substring(text, 1, 3), Some("é"));
    assert_eq!(substring(text, 3, 6), Some("€"));
    assert_eq!(substring(text, 0, 7), Some(text));
    assert_eq!(substring(text, 7, 7), Some(""));
    assert_eq!(substring(text, 1, 2), None);
    assert_eq!(substring(text, 2, 3), None);
    assert_eq!(substring(text, 4, 6), None);
    assert_eq!(substring(text, 3, 2), None);
    assert_eq!(substring(text, 0, 8), None);
    assert_eq!(substring(text, 8, 9), None);
}

#[test]
fn a_block_of_five_lines_is_laid_out_exactly() {
    let actual = format_err("bad thing", "dir/file.haml", 0, "package one two;", 13, 3, "fix it");
    let expected = concat_lines(&[
        "  \x1B[1m\x1B[31merror\x1B[0m\x1B[0m\x1B[1m: bad thing\x1B[0m",
        "  \x1B[2m  \x1B[0mdir/file.haml:1:13",
        "\x1B[2m     |\x1B[0m",
        "   1 \x1B[2m|\x1B[0m package one two;",
        "     \x1B[2m|\x1B[0m             \x1B[1m\x1B[34m---\x1B[0m\x1B[0m \x1B[1m\x1B[34mfix it\x1B[0m\x1B[0m",
    ]);
    assert_eq!(actual, expected);
}

#[test]
fn the_gutter_grows_with_the_line_number() {
    let actual = format_err("m", "p", 99, "line", 1, 1, "r");
    let expected = concat_lines(&[
        "  \x1B[1m\x1B[31merror\x1B[0m\x1B[0m\x1B[1m: m\x1B[0m",
        "  \x1B[2m  \x1B[0mp:100:1",
        "\x1B[2m       |\x1B[0m",
        "   100 \x1B[2m|\x1B[0m line",
        "       \x1B[2m|\x1B[0m \x1B[1m\x1B[34m-\x1B[0m\x1B[0m \x1B[1m\x1B[34mr\x1B[0m\x1B[0m",
    ]);
    assert_eq!(actual, expected);

    let actual = format_err("m", "p", 9, "line", 0, 0, "r");
    let expected = concat_lines(&[
        "  \x1B[1m\x1B[31merror\x1B[0m\x1B[0m\x1B[1m: m\x1B[0m",
        "  \x1B[2m  \x1B[0mp:10:0",
        "\x1B[2m      |\x1B[0m",
        "   10 \x1B[2m|\x1B[0m line",
        "      \x1B[2m|\x1B[0m\x1B[1m\x1B[34m\x1B[0m\x1B[0m \x1B[1m\x1B[34mr\x1B[0m\x1B[0m",
    ]);
    assert_eq!(actual, expected);
}

#[test]
fn a_block_may_have_a_column_beyond_usize() {
    let wide = format_block("m", "p", 0, "line", 1, 1, "r");
    assert_eq!(wide, format_err("m", "p", 0, "line", 1, 1, "r"));
    let actual = format_block("m", "p", 0, "", 3, 0, "");
    assert!(actual.contains("p:1:3"));
}

#[test]
fn the_largest_line_number_is_shown() {
    let actual = format_err("m", "p", usize::MAX, "", 0, 0, "");
    let number = (usize::MAX as u128 + 1).to_string();
    assert!(actual.contains(&format!("p:{}:0", number)));
}

#[test]
fn a_message_without_a_place_names_the_file_only() {
    let actual = format_plain("could not read", "a/b.haml");
    let expected = concat_lines(&[
        "  \x1B[1m\x1B[31merror\x1B[0m\x1B[0m\x1B[1m: could not read\x1B[0m",
        "  \x1B[2m  \x1B[0ma/b.haml",
    ]);
    assert_eq!(actual, expected);
}

fn concat_lines(lines: &[&str]) -> String {
    lines.join("\n")
}

#[test]
fn a_diagnostic_of_the_parser_is_shown_where_it_arose() {
    let text = "package one two;";
    let ctx = TestContext::new(Database::default(), text);
    let mut parser = ctx.parser();
    assert_eq!(parser.parse(), None);
    let diagnostics = parser.finish();
    let actual = diagnostics.get(0).unwrap().to_user_message(&ctx.db, &ctx.file);
    let expected = concat_lines(&[
        "  \x1B[1m\x1B[31merror\x1B[0m\x1B[0m\x1B[1m: expected period or semicolon but found a identifier\x1B[0m",
        "  \x1B[2m  \x1B[0mfile.haml:1:13",
        "\x1B[2m     |\x1B[0m",
        "   1 \x1B[2m|\x1B[0m package one two;",
        "     \x1B[2m|\x1B[0m             \x1B[1m\x1B[34m---\x1B[0m\x1B[0m \x1B[1m\x1B[34mexpected period or semicolon\x1B[0m\x1B[0m",
    ]);
    assert_eq!(actual, expected);
}

#[test]
fn a_diagnostic_on_a_later_line_shows_that_line() {
    let text = "package a;\nimport x;\n";
    let ctx = TestContext::new(Database::default(), text);
    let mut parser = ctx.parser();
    assert_eq!(parser.parse(), None);
    let diagnostics = parser.finish();
    let d = diagnostics.get(0).unwrap();
    assert_eq!(d.span, Some(Span::new(18, 19, ctx.file)));
    let actual = d.to_user_message(&ctx.db, &ctx.file);
    let expected = concat_lines(&[
        "  \x1B[1m\x1B[31merror\x1B[0m\x1B[0m\x1B[1m: expected string literal but found a identifier\x1B[0m",
        "  \x1B[2m  \x1B[0mfile.haml:2:8",
        "\x1B[2m     |\x1B[0m",
        "   2 \x1B[2m|\x1B[0m import x;",
        "     \x1B[2m|\x1B[0m        \x1B[1m\x1B[34m-\x1B[0m\x1B[0m \x1B[1m\x1B[34mexpected string literal\x1B[0m\x1B[0m",
    ]);
    assert_eq!(actual, expected);
}

#[test]
fn a_diagnostic_without_span_or_span_message_is_shown_plainly() {
    let ctx = TestContext::new(Database::default(), "package a;");
    let plain = concat_lines(&[
        "  \x1B[1m\x1B[31merror\x1B[0m\x1B[0m\x1B[1m: m\x1B[0m",
        "  \x1B[2m  \x1B[0mfile.haml",
    ]);
    let d = Diagnostic::new(Level::Error, "m".to_string(), None, None);
    assert_eq!(d.to_user_message(&ctx.db, &ctx.file), plain);
    let d = Diagnostic::new(Level::Warning, "m".to_string(), Some(ctx.span(0, 7)), None);
    assert_eq!(d.to_user_message(&ctx.db, &ctx.file), plain);
    let d = Diagnostic::new(Level::Info, "m".to_string(), None, Some("s".to_string()));
    assert_eq!(d.to_user_message(&ctx.db, &ctx.file), plain);
    // A span that begins where the text has no line.
    let d = Diagnostic::new(
        Level::Error,
        "m".to_string(),
        Some(ctx.span(11, 11)),
        Some("s".to_string()),
    );
    assert_eq!(d.to_user_message(&ctx.db, &ctx.file), plain);
    assert_eq!(d.clone(), d);
}

#[test]
fn spans_have_a_length() {
    let ctx = TestContext::new(Database::default(), "abc");
    assert_eq!(ctx.span(1, 3).len(), 2);
    assert_eq!(ctx.span(2, 2).len(), 0);
    assert_eq!(ctx.span(3, 1).len(), 0);
    assert_eq!(Span::new(4, 9, ctx.file), ctx.span(4, 9));
}

#[test]
fn diagnostics_are_kept_in_the_order_of_their_reports() {
    let mut d = Diagnostics::new();
    d.push(Diagnostic::new(Level::Warning, "first".to_string(), None, None));
    d.push(Diagnostic::new(Level::Info, "second".to_string(), None, None));
    assert_eq!(d.len(), 2);
    assert!(!d.is_empty());
    assert_eq!(d.get(0).unwrap().message, "first");
    assert_eq!(d.get(0).unwrap().level, Level::Warning);
    assert_eq!(d.get(1).unwrap().message, "second");
    assert!(d.get(2).is_none());
}

#[test]
fn the_underline_is_as_long_as_the_span() {
    let text = "struct s { a: \"unclosed\n}";
    let ctx = TestContext::new(Database::default(), text);
    let mut parser = ctx.parser();
    assert_eq!(parser.parse(), None);
    let diagnostics = parser.finish();
    let d = diagnostics.get(0).unwrap();
    assert_eq!(d.span, Some(Span::new(14, 25, ctx.file)));
    let shown = d.to_user_message(&ctx.db, &ctx.file);
    let lines: Vec<&str> = shown.split('\n').collect();
    assert_eq!(lines.len(), 5);
    assert_eq!(lines[1], "  \x1B[2m  \x1B[0mfile.haml:1:15");
    assert_eq!(lines[3], "   1 \x1B[2m|\x1B[0m struct s { a: \"unclosed");
    assert_eq!(
        lines[4],
        format!(
            "     \x1B[2m|\x1B[0m{}\x1B[1m\x1B[34m{}\x1B[0m\x1B[0m \x1B[1m\x1B[34madd a `\"` character\x1B[0m\x1B[0m",
            " ".repeat(15),
            "-".repeat(11)
        )
    );
}
