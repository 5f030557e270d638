use hamlc::db::Database;
use hamlc::error::{
    format_semantic_err, format_syntax_err, GenericError, SemanticError, SyntaxError,
};
use hamlc::lexer::LexFault;
use hamlc::span::Span;
use hamlc::testing::TestContext;
use hamlc::token::{Token, TokenKind};

fn token(text: &str, kind: TokenKind, start: usize, end: usize) -> Token {
    let ctx = TestContext::new(Database::default(), text);
    Token::new(kind, Span::new(start, end, ctx.file))
}

#[test]
fn faults_are_syntax_errors() {
    assert_eq!(SyntaxError::of_fault(LexFault::UnterminatedString), SyntaxError::UnterminatedString);
    assert_eq!(
        SyntaxError::of_fault(LexFault::UnterminatedComment),
        SyntaxError::UnterminatedComment
    );
    assert_eq!(SyntaxError::of_fault(LexFault::UnexpectedEof), SyntaxError::UnexpectedEof);
}

#[test]
fn syntax_errors_have_a_summary() {
    let text = "package one two;";
    let found = token(text, TokenKind::Ident, 12, 15);
    let err = SyntaxError::UnexpectedToken(found, "period or semicolon".to_string());
    assert_eq!(err.to_string(), "Unexpected token: expected period or semicolon but found Ident");
    assert_eq!(SyntaxError::UnexpectedEof.to_string(), "Unexpected EOF");
    assert_eq!(SyntaxError::UnterminatedString.to_string(), "Unterminated string");
    assert_eq!(SyntaxError::UnterminatedComment.to_string(), "Unterminated comment");
}

#[test]
fn an_unexpected_token_is_shown_with_its_line_and_text() {
    let text = "package a;\npackage one two;";
    let found = token(text, TokenKind::Ident, 23, 26);
    let err = SyntaxError::UnexpectedToken(found, "period or semicolon".to_string());
    assert_eq!(
        format_syntax_err(text, err.clone()),
        "Syntax error on line 1: expected period or semicolon but found \"two\""
    );
    assert_eq!(
        hamlc::error::format("file.haml", text, GenericError::Syntax(err)),
        "Syntax error on line 1: expected period or semicolon but found \"two\""
    );
}

#[test]
fn an_unexpected_token_outside_the_text_is_shown_without_a_place() {
    let text = "package";
    let found = token(text, TokenKind::Eof, 9, 9);
    let err = SyntaxError::UnexpectedToken(found, "identifier".to_string());
    assert_eq!(
        format_syntax_err(text, err),
        "Unexpected token: expected identifier but found Eof"
    );
}

#[test]
fn other_syntax_errors_are_shown_by_their_summary() {
    assert_eq!(format_syntax_err("x", SyntaxError::UnexpectedEof), "Unexpected EOF");
    assert_eq!(format_syntax_err("x", SyntaxError::UnterminatedString), "Unterminated string");
    assert_eq!(format_syntax_err("x", SyntaxError::UnterminatedComment), "Unterminated comment");
}

#[test]
fn a_duplicate_is_shown_as_a_block() {
    let text = "struct one {}\nstruct one {}\n";
    let duplicate = token(text, TokenKind::Ident, 21, 24);
    let err = SemanticError::DuplicateIdentifier { duplicate };
    let expected = [
        "  \x1B[1m\x1B[31merror\x1B[0m\x1B[0m\x1B[1m: Found duplicate identifier \"one\"\x1B[0m",
        "  \x1B[2m  \x1B[0mdir/a.haml:2:8",
        "\x1B[2m     |\x1B[0m",
        "   2 \x1B[2m|\x1B[0m struct one {}",
        "     \x1B[2m|\x1B[0m        \x1B[1m\x1B[34m---\x1B[0m\x1B[0m \x1B[1m\x1B[34mthere can only be one type with this name\x1B[0m\x1B[0m",
    ]
    .join("\n");
    assert_eq!(format_semantic_err("dir/a.haml", text, err.clone()), expected);
    assert_eq!(hamlc::error::format("dir/a.haml", text, GenericError::Semantic(err)), expected);
}

#[test]
fn a_duplicate_outside_the_text_is_shown_plainly() {
    let text = "struct one {}";
    let duplicate = token(text, TokenKind::Ident, 40, 43);
    let err = SemanticError::DuplicateIdentifier { duplicate };
    let expected = [
        "  \x1B[1m\x1B[31merror\x1B[0m\x1B[0m\x1B[1m: Found duplicate identifier\x1B[0m",
        "  \x1B[2m  \x1B[0ma.haml",
    ]
    .join("\n");
    assert_eq!(format_semantic_err("a.haml", text, err), expected);
}

#[test]
fn semantic_errors_have_a_summary() {
    let duplicate = token("struct a {} struct a {}", TokenKind::Ident, 19, 20);
    let err = SemanticError::DuplicateIdentifier { duplicate };
    let expected = format!("duplicate identifier: {:?} already defined", duplicate);
    assert_eq!(err.to_string(), expected);
    assert_eq!(
        err.to_string(),
        "duplicate identifier: Token { kind: Ident, span: Span { start: 19, end: 20, file: SourceFile { id: 0 } } } already defined"
    );
    assert_eq!(GenericError::Semantic(err).to_string(), expected);
    assert_eq!(GenericError::Syntax(SyntaxError::UnexpectedEof).to_string(), "Unexpected EOF");
    assert_eq!(hamlc::error::token_summary(&duplicate), format!("{:?}", duplicate));
}
