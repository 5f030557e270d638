//! The lexer: a pull-based tokenizer over the text of one source file.
//!
//! `lex` says, for a text and a position in it, what the next token is.
//! The `Lexer` computes it, one call of `advance` for one token.

use crate::chars::{
    is_digit, is_id_head, lemma_run_end, run_end, spec_is_digit, spec_is_id_head, ByteClass, AT,
    CLOSE_BRACE, CLOSE_CHEVRON, CLOSE_PAREN, COLON, COMMA, OPEN_BRACE, OPEN_CHEVRON, OPEN_PAREN,
    PERIOD, QUESTION_MARK, QUOTE, SEMI, SLASH, STAR,
};
use crate::diagnostics::{
    report_unexpected_eof, report_unterminated_comment, report_unterminated_string,
    DiagnosticView, Emitter,
};
use crate::parser::ParseSession;
use crate::span::{SourceFile, Span};
use crate::token::{Token, TokenKind};
use vstd::prelude::*;
use vstd::slice::*;
use vstd::string::*;

verus! {

/// Why a text cannot be read to its end.
#[derive(Clone, Copy, Debug, PartialEq, Eq, Structural)]
pub enum LexFault {
    /// A string literal is not closed before the text ends.
    UnterminatedString,
    /// A block comment is not closed before the text ends.
    UnterminatedComment,
    /// The text ends within a numeric literal, right after its `.`.
    UnexpectedEof,
}

/// What stands at a position of a text.
pub enum Lexed {
    /// A token of `kind` over the bytes `[start, end)`.
    Token { kind: TokenKind, start: int, end: int },
    /// Nothing but white space is left.
    End,
    /// The token of `kind` that begins at `start` cannot be completed.
    Fault { fault: LexFault, kind: TokenKind, start: int, end: int },
}

/// The token kind of a one-byte punctuation mark.
pub open spec fn spec_punctuation(b: u8) -> Option<TokenKind> {
    if b == OPEN_PAREN {
        Some(TokenKind::OpenParen)
    } else if b == CLOSE_PAREN {
        Some(TokenKind::CloseParen)
    } else if b == OPEN_BRACE {
        Some(TokenKind::OpenBrace)
    } else if b == CLOSE_BRACE {
        Some(TokenKind::CloseBrace)
    } else if b == OPEN_CHEVRON {
        Some(TokenKind::OpenChevron)
    } else if b == CLOSE_CHEVRON {
        Some(TokenKind::CloseChevron)
    } else if b == COLON {
        Some(TokenKind::Colon)
    } else if b == SEMI {
        Some(TokenKind::Semi)
    } else if b == COMMA {
        Some(TokenKind::Comma)
    } else if b == AT {
        Some(TokenKind::At)
    } else if b == PERIOD {
        Some(TokenKind::Period)
    } else if b == QUESTION_MARK {
        Some(TokenKind::QuestionMark)
    } else {
        None
    }
}

/// The kind of a word: the keyword that is spelled exactly so, else `Ident`.
pub open spec fn spec_keyword(word: Seq<u8>) -> TokenKind {
    if word == "import".spec_bytes() {
        TokenKind::Import
    } else if word == "package".spec_bytes() {
        TokenKind::Package
    } else if word == "constructor".spec_bytes() {
        TokenKind::Constructor
    } else if word == "annotation".spec_bytes() {
        TokenKind::Annotation
    } else if word == "struct".spec_bytes() {
        TokenKind::Struct
    } else if word == "map".spec_bytes() {
        TokenKind::MapKeyword
    } else if word == "unknown".spec_bytes() {
        TokenKind::Unknown
    } else if word == "union".spec_bytes() {
        TokenKind::Union
    } else if word == "repeatable".spec_bytes() {
        TokenKind::Repeatable
    } else if word == "tagged".spec_bytes() {
        TokenKind::Tagged
    } else if word == "uint32".spec_bytes() {
        TokenKind::Uint32
    } else if word == "uint64".spec_bytes() {
        TokenKind::Uint64
    } else if word == "int32".spec_bytes() {
        TokenKind::Int32
    } else if word == "int64".spec_bytes() {
        TokenKind::Int64
    } else if word == "float32".spec_bytes() {
        TokenKind::Float32
    } else if word == "float64".spec_bytes() {
        TokenKind::Float64
    } else if word == "string".spec_bytes() {
        TokenKind::String
    } else {
        TokenKind::Ident
    }
}

/// Where the block comment whose body begins at `from` ends: just behind the
/// first `*/` at or after `from`, if there is one.
pub open spec fn block_comment_end(text: Seq<u8>, from: int) -> Option<int>
    decreases text.len() - from,
{
    if from < 0 || from + 1 >= text.len() {
        None
    } else if text[from] == STAR && text[from + 1] == SLASH {
        Some(from + 2)
    } else {
        block_comment_end(text, from + 1)
    }
}

/// A string literal that begins with the `"` at `start`: it runs through the
/// next `"`.
pub open spec fn lex_string(text: Seq<u8>, start: int) -> Lexed {
    let close = run_end(text, start + 1, ByteClass::NotQuote);
    if close < text.len() {
        Lexed::Token { kind: TokenKind::StringLiteral, start, end: close + 1 }
    } else {
        Lexed::Fault {
            fault: LexFault::UnterminatedString,
            kind: TokenKind::StringLiteral,
            start,
            end: text.len() as int,
        }
    }
}

/// A numeric literal that begins with the digit at `start`: a run of digits,
/// and, if a `.` follows, the `.` and a second run of digits. The text may
/// not end right after the `.`.
pub open spec fn lex_number(text: Seq<u8>, start: int) -> Lexed {
    let whole = run_end(text, start + 1, ByteClass::Digit);
    if whole < text.len() && text[whole] == PERIOD {
        if whole + 1 < text.len() {
            Lexed::Token {
                kind: TokenKind::FloatLiteral,
                start,
                end: run_end(text, whole + 1, ByteClass::Digit),
            }
        } else {
            Lexed::Fault {
                fault: LexFault::UnexpectedEof,
                kind: TokenKind::FloatLiteral,
                start,
                end: text.len() as int,
            }
        }
    } else {
        Lexed::Token { kind: TokenKind::IntLiteral, start, end: whole }
    }
}

/// An identifier or keyword that begins at `start`.
pub open spec fn lex_word(text: Seq<u8>, start: int) -> Lexed {
    let end = run_end(text, start + 1, ByteClass::IdBody);
    Lexed::Token { kind: spec_keyword(text.subrange(start, end)), start, end }
}

/// What begins with the `/` at `start`: a comment to the end of the line, a
/// block comment, or a `/` that begins nothing.
pub open spec fn lex_comment(text: Seq<u8>, start: int) -> Lexed {
    if start + 1 < text.len() && text[start + 1] == SLASH {
        Lexed::Token {
            kind: TokenKind::Comment,
            start,
            end: run_end(text, start + 2, ByteClass::NotNewline),
        }
    } else if start + 1 < text.len() && text[start + 1] == STAR {
        match block_comment_end(text, start + 2) {
            Some(end) => Lexed::Token { kind: TokenKind::Comment, start, end },
            None => Lexed::Fault {
                fault: LexFault::UnterminatedComment,
                kind: TokenKind::Comment,
                start,
                end: text.len() as int,
            },
        }
    } else {
        Lexed::Token { kind: TokenKind::Invalid, start, end: start + 1 }
    }
}

/// A character that begins no token: the byte at `start` and the bytes that
/// continue its UTF-8 sequence.
pub open spec fn lex_invalid(text: Seq<u8>, start: int) -> Lexed {
    Lexed::Token {
        kind: TokenKind::Invalid,
        start,
        end: run_end(text, start + 1, ByteClass::Continuation),
    }
}

/// The token that begins at `start`, a position that holds a byte other
/// than white space.
pub open spec fn lex_at(text: Seq<u8>, start: int) -> Lexed {
    let b = text[start];
    match spec_punctuation(b) {
        Some(kind) => Lexed::Token { kind, start, end: start + 1 },
        None => if b == QUOTE {
            lex_string(text, start)
        } else if spec_is_digit(b) {
            lex_number(text, start)
        } else if spec_is_id_head(b) {
            lex_word(text, start)
        } else if b == SLASH {
            lex_comment(text, start)
        } else {
            lex_invalid(text, start)
        },
    }
}

/// What the lexer yields when it stands at `pos`: white space is skipped,
/// and the token that begins behind it is read.
pub open spec fn lex(text: Seq<u8>, pos: int) -> Lexed {
    let start = run_end(text, pos, ByteClass::Whitespace);
    if start >= text.len() {
        Lexed::End
    } else {
        lex_at(text, start)
    }
}

/// The token of `kind` over the bytes `[start, end)` of `file`.
pub open spec fn token_at(kind: TokenKind, start: int, end: int, file: SourceFile) -> Token {
    Token { kind, span: Span { start: start as usize, end: end as usize, file } }
}

/// The diagnostic that a fault is reported with.
pub open spec fn fault_report(fault: LexFault, token: Token) -> DiagnosticView {
    match fault {
        LexFault::UnterminatedString => report_unterminated_string(token),
        LexFault::UnterminatedComment => report_unterminated_comment(token),
        LexFault::UnexpectedEof => report_unexpected_eof(token),
    }
}

/// A block comment ends inside the text and behind its opening.
pub proof fn lemma_block_comment_end(text: Seq<u8>, from: int)
    requires
        0 <= from,
    ensures
        block_comment_end(text, from) matches Some(end) ==> from + 2 <= end <= text.len()
            && text[end - 2] == STAR && text[end - 1] == SLASH,
    decreases text.len() - from,
{
    if from + 1 < text.len() && !(text[from] == STAR && text[from + 1] == SLASH) {
        lemma_block_comment_end(text, from + 1);
    }
}

/// A token is never empty and lies inside the text, behind the position
/// that it was read from; a fault reaches to the end of the text.
pub proof fn lemma_lex_bounds(text: Seq<u8>, pos: int)
    requires
        0 <= pos <= text.len(),
    ensures
        (lex(text, pos) matches Lexed::Token { kind, start, end } ==> pos <= start < end
            <= text.len() && kind != TokenKind::Eof),
        (lex(text, pos) matches Lexed::Fault { fault, kind, start, end } ==> pos <= start < end
            == text.len()),
{
    lemma_run_end(text, pos, ByteClass::Whitespace);
    let start = run_end(text, pos, ByteClass::Whitespace);
    if start < text.len() {
        lemma_run_end(text, start + 1, ByteClass::NotQuote);
        lemma_run_end(text, start + 1, ByteClass::Digit);
        lemma_run_end(text, start + 1, ByteClass::IdBody);
        lemma_run_end(text, start + 1, ByteClass::Continuation);
        let whole = run_end(text, start + 1, ByteClass::Digit);
        if whole + 1 <= text.len() {
            lemma_run_end(text, whole + 1, ByteClass::Digit);
        }
        if start + 2 <= text.len() {
            lemma_run_end(text, start + 2, ByteClass::NotNewline);
            lemma_block_comment_end(text, start + 2);
        }
    }
}

/// What one step of the lexer gives.
#[derive(Clone, Copy, Debug, PartialEq, Eq, Structural)]
pub enum Lexeme {
    Token(Token),
    /// The text is read to its end.
    End,
    /// A fault was reported; nothing more will be read.
    Fault,
}

/// Turns the text of one source file into tokens.
pub struct Lexer<'a, E: Emitter> {
    pub text: &'a str,
    pub file: SourceFile,
    /// Where the token that is being read begins.
    pub pos: usize,
    /// The next byte to read.
    pub cursor: usize,
    pub emitter: E,
}

/// Whether `word` is spelled as `literal`.
fn spelled(word: &[u8], literal: &str) -> (r: bool)
    ensures
        r == (word@ == literal.spec_bytes()),
{
    let b = literal.as_bytes();
    if word.len() != b.len() {
        return false;
    }
    let mut i: usize = 0;
    while i < word.len()
        invariant
            i <= word.len(),
            word.len() == b.len(),
            b@ == literal.spec_bytes(),
            forall|j: int| 0 <= j < i ==> word@[j] == b@[j],
        decreases word.len() - i,
    {
        if word[i] != b[i] {
            return false;
        }
        i = i + 1;
    }
    assert(word@ =~= b@);
    true
}

/// The kind of a word: a keyword's, or `Ident`.
pub fn keyword(word: &[u8]) -> (kind: TokenKind)
    ensures
        kind == spec_keyword(word@),
{
    if spelled(word, "import") {
        TokenKind::Import
    } else if spelled(word, "package") {
        TokenKind::Package
    } else if spelled(word, "constructor") {
        TokenKind::Constructor
    } else if spelled(word, "annotation") {
        TokenKind::Annotation
    } else if spelled(word, "struct") {
        TokenKind::Struct
    } else if spelled(word, "map") {
        TokenKind::MapKeyword
    } else if spelled(word, "unknown") {
        TokenKind::Unknown
    } else if spelled(word, "union") {
        TokenKind::Union
    } else if spelled(word, "repeatable") {
        TokenKind::Repeatable
    } else if spelled(word, "tagged") {
        TokenKind::Tagged
    } else if spelled(word, "uint32") {
        TokenKind::Uint32
    } else if spelled(word, "uint64") {
        TokenKind::Uint64
    } else if spelled(word, "int32") {
        TokenKind::Int32
    } else if spelled(word, "int64") {
        TokenKind::Int64
    } else if spelled(word, "float32") {
        TokenKind::Float32
    } else if spelled(word, "float64") {
        TokenKind::Float64
    } else if spelled(word, "string") {
        TokenKind::String
    } else {
        TokenKind::Ident
    }
}

/// The token kind of a one-byte punctuation mark, if `b` is one.
pub fn punctuation(b: u8) -> (kind: Option<TokenKind>)
    ensures
        kind == spec_punctuation(b),
{
    if b == OPEN_PAREN {
        Some(TokenKind::OpenParen)
    } else if b == CLOSE_PAREN {
        Some(TokenKind::CloseParen)
    } else if b == OPEN_BRACE {
        Some(TokenKind::OpenBrace)
    } else if b == CLOSE_BRACE {
        Some(TokenKind::CloseBrace)
    } else if b == OPEN_CHEVRON {
        Some(TokenKind::OpenChevron)
    } else if b == CLOSE_CHEVRON {
        Some(TokenKind::CloseChevron)
    } else if b == COLON {
        Some(TokenKind::Colon)
    } else if b == SEMI {
        Some(TokenKind::Semi)
    } else if b == COMMA {
        Some(TokenKind::Comma)
    } else if b == AT {
        Some(TokenKind::At)
    } else if b == PERIOD {
        Some(TokenKind::Period)
    } else if b == QUESTION_MARK {
        Some(TokenKind::QuestionMark)
    } else {
        None
    }
}

impl<'a, E: Emitter> Lexer<'a, E> {
    /// The text as bytes.
    pub open spec fn bytes(&self) -> Seq<u8> {
        self.text.spec_bytes()
    }

    /// The reading position lies inside the text, at or behind the start of
    /// the token that is being read.
    pub open spec fn wf(&self) -> bool {
        self.pos <= self.cursor <= self.bytes().len() <= usize::MAX
    }

    /// The lexer stands between two tokens.
    pub open spec fn at_rest(&self) -> bool {
        self.wf() && self.pos == self.cursor
    }

    /// Nothing but the reading position differs between `self` and `other`.
    pub open spec fn moved_from(&self, other: &Self) -> bool {
        &&& self.text == other.text
        &&& self.file == other.file
        &&& self.pos == other.pos
        &&& self.emitter == other.emitter
    }

    /// `post` and `r` are what a lexer in state `pre` comes to when `lexed`
    /// is what stands at its position: the token is handed out and the lexer
    /// stands behind it; at the end nothing changes but the position; a
    /// fault is reported once and ends the reading.
    pub open spec fn delivers(pre: &Self, post: &Self, lexed: Lexed, r: Lexeme) -> bool {
        &&& post.at_rest()
        &&& post.text == pre.text
        &&& post.file == pre.file
        &&& pre.pos <= post.pos
        &&& match lexed {
            Lexed::Token { kind, start, end } => {
                &&& r == Lexeme::Token(token_at(kind, start, end, pre.file))
                &&& post.pos == end
                &&& post.emitter == pre.emitter
            },
            Lexed::End => {
                &&& r == Lexeme::End
                &&& post.pos == post.bytes().len()
                &&& post.emitter == pre.emitter
            },
            Lexed::Fault { fault, kind, start, end } => {
                &&& r == Lexeme::Fault
                &&& post.pos == post.bytes().len()
                &&& post.emitter.emitted() == pre.emitter.emitted().push(
                    fault_report(fault, token_at(kind, start, end, pre.file)),
                )
            },
        }
    }

    /// A lexer at the start of the session's file, which reports to
    /// `emitter`.
    pub fn new(sess: &ParseSession<'a>, emitter: E) -> (lexer: Self)
        requires
            sess.wf(),
        ensures
            lexer.at_rest(),
            lexer.pos == 0,
            lexer.bytes() == sess.bytes(),
            lexer.file == sess.file,
            lexer.emitter == emitter,
    {
        Self::over(sess.text(), sess.file, emitter)
    }

    /// A lexer at the start of `text`, which is the text of `file`.
    pub fn over(text: &'a str, file: SourceFile, emitter: E) -> (lexer: Self)
        ensures
            lexer.at_rest(),
            lexer.pos == 0,
            lexer.text == text,
            lexer.file == file,
            lexer.emitter == emitter,
    {
        let _ = text.as_bytes().len();
        Lexer { text, file, pos: 0, cursor: 0, emitter }
    }

    /// `post` and `r` are what `advance` makes of what `scan` delivers: a
    /// token is handed out, and the end of the text and a fault both read
    /// as the end of the stream.
    pub open spec fn hands_out(pre: &Self, post: &Self, lexed: Lexed, r: Option<Token>) -> bool {
        Self::delivers(
            pre,
            post,
            lexed,
            match lexed {
                Lexed::Token { kind, start, end } => Lexeme::Token(r->0),
                Lexed::End => Lexeme::End,
                Lexed::Fault { fault, kind, start, end } => Lexeme::Fault,
            },
        ) && (r is Some <==> lexed is Token)
    }

    /// Reads the next token. `None` is the end of the stream: the text is
    /// read to its end, or a fault was reported, after which every further
    /// call gives `None` and reports nothing.
    pub fn advance(&mut self) -> (r: Option<Token>)
        requires
            old(self).at_rest(),
        ensures
            Self::hands_out(
                old(self),
                final(self),
                lex(old(self).bytes(), old(self).pos as int),
                r,
            ),
    {
        match self.scan() {
            Lexeme::Token(token) => Some(token),
            Lexeme::End => None,
            Lexeme::Fault => None,
        }
    }

    /// Reads the next token, and tells the end of the text from a fault.
    pub fn scan(&mut self) -> (r: Lexeme)
        requires
            old(self).at_rest(),
        ensures
            Self::delivers(old(self), final(self), lex(old(self).bytes(), old(self).pos as int), r),
    {
        self.eat_while(ByteClass::Whitespace);
        self.reset_pos_within_token();
        let b = match self.bump() {
            Some(b) => b,
            None => {
                return Lexeme::End;
            },
        };
        match punctuation(b) {
            Some(kind) => Lexeme::Token(self.get_token_and_reset(kind)),
            None => if b == QUOTE {
                self.string_literal()
            } else if is_digit(b) {
                self.number_literal()
            } else if is_id_head(b) {
                Lexeme::Token(self.ident_or_keyword())
            } else if b == SLASH {
                self.comment()
            } else {
                self.eat_while(ByteClass::Continuation);
                Lexeme::Token(self.get_token_and_reset(TokenKind::Invalid))
            },
        }
    }

    /// Reads a comment, whose first `/` has been read.
    fn comment(&mut self) -> (r: Lexeme)
        requires
            old(self).wf(),
            old(self).cursor == old(self).pos + 1,
        ensures
            Self::delivers(old(self), final(self), lex_comment(old(self).bytes(), old(self).pos as int), r),
    {
        match self.peek() {
            Some(b) => if b == SLASH {
                Lexeme::Token(self.single_line_comment())
            } else if b == STAR {
                self.multi_line_comment()
            } else {
                Lexeme::Token(self.get_token_and_reset(TokenKind::Invalid))
            },
            None => Lexeme::Token(self.get_token_and_reset(TokenKind::Invalid)),
        }
    }

    /// Reads a comment that runs to the end of its line; its second `/` is
    /// the next byte.
    fn single_line_comment(&mut self) -> (token: Token)
        requires
            old(self).wf(),
            old(self).cursor == old(self).pos + 1,
            old(self).cursor < old(self).bytes().len(),
        ensures
            final(self).at_rest(),
            final(self).text == old(self).text,
            final(self).file == old(self).file,
            final(self).emitter == old(self).emitter,
            final(self).pos == run_end(old(self).bytes(), old(self).pos + 2, ByteClass::NotNewline),
            old(self).pos <= final(self).pos,
            token == token_at(TokenKind::Comment, old(self).pos as int, final(self).pos as int, old(self).file),
    {
        self.bump();
        self.eat_while(ByteClass::NotNewline);
        self.get_token_and_reset(TokenKind::Comment)
    }

    /// Reads a block comment; the `*` that opens it is the next byte.
    fn multi_line_comment(&mut self) -> (r: Lexeme)
        requires
            old(self).wf(),
            old(self).cursor == old(self).pos + 1,
            old(self).cursor < old(self).bytes().len(),
            old(self).bytes()[old(self).cursor as int] == STAR,
        ensures
            Self::delivers(old(self), final(self), lex_comment(old(self).bytes(), old(self).pos as int), r),
    {
        self.bump();
        let ghost from = self.cursor as int;
        loop
            invariant
                self.wf(),
                self.moved_from(old(self)),
                from <= self.cursor,
                from == old(self).pos + 2,
                old(self).bytes()[old(self).pos + 1] == STAR,
                block_comment_end(self.bytes(), self.cursor as int) == block_comment_end(
                    self.bytes(),
                    from,
                ),
            decreases self.bytes().len() - self.cursor,
        {
            match self.peek() {
                Some(b) => {
                    self.bump();
                    if b == STAR {
                        match self.peek() {
                            Some(c) => if c == SLASH {
                                self.bump();
                                return Lexeme::Token(self.get_token_and_reset(TokenKind::Comment));
                            },
                            None => {},
                        }
                    }
                },
                None => {
                    let token = self.get_token_and_reset(TokenKind::Comment);
                    self.emitter.emit_unterminated_comment(token);
                    return Lexeme::Fault;
                },
            }
        }
    }

    /// Reads a string literal, whose opening `"` has been read.
    fn string_literal(&mut self) -> (r: Lexeme)
        requires
            old(self).wf(),
            old(self).cursor == old(self).pos + 1,
        ensures
            Self::delivers(old(self), final(self), lex_string(old(self).bytes(), old(self).pos as int), r),
    {
        let more = self.eat_while(ByteClass::NotQuote);
        if more {
            self.bump();
            Lexeme::Token(self.get_token_and_reset(TokenKind::StringLiteral))
        } else {
            let token = self.get_token_and_reset(TokenKind::StringLiteral);
            self.emitter.emit_unterminated_string(token);
            Lexeme::Fault
        }
    }

    /// Reads an integer or a float, whose first digit has been read.
    fn number_literal(&mut self) -> (r: Lexeme)
        requires
            old(self).wf(),
            old(self).cursor == old(self).pos + 1,
        ensures
            Self::delivers(old(self), final(self), lex_number(old(self).bytes(), old(self).pos as int), r),
    {
        self.eat_while(ByteClass::Digit);
        match self.peek() {
            Some(b) => if b == PERIOD {
                self.bump();
                if self.cursor < self.text.as_bytes().len() {
                    self.eat_while(ByteClass::Digit);
                    Lexeme::Token(self.get_token_and_reset(TokenKind::FloatLiteral))
                } else {
                    let token = self.get_token_and_reset(TokenKind::FloatLiteral);
                    self.emitter.emit_unexpected_eof(token);
                    Lexeme::Fault
                }
            } else {
                Lexeme::Token(self.get_token_and_reset(TokenKind::IntLiteral))
            },
            None => Lexeme::Token(self.get_token_and_reset(TokenKind::IntLiteral)),
        }
    }

    /// Reads an identifier or a keyword, whose first byte has been read.
    fn ident_or_keyword(&mut self) -> (token: Token)
        requires
            old(self).wf(),
            old(self).cursor == old(self).pos + 1,
        ensures
            Self::delivers(
                old(self),
                final(self),
                lex_word(old(self).bytes(), old(self).pos as int),
                Lexeme::Token(token),
            ),
    {
        self.eat_while(ByteClass::IdBody);
        let word = slice_subrange(self.text.as_bytes(), self.pos, self.cursor);
        let kind = keyword(word);
        self.get_token_and_reset(kind)
    }

    /// Hands out the bytes read since the last token as a token of `kind`,
    /// and makes the next token begin behind them.
    fn get_token_and_reset(&mut self, kind: TokenKind) -> (token: Token)
        requires
            old(self).wf(),
        ensures
            final(self).at_rest(),
            final(self).text == old(self).text,
            final(self).file == old(self).file,
            final(self).emitter == old(self).emitter,
            final(self).pos == old(self).cursor,
            token == token_at(kind, old(self).pos as int, old(self).cursor as int, old(self).file),
    {
        let start = self.pos;
        let len = self.pos_within_token();
        self.reset_pos_within_token();
        Token::new(kind, Span::new(start, start + len, self.file))
    }

    /// The next byte, which stays unread.
    fn peek(&self) -> (b: Option<u8>)
        requires
            self.wf(),
        ensures
            b == (if self.cursor < self.bytes().len() {
                Some(self.bytes()[self.cursor as int])
            } else {
                None
            }),
    {
        let bytes = self.text.as_bytes();
        if self.cursor < bytes.len() {
            Some(bytes[self.cursor])
        } else {
            None
        }
    }

    /// How many bytes of the token that is being read have been read.
    fn pos_within_token(&self) -> (n: usize)
        requires
            self.wf(),
        ensures
            n == self.cursor - self.pos,
    {
        self.cursor - self.pos
    }

    /// Makes the next token begin at the reading position.
    fn reset_pos_within_token(&mut self)
        requires
            old(self).wf(),
        ensures
            final(self).at_rest(),
            final(self).text == old(self).text,
            final(self).file == old(self).file,
            final(self).emitter == old(self).emitter,
            final(self).pos == old(self).cursor,
    {
        self.pos = self.cursor;
    }

    /// Reads one byte, if one is left.
    fn bump(&mut self) -> (b: Option<u8>)
        requires
            old(self).wf(),
        ensures
            final(self).wf(),
            final(self).moved_from(old(self)),
            b == (if old(self).cursor < old(self).bytes().len() {
                Some(old(self).bytes()[old(self).cursor as int])
            } else {
                None
            }),
            final(self).cursor == (if old(self).cursor < old(self).bytes().len() {
                old(self).cursor + 1
            } else {
                old(self).cursor as int
            }),
    {
        let bytes = self.text.as_bytes();
        if self.cursor < bytes.len() {
            let b = bytes[self.cursor];
            self.cursor = self.cursor + 1;
            Some(b)
        } else {
            None
        }
    }

    /// Reads bytes as long as they belong to `class`. Says whether the run
    /// ended before the end of the text.
    fn eat_while(&mut self, class: ByteClass) -> (more: bool)
        requires
            old(self).wf(),
        ensures
            final(self).wf(),
            final(self).moved_from(old(self)),
            final(self).cursor == run_end(old(self).bytes(), old(self).cursor as int, class),
            more == (final(self).cursor < final(self).bytes().len()),
    {
        let bytes = self.text.as_bytes();
        while self.cursor < bytes.len() && class.holds(bytes[self.cursor])
            invariant
                self.wf(),
                self.moved_from(old(self)),
                bytes@ == self.bytes(),
                old(self).cursor <= self.cursor,
                run_end(self.bytes(), self.cursor as int, class) == run_end(
                    old(self).bytes(),
                    old(self).cursor as int,
                    class,
                ),
            decreases bytes.len() - self.cursor,
        {
            self.cursor = self.cursor + 1;
        }
        self.cursor < bytes.len()
    }
}

} // verus!
