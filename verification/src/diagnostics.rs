//! Structured problems tied to spans, and the capability to report them.
//!
//! Reporting never aborts the caller: a report is a value appended to a
//! log. Whether to go on afterwards is for the lexer and the parser to
//! decide.

use crate::span::Span;
use crate::text::join3;
use crate::token::Token;
use vstd::prelude::*;
use vstd::string::*;

verus! {

/// How serious a diagnostic is.
#[derive(Clone, Copy, Debug, PartialEq, Eq, Structural, Hash)]
pub enum Level {
    Error,
    Warning,
    Info,
}

/// One reported problem.
#[derive(Debug, PartialEq, Eq)]
pub struct Diagnostic {
    pub level: Level,
    pub message: String,
    pub span: Option<Span>,
    pub span_message: Option<String>,
}

/// A diagnostic as a mathematical value: its strings as character sequences.
pub struct DiagnosticView {
    pub level: Level,
    pub message: Seq<char>,
    pub span: Option<Span>,
    pub span_message: Option<Seq<char>>,
}

impl View for Diagnostic {
    type V = DiagnosticView;

    open spec fn view(&self) -> DiagnosticView {
        DiagnosticView {
            level: self.level,
            message: self.message@,
            span: self.span,
            span_message: match self.span_message {
                Some(s) => Some(s@),
                None => None,
            },
        }
    }
}

impl Clone for Diagnostic {
    fn clone(&self) -> (copy: Self)
        ensures
            copy@ == self@,
    {
        let span_message = match &self.span_message {
            Some(s) => Some(s.clone()),
            None => None,
        };
        Diagnostic {
            level: self.level,
            message: self.message.clone(),
            span: self.span,
            span_message,
        }
    }
}

impl Diagnostic {
    pub fn new(level: Level, message: String, span: Option<Span>, span_message: Option<String>) -> (d:
        Diagnostic)
        ensures
            d == (Diagnostic { level, message, span, span_message }),
    {
        Diagnostic { level, message, span, span_message }
    }
}

/// A message without a place in the text.
pub open spec fn report_message(message: Seq<char>) -> DiagnosticView {
    DiagnosticView { level: Level::Error, message, span: None, span_message: None }
}

/// The text ended while `token` was being read.
pub open spec fn report_unexpected_eof(token: Token) -> DiagnosticView {
    DiagnosticView {
        level: Level::Error,
        message: "file ended unexpectedly when reading `"@ + token.kind.spec_label() + "`"@,
        span: Some(token.span),
        span_message: Some("expected more code, but the file ended"@),
    }
}

/// `token` names a declaration whose name is already taken.
pub open spec fn report_duplicate_identifier(token: Token) -> DiagnosticView {
    DiagnosticView {
        level: Level::Error,
        message: "type `"@ + token.kind.spec_label() + "` defined multiple times"@,
        span: Some(token.span),
        span_message: Some("there can only be one type with this name"@),
    }
}

/// `token` was found where `expected` describes what may stand.
pub open spec fn report_unexpected_token(token: Token, expected: Seq<char>) -> DiagnosticView {
    DiagnosticView {
        level: Level::Error,
        message: "expected "@ + expected + " but found a "@ + token.kind.spec_name(),
        span: Some(token.span),
        span_message: Some("expected "@ + expected),
    }
}

/// The comment that `token` covers is never closed.
pub open spec fn report_unterminated_comment(token: Token) -> DiagnosticView {
    DiagnosticView {
        level: Level::Error,
        message: "found unterminated comment"@,
        span: Some(token.span),
        span_message: Some("this comment must be ended with a `*/` characters"@),
    }
}

/// The string literal that `token` covers is never closed.
pub open spec fn report_unterminated_string(token: Token) -> DiagnosticView {
    DiagnosticView {
        level: Level::Error,
        message: "found unterminated string"@,
        span: Some(token.span),
        span_message: Some("add a `\"` character"@),
    }
}

/// The diagnostics collected while one computation ran, oldest first.
#[derive(Debug, PartialEq, Eq)]
pub struct Diagnostics {
    pub items: Vec<Diagnostic>,
}

/// The views of a list of diagnostics, in order.
pub open spec fn views(items: Seq<Diagnostic>) -> Seq<DiagnosticView> {
    Seq::new(items.len(), |i: int| items[i]@)
}

impl View for Diagnostics {
    type V = Seq<DiagnosticView>;

    open spec fn view(&self) -> Seq<DiagnosticView> {
        views(self.items@)
    }
}

impl Clone for Diagnostics {
    fn clone(&self) -> (copy: Self)
        ensures
            copy@ == self@,
    {
        let mut items: Vec<Diagnostic> = Vec::new();
        let mut i: usize = 0;
        while i < self.items.len()
            invariant
                i <= self.items.len(),
                items.len() == i,
                forall|j: int| 0 <= j < i ==> items@[j]@ == self.items@[j]@,
            decreases self.items.len() - i,
        {
            items.push(self.items[i].clone());
            i = i + 1;
        }
        let copy = Diagnostics { items };
        assert(copy@ =~= self@);
        copy
    }
}

impl Diagnostics {
    pub fn new() -> (d: Diagnostics)
        ensures
            d@ == Seq::<DiagnosticView>::empty(),
    {
        let d = Diagnostics { items: Vec::new() };
        assert(d@ =~= Seq::<DiagnosticView>::empty());
        d
    }

    /// Appends one diagnostic.
    pub fn push(&mut self, diagnostic: Diagnostic)
        ensures
            final(self)@ == old(self)@.push(diagnostic@),
    {
        self.items.push(diagnostic);
        assert(self@ =~= old(self)@.push(diagnostic@));
    }

    pub fn len(&self) -> (n: usize)
        ensures
            n == self@.len(),
    {
        self.items.len()
    }

    pub fn is_empty(&self) -> (b: bool)
        ensures
            b == (self@.len() == 0),
    {
        self.items.len() == 0
    }

    pub fn get(&self, i: usize) -> (d: Option<&Diagnostic>)
        ensures
            i < self@.len() ==> d is Some && d->0@ == self@[i as int],
            i >= self@.len() ==> d is None,
    {
        if i < self.items.len() {
            Some(&self.items[i])
        } else {
            None
        }
    }
}

/// Reports `message`, tied to no place in the text.
pub fn emit_message(diagnostics: &mut Diagnostics, message: &str)
    ensures
        final(diagnostics)@ == old(diagnostics)@.push(report_message(message@)),
{
    diagnostics.push(Diagnostic::new(Level::Error, message.to_owned(), None, None));
}

/// Reports that the text ended while `token` was being read.
pub fn emit_unexpected_eof(diagnostics: &mut Diagnostics, token: Token)
    ensures
        final(diagnostics)@ == old(diagnostics)@.push(report_unexpected_eof(token)),
{
    let message = join3("file ended unexpectedly when reading `", token.kind.label(), "`");
    let hint = "expected more code, but the file ended".to_owned();
    diagnostics.push(Diagnostic::new(Level::Error, message, Some(token.span), Some(hint)));
}

/// Reports that the name `token` is declared a second time.
pub fn emit_duplicate_identifier(diagnostics: &mut Diagnostics, token: Token)
    ensures
        final(diagnostics)@ == old(diagnostics)@.push(report_duplicate_identifier(token)),
{
    let message = join3("type `", token.kind.label(), "` defined multiple times");
    let hint = "there can only be one type with this name".to_owned();
    diagnostics.push(Diagnostic::new(Level::Error, message, Some(token.span), Some(hint)));
}

/// Reports that `token` stands where `expected` was called for.
pub fn emit_unexpected_token(diagnostics: &mut Diagnostics, token: Token, expected: &str)
    ensures
        final(diagnostics)@ == old(diagnostics)@.push(report_unexpected_token(token, expected@)),
{
    let mut message = join3("expected ", expected, " but found a ");
    message.append(token.kind.name());
    let mut hint = "expected ".to_owned();
    hint.append(expected);
    diagnostics.push(Diagnostic::new(Level::Error, message, Some(token.span), Some(hint)));
}

/// Reports that the comment read into `token` is never closed.
pub fn emit_unterminated_comment(diagnostics: &mut Diagnostics, token: Token)
    ensures
        final(diagnostics)@ == old(diagnostics)@.push(report_unterminated_comment(token)),
{
    let message = "found unterminated comment".to_owned();
    let hint = "this comment must be ended with a `*/` characters".to_owned();
    diagnostics.push(Diagnostic::new(Level::Error, message, Some(token.span), Some(hint)));
}

/// Reports that the string literal read into `token` is never closed.
pub fn emit_unterminated_string(diagnostics: &mut Diagnostics, token: Token)
    ensures
        final(diagnostics)@ == old(diagnostics)@.push(report_unterminated_string(token)),
{
    let message = "found unterminated string".to_owned();
    let hint = "add a `\"` character".to_owned();
    diagnostics.push(Diagnostic::new(Level::Error, message, Some(token.span), Some(hint)));
}

/// The capability to report problems: one method for each situation.
///
/// `emitted` is the log of everything reported so far. An implementation
/// that keeps nothing at run time still accounts for its reports there.
pub trait Emitter {
    spec fn emitted(&self) -> Seq<DiagnosticView>;

    fn emit_message(&mut self, message: &str)
        ensures
            final(self).emitted() == old(self).emitted().push(report_message(message@)),
    ;

    fn emit_unexpected_eof(&mut self, token: Token)
        ensures
            final(self).emitted() == old(self).emitted().push(report_unexpected_eof(token)),
    ;

    fn emit_duplicate_identifier(&mut self, token: Token)
        ensures
            final(self).emitted() == old(self).emitted().push(report_duplicate_identifier(token)),
    ;

    fn emit_unexpected_token(&mut self, token: Token, expected: &str)
        ensures
            final(self).emitted() == old(self).emitted().push(
                report_unexpected_token(token, expected@),
            ),
    ;

    fn emit_unterminated_comment(&mut self, token: Token)
        ensures
            final(self).emitted() == old(self).emitted().push(report_unterminated_comment(token)),
    ;

    fn emit_unterminated_string(&mut self, token: Token)
        ensures
            final(self).emitted() == old(self).emitted().push(report_unterminated_string(token)),
    ;
}

impl Emitter for Diagnostics {
    open spec fn emitted(&self) -> Seq<DiagnosticView> {
        self@
    }

    fn emit_message(&mut self, message: &str)
        ensures
            final(self)@ == old(self)@.push(report_message(message@)),
    {
        emit_message(self, message)
    }

    fn emit_unexpected_eof(&mut self, token: Token)
        ensures
            final(self)@ == old(self)@.push(report_unexpected_eof(token)),
    {
        emit_unexpected_eof(self, token)
    }

    fn emit_duplicate_identifier(&mut self, token: Token)
        ensures
            final(self)@ == old(self)@.push(report_duplicate_identifier(token)),
    {
        emit_duplicate_identifier(self, token)
    }

    fn emit_unexpected_token(&mut self, token: Token, expected: &str)
        ensures
            final(self)@ == old(self)@.push(report_unexpected_token(token, expected@)),
    {
        emit_unexpected_token(self, token, expected)
    }

    fn emit_unterminated_comment(&mut self, token: Token)
        ensures
            final(self)@ == old(self)@.push(report_unterminated_comment(token)),
    {
        emit_unterminated_comment(self, token)
    }

    fn emit_unterminated_string(&mut self, token: Token)
        ensures
            final(self)@ == old(self)@.push(report_unterminated_string(token)),
    {
        emit_unterminated_string(self, token)
    }
}

/// An emitter that keeps nothing at run time.
///
/// Its log exists in proofs only, so that code written against `Emitter`
/// can be exercised where the reports themselves are of no interest.
pub struct MockEmitter {
    pub log: Ghost<Seq<DiagnosticView>>,
}

impl MockEmitter {
    pub fn new() -> (m: MockEmitter)
        ensures
            m.emitted() == Seq::<DiagnosticView>::empty(),
    {
        MockEmitter { log: Ghost(Seq::empty()) }
    }
}

impl Emitter for MockEmitter {
    open spec fn emitted(&self) -> Seq<DiagnosticView> {
        self.log@
    }

    fn emit_message(&mut self, message: &str)
        ensures
            final(self).log@ == old(self).log@.push(report_message(message@)),
    {
        proof {
            self.log@ = self.log@.push(report_message(message@));
        }
    }

    fn emit_unexpected_eof(&mut self, token: Token)
        ensures
            final(self).log@ == old(self).log@.push(report_unexpected_eof(token)),
    {
        proof {
            self.log@ = self.log@.push(report_unexpected_eof(token));
        }
    }

    fn emit_duplicate_identifier(&mut self, token: Token)
        ensures
            final(self).log@ == old(self).log@.push(report_duplicate_identifier(token)),
    {
        proof {
            self.log@ = self.log@.push(report_duplicate_identifier(token));
        }
    }

    fn emit_unexpected_token(&mut self, token: Token, expected: &str)
        ensures
            final(self).log@ == old(self).log@.push(report_unexpected_token(token, expected@)),
    {
        proof {
            self.log@ = self.log@.push(report_unexpected_token(token, expected@));
        }
    }

    fn emit_unterminated_comment(&mut self, token: Token)
        ensures
            final(self).log@ == old(self).log@.push(report_unterminated_comment(token)),
    {
        proof {
            self.log@ = self.log@.push(report_unterminated_comment(token));
        }
    }

    fn emit_unterminated_string(&mut self, token: Token)
        ensures
            final(self).log@ == old(self).log@.push(report_unterminated_string(token)),
    {
        proof {
            self.log@ = self.log@.push(report_unterminated_string(token));
        }
    }
}

} // verus!
