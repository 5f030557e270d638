//! Support for trying the lexer and the parser on a text.

use crate::db::{Database, FileView};
use crate::diagnostics::{DiagnosticView, Diagnostics, Emitter, MockEmitter};
use crate::lexer::Lexer;
use crate::parser::{ParseSession, Parser};
use crate::span::{SourceFile, Span};
use vstd::prelude::*;
use vstd::string::*;

verus! {

/// A database that holds one text, as the file `file.haml`.
pub struct TestContext {
    pub db: Database,
    pub file: SourceFile,
}

impl TestContext {
    /// The database is sound and holds the file.
    pub open spec fn wf(&self) -> bool {
        self.db.wf() && self.db.inputs.has_file(self.file)
    }

    /// The text, as bytes.
    pub open spec fn bytes(&self) -> Seq<u8> {
        self.db.inputs.spec_bytes(self.file)
    }

    /// Puts `text` into `db`.
    pub fn new(db: Database, text: &str) -> (ctx: TestContext)
        requires
            db.wf(),
        ensures
            ctx.wf(),
            ctx.db.inputs.spec_file(ctx.file) == (FileView { path: "file.haml"@, text: text@ }),
    {
        let mut db = db;
        let file = db.source_file("file.haml", text);
        TestContext { db, file }
    }

    /// A lexer at the start of the text, whose reports are dropped.
    pub fn lexer(&self) -> (lexer: Lexer<'_, MockEmitter>)
        requires
            self.wf(),
        ensures
            lexer.at_rest(),
            lexer.pos == 0,
            lexer.bytes() == self.bytes(),
            lexer.file == self.file,
            lexer.emitter.emitted() == Seq::<DiagnosticView>::empty(),
    {
        let sess = ParseSession::new(&self.db, self.file);
        Lexer::new(&sess, MockEmitter::new())
    }

    /// A parser at the start of the text, whose reports are kept.
    pub fn parser(&self) -> (parser: Parser<'_, Diagnostics>)
        requires
            self.wf(),
        ensures
            parser.wf(),
            parser.pos() == 0,
            parser.source() == self.db.source(self.file),
            parser.emitted() == Seq::<DiagnosticView>::empty(),
    {
        let sess = ParseSession::new(&self.db, self.file);
        Parser::new(&sess, Diagnostics::new())
    }

    /// The span `[start, end)` of the text.
    pub fn span(&self, start: usize, end: usize) -> (span: Span)
        ensures
            span == (Span { start, end, file: self.file }),
    {
        Span::new(start, end, self.file)
    }
}

} // verus!
