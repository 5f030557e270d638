//! The database: the inputs of every query, held by value, and the results
//! of the queries that have been computed.
//!
//! An input is never changed in place. A path or a source unit that is
//! handed in again is the one already held; anything else is a new input
//! with a handle of its own. A result, once computed, is kept with the
//! diagnostics of its computation and is never computed again; since an
//! input never changes, no result ever goes stale.

use crate::ast::{Ast, StmtView};
use crate::diagnostics::{DiagnosticView, Diagnostics};
use crate::grammar::{parse_text, Outcome, Source};
use crate::passes::{duplicate_reports, first_names, names_of};
use crate::span::{SourceFile, Span};
use crate::token::Token;
use vstd::prelude::*;
use vstd::string::*;
use vstd::utf8::encode_utf8;

verus! {

/// Handle of a path held by a `Database`.
#[derive(Clone, Copy, Debug, PartialEq, Eq, Structural, Hash)]
pub struct Path {
    pub id: usize,
}

/// What a source unit is: where it was read from and what it holds.
#[derive(Debug, PartialEq, Eq)]
pub struct FileData {
    pub path: String,
    pub text: String,
}

/// A source unit as a mathematical value.
pub struct FileView {
    pub path: Seq<char>,
    pub text: Seq<char>,
}

impl View for FileData {
    type V = FileView;

    open spec fn view(&self) -> FileView {
        FileView { path: self.path@, text: self.text@ }
    }
}

/// The inputs that queries are asked about.
pub struct Inputs {
    pub paths: Vec<String>,
    pub files: Vec<FileData>,
}

impl Inputs {
    /// No path and no source unit is held twice, and the length of every
    /// text is a `usize`.
    pub open spec fn wf(&self) -> bool {
        &&& forall|i: int, j: int|
            0 <= i < j < self.paths@.len() ==> self.paths@[i]@ != self.paths@[j]@
        &&& forall|i: int, j: int|
            0 <= i < j < self.files@.len() ==> self.files@[i]@ != self.files@[j]@
        &&& forall|i: int|
            0 <= i < self.files@.len() ==> encode_utf8((#[trigger] self.files@[i]).text@).len()
                <= usize::MAX
    }

    /// `path` is a handle of this database.
    pub open spec fn has_path(&self, path: Path) -> bool {
        path.id < self.paths@.len()
    }

    /// `file` is a handle of this database.
    pub open spec fn has_file(&self, file: SourceFile) -> bool {
        file.id < self.files@.len()
    }

    /// The path behind a handle.
    pub open spec fn spec_path(&self, path: Path) -> Seq<char> {
        self.paths@[path.id as int]@
    }

    /// The source unit behind a handle.
    pub open spec fn spec_file(&self, file: SourceFile) -> FileView {
        self.files@[file.id as int]@
    }

    /// The text behind a handle, as bytes.
    pub open spec fn spec_bytes(&self, file: SourceFile) -> Seq<u8> {
        encode_utf8(self.files@[file.id as int].text@)
    }

    /// Every handle of `old` is a handle of `self`, for the same input.
    pub open spec fn extends(&self, old: &Inputs) -> bool {
        &&& old.paths@.len() <= self.paths@.len()
        &&& old.files@.len() <= self.files@.len()
        &&& forall|i: int| 0 <= i < old.paths@.len() ==> self.paths@[i] == old.paths@[i]
        &&& forall|i: int| 0 <= i < old.files@.len() ==> self.files@[i] == old.files@[i]
    }

    pub fn new() -> (inputs: Inputs)
        ensures
            inputs.wf(),
            inputs.paths@.len() == 0,
            inputs.files@.len() == 0,
    {
        Inputs { paths: Vec::new(), files: Vec::new() }
    }

    /// The handle of `path`: the one it has, or a new one.
    pub fn path(&mut self, path: &str) -> (handle: Path)
        requires
            old(self).wf(),
        ensures
            final(self).wf(),
            final(self).extends(old(self)),
            final(self).files@ == old(self).files@,
            final(self).has_path(handle),
            final(self).spec_path(handle) == path@,
            (exists|p: Path| old(self).has_path(p) && old(self).spec_path(p) == path@)
                ==> *final(self) == *old(self),
            final(self).paths@.len() <= old(self).paths@.len() + 1,
    {
        let owned = path.to_owned();
        let mut i: usize = 0;
        while i < self.paths.len()
            invariant
                i <= self.paths@.len(),
                *self == *old(self),
                self.wf(),
                owned@ == path@,
                forall|j: int| 0 <= j < i ==> self.paths@[j]@ != path@,
            decreases self.paths.len() - i,
        {
            if self.paths[i] == owned {
                return Path { id: i };
            }
            i = i + 1;
        }
        self.paths.push(owned);
        Path { id: i }
    }

    /// The handle of the source unit with this path and this text: the one
    /// it has, or a new one.
    pub fn source_file(&mut self, path: &str, text: &str) -> (handle: SourceFile)
        requires
            old(self).wf(),
        ensures
            final(self).wf(),
            final(self).extends(old(self)),
            final(self).paths@ == old(self).paths@,
            final(self).has_file(handle),
            final(self).spec_file(handle) == (FileView { path: path@, text: text@ }),
            (exists|f: SourceFile|
                old(self).has_file(f) && old(self).spec_file(f) == (FileView {
                    path: path@,
                    text: text@,
                })) ==> *final(self) == *old(self),
            final(self).files@.len() <= old(self).files@.len() + 1,
    {
        let data = FileData { path: path.to_owned(), text: text.to_owned() };
        let _ = text.as_bytes().len();
        let mut i: usize = 0;
        while i < self.files.len()
            invariant
                i <= self.files@.len(),
                *self == *old(self),
                self.wf(),
                data@ == (FileView { path: path@, text: text@ }),
                encode_utf8(text@).len() <= usize::MAX,
                forall|j: int| 0 <= j < i ==> self.files@[j]@ != data@,
            decreases self.files.len() - i,
        {
            if self.files[i].path == data.path && self.files[i].text == data.text {
                return SourceFile { id: i };
            }
            i = i + 1;
        }
        self.files.push(data);
        SourceFile { id: i }
    }

    /// The path behind a handle.
    pub fn path_of(&self, path: Path) -> (s: &str)
        requires
            self.has_path(path),
        ensures
            s@ == self.spec_path(path),
    {
        self.paths[path.id].as_str()
    }

    /// The path that a source unit was read from.
    pub fn file_path(&self, file: SourceFile) -> (s: &str)
        requires
            self.has_file(file),
        ensures
            s@ == self.spec_file(file).path,
    {
        self.files[file.id].path.as_str()
    }

    /// The text of a source unit.
    pub fn text(&self, file: SourceFile) -> (s: &str)
        requires
            self.has_file(file),
        ensures
            s@ == self.spec_file(file).text,
            s.spec_bytes() == self.spec_bytes(file),
    {
        self.files[file.id].text.as_str()
    }
}

/// A span, as the argument of a query.
#[derive(Clone, Copy, Debug, PartialEq, Eq, Structural, Hash)]
pub struct TrackedSpan {
    pub span: Span,
}

impl TrackedSpan {
    pub fn new(span: Span) -> (input: TrackedSpan)
        ensures
            input.span == span,
    {
        TrackedSpan { span }
    }
}

/// A tree, as the argument of a query.
#[derive(Debug, PartialEq, Eq)]
pub struct TrackedAst {
    pub ast: Ast,
}

impl TrackedAst {
    pub fn new(ast: Ast) -> (input: TrackedAst)
        ensures
            input.ast == ast,
    {
        TrackedAst { ast }
    }
}

/// A computation that the database has run.
#[derive(Clone, Copy, Debug, PartialEq, Eq, Structural)]
pub enum Query {
    ReadFile(Path),
    ParseFile(SourceFile),
    BuildSymbolTable(SourceFile),
    ReadSpan(Path, Span),
}

/// What parsing a file came to, and what was reported while it ran.
pub struct ParseEntry {
    pub ast: Option<Ast>,
    pub diagnostics: Diagnostics,
}

/// What the duplicate-name pass over a file came to, and what was reported
/// while it and the parse before it ran.
pub struct SymbolEntry {
    pub names: Option<Vec<Token>>,
    pub diagnostics: Diagnostics,
}

/// The bytes that a span of a path was read as.
pub struct SpanEntry {
    pub path: Path,
    pub span: Span,
    pub text: Option<String>,
}

/// The view of a tree that may be missing.
pub open spec fn ast_view(ast: Option<Ast>) -> Option<Seq<StmtView>> {
    match ast {
        Some(ast) => Some(ast@),
        None => None,
    }
}

/// The view of a list of names that may be missing.
pub open spec fn names_view(names: Option<Vec<Token>>) -> Option<Seq<Token>> {
    match names {
        Some(names) => Some(names@),
        None => None,
    }
}

/// The view of a text that may be missing.
pub open spec fn text_view(text: Option<String>) -> Option<Seq<char>> {
    match text {
        Some(text) => Some(text@),
        None => None,
    }
}

/// What the duplicate-name pass over a text comes to.
pub struct Symbols {
    /// The first declaration of each name, in order; none where the text
    /// has no tree.
    pub names: Option<Seq<Token>>,
    /// The diagnostic of the parse where it failed, else one report for
    /// each declaration that repeats a name.
    pub reports: Seq<DiagnosticView>,
}

/// What the duplicate-name pass over `src` comes to: of the names that
/// the statements of its tree declare, the first of each spelling is kept,
/// and every other one is reported.
pub open spec fn symbols_of(src: Source) -> Symbols {
    match parse_text(src) {
        Outcome::Tree { stmts } => Symbols {
            names: Some(first_names(src.text, names_of(stmts))),
            reports: duplicate_reports(src.text, names_of(stmts)),
        },
        Outcome::Failed { report, at } => Symbols { names: None, reports: seq![report] },
    }
}

/// The database: the inputs, and what has been computed from them.
pub struct Database {
    pub inputs: Inputs,
    /// For each path, what reading it gave, once it was read.
    pub reads: Vec<Option<Option<SourceFile>>>,
    /// For each source unit, its parse, once it was parsed.
    pub parses: Vec<Option<ParseEntry>>,
    /// For each source unit, its symbols, once they were built.
    pub tables: Vec<Option<SymbolEntry>>,
    /// The spans that were read.
    pub spans: Vec<SpanEntry>,
    /// The computations that have run, in order. A query that is answered
    /// from what is kept adds nothing here.
    pub log: Vec<Query>,
}

impl Database {
    /// What is being parsed when `file` is parsed.
    pub open spec fn source(&self, file: SourceFile) -> Source {
        Source { text: self.inputs.spec_bytes(file), file }
    }

    /// The bytes `[span.start, span.end)` of the unit that `path` was read
    /// as, where the path was read, could be read, and the bytes are text.
    pub open spec fn span_text(&self, path: Path, span: Span) -> Option<Seq<char>> {
        match self.reads@[path.id as int] {
            Some(Some(file)) => {
                let bytes = self.inputs.spec_bytes(file);
                if span.within(bytes.len() as int) && vstd::utf8::is_char_boundary(
                    bytes,
                    span.start as int,
                ) && vstd::utf8::is_char_boundary(bytes, span.end as int) {
                    Some(vstd::utf8::decode_utf8(bytes.subrange(span.start as int, span.end as int)))
                } else {
                    None
                }
            },
            _ => None,
        }
    }

    /// Every result that is kept is the result of its query.
    pub open spec fn wf(&self) -> bool {
        &&& self.inputs.wf()
        &&& self.reads@.len() == self.inputs.paths@.len()
        &&& self.parses@.len() == self.inputs.files@.len()
        &&& self.tables@.len() == self.inputs.files@.len()
        &&& forall|p: int|
            0 <= p < self.reads@.len() ==> (#[trigger] self.reads@[p] matches Some(Some(file))
                ==> self.inputs.has_file(file) && self.inputs.spec_file(file).path
                == self.inputs.paths@[p]@)
        &&& forall|f: int|
            0 <= f < self.parses@.len() ==> (#[trigger] self.parses@[f] matches Some(entry) ==> {
                let outcome = parse_text(self.source(SourceFile { id: f as usize }));
                ast_view(entry.ast) == outcome.ast() && entry.diagnostics@ == outcome.reports()
            })
        &&& forall|f: int|
            0 <= f < self.tables@.len() ==> (#[trigger] self.tables@[f] matches Some(entry) ==> {
                let symbols = symbols_of(self.source(SourceFile { id: f as usize }));
                names_view(entry.names) == symbols.names && entry.diagnostics@ == symbols.reports
            })
        &&& forall|s: int|
            0 <= s < self.spans@.len() ==> {
                let entry = #[trigger] self.spans@[s];
                self.inputs.has_path(entry.path) && self.reads@[entry.path.id as int] is Some
                    && text_view(entry.text) == self.span_text(entry.path, entry.span)
            }
    }

    /// A database without inputs: nothing has been read, parsed or built,
    /// and no computation has run.
    pub fn new() -> (db: Database)
        ensures
            db.wf(),
            db.inputs.paths@.len() == 0,
            db.inputs.files@.len() == 0,
            db.reads@.len() == 0,
            db.parses@.len() == 0,
            db.tables@.len() == 0,
            db.spans@.len() == 0,
            db.log@.len() == 0,
    {
        Database {
            inputs: Inputs::new(),
            reads: Vec::new(),
            parses: Vec::new(),
            tables: Vec::new(),
            spans: Vec::new(),
            log: Vec::new(),
        }
    }

    /// What is kept of the parse of `file`, if it has been parsed. Nothing
    /// is computed, so the database may be shared while it is asked.
    pub fn parse_kept(&self, file: SourceFile) -> (kept: Option<&ParseEntry>)
        requires
            self.wf(),
        ensures
            kept matches Some(entry) ==> self.inputs.has_file(file) && self.parses@[file.id as int]
                == Some(*entry) && ast_view(entry.ast) == parse_text(self.source(file)).ast()
                && entry.diagnostics@ == parse_text(self.source(file)).reports(),
            kept is None <==> !self.inputs.has_file(file) || self.parses@[file.id as int] is None,
    {
        if file.id < self.parses.len() {
            match &self.parses[file.id] {
                Some(entry) => Some(entry),
                None => None,
            }
        } else {
            None
        }
    }

    /// What is kept of the symbols of `file`, if they have been built.
    /// Nothing is computed.
    pub fn symbols_kept(&self, file: SourceFile) -> (kept: Option<&SymbolEntry>)
        requires
            self.wf(),
        ensures
            kept matches Some(entry) ==> self.inputs.has_file(file) && self.tables@[file.id as int]
                == Some(*entry) && names_view(entry.names) == symbols_of(self.source(file)).names
                && entry.diagnostics@ == symbols_of(self.source(file)).reports,
            kept is None <==> !self.inputs.has_file(file) || self.tables@[file.id as int] is None,
    {
        if file.id < self.tables.len() {
            match &self.tables[file.id] {
                Some(entry) => Some(entry),
                None => None,
            }
        } else {
            None
        }
    }

    /// The computations that have run, in order.
    pub fn log(&self) -> (log: &Vec<Query>)
        ensures
            log@ == self.log@,
    {
        &self.log
    }

    /// The handle of `path`: the one it has, or a new one. Nothing that is
    /// kept changes.
    pub fn path(&mut self, path: &str) -> (handle: Path)
        requires
            old(self).wf(),
        ensures
            final(self).wf(),
            final(self).inputs.extends(&old(self).inputs),
            final(self).inputs.files@ == old(self).inputs.files@,
            final(self).inputs.has_path(handle),
            final(self).inputs.spec_path(handle) == path@,
            (exists|p: Path| old(self).inputs.has_path(p) && old(self).inputs.spec_path(p) == path@)
                ==> *final(self) == *old(self),
            final(self).log == old(self).log,
            final(self).parses == old(self).parses,
            final(self).tables == old(self).tables,
            final(self).spans == old(self).spans,
            final(self).reads@.take(old(self).reads@.len() as int) == old(self).reads@,
            !old(self).inputs.has_path(handle) ==> final(self).reads@[handle.id as int] is None,
    {
        let handle = self.inputs.path(path);
        if self.reads.len() < self.inputs.paths.len() {
            self.reads.push(None);
        }
        assert(self.reads@.take(old(self).reads@.len() as int) =~= old(self).reads@);
        handle
    }

    /// The handle of the source unit with this path and this text: the one
    /// it has, or a new one. Nothing that is kept changes.
    pub fn source_file(&mut self, path: &str, text: &str) -> (handle: SourceFile)
        requires
            old(self).wf(),
        ensures
            final(self).wf(),
            final(self).inputs.extends(&old(self).inputs),
            final(self).inputs.paths@ == old(self).inputs.paths@,
            final(self).inputs.has_file(handle),
            final(self).inputs.spec_file(handle) == (FileView { path: path@, text: text@ }),
            (exists|f: SourceFile|
                old(self).inputs.has_file(f) && old(self).inputs.spec_file(f) == (FileView {
                    path: path@,
                    text: text@,
                })) ==> *final(self) == *old(self),
            final(self).log == old(self).log,
            final(self).reads == old(self).reads,
            final(self).spans == old(self).spans,
            final(self).parses@.take(old(self).parses@.len() as int) == old(self).parses@,
            final(self).tables@.take(old(self).tables@.len() as int) == old(self).tables@,
            !old(self).inputs.has_file(handle) ==> final(self).parses@[handle.id as int] is None
                && final(self).tables@[handle.id as int] is None,
    {
        let handle = self.inputs.source_file(path, text);
        if self.parses.len() < self.inputs.files.len() {
            self.parses.push(None);
            self.tables.push(None);
        }
        proof {
            assert(self.parses@.take(old(self).parses@.len() as int) =~= old(self).parses@);
            assert(self.tables@.take(old(self).tables@.len() as int) =~= old(self).tables@);
            assert forall|p: Path, s: Span| self.inputs.has_path(p) implies #[trigger] self.span_text(
                p,
                s,
            ) == old(self).span_text(p, s) by {}
        }
        handle
    }
}

impl Default for Database {
    fn default() -> (db: Database)
        ensures
            db.wf(),
            db.inputs.paths@.len() == 0,
            db.inputs.files@.len() == 0,
            db.reads@.len() == 0,
            db.parses@.len() == 0,
            db.tables@.len() == 0,
            db.spans@.len() == 0,
            db.log@.len() == 0,
    {
        Database::new()
    }
}

} // verus!
