//! The queries: pure functions of inputs, each computed once.
//!
//! A query that is asked again with the same argument is answered from
//! what the database keeps: nothing is computed, and nothing is reported a
//! second time. What a computation reported is kept beside its result and
//! can be asked for on its own.

use crate::ast::{Ast, StmtView};
use crate::db::{
    ast_view, names_view, symbols_of, text_view, Database, ParseEntry, Path, Query, SpanEntry,
    SymbolEntry, TrackedSpan,
};
use crate::diagnostics::{DiagnosticView, Diagnostics};
use crate::grammar::{parse_text, Outcome};
use crate::parser::{ParseSession, Parser};
use crate::passes::{check_can_resolve_symbols, law_parsed_names_lie_in_the_text};
use crate::span::{SourceFile, Span};
use crate::text::substring;
use crate::token::Token;
use crate::writing::{law_tree_is_read_where_it_is_written, written_file};
use vstd::prelude::*;
use vstd::string::*;
use vstd::utf8::encode_utf8_decode_utf8;

verus! {

/// The capability to read a file. Nothing is known of what it gives.
pub trait FileReader {
    /// The text of the file at `path`, or `None` where it cannot be read.
    fn read_to_string(&mut self, path: &str) -> (text: Option<String>);
}

/// A copy of a tree that may be missing.
fn clone_tree(ast: &Option<Ast>) -> (copy: Option<Ast>)
    ensures
        ast_view(copy) == ast_view(*ast),
{
    match ast {
        Some(ast) => Some(ast.clone()),
        None => None,
    }
}

/// A copy of a list of names that may be missing.
fn clone_names(names: &Option<Vec<Token>>) -> (copy: Option<Vec<Token>>)
    ensures
        names_view(copy) == names_view(*names),
{
    match names {
        Some(names) => Some(crate::ast::clone_tokens(names)),
        None => None,
    }
}

/// A copy of a text that may be missing.
fn clone_text(text: &Option<String>) -> (copy: Option<String>)
    ensures
        text_view(copy) == text_view(*text),
{
    match text {
        Some(text) => Some(text.clone()),
        None => None,
    }
}

/// What `read_file` and `file_read` leave behind: a path that was read
/// before is answered as before, and nothing changes; else the reading is
/// logged and its result kept.
pub open spec fn read_file_post(
    pre: &Database,
    path: Path,
    post: &Database,
    r: Option<SourceFile>,
) -> bool {
    &&& post.wf()
    &&& post.inputs.extends(&pre.inputs)
    &&& post.inputs.paths@ == pre.inputs.paths@
    &&& post.reads@[path.id as int] == Some(r)
    &&& r matches Some(file) ==> post.inputs.has_file(file) && post.inputs.spec_file(file).path
        == pre.inputs.spec_path(path)
    &&& match pre.reads@[path.id as int] {
        Some(kept) => r == kept && *post == *pre,
        None => {
            &&& post.log@ == pre.log@.push(Query::ReadFile(path))
            &&& post.reads@ == pre.reads@.update(path.id as int, Some(r))
            &&& post.spans == pre.spans
            &&& post.parses@.take(pre.parses@.len() as int) == pre.parses@
            &&& post.tables@.take(pre.tables@.len() as int) == pre.tables@
        },
    }
}

/// Turns a path into a source unit, given what reading the path gave.
///
/// Where the path was read before, `contents` is not looked at. Else the
/// path is read as a unit that holds `contents`, or as unreadable where
/// there are none.
pub fn file_read(db: &mut Database, path: Path, contents: Option<String>) -> (r: Option<SourceFile>)
    requires
        old(db).wf(),
        old(db).inputs.has_path(path),
    ensures
        read_file_post(old(db), path, final(db), r),
        old(db).reads@[path.id as int] is None ==> (r is Some <==> contents is Some),
        old(db).reads@[path.id as int] is None && contents is Some ==> final(db).inputs.spec_file(
            r->0,
        ).text == contents->0@,
{
    if let Some(kept) = db.reads[path.id] {
        return kept;
    }
    let r = match contents {
        Some(text) => {
            let at = db.inputs.path_of(path).to_owned();
            Some(db.source_file(at.as_str(), text.as_str()))
        },
        None => None,
    };
    db.log.push(Query::ReadFile(path));
    db.reads.set(path.id, Some(r));
    proof {
        assert(db.parses@.take(old(db).parses@.len() as int) =~= old(db).parses@);
        assert(db.tables@.take(old(db).tables@.len() as int) =~= old(db).tables@);
        assert forall|p: Path, s: Span|
            old(db).inputs.has_path(p) && old(db).reads@[p.id as int] is Some implies #[trigger] db.span_text(
            p,
            s,
        ) == old(db).span_text(p, s) by {}
    }
    r
}

/// Turns a path into a source unit: the path is read through `reader`,
/// once.
pub fn read_file<R: FileReader>(db: &mut Database, reader: &mut R, path: Path) -> (r: Option<
    SourceFile,
>)
    requires
        old(db).wf(),
        old(db).inputs.has_path(path),
    ensures
        read_file_post(old(db), path, final(db), r),
{
    if let Some(kept) = db.reads[path.id] {
        return kept;
    }
    let contents = reader.read_to_string(db.inputs.path_of(path));
    file_read(db, path, contents)
}

/// Runs the lexer and the parser over a file.
fn run_parser(db: &Database, file: SourceFile) -> (r: (Option<Ast>, Diagnostics))
    requires
        db.inputs.has_file(file),
    ensures
        ast_view(r.0) == parse_text(db.source(file)).ast(),
        r.1@ == parse_text(db.source(file)).reports(),
{
    let sess = ParseSession::new(db, file);
    let mut parser = Parser::new(&sess, Diagnostics::new());
    let ast = parser.parse();
    let diagnostics = parser.finish();
    proof {
        match parse_text(db.source(file)) {
            Outcome::Tree { stmts } => {},
            Outcome::Failed { report, at } => {
                assert(Seq::<DiagnosticView>::empty().push(report) =~= seq![report]);
            },
        }
    }
    (ast, diagnostics)
}

/// What `parse_file` leaves behind: the tree of the file, which is kept
/// from now on. A file that was parsed before is answered as before, and
/// nothing changes; else the parse is logged.
pub open spec fn parse_file_post(
    pre: &Database,
    file: SourceFile,
    post: &Database,
    r: Option<Ast>,
) -> bool {
    &&& post.wf()
    &&& post.inputs == pre.inputs
    &&& ast_view(r) == parse_text(pre.source(file)).ast()
    &&& post.parses@[file.id as int] is Some
    &&& match pre.parses@[file.id as int] {
        Some(kept) => *post == *pre,
        None => {
            &&& post.log@ == pre.log@.push(Query::ParseFile(file))
            &&& post.parses@ == pre.parses@.update(file.id as int, post.parses@[file.id as int])
            &&& post.reads == pre.reads
            &&& post.tables == pre.tables
            &&& post.spans == pre.spans
        },
    }
}

/// The diagnostics that are kept for the parse of `file`: what parsing it
/// reported, if it has been parsed.
pub open spec fn parse_file_accumulated(db: &Database, file: SourceFile) -> Option<
    Seq<DiagnosticView>,
> {
    match db.parses@[file.id as int] {
        Some(entry) => Some(entry.diagnostics@),
        None => None,
    }
}

/// Turns a file into a tree: the tree that the text of the file spells.
/// `None` where the text spells none: then the diagnostics of the parse say
/// why.
pub fn parse_file(db: &mut Database, file: SourceFile) -> (r: Option<Ast>)
    requires
        old(db).wf(),
        old(db).inputs.has_file(file),
    ensures
        parse_file_post(old(db), file, final(db), r),
        r matches Some(ast) ==> written_file(old(db).source(file), 0, ast@),
        r is None ==> forall|stmts: Seq<StmtView>| !written_file(old(db).source(file), 0, stmts),
{
    proof {
        let src = db.source(file);
        assert(db.inputs.files@[file.id as int].text@ == db.inputs.spec_file(file).text);
        assert forall|stmts: Seq<StmtView>|
            parse_text(src) == (Outcome::Tree { stmts }) <==> #[trigger] written_file(
                src,
                0,
                stmts,
            ) by {
            law_tree_is_read_where_it_is_written(src, stmts);
        }
    }
    if let Some(entry) = &db.parses[file.id] {
        return clone_tree(&entry.ast);
    }
    let (ast, diagnostics) = run_parser(db, file);
    let r = clone_tree(&ast);
    db.log.push(Query::ParseFile(file));
    db.parses.set(file.id, Some(ParseEntry { ast, diagnostics }));
    r
}

/// What parsing `file` reported: nothing where the file has a tree, else
/// the one diagnostic that ended the parse. The file is parsed if it was
/// not yet.
pub fn parse_file_diagnostics(db: &mut Database, file: SourceFile) -> (r: Diagnostics)
    requires
        old(db).wf(),
        old(db).inputs.has_file(file),
    ensures
        r@ == parse_text(old(db).source(file)).reports(),
        parse_file_accumulated(final(db), file) == Some(r@),
        exists|ast: Option<Ast>| parse_file_post(old(db), file, final(db), ast),
{
    let ast = parse_file(db, file);
    match &db.parses[file.id] {
        Some(entry) => entry.diagnostics.clone(),
        None => Diagnostics::new(),
    }
}

/// What `build_symbol_table` leaves behind: the names of the file, which
/// are kept from now on, as is its parse. A file whose symbols were built
/// before is answered as before, and nothing changes; else the parse, if it
/// had not run, and the pass are logged.
pub open spec fn build_symbol_table_post(
    pre: &Database,
    file: SourceFile,
    post: &Database,
    r: Option<Vec<Token>>,
) -> bool {
    &&& post.wf()
    &&& post.inputs == pre.inputs
    &&& names_view(r) == symbols_of(pre.source(file)).names
    &&& post.tables@[file.id as int] is Some
    &&& match pre.tables@[file.id as int] {
        Some(kept) => *post == *pre,
        None => {
            &&& post.parses@[file.id as int] is Some
            &&& post.log@ == if pre.parses@[file.id as int] is Some {
                pre.log@.push(Query::BuildSymbolTable(file))
            } else {
                pre.log@.push(Query::ParseFile(file)).push(Query::BuildSymbolTable(file))
            }
            &&& post.tables@ == pre.tables@.update(file.id as int, post.tables@[file.id as int])
            &&& post.parses@ == pre.parses@.update(file.id as int, post.parses@[file.id as int])
            &&& post.reads == pre.reads
            &&& post.spans == pre.spans
        },
    }
}

/// The diagnostics that are kept for the symbols of `file`, if they have
/// been built.
pub open spec fn build_symbol_table_accumulated(db: &Database, file: SourceFile) -> Option<
    Seq<DiagnosticView>,
> {
    match db.tables@[file.id as int] {
        Some(entry) => Some(entry.diagnostics@),
        None => None,
    }
}

/// Turns a file into the names that it declares: the first declaration of
/// each name, in the order of the text. `None` where the file has no tree.
/// Every declaration that repeats a name is reported.
pub fn build_symbol_table(db: &mut Database, file: SourceFile) -> (r: Option<Vec<Token>>)
    requires
        old(db).wf(),
        old(db).inputs.has_file(file),
    ensures
        build_symbol_table_post(old(db), file, final(db), r),
{
    if let Some(entry) = &db.tables[file.id] {
        return clone_names(&entry.names);
    }
    let ast = parse_file(db, file);
    proof {
        assert(db.inputs.files@[file.id as int].text@ == db.inputs.spec_file(file).text);
        law_parsed_names_lie_in_the_text(db.source(file));
    }
    let entry = match ast {
        Some(ast) => {
            let found = check_can_resolve_symbols(db.inputs.text(file), &ast, Diagnostics::new());
            assert(Seq::<DiagnosticView>::empty() + found.emitter@ =~= found.emitter@);
            SymbolEntry { names: Some(found.names), diagnostics: found.emitter }
        },
        None => {
            let diagnostics = match &db.parses[file.id] {
                Some(parsed) => parsed.diagnostics.clone(),
                None => Diagnostics::new(),
            };
            SymbolEntry { names: None, diagnostics }
        },
    };
    let r = clone_names(&entry.names);
    db.log.push(Query::BuildSymbolTable(file));
    db.tables.set(file.id, Some(entry));
    assert(db.parses@ =~= old(db).parses@.update(file.id as int, db.parses@[file.id as int]));
    r
}

/// What building the symbols of `file` reported: the diagnostic of the
/// parse where it failed, else one report for each declaration that
/// repeats a name. The symbols are built if they were not yet.
pub fn build_symbol_table_diagnostics(db: &mut Database, file: SourceFile) -> (r: Diagnostics)
    requires
        old(db).wf(),
        old(db).inputs.has_file(file),
    ensures
        r@ == symbols_of(old(db).source(file)).reports,
        build_symbol_table_accumulated(final(db), file) == Some(r@),
        exists|names: Option<Vec<Token>>| build_symbol_table_post(old(db), file, final(db), names),
{
    let names = build_symbol_table(db, file);
    match &db.tables[file.id] {
        Some(entry) => entry.diagnostics.clone(),
        None => Diagnostics::new(),
    }
}

/// Where the span of `path` is kept, if it was read before.
fn find_span(db: &Database, path: Path, span: Span) -> (at: Option<usize>)
    ensures
        at matches Some(i) ==> i < db.spans@.len() && db.spans@[i as int].path == path
            && db.spans@[i as int].span == span,
        at is None ==> forall|i: int|
            0 <= i < db.spans@.len() ==> !((#[trigger] db.spans@[i]).path == path
                && db.spans@[i].span == span),
{
    let mut i: usize = 0;
    while i < db.spans.len()
        invariant
            i <= db.spans@.len(),
            forall|j: int|
                0 <= j < i ==> !((#[trigger] db.spans@[j]).path == path && db.spans@[j].span
                    == span),
        decreases db.spans.len() - i,
    {
        if db.spans[i].path.id == path.id && db.spans[i].span.start == span.start
            && db.spans[i].span.end == span.end && db.spans[i].span.file.id == span.file.id {
            return Some(i);
        }
        i = i + 1;
    }
    None
}

/// Whether the span of `path` was read before.
pub open spec fn span_kept(db: &Database, path: Path, span: Span) -> bool {
    exists|i: int|
        0 <= i < db.spans@.len() && (#[trigger] db.spans@[i]).path == path && db.spans@[i].span
            == span
}

/// What `read_span` leaves behind: the text of the span, which is kept
/// from now on, as is the reading of the path. A span that was read before
/// is answered as before, and nothing changes; else the reading of the
/// path, if it had not been read, and the reading of the span are logged.
pub open spec fn read_span_post(
    pre: &Database,
    path: Path,
    span: Span,
    post: &Database,
    r: Option<String>,
) -> bool {
    &&& post.wf()
    &&& post.inputs.extends(&pre.inputs)
    &&& post.inputs.paths@ == pre.inputs.paths@
    &&& text_view(r) == post.span_text(path, span)
    &&& span_kept(post, path, span)
    &&& post.reads@[path.id as int] is Some
    &&& if span_kept(pre, path, span) {
        *post == *pre
    } else {
        &&& post.log@ == if pre.reads@[path.id as int] is Some {
            pre.log@.push(Query::ReadSpan(path, span))
        } else {
            pre.log@.push(Query::ReadFile(path)).push(Query::ReadSpan(path, span))
        }
        &&& post.reads@ == pre.reads@.update(path.id as int, post.reads@[path.id as int])
        &&& pre.reads@[path.id as int] is Some ==> post.reads@[path.id as int]
            == pre.reads@[path.id as int]
        &&& post.spans@.len() == pre.spans@.len() + 1
        &&& post.spans@.take(pre.spans@.len() as int) == pre.spans@
        &&& post.spans@.last().path == path
        &&& post.spans@.last().span == span
        &&& post.parses@.take(pre.parses@.len() as int) == pre.parses@
        &&& post.tables@.take(pre.tables@.len() as int) == pre.tables@
    }
}

/// Turns a span of a path into the text that it covers. The path is read
/// if it was not yet. `None` where the path cannot be read, or where the
/// span does not cover whole characters of the unit that it was read as.
pub fn read_span<R: FileReader>(
    db: &mut Database,
    reader: &mut R,
    path: Path,
    span: TrackedSpan,
) -> (r: Option<String>)
    requires
        old(db).wf(),
        old(db).inputs.has_path(path),
    ensures
        read_span_post(old(db), path, span.span, final(db), r),
{
    let span = span.span;
    if let Some(i) = find_span(db, path, span) {
        return clone_text(&db.spans[i].text);
    }
    let file = read_file(db, reader, path);
    let text = match file {
        Some(file) => match substring(db.inputs.text(file), span.start, span.end) {
            Some(piece) => {
                proof {
                    encode_utf8_decode_utf8(piece@);
                }
                Some(piece.to_owned())
            },
            None => None,
        },
        None => None,
    };
    let r = clone_text(&text);
    db.log.push(Query::ReadSpan(path, span));
    db.spans.push(SpanEntry { path, span, text });
    proof {
        assert(db.spans@[db.spans@.len() - 1].path == path);
        assert(db.spans@.take(old(db).spans@.len() as int) =~= old(db).spans@);
        assert(db.reads@ =~= old(db).reads@.update(path.id as int, db.reads@[path.id as int]));
        assert(db.parses@.take(old(db).parses@.len() as int) =~= old(db).parses@);
        assert(db.tables@.take(old(db).tables@.len() as int) =~= old(db).tables@);
    }
    r
}

/// Parsing a file twice gives the same tree twice, and the second time
/// changes nothing: the parse is not run again, and the diagnostics that
/// are kept for it are those of the first time, once.
pub proof fn law_parse_file_is_idempotent(
    before: Database,
    between: Database,
    after: Database,
    file: SourceFile,
    first: Option<Ast>,
    second: Option<Ast>,
)
    requires
        before.inputs.has_file(file),
        parse_file_post(&before, file, &between, first),
        parse_file_post(&between, file, &after, second),
    ensures
        ast_view(second) == ast_view(first),
        after == between,
        after.log@ == between.log@,
        parse_file_accumulated(&after, file) == parse_file_accumulated(&between, file),
        parse_file_accumulated(&after, file) == Some(parse_text(before.source(file)).reports()),
{
    assert(after.parses@[file.id as int] is Some);
    assert(after.source(SourceFile { id: file.id as int as usize }) == before.source(file));
}

/// What is kept for the parse of a file depends on the file alone: two
/// databases that hold the same text under the same handle give the same
/// tree and the same diagnostics, whatever else they hold.
pub proof fn law_parse_file_is_deterministic(
    one: Database,
    one_after: Database,
    other: Database,
    other_after: Database,
    file: SourceFile,
    r1: Option<Ast>,
    r2: Option<Ast>,
)
    requires
        one.inputs.spec_bytes(file) == other.inputs.spec_bytes(file),
        parse_file_post(&one, file, &one_after, r1),
        parse_file_post(&other, file, &other_after, r2),
        one.inputs.has_file(file),
        other.inputs.has_file(file),
    ensures
        ast_view(r1) == ast_view(r2),
        parse_file_accumulated(&one_after, file) == parse_file_accumulated(&other_after, file),
{
}

/// Building the symbols of a file twice gives the same names twice, and
/// the second time changes nothing.
pub proof fn law_build_symbol_table_is_idempotent(
    before: Database,
    between: Database,
    after: Database,
    file: SourceFile,
    first: Option<Vec<Token>>,
    second: Option<Vec<Token>>,
)
    requires
        build_symbol_table_post(&before, file, &between, first),
        build_symbol_table_post(&between, file, &after, second),
    ensures
        names_view(second) == names_view(first),
        after == between,
        build_symbol_table_accumulated(&after, file) == build_symbol_table_accumulated(
            &between,
            file,
        ),
{
}

/// A file with a tree has no diagnostics of its parse, and a file without
/// one has exactly one.
pub proof fn law_parse_fails_with_one_diagnostic(db: Database, file: SourceFile)
    ensures
        parse_text(db.source(file)).ast() is Some ==> parse_text(db.source(file)).reports().len()
            == 0,
        parse_text(db.source(file)).ast() is None ==> parse_text(db.source(file)).reports().len()
            == 1,
{
}

} // verus!
