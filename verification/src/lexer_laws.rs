//! What holds of the lexer for every text of a kind.

use crate::chars::{
    lemma_run_end, lemma_run_end_unique, run_end, spec_is_continuation, spec_is_digit,
    spec_is_id_body, spec_is_id_head, spec_is_whitespace, ByteClass, NEWLINE, PERIOD, QUOTE,
    SLASH, STAR,
};
use crate::lexer::{
    block_comment_end, lemma_block_comment_end, lemma_lex_bounds, lex, spec_keyword,
    spec_punctuation, LexFault, Lexed,
};
use crate::token::TokenKind;
use vstd::prelude::*;
use vstd::string::*;

verus! {

/// Whether `kind` is the kind of a keyword.
pub open spec fn is_keyword(kind: TokenKind) -> bool {
    match kind {
        TokenKind::Import
        | TokenKind::Package
        | TokenKind::Constructor
        | TokenKind::Annotation
        | TokenKind::Struct
        | TokenKind::MapKeyword
        | TokenKind::Unknown
        | TokenKind::Union
        | TokenKind::Repeatable
        | TokenKind::Tagged
        | TokenKind::Uint32
        | TokenKind::Uint64
        | TokenKind::Int32
        | TokenKind::Int64
        | TokenKind::Float32
        | TokenKind::Float64
        | TokenKind::String => true,
        _ => false,
    }
}

/// How the keyword of `kind` is spelled.
pub open spec fn keyword_spelling(kind: TokenKind) -> Seq<u8>
    recommends
        is_keyword(kind),
{
    match kind {
        TokenKind::Import => "import".spec_bytes(),
        TokenKind::Package => "package".spec_bytes(),
        TokenKind::Constructor => "constructor".spec_bytes(),
        TokenKind::Annotation => "annotation".spec_bytes(),
        TokenKind::Struct => "struct".spec_bytes(),
        TokenKind::MapKeyword => "map".spec_bytes(),
        TokenKind::Unknown => "unknown".spec_bytes(),
        TokenKind::Union => "union".spec_bytes(),
        TokenKind::Repeatable => "repeatable".spec_bytes(),
        TokenKind::Tagged => "tagged".spec_bytes(),
        TokenKind::Uint32 => "uint32".spec_bytes(),
        TokenKind::Uint64 => "uint64".spec_bytes(),
        TokenKind::Int32 => "int32".spec_bytes(),
        TokenKind::Int64 => "int64".spec_bytes(),
        TokenKind::Float32 => "float32".spec_bytes(),
        TokenKind::Float64 => "float64".spec_bytes(),
        _ => "string".spec_bytes(),
    }
}

/// The bytes of each keyword: ASCII letters and digits, one byte each.
proof fn lemma_keyword_bytes()
    ensures
        "import".spec_bytes() == seq![0x69u8, 0x6du8, 0x70u8, 0x6fu8, 0x72u8, 0x74u8],
        "package".spec_bytes() == seq![0x70u8, 0x61u8, 0x63u8, 0x6bu8, 0x61u8, 0x67u8, 0x65u8],
        "constructor".spec_bytes() == seq![0x63u8, 0x6fu8, 0x6eu8, 0x73u8, 0x74u8, 0x72u8, 0x75u8, 0x63u8, 0x74u8, 0x6fu8, 0x72u8],
        "annotation".spec_bytes() == seq![0x61u8, 0x6eu8, 0x6eu8, 0x6fu8, 0x74u8, 0x61u8, 0x74u8, 0x69u8, 0x6fu8, 0x6eu8],
        "struct".spec_bytes() == seq![0x73u8, 0x74u8, 0x72u8, 0x75u8, 0x63u8, 0x74u8],
        "map".spec_bytes() == seq![0x6du8, 0x61u8, 0x70u8],
        "unknown".spec_bytes() == seq![0x75u8, 0x6eu8, 0x6bu8, 0x6eu8, 0x6fu8, 0x77u8, 0x6eu8],
        "union".spec_bytes() == seq![0x75u8, 0x6eu8, 0x69u8, 0x6fu8, 0x6eu8],
        "repeatable".spec_bytes() == seq![0x72u8, 0x65u8, 0x70u8, 0x65u8, 0x61u8, 0x74u8, 0x61u8, 0x62u8, 0x6cu8, 0x65u8],
        "tagged".spec_bytes() == seq![0x74u8, 0x61u8, 0x67u8, 0x67u8, 0x65u8, 0x64u8],
        "uint32".spec_bytes() == seq![0x75u8, 0x69u8, 0x6eu8, 0x74u8, 0x33u8, 0x32u8],
        "uint64".spec_bytes() == seq![0x75u8, 0x69u8, 0x6eu8, 0x74u8, 0x36u8, 0x34u8],
        "int32".spec_bytes() == seq![0x69u8, 0x6eu8, 0x74u8, 0x33u8, 0x32u8],
        "int64".spec_bytes() == seq![0x69u8, 0x6eu8, 0x74u8, 0x36u8, 0x34u8],
        "float32".spec_bytes() == seq![0x66u8, 0x6cu8, 0x6fu8, 0x61u8, 0x74u8, 0x33u8, 0x32u8],
        "float64".spec_bytes() == seq![0x66u8, 0x6cu8, 0x6fu8, 0x61u8, 0x74u8, 0x36u8, 0x34u8],
        "string".spec_bytes() == seq![0x73u8, 0x74u8, 0x72u8, 0x69u8, 0x6eu8, 0x67u8],
{
    reveal_strlit("import");
    is_ascii_spec_bytes("import");
    assert("import".spec_bytes() =~= seq![0x69u8, 0x6du8, 0x70u8, 0x6fu8, 0x72u8, 0x74u8]);
    reveal_strlit("package");
    is_ascii_spec_bytes("package");
    assert("package".spec_bytes() =~= seq![0x70u8, 0x61u8, 0x63u8, 0x6bu8, 0x61u8, 0x67u8, 0x65u8]);
    reveal_strlit("constructor");
    is_ascii_spec_bytes("constructor");
    assert("constructor".spec_bytes() =~= seq![0x63u8, 0x6fu8, 0x6eu8, 0x73u8, 0x74u8, 0x72u8, 0x75u8, 0x63u8, 0x74u8, 0x6fu8, 0x72u8]);
    reveal_strlit("annotation");
    is_ascii_spec_bytes("annotation");
    assert("annotation".spec_bytes() =~= seq![0x61u8, 0x6eu8, 0x6eu8, 0x6fu8, 0x74u8, 0x61u8, 0x74u8, 0x69u8, 0x6fu8, 0x6eu8]);
    reveal_strlit("struct");
    is_ascii_spec_bytes("struct");
    assert("struct".spec_bytes() =~= seq![0x73u8, 0x74u8, 0x72u8, 0x75u8, 0x63u8, 0x74u8]);
    reveal_strlit("map");
    is_ascii_spec_bytes("map");
    assert("map".spec_bytes() =~= seq![0x6du8, 0x61u8, 0x70u8]);
    reveal_strlit("unknown");
    is_ascii_spec_bytes("unknown");
    assert("unknown".spec_bytes() =~= seq![0x75u8, 0x6eu8, 0x6bu8, 0x6eu8, 0x6fu8, 0x77u8, 0x6eu8]);
    reveal_strlit("union");
    is_ascii_spec_bytes("union");
    assert("union".spec_bytes() =~= seq![0x75u8, 0x6eu8, 0x69u8, 0x6fu8, 0x6eu8]);
    reveal_strlit("repeatable");
    is_ascii_spec_bytes("repeatable");
    assert("repeatable".spec_bytes() =~= seq![0x72u8, 0x65u8, 0x70u8, 0x65u8, 0x61u8, 0x74u8, 0x61u8, 0x62u8, 0x6cu8, 0x65u8]);
    reveal_strlit("tagged");
    is_ascii_spec_bytes("tagged");
    assert("tagged".spec_bytes() =~= seq![0x74u8, 0x61u8, 0x67u8, 0x67u8, 0x65u8, 0x64u8]);
    reveal_strlit("uint32");
    is_ascii_spec_bytes("uint32");
    assert("uint32".spec_bytes() =~= seq![0x75u8, 0x69u8, 0x6eu8, 0x74u8, 0x33u8, 0x32u8]);
    reveal_strlit("uint64");
    is_ascii_spec_bytes("uint64");
    assert("uint64".spec_bytes() =~= seq![0x75u8, 0x69u8, 0x6eu8, 0x74u8, 0x36u8, 0x34u8]);
    reveal_strlit("int32");
    is_ascii_spec_bytes("int32");
    assert("int32".spec_bytes() =~= seq![0x69u8, 0x6eu8, 0x74u8, 0x33u8, 0x32u8]);
    reveal_strlit("int64");
    is_ascii_spec_bytes("int64");
    assert("int64".spec_bytes() =~= seq![0x69u8, 0x6eu8, 0x74u8, 0x36u8, 0x34u8]);
    reveal_strlit("float32");
    is_ascii_spec_bytes("float32");
    assert("float32".spec_bytes() =~= seq![0x66u8, 0x6cu8, 0x6fu8, 0x61u8, 0x74u8, 0x33u8, 0x32u8]);
    reveal_strlit("float64");
    is_ascii_spec_bytes("float64");
    assert("float64".spec_bytes() =~= seq![0x66u8, 0x6cu8, 0x6fu8, 0x61u8, 0x74u8, 0x36u8, 0x34u8]);
    reveal_strlit("string");
    is_ascii_spec_bytes("string");
    assert("string".spec_bytes() =~= seq![0x73u8, 0x74u8, 0x72u8, 0x69u8, 0x6eu8, 0x67u8]);
}

/// No two keywords are spelled alike: each spelling is the keyword of its
/// own kind.
pub proof fn lemma_keywords_differ(kind: TokenKind)
    requires
        is_keyword(kind),
    ensures
        spec_keyword(keyword_spelling(kind)) == kind,
        keyword_spelling(kind).len() >= 1,
        spec_is_id_head(keyword_spelling(kind)[0]),
        forall|i: int|
            0 <= i < keyword_spelling(kind).len() ==> spec_is_id_body(
                #[trigger] keyword_spelling(kind)[i],
            ),
{
    lemma_keyword_bytes();
    let text = keyword_spelling(kind);
    match kind {
        TokenKind::Import => {
            assert(text.len() != "package".spec_bytes().len());
            assert(text.len() != "constructor".spec_bytes().len());
            assert(text.len() != "annotation".spec_bytes().len());
            assert(text[0] != "struct".spec_bytes()[0]);
            assert(text.len() != "map".spec_bytes().len());
            assert(text.len() != "unknown".spec_bytes().len());
            assert(text.len() != "union".spec_bytes().len());
            assert(text.len() != "repeatable".spec_bytes().len());
            assert(text[0] != "tagged".spec_bytes()[0]);
            assert(text[0] != "uint32".spec_bytes()[0]);
            assert(text[0] != "uint64".spec_bytes()[0]);
            assert(text.len() != "int32".spec_bytes().len());
            assert(text.len() != "int64".spec_bytes().len());
            assert(text.len() != "float32".spec_bytes().len());
            assert(text.len() != "float64".spec_bytes().len());
            assert(text[0] != "string".spec_bytes()[0]);
        },
        TokenKind::Package => {
            assert(text.len() != "import".spec_bytes().len());
            assert(text.len() != "constructor".spec_bytes().len());
            assert(text.len() != "annotation".spec_bytes().len());
            assert(text.len() != "struct".spec_bytes().len());
            assert(text.len() != "map".spec_bytes().len());
            assert(text[0] != "unknown".spec_bytes()[0]);
            assert(text.len() != "union".spec_bytes().len());
            assert(text.len() != "repeatable".spec_bytes().len());
            assert(text.len() != "tagged".spec_bytes().len());
            assert(text.len() != "uint32".spec_bytes().len());
            assert(text.len() != "uint64".spec_bytes().len());
            assert(text.len() != "int32".spec_bytes().len());
            assert(text.len() != "int64".spec_bytes().len());
            assert(text[0] != "float32".spec_bytes()[0]);
            assert(text[0] != "float64".spec_bytes()[0]);
            assert(text.len() != "string".spec_bytes().len());
        },
        TokenKind::Constructor => {
            assert(text.len() != "import".spec_bytes().len());
            assert(text.len() != "package".spec_bytes().len());
            assert(text.len() != "annotation".spec_bytes().len());
            assert(text.len() != "struct".spec_bytes().len());
            assert(text.len() != "map".spec_bytes().len());
            assert(text.len() != "unknown".spec_bytes().len());
            assert(text.len() != "union".spec_bytes().len());
            assert(text.len() != "repeatable".spec_bytes().len());
            assert(text.len() != "tagged".spec_bytes().len());
            assert(text.len() != "uint32".spec_bytes().len());
            assert(text.len() != "uint64".spec_bytes().len());
            assert(text.len() != "int32".spec_bytes().len());
            assert(text.len() != "int64".spec_bytes().len());
            assert(text.len() != "float32".spec_bytes().len());
            assert(text.len() != "float64".spec_bytes().len());
            assert(text.len() != "string".spec_bytes().len());
        },
        TokenKind::Annotation => {
            assert(text.len() != "import".spec_bytes().len());
            assert(text.len() != "package".spec_bytes().len());
            assert(text.len() != "constructor".spec_bytes().len());
            assert(text.len() != "struct".spec_bytes().len());
            assert(text.len() != "map".spec_bytes().len());
            assert(text.len() != "unknown".spec_bytes().len());
            assert(text.len() != "union".spec_bytes().len());
            assert(text[0] != "repeatable".spec_bytes()[0]);
            assert(text.len() != "tagged".spec_bytes().len());
            assert(text.len() != "uint32".spec_bytes().len());
            assert(text.len() != "uint64".spec_bytes().len());
            assert(text.len() != "int32".spec_bytes().len());
            assert(text.len() != "int64".spec_bytes().len());
            assert(text.len() != "float32".spec_bytes().len());
            assert(text.len() != "float64".spec_bytes().len());
            assert(text.len() != "string".spec_bytes().len());
        },
        TokenKind::Struct => {
            assert(text[0] != "import".spec_bytes()[0]);
            assert(text.len() != "package".spec_bytes().len());
            assert(text.len() != "constructor".spec_bytes().len());
            assert(text.len() != "annotation".spec_bytes().len());
            assert(text.len() != "map".spec_bytes().len());
            assert(text.len() != "unknown".spec_bytes().len());
            assert(text.len() != "union".spec_bytes().len());
            assert(text.len() != "repeatable".spec_bytes().len());
            assert(text[0] != "tagged".spec_bytes()[0]);
            assert(text[0] != "uint32".spec_bytes()[0]);
            assert(text[0] != "uint64".spec_bytes()[0]);
            assert(text.len() != "int32".spec_bytes().len());
            assert(text.len() != "int64".spec_bytes().len());
            assert(text.len() != "float32".spec_bytes().len());
            assert(text.len() != "float64".spec_bytes().len());
            assert(text[3] != "string".spec_bytes()[3]);
        },
        TokenKind::MapKeyword => {
            assert(text.len() != "import".spec_bytes().len());
            assert(text.len() != "package".spec_bytes().len());
            assert(text.len() != "constructor".spec_bytes().len());
            assert(text.len() != "annotation".spec_bytes().len());
            assert(text.len() != "struct".spec_bytes().len());
            assert(text.len() != "unknown".spec_bytes().len());
            assert(text.len() != "union".spec_bytes().len());
            assert(text.len() != "repeatable".spec_bytes().len());
            assert(text.len() != "tagged".spec_bytes().len());
            assert(text.len() != "uint32".spec_bytes().len());
            assert(text.len() != "uint64".spec_bytes().len());
            assert(text.len() != "int32".spec_bytes().len());
            assert(text.len() != "int64".spec_bytes().len());
            assert(text.len() != "float32".spec_bytes().len());
            assert(text.len() != "float64".spec_bytes().len());
            assert(text.len() != "string".spec_bytes().len());
        },
        TokenKind::Unknown => {
            assert(text.len() != "import".spec_bytes().len());
            assert(text[0] != "package".spec_bytes()[0]);
            assert(text.len() != "constructor".spec_bytes().len());
            assert(text.len() != "annotation".spec_bytes().len());
            assert(text.len() != "struct".spec_bytes().len());
            assert(text.len() != "map".spec_bytes().len());
            assert(text.len() != "union".spec_bytes().len());
            assert(text.len() != "repeatable".spec_bytes().len());
            assert(text.len() != "tagged".spec_bytes().len());
            assert(text.len() != "uint32".spec_bytes().len());
            assert(text.len() != "uint64".spec_bytes().len());
            assert(text.len() != "int32".spec_bytes().len());
            assert(text.len() != "int64".spec_bytes().len());
            assert(text[0] != "float32".spec_bytes()[0]);
            assert(text[0] != "float64".spec_bytes()[0]);
            assert(text.len() != "string".spec_bytes().len());
        },
        TokenKind::Union => {
            assert(text.len() != "import".spec_bytes().len());
            assert(text.len() != "package".spec_bytes().len());
            assert(text.len() != "constructor".spec_bytes().len());
            assert(text.len() != "annotation".spec_bytes().len());
            assert(text.len() != "struct".spec_bytes().len());
            assert(text.len() != "map".spec_bytes().len());
            assert(text.len() != "unknown".spec_bytes().len());
            assert(text.len() != "repeatable".spec_bytes().len());
            assert(text.len() != "tagged".spec_bytes().len());
            assert(text.len() != "uint32".spec_bytes().len());
            assert(text.len() != "uint64".spec_bytes().len());
            assert(text[0] != "int32".spec_bytes()[0]);
            assert(text[0] != "int64".spec_bytes()[0]);
            assert(text.len() != "float32".spec_bytes().len());
            assert(text.len() != "float64".spec_bytes().len());
            assert(text.len() != "string".spec_bytes().len());
        },
        TokenKind::Repeatable => {
            assert(text.len() != "import".spec_bytes().len());
            assert(text.len() != "package".spec_bytes().len());
            assert(text.len() != "constructor".spec_bytes().len());
            assert(text[0] != "annotation".spec_bytes()[0]);
            assert(text.len() != "struct".spec_bytes().len());
            assert(text.len() != "map".spec_bytes().len());
            assert(text.len() != "unknown".spec_bytes().len());
            assert(text.len() != "union".spec_bytes().len());
            assert(text.len() != "tagged".spec_bytes().len());
            assert(text.len() != "uint32".spec_bytes().len());
            assert(text.len() != "uint64".spec_bytes().len());
            assert(text.len() != "int32".spec_bytes().len());
            assert(text.len() != "int64".spec_bytes().len());
            assert(text.len() != "float32".spec_bytes().len());
            assert(text.len() != "float64".spec_bytes().len());
            assert(text.len() != "string".spec_bytes().len());
        },
        TokenKind::Tagged => {
            assert(text[0] != "import".spec_bytes()[0]);
            assert(text.len() != "package".spec_bytes().len());
            assert(text.len() != "constructor".spec_bytes().len());
            assert(text.len() != "annotation".spec_bytes().len());
            assert(text[0] != "struct".spec_bytes()[0]);
            assert(text.len() != "map".spec_bytes().len());
            assert(text.len() != "unknown".spec_bytes().len());
            assert(text.len() != "union".spec_bytes().len());
            assert(text.len() != "repeatable".spec_bytes().len());
            assert(text[0] != "uint32".spec_bytes()[0]);
            assert(text[0] != "uint64".spec_bytes()[0]);
            assert(text.len() != "int32".spec_bytes().len());
            assert(text.len() != "int64".spec_bytes().len());
            assert(text.len() != "float32".spec_bytes().len());
            assert(text.len() != "float64".spec_bytes().len());
            assert(text[0] != "string".spec_bytes()[0]);
        },
        TokenKind::Uint32 => {
            assert(text[0] != "import".spec_bytes()[0]);
            assert(text.len() != "package".spec_bytes().len());
            assert(text.len() != "constructor".spec_bytes().len());
            assert(text.len() != "annotation".spec_bytes().len());
            assert(text[0] != "struct".spec_bytes()[0]);
            assert(text.len() != "map".spec_bytes().len());
            assert(text.len() != "unknown".spec_bytes().len());
            assert(text.len() != "union".spec_bytes().len());
            assert(text.len() != "repeatable".spec_bytes().len());
            assert(text[0] != "tagged".spec_bytes()[0]);
            assert(text[4] != "uint64".spec_bytes()[4]);
            assert(text.len() != "int32".spec_bytes().len());
            assert(text.len() != "int64".spec_bytes().len());
            assert(text.len() != "float32".spec_bytes().len());
            assert(text.len() != "float64".spec_bytes().len());
            assert(text[0] != "string".spec_bytes()[0]);
        },
        TokenKind::Uint64 => {
            assert(text[0] != "import".spec_bytes()[0]);
            assert(text.len() != "package".spec_bytes().len());
            assert(text.len() != "constructor".spec_bytes().len());
            assert(text.len() != "annotation".spec_bytes().len());
            assert(text[0] != "struct".spec_bytes()[0]);
            assert(text.len() != "map".spec_bytes().len());
            assert(text.len() != "unknown".spec_bytes().len());
            assert(text.len() != "union".spec_bytes().len());
            assert(text.len() != "repeatable".spec_bytes().len());
            assert(text[0] != "tagged".spec_bytes()[0]);
            assert(text[4] != "uint32".spec_bytes()[4]);
            assert(text.len() != "int32".spec_bytes().len());
            assert(text.len() != "int64".spec_bytes().len());
            assert(text.len() != "float32".spec_bytes().len());
            assert(text.len() != "float64".spec_bytes().len());
            assert(text[0] != "string".spec_bytes()[0]);
        },
        TokenKind::Int32 => {
            assert(text.len() != "import".spec_bytes().len());
            assert(text.len() != "package".spec_bytes().len());
            assert(text.len() != "constructor".spec_bytes().len());
            assert(text.len() != "annotation".spec_bytes().len());
            assert(text.len() != "struct".spec_bytes().len());
            assert(text.len() != "map".spec_bytes().len());
            assert(text.len() != "unknown".spec_bytes().len());
            assert(text[0] != "union".spec_bytes()[0]);
            assert(text.len() != "repeatable".spec_bytes().len());
            assert(text.len() != "tagged".spec_bytes().len());
            assert(text.len() != "uint32".spec_bytes().len());
            assert(text.len() != "uint64".spec_bytes().len());
            assert(text[3] != "int64".spec_bytes()[3]);
            assert(text.len() != "float32".spec_bytes().len());
            assert(text.len() != "float64".spec_bytes().len());
            assert(text.len() != "string".spec_bytes().len());
        },
        TokenKind::Int64 => {
            assert(text.len() != "import".spec_bytes().len());
            assert(text.len() != "package".spec_bytes().len());
            assert(text.len() != "constructor".spec_bytes().len());
            assert(text.len() != "annotation".spec_bytes().len());
            assert(text.len() != "struct".spec_bytes().len());
            assert(text.len() != "map".spec_bytes().len());
            assert(text.len() != "unknown".spec_bytes().len());
            assert(text[0] != "union".spec_bytes()[0]);
            assert(text.len() != "repeatable".spec_bytes().len());
            assert(text.len() != "tagged".spec_bytes().len());
            assert(text.len() != "uint32".spec_bytes().len());
            assert(text.len() != "uint64".spec_bytes().len());
            assert(text[3] != "int32".spec_bytes()[3]);
            assert(text.len() != "float32".spec_bytes().len());
            assert(text.len() != "float64".spec_bytes().len());
            assert(text.len() != "string".spec_bytes().len());
        },
        TokenKind::Float32 => {
            assert(text.len() != "import".spec_bytes().len());
            assert(text[0] != "package".spec_bytes()[0]);
            assert(text.len() != "constructor".spec_bytes().len());
            assert(text.len() != "annotation".spec_bytes().len());
            assert(text.len() != "struct".spec_bytes().len());
            assert(text.len() != "map".spec_bytes().len());
            assert(text[0] != "unknown".spec_bytes()[0]);
            assert(text.len() != "union".spec_bytes().len());
            assert(text.len() != "repeatable".spec_bytes().len());
            assert(text.len() != "tagged".spec_bytes().len());
            assert(text.len() != "uint32".spec_bytes().len());
            assert(text.len() != "uint64".spec_bytes().len());
            assert(text.len() != "int32".spec_bytes().len());
            assert(text.len() != "int64".spec_bytes().len());
            assert(text[5] != "float64".spec_bytes()[5]);
            assert(text.len() != "string".spec_bytes().len());
        },
        TokenKind::Float64 => {
            assert(text.len() != "import".spec_bytes().len());
            assert(text[0] != "package".spec_bytes()[0]);
            assert(text.len() != "constructor".spec_bytes().len());
            assert(text.len() != "annotation".spec_bytes().len());
            assert(text.len() != "struct".spec_bytes().len());
            assert(text.len() != "map".spec_bytes().len());
            assert(text[0] != "unknown".spec_bytes()[0]);
            assert(text.len() != "union".spec_bytes().len());
            assert(text.len() != "repeatable".spec_bytes().len());
            assert(text.len() != "tagged".spec_bytes().len());
            assert(text.len() != "uint32".spec_bytes().len());
            assert(text.len() != "uint64".spec_bytes().len());
            assert(text.len() != "int32".spec_bytes().len());
            assert(text.len() != "int64".spec_bytes().len());
            assert(text[5] != "float32".spec_bytes()[5]);
            assert(text.len() != "string".spec_bytes().len());
        },
        TokenKind::String => {
            assert(text[0] != "import".spec_bytes()[0]);
            assert(text.len() != "package".spec_bytes().len());
            assert(text.len() != "constructor".spec_bytes().len());
            assert(text.len() != "annotation".spec_bytes().len());
            assert(text[3] != "struct".spec_bytes()[3]);
            assert(text.len() != "map".spec_bytes().len());
            assert(text.len() != "unknown".spec_bytes().len());
            assert(text.len() != "union".spec_bytes().len());
            assert(text.len() != "repeatable".spec_bytes().len());
            assert(text[0] != "tagged".spec_bytes()[0]);
            assert(text[0] != "uint32".spec_bytes()[0]);
            assert(text[0] != "uint64".spec_bytes()[0]);
            assert(text.len() != "int32".spec_bytes().len());
            assert(text.len() != "int64".spec_bytes().len());
            assert(text.len() != "float32".spec_bytes().len());
            assert(text.len() != "float64".spec_bytes().len());
        },
        _ => {},
    }
}

/// A word lexes as one token: a text that begins as an identifier and
/// goes on as one to its end is a keyword where it is spelled as one, else
/// an identifier, over the whole text.
pub proof fn law_word_is_one_token(text: Seq<u8>)
    requires
        text.len() >= 1,
        spec_is_id_head(text[0]),
        forall|i: int| 0 <= i < text.len() ==> spec_is_id_body(#[trigger] text[i]),
    ensures
        lex(text, 0) == (Lexed::Token {
            kind: spec_keyword(text),
            start: 0,
            end: text.len() as int,
        }),
{
    lemma_run_end_unique(text, 0, ByteClass::Whitespace, 0);
    lemma_run_end_unique(text, 1, ByteClass::IdBody, text.len() as int);
    assert(text.subrange(0, text.len() as int) =~= text);
}

/// Every keyword, lexed alone, is one token of its own kind, which is not
/// `Ident`.
pub proof fn law_keyword_lexes_to_its_kind(kind: TokenKind)
    requires
        is_keyword(kind),
    ensures
        lex(keyword_spelling(kind), 0) == (Lexed::Token {
            kind,
            start: 0,
            end: keyword_spelling(kind).len() as int,
        }),
        kind != TokenKind::Ident,
{
    lemma_keywords_differ(kind);
    law_word_is_one_token(keyword_spelling(kind));
}

/// Every punctuation mark, lexed alone, is one token of its own kind, one
/// byte long.
pub proof fn law_punctuation_lexes_to_its_kind(b: u8)
    requires
        spec_punctuation(b) is Some,
    ensures
        lex(seq![b], 0) == (Lexed::Token { kind: spec_punctuation(b)->0, start: 0, end: 1 }),
{
    lemma_run_end_unique(seq![b], 0, ByteClass::Whitespace, 0);
}

/// A run of digits is an integer literal over the whole text.
pub proof fn law_digits_are_an_integer(text: Seq<u8>)
    requires
        text.len() >= 1,
        forall|i: int| 0 <= i < text.len() ==> spec_is_digit(#[trigger] text[i]),
    ensures
        lex(text, 0) == (Lexed::Token {
            kind: TokenKind::IntLiteral,
            start: 0,
            end: text.len() as int,
        }),
{
    lemma_run_end_unique(text, 0, ByteClass::Whitespace, 0);
    lemma_run_end_unique(text, 1, ByteClass::Digit, text.len() as int);
}

/// Digits, a point and at least one more digit are a float literal over
/// the whole text.
pub proof fn law_digits_point_digits_are_a_float(text: Seq<u8>, point: int)
    requires
        1 <= point < text.len() - 1,
        text[point] == PERIOD,
        forall|i: int| 0 <= i < text.len() && i != point ==> spec_is_digit(#[trigger] text[i]),
    ensures
        lex(text, 0) == (Lexed::Token {
            kind: TokenKind::FloatLiteral,
            start: 0,
            end: text.len() as int,
        }),
{
    lemma_run_end_unique(text, 0, ByteClass::Whitespace, 0);
    lemma_run_end_unique(text, 1, ByteClass::Digit, point);
    lemma_run_end_unique(text, point + 1, ByteClass::Digit, text.len() as int);
}

/// A string that is opened and never closed is a fault over the whole
/// text, whatever the text holds behind the opening.
pub proof fn law_unclosed_string_is_a_fault(text: Seq<u8>)
    requires
        text.len() >= 1,
        text[0] == QUOTE,
        forall|i: int| 1 <= i < text.len() ==> #[trigger] text[i] != QUOTE,
    ensures
        lex(text, 0) == (Lexed::Fault {
            fault: LexFault::UnterminatedString,
            kind: TokenKind::StringLiteral,
            start: 0,
            end: text.len() as int,
        }),
{
    lemma_run_end_unique(text, 0, ByteClass::Whitespace, 0);
    lemma_run_end_unique(text, 1, ByteClass::NotQuote, text.len() as int);
}

/// Behind a fault, and at the end of the text, nothing more is read.
pub proof fn law_the_end_is_final(text: Seq<u8>)
    ensures
        lex(text, text.len() as int) == Lexed::End,
{
}

/// What the text of a token of each kind looks like.
pub open spec fn spelled_as(kind: TokenKind, word: Seq<u8>) -> bool {
    match kind {
        TokenKind::Ident => {
            &&& word.len() >= 1
            &&& spec_is_id_head(word[0])
            &&& forall|i: int| 0 <= i < word.len() ==> spec_is_id_body(#[trigger] word[i])
            &&& spec_keyword(word) == TokenKind::Ident
        },
        TokenKind::IntLiteral => {
            &&& word.len() >= 1
            &&& forall|i: int| 0 <= i < word.len() ==> spec_is_digit(#[trigger] word[i])
        },
        TokenKind::FloatLiteral => exists|point: int|
            {
                &&& 1 <= point < word.len()
                &&& #[trigger] word[point] == PERIOD
                &&& forall|i: int|
                    0 <= i < word.len() && i != point ==> spec_is_digit(#[trigger] word[i])
            },
        TokenKind::StringLiteral => {
            &&& word.len() >= 2
            &&& word[0] == QUOTE
            &&& word[word.len() - 1] == QUOTE
            &&& forall|i: int| 1 <= i < word.len() - 1 ==> #[trigger] word[i] != QUOTE
        },
        TokenKind::Comment => is_line_comment(word) || is_block_comment(word),
        TokenKind::Invalid => {
            &&& word.len() >= 1
            &&& spec_punctuation(word[0]) is None
            &&& !spec_is_whitespace(word[0])
            &&& !spec_is_digit(word[0])
            &&& !spec_is_id_head(word[0])
            &&& word[0] != QUOTE
            &&& forall|i: int| 1 <= i < word.len() ==> spec_is_continuation(#[trigger] word[i])
        },
        TokenKind::Eof => false,
        _ => if is_keyword(kind) {
            word == keyword_spelling(kind)
        } else {
            word.len() == 1 && spec_punctuation(word[0]) == Some(kind)
        },
    }
}

/// `// ...`, without a line feed.
pub open spec fn is_line_comment(word: Seq<u8>) -> bool {
    &&& word.len() >= 2
    &&& word[0] == SLASH
    &&& word[1] == SLASH
    &&& forall|i: int| 2 <= i < word.len() ==> #[trigger] word[i] != NEWLINE
}

/// `/* ... */`, without a `*/` in front of the one at its end.
pub open spec fn is_block_comment(word: Seq<u8>) -> bool {
    &&& word.len() >= 4
    &&& word[0] == SLASH
    &&& word[1] == STAR
    &&& word[word.len() - 2] == STAR
    &&& word[word.len() - 1] == SLASH
    &&& forall|i: int| 2 <= i < word.len() - 2 ==> !(#[trigger] word[i] == STAR && word[i + 1] == SLASH)
}

/// In front of the end of a block comment no `*/` stands.
proof fn lemma_block_comment_is_the_first(text: Seq<u8>, from: int, i: int)
    requires
        0 <= from <= i,
        block_comment_end(text, from) matches Some(end) && i < end - 2,
    ensures
        !(text[i] == STAR && text[i + 1] == SLASH),
    decreases i - from,
{
    lemma_block_comment_end(text, from);
    if from < i {
        lemma_block_comment_is_the_first(text, from + 1, i);
    }
}

/// The text of a token is spelled as a token of its kind, and nothing but
/// white space stands between the position it was read from and its start.
pub proof fn law_token_is_spelled_as_its_kind(text: Seq<u8>, pos: int)
    requires
        0 <= pos <= text.len(),
    ensures
        (lex(text, pos) matches Lexed::Token { kind, start, end } ==> {
            &&& pos <= start < end <= text.len()
            &&& spelled_as(kind, text.subrange(start, end))
            &&& forall|i: int| pos <= i < start ==> spec_is_whitespace(#[trigger] text[i])
        }),
{
    lemma_run_end(text, pos, ByteClass::Whitespace);
    lemma_lex_bounds(text, pos);
    match lex(text, pos) {
        Lexed::Token { kind, start, end } => {
            let word = text.subrange(start, end);
            let b = text[start];
            assert(word[0] == b);
            if spec_punctuation(b) is Some {
                assert(!is_keyword(kind));
            } else if b == QUOTE {
                lemma_run_end(text, start + 1, ByteClass::NotQuote);
                assert forall|i: int| 1 <= i < word.len() - 1 implies #[trigger] word[i]
                    != QUOTE by {
                    assert(ByteClass::NotQuote.spec_holds(text[start + i]));
                }
            } else if spec_is_digit(b) {
                lemma_run_end(text, start + 1, ByteClass::Digit);
                let whole = run_end(text, start + 1, ByteClass::Digit);
                if kind == TokenKind::FloatLiteral {
                    lemma_run_end(text, whole + 1, ByteClass::Digit);
                    let point = whole - start;
                    assert(word[point] == PERIOD);
                    assert forall|i: int|
                        0 <= i < word.len() && i != point implies spec_is_digit(
                        #[trigger] word[i],
                    ) by {
                        if i > 0 {
                            assert(ByteClass::Digit.spec_holds(text[start + i]));
                        }
                    }
                } else {
                    assert forall|i: int| 0 <= i < word.len() implies spec_is_digit(
                        #[trigger] word[i],
                    ) by {
                        if i > 0 {
                            assert(ByteClass::Digit.spec_holds(text[start + i]));
                        }
                    }
                }
            } else if spec_is_id_head(b) {
                lemma_run_end(text, start + 1, ByteClass::IdBody);
                assert forall|i: int| 0 <= i < word.len() implies spec_is_id_body(
                    #[trigger] word[i],
                ) by {
                    if i > 0 {
                        assert(ByteClass::IdBody.spec_holds(text[start + i]));
                    }
                }
            } else if b == SLASH {
                if start + 1 < text.len() && text[start + 1] == SLASH {
                    lemma_run_end(text, start + 2, ByteClass::NotNewline);
                    assert(word[1] == text[start + 1]);
                    assert forall|i: int| 2 <= i < word.len() implies #[trigger] word[i]
                        != NEWLINE by {
                        assert(ByteClass::NotNewline.spec_holds(text[start + i]));
                    }
                    assert(is_line_comment(word));
                } else if start + 1 < text.len() && text[start + 1] == STAR {
                    lemma_block_comment_end(text, start + 2);
                    assert(word[1] == text[start + 1]);
                    assert forall|i: int| 2 <= i < word.len() - 2 implies !(#[trigger] word[i]
                        == STAR && word[i + 1] == SLASH) by {
                        lemma_block_comment_is_the_first(text, start + 2, start + i);
                    }
                    assert(is_block_comment(word));
                }
            } else {
                lemma_run_end(text, start + 1, ByteClass::Continuation);
                assert forall|i: int| 1 <= i < word.len() implies spec_is_continuation(
                    #[trigger] word[i],
                ) by {
                    assert(ByteClass::Continuation.spec_holds(text[start + i]));
                }
            }
        },
        _ => {},
    }
}

/// Where a block comment has no end, no `*/` stands behind its opening.
proof fn lemma_block_comment_without_end(text: Seq<u8>, from: int, i: int)
    requires
        0 <= from <= i < text.len() - 1,
        block_comment_end(text, from) is None,
    ensures
        !(text[i] == STAR && text[i + 1] == SLASH),
    decreases i - from,
{
    if from < i {
        lemma_block_comment_without_end(text, from + 1, i);
    }
}

/// What is left unfinished at a fault.
pub open spec fn unfinished(fault: LexFault, kind: TokenKind, rest: Seq<u8>) -> bool {
    match fault {
        LexFault::UnterminatedString => {
            &&& kind == TokenKind::StringLiteral
            &&& rest.len() >= 1
            &&& rest[0] == QUOTE
            &&& forall|i: int| 1 <= i < rest.len() ==> #[trigger] rest[i] != QUOTE
        },
        LexFault::UnterminatedComment => {
            &&& kind == TokenKind::Comment
            &&& rest.len() >= 2
            &&& rest[0] == SLASH
            &&& rest[1] == STAR
            &&& forall|i: int|
                2 <= i < rest.len() - 1 ==> !(#[trigger] rest[i] == STAR && rest[i + 1] == SLASH)
        },
        LexFault::UnexpectedEof => {
            &&& kind == TokenKind::FloatLiteral
            &&& rest.len() >= 2
            &&& rest[rest.len() - 1] == PERIOD
            &&& forall|i: int| 0 <= i < rest.len() - 1 ==> spec_is_digit(#[trigger] rest[i])
        },
    }
}

/// A fault is the unfinished end of a text: a string without its closing
/// quote, a block comment without its `*/`, or a number that ends with its
/// point. It reaches from the start of what is unfinished to the end of the
/// text.
pub proof fn law_fault_is_an_unfinished_end(text: Seq<u8>, pos: int)
    requires
        0 <= pos <= text.len(),
    ensures
        (lex(text, pos) matches Lexed::Fault { fault, kind, start, end } ==> {
            &&& pos <= start < end == text.len()
            &&& unfinished(fault, kind, text.subrange(start, end))
            &&& forall|i: int| pos <= i < start ==> spec_is_whitespace(#[trigger] text[i])
        }),
{
    lemma_run_end(text, pos, ByteClass::Whitespace);
    lemma_lex_bounds(text, pos);
    match lex(text, pos) {
        Lexed::Fault { fault, kind, start, end } => {
            let rest = text.subrange(start, end);
            assert(rest[0] == text[start]);
            match fault {
                LexFault::UnterminatedString => {
                    lemma_run_end(text, start + 1, ByteClass::NotQuote);
                    assert forall|i: int| 1 <= i < rest.len() implies #[trigger] rest[i]
                        != QUOTE by {
                        assert(ByteClass::NotQuote.spec_holds(text[start + i]));
                    }
                },
                LexFault::UnterminatedComment => {
                    assert(rest[1] == text[start + 1]);
                    assert forall|i: int| 2 <= i < rest.len() - 1 implies !(#[trigger] rest[i]
                        == STAR && rest[i + 1] == SLASH) by {
                        lemma_block_comment_without_end(text, start + 2, start + i);
                    }
                },
                LexFault::UnexpectedEof => {
                    lemma_run_end(text, start + 1, ByteClass::Digit);
                    assert forall|i: int| 0 <= i < rest.len() - 1 implies spec_is_digit(
                        #[trigger] rest[i],
                    ) by {
                        if i > 0 {
                            assert(ByteClass::Digit.spec_holds(text[start + i]));
                        }
                    }
                },
            }
        },
        _ => {},
    }
}

} // verus!
