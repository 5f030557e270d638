//! The grammar from the side of the tree: how each node is written.
//!
//! A node is written as a sequence of tokens. Some of them are fixed by the
//! kind of the node, such as the `<`, `,` and `>` of a map; the others are
//! the tokens that the node holds. A text spells a node where these tokens
//! stand in it one behind the other. The parser reads a node from a text
//! exactly where the text spells that node: this is what the laws at the
//! end of each section say.

use crate::ast::{
    AliasDecl, AnnotationFieldDecl, AnnotationFieldValue, AnnotationView, BlockView, DeclView,
    FieldDecl, FieldType, MapDecl, StmtView,
};
use crate::grammar::{
    expect, lemma_annotation_field, lemma_annotation_value, lemma_block, lemma_field,
    lemma_field_set, lemma_field_type, lemma_map, lemma_nested_fields, lemma_next_token,
    lemma_optional_mark, next_token, parse_annotation_block, parse_annotation_field,
    lemma_stmt, parse_annotation_decl, parse_annotation_fields, parse_annotation_value,
    parse_annotations, parse_block, parse_decl, parse_field, parse_import, parse_named_block,
    parse_package, parse_stmt, parse_stmts, parse_text, Outcome,
    parse_field_set, parse_field_type, parse_fields, parse_map, parse_nested_fields,
    parse_optional_mark, Parsed, Source,
};
use crate::token::{Token, TokenKind};
use vstd::prelude::*;

verus! {

/// What may stand at one place of a writing.
pub enum Expect {
    /// Any token of this kind.
    Kind(TokenKind),
    /// This token, which is of this kind.
    Leaf(Token, TokenKind),
}

/// Whether `token` may stand where `expected` is called for.
pub open spec fn fits(expected: Expect, token: Token) -> bool {
    match expected {
        Expect::Kind(kind) => token.kind == kind,
        Expect::Leaf(leaf, kind) => token == leaf && token.kind == kind,
    }
}

/// Where the tokens of `writing` end if they stand at `from`, one behind
/// the other; `None` where they do not stand there.
pub open spec fn stands(src: Source, from: int, writing: Seq<Expect>) -> Option<int>
    decreases writing.len(),
{
    if writing.len() == 0 {
        Some(from)
    } else {
        match next_token(src, from) {
            Parsed::Read { value, pos } => if fits(writing[0], value) {
                stands(src, pos, writing.drop_first())
            } else {
                None
            },
            Parsed::Stop { report, at } => None,
        }
    }
}

/// Where `first` stands and `second` stands behind it, and nowhere else,
/// stands the one followed by the other.
pub proof fn lemma_stands_concat(src: Source, from: int, first: Seq<Expect>, second: Seq<Expect>)
    ensures
        stands(src, from, first + second) == (match stands(src, from, first) {
            Some(mid) => stands(src, mid, second),
            None => None,
        }),
    decreases first.len(),
{
    if first.len() == 0 {
        assert(first + second =~= second);
    } else {
        assert((first + second)[0] == first[0]);
        assert((first + second).drop_first() =~= first.drop_first() + second);
        match next_token(src, from) {
            Parsed::Read { value, pos } => {
                lemma_stands_concat(src, pos, first.drop_first(), second);
            },
            Parsed::Stop { report, at } => {},
        }
    }
}

/// A single token stands where it is the next token.
pub proof fn lemma_stands_one(src: Source, from: int, expected: Expect)
    ensures
        stands(src, from, seq![expected]) == (match next_token(src, from) {
            Parsed::Read { value, pos } => if fits(expected, value) {
                Some(pos)
            } else {
                None
            },
            Parsed::Stop { report, at } => None,
        }),
{
    assert(seq![expected].drop_first() =~= Seq::<Expect>::empty());
    match next_token(src, from) {
        Parsed::Read { value, pos } => {
            assert(stands(src, pos, Seq::<Expect>::empty()) == Some(pos));
        },
        Parsed::Stop { report, at } => {},
    }
}

/// A writing ends at or behind where it begins, inside the text.
pub proof fn lemma_stands_forward(src: Source, from: int, writing: Seq<Expect>)
    requires
        0 <= from <= src.text.len() <= usize::MAX,
    ensures
        stands(src, from, writing) matches Some(to) ==> from <= to <= src.text.len(),
    decreases writing.len(),
{
    if writing.len() > 0 {
        lemma_next_token(src, from);
        match next_token(src, from) {
            Parsed::Read { value, pos } => {
                lemma_stands_forward(src, pos, writing.drop_first());
            },
            Parsed::Stop { report, at } => {},
        }
    }
}

/// How a field type is written: a leaf as its token, a map as
/// `map<key, value>`.
pub open spec fn writing_field_type(typ: FieldType) -> Seq<Expect>
    decreases typ,
{
    match typ {
        FieldType::Ident(token) => seq![Expect::Leaf(token, TokenKind::Ident)],
        FieldType::String(token) => seq![Expect::Leaf(token, TokenKind::String)],
        FieldType::Uint32(token) => seq![Expect::Leaf(token, TokenKind::Uint32)],
        FieldType::Uint64(token) => seq![Expect::Leaf(token, TokenKind::Uint64)],
        FieldType::Int32(token) => seq![Expect::Leaf(token, TokenKind::Int32)],
        FieldType::Int64(token) => seq![Expect::Leaf(token, TokenKind::Int64)],
        FieldType::Float32(token) => seq![Expect::Leaf(token, TokenKind::Float32)],
        FieldType::Float64(token) => seq![Expect::Leaf(token, TokenKind::Float64)],
        FieldType::Unknown(token) => seq![Expect::Leaf(token, TokenKind::Unknown)],
        FieldType::Struct(token) => seq![Expect::Leaf(token, TokenKind::Struct)],
        FieldType::MapType(map) => seq![Expect::Kind(TokenKind::MapKeyword)] + writing_map(*map),
    }
}

/// How a map is written behind its `map`: `<key, value>`.
pub open spec fn writing_map(map: MapDecl) -> Seq<Expect>
    decreases map,
{
    seq![Expect::Kind(TokenKind::OpenChevron)] + writing_field_type(map.key) + seq![
        Expect::Kind(TokenKind::Comma),
    ] + writing_field_type(map.value) + seq![Expect::Kind(TokenKind::CloseChevron)]
}

/// The parser reads the field type `typ` at `from` and goes on at `to`
/// exactly where the text spells `typ` from `from` to `to`.
pub proof fn law_field_type_is_read_where_it_is_written(
    src: Source,
    from: int,
    typ: FieldType,
    to: int,
)
    requires
        0 <= from <= src.text.len() <= usize::MAX,
    ensures
        parse_field_type(src, from) == (Parsed::Read { value: typ, pos: to }) <==> stands(
            src,
            from,
            writing_field_type(typ),
        ) == Some(to),
    decreases typ,
{
    lemma_next_token(src, from);
    match typ {
        FieldType::MapType(map) => {
            lemma_stands_concat(
                src,
                from,
                seq![Expect::Kind(TokenKind::MapKeyword)],
                writing_map(*map),
            );
            lemma_stands_one(src, from, Expect::Kind(TokenKind::MapKeyword));
            match next_token(src, from) {
                Parsed::Read { value: token, pos } => {
                    if token.kind == TokenKind::MapKeyword {
                        law_map_is_read_where_it_is_written(src, pos, *map, to);
                        match parse_map(src, pos) {
                            Parsed::Read { value: read, pos: q } => {
                                assert(FieldType::MapType(Box::new(read)) == typ <==> read == *map);
                            },
                            Parsed::Stop { report, at } => {},
                        }
                    }
                },
                Parsed::Stop { report, at } => {},
            }
        },
        FieldType::Ident(token) => {
            lemma_stands_one(src, from, Expect::Leaf(token, TokenKind::Ident));
        },
        FieldType::String(token) => {
            lemma_stands_one(src, from, Expect::Leaf(token, TokenKind::String));
        },
        FieldType::Uint32(token) => {
            lemma_stands_one(src, from, Expect::Leaf(token, TokenKind::Uint32));
        },
        FieldType::Uint64(token) => {
            lemma_stands_one(src, from, Expect::Leaf(token, TokenKind::Uint64));
        },
        FieldType::Int32(token) => {
            lemma_stands_one(src, from, Expect::Leaf(token, TokenKind::Int32));
        },
        FieldType::Int64(token) => {
            lemma_stands_one(src, from, Expect::Leaf(token, TokenKind::Int64));
        },
        FieldType::Float32(token) => {
            lemma_stands_one(src, from, Expect::Leaf(token, TokenKind::Float32));
        },
        FieldType::Float64(token) => {
            lemma_stands_one(src, from, Expect::Leaf(token, TokenKind::Float64));
        },
        FieldType::Unknown(token) => {
            lemma_stands_one(src, from, Expect::Leaf(token, TokenKind::Unknown));
        },
        FieldType::Struct(token) => {
            lemma_stands_one(src, from, Expect::Leaf(token, TokenKind::Struct));
        },
    }
}

/// The parser reads the map `map` behind its `map` exactly where the text
/// spells it.
pub proof fn law_map_is_read_where_it_is_written(src: Source, from: int, map: MapDecl, to: int)
    requires
        0 <= from <= src.text.len() <= usize::MAX,
    ensures
        parse_map(src, from) == (Parsed::Read { value: map, pos: to }) <==> stands(
            src,
            from,
            writing_map(map),
        ) == Some(to),
    decreases map,
{
    let open = seq![Expect::Kind(TokenKind::OpenChevron)];
    let key = writing_field_type(map.key);
    let comma = seq![Expect::Kind(TokenKind::Comma)];
    let value = writing_field_type(map.value);
    let close = seq![Expect::Kind(TokenKind::CloseChevron)];
    assert(writing_map(map) =~= open + (key + (comma + (value + close))));
    lemma_stands_concat(src, from, open, key + (comma + (value + close)));
    lemma_stands_one(src, from, Expect::Kind(TokenKind::OpenChevron));
    lemma_next_token(src, from);
    match expect(src, from, TokenKind::OpenChevron) {
        Parsed::Read { value: token, pos: at_key } => {
            lemma_stands_concat(src, at_key, key, comma + (value + close));
            lemma_field_type(src, at_key);
            lemma_stands_forward(src, at_key, key);
            match parse_field_type(src, at_key) {
                Parsed::Read { value: read_key, pos: at_comma } => {
                    law_field_type_is_read_where_it_is_written(src, at_key, map.key, at_comma);
                },
                Parsed::Stop { report, at } => {},
            }
            match stands(src, at_key, key) {
                Some(at_comma) => {
                    law_field_type_is_read_where_it_is_written(src, at_key, map.key, at_comma);
                    lemma_stands_concat(src, at_comma, comma, value + close);
                    lemma_stands_one(src, at_comma, Expect::Kind(TokenKind::Comma));
                    lemma_next_token(src, at_comma);
                    match expect(src, at_comma, TokenKind::Comma) {
                        Parsed::Read { value: token, pos: at_value } => {
                            lemma_stands_concat(src, at_value, value, close);
                            lemma_field_type(src, at_value);
                            lemma_stands_forward(src, at_value, value);
                            match parse_field_type(src, at_value) {
                                Parsed::Read { value: read_value, pos: at_close } => {
                                    law_field_type_is_read_where_it_is_written(
                                        src,
                                        at_value,
                                        map.value,
                                        at_close,
                                    );
                                },
                                Parsed::Stop { report, at } => {},
                            }
                            match stands(src, at_value, value) {
                                Some(at_close) => {
                                    law_field_type_is_read_where_it_is_written(
                                        src,
                                        at_value,
                                        map.value,
                                        at_close,
                                    );
                                    lemma_stands_one(
                                        src,
                                        at_close,
                                        Expect::Kind(TokenKind::CloseChevron),
                                    );
                                    lemma_next_token(src, at_close);
                                },
                                None => {},
                            }
                        },
                        Parsed::Stop { report, at } => {},
                    }
                },
                None => {},
            }
        },
        Parsed::Stop { report, at } => {},
    }
}

/// How the mark between a name and what it names is written: `?:` for an
/// optional field, `:` for another.
pub open spec fn writing_mark(optional: bool) -> Seq<Expect> {
    if optional {
        seq![Expect::Kind(TokenKind::QuestionMark), Expect::Kind(TokenKind::Colon)]
    } else {
        seq![Expect::Kind(TokenKind::Colon)]
    }
}

/// How a field is written behind its name: the mark, the type, `;`.
pub open spec fn writing_field_rest(field: FieldDecl) -> Seq<Expect> {
    writing_mark(field.optional) + writing_field_type(field.typ) + seq![
        Expect::Kind(TokenKind::Semi),
    ]
}

/// How a field is written: `name: type;` or `name?: type;`.
pub open spec fn writing_field(field: FieldDecl) -> Seq<Expect> {
    seq![Expect::Leaf(field.name, TokenKind::Ident)] + writing_field_rest(field)
}

/// How fields are written: one behind the other.
pub open spec fn writing_fields(fields: Seq<FieldDecl>) -> Seq<Expect>
    decreases fields.len(),
{
    if fields.len() == 0 {
        Seq::empty()
    } else {
        writing_field(fields[0]) + writing_fields(fields.drop_first())
    }
}

/// The parser reads the mark of an optional field, or of another, exactly
/// where the text spells it.
pub proof fn law_mark_is_read_where_it_is_written(
    src: Source,
    from: int,
    expected: Seq<char>,
    optional: bool,
    to: int,
)
    requires
        0 <= from <= src.text.len() <= usize::MAX,
    ensures
        parse_optional_mark(src, from, expected) == (Parsed::Read { value: optional, pos: to })
            <==> stands(src, from, writing_mark(optional)) == Some(to),
{
    reveal(parse_optional_mark);
    lemma_next_token(src, from);
    let question = seq![Expect::Kind(TokenKind::QuestionMark)];
    let colon = seq![Expect::Kind(TokenKind::Colon)];
    assert(writing_mark(true) =~= question + colon);
    lemma_stands_concat(src, from, question, colon);
    lemma_stands_one(src, from, Expect::Kind(TokenKind::QuestionMark));
    lemma_stands_one(src, from, Expect::Kind(TokenKind::Colon));
    match next_token(src, from) {
        Parsed::Read { value: mark, pos } => {
            lemma_stands_one(src, pos, Expect::Kind(TokenKind::Colon));
            lemma_next_token(src, pos);
        },
        Parsed::Stop { report, at } => {},
    }
}

/// The parser reads the field `field` behind its name exactly where the
/// text spells it, and gives it the name that was handed over.
pub proof fn law_field_is_read_where_it_is_written(
    src: Source,
    from: int,
    name: Token,
    expected: Seq<char>,
    field: FieldDecl,
    to: int,
)
    requires
        0 <= from <= src.text.len() <= usize::MAX,
    ensures
        parse_field(src, from, name, expected) == (Parsed::Read { value: field, pos: to }) <==> (
        field.name == name && stands(src, from, writing_field_rest(field)) == Some(to)),
{
    reveal(parse_field);
    let mark = writing_mark(field.optional);
    let typ = writing_field_type(field.typ);
    let semi = seq![Expect::Kind(TokenKind::Semi)];
    assert(writing_field_rest(field) =~= mark + (typ + semi));
    lemma_stands_concat(src, from, mark, typ + semi);
    lemma_optional_mark(src, from, expected);
    lemma_stands_forward(src, from, mark);
    match parse_optional_mark(src, from, expected) {
        Parsed::Read { value: optional, pos } => {
            law_mark_is_read_where_it_is_written(src, from, expected, optional, pos);
            law_mark_is_read_where_it_is_written(src, from, expected, field.optional, pos);
        },
        Parsed::Stop { report, at } => {},
    }
    match stands(src, from, mark) {
        Some(at_type) => {
            law_mark_is_read_where_it_is_written(src, from, expected, field.optional, at_type);
            lemma_stands_concat(src, at_type, typ, semi);
            lemma_field_type(src, at_type);
            lemma_stands_forward(src, at_type, typ);
            match parse_field_type(src, at_type) {
                Parsed::Read { value: read, pos: at_semi } => {
                    law_field_type_is_read_where_it_is_written(src, at_type, field.typ, at_semi);
                },
                Parsed::Stop { report, at } => {},
            }
            match stands(src, at_type, typ) {
                Some(at_semi) => {
                    law_field_type_is_read_where_it_is_written(src, at_type, field.typ, at_semi);
                    lemma_stands_one(src, at_semi, Expect::Kind(TokenKind::Semi));
                    lemma_next_token(src, at_semi);
                },
                None => {},
            }
        },
        None => {},
    }
}

/// The fields that the parser reads come behind those that it was handed.
pub proof fn lemma_fields_grow(src: Source, from: int, fields: Seq<FieldDecl>)
    requires
        0 <= from <= src.text.len() <= usize::MAX,
    ensures
        (parse_fields(src, from, fields) matches Parsed::Read { value: all, pos: to }
            ==> fields.len() <= all.len() && all.take(fields.len() as int) == fields),
    decreases src.text.len() - from,
{
    lemma_next_token(src, from);
    match next_token(src, from) {
        Parsed::Read { value: token, pos: p } => {
            if token.kind == TokenKind::CloseBrace {
                assert(fields.take(fields.len() as int) =~= fields);
            } else if token.kind == TokenKind::Ident {
                lemma_field(src, p, token, "question mark or colon"@);
                match parse_field(src, p, token, "question mark or colon"@) {
                    Parsed::Read { value: field, pos: q } => {
                        lemma_fields_grow(src, q, fields.push(field));
                        match parse_fields(src, q, fields.push(field)) {
                            Parsed::Read { value: all, pos: to } => {
                                assert(all.take(fields.len() as int) =~= all.take(
                                    fields.len() as int + 1,
                                ).take(fields.len() as int));
                                assert(fields.push(field).take(fields.len() as int) =~= fields);
                            },
                            Parsed::Stop { report, at } => {},
                        }
                    },
                    Parsed::Stop { report, at } => {},
                }
            }
        },
        Parsed::Stop { report, at } => {},
    }
}

/// The parser reads the fields `fields` and the closing brace, behind the
/// fields `before`, exactly where the text spells them.
pub proof fn law_fields_are_read_where_they_are_written(
    src: Source,
    from: int,
    before: Seq<FieldDecl>,
    fields: Seq<FieldDecl>,
    to: int,
)
    requires
        0 <= from <= src.text.len() <= usize::MAX,
    ensures
        parse_fields(src, from, before) == (Parsed::Read { value: before + fields, pos: to })
            <==> stands(
            src,
            from,
            writing_fields(fields) + seq![Expect::Kind(TokenKind::CloseBrace)],
        ) == Some(to),
    decreases fields.len(),
{
    let close = seq![Expect::Kind(TokenKind::CloseBrace)];
    lemma_next_token(src, from);
    lemma_fields_grow(src, from, before);
    if fields.len() == 0 {
        assert(writing_fields(fields) + close =~= close);
        assert(before + fields =~= before);
        lemma_stands_one(src, from, Expect::Kind(TokenKind::CloseBrace));
        match next_token(src, from) {
            Parsed::Read { value: token, pos: p } => {
                if token.kind == TokenKind::Ident {
                    lemma_field(src, p, token, "question mark or colon"@);
                    match parse_field(src, p, token, "question mark or colon"@) {
                        Parsed::Read { value: field, pos: q } => {
                            lemma_fields_grow(src, q, before.push(field));
                        },
                        Parsed::Stop { report, at } => {},
                    }
                }
            },
            Parsed::Stop { report, at } => {},
        }
    } else {
        let first = fields[0];
        let rest = fields.drop_first();
        let name = seq![Expect::Leaf(first.name, TokenKind::Ident)];
        let tail = writing_fields(rest) + close;
        assert(writing_fields(fields) + close =~= name + (writing_field_rest(first) + tail));
        lemma_stands_concat(src, from, name, writing_field_rest(first) + tail);
        lemma_stands_one(src, from, Expect::Leaf(first.name, TokenKind::Ident));
        assert(before.push(first) + rest =~= before + fields);
        match next_token(src, from) {
            Parsed::Read { value: token, pos: p } => {
                if token.kind == TokenKind::CloseBrace {
                    assert((before + fields).len() != before.len());
                } else if token.kind == TokenKind::Ident {
                    lemma_stands_concat(src, p, writing_field_rest(first), tail);
                    lemma_field(src, p, token, "question mark or colon"@);
                    lemma_stands_forward(src, p, writing_field_rest(first));
                    match parse_field(src, p, token, "question mark or colon"@) {
                        Parsed::Read { value: field, pos: q } => {
                            law_field_is_read_where_it_is_written(
                                src,
                                p,
                                token,
                                "question mark or colon"@,
                                field,
                                q,
                            );
                            law_field_is_read_where_it_is_written(
                                src,
                                p,
                                token,
                                "question mark or colon"@,
                                first,
                                q,
                            );
                            lemma_fields_grow(src, q, before.push(field));
                            match parse_fields(src, q, before.push(field)) {
                                Parsed::Read { value: all, pos: end } => {
                                    assert(all.take(before.len() as int + 1)[before.len() as int]
                                        == field);
                                    if all == before + fields {
                                        assert(field == first);
                                    }
                                },
                                Parsed::Stop { report, at } => {},
                            }
                            if field == first {
                                law_fields_are_read_where_they_are_written(
                                    src,
                                    q,
                                    before.push(first),
                                    rest,
                                    to,
                                );
                            }
                        },
                        Parsed::Stop { report, at } => {},
                    }
                    match stands(src, p, writing_field_rest(first)) {
                        Some(q) => {
                            law_field_is_read_where_it_is_written(
                                src,
                                p,
                                token,
                                "question mark or colon"@,
                                first,
                                q,
                            );
                            if token == first.name {
                                law_fields_are_read_where_they_are_written(
                                    src,
                                    q,
                                    before.push(first),
                                    rest,
                                    to,
                                );
                            }
                        },
                        None => {},
                    }
                }
            },
            Parsed::Stop { report, at } => {},
        }
    }
}

/// The parser reads a field set and its closing brace exactly where the
/// text spells them.
pub proof fn law_field_set_is_read_where_it_is_written(
    src: Source,
    from: int,
    fields: Seq<FieldDecl>,
    to: int,
)
    requires
        0 <= from <= src.text.len() <= usize::MAX,
    ensures
        parse_field_set(src, from, None) == (Parsed::Read { value: fields, pos: to }) <==> stands(
            src,
            from,
            writing_fields(fields) + seq![Expect::Kind(TokenKind::CloseBrace)],
        ) == Some(to),
{
    reveal(parse_field_set);
    assert(Seq::<FieldDecl>::empty() + fields =~= fields);
    law_fields_are_read_where_they_are_written(src, from, Seq::empty(), fields, to);
}

/// The parser reads a field set whose first name was read already exactly
/// where the text spells the rest of it, and the first field has that name.
pub proof fn law_led_field_set_is_read_where_it_is_written(
    src: Source,
    from: int,
    name: Token,
    fields: Seq<FieldDecl>,
    to: int,
)
    requires
        0 <= from <= src.text.len() <= usize::MAX,
    ensures
        parse_field_set(src, from, Some(name)) == (Parsed::Read { value: fields, pos: to }) <==> (
        fields.len() >= 1 && fields[0].name == name && stands(
            src,
            from,
            writing_field_rest(fields[0]) + (writing_fields(fields.drop_first()) + seq![
                Expect::Kind(TokenKind::CloseBrace),
            ]),
        ) == Some(to)),
{
    reveal(parse_field_set);
    let close = seq![Expect::Kind(TokenKind::CloseBrace)];
    let expected = "a question mark or colon"@;
    lemma_field(src, from, name, expected);
    match parse_field(src, from, name, expected) {
        Parsed::Read { value: field, pos: p } => {
            law_field_is_read_where_it_is_written(src, from, name, expected, field, p);
            lemma_fields_grow(src, p, seq![field]);
            match parse_fields(src, p, seq![field]) {
                Parsed::Read { value: all, pos: end } => {
                    assert(all.take(1)[0] == field);
                },
                Parsed::Stop { report, at } => {},
            }
            if fields.len() >= 1 {
                law_field_is_read_where_it_is_written(src, from, name, expected, fields[0], p);
                assert(seq![fields[0]] + fields.drop_first() =~= fields);
                if fields[0] == field {
                    law_fields_are_read_where_they_are_written(
                        src,
                        p,
                        seq![field],
                        fields.drop_first(),
                        to,
                    );
                }
            }
        },
        Parsed::Stop { report, at } => {},
    }
    if fields.len() >= 1 {
        let rest = writing_field_rest(fields[0]);
        let tail = writing_fields(fields.drop_first()) + close;
        lemma_stands_concat(src, from, rest, tail);
        lemma_stands_forward(src, from, rest);
        match stands(src, from, rest) {
            Some(p) => {
                law_field_is_read_where_it_is_written(src, from, name, expected, fields[0], p);
                assert(seq![fields[0]] + fields.drop_first() =~= fields);
                if fields[0].name == name {
                    law_fields_are_read_where_they_are_written(
                        src,
                        p,
                        seq![fields[0]],
                        fields.drop_first(),
                        to,
                    );
                }
            },
            None => {},
        }
    }
}

/// How the inner block of a `union` or a `repeatable` is written, with the
/// brace that closes the outer one: `{ fields } }`.
pub open spec fn writing_nested_fields(fields: Seq<FieldDecl>) -> Seq<Expect> {
    seq![Expect::Kind(TokenKind::OpenBrace)] + writing_fields(fields) + seq![
        Expect::Kind(TokenKind::CloseBrace),
        Expect::Kind(TokenKind::CloseBrace),
    ]
}

/// The parser reads the inner block of a `union` or a `repeatable` exactly
/// where the text spells it.
pub proof fn law_nested_fields_are_read_where_they_are_written(
    src: Source,
    from: int,
    fields: Seq<FieldDecl>,
    to: int,
)
    requires
        0 <= from <= src.text.len() <= usize::MAX,
    ensures
        parse_nested_fields(src, from) == (Parsed::Read { value: fields, pos: to }) <==> stands(
            src,
            from,
            writing_nested_fields(fields),
        ) == Some(to),
{
    reveal(parse_nested_fields);
    let open = seq![Expect::Kind(TokenKind::OpenBrace)];
    let close = seq![Expect::Kind(TokenKind::CloseBrace)];
    let inner = writing_fields(fields) + close;
    assert(writing_nested_fields(fields) =~= open + (inner + close));
    lemma_stands_concat(src, from, open, inner + close);
    lemma_stands_one(src, from, Expect::Kind(TokenKind::OpenBrace));
    lemma_next_token(src, from);
    match expect(src, from, TokenKind::OpenBrace) {
        Parsed::Read { value: token, pos: p } => {
            lemma_stands_concat(src, p, inner, close);
            lemma_field_set(src, p, None);
            lemma_stands_forward(src, p, inner);
            match parse_field_set(src, p, None) {
                Parsed::Read { value: read, pos: q } => {
                    law_field_set_is_read_where_it_is_written(src, p, read, q);
                    law_field_set_is_read_where_it_is_written(src, p, fields, q);
                },
                Parsed::Stop { report, at } => {},
            }
            match stands(src, p, inner) {
                Some(q) => {
                    law_field_set_is_read_where_it_is_written(src, p, fields, q);
                    lemma_stands_one(src, q, Expect::Kind(TokenKind::CloseBrace));
                    lemma_next_token(src, q);
                },
                None => {},
            }
        },
        Parsed::Stop { report, at } => {},
    }
}

/// Where the writing of `block` ends if it stands at `from`; `None` where
/// it does not stand there.
///
/// An alias is written `{ map<key, value> }`, a repeatable block
/// `{ repeatable { fields } }`, and a field set `{ fields }` or
/// `{ union { fields } }`.
pub open spec fn written_block(src: Source, from: int, block: BlockView) -> Option<int> {
    match block {
        BlockView::Alias(AliasDecl::MapDecl(map)) => stands(
            src,
            from,
            seq![Expect::Kind(TokenKind::OpenBrace), Expect::Kind(TokenKind::MapKeyword)]
                + writing_map(map) + seq![Expect::Kind(TokenKind::CloseBrace)],
        ),
        BlockView::Repeatable(fields) => stands(
            src,
            from,
            seq![Expect::Kind(TokenKind::OpenBrace), Expect::Kind(TokenKind::Repeatable)]
                + writing_nested_fields(fields),
        ),
        BlockView::FieldSet(fields) => match stands(
            src,
            from,
            seq![Expect::Kind(TokenKind::OpenBrace)] + writing_fields(fields) + seq![
                Expect::Kind(TokenKind::CloseBrace),
            ],
        ) {
            Some(to) => Some(to),
            None => stands(
                src,
                from,
                seq![Expect::Kind(TokenKind::OpenBrace), Expect::Kind(TokenKind::Union)]
                    + writing_nested_fields(fields),
            ),
        },
    }
}

/// An alias is read where it is written.
proof fn lemma_alias_is_read_where_it_is_written(src: Source, from: int, map: MapDecl, to: int)
    requires
        0 <= from <= src.text.len() <= usize::MAX,
    ensures
        parse_block(src, from) == (Parsed::Read {
            value: BlockView::Alias(AliasDecl::MapDecl(map)),
            pos: to,
        }) <==> written_block(src, from, BlockView::Alias(AliasDecl::MapDecl(map))) == Some(to),
{
    reveal(parse_block);
    let open = seq![Expect::Kind(TokenKind::OpenBrace)];
    let close = seq![Expect::Kind(TokenKind::CloseBrace)];
    let keyword = seq![Expect::Kind(TokenKind::MapKeyword)];
    let body = writing_map(map);
    assert(seq![Expect::Kind(TokenKind::OpenBrace), Expect::Kind(TokenKind::MapKeyword)] + body
        + close =~= open + (keyword + (body + close)));
    lemma_stands_concat(src, from, open, keyword + (body + close));
    lemma_stands_one(src, from, Expect::Kind(TokenKind::OpenBrace));
    lemma_next_token(src, from);
    match expect(src, from, TokenKind::OpenBrace) {
        Parsed::Read { value: brace, pos: p } => {
            lemma_next_token(src, p);
            lemma_stands_concat(src, p, keyword, body + close);
            lemma_stands_one(src, p, Expect::Kind(TokenKind::MapKeyword));
            match next_token(src, p) {
                Parsed::Read { value: first, pos: q } => {
                    if first.kind == TokenKind::MapKeyword {
                        lemma_map(src, q);
                        lemma_stands_concat(src, q, body, close);
                        lemma_stands_forward(src, q, body);
                        match parse_map(src, q) {
                            Parsed::Read { value: read, pos: r } => {
                                law_map_is_read_where_it_is_written(src, q, map, r);
                            },
                            Parsed::Stop { report, at } => {},
                        }
                        match stands(src, q, body) {
                            Some(r) => {
                                law_map_is_read_where_it_is_written(src, q, map, r);
                                lemma_stands_one(src, r, Expect::Kind(TokenKind::CloseBrace));
                                lemma_next_token(src, r);
                            },
                            None => {},
                        }
                    }
                },
                Parsed::Stop { report, at } => {},
            }
        },
        Parsed::Stop { report, at } => {},
    }
}

/// A repeatable block is read where it is written.
proof fn lemma_repeatable_is_read_where_it_is_written(
    src: Source,
    from: int,
    fields: Seq<FieldDecl>,
    to: int,
)
    requires
        0 <= from <= src.text.len() <= usize::MAX,
    ensures
        parse_block(src, from) == (Parsed::Read { value: BlockView::Repeatable(fields), pos: to })
            <==> written_block(src, from, BlockView::Repeatable(fields)) == Some(to),
{
    reveal(parse_block);
    let open = seq![Expect::Kind(TokenKind::OpenBrace)];
    let keyword = seq![Expect::Kind(TokenKind::Repeatable)];
    let body = writing_nested_fields(fields);
    assert(seq![Expect::Kind(TokenKind::OpenBrace), Expect::Kind(TokenKind::Repeatable)] + body
        =~= open + (keyword + body));
    lemma_stands_concat(src, from, open, keyword + body);
    lemma_stands_one(src, from, Expect::Kind(TokenKind::OpenBrace));
    lemma_next_token(src, from);
    match expect(src, from, TokenKind::OpenBrace) {
        Parsed::Read { value: brace, pos: p } => {
            lemma_next_token(src, p);
            lemma_stands_concat(src, p, keyword, body);
            lemma_stands_one(src, p, Expect::Kind(TokenKind::Repeatable));
            match next_token(src, p) {
                Parsed::Read { value: first, pos: q } => {
                    if first.kind == TokenKind::Repeatable {
                        law_nested_fields_are_read_where_they_are_written(src, q, fields, to);
                    }
                },
                Parsed::Stop { report, at } => {},
            }
        },
        Parsed::Stop { report, at } => {},
    }
}

/// A field set that is written as a `union` is read as the field set.
proof fn lemma_union_is_read_where_it_is_written(
    src: Source,
    from: int,
    fields: Seq<FieldDecl>,
    to: int,
)
    requires
        0 <= from <= src.text.len() <= usize::MAX,
    ensures
        (expect(src, from, TokenKind::OpenBrace) matches Parsed::Read { value: brace, pos: p }
            && next_token(src, p) matches Parsed::Read { value: first, pos: q } && first.kind
            == TokenKind::Union) ==> (parse_block(src, from) == (Parsed::Read {
            value: BlockView::FieldSet(fields),
            pos: to,
        }) <==> stands(
            src,
            from,
            seq![Expect::Kind(TokenKind::OpenBrace), Expect::Kind(TokenKind::Union)]
                + writing_nested_fields(fields),
        ) == Some(to)),
        stands(
            src,
            from,
            seq![Expect::Kind(TokenKind::OpenBrace), Expect::Kind(TokenKind::Union)]
                + writing_nested_fields(fields),
        ) is Some ==> (expect(src, from, TokenKind::OpenBrace) matches Parsed::Read {
            value: brace,
            pos: p,
        } && next_token(src, p) matches Parsed::Read { value: first, pos: q } && first.kind
            == TokenKind::Union),
{
    reveal(parse_block);
    let open = seq![Expect::Kind(TokenKind::OpenBrace)];
    let keyword = seq![Expect::Kind(TokenKind::Union)];
    let body = writing_nested_fields(fields);
    assert(seq![Expect::Kind(TokenKind::OpenBrace), Expect::Kind(TokenKind::Union)] + body
        =~= open + (keyword + body));
    lemma_stands_concat(src, from, open, keyword + body);
    lemma_stands_one(src, from, Expect::Kind(TokenKind::OpenBrace));
    lemma_next_token(src, from);
    match expect(src, from, TokenKind::OpenBrace) {
        Parsed::Read { value: brace, pos: p } => {
            lemma_next_token(src, p);
            lemma_stands_concat(src, p, keyword, body);
            lemma_stands_one(src, p, Expect::Kind(TokenKind::Union));
            match next_token(src, p) {
                Parsed::Read { value: first, pos: q } => {
                    if first.kind == TokenKind::Union {
                        law_nested_fields_are_read_where_they_are_written(src, q, fields, to);
                    }
                },
                Parsed::Stop { report, at } => {},
            }
        },
        Parsed::Stop { report, at } => {},
    }
}

/// A field set that is written plainly is read as the field set, and it
/// is not written plainly where a `union` stands.
proof fn lemma_plain_is_read_where_it_is_written(
    src: Source,
    from: int,
    fields: Seq<FieldDecl>,
    to: int,
)
    requires
        0 <= from <= src.text.len() <= usize::MAX,
    ensures
        (expect(src, from, TokenKind::OpenBrace) matches Parsed::Read { value: brace, pos: p }
            && next_token(src, p) matches Parsed::Read { value: first, pos: q } && first.kind
            != TokenKind::Union) ==> (parse_block(src, from) == (Parsed::Read {
            value: BlockView::FieldSet(fields),
            pos: to,
        }) <==> stands(
            src,
            from,
            seq![Expect::Kind(TokenKind::OpenBrace)] + writing_fields(fields) + seq![
                Expect::Kind(TokenKind::CloseBrace),
            ],
        ) == Some(to)),
        stands(
            src,
            from,
            seq![Expect::Kind(TokenKind::OpenBrace)] + writing_fields(fields) + seq![
                Expect::Kind(TokenKind::CloseBrace),
            ],
        ) is Some ==> (expect(src, from, TokenKind::OpenBrace) matches Parsed::Read {
            value: brace,
            pos: p,
        } && next_token(src, p) matches Parsed::Read { value: first, pos: q } && first.kind
            != TokenKind::Union),
{
    reveal(parse_block);
    let open = seq![Expect::Kind(TokenKind::OpenBrace)];
    let close = seq![Expect::Kind(TokenKind::CloseBrace)];
    let plain = writing_fields(fields) + close;
    assert(open + writing_fields(fields) + close =~= open + plain);
    lemma_stands_concat(src, from, open, plain);
    lemma_stands_one(src, from, Expect::Kind(TokenKind::OpenBrace));
    lemma_next_token(src, from);
    match expect(src, from, TokenKind::OpenBrace) {
        Parsed::Read { value: brace, pos: p } => {
            lemma_next_token(src, p);
            if fields.len() == 0 {
                assert(fields =~= Seq::<FieldDecl>::empty());
                assert(plain =~= close);
                lemma_stands_one(src, p, Expect::Kind(TokenKind::CloseBrace));
            } else {
                let name = seq![Expect::Leaf(fields[0].name, TokenKind::Ident)];
                let rest = writing_field_rest(fields[0]) + (writing_fields(fields.drop_first())
                    + close);
                assert(plain =~= name + rest);
                lemma_stands_concat(src, p, name, rest);
                lemma_stands_one(src, p, Expect::Leaf(fields[0].name, TokenKind::Ident));
            }
            match next_token(src, p) {
                Parsed::Read { value: first, pos: q } => {
                    if first.kind == TokenKind::Ident {
                        law_led_field_set_is_read_where_it_is_written(src, q, first, fields, to);
                    } else if first.kind == TokenKind::MapKeyword {
                        lemma_map(src, q);
                    } else if first.kind == TokenKind::Repeatable {
                        lemma_nested_fields(src, q);
                    }
                },
                Parsed::Stop { report, at } => {},
            }
        },
        Parsed::Stop { report, at } => {},
    }
}

/// The parser reads the block `block` at `from` and goes on at `to`
/// exactly where the text spells `block` from `from` to `to`.
pub proof fn law_block_is_read_where_it_is_written(
    src: Source,
    from: int,
    block: BlockView,
    to: int,
)
    requires
        0 <= from <= src.text.len() <= usize::MAX,
    ensures
        parse_block(src, from) == (Parsed::Read { value: block, pos: to }) <==> written_block(
            src,
            from,
            block,
        ) == Some(to),
{
    match block {
        BlockView::Alias(alias) => {
            match alias {
                AliasDecl::MapDecl(map) => {
                    lemma_alias_is_read_where_it_is_written(src, from, map, to);
                    assert(block == BlockView::Alias(AliasDecl::MapDecl(map)));
                },
            }
        },
        BlockView::Repeatable(fields) => {
            lemma_repeatable_is_read_where_it_is_written(src, from, fields, to);
        },
        BlockView::FieldSet(fields) => {
            reveal(parse_block);
            lemma_union_is_read_where_it_is_written(src, from, fields, to);
            lemma_plain_is_read_where_it_is_written(src, from, fields, to);
            let plain = stands(
                src,
                from,
                seq![Expect::Kind(TokenKind::OpenBrace)] + writing_fields(fields) + seq![
                    Expect::Kind(TokenKind::CloseBrace),
                ],
            );
            let union = stands(
                src,
                from,
                seq![Expect::Kind(TokenKind::OpenBrace), Expect::Kind(TokenKind::Union)]
                    + writing_nested_fields(fields),
            );
            assert(written_block(src, from, block) == (match plain {
                Some(end) => Some(end),
                None => union,
            }));
            match expect(src, from, TokenKind::OpenBrace) {
                Parsed::Read { value: brace, pos: p } => {
                    match next_token(src, p) {
                        Parsed::Read { value: first, pos: q } => {
                            if first.kind == TokenKind::Union {
                                assert(plain is None);
                            } else {
                                assert(union is None);
                            }
                        },
                        Parsed::Stop { report, at } => {
                            assert(plain is None);
                            assert(union is None);
                        },
                    }
                },
                Parsed::Stop { report, at } => {
                    assert(plain is None);
                    assert(union is None);
                },
            }
        },
    }
}

/// How the value of an annotation's field is written: as its token.
pub open spec fn writing_annotation_value(value: AnnotationFieldValue) -> Seq<Expect> {
    match value {
        AnnotationFieldValue::String(token) => seq![Expect::Leaf(token, TokenKind::String)],
        AnnotationFieldValue::Uint32(token) => seq![Expect::Leaf(token, TokenKind::Uint32)],
        AnnotationFieldValue::Uint64(token) => seq![Expect::Leaf(token, TokenKind::Uint64)],
        AnnotationFieldValue::Int32(token) => seq![Expect::Leaf(token, TokenKind::Int32)],
        AnnotationFieldValue::Int64(token) => seq![Expect::Leaf(token, TokenKind::Int64)],
        AnnotationFieldValue::Float32(token) => seq![Expect::Leaf(token, TokenKind::Float32)],
        AnnotationFieldValue::Float64(token) => seq![Expect::Leaf(token, TokenKind::Float64)],
    }
}

/// How an annotation's field is written behind its name: the mark, the
/// value, `,`.
pub open spec fn writing_annotation_field_rest(field: AnnotationFieldDecl) -> Seq<Expect> {
    writing_mark(field.optional) + writing_annotation_value(field.value) + seq![
        Expect::Kind(TokenKind::Comma),
    ]
}

/// How the fields of an annotation are written: one behind the other, each
/// as `name: value,` or `name?: value,`.
pub open spec fn writing_annotation_fields(fields: Seq<AnnotationFieldDecl>) -> Seq<Expect>
    decreases fields.len(),
{
    if fields.len() == 0 {
        Seq::empty()
    } else {
        seq![Expect::Leaf(fields[0].name, TokenKind::Ident)] + writing_annotation_field_rest(
            fields[0],
        ) + writing_annotation_fields(fields.drop_first())
    }
}

/// The parser reads the value of an annotation's field exactly where the
/// text spells it.
pub proof fn law_annotation_value_is_read_where_it_is_written(
    src: Source,
    from: int,
    value: AnnotationFieldValue,
    to: int,
)
    requires
        0 <= from <= src.text.len() <= usize::MAX,
    ensures
        parse_annotation_value(src, from) == (Parsed::Read { value, pos: to }) <==> stands(
            src,
            from,
            writing_annotation_value(value),
        ) == Some(to),
{
    reveal(parse_annotation_value);
    match value {
        AnnotationFieldValue::String(token) => {
            lemma_stands_one(src, from, Expect::Leaf(token, TokenKind::String));
        },
        AnnotationFieldValue::Uint32(token) => {
            lemma_stands_one(src, from, Expect::Leaf(token, TokenKind::Uint32));
        },
        AnnotationFieldValue::Uint64(token) => {
            lemma_stands_one(src, from, Expect::Leaf(token, TokenKind::Uint64));
        },
        AnnotationFieldValue::Int32(token) => {
            lemma_stands_one(src, from, Expect::Leaf(token, TokenKind::Int32));
        },
        AnnotationFieldValue::Int64(token) => {
            lemma_stands_one(src, from, Expect::Leaf(token, TokenKind::Int64));
        },
        AnnotationFieldValue::Float32(token) => {
            lemma_stands_one(src, from, Expect::Leaf(token, TokenKind::Float32));
        },
        AnnotationFieldValue::Float64(token) => {
            lemma_stands_one(src, from, Expect::Leaf(token, TokenKind::Float64));
        },
    }
}

/// The parser reads the annotation field `field` behind its name exactly
/// where the text spells it, and gives it the name that was handed over.
pub proof fn law_annotation_field_is_read_where_it_is_written(
    src: Source,
    from: int,
    name: Token,
    field: AnnotationFieldDecl,
    to: int,
)
    requires
        0 <= from <= src.text.len() <= usize::MAX,
    ensures
        parse_annotation_field(src, from, name) == (Parsed::Read { value: field, pos: to }) <==> (
        field.name == name && stands(src, from, writing_annotation_field_rest(field)) == Some(
            to,
        )),
{
    reveal(parse_annotation_field);
    let expected = "a question mark or colon"@;
    let mark = writing_mark(field.optional);
    let value = writing_annotation_value(field.value);
    let comma = seq![Expect::Kind(TokenKind::Comma)];
    assert(writing_annotation_field_rest(field) =~= mark + (value + comma));
    lemma_stands_concat(src, from, mark, value + comma);
    lemma_optional_mark(src, from, expected);
    lemma_stands_forward(src, from, mark);
    match parse_optional_mark(src, from, expected) {
        Parsed::Read { value: optional, pos } => {
            law_mark_is_read_where_it_is_written(src, from, expected, optional, pos);
            law_mark_is_read_where_it_is_written(src, from, expected, field.optional, pos);
        },
        Parsed::Stop { report, at } => {},
    }
    match stands(src, from, mark) {
        Some(at_value) => {
            law_mark_is_read_where_it_is_written(src, from, expected, field.optional, at_value);
            lemma_stands_concat(src, at_value, value, comma);
            lemma_stands_forward(src, at_value, value);
            lemma_annotation_value(src, at_value);
            match parse_annotation_value(src, at_value) {
                Parsed::Read { value: read, pos: at_comma } => {
                    law_annotation_value_is_read_where_it_is_written(
                        src,
                        at_value,
                        field.value,
                        at_comma,
                    );
                },
                Parsed::Stop { report, at } => {},
            }
            match stands(src, at_value, value) {
                Some(at_comma) => {
                    law_annotation_value_is_read_where_it_is_written(
                        src,
                        at_value,
                        field.value,
                        at_comma,
                    );
                    lemma_stands_one(src, at_comma, Expect::Kind(TokenKind::Comma));
                    lemma_next_token(src, at_comma);
                },
                None => {},
            }
        },
        None => {},
    }
}

/// The annotation fields that the parser reads come behind those that it
/// was handed.
pub proof fn lemma_annotation_fields_grow(src: Source, from: int, fields: Seq<AnnotationFieldDecl>)
    requires
        0 <= from <= src.text.len() <= usize::MAX,
    ensures
        (parse_annotation_fields(src, from, fields) matches Parsed::Read { value: all, pos: to }
            ==> fields.len() <= all.len() && all.take(fields.len() as int) == fields),
    decreases src.text.len() - from,
{
    lemma_next_token(src, from);
    match next_token(src, from) {
        Parsed::Read { value: token, pos: p } => {
            if token.kind == TokenKind::CloseBrace {
                assert(fields.take(fields.len() as int) =~= fields);
            } else if token.kind == TokenKind::Ident {
                lemma_annotation_field(src, p, token);
                match parse_annotation_field(src, p, token) {
                    Parsed::Read { value: field, pos: q } => {
                        lemma_annotation_fields_grow(src, q, fields.push(field));
                        match parse_annotation_fields(src, q, fields.push(field)) {
                            Parsed::Read { value: all, pos: to } => {
                                assert(all.take(fields.len() as int) =~= all.take(
                                    fields.len() as int + 1,
                                ).take(fields.len() as int));
                                assert(fields.push(field).take(fields.len() as int) =~= fields);
                            },
                            Parsed::Stop { report, at } => {},
                        }
                    },
                    Parsed::Stop { report, at } => {},
                }
            }
        },
        Parsed::Stop { report, at } => {},
    }
}

/// The parser reads the annotation fields `fields` and the closing brace,
/// behind the fields `before`, exactly where the text spells them.
pub proof fn law_annotation_fields_are_read_where_they_are_written(
    src: Source,
    from: int,
    before: Seq<AnnotationFieldDecl>,
    fields: Seq<AnnotationFieldDecl>,
    to: int,
)
    requires
        0 <= from <= src.text.len() <= usize::MAX,
    ensures
        parse_annotation_fields(src, from, before) == (Parsed::Read {
            value: before + fields,
            pos: to,
        }) <==> stands(
            src,
            from,
            writing_annotation_fields(fields) + seq![Expect::Kind(TokenKind::CloseBrace)],
        ) == Some(to),
    decreases fields.len(),
{
    let close = seq![Expect::Kind(TokenKind::CloseBrace)];
    lemma_next_token(src, from);
    lemma_annotation_fields_grow(src, from, before);
    if fields.len() == 0 {
        assert(writing_annotation_fields(fields) + close =~= close);
        assert(before + fields =~= before);
        lemma_stands_one(src, from, Expect::Kind(TokenKind::CloseBrace));
        match next_token(src, from) {
            Parsed::Read { value: token, pos: p } => {
                if token.kind == TokenKind::Ident {
                    lemma_annotation_field(src, p, token);
                    match parse_annotation_field(src, p, token) {
                        Parsed::Read { value: field, pos: q } => {
                            lemma_annotation_fields_grow(src, q, before.push(field));
                        },
                        Parsed::Stop { report, at } => {},
                    }
                }
            },
            Parsed::Stop { report, at } => {},
        }
    } else {
        let first = fields[0];
        let rest = fields.drop_first();
        let name = seq![Expect::Leaf(first.name, TokenKind::Ident)];
        let tail = writing_annotation_fields(rest) + close;
        assert(writing_annotation_fields(fields) + close =~= name + (
        writing_annotation_field_rest(first) + tail));
        lemma_stands_concat(src, from, name, writing_annotation_field_rest(first) + tail);
        lemma_stands_one(src, from, Expect::Leaf(first.name, TokenKind::Ident));
        assert(before.push(first) + rest =~= before + fields);
        match next_token(src, from) {
            Parsed::Read { value: token, pos: p } => {
                if token.kind == TokenKind::CloseBrace {
                    assert((before + fields).len() != before.len());
                } else if token.kind == TokenKind::Ident {
                    lemma_stands_concat(src, p, writing_annotation_field_rest(first), tail);
                    lemma_annotation_field(src, p, token);
                    lemma_stands_forward(src, p, writing_annotation_field_rest(first));
                    match parse_annotation_field(src, p, token) {
                        Parsed::Read { value: field, pos: q } => {
                            law_annotation_field_is_read_where_it_is_written(
                                src,
                                p,
                                token,
                                field,
                                q,
                            );
                            law_annotation_field_is_read_where_it_is_written(
                                src,
                                p,
                                token,
                                first,
                                q,
                            );
                            lemma_annotation_fields_grow(src, q, before.push(field));
                            match parse_annotation_fields(src, q, before.push(field)) {
                                Parsed::Read { value: all, pos: end } => {
                                    assert(all.take(before.len() as int + 1)[before.len() as int]
                                        == field);
                                    if all == before + fields {
                                        assert(field == first);
                                    }
                                },
                                Parsed::Stop { report, at } => {},
                            }
                            if field == first {
                                law_annotation_fields_are_read_where_they_are_written(
                                    src,
                                    q,
                                    before.push(first),
                                    rest,
                                    to,
                                );
                            }
                        },
                        Parsed::Stop { report, at } => {},
                    }
                    match stands(src, p, writing_annotation_field_rest(first)) {
                        Some(q) => {
                            law_annotation_field_is_read_where_it_is_written(
                                src,
                                p,
                                token,
                                first,
                                q,
                            );
                            if token == first.name {
                                law_annotation_fields_are_read_where_they_are_written(
                                    src,
                                    q,
                                    before.push(first),
                                    rest,
                                    to,
                                );
                            }
                        },
                        None => {},
                    }
                }
            },
            Parsed::Stop { report, at } => {},
        }
    }
}

/// The parser reads the fields of an annotation, with their braces,
/// exactly where the text spells them.
pub proof fn law_annotation_block_is_read_where_it_is_written(
    src: Source,
    from: int,
    fields: Seq<AnnotationFieldDecl>,
    to: int,
)
    requires
        0 <= from <= src.text.len() <= usize::MAX,
    ensures
        parse_annotation_block(src, from) == (Parsed::Read { value: fields, pos: to })
            <==> stands(
            src,
            from,
            seq![Expect::Kind(TokenKind::OpenBrace)] + writing_annotation_fields(fields) + seq![
                Expect::Kind(TokenKind::CloseBrace),
            ],
        ) == Some(to),
{
    reveal(parse_annotation_block);
    let open = seq![Expect::Kind(TokenKind::OpenBrace)];
    let close = seq![Expect::Kind(TokenKind::CloseBrace)];
    let inner = writing_annotation_fields(fields) + close;
    assert(open + writing_annotation_fields(fields) + close =~= open + inner);
    lemma_stands_concat(src, from, open, inner);
    lemma_stands_one(src, from, Expect::Kind(TokenKind::OpenBrace));
    lemma_next_token(src, from);
    match expect(src, from, TokenKind::OpenBrace) {
        Parsed::Read { value: token, pos: p } => {
            assert(Seq::<AnnotationFieldDecl>::empty() + fields =~= fields);
            law_annotation_fields_are_read_where_they_are_written(
                src,
                p,
                Seq::empty(),
                fields,
                to,
            );
        },
        Parsed::Stop { report, at } => {},
    }
}

/// How the annotations in front of a declaration are written: each as
/// `@name`.
pub open spec fn writing_annotations(annotations: Seq<Token>) -> Seq<Expect>
    decreases annotations.len(),
{
    if annotations.len() == 0 {
        Seq::empty()
    } else {
        seq![Expect::Kind(TokenKind::At), Expect::Leaf(annotations[0], TokenKind::Ident)]
            + writing_annotations(annotations.drop_first())
    }
}

/// How the segments of a package behind the first are written: each as
/// `.name`.
pub open spec fn writing_more_segments(segments: Seq<Token>) -> Seq<Expect>
    decreases segments.len(),
{
    if segments.len() == 0 {
        Seq::empty()
    } else {
        seq![Expect::Kind(TokenKind::Period), Expect::Leaf(segments[0], TokenKind::Ident)]
            + writing_more_segments(segments.drop_first())
    }
}

/// The keyword that a declaration begins with.
pub open spec fn declaring_keyword(stmt: StmtView) -> Option<TokenKind> {
    match stmt {
        StmtView::Constructor(decl) => Some(TokenKind::Constructor),
        StmtView::Struct(decl) => Some(TokenKind::Struct),
        StmtView::Annotation(decl) => Some(TokenKind::Annotation),
        _ => None,
    }
}

/// The annotations in front of a declaration.
pub open spec fn annotations_of(stmt: StmtView) -> Seq<Token> {
    match stmt {
        StmtView::Constructor(decl) => decl.annotations,
        StmtView::Struct(decl) => decl.annotations,
        StmtView::Annotation(decl) => decl.annotations,
        _ => Seq::empty(),
    }
}

/// Where the writing of a constructor or a struct ends if it stands at
/// `from`, behind the keyword: the name, then the block.
pub open spec fn written_named_block(src: Source, from: int, decl: DeclView) -> Option<int> {
    match stands(src, from, seq![Expect::Leaf(decl.name, TokenKind::Ident)]) {
        Some(mid) => written_block(src, mid, decl.content),
        None => None,
    }
}

/// How an annotation declaration is written behind its keyword:
/// `name { fields }`.
pub open spec fn writing_annotation_decl(decl: AnnotationView) -> Seq<Expect> {
    seq![Expect::Leaf(decl.name, TokenKind::Ident)] + (seq![Expect::Kind(TokenKind::OpenBrace)]
        + writing_annotation_fields(decl.fields) + seq![Expect::Kind(TokenKind::CloseBrace)])
}

/// Where the writing of a declaration ends if it stands at `from`, behind
/// the keyword.
pub open spec fn written_declaration(src: Source, from: int, stmt: StmtView) -> Option<int> {
    match stmt {
        StmtView::Constructor(decl) => written_named_block(src, from, decl),
        StmtView::Struct(decl) => written_named_block(src, from, decl),
        StmtView::Annotation(decl) => stands(src, from, writing_annotation_decl(decl)),
        _ => None,
    }
}

/// Where the writing of `stmt` ends if it stands at `from`; `None` where
/// it does not stand there.
///
/// A comment is written as its token, a package as `package a.b.c;`, an
/// import as `import "path";`, and a declaration as its annotations, its
/// keyword, its name and its block.
pub open spec fn written_stmt(src: Source, from: int, stmt: StmtView) -> Option<int> {
    match stmt {
        StmtView::Comment(value) => stands(
            src,
            from,
            seq![Expect::Leaf(value, TokenKind::Comment)],
        ),
        StmtView::Package(segments) => if segments.len() == 0 {
            None
        } else {
            stands(
                src,
                from,
                seq![Expect::Kind(TokenKind::Package)] + (seq![
                    Expect::Leaf(segments[0], TokenKind::Ident),
                ] + writing_more_segments(segments.drop_first()) + seq![
                    Expect::Kind(TokenKind::Semi),
                ]),
            )
        },
        StmtView::Import(path) => stands(
            src,
            from,
            seq![
                Expect::Kind(TokenKind::Import),
                Expect::Leaf(path, TokenKind::StringLiteral),
                Expect::Kind(TokenKind::Semi),
            ],
        ),
        StmtView::Eof => None,
        _ => match stands(
            src,
            from,
            writing_annotations(annotations_of(stmt)) + seq![
                Expect::Kind(declaring_keyword(stmt)->0),
            ],
        ) {
            Some(mid) => written_declaration(src, mid, stmt),
            None => None,
        },
    }
}

/// Whether the text from `from` to its end spells the statements `stmts`,
/// one behind the other, and nothing else.
pub open spec fn written_file(src: Source, from: int, stmts: Seq<StmtView>) -> bool
    decreases stmts.len(),
{
    if stmts.len() == 0 {
        stands(src, from, seq![Expect::Kind(TokenKind::Eof)]) is Some
    } else {
        match written_stmt(src, from, stmts[0]) {
            Some(to) => written_file(src, to, stmts.drop_first()),
            None => false,
        }
    }
}

/// A constructor or a struct is read behind its keyword exactly where the
/// text spells it.
proof fn lemma_named_block_is_read_where_it_is_written(
    src: Source,
    from: int,
    annotations: Seq<Token>,
    decl: DeclView,
    to: int,
)
    requires
        0 <= from <= src.text.len() <= usize::MAX,
    ensures
        parse_named_block(src, from, annotations) == (Parsed::Read { value: decl, pos: to }) <==> (
        decl.annotations == annotations && written_named_block(src, from, decl) == Some(to)),
{
    reveal(parse_named_block);
    lemma_stands_one(src, from, Expect::Leaf(decl.name, TokenKind::Ident));
    lemma_next_token(src, from);
    match expect(src, from, TokenKind::Ident) {
        Parsed::Read { value: name, pos: p } => {
            lemma_block(src, p);
            match parse_block(src, p) {
                Parsed::Read { value: content, pos: q } => {
                    law_block_is_read_where_it_is_written(src, p, content, q);
                },
                Parsed::Stop { report, at } => {},
            }
            law_block_is_read_where_it_is_written(src, p, decl.content, to);
        },
        Parsed::Stop { report, at } => {},
    }
}

/// An annotation declaration is read behind its keyword exactly where the
/// text spells it.
proof fn lemma_annotation_decl_is_read_where_it_is_written(
    src: Source,
    from: int,
    annotations: Seq<Token>,
    decl: AnnotationView,
    to: int,
)
    requires
        0 <= from <= src.text.len() <= usize::MAX,
    ensures
        parse_annotation_decl(src, from, annotations) == (Parsed::Read { value: decl, pos: to })
            <==> (decl.annotations == annotations && stands(
            src,
            from,
            writing_annotation_decl(decl),
        ) == Some(to)),
{
    reveal(parse_annotation_decl);
    let name = seq![Expect::Leaf(decl.name, TokenKind::Ident)];
    let block = seq![Expect::Kind(TokenKind::OpenBrace)] + writing_annotation_fields(decl.fields)
        + seq![Expect::Kind(TokenKind::CloseBrace)];
    lemma_stands_concat(src, from, name, block);
    lemma_stands_one(src, from, Expect::Leaf(decl.name, TokenKind::Ident));
    lemma_next_token(src, from);
    match expect(src, from, TokenKind::Ident) {
        Parsed::Read { value: token, pos: p } => {
            match parse_annotation_block(src, p) {
                Parsed::Read { value: fields, pos: q } => {
                    law_annotation_block_is_read_where_it_is_written(src, p, fields, q);
                },
                Parsed::Stop { report, at } => {},
            }
            law_annotation_block_is_read_where_it_is_written(src, p, decl.fields, to);
        },
        Parsed::Stop { report, at } => {},
    }
}

/// The parser reads the declaration `stmt` behind its keyword exactly
/// where the text spells it, and gives it the annotations that were handed
/// over.
pub proof fn law_declaration_is_read_where_it_is_written(
    src: Source,
    from: int,
    keyword: TokenKind,
    annotations: Seq<Token>,
    stmt: StmtView,
    to: int,
)
    requires
        0 <= from <= src.text.len() <= usize::MAX,
        keyword == TokenKind::Constructor || keyword == TokenKind::Struct || keyword
            == TokenKind::Annotation,
    ensures
        parse_decl(src, from, keyword, annotations) == (Parsed::Read { value: stmt, pos: to })
            <==> (declaring_keyword(stmt) == Some(keyword) && annotations_of(stmt) == annotations
            && written_declaration(src, from, stmt) == Some(to)),
{
    reveal(parse_decl);
    match stmt {
        StmtView::Constructor(decl) => {
            lemma_named_block_is_read_where_it_is_written(src, from, annotations, decl, to);
        },
        StmtView::Struct(decl) => {
            lemma_named_block_is_read_where_it_is_written(src, from, annotations, decl, to);
        },
        StmtView::Annotation(decl) => {
            lemma_annotation_decl_is_read_where_it_is_written(src, from, annotations, decl, to);
        },
        _ => {},
    }
}

/// What the parser reads behind an `@` is a declaration, and its
/// annotations come behind those that the parser was handed.
pub proof fn lemma_annotations_grow(src: Source, from: int, annotations: Seq<Token>)
    requires
        0 <= from <= src.text.len() <= usize::MAX,
    ensures
        (parse_annotations(src, from, annotations) matches Parsed::Read { value: stmt, pos: to }
            ==> declaring_keyword(stmt) is Some && annotations.len() < annotations_of(stmt).len()
            && annotations_of(stmt).take(annotations.len() as int) == annotations),
    decreases src.text.len() - from,
{
    lemma_next_token(src, from);
    match expect(src, from, TokenKind::Ident) {
        Parsed::Read { value: name, pos: p } => {
            lemma_next_token(src, p);
            match next_token(src, p) {
                Parsed::Read { value: token, pos: q } => {
                    let next = annotations.push(name);
                    if token.kind == TokenKind::At {
                        lemma_annotations_grow(src, q, next);
                        match parse_annotations(src, q, next) {
                            Parsed::Read { value: stmt, pos: to } => {
                                let all = annotations_of(stmt);
                                assert(all.take(annotations.len() as int) =~= all.take(
                                    annotations.len() as int + 1,
                                ).take(annotations.len() as int));
                                assert(next.take(annotations.len() as int) =~= annotations);
                            },
                            Parsed::Stop { report, at } => {},
                        }
                    } else if token.kind == TokenKind::Constructor || token.kind
                        == TokenKind::Struct || token.kind == TokenKind::Annotation {
                        match parse_decl(src, q, token.kind, next) {
                            Parsed::Read { value: stmt, pos: to } => {
                                law_declaration_is_read_where_it_is_written(
                                    src,
                                    q,
                                    token.kind,
                                    next,
                                    stmt,
                                    to,
                                );
                                assert(next.take(annotations.len() as int) =~= annotations);
                            },
                            Parsed::Stop { report, at } => {},
                        }
                    }
                },
                Parsed::Stop { report, at } => {},
            }
        },
        Parsed::Stop { report, at } => {},
    }
}

/// The parser reads the declaration `stmt` behind an `@`, with the
/// annotations `before` read already and the annotations `rest` to come,
/// exactly where the text spells the rest of it.
pub proof fn law_annotated_is_read_where_it_is_written(
    src: Source,
    from: int,
    before: Seq<Token>,
    rest: Seq<Token>,
    stmt: StmtView,
    to: int,
)
    requires
        0 <= from <= src.text.len() <= usize::MAX,
        rest.len() >= 1,
        declaring_keyword(stmt) is Some,
        annotations_of(stmt) == before + rest,
    ensures
        parse_annotations(src, from, before) == (Parsed::Read { value: stmt, pos: to }) <==> (
        stands(
            src,
            from,
            seq![Expect::Leaf(rest[0], TokenKind::Ident)] + (writing_annotations(rest.drop_first())
                + seq![Expect::Kind(declaring_keyword(stmt)->0)]),
        ) matches Some(mid) && written_declaration(src, mid, stmt) == Some(to)),
    decreases rest.len(),
{
    let keyword = declaring_keyword(stmt)->0;
    let name = seq![Expect::Leaf(rest[0], TokenKind::Ident)];
    let more = rest.drop_first();
    let tail = writing_annotations(more) + seq![Expect::Kind(keyword)];
    lemma_stands_concat(src, from, name, tail);
    lemma_stands_one(src, from, Expect::Leaf(rest[0], TokenKind::Ident));
    lemma_next_token(src, from);
    match expect(src, from, TokenKind::Ident) {
        Parsed::Read { value: read, pos: p } => {
            lemma_next_token(src, p);
            let next = before.push(read);
            if more.len() == 0 {
                assert(tail =~= seq![Expect::Kind(keyword)]);
                lemma_stands_one(src, p, Expect::Kind(keyword));
                assert(rest =~= seq![rest[0]]);
            } else {
                let at = seq![Expect::Kind(TokenKind::At)];
                let further = seq![Expect::Leaf(more[0], TokenKind::Ident)] + (writing_annotations(
                    more.drop_first(),
                ) + seq![Expect::Kind(keyword)]);
                assert(tail =~= at + further);
                lemma_stands_concat(src, p, at, further);
                lemma_stands_one(src, p, Expect::Kind(TokenKind::At));
            }
            assert((before + rest).len() == before.len() + rest.len());
            assert((before + rest)[before.len() as int] == rest[0]);
            match next_token(src, p) {
                Parsed::Read { value: token, pos: q } => {
                    if token.kind == TokenKind::At {
                        lemma_annotations_grow(src, q, next);
                        match parse_annotations(src, q, next) {
                            Parsed::Read { value: found, pos: end } => {
                                assert(annotations_of(found).take(next.len() as int)[before.len() as int]
                                    == read);
                            },
                            Parsed::Stop { report, at } => {},
                        }
                        if more.len() >= 1 && read == rest[0] {
                            assert(next + more =~= before + rest);
                            law_annotated_is_read_where_it_is_written(
                                src,
                                q,
                                next,
                                more,
                                stmt,
                                to,
                            );
                        }
                    } else if token.kind == TokenKind::Constructor || token.kind
                        == TokenKind::Struct || token.kind == TokenKind::Annotation {
                        law_declaration_is_read_where_it_is_written(
                            src,
                            q,
                            token.kind,
                            next,
                            stmt,
                            to,
                        );
                        if next == before + rest {
                            assert(next.len() == (before + rest).len());
                            assert(next[before.len() as int] == (before + rest)[before.len() as int]);
                        }
                        if more.len() == 0 && read == rest[0] {
                            assert(next =~= before + rest);
                        }
                    }
                },
                Parsed::Stop { report, at } => {},
            }
        },
        Parsed::Stop { report, at } => {},
    }
}

/// What the parser reads behind `package` is a package, and its segments
/// come behind those that the parser was handed.
pub proof fn lemma_package_grows(src: Source, from: int, segments: Seq<Token>)
    requires
        0 <= from <= src.text.len() <= usize::MAX,
    ensures
        (parse_package(src, from, segments) matches Parsed::Read { value: stmt, pos: to }
            ==> stmt matches StmtView::Package(all) && segments.len() < all.len() && all.take(
            segments.len() as int,
        ) == segments),
    decreases src.text.len() - from,
{
    lemma_next_token(src, from);
    match expect(src, from, TokenKind::Ident) {
        Parsed::Read { value: segment, pos: p } => {
            lemma_next_token(src, p);
            match next_token(src, p) {
                Parsed::Read { value: token, pos: q } => {
                    let next = segments.push(segment);
                    assert(next.take(segments.len() as int) =~= segments);
                    if token.kind == TokenKind::Period {
                        lemma_package_grows(src, q, next);
                        match parse_package(src, q, next) {
                            Parsed::Read { value: stmt, pos: to } => {
                                match stmt {
                                    StmtView::Package(all) => {
                                        assert(all.take(segments.len() as int) =~= all.take(
                                            segments.len() as int + 1,
                                        ).take(segments.len() as int));
                                    },
                                    _ => {},
                                }
                            },
                            Parsed::Stop { report, at } => {},
                        }
                    }
                },
                Parsed::Stop { report, at } => {},
            }
        },
        Parsed::Stop { report, at } => {},
    }
}

/// The parser reads the package whose segments are `before` and `rest`,
/// with `before` read already, exactly where the text spells the rest of
/// it.
pub proof fn law_package_is_read_where_it_is_written(
    src: Source,
    from: int,
    before: Seq<Token>,
    rest: Seq<Token>,
    to: int,
)
    requires
        0 <= from <= src.text.len() <= usize::MAX,
        rest.len() >= 1,
    ensures
        parse_package(src, from, before) == (Parsed::Read {
            value: StmtView::Package(before + rest),
            pos: to,
        }) <==> stands(
            src,
            from,
            seq![Expect::Leaf(rest[0], TokenKind::Ident)] + writing_more_segments(
                rest.drop_first(),
            ) + seq![Expect::Kind(TokenKind::Semi)],
        ) == Some(to),
    decreases rest.len(),
{
    let name = seq![Expect::Leaf(rest[0], TokenKind::Ident)];
    let more = rest.drop_first();
    let semi = seq![Expect::Kind(TokenKind::Semi)];
    let tail = writing_more_segments(more) + semi;
    assert(name + writing_more_segments(more) + semi =~= name + tail);
    lemma_stands_concat(src, from, name, tail);
    lemma_stands_one(src, from, Expect::Leaf(rest[0], TokenKind::Ident));
    lemma_next_token(src, from);
    match expect(src, from, TokenKind::Ident) {
        Parsed::Read { value: read, pos: p } => {
            lemma_next_token(src, p);
            let next = before.push(read);
            if more.len() == 0 {
                assert(tail =~= semi);
                lemma_stands_one(src, p, Expect::Kind(TokenKind::Semi));
                assert(rest =~= seq![rest[0]]);
            } else {
                let period = seq![Expect::Kind(TokenKind::Period)];
                let further = seq![Expect::Leaf(more[0], TokenKind::Ident)] + writing_more_segments(
                    more.drop_first(),
                ) + semi;
                assert(tail =~= period + further);
                lemma_stands_concat(src, p, period, further);
                lemma_stands_one(src, p, Expect::Kind(TokenKind::Period));
            }
            assert((before + rest).len() == before.len() + rest.len());
            assert((before + rest)[before.len() as int] == rest[0]);
            match next_token(src, p) {
                Parsed::Read { value: token, pos: q } => {
                    if token.kind == TokenKind::Period {
                        lemma_package_grows(src, q, next);
                        match parse_package(src, q, next) {
                            Parsed::Read { value: found, pos: end } => {
                                match found {
                                    StmtView::Package(all) => {
                                        assert(all.take(next.len() as int)[before.len() as int]
                                            == read);
                                    },
                                    _ => {},
                                }
                            },
                            Parsed::Stop { report, at } => {},
                        }
                        if more.len() >= 1 && read == rest[0] {
                            assert(next + more =~= before + rest);
                            law_package_is_read_where_it_is_written(src, q, next, more, to);
                        }
                    } else if token.kind == TokenKind::Semi {
                        if next == before + rest {
                            assert(next.len() == (before + rest).len());
                            assert(next[before.len() as int] == (before + rest)[before.len() as int]);
                        }
                        if more.len() == 0 && read == rest[0] {
                            assert(next =~= before + rest);
                        }
                    }
                },
                Parsed::Stop { report, at } => {},
            }
        },
        Parsed::Stop { report, at } => {},
    }
}

/// A package is read where it is written.
proof fn lemma_package_stmt_is_read_where_it_is_written(
    src: Source,
    from: int,
    segments: Seq<Token>,
    to: int,
)
    requires
        0 <= from <= src.text.len() <= usize::MAX,
    ensures
        parse_stmt(src, from) == (Parsed::Read { value: StmtView::Package(segments), pos: to })
            <==> written_stmt(src, from, StmtView::Package(segments)) == Some(to),
{
    reveal(parse_stmt);
    reveal(parse_import);
    lemma_next_token(src, from);
    match next_token(src, from) {
        Parsed::Read { value: token, pos: p } => {
            if token.kind == TokenKind::Package {
                lemma_package_grows(src, p, Seq::empty());
                if segments.len() >= 1 {
                    assert(Seq::<Token>::empty() + segments =~= segments);
                    law_package_is_read_where_it_is_written(src, p, Seq::empty(), segments, to);
                }
            } else if token.kind == TokenKind::At {
                lemma_annotations_grow(src, p, Seq::empty());
            } else if token.kind == TokenKind::Constructor || token.kind == TokenKind::Struct
                || token.kind == TokenKind::Annotation {
                reveal(parse_decl);
            }
        },
        Parsed::Stop { report, at } => {},
    }
    if segments.len() >= 1 {
        let keyword = seq![Expect::Kind(TokenKind::Package)];
        let rest = seq![Expect::Leaf(segments[0], TokenKind::Ident)] + writing_more_segments(
            segments.drop_first(),
        ) + seq![Expect::Kind(TokenKind::Semi)];
        lemma_stands_concat(src, from, keyword, rest);
        lemma_stands_one(src, from, Expect::Kind(TokenKind::Package));
    }
}

/// An import is read where it is written.
proof fn lemma_import_is_read_where_it_is_written(src: Source, from: int, path: Token, to: int)
    requires
        0 <= from <= src.text.len() <= usize::MAX,
    ensures
        parse_stmt(src, from) == (Parsed::Read { value: StmtView::Import(path), pos: to })
            <==> written_stmt(src, from, StmtView::Import(path)) == Some(to),
{
    reveal(parse_stmt);
    reveal(parse_import);
    lemma_next_token(src, from);
    let keyword = seq![Expect::Kind(TokenKind::Import)];
    let name = seq![Expect::Leaf(path, TokenKind::StringLiteral)];
    let semi = seq![Expect::Kind(TokenKind::Semi)];
    assert(seq![
        Expect::Kind(TokenKind::Import),
        Expect::Leaf(path, TokenKind::StringLiteral),
        Expect::Kind(TokenKind::Semi),
    ] =~= keyword + (name + semi));
    lemma_stands_concat(src, from, keyword, name + semi);
    lemma_stands_one(src, from, Expect::Kind(TokenKind::Import));
    match next_token(src, from) {
        Parsed::Read { value: token, pos: p } => {
            if token.kind == TokenKind::Import {
                lemma_stands_concat(src, p, name, semi);
                lemma_stands_one(src, p, Expect::Leaf(path, TokenKind::StringLiteral));
                lemma_next_token(src, p);
                match next_token(src, p) {
                    Parsed::Read { value: read, pos: q } => {
                        lemma_stands_one(src, q, Expect::Kind(TokenKind::Semi));
                        lemma_next_token(src, q);
                    },
                    Parsed::Stop { report, at } => {},
                }
            } else if token.kind == TokenKind::Package {
                lemma_package_grows(src, p, Seq::empty());
            } else if token.kind == TokenKind::At {
                lemma_annotations_grow(src, p, Seq::empty());
            } else if token.kind == TokenKind::Constructor || token.kind == TokenKind::Struct
                || token.kind == TokenKind::Annotation {
                reveal(parse_decl);
            }
        },
        Parsed::Stop { report, at } => {},
    }
}

/// A comment is read where it is written.
proof fn lemma_comment_is_read_where_it_is_written(src: Source, from: int, value: Token, to: int)
    requires
        0 <= from <= src.text.len() <= usize::MAX,
    ensures
        parse_stmt(src, from) == (Parsed::Read { value: StmtView::Comment(value), pos: to })
            <==> written_stmt(src, from, StmtView::Comment(value)) == Some(to),
{
    reveal(parse_stmt);
    reveal(parse_import);
    lemma_next_token(src, from);
    lemma_stands_one(src, from, Expect::Leaf(value, TokenKind::Comment));
    match next_token(src, from) {
        Parsed::Read { value: token, pos: p } => {
            if token.kind == TokenKind::Package {
                lemma_package_grows(src, p, Seq::empty());
            } else if token.kind == TokenKind::At {
                lemma_annotations_grow(src, p, Seq::empty());
            } else if token.kind == TokenKind::Constructor || token.kind == TokenKind::Struct
                || token.kind == TokenKind::Annotation {
                reveal(parse_decl);
            }
        },
        Parsed::Stop { report, at } => {},
    }
}

/// A declaration is read where it is written.
proof fn lemma_declaration_stmt_is_read_where_it_is_written(
    src: Source,
    from: int,
    stmt: StmtView,
    to: int,
)
    requires
        0 <= from <= src.text.len() <= usize::MAX,
        declaring_keyword(stmt) is Some,
    ensures
        parse_stmt(src, from) == (Parsed::Read { value: stmt, pos: to }) <==> written_stmt(
            src,
            from,
            stmt,
        ) == Some(to),
{
    reveal(parse_stmt);
    reveal(parse_import);
    lemma_next_token(src, from);
    let keyword = declaring_keyword(stmt)->0;
    let annotations = annotations_of(stmt);
    let head = writing_annotations(annotations) + seq![Expect::Kind(keyword)];
    if annotations.len() == 0 {
        assert(head =~= seq![Expect::Kind(keyword)]);
        lemma_stands_one(src, from, Expect::Kind(keyword));
        assert(annotations =~= Seq::<Token>::empty());
    } else {
        let at = seq![Expect::Kind(TokenKind::At)];
        let rest = seq![Expect::Leaf(annotations[0], TokenKind::Ident)] + (writing_annotations(
            annotations.drop_first(),
        ) + seq![Expect::Kind(keyword)]);
        assert(head =~= at + rest);
        lemma_stands_concat(src, from, at, rest);
        lemma_stands_one(src, from, Expect::Kind(TokenKind::At));
    }
    match next_token(src, from) {
        Parsed::Read { value: token, pos: p } => {
            if token.kind == TokenKind::Package {
                lemma_package_grows(src, p, Seq::empty());
            } else if token.kind == TokenKind::At {
                lemma_annotations_grow(src, p, Seq::empty());
                if annotations.len() >= 1 {
                    assert(Seq::<Token>::empty() + annotations =~= annotations);
                    law_annotated_is_read_where_it_is_written(
                        src,
                        p,
                        Seq::empty(),
                        annotations,
                        stmt,
                        to,
                    );
                }
            } else if token.kind == TokenKind::Constructor || token.kind == TokenKind::Struct
                || token.kind == TokenKind::Annotation {
                law_declaration_is_read_where_it_is_written(
                    src,
                    p,
                    token.kind,
                    Seq::empty(),
                    stmt,
                    to,
                );
            }
        },
        Parsed::Stop { report, at } => {},
    }
}

/// The parser reads the statement `stmt` at `from` and goes on at `to`
/// exactly where the text spells `stmt` from `from` to `to`.
pub proof fn law_stmt_is_read_where_it_is_written(src: Source, from: int, stmt: StmtView, to: int)
    requires
        0 <= from <= src.text.len() <= usize::MAX,
        stmt != StmtView::Eof,
    ensures
        parse_stmt(src, from) == (Parsed::Read { value: stmt, pos: to }) <==> written_stmt(
            src,
            from,
            stmt,
        ) == Some(to),
{
    match stmt {
        StmtView::Comment(value) => {
            lemma_comment_is_read_where_it_is_written(src, from, value, to);
        },
        StmtView::Package(segments) => {
            lemma_package_stmt_is_read_where_it_is_written(src, from, segments, to);
        },
        StmtView::Import(path) => {
            lemma_import_is_read_where_it_is_written(src, from, path, to);
        },
        StmtView::Eof => {},
        _ => {
            lemma_declaration_stmt_is_read_where_it_is_written(src, from, stmt, to);
        },
    }
}

/// The statements that the parser reads come behind those that it was
/// handed, and none of them is the end of the file.
pub proof fn lemma_stmts_grow(src: Source, from: int, stmts: Seq<StmtView>)
    requires
        0 <= from <= src.text.len() <= usize::MAX,
    ensures
        (parse_stmts(src, from, stmts) matches Outcome::Tree { stmts: all } ==> stmts.len()
            <= all.len() && all.take(stmts.len() as int) == stmts && forall|i: int|
            stmts.len() <= i < all.len() ==> #[trigger] all[i] != StmtView::Eof),
    decreases src.text.len() - from,
{
    lemma_stmt(src, from);
    match parse_stmt(src, from) {
        Parsed::Read { value: stmt, pos: p } => {
            if stmt == StmtView::Eof {
                assert(stmts.take(stmts.len() as int) =~= stmts);
            } else {
                let next = stmts.push(stmt);
                lemma_stmts_grow(src, p, next);
                match parse_stmts(src, p, next) {
                    Outcome::Tree { stmts: all } => {
                        assert(all.take(stmts.len() as int) =~= all.take(
                            stmts.len() as int + 1,
                        ).take(stmts.len() as int));
                        assert(next.take(stmts.len() as int) =~= stmts);
                        assert(all.take(next.len() as int)[stmts.len() as int] == stmt);
                    },
                    Outcome::Failed { report, at } => {},
                }
            }
        },
        Parsed::Stop { report, at } => {},
    }
}

/// The parser reads the end of the file exactly where nothing but the end
/// is left of the text.
pub proof fn lemma_end_is_read_where_it_is_written(src: Source, from: int)
    requires
        0 <= from <= src.text.len() <= usize::MAX,
    ensures
        (parse_stmt(src, from) matches Parsed::Read { value: stmt, pos: to } && stmt
            == StmtView::Eof) <==> stands(src, from, seq![Expect::Kind(TokenKind::Eof)])
            is Some,
{
    reveal(parse_stmt);
    reveal(parse_import);
    lemma_next_token(src, from);
    lemma_stands_one(src, from, Expect::Kind(TokenKind::Eof));
    match next_token(src, from) {
        Parsed::Read { value: token, pos: p } => {
            if token.kind == TokenKind::Package {
                lemma_package_grows(src, p, Seq::empty());
            } else if token.kind == TokenKind::At {
                lemma_annotations_grow(src, p, Seq::empty());
            } else if token.kind == TokenKind::Constructor || token.kind == TokenKind::Struct
                || token.kind == TokenKind::Annotation {
                reveal(parse_decl);
            }
        },
        Parsed::Stop { report, at } => {},
    }
}

/// Where the parser reads no statement, the text spells none.
proof fn lemma_no_stmt_is_written_where_none_is_read(src: Source, from: int, stmt: StmtView)
    requires
        0 <= from <= src.text.len() <= usize::MAX,
        stmt != StmtView::Eof,
        written_stmt(src, from, stmt) is Some,
    ensures
        parse_stmt(src, from) == (Parsed::Read {
            value: stmt,
            pos: written_stmt(src, from, stmt)->0,
        }),
{
    law_stmt_is_read_where_it_is_written(src, from, stmt, written_stmt(src, from, stmt)->0);
}

/// The parser reads the statements `stmts` to the end of the text, behind
/// the statements `before`, exactly where the text spells them.
pub proof fn law_stmts_are_read_where_they_are_written(
    src: Source,
    from: int,
    before: Seq<StmtView>,
    stmts: Seq<StmtView>,
)
    requires
        0 <= from <= src.text.len() <= usize::MAX,
    ensures
        parse_stmts(src, from, before) == (Outcome::Tree { stmts: before + stmts }) <==> written_file(
            src,
            from,
            stmts,
        ),
    decreases stmts.len(),
{
    lemma_stmt(src, from);
    lemma_stmts_grow(src, from, before);
    lemma_end_is_read_where_it_is_written(src, from);
    let wanted = before + stmts;
    assert(wanted.len() == before.len() + stmts.len());
    if stmts.len() == 0 {
        assert(wanted =~= before);
        match parse_stmt(src, from) {
            Parsed::Read { value: stmt, pos: p } => {
                if stmt != StmtView::Eof {
                    lemma_stmts_grow(src, p, before.push(stmt));
                }
            },
            Parsed::Stop { report, at } => {},
        }
    } else {
        let first = stmts[0];
        let rest = stmts.drop_first();
        assert(wanted[before.len() as int] == first);
        if first == StmtView::Eof {
            assert(written_stmt(src, from, first) is None);
        } else {
            if written_stmt(src, from, first) is Some {
                lemma_no_stmt_is_written_where_none_is_read(src, from, first);
            }
            match parse_stmt(src, from) {
                Parsed::Read { value: stmt, pos: p } => {
                    if stmt != StmtView::Eof {
                        let next = before.push(stmt);
                        lemma_stmts_grow(src, p, next);
                        match parse_stmts(src, p, next) {
                            Outcome::Tree { stmts: all } => {
                                assert(all.take(next.len() as int)[before.len() as int] == stmt);
                            },
                            Outcome::Failed { report, at } => {},
                        }
                        if stmt == first {
                            law_stmt_is_read_where_it_is_written(src, from, first, p);
                            assert(next + rest =~= wanted);
                            law_stmts_are_read_where_they_are_written(src, p, next, rest);
                        }
                    }
                },
                Parsed::Stop { report, at } => {},
            }
        }
    }
}

/// The tree of a text is the tree that the text spells: parsing gives the
/// statements `stmts` exactly where the text, from its start to its end, is
/// the writing of `stmts`.
pub proof fn law_tree_is_read_where_it_is_written(src: Source, stmts: Seq<StmtView>)
    requires
        src.text.len() <= usize::MAX,
    ensures
        parse_text(src) == (Outcome::Tree { stmts }) <==> written_file(src, 0, stmts),
{
    assert(Seq::<StmtView>::empty() + stmts =~= stmts);
    law_stmts_are_read_where_they_are_written(src, 0, Seq::empty(), stmts);
}

/// A text spells one tree at most.
pub proof fn law_text_spells_one_tree(src: Source, one: Seq<StmtView>, other: Seq<StmtView>)
    requires
        src.text.len() <= usize::MAX,
        written_file(src, 0, one),
        written_file(src, 0, other),
    ensures
        one == other,
{
    law_tree_is_read_where_it_is_written(src, one);
    law_tree_is_read_where_it_is_written(src, other);
}

/// A text that spells no tree has none, and parsing it ends with one
/// diagnostic.
pub proof fn law_text_without_tree_fails(src: Source)
    requires
        src.text.len() <= usize::MAX,
        forall|stmts: Seq<StmtView>| !written_file(src, 0, stmts),
    ensures
        parse_text(src) is Failed,
{
    match parse_text(src) {
        Outcome::Tree { stmts } => {
            law_tree_is_read_where_it_is_written(src, stmts);
        },
        Outcome::Failed { report, at } => {},
    }
}

} // verus!
