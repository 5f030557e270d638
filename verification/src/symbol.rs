//! The spelling of a token: the bytes of the text that it covers.

use crate::span::Span;
use crate::text::substring;
use crate::token::Token;
use vstd::prelude::*;
use vstd::string::*;
use vstd::utf8::is_char_boundary;

verus! {

/// The bytes of `text` that `span` covers.
pub open spec fn spelling(text: Seq<u8>, span: Span) -> Seq<u8> {
    text.subrange(span.start as int, span.end as int)
}

/// The text that `token` was read from. `None` for a token that does not
/// cover whole characters of `input`.
pub fn span<'i>(input: &'i str, token: &Token) -> (text: Option<&'i str>)
    ensures
        text is Some <==> token.span.within(input.spec_bytes().len() as int) && is_char_boundary(
            input.spec_bytes(),
            token.span.start as int,
        ) && is_char_boundary(input.spec_bytes(), token.span.end as int),
        text matches Some(t) ==> t.spec_bytes() == spelling(input.spec_bytes(), token.span),
{
    substring(input, token.span.start, token.span.end)
}

/// Whether two spans of one text cover the same bytes.
pub fn same_spelling(bytes: &[u8], a: Span, b: Span) -> (same: bool)
    requires
        a.within(bytes@.len() as int),
        b.within(bytes@.len() as int),
    ensures
        same == (spelling(bytes@, a) == spelling(bytes@, b)),
{
    if a.end - a.start != b.end - b.start {
        assert(spelling(bytes@, a).len() != spelling(bytes@, b).len());
        return false;
    }
    let len = a.end - a.start;
    let mut i: usize = 0;
    while i < len
        invariant
            i <= len,
            len == a.end - a.start,
            len == b.end - b.start,
            a.within(bytes@.len() as int),
            b.within(bytes@.len() as int),
            forall|j: int|
                0 <= j < i ==> #[trigger] spelling(bytes@, a)[j] == spelling(bytes@, b)[j],
        decreases len - i,
    {
        if bytes[a.start + i] != bytes[b.start + i] {
            assert(spelling(bytes@, a)[i as int] != spelling(bytes@, b)[i as int]);
            return false;
        }
        i = i + 1;
    }
    assert(spelling(bytes@, a) =~= spelling(bytes@, b));
    true
}

} // verus!
