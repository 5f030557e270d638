//! The byte classes that the lexer tells apart.
//!
//! Every character with a meaning of its own in the language is ASCII, so
//! the text is read byte by byte. A byte of a longer UTF-8 sequence belongs
//! to no class but `Continuation` and `NotNewline`.

use vstd::prelude::*;

verus! {

/// The line feed.
pub const NEWLINE: u8 = 0x0A;

/// `"`
pub const QUOTE: u8 = 0x22;

/// `(`
pub const OPEN_PAREN: u8 = 0x28;

/// `)`
pub const CLOSE_PAREN: u8 = 0x29;

/// `*`
pub const STAR: u8 = 0x2A;

/// `,`
pub const COMMA: u8 = 0x2C;

/// `.`
pub const PERIOD: u8 = 0x2E;

/// `/`
pub const SLASH: u8 = 0x2F;

/// `:`
pub const COLON: u8 = 0x3A;

/// `;`
pub const SEMI: u8 = 0x3B;

/// `<`
pub const OPEN_CHEVRON: u8 = 0x3C;

/// `>`
pub const CLOSE_CHEVRON: u8 = 0x3E;

/// `?`
pub const QUESTION_MARK: u8 = 0x3F;

/// `@`
pub const AT: u8 = 0x40;

/// `_`
pub const UNDERSCORE: u8 = 0x5F;

/// `{`
pub const OPEN_BRACE: u8 = 0x7B;

/// `}`
pub const CLOSE_BRACE: u8 = 0x7D;

/// ASCII white space or an ASCII control character: the space, every byte
/// below it, and the delete character.
pub open spec fn spec_is_whitespace(b: u8) -> bool {
    b <= 0x20 || b == 0x7F
}

/// A decimal digit, `0` to `9`.
pub open spec fn spec_is_digit(b: u8) -> bool {
    0x30 <= b <= 0x39
}

/// An ASCII letter, `A` to `Z` or `a` to `z`.
pub open spec fn spec_is_alphabetic(b: u8) -> bool {
    (0x41 <= b <= 0x5A) || (0x61 <= b <= 0x7A)
}

/// A byte that may begin an identifier: a letter or `_`.
pub open spec fn spec_is_id_head(b: u8) -> bool {
    spec_is_alphabetic(b) || b == UNDERSCORE
}

/// A byte that may continue an identifier: a letter, a digit or `_`.
pub open spec fn spec_is_id_body(b: u8) -> bool {
    spec_is_alphabetic(b) || spec_is_digit(b) || b == UNDERSCORE
}

/// Any byte but the line feed.
pub open spec fn spec_is_not_newline(b: u8) -> bool {
    b != NEWLINE
}

/// A byte that continues a UTF-8 sequence begun by an earlier byte.
pub open spec fn spec_is_continuation(b: u8) -> bool {
    0x80 <= b <= 0xBF
}

pub fn is_whitespace(b: u8) -> (r: bool)
    ensures
        r == spec_is_whitespace(b),
{
    b <= 0x20 || b == 0x7F
}

pub fn is_digit(b: u8) -> (r: bool)
    ensures
        r == spec_is_digit(b),
{
    0x30 <= b && b <= 0x39
}

pub fn is_id_head(b: u8) -> (r: bool)
    ensures
        r == spec_is_id_head(b),
{
    (0x41 <= b && b <= 0x5A) || (0x61 <= b && b <= 0x7A) || b == UNDERSCORE
}

pub fn is_id_body(b: u8) -> (r: bool)
    ensures
        r == spec_is_id_body(b),
{
    is_id_head(b) || is_digit(b)
}

pub fn is_not_newline(b: u8) -> (r: bool)
    ensures
        r == spec_is_not_newline(b),
{
    b != NEWLINE
}

pub fn is_continuation(b: u8) -> (r: bool)
    ensures
        r == spec_is_continuation(b),
{
    0x80 <= b && b <= 0xBF
}

/// A set of bytes that a run of the text may be made of.
#[derive(Clone, Copy, Debug, PartialEq, Eq, Structural)]
pub enum ByteClass {
    Whitespace,
    Digit,
    IdBody,
    NotNewline,
    NotQuote,
    Continuation,
}

impl ByteClass {
    pub open spec fn spec_holds(self, b: u8) -> bool {
        match self {
            ByteClass::Whitespace => spec_is_whitespace(b),
            ByteClass::Digit => spec_is_digit(b),
            ByteClass::IdBody => spec_is_id_body(b),
            ByteClass::NotNewline => spec_is_not_newline(b),
            ByteClass::NotQuote => b != QUOTE,
            ByteClass::Continuation => spec_is_continuation(b),
        }
    }

    /// Whether `b` belongs to the class.
    pub fn holds(&self, b: u8) -> (r: bool)
        ensures
            r == self.spec_holds(b),
    {
        match self {
            ByteClass::Whitespace => is_whitespace(b),
            ByteClass::Digit => is_digit(b),
            ByteClass::IdBody => is_id_body(b),
            ByteClass::NotNewline => is_not_newline(b),
            ByteClass::NotQuote => b != QUOTE,
            ByteClass::Continuation => is_continuation(b),
        }
    }
}

/// Where the longest run of `class` bytes that begins at `from` ends: the
/// first position at or after `from` that is the end of the text or holds a
/// byte outside the class.
pub open spec fn run_end(text: Seq<u8>, from: int, class: ByteClass) -> int
    decreases text.len() - from,
{
    if 0 <= from < text.len() && class.spec_holds(text[from]) {
        run_end(text, from + 1, class)
    } else {
        from
    }
}

/// `run_end` is the one position that ends a maximal run: every byte before
/// it is in the class, and the run cannot be extended.
pub proof fn lemma_run_end(text: Seq<u8>, from: int, class: ByteClass)
    requires
        0 <= from <= text.len(),
    ensures
        from <= run_end(text, from, class) <= text.len(),
        forall|i: int| from <= i < run_end(text, from, class) ==> class.spec_holds(#[trigger] text[i]),
        run_end(text, from, class) < text.len() ==> !class.spec_holds(
            text[run_end(text, from, class)],
        ),
    decreases text.len() - from,
{
    if from < text.len() && class.spec_holds(text[from]) {
        lemma_run_end(text, from + 1, class);
    }
}

/// Any position that ends a maximal run from `from` is `run_end`.
pub proof fn lemma_run_end_unique(text: Seq<u8>, from: int, class: ByteClass, end: int)
    requires
        0 <= from <= end <= text.len(),
        forall|i: int| from <= i < end ==> class.spec_holds(#[trigger] text[i]),
        end < text.len() ==> !class.spec_holds(text[end]),
    ensures
        run_end(text, from, class) == end,
    decreases end - from,
{
    if from < end {
        assert(class.spec_holds(text[from]));
        lemma_run_end_unique(text, from + 1, class, end);
    }
}

} // verus!
