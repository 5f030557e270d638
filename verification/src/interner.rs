//! Interning: every distinct spelling of a text gets a small number.

use crate::span::Span;
use crate::symbol::{same_spelling, spelling};
use crate::text::substring;
use crate::token::Token;
use vstd::prelude::*;
use vstd::string::*;
use vstd::utf8::is_char_boundary;

verus! {

/// The number of an interned spelling: its place in the order of first
/// appearance.
pub type InternIndex = usize;

/// Gives each spelling of one text a number, the same number for the same
/// spelling. The spellings are kept as ranges of the text, not as copies.
pub struct Interner<'i> {
    pub input: &'i str,
    /// For each number, where its spelling was first seen.
    pub spans: Vec<Span>,
}

impl<'i> Interner<'i> {
    /// The text as bytes.
    pub open spec fn bytes(&self) -> Seq<u8> {
        self.input.spec_bytes()
    }

    /// The interned spellings, by number.
    pub open spec fn names(&self) -> Seq<Seq<u8>> {
        Seq::new(self.spans@.len(), |i: int| spelling(self.bytes(), self.spans@[i]))
    }

    /// Every range lies in the text, and no spelling has two numbers.
    pub open spec fn wf(&self) -> bool {
        &&& self.bytes().len() <= usize::MAX
        &&& forall|i: int|
            0 <= i < self.spans@.len() ==> (#[trigger] self.spans@[i]).within(
                self.bytes().len() as int,
            )
        &&& forall|i: int, j: int|
            0 <= i < j < self.spans@.len() ==> spelling(self.bytes(), self.spans@[i]) != spelling(
                self.bytes(),
                self.spans@[j],
            )
    }

    /// Whether `word` has a number.
    pub open spec fn knows(&self, word: Seq<u8>) -> bool {
        exists|i: int| 0 <= i < self.spans@.len() && spelling(self.bytes(), self.spans@[i]) == word
    }

    /// An interner for `input` that holds nothing yet.
    pub fn new(input: &'i str) -> (interner: Interner<'i>)
        ensures
            interner.wf(),
            interner.input == input,
            interner.names() == Seq::<Seq<u8>>::empty(),
    {
        let _ = input.as_bytes().len();
        let interner = Interner { input, spans: Vec::new() };
        assert(interner.names() =~= Seq::<Seq<u8>>::empty());
        interner
    }

    /// The number of the spelling of `token`: the one it has, or the next
    /// free one. Spellings that have a number keep it.
    pub fn intern(&mut self, token: &Token) -> (symbol: InternIndex)
        requires
            old(self).wf(),
            token.span.within(old(self).bytes().len() as int),
        ensures
            final(self).wf(),
            final(self).input == old(self).input,
            symbol < final(self).names().len(),
            final(self).names()[symbol as int] == spelling(old(self).bytes(), token.span),
            old(self).knows(spelling(old(self).bytes(), token.span))
                ==> final(self).spans@ == old(self).spans@,
            !old(self).knows(spelling(old(self).bytes(), token.span)) ==> symbol
                == old(self).spans@.len(),
            !old(self).knows(spelling(old(self).bytes(), token.span))
                ==> final(self).spans@ == old(self).spans@.push(token.span),
    {
        let bytes = self.input.as_bytes();
        let mut i: usize = 0;
        while i < self.spans.len()
            invariant
                i <= self.spans@.len(),
                *self == *old(self),
                self.wf(),
                bytes@ == self.bytes(),
                token.span.within(self.bytes().len() as int),
                forall|j: int|
                    0 <= j < i ==> spelling(self.bytes(), self.spans@[j]) != spelling(
                        self.bytes(),
                        token.span,
                    ),
            decreases self.spans.len() - i,
        {
            if same_spelling(bytes, self.spans[i], token.span) {
                return i;
            }
            i = i + 1;
        }
        self.spans.push(token.span);
        i
    }

    /// The spelling with number `symbol`, where it is text of its own.
    pub fn lookup(&self, symbol: InternIndex) -> (text: Option<&'i str>)
        requires
            self.wf(),
        ensures
            text is Some <==> symbol < self.names().len() && is_char_boundary(
                self.bytes(),
                self.spans@[symbol as int].start as int,
            ) && is_char_boundary(self.bytes(), self.spans@[symbol as int].end as int),
            text matches Some(t) ==> t.spec_bytes() == self.names()[symbol as int],
    {
        if symbol < self.spans.len() {
            let span = self.spans[symbol];
            substring(self.input, span.start, span.end)
        } else {
            None
        }
    }

    /// Where the spelling with number `symbol` was first seen.
    pub fn first_seen(&self, symbol: InternIndex) -> (span: Option<Span>)
        ensures
            span == (if symbol < self.spans@.len() {
                Some(self.spans@[symbol as int])
            } else {
                None
            }),
    {
        if symbol < self.spans.len() {
            Some(self.spans[symbol])
        } else {
            None
        }
    }
}

} // verus!
