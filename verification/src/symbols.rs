//! The symbol table: which name was declared by what.

use crate::interner::{InternIndex, Interner};
use crate::symbol::spelling;
use crate::token::Token;
use std::collections::HashMap;
use vstd::prelude::*;
use vstd::std_specs::hash::*;

verus! {

broadcast use vstd::std_specs::hash::group_hash_axioms;

/// What declared a name, with the token of the name.
#[derive(Clone, Copy, Debug, PartialEq, Eq, Structural)]
pub enum Symbol {
    ConstructorDecl(Token),
    StructDecl(Token),
    AnnotationDecl(Token),
}

/// The declarations of one text, by the spelling of their names. The first
/// declaration of a name stays: a second one is refused.
pub struct SymbolTable<'i> {
    pub interner: Interner<'i>,
    pub symbols: HashMap<InternIndex, Symbol>,
}

/// The number that `interner` has given `word`, if it has given one.
pub open spec fn id_of(interner: &Interner, word: Seq<u8>) -> Option<int> {
    if interner.knows(word) {
        Some(choose|i: int| 0 <= i < interner.spans@.len() && interner.names()[i] == word)
    } else {
        None
    }
}

/// A spelling has one number only.
pub proof fn lemma_id_of(interner: &Interner, i: int)
    requires
        interner.wf(),
        0 <= i < interner.spans@.len(),
    ensures
        id_of(interner, interner.names()[i]) == Some(i),
{
    let word = interner.names()[i];
    assert(spelling(interner.bytes(), interner.spans@[i]) == word);
    let j = choose|j: int| 0 <= j < interner.spans@.len() && interner.names()[j] == word;
    assert(interner.names()[i] == word);
    if i < j {
        assert(spelling(interner.bytes(), interner.spans@[i]) != spelling(
            interner.bytes(),
            interner.spans@[j],
        ));
    } else if j < i {
        assert(spelling(interner.bytes(), interner.spans@[j]) != spelling(
            interner.bytes(),
            interner.spans@[i],
        ));
    }
}

/// A number that `id_of` gives is the number of that spelling.
pub proof fn lemma_id_of_known(interner: &Interner, word: Seq<u8>)
    requires
        interner.knows(word),
    ensures
        id_of(interner, word) matches Some(i) && 0 <= i < interner.spans@.len()
            && interner.names()[i] == word,
{
    let k = choose|k: int|
        0 <= k < interner.spans@.len() && spelling(interner.bytes(), interner.spans@[k]) == word;
    assert(interner.names()[k] == word);
}

/// An interner that has grown by spellings at its end gives every spelling
/// that had a number the same number.
pub proof fn lemma_id_of_grown(before: &Interner, after: &Interner, word: Seq<u8>)
    requires
        before.wf(),
        after.wf(),
        before.input == after.input,
        before.spans@.len() <= after.spans@.len(),
        forall|i: int| 0 <= i < before.spans@.len() ==> before.spans@[i] == after.spans@[i],
        before.knows(word),
    ensures
        id_of(after, word) == id_of(before, word),
{
    lemma_id_of_known(before, word);
    let i = id_of(before, word)->0;
    assert(after.names()[i] == word);
    lemma_id_of(after, i);
}

impl<'i> SymbolTable<'i> {
    /// The interner is sound, and every symbol belongs to a spelling that it
    /// has a number for.
    pub open spec fn wf(&self) -> bool {
        &&& self.interner.wf()
        &&& forall|k: usize| #[trigger]
            self.symbols@.contains_key(k) ==> k < self.interner.spans@.len()
    }

    /// The text as bytes.
    pub open spec fn bytes(&self) -> Seq<u8> {
        self.interner.bytes()
    }

    /// What declared the name spelled `word`, if anything has.
    pub open spec fn bound(&self, word: Seq<u8>) -> Option<Symbol> {
        match id_of(&self.interner, word) {
            Some(i) => if self.symbols@.contains_key(i as usize) {
                Some(self.symbols@[i as usize])
            } else {
                None
            },
            None => None,
        }
    }

    /// An empty table over the text of `interner`.
    pub fn new(interner: Interner<'i>) -> (table: SymbolTable<'i>)
        requires
            interner.wf(),
        ensures
            table.wf(),
            table.interner == interner,
            forall|word: Seq<u8>| table.bound(word) is None,
    {
        SymbolTable { interner, symbols: HashMap::new() }
    }

    /// Declares `name` as `symbol`, unless the name is declared already.
    /// Says whether the name was free. A name that is taken keeps its first
    /// declaration.
    pub fn insert(&mut self, name: &Token, symbol: Symbol) -> (fresh: bool)
        requires
            old(self).wf(),
            name.span.within(old(self).bytes().len() as int),
        ensures
            final(self).wf(),
            final(self).interner.input == old(self).interner.input,
            fresh == (old(self).bound(spelling(old(self).bytes(), name.span)) is None),
            final(self).bound(spelling(old(self).bytes(), name.span)) == (if fresh {
                Some(symbol)
            } else {
                old(self).bound(spelling(old(self).bytes(), name.span))
            }),
            forall|word: Seq<u8>|
                word != spelling(old(self).bytes(), name.span) ==> final(self).bound(word) == old(
                    self,
                ).bound(word),
    {
        let ghost word = spelling(self.bytes(), name.span);
        let idx = self.interner.intern(name);
        proof {
            self.lemma_interned(old(self), word, idx);
        }
        let ghost mid = *self;
        if self.symbols.contains_key(&idx) {
            false
        } else {
            self.symbols.insert(idx, symbol);
            proof {
                assert forall|other: Seq<u8>| other != word implies self.bound(other) == mid.bound(
                    other,
                ) by {
                    vstd::std_specs::vec::axiom_spec_len(&self.interner.spans);
                    if self.interner.knows(other) {
                        lemma_id_of_known(&self.interner, other);
                    }
                }
            }
            true
        }
    }

    /// Whether `name` is declared.
    pub fn contains(&mut self, name: &Token) -> (found: bool)
        requires
            old(self).wf(),
            name.span.within(old(self).bytes().len() as int),
        ensures
            final(self).wf(),
            final(self).interner.input == old(self).interner.input,
            found == (old(self).bound(spelling(old(self).bytes(), name.span)) is Some),
            forall|word: Seq<u8>| final(self).bound(word) == old(self).bound(word),
    {
        let ghost word = spelling(self.bytes(), name.span);
        let idx = self.interner.intern(name);
        proof {
            self.lemma_interned(old(self), word, idx);
        }
        self.symbols.contains_key(&idx)
    }

    /// What interning one spelling does to a table whose symbols stay: the
    /// spelling has the number it was given, and every binding stays.
    proof fn lemma_interned(&self, before: &Self, word: Seq<u8>, idx: usize)
        requires
            before.wf(),
            self.interner.wf(),
            self.interner.input == before.interner.input,
            self.symbols == before.symbols,
            idx < self.interner.names().len(),
            self.interner.names()[idx as int] == word,
            before.interner.knows(word) ==> self.interner.spans@ == before.interner.spans@,
            !before.interner.knows(word) ==> self.interner.spans@.len()
                == before.interner.spans@.len() + 1 && forall|i: int|
                0 <= i < before.interner.spans@.len() ==> self.interner.spans@[i]
                    == before.interner.spans@[i],
        ensures
            self.wf(),
            id_of(&self.interner, word) == Some(idx as int),
            forall|other: Seq<u8>| self.bound(other) == before.bound(other),
            before.bound(word) is Some <==> self.symbols@.contains_key(idx),
    {
        lemma_id_of(&self.interner, idx as int);
        assert forall|other: Seq<u8>| self.bound(other) == before.bound(other) by {
            if before.interner.knows(other) {
                lemma_id_of_grown(&before.interner, &self.interner, other);
            } else if self.interner.knows(other) {
                lemma_id_of_known(&self.interner, other);
                let i = id_of(&self.interner, other)->0;
                if i < before.interner.spans@.len() {
                    assert(spelling(before.interner.bytes(), before.interner.spans@[i]) == other);
                }
            }
        }
        if before.interner.knows(word) {
            lemma_id_of_grown(&before.interner, &self.interner, word);
        }
    }
}

} // verus!
