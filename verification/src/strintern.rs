//! Symbol interning: canonical integer handles for identifier strings.
//!
//! An [`Interner`] keeps every distinct string it has seen exactly once, in
//! insertion order, and hands out the string's index as its [`Symbol`]. Two
//! symbols compare equal exactly when the strings they were interned from
//! spell the same characters, and looking a symbol up borrows the single
//! canonical allocation of its string.

use vstd::prelude::*;

use vstd::string::StringExecFns;

use crate::env::str_eq;

verus! {

/// An interned handle standing for an identifier string: the index of the
/// string in its interner's table.
#[derive(Debug, Hash, Eq, PartialEq, Clone, Copy)]
pub struct Symbol(pub usize);

/// The string table. The embedded `lookup` vector owns each interned string
/// once; symbols index into it.
pub struct Interner {
    pub lookup: Vec<String>,
}

impl Interner {
    /// The interned strings, in insertion order.
    pub open spec fn strings(&self) -> Seq<Seq<char>> {
        self.lookup.deep_view()
    }

    /// No two entries of the table spell the same string.
    pub open spec fn wf(&self) -> bool {
        forall|i: int, j: int|
            0 <= i < j < self.strings().len() ==> self.strings()[i] != self.strings()[j]
    }

    /// An empty interner.
    pub fn new() -> (r: Interner)
        ensures
            r.wf(),
            r.strings() == Seq::<Seq<char>>::empty(),
    {
        let r = Interner { lookup: Vec::new() };
        proof {
            assert(r.strings() =~= Seq::<Seq<char>>::empty());
        }
        r
    }

    /// The canonical symbol for `sym`: the index of the entry spelling the
    /// same characters, which is appended first if no entry does. Entries
    /// already present keep their indices, so equal strings always intern
    /// to equal symbols.
    pub fn intern(&mut self, sym: &str) -> (s: Symbol)
        requires
            old(self).wf(),
        ensures
            final(self).wf(),
            s.0 < final(self).strings().len(),
            final(self).strings()[s.0 as int] == sym@,
            (exists|i: int| 0 <= i < old(self).strings().len() && old(self).strings()[i] == sym@)
                ==> *final(self) == *old(self),
            !(exists|i: int| 0 <= i < old(self).strings().len() && old(self).strings()[i] == sym@)
                ==> final(self).strings() == old(self).strings().push(sym@) && s.0
                == old(self).strings().len(),
    {
        proof {
            assert(self.strings().len() == self.lookup@.len());
        }
        let n = self.lookup.len();
        let mut i: usize = 0;
        while i < n
            invariant
                i <= n,
                n == self.lookup@.len(),
                *self == *old(self),
                self.wf(),
                forall|j: int| 0 <= j < i ==> self.strings()[j] != sym@,
            decreases n - i,
        {
            proof {
                assert(self.strings()[i as int] == self.lookup@[i as int]@);
            }
            if str_eq(self.lookup[i].as_str(), sym) {
                return Symbol(i);
            }
            i = i + 1;
        }
        let ghost before = self.strings();
        self.lookup.push(String::from_str(sym));
        proof {
            assert(self.strings() =~= before.push(sym@));
            assert forall|a: int, b: int|
                0 <= a < b < self.strings().len() implies self.strings()[a]
                != self.strings()[b] by {
                assert(self.strings()[a] == before[a]);
                if b == before.len() {
                    assert(before[a] != sym@);
                } else {
                    assert(self.strings()[b] == before[b]);
                }
            }
        }
        Symbol(n)
    }

    /// The canonical string of an interned symbol, borrowed from the
    /// table's single allocation of it.
    pub fn lookup(&self, sym: Symbol) -> (r: &str)
        requires
            sym.0 < self.strings().len(),
        ensures
            r@ == self.strings()[sym.0 as int],
    {
        proof {
            assert(self.strings().len() == self.lookup@.len());
            assert(self.strings()[sym.0 as int] == self.lookup@[sym.0 as int]@);
        }
        self.lookup[sym.0].as_str()
    }
}

} // verus!
