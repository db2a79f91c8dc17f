//! The symbol table: interns identifier spellings into small integer ids,
//! assigned in order of first occurrence. Re-interning an already-seen
//! spelling returns the existing id, so the stored spellings are pairwise
//! distinct and `table[id]` recovers the original spelling.

use crate::chars::string_from_chars;
use vstd::prelude::*;
use vstd::seq_lib::*;

verus! {

pub struct SymbolTable {
    spellings: Vec<Vec<char>>,
}

impl View for SymbolTable {
    type V = Seq<Seq<char>>;

    closed spec fn view(&self) -> Seq<Seq<char>> {
        self.spellings@.map_values(|v: Vec<char>| v@)
    }
}

/// Whether two character vectors spell the same word.
fn chars_eq(a: &Vec<char>, b: &Vec<char>) -> (r: bool)
    ensures
        r == (a@ == b@),
{
    if a.len() != b.len() {
        return false;
    }
    let mut i: usize = 0;
    while i < a.len()
        invariant
            a@.len() == b@.len(),
            i <= a@.len(),
            forall|j: int| 0 <= j < i ==> a@[j] == b@[j],
        decreases a@.len() - i,
    {
        if a[i] != b[i] {
            return false;
        }
        i = i + 1;
    }
    proof {
        assert(a@ =~= b@);
    }
    true
}

fn copy_chars(v: &Vec<char>) -> (r: Vec<char>)
    ensures
        r@ == v@,
{
    let mut r: Vec<char> = Vec::new();
    let mut i: usize = 0;
    while i < v.len()
        invariant
            i <= v@.len(),
            r@ == v@.take(i as int),
        decreases v@.len() - i,
    {
        r.push(v[i]);
        proof {
            assert(v@.take(i as int).push(v@[i as int]) =~= v@.take(i + 1 as int));
        }
        i = i + 1;
    }
    proof {
        assert(v@.take(v@.len() as int) =~= v@);
    }
    r
}

impl SymbolTable {
    pub fn new() -> (r: Self)
        ensures
            r@ == Seq::<Seq<char>>::empty(),
    {
        proof {
            assert(Seq::<Vec<char>>::empty().map_values(|v: Vec<char>| v@)
                =~= Seq::<Seq<char>>::empty());
        }
        Self { spellings: Vec::new() }
    }

    /// Returns the id of `spelling`: the id it was first seen under, or, for
    /// a new spelling, the next sequential id, recording the spelling.
    pub fn get_or_create_id(&mut self, spelling: &Vec<char>) -> (id: usize)
        ensures
            match old(self)@.index_of_first(spelling@) {
                Some(i) => id == i && final(self)@ == old(self)@,
                None => id == old(self)@.len() && final(self)@ == old(self)@.push(spelling@),
            },
    {
        let mut i: usize = 0;
        while i < self.spellings.len()
            invariant
                i <= self@.len(),
                self@.len() == self.spellings@.len(),
                forall|j: int| 0 <= j < i ==> self@[j] != spelling@,
            decreases self@.len() - i,
        {
            if chars_eq(&self.spellings[i], spelling) {
                proof {
                    assert(self@[i as int] == spelling@);
                    assert(self@.contains(spelling@));
                    self@.index_of_first_ensures(spelling@);
                    let k = self@.index_of_first(spelling@).unwrap();
                    if k < i {
                        assert(self@[k] != spelling@);
                    }
                    if k > i {
                        assert(self@[i as int] != spelling@);
                    }
                    assert(k == i);
                }
                return i;
            }
            i = i + 1;
        }
        proof {
            assert(!self@.contains(spelling@)) by {
                if self@.contains(spelling@) {
                    let k = choose|k: int| 0 <= k < self@.len() && self@[k] == spelling@;
                    assert(self@[k] != spelling@);
                }
            }
            self@.index_of_first_ensures(spelling@);
        }
        let id = self.spellings.len();
        let copy = copy_chars(spelling);
        self.spellings.push(copy);
        proof {
            assert(self@ =~= old(self)@.push(spelling@));
        }
        id
    }

    /// Finalizes the table: the spellings ordered by id.
    pub fn into_table(self) -> (r: Vec<String>)
        ensures
            r@.map_values(|s: String| s@) == self@,
    {
        let mut out: Vec<String> = Vec::new();
        let mut i: usize = 0;
        while i < self.spellings.len()
            invariant
                i <= self.spellings@.len(),
                self@.len() == self.spellings@.len(),
                out@.len() == i,
                forall|j: int| 0 <= j < i ==> out@[j]@ == self@[j],
            decreases self.spellings@.len() - i,
        {
            let s = string_from_chars(&self.spellings[i]);
            out.push(s);
            i = i + 1;
        }
        proof {
            assert(out@.map_values(|s: String| s@) =~= self@);
        }
        out
    }
}

} // verus!
