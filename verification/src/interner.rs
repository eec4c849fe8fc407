use vstd::prelude::*;
use vstd::string::StringExecFns;

verus! {

/// A small opaque handle standing for an interned string.
#[derive(Eq, PartialEq, Clone, Copy, Default, Hash, Debug, Structural)]
pub struct InternedStr(pub usize);

/// An explicit interning table: each distinct string is stored once,
/// and callers carry `InternedStr` handles into it.
#[derive(Clone, Debug)]
pub struct Interner {
    pub strings: Vec<String>,
}

impl View for Interner {
    type V = Seq<Seq<char>>;

    open spec fn view(&self) -> Seq<Seq<char>> {
        self.strings@.map_values(|s: String| s@)
    }
}

/// The handle an already-interned string is stored under, if any: the
/// first index holding it.
pub open spec fn spec_intern_index(strings: Seq<Seq<char>>, s: Seq<char>) -> Option<int>
    decreases strings.len(),
{
    if strings.len() == 0 {
        None
    } else if strings[0] == s {
        Some(0)
    } else {
        match spec_intern_index(strings.drop_first(), s) {
            Some(i) => Some(i + 1),
            None => None,
        }
    }
}

impl Interner {
    /// An empty interning table.
    pub fn new() -> (r: Interner)
        ensures
            r@ == Seq::<Seq<char>>::empty(),
    {
        let r = Interner { strings: Vec::new() };
        proof {
            assert(r@ =~= Seq::<Seq<char>>::empty());
        }
        r
    }

    /// The handle for `s`: the handle it is already stored under, or a
    /// fresh one after storing it.
    pub fn intern(&mut self, s: &str) -> (r: InternedStr)
        ensures
            match spec_intern_index(old(self)@, s@) {
                Some(i) => final(self)@ == old(self)@ && r.0 == i,
                None => final(self)@ == old(self)@.push(s@) && r.0 == old(self)@.len(),
            },
    {
        let ghost strings = self@;
        let target = String::from_str(s);
        let mut i: usize = 0;
        proof {
            assert(strings.subrange(0, strings.len() as int) =~= strings);
        }
        while i < self.strings.len()
            invariant
                i <= self.strings.len(),
                self@ == strings,
                target@ == s@,
                forall|j: int| 0 <= j < i ==> strings[j] != s@,
                spec_intern_index(strings, s@) == (match spec_intern_index(
                    strings.subrange(i as int, strings.len() as int),
                    s@,
                ) {
                    Some(k) => Some(k + i),
                    None => None::<int>,
                }),
            decreases self.strings.len() - i,
        {
            let ghost rest = strings.subrange(i as int, strings.len() as int);
            proof {
                assert(rest[0] == strings[i as int]);
                assert(rest.drop_first() =~= strings.subrange(i + 1, strings.len() as int));
            }
            if self.strings[i] == target {
                return InternedStr(i);
            }
            i += 1;
        }
        proof {
            assert(strings.subrange(strings.len() as int, strings.len() as int).len() == 0);
        }
        let index = self.strings.len();
        self.strings.push(target);
        proof {
            assert(self@ =~= strings.push(s@));
        }
        InternedStr(index)
    }

    /// The text stored under a handle; the handle must have been
    /// given out by this interner.
    pub fn get_str(&self, interned: InternedStr) -> (r: &str)
        requires
            interned.0 < self@.len(),
        ensures
            r@ == self@[interned.0 as int],
    {
        self.strings[interned.0].as_str()
    }
}

} // verus!
