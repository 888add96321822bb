use vstd::prelude::*;
use vstd::std_specs::iter::IteratorSpec;

verus! {

/// A byte range in the program source.
#[derive(Clone, Copy, Debug, PartialEq, Eq, Structural)]
pub struct Span {
    pub start: usize,
    pub end: usize,
}

impl Span {
    pub fn new(start: usize, end: usize) -> (r: Span)
        ensures
            r.start == start,
            r.end == end,
    {
        Span { start, end }
    }
}

/// The name of a binding, held as its characters.
#[derive(Clone, Debug, PartialEq, Eq, Hash)]
pub struct Ident {
    chars: Vec<char>,
}

impl View for Ident {
    type V = Seq<char>;

    closed spec fn view(&self) -> Seq<char> {
        self.chars@
    }
}

impl Ident {
    /// Builds an identifier from its text.
    pub fn new(name: &str) -> (r: Ident)
        ensures
            r@ == name@,
    {
        broadcast use vstd::string::axiom_spec_iter, vstd::string::next_postcondition;
        let mut it = name.chars();
        let mut chars: Vec<char> = Vec::new();
        loop
            invariant
                it.obeys_prophetic_iter_laws(),
                chars@ + it.remaining() == name@,
                it.decrease() is Some,
            ensures
                chars@ == name@,
            decreases it.decrease()->0,
        {
            match it.next() {
                Some(c) => {
                    chars.push(c);
                },
                None => {
                    assert(chars@ =~= name@);
                    break;
                },
            }
        }
        Ident { chars }
    }

    /// Builds an identifier from a vector of characters.
    pub fn from_chars(chars: Vec<char>) -> (r: Ident)
        ensures
            r@ == chars@,
    {
        Ident { chars }
    }

    /// The characters of the identifier.
    pub fn chars(&self) -> (r: &Vec<char>)
        ensures
            r@ == self@,
    {
        &self.chars
    }

    pub fn len(&self) -> (r: usize)
        ensures
            r == self@.len(),
    {
        self.chars.len()
    }

    /// Compares two identifiers by their characters.
    pub fn same_as(&self, other: &Ident) -> (r: bool)
        ensures
            r == (self@ == other@),
    {
        if self.chars.len() != other.chars.len() {
            return false;
        }
        let mut i: usize = 0;
        while i < self.chars.len()
            invariant
                self@.len() == other@.len(),
                i <= self@.len(),
                forall|k: int| 0 <= k < i ==> self@[k] == other@[k],
            decreases self@.len() - i,
        {
            if self.chars[i] != other.chars[i] {
                return false;
            }
            i = i + 1;
        }
        assert(self@ =~= other@);
        true
    }

    /// A copy of the identifier that holds the same characters.
    pub fn duplicate(&self) -> (r: Ident)
        ensures
            r@ == self@,
    {
        Ident { chars: self.chars.clone() }
    }
}

} // verus!

verus! {

/// The names held by a sequence of identifiers, in order.
pub open spec fn names(s: Seq<Ident>) -> Seq<Seq<char>> {
    s.map_values(|x: Ident| x@)
}


/// Copies of `a`'s identifiers followed by copies of `b`'s.
pub fn concat_idents(a: &Vec<Ident>, b: &Vec<Ident>) -> (r: Vec<Ident>)
    ensures
        names(r@) == names(a@) + names(b@),
{
    let mut r: Vec<Ident> = Vec::new();
    let mut i: usize = 0;
    while i < a.len()
        invariant
            i <= a@.len(),
            r@.len() == i,
            forall|k: int| 0 <= k < i ==> #[trigger] r@[k]@ == a@[k]@,
        decreases a@.len() - i,
    {
        r.push(a[i].duplicate());
        i = i + 1;
    }
    let mut j: usize = 0;
    while j < b.len()
        invariant
            j <= b@.len(),
            r@.len() == a@.len() + j,
            forall|k: int| 0 <= k < a@.len() ==> #[trigger] r@[k]@ == a@[k]@,
            forall|k: int| 0 <= k < j ==> #[trigger] r@[a@.len() + k]@ == b@[k]@,
        decreases b@.len() - j,
    {
        r.push(b[j].duplicate());
        j = j + 1;
    }
    assert(names(r@) =~= names(a@) + names(b@)) by {
        assert forall|k: int| 0 <= k < r@.len() implies #[trigger] names(r@)[k] == (names(a@) + names(b@))[k] by {
            if k >= a@.len() {
                assert(r@[a@.len() + (k - a@.len())]@ == b@[k - a@.len()]@);
            }
        }
    }
    r
}

} // verus!
