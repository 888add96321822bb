use vstd::prelude::*;

use crate::ident::{concat_idents, names, Ident};
use crate::table::Table;
use crate::type_def::TypeDef;
use crate::value::Value;

verus! {

/// What is recorded for a declared name: its static type, and its value when
/// that is known at compile time.
#[derive(Clone, Copy, Debug, PartialEq, Eq, Structural)]
pub struct Binding {
    pub type_def: TypeDef,
    pub value: Option<Value>,
}

impl Binding {
    pub fn new(type_def: TypeDef, value: Option<Value>) -> (r: Binding)
        ensures
            r.type_def == type_def,
            r.value == value,
    {
        Binding { type_def, value }
    }
}

/// The names of a chain of scopes, outermost scope first, each in order of
/// declaration.
pub open spec fn chain_names(scopes: Seq<Table<Binding>>) -> Seq<Seq<char>>
    decreases scopes.len(),
{
    if scopes.len() == 0 {
        Seq::empty()
    } else {
        chain_names(scopes.drop_last()) + scopes.last().key_names()
    }
}

/// The binding of `name` in a chain of scopes: the innermost scope that
/// declares it decides.
pub open spec fn chain_lookup(scopes: Seq<Table<Binding>>, name: Seq<char>) -> Option<Binding>
    decreases scopes.len(),
{
    if scopes.len() == 0 {
        None
    } else {
        match scopes.last().lookup(name) {
            Some(b) => Some(b),
            None => chain_lookup(scopes.drop_last(), name),
        }
    }
}

/// The bindings declared in the program being compiled, as a chain of
/// lexical scopes; the last scope is the innermost.
#[derive(Clone, Debug)]
pub struct LocalEnv {
    scopes: Vec<Table<Binding>>,
}

impl LocalEnv {
    pub closed spec fn wf(&self) -> bool {
        &&& self.scopes@.len() >= 1
        &&& forall|k: int| 0 <= k < self.scopes@.len() ==> (#[trigger] self.scopes@[k]).wf()
    }

    /// The number of open scopes.
    pub closed spec fn depth(&self) -> nat {
        self.scopes@.len()
    }

    /// The declared names, outermost scope first, each scope in order of
    /// declaration.
    pub closed spec fn declared(&self) -> Seq<Seq<char>> {
        chain_names(self.scopes@)
    }

    /// The binding of `name` in the innermost scope that declares it.
    pub closed spec fn lookup(&self, name: Seq<char>) -> Option<Binding> {
        chain_lookup(self.scopes@, name)
    }

    /// The binding of `name` once the innermost scope is closed.
    pub closed spec fn lookup_outside(&self, name: Seq<char>) -> Option<Binding> {
        chain_lookup(self.scopes@.drop_last(), name)
    }

    /// A single, empty scope.
    pub fn new() -> (r: LocalEnv)
        ensures
            r.wf(),
            r.depth() == 1,
            r.declared() == Seq::<Seq<char>>::empty(),
            forall|name: Seq<char>| #[trigger] r.lookup(name) is None,
    {
        let mut scopes: Vec<Table<Binding>> = Vec::new();
        scopes.push(Table::new());
        let r = LocalEnv { scopes };
        proof {
            let none = Seq::<Table<Binding>>::empty();
            assert(r.scopes@.drop_last() =~= none);
            assert(chain_names(none) == Seq::<Seq<char>>::empty());
            assert(chain_names(r.scopes@) =~= Seq::<Seq<char>>::empty());
            assert forall|name: Seq<char>| #[trigger] r.lookup(name) is None by {
                assert(r.scopes@.last().lookup(name) is None);
                assert(chain_lookup(none, name) is None);
            }
        }
        r
    }

    /// Opens an inner scope.
    pub fn push_scope(&mut self)
        requires
            old(self).wf(),
        ensures
            final(self).wf(),
            final(self).depth() == old(self).depth() + 1,
            final(self).declared() == old(self).declared(),
            forall|name: Seq<char>| #[trigger] final(self).lookup(name) == old(self).lookup(name),
            forall|name: Seq<char>| #[trigger] final(self).lookup_outside(name) == old(self).lookup(name),
    {
        let ghost before = self.scopes@;
        self.scopes.push(Table::new());
        proof {
            assert(self.scopes@.drop_last() =~= before);
            assert(chain_names(self.scopes@) =~= chain_names(before));
        }
    }

    /// Closes the innermost scope, with its bindings; the outermost scope
    /// stays open, and closing it does nothing.
    pub fn pop_scope(&mut self) -> (r: bool)
        requires
            old(self).wf(),
        ensures
            final(self).wf(),
            r == (old(self).depth() > 1),
            !r ==> *final(self) == *old(self),
            r ==> final(self).depth() == old(self).depth() - 1,
            r ==> forall|name: Seq<char>| #[trigger] final(self).lookup(name) == old(self).lookup_outside(name),
    {
        if self.scopes.len() <= 1 {
            return false;
        }
        let ghost before = self.scopes@;
        self.scopes.pop();
        assert(self.scopes@ =~= before.drop_last());
        true
    }

    /// The binding of `ident` in the innermost scope that declares it.
    pub fn variable(&self, ident: &Ident) -> (r: Option<Binding>)
        requires
            self.wf(),
        ensures
            r == self.lookup(ident@),
    {
        let mut i: usize = self.scopes.len();
        assert(self.scopes@.subrange(0, i as int) =~= self.scopes@);
        while i > 0
            invariant
                self.wf(),
                i <= self.scopes@.len(),
                chain_lookup(self.scopes@.subrange(0, i as int), ident@) == self.lookup(ident@),
            decreases i,
        {
            let ghost part = self.scopes@.subrange(0, i as int);
            assert(part.drop_last() =~= self.scopes@.subrange(0, i - 1));
            match self.scopes[i - 1].get(ident) {
                Some(b) => {
                    return Some(b);
                },
                None => {},
            }
            i = i - 1;
        }
        assert(self.scopes@.subrange(0, 0) =~= Seq::<Table<Binding>>::empty());
        None
    }

    /// Declares `ident` in the innermost scope, or replaces its binding
    /// there. Returns the binding `ident` had before, from any scope, so that
    /// shadowing shows.
    pub fn insert_variable(&mut self, ident: Ident, binding: Binding) -> (r: Option<Binding>)
        requires
            old(self).wf(),
        ensures
            final(self).wf(),
            final(self).depth() == old(self).depth(),
            r == old(self).lookup(ident@),
            final(self).lookup(ident@) == Some(binding),
            forall|other: Seq<char>| other != ident@ ==> #[trigger] final(self).lookup(other) == old(self).lookup(other),
            forall|name: Seq<char>| #[trigger] final(self).lookup_outside(name) == old(self).lookup_outside(name),
            old(self).innermost_declares(ident@) ==> final(self).declared() == old(self).declared(),
            !old(self).innermost_declares(ident@) ==> final(self).declared() == old(self).declared().push(ident@),
    {
        let prev = self.variable(&ident);
        let ghost before = self.scopes@;
        let last = self.scopes.len() - 1;
        let mut scope = self.scopes.pop().unwrap();
        scope.insert(ident, binding);
        self.scopes.push(scope);
        proof {
            assert(self.scopes@.drop_last() =~= before.drop_last());
            assert forall|k: int| 0 <= k < self.scopes@.len() implies (#[trigger] self.scopes@[k]).wf() by {
                if k < last {
                    assert(self.scopes@[k] == before[k]);
                }
            }
        }
        prev
    }

    /// Whether the innermost scope declares `name`.
    pub closed spec fn innermost_declares(&self, name: Seq<char>) -> bool {
        self.scopes@.last().lookup(name) is Some
    }

    /// The declared identifiers, outermost scope first, each scope in order
    /// of declaration.
    pub fn variable_idents(&self) -> (r: Vec<Ident>)
        requires
            self.wf(),
        ensures
            names(r@) == self.declared(),
    {
        let mut r: Vec<Ident> = Vec::new();
        let mut i: usize = 0;
        while i < self.scopes.len()
            invariant
                self.wf(),
                i <= self.scopes@.len(),
                names(r@) == chain_names(self.scopes@.subrange(0, i as int)),
            decreases self.scopes@.len() - i,
        {
            let keys = self.scopes[i].keys();
            let ghost part = self.scopes@.subrange(0, i + 1);
            assert(part.drop_last() =~= self.scopes@.subrange(0, i as int));
            r = concat_idents(&r, &keys);
            i = i + 1;
        }
        assert(self.scopes@.subrange(0, self.scopes@.len() as int) =~= self.scopes@);
        r
    }
}

/// The bindings visible from outside the program being compiled.
#[derive(Clone, Debug)]
pub struct ExternalEnv {
    bindings: Table<Binding>,
}

impl ExternalEnv {
    pub closed spec fn wf(&self) -> bool {
        self.bindings.wf()
    }

    /// The binding visible under `name`, if any.
    pub closed spec fn lookup(&self, name: Seq<char>) -> Option<Binding> {
        self.bindings.lookup(name)
    }

    pub fn new() -> (r: ExternalEnv)
        ensures
            r.wf(),
            forall|name: Seq<char>| #[trigger] r.lookup(name) is None,
    {
        ExternalEnv { bindings: Table::new() }
    }

    /// The binding visible under `ident`, if any.
    pub fn variable(&self, ident: &Ident) -> (r: Option<Binding>)
        requires
            self.wf(),
        ensures
            r == self.lookup(ident@),
    {
        self.bindings.get(ident)
    }

    /// Makes `ident` visible with `binding`; returns the binding it had.
    pub fn insert_variable(&mut self, ident: Ident, binding: Binding) -> (r: Option<Binding>)
        requires
            old(self).wf(),
        ensures
            final(self).wf(),
            r == old(self).lookup(ident@),
            final(self).lookup(ident@) == Some(binding),
            forall|other: Seq<char>| other != ident@ ==> #[trigger] final(self).lookup(other) == old(self).lookup(other),
    {
        self.bindings.insert(ident, binding)
    }
}

} // verus!
