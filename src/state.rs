use vstd::prelude::*;

use crate::ident::Ident;
use crate::table::Table;
use crate::value::Value;

verus! {

/// The live values of the bindings while a program runs.
#[derive(Clone, Debug)]
pub struct RuntimeState {
    values: Table<Value>,
}

impl RuntimeState {
    pub closed spec fn wf(&self) -> bool {
        self.values.wf()
    }

    /// The value currently held under `name`, if any.
    pub closed spec fn lookup(&self, name: Seq<char>) -> Option<Value> {
        self.values.lookup(name)
    }

    pub fn new() -> (r: RuntimeState)
        ensures
            r.wf(),
            forall|name: Seq<char>| #[trigger] r.lookup(name) is None,
    {
        RuntimeState { values: Table::new() }
    }

    /// A copy of the value held under `ident`, if any.
    pub fn variable(&self, ident: &Ident) -> (r: Option<Value>)
        requires
            self.wf(),
        ensures
            r == self.lookup(ident@),
    {
        self.values.get(ident)
    }

    /// Sets the value of `ident`; returns the value it had.
    pub fn insert_variable(&mut self, ident: Ident, value: Value) -> (r: Option<Value>)
        requires
            old(self).wf(),
        ensures
            final(self).wf(),
            r == old(self).lookup(ident@),
            final(self).lookup(ident@) == Some(value),
            forall|other: Seq<char>| other != ident@ ==> #[trigger] final(self).lookup(other) == old(self).lookup(other),
    {
        self.values.insert(ident, value)
    }
}

} // verus!
