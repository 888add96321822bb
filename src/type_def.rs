use vstd::prelude::*;

verus! {

/// The kinds of value an expression may produce.
#[derive(Clone, Copy, Debug, PartialEq, Eq, Structural)]
pub struct Kind {
    pub null: bool,
    pub boolean: bool,
    pub integer: bool,
}

/// A static type: the kinds a value may take, and whether producing it can
/// fail at runtime.
#[derive(Clone, Copy, Debug, PartialEq, Eq, Structural)]
pub struct TypeDef {
    pub fallible: bool,
    pub kind: Kind,
}

impl TypeDef {
    /// Always null; fallible until marked otherwise.
    pub fn null() -> (r: TypeDef)
        ensures
            r.fallible,
            r.kind == (Kind { null: true, boolean: false, integer: false }),
    {
        TypeDef { fallible: true, kind: Kind { null: true, boolean: false, integer: false } }
    }

    /// Always a boolean; fallible until marked otherwise.
    pub fn boolean() -> (r: TypeDef)
        ensures
            r.fallible,
            r.kind == (Kind { null: false, boolean: true, integer: false }),
    {
        TypeDef { fallible: true, kind: Kind { null: false, boolean: true, integer: false } }
    }

    /// Always an integer; fallible until marked otherwise.
    pub fn integer() -> (r: TypeDef)
        ensures
            r.fallible,
            r.kind == (Kind { null: false, boolean: false, integer: true }),
    {
        TypeDef { fallible: true, kind: Kind { null: false, boolean: false, integer: true } }
    }

    /// The same kinds, marked as unable to fail.
    pub fn infallible(self) -> (r: TypeDef)
        ensures
            !r.fallible,
            r.kind == self.kind,
    {
        TypeDef { fallible: false, kind: self.kind }
    }

    /// The same kinds, marked as able to fail.
    pub fn fallible(self) -> (r: TypeDef)
        ensures
            r.fallible,
            r.kind == self.kind,
    {
        TypeDef { fallible: true, kind: self.kind }
    }

    pub fn is_fallible(&self) -> (r: bool)
        ensures
            r == self.fallible,
    {
        self.fallible
    }

    /// The type of a value that comes from either of two branches.
    pub fn merge(self, other: TypeDef) -> (r: TypeDef)
        ensures
            r.fallible == (self.fallible || other.fallible),
            r.kind.null == (self.kind.null || other.kind.null),
            r.kind.boolean == (self.kind.boolean || other.kind.boolean),
            r.kind.integer == (self.kind.integer || other.kind.integer),
    {
        TypeDef {
            fallible: self.fallible || other.fallible,
            kind: Kind {
                null: self.kind.null || other.kind.null,
                boolean: self.kind.boolean || other.kind.boolean,
                integer: self.kind.integer || other.kind.integer,
            },
        }
    }
}

} // verus!
