use vstd::prelude::*;

verus! {

/// A runtime value of the language, as far as a binding can hold one.
#[derive(Clone, Copy, Debug, PartialEq, Eq, Structural)]
pub enum Value {
    Null,
    Boolean(bool),
    Integer(i64),
}

} // verus!
