use vstd::prelude::*;

verus! {

/// A runtime value: a 32-bit integer, a boolean, or the absence of a value.
#[derive(Debug, Clone, Copy, PartialEq, Eq, Structural)]
pub enum Value {
    I32(i32),
    Boolean(bool),
    Nil,
}

} // verus!
