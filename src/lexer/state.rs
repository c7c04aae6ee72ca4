use vstd::prelude::*;

verus! {

/// The scanner's states while it reads one token.
#[derive(Clone, Copy, Debug, PartialEq, Eq, Structural)]
pub enum State {
    Start,
    InDivide,
    InNum,
    InId,
    Done,
    InLess,
    InGreat,
    InAssign,
    InNotEqual,
    InComment,
    InEndComment,
}

} // verus!
