use vstd::prelude::*;

verus! {

/// One instruction of the virtual machine. Jump distances are measured from
/// the jump's own address: `JumpIfFalse(k)` and `Jump(k)` at address `a` go
/// to `a + k`, `Loop(k)` at address `a` goes to `a - k`.
#[derive(Debug, Clone, PartialEq, Eq)]
pub enum OpCode {
    Nil,
    Return,
    SubtractI32,
    MultiplyI32,
    AddI32,
    DivideI32,
    Equal,
    NotEqual,
    Greater,
    Less,
    GreaterEqual,
    LessEqual,
    And,
    Or,
    Neg,
    Pos,
    Pop,
    ConstantI32(i32),
    ConstantBoolean(bool),
    DefineGlobal(String),
    GetGlobal(String),
    GetLocal(usize),
    SetLocal(usize),
    JumpIfFalse(usize),
    Jump(usize),
    Loop(usize),
}

} // verus!
