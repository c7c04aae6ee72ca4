use vstd::prelude::*;

verus! {

/// Failures of compilation and of execution.
#[derive(Debug, Clone, PartialEq, Eq)]
pub enum Error {
    /// A local was declared twice in one scope.
    DuplicateDeclaration(String),
    /// The program does not end with a function declaration.
    MissingFunction,
    /// The program's last declaration is a function that is not `main`.
    MissingMain,
    /// A construct that the bytecode backend does not compile.
    Unsupported,
    /// An assignment to a name that is no local.
    GlobalAssignment(String),
    /// Blocks nested deeper than the scope counter can count.
    ScopeTooDeep,
    /// A backpatch aimed at an instruction that is not a forward jump.
    BadPatch(usize),
    /// Operands of the wrong kind for the instruction at this address.
    KindMismatch(usize),
    /// Integer overflow or division by zero at this address.
    Arithmetic(usize),
    /// The instruction at this address needs more operands than the stack holds.
    StackUnderflow(usize),
    /// A global read before it was defined.
    UndefinedVariable(String),
    /// A local slot outside the operand stack at this address.
    BadSlot(usize),
    /// A jump at this address leaves the instruction stream.
    BadJump(usize),
    /// The engine ran out of its step budget.
    StepLimit,
}

} // verus!
