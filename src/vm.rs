use crate::error::Error;
use crate::globals::GlobalTable;
use crate::machine::{binary_result, is_binary, run, step, unary_result, Machine};
use crate::op_code::OpCode;
use crate::value::Value;
use std::ops::Range;
use vstd::prelude::*;

verus! {

fn is_binary_op(op: &OpCode) -> (r: bool)
    ensures
        r == is_binary(*op),
{
    match op {
        OpCode::AddI32 | OpCode::SubtractI32 | OpCode::MultiplyI32 | OpCode::DivideI32
        | OpCode::Equal | OpCode::NotEqual | OpCode::Greater | OpCode::Less
        | OpCode::GreaterEqual | OpCode::LessEqual | OpCode::And | OpCode::Or => true,
        _ => false,
    }
}

/// Applies a binary instruction to operands `a` (pushed first) and `b`.
pub fn binary_op(op: &OpCode, a: Value, b: Value, at: usize) -> (r: Result<Value, Error>)
    ensures
        r == binary_result(*op, a, b, at),
{
    match (a, b) {
        (Value::I32(x), Value::I32(y)) => {
            let r = match op {
                OpCode::AddI32 => Some(x.checked_add(y)),
                OpCode::SubtractI32 => Some(x.checked_sub(y)),
                OpCode::MultiplyI32 => Some(x.checked_mul(y)),
                OpCode::DivideI32 => Some(x.checked_div(y)),
                _ => None,
            };
            match r {
                Some(Some(v)) => Ok(Value::I32(v)),
                Some(None) => Err(Error::Arithmetic(at)),
                None => match op {
                    OpCode::Equal => Ok(Value::Boolean(x == y)),
                    OpCode::NotEqual => Ok(Value::Boolean(x != y)),
                    OpCode::Greater => Ok(Value::Boolean(x > y)),
                    OpCode::Less => Ok(Value::Boolean(x < y)),
                    OpCode::GreaterEqual => Ok(Value::Boolean(x >= y)),
                    OpCode::LessEqual => Ok(Value::Boolean(x <= y)),
                    _ => Err(Error::KindMismatch(at)),
                },
            }
        },
        (Value::Boolean(x), Value::Boolean(y)) => match op {
            OpCode::Equal => Ok(Value::Boolean(x == y)),
            OpCode::NotEqual => Ok(Value::Boolean(x != y)),
            OpCode::And => Ok(Value::Boolean(x && y)),
            OpCode::Or => Ok(Value::Boolean(x || y)),
            _ => Err(Error::KindMismatch(at)),
        },
        (Value::Nil, Value::Nil) => match op {
            OpCode::Equal => Ok(Value::Boolean(true)),
            OpCode::NotEqual => Ok(Value::Boolean(false)),
            _ => Err(Error::KindMismatch(at)),
        },
        _ => Err(Error::KindMismatch(at)),
    }
}

/// Applies `Neg` or `Pos` to operand `a`.
pub fn unary_op(op: &OpCode, a: Value, at: usize) -> (r: Result<Value, Error>)
    ensures
        r == unary_result(*op, a, at),
{
    match a {
        Value::I32(x) => match op {
            OpCode::Neg => if x == i32::MIN {
                Err(Error::Arithmetic(at))
            } else {
                Ok(Value::I32(-x))
            },
            _ => Ok(Value::I32(x)),
        },
        _ => Err(Error::KindMismatch(at)),
    }
}

/// The number of steps after which `exec` gives up.
pub const STEP_LIMIT: u64 = 0xffff_ffff_ffff_ffff;

/// The compiler's view of its lexical state: the live locals, each a name
/// with the depth of the scope that declared it, and the current depth.
pub ghost struct Scope {
    pub locals: Seq<(Seq<char>, nat)>,
    pub depth: nat,
}

impl Scope {
    /// Locals are declared inside some scope, in scopes of non-decreasing
    /// depth, none deeper than the current one.
    pub open spec fn wf(self) -> bool {
        &&& forall|i: int| 0 <= i < self.locals.len() ==> 1 <= #[trigger] self.locals[i].1 <= self.depth
        &&& forall|i: int, j: int|
            0 <= i < j < self.locals.len() ==> #[trigger] self.locals[i].1 <= #[trigger] self.locals[j].1
    }

    /// `name` is already declared in the innermost scope.
    pub open spec fn declared_here(self, name: Seq<char>) -> bool {
        exists|i: int|
            0 <= i < self.locals.len() && #[trigger] self.locals[i].1 == self.depth && self.locals[i].0
                == name
    }

    /// How many locals outlive the scope of depth `d + 1`.
    pub open spec fn kept(self, d: nat) -> nat {
        kept_count(self.locals, d)
    }
}

/// The length of the prefix of `locals` that is left once every local of
/// depth above `d`, at the end of the list, is dropped.
pub open spec fn kept_count(locals: Seq<(Seq<char>, nat)>, d: nat) -> nat
    decreases locals.len(),
{
    if locals.len() == 0 {
        0
    } else if locals.last().1 <= d {
        locals.len()
    } else {
        kept_count(locals.drop_last(), d)
    }
}

proof fn lemma_kept_count_bound(locals: Seq<(Seq<char>, nat)>, d: nat)
    ensures
        kept_count(locals, d) <= locals.len(),
        locals.len() > 0 && kept_count(locals, d) == locals.len() ==> locals.last().1 <= d,
    decreases locals.len(),
{
    if locals.len() > 0 && locals.last().1 > d {
        lemma_kept_count_bound(locals.drop_last(), d);
    }
}

/// The slot of the most recently declared local called `name`.
pub open spec fn resolve(locals: Seq<(Seq<char>, nat)>, name: Seq<char>) -> Option<nat>
    decreases locals.len(),
{
    if locals.len() == 0 {
        None
    } else if locals.last().0 == name {
        Some((locals.len() - 1) as nat)
    } else {
        resolve(locals.drop_last(), name)
    }
}

/// `longer` is `shorter` with possibly more elements after it.
pub open spec fn extends<T>(longer: Seq<T>, shorter: Seq<T>) -> bool {
    &&& shorter.len() <= longer.len()
    &&& forall|i: int| 0 <= i < shorter.len() ==> #[trigger] longer[i] == shorter[i]
}

/// `n` copies of `Pop`.
pub open spec fn pops(n: nat) -> Seq<OpCode> {
    Seq::new(n, |i: int| OpCode::Pop)
}

struct Local {
    name: String,
    depth: usize,
}

struct Compiler {
    locals: Vec<Local>,
    scope_depth: usize,
}

impl Compiler {
    pub closed spec fn scope(&self) -> Scope {
        Scope {
            locals: self.locals@.map_values(|l: Local| (l.name@, l.depth as nat)),
            depth: self.scope_depth as nat,
        }
    }

    /// The number of live locals.
    pub fn local_count(&self) -> (r: usize)
        ensures
            r == self.scope().locals.len(),
    {
        self.locals.len()
    }
}

/// The bytecode compiler's state together with the engine that runs what it emits.
pub struct Vm {
    operations: Vec<OpCode>,
    line_number: Vec<Range<usize>>,
    stack: Vec<Value>,
    globals: GlobalTable,
    compiler: Compiler,
    ip: usize,
}

impl Vm {
    /// The engine's tables are consistent and the compiler's scope state is well formed.
    /// Every instruction has exactly one source span, and the compiler's
    /// scope state is well formed.
    pub open spec fn wf(&self) -> bool {
        &&& self.spans().len() == self.ops().len()
        &&& self.scope().wf()
    }

    /// The instruction stream emitted so far.
    pub closed spec fn ops(&self) -> Seq<OpCode> {
        self.operations@
    }

    /// The source span recorded with each instruction.
    pub closed spec fn spans(&self) -> Seq<Range<usize>> {
        self.line_number@
    }

    /// The compiler's scope state.
    pub closed spec fn scope(&self) -> Scope {
        self.compiler.scope()
    }

    /// The engine's state.
    pub closed spec fn machine(&self) -> Machine {
        Machine { stack: self.stack@, globals: self.globals.view(), ip: self.ip as int }
    }

    pub fn new() -> (r: Self)
        ensures
            r.wf(),
            r.ops() == Seq::<OpCode>::empty(),
            r.scope() == (Scope { locals: Seq::empty(), depth: 0 }),
            r.machine() == crate::machine::initial_machine(),
    {
        let r = Vm {
            operations: Vec::new(),
            line_number: Vec::new(),
            stack: Vec::new(),
            globals: GlobalTable::new(),
            compiler: Compiler { locals: Vec::new(), scope_depth: 0 },
            ip: 0,
        };
        assert(r.scope().locals =~= Seq::empty());
        assert(r.machine().stack =~= Seq::empty());
        r
    }

    pub fn operations(&self) -> (r: &Vec<OpCode>)
        ensures
            r@ == self.ops(),
    {
        &self.operations
    }

    pub fn stack(&self) -> (r: &Vec<Value>)
        ensures
            r@ == self.machine().stack,
    {
        &self.stack
    }

    /// The source span recorded with the instruction at `at`, the address
    /// that a runtime error names.
    pub fn span_at(&self, at: usize) -> (r: Option<Range<usize>>)
        requires
            self.wf(),
        ensures
            r == (if at < self.spans().len() {
                Some(self.spans()[at as int])
            } else {
                None::<Range<usize>>
            }),
    {
        if at < self.line_number.len() {
            let span = &self.line_number[at];
            Some(Range { start: span.start, end: span.end })
        } else {
            None
        }
    }

    pub fn scope_depth(&self) -> (r: usize)
        ensures
            r == self.scope().depth,
    {
        self.compiler.scope_depth
    }

    /// The number of live locals.
    pub fn local_count(&self) -> (r: usize)
        ensures
            r == self.scope().locals.len(),
    {
        self.compiler.local_count()
    }

    /// Appends one instruction and its source span.
    pub fn add_instruction(&mut self, op: OpCode, span: Range<usize>)
        requires
            old(self).wf(),
        ensures
            final(self).wf(),
            final(self).ops() == old(self).ops().push(op),
            final(self).spans() == old(self).spans().push(span),
            final(self).scope() == old(self).scope(),
            final(self).machine() == old(self).machine(),
    {
        self.operations.push(op);
        self.line_number.push(span);
    }

    /// Appends one instruction and its source span.
    pub fn add_operation(&mut self, op: OpCode, span: Range<usize>)
        requires
            old(self).wf(),
        ensures
            final(self).wf(),
            final(self).ops() == old(self).ops().push(op),
            final(self).spans() == old(self).spans().push(span),
            final(self).scope() == old(self).scope(),
            final(self).machine() == old(self).machine(),
    {
        self.add_instruction(op, span);
    }

    /// Runs the stream from the current instruction pointer until it leaves
    /// the stream, an instruction fails, or `STEP_LIMIT` steps have run.
    pub fn exec(&mut self) -> (r: Result<(), Error>)
        requires
            old(self).wf(),
        ensures
            final(self).wf(),
            final(self).ops() == old(self).ops(),
            final(self).spans() == old(self).spans(),
            final(self).scope() == old(self).scope(),
            match run(old(self).ops(), old(self).machine(), STEP_LIMIT as nat) {
                Ok(m) => r is Ok && final(self).machine() == m,
                Err(e) => r == Err::<(), Error>(e),
            },
    {
        let mut fuel: u64 = STEP_LIMIT;
        while self.ip < self.operations.len()
            invariant
                self.wf(),
                self.ops() == old(self).ops(),
                self.spans() == old(self).spans(),
                self.scope() == old(self).scope(),
                run(self.ops(), self.machine(), fuel as nat) == run(
                    old(self).ops(),
                    old(self).machine(),
                    STEP_LIMIT as nat,
                ),
            decreases fuel,
        {
            if fuel == 0 {
                return Err(Error::StepLimit);
            }
            match self.step() {
                Ok(()) => {},
                Err(e) => {
                    return Err(e);
                },
            }
            fuel = fuel - 1;
        }
        Ok(())
    }

    /// Executes the instruction at the instruction pointer.
    fn step(&mut self) -> (r: Result<(), Error>)
        requires
            old(self).wf(),
            old(self).ip < old(self).operations@.len(),
        ensures
            final(self).wf(),
            final(self).ops() == old(self).ops(),
            final(self).spans() == old(self).spans(),
            final(self).scope() == old(self).scope(),
            match step(old(self).ops(), old(self).machine()) {
                Ok(m) => r is Ok && final(self).machine() == m,
                Err(e) => r == Err::<(), Error>(e),
            },
    {
        let at = self.ip;
        let n = self.stack.len();
        let len = self.operations.len();
        let op = &self.operations[at];
        if is_binary_op(op) {
            if n < 2 {
                return Err(Error::StackUnderflow(at));
            }
            let a = self.stack[n - 2];
            let b = self.stack[n - 1];
            match binary_op(op, a, b, at) {
                Ok(v) => {
                    self.stack.pop();
                    self.stack.pop();
                    self.stack.push(v);
                    assert(self.stack@ =~= old(self).stack@.subrange(0, n - 2).push(v));
                },
                Err(e) => {
                    return Err(e);
                },
            }
            self.ip = at + 1;
            return Ok(());
        }
        match op {
            OpCode::ConstantI32(i) => {
                self.stack.push(Value::I32(*i));
            },
            OpCode::ConstantBoolean(b) => {
                self.stack.push(Value::Boolean(*b));
            },
            OpCode::Nil => {
                self.stack.push(Value::Nil);
            },
            OpCode::Pop | OpCode::Return => {
                self.stack.pop();
            },
            OpCode::Neg | OpCode::Pos => {
                if n < 1 {
                    return Err(Error::StackUnderflow(at));
                }
                let a = self.stack[n - 1];
                match unary_op(op, a, at) {
                    Ok(v) => {
                        self.stack.pop();
                        self.stack.push(v);
                    },
                    Err(e) => {
                        return Err(e);
                    },
                }
            },
            OpCode::DefineGlobal(name) => {
                match self.stack.pop() {
                    Some(v) => {
                        self.globals.insert(name.clone(), v);
                    },
                    None => {
                        return Err(Error::StackUnderflow(at));
                    },
                }
            },
            OpCode::GetGlobal(name) => {
                match self.globals.get(name) {
                    Some(v) => {
                        self.stack.push(v);
                    },
                    None => {
                        return Err(Error::UndefinedVariable(name.clone()));
                    },
                }
            },
            OpCode::GetLocal(idx) => {
                if *idx >= n {
                    return Err(Error::BadSlot(at));
                }
                let v = self.stack[*idx];
                self.stack.push(v);
            },
            OpCode::SetLocal(idx) => {
                if *idx >= n {
                    return Err(Error::BadSlot(at));
                }
                let v = self.stack[n - 1];
                self.stack.set(*idx, v);
            },
            OpCode::JumpIfFalse(off) => {
                if n < 1 {
                    return Err(Error::StackUnderflow(at));
                }
                match self.stack[n - 1] {
                    Value::Boolean(true) => {},
                    Value::Boolean(false) => {
                        if *off > len - at {
                            return Err(Error::BadJump(at));
                        }
                        self.ip = at + *off;
                        return Ok(());
                    },
                    _ => {
                        return Err(Error::KindMismatch(at));
                    },
                }
            },
            OpCode::Jump(off) => {
                if *off > len - at {
                    return Err(Error::BadJump(at));
                }
                self.ip = at + *off;
                return Ok(());
            },
            OpCode::Loop(off) => {
                if *off > at {
                    return Err(Error::BadJump(at));
                }
                self.ip = at - *off;
                return Ok(());
            },
            _ => {
                return Err(Error::KindMismatch(at));
            },
        }
        self.ip = at + 1;
        Ok(())
    }

    /// Enters a nested scope.
    pub fn begin_scope(&mut self)
        requires
            old(self).wf(),
            old(self).scope().depth < usize::MAX,
        ensures
            final(self).wf(),
            final(self).scope() == (Scope { depth: old(self).scope().depth + 1, ..old(self).scope() }),
            final(self).ops() == old(self).ops(),
            final(self).spans() == old(self).spans(),
            final(self).machine() == old(self).machine(),
    {
        self.compiler.scope_depth = self.compiler.scope_depth + 1;
        assert(self.scope().locals =~= old(self).scope().locals);
    }

    /// Leaves the innermost scope: every local declared in it is dropped,
    /// last declared first, with one `Pop` emitted for each.
    pub fn end_scope(&mut self)
        requires
            old(self).wf(),
            old(self).scope().depth > 0,
        ensures
            final(self).wf(),
            final(self).scope().depth == old(self).scope().depth - 1,
            final(self).scope().locals == old(self).scope().locals.subrange(
                0,
                old(self).scope().kept((old(self).scope().depth - 1) as nat) as int,
            ),
            final(self).ops() == old(self).ops() + pops(
                (old(self).scope().locals.len() - old(self).scope().kept(
                    (old(self).scope().depth - 1) as nat,
                )) as nat,
            ),
            extends(final(self).spans(), old(self).spans()),
            final(self).machine() == old(self).machine(),
    {
        self.compiler.scope_depth = self.compiler.scope_depth - 1;
        let depth = self.compiler.scope_depth;
        let ghost d = depth as nat;
        let ghost all = old(self).scope().locals;
        let mut done = false;
        while !done && self.compiler.locals.len() > 0
            invariant
                done ==> kept_count(self.scope().locals, d) == self.scope().locals.len(),
                d == depth as nat,
                all == old(self).scope().locals,
                self.globals == old(self).globals,
                self.stack == old(self).stack,
                self.ip == old(self).ip,
                self.line_number@.len() == self.operations@.len(),
                extends(self.spans(), old(self).spans()),
                self.compiler.scope_depth == depth,
                depth + 1 == old(self).scope().depth,
                self.compiler.locals@.len() <= all.len(),
                self.scope().locals == all.subrange(0, self.compiler.locals@.len() as int),
                kept_count(self.scope().locals, d) == kept_count(all, d),
                self.ops() == old(self).ops() + pops((all.len() - self.compiler.locals@.len()) as nat),
                old(self).scope().wf(),
            decreases self.compiler.locals@.len() + if done { 0int } else { 1int },
        {
            let k = self.compiler.locals.len();
            let ghost pre = self.scope().locals;
            assert(pre.last().1 == self.compiler.locals@[k - 1].depth);
            assert(pre.len() == k);
            if self.compiler.locals[k - 1].depth <= depth {
                assert(pre.len() > 0);
                assert(pre.last().1 <= d);
                assert(kept_count(pre, d) == pre.len());
                done = true;
                continue;
            }
            assert(kept_count(pre, d) == kept_count(pre.drop_last(), d));
            self.operations.push(OpCode::Pop);
            self.line_number.push(Range { start: 0, end: 0 });
            self.compiler.locals.pop();
            assert(self.scope().locals =~= all.subrange(0, k - 1));
            assert(all.subrange(0, k as int).drop_last() =~= all.subrange(0, k - 1));
            assert(self.ops() =~= old(self).ops() + pops((all.len() - (k - 1)) as nat));
        }
        proof {
            let ls = self.scope().locals;
            lemma_kept_count_bound(ls, d);
            if ls.len() > 0 {
                assert forall|i: int| 0 <= i < ls.len() implies 1 <= #[trigger] ls[i].1 <= d by {
                    assert(ls[i] == all[i]);
                    if i < ls.len() - 1 {
                        assert(all[i].1 <= all[ls.len() - 1].1);
                    }
                }
            }
            assert(self.scope().wf());
        }
    }

    /// Whether `name` is already declared in the innermost scope.
    fn declared_in_scope(&self, name: &String) -> (r: bool)
        requires
            self.wf(),
        ensures
            r == self.scope().declared_here(name@),
    {
        let depth = self.compiler.scope_depth;
        let mut i = self.compiler.locals.len();
        let ghost ls = self.scope().locals;
        while i > 0
            invariant
                i <= ls.len(),
                ls == self.scope().locals,
                self.scope().wf(),
                depth == self.scope().depth,
                forall|j: int| i <= j < ls.len() ==> !(#[trigger] ls[j].1 == depth && ls[j].0 == name@),
            decreases i,
        {
            let local = &self.compiler.locals[i - 1];
            assert(ls[i - 1] == (local.name@, local.depth as nat));
            if local.depth < depth {
                assert forall|j: int| 0 <= j < i implies !(#[trigger] ls[j].1 == depth && ls[j].0
                    == name@) by {
                    if j < i - 1 {
                        assert(ls[j].1 <= ls[i - 1].1);
                    }
                }
                return false;
            }
            if local.name == *name {
                assert(ls[i - 1].1 == depth);
                return true;
            }
            i = i - 1;
        }
        false
    }

    /// Declares a variable: a local of the innermost scope when inside one,
    /// otherwise a global, defined by an emitted `DefineGlobal`.
    pub fn define_variable(&mut self, name: String, range: Range<usize>) -> (r: Result<(), Error>)
        requires
            old(self).wf(),
        ensures
            final(self).wf(),
            final(self).machine() == old(self).machine(),
            old(self).scope().depth > 0 ==> if old(self).scope().declared_here(name@) {
                &&& r == Err::<(), Error>(Error::DuplicateDeclaration(name))
                &&& final(self).scope() == old(self).scope()
                &&& final(self).ops() == old(self).ops()
                &&& final(self).spans() == old(self).spans()
            } else {
                &&& r is Ok
                &&& final(self).scope() == (Scope {
                    locals: old(self).scope().locals.push((name@, old(self).scope().depth)),
                    ..old(self).scope()
                })
                &&& final(self).ops() == old(self).ops()
                &&& final(self).spans() == old(self).spans()
            },
            old(self).scope().depth == 0 ==> {
                &&& r is Ok
                &&& final(self).scope() == old(self).scope()
                &&& final(self).ops() == old(self).ops().push(OpCode::DefineGlobal(name))
                &&& final(self).spans() == old(self).spans().push(range)
            },
    {
        if self.compiler.scope_depth > 0 {
            if self.declared_in_scope(&name) {
                return Err(Error::DuplicateDeclaration(name));
            }
            let depth = self.compiler.scope_depth;
            self.compiler.locals.push(Local { name, depth });
            assert(self.scope().locals =~= old(self).scope().locals.push((name@, depth as nat)));
        } else {
            self.add_instruction(OpCode::DefineGlobal(name), range);
        }
        Ok(())
    }

    /// The slot of the most recently declared local called `name`.
    pub fn resolve_local(&self, name: &String) -> (r: Option<usize>)
        ensures
            resolve(self.scope().locals, name@) == match r {
                Some(i) => Some(i as nat),
                None => None::<nat>,
            },
    {
        let mut i = self.compiler.locals.len();
        let ghost ls = self.scope().locals;
        assert(ls.subrange(0, i as int) =~= ls);
        while i > 0
            invariant
                i <= ls.len(),
                ls == self.scope().locals,
                resolve(ls, name@) == resolve(ls.subrange(0, i as int), name@),
            decreases i,
        {
            assert(ls.subrange(0, i as int).drop_last() =~= ls.subrange(0, i - 1));
            if self.compiler.locals[i - 1].name == *name {
                return Some(i - 1);
            }
            i = i - 1;
        }
        None
    }

    /// Appends a forward jump whose distance is filled in later; returns its address.
    pub fn emit_jump(&mut self, op: OpCode, range: Range<usize>) -> (r: usize)
        requires
            old(self).wf(),
        ensures
            final(self).wf(),
            r == old(self).ops().len(),
            final(self).ops() == old(self).ops().push(op),
            final(self).spans() == old(self).spans().push(range),
            final(self).scope() == old(self).scope(),
            final(self).machine() == old(self).machine(),
    {
        self.add_instruction(op, range);
        self.operations.len() - 1
    }

    /// Backpatches the conditional jump at `index`; anything but a `JumpIfFalse` there is refused.
    /// Its distance, counted from its own address, becomes the distance to
    /// the end of the stream.
    pub fn patch_jump(&mut self, index: usize) -> (r: Result<(), Error>)
        requires
            old(self).wf(),
        ensures
            final(self).wf(),
            final(self).scope() == old(self).scope(),
            final(self).machine() == old(self).machine(),
            final(self).spans() == old(self).spans(),
            if index < old(self).ops().len() && old(self).ops()[index as int] is JumpIfFalse {
                &&& r is Ok
                &&& final(self).ops() == old(self).ops().update(
                    index as int,
                    OpCode::JumpIfFalse((old(self).ops().len() - index) as usize),
                )
            } else {
                &&& r == Err::<(), Error>(Error::BadPatch(index))
                &&& final(self).ops() == old(self).ops()
            },
    {
        let len = self.operations.len();
        if index >= len {
            return Err(Error::BadPatch(index));
        }
        match &self.operations[index] {
            OpCode::JumpIfFalse(_) => {},
            _ => {
                return Err(Error::BadPatch(index));
            },
        }
        self.operations.set(index, OpCode::JumpIfFalse(len - index));
        Ok(())
    }

    /// Backpatches the unconditional jump at `index`; anything but a `Jump` there is refused.
    /// Its distance, counted from its own address, becomes the distance to
    /// the end of the stream.
    pub fn patch_else_jump(&mut self, index: usize) -> (r: Result<(), Error>)
        requires
            old(self).wf(),
        ensures
            final(self).wf(),
            final(self).scope() == old(self).scope(),
            final(self).machine() == old(self).machine(),
            final(self).spans() == old(self).spans(),
            if index < old(self).ops().len() && old(self).ops()[index as int] is Jump {
                &&& r is Ok
                &&& final(self).ops() == old(self).ops().update(
                    index as int,
                    OpCode::Jump((old(self).ops().len() - index) as usize),
                )
            } else {
                &&& r == Err::<(), Error>(Error::BadPatch(index))
                &&& final(self).ops() == old(self).ops()
            },
    {
        let len = self.operations.len();
        if index >= len {
            return Err(Error::BadPatch(index));
        }
        match &self.operations[index] {
            OpCode::Jump(_) => {},
            _ => {
                return Err(Error::BadPatch(index));
            },
        }
        self.operations.set(index, OpCode::Jump(len - index));
        Ok(())
    }

    /// Appends a backward jump to `loop_start`.
    pub fn emit_loop(&mut self, loop_start: usize, range: Range<usize>)
        requires
            old(self).wf(),
            loop_start <= old(self).ops().len(),
        ensures
            final(self).wf(),
            final(self).ops() == old(self).ops().push(
                OpCode::Loop((old(self).ops().len() - loop_start) as usize),
            ),
            final(self).spans() == old(self).spans().push(range),
            final(self).scope() == old(self).scope(),
            final(self).machine() == old(self).machine(),
    {
        let offset = self.operations.len() - loop_start;
        self.add_instruction(OpCode::Loop(offset), range);
    }
}

} // verus!
