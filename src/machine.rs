use crate::error::Error;
use crate::op_code::OpCode;
use crate::value::Value;
use vstd::prelude::*;

verus! {

/// The engine's state in the abstract: operand stack, global table, instruction pointer.
pub ghost struct Machine {
    pub stack: Seq<Value>,
    pub globals: Map<Seq<char>, Value>,
    pub ip: int,
}

/// The state in which the engine starts on a fresh stream.
pub open spec fn initial_machine() -> Machine {
    Machine { stack: Seq::empty(), globals: Map::empty(), ip: 0 }
}

/// Moves to the next instruction with the given stack.
pub open spec fn advance(m: Machine, stack: Seq<Value>) -> Machine {
    Machine { stack, globals: m.globals, ip: m.ip + 1 }
}

/// The result of a binary instruction on operands `a` (pushed first) and `b`.
pub open spec fn binary_result(op: OpCode, a: Value, b: Value, at: usize) -> Result<Value, Error> {
    match (a, b) {
        (Value::I32(x), Value::I32(y)) => {
            let r = match op {
                OpCode::AddI32 => Some(x.checked_add(y)),
                OpCode::SubtractI32 => Some(x.checked_sub(y)),
                OpCode::MultiplyI32 => Some(x.checked_mul(y)),
                OpCode::DivideI32 => Some(x.checked_div(y)),
                _ => None,
            };
            match r {
                Some(Some(v)) => Ok(Value::I32(v)),
                Some(None) => Err(Error::Arithmetic(at)),
                None => match op {
                    OpCode::Equal => Ok(Value::Boolean(x == y)),
                    OpCode::NotEqual => Ok(Value::Boolean(x != y)),
                    OpCode::Greater => Ok(Value::Boolean(x > y)),
                    OpCode::Less => Ok(Value::Boolean(x < y)),
                    OpCode::GreaterEqual => Ok(Value::Boolean(x >= y)),
                    OpCode::LessEqual => Ok(Value::Boolean(x <= y)),
                    _ => Err(Error::KindMismatch(at)),
                },
            }
        },
        (Value::Boolean(x), Value::Boolean(y)) => match op {
            OpCode::Equal => Ok(Value::Boolean(x == y)),
            OpCode::NotEqual => Ok(Value::Boolean(x != y)),
            OpCode::And => Ok(Value::Boolean(x && y)),
            OpCode::Or => Ok(Value::Boolean(x || y)),
            _ => Err(Error::KindMismatch(at)),
        },
        (Value::Nil, Value::Nil) => match op {
            OpCode::Equal => Ok(Value::Boolean(true)),
            OpCode::NotEqual => Ok(Value::Boolean(false)),
            _ => Err(Error::KindMismatch(at)),
        },
        _ => Err(Error::KindMismatch(at)),
    }
}

/// The result of a unary instruction on operand `a`.
pub open spec fn unary_result(op: OpCode, a: Value, at: usize) -> Result<Value, Error> {
    match a {
        Value::I32(x) => match op {
            OpCode::Neg => if x == i32::MIN {
                Err(Error::Arithmetic(at))
            } else {
                Ok(Value::I32((-x) as i32))
            },
            _ => Ok(Value::I32(x)),
        },
        _ => Err(Error::KindMismatch(at)),
    }
}

pub open spec fn is_binary(op: OpCode) -> bool {
    match op {
        OpCode::AddI32 | OpCode::SubtractI32 | OpCode::MultiplyI32 | OpCode::DivideI32
        | OpCode::Equal | OpCode::NotEqual | OpCode::Greater | OpCode::Less
        | OpCode::GreaterEqual | OpCode::LessEqual | OpCode::And | OpCode::Or => true,
        _ => false,
    }
}

/// One fetch-decode-execute step of the instruction at `m.ip`.
pub open spec fn step(ops: Seq<OpCode>, m: Machine) -> Result<Machine, Error>
    recommends
        0 <= m.ip < ops.len(),
{
    let at = m.ip as usize;
    let s = m.stack;
    let n = s.len();
    let op = ops[m.ip];
    if is_binary(op) {
        if n < 2 {
            Err(Error::StackUnderflow(at))
        } else {
            match binary_result(op, s[n - 2], s[n - 1], at) {
                Ok(v) => Ok(advance(m, s.subrange(0, n - 2).push(v))),
                Err(e) => Err(e),
            }
        }
    } else {
        match op {
            OpCode::ConstantI32(i) => Ok(advance(m, s.push(Value::I32(i)))),
            OpCode::ConstantBoolean(b) => Ok(advance(m, s.push(Value::Boolean(b)))),
            OpCode::Nil => Ok(advance(m, s.push(Value::Nil))),
            OpCode::Pop | OpCode::Return => Ok(
                advance(
                    m,
                    if n > 0 {
                        s.drop_last()
                    } else {
                        s
                    },
                ),
            ),
            OpCode::Neg | OpCode::Pos => {
                if n < 1 {
                    Err(Error::StackUnderflow(at))
                } else {
                    match unary_result(op, s[n - 1], at) {
                        Ok(v) => Ok(advance(m, s.drop_last().push(v))),
                        Err(e) => Err(e),
                    }
                }
            },
            OpCode::DefineGlobal(name) => {
                if n < 1 {
                    Err(Error::StackUnderflow(at))
                } else {
                    Ok(
                        Machine {
                            stack: s.drop_last(),
                            globals: m.globals.insert(name@, s[n - 1]),
                            ip: m.ip + 1,
                        },
                    )
                }
            },
            OpCode::GetGlobal(name) => {
                if m.globals.contains_key(name@) {
                    Ok(advance(m, s.push(m.globals[name@])))
                } else {
                    Err(Error::UndefinedVariable(name))
                }
            },
            OpCode::GetLocal(idx) => {
                if idx < n {
                    Ok(advance(m, s.push(s[idx as int])))
                } else {
                    Err(Error::BadSlot(at))
                }
            },
            OpCode::SetLocal(idx) => {
                if idx < n {
                    Ok(advance(m, s.update(idx as int, s[n - 1])))
                } else {
                    Err(Error::BadSlot(at))
                }
            },
            OpCode::JumpIfFalse(off) => {
                if n < 1 {
                    Err(Error::StackUnderflow(at))
                } else {
                    match s[n - 1] {
                        Value::Boolean(true) => Ok(advance(m, s)),
                        Value::Boolean(false) => {
                            if m.ip + off <= ops.len() {
                                Ok(Machine { ip: m.ip + off, ..m })
                            } else {
                                Err(Error::BadJump(at))
                            }
                        },
                        _ => Err(Error::KindMismatch(at)),
                    }
                }
            },
            OpCode::Jump(off) => {
                if m.ip + off <= ops.len() {
                    Ok(Machine { ip: m.ip + off, ..m })
                } else {
                    Err(Error::BadJump(at))
                }
            },
            OpCode::Loop(off) => {
                if off <= m.ip {
                    Ok(Machine { ip: m.ip - off, ..m })
                } else {
                    Err(Error::BadJump(at))
                }
            },
            _ => Err(Error::KindMismatch(at)),
        }
    }
}

/// Runs the engine from `m` for at most `fuel` steps: the state in which the
/// instruction pointer leaves the stream, or the first error.
pub open spec fn run(ops: Seq<OpCode>, m: Machine, fuel: nat) -> Result<Machine, Error>
    decreases fuel,
{
    if m.ip < 0 || m.ip >= ops.len() {
        Ok(m)
    } else if fuel == 0 {
        Err(Error::StepLimit)
    } else {
        match step(ops, m) {
            Ok(next) => run(ops, next, (fuel - 1) as nat),
            Err(e) => Err(e),
        }
    }
}


/// Two constants followed by an arithmetic instruction leave exactly the
/// checked result on the stack, or fail with an arithmetic error at the
/// operator's address when the result does not fit or the divisor is zero.
pub proof fn lemma_constant_arithmetic(a: i32, b: i32, op: OpCode, fuel: nat)
    requires
        op is AddI32 || op is SubtractI32 || op is MultiplyI32 || op is DivideI32,
        fuel >= 3,
    ensures
        ({
            let r = run(seq![OpCode::ConstantI32(a), OpCode::ConstantI32(b), op], initial_machine(), fuel);
            let checked = match op {
                OpCode::AddI32 => a.checked_add(b),
                OpCode::SubtractI32 => a.checked_sub(b),
                OpCode::MultiplyI32 => a.checked_mul(b),
                _ => a.checked_div(b),
            };
            match checked {
                Some(v) => r == Ok::<Machine, Error>(Machine { stack: seq![Value::I32(v)], globals: Map::empty(), ip: 3 }),
                None => r == Err::<Machine, Error>(Error::Arithmetic(2)),
            }
        }),
        op is AddI32 && i32::MIN <= a + b <= i32::MAX ==> a.checked_add(b) == Some((a + b) as i32),
        op is SubtractI32 && i32::MIN <= a - b <= i32::MAX ==> a.checked_sub(b) == Some((a - b) as i32),
        op is MultiplyI32 && i32::MIN <= a * b <= i32::MAX ==> a.checked_mul(b) == Some((a * b) as i32),
{
    let ops = seq![OpCode::ConstantI32(a), OpCode::ConstantI32(b), op];
    let m0 = initial_machine();
    let m1 = advance(m0, m0.stack.push(Value::I32(a)));
    let m2 = advance(m1, m1.stack.push(Value::I32(b)));
    assert(step(ops, m0) == Ok::<Machine, Error>(m1));
    assert(step(ops, m1) == Ok::<Machine, Error>(m2));
    assert(m2.stack =~= seq![Value::I32(a), Value::I32(b)]);
    assert(m2.stack.subrange(0, 0) =~= Seq::<Value>::empty());
    assert(Seq::<Value>::empty().push(Value::I32(0)) =~= seq![Value::I32(0)]);
    reveal_with_fuel(run, 4);
    match binary_result(op, Value::I32(a), Value::I32(b), 2) {
        Ok(v) => {
            let m3 = advance(m2, m2.stack.subrange(0, 0).push(v));
            assert(m3.stack =~= seq![v]);
            assert(run(ops, m3, (fuel - 3) as nat) == Ok::<Machine, Error>(m3));
        },
        Err(_) => {},
    }
}

/// An arithmetic, comparison or logical instruction whose two operands are an
/// integer and a boolean fails with a kind mismatch at its own address.
pub proof fn lemma_kind_mismatch(ops: Seq<OpCode>, m: Machine)
    requires
        0 <= m.ip < ops.len(),
        is_binary(ops[m.ip]),
        m.stack.len() >= 2,
        (m.stack[m.stack.len() - 2] is I32 && m.stack[m.stack.len() - 1] is Boolean)
            || (m.stack[m.stack.len() - 2] is Boolean && m.stack[m.stack.len() - 1] is I32),
    ensures
        step(ops, m) == Err::<Machine, Error>(Error::KindMismatch(m.ip as usize)),
        forall|fuel: nat| fuel > 0 ==> #[trigger] run(ops, m, fuel) == Err::<Machine, Error>(Error::KindMismatch(m.ip as usize)),
{
    assert forall|fuel: nat| fuel > 0 implies #[trigger] run(ops, m, fuel) == Err::<Machine, Error>(Error::KindMismatch(m.ip as usize)) by {
        reveal_with_fuel(run, 1);
    }
}


/// The state after exactly `k` successful steps from `m`, if every one of
/// them starts inside the stream and succeeds.
pub open spec fn steps(ops: Seq<OpCode>, m: Machine, k: nat) -> Option<Machine>
    decreases k,
{
    if k == 0 {
        Some(m)
    } else if 0 <= m.ip < ops.len() {
        match step(ops, m) {
            Ok(next) => steps(ops, next, (k - 1) as nat),
            Err(_) => None,
        }
    } else {
        None
    }
}

/// Steps compose: `a` steps then `b` steps are `a + b` steps.
pub proof fn lemma_steps_compose(ops: Seq<OpCode>, m: Machine, a: nat, b: nat)
    requires
        steps(ops, m, a) is Some,
    ensures
        steps(ops, m, a + b) == steps(ops, steps(ops, m, a)->Some_0, b),
    decreases a,
{
    if a > 0 {
        let next = step(ops, m)->Ok_0;
        lemma_steps_compose(ops, next, (a - 1) as nat, b);
        assert((a + b - 1) as nat == (a - 1) as nat + b);
    }
}

/// However long it may run, the engine started at `m` reaches `through`
/// after its first `k` steps.
pub open spec fn runs_through(ops: Seq<OpCode>, m: Machine, through: Machine, k: nat) -> bool {
    forall|fuel: nat| fuel >= k ==> #[trigger] run(ops, m, fuel) == run(ops, through, (fuel - k) as nat)
}

/// Running from `m` goes through the state that `k` steps reach.
pub proof fn lemma_run_through(ops: Seq<OpCode>, m: Machine, k: nat, fuel: nat)
    requires
        steps(ops, m, k) is Some,
        fuel >= k,
    ensures
        run(ops, m, fuel) == run(ops, steps(ops, m, k)->Some_0, (fuel - k) as nat),
    decreases k,
{
    if k > 0 {
        let next = step(ops, m)->Ok_0;
        lemma_run_through(ops, next, (k - 1) as nat, (fuel - 1) as nat);
    }
}

} // verus!
