use crate::ast::{
    Codespan, CompoundStatement, Declaration, Expression, Factor, IterationStatement, Operation,
    Program, SelectionStatement, Statement, VarDeclaration,
};
use crate::error::Error;
use crate::machine::{lemma_run_through, lemma_steps_compose, run, runs_through, step, steps, Machine};
use crate::op_code::OpCode;
use crate::value::Value;
use crate::vm::{extends, pops, resolve, Scope, Vm};
use std::ops::Range;
use vstd::prelude::*;

verus! {

/// The opcode of an arithmetic or comparison operator.
pub open spec fn binary_opcode(op: Operation) -> Option<OpCode> {
    match op {
        Operation::GT(..) => Some(OpCode::Greater),
        Operation::LT(..) => Some(OpCode::Less),
        Operation::GE(..) => Some(OpCode::GreaterEqual),
        Operation::LE(..) => Some(OpCode::LessEqual),
        Operation::EQ(..) => Some(OpCode::Equal),
        Operation::NE(..) => Some(OpCode::NotEqual),
        Operation::PLUS(..) => Some(OpCode::AddI32),
        Operation::MINUS(..) => Some(OpCode::SubtractI32),
        Operation::MULTIPLY(..) => Some(OpCode::MultiplyI32),
        Operation::DIVIDE(..) => Some(OpCode::DivideI32),
        _ => None,
    }
}

/// The opcode of a logical operator.
pub open spec fn logic_opcode(op: Operation) -> Option<OpCode> {
    match op {
        Operation::AND(..) => Some(OpCode::And),
        Operation::OR(..) => Some(OpCode::Or),
        _ => None,
    }
}

/// The opcode of a unary operator.
pub open spec fn unary_opcode(op: Operation) -> Option<OpCode> {
    match op {
        Operation::NEG(..) => Some(OpCode::Neg),
        Operation::POS(..) => Some(OpCode::Pos),
        _ => None,
    }
}

/// `left`, then `right`, then the operator.
pub open spec fn combine(
    left: Result<Seq<OpCode>, Error>,
    right: Result<Seq<OpCode>, Error>,
    op: Option<OpCode>,
) -> Result<Seq<OpCode>, Error> {
    match left {
        Err(e) => Err(e),
        Ok(l) => match right {
            Err(e) => Err(e),
            Ok(r) => match op {
                Some(o) => Ok(l + r.push(o)),
                None => Err(Error::Unsupported),
            },
        },
    }
}

/// The code of an expression, operands before operators, given the live locals.
pub open spec fn expr_code(e: Expression, locals: Seq<(Seq<char>, nat)>) -> Result<Seq<OpCode>, Error>
    decreases e,
{
    match e {
        Expression::Assignment(a) => match expr_code(*a.rhs, locals) {
            Err(x) => Err(x),
            Ok(r) => if a.lhs.expression is Some {
                Err(Error::Unsupported)
            } else {
                match resolve(locals, a.lhs.id.value@) {
                    Some(i) => Ok(r.push(OpCode::SetLocal(i as usize))),
                    None => Err(Error::GlobalAssignment(a.lhs.id.value)),
                }
            },
        },
        Expression::BinaryExpression(b) => combine(
            expr_code(*b.left, locals),
            expr_code(*b.right, locals),
            binary_opcode(b.operation),
        ),
        Expression::LogicExpression(b) => combine(
            expr_code(*b.left, locals),
            expr_code(*b.right, locals),
            logic_opcode(b.operation),
        ),
        Expression::UnaryExpression(u) => combine(
            Ok(Seq::empty()),
            expr_code(*u.expression, locals),
            unary_opcode(u.operation),
        ),
        Expression::Factor(f) => match f {
            Factor::Expression(inner) => expr_code(*inner, locals),
            Factor::Var(v) => if v.expression is Some {
                Err(Error::Unsupported)
            } else {
                match resolve(locals, v.id.value@) {
                    Some(i) => Ok(seq![OpCode::GetLocal(i as usize)]),
                    None => Ok(seq![OpCode::GetGlobal(v.id.value)]),
                }
            },
            Factor::CallExpression(_) => Err(Error::Unsupported),
            Factor::NumberLiteral(n) => Ok(seq![OpCode::ConstantI32(n.value)]),
            Factor::BooleanLiteral(b) => Ok(seq![OpCode::ConstantBoolean(b.value)]),
        },
    }
}


/// The code of a variable declaration and the scope after it.
pub open spec fn var_decl_code(v: VarDeclaration, sc: Scope) -> Result<(Seq<OpCode>, Scope), Error> {
    if v.num is Some || v.array_initializer is Some {
        Err(Error::Unsupported)
    } else {
        let init = match v.initializer {
            Some(e) => expr_code(e, sc.locals),
            None => Ok(seq![OpCode::Nil]),
        };
        match init {
            Err(e) => Err(e),
            Ok(c) => if sc.depth > 0 {
                if sc.declared_here(v.id.value@) {
                    Err(Error::DuplicateDeclaration(v.id.value))
                } else {
                    Ok((c, Scope { locals: sc.locals.push((v.id.value@, sc.depth)), ..sc }))
                }
            } else {
                Ok((c + seq![OpCode::DefineGlobal(v.id.value), OpCode::Pop], sc))
            },
        }
    }
}

/// The code of a run of declarations, in order, and the scope after them.
pub open spec fn decls_code(ds: Seq<VarDeclaration>, sc: Scope) -> Result<(Seq<OpCode>, Scope), Error>
    decreases ds.len(),
{
    if ds.len() == 0 {
        Ok((Seq::empty(), sc))
    } else {
        match decls_code(ds.drop_last(), sc) {
            Err(e) => Err(e),
            Ok((a, sc1)) => match var_decl_code(ds.last(), sc1) {
                Err(e) => Err(e),
                Ok((b, sc2)) => Ok((a + b, sc2)),
            },
        }
    }
}

/// The code of a block: its declarations in a new scope, its statements,
/// then one `Pop` for each local that the block declared.
pub open spec fn block_code(c: CompoundStatement, sc: Scope) -> Result<Seq<OpCode>, Error>
    decreases c,
{
    if sc.depth >= usize::MAX {
        Err(Error::ScopeTooDeep)
    } else {
        let inner = Scope { depth: sc.depth + 1, ..sc };
        match decls_code(c.local_declaration@, inner) {
            Err(e) => Err(e),
            Ok((dc, sc2)) => match stmts_code(c.statement_list@, sc2) {
                Err(e) => Err(e),
                Ok(body) => Ok(dc + body + pops((sc2.locals.len() - sc.locals.len()) as nat)),
            },
        }
    }
}

/// The code of a run of statements, in order.
pub open spec fn stmts_code(ss: Seq<Statement>, sc: Scope) -> Result<Seq<OpCode>, Error>
    decreases ss,
{
    if ss.len() == 0 {
        Ok(Seq::empty())
    } else {
        match stmts_code(ss.drop_last(), sc) {
            Err(e) => Err(e),
            Ok(a) => match stmt_code(ss.last(), sc) {
                Err(e) => Err(e),
                Ok(b) => Ok(a + b),
            },
        }
    }
}

/// The code of `if (test) then else alt`: the test, a `JumpIfFalse` to the
/// else branch, a `Pop` of the test, the then branch, a `Jump` past the else
/// branch, a `Pop` of the test, the else branch.
pub open spec fn if_code(t: Seq<OpCode>, then: Seq<OpCode>, alt: Seq<OpCode>) -> Seq<OpCode> {
    t + seq![OpCode::JumpIfFalse((then.len() + 3) as usize), OpCode::Pop] + then + seq![
        OpCode::Jump((alt.len() + 2) as usize),
        OpCode::Pop,
    ] + alt
}

/// The code of `while test body`: the test, a `JumpIfFalse` to the exit, a
/// `Pop` of the test, the body, a `Loop` back to the test, and at the exit a
/// `Pop` of the final test value.
pub open spec fn while_code(t: Seq<OpCode>, body: Seq<OpCode>) -> Seq<OpCode> {
    t + seq![OpCode::JumpIfFalse((body.len() + 3) as usize), OpCode::Pop] + body + seq![
        OpCode::Loop((t.len() + body.len() + 2) as usize),
        OpCode::Pop,
    ]
}

/// The code of an `if` statement.
pub open spec fn selection_code(x: SelectionStatement, sc: Scope) -> Result<Seq<OpCode>, Error>
    decreases x,
{
    match expr_code(x.test, sc.locals) {
        Err(e) => Err(e),
        Ok(t) => match stmt_code(*x.consequent, sc) {
            Err(e) => Err(e),
            Ok(c) => match x.alternative {
                Some(alt) => match stmt_code(*alt, sc) {
                    Err(e) => Err(e),
                    Ok(a) => Ok(if_code(t, c, a)),
                },
                None => Ok(if_code(t, c, Seq::empty())),
            },
        },
    }
}

/// The code of a `while` statement.
pub open spec fn iteration_code(w: IterationStatement, sc: Scope) -> Result<Seq<OpCode>, Error>
    decreases w,
{
    match expr_code(w.test, sc.locals) {
        Err(e) => Err(e),
        Ok(t) => match stmt_code(*w.body, sc) {
            Err(e) => Err(e),
            Ok(b) => Ok(while_code(t, b)),
        },
    }
}

/// The code of a statement. An expression statement pops its value, so
/// that the operand stack holds exactly the live locals between statements.
pub open spec fn stmt_code(s: Statement, sc: Scope) -> Result<Seq<OpCode>, Error>
    decreases s,
{
    match s {
        Statement::CompoundStatement(c) => block_code(c, sc),
        Statement::ExpressionStatement(x) => match x.expression {
            Some(e) => match expr_code(e, sc.locals) {
                Err(er) => Err(er),
                Ok(c) => Ok(c.push(OpCode::Pop)),
            },
            None => Ok(Seq::empty()),
        },
        Statement::SelectionStatement(x) => selection_code(x, sc),
        Statement::IterationStatement(w) => iteration_code(w, sc),
        Statement::ReturnStatement(_) => Err(Error::Unsupported),
    }
}

/// The name that the program's entry point must have.
pub open spec fn main_name() -> Seq<char> {
    seq!['m', 'a', 'i', 'n']
}

/// The top-level scope: no locals, depth zero.
pub open spec fn top_scope() -> Scope {
    Scope { locals: Seq::empty(), depth: 0 }
}

/// The code of the top-level declarations, in order: each global variable's
/// declaration; function bodies are not compiled by this backend.
pub open spec fn globals_code(ds: Seq<Declaration>) -> Result<Seq<OpCode>, Error>
    decreases ds.len(),
{
    if ds.len() == 0 {
        Ok(Seq::empty())
    } else {
        match globals_code(ds.drop_last()) {
            Err(e) => Err(e),
            Ok(a) => match ds.last() {
                Declaration::VarDeclaration(v) => match var_decl_code(v, top_scope()) {
                    Err(e) => Err(e),
                    Ok((b, _)) => Ok(a + b),
                },
                Declaration::FunctionDeclaration(_) => Ok(a),
            },
        }
    }
}

/// The program's last declaration is a function called `main`.
pub open spec fn ends_with_main(p: Program) -> bool {
    let ds = p.declarations@;
    ds.len() > 0 && match ds.last() {
        Declaration::FunctionDeclaration(f) => f.id.value@ == main_name(),
        _ => false,
    }
}

/// The code of a program, whose last declaration must be a function called `main`.
pub open spec fn program_code(p: Program) -> Result<Seq<OpCode>, Error> {
    let ds = p.declarations@;
    if ds.len() == 0 {
        Err(Error::MissingFunction)
    } else {
        match ds.last() {
            Declaration::FunctionDeclaration(f) => if f.id.value@ == main_name() {
                globals_code(ds)
            } else {
                Err(Error::MissingMain)
            },
            _ => Err(Error::MissingFunction),
        }
    }
}

fn emit_binary_opcode(op: &Operation) -> (r: Option<OpCode>)
    ensures
        r == binary_opcode(*op),
{
    match op {
        Operation::GT(..) => Some(OpCode::Greater),
        Operation::LT(..) => Some(OpCode::Less),
        Operation::GE(..) => Some(OpCode::GreaterEqual),
        Operation::LE(..) => Some(OpCode::LessEqual),
        Operation::EQ(..) => Some(OpCode::Equal),
        Operation::NE(..) => Some(OpCode::NotEqual),
        Operation::PLUS(..) => Some(OpCode::AddI32),
        Operation::MINUS(..) => Some(OpCode::SubtractI32),
        Operation::MULTIPLY(..) => Some(OpCode::MultiplyI32),
        Operation::DIVIDE(..) => Some(OpCode::DivideI32),
        _ => None,
    }
}

fn emit_logic_opcode(op: &Operation) -> (r: Option<OpCode>)
    ensures
        r == logic_opcode(*op),
{
    match op {
        Operation::AND(..) => Some(OpCode::And),
        Operation::OR(..) => Some(OpCode::Or),
        _ => None,
    }
}

fn emit_unary_opcode(op: &Operation) -> (r: Option<OpCode>)
    ensures
        r == unary_opcode(*op),
{
    match op {
        Operation::NEG(..) => Some(OpCode::Neg),
        Operation::POS(..) => Some(OpCode::Pos),
        _ => None,
    }
}

fn span(start: usize, end: usize) -> (r: Range<usize>)
    ensures
        r.start == start,
        r.end == end,
{
    Range { start, end }
}

impl Expression {
    /// Emits the expression's code; the compiler's scope state is not changed.
    pub fn emit(&self, vm: &mut Vm) -> (r: Result<(), Error>)
        requires
            old(vm).wf(),
        ensures
            final(vm).wf(),
            final(vm).scope() == old(vm).scope(),
            final(vm).machine() == old(vm).machine(),
            extends(final(vm).ops(), old(vm).ops()),
            extends(final(vm).spans(), old(vm).spans()),
            match expr_code(*self, old(vm).scope().locals) {
                Ok(c) => r is Ok && final(vm).ops() == old(vm).ops() + c,
                Err(e) => r == Err::<(), Error>(e),
            },
        decreases self,
    {
        let ghost start = vm.ops();
        match self {
            Expression::Assignment(a) => {
                match a.rhs.emit(vm) {
                    Ok(()) => {},
                    Err(e) => {
                        return Err(e);
                    },
                }
                if a.lhs.expression.is_some() {
                    return Err(Error::Unsupported);
                }
                match vm.resolve_local(&a.lhs.id.value) {
                    Some(index) => {
                        vm.add_instruction(OpCode::SetLocal(index), span(a.lhs.id.start, a.lhs.id.end));
                    },
                    None => {
                        return Err(Error::GlobalAssignment(a.lhs.id.value.clone()));
                    },
                }
            },
            Expression::BinaryExpression(b) => {
                match b.left.emit(vm) {
                    Ok(()) => {},
                    Err(e) => {
                        return Err(e);
                    },
                }
                let ghost mid = vm.ops();
                match b.right.emit(vm) {
                    Ok(()) => {},
                    Err(e) => {
                        return Err(e);
                    },
                }
                match emit_binary_opcode(&b.operation) {
                    Some(op) => {
                        vm.add_instruction(op, span(b.operation.start(), b.operation.end()));
                    },
                    None => {
                        return Err(Error::Unsupported);
                    },
                }
                assert(vm.ops() =~= start + (mid.subrange(start.len() as int, mid.len() as int) + vm.ops().subrange(mid.len() as int, vm.ops().len() - 1).push(vm.ops().last())));
            },
            Expression::LogicExpression(b) => {
                match b.left.emit(vm) {
                    Ok(()) => {},
                    Err(e) => {
                        return Err(e);
                    },
                }
                let ghost mid = vm.ops();
                match b.right.emit(vm) {
                    Ok(()) => {},
                    Err(e) => {
                        return Err(e);
                    },
                }
                match emit_logic_opcode(&b.operation) {
                    Some(op) => {
                        vm.add_instruction(op, span(b.operation.start(), b.operation.end()));
                    },
                    None => {
                        return Err(Error::Unsupported);
                    },
                }
                assert(vm.ops() =~= start + (mid.subrange(start.len() as int, mid.len() as int) + vm.ops().subrange(mid.len() as int, vm.ops().len() - 1).push(vm.ops().last())));
            },
            Expression::UnaryExpression(u) => {
                match u.expression.emit(vm) {
                    Ok(()) => {},
                    Err(e) => {
                        return Err(e);
                    },
                }
                match emit_unary_opcode(&u.operation) {
                    Some(op) => {
                        vm.add_instruction(op, span(u.operation.start(), u.operation.end()));
                    },
                    None => {
                        return Err(Error::Unsupported);
                    },
                }
                assert(vm.ops() =~= start + (Seq::<OpCode>::empty() + vm.ops().subrange(start.len() as int, vm.ops().len() - 1).push(vm.ops().last())));
            },
            Expression::Factor(f) => match f {
                Factor::Expression(inner) => {
                    return inner.emit(vm);
                },
                Factor::Var(v) => {
                    if v.expression.is_some() {
                        return Err(Error::Unsupported);
                    }
                    match vm.resolve_local(&v.id.value) {
                        Some(index) => {
                            vm.add_instruction(OpCode::GetLocal(index), span(v.start, v.end));
                        },
                        None => {
                            vm.add_instruction(OpCode::GetGlobal(v.id.value.clone()), span(v.start, v.end));
                        },
                    }
                },
                Factor::CallExpression(_) => {
                    return Err(Error::Unsupported);
                },
                Factor::NumberLiteral(n) => {
                    vm.add_instruction(OpCode::ConstantI32(n.value), span(n.start, n.end));
                },
                Factor::BooleanLiteral(b) => {
                    vm.add_instruction(OpCode::ConstantBoolean(b.value), span(b.start, b.end));
                },
            },
        }
        Ok(())
    }
}


proof fn lemma_decls_scope(ds: Seq<VarDeclaration>, sc: Scope)
    requires
        sc.depth > 0,
        decls_code(ds, sc) is Ok,
    ensures
        ({
            let sc2 = decls_code(ds, sc)->Ok_0.1;
            &&& sc2.depth == sc.depth
            &&& sc2.locals.len() == sc.locals.len() + ds.len()
            &&& sc2.locals.subrange(0, sc.locals.len() as int) == sc.locals
            &&& forall|i: int| sc.locals.len() <= i < sc2.locals.len() ==> #[trigger] sc2.locals[i].1 == sc.depth
        }),
    decreases ds.len(),
{
    if ds.len() > 0 {
        lemma_decls_scope(ds.drop_last(), sc);
        let sc1 = decls_code(ds.drop_last(), sc)->Ok_0.1;
        let sc2 = decls_code(ds, sc)->Ok_0.1;
        assert(sc2.locals =~= sc1.locals.push(sc2.locals.last()));
        assert(sc2.locals.subrange(0, sc.locals.len() as int) =~= sc1.locals.subrange(0, sc.locals.len() as int));
    } else {
        assert(sc.locals.subrange(0, sc.locals.len() as int) =~= sc.locals);
    }
}

proof fn lemma_kept_after_block(base: Seq<(Seq<char>, nat)>, all: Seq<(Seq<char>, nat)>, d: nat)
    requires
        base.len() <= all.len(),
        all.subrange(0, base.len() as int) == base,
        forall|i: int| 0 <= i < base.len() ==> #[trigger] base[i].1 <= d,
        forall|i: int| base.len() <= i < all.len() ==> #[trigger] all[i].1 > d,
    ensures
        crate::vm::kept_count(all, d) == base.len(),
    decreases all.len(),
{
    if all.len() > base.len() {
        assert(all.drop_last().subrange(0, base.len() as int) =~= base);
        lemma_kept_after_block(base, all.drop_last(), d);
    } else if all.len() > 0 {
        assert(all.last() == base[base.len() - 1]);
    }
}

proof fn lemma_decls_prefix_err(ds: Seq<VarDeclaration>, k: int, sc: Scope)
    requires
        0 <= k <= ds.len(),
        decls_code(ds.subrange(0, k), sc) is Err,
    ensures
        decls_code(ds, sc) == decls_code(ds.subrange(0, k), sc),
    decreases ds.len() - k,
{
    if k < ds.len() {
        assert(ds.subrange(0, k + 1).drop_last() =~= ds.subrange(0, k));
        lemma_decls_prefix_err(ds, k + 1, sc);
    } else {
        assert(ds.subrange(0, k) =~= ds);
    }
}

proof fn lemma_stmts_prefix_err(ss: Seq<Statement>, k: int, sc: Scope)
    requires
        0 <= k <= ss.len(),
        stmts_code(ss.subrange(0, k), sc) is Err,
    ensures
        stmts_code(ss, sc) == stmts_code(ss.subrange(0, k), sc),
    decreases ss.len() - k,
{
    if k < ss.len() {
        assert(ss.subrange(0, k + 1).drop_last() =~= ss.subrange(0, k));
        lemma_stmts_prefix_err(ss, k + 1, sc);
    } else {
        assert(ss.subrange(0, k) =~= ss);
    }
}

impl VarDeclaration {
    /// Emits the initializer (or `Nil`) and declares the variable; at the
    /// top level the value goes to the global table and a `Pop` follows.
    pub fn emit(&self, vm: &mut Vm) -> (r: Result<(), Error>)
        requires
            old(vm).wf(),
        ensures
            final(vm).wf(),
            final(vm).machine() == old(vm).machine(),
            extends(final(vm).ops(), old(vm).ops()),
            extends(final(vm).spans(), old(vm).spans()),
            match var_decl_code(*self, old(vm).scope()) {
                Ok((c, sc)) => r is Ok && final(vm).ops() == old(vm).ops() + c && final(vm).scope() == sc,
                Err(e) => r == Err::<(), Error>(e) && final(vm).scope() == old(vm).scope(),
            },
    {
        let ghost start = vm.ops();
        if self.num.is_some() || self.array_initializer.is_some() {
            return Err(Error::Unsupported);
        }
        match &self.initializer {
            Some(init) => {
                match init.emit(vm) {
                    Ok(()) => {},
                    Err(e) => {
                        return Err(e);
                    },
                }
            },
            None => {
                vm.add_instruction(OpCode::Nil, span(self.start, self.end));
            },
        }
        let ghost mid = vm.ops();
        match vm.define_variable(self.id.value.clone(), span(self.start, self.end)) {
            Ok(()) => {},
            Err(e) => {
                return Err(e);
            },
        }
        if vm.scope_depth() == 0 {
            vm.add_instruction(OpCode::Pop, span(self.end, self.end));
            assert(vm.ops() =~= start + (mid.subrange(start.len() as int, mid.len() as int) + seq![OpCode::DefineGlobal(self.id.value), OpCode::Pop]));
        } else {
            assert(vm.ops() =~= start + mid.subrange(start.len() as int, mid.len() as int));
        }
        Ok(())
    }
}

impl CompoundStatement {
    /// Emits the block in a new scope and closes it again.
    pub fn emit(&self, vm: &mut Vm) -> (r: Result<(), Error>)
        requires
            old(vm).wf(),
        ensures
            final(vm).wf(),
            final(vm).machine() == old(vm).machine(),
            extends(final(vm).ops(), old(vm).ops()),
            extends(final(vm).spans(), old(vm).spans()),
            match block_code(*self, old(vm).scope()) {
                Ok(c) => r is Ok && final(vm).ops() == old(vm).ops() + c && final(vm).scope() == old(vm).scope(),
                Err(e) => r == Err::<(), Error>(e),
            },
        decreases self,
    {
        let ghost start = vm.ops();
        let ghost sc = vm.scope();
        if vm.scope_depth() == usize::MAX {
            return Err(Error::ScopeTooDeep);
        }
        vm.begin_scope();
        let ghost inner = vm.scope();
        let ghost ds = self.local_declaration@;
        let mut i: usize = 0;
        assert(ds.subrange(0, 0) =~= Seq::<VarDeclaration>::empty());
        assert(vm.ops().subrange(start.len() as int, vm.ops().len() as int) =~= Seq::<OpCode>::empty());
        assert(vm.ops().subrange(0, start.len() as int) =~= start);
        assert(start + Seq::<OpCode>::empty() =~= start);
        while i < self.local_declaration.len()
            invariant
                vm.wf(),
                vm.machine() == old(vm).machine(),
                extends(vm.ops(), old(vm).ops()),
                extends(vm.spans(), old(vm).spans()),
                i <= ds.len(),
                ds == self.local_declaration@,
                inner == (Scope { depth: sc.depth + 1, ..sc }),
                sc == old(vm).scope(),
                sc.depth < usize::MAX,
                decls_code(ds.subrange(0, i as int), inner) == Ok::<(Seq<OpCode>, Scope), Error>(
                    (vm.ops().subrange(start.len() as int, vm.ops().len() as int), vm.scope())),
                vm.ops().subrange(0, start.len() as int) == start,
                start.len() <= vm.ops().len(),
            decreases ds.len() - i,
        {
            let ghost before = vm.ops();
            let ghost one = var_decl_code(ds[i as int], vm.scope());
            let r = self.local_declaration[i].emit(vm);
            assert(ds.subrange(0, i + 1).drop_last() =~= ds.subrange(0, i as int));
            assert(ds.subrange(0, i + 1).last() == ds[i as int]);
            match r {
                Ok(()) => {
                    assert(one is Ok);
                    assert(vm.ops().subrange(before.len() as int, vm.ops().len() as int) =~= one->Ok_0.0);
                },
                Err(e) => {
                    proof {
                        assert(one == Err::<(Seq<OpCode>, Scope), Error>(e));
                        assert(decls_code(ds.subrange(0, i + 1), inner) == Err::<(Seq<OpCode>, Scope), Error>(e));
                        lemma_decls_prefix_err(ds, i + 1, inner);
                    }
                    return Err(e);
                },
            }
            assert(vm.ops().subrange(start.len() as int, vm.ops().len() as int) =~= before.subrange(start.len() as int, before.len() as int) + vm.ops().subrange(before.len() as int, vm.ops().len() as int));
            assert(vm.ops().subrange(0, start.len() as int) =~= before.subrange(0, start.len() as int));
            i = i + 1;
        }
        assert(ds.subrange(0, ds.len() as int) =~= ds);
        let ghost dc = vm.ops().subrange(start.len() as int, vm.ops().len() as int);
        let ghost sc2 = vm.scope();
        proof {
            lemma_decls_scope(ds, inner);
        }
        let ghost after_decls = vm.ops();
        assert(decls_code(ds, inner) == Ok::<(Seq<OpCode>, Scope), Error>((dc, sc2)));
        let ghost ss = self.statement_list@;
        let mut j: usize = 0;
        assert(ss.subrange(0, 0) =~= Seq::<Statement>::empty());
        assert(after_decls.subrange(0, after_decls.len() as int) =~= after_decls);
        assert(after_decls.subrange(after_decls.len() as int, after_decls.len() as int) =~= Seq::<OpCode>::empty());
        while j < self.statement_list.len()
            invariant
                vm.wf(),
                vm.machine() == old(vm).machine(),
                extends(vm.ops(), old(vm).ops()),
                extends(vm.spans(), old(vm).spans()),
                j <= ss.len(),
                ss == self.statement_list@,
                vm.scope() == sc2,
                inner == (Scope { depth: sc.depth + 1, ..sc }),
                sc == old(vm).scope(),
                sc.depth < usize::MAX,
                ds == self.local_declaration@,
                decls_code(ds, inner) == Ok::<(Seq<OpCode>, Scope), Error>((dc, sc2)),
                stmts_code(ss.subrange(0, j as int), sc2) == Ok::<Seq<OpCode>, Error>(
                    vm.ops().subrange(after_decls.len() as int, vm.ops().len() as int)),
                vm.ops().subrange(0, after_decls.len() as int) == after_decls,
                after_decls.len() <= vm.ops().len(),
            decreases ss.len() - j,
        {
            let ghost before = vm.ops();
            let ghost one = stmt_code(ss[j as int], vm.scope());
            let r = self.statement_list[j].emit(vm);
            assert(ss.subrange(0, j + 1).drop_last() =~= ss.subrange(0, j as int));
            assert(ss.subrange(0, j + 1).last() == ss[j as int]);
            match r {
                Ok(()) => {
                    assert(one is Ok);
                    assert(vm.ops().subrange(before.len() as int, vm.ops().len() as int) =~= one->Ok_0);
                },
                Err(e) => {
                    proof {
                        assert(one == Err::<Seq<OpCode>, Error>(e));
                        assert(stmts_code(ss.subrange(0, j + 1), sc2) == Err::<Seq<OpCode>, Error>(e));
                        lemma_stmts_prefix_err(ss, j + 1, sc2);
                    }
                    return Err(e);
                },
            }
            assert(vm.ops().subrange(after_decls.len() as int, vm.ops().len() as int) =~= before.subrange(after_decls.len() as int, before.len() as int) + vm.ops().subrange(before.len() as int, vm.ops().len() as int));
            assert(vm.ops().subrange(0, after_decls.len() as int) =~= before.subrange(0, after_decls.len() as int));
            j = j + 1;
        }
        assert(ss.subrange(0, ss.len() as int) =~= ss);
        let ghost body = vm.ops().subrange(after_decls.len() as int, vm.ops().len() as int);
        proof {
            lemma_kept_after_block(sc.locals, sc2.locals, sc.depth);
        }
        vm.end_scope();
        assert(vm.scope().locals =~= sc.locals);
        assert(vm.ops() =~= start + (dc + body + pops((sc2.locals.len() - sc.locals.len()) as nat)));
        Ok(())
    }
}

impl Statement {
    /// Emits the statement; the compiler's scope state is the same afterwards.
    pub fn emit(&self, vm: &mut Vm) -> (r: Result<(), Error>)
        requires
            old(vm).wf(),
        ensures
            final(vm).wf(),
            final(vm).machine() == old(vm).machine(),
            extends(final(vm).ops(), old(vm).ops()),
            extends(final(vm).spans(), old(vm).spans()),
            match stmt_code(*self, old(vm).scope()) {
                Ok(c) => r is Ok && final(vm).ops() == old(vm).ops() + c && final(vm).scope() == old(vm).scope(),
                Err(e) => r == Err::<(), Error>(e),
            },
        decreases self,
    {
        let ghost start = vm.ops();
        match self {
            Statement::CompoundStatement(c) => c.emit(vm),
            Statement::ExpressionStatement(x) => {
                match &x.expression {
                    Some(e) => {
                        match e.emit(vm) {
                            Ok(()) => {},
                            Err(er) => {
                                return Err(er);
                            },
                        }
                        vm.add_instruction(OpCode::Pop, span(x.end, x.end));
                        assert(vm.ops() =~= start + vm.ops().subrange(start.len() as int, vm.ops().len() - 1).push(OpCode::Pop));
                    },
                    None => {
                        assert(vm.ops() =~= start + Seq::<OpCode>::empty());
                    },
                }
                Ok(())
            },
            Statement::SelectionStatement(x) => x.emit(vm),
            Statement::IterationStatement(w) => w.emit(vm),
            Statement::ReturnStatement(_) => Err(Error::Unsupported),
        }
    }
}


impl SelectionStatement {
    /// Emits the test, the two branches, and the two jumps between them,
    /// each jump backpatched once its target is known.
    #[verifier::rlimit(50)]
    pub fn emit(&self, vm: &mut Vm) -> (r: Result<(), Error>)
        requires
            old(vm).wf(),
        ensures
            final(vm).wf(),
            final(vm).machine() == old(vm).machine(),
            extends(final(vm).ops(), old(vm).ops()),
            extends(final(vm).spans(), old(vm).spans()),
            match selection_code(*self, old(vm).scope()) {
                Ok(c) => r is Ok && final(vm).ops() == old(vm).ops() + c && final(vm).scope() == old(vm).scope(),
                Err(e) => r == Err::<(), Error>(e),
            },
        decreases self,
    {
        let ghost start = vm.ops();
        match self.test.emit(vm) {
            Ok(()) => {},
            Err(e) => {
                return Err(e);
            },
        }
        let ghost t = vm.ops().subrange(start.len() as int, vm.ops().len() as int);
        let then_jump = vm.emit_jump(OpCode::JumpIfFalse(0), span(self.start, self.end));
        vm.add_instruction(OpCode::Pop, span(self.end, self.end));
        let ghost s1 = vm.ops();
        match self.consequent.emit(vm) {
            Ok(()) => {},
            Err(e) => {
                return Err(e);
            },
        }
        let ghost c = vm.ops().subrange(s1.len() as int, vm.ops().len() as int);
        let else_jump = vm.emit_jump(OpCode::Jump(0), span(self.start, self.end));
        assert(vm.ops() =~= start + t + seq![OpCode::JumpIfFalse(0), OpCode::Pop] + c + seq![OpCode::Jump(0)]);
        match vm.patch_jump(then_jump) {
            Ok(()) => {},
            Err(e) => {
                return Err(e);
            },
        }
        vm.add_instruction(OpCode::Pop, span(self.end, self.end));
        let ghost s2 = vm.ops();
        assert(s2 =~= start + t + seq![OpCode::JumpIfFalse((c.len() + 3) as usize), OpCode::Pop] + c + seq![OpCode::Jump(0), OpCode::Pop]);
        let ghost a: Seq<OpCode>;
        match &self.alternative {
            Some(alternative) => {
                match alternative.emit(vm) {
                    Ok(()) => {},
                    Err(e) => {
                        return Err(e);
                    },
                }
                proof {
                    a = vm.ops().subrange(s2.len() as int, vm.ops().len() as int);
                }
            },
            None => {
                proof {
                    a = Seq::empty();
                }
            },
        }
        assert(vm.ops() =~= s2 + a);
        match vm.patch_else_jump(else_jump) {
            Ok(()) => {},
            Err(e) => {
                return Err(e);
            },
        }
        assert(vm.ops() =~= start + if_code(t, c, a));
        Ok(())
    }
}

impl IterationStatement {
    /// Emits the test, the exit jump, the body, and the backward jump to the test.
    pub fn emit(&self, vm: &mut Vm) -> (r: Result<(), Error>)
        requires
            old(vm).wf(),
        ensures
            final(vm).wf(),
            final(vm).machine() == old(vm).machine(),
            extends(final(vm).ops(), old(vm).ops()),
            extends(final(vm).spans(), old(vm).spans()),
            match iteration_code(*self, old(vm).scope()) {
                Ok(c) => r is Ok && final(vm).ops() == old(vm).ops() + c && final(vm).scope() == old(vm).scope(),
                Err(e) => r == Err::<(), Error>(e),
            },
        decreases self,
    {
        let ghost start = vm.ops();
        let loop_start = vm.operations().len();
        match self.test.emit(vm) {
            Ok(()) => {},
            Err(e) => {
                return Err(e);
            },
        }
        let ghost t = vm.ops().subrange(start.len() as int, vm.ops().len() as int);
        let exit_jump = vm.emit_jump(OpCode::JumpIfFalse(0), span(self.start, self.end));
        vm.add_instruction(OpCode::Pop, span(self.start, self.end));
        let ghost s1 = vm.ops();
        match self.body.emit(vm) {
            Ok(()) => {},
            Err(e) => {
                return Err(e);
            },
        }
        let ghost b = vm.ops().subrange(s1.len() as int, vm.ops().len() as int);
        vm.emit_loop(loop_start, span(self.start, self.end));
        match vm.patch_jump(exit_jump) {
            Ok(()) => {},
            Err(e) => {
                return Err(e);
            },
        }
        vm.add_instruction(OpCode::Pop, span(self.end, self.end));
        assert(vm.ops() =~= start + while_code(t, b));
        Ok(())
    }
}


proof fn lemma_globals_prefix_err(ds: Seq<Declaration>, k: int)
    requires
        0 <= k <= ds.len(),
        globals_code(ds.subrange(0, k)) is Err,
    ensures
        globals_code(ds) == globals_code(ds.subrange(0, k)),
    decreases ds.len() - k,
{
    if k < ds.len() {
        assert(ds.subrange(0, k + 1).drop_last() =~= ds.subrange(0, k));
        lemma_globals_prefix_err(ds, k + 1);
    } else {
        assert(ds.subrange(0, k) =~= ds);
    }
}

fn is_main(name: &String) -> (r: bool)
    ensures
        r == (name@ == main_name()),
{
    let main = "main".to_owned();
    proof {
        reveal_strlit("main");
        assert(main@ =~= main_name());
    }
    *name == main
}

impl Program {
    /// Checks the entry point and emits the code of the global declarations.
    pub fn emit(&self, vm: &mut Vm) -> (r: Result<(), Error>)
        requires
            old(vm).wf(),
            old(vm).scope().depth == 0,
        ensures
            final(vm).wf(),
            final(vm).machine() == old(vm).machine(),
            final(vm).scope() == old(vm).scope(),
            extends(final(vm).ops(), old(vm).ops()),
            extends(final(vm).spans(), old(vm).spans()),
            match program_code(*self) {
                Ok(c) => r is Ok && final(vm).ops() == old(vm).ops() + c,
                Err(e) => r == Err::<(), Error>(e),
            },
            !ends_with_main(*self) ==> final(vm).ops() == old(vm).ops() && final(vm).spans() == old(
                vm,
            ).spans(),
    {
        let n = self.declarations.len();
        if n == 0 {
            return Err(Error::MissingFunction);
        }
        match &self.declarations[n - 1] {
            Declaration::FunctionDeclaration(f) => {
                if !is_main(&f.id.value) {
                    return Err(Error::MissingMain);
                }
            },
            _ => {
                return Err(Error::MissingFunction);
            },
        }
        assert(ends_with_main(*self));
        proof {
            if vm.scope().locals.len() > 0 {
                assert(vm.scope().locals[0].1 <= 0);
            }
            assert(vm.scope().locals =~= Seq::<(Seq<char>, nat)>::empty());
        }
        let ghost start = vm.ops();
        let ghost ds = self.declarations@;
        let mut i: usize = 0;
        assert(ds.subrange(0, 0) =~= Seq::<Declaration>::empty());
        assert(vm.ops().subrange(start.len() as int, vm.ops().len() as int) =~= Seq::<OpCode>::empty());
        assert(vm.ops().subrange(0, start.len() as int) =~= start);
        while i < n
            invariant
                vm.wf(),
                vm.machine() == old(vm).machine(),
                extends(vm.ops(), old(vm).ops()),
                extends(vm.spans(), old(vm).spans()),
                ends_with_main(*self),
                vm.scope() == top_scope(),
                old(vm).scope() == top_scope(),
                n == ds.len(),
                i <= n,
                ds == self.declarations@,
                program_code(*self) == globals_code(ds),
                globals_code(ds.subrange(0, i as int)) == Ok::<Seq<OpCode>, Error>(
                    vm.ops().subrange(start.len() as int, vm.ops().len() as int)),
                vm.ops().subrange(0, start.len() as int) == start,
                start.len() <= vm.ops().len(),
                start == old(vm).ops(),
            decreases n - i,
        {
            let ghost before = vm.ops();
            assert(ds.subrange(0, i + 1).drop_last() =~= ds.subrange(0, i as int));
            assert(ds.subrange(0, i + 1).last() == ds[i as int]);
            match &self.declarations[i] {
                Declaration::VarDeclaration(v) => {
                    let ghost one = var_decl_code(*v, top_scope());
                    match v.emit(vm) {
                        Ok(()) => {
                            assert(vm.ops().subrange(before.len() as int, vm.ops().len() as int) =~= one->Ok_0.0);
                        },
                        Err(e) => {
                            proof {
                                assert(globals_code(ds.subrange(0, i + 1)) == Err::<Seq<OpCode>, Error>(e));
                                lemma_globals_prefix_err(ds, i + 1);
                            }
                            return Err(e);
                        },
                    }
                },
                Declaration::FunctionDeclaration(_) => {},
            }
            assert(vm.ops().subrange(start.len() as int, vm.ops().len() as int) =~= before.subrange(start.len() as int, before.len() as int) + vm.ops().subrange(before.len() as int, vm.ops().len() as int));
            assert(vm.ops().subrange(0, start.len() as int) =~= before.subrange(0, start.len() as int));
            i = i + 1;
        }
        assert(ds.subrange(0, n as int) =~= ds);
        assert(vm.ops() =~= start + vm.ops().subrange(start.len() as int, vm.ops().len() as int));
        Ok(())
    }
}


/// A block closes its scope with exactly one `Pop` for each local that it
/// declared: its code is its declarations' code, its statements' code, and
/// then as many `Pop`s as the block has declarations.
pub proof fn lemma_scope_symmetry(c: CompoundStatement, sc: Scope)
    requires
        block_code(c, sc) is Ok,
    ensures
        ({
            let inner = Scope { depth: sc.depth + 1, ..sc };
            let (dc, sc2) = decls_code(c.local_declaration@, inner)->Ok_0;
            &&& sc2.locals.len() == sc.locals.len() + c.local_declaration@.len()
            &&& forall|i: int| sc.locals.len() <= i < sc2.locals.len() ==> #[trigger] sc2.locals[i].1 == sc.depth + 1
            &&& block_code(c, sc) == Ok::<Seq<OpCode>, Error>(
                dc + stmts_code(c.statement_list@, sc2)->Ok_0 + pops(c.local_declaration@.len()),
            )
        }),
{
    let inner = Scope { depth: sc.depth + 1, ..sc };
    lemma_decls_scope(c.local_declaration@, inner);
}

/// In the code of an `if`, the `JumpIfFalse` after the test lands on the
/// `Pop` that opens the else branch, and the `Jump` after the then branch
/// lands just past the end of the statement's code.
pub proof fn lemma_if_jumps(t: Seq<OpCode>, then: Seq<OpCode>, alt: Seq<OpCode>)
    requires
        t.len() + then.len() + alt.len() + 4 <= usize::MAX,
    ensures
        ({
            let code = if_code(t, then, alt);
            let p = t.len() as int;
            let q = p + 2 + then.len();
            &&& code[p] == OpCode::JumpIfFalse((then.len() + 3) as usize)
            &&& p + (then.len() + 3) == q + 1
            &&& code[q] == OpCode::Jump((alt.len() + 2) as usize)
            &&& q + (alt.len() + 2) == code.len()
            &&& code[p + 1] == OpCode::Pop
            &&& code[q + 1] == OpCode::Pop
            &&& code.subrange(p + 2, q) == then
            &&& code.subrange(q + 2, code.len() as int) == alt
        }),
{
    let code = if_code(t, then, alt);
    let p = t.len() as int;
    let q = p + 2 + then.len();
    assert(code.subrange(p + 2, q) =~= then);
    assert(code.subrange(q + 2, code.len() as int) =~= alt);
}

/// In the code of a `while`, the `JumpIfFalse` after the test lands on the
/// final `Pop` that drops the false test value, and the `Loop` after the
/// body lands on the first instruction of the test.
pub proof fn lemma_while_jumps(t: Seq<OpCode>, body: Seq<OpCode>)
    requires
        t.len() + body.len() + 4 <= usize::MAX,
    ensures
        ({
            let code = while_code(t, body);
            let p = t.len() as int;
            let q = p + 2 + body.len();
            &&& code[p] == OpCode::JumpIfFalse((body.len() + 3) as usize)
            &&& p + (body.len() + 3) == code.len() - 1
            &&& code[code.len() - 1] == OpCode::Pop
            &&& code[q] == OpCode::Loop((t.len() + body.len() + 2) as usize)
            &&& q - (t.len() + body.len() + 2) == 0
            &&& code[p + 1] == OpCode::Pop
            &&& code.subrange(0, p) == t
            &&& code.subrange(p + 2, q) == body
        }),
{
    let code = while_code(t, body);
    let p = t.len() as int;
    let q = p + 2 + body.len();
    assert(code.subrange(0, p) =~= t);
    assert(code.subrange(p + 2, q) =~= body);
}


/// Where a loop's body starts: the test value popped, the instruction
/// pointer just past the `JumpIfFalse` and its `Pop`.
pub open spec fn body_entry(tm: Machine, o: int, t_len: int) -> Machine {
    Machine { stack: tm.stack.drop_last(), globals: tm.globals, ip: o + t_len + 2 }
}

/// Where a loop ends: its final test value popped, the instruction pointer
/// just past the loop's code.
pub open spec fn loop_exit(tm: Machine, end: int) -> Machine {
    Machine { stack: tm.stack.drop_last(), globals: tm.globals, ip: end }
}

/// A `while` loop's code, placed at `o`, whose test yields true on the
/// first `n` rounds and false on the round after: `st(i)` is the state
/// at the test in round `i`, `tm(i)` the state after the test, and the body
/// leads from round `i` to round `i + 1`. Then the loop runs the body
/// exactly `n` times and ends past its code with the last test value
/// popped: the stack is the one that the `n` bodies and tests left. So
/// `exec`, which runs as `run` does, goes on from there.
pub proof fn lemma_while_runs(
    ops: Seq<OpCode>,
    o: int,
    t: Seq<OpCode>,
    b: Seq<OpCode>,
    n: nat,
    st: spec_fn(nat) -> Machine,
    tm: spec_fn(nat) -> Machine,
    tk: spec_fn(nat) -> nat,
    bk: spec_fn(nat) -> nat,
)
    requires
        0 <= o,
        o + while_code(t, b).len() <= ops.len(),
        t.len() + b.len() + 4 <= usize::MAX,
        ops.subrange(o, o + while_code(t, b).len()) == while_code(t, b),
        forall|i: nat| i <= n ==> (#[trigger] st(i)).ip == o,
        forall|i: nat| i <= n ==> steps(ops, st(i), tk(i)) == Some(#[trigger] tm(i)),
        forall|i: nat|
            i <= n ==> (#[trigger] tm(i)).ip == o + t.len() && tm(i).stack.len() > 0
                && tm(i).stack.last() == Value::Boolean(i < n),
        forall|i: nat|
            i < n ==> steps(ops, body_entry(tm(i), o, t.len() as int), #[trigger] bk(i)) == Some(
                Machine { ip: o + t.len() + 2 + b.len(), ..st((i + 1) as nat) },
            ),
    ensures
        exists|k: nat|
            #[trigger] steps(ops, st(0), k) == Some(loop_exit(tm(n), o + while_code(t, b).len())),
        exists|k: nat|
            #[trigger] runs_through(ops, st(0), loop_exit(tm(n), o + while_code(t, b).len()), k),
{
    lemma_while_round(ops, o, t, b, n, st, tm, tk, bk, 0);
    let exit = loop_exit(tm(n), o + while_code(t, b).len());
    let k = choose|k: nat| #[trigger] steps(ops, st(0), k) == Some(exit);
    assert forall|fuel: nat| fuel >= k implies #[trigger] run(ops, st(0), fuel) == run(ops, exit, (fuel - k) as nat) by {
        lemma_run_through(ops, st(0), k, fuel);
    }
    assert(runs_through(ops, st(0), exit, k));
}

proof fn lemma_while_round(
    ops: Seq<OpCode>,
    o: int,
    t: Seq<OpCode>,
    b: Seq<OpCode>,
    n: nat,
    st: spec_fn(nat) -> Machine,
    tm: spec_fn(nat) -> Machine,
    tk: spec_fn(nat) -> nat,
    bk: spec_fn(nat) -> nat,
    i: nat,
)
    requires
        i <= n,
        0 <= o,
        o + while_code(t, b).len() <= ops.len(),
        t.len() + b.len() + 4 <= usize::MAX,
        ops.subrange(o, o + while_code(t, b).len()) == while_code(t, b),
        forall|i: nat| i <= n ==> (#[trigger] st(i)).ip == o,
        forall|i: nat| i <= n ==> steps(ops, st(i), tk(i)) == Some(#[trigger] tm(i)),
        forall|i: nat|
            i <= n ==> (#[trigger] tm(i)).ip == o + t.len() && tm(i).stack.len() > 0
                && tm(i).stack.last() == Value::Boolean(i < n),
        forall|i: nat|
            i < n ==> steps(ops, body_entry(tm(i), o, t.len() as int), #[trigger] bk(i)) == Some(
                Machine { ip: o + t.len() + 2 + b.len(), ..st((i + 1) as nat) },
            ),
    ensures
        exists|k: nat|
            #[trigger] steps(ops, st(i), k) == Some(loop_exit(tm(n), o + while_code(t, b).len())),
    decreases n - i,
{
    let w = while_code(t, b);
    let p = o + t.len();
    let q = p + 2 + b.len();
    let end = o + w.len();
    lemma_while_jumps(t, b);
    assert(ops[p] == w[t.len() as int]);
    assert(ops[p + 1] == w[t.len() + 1int]);
    assert(ops[q] == w[q - o]);
    assert(ops[end - 1] == w[w.len() - 1]);
    let m = tm(i);
    assert(m == tm(i));
    reveal_with_fuel(steps, 3);
    if i == n {
        let jumped = Machine { ip: m.ip + (b.len() + 3), ..m };
        assert(step(ops, m) == Ok::<Machine, crate::error::Error>(jumped));
        assert(jumped.ip == end - 1);
        assert(step(ops, jumped) == Ok::<Machine, crate::error::Error>(loop_exit(m, end)));
        assert(steps(ops, m, 2) == Some(loop_exit(m, end)));
        lemma_steps_compose(ops, st(i), tk(i), 2);
    } else {
        let entry = body_entry(m, o, t.len() as int);
        let m1 = crate::machine::advance(m, m.stack);
        assert(step(ops, m) == Ok::<Machine, crate::error::Error>(m1));
        assert(step(ops, m1) == Ok::<Machine, crate::error::Error>(entry));
        assert(steps(ops, m, 2) == Some(entry));
        let back = Machine { ip: q, ..st((i + 1) as nat) };
        assert(steps(ops, entry, bk(i)) == Some(back));
        assert(step(ops, back) == Ok::<Machine, crate::error::Error>(st((i + 1) as nat)));
        assert(steps(ops, back, 1) == Some(st((i + 1) as nat)));
        lemma_while_round(ops, o, t, b, n, st, tm, tk, bk, i + 1);
        let k2 = choose|k: nat| #[trigger] steps(ops, st((i + 1) as nat), k) == Some(loop_exit(tm(n), end));
        lemma_steps_compose(ops, back, 1, k2);
        lemma_steps_compose(ops, entry, bk(i), 1 + k2);
        lemma_steps_compose(ops, m, 2, bk(i) + (1 + k2));
        lemma_steps_compose(ops, st(i), tk(i), 2 + (bk(i) + (1 + k2)));
    }
}


/// An `if`'s code, placed at `o`, whose test leads from `m0` to `tm` with a
/// boolean on top. When it is true, only the then branch runs (from its
/// entry to its end) and the `Jump` then leaves the statement; when it is
/// false, only the else branch runs, and it ends where the statement ends.
/// Either way the test value is popped before the branch.
pub proof fn lemma_if_runs(
    ops: Seq<OpCode>,
    o: int,
    t: Seq<OpCode>,
    then: Seq<OpCode>,
    alt: Seq<OpCode>,
    m0: Machine,
    tk: nat,
    tm: Machine,
    then_k: nat,
    then_m: Machine,
    alt_k: nat,
    alt_m: Machine,
)
    requires
        0 <= o,
        o + if_code(t, then, alt).len() <= ops.len(),
        t.len() + then.len() + alt.len() + 4 <= usize::MAX,
        ops.subrange(o, o + if_code(t, then, alt).len()) == if_code(t, then, alt),
        steps(ops, m0, tk) == Some(tm),
        tm.ip == o + t.len(),
        tm.stack.len() > 0,
        tm.stack.last() is Boolean,
        tm.stack.last() == Value::Boolean(true) ==> {
            &&& steps(ops, body_entry(tm, o, t.len() as int), then_k) == Some(then_m)
            &&& then_m.ip == o + t.len() + 2 + then.len()
        },
        tm.stack.last() == Value::Boolean(false) ==> {
            &&& steps(
                ops,
                Machine { ip: o + t.len() + then.len() + 4, ..body_entry(tm, o, t.len() as int) },
                alt_k,
            ) == Some(alt_m)
            &&& alt_m.ip == o + if_code(t, then, alt).len()
        },
    ensures
        tm.stack.last() == Value::Boolean(true) ==> exists|k: nat|
            #[trigger] steps(ops, m0, k) == Some(Machine { ip: o + if_code(t, then, alt).len(), ..then_m }),
        tm.stack.last() == Value::Boolean(false) ==> exists|k: nat| #[trigger] steps(ops, m0, k) == Some(alt_m),
        tm.stack.last() == Value::Boolean(true) ==> exists|k: nat|
            #[trigger] runs_through(ops, m0, Machine { ip: o + if_code(t, then, alt).len(), ..then_m }, k),
        tm.stack.last() == Value::Boolean(false) ==> exists|k: nat| #[trigger] runs_through(ops, m0, alt_m, k),
{
    let code = if_code(t, then, alt);
    let p = o + t.len();
    let q = p + 2 + then.len();
    let end = o + code.len();
    lemma_if_jumps(t, then, alt);
    assert(ops[p] == code[t.len() as int]);
    assert(ops[p + 1] == code[t.len() + 1int]);
    assert(ops[q] == code[q - o]);
    assert(ops[q + 1] == code[q + 1 - o]);
    reveal_with_fuel(steps, 3);
    if tm.stack.last() == Value::Boolean(true) {
        let entry = body_entry(tm, o, t.len() as int);
        let m1 = crate::machine::advance(tm, tm.stack);
        assert(step(ops, tm) == Ok::<Machine, crate::error::Error>(m1));
        assert(step(ops, m1) == Ok::<Machine, crate::error::Error>(entry));
        assert(steps(ops, tm, 2) == Some(entry));
        let done = Machine { ip: end, ..then_m };
        assert(step(ops, then_m) == Ok::<Machine, crate::error::Error>(done));
        assert(steps(ops, then_m, 1) == Some(done));
        lemma_steps_compose(ops, entry, then_k, 1);
        lemma_steps_compose(ops, tm, 2, then_k + 1);
        lemma_steps_compose(ops, m0, tk, 2 + (then_k + 1));
        assert(steps(ops, m0, tk + (2 + (then_k + 1))) == Some(done));
        let k = tk + (2 + (then_k + 1));
        assert forall|fuel: nat| fuel >= k implies #[trigger] run(ops, m0, fuel) == run(ops, done, (fuel - k) as nat) by {
            lemma_run_through(ops, m0, k, fuel);
        }
        assert(runs_through(ops, m0, done, k));
    } else {
        let jumped = Machine { ip: tm.ip + (then.len() + 3), ..tm };
        let entry = Machine { ip: o + t.len() + then.len() + 4, ..body_entry(tm, o, t.len() as int) };
        assert(step(ops, tm) == Ok::<Machine, crate::error::Error>(jumped));
        assert(jumped.ip == q + 1);
        assert(step(ops, jumped) == Ok::<Machine, crate::error::Error>(entry));
        assert(steps(ops, tm, 2) == Some(entry));
        lemma_steps_compose(ops, tm, 2, alt_k);
        lemma_steps_compose(ops, m0, tk, 2 + alt_k);
        assert(steps(ops, m0, tk + (2 + alt_k)) == Some(alt_m));
        let k = tk + (2 + alt_k);
        assert forall|fuel: nat| fuel >= k implies #[trigger] run(ops, m0, fuel) == run(ops, alt_m, (fuel - k) as nat) by {
            lemma_run_through(ops, m0, k, fuel);
        }
        assert(runs_through(ops, m0, alt_m, k));
    }
}

} // verus!
