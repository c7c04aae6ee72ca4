use tinylang::error::Error;
use tinylang::op_code::OpCode;
use tinylang::value::Value;
use tinylang::vm::{binary_op, Vm};

fn run(ops: Vec<OpCode>) -> (Result<(), Error>, Vec<Value>) {
    let mut vm = Vm::new();
    for op in ops {
        vm.add_instruction(op, 0..0);
    }
    let r = vm.exec();
    (r, vm.stack().clone())
}

#[test]
fn arithmetic_on_two_constants() {
    for (a, b) in [(7, 3), (-7, 3), (0, -5), (100, 100)] {
        let (r, s) = run(vec![OpCode::ConstantI32(a), OpCode::ConstantI32(b), OpCode::AddI32]);
        assert!(r.is_ok());
        assert_eq!(s, vec![Value::I32(a + b)]);
        let (r, s) = run(vec![OpCode::ConstantI32(a), OpCode::ConstantI32(b), OpCode::SubtractI32]);
        assert!(r.is_ok());
        assert_eq!(s, vec![Value::I32(a - b)]);
        let (r, s) = run(vec![OpCode::ConstantI32(a), OpCode::ConstantI32(b), OpCode::MultiplyI32]);
        assert!(r.is_ok());
        assert_eq!(s, vec![Value::I32(a * b)]);
        let (r, s) = run(vec![OpCode::ConstantI32(a), OpCode::ConstantI32(b), OpCode::DivideI32]);
        assert!(r.is_ok());
        assert_eq!(s, vec![Value::I32(a / b)]);
    }
}

#[test]
fn division_truncates_toward_zero() {
    let (r, s) = run(vec![OpCode::ConstantI32(-7), OpCode::ConstantI32(2), OpCode::DivideI32]);
    assert!(r.is_ok());
    assert_eq!(s, vec![Value::I32(-3)]);
}

#[test]
fn overflow_is_an_arithmetic_error() {
    let (r, _) = run(vec![OpCode::ConstantI32(i32::MAX), OpCode::ConstantI32(1), OpCode::AddI32]);
    assert_eq!(r, Err(Error::Arithmetic(2)));
    let (r, _) = run(vec![OpCode::ConstantI32(i32::MIN), OpCode::ConstantI32(-1), OpCode::DivideI32]);
    assert_eq!(r, Err(Error::Arithmetic(2)));
    let (r, _) = run(vec![OpCode::ConstantI32(i32::MIN), OpCode::Neg]);
    assert_eq!(r, Err(Error::Arithmetic(1)));
}

#[test]
fn division_by_zero_is_an_arithmetic_error() {
    let (r, _) = run(vec![OpCode::ConstantI32(1), OpCode::ConstantI32(0), OpCode::DivideI32]);
    assert_eq!(r, Err(Error::Arithmetic(2)));
}

#[test]
fn add_on_integer_and_boolean_is_a_kind_mismatch() {
    let (r, _) = run(vec![OpCode::ConstantI32(1), OpCode::ConstantBoolean(true), OpCode::AddI32]);
    assert_eq!(r, Err(Error::KindMismatch(2)));
    let (r, _) = run(vec![OpCode::ConstantBoolean(false), OpCode::ConstantI32(1), OpCode::AddI32]);
    assert_eq!(r, Err(Error::KindMismatch(2)));
    assert_eq!(binary_op(&OpCode::AddI32, Value::I32(1), Value::Boolean(true), 9), Err(Error::KindMismatch(9)));
}

#[test]
fn logic_and_comparison_need_matching_kinds() {
    let (r, _) = run(vec![OpCode::ConstantI32(1), OpCode::ConstantI32(2), OpCode::And]);
    assert_eq!(r, Err(Error::KindMismatch(2)));
    let (r, _) = run(vec![OpCode::ConstantBoolean(true), OpCode::ConstantBoolean(true), OpCode::Less]);
    assert_eq!(r, Err(Error::KindMismatch(2)));
    let (r, _) = run(vec![OpCode::ConstantI32(1), OpCode::ConstantBoolean(true), OpCode::Equal]);
    assert_eq!(r, Err(Error::KindMismatch(2)));
    let (r, s) = run(vec![OpCode::ConstantBoolean(true), OpCode::ConstantBoolean(true), OpCode::Equal]);
    assert!(r.is_ok());
    assert_eq!(s, vec![Value::Boolean(true)]);
    let (r, s) = run(vec![OpCode::ConstantI32(3), OpCode::ConstantI32(3), OpCode::NotEqual]);
    assert!(r.is_ok());
    assert_eq!(s, vec![Value::Boolean(false)]);
    let (r, s) = run(vec![OpCode::ConstantI32(3), OpCode::ConstantI32(2), OpCode::GreaterEqual]);
    assert!(r.is_ok());
    assert_eq!(s, vec![Value::Boolean(true)]);
}

#[test]
fn unary_on_boolean_is_a_kind_mismatch() {
    let (r, _) = run(vec![OpCode::ConstantBoolean(true), OpCode::Neg]);
    assert_eq!(r, Err(Error::KindMismatch(1)));
    let (r, s) = run(vec![OpCode::ConstantI32(4), OpCode::Pos]);
    assert!(r.is_ok());
    assert_eq!(s, vec![Value::I32(4)]);
}

#[test]
fn missing_operand_is_a_stack_underflow() {
    let (r, _) = run(vec![OpCode::ConstantI32(1), OpCode::AddI32]);
    assert_eq!(r, Err(Error::StackUnderflow(1)));
}

#[test]
fn globals_define_and_read() {
    let (r, s) = run(vec![
        OpCode::ConstantI32(5),
        OpCode::DefineGlobal("x".to_string()),
        OpCode::ConstantI32(6),
        OpCode::DefineGlobal("x".to_string()),
        OpCode::GetGlobal("x".to_string()),
    ]);
    assert!(r.is_ok());
    assert_eq!(s, vec![Value::I32(6)]);
}

#[test]
fn undefined_global_is_an_error() {
    let (r, _) = run(vec![OpCode::GetGlobal("nope".to_string())]);
    assert_eq!(r, Err(Error::UndefinedVariable("nope".to_string())));
}

#[test]
fn locals_read_and_write_by_slot() {
    let (r, s) = run(vec![
        OpCode::ConstantI32(1),
        OpCode::ConstantI32(2),
        OpCode::GetLocal(0),
        OpCode::ConstantI32(9),
        OpCode::SetLocal(1),
    ]);
    assert!(r.is_ok());
    assert_eq!(s, vec![Value::I32(1), Value::I32(9), Value::I32(1), Value::I32(9)]);
    let (r, _) = run(vec![OpCode::GetLocal(3)]);
    assert_eq!(r, Err(Error::BadSlot(0)));
}

#[test]
fn jump_if_false_needs_a_boolean_and_keeps_it() {
    let (r, _) = run(vec![OpCode::ConstantI32(1), OpCode::JumpIfFalse(2)]);
    assert_eq!(r, Err(Error::KindMismatch(1)));
    let (r, s) = run(vec![
        OpCode::ConstantBoolean(false),
        OpCode::JumpIfFalse(2),
        OpCode::ConstantI32(1),
        OpCode::ConstantI32(2),
    ]);
    assert!(r.is_ok());
    assert_eq!(s, vec![Value::Boolean(false), Value::I32(2)]);
}

#[test]
fn jumps_outside_the_stream_are_errors() {
    let (r, _) = run(vec![OpCode::Jump(5)]);
    assert_eq!(r, Err(Error::BadJump(0)));
    let (r, _) = run(vec![OpCode::Nil, OpCode::Loop(2)]);
    assert_eq!(r, Err(Error::BadJump(1)));
}

#[test]
fn nil_pushes_the_absent_value() {
    let (r, s) = run(vec![OpCode::Nil, OpCode::Nil, OpCode::Equal]);
    assert!(r.is_ok());
    assert_eq!(s, vec![Value::Boolean(true)]);
}

#[test]
fn patching_needs_the_matching_jump() {
    let mut vm = Vm::new();
    vm.add_instruction(OpCode::Pop, 0..0);
    assert_eq!(vm.patch_jump(0), Err(Error::BadPatch(0)));
    assert_eq!(vm.patch_else_jump(0), Err(Error::BadPatch(0)));
    assert_eq!(vm.patch_jump(7), Err(Error::BadPatch(7)));
    assert_eq!(vm.patch_else_jump(7), Err(Error::BadPatch(7)));
    let cond = vm.emit_jump(OpCode::JumpIfFalse(0), 0..0);
    let uncond = vm.emit_jump(OpCode::Jump(0), 0..0);
    vm.add_instruction(OpCode::Pop, 0..0);
    assert_eq!(vm.patch_jump(uncond), Err(Error::BadPatch(2)));
    assert_eq!(vm.patch_else_jump(cond), Err(Error::BadPatch(1)));
    assert_eq!(
        vm.operations(),
        &vec![OpCode::Pop, OpCode::JumpIfFalse(0), OpCode::Jump(0), OpCode::Pop]
    );
    assert_eq!(vm.patch_jump(cond), Ok(()));
    assert_eq!(vm.patch_else_jump(uncond), Ok(()));
    assert_eq!(
        vm.operations(),
        &vec![OpCode::Pop, OpCode::JumpIfFalse(3), OpCode::Jump(2), OpCode::Pop]
    );
    vm.emit_loop(1, 5..6);
    assert_eq!(vm.operations()[4], OpCode::Loop(3));
    assert_eq!(vm.span_at(4), Some(5..6));
}

#[test]
fn scopes_pop_their_locals() {
    let mut vm = Vm::new();
    vm.begin_scope();
    vm.define_variable("a".to_string(), 0..0).unwrap();
    vm.begin_scope();
    vm.define_variable("a".to_string(), 0..0).unwrap();
    vm.define_variable("b".to_string(), 0..0).unwrap();
    assert_eq!(vm.define_variable("b".to_string(), 0..0), Err(Error::DuplicateDeclaration("b".to_string())));
    assert_eq!(vm.resolve_local(&"a".to_string()), Some(1));
    assert_eq!(vm.local_count(), 3);
    vm.end_scope();
    assert_eq!(vm.operations(), &vec![OpCode::Pop, OpCode::Pop]);
    assert_eq!(vm.resolve_local(&"a".to_string()), Some(0));
    assert_eq!(vm.resolve_local(&"b".to_string()), None);
    assert_eq!(vm.scope_depth(), 1);
    vm.end_scope();
    assert_eq!(vm.local_count(), 0);
    assert_eq!(vm.operations().len(), 3);
    vm.define_variable("g".to_string(), 0..0).unwrap();
    assert_eq!(vm.operations()[3], OpCode::DefineGlobal("g".to_string()));
}
