use tinylang::ast::{CompoundStatement, Declaration, Program};
use tinylang::error::Error;
use tinylang::lexer::lex::Lexer;
use tinylang::op_code::OpCode;
use tinylang::parse::Parser;
use tinylang::value::Value;
use tinylang::vm::Vm;

fn parse(content: &str) -> Program {
    let mut lex = Lexer::new(content);
    let list = lex.lex();
    let mut parser = Parser::new(list, content);
    parser.parse_program().expect("the source parses")
}

fn main_body(program: &Program) -> &CompoundStatement {
    match program.declarations.last() {
        Some(Declaration::FunctionDeclaration(f)) => &f.body,
        _ => panic!("no function at the end"),
    }
}

/// Compiles the body of `main` into a scope that stays open, so that its
/// locals are still on the stack after running; returns the stack.
fn run_body_open(content: &str) -> (Vec<OpCode>, Vec<Value>) {
    let program = parse(content);
    let body = main_body(&program);
    let mut vm = Vm::new();
    vm.begin_scope();
    for decl in body.local_declaration.iter() {
        decl.emit(&mut vm).unwrap();
    }
    for stmt in body.statement_list.iter() {
        stmt.emit(&mut vm).unwrap();
    }
    vm.exec().unwrap();
    (vm.operations().clone(), vm.stack().clone())
}

#[test]
fn precedence_of_multiplication() {
    let program = parse("int a = 1 + 2 * 3; void main() {}");
    let mut vm = Vm::new();
    program.emit(&mut vm).unwrap();
    assert_eq!(
        vm.operations(),
        &vec![
            OpCode::ConstantI32(1),
            OpCode::ConstantI32(2),
            OpCode::ConstantI32(3),
            OpCode::MultiplyI32,
            OpCode::AddI32,
            OpCode::DefineGlobal("a".to_string()),
            OpCode::Pop
        ]
    );
}

#[test]
fn global_declaration_code() {
    let program = parse("int a = 3 + 2 + 4;\nvoid main() {}\n");
    let mut vm = Vm::new();
    program.emit(&mut vm).unwrap();
    assert_eq!(
        vm.operations(),
        &vec![
            OpCode::ConstantI32(3),
            OpCode::ConstantI32(2),
            OpCode::AddI32,
            OpCode::ConstantI32(4),
            OpCode::AddI32,
            OpCode::DefineGlobal("a".to_string()),
            OpCode::Pop
        ]
    );
    vm.exec().unwrap();
    assert_eq!(vm.stack(), &vec![]);
}

#[test]
fn globals_read_each_other() {
    let program = parse("int a = 2; int b = a * 5; void main() {}");
    let mut vm = Vm::new();
    program.emit(&mut vm).unwrap();
    vm.add_instruction(OpCode::GetGlobal("b".to_string()), 0..0);
    vm.exec().unwrap();
    assert_eq!(vm.stack(), &vec![Value::I32(10)]);
}

#[test]
fn declaration_without_initializer_is_nil() {
    let program = parse("bool flag; void main() {}");
    let mut vm = Vm::new();
    program.emit(&mut vm).unwrap();
    assert_eq!(
        vm.operations(),
        &vec![OpCode::Nil, OpCode::DefineGlobal("flag".to_string()), OpCode::Pop]
    );
}

#[test]
fn program_must_end_with_main() {
    let mut vm = Vm::new();
    assert_eq!(parse("int a = 1;").emit(&mut vm), Err(Error::MissingFunction));
    let mut vm = Vm::new();
    assert_eq!(parse("void start() {}").emit(&mut vm), Err(Error::MissingMain));
    let mut vm = Vm::new();
    assert_eq!(parse("").emit(&mut vm), Err(Error::MissingFunction));
}

#[test]
fn nested_blocks_pop_what_they_declare() {
    let program = parse("void main() { int a = 1; int b = 2; { int c = 3; int a = 4; { } } }");
    let body = main_body(&program);
    let mut vm = Vm::new();
    body.emit(&mut vm).unwrap();
    let ops = vm.operations().clone();
    assert_eq!(
        ops,
        vec![
            OpCode::ConstantI32(1),
            OpCode::ConstantI32(2),
            OpCode::ConstantI32(3),
            OpCode::ConstantI32(4),
            OpCode::Pop,
            OpCode::Pop,
            OpCode::Pop,
            OpCode::Pop
        ]
    );
    vm.exec().unwrap();
    assert_eq!(vm.stack(), &vec![]);
    assert_eq!(vm.local_count(), 0);
}

#[test]
fn inner_declaration_shadows_outer() {
    let (_, stack) = run_body_open("void main() { int a = 1; int r = 0; { int a = 7; r = a; } }");
    assert_eq!(stack, vec![Value::I32(1), Value::I32(7)]);
}

#[test]
fn duplicate_local_is_rejected() {
    let program = parse("void main() { int a = 1; int a = 2; }");
    let mut vm = Vm::new();
    assert_eq!(main_body(&program).emit(&mut vm), Err(Error::DuplicateDeclaration("a".to_string())));
}

#[test]
fn if_takes_the_then_branch() {
    let (ops, stack) = run_body_open("void main() { int x = 0; if (1 < 2) x = 10; else x = 20; }");
    assert_eq!(
        ops,
        vec![
            OpCode::ConstantI32(0),
            OpCode::ConstantI32(1),
            OpCode::ConstantI32(2),
            OpCode::Less,
            OpCode::JumpIfFalse(6),
            OpCode::Pop,
            OpCode::ConstantI32(10),
            OpCode::SetLocal(0),
            OpCode::Pop,
            OpCode::Jump(5),
            OpCode::Pop,
            OpCode::ConstantI32(20),
            OpCode::SetLocal(0),
            OpCode::Pop
        ]
    );
    assert_eq!(stack, vec![Value::I32(10)]);
}

#[test]
fn if_takes_the_else_branch() {
    let (_, stack) = run_body_open("void main() { int x = 0; if (2 < 1) x = 10; else x = 20; }");
    assert_eq!(stack, vec![Value::I32(20)]);
}

#[test]
fn if_without_else_leaves_no_test_value() {
    let (_, stack) = run_body_open("void main() { int x = 5; if (x == 6) x = 1; }");
    assert_eq!(stack, vec![Value::I32(5)]);
    let (_, stack) = run_body_open("void main() { int x = 6; if (x == 6) x = 1; }");
    assert_eq!(stack, vec![Value::I32(1)]);
}

#[test]
fn while_runs_the_body_n_times() {
    let (ops, stack) = run_body_open(
        "void main() { int i = 0; int s = 0; while (i < 5) { s = s + 2; i = i + 1; } }",
    );
    assert_eq!(stack, vec![Value::I32(5), Value::I32(10)]);
    assert_eq!(ops[5], OpCode::JumpIfFalse(13));
    assert_eq!(ops[17], OpCode::Loop(15));
    assert_eq!(ops[18], OpCode::Pop);
    assert_eq!(ops.len(), 19);
}

#[test]
fn while_with_false_test_skips_the_body() {
    let (_, stack) = run_body_open("void main() { int i = 0; while (i < 0) i = i + 1; }");
    assert_eq!(stack, vec![Value::I32(0)]);
}

#[test]
fn assignment_to_a_global_is_rejected() {
    let program = parse("int g = 1; void main() { g = 2; }");
    let mut vm = Vm::new();
    assert_eq!(main_body(&program).emit(&mut vm), Err(Error::GlobalAssignment("g".to_string())));
}

#[test]
fn return_and_calls_are_not_compiled() {
    let program = parse("void main() { return; }");
    let mut vm = Vm::new();
    assert_eq!(main_body(&program).emit(&mut vm), Err(Error::Unsupported));
    let program = parse("int f(void) { } void main() { f(); }");
    let mut vm = Vm::new();
    assert_eq!(main_body(&program).emit(&mut vm), Err(Error::Unsupported));
}

#[test]
fn array_declaration_is_not_compiled() {
    let program = parse("int a[3] = {1, 2, 3}; void main() {}");
    let mut vm = Vm::new();
    assert_eq!(program.emit(&mut vm), Err(Error::Unsupported));
}

#[test]
fn parse_errors_name_the_token() {
    let content = "int = 3;";
    let mut lex = Lexer::new(content);
    let list = lex.lex();
    let mut parser = Parser::new(list, content);
    let e = parser.parse_program().err().unwrap();
    assert_eq!(e.start, 4);
    assert_eq!(e.end, 5);
}

#[test]
fn comments_are_skipped_by_the_parser() {
    let program = parse("/* first */ int a = 1; /* second */ void main() { }");
    assert_eq!(program.declarations.len(), 2);
}

#[test]
fn number_too_large_is_a_parse_error() {
    let content = "int a = 99999999999; void main() {}";
    let mut lex = Lexer::new(content);
    let list = lex.lex();
    let mut parser = Parser::new(list, content);
    assert!(parser.parse_program().is_err());
}

#[test]
fn runtime_errors_point_at_source() {
    let program = parse("int a = 1 + true; void main() {}");
    let mut vm = Vm::new();
    program.emit(&mut vm).unwrap();
    assert_eq!(vm.exec(), Err(Error::KindMismatch(2)));
    assert_eq!(vm.span_at(2), Some(10..11));
    assert_eq!(vm.span_at(99), None);
}
