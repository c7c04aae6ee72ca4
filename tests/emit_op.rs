use tinylang::error::Error;
use tinylang::lexer::lex::Lexer;
use tinylang::op_code::OpCode::{
    AddI32, ConstantI32, DefineGlobal, DivideI32, MultiplyI32, Pop, SubtractI32,
};
use tinylang::parse::Parser;
use tinylang::vm::Vm;

fn get_vm_after_emit(content: &str) -> Result<Vm, Error> {
    let mut lex = Lexer::new(content);
    let list = lex.lex();
    let mut parser = Parser::new(list, content);
    let program = parser.parse_program().expect("the source parses");
    let mut vm = Vm::new();
    program.emit(&mut vm)?;
    Ok(vm)
}

#[test]
fn test_expression() {
    let content = r#"
        int a = 1 + 2 * 3;
        void main() {}
        "#;
    let vm = get_vm_after_emit(&content).unwrap();
    assert_eq!(
        vm.operations(),
        &vec![
            ConstantI32(1),
            ConstantI32(2),
            ConstantI32(3),
            MultiplyI32,
            AddI32,
            DefineGlobal("a".into()),
            Pop
        ]
    );

    let content = r#"
        int a = 1 + 2 * 3 - 4 / 5;
        void main() {}
        "#;
    let vm = get_vm_after_emit(&content).unwrap();
    assert_eq!(
        vm.operations(),
        &vec![
            ConstantI32(1),
            ConstantI32(2),
            ConstantI32(3),
            MultiplyI32,
            AddI32,
            ConstantI32(4),
            ConstantI32(5),
            DivideI32,
            SubtractI32,
            DefineGlobal("a".into()),
            Pop
        ]
    );
}
