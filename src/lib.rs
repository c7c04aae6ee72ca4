pub mod ast;
pub mod emit_op;
pub mod error;
pub mod op_code;
pub mod parse;
pub mod value;
pub mod globals;
pub mod machine;
pub mod vm;
pub mod lexer;
