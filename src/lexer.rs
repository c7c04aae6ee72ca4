pub mod lex;
pub mod state;
pub mod token;
pub mod util;
