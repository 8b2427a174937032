pub mod ast;
pub mod tac;
