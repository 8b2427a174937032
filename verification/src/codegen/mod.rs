pub mod lowering;
pub mod tac_code_gen;
pub mod scope;
pub mod meaning;
