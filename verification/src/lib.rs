pub mod ir;
pub mod text;
pub mod semantic;
pub mod codegen;
