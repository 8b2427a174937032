pub mod environment;
pub mod rules;
pub mod type_checker;
pub mod properties;
pub mod typing;

pub use type_checker::{type_check, TypeError};
