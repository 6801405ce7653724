pub mod field;
pub mod grid;
pub mod operators;
pub mod system;
