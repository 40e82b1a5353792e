pub mod ast;
pub mod fold;
pub mod literal;
pub mod translate;
pub mod tree;
