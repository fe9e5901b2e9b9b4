pub mod counter;
pub mod evaluator;
pub mod lexer;
pub mod parser;
pub mod tree;
