pub mod ast;
pub mod colors;
pub mod diagnostics;
pub mod strings;
pub mod text;
