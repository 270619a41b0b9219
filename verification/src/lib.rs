pub mod ast;
pub mod compiler;
pub mod ir;
pub mod parser;
pub mod text;
