pub mod lexer;
pub mod ast;
pub mod parser;
pub mod precedence;
pub mod spelling;
pub mod ir;
pub mod codegen;
pub mod optimizer;
