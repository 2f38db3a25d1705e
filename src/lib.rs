pub mod token;
pub mod lox_value;
pub mod host;
pub mod operators;
pub mod ast;
pub mod environment;
pub mod lox_function;
pub mod interpreter;
pub mod resolver;
pub mod grammar;
pub mod parser;
pub mod scanner;
pub mod laws;
pub mod std_fns;
