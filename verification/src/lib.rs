//! A front end and tree-walking interpreter for the Amy language: lexing, parsing,
//! name resolution, type checking and evaluation, each stage with its contract.
pub mod diagnostics;
pub mod ast;
pub mod name_analyzer;
pub mod parser;
pub mod text;
pub mod interpreter;
pub mod typecheck;
