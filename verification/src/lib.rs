//! A compiler front end for a small, strongly typed language: a lexer, a
//! recursive-descent parser and an IR generator, each verified against a
//! mathematical model of what it computes.

pub mod token;
pub mod text;
pub mod lexer;
pub mod lexer_laws;
pub mod lexer_spacing;
pub mod numbers;
pub mod ast;
pub mod grammar;
pub mod parser;
pub mod parser_laws;
pub mod ir;
pub mod ir_gen;
pub mod ir_laws;
pub mod memory;
