//! Core of a small programming language: an LL(1) recursive-descent parser
//! producing a positioned AST, a runtime entry layer that plans worker
//! start-up, and a uniform I/O operation layer over files, standard streams
//! and byte buffers.

pub mod ast;
pub mod io;
pub mod runtime;
pub mod parser;
pub mod precedence;
pub mod thread;
pub mod token;

pub use ast::BinaryOp;
pub use ast::Node;
pub use ast::ParseError;
pub use ast::ParseResult;
pub use parser::Parser;
pub use token::Token;
pub use token::TokenKind;
