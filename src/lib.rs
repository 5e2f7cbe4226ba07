//! A small compiler for a C/Rust-like language: a byte-level lexer, a
//! recursive-descent parser that allocates stack slots as it goes, and a
//! code generator that emits stack-discipline assembly text.

pub mod codegen;
pub mod diagnostic;
pub mod error;
pub mod expect;
pub mod node;
pub mod token;
pub mod variable;

pub use codegen::{generate, CodeGenError};
pub use diagnostic::{caret_at, Caret};
pub use error::ParseError;
pub use expect::{at_eof, error_tok, expect_number, expect_token};
pub use node::{expr, primary, program, stmt, Node, OpKind};
pub use token::{tokenize, Token, TokenIter, TokenKind};
pub use variable::Variable;
