//! Front end of a mixfix, chaining-oriented expression language: a lexer
//! with one-token look-ahead, a recursive-descent parser over three levels
//! of chaining precedence, a lowering to canonical S-expressions, and the
//! canonical stringifier. Every operation is specified against spec-level
//! models of lexing, parsing and lowering, so that parsing is proved to be
//! a function of the source text alone.

pub mod cst;
pub mod host;
pub mod laws;
pub mod parser;
pub mod position;
pub mod sexp;
pub mod token;
pub mod tokenizer;

pub use parser::parse;
pub use parser::ParseError;
pub use parser::ParseResult;
pub use parser::Parser;
pub use position::Position;
pub use position::Span;
pub use sexp::Sexp;
pub use token::Token;
pub use token::TokenKind;
pub use token::TokenizeError;
pub use tokenizer::Tokenizer;
