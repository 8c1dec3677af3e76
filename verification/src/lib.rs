//! A front end for a small SQL dialect: a lexer, a recursive-descent
//! statement parser for `SELECT` and `CREATE TABLE`, and an
//! operator-precedence parser for the expressions inside `CHECK` constraints.
//!
//! Every function carries a contract over a mathematical model of its
//! arguments: text is a `Seq<char>`, a token sequence a `Seq<TokenView>`, and
//! each parser is described by a spec function from a token sequence and a
//! cursor to an outcome and the number of tokens consumed.
//!
//! - `text`: character classes and string comparison.
//! - `tokenizer`: tokens, and the lexer that reads them from text.
//! - `ast`: the syntax tree.
//! - `error`: the errors of the statement parser.
//! - `pratt`: the expression parser.
//! - `parser`: the statement parser, and `parse_sql` from text to tree.
//! - `laws`: theorems about what the parsers compute.
pub mod ast;
pub mod error;
pub mod laws;
pub mod parser;
pub mod pratt;
pub mod text;
pub mod tokenizer;
