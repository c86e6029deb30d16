//! Decoding delimiter-separated lines against a schema.
//!
//! A [`Schema`] names a delimiter, a quote mark and the kinds of line that a
//! file may hold. A [`Parser`] made of it cuts a line into tokens, finds the
//! kind of line that the first token names, and decodes every further token
//! against the field in its place. What comes out is a record of typed
//! values, or the first failure.
//!
//! Every function states what it returns over sequences of characters, so
//! that the outcome of decoding a line is a function of the schema, the
//! line and what the caller read from its floating-point tokens.

pub mod binary64;
pub mod calendar;
pub mod decimal;
pub mod decode;
pub mod laws;
pub mod number;
pub mod parser;
pub mod schema;
pub mod text;
pub mod token;
pub mod value;

pub use parser::Parser;
pub use schema::{Field, Line, Schema};
pub use token::Token;
pub use value::{ConfigError, DecodeFailure, FieldError, ParseError, Value};
