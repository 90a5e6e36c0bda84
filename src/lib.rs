pub mod color;
pub mod config;
pub mod grammar;
pub mod laws;
pub mod parser;
pub mod syntax;
pub mod text;

pub use color::ShadowColor;
pub use config::ConfigFile;
pub use parser::{eval, parse_chars, parse_math, read_expression, read_operand, read_term};
pub use syntax::{Expected, Expr, ParseError};
pub use text::substitute_keywords;
