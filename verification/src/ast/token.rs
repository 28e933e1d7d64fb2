//! Lexical primitives shared by every grammar rule.

pub mod chars;
pub mod ident;
pub mod space;
pub mod symbol;
pub mod string;

pub use self::ident::Ident;
pub use self::space::{comment0, comment1, sep0, trim_whitespace, NeedsWhitespaceStringExt};
pub use self::string::parse_string_literal;
pub use self::symbol::parse_symbol;
