//! A parser and transformation pipeline for a nested superset of CSS.
//!
//! Source text is parsed into a nested [`ast::Tree`], rewritten by the passes
//! in [`transformers`], flattened into an [`ast::Css`] and rendered back to
//! minified text through [`RenderCss`].

pub mod text;
pub mod utils;
pub mod parser;
pub mod render;
pub mod transform;
pub mod transformers;
pub mod ast;
pub mod builder;

pub use self::builder::{BuildCss, BuildError, CompiledCss};
pub use self::parser::{parse, parse_unchecked, ParseError};
pub use self::render::RenderCss;
pub use self::transform::TransformCss;
