//! Passes that rewrite a stylesheet before or after it is flattened.

pub mod apply_import;
pub mod apply_mixin;
pub mod apply_var;
pub mod dedupe;
pub mod filter_refs;
pub mod inline_url;

pub use self::apply_import::apply_import;
pub use self::apply_mixin::apply_mixin;
pub use self::apply_var::apply_var;
pub use self::dedupe::dedupe;
pub use self::filter_refs::filter_refs;
pub use self::inline_url::{asset_paths, inline_url, url_references, Asset};
