//! A small persistent clip registry: named text and image snippets stored in
//! one clipboard aggregate, queried through a search-style interface with an
//! optional mode keyword and fuzzy name matching.

pub mod clips;
pub mod text;
pub mod query;
pub mod codec;
pub mod matcher;
pub mod results;
pub mod dispatch;
