//! Configurable Markdown-to-HTML rendering: option coercion, heading ids,
//! mention links and a single-pass rewrite of the parser's event stream.

pub mod text;
pub mod options;
pub mod events;
pub mod cmark;
pub mod header;
pub mod mention;
pub mod pipeline;
