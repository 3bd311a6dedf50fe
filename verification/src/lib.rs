//! Verified engine for exporting a discussion thread (a post plus its nested
//! reply tree) into a Markdown or HTML document.
//!
//! The crate covers the comment-tree flattening, content filtering, display
//! formatting, document rendering and target-path resolution.  Network and
//! file-system work stays outside; the library consumes and produces plain
//! values.

pub mod cli_args;
pub mod content_builder;
pub mod filters;
pub mod formatting;
pub mod markdown;
pub mod media;
pub mod numbers;
pub mod paths;
pub mod render;
pub mod replies;
pub mod settings;
pub mod stats;
pub mod text;
pub mod time;
pub mod urls;
