//! Extraction of structured audiobook metadata and a chapter list from the
//! raw markup of a single book page.
//!
//! Two independent pipelines run over the same input text:
//! - the metadata extractor answers six fixed structural queries against a
//!   parsed document and assembles a [`BookInfo`], failing atomically when a
//!   required field has no matching element;
//! - the chapter pipeline locates the embedded player-constructor invocation
//!   in the raw text, isolates its argument list, and decodes it against a
//!   fixed positional schema into an ordered sequence of [`BookChapter`]s.

mod chapters;
mod decoder;
mod locator;
mod metadata;
mod query;
mod text;

pub use chapters::{extract_book_chapters, ChapterError, SchemaDetail};
pub use decoder::BookChapter;
pub use metadata::{extract_book_info, BookField, BookInfo, MetadataError};
pub use text::trim_ws;
