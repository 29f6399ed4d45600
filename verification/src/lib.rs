//! Page-by-page document translation: the rules of the pipeline.
//!
//! A document is probed one page at a time, every page found is handed to a
//! translation service, and the translated pages are put back together in
//! page order. This crate holds the decisions of that pipeline as verified
//! functions on plain values; running the extractor and talking to the
//! service is left to the caller.
//!
//! - [`extraction`]: how the extractor is asked for a page, and whether it
//!   found one.
//! - [`discovery`]: the page counter, which finds the end of the document.
//! - [`translator`]: the request for one page, and what a reply is worth.
//! - [`join`]: the final text, and the barrier that waits for every page.
//! - [`pipeline`]: counter and barrier kept in step.
//! - [`progress`]: the lines said along the way.
//! - [`text`]: decimal numerals.

pub mod discovery;
pub mod extraction;
pub mod join;
pub mod pipeline;
pub mod progress;
pub mod text;
pub mod translator;
