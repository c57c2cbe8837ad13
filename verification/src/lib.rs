//! Collects the "Quote of the Week" section of markdown documents into one
//! HTML digest.
//!
//! - [`markers`]: the literal texts that open and close a quote section.
//! - [`scan`]: the scan over a document's events that finds the section.
//! - [`markdown`]: parsing and rendering, done by `pulldown_cmark` and taken
//!   on trust.
//! - [`extract`]: the quote of one document, from its text to HTML.
//! - [`digest`]: the quotes of many documents, in order, as one HTML
//!   document.
//! - [`source`]: which file names are those of markdown documents.
//!
//! Reading directories and files and writing the digest are left to the
//! caller, who hands each document over as a name and a text.

pub mod digest;
pub mod extract;
pub mod markdown;
pub mod markers;
pub mod scan;
pub mod source;
