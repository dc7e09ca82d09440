//! Turns a folder of plain-text notes into one summarisation prompt and
//! judges the answer of a text-generation service.
//!
//! A run goes through the modules in this order: [`config`] settles the
//! endpoint, the model and the directory; [`listing`] picks the note files
//! out of the directory listing; [`note`] splits each document into metadata
//! and body; [`prompt`] joins the bodies into one delimited prompt;
//! [`client`] frames the request and judges what the service answers; and
//! [`pipeline`] ties these steps into the two halves of a run, before and
//! after the one request. [`text`] holds the character-level helpers and
//! [`error`] the ways in which a run can fail.
//!
//! The library does no input or output of its own: the caller lists and reads
//! the files, sends the request, and prints the result.

pub mod client;
pub mod config;
pub mod error;
pub mod listing;
pub mod note;
pub mod pipeline;
pub mod prompt;
pub mod text;
