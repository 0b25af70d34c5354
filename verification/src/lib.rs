//! Inline code spans that name their own highlighting language.
//!
//! A span such as `` `[rust] let x = 1;` `` is turned into a raw markup
//! fragment that a highlighter picks up at render time; everything else in the
//! document is left as it was.
//!
//! - [`classifier`] decides what one span becomes.
//! - [`rewriter`] applies it to every span of a text unit.
//! - [`document`] holds the events that a unit is made of.
//! - [`markdown`] is the boundary to the parser and the serialiser.
//! - [`config`] holds the settings of a run.
//! - [`text`] compares texts.

pub mod classifier;
pub mod config;
pub mod document;
pub mod markdown;
pub mod rewriter;
pub mod text;
