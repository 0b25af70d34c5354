//! The markup parser and serialiser that the rewriter drives.
//!
//! Parsing and serialising are the work of `pulldown_cmark` and
//! `pulldown_cmark_to_cmark`. Nothing in this file is proved: each item states
//! what the rest of the library takes on trust from those crates.

use crate::document::{events_view, DocEvent, DocEventView, ParserFeatures};
use pulldown_cmark::{Event, Options, Parser};
use pulldown_cmark_to_cmark::cmark;
use vstd::prelude::*;

verus! {

/// `pulldown_cmark::Event`, of which the library sees nothing but that two
/// events are the same or not.
#[verifier::external_type_specification]
#[verifier::external_body]
pub struct ExEvent<'a>(Event<'a>);

/// `pulldown_cmark_to_cmark::Error`, carried to the caller as it came.
#[verifier::external_type_specification]
#[verifier::external_body]
pub struct ExSerializeError(pulldown_cmark_to_cmark::Error);

/// The events that `pulldown_cmark::Parser::new_ext` yields for `text` under
/// the options that `features` stands for.
pub uninterp spec fn parsed_markdown(text: Seq<char>, features: ParserFeatures) -> Seq<
    DocEventView,
>;

/// What `pulldown_cmark_to_cmark::cmark` returns for `events`: the text that
/// it writes for them, or the error that it stops with.
pub uninterp spec fn serialized_markdown(events: Seq<DocEventView>) -> Result<
    Seq<char>,
    pulldown_cmark_to_cmark::Error,
>;

/// Runs `pulldown_cmark::Parser::new_ext` over `text` and collects the events.
/// The parser gets the extensions that `features` switches on and no other.
/// An inline code span and a raw markup event come out with their text, any
/// other event as the parser gave it. The contract only names what the parser
/// yields: it is a function of the text and of the extensions.
#[verifier::external_body]
pub(crate) fn parse_markdown(text: &str, features: ParserFeatures) -> (events: Vec<DocEvent>)
    ensures
        events_view(events@) == parsed_markdown(text@, features),
{
    let mut options = Options::empty();
    options.set(Options::ENABLE_TABLES, features.tables);
    options.set(Options::ENABLE_FOOTNOTES, features.footnotes);
    options.set(Options::ENABLE_STRIKETHROUGH, features.strikethrough);
    options.set(Options::ENABLE_TASKLISTS, features.tasklists);
    options.set(Options::ENABLE_HEADING_ATTRIBUTES, features.heading_attributes);
    options.set(Options::ENABLE_SMART_PUNCTUATION, features.smart_punctuation);
    Parser::new_ext(text, options).map(|event| match event {
        Event::Code(code) => DocEvent::Code(code.into_string()),
        Event::Html(html) => DocEvent::Html(html.into_string()),
        other => DocEvent::Other(other.into_static()),
    }).collect()
}

/// Runs `pulldown_cmark_to_cmark::cmark` over `events` into a fresh string,
/// each event handed over as the parser would have given it. The contract only
/// names what the serialiser returns: the text, or the error, is a function of
/// the events.
#[verifier::external_body]
pub(crate) fn serialize_markdown(events: &Vec<DocEvent>) -> (out: Result<
    String,
    pulldown_cmark_to_cmark::Error,
>)
    ensures
        match out {
            Ok(text) => serialized_markdown(events_view(events@)) == Ok::<
                Seq<char>,
                pulldown_cmark_to_cmark::Error,
            >(text@),
            Err(error) => serialized_markdown(events_view(events@)) == Err::<
                Seq<char>,
                pulldown_cmark_to_cmark::Error,
            >(error),
        },
{
    let raw: Vec<Event<'_>> = events.iter().map(|event| match event {
        DocEvent::Code(code) => Event::Code(code.as_str().into()),
        DocEvent::Html(html) => Event::Html(html.as_str().into()),
        DocEvent::Other(other) => other.clone(),
    }).collect();
    let mut buf = String::new();
    cmark(raw.iter(), &mut buf).map(|_| buf)
}

} // verus!
