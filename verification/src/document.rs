//! A document as the rewriter sees it: a sequence of events, of which it
//! reads the inline code spans and the raw markup, and carries the rest.

use pulldown_cmark::Event;
use vstd::prelude::*;

verus! {

/// One event of a parsed document.
#[derive(Debug, PartialEq)]
pub enum DocEvent {
    /// An inline code span, with its text.
    Code(String),
    /// Raw markup, with its text.
    Html(String),
    /// Any other event, carried as the parser gave it.
    Other(Event<'static>),
}

/// A document event as a mathematical value.
pub enum DocEventView {
    /// An inline code span, with its text.
    Code(Seq<char>),
    /// Raw markup, with its text.
    Html(Seq<char>),
    /// Any other event.
    Other(Event<'static>),
}

impl View for DocEvent {
    type V = DocEventView;

    open spec fn view(&self) -> DocEventView {
        match self {
            DocEvent::Code(s) => DocEventView::Code(s@),
            DocEvent::Html(s) => DocEventView::Html(s@),
            DocEvent::Other(e) => DocEventView::Other(*e),
        }
    }
}

/// The extensions of the markup language that a parser can be run with: each
/// is on or off.
#[derive(Clone, Copy, Debug, PartialEq, Eq, Structural)]
pub struct ParserFeatures {
    /// Tables.
    pub tables: bool,
    /// Footnotes.
    pub footnotes: bool,
    /// Struck-through text.
    pub strikethrough: bool,
    /// Task lists.
    pub tasklists: bool,
    /// Identifiers, classes and attributes on headings.
    pub heading_attributes: bool,
    /// Typographic quotes, dashes and ellipses in place of the plain ones.
    pub smart_punctuation: bool,
}

/// The events of a sequence, each as a mathematical value.
pub open spec fn events_view(events: Seq<DocEvent>) -> Seq<DocEventView> {
    events.map_values(|e: DocEvent| e@)
}

} // verus!
