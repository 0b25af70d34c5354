//! The document rewriter: one text unit in, the same unit with its inline code
//! spans classified out.

use crate::classifier::{
    classify, classify_spec, language_view, read_span, span_fault, OutputKind, Span, TagFault,
    ESCAPE_CHAR,
};
use crate::document::{events_view, DocEvent, DocEventView, ParserFeatures};
use crate::markdown::{parse_markdown, parsed_markdown, serialize_markdown, serialized_markdown};
use vstd::prelude::*;
use vstd::string::*;

verus! {

/// The extensions that every unit is parsed with; smart punctuation is the one
/// that the host decides.
pub open spec fn parser_features_spec(smart_punctuation: bool) -> ParserFeatures {
    ParserFeatures {
        tables: true,
        footnotes: true,
        strikethrough: true,
        tasklists: true,
        heading_attributes: true,
        smart_punctuation,
    }
}

/// What one event becomes: an inline code span is replaced by what the
/// classifier makes of its text, any other event stays.
pub open spec fn rewrite_event(
    event: DocEventView,
    default_language: Option<Seq<char>>,
) -> DocEventView {
    match event {
        DocEventView::Code(code) => {
            let outcome = classify_spec(code, default_language);
            match outcome.kind {
                OutputKind::RawMarkup => DocEventView::Html(outcome.text),
                OutputKind::PlainCode => DocEventView::Code(outcome.text),
            }
        },
        other => other,
    }
}

/// What a sequence of events becomes: each event rewritten, in its place.
pub open spec fn rewrite_events_spec(
    events: Seq<DocEventView>,
    default_language: Option<Seq<char>>,
) -> Seq<DocEventView> {
    events.map_values(|event: DocEventView| rewrite_event(event, default_language))
}

/// The fault that one event gives rise to, if any.
pub open spec fn event_fault(event: DocEventView) -> Option<TagFault> {
    match event {
        DocEventView::Code(code) => span_fault(code),
        _ => None,
    }
}

/// The faults of a sequence of events, in the order of the events.
pub open spec fn faults_spec(events: Seq<DocEventView>) -> Seq<TagFault> {
    events.filter(|event: DocEventView| event_fault(event) is Some).map_values(
        |event: DocEventView| event_fault(event)->Some_0,
    )
}

/// Why a unit could not be rewritten.
#[derive(Debug)]
pub enum RewriteError {
    /// The rewritten events could not be written back as text.
    Serialization(pulldown_cmark_to_cmark::Error),
}

/// The text that a unit is rewritten to, or the error that stops it.
pub open spec fn rewrite_spec(
    unit_text: Seq<char>,
    default_language: Option<Seq<char>>,
    smart_punctuation: bool,
) -> Result<Seq<char>, RewriteError> {
    let events = parsed_markdown(unit_text, parser_features_spec(smart_punctuation));
    match serialized_markdown(rewrite_events_spec(events, default_language)) {
        Ok(text) => Ok(text),
        Err(error) => Err(RewriteError::Serialization(error)),
    }
}

/// The faults in the inline code spans of a unit, in document order.
pub open spec fn unit_faults(unit_text: Seq<char>, smart_punctuation: bool) -> Seq<TagFault> {
    faults_spec(parsed_markdown(unit_text, parser_features_spec(smart_punctuation)))
}

/// The outcome of rewriting one unit.
#[derive(Debug)]
pub struct Rewritten {
    /// The unit's new text; its old text where the rewriting failed.
    pub text: String,
    /// The faults in the unit's inline code spans, in document order.
    pub faults: Vec<TagFault>,
    /// Set where the rewriting failed.
    pub error: Option<RewriteError>,
}

/// The extensions that every unit is parsed with.
pub fn parser_features(smart_punctuation: bool) -> (features: ParserFeatures)
    ensures
        features == parser_features_spec(smart_punctuation),
{
    ParserFeatures {
        tables: true,
        footnotes: true,
        strikethrough: true,
        tasklists: true,
        heading_attributes: true,
        smart_punctuation,
    }
}

/// Parses one text unit into its events.
pub fn parse_events(unit_text: &str, smart_punctuation: bool) -> (events: Vec<DocEvent>)
    ensures
        events_view(events@) == parsed_markdown(
            unit_text@,
            parser_features_spec(smart_punctuation),
        ),
{
    parse_markdown(unit_text, parser_features(smart_punctuation))
}

/// The faults of the first `i + 1` events are those of the first `i`, and
/// behind them the fault of the event at `i` where it has one.
proof fn lemma_faults_step(events: Seq<DocEventView>, i: int)
    requires
        0 <= i < events.len(),
    ensures
        faults_spec(events.take(i + 1)) == match event_fault(events[i]) {
            Some(fault) => faults_spec(events.take(i)).push(fault),
            None => faults_spec(events.take(i)),
        },
{
    reveal(Seq::filter);
    let has_fault = |event: DocEventView| event_fault(event) is Some;
    let fault_of = |event: DocEventView| event_fault(event)->Some_0;
    assert(events.take(i + 1).drop_last() =~= events.take(i));
    if event_fault(events[i]) is Some {
        assert(events.take(i + 1).filter(has_fault) == events.take(i).filter(has_fault).push(
            events[i],
        ));
        assert(events.take(i).filter(has_fault).push(events[i]).map_values(fault_of)
            =~= events.take(i).filter(has_fault).map_values(fault_of).push(fault_of(events[i])));
    }
}

/// Rewrites the events of one unit in place and gives the faults met on the
/// way, in document order.
pub fn rewrite_events(
    events: &mut Vec<DocEvent>,
    default_language: Option<&str>,
) -> (faults: Vec<TagFault>)
    ensures
        final(events)@.len() == old(events)@.len(),
        events_view(final(events)@) == rewrite_events_spec(
            events_view(old(events)@),
            language_view(default_language),
        ),
        faults@ == faults_spec(events_view(old(events)@)),
{
    let ghost before = events_view(events@);
    let ghost language = language_view(default_language);
    let mut faults: Vec<TagFault> = Vec::new();
    let n = events.len();
    let mut i: usize = 0;
    while i < n
        invariant
            i <= n,
            events@.len() == n,
            before.len() == n,
            language == language_view(default_language),
            forall|j: int|
                0 <= j < i ==> (#[trigger] events@[j])@ == rewrite_event(before[j], language),
            forall|j: int| i <= j < n ==> (#[trigger] events@[j])@ == before[j],
            faults@ == faults_spec(before.take(i as int)),
        decreases n - i,
    {
        proof {
            lemma_faults_step(before, i as int);
        }
        let replacement = match &events[i] {
            DocEvent::Code(code) => Some(classify(code.as_str(), default_language)),
            _ => None,
        };
        if let Some(classified) = replacement {
            if let Some(fault) = classified.fault {
                faults.push(fault);
            }
            let event = match classified.kind {
                OutputKind::RawMarkup => DocEvent::Html(classified.text),
                OutputKind::PlainCode => DocEvent::Code(classified.text),
            };
            events.set(i, event);
        }
        i += 1;
    }
    proof {
        assert(before.take(n as int) =~= before);
        assert(events_view(events@) =~= rewrite_events_spec(before, language));
    }
    faults
}

/// Writes events back as text.
pub fn serialize_events(events: &Vec<DocEvent>) -> (out: Result<String, RewriteError>)
    ensures
        match out {
            Ok(text) => serialized_markdown(events_view(events@)) == Ok::<
                Seq<char>,
                pulldown_cmark_to_cmark::Error,
            >(text@),
            Err(RewriteError::Serialization(error)) => serialized_markdown(events_view(events@))
                == Err::<Seq<char>, pulldown_cmark_to_cmark::Error>(error),
        },
{
    match serialize_markdown(events) {
        Ok(text) => Ok(text),
        Err(error) => Err(RewriteError::Serialization(error)),
    }
}

/// Rewrites one text unit: parses it, replaces each inline code span by what
/// the classifier makes of it, and writes the events back as text. Where they
/// cannot be written back, the unit keeps its text and the error is handed
/// out. The faults of the spans are reported either way.
pub fn rewrite(
    unit_text: &str,
    default_language: Option<&str>,
    smart_punctuation: bool,
) -> (r: Rewritten)
    ensures
        r.faults@ == unit_faults(unit_text@, smart_punctuation),
        match rewrite_spec(unit_text@, language_view(default_language), smart_punctuation) {
            Ok(text) => r.text@ == text && r.error is None,
            Err(error) => r.text@ == unit_text@ && r.error == Some(error),
        },
{
    let mut events = parse_events(unit_text, smart_punctuation);
    let faults = rewrite_events(&mut events, default_language);
    match serialize_events(&events) {
        Ok(text) => Rewritten { text, faults, error: None },
        Err(error) => Rewritten { text: String::from_str(unit_text), faults, error: Some(error) },
    }
}

/// Rewriting keeps the number and the order of the events, and changes none
/// that is not an inline code span.
pub proof fn lemma_other_events_unchanged(
    events: Seq<DocEventView>,
    default_language: Option<Seq<char>>,
)
    ensures
        rewrite_events_spec(events, default_language).len() == events.len(),
        forall|i: int|
            0 <= i < events.len() && !(events[i] is Code) ==> #[trigger] rewrite_events_spec(
                events,
                default_language,
            )[i] == events[i],
{
}

/// An event that a pass leaves as it is: anything but an inline code span
/// that starts with the escape character or reads as `[tag] body`.
pub open spec fn is_settled(event: DocEventView) -> bool {
    match event {
        DocEventView::Code(code) => !(read_span(code) is Tagged) && (code.len() > 0 ==> code[0]
            != ESCAPE_CHAR),
        _ => true,
    }
}

/// A second pass changes no event that the first pass has turned into raw
/// markup.
pub proof fn lemma_second_pass_keeps_markup(
    events: Seq<DocEventView>,
    default_language: Option<Seq<char>>,
    i: int,
)
    requires
        0 <= i < events.len(),
        rewrite_events_spec(events, default_language)[i] is Html,
    ensures
        rewrite_events_spec(rewrite_events_spec(events, default_language), default_language)[i]
            == rewrite_events_spec(events, default_language)[i],
{
}

/// A second pass changes nothing at all exactly where the first pass has left
/// only settled events.
pub proof fn lemma_second_pass(events: Seq<DocEventView>, default_language: Option<Seq<char>>)
    ensures
        (rewrite_events_spec(rewrite_events_spec(events, default_language), default_language)
            == rewrite_events_spec(events, default_language)) <==> (forall|i: int|
            0 <= i < events.len() ==> is_settled(
                #[trigger] rewrite_events_spec(events, default_language)[i],
            )),
{
    let once = rewrite_events_spec(events, default_language);
    let twice = rewrite_events_spec(once, default_language);
    if forall|i: int| 0 <= i < events.len() ==> is_settled(#[trigger] once[i]) {
        assert forall|i: int| 0 <= i < events.len() implies twice[i] == once[i] by {
            lemma_settled_after_pass(events[i], default_language);
        }
        assert(twice =~= once);
    }
    if twice == once {
        assert forall|i: int| 0 <= i < events.len() implies is_settled(#[trigger] once[i]) by {
            lemma_settled_after_pass(events[i], default_language);
        }
    }
}

/// Of what a pass has made of an event, a second pass changes nothing exactly
/// where it is settled.
proof fn lemma_settled_after_pass(event: DocEventView, default_language: Option<Seq<char>>)
    ensures
        (rewrite_event(rewrite_event(event, default_language), default_language) == rewrite_event(
            event,
            default_language,
        )) <==> is_settled(rewrite_event(event, default_language)),
{
    let once = rewrite_event(event, default_language);
    if let DocEventView::Code(code) = once {
        if code.len() == 0 {
            assert(code =~= Seq::empty());
        } else {
            match read_span(code) {
                Span::Tagged { tag, body } => {
                    assert(body.len() < code.len());
                },
                Span::Untagged { body } => {
                    if code[0] == ESCAPE_CHAR {
                        assert(body.len() < code.len());
                    }
                },
                _ => {},
            }
        }
    }
}

} // verus!
