use mdbook_inline_highlighting::classifier::TagFault;
use mdbook_inline_highlighting::document::{DocEvent, ParserFeatures};
use mdbook_inline_highlighting::rewriter::{
    parse_events, parser_features, rewrite, rewrite_events, serialize_events, RewriteError,
};
use pulldown_cmark::{CowStr, Event, HeadingLevel, Tag, TagEnd};

fn text(s: &'static str) -> DocEvent {
    DocEvent::Other(Event::Text(CowStr::Borrowed(s)))
}

fn code(s: &str) -> DocEvent {
    DocEvent::Code(s.to_string())
}

fn html(s: &str) -> DocEvent {
    DocEvent::Html(s.to_string())
}

#[test]
fn fixed_extensions_are_always_on() {
    assert_eq!(
        parser_features(false),
        ParserFeatures {
            tables: true,
            footnotes: true,
            strikethrough: true,
            tasklists: true,
            heading_attributes: true,
            smart_punctuation: false,
        }
    );
    assert_eq!(
        parser_features(true),
        ParserFeatures {
            tables: true,
            footnotes: true,
            strikethrough: true,
            tasklists: true,
            heading_attributes: true,
            smart_punctuation: true,
        }
    );
}

#[test]
fn parsing_tells_code_spans_from_the_rest() {
    let events = parse_events("a `[js] x` b", false);
    assert_eq!(
        events,
        vec![
            DocEvent::Other(Event::Start(Tag::Paragraph)),
            text("a "),
            code("[js] x"),
            text(" b"),
            DocEvent::Other(Event::End(TagEnd::Paragraph)),
        ]
    );
}

#[test]
fn parsing_an_empty_unit_gives_no_events() {
    assert_eq!(parse_events("", false), vec![]);
}

#[test]
fn parsing_reads_strikethrough() {
    let events = parse_events("~~gone~~", false);
    assert!(events.contains(&DocEvent::Other(Event::Start(Tag::Strikethrough))));
}

#[test]
fn parsing_reads_task_lists() {
    let events = parse_events("- [x] done\n- [ ] open\n", false);
    assert!(events.contains(&DocEvent::Other(Event::TaskListMarker(true))));
    assert!(events.contains(&DocEvent::Other(Event::TaskListMarker(false))));
}

#[test]
fn parsing_reads_tables() {
    let events = parse_events("| a | b |\n|---|---|\n| 1 | 2 |\n", false);
    assert!(events.contains(&DocEvent::Other(Event::Start(Tag::TableHead))));
    assert!(events.contains(&DocEvent::Other(Event::End(TagEnd::Table))));
}

#[test]
fn parsing_reads_footnotes() {
    let events = parse_events("See[^1].\n\n[^1]: The note.\n", false);
    assert!(events.contains(&DocEvent::Other(Event::FootnoteReference(CowStr::Borrowed("1")))));
}

#[test]
fn parsing_reads_heading_attributes() {
    let events = parse_events("# Title {#top}\n", false);
    assert_eq!(
        events[0],
        DocEvent::Other(Event::Start(Tag::Heading {
            level: HeadingLevel::H1,
            id: Some(CowStr::Borrowed("top")),
            classes: Vec::new(),
            attrs: Vec::new(),
        }))
    );
}

#[test]
fn smart_punctuation_is_the_hosts_choice() {
    let plain = parse_events("a -- b", false);
    assert!(plain.contains(&text("a -- b")));
    let smart = parse_events("a -- b", true);
    assert!(!smart.contains(&text("a -- b")));
    assert!(smart.contains(&text("–")));
}

#[test]
fn rewriting_replaces_code_spans_in_place() {
    let mut events = vec![
        DocEvent::Other(Event::Start(Tag::Paragraph)),
        text("see "),
        code("[js] x"),
        code("plain"),
        code("[bad"),
        html("<b>"),
        code("[js]y"),
        code("[none] z"),
        code("\\[js] w"),
        code(""),
        DocEvent::Other(Event::End(TagEnd::Paragraph)),
    ];
    let faults = rewrite_events(&mut events, None);
    assert_eq!(
        events,
        vec![
            DocEvent::Other(Event::Start(Tag::Paragraph)),
            text("see "),
            html("<code class=\"hljs language-js\">x</code>"),
            code("plain"),
            code("[bad"),
            html("<b>"),
            code("[js]y"),
            code("z"),
            code("[js] w"),
            code(""),
            DocEvent::Other(Event::End(TagEnd::Paragraph)),
        ]
    );
    assert_eq!(faults, vec![TagFault::MissingClose, TagFault::MissingSeparator]);
}

#[test]
fn rewriting_with_a_default_wraps_every_span_but_the_empty_one() {
    let mut events = vec![
        code("[js] x"),
        code("plain"),
        code("[bad"),
        text("[js] not code"),
        code("[none] z"),
        code(""),
        code("[py]q"),
    ];
    let faults = rewrite_events(&mut events, Some("rs"));
    assert_eq!(
        events,
        vec![
            html("<code class=\"hljs language-js\">x</code>"),
            html("<code class=\"hljs language-rs\">plain</code>"),
            html("<code class=\"hljs language-rs\">[bad</code>"),
            text("[js] not code"),
            html("<code class=\"hljs language-rs\">z</code>"),
            code(""),
            html("<code class=\"hljs language-rs\">[py]q</code>"),
        ]
    );
    assert_eq!(faults, vec![TagFault::MissingClose, TagFault::MissingSeparator]);
}

#[test]
fn rewriting_nothing_gives_nothing() {
    let mut events: Vec<DocEvent> = Vec::new();
    let faults = rewrite_events(&mut events, Some("rs"));
    assert_eq!(events, vec![]);
    assert_eq!(faults, vec![]);
}

#[test]
fn events_that_are_not_code_spans_pass_unchanged() {
    let source = "# Title\n\n*emph* and [link](http://x.y) and ~~old~~\n\n| a | b |\n|---|---|\n| 1 | 2 |\n";
    let before = parse_events(source, false);
    let mut after = parse_events(source, false);
    let faults = rewrite_events(&mut after, Some("js"));
    assert_eq!(before, after);
    assert_eq!(faults, vec![]);
}

#[test]
fn a_second_pass_leaves_wrapped_spans_alone() {
    let mut once = vec![text("a"), code("[js] x"), code("y"), code("\\z"), code("")];
    rewrite_events(&mut once, Some("rs"));
    let mut twice = vec![
        text("a"),
        html("<code class=\"hljs language-js\">x</code>"),
        html("<code class=\"hljs language-rs\">y</code>"),
        html("<code class=\"hljs language-rs\">z</code>"),
        code(""),
    ];
    assert_eq!(once, twice);
    let faults = rewrite_events(&mut twice, Some("rs"));
    assert_eq!(once, twice);
    assert_eq!(faults, vec![]);
}

#[test]
fn a_second_pass_reads_what_an_escape_left() {
    let mut events = vec![code("\\[js] x")];
    rewrite_events(&mut events, None);
    assert_eq!(events, vec![code("[js] x")]);
    rewrite_events(&mut events, None);
    assert_eq!(events, vec![html("<code class=\"hljs language-js\">x</code>")]);
}

#[test]
fn serializing_writes_code_and_markup() {
    let events = vec![
        DocEvent::Other(Event::Start(Tag::Paragraph)),
        text("a "),
        code("b"),
        text(" c "),
        html("<i>d</i>"),
        DocEvent::Other(Event::End(TagEnd::Paragraph)),
    ];
    assert_eq!(serialize_events(&events).unwrap(), "a `b` c <i>d</i>");
}

#[test]
fn serializing_nothing_gives_the_empty_text() {
    assert_eq!(serialize_events(&Vec::new()).unwrap(), "");
}

#[test]
fn serializing_an_impossible_sequence_fails() {
    let events = vec![DocEvent::Other(Event::End(TagEnd::Link))];
    match serialize_events(&events) {
        Err(RewriteError::Serialization(pulldown_cmark_to_cmark::Error::UnexpectedEvent)) => {}
        other => panic!("unexpected: {:?}", other),
    }
}

#[test]
fn rewrite_resolves_a_tagged_span() {
    let r = rewrite("Some `[js] let x;` text", None, false);
    assert_eq!(r.text, "Some <code class=\"hljs language-js\">let x;</code> text");
    assert_eq!(r.faults, vec![]);
    assert!(r.error.is_none());
}

#[test]
fn rewrite_applies_the_default_language() {
    let r = rewrite("Some `x` and `[none] y` and `[py] z`", Some("js"), false);
    assert_eq!(
        r.text,
        "Some <code class=\"hljs language-js\">x</code> and <code class=\"hljs language-js\">y</code> and <code class=\"hljs language-py\">z</code>"
    );
    assert_eq!(r.faults, vec![]);
    assert!(r.error.is_none());
}

#[test]
fn rewrite_without_a_language_keeps_code_spans() {
    let r = rewrite("Some `x` and `[none] y`", None, false);
    assert_eq!(r.text, "Some `x` and `y`");
    assert!(r.error.is_none());
}

#[test]
fn rewrite_reports_faults_in_document_order() {
    let r = rewrite("One `[js]x` two `[oops` three `[js] ok` four `[a]b`", None, false);
    assert_eq!(
        r.faults,
        vec![TagFault::MissingSeparator, TagFault::MissingClose, TagFault::MissingSeparator]
    );
    assert_eq!(
        r.text,
        "One `[js]x` two `[oops` three <code class=\"hljs language-js\">ok</code> four `[a]b`"
    );
    assert!(r.error.is_none());
}

#[test]
fn rewrite_leaves_other_markup_as_it_is() {
    let source = "# Title\n\n*emph* and [link](http://x.y) and ~~old~~\n\n|a|b|\n|-|-|\n|1|2|";
    let r = rewrite(source, None, false);
    assert_eq!(r.text, source);
    assert_eq!(r.faults, vec![]);
    assert!(r.error.is_none());
}

#[test]
fn rewrite_does_not_touch_code_blocks() {
    let source = "\n````rust\n[js] x\n````";
    let r = rewrite(source, Some("js"), false);
    assert_eq!(r.text, source);
}

#[test]
fn rewrite_twice_is_rewrite_once() {
    let source = "# T\n\nSome `[js] let x;` and `y` and `\\z`.";
    let once = rewrite(source, Some("py"), false);
    assert_eq!(
        once.text,
        "# T\n\nSome <code class=\"hljs language-js\">let x;</code> and <code class=\"hljs language-py\">y</code> and <code class=\"hljs language-py\">z</code>."
    );
    let twice = rewrite(&once.text, Some("py"), false);
    assert_eq!(twice.text, once.text);
    assert_eq!(twice.faults, vec![]);
}

#[test]
fn rewrite_with_smart_punctuation() {
    let plain = rewrite("a -- `[js] b -- c`", None, false);
    assert_eq!(plain.text, "a -- <code class=\"hljs language-js\">b -- c</code>");
    let smart = rewrite("a -- `[js] b -- c`", None, true);
    assert_eq!(smart.text, "a – <code class=\"hljs language-js\">b -- c</code>");
}

#[test]
fn rewrite_of_the_empty_unit() {
    let r = rewrite("", Some("js"), true);
    assert_eq!(r.text, "");
    assert_eq!(r.faults, vec![]);
    assert!(r.error.is_none());
}
