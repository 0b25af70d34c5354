//! The span classifier: from the text of one inline code span to its
//! replacement.

use crate::text::same_text;
use vstd::prelude::*;
use vstd::std_specs::iter::IteratorSpec;
use vstd::string::*;

verus! {

/// A leading escape character keeps the span from being read as tagged.
pub const ESCAPE_CHAR: char = '\\';

/// Opens the language tag at the start of a span.
pub const LANG_SPEC_START: char = '[';

/// Closes the language tag.
pub const LANG_SPEC_END: char = ']';

/// Stands between the closed tag and the body.
pub const SEPARATOR: char = ' ';

/// How the replacement of a span is to be emitted.
#[derive(Clone, Copy, Debug, PartialEq, Eq, Structural)]
pub enum OutputKind {
    /// An ordinary code span.
    PlainCode,
    /// A markup fragment, inserted as it is.
    RawMarkup,
}

/// What is wrong with a span that opens a tag and does not complete it.
#[derive(Clone, Copy, Debug, PartialEq, Eq, Structural)]
pub enum TagFault {
    /// The tag is never closed.
    MissingClose,
    /// The closed tag is not followed by a single space.
    MissingSeparator,
}

impl TagFault {
    /// The diagnostic for this fault in the document unit called `unit`.
    pub open spec fn message_spec(self, unit: Seq<char>) -> Seq<char> {
        match self {
            TagFault::MissingClose => "missing closing character `]` in chapter `"@ + unit + "`"@,
            TagFault::MissingSeparator => "missing space after language identifier in chapter `"@
                + unit + "`"@,
        }
    }

    /// The diagnostic for this fault in the document unit called `unit`.
    pub fn message(&self, unit: &str) -> (text: String)
        ensures
            text@ == self.message_spec(unit@),
    {
        let mut text = match self {
            TagFault::MissingClose => String::from_str(
                "missing closing character `]` in chapter `",
            ),
            TagFault::MissingSeparator => String::from_str(
                "missing space after language identifier in chapter `",
            ),
        };
        text.append(unit);
        text.append("`");
        text
    }
}

/// The markup fragment that marks `code` for highlighting as `language`.
pub open spec fn highlighted(code: Seq<char>, language: Seq<char>) -> Seq<char> {
    "<code class=\"hljs language-"@ + language + "\">"@ + code + "</code>"@
}

/// `k` is where the tag that `s` opens is closed: the first closing bracket
/// behind the opening one.
pub open spec fn is_tag_end(s: Seq<char>, k: int) -> bool {
    &&& 1 <= k < s.len()
    &&& s[k] == LANG_SPEC_END
    &&& forall|j: int| 1 <= j < k ==> s[j] != LANG_SPEC_END
}

/// The tag that `s` opens is closed somewhere.
pub open spec fn has_tag_end(s: Seq<char>) -> bool {
    exists|k: int| is_tag_end(s, k)
}

/// Where the tag that `s` opens is closed, if it is.
pub open spec fn tag_end(s: Seq<char>) -> int {
    choose|k: int| is_tag_end(s, k)
}

/// How the text of a span reads.
pub enum Span {
    /// No characters at all.
    Empty,
    /// Body text without a tag; a leading escape character is not part of it.
    Untagged { body: Seq<char> },
    /// `[tag] body`.
    Tagged { tag: Seq<char>, body: Seq<char> },
    /// A tag is opened and not completed.
    Malformed { fault: TagFault },
}

/// Reads a span's text from the left.
pub open spec fn read_span(s: Seq<char>) -> Span {
    if s.len() == 0 {
        Span::Empty
    } else if s[0] == ESCAPE_CHAR {
        Span::Untagged { body: s.skip(1) }
    } else if s[0] != LANG_SPEC_START {
        Span::Untagged { body: s }
    } else if !has_tag_end(s) {
        Span::Malformed { fault: TagFault::MissingClose }
    } else {
        let k = tag_end(s);
        if k + 1 < s.len() && s[k + 1] == SEPARATOR {
            Span::Tagged { tag: s.subrange(1, k), body: s.skip(k + 2) }
        } else {
            Span::Malformed { fault: TagFault::MissingSeparator }
        }
    }
}

/// The fault in a span's text, if it has one.
pub open spec fn span_fault(s: Seq<char>) -> Option<TagFault> {
    match read_span(s) {
        Span::Malformed { fault } => Some(fault),
        _ => None,
    }
}

/// The language that a span asks for: its tag, unless there is none or the tag
/// is the word `none`.
pub open spec fn requested_language(tag: Option<Seq<char>>) -> Option<Seq<char>> {
    match tag {
        Some(t) => if t == "none"@ { None } else { Some(t) },
        None => None,
    }
}

/// The language that a span is highlighted as: the one it asks for, else the
/// default.
pub open spec fn effective_language(
    tag: Option<Seq<char>>,
    default_language: Option<Seq<char>>,
) -> Option<Seq<char>> {
    match requested_language(tag) {
        Some(l) => Some(l),
        None => default_language,
    }
}

/// The replacement of a span, as a mathematical value.
pub struct Outcome {
    /// The text that takes the span's place.
    pub text: Seq<char>,
    /// Whether that text is plain code or raw markup.
    pub kind: OutputKind,
    /// Set where the span opened a tag and did not complete it.
    pub fault: Option<TagFault>,
}

/// `body` wrapped for `language`, or left alone where there is none.
pub open spec fn emit(
    body: Seq<char>,
    language: Option<Seq<char>>,
    fault: Option<TagFault>,
) -> Outcome {
    match language {
        Some(l) => Outcome { text: highlighted(body, l), kind: OutputKind::RawMarkup, fault },
        None => Outcome { text: body, kind: OutputKind::PlainCode, fault },
    }
}

/// What a span with text `s` is replaced by under `default_language`.
pub open spec fn classify_spec(s: Seq<char>, default_language: Option<Seq<char>>) -> Outcome {
    match read_span(s) {
        Span::Empty => Outcome { text: Seq::empty(), kind: OutputKind::PlainCode, fault: None },
        Span::Untagged { body } => emit(body, default_language, None),
        Span::Tagged { tag, body } => emit(
            body,
            effective_language(Some(tag), default_language),
            None,
        ),
        Span::Malformed { fault } => emit(s, default_language, Some(fault)),
    }
}

/// Wraps `code` in the markup fragment that marks it for highlighting as
/// `language`. Neither is escaped.
pub fn inline_with_highlighting(code: &str, language: &str) -> (out: String)
    ensures
        out@ == highlighted(code@, language@),
{
    let mut out = String::from_str("<code class=\"hljs language-");
    out.append(language);
    out.append("\">");
    out.append(code);
    out.append("</code>");
    out
}

/// The replacement of one span, as `classify` hands it out.
#[derive(Debug)]
pub struct Classified {
    /// The text that takes the span's place.
    pub text: String,
    /// Whether that text is plain code or raw markup.
    pub kind: OutputKind,
    /// Set where the span opened a tag and did not complete it.
    pub fault: Option<TagFault>,
}

impl View for Classified {
    type V = Outcome;

    open spec fn view(&self) -> Outcome {
        Outcome { text: self.text@, kind: self.kind, fault: self.fault }
    }
}

/// A language, where one is given, as the characters of its name.
pub open spec fn language_view(language: Option<&str>) -> Option<Seq<char>> {
    match language {
        Some(l) => Some(l@),
        None => None,
    }
}

/// Where a tag is closed, there is one place only.
pub proof fn lemma_tag_end_unique(s: Seq<char>, k: int)
    requires
        is_tag_end(s, k),
    ensures
        has_tag_end(s),
        tag_end(s) == k,
{
    let c = tag_end(s);
    assert(is_tag_end(s, c));
}

/// Emits `body` for `language`: wrapped where there is one, unchanged where
/// there is none.
fn emit_body(body: &str, language: Option<&str>, fault: Option<TagFault>) -> (c: Classified)
    ensures
        c@ == emit(body@, language_view(language), fault),
{
    match language {
        Some(l) => Classified {
            text: inline_with_highlighting(body, l),
            kind: OutputKind::RawMarkup,
            fault,
        },
        None => Classified { text: String::from_str(body), kind: OutputKind::PlainCode, fault },
    }
}

/// Classifies one inline code span.
///
/// `code` is the span's text without its delimiters. A span of the form
/// `[tag] body` is highlighted as `tag`, or as the default language where the
/// tag is the word `none`. A span that starts with the escape character loses
/// that character and is never read as tagged. Any other span is its own body.
/// A span that opens a tag and does not complete it is taken whole as a body,
/// and the fault is reported. A body with a language is wrapped and becomes raw
/// markup; one without stays plain code.
pub fn classify(code: &str, default_language: Option<&str>) -> (c: Classified)
    ensures
        c@ == classify_spec(code@, language_view(default_language)),
{
    let n = code.unicode_len();
    let mut chars = code.chars();
    match chars.next() {
        None => {
            return Classified { text: String::new(), kind: OutputKind::PlainCode, fault: None };
        },
        Some(first) => {
            if first == ESCAPE_CHAR {
                return emit_body(code.substring_char(1, n), default_language, None);
            }
            if first != LANG_SPEC_START {
                return emit_body(code, default_language, None);
            }
        },
    }
    let mut end: usize = 1;
    loop
        invariant_except_break
            chars.remaining() == code@.skip(end as int),
        invariant
            n == code@.len(),
            1 <= end <= n,
            code@[0] == LANG_SPEC_START,
            forall|j: int| 1 <= j < end ==> code@[j] != LANG_SPEC_END,
        ensures
            end < n,
            code@[end as int] == LANG_SPEC_END,
            chars.remaining() == code@.skip(end + 1),
        decreases n - end,
    {
        match chars.next() {
            None => {
                proof {
                    assert forall|k: int| !is_tag_end(code@, k) by {}
                }
                return emit_body(code, default_language, Some(TagFault::MissingClose));
            },
            Some(ch) => {
                if ch == LANG_SPEC_END {
                    break ;
                }
                end += 1;
            },
        }
    }
    proof {
        lemma_tag_end_unique(code@, end as int);
    }
    match chars.next() {
        Some(ch) if ch == SEPARATOR => {
            let tag = code.substring_char(1, end);
            let body = code.substring_char(end + 2, n);
            if same_text(tag, "none") {
                emit_body(body, default_language, None)
            } else {
                emit_body(body, Some(tag), None)
            }
        },
        _ => emit_body(code, default_language, Some(TagFault::MissingSeparator)),
    }
}

/// Classifies one inline code span and gives the replacement text, and whether
/// it is raw markup.
pub fn parse_inline_code(code: &str, default_language: Option<&str>) -> (r: (String, bool))
    ensures
        r.0@ == classify_spec(code@, language_view(default_language)).text,
        r.1 == (classify_spec(code@, language_view(default_language)).kind
            == OutputKind::RawMarkup),
{
    let c = classify(code, default_language);
    let raw = match c.kind {
        OutputKind::RawMarkup => true,
        OutputKind::PlainCode => false,
    };
    (c.text, raw)
}

/// A span that does not start with the opening bracket or the escape character
/// is left as it is where no default language is set.
pub proof fn lemma_untagged_without_default(s: Seq<char>)
    requires
        s.len() > 0 ==> s[0] != LANG_SPEC_START && s[0] != ESCAPE_CHAR,
    ensures
        classify_spec(s, None) == (Outcome { text: s, kind: OutputKind::PlainCode, fault: None }),
{
    if s.len() == 0 {
        assert(s =~= Seq::empty());
    }
}

/// A span that holds characters, does not start with the escape character and
/// does not read as `[tag] body` is wrapped whole for the default language,
/// where one is set.
pub proof fn lemma_untagged_with_default(s: Seq<char>, default_language: Seq<char>)
    requires
        s.len() > 0,
        s[0] != ESCAPE_CHAR,
        !(read_span(s) is Tagged),
    ensures
        classify_spec(s, Some(default_language)) == (Outcome {
            text: highlighted(s, default_language),
            kind: OutputKind::RawMarkup,
            fault: span_fault(s),
        }),
{
}

/// The span written as `[tag] body`.
pub open spec fn tagged_text(tag: Seq<char>, body: Seq<char>) -> Seq<char> {
    seq![LANG_SPEC_START] + tag + seq![LANG_SPEC_END, SEPARATOR] + body
}

/// A span written as `[tag] body` reads as that tag and that body, and is
/// highlighted as the tag asks, whatever the default: as the tag's language,
/// or as the default where the tag is the word `none`.
pub proof fn lemma_tagged_span(
    tag: Seq<char>,
    body: Seq<char>,
    default_language: Option<Seq<char>>,
)
    requires
        !tag.contains(LANG_SPEC_END),
    ensures
        read_span(tagged_text(tag, body)) == (Span::Tagged { tag, body }),
        tag != "none"@ ==> classify_spec(tagged_text(tag, body), default_language) == emit(
            body,
            Some(tag),
            None,
        ),
        tag == "none"@ ==> classify_spec(tagged_text(tag, body), default_language) == emit(
            body,
            default_language,
            None,
        ),
{
    let s = tagged_text(tag, body);
    let k: int = tag.len() as int + 1;
    assert forall|j: int| 1 <= j < k implies s[j] != LANG_SPEC_END by {
        assert(s[j] == tag[j - 1]);
    }
    assert(is_tag_end(s, k));
    lemma_tag_end_unique(s, k);
    assert(s.subrange(1, k) =~= tag);
    assert(s.skip(k + 2) =~= body);
}

/// A span that opens a tag and never closes it is taken whole, with the fault
/// reported.
pub proof fn lemma_unterminated_tag(s: Seq<char>, default_language: Option<Seq<char>>)
    requires
        s.len() > 0,
        s[0] == LANG_SPEC_START,
        !s.skip(1).contains(LANG_SPEC_END),
    ensures
        classify_spec(s, default_language) == emit(
            s,
            default_language,
            Some(TagFault::MissingClose),
        ),
{
    assert forall|k: int| !is_tag_end(s, k) by {
        if 1 <= k < s.len() {
            assert(s.skip(1)[k - 1] == s[k]);
        }
    }
}

/// A span whose closed tag is not followed by a space is taken whole, with the
/// fault reported.
pub proof fn lemma_missing_separator(
    tag: Seq<char>,
    rest: Seq<char>,
    default_language: Option<Seq<char>>,
)
    requires
        !tag.contains(LANG_SPEC_END),
        rest.len() > 0 ==> rest[0] != SEPARATOR,
    ensures
        classify_spec(
            seq![LANG_SPEC_START] + tag + seq![LANG_SPEC_END] + rest,
            default_language,
        ) == emit(
            seq![LANG_SPEC_START] + tag + seq![LANG_SPEC_END] + rest,
            default_language,
            Some(TagFault::MissingSeparator),
        ),
{
    let s = seq![LANG_SPEC_START] + tag + seq![LANG_SPEC_END] + rest;
    let k: int = tag.len() as int + 1;
    assert forall|j: int| 1 <= j < k implies s[j] != LANG_SPEC_END by {
        assert(s[j] == tag[j - 1]);
    }
    assert(is_tag_end(s, k));
    lemma_tag_end_unique(s, k);
    if rest.len() > 0 {
        assert(s[k + 1] == rest[0]);
    }
}

/// A leading escape character is dropped, and what follows it is body text
/// whatever it holds.
pub proof fn lemma_escape_forces_body(rest: Seq<char>, default_language: Option<Seq<char>>)
    ensures
        classify_spec(seq![ESCAPE_CHAR] + rest, default_language) == emit(
            rest,
            default_language,
            None,
        ),
{
    assert((seq![ESCAPE_CHAR] + rest).skip(1) =~= rest);
}

} // verus!
