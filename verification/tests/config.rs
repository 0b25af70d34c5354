use mdbook_inline_highlighting::config::{
    supports_renderer, Configuration, DEFAULT_LANGUAGE_KEY, NAME, RENDERER, SMART_PUNCTUATION_KEY,
};
use mdbook_inline_highlighting::text::same_text;

#[test]
fn only_the_html_renderer_is_supported() {
    assert!(supports_renderer("html"));
    assert!(!supports_renderer("markdown"));
    assert!(!supports_renderer("HTML"));
    assert!(!supports_renderer("htm"));
    assert!(!supports_renderer("html5"));
    assert!(!supports_renderer(""));
}

#[test]
fn names_and_keys() {
    assert_eq!(NAME, "inline-highlighting");
    assert_eq!(RENDERER, "html");
    assert_eq!(DEFAULT_LANGUAGE_KEY, "preprocessor.inline-highlighting.default-language");
    assert_eq!(SMART_PUNCTUATION_KEY, "output.html.smart-punctuation");
}

#[test]
fn smart_punctuation_is_off_unless_asked_for() {
    let c = Configuration::from_values(None, None);
    assert_eq!(c.default_language, None);
    assert!(!c.smart_punctuation);
    assert_eq!(c.language(), None);
    let c = Configuration::from_values(Some("rust".to_string()), Some(true));
    assert_eq!(c.default_language, Some("rust".to_string()));
    assert!(c.smart_punctuation);
    assert_eq!(c.language(), Some("rust"));
    let c = Configuration::from_values(None, Some(false));
    assert!(!c.smart_punctuation);
}

#[test]
fn default_configuration_sets_nothing() {
    let c = Configuration::default();
    assert_eq!(c.default_language, None);
    assert!(!c.smart_punctuation);
}

#[test]
fn texts_are_compared_character_by_character() {
    assert!(same_text("", ""));
    assert!(same_text("none", "none"));
    assert!(same_text("naïve", "naïve"));
    assert!(!same_text("none", "non"));
    assert!(!same_text("non", "none"));
    assert!(!same_text("none", "nonE"));
    assert!(!same_text("", "a"));
}
