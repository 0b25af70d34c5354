//! What the host configures, and what the preprocessor tells the host of
//! itself.

use crate::classifier::language_view;
use crate::text::same_text;
use vstd::prelude::*;

verus! {

/// The name under which the host knows this preprocessor.
pub const NAME: &'static str = "inline-highlighting";

/// The one renderer whose output takes raw markup.
pub const RENDERER: &'static str = "html";

/// The key of the default language in the host's configuration.
pub const DEFAULT_LANGUAGE_KEY: &'static str = "preprocessor.inline-highlighting.default-language";

/// The key of the smart punctuation flag in the host's configuration.
pub const SMART_PUNCTUATION_KEY: &'static str = "output.html.smart-punctuation";

/// The settings of one run.
#[derive(Debug)]
pub struct Configuration {
    /// The language of the spans that ask for none.
    pub default_language: Option<String>,
    /// Whether the parser replaces plain punctuation by its typographic form.
    pub smart_punctuation: bool,
}

impl Configuration {
    /// The default language as the characters of its name.
    pub open spec fn language_spec(&self) -> Option<Seq<char>> {
        match self.default_language {
            Some(l) => Some(l@),
            None => None,
        }
    }

    /// The settings for what the host's configuration holds under the two
    /// keys: smart punctuation is off where the host says nothing of it.
    pub fn from_values(
        default_language: Option<String>,
        smart_punctuation: Option<bool>,
    ) -> (config: Configuration)
        ensures
            config.default_language == default_language,
            config.smart_punctuation == match smart_punctuation {
                Some(flag) => flag,
                None => false,
            },
    {
        let smart_punctuation = match smart_punctuation {
            Some(flag) => flag,
            None => false,
        };
        Configuration { default_language, smart_punctuation }
    }

    /// The default language as a borrowed text.
    pub fn language(&self) -> (language: Option<&str>)
        ensures
            language_view(language) == self.language_spec(),
    {
        match &self.default_language {
            Some(l) => Some(l.as_str()),
            None => None,
        }
    }
}

impl Default for Configuration {
    /// No default language, no smart punctuation.
    fn default() -> (config: Configuration)
        ensures
            config.default_language is None,
            !config.smart_punctuation,
    {
        Configuration { default_language: None, smart_punctuation: false }
    }
}

/// Whether the preprocessor applies to `renderer`: only to the one whose
/// output takes raw markup.
pub fn supports_renderer(renderer: &str) -> (supported: bool)
    ensures
        supported == (renderer@ == RENDERER@),
{
    same_text(renderer, RENDERER)
}

} // verus!
