//! Requested transcript language.
use vstd::prelude::*;

use crate::text::{std_lowercase, str_eq, to_lowercase, trim, trimmed};

verus! {

broadcast use vstd::string::group_string_axioms;

/// Language codes tried, in order, when the language is `Auto`.
pub const AUTO_DETECT_ORDER: [&'static str; 12] = [
    "en",
    "es",
    "fr",
    "de",
    "tr",
    "pt",
    "ja",
    "ko",
    "zh",
    "it",
    "ru",
    "ar",
];

/// The codes of [`AUTO_DETECT_ORDER`], in order.
pub open spec fn auto_detect_codes() -> Seq<Seq<char>> {
    seq![
        "en"@,
        "es"@,
        "fr"@,
        "de"@,
        "tr"@,
        "pt"@,
        "ja"@,
        "ko"@,
        "zh"@,
        "it"@,
        "ru"@,
        "ar"@,
    ]
}

/// The `k`-th code tried in `Auto` mode.
pub fn auto_detect_code(k: usize) -> (r: &'static str)
    requires
        k < 12,
    ensures
        r@ == auto_detect_codes()[k as int],
{
    AUTO_DETECT_ORDER[k]
}

/// Which transcript language the caller wants.
#[derive(Debug, Clone, PartialEq, Eq)]
pub enum Language {
    /// Pick the first available language of [`AUTO_DETECT_ORDER`].
    Auto,
    /// A specific (lowercased) language code.
    Specific(String),
}

/// Does `l` denote what `s` asks for: `Auto` for a blank or `auto` request,
/// otherwise the lowercased, trimmed code?
pub open spec fn language_of(s: Seq<char>, l: Language) -> bool {
    let t = trimmed(s);
    match l {
        Language::Auto => t == ""@ || t == "auto"@,
        Language::Specific(code) => t != ""@ && t != "auto"@ && code@ == std_lowercase(t),
    }
}

impl Language {
    /// The language a request string names: blank or `auto` means `Auto`,
    /// anything else is a specific code, trimmed and lowercased.
    pub fn parse_code(s: &str) -> (r: Language)
        ensures
            language_of(s@, r),
    {
        let t = trim(s);
        if str_eq(t.as_str(), "") || str_eq(t.as_str(), "auto") {
            Language::Auto
        } else {
            Language::Specific(to_lowercase(t.as_str()))
        }
    }
}

impl core::str::FromStr for Language {
    type Err = core::convert::Infallible;

    fn from_str(s: &str) -> (r: Result<Self, Self::Err>)
        ensures
            r matches Ok(l) && language_of(s@, l),
    {
        Ok(Language::parse_code(s))
    }
}

} // verus!
