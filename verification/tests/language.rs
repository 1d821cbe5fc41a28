use std::str::FromStr;
use youtube_transcript::language::{auto_detect_code, Language, AUTO_DETECT_ORDER};

#[test]
fn auto_from_literal() {
    assert_eq!(Language::from_str("auto").unwrap(), Language::Auto);
}

#[test]
fn auto_from_empty() {
    assert_eq!(Language::from_str("").unwrap(), Language::Auto);
}

#[test]
fn specific_lowercased() {
    assert_eq!(Language::from_str("EN").unwrap(), Language::Specific("en".into()));
    assert_eq!(Language::from_str("Es").unwrap(), Language::Specific("es".into()));
}

#[test]
fn auto_detect_order_starts_with_english() {
    assert_eq!(AUTO_DETECT_ORDER[0], "en");
}

#[test]
fn auto_detect_order_has_twelve_entries() {
    assert_eq!(AUTO_DETECT_ORDER.len(), 12);
}

#[test]
fn language_requests_are_trimmed() {
    assert_eq!(Language::parse_code("  auto \t"), Language::Auto);
    assert_eq!(Language::parse_code("   "), Language::Auto);
    assert_eq!(Language::parse_code(" PT-BR "), Language::Specific("pt-br".into()));
    // "AUTO" is a specific code: only the lowercase keyword means Auto.
    assert_eq!(Language::parse_code("AUTO"), Language::Specific("auto".into()));
}

#[test]
fn auto_detect_codes_follow_the_order() {
    for (k, code) in AUTO_DETECT_ORDER.iter().enumerate() {
        assert_eq!(auto_detect_code(k), *code);
    }
}
