use youtube_transcript::text::{contains, starts_with, trim};

#[test]
fn trim_strips_unicode_whitespace_like_std() {
    for s in ["", "  ", " a ", "\u{2003}x y\u{205f}", "\t\n\u{85}z\u{a0}", "\u{200b}q\u{200b}", "a\u{3000}"] {
        assert_eq!(trim(s), s.trim());
    }
}

#[test]
fn prefix_and_substring_checks() {
    assert!(starts_with("https://x", "https://"));
    assert!(!starts_with("http", "https"));
    assert!(contains("audio/mp4; x", "mp4"));
    assert!(!contains("audio/webm", "mp4"));
    assert!(contains("abc", ""));
}
