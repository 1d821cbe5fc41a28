use youtube_transcript::TranscriptError;

#[test]
fn error_messages() {
    assert_eq!(TranscriptError::InvalidUrl.message(), "Invalid YouTube URL provided");
    assert_eq!(
        TranscriptError::InvalidVideoId.message(),
        "Invalid video ID: must be 11 alphanumeric/underscore/hyphen characters"
    );
    assert_eq!(TranscriptError::NoTranscriptAvailable.message(), "No transcript available for this video");
    assert_eq!(TranscriptError::Network("x".into()).message(), "Network error: x");
    assert_eq!(TranscriptError::Parse("y".into()).message(), "Parse error: y");
    let e = TranscriptError::LanguageNotAvailable { requested: "de".into(), available: vec![] };
    assert_eq!(e.message(), "Language 'de' not available; available languages: ");
}
