use youtube_transcript::{innertube_body, select_track, user_agent, CaptionTrack, Language, TranscriptError, VideoId, USER_AGENT};

fn track(code: &str) -> CaptionTrack {
    CaptionTrack { base_url: code.into(), language_code: code.into() }
}

#[test]
fn auto_prefers_english_over_others() {
    let tracks = vec![
        CaptionTrack { base_url: "fr".into(), language_code: "fr".into() },
        CaptionTrack { base_url: "en".into(), language_code: "en".into() },
    ];
    let (t, note) = select_track(&tracks, &Language::Auto).unwrap();
    assert_eq!(t.language_code, "en");
    assert!(note.is_none());
}

#[test]
fn auto_falls_back_to_first_when_no_preferred_available() {
    let tracks = vec![CaptionTrack { base_url: "xx".into(), language_code: "xx".into() }];
    let (t, _) = select_track(&tracks, &Language::Auto).unwrap();
    assert_eq!(t.language_code, "xx");
}

#[test]
fn specific_returns_exact_match() {
    let tracks = vec![CaptionTrack { base_url: "es".into(), language_code: "es".into() }];
    let (t, note) = select_track(&tracks, &Language::Specific("es".into())).unwrap();
    assert_eq!(t.language_code, "es");
    assert!(note.is_none());
}

#[test]
fn specific_falls_back_to_english_with_note() {
    let tracks = vec![CaptionTrack { base_url: "en".into(), language_code: "en".into() }];
    let (t, note) = select_track(&tracks, &Language::Specific("de".into())).unwrap();
    assert_eq!(t.language_code, "en");
    assert!(note.as_deref().is_some_and(|n| n.contains("de")));
}

#[test]
fn specific_errors_listing_available_when_nothing_matches() {
    let tracks = vec![CaptionTrack { base_url: "fr".into(), language_code: "fr".into() }];
    let err = select_track(&tracks, &Language::Specific("de".into())).unwrap_err();
    assert!(err.message().contains("fr"));
}

#[test]
fn errors_when_no_tracks() {
    assert!(matches!(select_track(&[], &Language::Auto), Err(TranscriptError::NoTranscriptAvailable)));
}

#[test]
fn auto_follows_the_detection_order() {
    let tracks = vec![track("xx"), track("ar"), track("de"), track("ja")];
    let (t, note) = select_track(&tracks, &Language::Auto).unwrap();
    assert_eq!(t.language_code, "de");
    assert!(note.is_none());
}

#[test]
fn first_of_equal_tracks_is_chosen() {
    let tracks = vec![
        CaptionTrack { base_url: "one".into(), language_code: "es".into() },
        CaptionTrack { base_url: "two".into(), language_code: "es".into() },
    ];
    let (t, _) = select_track(&tracks, &Language::Specific("es".into())).unwrap();
    assert_eq!(t.base_url, "one");
}

#[test]
fn fallback_note_wording() {
    let tracks = vec![track("fr"), track("en")];
    let (t, note) = select_track(&tracks, &Language::Specific("de".into())).unwrap();
    assert_eq!(t.language_code, "en");
    assert_eq!(note.as_deref(), Some("Requested language 'de' not available, showing English instead"));
}

#[test]
fn english_request_without_english_track_fails() {
    let tracks = vec![track("fr"), track("es")];
    match select_track(&tracks, &Language::Specific("en".into())) {
        Err(TranscriptError::LanguageNotAvailable { requested, available }) => {
            assert_eq!(requested, "en");
            assert_eq!(available, vec!["fr".to_string(), "es".to_string()]);
        }
        other => panic!("unexpected: {other:?}"),
    }
}

#[test]
fn unavailable_language_message_lists_codes() {
    let tracks = vec![track("fr"), track("es")];
    let err = select_track(&tracks, &Language::Specific("de".into())).unwrap_err();
    assert_eq!(err.message(), "Language 'de' not available; available languages: fr, es");
}

#[test]
fn user_agent_is_the_android_client() {
    assert_eq!(user_agent(), USER_AGENT);
    assert_eq!(user_agent(), "com.google.android.youtube/20.10.38 (Linux; U; Android 11) gzip");
}

#[test]
fn innertube_body_names_the_video() {
    let id = VideoId::parse("dQw4w9WgXcQ").unwrap();
    let body = innertube_body(&id);
    assert_eq!(
        body,
        "{\"context\":{\"client\":{\"androidSdkVersion\":30,\"clientName\":\"ANDROID\",\"clientVersion\":\"20.10.38\",\"gl\":\"US\",\"hl\":\"en\"}},\"videoId\":\"dQw4w9WgXcQ\"}"
    );
    let doc: serde_json::Value = serde_json::from_str(&body).unwrap();
    assert_eq!(doc["videoId"], "dQw4w9WgXcQ");
    assert_eq!(doc["context"]["client"]["androidSdkVersion"], 30);
}
