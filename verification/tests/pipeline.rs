use youtube_transcript::innertube::{CaptionsContainer, InnertubeResponse, PlayabilityStatus, StreamingData, TracklistRenderer, AdaptiveFormat};
use youtube_transcript::pipeline::upload_names;
use youtube_transcript::{advance_fetch, start_fetch, CaptionTrack, FetchAction, FetchEvent, FetchState, Language, TranscriptError};

const CAPTION_XML: &str = r#"<?xml version="1.0" encoding="utf-8" ?><transcript><text start="0" dur="1">Hello world</text><text start="1" dur="2">This is a test</text></transcript>"#;

fn with_tracks(tracks: Vec<CaptionTrack>) -> InnertubeResponse {
    InnertubeResponse {
        playability_status: Some(PlayabilityStatus { status: "OK".into(), reason: None }),
        captions: Some(CaptionsContainer { renderer: Some(TracklistRenderer { caption_tracks: Some(tracks) }) }),
        streaming_data: None,
    }
}

#[test]
fn full_pipeline_without_network() {
    let (state, action) = start_fetch("https://www.youtube.com/watch?v=dQw4w9WgXcQ", "auto", None);
    match &action {
        FetchAction::PostInnertube { body } => assert!(body.contains("\"videoId\":\"dQw4w9WgXcQ\"")),
        other => panic!("unexpected: {other:?}"),
    }
    let resp = with_tracks(vec![CaptionTrack { base_url: "https://example.com/caption".into(), language_code: "en".into() }]);
    let (state, action) = advance_fetch(state, FetchEvent::Innertube(Ok(resp)));
    match &action {
        FetchAction::FetchCaptions { url } => assert_eq!(url, "https://example.com/caption"),
        other => panic!("unexpected: {other:?}"),
    }
    let (state, action) = advance_fetch(state, FetchEvent::Captions(Ok(CAPTION_XML.into())));
    assert!(matches!(state, FetchState::Done));
    match action {
        FetchAction::Finish(Ok(r)) => {
            assert_eq!(r.language, "en");
            assert_eq!(r.text, "Hello world This is a test");
        }
        other => panic!("unexpected: {other:?}"),
    }
}

#[test]
fn invalid_url_finishes_at_once() {
    let (state, action) = start_fetch("https://vimeo.com/1", "en", None);
    assert!(matches!(state, FetchState::Done));
    assert!(matches!(action, FetchAction::Finish(Err(TranscriptError::InvalidUrl))));
}

#[test]
fn language_fallback_note_is_prepended() {
    let (state, _) = start_fetch("youtu.be/dQw4w9WgXcQ", " DE ", None);
    assert!(matches!(&state, FetchState::AwaitInnertube { language: Language::Specific(c), .. } if c == "de"));
    let resp = with_tracks(vec![CaptionTrack { base_url: "u".into(), language_code: "en".into() }]);
    let (state, _) = advance_fetch(state, FetchEvent::Innertube(Ok(resp)));
    let (_, action) = advance_fetch(state, FetchEvent::Captions(Ok("<p>hi</p>".into())));
    match action {
        FetchAction::Finish(Ok(r)) => {
            assert_eq!(r.text, "[Requested language 'de' not available, showing English instead]\n\nhi");
            assert_eq!(r.language, "en");
        }
        other => panic!("unexpected: {other:?}"),
    }
}

#[test]
fn no_captions_without_whisper_is_no_transcript() {
    let (state, _) = start_fetch("youtu.be/dQw4w9WgXcQ", "auto", None);
    let (state, action) = advance_fetch(state, FetchEvent::Innertube(Ok(with_tracks(vec![]))));
    assert!(matches!(state, FetchState::Done));
    assert!(matches!(action, FetchAction::Finish(Err(TranscriptError::NoTranscriptAvailable))));
}

#[test]
fn no_captions_with_whisper_transcribes_best_audio() {
    let (state, _) = start_fetch("youtu.be/dQw4w9WgXcQ", "auto", Some("http://whisper:8000".into()));
    let resp = InnertubeResponse {
        playability_status: None,
        captions: None,
        streaming_data: Some(StreamingData {
            adaptive_formats: Some(vec![
                AdaptiveFormat { mime_type: Some("audio/webm; codecs=\"opus\"".into()), url: Some("w".into()), average_bitrate: Some(999) },
                AdaptiveFormat { mime_type: Some("audio/mp4; codecs=\"mp4a\"".into()), url: Some("m".into()), average_bitrate: Some(1) },
            ]),
        }),
    };
    let (state, action) = advance_fetch(state, FetchEvent::Innertube(Ok(resp)));
    match &action {
        FetchAction::Transcribe { endpoint, audio_url, file_name, mime } => {
            assert_eq!(endpoint, "http://whisper:8000/v1/audio/transcriptions");
            assert_eq!(audio_url, "m");
            assert_eq!(file_name, "audio.mp4");
            assert_eq!(mime, "audio/mp4");
        }
        other => panic!("unexpected: {other:?}"),
    }
    let (_, action) = advance_fetch(state, FetchEvent::Transcribed(Ok("  spoken words \n".into())));
    match action {
        FetchAction::Finish(Ok(r)) => {
            assert_eq!(r.text, "[AI-generated transcript \u{2014} no captions available]\n\nspoken words");
            assert_eq!(r.language, "en");
        }
        other => panic!("unexpected: {other:?}"),
    }
}

#[test]
fn network_failures_end_the_fetch() {
    let (state, _) = start_fetch("youtu.be/dQw4w9WgXcQ", "auto", None);
    let (state, action) = advance_fetch(state, FetchEvent::Innertube(Err(TranscriptError::Network("boom".into()))));
    assert!(matches!(state, FetchState::Done));
    assert!(matches!(action, FetchAction::Finish(Err(TranscriptError::Network(m))) if m == "boom"));
}

#[test]
fn unparsable_captions_end_with_parse_error() {
    let (state, _) = start_fetch("youtu.be/dQw4w9WgXcQ", "auto", None);
    let resp = with_tracks(vec![CaptionTrack { base_url: "u".into(), language_code: "xx".into() }]);
    let (state, _) = advance_fetch(state, FetchEvent::Innertube(Ok(resp)));
    let (_, action) = advance_fetch(state, FetchEvent::Captions(Ok("<p>a</text>".into())));
    assert!(matches!(action, FetchAction::Finish(Err(TranscriptError::Parse(_)))));
}

#[test]
fn upload_names_follow_the_mime_type() {
    let (f, m) = upload_names("audio/webm; codecs=\"opus\"");
    assert_eq!(f, "audio.webm");
    assert_eq!(m, "audio/webm");
    let (f, m) = upload_names(" audio/mp4 ");
    assert_eq!(f, "audio.mp4");
    assert_eq!(m, "audio/mp4");
}
