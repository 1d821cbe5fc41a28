use youtube_transcript::innertube::{
    innertube_data_from_response, sort_best_first, AdaptiveFormat, CaptionsContainer, InnertubeResponse,
    PlayabilityStatus, StreamingData, TracklistRenderer,
};
use youtube_transcript::{AudioStream, CaptionTrack, TranscriptError};

fn status(s: &str, reason: Option<&str>) -> Option<PlayabilityStatus> {
    Some(PlayabilityStatus { status: s.into(), reason: reason.map(|r| r.to_string()) })
}

fn format(mime: Option<&str>, url: Option<&str>, bitrate: Option<u64>) -> AdaptiveFormat {
    AdaptiveFormat { mime_type: mime.map(|m| m.to_string()), url: url.map(|u| u.to_string()), average_bitrate: bitrate }
}

#[test]
fn ok_response_keeps_its_caption_tracks() {
    let resp = InnertubeResponse {
        playability_status: status("OK", None),
        captions: Some(CaptionsContainer {
            renderer: Some(TracklistRenderer {
                caption_tracks: Some(vec![CaptionTrack {
                    base_url: "https://example.com/caps".into(),
                    language_code: "en".into(),
                }]),
            }),
        }),
        streaming_data: None,
    };
    let data = innertube_data_from_response(resp).unwrap();
    assert_eq!(data.caption_tracks.len(), 1);
    assert_eq!(data.caption_tracks[0].language_code, "en");
}

#[test]
fn response_without_captions_has_no_tracks() {
    let resp = InnertubeResponse { playability_status: status("OK", None), captions: None, streaming_data: None };
    let data = innertube_data_from_response(resp).unwrap();
    assert!(data.caption_tracks.is_empty());
    let resp = InnertubeResponse {
        playability_status: None,
        captions: Some(CaptionsContainer { renderer: Some(TracklistRenderer { caption_tracks: None }) }),
        streaming_data: None,
    };
    assert!(innertube_data_from_response(resp).unwrap().caption_tracks.is_empty());
}

#[test]
fn unplayable_status_is_a_parse_error_naming_it() {
    let resp = InnertubeResponse {
        playability_status: status("UNPLAYABLE", Some("Video unavailable")),
        captions: None,
        streaming_data: None,
    };
    let err = innertube_data_from_response(resp).unwrap_err();
    assert!(err.message().contains("UNPLAYABLE"));
    match err {
        TranscriptError::Parse(m) => assert_eq!(m, "Video not playable: UNPLAYABLE \u{2014} Video unavailable"),
        other => panic!("unexpected: {other:?}"),
    }
    let resp = InnertubeResponse { playability_status: status("LOGIN_REQUIRED", None), captions: None, streaming_data: None };
    match innertube_data_from_response(resp) {
        Err(TranscriptError::Parse(m)) => assert_eq!(m, "Video not playable: LOGIN_REQUIRED \u{2014} unknown"),
        other => panic!("unexpected: {other:?}"),
    }
}

#[test]
fn audio_streams_are_filtered_and_mp4_sorted_first() {
    let resp = InnertubeResponse {
        playability_status: status("OK", None),
        captions: None,
        streaming_data: Some(StreamingData {
            adaptive_formats: Some(vec![
                format(Some("audio/mp4; codecs=\"mp4a.40.2\""), Some("https://example.com/audio.mp4"), Some(128000)),
                format(Some("video/mp4; codecs=\"avc1\""), Some("https://example.com/video.mp4"), Some(500000)),
                format(Some("audio/webm; codecs=\"opus\""), Some("https://example.com/audio.webm"), Some(64000)),
            ]),
        }),
    };
    let data = innertube_data_from_response(resp).unwrap();
    assert_eq!(data.audio_streams.len(), 2);
    assert!(data.audio_streams[0].mime_type.contains("mp4"));
    assert_eq!(data.audio_streams[0].bitrate, 128000);
}

#[test]
fn formats_missing_url_or_mime_are_skipped_and_bitrate_defaults_to_zero() {
    let resp = InnertubeResponse {
        playability_status: None,
        captions: None,
        streaming_data: Some(StreamingData {
            adaptive_formats: Some(vec![
                format(None, Some("u1"), Some(1)),
                format(Some("audio/webm"), None, Some(2)),
                format(Some("audio/webm"), Some("u3"), None),
            ]),
        }),
    };
    let data = innertube_data_from_response(resp).unwrap();
    assert_eq!(data.audio_streams.len(), 1);
    assert_eq!(data.audio_streams[0].url, "u3");
    assert_eq!(data.audio_streams[0].bitrate, 0);
}

fn stream(url: &str, mime: &str, bitrate: u64) -> AudioStream {
    AudioStream { url: url.into(), mime_type: mime.into(), bitrate }
}

#[test]
fn sort_is_stable_best_first() {
    let sorted = sort_best_first(vec![
        stream("a", "audio/webm", 64),
        stream("b", "audio/mp4", 32),
        stream("c", "audio/webm", 128),
        stream("d", "audio/mp4", 32),
        stream("e", "audio/mp4", 256),
        stream("f", "audio/webm", 64),
    ]);
    let order: Vec<&str> = sorted.iter().map(|s| s.url.as_str()).collect();
    assert_eq!(order, vec!["e", "b", "d", "c", "a", "f"]);
}
