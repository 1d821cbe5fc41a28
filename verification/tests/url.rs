use std::collections::HashSet;
use youtube_transcript::url::{video_id_from_url_parts, UrlParts};
use youtube_transcript::{extract_video_id, TranscriptError, VideoId};

#[test]
fn extracts_standard_watch_url() {
    let id = extract_video_id("https://www.youtube.com/watch?v=dQw4w9WgXcQ").unwrap();
    assert_eq!(id.as_str(), "dQw4w9WgXcQ");
}

#[test]
fn extracts_short_url() {
    let id = extract_video_id("https://youtu.be/dQw4w9WgXcQ").unwrap();
    assert_eq!(id.as_str(), "dQw4w9WgXcQ");
}

#[test]
fn extracts_shorts_path() {
    let id = extract_video_id("https://www.youtube.com/shorts/dQw4w9WgXcQ").unwrap();
    assert_eq!(id.as_str(), "dQw4w9WgXcQ");
}

#[test]
fn extracts_live_path() {
    let id = extract_video_id("https://www.youtube.com/live/dQw4w9WgXcQ").unwrap();
    assert_eq!(id.as_str(), "dQw4w9WgXcQ");
}

#[test]
fn extracts_embed_path() {
    let id = extract_video_id("https://www.youtube.com/embed/dQw4w9WgXcQ").unwrap();
    assert_eq!(id.as_str(), "dQw4w9WgXcQ");
}

#[test]
fn strips_tracking_params() {
    let id = extract_video_id("https://www.youtube.com/watch?v=dQw4w9WgXcQ&si=abc123&t=30s").unwrap();
    assert_eq!(id.as_str(), "dQw4w9WgXcQ");
}

#[test]
fn handles_mobile_subdomain() {
    let id = extract_video_id("https://m.youtube.com/watch?v=dQw4w9WgXcQ").unwrap();
    assert_eq!(id.as_str(), "dQw4w9WgXcQ");
}

#[test]
fn handles_no_scheme() {
    let id = extract_video_id("youtu.be/dQw4w9WgXcQ").unwrap();
    assert_eq!(id.as_str(), "dQw4w9WgXcQ");
}

#[test]
fn handles_international_domain() {
    let id = extract_video_id("https://youtube.co.uk/watch?v=dQw4w9WgXcQ").unwrap();
    assert_eq!(id.as_str(), "dQw4w9WgXcQ");
}

#[test]
fn rejects_non_youtube_host() {
    assert!(extract_video_id("https://vimeo.com/12345").is_err());
}

#[test]
fn rejects_youtube_channel_url() {
    assert!(extract_video_id("https://www.youtube.com/channel/UCxyz123").is_err());
}

#[test]
fn rejects_invalid_video_id_length() {
    assert!(extract_video_id("https://youtu.be/short").is_err());
}

#[test]
fn rejects_video_id_with_special_chars() {
    assert!(extract_video_id("https://youtu.be/dQw4w9W!cQ@").is_err());
}

#[test]
fn error_kinds_distinguish_bad_urls_from_bad_ids() {
    assert!(matches!(extract_video_id("https://vimeo.com/12345"), Err(TranscriptError::InvalidUrl)));
    assert!(matches!(extract_video_id("https://www.youtube.com/watch?x=1"), Err(TranscriptError::InvalidUrl)));
    assert!(matches!(extract_video_id("https://youtu.be/"), Err(TranscriptError::InvalidUrl)));
    assert!(matches!(extract_video_id("https://youtu.be/short"), Err(TranscriptError::InvalidVideoId)));
    assert!(matches!(extract_video_id("http://[::1"), Err(TranscriptError::InvalidUrl)));
}

#[test]
fn host_is_matched_case_insensitively_and_with_www() {
    let id = extract_video_id("https://WWW.YouTube.COM/watch?v=dQw4w9WgXcQ").unwrap();
    assert_eq!(id.as_str(), "dQw4w9WgXcQ");
    // Only a lowercase scheme is recognised as one; otherwise `https://` is put in front.
    assert!(matches!(extract_video_id("HTTPS://www.youtube.com/watch?v=dQw4w9WgXcQ"), Err(TranscriptError::InvalidUrl)));
    let id = extract_video_id("http://www.youtu.be/dQw4w9WgXcQ?t=5").unwrap();
    assert_eq!(id.as_str(), "dQw4w9WgXcQ");
}

#[test]
fn first_v_parameter_wins_and_is_decoded() {
    let id = extract_video_id("https://youtube.com/watch?feature=x&v=dQw4w9WgXcQ&v=aaaaaaaaaaa").unwrap();
    assert_eq!(id.as_str(), "dQw4w9WgXcQ");
    let id = extract_video_id("https://youtube.com/watch?v=dQw4w9WgXc%51").unwrap();
    assert_eq!(id.as_str(), "dQw4w9WgXcQ");
}

#[test]
fn shorts_id_stops_at_next_slash() {
    let id = extract_video_id("https://youtube.com/shorts/dQw4w9WgXcQ/extra").unwrap();
    assert_eq!(id.as_str(), "dQw4w9WgXcQ");
    assert!(extract_video_id("https://youtube.com/shorts/").is_err());
}

#[test]
fn video_id_parse_checks_length_and_alphabet() {
    assert_eq!(VideoId::parse("abc-DEF_123").unwrap().as_str(), "abc-DEF_123");
    assert!(matches!(VideoId::parse("abc-DEF_12"), Err(TranscriptError::InvalidVideoId)));
    assert!(matches!(VideoId::parse("abc-DEF_1234"), Err(TranscriptError::InvalidVideoId)));
    assert!(matches!(VideoId::parse("abc DEF_123"), Err(TranscriptError::InvalidVideoId)));
    assert!(matches!(VideoId::parse("abcdéfghijk"), Err(TranscriptError::InvalidVideoId)));
}

#[test]
fn parts_without_host_are_rejected() {
    let parts = UrlParts { host: None, path: "/watch".into(), query: vec![("v".into(), "dQw4w9WgXcQ".into())] };
    assert!(matches!(video_id_from_url_parts(&parts), Err(TranscriptError::InvalidUrl)));
}

#[test]
fn parts_give_the_same_id_without_tracking_pairs() {
    let with = UrlParts {
        host: Some("youtube.com".into()),
        path: "/watch".into(),
        query: vec![("si".into(), "x".into()), ("v".into(), "dQw4w9WgXcQ".into()), ("t".into(), "3".into())],
    };
    let without = UrlParts {
        host: Some("youtube.com".into()),
        path: "/watch".into(),
        query: vec![("v".into(), "dQw4w9WgXcQ".into())],
    };
    assert_eq!(video_id_from_url_parts(&with).unwrap().as_str(), video_id_from_url_parts(&without).unwrap().as_str());
}

#[test]
fn video_ids_compare_and_hash_by_value() {
    let a = VideoId::parse("dQw4w9WgXcQ").unwrap();
    let b = extract_video_id("https://youtu.be/dQw4w9WgXcQ").unwrap();
    assert_eq!(a, b);
    assert_ne!(a, VideoId::parse("aaaaaaaaaaa").unwrap());
    let set: HashSet<VideoId> = [a.clone(), b].into_iter().collect();
    assert_eq!(set.len(), 1);
}
