use youtube_transcript::format::{format_transcript, OutputFormat, Segment};
use youtube_transcript::VideoId;

fn vid() -> VideoId {
    VideoId::parse("dQw4w9WgXcQ").expect("valid id")
}

fn sample() -> Vec<Segment> {
    vec![
        Segment { start_ms: 0, dur_ms: 1500, text: "Hello world".into() },
        Segment { start_ms: 65250, dur_ms: 2000, text: "second line".into() },
    ]
}

#[test]
fn text_joins_with_spaces() {
    let out = format_transcript(&sample(), &vid(), "en", None, OutputFormat::Text);
    assert_eq!(out, "Hello world second line");
}

#[test]
fn text_prepends_note() {
    let out = format_transcript(&sample(), &vid(), "en", Some("fell back"), OutputFormat::Text);
    assert!(out.starts_with("[fell back]\n\n"));
}

#[test]
fn markdown_has_clickable_timestamp_links() {
    let out = format_transcript(&sample(), &vid(), "en", None, OutputFormat::Markdown);
    assert!(out.contains("- [0:00](https://www.youtube.com/watch?v=dQw4w9WgXcQ&t=0s) Hello world"));
    // 65.25s -> label 1:05, link rounds down to whole seconds.
    assert!(out.contains("- [1:05](https://www.youtube.com/watch?v=dQw4w9WgXcQ&t=65s) second line"));
}

#[test]
fn json_embeds_per_cue_urls() {
    let out = format_transcript(&sample(), &vid(), "en", None, OutputFormat::Json);
    let doc: serde_json::Value = serde_json::from_str(&out).expect("valid json");
    assert_eq!(doc["video_id"], "dQw4w9WgXcQ");
    assert_eq!(doc["language"], "en");
    assert!(doc["note"].is_null());
    assert_eq!(doc["segments"][0]["text"], "Hello world");
    assert_eq!(doc["segments"][1]["url"], "https://www.youtube.com/watch?v=dQw4w9WgXcQ&t=65s");
}

#[test]
fn srt_uses_comma_and_one_based_index() {
    let out = format_transcript(&sample(), &vid(), "en", None, OutputFormat::Srt);
    assert!(out.starts_with("1\n00:00:00,000 --> 00:00:01,500\nHello world\n\n"));
    assert!(out.contains("2\n00:01:05,250 --> 00:01:07,250\nsecond line"));
}

#[test]
fn vtt_has_header_dot_separator_and_note() {
    let out = format_transcript(&sample(), &vid(), "en", Some("fell back"), OutputFormat::Vtt);
    assert!(out.starts_with("WEBVTT\n\nNOTE fell back\n\n"));
    assert!(out.contains("00:00:00.000 --> 00:00:01.500\nHello world"));
}

#[test]
fn format_parses_aliases_and_defaults() {
    assert_eq!("json".parse(), Ok(OutputFormat::Json));
    assert_eq!("MD".parse(), Ok(OutputFormat::Markdown));
    assert_eq!("webvtt".parse(), Ok(OutputFormat::Vtt));
    assert_eq!("".parse(), Ok(OutputFormat::Text));
    assert_eq!("nonsense".parse(), Ok(OutputFormat::Text));
}

#[test]
fn format_names_ignore_surrounding_whitespace_and_case() {
    assert_eq!(OutputFormat::from_name("  SRT\n"), OutputFormat::Srt);
    assert_eq!(OutputFormat::from_name("\u{3000}Markdown "), OutputFormat::Markdown);
    assert_eq!(OutputFormat::from_name("vtt"), OutputFormat::Vtt);
    assert_eq!(OutputFormat::from_name("j son"), OutputFormat::Text);
}

#[test]
fn content_types_match_formats() {
    assert_eq!(OutputFormat::Json.content_type(), "application/json; charset=utf-8");
    assert_eq!(OutputFormat::Vtt.content_type(), "text/vtt; charset=utf-8");
    assert_eq!(OutputFormat::Markdown.content_type(), "text/markdown; charset=utf-8");
    assert_eq!(OutputFormat::Text.content_type(), "text/plain; charset=utf-8");
    assert_eq!(OutputFormat::Srt.content_type(), "text/plain; charset=utf-8");
}

#[test]
fn default_format_is_text() {
    assert_eq!(OutputFormat::default(), OutputFormat::Text);
}

#[test]
fn srt_output_is_the_same_with_or_without_a_note() {
    let a = format_transcript(&sample(), &vid(), "en", Some("note"), OutputFormat::Srt);
    let b = format_transcript(&sample(), &vid(), "en", None, OutputFormat::Srt);
    assert_eq!(a, b);
}

#[test]
fn markdown_clock_widens_past_the_hour() {
    let segs = vec![Segment { start_ms: 3_723_999, dur_ms: 0, text: "late".into() }];
    let out = format_transcript(&segs, &vid(), "en", Some("n"), OutputFormat::Markdown);
    assert_eq!(out, "> _n_\n\n- [1:02:03](https://www.youtube.com/watch?v=dQw4w9WgXcQ&t=3723s) late\n");
}

#[test]
fn subtitle_stamps_keep_all_hour_digits() {
    let segs = vec![Segment { start_ms: 360_000_001, dur_ms: 999, text: "x".into() }];
    let out = format_transcript(&segs, &vid(), "en", None, OutputFormat::Vtt);
    assert_eq!(out, "WEBVTT\n\n100:00:00.001 --> 100:00:01.000\nx\n\n");
}

#[test]
fn subtitle_end_saturates() {
    let segs = vec![Segment { start_ms: u64::MAX - 1, dur_ms: 5, text: "x".into() }];
    let out = format_transcript(&segs, &vid(), "en", None, OutputFormat::Srt);
    assert!(out.ends_with(" --> 5124095576030:25:51,615\nx\n\n"));
}

#[test]
fn json_document_is_pretty_printed_with_sorted_keys() {
    let segs = vec![Segment { start_ms: 1001, dur_ms: 2000, text: "a \"q\"\n\u{1}".into() }];
    let out = format_transcript(&segs, &vid(), "de", Some("n"), OutputFormat::Json);
    let expected = "{\n  \"language\": \"de\",\n  \"note\": \"n\",\n  \"segments\": [\n    {\n      \"dur\": 2.0,\n      \"start\": 1.001,\n      \"text\": \"a \\\"q\\\"\\n\\u0001\",\n      \"url\": \"https://www.youtube.com/watch?v=dQw4w9WgXcQ&t=1s\"\n    }\n  ],\n  \"video_id\": \"dQw4w9WgXcQ\"\n}";
    assert_eq!(out, expected);
    let doc: serde_json::Value = serde_json::from_str(&out).expect("valid json");
    assert_eq!(doc["segments"][0]["text"], "a \"q\"\n\u{1}");
    assert_eq!(doc["segments"][0]["start"].as_f64(), Some(1.001));
}

#[test]
fn json_of_no_segments_has_empty_array() {
    let out = format_transcript(&[], &vid(), "en", None, OutputFormat::Json);
    assert_eq!(out, "{\n  \"language\": \"en\",\n  \"note\": null,\n  \"segments\": [],\n  \"video_id\": \"dQw4w9WgXcQ\"\n}");
}

#[test]
fn json_seconds_trim_trailing_zeros() {
    let segs = vec![
        Segment { start_ms: 65250, dur_ms: 1500, text: String::new() },
        Segment { start_ms: 10, dur_ms: 120, text: String::new() },
    ];
    let out = format_transcript(&segs, &vid(), "en", None, OutputFormat::Json);
    assert!(out.contains("\"dur\": 1.5,\n      \"start\": 65.25,"));
    assert!(out.contains("\"dur\": 0.12,\n      \"start\": 0.01,"));
}

#[test]
fn empty_transcript_renders_empty_text() {
    let out = format_transcript(&[], &vid(), "en", None, OutputFormat::Text);
    assert_eq!(out, "");
}

#[test]
fn note_is_shown_in_markdown_vtt_and_json() {
    let md = format_transcript(&sample(), &vid(), "en", Some("fell back"), OutputFormat::Markdown);
    assert!(md.starts_with("> _fell back_\n\n- [0:00]"));
    let vtt = format_transcript(&sample(), &vid(), "en", Some("fell back"), OutputFormat::Vtt);
    assert!(vtt.contains("fell back"));
    let json = format_transcript(&sample(), &vid(), "en", Some("fell \"back\""), OutputFormat::Json);
    let doc: serde_json::Value = serde_json::from_str(&json).expect("valid json");
    assert_eq!(doc["note"], "fell \"back\"");
}
