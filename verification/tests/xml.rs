use youtube_transcript::{parse_transcript_xml, TranscriptError};

#[test]
fn parses_basic_xml() {
    let xml = r#"<?xml version="1.0" encoding="utf-8" ?><transcript>
<text start="0" dur="1">Hello world</text>
<text start="1" dur="2">This is a test</text>
</transcript>"#;
    assert_eq!(parse_transcript_xml(xml).unwrap(), "Hello world This is a test");
}

#[test]
fn unescapes_xml_entities() {
    let xml = r#"<?xml version="1.0"?><transcript>
<text start="0" dur="1">Hello &amp; world</text>
<text start="1" dur="1">It&apos;s &lt;fine&gt;</text>
</transcript>"#;
    assert_eq!(parse_transcript_xml(xml).unwrap(), "Hello & world It's <fine>");
}

#[test]
fn returns_empty_string_for_empty_transcript() {
    let xml = r#"<?xml version="1.0"?><transcript></transcript>"#;
    assert_eq!(parse_transcript_xml(xml).unwrap(), "");
}

#[test]
fn parses_innertube_p_element_xml() {
    let xml = r#"<?xml version="1.0" encoding="utf-8" ?><timedtext format="3"><body>
<p t="1360" d="1680">Hello world</p>
<p t="3000" d="2000">This is a test</p>
</body></timedtext>"#;
    assert_eq!(parse_transcript_xml(xml).unwrap(), "Hello world This is a test");
}

#[test]
fn text_outside_caption_elements_is_ignored() {
    let xml = "<transcript>ignored<text> kept </text>also ignored<p>\u{a0}</p></transcript>";
    assert_eq!(parse_transcript_xml(xml).unwrap(), "kept");
}

#[test]
fn malformed_xml_is_a_parse_error() {
    let xml = "<transcript><text>a</p></transcript>";
    assert!(matches!(parse_transcript_xml(xml), Err(TranscriptError::Parse(_))));
}

#[test]
fn unknown_entity_is_a_parse_error() {
    let xml = "<transcript><text>a &bogus; b</text></transcript>";
    assert!(matches!(parse_transcript_xml(xml), Err(TranscriptError::Parse(_))));
}

use youtube_transcript::xml::{transcript_from_events, XmlEvent};

#[test]
fn events_are_collected_inside_text_elements_only() {
    let events = vec![
        XmlEvent::Other,
        XmlEvent::Text(Ok("outside".into())),
        XmlEvent::Start(b"text".to_vec()),
        XmlEvent::Text(Ok("  one ".into())),
        XmlEvent::End(b"text".to_vec()),
        XmlEvent::Start(b"p".to_vec()),
        XmlEvent::Start(b"s".to_vec()),
        XmlEvent::Text(Ok("two".into())),
        XmlEvent::End(b"s".to_vec()),
        XmlEvent::Text(Ok(" ".into())),
        XmlEvent::End(b"p".to_vec()),
        XmlEvent::Eof,
        XmlEvent::Text(Ok("after the end".into())),
    ];
    assert_eq!(transcript_from_events(events).unwrap(), "one two");
}

#[test]
fn event_errors_become_parse_errors() {
    let events = vec![XmlEvent::Start(b"p".to_vec()), XmlEvent::Text(Err("bad entity".into()))];
    match transcript_from_events(events) {
        Err(TranscriptError::Parse(m)) => assert_eq!(m, "bad entity"),
        other => panic!("unexpected: {other:?}"),
    }
    let events = vec![XmlEvent::Failed("syntax".into()), XmlEvent::Eof];
    assert!(matches!(transcript_from_events(events), Err(TranscriptError::Parse(m)) if m == "syntax"));
    // Text outside an element is never unescaped, so its error is ignored.
    let events = vec![XmlEvent::Text(Err("ignored".into())), XmlEvent::Eof];
    assert_eq!(transcript_from_events(events).unwrap(), "");
}

#[test]
fn events_that_stop_without_end_still_give_text() {
    let events = vec![XmlEvent::Start(b"p".to_vec()), XmlEvent::Text(Ok("x".into()))];
    assert_eq!(transcript_from_events(events).unwrap(), "x");
}
