use youtube_transcript::rpc::{
    cors_headers, native_call_arguments, route_rpc, rpc_error_code, sse_data_frame, transcript_query,
    transcript_status, worker_call_arguments, RpcRoute,
};
use youtube_transcript::TranscriptError;

#[test]
fn routes_known_methods() {
    assert!(matches!(route_rpc("initialize", None, None, None), RpcRoute::Initialize));
    assert!(matches!(route_rpc("tools/list", None, None, None), RpcRoute::ListTools));
    match route_rpc("tools/call", Some("get_transcript"), Some("u"), None) {
        RpcRoute::CallGetTranscript { url, language } => {
            assert_eq!(url.as_deref(), Some("u"));
            assert_eq!(language, None);
        }
        other => panic!("unexpected: {other:?}"),
    }
}

#[test]
fn rejects_unknown_tools_and_methods() {
    match route_rpc("tools/call", Some("other"), None, None) {
        RpcRoute::Reject { code, message } => {
            assert_eq!(code, -32601);
            assert_eq!(message, "Unknown tool: other");
        }
        other => panic!("unexpected: {other:?}"),
    }
    match route_rpc("tools/call", None, None, None) {
        RpcRoute::Reject { message, .. } => assert_eq!(message, "Unknown tool: "),
        other => panic!("unexpected: {other:?}"),
    }
    match route_rpc("ping", None, None, None) {
        RpcRoute::Reject { code, message } => {
            assert_eq!(code, -32601);
            assert_eq!(message, "Method not found: ping");
        }
        other => panic!("unexpected: {other:?}"),
    }
}

#[test]
fn call_arguments_default() {
    let (u, l) = native_call_arguments(None, None);
    assert_eq!(u, "");
    assert_eq!(l, "en");
    let (u, l) = native_call_arguments(Some("x".into()), Some("fr".into()));
    assert_eq!((u.as_str(), l.as_str()), ("x", "fr"));
    match worker_call_arguments(None, Some("fr".into())) {
        Err(e) => assert_eq!(e.message(), "Parse error: Missing required parameter: url"),
        Ok(_) => panic!("missing url must fail"),
    }
    assert_eq!(worker_call_arguments(Some("x".into()), None).unwrap(), ("x".to_string(), "en".to_string()));
}

#[test]
fn error_codes_and_statuses() {
    assert_eq!(rpc_error_code(&TranscriptError::InvalidUrl), -32602);
    assert_eq!(rpc_error_code(&TranscriptError::InvalidVideoId), -32602);
    assert_eq!(rpc_error_code(&TranscriptError::NoTranscriptAvailable), -1);
    assert_eq!(transcript_status(&TranscriptError::InvalidUrl), 400);
    assert_eq!(transcript_status(&TranscriptError::NoTranscriptAvailable), 404);
    assert_eq!(
        transcript_status(&TranscriptError::LanguageNotAvailable { requested: "de".into(), available: vec![] }),
        404
    );
    assert_eq!(transcript_status(&TranscriptError::Network("x".into())), 502);
    assert_eq!(transcript_status(&TranscriptError::Parse("x".into())), 500);
}

#[test]
fn transcript_query_takes_last_values() {
    let q = vec![
        ("url".to_string(), "a".to_string()),
        ("lang".to_string(), "fr".to_string()),
        ("url".to_string(), "b".to_string()),
        ("language".to_string(), "de".to_string()),
    ];
    assert_eq!(transcript_query(&q).unwrap(), ("b".to_string(), "de".to_string()));
    let q = vec![("url".to_string(), "a".to_string())];
    assert_eq!(transcript_query(&q).unwrap(), ("a".to_string(), "auto".to_string()));
    let q = vec![("language".to_string(), "de".to_string())];
    assert_eq!(transcript_query(&q).unwrap_err(), "Missing required query parameter: url");
}

#[test]
fn sse_frame_and_cors() {
    assert_eq!(sse_data_frame("{}"), "data: {}\n\n");
    let h = cors_headers();
    assert_eq!(h[0], ("Access-Control-Allow-Origin", "*"));
    assert_eq!(h[1], ("Access-Control-Allow-Methods", "GET, POST, OPTIONS"));
    assert_eq!(h[2], ("Access-Control-Allow-Headers", "Content-Type, Accept"));
}

use youtube_transcript::rpc::{route_request, Endpoint, HttpMethod};

#[test]
fn worker_requests_are_routed_by_method_and_path() {
    assert_eq!(route_request(HttpMethod::Options, "/mcp"), Endpoint::Preflight);
    assert_eq!(route_request(HttpMethod::Post, "/"), Endpoint::Info);
    assert_eq!(route_request(HttpMethod::Get, "/transcript"), Endpoint::Transcript);
    assert_eq!(route_request(HttpMethod::Post, "/transcript"), Endpoint::NotFound);
    assert_eq!(route_request(HttpMethod::Post, "/mcp"), Endpoint::Mcp);
    assert_eq!(route_request(HttpMethod::Post, "/sse"), Endpoint::SseCall);
    assert_eq!(route_request(HttpMethod::Get, "/sse"), Endpoint::SseHandshake);
    assert_eq!(route_request(HttpMethod::Other, "/sse"), Endpoint::NotFound);
    assert_eq!(route_request(HttpMethod::Get, "/missing"), Endpoint::NotFound);
}

use youtube_transcript::rpc::{json_response, sse_response, text_response};

#[test]
fn worker_responses_carry_their_headers() {
    let r = text_response(404, "gone".into());
    assert_eq!(r.status, 404);
    assert_eq!(r.body, "gone");
    assert_eq!(
        r.headers,
        vec![("Content-Type", "text/plain; charset=utf-8"), ("Cache-Control", "no-cache"), ("Access-Control-Allow-Origin", "*")]
    );
    let r = json_response("{}".into());
    assert_eq!(r.status, 200);
    assert_eq!(
        r.headers,
        vec![("Content-Type", "application/json"), ("Cache-Control", "no-cache"), ("Access-Control-Allow-Origin", "*")]
    );
    let r = sse_response("{\"a\":1}");
    assert_eq!(r.body, "data: {\"a\":1}\n\n");
    assert_eq!(
        r.headers,
        vec![("Content-Type", "text/event-stream"), ("Cache-Control", "no-cache"), ("Access-Control-Allow-Origin", "*")]
    );
}
