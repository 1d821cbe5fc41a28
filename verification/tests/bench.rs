use youtube_transcript::bench::{
    stdio_call_reply, stdio_step, vm_hwm_kib, StdioAction, StdioRequest, SAMPLE_URL,
};
use youtube_transcript::TranscriptError;

fn request(id: Option<&str>, method: &str, url: Option<&str>) -> Option<StdioRequest> {
    Some(StdioRequest {
        id: id.map(str::to_string),
        method: method.to_string(),
        url: url.map(str::to_string),
    })
}

fn reply_of(action: StdioAction) -> String {
    match action {
        StdioAction::Reply(s) => s,
        other => panic!("expected a reply, got {other:?}"),
    }
}

#[test]
fn blank_and_undecodable_lines_are_skipped() {
    assert!(matches!(stdio_step("   \t", request(Some("1"), "initialize", None), "1.0.0"), StdioAction::Ignore));
    assert!(matches!(stdio_step("not json", None, "1.0.0"), StdioAction::Ignore));
}

#[test]
fn initialize_is_answered_with_server_info() {
    let line = r#"{"jsonrpc":"2.0","id":1,"method":"initialize"}"#;
    let reply = reply_of(stdio_step(line, request(Some("1"), "initialize", None), "0.1.0"));
    assert_eq!(
        reply,
        "{\"id\":1,\"jsonrpc\":\"2.0\",\"result\":{\"capabilities\":{\"tools\":{}},\"protocolVersion\":\"2024-11-05\",\"serverInfo\":{\"name\":\"rust-bench\",\"version\":\"0.1.0\"}}}\n"
    );
    let v: serde_json::Value = serde_json::from_str(reply.trim_end()).unwrap();
    assert_eq!(v["result"]["serverInfo"]["version"], "0.1.0");
}

#[test]
fn tools_list_names_one_tool_with_a_url() {
    let line = r#"{"jsonrpc":"2.0","id":"a","method":"tools/list"}"#;
    let reply = reply_of(stdio_step(line, request(Some("\"a\""), "tools/list", None), "0.1.0"));
    assert_eq!(
        reply,
        "{\"id\":\"a\",\"jsonrpc\":\"2.0\",\"result\":{\"tools\":[{\"description\":\"Bench tool\",\"inputSchema\":{\"properties\":{\"url\":{\"type\":\"string\"}},\"required\":[\"url\"],\"type\":\"object\"},\"name\":\"get_transcript\"}]}}\n"
    );
    let v: serde_json::Value = serde_json::from_str(reply.trim_end()).unwrap();
    assert_eq!(v["result"]["tools"][0]["inputSchema"]["required"][0], "url");
}

#[test]
fn notifications_and_unknown_methods_get_no_reply() {
    let line = r#"{"jsonrpc":"2.0","method":"notifications/initialized"}"#;
    assert!(matches!(
        stdio_step(line, request(None, "notifications/initialized", None), "0.1.0"),
        StdioAction::Ignore
    ));
    assert!(matches!(stdio_step("{}", request(Some("3"), "", None), "0.1.0"), StdioAction::Ignore));
    assert!(matches!(stdio_step("{}", request(Some("3"), "ping", None), "0.1.0"), StdioAction::Ignore));
}

#[test]
fn tools_call_fetches_the_given_or_the_sample_url() {
    let url = "https://youtu.be/abcdefghijk";
    match stdio_step("{}", request(Some("2"), "tools/call", Some(url)), "0.1.0") {
        StdioAction::Fetch(u) => assert_eq!(u, url),
        other => panic!("expected a fetch, got {other:?}"),
    }
    match stdio_step("{}", request(Some("2"), "tools/call", None), "0.1.0") {
        StdioAction::Fetch(u) => assert_eq!(u, SAMPLE_URL),
        other => panic!("expected a fetch, got {other:?}"),
    }
}

#[test]
fn call_reply_carries_the_transcript_escaped() {
    let reply = stdio_call_reply(Some("7"), &Ok("He said \"hi\"\nthen left".to_string()));
    assert_eq!(
        reply,
        "{\"id\":7,\"jsonrpc\":\"2.0\",\"result\":{\"content\":[{\"text\":\"He said \\\"hi\\\"\\nthen left\",\"type\":\"text\"}]}}\n"
    );
    let v: serde_json::Value = serde_json::from_str(reply.trim_end()).unwrap();
    assert_eq!(v["result"]["content"][0]["text"], "He said \"hi\"\nthen left");
}

#[test]
fn failed_call_is_a_result_flagged_as_error() {
    let reply = stdio_call_reply(None, &Err(TranscriptError::NoTranscriptAvailable));
    assert_eq!(
        reply,
        "{\"id\":null,\"jsonrpc\":\"2.0\",\"result\":{\"content\":[{\"text\":\"No transcript available for this video\",\"type\":\"text\"}],\"isError\":true}}\n"
    );
}

#[test]
fn peak_memory_is_read_from_the_vmhwm_line() {
    let status = "Name:\tbench\nVmPeak:\t  20000 kB\nVmHWM:\t    5528 kB\nVmRSS:\t    5000 kB\n";
    assert_eq!(vm_hwm_kib(status), Some(5528));
}

#[test]
fn peak_memory_missing_or_malformed_is_none() {
    assert_eq!(vm_hwm_kib("Name:\tbench\nVmRSS:\t 10 kB\n"), None);
    assert_eq!(vm_hwm_kib(""), None);
    assert_eq!(vm_hwm_kib("VmHWM:\n"), None);
    assert_eq!(vm_hwm_kib("VmHWM:\t12abc kB\n"), None);
    assert_eq!(vm_hwm_kib(" VmHWM:\t12 kB\n"), None);
    assert_eq!(vm_hwm_kib("VmHWM:\t+\n"), None);
}

#[test]
fn peak_memory_first_vmhwm_line_decides() {
    assert_eq!(vm_hwm_kib("VmHWM: x kB\nVmHWM: 5 kB\n"), None);
    assert_eq!(vm_hwm_kib("VmHWM: 5 kB\nVmHWM: 9 kB\n"), Some(5));
}

#[test]
fn peak_memory_number_forms() {
    assert_eq!(vm_hwm_kib("VmHWM:\t7 kB\r\n"), Some(7));
    assert_eq!(vm_hwm_kib("VmHWM: +12"), Some(12));
    assert_eq!(vm_hwm_kib("VmHWM: 18446744073709551615 kB"), Some(u64::MAX));
    assert_eq!(vm_hwm_kib("VmHWM: 18446744073709551616 kB"), None);
    assert_eq!(vm_hwm_kib("VmHWM: 0"), Some(0));
}
