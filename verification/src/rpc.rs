//! The decisions behind the HTTP and MCP (JSON-RPC) endpoints: which method
//! a request calls, which arguments the transcript tool gets, and how errors
//! map to status codes.
use vstd::prelude::*;

use crate::error::TranscriptError;
use crate::text::{push_str, str_eq, string_of};

verus! {

broadcast use vstd::string::group_string_axioms;

/// What a JSON-RPC request asks for.
#[derive(Debug)]
pub enum RpcRoute {
    /// `initialize`: describe the server.
    Initialize,
    /// `tools/list`: list the tools.
    ListTools,
    /// `tools/call` of `get_transcript`, with its raw string arguments.
    CallGetTranscript { url: Option<String>, language: Option<String> },
    /// Answer with a JSON-RPC error.
    Reject { code: i32, message: String },
}

/// The JSON-RPC code for "method not found" (also used for unknown tools).
pub open spec fn method_not_found_code() -> int {
    -32601
}

/// Route a JSON-RPC request. `tool_name`, `url` and `language` are the
/// string values of `params.name`, `params.arguments.url` and
/// `params.arguments.language`, when present.
pub fn route_rpc(
    method: &str,
    tool_name: Option<&str>,
    url: Option<&str>,
    language: Option<&str>,
) -> (r: RpcRoute)
    ensures
        method@ == "initialize"@ ==> r is Initialize,
        method@ != "initialize"@ && method@ == "tools/list"@ ==> r is ListTools,
        method@ != "initialize"@ && method@ != "tools/list"@ && method@ == "tools/call"@ ==> {
            let name = match tool_name {
                Some(n) => n@,
                None => ""@,
            };
            if name == "get_transcript"@ {
                r matches RpcRoute::CallGetTranscript { url: u, language: l } && opt_view(u)
                    == opt_str_view(url) && opt_view(l) == opt_str_view(language)
            } else {
                r matches RpcRoute::Reject { code, message } && code == method_not_found_code()
                    && message@ == "Unknown tool: "@ + name
            }
        },
        method@ != "initialize"@ && method@ != "tools/list"@ && method@ != "tools/call"@ ==> (
        r matches RpcRoute::Reject { code, message } && code == method_not_found_code()
            && message@ == "Method not found: "@ + method@),
{
    if str_eq(method, "initialize") {
        RpcRoute::Initialize
    } else if str_eq(method, "tools/list") {
        RpcRoute::ListTools
    } else if str_eq(method, "tools/call") {
        let name: &str = match tool_name {
            Some(n) => n,
            None => "",
        };
        if !str_eq(name, "get_transcript") {
            let mut message = String::from_str("Unknown tool: ");
            push_str(&mut message, name);
            return RpcRoute::Reject { code: -32601, message };
        }
        RpcRoute::CallGetTranscript { url: opt_string(url), language: opt_string(language) }
    } else {
        let mut message = String::from_str("Method not found: ");
        push_str(&mut message, method);
        RpcRoute::Reject { code: -32601, message }
    }
}

/// The view of an optional `String`.
pub open spec fn opt_view(o: Option<String>) -> Option<Seq<char>> {
    match o {
        Some(s) => Some(s@),
        None => None,
    }
}

/// The view of an optional string slice.
pub open spec fn opt_str_view(o: Option<&str>) -> Option<Seq<char>> {
    match o {
        Some(s) => Some(s@),
        None => None,
    }
}

/// An owned copy of an optional string slice.
fn opt_string(o: Option<&str>) -> (r: Option<String>)
    ensures
        opt_view(r) == opt_str_view(o),
{
    match o {
        Some(s) => Some(string_of(s)),
        None => None,
    }
}

/// The `(url, language)` the native server passes to the transcript fetch:
/// a missing URL is empty and a missing language is `en`.
pub fn native_call_arguments(url: Option<String>, language: Option<String>) -> (r: (
    String,
    String,
))
    ensures
        r.0@ == (match url {
            Some(u) => u@,
            None => ""@,
        }),
        r.1@ == (match language {
            Some(l) => l@,
            None => "en"@,
        }),
{
    proof {
        reveal_strlit("");
    }
    let u = match url {
        Some(u) => u,
        None => String::new(),
    };
    let l = match language {
        Some(l) => l,
        None => String::from_str("en"),
    };
    (u, l)
}

/// The `(url, language)` the Workers deployment passes to the transcript
/// fetch: a missing URL is a `Parse` error and a missing language is `en`.
pub fn worker_call_arguments(url: Option<String>, language: Option<String>) -> (r: Result<
    (String, String),
    TranscriptError,
>)
    ensures
        match url {
            None => r matches Err(TranscriptError::Parse(m)) && m@
                == "Missing required parameter: url"@,
            Some(u) => r matches Ok((ru, rl)) && ru == u && rl@ == (match language {
                Some(l) => l@,
                None => "en"@,
            }),
        },
{
    match url {
        None => Err(TranscriptError::Parse(String::from_str("Missing required parameter: url"))),
        Some(u) => {
            let l = match language {
                Some(l) => l,
                None => String::from_str("en"),
            };
            Ok((u, l))
        },
    }
}

/// The JSON-RPC error code reported for a failed transcript fetch.
pub open spec fn rpc_error_code_of(e: TranscriptError) -> int {
    match e {
        TranscriptError::InvalidUrl | TranscriptError::InvalidVideoId => -32602,
        _ => -1,
    }
}

/// The JSON-RPC error code reported for a failed transcript fetch:
/// invalid parameters for a bad URL or ID, `-1` otherwise.
pub fn rpc_error_code(e: &TranscriptError) -> (r: i32)
    ensures
        r == rpc_error_code_of(*e),
{
    match e {
        TranscriptError::InvalidUrl | TranscriptError::InvalidVideoId => -32602,
        _ => -1,
    }
}

/// The HTTP status of a failed transcript fetch.
pub open spec fn http_status_of(e: TranscriptError) -> int {
    match e {
        TranscriptError::InvalidUrl | TranscriptError::InvalidVideoId => 400,
        TranscriptError::NoTranscriptAvailable | TranscriptError::LanguageNotAvailable { .. } => 404,
        TranscriptError::Network(_) => 502,
        TranscriptError::Parse(_) => 500,
    }
}

/// The HTTP status of a failed transcript fetch: 400 for a bad request, 404
/// when there is no usable transcript, 502 for upstream failures and 500
/// for documents that could not be understood.
pub fn transcript_status(e: &TranscriptError) -> (r: u16)
    ensures
        r == http_status_of(*e),
{
    match e {
        TranscriptError::InvalidUrl | TranscriptError::InvalidVideoId => 400,
        TranscriptError::NoTranscriptAvailable | TranscriptError::LanguageNotAvailable { .. } => 404,
        TranscriptError::Network(_) => 502,
        TranscriptError::Parse(_) => 500,
    }
}

/// The value of the last pair whose key is `k1` or `k2`.
pub open spec fn last_value(
    q: Seq<(Seq<char>, Seq<char>)>,
    k1: Seq<char>,
    k2: Seq<char>,
) -> Option<Seq<char>>
    decreases q.len(),
{
    if q.len() == 0 {
        None
    } else if q.last().0 == k1 || q.last().0 == k2 {
        Some(q.last().1)
    } else {
        last_value(q.drop_last(), k1, k2)
    }
}

/// The view of a list of query pairs.
pub open spec fn pairs_view(q: Seq<(String, String)>) -> Seq<(Seq<char>, Seq<char>)> {
    q.map_values(|p: (String, String)| (p.0@, p.1@))
}

/// The `(url, language)` of a `GET /transcript` query on the Workers
/// deployment: the last `url` wins, the last `language` or `lang` wins and
/// defaults to `auto`; without a `url` the request is answered with 400 and
/// the returned message.
pub fn transcript_query(pairs: &Vec<(String, String)>) -> (r: Result<(String, String), String>)
    ensures
        match last_value(pairs_view(pairs@), "url"@, "url"@) {
            None => r matches Err(m) && m@ == "Missing required query parameter: url"@,
            Some(u) => r matches Ok((ru, rl)) && ru@ == u && rl@ == (match last_value(
                pairs_view(pairs@),
                "language"@,
                "lang"@,
            ) {
                Some(l) => l,
                None => "auto"@,
            }),
        },
{
    let mut url: Option<String> = None;
    let mut language: Option<String> = None;
    let mut i: usize = 0;
    while i < pairs.len()
        invariant
            i <= pairs@.len(),
            opt_view(url) == last_value(pairs_view(pairs@.take(i as int)), "url"@, "url"@),
            opt_view(language) == last_value(
                pairs_view(pairs@.take(i as int)),
                "language"@,
                "lang"@,
            ),
        decreases pairs@.len() - i,
    {
        proof {
            assert(pairs_view(pairs@.take(i + 1)).drop_last() =~= pairs_view(
                pairs@.take(i as int),
            ));
            assert(pairs_view(pairs@.take(i + 1)).last() == (pairs@[i as int].0@, pairs@[
                i as int
            ].1@));
        }
        proof {
            reveal_strlit("url");
            reveal_strlit("language");
            reveal_strlit("lang");
            assert("url"@.len() == 3);
            assert("lang"@.len() == 4);
            assert("language"@.len() == 8);
        }
        let k = pairs[i].0.as_str();
        if str_eq(k, "url") {
            url = Some(pairs[i].1.clone());
        } else if str_eq(k, "language") || str_eq(k, "lang") {
            language = Some(pairs[i].1.clone());
        }
        i = i + 1;
    }
    proof {
        assert(pairs@.take(pairs@.len() as int) =~= pairs@);
    }
    match url {
        None => Err(String::from_str("Missing required query parameter: url")),
        Some(u) => {
            let l = match language {
                Some(l) => l,
                None => String::from_str("auto"),
            };
            Ok((u, l))
        },
    }
}

/// The HTTP method of a request, as far as routing cares.
#[derive(Debug, Clone, Copy, PartialEq, Eq)]
pub enum HttpMethod {
    Get,
    Post,
    Options,
    Other,
}

/// Which handler of the Workers deployment answers a request.
#[derive(Debug, Clone, Copy, PartialEq, Eq)]
pub enum Endpoint {
    /// CORS preflight: an empty 204 with the CORS headers.
    Preflight,
    /// `/`: the server description.
    Info,
    /// `GET /transcript`: the plain-text transcript.
    Transcript,
    /// `POST /mcp`: a JSON-RPC call answered with JSON.
    Mcp,
    /// `POST /sse`: a JSON-RPC call answered as a server-sent event.
    SseCall,
    /// `GET /sse`: the `notifications/initialized` handshake.
    SseHandshake,
    /// Anything else: 404.
    NotFound,
}

/// The handler for a method and path.
pub open spec fn endpoint_for(method: HttpMethod, path: Seq<char>) -> Endpoint {
    if method == HttpMethod::Options {
        Endpoint::Preflight
    } else if path == "/"@ {
        Endpoint::Info
    } else if method == HttpMethod::Get && path == "/transcript"@ {
        Endpoint::Transcript
    } else if method == HttpMethod::Post && path == "/mcp"@ {
        Endpoint::Mcp
    } else if method == HttpMethod::Post && path == "/sse"@ {
        Endpoint::SseCall
    } else if method == HttpMethod::Get && path == "/sse"@ {
        Endpoint::SseHandshake
    } else {
        Endpoint::NotFound
    }
}

/// Route a request of the Workers deployment: preflights first, then `/`
/// for any method, then the transcript, MCP and SSE endpoints.
pub fn route_request(method: HttpMethod, path: &str) -> (r: Endpoint)
    ensures
        r == endpoint_for(method, path@),
{
    proof {
        reveal_strlit("/");
        reveal_strlit("/transcript");
        reveal_strlit("/mcp");
        reveal_strlit("/sse");
        assert("/"@.len() == 1 && "/transcript"@.len() == 11 && "/mcp"@.len() == 4);
        assert("/mcp"@[1] != "/sse"@[1]);
    }
    match method {
        HttpMethod::Options => Endpoint::Preflight,
        _ => {
            if str_eq(path, "/") {
                Endpoint::Info
            } else if str_eq(path, "/transcript") {
                match method {
                    HttpMethod::Get => Endpoint::Transcript,
                    _ => Endpoint::NotFound,
                }
            } else if str_eq(path, "/mcp") {
                match method {
                    HttpMethod::Post => Endpoint::Mcp,
                    _ => Endpoint::NotFound,
                }
            } else if str_eq(path, "/sse") {
                match method {
                    HttpMethod::Post => Endpoint::SseCall,
                    HttpMethod::Get => Endpoint::SseHandshake,
                    _ => Endpoint::NotFound,
                }
            } else {
                Endpoint::NotFound
            }
        },
    }
}

/// A server-sent event carrying `json` as its data.
pub fn sse_data_frame(json: &str) -> (r: String)
    ensures
        r@ == "data: "@ + json@ + "\n\n"@,
{
    let mut out = String::from_str("data: ");
    push_str(&mut out, json);
    push_str(&mut out, "\n\n");
    out
}

/// A response of the Workers deployment as plain values.
#[derive(Debug)]
pub struct HttpReply {
    pub status: u16,
    pub headers: Vec<(&'static str, &'static str)>,
    pub body: String,
}

/// A plain-text response with the given status, never cached.
pub fn text_response(status: u16, body: String) -> (r: HttpReply)
    ensures
        r.status == status,
        r.body == body,
        r.headers@.len() == 3,
        r.headers@[0].0@ == "Content-Type"@ && r.headers@[0].1@ == "text/plain; charset=utf-8"@,
        r.headers@[1].0@ == "Cache-Control"@ && r.headers@[1].1@ == "no-cache"@,
        r.headers@[2].0@ == "Access-Control-Allow-Origin"@ && r.headers@[2].1@ == "*"@,
{
    let mut headers: Vec<(&'static str, &'static str)> = Vec::new();
    headers.push(("Content-Type", "text/plain; charset=utf-8"));
    headers.push(("Cache-Control", "no-cache"));
    headers.push(("Access-Control-Allow-Origin", "*"));
    HttpReply { status, headers, body }
}

/// A 200 response carrying the JSON text `json`, never cached.
pub fn json_response(json: String) -> (r: HttpReply)
    ensures
        r.status == 200,
        r.body == json,
        r.headers@.len() == 3,
        r.headers@[0].0@ == "Content-Type"@ && r.headers@[0].1@ == "application/json"@,
        r.headers@[1].0@ == "Cache-Control"@ && r.headers@[1].1@ == "no-cache"@,
        r.headers@[2].0@ == "Access-Control-Allow-Origin"@ && r.headers@[2].1@ == "*"@,
{
    let mut headers: Vec<(&'static str, &'static str)> = Vec::new();
    headers.push(("Content-Type", "application/json"));
    headers.push(("Cache-Control", "no-cache"));
    headers.push(("Access-Control-Allow-Origin", "*"));
    HttpReply { status: 200, headers, body: json }
}

/// A 200 server-sent-event response carrying the JSON text `json`, never cached.
pub fn sse_response(json: &str) -> (r: HttpReply)
    ensures
        r.status == 200,
        r.body@ == "data: "@ + json@ + "\n\n"@,
        r.headers@.len() == 3,
        r.headers@[0].0@ == "Content-Type"@ && r.headers@[0].1@ == "text/event-stream"@,
        r.headers@[1].0@ == "Cache-Control"@ && r.headers@[1].1@ == "no-cache"@,
        r.headers@[2].0@ == "Access-Control-Allow-Origin"@ && r.headers@[2].1@ == "*"@,
{
    let mut headers: Vec<(&'static str, &'static str)> = Vec::new();
    headers.push(("Content-Type", "text/event-stream"));
    headers.push(("Cache-Control", "no-cache"));
    headers.push(("Access-Control-Allow-Origin", "*"));
    HttpReply { status: 200, headers, body: sse_data_frame(json) }
}

/// The CORS headers sent with every response and preflight.
pub fn cors_headers() -> (r: Vec<(&'static str, &'static str)>)
    ensures
        r@.len() == 3,
        r@[0].0@ == "Access-Control-Allow-Origin"@ && r@[0].1@ == "*"@,
        r@[1].0@ == "Access-Control-Allow-Methods"@ && r@[1].1@ == "GET, POST, OPTIONS"@,
        r@[2].0@ == "Access-Control-Allow-Headers"@ && r@[2].1@ == "Content-Type, Accept"@,
{
    let mut h: Vec<(&'static str, &'static str)> = Vec::new();
    h.push(("Access-Control-Allow-Origin", "*"));
    h.push(("Access-Control-Allow-Methods", "GET, POST, OPTIONS"));
    h.push(("Access-Control-Allow-Headers", "Content-Type, Accept"));
    h
}

/// The HTTP and JSON-RPC endpoints agree on which failures are the caller's
/// fault: status 400 exactly when the JSON-RPC code is "invalid params".
pub proof fn law_bad_requests_agree(e: TranscriptError)
    ensures
        http_status_of(e) == 400 <==> rpc_error_code_of(e) == -32602,
{
}

} // verus!
