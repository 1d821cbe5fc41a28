# youtube_transcript

The verified core of a YouTube transcript service (an MCP server with an HTTP
front end), written in Verus.

- `src/`: the library. Every function in it is verified, except five trusted
  wrappers whose contracts are believed, not proved:
  - `text::to_lowercase` (`str::to_lowercase`);
  - `text::push_char` (`String::push`);
  - `url::parse_url` (`url::Url::parse` and its getters);
  - `xml::open_reader` (`quick_xml::Reader::from_str` with text trimming);
  - `xml::next_event` (`Reader::read_event_into`, `BytesText::unescape`).

  Its modules:
  - `url` recognises YouTube URLs and extracts validated video IDs;
  - `language` and `youtube` choose a caption track for a requested language;
  - `innertube` interprets the Innertube player response: playability,
    caption tracks, and audio streams sorted mp4 first, then by bitrate;
  - `xml` turns timed-text XML into plain text;
  - `format` renders cues as text, Markdown, JSON, SRT or WebVTT;
  - `pipeline` is the fetch as a state machine: the caller performs each
    network action and reports its outcome;
  - `rpc` routes HTTP and JSON-RPC requests, picks the tool's arguments
    (language defaults to `en`), maps errors to status codes, and describes
    plain-text, JSON and server-sent-event responses, none of them cached;
  - `bench` holds the benchmark client's decisions: what its minimal MCP
    stdio server answers to each line, and the peak memory read from a
    `/proc/self/status` text;
  - `text`, `numfmt` and `error` are the string, number and error helpers.
- `app/`: the native binary. It holds the command line, the HTTP server
  (axum), the MCP stdio server (rmcp), the HTTP client (reqwest) and JSON
  decoding (serde). There is no Cloudflare Workers target. Its request and
  response decisions are the `rpc` functions of `src/`. The hidden
  `--bench serve|memory` flag runs the benchmark modes against the mock
  server at `MOCK_URL`.
- `tests/`: tests of the library.

Cue times are held in whole milliseconds.
