//! Verified core of a YouTube transcript service: URL recognition, caption
//! track selection, caption XML to text, output formats, and the decisions of
//! the fetch pipeline and its HTTP / MCP endpoints.
pub mod bench;
pub mod error;
pub mod format;
pub mod innertube;
pub mod language;
pub mod numfmt;
pub mod pipeline;
pub mod rpc;
pub mod text;
pub mod url;
pub mod xml;
pub mod youtube;

pub use error::TranscriptError;
pub use format::{format_transcript, OutputFormat, Segment};
pub use innertube::{innertube_data_from_response, InnertubeResponse};
pub use language::{Language, AUTO_DETECT_ORDER};
pub use pipeline::{advance_fetch, start_fetch, FetchAction, FetchEvent, FetchState};
pub use url::{extract_video_id, VideoId};
pub use xml::parse_transcript_xml;
pub use youtube::{
    innertube_body, select_track, user_agent, AudioStream, CaptionTrack, InnertubeData,
    TranscriptResult, INNERTUBE_URL, USER_AGENT,
};
