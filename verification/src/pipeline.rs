//! The decisions of a transcript fetch, as a state machine.
//!
//! A fetch alternates network work with decisions: post the Innertube
//! request, read the player response, pick a caption track, download it and
//! turn it into text, or fall back to a Whisper transcription when a video has
//! no captions. The caller performs each [`FetchAction`] and reports the
//! outcome as a [`FetchEvent`]; [`advance_fetch`] decides what happens next.
use vstd::prelude::*;

use crate::error::{views, TranscriptError};
use crate::innertube::{
    audio_streams_of, formats_of, innertube_data_from_response, is_stable_sort_of, tracks_of,
    unplayable, unplayable_message, InnertubeResponse,
};
use crate::language::{language_of, Language};
use crate::text::{contains, contains_seq, push_str, trim, trimmed};
use crate::url::{extracted, extract_video_id, split_field};
use crate::xml::{parse_transcript_xml, transcript_text, xml_events};
use crate::youtube::{
    innertube_body, innertube_body_text, opt_string_view, pick, select_track, track_codes,
    AudioStream, TranscriptResult,
};

verus! {

broadcast use vstd::string::group_string_axioms;

/// What the caller must do next.
#[derive(Debug)]
pub enum FetchAction {
    /// POST `body` (JSON) to the Innertube player endpoint and report the
    /// decoded response.
    PostInnertube { body: String },
    /// GET the caption track at `url` and report its body.
    FetchCaptions { url: String },
    /// Download the audio at `audio_url` and upload it to `endpoint` as
    /// `file_name` with MIME type `mime`; report the transcription.
    Transcribe { endpoint: String, audio_url: String, file_name: String, mime: String },
    /// The fetch is over.
    Finish(Result<TranscriptResult, TranscriptError>),
}

/// The outcome of the last action.
#[derive(Debug)]
pub enum FetchEvent {
    /// The decoded Innertube response, or why it could not be had.
    Innertube(Result<InnertubeResponse, TranscriptError>),
    /// The caption XML, or why it could not be had.
    Captions(Result<String, TranscriptError>),
    /// The Whisper transcription, or why it could not be had.
    Transcribed(Result<String, TranscriptError>),
}

/// Where a fetch stands.
#[derive(Debug)]
pub enum FetchState {
    /// Waiting for the Innertube response.
    AwaitInnertube { language: Language, whisper_url: Option<String> },
    /// Waiting for the caption XML of the chosen track.
    AwaitCaptions { language_code: String, note: Option<String> },
    /// Waiting for a Whisper transcription.
    AwaitTranscription,
    /// Finished.
    Done,
}

/// Does `event` answer the action that `state` waits on?
pub open spec fn answers(state: FetchState, event: FetchEvent) -> bool {
    match state {
        FetchState::AwaitInnertube { .. } => event is Innertube,
        FetchState::AwaitCaptions { .. } => event is Captions,
        FetchState::AwaitTranscription => event is Transcribed,
        FetchState::Done => false,
    }
}

/// Does `event` answer the action that `state` waits on?
pub fn event_answers(state: &FetchState, event: &FetchEvent) -> (r: bool)
    ensures
        r == answers(*state, *event),
{
    match state {
        FetchState::AwaitInnertube { .. } => matches!(event, FetchEvent::Innertube(_)),
        FetchState::AwaitCaptions { .. } => matches!(event, FetchEvent::Captions(_)),
        FetchState::AwaitTranscription => matches!(event, FetchEvent::Transcribed(_)),
        FetchState::Done => false,
    }
}

/// The Whisper transcription endpoint under a server URL.
pub open spec fn whisper_endpoint(server: Seq<char>) -> Seq<char> {
    server + "/v1/audio/transcriptions"@
}

/// The file name under which audio is uploaded.
pub open spec fn upload_file_name(mime_type: Seq<char>) -> Seq<char> {
    if contains_seq(mime_type, "mp4"@) {
        "audio.mp4"@
    } else {
        "audio.webm"@
    }
}

/// The MIME type under which audio is uploaded: the part before any `;`.
pub open spec fn upload_mime(mime_type: Seq<char>) -> Seq<char> {
    match split_field(mime_type, ';', 0) {
        Some(f) => trimmed(f),
        None => "audio/mp4"@,
    }
}

/// The text of a transcript produced by Whisper.
pub open spec fn whisper_text(raw: Seq<char>) -> Seq<char> {
    "[AI-generated transcript \u{2014} no captions available]\n\n"@ + trimmed(raw)
}

/// Caption text with the fallback note, if any, in front.
pub open spec fn with_note(note: Option<Seq<char>>, text: Seq<char>) -> Seq<char> {
    match note {
        Some(n) => "["@ + n + "]\n\n"@ + text,
        None => text,
    }
}

/// Is `a` a `Finish` with exactly this error?
pub open spec fn finishes_with_error(a: FetchAction, e: TranscriptError) -> bool {
    a == FetchAction::Finish(Err(e))
}

/// Begin fetching the transcript of the video at `url` in the language named
/// by `language`; `whisper_url` is the Whisper server to fall back on when the
/// video has no captions.
pub fn start_fetch(url: &str, language: &str, whisper_url: Option<String>) -> (r: (
    FetchState,
    FetchAction,
))
    ensures
        match extracted(url@) {
            Err(e) => r.0 == FetchState::Done && finishes_with_error(r.1, e),
            Ok(id) => {
                &&& r.0 matches FetchState::AwaitInnertube { language: l, whisper_url: w }
                &&& language_of(language@, l)
                &&& w == whisper_url
                &&& r.1 matches FetchAction::PostInnertube { body }
                &&& body@ == innertube_body_text(id)
            },
        },
{
    match extract_video_id(url) {
        Err(e) => (FetchState::Done, FetchAction::Finish(Err(e))),
        Ok(id) => {
            let lang = Language::parse_code(language);
            let body = innertube_body(&id);
            (
                FetchState::AwaitInnertube { language: lang, whisper_url },
                FetchAction::PostInnertube { body },
            )
        },
    }
}

/// The upload name and MIME type for an audio stream.
pub fn upload_names(mime_type: &str) -> (r: (String, String))
    ensures
        r.0@ == upload_file_name(mime_type@),
        r.1@ == upload_mime(mime_type@),
{
    let file_name = if contains(mime_type, "mp4") {
        String::from_str("audio.mp4")
    } else {
        String::from_str("audio.webm")
    };
    let cs = crate::text::chars_of(mime_type);
    let i = find_semicolon(&cs);
    let head = crate::text::string_from_chars(&cs, 0, i);
    proof {
        assert(cs@.skip(0) =~= cs@);
        assert(cs@.take(i as int) =~= cs@.subrange(0, i as int));
    }
    (file_name, trim(head.as_str()))
}

/// Index of the first `;` in `cs`, or its length.
fn find_semicolon(cs: &Vec<char>) -> (r: usize)
    ensures
        r == crate::url::index_of(cs@, ';'),
        r <= cs@.len(),
{
    let mut i: usize = 0;
    proof {
        assert(cs@.skip(0) =~= cs@);
    }
    while i < cs.len() && cs[i] != ';'
        invariant
            i <= cs@.len(),
            crate::url::index_of(cs@, ';') == i + crate::url::index_of(cs@.skip(i as int), ';'),
        decreases cs@.len() - i,
    {
        proof {
            assert(cs@.skip(i as int).drop_first() =~= cs@.skip(i + 1));
        }
        i = i + 1;
    }
    proof {
        assert(cs@.skip(0) =~= cs@);
        if i < cs@.len() {
            assert(cs@.skip(i as int)[0] == cs@[i as int]);
        }
    }
    i
}

/// Decide the next step of a fetch from where it stands and the outcome of
/// the last action.
pub fn advance_fetch(state: FetchState, event: FetchEvent) -> (r: (FetchState, FetchAction))
    requires
        answers(state, event),
    ensures
        match (state, event) {
            (FetchState::AwaitInnertube { .. }, FetchEvent::Innertube(Err(e))) => r.0
                == FetchState::Done && finishes_with_error(r.1, e),
            (
                FetchState::AwaitInnertube { language, whisper_url },
                FetchEvent::Innertube(Ok(resp)),
            ) => {
                let tracks = tracks_of(resp);
                let streams = audio_streams_of(formats_of(resp));
                if unplayable(resp) {
                    &&& r.0 == FetchState::Done
                    &&& resp.playability_status matches Some(ps)
                    &&& r.1 matches FetchAction::Finish(Err(TranscriptError::Parse(m)))
                    &&& m@ == unplayable_message(ps)
                } else if tracks.len() == 0 {
                    if whisper_url is Some && streams.len() > 0 {
                        &&& r.0 == FetchState::AwaitTranscription
                        &&& r.1 matches FetchAction::Transcribe {
                            endpoint,
                            audio_url,
                            file_name,
                            mime,
                        }
                        &&& endpoint@ == whisper_endpoint(whisper_url->0@)
                        &&& exists|sorted: Seq<AudioStream>|
                            #![trigger is_stable_sort_of(sorted, streams)]
                            is_stable_sort_of(sorted, streams) && audio_url == sorted[0].url
                                && file_name@ == upload_file_name(sorted[0].mime_type@) && mime@
                                == upload_mime(sorted[0].mime_type@)
                    } else {
                        r.0 == FetchState::Done && finishes_with_error(
                            r.1,
                            TranscriptError::NoTranscriptAvailable,
                        )
                    }
                } else {
                    match pick(tracks, language) {
                        Some((i, n)) => {
                            &&& r.0 matches FetchState::AwaitCaptions { language_code, note }
                            &&& language_code == tracks[i].language_code
                            &&& opt_string_view(note) == n
                            &&& r.1 == FetchAction::FetchCaptions { url: tracks[i].base_url }
                        },
                        None => {
                            &&& r.0 == FetchState::Done
                            &&& language matches Language::Specific(requested)
                            &&& r.1 matches FetchAction::Finish(
                                Err(TranscriptError::LanguageNotAvailable { requested: req, available }),
                            )
                            &&& req@ == requested@
                            &&& views(available@) == track_codes(tracks)
                        },
                    }
                }
            },
            (FetchState::AwaitCaptions { .. }, FetchEvent::Captions(Err(e))) => r.0
                == FetchState::Done && finishes_with_error(r.1, e),
            (
                FetchState::AwaitCaptions { language_code, note },
                FetchEvent::Captions(Ok(xml)),
            ) => {
                &&& r.0 == FetchState::Done
                &&& match transcript_text(xml_events(xml@)) {
                    Ok(text) => r.1 matches FetchAction::Finish(Ok(res)) && res.text@ == with_note(
                        opt_string_view(note),
                        text,
                    ) && res.language == language_code,
                    Err(m) => r.1 matches FetchAction::Finish(Err(TranscriptError::Parse(pm)))
                        && pm@ == m,
                }
            },
            (FetchState::AwaitTranscription, FetchEvent::Transcribed(Err(e))) => r.0
                == FetchState::Done && finishes_with_error(r.1, e),
            (FetchState::AwaitTranscription, FetchEvent::Transcribed(Ok(raw))) => {
                &&& r.0 == FetchState::Done
                &&& r.1 matches FetchAction::Finish(Ok(res))
                &&& res.text@ == whisper_text(raw@)
                &&& res.language@ == "en"@
            },
            _ => false,
        },
{
    match (state, event) {
        (FetchState::AwaitInnertube { .. }, FetchEvent::Innertube(Err(e))) => {
            (FetchState::Done, FetchAction::Finish(Err(e)))
        },
        (FetchState::AwaitInnertube { language, whisper_url }, FetchEvent::Innertube(Ok(resp))) => {
            let ghost resp0 = resp;
            match innertube_data_from_response(resp) {
                Err(e) => (FetchState::Done, FetchAction::Finish(Err(e))),
                Ok(data) => {
                    if data.caption_tracks.len() == 0 {
                        if let Some(w) = whisper_url {
                            if data.audio_streams.len() > 0 {
                                let stream = &data.audio_streams[0];
                                let mut endpoint = w.clone();
                                push_str(&mut endpoint, "/v1/audio/transcriptions");
                                let (file_name, mime) = upload_names(stream.mime_type.as_str());
                                return (
                                    FetchState::AwaitTranscription,
                                    FetchAction::Transcribe {
                                        endpoint,
                                        audio_url: stream.url.clone(),
                                        file_name,
                                        mime,
                                    },
                                );
                            }
                        }
                        return (
                            FetchState::Done,
                            FetchAction::Finish(Err(TranscriptError::NoTranscriptAvailable)),
                        );
                    }
                    match select_track(data.caption_tracks.as_slice(), &language) {
                        Err(e) => (FetchState::Done, FetchAction::Finish(Err(e))),
                        Ok((t, note)) => (
                            FetchState::AwaitCaptions {
                                language_code: t.language_code.clone(),
                                note,
                            },
                            FetchAction::FetchCaptions { url: t.base_url.clone() },
                        ),
                    }
                },
            }
        },
        (FetchState::AwaitCaptions { .. }, FetchEvent::Captions(Err(e))) => {
            (FetchState::Done, FetchAction::Finish(Err(e)))
        },
        (FetchState::AwaitCaptions { language_code, note }, FetchEvent::Captions(Ok(xml))) => {
            match parse_transcript_xml(xml.as_str()) {
                Err(e) => (FetchState::Done, FetchAction::Finish(Err(e))),
                Ok(raw) => {
                    let text = match note {
                        Some(n) => {
                            let mut s = String::from_str("[");
                            push_str(&mut s, n.as_str());
                            push_str(&mut s, "]\n\n");
                            push_str(&mut s, raw.as_str());
                            s
                        },
                        None => raw,
                    };
                    (
                        FetchState::Done,
                        FetchAction::Finish(Ok(TranscriptResult { text, language: language_code })),
                    )
                },
            }
        },
        (FetchState::AwaitTranscription, FetchEvent::Transcribed(Err(e))) => {
            (FetchState::Done, FetchAction::Finish(Err(e)))
        },
        (FetchState::AwaitTranscription, FetchEvent::Transcribed(Ok(raw))) => {
            let mut text = String::from_str(
                "[AI-generated transcript \u{2014} no captions available]\n\n",
            );
            let body = trim(raw.as_str());
            push_str(&mut text, body.as_str());
            (
                FetchState::Done,
                FetchAction::Finish(
                    Ok(TranscriptResult { text, language: String::from_str("en") }),
                ),
            )
        },
        _ => (FetchState::Done, FetchAction::Finish(Err(TranscriptError::NoTranscriptAvailable))),
    }
}

} // verus!
