//! Interpreting the Innertube `/youtubei/v1/player` response.
//!
//! The JSON document is decoded into the plain [`InnertubeResponse`] below;
//! this module decides what it means: whether the video is playable, which
//! caption tracks it offers, and which audio-only streams are worth using,
//! best first.
use vstd::prelude::*;

use crate::error::TranscriptError;
use crate::text::{contains, contains_seq, push_str, starts_with, str_eq};
use crate::youtube::{AudioStream, CaptionTrack, InnertubeData};

verus! {

broadcast use vstd::string::group_string_axioms;

/// `playabilityStatus` of the response.
#[derive(Debug, Clone)]
pub struct PlayabilityStatus {
    pub status: String,
    pub reason: Option<String>,
}

/// `playerCaptionsTracklistRenderer` of the response.
#[derive(Debug, Clone)]
pub struct TracklistRenderer {
    pub caption_tracks: Option<Vec<CaptionTrack>>,
}

/// `captions` of the response.
#[derive(Debug, Clone)]
pub struct CaptionsContainer {
    pub renderer: Option<TracklistRenderer>,
}

/// One entry of `streamingData.adaptiveFormats`.
#[derive(Debug, Clone)]
pub struct AdaptiveFormat {
    pub mime_type: Option<String>,
    pub url: Option<String>,
    pub average_bitrate: Option<u64>,
}

/// `streamingData` of the response.
#[derive(Debug, Clone)]
pub struct StreamingData {
    pub adaptive_formats: Option<Vec<AdaptiveFormat>>,
}

/// The fields of an Innertube player response that matter here.
#[derive(Debug, Clone)]
pub struct InnertubeResponse {
    pub playability_status: Option<PlayabilityStatus>,
    pub captions: Option<CaptionsContainer>,
    pub streaming_data: Option<StreamingData>,
}

/// Does the MIME type name an mp4 container?
pub open spec fn is_mp4(s: AudioStream) -> bool {
    contains_seq(s.mime_type@, "mp4"@)
}

/// The sort key of a stream: mp4 above everything else, then higher bitrate.
pub open spec fn rank(s: AudioStream) -> int {
    (if is_mp4(s) {
        0x1_0000_0000_0000_0000int
    } else {
        0int
    }) + s.bitrate as int
}

/// Is `s` ordered best first?
pub open spec fn best_first(s: Seq<AudioStream>) -> bool {
    forall|i: int, j: int| 0 <= i < j < s.len() ==> rank(s[j]) <= rank(s[i])
}

/// `p` maps positions of `out` to positions of `input`: a bijection under
/// which `out` is `input` rearranged, and streams of equal rank keep their
/// original relative order.
pub open spec fn stable_witness(p: Seq<int>, out: Seq<AudioStream>, input: Seq<AudioStream>) -> bool {
    &&& p.len() == out.len() == input.len()
    &&& forall|k: int| 0 <= k < p.len() ==> 0 <= #[trigger] p[k] < input.len()
    &&& forall|k: int, l: int| 0 <= k < l < p.len() ==> p[k] != p[l]
    &&& forall|k: int| 0 <= k < p.len() ==> out[k] == input[#[trigger] p[k]]
    &&& forall|k: int, l: int|
        0 <= k < l < p.len() && rank(out[k]) == rank(out[l]) ==> p[k] < p[l]
}

/// `out` is the stable best-first sort of `input`.
pub open spec fn is_stable_sort_of(out: Seq<AudioStream>, input: Seq<AudioStream>) -> bool {
    &&& best_first(out)
    &&& exists|p: Seq<int>| #[trigger] stable_witness(p, out, input)
}

/// The audio stream an adaptive format describes, if it is an audio format
/// with both a MIME type and a URL.
pub open spec fn audio_of(f: AdaptiveFormat) -> Option<AudioStream> {
    match (f.mime_type, f.url) {
        (Some(m), Some(u)) => if "audio/"@.is_prefix_of(m@) {
            Some(
                AudioStream {
                    url: u,
                    bitrate: match f.average_bitrate {
                        Some(b) => b,
                        None => 0,
                    },
                    mime_type: m,
                },
            )
        } else {
            None
        },
        _ => None,
    }
}

/// The audio streams among the formats, in their original order.
pub open spec fn audio_streams_of(formats: Seq<AdaptiveFormat>) -> Seq<AudioStream>
    decreases formats.len(),
{
    if formats.len() == 0 {
        Seq::empty()
    } else {
        let rest = audio_streams_of(formats.drop_last());
        match audio_of(formats.last()) {
            Some(a) => rest.push(a),
            None => rest,
        }
    }
}

/// The caption tracks the response lists (none when any level is missing).
pub open spec fn tracks_of(r: InnertubeResponse) -> Seq<CaptionTrack> {
    match r.captions {
        Some(c) => match c.renderer {
            Some(rd) => match rd.caption_tracks {
                Some(t) => t@,
                None => Seq::empty(),
            },
            None => Seq::empty(),
        },
        None => Seq::empty(),
    }
}

/// The adaptive formats the response lists (none when missing).
pub open spec fn formats_of(r: InnertubeResponse) -> Seq<AdaptiveFormat> {
    match r.streaming_data {
        Some(sd) => match sd.adaptive_formats {
            Some(f) => f@,
            None => Seq::empty(),
        },
        None => Seq::empty(),
    }
}

/// Is the video reported as not playable?
pub open spec fn unplayable(r: InnertubeResponse) -> bool {
    r.playability_status matches Some(ps) && ps.status@ != "OK"@
}

/// The message of the error for an unplayable video.
pub open spec fn unplayable_message(ps: PlayabilityStatus) -> Seq<char> {
    "Video not playable: "@ + ps.status@ + " \u{2014} "@ + match ps.reason {
        Some(r) => r@,
        None => "unknown"@,
    }
}

/// Executable form of [`rank`] comparison: should `a` come strictly before `b`?
fn ranks_above(a: &AudioStream, b: &AudioStream) -> (r: bool)
    ensures
        r == (rank(*a) > rank(*b)),
{
    let a_mp4 = contains(a.mime_type.as_str(), "mp4");
    let b_mp4 = contains(b.mime_type.as_str(), "mp4");
    (a_mp4 && !b_mp4) || (a_mp4 == b_mp4 && a.bitrate > b.bitrate)
}

/// Sort `input` best first, keeping streams of equal rank in their order.
pub fn sort_best_first(input: Vec<AudioStream>) -> (out: Vec<AudioStream>)
    ensures
        is_stable_sort_of(out@, input@),
{
    let ghost orig = input@;
    let mut rest = input;
    let mut out: Vec<AudioStream> = Vec::new();
    let ghost mut p: Seq<int> = Seq::empty();
    let ghost mut i: int = 0;
    while rest.len() > 0
        invariant
            0 <= i <= orig.len(),
            rest@ == orig.skip(i),
            out@.len() == i,
            p.len() == i,
            best_first(out@),
            forall|k: int| 0 <= k < p.len() ==> 0 <= #[trigger] p[k] < i,
            forall|k: int, l: int| 0 <= k < l < p.len() ==> p[k] != p[l],
            forall|k: int| 0 <= k < p.len() ==> out@[k] == orig[#[trigger] p[k]],
            forall|k: int, l: int|
                0 <= k < l < p.len() && rank(out@[k]) == rank(out@[l]) ==> p[k] < p[l],
        decreases rest@.len(),
    {
        let x = rest.remove(0);
        proof {
            assert(x == orig[i]);
            assert(rest@ =~= orig.skip(i + 1));
        }
        let mut pos: usize = 0;
        while pos < out.len() && !ranks_above(&x, &out[pos])
            invariant
                pos <= out@.len(),
                forall|k: int| 0 <= k < pos ==> rank(#[trigger] out@[k]) >= rank(x),
            decreases out@.len() - pos,
        {
            pos = pos + 1;
        }
        proof {
            if pos < out@.len() {
                assert(rank(x) > rank(out@[pos as int]));
                assert forall|k: int| pos <= k < out@.len() implies rank(#[trigger] out@[k]) < rank(
                    x,
                ) by {
                    if k > pos {
                        assert(rank(out@[k]) <= rank(out@[pos as int]));
                    }
                }
            }
        }
        let ghost old_out = out@;
        let ghost old_p = p;
        out.insert(pos, x);
        proof {
            p = old_p.insert(pos as int, i);
            assert(out@ == old_out.insert(pos as int, x));
            assert forall|k: int| 0 <= k < out@.len() implies out@[k] == (if k < pos {
                old_out[k]
            } else if k == pos {
                x
            } else {
                old_out[k - 1]
            }) by {}
            assert forall|k: int| 0 <= k < p.len() implies p[k] == (if k < pos {
                old_p[k]
            } else if k == pos {
                i
            } else {
                old_p[k - 1]
            }) by {}
            assert forall|a: int, b: int| 0 <= a < b < out@.len() implies rank(out@[b]) <= rank(
                out@[a],
            ) by {
                if a < pos && b < pos {
                } else if a < pos && b == pos {
                } else if a < pos {
                    assert(rank(old_out[b - 1]) <= rank(old_out[a]));
                } else if a == pos {
                } else {
                    assert(rank(old_out[b - 1]) <= rank(old_out[a - 1]));
                }
            }
            assert forall|k: int| 0 <= k < p.len() implies 0 <= #[trigger] p[k] < i + 1 by {
                if k < pos {
                    assert(old_p[k] < i);
                } else if k > pos {
                    assert(old_p[k - 1] < i);
                }
            }
            assert forall|a: int, b: int| 0 <= a < b < p.len() implies p[a] != p[b] by {
                if a < pos && b < pos {
                } else if a < pos && b == pos {
                    assert(old_p[a] < i);
                } else if a < pos {
                    assert(old_p[a] != old_p[b - 1]);
                } else if a == pos {
                    assert(old_p[b - 1] < i);
                } else {
                    assert(old_p[a - 1] != old_p[b - 1]);
                }
            }
            assert forall|k: int| 0 <= k < p.len() implies out@[k] == orig[#[trigger] p[k]] by {
                if k < pos {
                    assert(old_out[k] == orig[old_p[k]]);
                } else if k > pos {
                    assert(old_out[k - 1] == orig[old_p[k - 1]]);
                }
            }
            assert forall|a: int, b: int|
                0 <= a < b < p.len() && rank(out@[a]) == rank(out@[b]) implies p[a] < p[b] by {
                if a < pos && b < pos {
                } else if a < pos && b == pos {
                    assert(old_p[a] < i);
                } else if a < pos {
                    assert(rank(old_out[a]) == rank(old_out[b - 1]));
                } else if a == pos {
                    assert(rank(old_out[b - 1]) < rank(x));
                } else {
                    assert(rank(old_out[a - 1]) == rank(old_out[b - 1]));
                }
            }
            i = i + 1;
        }
    }
    proof {
        assert(stable_witness(p, out@, orig));
    }
    out
}

/// Collect the audio streams among `formats`, in order.
fn collect_audio_streams(formats: &Vec<AdaptiveFormat>) -> (r: Vec<AudioStream>)
    ensures
        r@ == audio_streams_of(formats@),
{
    let mut out: Vec<AudioStream> = Vec::new();
    let mut i: usize = 0;
    while i < formats.len()
        invariant
            i <= formats@.len(),
            out@ == audio_streams_of(formats@.take(i as int)),
        decreases formats@.len() - i,
    {
        proof {
            assert(formats@.take(i + 1).drop_last() =~= formats@.take(i as int));
            assert(formats@.take(i + 1).last() == formats@[i as int]);
        }
        let f = &formats[i];
        match (&f.mime_type, &f.url) {
            (Some(m), Some(u)) => {
                if starts_with(m.as_str(), "audio/") {
                    let bitrate = match f.average_bitrate {
                        Some(b) => b,
                        None => 0,
                    };
                    let a = AudioStream { url: u.clone(), bitrate, mime_type: m.clone() };
                    proof {
                        assert(audio_of(formats@[i as int]) == Some(a));
                    }
                    out.push(a);
                }
            },
            _ => {},
        }
        i = i + 1;
    }
    proof {
        assert(formats@.take(formats@.len() as int) =~= formats@);
    }
    out
}

/// Interpret a decoded Innertube player response.
///
/// Fails with a `Parse` error naming the status and reason when the video is
/// reported as not playable. Otherwise returns the caption tracks (empty if
/// none) and the audio-only streams, mp4 first and then by bitrate
/// descending, streams of equal rank keeping their order.
pub fn innertube_data_from_response(resp: InnertubeResponse) -> (r: Result<
    InnertubeData,
    TranscriptError,
>)
    ensures
        match r {
            Ok(d) => {
                &&& !unplayable(resp)
                &&& d.caption_tracks@ == tracks_of(resp)
                &&& is_stable_sort_of(d.audio_streams@, audio_streams_of(formats_of(resp)))
            },
            Err(e) => {
                &&& unplayable(resp)
                &&& resp.playability_status matches Some(ps)
                &&& e matches TranscriptError::Parse(m)
                &&& m@ == unplayable_message(ps)
            },
        },
{
    if let Some(ps) = &resp.playability_status {
        if !str_eq(ps.status.as_str(), "OK") {
            let mut m = String::from_str("Video not playable: ");
            push_str(&mut m, ps.status.as_str());
            push_str(&mut m, " \u{2014} ");
            match &ps.reason {
                Some(reason) => push_str(&mut m, reason.as_str()),
                None => push_str(&mut m, "unknown"),
            }
            return Err(TranscriptError::Parse(m));
        }
    }
    let caption_tracks: Vec<CaptionTrack> = match resp.captions {
        Some(c) => match c.renderer {
            Some(rd) => match rd.caption_tracks {
                Some(t) => t,
                None => Vec::new(),
            },
            None => Vec::new(),
        },
        None => Vec::new(),
    };
    let formats: Vec<AdaptiveFormat> = match resp.streaming_data {
        Some(sd) => match sd.adaptive_formats {
            Some(f) => f,
            None => Vec::new(),
        },
        None => Vec::new(),
    };
    let streams = collect_audio_streams(&formats);
    let audio_streams = sort_best_first(streams);
    Ok(InnertubeData { caption_tracks, audio_streams })
}

/// Every stream the formats yield is an audio stream.
proof fn lemma_streams_are_audio(formats: Seq<AdaptiveFormat>)
    ensures
        forall|k: int|
            0 <= k < audio_streams_of(formats).len() ==> "audio/"@.is_prefix_of(
                (#[trigger] audio_streams_of(formats)[k]).mime_type@,
            ),
    decreases formats.len(),
{
    if formats.len() > 0 {
        lemma_streams_are_audio(formats.drop_last());
        let rest = audio_streams_of(formats.drop_last());
        let all = audio_streams_of(formats);
        match audio_of(formats.last()) {
            Some(a) => {
                assert(all == rest.push(a));
                assert forall|k: int| 0 <= k < all.len() implies "audio/"@.is_prefix_of(
                    (#[trigger] all[k]).mime_type@,
                ) by {
                    if k < rest.len() {
                        assert(all[k] == rest[k]);
                    }
                }
            },
            None => {},
        }
    }
}

/// Only audio streams are offered, whatever order they end up in.
pub proof fn law_only_audio_streams(out: Seq<AudioStream>, formats: Seq<AdaptiveFormat>)
    requires
        is_stable_sort_of(out, audio_streams_of(formats)),
    ensures
        forall|k: int| 0 <= k < out.len() ==> "audio/"@.is_prefix_of((#[trigger] out[k]).mime_type@),
{
    lemma_streams_are_audio(formats);
    let p = choose|p: Seq<int>| #[trigger] stable_witness(p, out, audio_streams_of(formats));
    assert forall|k: int| 0 <= k < out.len() implies "audio/"@.is_prefix_of(
        (#[trigger] out[k]).mime_type@,
    ) by {
        assert(out[k] == audio_streams_of(formats)[p[k]]);
    }
}

/// The first stream offered is an mp4 stream whenever there is one.
pub proof fn law_mp4_comes_first(out: Seq<AudioStream>, input: Seq<AudioStream>, k: int)
    requires
        is_stable_sort_of(out, input),
        0 <= k < out.len(),
        is_mp4(out[k]),
    ensures
        is_mp4(out[0]),
{
    assert(rank(out[k]) <= rank(out[0]));
}

/// A playable response keeps every caption track it lists, in order: for a
/// response whose status is `OK` (or absent) and whose renderer lists `listed`,
/// the caption tracks offered are exactly `listed`.
pub proof fn law_every_listed_track_is_offered(resp: InnertubeResponse, listed: Vec<CaptionTrack>)
    requires
        resp.playability_status matches Some(ps) ==> ps.status@ == "OK"@,
        resp.captions matches Some(c) && c.renderer matches Some(rd) && rd.caption_tracks == Some(
            listed,
        ),
    ensures
        !unplayable(resp),
        tracks_of(resp).len() == listed@.len(),
        forall|k: int| 0 <= k < listed@.len() ==> tracks_of(resp)[k] == #[trigger] listed@[k],
{
}

/// A response without a caption list offers no caption tracks.
pub proof fn law_no_listed_tracks_means_none(resp: InnertubeResponse)
    requires
        !(resp.captions matches Some(c) && c.renderer matches Some(rd) && rd.caption_tracks is Some),
    ensures
        tracks_of(resp).len() == 0,
{
}

} // verus!
