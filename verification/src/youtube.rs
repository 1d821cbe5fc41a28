//! The YouTube-facing vocabulary: request constants, caption tracks and the
//! choice of a track for a requested language.
use vstd::prelude::*;

use crate::error::{views, TranscriptError};
use crate::format::json_string;
use crate::language::{auto_detect_code, auto_detect_codes, Language};
use crate::text::{push_str, str_eq};
use crate::url::VideoId;

verus! {

broadcast use vstd::string::group_string_axioms;

/// The Innertube player endpoint.
pub const INNERTUBE_URL: &'static str = "https://www.youtube.com/youtubei/v1/player";

/// The `User-Agent` sent with every YouTube request.
pub const USER_AGENT: &'static str = "com.google.android.youtube/20.10.38 (Linux; U; Android 11) gzip";

/// Returns the `User-Agent` string used for all YouTube requests.
pub fn user_agent() -> (r: &'static str)
    ensures
        r@ == USER_AGENT@,
{
    USER_AGENT
}

/// The JSON text that precedes the quoted video ID in an Innertube request.
pub open spec fn innertube_body_prefix() -> Seq<char> {
    "{\"context\":{\"client\":{\"androidSdkVersion\":30,\"clientName\":\"ANDROID\",\"clientVersion\":\"20.10.38\",\"gl\":\"US\",\"hl\":\"en\"}},\"videoId\":"@
}

/// The compact JSON body of an Innertube player request for `id`.
pub open spec fn innertube_body_text(id: Seq<char>) -> Seq<char> {
    innertube_body_prefix() + json_string(id) + "}"@
}

/// Builds the JSON body for a POST to [`INNERTUBE_URL`].
pub fn innertube_body(video_id: &VideoId) -> (r: String)
    ensures
        r@ == innertube_body_text(video_id@),
{
    let mut out = String::from_str(
        "{\"context\":{\"client\":{\"androidSdkVersion\":30,\"clientName\":\"ANDROID\",\"clientVersion\":\"20.10.38\",\"gl\":\"US\",\"hl\":\"en\"}},\"videoId\":",
    );
    crate::format::push_json_string(&mut out, video_id.as_str());
    push_str(&mut out, "}");
    out
}

/// A single caption track available for a video.
#[derive(Debug, Clone)]
pub struct CaptionTrack {
    pub base_url: String,
    pub language_code: String,
}

/// The output of a successful transcript fetch.
#[derive(Debug, Clone)]
pub struct TranscriptResult {
    /// Transcript text (with the fallback note prepended if the language fell back).
    pub text: String,
    /// The language code that was actually used.
    pub language: String,
}

/// The best available audio-only stream for a video.
#[derive(Debug, Clone)]
pub struct AudioStream {
    /// Direct URL to the audio stream.
    pub url: String,
    /// MIME type, e.g. `audio/mp4; codecs="mp4a.40.2"`.
    pub mime_type: String,
    /// Average bitrate in bits per second.
    pub bitrate: u64,
}

/// What the Innertube player response offers.
#[derive(Debug, Clone)]
pub struct InnertubeData {
    /// Available caption tracks (empty if none).
    pub caption_tracks: Vec<CaptionTrack>,
    /// Audio-only streams, mp4 first, then by bitrate descending.
    pub audio_streams: Vec<AudioStream>,
}

/// Index of the first track at or after `i` whose language is `code`.
pub open spec fn first_track_from(tracks: Seq<CaptionTrack>, code: Seq<char>, i: int) -> Option<
    int,
>
    decreases tracks.len() - i,
{
    if i < 0 || i >= tracks.len() {
        None
    } else if tracks[i].language_code@ == code {
        Some(i)
    } else {
        first_track_from(tracks, code, i + 1)
    }
}

/// Index of the first track whose language is `code`.
pub open spec fn first_track(tracks: Seq<CaptionTrack>, code: Seq<char>) -> Option<int> {
    first_track_from(tracks, code, 0)
}

/// The track chosen in `Auto` mode, trying the codes from the `k`-th on.
pub open spec fn auto_pick_from(tracks: Seq<CaptionTrack>, k: nat) -> int
    decreases 12 - k,
{
    if k >= 12 {
        0
    } else {
        match first_track(tracks, auto_detect_codes()[k as int]) {
            Some(i) => i,
            None => auto_pick_from(tracks, k + 1),
        }
    }
}

/// The note shown when English stands in for the requested language.
pub open spec fn fallback_note(requested: Seq<char>) -> Seq<char> {
    "Requested language '"@ + requested + "' not available, showing English instead"@
}

/// The track index and note chosen for a non-empty track list, or `None`
/// when neither the requested language nor English is available.
pub open spec fn pick(tracks: Seq<CaptionTrack>, language: Language) -> Option<
    (int, Option<Seq<char>>),
> {
    match language {
        Language::Auto => Some((auto_pick_from(tracks, 0), None)),
        Language::Specific(requested) => match first_track(tracks, requested@) {
            Some(i) => Some((i, None)),
            None => if requested@ != "en"@ {
                match first_track(tracks, "en"@) {
                    Some(j) => Some((j, Some(fallback_note(requested@)))),
                    None => None,
                }
            } else {
                None
            },
        },
    }
}

/// The language codes of the tracks, in order.
pub open spec fn track_codes(tracks: Seq<CaptionTrack>) -> Seq<Seq<char>> {
    tracks.map_values(|t: CaptionTrack| t.language_code@)
}

/// The view of an optional string.
pub open spec fn opt_string_view(o: Option<String>) -> Option<Seq<char>> {
    match o {
        Some(s) => Some(s@),
        None => None,
    }
}

/// Index of the first track whose language is `code`.
fn find_track(tracks: &[CaptionTrack], code: &str) -> (r: Option<usize>)
    ensures
        match r {
            Some(i) => first_track(tracks@, code@) == Some(i as int),
            None => first_track(tracks@, code@) is None,
        },
{
    let mut i: usize = 0;
    while i < tracks.len()
        invariant
            i <= tracks@.len(),
            first_track(tracks@, code@) == first_track_from(tracks@, code@, i as int),
        decreases tracks@.len() - i,
    {
        if str_eq(tracks[i].language_code.as_str(), code) {
            return Some(i);
        }
        i = i + 1;
    }
    None
}

/// Select the best caption track for the requested language.
///
/// Returns `(track, fallback_note)` where `fallback_note` is `Some(message)`
/// when the requested language was replaced by English. Fails with
/// `NoTranscriptAvailable` when `tracks` is empty, and with
/// `LanguageNotAvailable` (listing every available code) when neither the
/// requested language nor English is present.
pub fn select_track<'a>(tracks: &'a [CaptionTrack], language: &Language) -> (r: Result<
    (&'a CaptionTrack, Option<String>),
    TranscriptError,
>)
    ensures
        match r {
            Ok((t, note)) => {
                &&& tracks@.len() > 0
                &&& pick(tracks@, *language) matches Some((i, n))
                &&& 0 <= i < tracks@.len()
                &&& *t == tracks@[i]
                &&& opt_string_view(note) == n
            },
            Err(e) => if tracks@.len() == 0 {
                e == TranscriptError::NoTranscriptAvailable
            } else {
                &&& pick(tracks@, *language) is None
                &&& language matches Language::Specific(requested)
                &&& e matches TranscriptError::LanguageNotAvailable { requested: req, available }
                &&& req@ == requested@
                &&& views(available@) == track_codes(tracks@)
            },
        },
{
    if tracks.len() == 0 {
        return Err(TranscriptError::NoTranscriptAvailable);
    }
    match language {
        Language::Auto => {
            let mut k: usize = 0;
            while k < 12
                invariant
                    k <= 12,
                    tracks@.len() > 0,
                    *language == Language::Auto,
                    auto_pick_from(tracks@, 0) == auto_pick_from(tracks@, k as nat),
                decreases 12 - k,
            {
                let code = auto_detect_code(k);
                if let Some(i) = find_track(tracks, code) {
                    proof {
                        lemma_first_track_in_range(tracks@, auto_detect_codes()[k as int], 0);
                        assert(first_track(tracks@, auto_detect_codes()[k as int]) == Some(
                            i as int,
                        ));
                        assert(auto_pick_from(tracks@, k as nat) == i as int);
                    }
                    return Ok((&tracks[i], None));
                }
                k = k + 1;
            }
            Ok((&tracks[0], None))
        },
        Language::Specific(requested) => {
            if let Some(i) = find_track(tracks, requested.as_str()) {
                proof {
                    lemma_first_track_in_range(tracks@, requested@, 0);
                }
                return Ok((&tracks[i], None));
            }
            if !str_eq(requested.as_str(), "en") {
                if let Some(j) = find_track(tracks, "en") {
                    proof {
                        lemma_first_track_in_range(tracks@, "en"@, 0);
                    }
                    let mut note = String::from_str("Requested language '");
                    push_str(&mut note, requested.as_str());
                    push_str(&mut note, "' not available, showing English instead");
                    return Ok((&tracks[j], Some(note)));
                }
            }
            let mut available: Vec<String> = Vec::new();
            let mut i: usize = 0;
            while i < tracks.len()
                invariant
                    i <= tracks@.len(),
                    available@.len() == i,
                    forall|k: int|
                        0 <= k < i ==> (#[trigger] available@[k])@ == tracks@[k].language_code@,
                decreases tracks@.len() - i,
            {
                available.push(tracks[i].language_code.clone());
                i = i + 1;
            }
            proof {
                assert(views(available@) =~= track_codes(tracks@));
            }
            Err(TranscriptError::LanguageNotAvailable { requested: requested.clone(), available })
        },
    }
}

/// A track found by [`first_track_from`] is in range and has the code.
pub proof fn lemma_first_track_in_range(tracks: Seq<CaptionTrack>, code: Seq<char>, i: int)
    ensures
        first_track_from(tracks, code, i) matches Some(j) ==> i <= j < tracks.len()
            && tracks[j].language_code@ == code,
    decreases tracks.len() - i,
{
    if 0 <= i < tracks.len() && tracks[i].language_code@ != code {
        lemma_first_track_in_range(tracks, code, i + 1);
    }
}

/// `auto_pick_from` lands on a track whenever there is one.
proof fn lemma_auto_pick_in_range(tracks: Seq<CaptionTrack>, k: nat)
    requires
        tracks.len() > 0,
    ensures
        0 <= auto_pick_from(tracks, k) < tracks.len(),
    decreases 12 - k,
{
    if k < 12 {
        lemma_first_track_in_range(tracks, auto_detect_codes()[k as int], 0);
        if first_track(tracks, auto_detect_codes()[k as int]) is None {
            lemma_auto_pick_in_range(tracks, k + 1);
        }
    }
}

/// `Auto` never fails on a non-empty track list, never adds a note, and picks
/// one of the tracks.
pub proof fn law_auto_always_picks_a_track(tracks: Seq<CaptionTrack>)
    requires
        tracks.len() > 0,
    ensures
        pick(tracks, Language::Auto) matches Some((i, n)) && n is None && 0 <= i < tracks.len(),
{
    lemma_auto_pick_in_range(tracks, 0);
}

/// `Auto` prefers English: when an English track exists, the first one is chosen.
pub proof fn law_auto_prefers_english(tracks: Seq<CaptionTrack>)
    requires
        first_track(tracks, "en"@) is Some,
    ensures
        pick(tracks, Language::Auto) == Some::<(int, Option<Seq<char>>)>(
            (first_track(tracks, "en"@)->0, None),
        ),
{
    assert(auto_detect_codes()[0] == "en"@);
}

/// A track in exactly the requested language is always preferred, without a note.
pub proof fn law_exact_language_preferred(tracks: Seq<CaptionTrack>, requested: String)
    requires
        first_track(tracks, requested@) is Some,
    ensures
        pick(tracks, Language::Specific(requested)) == Some::<(int, Option<Seq<char>>)>(
            (first_track(tracks, requested@)->0, None),
        ),
{
}

/// A fallback happens only to English, and its note names the requested language.
pub proof fn law_fallback_is_english_and_named(tracks: Seq<CaptionTrack>, language: Language)
    ensures
        pick(tracks, language) matches Some((i, Some(n))) ==> {
            &&& language matches Language::Specific(requested)
            &&& first_track(tracks, requested@) is None
            &&& 0 <= i < tracks.len()
            &&& tracks[i].language_code@ == "en"@
            &&& crate::text::contains_seq(n, requested@)
        },
{
    if let Some((i, Some(n))) = pick(tracks, language) {
        if let Language::Specific(requested) = language {
            lemma_first_track_in_range(tracks, "en"@, 0);
            let pre = "Requested language '"@;
            assert(crate::text::occurs_at(n, requested@, pre.len() as int)) by {
                assert(n.subrange(pre.len() as int, (pre.len() + requested@.len()) as int) =~= requested@);
            }
        }
    }
}

/// The choice fails exactly when a specific language is requested, no track
/// has it, and English cannot stand in for it.
pub proof fn law_choice_fails_exactly_when(tracks: Seq<CaptionTrack>, language: Language)
    requires
        tracks.len() > 0,
    ensures
        pick(tracks, language) is None <==> (language matches Language::Specific(requested) && first_track(
            tracks,
            requested@,
        ) is None && (requested@ == "en"@ || first_track(tracks, "en"@) is None)),
{
}

/// The Innertube request names the video verbatim: a valid ID needs no escaping.
pub proof fn law_innertube_body_names_video(id: Seq<char>)
    requires
        crate::url::is_valid_video_id(id),
    ensures
        innertube_body_text(id) == innertube_body_prefix() + "\""@ + id + "\""@ + "}"@,
{
    assert forall|i: int| 0 <= i < id.len() implies (#[trigger] id[i]) != '"' && id[i] != '\\'
        && (id[i] as nat) >= 0x20 by {
        assert(crate::url::is_id_char(id[i]));
    }
    crate::format::law_plain_text_needs_no_escaping(id);
}

proof fn lemma_auto_pick_first_when_none_listed(tracks: Seq<CaptionTrack>, k: nat)
    requires
        forall|j: int| k <= j < 12 ==> first_track(tracks, #[trigger] auto_detect_codes()[j]) is None,
    ensures
        auto_pick_from(tracks, k) == 0,
    decreases 12 - k,
{
    if k < 12 {
        assert(first_track(tracks, auto_detect_codes()[k as int]) is None);
        lemma_auto_pick_first_when_none_listed(tracks, k + 1);
    }
}

/// `Auto` falls back to the first track when none of the preferred languages is available.
pub proof fn law_auto_falls_back_to_first_track(tracks: Seq<CaptionTrack>)
    requires
        forall|j: int| 0 <= j < 12 ==> first_track(tracks, #[trigger] auto_detect_codes()[j]) is None,
    ensures
        pick(tracks, Language::Auto) == Some::<(int, Option<Seq<char>>)>((0, None)),
{
    lemma_auto_pick_first_when_none_listed(tracks, 0);
}

/// `first_track_from` finds the earliest track from `i` on with the code, and
/// finds none exactly when no such track exists.
proof fn lemma_first_track_exact(tracks: Seq<CaptionTrack>, code: Seq<char>, i: int)
    requires
        0 <= i,
    ensures
        match first_track_from(tracks, code, i) {
            Some(x) => i <= x < tracks.len() && tracks[x].language_code@ == code && forall|k: int|
                i <= k < x ==> (#[trigger] tracks[k]).language_code@ != code,
            None => forall|k: int| i <= k < tracks.len() ==> (#[trigger] tracks[k]).language_code@ != code,
        },
    decreases tracks.len() - i,
{
    if i < tracks.len() && tracks[i].language_code@ != code {
        lemma_first_track_exact(tracks, code, i + 1);
    }
}

/// Codes that no track has are skipped over by `Auto`.
proof fn lemma_auto_skips_absent(tracks: Seq<CaptionTrack>, k: nat, j: nat)
    requires
        k <= j <= 12,
        forall|m: int| k <= m < j ==> first_track(tracks, #[trigger] auto_detect_codes()[m]) is None,
    ensures
        auto_pick_from(tracks, k) == auto_pick_from(tracks, j),
    decreases j - k,
{
    if k < j {
        assert(first_track(tracks, auto_detect_codes()[k as int]) is None);
        lemma_auto_skips_absent(tracks, k + 1, j);
    }
}

/// `Auto` tries en, es, fr, de, tr, pt, ja, ko, zh, it, ru, ar in that order:
/// when the `j`-th of them is the first one some track has, `Auto` picks the
/// earliest track in that language, without a note.
pub proof fn law_auto_takes_the_earliest_listed_language(
    tracks: Seq<CaptionTrack>,
    order: Seq<Seq<char>>,
    j: int,
)
    requires
        order == seq![
            "en"@,
            "es"@,
            "fr"@,
            "de"@,
            "tr"@,
            "pt"@,
            "ja"@,
            "ko"@,
            "zh"@,
            "it"@,
            "ru"@,
            "ar"@,
        ],
        0 <= j < 12,
        exists|i: int| 0 <= i < tracks.len() && (#[trigger] tracks[i]).language_code@ == order[j],
        forall|i: int, k: int|
            0 <= i < tracks.len() && 0 <= k < j ==> (#[trigger] tracks[i]).language_code@
                != #[trigger] order[k],
    ensures
        pick(tracks, Language::Auto) matches Some((i, n)) && n is None && 0 <= i < tracks.len()
            && tracks[i].language_code@ == order[j] && forall|k: int|
            0 <= k < i ==> (#[trigger] tracks[k]).language_code@ != order[j],
{
    assert(order =~= auto_detect_codes());
    assert forall|m: int| 0 <= m < j implies first_track(
        tracks,
        #[trigger] auto_detect_codes()[m],
    ) is None by {
        lemma_first_track_exact(tracks, order[m], 0);
        if let Some(x) = first_track(tracks, order[m]) {
            assert(tracks[x].language_code@ != order[m]);
        }
    }
    lemma_auto_skips_absent(tracks, 0, j as nat);
    lemma_first_track_exact(tracks, order[j], 0);
    let w = choose|i: int| 0 <= i < tracks.len() && (#[trigger] tracks[i]).language_code@ == order[j];
    assert(first_track(tracks, order[j]) is Some);
}

} // verus!
