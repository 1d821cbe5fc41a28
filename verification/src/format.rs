//! Render transcripts in different output formats.
//!
//! The JSON and Markdown renderers embed a deep link of the form
//! `https://www.youtube.com/watch?v=<id>&t=<secs>s` for every cue, so a reader
//! can click a timestamp and jump to that moment in the video. SRT and VTT
//! emit standard subtitle files instead.
//!
//! Cue times are held in whole milliseconds.
use vstd::prelude::*;

use crate::error::joined;
use crate::numfmt::{dec, padded, push_decimal, push_padded};
use crate::text::{push_char, push_str, std_lowercase, to_lowercase, trim, trimmed};
use crate::url::VideoId;

verus! {

broadcast use vstd::string::group_string_axioms;

/// Selects how [`format_transcript`] renders a transcript.
#[derive(Debug, Clone, Copy, PartialEq, Eq, Default)]
pub enum OutputFormat {
    /// Plain text: every cue joined by a single space (the default).
    #[default]
    Text,
    /// A JSON document `{ language, note, segments: [{ dur, start, text, url }], video_id }`.
    Json,
    /// SubRip (`.srt`) subtitles.
    Srt,
    /// WebVTT (`.vtt`) subtitles.
    Vtt,
    /// A Markdown list with a clickable timestamp link per cue.
    Markdown,
}

/// The format that a trimmed, lowercased name selects.
pub open spec fn format_for_name(name: Seq<char>) -> OutputFormat {
    if name == "json"@ {
        OutputFormat::Json
    } else if name == "srt"@ {
        OutputFormat::Srt
    } else if name == "vtt"@ || name == "webvtt"@ {
        OutputFormat::Vtt
    } else if name == "md"@ || name == "markdown"@ {
        OutputFormat::Markdown
    } else {
        OutputFormat::Text
    }
}

/// The HTTP `Content-Type` of a format.
pub open spec fn content_type_of(f: OutputFormat) -> Seq<char> {
    match f {
        OutputFormat::Json => "application/json; charset=utf-8"@,
        OutputFormat::Vtt => "text/vtt; charset=utf-8"@,
        OutputFormat::Markdown => "text/markdown; charset=utf-8"@,
        OutputFormat::Text | OutputFormat::Srt => "text/plain; charset=utf-8"@,
    }
}

impl OutputFormat {
    /// The format selected by a name that is already trimmed and lowercased.
    pub fn from_normalized(name: &str) -> (r: OutputFormat)
        ensures
            r == format_for_name(name@),
    {
        if crate::text::str_eq(name, "json") {
            OutputFormat::Json
        } else if crate::text::str_eq(name, "srt") {
            OutputFormat::Srt
        } else if crate::text::str_eq(name, "vtt") || crate::text::str_eq(name, "webvtt") {
            OutputFormat::Vtt
        } else if crate::text::str_eq(name, "md") || crate::text::str_eq(name, "markdown") {
            OutputFormat::Markdown
        } else {
            OutputFormat::Text
        }
    }

    /// The format named by `s`: surrounding whitespace and case are ignored,
    /// `webvtt` and `md` are aliases, and anything unknown selects `Text`.
    pub fn from_name(s: &str) -> (r: OutputFormat)
        ensures
            r == format_for_name(std_lowercase(trimmed(s@))),
    {
        let t = trim(s);
        let lowered = to_lowercase(t.as_str());
        OutputFormat::from_normalized(lowered.as_str())
    }

    /// The HTTP `Content-Type` that best matches this format.
    pub fn content_type(self) -> (r: &'static str)
        ensures
            r@ == content_type_of(self),
    {
        match self {
            OutputFormat::Json => "application/json; charset=utf-8",
            OutputFormat::Vtt => "text/vtt; charset=utf-8",
            OutputFormat::Markdown => "text/markdown; charset=utf-8",
            OutputFormat::Text | OutputFormat::Srt => "text/plain; charset=utf-8",
        }
    }
}

impl core::str::FromStr for OutputFormat {
    type Err = core::convert::Infallible;

    fn from_str(s: &str) -> (r: Result<Self, Self::Err>)
        ensures
            r matches Ok(f) && f == format_for_name(std_lowercase(trimmed(s@))),
    {
        Ok(OutputFormat::from_name(s))
    }
}

/// One caption cue, with its times in milliseconds.
#[derive(Debug, Clone)]
pub struct Segment {
    /// Offset of the cue from the start of the video.
    pub start_ms: u64,
    /// How long the cue is shown.
    pub dur_ms: u64,
    /// The caption text.
    pub text: String,
}

/// The end of a cue, saturating at the largest representable offset.
pub open spec fn end_ms(s: Segment) -> nat {
    if s.start_ms + s.dur_ms <= u64::MAX {
        (s.start_ms + s.dur_ms) as nat
    } else {
        u64::MAX as nat
    }
}

/// A deep link that opens the video at the whole second of `ms`.
pub open spec fn timestamp_url(id: Seq<char>, ms: nat) -> Seq<char> {
    "https://www.youtube.com/watch?v="@ + id + "&t="@ + dec(ms / 1000) + "s"@
}

/// `M:SS`, widening to `H:MM:SS` past the hour.
pub open spec fn clock(ms: nat) -> Seq<char> {
    let total = ms / 1000;
    let s = total % 60;
    let m = (total / 60) % 60;
    let h = total / 3600;
    if h > 0 {
        dec(h) + ":"@ + padded(m, 2) + ":"@ + padded(s, 2)
    } else {
        dec(m) + ":"@ + padded(s, 2)
    }
}

/// `HH:MM:SS<sep>mmm`: `,` for SRT and `.` for VTT.
pub open spec fn stamp(ms: nat, sep: char) -> Seq<char> {
    padded(ms / 3_600_000, 2) + ":"@ + padded((ms / 60_000) % 60, 2) + ":"@ + padded(
        (ms / 1000) % 60,
        2,
    ) + seq![sep] + padded(ms % 1000, 3)
}

/// A millisecond count as a JSON number of seconds: `65.25`, `2.0`.
pub open spec fn json_seconds(ms: nat) -> Seq<char> {
    let f = ms % 1000;
    dec(ms / 1000) + "."@ + if f == 0 {
        "0"@
    } else if f % 100 == 0 {
        dec(f / 100)
    } else if f % 10 == 0 {
        padded(f / 10, 2)
    } else {
        padded(f, 3)
    }
}

/// The JSON escape of one character.
pub open spec fn json_escape_char(c: char) -> Seq<char> {
    if c == '"' {
        "\\\""@
    } else if c == '\\' {
        "\\\\"@
    } else if c == '\u{8}' {
        "\\b"@
    } else if c == '\t' {
        "\\t"@
    } else if c == '\n' {
        "\\n"@
    } else if c == '\u{c}' {
        "\\f"@
    } else if c == '\r' {
        "\\r"@
    } else if (c as nat) < 0x20 {
        "\\u00"@ + seq![hex_digit((c as nat) / 16), hex_digit((c as nat) % 16)]
    } else {
        seq![c]
    }
}

/// A lowercase hexadecimal digit for `d < 16`.
pub open spec fn hex_digit(d: nat) -> char {
    if d < 10 {
        crate::numfmt::digit(d)
    } else if d == 10 {
        'a'
    } else if d == 11 {
        'b'
    } else if d == 12 {
        'c'
    } else if d == 13 {
        'd'
    } else if d == 14 {
        'e'
    } else {
        'f'
    }
}

/// The escaped body of a JSON string.
pub open spec fn json_escaped(s: Seq<char>) -> Seq<char>
    decreases s.len(),
{
    if s.len() == 0 {
        Seq::empty()
    } else {
        json_escaped(s.drop_last()) + json_escape_char(s.last())
    }
}

/// A JSON string literal.
pub open spec fn json_string(s: Seq<char>) -> Seq<char> {
    "\""@ + json_escaped(s) + "\""@
}

/// The texts of the cues.
pub open spec fn cue_texts(segs: Seq<Segment>) -> Seq<Seq<char>> {
    segs.map_values(|s: Segment| s.text@)
}

/// The rendering of cue `i` in a line-oriented format.
pub open spec fn cue_line(f: OutputFormat, id: Seq<char>, i: nat, s: Segment) -> Seq<char> {
    match f {
        OutputFormat::Markdown => "- ["@ + clock(s.start_ms as nat) + "]("@ + timestamp_url(
            id,
            s.start_ms as nat,
        ) + ") "@ + s.text@ + "\n"@,
        OutputFormat::Srt => dec(i + 1) + "\n"@ + stamp(s.start_ms as nat, ',') + " --> "@ + stamp(
            end_ms(s),
            ',',
        ) + "\n"@ + s.text@ + "\n"@ + "\n"@,
        _ => stamp(s.start_ms as nat, '.') + " --> "@ + stamp(end_ms(s), '.') + "\n"@ + s.text@
            + "\n"@ + "\n"@,
    }
}

/// All cues of a line-oriented format, in order.
pub open spec fn cue_lines(f: OutputFormat, id: Seq<char>, segs: Seq<Segment>) -> Seq<char>
    decreases segs.len(),
{
    if segs.len() == 0 {
        Seq::empty()
    } else {
        cue_lines(f, id, segs.drop_last()) + cue_line(f, id, (segs.len() - 1) as nat, segs.last())
    }
}

/// One cue as a JSON object inside the `segments` array.
pub open spec fn json_cue(id: Seq<char>, s: Segment) -> Seq<char> {
    "    {\n      \"dur\": "@ + json_seconds(s.dur_ms as nat) + ",\n      \"start\": "@
        + json_seconds(s.start_ms as nat) + ",\n      \"text\": "@ + json_string(s.text@)
        + ",\n      \"url\": "@ + json_string(timestamp_url(id, s.start_ms as nat))
        + "\n    }"@
}

/// The cue objects separated by `,\n`.
pub open spec fn json_cues(id: Seq<char>, segs: Seq<Segment>) -> Seq<char>
    decreases segs.len(),
{
    if segs.len() == 0 {
        Seq::empty()
    } else if segs.len() == 1 {
        json_cue(id, segs[0])
    } else {
        json_cues(id, segs.drop_last()) + ",\n"@ + json_cue(id, segs.last())
    }
}

/// The whole JSON document, pretty-printed with keys in sorted order.
pub open spec fn json_document(
    segs: Seq<Segment>,
    id: Seq<char>,
    language: Seq<char>,
    note: Option<Seq<char>>,
) -> Seq<char> {
    let note_json = match note {
        Some(n) => json_string(n),
        None => "null"@,
    };
    let array = if segs.len() == 0 {
        "[]"@
    } else {
        "[\n"@ + json_cues(id, segs) + "\n  ]"@
    };
    "{\n  \"language\": "@ + json_string(language) + ",\n  \"note\": "@ + note_json
        + ",\n  \"segments\": "@ + array + ",\n  \"video_id\": "@ + json_string(id) + "\n}"@
}

/// The rendering of a transcript in the given format.
pub open spec fn formatted(
    segs: Seq<Segment>,
    id: Seq<char>,
    language: Seq<char>,
    note: Option<Seq<char>>,
    f: OutputFormat,
) -> Seq<char> {
    match f {
        OutputFormat::Text => {
            let body = joined(cue_texts(segs), " "@);
            match note {
                Some(n) => "["@ + n + "]\n\n"@ + body,
                None => body,
            }
        },
        OutputFormat::Markdown => {
            let head = match note {
                Some(n) => "> _"@ + n + "_\n"@ + "\n"@,
                None => Seq::empty(),
            };
            head + cue_lines(f, id, segs)
        },
        OutputFormat::Json => json_document(segs, id, language, note),
        OutputFormat::Srt => cue_lines(f, id, segs),
        OutputFormat::Vtt => {
            let head = match note {
                Some(n) => "NOTE "@ + n + "\n"@ + "\n"@,
                None => Seq::empty(),
            };
            "WEBVTT\n\n"@ + head + cue_lines(f, id, segs)
        },
    }
}

/// The view of an optional string slice.
pub open spec fn opt_view(o: Option<&str>) -> Option<Seq<char>> {
    match o {
        Some(s) => Some(s@),
        None => None,
    }
}

/// The end of a cue, saturating.
pub fn segment_end_ms(s: &Segment) -> (r: u64)
    ensures
        r == end_ms(*s),
{
    s.start_ms.saturating_add(s.dur_ms)
}

/// Append the deep link for `ms`.
pub fn push_timestamp_url(out: &mut String, id: &VideoId, ms: u64)
    ensures
        final(out)@ == old(out)@ + timestamp_url(id@, ms as nat),
{
    push_str(out, "https://www.youtube.com/watch?v=");
    push_str(out, id.as_str());
    push_str(out, "&t=");
    push_decimal(out, ms / 1000);
    push_str(out, "s");
    proof {
        assert(final(out)@ =~= old(out)@ + timestamp_url(id@, ms as nat));
    }
}

/// Append the Markdown clock label for `ms`.
pub fn push_clock(out: &mut String, ms: u64)
    ensures
        final(out)@ == old(out)@ + clock(ms as nat),
{
    let total = ms / 1000;
    let s = total % 60;
    let m = (total / 60) % 60;
    let h = total / 3600;
    if h > 0 {
        push_decimal(out, h);
        push_str(out, ":");
        push_padded(out, m, 2);
        push_str(out, ":");
        push_padded(out, s, 2);
    } else {
        push_decimal(out, m);
        push_str(out, ":");
        push_padded(out, s, 2);
    }
    proof {
        assert(final(out)@ =~= old(out)@ + clock(ms as nat));
    }
}

/// Append the subtitle timestamp for `ms` with the given separator.
pub fn push_stamp(out: &mut String, ms: u64, sep: char)
    ensures
        final(out)@ == old(out)@ + stamp(ms as nat, sep),
{
    push_padded(out, ms / 3_600_000, 2);
    push_str(out, ":");
    push_padded(out, (ms / 60_000) % 60, 2);
    push_str(out, ":");
    push_padded(out, (ms / 1000) % 60, 2);
    push_char(out, sep);
    push_padded(out, ms % 1000, 3);
    proof {
        assert(final(out)@ =~= old(out)@ + stamp(ms as nat, sep));
    }
}

/// Append a millisecond count as a JSON number of seconds.
pub fn push_json_seconds(out: &mut String, ms: u64)
    ensures
        final(out)@ == old(out)@ + json_seconds(ms as nat),
{
    push_decimal(out, ms / 1000);
    push_str(out, ".");
    let f = ms % 1000;
    if f == 0 {
        push_str(out, "0");
    } else if f % 100 == 0 {
        push_decimal(out, f / 100);
    } else if f % 10 == 0 {
        push_padded(out, f / 10, 2);
    } else {
        push_padded(out, f, 3);
    }
    proof {
        assert(final(out)@ =~= old(out)@ + json_seconds(ms as nat));
    }
}

/// Executable form of [`hex_digit`].
fn hex_digit_char(d: u32) -> (c: char)
    requires
        d < 16,
    ensures
        c == hex_digit(d as nat),
{
    if d < 10 {
        crate::numfmt::digit_char(d as u64)
    } else if d == 10 {
        'a'
    } else if d == 11 {
        'b'
    } else if d == 12 {
        'c'
    } else if d == 13 {
        'd'
    } else if d == 14 {
        'e'
    } else {
        'f'
    }
}

/// Append the JSON escape of one character.
fn push_json_escape_char(out: &mut String, c: char)
    ensures
        final(out)@ == old(out)@ + json_escape_char(c),
{
    if c == '"' {
        push_str(out, "\\\"");
    } else if c == '\\' {
        push_str(out, "\\\\");
    } else if c == '\u{8}' {
        push_str(out, "\\b");
    } else if c == '\t' {
        push_str(out, "\\t");
    } else if c == '\n' {
        push_str(out, "\\n");
    } else if c == '\u{c}' {
        push_str(out, "\\f");
    } else if c == '\r' {
        push_str(out, "\\r");
    } else if (c as u32) < 0x20 {
        push_str(out, "\\u00");
        let v = c as u32;
        push_char(out, hex_digit_char(v / 16));
        push_char(out, hex_digit_char(v % 16));
        proof {
            assert(final(out)@ =~= old(out)@ + json_escape_char(c));
        }
    } else {
        push_char(out, c);
        proof {
            assert(final(out)@ =~= old(out)@ + json_escape_char(c));
        }
    }
}

/// Append `s` as a JSON string literal.
pub fn push_json_string(out: &mut String, s: &str)
    ensures
        final(out)@ == old(out)@ + json_string(s@),
{
    push_str(out, "\"");
    let cs = crate::text::chars_of(s);
    let ghost start = out@;
    let mut i: usize = 0;
    while i < cs.len()
        invariant
            cs@ == s@,
            i <= cs@.len(),
            out@ == start + json_escaped(cs@.take(i as int)),
        decreases cs@.len() - i,
    {
        proof {
            assert(cs@.take(i + 1).drop_last() =~= cs@.take(i as int));
        }
        push_json_escape_char(out, cs[i]);
        proof {
            assert(out@ =~= start + json_escaped(cs@.take(i + 1)));
        }
        i = i + 1;
    }
    push_str(out, "\"");
    proof {
        assert(cs@.take(cs@.len() as int) =~= cs@);
        assert(final(out)@ =~= old(out)@ + json_string(s@));
    }
}

/// Append one Markdown cue.
fn push_markdown_cue(out: &mut String, id: &VideoId, s: &Segment)
    ensures
        final(out)@ == old(out)@ + cue_line(OutputFormat::Markdown, id@, 0, *s),
{
    push_str(out, "- [");
    push_clock(out, s.start_ms);
    push_str(out, "](");
    push_timestamp_url(out, id, s.start_ms);
    push_str(out, ") ");
    push_str(out, s.text.as_str());
    push_str(out, "\n");
    proof {
        assert(final(out)@ =~= old(out)@ + cue_line(OutputFormat::Markdown, id@, 0, *s));
    }
}

/// Append one subtitle cue; SRT cues are numbered from one.
fn push_subtitle_cue(out: &mut String, srt: bool, i: usize, s: &Segment)
    requires
        i < usize::MAX,
    ensures
        srt ==> final(out)@ == old(out)@ + cue_line(OutputFormat::Srt, Seq::empty(), i as nat, *s),
        !srt ==> final(out)@ == old(out)@ + cue_line(OutputFormat::Vtt, Seq::empty(), i as nat, *s),
{
    let sep = if srt {
        push_decimal(out, (i + 1) as u64);
        push_str(out, "\n");
        ','
    } else {
        '.'
    };
    let ghost mid = out@;
    push_stamp(out, s.start_ms, sep);
    push_str(out, " --> ");
    push_stamp(out, segment_end_ms(s), sep);
    push_str(out, "\n");
    push_str(out, s.text.as_str());
    push_str(out, "\n");
    push_str(out, "\n");
    proof {
        let tail = stamp(s.start_ms as nat, sep) + " --> "@ + stamp(end_ms(*s), sep) + "\n"@
            + s.text@ + "\n"@ + "\n"@;
        assert(final(out)@ =~= mid + tail);
        if srt {
            assert(mid =~= old(out)@ + dec((i + 1) as nat) + "\n"@);
            assert(final(out)@ =~= old(out)@ + cue_line(OutputFormat::Srt, Seq::empty(), i as nat, *s));
        } else {
            assert(final(out)@ =~= old(out)@ + cue_line(OutputFormat::Vtt, Seq::empty(), i as nat, *s));
        }
    }
}

/// Append one cue of a line-oriented format.
fn push_cue_line(out: &mut String, f: OutputFormat, id: &VideoId, i: usize, s: &Segment)
    requires
        f == OutputFormat::Markdown || f == OutputFormat::Srt || f == OutputFormat::Vtt,
        i < usize::MAX,
    ensures
        final(out)@ == old(out)@ + cue_line(f, id@, i as nat, *s),
{
    match f {
        OutputFormat::Markdown => push_markdown_cue(out, id, s),
        OutputFormat::Srt => push_subtitle_cue(out, true, i, s),
        _ => push_subtitle_cue(out, false, i, s),
    }
}

/// Append every cue of a line-oriented format.
fn push_cue_lines(out: &mut String, f: OutputFormat, id: &VideoId, segs: &[Segment])
    requires
        f == OutputFormat::Markdown || f == OutputFormat::Srt || f == OutputFormat::Vtt,
    ensures
        final(out)@ == old(out)@ + cue_lines(f, id@, segs@),
{
    let ghost start = out@;
    let mut i: usize = 0;
    while i < segs.len()
        invariant
            f == OutputFormat::Markdown || f == OutputFormat::Srt || f == OutputFormat::Vtt,
            i <= segs@.len(),
            out@ == start + cue_lines(f, id@, segs@.take(i as int)),
        decreases segs@.len() - i,
    {
        proof {
            assert(segs@.take(i + 1).drop_last() =~= segs@.take(i as int));
            assert(segs@.take(i + 1).last() == segs@[i as int]);
        }
        push_cue_line(out, f, id, i, &segs[i]);
        proof {
            assert(out@ =~= start + cue_lines(f, id@, segs@.take(i + 1)));
        }
        i = i + 1;
    }
    proof {
        assert(segs@.take(segs@.len() as int) =~= segs@);
    }
}

/// Append one cue object of the JSON document.
fn push_json_cue(out: &mut String, id: &VideoId, s: &Segment)
    ensures
        final(out)@ == old(out)@ + json_cue(id@, *s),
{
    push_str(out, "    {\n      \"dur\": ");
    push_json_seconds(out, s.dur_ms);
    push_str(out, ",\n      \"start\": ");
    push_json_seconds(out, s.start_ms);
    push_str(out, ",\n      \"text\": ");
    push_json_string(out, s.text.as_str());
    push_str(out, ",\n      \"url\": ");
    let mut url = String::new();
    push_timestamp_url(&mut url, id, s.start_ms);
    push_json_string(out, url.as_str());
    push_str(out, "\n    }");
    proof {
        assert(final(out)@ =~= old(out)@ + json_cue(id@, *s));
    }
}

/// Append the JSON document.
#[verifier::rlimit(40)]
fn push_json_document(
    out: &mut String,
    segs: &[Segment],
    id: &VideoId,
    language: &str,
    note: Option<&str>,
)
    ensures
        final(out)@ == old(out)@ + json_document(segs@, id@, language@, opt_view(note)),
{
    push_str(out, "{\n  \"language\": ");
    push_json_string(out, language);
    push_str(out, ",\n  \"note\": ");
    match note {
        Some(n) => push_json_string(out, n),
        None => push_str(out, "null"),
    }
    push_str(out, ",\n  \"segments\": ");
    let ghost before_array = out@;
    if segs.len() == 0 {
        push_str(out, "[]");
    } else {
        push_str(out, "[\n");
        let ghost start = out@;
        let mut i: usize = 0;
        while i < segs.len()
            invariant
                i <= segs@.len(),
                segs@.len() > 0,
                out@ == start + json_cues(id@, segs@.take(i as int)),
            decreases segs@.len() - i,
        {
            proof {
                assert(segs@.take(i + 1).drop_last() =~= segs@.take(i as int));
                assert(segs@.take(i + 1).last() == segs@[i as int]);
                if i == 0 {
                    assert(segs@.take(1)[0] == segs@[0]);
                }
            }
            if i > 0 {
                push_str(out, ",\n");
            }
            push_json_cue(out, id, &segs[i]);
            proof {
                assert(out@ =~= start + json_cues(id@, segs@.take(i + 1)));
            }
            i = i + 1;
        }
        proof {
            assert(segs@.take(segs@.len() as int) =~= segs@);
        }
        push_str(out, "\n  ]");
    }
    push_str(out, ",\n  \"video_id\": ");
    push_json_string(out, id.as_str());
    push_str(out, "\n}");
    proof {
        assert(final(out)@ =~= old(out)@ + json_document(segs@, id@, language@, opt_view(note)));
    }
}

/// Render `segments` for `video_id` in the requested `format`.
///
/// `note` is an optional advisory (e.g. a language-fallback message). It is
/// surfaced in every format except SRT, whose grammar has no comment syntax.
pub fn format_transcript(
    segments: &[Segment],
    video_id: &VideoId,
    language: &str,
    note: Option<&str>,
    format: OutputFormat,
) -> (r: String)
    ensures
        r@ == formatted(segments@, video_id@, language@, opt_view(note), format),
{
    let mut out = String::new();
    match format {
        OutputFormat::Text => {
            let mut texts: Vec<String> = Vec::new();
            let mut i: usize = 0;
            while i < segments.len()
                invariant
                    i <= segments@.len(),
                    texts@.len() == i,
                    forall|k: int| 0 <= k < i ==> (#[trigger] texts@[k])@ == segments@[k].text@,
                decreases segments@.len() - i,
            {
                texts.push(segments[i].text.clone());
                i = i + 1;
            }
            proof {
                assert(crate::error::views(texts@) =~= cue_texts(segments@));
            }
            let body = crate::error::join(&texts, " ");
            match note {
                Some(n) => {
                    push_str(&mut out, "[");
                    push_str(&mut out, n);
                    push_str(&mut out, "]\n\n");
                    push_str(&mut out, body.as_str());
                },
                None => {
                    out = body;
                },
            }
        },
        OutputFormat::Markdown => {
            if let Some(n) = note {
                push_str(&mut out, "> _");
                push_str(&mut out, n);
                push_str(&mut out, "_\n");
                push_str(&mut out, "\n");
            }
            push_cue_lines(&mut out, format, video_id, segments);
        },
        OutputFormat::Json => {
            push_json_document(&mut out, segments, video_id, language, note);
        },
        OutputFormat::Srt => {
            push_cue_lines(&mut out, format, video_id, segments);
        },
        OutputFormat::Vtt => {
            push_str(&mut out, "WEBVTT\n\n");
            if let Some(n) = note {
                push_str(&mut out, "NOTE ");
                push_str(&mut out, n);
                push_str(&mut out, "\n");
                push_str(&mut out, "\n");
            }
            push_cue_lines(&mut out, format, video_id, segments);
        },
    }
    proof {
        assert(out@ =~= formatted(segments@, video_id@, language@, opt_view(note), format));
    }
    out
}

/// SRT has no comment syntax: the note never changes an SRT rendering.
pub proof fn law_srt_ignores_note(
    segs: Seq<Segment>,
    id: Seq<char>,
    language: Seq<char>,
    note: Option<Seq<char>>,
)
    ensures
        formatted(segs, id, language, note, OutputFormat::Srt) == formatted(
            segs,
            id,
            language,
            None,
            OutputFormat::Srt,
        ),
{
}

/// Plain text with a note starts with the bracketed note and a blank line.
pub proof fn law_text_note_comes_first(
    segs: Seq<Segment>,
    id: Seq<char>,
    language: Seq<char>,
    note: Seq<char>,
)
    ensures
        ("["@ + note + "]\n\n"@).is_prefix_of(
            formatted(segs, id, language, Some(note), OutputFormat::Text),
        ),
{
    let head = "["@ + note + "]\n\n"@;
    let all = formatted(segs, id, language, Some(note), OutputFormat::Text);
    assert(all.subrange(0, head.len() as int) =~= head);
}

/// Deep links point at whole seconds: the milliseconds of a cue never change its link.
pub proof fn law_links_round_down_to_seconds(id: Seq<char>, ms: nat)
    ensures
        timestamp_url(id, ms) == timestamp_url(id, (ms / 1000) * 1000),
{
    assert((ms / 1000) * 1000 / 1000 == ms / 1000) by (nonlinear_arith);
}

#[verifier::rlimit(40)]
proof fn lemma_cue_lines_contain(f: OutputFormat, id: Seq<char>, segs: Seq<Segment>, k: int)
    requires
        0 <= k < segs.len(),
    ensures
        crate::text::contains_seq(cue_lines(f, id, segs), cue_line(f, id, k as nat, segs[k])),
    decreases segs.len(),
{
    let all = cue_lines(f, id, segs);
    let pre = cue_lines(f, id, segs.drop_last());
    if k == segs.len() - 1 {
        let line = cue_line(f, id, k as nat, segs[k]);
        assert(crate::text::occurs_at(all, line, pre.len() as int)) by {
            assert(all.subrange(pre.len() as int, (pre.len() + line.len()) as int) =~= line);
        }
    } else {
        lemma_cue_lines_contain(f, id, segs.drop_last(), k);
        let line = cue_line(f, id, k as nat, segs[k]);
        assert(segs.drop_last()[k] == segs[k]);
        let i = choose|i: int| crate::text::occurs_at(pre, line, i);
        assert(crate::text::occurs_at(all, line, i)) by {
            assert(all.subrange(i, i + line.len()) =~= pre.subrange(i, i + line.len()));
        }
    }
}

proof fn lemma_contains_within(s: Seq<char>, part: Seq<char>, pat: Seq<char>, at: int)
    requires
        crate::text::occurs_at(s, part, at),
        crate::text::contains_seq(part, pat),
    ensures
        crate::text::contains_seq(s, pat),
{
    let i = choose|i: int| crate::text::occurs_at(part, pat, i);
    assert(crate::text::occurs_at(s, pat, at + i)) by {
        assert(s.subrange(at + i, at + i + pat.len()) =~= part.subrange(i, i + pat.len()));
    }
}

/// Markdown embeds, for every cue, a link that opens the video at that cue.
pub proof fn law_markdown_links_every_cue(
    segs: Seq<Segment>,
    id: Seq<char>,
    language: Seq<char>,
    note: Option<Seq<char>>,
    k: int,
)
    requires
        0 <= k < segs.len(),
    ensures
        crate::text::contains_seq(
            formatted(segs, id, language, note, OutputFormat::Markdown),
            timestamp_url(id, segs[k].start_ms as nat),
        ),
{
    let f = OutputFormat::Markdown;
    let s = segs[k];
    let line = cue_line(f, id, k as nat, s);
    let url = timestamp_url(id, s.start_ms as nat);
    let pre = "- ["@ + clock(s.start_ms as nat) + "]("@;
    assert(crate::text::occurs_at(line, url, pre.len() as int)) by {
        assert(line.subrange(pre.len() as int, (pre.len() + url.len()) as int) =~= url);
    }
    lemma_cue_lines_contain(f, id, segs, k);
    let lines = cue_lines(f, id, segs);
    let j = choose|j: int| crate::text::occurs_at(lines, line, j);
    lemma_contains_within(lines, line, url, j);
    let head = match note {
        Some(n) => "> _"@ + n + "_\n"@ + "\n"@,
        None => Seq::empty(),
    };
    let all = formatted(segs, id, language, note, f);
    assert(all == head + lines);
    let m = choose|m: int| crate::text::occurs_at(lines, url, m);
    assert(crate::text::occurs_at(all, url, head.len() + m)) by {
        assert(all.subrange(head.len() + m, head.len() + m + url.len()) =~= lines.subrange(
            m,
            m + url.len(),
        ));
    }
}

/// The escape of text with no quote, backslash or control character is the text itself.
pub proof fn law_plain_text_needs_no_escaping(s: Seq<char>)
    requires
        forall|i: int|
            0 <= i < s.len() ==> (#[trigger] s[i]) != '"' && s[i] != '\\' && (s[i] as nat)
                >= 0x20,
    ensures
        json_escaped(s) == s,
    decreases s.len(),
{
    if s.len() > 0 {
        law_plain_text_needs_no_escaping(s.drop_last());
        assert(s.drop_last().push(s.last()) =~= s);
    }
}

proof fn lemma_occurs_in_concat(a: Seq<char>, b: Seq<char>, c: Seq<char>)
    ensures
        crate::text::occurs_at(a + b + c, b, a.len() as int),
{
    assert((a + b + c).subrange(a.len() as int, (a.len() + b.len()) as int) =~= b);
}

/// The note is shown in every format but SRT: Text, Markdown and VTT carry it
/// verbatim, JSON as a string value.
pub proof fn law_note_is_surfaced(
    segs: Seq<Segment>,
    id: Seq<char>,
    language: Seq<char>,
    note: Seq<char>,
)
    ensures
        crate::text::contains_seq(
            formatted(segs, id, language, Some(note), OutputFormat::Text),
            note,
        ),
        crate::text::contains_seq(
            formatted(segs, id, language, Some(note), OutputFormat::Markdown),
            note,
        ),
        crate::text::contains_seq(formatted(segs, id, language, Some(note), OutputFormat::Vtt), note),
        crate::text::contains_seq(
            formatted(segs, id, language, Some(note), OutputFormat::Json),
            json_string(note),
        ),
{
    let body = joined(cue_texts(segs), " "@);
    lemma_occurs_in_concat("["@, note, "]\n\n"@ + body);
    assert("["@ + note + ("]\n\n"@ + body) =~= formatted(segs, id, language, Some(note), OutputFormat::Text));
    let lines_md = cue_lines(OutputFormat::Markdown, id, segs);
    lemma_occurs_in_concat("> _"@, note, "_\n"@ + "\n"@ + lines_md);
    assert("> _"@ + note + ("_\n"@ + "\n"@ + lines_md) =~= formatted(
        segs,
        id,
        language,
        Some(note),
        OutputFormat::Markdown,
    ));
    let lines_vtt = cue_lines(OutputFormat::Vtt, id, segs);
    lemma_occurs_in_concat("WEBVTT\n\n"@ + "NOTE "@, note, "\n"@ + "\n"@ + lines_vtt);
    assert("WEBVTT\n\n"@ + "NOTE "@ + note + ("\n"@ + "\n"@ + lines_vtt) =~= formatted(
        segs,
        id,
        language,
        Some(note),
        OutputFormat::Vtt,
    ));
    let doc = formatted(segs, id, language, Some(note), OutputFormat::Json);
    let pre = "{\n  \"language\": "@ + json_string(language) + ",\n  \"note\": "@;
    let post = doc.subrange((pre.len() + json_string(note).len()) as int, doc.len() as int);
    assert(doc =~= pre + json_string(note) + post);
    lemma_occurs_in_concat(pre, json_string(note), post);
}

proof fn lemma_json_cues_contain(id: Seq<char>, segs: Seq<Segment>, k: int)
    requires
        0 <= k < segs.len(),
    ensures
        crate::text::contains_seq(json_cues(id, segs), json_cue(id, segs[k])),
    decreases segs.len(),
{
    let all = json_cues(id, segs);
    let cue = json_cue(id, segs[k]);
    if segs.len() == 1 {
        assert(crate::text::occurs_at(all, cue, 0)) by {
            assert(all.subrange(0, cue.len() as int) =~= cue);
        }
    } else if k == segs.len() - 1 {
        let pre = json_cues(id, segs.drop_last()) + ",\n"@;
        assert(crate::text::occurs_at(all, cue, pre.len() as int)) by {
            assert(all.subrange(pre.len() as int, (pre.len() + cue.len()) as int) =~= cue);
        }
    } else {
        let pre = json_cues(id, segs.drop_last());
        lemma_json_cues_contain(id, segs.drop_last(), k);
        assert(segs.drop_last()[k] == segs[k]);
        let i = choose|i: int| crate::text::occurs_at(pre, cue, i);
        assert(crate::text::occurs_at(all, cue, i)) by {
            assert(all.subrange(i, i + cue.len()) =~= pre.subrange(i, i + cue.len()));
        }
    }
}

/// JSON embeds, for every cue, a link that opens the video at that cue.
pub proof fn law_json_links_every_cue(
    segs: Seq<Segment>,
    id: Seq<char>,
    language: Seq<char>,
    note: Option<Seq<char>>,
    k: int,
)
    requires
        0 <= k < segs.len(),
    ensures
        crate::text::contains_seq(
            formatted(segs, id, language, note, OutputFormat::Json),
            json_string(timestamp_url(id, segs[k].start_ms as nat)),
        ),
{
    let s = segs[k];
    let cue = json_cue(id, s);
    let link = json_string(timestamp_url(id, s.start_ms as nat));
    let pre = "    {\n      \"dur\": "@ + json_seconds(s.dur_ms as nat) + ",\n      \"start\": "@
        + json_seconds(s.start_ms as nat) + ",\n      \"text\": "@ + json_string(s.text@)
        + ",\n      \"url\": "@;
    lemma_occurs_in_concat(pre, link, "\n    }"@);
    assert(cue =~= pre + link + "\n    }"@);
    lemma_json_cues_contain(id, segs, k);
    let cues = json_cues(id, segs);
    let j = choose|j: int| crate::text::occurs_at(cues, cue, j);
    lemma_contains_within(cues, cue, link, j);
    let doc = formatted(segs, id, language, note, OutputFormat::Json);
    let note_json = match note {
        Some(n) => json_string(n),
        None => "null"@,
    };
    let head = "{\n  \"language\": "@ + json_string(language) + ",\n  \"note\": "@ + note_json
        + ",\n  \"segments\": "@ + "[\n"@;
    let tail = "\n  ]"@ + ",\n  \"video_id\": "@ + json_string(id) + "\n}"@;
    assert(doc =~= head + cues + tail);
    lemma_occurs_in_concat(head, cues, tail);
    lemma_contains_within(doc, cues, link, head.len() as int);
}

/// A subtitle stamp denotes its time: it reads `HH:MM:SS<sep>mmm` with
/// minutes and seconds below 60 and milliseconds below 1000, and the fields
/// add up to `ms`.
pub proof fn law_stamp_denotes_its_time(ms: nat, sep: char)
    ensures
        exists|h: nat, m: nat, s: nat, f: nat|
            #![trigger padded(h, 2), padded(m, 2), padded(s, 2), padded(f, 3)]
            {
                &&& stamp(ms, sep) == padded(h, 2) + ":"@ + padded(m, 2) + ":"@ + padded(s, 2)
                    + seq![sep] + padded(f, 3)
                &&& m < 60
                &&& s < 60
                &&& f < 1000
                &&& h * 3_600_000 + m * 60_000 + s * 1000 + f == ms
            },
{
    let h = ms / 3_600_000;
    let m = (ms / 60_000) % 60;
    let s = (ms / 1000) % 60;
    let f = ms % 1000;
    let sec = ms / 1000;
    let min = ms / 60_000;
    assert(ms == sec * 1000 + f) by {
        vstd::arithmetic::div_mod::lemma_fundamental_div_mod(ms as int, 1000);
    }
    assert(min == sec / 60) by {
        vstd::arithmetic::div_mod::lemma_div_denominator(ms as int, 1000, 60);
    }
    assert(h == min / 60) by {
        vstd::arithmetic::div_mod::lemma_div_denominator(ms as int, 60_000, 60);
    }
    assert(sec == min * 60 + s) by {
        vstd::arithmetic::div_mod::lemma_fundamental_div_mod(sec as int, 60);
    }
    assert(min == h * 60 + m) by {
        vstd::arithmetic::div_mod::lemma_fundamental_div_mod(min as int, 60);
    }
    assert(h * 3_600_000 + m * 60_000 + s * 1000 + f == ms) by (nonlinear_arith)
        requires
            ms == sec * 1000 + f,
            sec == min * 60 + s,
            min == h * 60 + m,
    ;
    assert(stamp(ms, sep) == padded(h, 2) + ":"@ + padded(m, 2) + ":"@ + padded(s, 2) + seq![sep]
        + padded(f, 3));
}

/// A cue clock denotes the whole seconds of its time: `M:SS` under an hour,
/// `H:MM:SS` from the hour on, with minutes and seconds below 60.
pub proof fn law_clock_denotes_whole_seconds(ms: nat)
    ensures
        ms < 3_600_000 ==> exists|m: nat, s: nat|
            #![trigger dec(m), padded(s, 2)]
            {
                &&& clock(ms) == dec(m) + ":"@ + padded(s, 2)
                &&& s < 60
                &&& m * 60 + s == ms / 1000
            },
        ms >= 3_600_000 ==> exists|h: nat, m: nat, s: nat|
            #![trigger dec(h), padded(m, 2), padded(s, 2)]
            {
                &&& clock(ms) == dec(h) + ":"@ + padded(m, 2) + ":"@ + padded(s, 2)
                &&& h > 0
                &&& m < 60
                &&& s < 60
                &&& h * 3600 + m * 60 + s == ms / 1000
            },
{
    let total = ms / 1000;
    let s = total % 60;
    let mm = total / 60;
    let m = mm % 60;
    let h = total / 3600;
    assert(total == mm * 60 + s) by {
        vstd::arithmetic::div_mod::lemma_fundamental_div_mod(total as int, 60);
    }
    assert(h == mm / 60) by {
        vstd::arithmetic::div_mod::lemma_div_denominator(total as int, 60, 60);
    }
    assert(mm == h * 60 + m) by {
        vstd::arithmetic::div_mod::lemma_fundamental_div_mod(mm as int, 60);
    }
    assert(h == ms / 3_600_000) by {
        vstd::arithmetic::div_mod::lemma_div_denominator(ms as int, 1000, 3600);
    }
    assert(h * 3600 + m * 60 + s == total) by (nonlinear_arith)
        requires
            total == mm * 60 + s,
            mm == h * 60 + m,
    ;
    if ms < 3_600_000 {
        assert(h == 0);
        assert(clock(ms) == dec(m) + ":"@ + padded(s, 2));
    } else {
        assert(h > 0);
        assert(clock(ms) == dec(h) + ":"@ + padded(m, 2) + ":"@ + padded(s, 2));
    }
}

} // verus!
