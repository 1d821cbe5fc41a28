//! The error type shared by every stage of a transcript fetch.
use vstd::prelude::*;

use crate::text::push_str;

verus! {

/// Everything that can go wrong while fetching a transcript.
#[derive(Debug, Clone)]
pub enum TranscriptError {
    /// The input is not a recognised YouTube URL.
    InvalidUrl,
    /// The video ID is not exactly 11 `[A-Za-z0-9_-]` characters.
    InvalidVideoId,
    /// The video has no caption tracks.
    NoTranscriptAvailable,
    /// Neither the requested language nor English is available.
    LanguageNotAvailable { requested: String, available: Vec<String> },
    /// A transport-level failure.
    Network(String),
    /// An upstream document could not be understood.
    Parse(String),
}

/// `parts` joined with `sep` between consecutive elements.
pub open spec fn joined(parts: Seq<Seq<char>>, sep: Seq<char>) -> Seq<char>
    decreases parts.len(),
{
    if parts.len() == 0 {
        Seq::empty()
    } else if parts.len() == 1 {
        parts[0]
    } else {
        joined(parts.drop_last(), sep) + sep + parts.last()
    }
}

/// The character views of a list of strings.
pub open spec fn views(v: Seq<String>) -> Seq<Seq<char>> {
    v.map_values(|s: String| s@)
}

/// The human-readable message of an error.
pub open spec fn error_message(e: TranscriptError) -> Seq<char> {
    match e {
        TranscriptError::InvalidUrl => "Invalid YouTube URL provided"@,
        TranscriptError::InvalidVideoId =>
            "Invalid video ID: must be 11 alphanumeric/underscore/hyphen characters"@,
        TranscriptError::NoTranscriptAvailable => "No transcript available for this video"@,
        TranscriptError::LanguageNotAvailable { requested, available } => "Language '"@
            + requested@ + "' not available; available languages: "@ + joined(
            views(available@),
            ", "@,
        ),
        TranscriptError::Network(m) => "Network error: "@ + m@,
        TranscriptError::Parse(m) => "Parse error: "@ + m@,
    }
}

/// `parts` joined by `sep`.
pub fn join(parts: &Vec<String>, sep: &str) -> (r: String)
    ensures
        r@ == joined(views(parts@), sep@),
{
    let mut out = String::new();
    let mut i: usize = 0;
    while i < parts.len()
        invariant
            i <= parts@.len(),
            out@ == joined(views(parts@.take(i as int)), sep@),
        decreases parts@.len() - i,
    {
        proof {
            let prev = views(parts@.take(i as int));
            let next = views(parts@.take(i + 1));
            assert(next.drop_last() =~= prev);
            assert(next.last() == parts@[i as int]@);
        }
        if i > 0 {
            push_str(&mut out, sep);
        }
        push_str(&mut out, parts[i].as_str());
        i = i + 1;
    }
    proof {
        assert(parts@.take(parts@.len() as int) =~= parts@);
    }
    out
}

/// A joined list contains each of its parts.
pub proof fn lemma_joined_contains(parts: Seq<Seq<char>>, sep: Seq<char>, k: int)
    requires
        0 <= k < parts.len(),
    ensures
        crate::text::contains_seq(joined(parts, sep), parts[k]),
    decreases parts.len(),
{
    let j = joined(parts, sep);
    if parts.len() == 1 {
        assert(crate::text::occurs_at(j, parts[k], 0)) by {
            assert(j.subrange(0, parts[k].len() as int) =~= parts[k]);
        }
    } else if k == parts.len() - 1 {
        let start: int = (joined(parts.drop_last(), sep).len() + sep.len()) as int;
        assert(crate::text::occurs_at(j, parts[k], start)) by {
            assert(j.subrange(start, start + parts[k].len()) =~= parts[k]);
        }
    } else {
        let pre = joined(parts.drop_last(), sep);
        lemma_joined_contains(parts.drop_last(), sep, k);
        let i = choose|i: int| crate::text::occurs_at(pre, parts[k], i);
        assert(crate::text::occurs_at(j, parts[k], i)) by {
            assert(j.subrange(i, i + parts[k].len()) =~= pre.subrange(i, i + parts[k].len()));
        }
    }
}

impl TranscriptError {
    /// The human-readable message of this error.
    pub fn message(&self) -> (r: String)
        ensures
            r@ == error_message(*self),
    {
        match self {
            TranscriptError::InvalidUrl => String::from_str("Invalid YouTube URL provided"),
            TranscriptError::InvalidVideoId => String::from_str(
                "Invalid video ID: must be 11 alphanumeric/underscore/hyphen characters",
            ),
            TranscriptError::NoTranscriptAvailable => String::from_str(
                "No transcript available for this video",
            ),
            TranscriptError::LanguageNotAvailable { requested, available } => {
                let mut out = String::from_str("Language '");
                push_str(&mut out, requested.as_str());
                push_str(&mut out, "' not available; available languages: ");
                let list = join(available, ", ");
                push_str(&mut out, list.as_str());
                out
            },
            TranscriptError::Network(m) => {
                let mut out = String::from_str("Network error: ");
                push_str(&mut out, m.as_str());
                out
            },
            TranscriptError::Parse(m) => {
                let mut out = String::from_str("Parse error: ");
                push_str(&mut out, m.as_str());
                out
            },
        }
    }
}

/// The message of a `LanguageNotAvailable` error names every available language.
pub proof fn law_unavailable_message_lists_languages(
    requested: String,
    available: Vec<String>,
    k: int,
)
    requires
        0 <= k < available@.len(),
    ensures
        crate::text::contains_seq(
            error_message(TranscriptError::LanguageNotAvailable { requested, available }),
            available@[k]@,
        ),
{
    let list = joined(views(available@), ", "@);
    lemma_joined_contains(views(available@), ", "@, k);
    let prefix = "Language '"@ + requested@ + "' not available; available languages: "@;
    let i = choose|i: int| crate::text::occurs_at(list, available@[k]@, i);
    let m = prefix + list;
    assert(m == error_message(TranscriptError::LanguageNotAvailable { requested, available }));
    assert(crate::text::occurs_at(m, available@[k]@, prefix.len() + i)) by {
        assert(m.subrange(prefix.len() + i, prefix.len() + i + available@[k]@.len())
            =~= list.subrange(i, i + available@[k]@.len()));
    }
}

} // verus!
