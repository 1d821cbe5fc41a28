//! Recognising YouTube URLs and extracting validated video IDs.
use vstd::prelude::*;

use crate::error::TranscriptError;
use crate::text::{chars_eq, chars_of, push_str, starts_with, str_eq, string_from_chars, string_of};

verus! {

broadcast use vstd::string::group_string_axioms;

/// May `c` appear in a video ID (`[A-Za-z0-9_-]`)?
pub open spec fn is_id_char(c: char) -> bool {
    ||| ('a' <= c && c <= 'z')
    ||| ('A' <= c && c <= 'Z')
    ||| ('0' <= c && c <= '9')
    ||| c == '_'
    ||| c == '-'
}

/// Is `s` a well-formed video ID: exactly 11 characters of `[A-Za-z0-9_-]`?
pub open spec fn is_valid_video_id(s: Seq<char>) -> bool {
    s.len() == 11 && forall|i: int| 0 <= i < s.len() ==> is_id_char(#[trigger] s[i])
}

/// A validated YouTube video ID: exactly 11 chars matching `[A-Za-z0-9_-]`.
#[derive(Debug, PartialEq, Eq, Hash)]
pub struct VideoId(String);

impl Clone for VideoId {
    fn clone(&self) -> (r: Self)
        ensures
            r@ == self@,
    {
        proof {
            use_type_invariant(self);
        }
        VideoId(self.0.clone())
    }
}

impl View for VideoId {
    type V = Seq<char>;

    closed spec fn view(&self) -> Seq<char> {
        self.0@
    }
}

impl VideoId {
    #[verifier::type_invariant]
    spec fn well_formed(self) -> bool {
        is_valid_video_id(self.0@)
    }

    /// Parse a raw string into a validated `VideoId`.
    ///
    /// Fails with `InvalidVideoId` unless the string is exactly 11
    /// `[A-Za-z0-9_-]` characters.
    pub fn parse(s: &str) -> (r: Result<VideoId, TranscriptError>)
        ensures
            match r {
                Ok(id) => is_valid_video_id(s@) && id@ == s@,
                Err(e) => !is_valid_video_id(s@) && e == TranscriptError::InvalidVideoId,
            },
    {
        let cs = chars_of(s);
        if cs.len() != 11 {
            return Err(TranscriptError::InvalidVideoId);
        }
        let mut i: usize = 0;
        while i < cs.len()
            invariant
                cs@ == s@,
                i <= cs@.len(),
                forall|k: int| 0 <= k < i ==> is_id_char(#[trigger] cs@[k]),
            decreases cs@.len() - i,
        {
            if !is_id_char_exec(cs[i]) {
                return Err(TranscriptError::InvalidVideoId);
            }
            i = i + 1;
        }
        Ok(VideoId(string_of(s)))
    }

    /// The inner video ID string slice.
    pub fn as_str(&self) -> (r: &str)
        ensures
            r@ == self@,
            is_valid_video_id(self@),
    {
        proof {
            use_type_invariant(self);
        }
        self.0.as_str()
    }
}

/// Executable form of [`is_id_char`].
pub fn is_id_char_exec(c: char) -> (r: bool)
    ensures
        r == is_id_char(c),
{
    ('a' <= c && c <= 'z') || ('A' <= c && c <= 'Z') || ('0' <= c && c <= '9') || c == '_' || c
        == '-'
}

/// The parts of a parsed URL that the extraction logic reads.
pub struct UrlParts {
    /// The host, if the URL has one.
    pub host: Option<String>,
    /// The percent-encoded path.
    pub path: String,
    /// The decoded `key=value` pairs of the query, in order.
    pub query: Vec<(String, String)>,
}

/// The view of [`UrlParts`].
pub struct UrlPartsView {
    pub host: Option<Seq<char>>,
    pub path: Seq<char>,
    pub query: Seq<(Seq<char>, Seq<char>)>,
}

impl View for UrlParts {
    type V = UrlPartsView;

    open spec fn view(&self) -> UrlPartsView {
        UrlPartsView {
            host: match self.host {
                Some(h) => Some(h@),
                None => None,
            },
            path: self.path@,
            query: self.query@.map_values(|p: (String, String)| (p.0@, p.1@)),
        }
    }
}

/// What `url::Url::parse` makes of `input` (`None` when it rejects it), read
/// back through `host_str`, `path` and `query_pairs`.
pub uninterp spec fn url_parts(input: Seq<char>) -> Option<UrlPartsView>;

/// Calls `url::Url::parse` and reads the host, path and query pairs of the
/// result. The WHATWG parsing rules are not restated: the result is the name
/// `url_parts` applied to the input.
#[verifier::external_body]
fn parse_url(input: &str) -> (r: Option<UrlParts>)
    ensures
        match r {
            Some(p) => url_parts(input@) == Some(p@),
            None => url_parts(input@) is None,
        },
{
    match url::Url::parse(input) {
        Ok(u) => Some(
            UrlParts {
                host: u.host_str().map(|h| h.to_string()),
                path: u.path().to_string(),
                query: u.query_pairs().map(|(k, v)| (k.into_owned(), v.into_owned())).collect(),
            },
        ),
        Err(_) => None,
    }
}

/// The hosts accepted as YouTube.
pub open spec fn is_youtube_host(h: Seq<char>) -> bool {
    ||| h == "youtube.com"@
    ||| h == "www.youtube.com"@
    ||| h == "m.youtube.com"@
    ||| h == "youtu.be"@
    ||| h == "youtube.co.uk"@
    ||| h == "youtube.de"@
    ||| h == "youtube.fr"@
    ||| h == "youtube.jp"@
    ||| h == "youtube.ca"@
    ||| h == "youtube.es"@
    ||| h == "youtube.com.br"@
    ||| h == "youtube.co.in"@
    ||| h == "youtube.co.kr"@
}

/// Executable form of [`is_youtube_host`].
pub fn is_youtube_host_exec(h: &str) -> (r: bool)
    ensures
        r == is_youtube_host(h@),
{
    str_eq(h, "youtube.com") || str_eq(h, "www.youtube.com") || str_eq(h, "m.youtube.com")
        || str_eq(h, "youtu.be") || str_eq(h, "youtube.co.uk") || str_eq(h, "youtube.de")
        || str_eq(h, "youtube.fr") || str_eq(h, "youtube.jp") || str_eq(h, "youtube.ca")
        || str_eq(h, "youtube.es") || str_eq(h, "youtube.com.br") || str_eq(h, "youtube.co.in")
        || str_eq(h, "youtube.co.kr")
}

/// `h` without a leading `www.`.
pub open spec fn bare_host(h: Seq<char>) -> Seq<char> {
    if "www."@.is_prefix_of(h) {
        h.skip(4)
    } else {
        h
    }
}

/// Index of the first `c` in `s`, or `s.len()` when there is none.
pub open spec fn index_of(s: Seq<char>, c: char) -> int
    decreases s.len(),
{
    if s.len() == 0 {
        0
    } else if s[0] == c {
        0
    } else {
        1 + index_of(s.drop_first(), c)
    }
}

/// The `n`-th field of `s` split on `sep` (`str::split(sep).nth(n)`).
pub open spec fn split_field(s: Seq<char>, sep: char, n: nat) -> Option<Seq<char>>
    decreases n,
{
    let i = index_of(s, sep);
    if n == 0 {
        Some(s.take(i))
    } else if i < s.len() {
        split_field(s.skip(i + 1), sep, (n - 1) as nat)
    } else {
        None
    }
}

/// The first segment of a path (`Url::path_segments().next()`): defined when
/// the path starts with `/`.
pub open spec fn first_segment(path: Seq<char>) -> Option<Seq<char>> {
    if path.len() > 0 && path[0] == '/' {
        split_field(path.drop_first(), '/', 0)
    } else {
        None
    }
}

/// `o` without an empty string.
pub open spec fn non_empty(o: Option<Seq<char>>) -> Option<Seq<char>> {
    match o {
        Some(s) => if s.len() > 0 {
            Some(s)
        } else {
            None
        },
        None => None,
    }
}

/// The value of the first pair whose key is `key`.
pub open spec fn first_value(q: Seq<(Seq<char>, Seq<char>)>, key: Seq<char>) -> Option<Seq<char>>
    decreases q.len(),
{
    if q.len() == 0 {
        None
    } else if q[0].0 == key {
        Some(q[0].1)
    } else {
        first_value(q.drop_first(), key)
    }
}

/// The host of a parsed URL, empty when it has none.
pub open spec fn host_or_empty(p: UrlPartsView) -> Seq<char> {
    match p.host {
        Some(h) => h,
        None => Seq::empty(),
    }
}

/// The candidate video ID carried by a parsed YouTube URL.
pub open spec fn id_candidate(p: UrlPartsView) -> Option<Seq<char>> {
    let host = host_or_empty(p);
    let bare = bare_host(host);
    if host == "youtu.be"@ || bare == "youtu.be"@ {
        non_empty(first_segment(p.path))
    } else if "/watch"@.is_prefix_of(p.path) {
        first_value(p.query, "v"@)
    } else if "/shorts/"@.is_prefix_of(p.path) || "/live/"@.is_prefix_of(p.path)
        || "/embed/"@.is_prefix_of(p.path) {
        non_empty(split_field(p.path, '/', 2))
    } else {
        None
    }
}

/// The outcome of extracting a video ID from a parsed URL.
pub open spec fn id_from_parts(p: UrlPartsView) -> Result<Seq<char>, TranscriptError> {
    let host = host_or_empty(p);
    if !is_youtube_host(host) && !is_youtube_host(bare_host(host)) {
        Err(TranscriptError::InvalidUrl)
    } else {
        match id_candidate(p) {
            None => Err(TranscriptError::InvalidUrl),
            Some(id) => if is_valid_video_id(id) {
                Ok(id)
            } else {
                Err(TranscriptError::InvalidVideoId)
            },
        }
    }
}

/// `raw` with `https://` put in front unless it already has an HTTP(S) scheme.
pub open spec fn normalized_url(raw: Seq<char>) -> Seq<char> {
    if "http://"@.is_prefix_of(raw) || "https://"@.is_prefix_of(raw) {
        raw
    } else {
        "https://"@ + raw
    }
}

/// The outcome of extracting a video ID from the raw input.
pub open spec fn extracted(raw: Seq<char>) -> Result<Seq<char>, TranscriptError> {
    match url_parts(normalized_url(raw)) {
        None => Err(TranscriptError::InvalidUrl),
        Some(p) => id_from_parts(p),
    }
}

/// Does an extraction result agree with its specification?
pub open spec fn matches_spec(
    r: Result<VideoId, TranscriptError>,
    s: Result<Seq<char>, TranscriptError>,
) -> bool {
    match r {
        Ok(id) => s == Ok::<Seq<char>, TranscriptError>(id@),
        Err(e) => s == Err::<Seq<char>, TranscriptError>(e),
    }
}

/// Input without an HTTP(S) scheme is read as an `https://` URL.
pub proof fn law_scheme_is_optional(raw: Seq<char>)
    requires
        !"http://"@.is_prefix_of(raw),
        !"https://"@.is_prefix_of(raw),
    ensures
        extracted(raw) == extracted("https://"@ + raw),
{
    let full = "https://"@ + raw;
    assert("https://"@.is_prefix_of(full)) by {
        assert(full.subrange(0, "https://"@.len() as int) =~= "https://"@);
    }
}

/// A successful extraction always yields a well-formed video ID.
pub proof fn law_extracted_ids_are_valid(raw: Seq<char>)
    ensures
        extracted(raw) matches Ok(id) ==> is_valid_video_id(id),
{
}

/// The pairs of `q` whose key is `key`, in order.
pub open spec fn pairs_with_key(q: Seq<(Seq<char>, Seq<char>)>, key: Seq<char>) -> Seq<
    (Seq<char>, Seq<char>),
>
    decreases q.len(),
{
    if q.len() == 0 {
        Seq::empty()
    } else if q[0].0 == key {
        seq![q[0]] + pairs_with_key(q.drop_first(), key)
    } else {
        pairs_with_key(q.drop_first(), key)
    }
}

proof fn lemma_first_value_of_kept(q: Seq<(Seq<char>, Seq<char>)>, key: Seq<char>)
    ensures
        first_value(pairs_with_key(q, key), key) == first_value(q, key),
    decreases q.len(),
{
    if q.len() > 0 {
        lemma_first_value_of_kept(q.drop_first(), key);
        if q[0].0 == key {
            let kept = seq![q[0]] + pairs_with_key(q.drop_first(), key);
            assert(kept[0] == q[0]);
            assert(kept.drop_first() =~= pairs_with_key(q.drop_first(), key));
        }
    }
}

/// Tracking parameters (`si`, `t`, ...) never matter: keeping only the `v`
/// pairs of the query gives the same outcome.
pub proof fn law_tracking_parameters_ignored(p: UrlPartsView)
    ensures
        id_from_parts(p) == id_from_parts(
            UrlPartsView { host: p.host, path: p.path, query: pairs_with_key(p.query, "v"@) },
        ),
{
    lemma_first_value_of_kept(p.query, "v"@);
}

/// Index of the first `c` in `cs[from..]`, as an absolute index.
pub(crate) fn find_char(cs: &[char], from: usize, c: char) -> (r: usize)
    requires
        from <= cs@.len(),
    ensures
        r == from + index_of(cs@.skip(from as int), c),
        from <= r <= cs@.len(),
{
    let mut i = from;
    while i < cs.len() && cs[i] != c
        invariant
            from <= i <= cs@.len(),
            index_of(cs@.skip(from as int), c) == (i - from) + index_of(cs@.skip(i as int), c),
        decreases cs@.len() - i,
    {
        proof {
            assert(cs@.skip(i as int).drop_first() =~= cs@.skip(i + 1));
        }
        i = i + 1;
    }
    proof {
        if i < cs@.len() {
            assert(cs@.skip(i as int)[0] == cs@[i as int]);
        }
    }
    i
}

/// The `n`-th `sep`-separated field of `cs[from..]`.
fn split_field_exec(cs: &[char], from: usize, sep: char, n: usize) -> (r: Option<String>)
    requires
        from <= cs@.len(),
    ensures
        match r {
            Some(f) => split_field(cs@.skip(from as int), sep, n as nat) == Some(f@),
            None => split_field(cs@.skip(from as int), sep, n as nat) is None,
        },
    decreases n,
{
    let i = find_char(cs, from, sep);
    if n == 0 {
        proof {
            assert(cs@.skip(from as int).take(i - from) =~= cs@.subrange(from as int, i as int));
        }
        Some(string_from_chars(cs, from, i))
    } else if i < cs.len() {
        proof {
            assert(cs@.skip(from as int).skip(i - from + 1) =~= cs@.skip(i + 1));
        }
        split_field_exec(cs, i + 1, sep, n - 1)
    } else {
        None
    }
}

/// The first query value whose key is `key`.
fn first_value_exec(q: &Vec<(String, String)>, key: &str) -> (r: Option<String>)
    ensures
        match r {
            Some(v) => first_value(q@.map_values(|p: (String, String)| (p.0@, p.1@)), key@)
                == Some(v@),
            None => first_value(q@.map_values(|p: (String, String)| (p.0@, p.1@)), key@) is None,
        },
{
    let ghost view = q@.map_values(|p: (String, String)| (p.0@, p.1@));
    let mut i: usize = 0;
    proof {
        assert(view.skip(0) =~= view);
    }
    while i < q.len()
        invariant
            i <= q@.len(),
            view == q@.map_values(|p: (String, String)| (p.0@, p.1@)),
            first_value(view, key@) == first_value(view.skip(i as int), key@),
        decreases q@.len() - i,
    {
        proof {
            assert(view.skip(i as int).drop_first() =~= view.skip(i + 1));
            assert(view.skip(i as int)[0] == view[i as int]);
        }
        if str_eq(q[i].0.as_str(), key) {
            return Some(q[i].1.clone());
        }
        i = i + 1;
    }
    None
}

/// Extract the video ID from the parts of a parsed URL.
///
/// Fails with `InvalidUrl` when the host is not a YouTube host or no ID is
/// present, and with `InvalidVideoId` when the ID found is malformed.
pub fn video_id_from_url_parts(parts: &UrlParts) -> (r: Result<VideoId, TranscriptError>)
    ensures
        matches_spec(r, id_from_parts(parts@)),
{
    let host: String = match &parts.host {
        Some(h) => h.clone(),
        None => String::new(),
    };
    let hc = chars_of(host.as_str());
    let has_www = starts_with(host.as_str(), "www.");
    proof {
        reveal_strlit("www.");
    }
    let bare: String = if has_www {
        string_from_chars(&hc, 4, hc.len())
    } else {
        host.clone()
    };
    proof {
        if has_www {
            assert(hc@.subrange(4, hc@.len() as int) =~= host@.skip(4));
        }
        assert(bare@ == bare_host(host@));
        assert(host@ == host_or_empty(parts@));
    }
    if !is_youtube_host_exec(host.as_str()) && !is_youtube_host_exec(bare.as_str()) {
        return Err(TranscriptError::InvalidUrl);
    }
    let path = parts.path.as_str();
    let pc = chars_of(path);
    let candidate: Option<String> = if str_eq(host.as_str(), "youtu.be") || str_eq(
        bare.as_str(),
        "youtu.be",
    ) {
        if pc.len() > 0 && pc[0] == '/' {
            proof {
                assert(pc@.skip(1) =~= pc@.drop_first());
            }
            match split_field_exec(&pc, 1, '/', 0) {
                Some(s) => if s.as_str().unicode_len() > 0 {
                    Some(s)
                } else {
                    None
                },
                None => None,
            }
        } else {
            None
        }
    } else if starts_with(path, "/watch") {
        first_value_exec(&parts.query, "v")
    } else if starts_with(path, "/shorts/") || starts_with(path, "/live/") || starts_with(
        path,
        "/embed/",
    ) {
        proof {
            assert(pc@.skip(0) =~= pc@);
        }
        match split_field_exec(&pc, 0, '/', 2) {
            Some(s) => if s.as_str().unicode_len() > 0 {
                Some(s)
            } else {
                None
            },
            None => None,
        }
    } else {
        None
    };
    assert(candidate matches Some(c) ==> id_candidate(parts@) == Some(c@));
    assert(candidate is None ==> id_candidate(parts@) is None);
    match candidate {
        None => Err(TranscriptError::InvalidUrl),
        Some(id) => VideoId::parse(id.as_str()),
    }
}

/// Extract and validate a YouTube video ID from any supported URL form:
/// `watch?v=`, `youtu.be/`, `/shorts/`, `/live/` and `/embed/`, with or
/// without a scheme, across the supported YouTube hosts.
pub fn extract_video_id(raw: &str) -> (r: Result<VideoId, TranscriptError>)
    ensures
        matches_spec(r, extracted(raw@)),
{
    let normalized: String = if starts_with(raw, "http://") || starts_with(raw, "https://") {
        string_of(raw)
    } else {
        let mut s = String::from_str("https://");
        push_str(&mut s, raw);
        s
    };
    match parse_url(normalized.as_str()) {
        None => Err(TranscriptError::InvalidUrl),
        Some(parts) => video_id_from_url_parts(&parts),
    }
}

/// Every documented YouTube host is accepted: a `/watch?v=` URL on any of
/// them yields its video ID.
pub proof fn law_documented_hosts_accepted(h: Seq<char>, id: Seq<char>)
    requires
        h == "youtube.com"@ || h == "www.youtube.com"@ || h == "m.youtube.com"@ || h
            == "youtube.co.uk"@ || h == "youtube.de"@ || h == "youtube.fr"@ || h == "youtube.jp"@
            || h == "youtube.ca"@ || h == "youtube.es"@ || h == "youtube.com.br"@ || h
            == "youtube.co.in"@ || h == "youtube.co.kr"@,
        is_valid_video_id(id),
    ensures
        id_from_parts(UrlPartsView { host: Some(h), path: "/watch"@, query: seq![("v"@, id)] })
            == Ok::<Seq<char>, TranscriptError>(id),
{
    reveal_strlit("youtube.com");
    reveal_strlit("www.youtube.com");
    reveal_strlit("m.youtube.com");
    reveal_strlit("youtube.co.uk");
    reveal_strlit("youtube.de");
    reveal_strlit("youtube.fr");
    reveal_strlit("youtube.jp");
    reveal_strlit("youtube.ca");
    reveal_strlit("youtube.es");
    reveal_strlit("youtube.com.br");
    reveal_strlit("youtube.co.in");
    reveal_strlit("youtube.co.kr");
    reveal_strlit("youtu.be");
    reveal_strlit("www.");
    reveal_strlit("/watch");
    reveal_strlit("v");
    let p = UrlPartsView { host: Some(h), path: "/watch"@, query: seq![("v"@, id)] };
    assert(h.len() != 8 && h.len() != 12);
    assert(h != "youtu.be"@);
    assert(bare_host(h).len() == h.len() || bare_host(h).len() == h.len() - 4);
    assert(bare_host(h) != "youtu.be"@);
    assert("/watch"@.is_prefix_of(p.path));
    assert(first_value(p.query, "v"@) == Some(id));
}

/// A short link `youtu.be/<id>` yields its video ID.
pub proof fn law_short_links_accepted(id: Seq<char>)
    requires
        is_valid_video_id(id),
    ensures
        id_from_parts(UrlPartsView { host: Some("youtu.be"@), path: "/"@ + id, query: seq![] })
            == Ok::<Seq<char>, TranscriptError>(id),
{
    reveal_strlit("youtu.be");
    reveal_strlit("/");
    let path = "/"@ + id;
    assert(path.drop_first() =~= id);
    assert forall|i: int| 0 <= i < id.len() implies id[i] != '/' by {
        assert(is_id_char(id[i]));
    }
    lemma_index_of_absent(id, '/');
    assert(id.take(id.len() as int) =~= id);
}

/// A character that does not occur is found at the end.
proof fn lemma_index_of_absent(s: Seq<char>, c: char)
    requires
        forall|i: int| 0 <= i < s.len() ==> s[i] != c,
    ensures
        index_of(s, c) == s.len(),
    decreases s.len(),
{
    if s.len() > 0 {
        assert forall|i: int| 0 <= i < s.drop_first().len() implies s.drop_first()[i] != c by {
            assert(s.drop_first()[i] == s[i + 1]);
        }
        lemma_index_of_absent(s.drop_first(), c);
    }
}

/// Shorts, live and embed URLs on a documented host yield the video ID that
/// follows the path prefix.
pub proof fn law_path_forms_accepted(h: Seq<char>, prefix: Seq<char>, id: Seq<char>)
    requires
        h == "youtube.com"@ || h == "www.youtube.com"@ || h == "m.youtube.com"@,
        prefix == "/shorts/"@ || prefix == "/live/"@ || prefix == "/embed/"@,
        is_valid_video_id(id),
    ensures
        id_from_parts(UrlPartsView { host: Some(h), path: prefix + id, query: seq![] })
            == Ok::<Seq<char>, TranscriptError>(id),
{
    reveal_strlit("youtube.com");
    reveal_strlit("www.youtube.com");
    reveal_strlit("m.youtube.com");
    reveal_strlit("youtu.be");
    reveal_strlit("www.");
    reveal_strlit("/watch");
    reveal_strlit("/shorts/");
    reveal_strlit("/live/");
    reveal_strlit("/embed/");
    let path = prefix + id;
    assert(h.len() != 8 && h.len() != 12);
    assert(h != "youtu.be"@);
    assert(bare_host(h).len() == h.len() || bare_host(h).len() == h.len() - 4);
    assert(bare_host(h) != "youtu.be"@);
    assert(path[1] != 'w');
    assert(!"/watch"@.is_prefix_of(path)) by {
        if "/watch"@.is_prefix_of(path) {
            assert(path[1] == "/watch"@[1]);
        }
    }
    assert(prefix.is_prefix_of(path)) by {
        assert(path.subrange(0, prefix.len() as int) =~= prefix);
    }
    assert forall|i: int| 0 <= i < id.len() implies id[i] != '/' by {
        assert(is_id_char(id[i]));
    }
    lemma_index_of_absent(id, '/');
    let word = prefix.subrange(1, prefix.len() - 1);
    assert(path.skip(1) =~= word + seq!['/'] + id);
    lemma_index_of_after(word, '/', id);
    assert((word + seq!['/'] + id).skip((word.len() + 1) as int) =~= id);
    assert(path.drop_first() =~= path.skip(1));
    assert(path.skip(0) =~= path);
    assert(path.take(0) =~= Seq::<char>::empty());
    assert(index_of(path, '/') == 0);
    assert(id.take(id.len() as int) =~= id);
    assert(split_field(id, '/', 0) == Some(id));
    assert(split_field(path.skip(1), '/', 1) == split_field(id, '/', 0));
    assert(split_field(path, '/', 2) == split_field(path.skip(1), '/', 1));
    let p = UrlPartsView { host: Some(h), path: path, query: seq![] };
    assert(id_candidate(p) == Some(id));
}

/// In `w + "/" + rest` with no `/` in `w`, the first `/` ends `w`.
proof fn lemma_index_of_after(w: Seq<char>, c: char, rest: Seq<char>)
    requires
        forall|i: int| 0 <= i < w.len() ==> w[i] != c,
    ensures
        index_of(w + seq![c] + rest, c) == w.len(),
    decreases w.len(),
{
    if w.len() > 0 {
        assert((w + seq![c] + rest).drop_first() =~= w.drop_first() + seq![c] + rest);
        assert forall|i: int| 0 <= i < w.drop_first().len() implies w.drop_first()[i] != c by {
            assert(w.drop_first()[i] == w[i + 1]);
        }
        lemma_index_of_after(w.drop_first(), c, rest);
    } else {
        assert((w + seq![c] + rest)[0] == c);
    }
}

} // verus!
