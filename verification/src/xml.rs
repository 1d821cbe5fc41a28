//! Turning a caption track (YouTube's timed-text XML) into plain text.
//!
//! `quick_xml` tokenises the document; this module decides which text
//! belongs to the transcript: the trimmed, non-empty text inside `<text>`
//! (legacy format) and `<p>` (Innertube format) elements, joined by spaces.
use quick_xml::events::Event;
use vstd::prelude::*;

use crate::error::{joined, views, TranscriptError};
use crate::text::{trim, trimmed};

verus! {

broadcast use vstd::string::group_string_axioms;

/// `quick_xml::Reader`, declared so that it can be held by verified code.
#[verifier::external_type_specification]
#[verifier::external_body]
#[verifier::reject_recursive_types(R)]
pub struct ExXmlReader<R>(quick_xml::Reader<R>);

/// One event of the XML token stream, reduced to plain values.
#[derive(Debug)]
pub enum XmlEvent {
    /// An opening tag, with its qualified name.
    Start(Vec<u8>),
    /// A closing tag, with its qualified name.
    End(Vec<u8>),
    /// Character data, after entity unescaping (or the unescaping error).
    Text(Result<String, String>),
    /// The end of the document.
    Eof,
    /// A syntax error, with its message.
    Failed(String),
    /// Anything else (declarations, comments, empty elements, ...).
    Other,
}

/// The view of an [`XmlEvent`].
pub enum XmlEventView {
    Start(Seq<u8>),
    End(Seq<u8>),
    Text(Result<Seq<char>, Seq<char>>),
    Eof,
    Failed(Seq<char>),
    Other,
}

impl View for XmlEvent {
    type V = XmlEventView;

    open spec fn view(&self) -> XmlEventView {
        match self {
            XmlEvent::Start(n) => XmlEventView::Start(n@),
            XmlEvent::End(n) => XmlEventView::End(n@),
            XmlEvent::Text(Ok(s)) => XmlEventView::Text(Ok(s@)),
            XmlEvent::Text(Err(m)) => XmlEventView::Text(Err(m@)),
            XmlEvent::Eof => XmlEventView::Eof,
            XmlEvent::Failed(m) => XmlEventView::Failed(m@),
            XmlEvent::Other => XmlEventView::Other,
        }
    }
}

/// Does the stream end here?
pub open spec fn is_terminal(e: XmlEventView) -> bool {
    e is Eof || e is Failed
}

/// A non-empty stream whose last event, and only its last, ends it.
pub open spec fn well_terminated(s: Seq<XmlEventView>) -> bool {
    &&& s.len() > 0
    &&& is_terminal(s.last())
    &&& forall|i: int| 0 <= i < s.len() - 1 ==> !is_terminal(#[trigger] s[i])
}

/// The events that `quick_xml` yields for `xml` (text trimming on), up to
/// and including the first end of document or error, with text unescaped.
pub uninterp spec fn xml_events(xml: Seq<char>) -> Seq<XmlEventView>;

/// The events a reader has yet to yield, up to and including the first end
/// of document or error.
pub uninterp spec fn pending_events(r: quick_xml::Reader<&[u8]>) -> Seq<XmlEventView>;

/// Calls `quick_xml::Reader::from_str` on `xml` and turns on
/// `Config::trim_text`. What the reader will yield is given the name
/// `xml_events`; the stream is claimed to be finite and to end with an end
/// of document or an error, as quick-xml's reader always does.
#[verifier::external_body]
fn open_reader(xml: &str) -> (r: quick_xml::Reader<&[u8]>)
    ensures
        pending_events(r) == xml_events(xml@),
        well_terminated(pending_events(r)),
{
    let mut r = quick_xml::Reader::from_str(xml);
    r.config_mut().trim_text(true);
    r
}

/// Calls `quick_xml::Reader::read_event_into` once and reduces the event to
/// plain values: tag names as bytes and text through `BytesText::unescape`.
/// The event is the first pending one. After an event that does not end the
/// stream it is removed; after an end of document or an error nothing is
/// claimed of what the reader holds (quick-xml goes on yielding `Eof`, or
/// goes on parsing after some errors).
#[verifier::external_body]
fn next_event(reader: &mut quick_xml::Reader<&[u8]>) -> (ev: XmlEvent)
    requires
        pending_events(*old(reader)).len() > 0,
    ensures
        ev@ == pending_events(*old(reader))[0],
        !is_terminal(ev@) ==> pending_events(*final(reader)) == pending_events(
            *old(reader),
        ).drop_first(),
{
    let mut buf = Vec::new();
    match reader.read_event_into(&mut buf) {
        Ok(Event::Start(e)) => XmlEvent::Start(e.name().as_ref().to_vec()),
        Ok(Event::End(e)) => XmlEvent::End(e.name().as_ref().to_vec()),
        Ok(Event::Text(e)) => XmlEvent::Text(
            e.unescape().map(|s| s.into_owned()).map_err(|e| e.to_string()),
        ),
        Ok(Event::Eof) => XmlEvent::Eof,
        Ok(_) => XmlEvent::Other,
        Err(e) => XmlEvent::Failed(e.to_string()),
    }
}

/// Is this tag name `p` or `text` (as ASCII bytes)?
pub open spec fn is_text_tag(name: Seq<u8>) -> bool {
    name == seq![112u8] || name == seq![116u8, 101u8, 120u8, 116u8]
}

/// What one event does to the text collected so far.
pub enum TextStep {
    /// Go on, now inside a text element or not, with these pieces.
    Continue { inside: bool, texts: Seq<Seq<char>> },
    /// Stop with this outcome (`Err` carries a parse error message).
    Stop(Result<Seq<char>, Seq<char>>),
}

/// The effect of one event, given whether we are inside a `<p>` or `<text>`
/// element and the pieces collected so far.
pub open spec fn text_step(ev: XmlEventView, inside: bool, texts: Seq<Seq<char>>) -> TextStep {
    match ev {
        XmlEventView::Start(n) => TextStep::Continue {
            inside: if is_text_tag(n) {
                true
            } else {
                inside
            },
            texts,
        },
        XmlEventView::Text(t) => if inside {
            match t {
                Ok(s) => {
                    let piece = trimmed(s);
                    TextStep::Continue {
                        inside,
                        texts: if piece.len() > 0 {
                            texts.push(piece)
                        } else {
                            texts
                        },
                    }
                },
                Err(m) => TextStep::Stop(Err(m)),
            }
        } else {
            TextStep::Continue { inside, texts }
        },
        XmlEventView::End(n) => TextStep::Continue {
            inside: if is_text_tag(n) {
                false
            } else {
                inside
            },
            texts,
        },
        XmlEventView::Eof => TextStep::Stop(Ok(joined(texts, " "@))),
        XmlEventView::Failed(m) => TextStep::Stop(Err(m)),
        XmlEventView::Other => TextStep::Continue { inside, texts },
    }
}

/// The transcript text collected from the remaining events, given whether we
/// are inside a text element and the pieces collected so far; `Err` carries
/// the message of a parse error. A stream that just stops behaves as if it
/// ended with the end of the document.
pub open spec fn collect_text(
    evs: Seq<XmlEventView>,
    inside: bool,
    texts: Seq<Seq<char>>,
) -> Result<Seq<char>, Seq<char>>
    decreases evs.len(),
{
    if evs.len() == 0 {
        Ok(joined(texts, " "@))
    } else {
        match text_step(evs[0], inside, texts) {
            TextStep::Continue { inside: i, texts: t } => collect_text(evs.drop_first(), i, t),
            TextStep::Stop(r) => r,
        }
    }
}

/// The transcript text of an event stream.
pub open spec fn transcript_text(evs: Seq<XmlEventView>) -> Result<Seq<char>, Seq<char>> {
    collect_text(evs, false, Seq::empty())
}

/// Is this tag name `p` or `text`?
fn is_text_tag_exec(name: &Vec<u8>) -> (r: bool)
    ensures
        r == is_text_tag(name@),
{
    if name.len() == 1 {
        let r = name[0] == 112u8;
        proof {
            if r {
                assert(name@ =~= seq![112u8]);
            }
        }
        r
    } else if name.len() == 4 {
        let r = name[0] == 116u8 && name[1] == 101u8 && name[2] == 120u8 && name[3] == 116u8;
        proof {
            if r {
                assert(name@ =~= seq![116u8, 101u8, 120u8, 116u8]);
            }
        }
        r
    } else {
        false
    }
}

/// Does an outcome agree with a collected result?
pub open spec fn outcome_matches(
    r: Result<String, TranscriptError>,
    s: Result<Seq<char>, Seq<char>>,
) -> bool {
    match r {
        Ok(t) => s == Ok::<Seq<char>, Seq<char>>(t@),
        Err(e) => e matches TranscriptError::Parse(m) && s == Err::<Seq<char>, Seq<char>>(m@),
    }
}

/// The transcript text being collected from a stream of XML events.
pub struct TextCollector {
    inside: bool,
    texts: Vec<String>,
}

impl TextCollector {
    /// Whether the collector is inside a text element.
    pub closed spec fn is_inside(&self) -> bool {
        self.inside
    }

    /// The pieces collected so far.
    pub closed spec fn pieces(&self) -> Seq<Seq<char>> {
        views(self.texts@)
    }

    /// A collector outside any element, with nothing collected.
    pub fn new() -> (r: TextCollector)
        ensures
            !r.is_inside(),
            r.pieces() == Seq::<Seq<char>>::empty(),
    {
        let r = TextCollector { inside: false, texts: Vec::new() };
        proof {
            assert(views(r.texts@) =~= Seq::<Seq<char>>::empty());
        }
        r
    }

    /// Take one event into account: `None` to go on, or the outcome.
    pub fn feed(&mut self, ev: XmlEvent) -> (r: Option<Result<String, TranscriptError>>)
        ensures
            match text_step(ev@, old(self).is_inside(), old(self).pieces()) {
                TextStep::Continue { inside, texts } => r is None && final(self).is_inside()
                    == inside && final(self).pieces() == texts,
                TextStep::Stop(s) => r matches Some(o) && outcome_matches(o, s),
            },
    {
        match ev {
            XmlEvent::Start(name) => {
                if is_text_tag_exec(&name) {
                    self.inside = true;
                }
                None
            },
            XmlEvent::Text(t) => {
                if self.inside {
                    match t {
                        Ok(s) => {
                            let piece = trim(s.as_str());
                            if piece.as_str().unicode_len() > 0 {
                                let ghost old_texts = self.texts@;
                                self.texts.push(piece);
                                proof {
                                    assert(views(self.texts@) =~= views(old_texts).push(piece@));
                                }
                            }
                            None
                        },
                        Err(m) => Some(Err(TranscriptError::Parse(m))),
                    }
                } else {
                    None
                }
            },
            XmlEvent::End(name) => {
                if is_text_tag_exec(&name) {
                    self.inside = false;
                }
                None
            },
            XmlEvent::Eof => Some(Ok(crate::error::join(&self.texts, " "))),
            XmlEvent::Failed(m) => Some(Err(TranscriptError::Parse(m))),
            XmlEvent::Other => None,
        }
    }

    /// The outcome when the events run out without an end of document.
    pub fn finish(&self) -> (r: String)
        ensures
            r@ == joined(self.pieces(), " "@),
    {
        crate::error::join(&self.texts, " ")
    }
}

/// The views of a list of events.
pub open spec fn event_views(evs: Seq<XmlEvent>) -> Seq<XmlEventView> {
    evs.map_values(|e: XmlEvent| e@)
}

/// The transcript text of a list of XML events.
pub fn transcript_from_events(events: Vec<XmlEvent>) -> (r: Result<String, TranscriptError>)
    ensures
        outcome_matches(r, transcript_text(event_views(events@))),
{
    let ghost all = event_views(events@);
    let mut collector = TextCollector::new();
    let mut rest = events;
    let ghost mut k: int = 0;
    proof {
        assert(all.skip(0) =~= all);
    }
    while rest.len() > 0
        invariant
            0 <= k <= all.len(),
            all == event_views(events@),
            event_views(rest@) == all.skip(k),
            transcript_text(all) == collect_text(all.skip(k), collector.is_inside(), collector.pieces()),
        decreases rest@.len(),
    {
        let ghost cur = all.skip(k);
        let ghost ins = collector.is_inside();
        let ghost pcs = collector.pieces();
        let ev = rest.remove(0);
        let ghost evv = ev@;
        proof {
            assert(all.skip(k)[0] == ev@);
            assert(all.skip(k).drop_first() =~= all.skip(k + 1));
            assert(event_views(rest@) =~= all.skip(k + 1));
            k = k + 1;
        }
        if let Some(outcome) = collector.feed(ev) {
            proof {
                assert(cur.len() > 0 && cur[0] == evv);
                assert(transcript_text(all) == collect_text(cur, ins, pcs));
                assert(text_step(evv, ins, pcs) is Stop);
            }
            return outcome;
        }
    }
    Ok(collector.finish())
}

/// Parse a YouTube transcript XML document into a single plain-text string.
///
/// Handles both `<text>` elements (legacy format) and `<p>` elements
/// (Innertube format); entities are unescaped by `quick_xml`. Fails with a
/// `Parse` error when the XML is malformed.
pub fn parse_transcript_xml(xml: &str) -> (r: Result<String, TranscriptError>)
    ensures
        outcome_matches(r, transcript_text(xml_events(xml@))),
{
    let mut reader = open_reader(xml);
    let mut collector = TextCollector::new();
    loop
        invariant
            well_terminated(pending_events(reader)),
            transcript_text(xml_events(xml@)) == collect_text(
                pending_events(reader),
                collector.is_inside(),
                collector.pieces(),
            ),
        decreases pending_events(reader).len(),
    {
        let ghost before = pending_events(reader);
        let ev = next_event(&mut reader);
        proof {
            if !is_terminal(ev@) {
                assert(before.drop_first() =~= pending_events(reader));
                assert(before.len() > 1);
                assert forall|i: int| 0 <= i < pending_events(reader).len() - 1 implies !is_terminal(
                    #[trigger] pending_events(reader)[i],
                ) by {
                    assert(pending_events(reader)[i] == before[i + 1]);
                }
                assert(pending_events(reader).last() == before.last());
            }
        }
        if let Some(outcome) = collector.feed(ev) {
            return outcome;
        }
    }
}

/// Closing an element other than `<p>` or `<text>` does not leave the
/// caption element: the words of a cue split over child elements (such as
/// the `<s>` words of auto-generated captions) are all kept, joined by a space.
pub proof fn law_inner_elements_keep_the_cue_open(
    outer: Seq<u8>,
    inner: Seq<u8>,
    a: Seq<char>,
    b: Seq<char>,
)
    requires
        outer == seq![112u8] || outer == seq![116u8, 101u8, 120u8, 116u8],
        inner != seq![112u8],
        inner != seq![116u8, 101u8, 120u8, 116u8],
        trimmed(a).len() > 0,
        trimmed(b).len() > 0,
    ensures
        transcript_text(
            seq![
                XmlEventView::Start(outer),
                XmlEventView::Start(inner),
                XmlEventView::Text(Ok(a)),
                XmlEventView::End(inner),
                XmlEventView::Text(Ok(b)),
                XmlEventView::End(outer),
                XmlEventView::Eof,
            ],
        ) == Ok::<Seq<char>, Seq<char>>(trimmed(a) + " "@ + trimmed(b)),
{
    let evs = seq![
        XmlEventView::Start(outer),
        XmlEventView::Start(inner),
        XmlEventView::Text(Ok(a)),
        XmlEventView::End(inner),
        XmlEventView::Text(Ok(b)),
        XmlEventView::End(outer),
        XmlEventView::Eof,
    ];
    let one = seq![trimmed(a)];
    let two = seq![trimmed(a), trimmed(b)];
    assert(two.drop_last() =~= one);
    assert(joined(one, " "@) == trimmed(a));
    assert(joined(two, " "@) == trimmed(a) + " "@ + trimmed(b));
    assert(Seq::<Seq<char>>::empty().push(trimmed(a)) =~= one);
    assert(one.push(trimmed(b)) =~= two);
    assert(collect_text(evs.skip(6), false, two) == Ok::<Seq<char>, Seq<char>>(joined(two, " "@)));
    assert(evs.skip(5).drop_first() =~= evs.skip(6));
    assert(collect_text(evs.skip(5), true, two) == collect_text(evs.skip(6), false, two));
    assert(evs.skip(4).drop_first() =~= evs.skip(5));
    assert(collect_text(evs.skip(4), true, one) == collect_text(evs.skip(5), true, two));
    assert(evs.skip(3).drop_first() =~= evs.skip(4));
    assert(collect_text(evs.skip(3), true, one) == collect_text(evs.skip(4), true, one));
    assert(evs.skip(2).drop_first() =~= evs.skip(3));
    assert(collect_text(evs.skip(2), true, Seq::empty()) == collect_text(evs.skip(3), true, one));
    assert(evs.skip(1).drop_first() =~= evs.skip(2));
    assert(collect_text(evs.skip(1), true, Seq::empty()) == collect_text(
        evs.skip(2),
        true,
        Seq::empty(),
    ));
    assert(evs.drop_first() =~= evs.skip(1));
}

/// Only text inside `<p>` or `<text>` is kept: text before the caption
/// element, inside other elements, after it is closed, or blank, is left out.
pub proof fn law_only_caption_text_is_kept(
    outer: Seq<u8>,
    other: Seq<u8>,
    a: Seq<char>,
    b: Seq<char>,
    c: Seq<char>,
    blank: Seq<char>,
)
    requires
        outer == seq![112u8] || outer == seq![116u8, 101u8, 120u8, 116u8],
        other != seq![112u8],
        other != seq![116u8, 101u8, 120u8, 116u8],
        trimmed(blank).len() == 0,
    ensures
        transcript_text(
            seq![
                XmlEventView::Start(other),
                XmlEventView::Text(Ok(a)),
                XmlEventView::End(other),
                XmlEventView::Start(outer),
                XmlEventView::Text(Ok(blank)),
                XmlEventView::Text(Ok(b)),
                XmlEventView::End(outer),
                XmlEventView::Text(Ok(c)),
                XmlEventView::Eof,
            ],
        ) == Ok::<Seq<char>, Seq<char>>(trimmed(b)),
{
    let evs = seq![
        XmlEventView::Start(other),
        XmlEventView::Text(Ok(a)),
        XmlEventView::End(other),
        XmlEventView::Start(outer),
        XmlEventView::Text(Ok(blank)),
        XmlEventView::Text(Ok(b)),
        XmlEventView::End(outer),
        XmlEventView::Text(Ok(c)),
        XmlEventView::Eof,
    ];
    let e = Seq::<Seq<char>>::empty();
    let kept = if trimmed(b).len() > 0 {
        seq![trimmed(b)]
    } else {
        e
    };
    assert(joined(kept, " "@) == trimmed(b)) by {
        if trimmed(b).len() == 0 {
            assert(trimmed(b) =~= Seq::<char>::empty());
        }
    }
    assert(e.push(trimmed(b)) =~= seq![trimmed(b)]);
    assert(evs.skip(8).drop_first() =~= evs.skip(9));
    assert(evs.skip(8)[0] == XmlEventView::Eof);
    assert(collect_text(evs.skip(8), false, kept) == Ok::<Seq<char>, Seq<char>>(joined(kept, " "@)));
    assert(evs.skip(7).drop_first() =~= evs.skip(8));
    assert(collect_text(evs.skip(7), false, kept) == Ok::<Seq<char>, Seq<char>>(joined(kept, " "@)));
    assert(evs.skip(6).drop_first() =~= evs.skip(7));
    assert(collect_text(evs.skip(6), true, kept) == collect_text(evs.skip(7), false, kept));
    assert(evs.skip(5).drop_first() =~= evs.skip(6));
    assert(collect_text(evs.skip(5), true, e) == collect_text(evs.skip(6), true, kept));
    assert(evs.skip(4).drop_first() =~= evs.skip(5));
    assert(collect_text(evs.skip(4), true, e) == collect_text(evs.skip(5), true, e));
    assert(evs.skip(3).drop_first() =~= evs.skip(4));
    assert(collect_text(evs.skip(3), false, e) == collect_text(evs.skip(4), true, e));
    assert(evs.skip(2).drop_first() =~= evs.skip(3));
    assert(collect_text(evs.skip(2), false, e) == collect_text(evs.skip(3), false, e));
    assert(evs.skip(1).drop_first() =~= evs.skip(2));
    assert(collect_text(evs.skip(1), false, e) == collect_text(evs.skip(2), false, e));
    assert(evs.drop_first() =~= evs.skip(1));
}

} // verus!
