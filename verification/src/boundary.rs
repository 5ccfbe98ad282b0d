//! The trusted boundary: declarations and wrappers for the markdown parser,
//! the markdown serializer and the anchor-slug normalizer.  Everything else
//! in this crate is verified against the contracts stated here.

use vstd::prelude::*;

use crate::events::{kinds_of, wf_kind, EventKind, MdEvent};
use crate::inject::TocError;

verus! {

#[verifier::external_type_specification]
#[verifier::external_body]
pub struct ExEvent<'a>(pulldown_cmark::Event<'a>);

/// Relies on pulldown_cmark::Event's derived Clone: the clone equals the
/// original event.
#[verifier::external_body]
pub(crate) fn clone_raw_event<'a>(e: &pulldown_cmark::Event<'a>) -> (r: pulldown_cmark::Event<'a>)
    ensures
        r == *e,
{
    e.clone()
}

/// The classifications of the events that the markdown parser yields for a
/// text.  Parsing is a pure function of the text alone, so the sequence has
/// a name; what it is on a given text is settled only by running the parser.
pub uninterp spec fn parsed_events_of(text: Seq<char>) -> Seq<EventKind>;

/// The parsed events themselves, classification and raw event both, named
/// over the source text.
pub uninterp spec fn parsed_of(text: &str) -> Seq<MdEvent>;

/// Relies on pulldown_cmark::Parser: it turns markdown text into a finite
/// sequence of structural events, a pure function of the text.  Each event
/// is kept whole in `raw` and classified into `kind`, one arm per variant;
/// heading levels come from pulldown_cmark::HeadingLevel, whose six variants
/// stand for the levels 1 through 6.
#[verifier::external_body]
pub(crate) fn parse_doc<'a>(text: &'a str) -> (r: Vec<MdEvent<'a>>)
    ensures
        r@ == parsed_of(text),
        kinds_of(r@) == parsed_events_of(text@),
        forall|i: int| 0 <= i < r@.len() ==> wf_kind(r@[i].kind),
{
    let mut v = Vec::new();
    for e in pulldown_cmark::Parser::new(text) {
        let kind = match &e {
            pulldown_cmark::Event::Start(pulldown_cmark::Tag::Heading(l, _, _)) => {
                EventKind::HeadingStart(*l as u8)
            },
            pulldown_cmark::Event::End(pulldown_cmark::Tag::Heading(..)) => EventKind::HeadingEnd,
            pulldown_cmark::Event::Text(t) => EventKind::Text(t.to_string()),
            pulldown_cmark::Event::Html(t) => EventKind::Html(t.to_string()),
            _ => EventKind::Other,
        };
        v.push(MdEvent { kind, raw: e });
    }
    v
}

/// The markdown text that the serializer renders for an event sequence: a
/// pure function of the events alone.
pub uninterp spec fn serialized_of(events: Seq<MdEvent>) -> Seq<char>;

/// Relies on pulldown_cmark_to_cmark::cmark: it writes the event sequence
/// back out as canonical markdown text, a pure function of the events, so
/// the text is named.  Its only error source is the formatter it writes to,
/// and writing to a String cannot fail, so the call returns Ok on every
/// event sequence; the error arm stands only to keep the error's text were
/// the serializer ever to gain a failure of its own.
#[verifier::external_body]
pub(crate) fn serialize_events<'a>(events: &Vec<MdEvent<'a>>) -> (r: Result<String, TocError>)
    ensures
        r is Ok,
        r matches Ok(s) ==> s@ == serialized_of(events@),
{
    let mut buf = String::new();
    match pulldown_cmark_to_cmark::cmark(events.iter().map(|e| &e.raw), &mut buf) {
        Ok(_) => Ok(buf),
        Err(e) => Err(TocError::Serialization(e.to_string())),
    }
}

/// The anchor slug that the renderer derives from a heading's label text: a
/// pure function of the label alone.
pub uninterp spec fn slug_of(label: Seq<char>) -> Seq<char>;

/// Relies on mdbook::utils::normalize_id: it maps heading text to the anchor
/// identifier the renderer assigns to that heading, a pure function of the
/// text alone.
#[verifier::external_body]
pub(crate) fn normalize_id(label: &str) -> (r: String)
    ensures
        r@ == slug_of(label@),
{
    mdbook::utils::normalize_id(label)
}

} // verus!
