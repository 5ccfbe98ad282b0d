//! The event model: what the transform reads of each markdown structural
//! event, next to the event itself, which is carried through untouched.

use vstd::prelude::*;

use crate::boundary::clone_raw_event;

verus! {

/// The text of the marker: a raw HTML comment line, exactly this, activates
/// TOC generation at its position in the document.
pub open spec fn sentinel() -> Seq<char> {
    "<!-- toc -->\n"@
}

/// What the transform reads of one markdown structural event.
pub enum EventKind {
    /// Start of a heading, with its level.
    HeadingStart(u8),
    /// End of a heading.
    HeadingEnd,
    /// A plain text run.
    Text(String),
    /// A raw-markup node, with its literal text.
    Html(String),
    /// Any other structural event; passed through unchanged.
    Other,
}

/// A raw-markup event whose literal text equals the sentinel is the marker.
pub open spec fn is_marker(k: EventKind) -> bool {
    match k {
        EventKind::Html(s) => s@ == sentinel(),
        _ => false,
    }
}

/// A heading level as the parser hands it out: always between 1 and 6.
pub open spec fn wf_kind(k: EventKind) -> bool {
    match k {
        EventKind::HeadingStart(l) => 1 <= l <= 6,
        _ => true,
    }
}

/// One parsed event: its classification, and the parser's own event, kept
/// whole so that serialization reproduces everything the classification
/// does not model.
pub struct MdEvent<'a> {
    pub kind: EventKind,
    pub raw: pulldown_cmark::Event<'a>,
}

/// The classifications of a sequence of events.
pub open spec fn kinds_of<'a>(s: Seq<MdEvent<'a>>) -> Seq<EventKind> {
    s.map_values(|e: MdEvent<'a>| e.kind)
}

/// An exact copy of a classification.
pub fn dup_kind(k: &EventKind) -> (r: EventKind)
    ensures
        r == *k,
{
    match k {
        EventKind::HeadingStart(l) => EventKind::HeadingStart(*l),
        EventKind::HeadingEnd => EventKind::HeadingEnd,
        EventKind::Text(s) => EventKind::Text(s.clone()),
        EventKind::Html(s) => EventKind::Html(s.clone()),
        EventKind::Other => EventKind::Other,
    }
}

/// An exact copy of a parsed event.
pub fn dup_event<'a>(e: &MdEvent<'a>) -> (r: MdEvent<'a>)
    ensures
        r == *e,
{
    MdEvent { kind: dup_kind(&e.kind), raw: clone_raw_event(&e.raw) }
}

} // verus!
