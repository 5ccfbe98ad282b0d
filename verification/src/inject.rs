//! The TOC injector: the whole per-document transform.  It scans the parsed
//! document for the marker and the headings after it, renders the TOC,
//! parses that rendering into events of its own, splices them in place of
//! the marker, and serializes the result back to markdown text.

use vstd::prelude::*;
use vstd::string::StringExecFns;

use crate::boundary::{parse_doc, parsed_events_of, parsed_of, serialize_events, serialized_of};
use crate::builder::{build_toc, toc_text};
use crate::events::{kinds_of, wf_kind, MdEvent};
use crate::scan::{collected, entry_views, lemma_levels_positive, scan_headings};
use crate::splice::{splice_events, splice_fold};

verus! {

/// The transform's one failure: the final event-to-text rendering could not
/// complete.  It keeps the renderer's own account of what went wrong.  Every
/// other condition (no marker, no headings, only deep headings) is a valid
/// outcome, never an error.
#[derive(Debug)]
pub enum TocError {
    Serialization(String),
}

impl TocError {
    /// A descriptive message for the host pipeline: a fixed prefix, then
    /// the renderer's own account.
    pub fn message(&self) -> (r: String)
        ensures
            self matches TocError::Serialization(d) ==> r@ == "Markdown serialization failed: "@
                + d@,
    {
        match self {
            TocError::Serialization(detail) => {
                let mut m: String = "Markdown serialization failed: ".to_owned();
                m.append(detail.as_str());
                m
            },
        }
    }
}

/// Transforms one document: replaces every marker with a table of contents
/// generated from the level-1 and level-2 headings after the first marker,
/// and returns the re-serialized text.  The output is the serialization of
/// the document's parsed events with every marker replaced by the parsed
/// events of the rendered TOC; serialization cannot fail, so the transform
/// always succeeds.
pub fn add_toc(content: &str) -> (r: Result<String, TocError>)
    ensures
        r is Ok,
        r matches Ok(s) ==> exists|toc: Seq<MdEvent>|
            #[trigger] kinds_of(toc) == parsed_events_of(
                toc_text(collected(parsed_events_of(content@))),
            ) && s@ == serialized_of(splice_fold(parsed_of(content), toc)),
{
    let doc = parse_doc(content);
    let entries = scan_headings(&doc);
    proof {
        let ks = kinds_of(doc@);
        assert forall|j: int| 0 <= j < ks.len() implies wf_kind(#[trigger] ks[j]) by {
            assert(ks[j] == doc@[j].kind);
        }
        lemma_levels_positive(ks);
        assert forall|i: int| 0 <= i < entries@.len() implies (#[trigger] entries@[i]).level
            >= 1 by {
            assert(entry_views(entries@)[i] == (entries@[i].level, entries@[i].label@));
            assert(entry_views(entries@)[i] == collected(ks)[i]);
        }
    }
    let rendered = build_toc(&entries);
    let toc_doc = parse_doc(rendered.as_str());
    let spliced = splice_events(&doc, &toc_doc);
    let r = serialize_events(&spliced);
    proof {
        assert(rendered@ == toc_text(collected(parsed_events_of(content@))));
        assert(kinds_of(toc_doc@) == parsed_events_of(
            toc_text(collected(parsed_events_of(content@))),
        ));
        assert(spliced@ == splice_fold(parsed_of(content), toc_doc@));
        if let Ok(s) = &r {
            assert(s@ == serialized_of(splice_fold(parsed_of(content), toc_doc@)));
            assert(exists|toc: Seq<MdEvent>|
                #[trigger] kinds_of(toc) == parsed_events_of(
                    toc_text(collected(parsed_events_of(content@))),
                ) && s@ == serialized_of(splice_fold(parsed_of(content), toc)));
        }
    }
    r
}

} // verus!
