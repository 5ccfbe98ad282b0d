//! The marker scanner: one pass over the event sequence that finds the
//! marker and collects the headings of level 1 and 2 that follow it.

use vstd::prelude::*;

use crate::events::{is_marker, kinds_of, sentinel, wf_kind, EventKind, MdEvent};

verus! {

/// One collected heading: its level and its label text.
pub struct HeadingEntry {
    pub level: u8,
    pub label: String,
}

/// The (level, label) pairs of a sequence of collected headings.
pub open spec fn entry_views(s: Seq<HeadingEntry>) -> Seq<(u8, Seq<char>)> {
    s.map_values(|e: HeadingEntry| (e.level, e.label@))
}

/// The scanner's state: whether the marker has been seen, the level of the
/// heading currently open for collection, and what was collected so far.
pub struct ScanState {
    pub found: bool,
    pub cur: Option<u8>,
    pub entries: Seq<(u8, Seq<char>)>,
}

pub open spec fn scan_init() -> ScanState {
    ScanState { found: false, cur: None, entries: Seq::empty() }
}

/// One step of the scanner.  A raw-markup event equal to the sentinel flips
/// `found` and is never itself collected.  Before the marker everything else
/// is ignored.  After it, a heading start of level 1 or 2 opens collection
/// at that level, a deeper one leaves it closed, a heading end closes it,
/// and a text run while collection is open becomes one entry.
pub open spec fn scan_step(st: ScanState, k: EventKind) -> ScanState {
    match k {
        EventKind::Html(s) => ScanState { found: st.found || s@ == sentinel(), ..st },
        _ => if !st.found {
            st
        } else {
            match k {
                EventKind::HeadingStart(l) => ScanState {
                    cur: if l < 3 {
                        Some(l)
                    } else {
                        None
                    },
                    ..st
                },
                EventKind::HeadingEnd => ScanState { cur: None, ..st },
                EventKind::Text(t) => match st.cur {
                    Some(l) => ScanState { entries: st.entries.push((l, t@)), ..st },
                    None => st,
                },
                _ => st,
            }
        },
    }
}

/// The scanner's state after a whole event sequence.
pub open spec fn scan_fold(ks: Seq<EventKind>) -> ScanState
    decreases ks.len(),
{
    if ks.len() == 0 {
        scan_init()
    } else {
        scan_step(scan_fold(ks.drop_last()), ks.last())
    }
}

/// The headings a document's event sequence contributes to the TOC.
pub open spec fn collected(ks: Seq<EventKind>) -> Seq<(u8, Seq<char>)> {
    scan_fold(ks).entries
}

/// Depth filtering: whatever the input, no collected entry has a level of
/// 3 or more, because only heading starts of level 1 or 2 open collection.
pub proof fn lemma_depth_filter(ks: Seq<EventKind>)
    ensures
        scan_fold(ks).cur matches Some(l) ==> l < 3,
        forall|i: int| 0 <= i < collected(ks).len() ==> (#[trigger] collected(ks)[i]).0 < 3,
    decreases ks.len(),
{
    if ks.len() > 0 {
        lemma_depth_filter(ks.drop_last());
        let st = scan_fold(ks.drop_last());
        assert forall|i: int| 0 <= i < collected(ks).len() implies (#[trigger] collected(
            ks,
        )[i]).0 < 3 by {
            assert(collected(ks) == scan_step(st, ks.last()).entries);
            if i < st.entries.len() {
                assert(collected(ks)[i] == st.entries[i]);
                assert(st.entries[i] == collected(ks.drop_last())[i]);
                assert((collected(ks)[i]).0 < 3);
            } else {
                match ks.last() {
                    EventKind::Text(t) => match st.cur {
                        Some(l) => {
                            assert(collected(ks) == st.entries.push((l, t@)));
                            assert(collected(ks)[i] == (l, t@));
                            assert(l < 3);
                            assert((collected(ks)[i]).0 < 3);
                        },
                        None => {
                            assert((collected(ks)[i]).0 < 3);
                        },
                    },
                    _ => {
                        assert((collected(ks)[i]).0 < 3);
                    },
                }
            }
        }
    }
}

/// Absence of the marker is not an error: scanning a sequence in which no
/// event is the marker finds nothing and collects nothing.
pub proof fn lemma_no_marker_no_entries(ks: Seq<EventKind>)
    requires
        forall|i: int| 0 <= i < ks.len() ==> !is_marker(#[trigger] ks[i]),
    ensures
        !scan_fold(ks).found,
        collected(ks) == Seq::<(u8, Seq<char>)>::empty(),
    decreases ks.len(),
{
    if ks.len() > 0 {
        assert(forall|i: int| 0 <= i < ks.drop_last().len() ==> !is_marker(
            #[trigger] ks.drop_last()[i],
        ));
        lemma_no_marker_no_entries(ks.drop_last());
        assert(!is_marker(ks.last()));
    }
}

/// Levels are positive: when every heading start carries a level of at least
/// 1 (as the parser guarantees), so does every collected entry.
pub proof fn lemma_levels_positive(ks: Seq<EventKind>)
    requires
        forall|j: int| 0 <= j < ks.len() ==> wf_kind(#[trigger] ks[j]),
    ensures
        scan_fold(ks).cur matches Some(l) ==> l >= 1,
        forall|i: int| 0 <= i < collected(ks).len() ==> (#[trigger] collected(ks)[i]).0 >= 1,
    decreases ks.len(),
{
    if ks.len() > 0 {
        assert(forall|j: int| 0 <= j < ks.drop_last().len() ==> wf_kind(
            #[trigger] ks.drop_last()[j],
        ));
        lemma_levels_positive(ks.drop_last());
        assert(wf_kind(ks.last()));
        let st = scan_fold(ks.drop_last());
        assert forall|i: int| 0 <= i < collected(ks).len() implies (#[trigger] collected(
            ks,
        )[i]).0 >= 1 by {
            assert(collected(ks) == scan_step(st, ks.last()).entries);
            if i < st.entries.len() {
                assert(collected(ks)[i] == st.entries[i]);
                assert(st.entries[i] == collected(ks.drop_last())[i]);
                assert((collected(ks)[i]).0 >= 1);
            } else {
                match ks.last() {
                    EventKind::Text(t) => match st.cur {
                        Some(l) => {
                            assert(collected(ks) == st.entries.push((l, t@)));
                            assert(collected(ks)[i] == (l, t@));
                            assert(l >= 1);
                            assert((collected(ks)[i]).0 >= 1);
                        },
                        None => {
                            assert((collected(ks)[i]).0 >= 1);
                        },
                    },
                    _ => {
                        assert((collected(ks)[i]).0 >= 1);
                    },
                }
            }
        }
    }
}

/// Runs the scanner over a parsed document and returns the collected
/// headings, in document order.
pub fn scan_headings<'a>(doc: &Vec<MdEvent<'a>>) -> (r: Vec<HeadingEntry>)
    ensures
        entry_views(r@) == collected(kinds_of(doc@)),
{
    let sent: String = "<!-- toc -->\n".to_owned();
    let mut found = false;
    let mut cur: Option<u8> = None;
    let mut out: Vec<HeadingEntry> = Vec::new();
    let ghost ks = kinds_of(doc@);
    let mut i: usize = 0;
    while i < doc.len()
        invariant
            0 <= i <= doc.len(),
            ks == kinds_of(doc@),
            ks.len() == doc@.len(),
            sent@ == sentinel(),
            found == scan_fold(ks.take(i as int)).found,
            cur == scan_fold(ks.take(i as int)).cur,
            entry_views(out@) == scan_fold(ks.take(i as int)).entries,
        decreases doc.len() - i,
    {
        proof {
            assert(ks.take(i + 1).drop_last() =~= ks.take(i as int));
            assert(ks.take(i + 1).last() == ks[i as int]);
            assert(ks[i as int] == doc@[i as int].kind);
        }
        match &doc[i].kind {
            EventKind::Html(s) => {
                if *s == sent {
                    found = true;
                }
            },
            EventKind::HeadingStart(l) => {
                if found {
                    if *l < 3 {
                        cur = Some(*l);
                    } else {
                        cur = None;
                    }
                }
            },
            EventKind::HeadingEnd => {
                if found {
                    cur = None;
                }
            },
            EventKind::Text(t) => {
                if found {
                    match cur {
                        Some(l) => {
                            out.push(HeadingEntry { level: l, label: t.clone() });
                            proof {
                                assert(entry_views(out@) =~= scan_fold(
                                    ks.take(i + 1),
                                ).entries);
                            }
                        },
                        None => {},
                    }
                }
            },
            EventKind::Other => {},
        }
        i += 1;
    }
    proof {
        assert(ks.take(doc@.len() as int) =~= ks);
    }
    out
}

} // verus!
