//! The substitution pass: every marker event is replaced by the full TOC
//! event sequence, one-to-many; every other event passes through unchanged,
//! in order.

use vstd::prelude::*;

use crate::events::{dup_event, is_marker, sentinel, EventKind, MdEvent};

verus! {

/// No event of the sequence is the marker.
pub open spec fn marker_free<'a>(s: Seq<MdEvent<'a>>) -> bool {
    forall|i: int| 0 <= i < s.len() ==> !is_marker((#[trigger] s[i]).kind)
}

/// The spliced sequence: `doc` with every marker event replaced by the whole
/// of `toc`, and everything else kept in place.
pub open spec fn splice_fold<'a>(doc: Seq<MdEvent<'a>>, toc: Seq<MdEvent<'a>>) -> Seq<
    MdEvent<'a>,
>
    decreases doc.len(),
{
    if doc.len() == 0 {
        Seq::empty()
    } else {
        splice_fold(doc.drop_last(), toc) + (if is_marker(doc.last().kind) {
            toc
        } else {
            seq![doc.last()]
        })
    }
}

/// A document without the marker passes through the substitution unchanged.
pub proof fn lemma_splice_without_marker<'a>(doc: Seq<MdEvent<'a>>, toc: Seq<MdEvent<'a>>)
    requires
        marker_free(doc),
    ensures
        splice_fold(doc, toc) == doc,
    decreases doc.len(),
{
    if doc.len() == 0 {
        assert(splice_fold(doc, toc) =~= doc);
    } else {
        assert(marker_free(doc.drop_last())) by {
            assert(forall|i: int| 0 <= i < doc.drop_last().len() ==> doc.drop_last()[i]
                == doc[i]);
        }
        lemma_splice_without_marker(doc.drop_last(), toc);
        assert(!is_marker(doc.last().kind));
        assert(splice_fold(doc, toc) =~= doc);
    }
}

/// Marker consumption: when the TOC events hold no marker themselves, none
/// is left anywhere in the spliced sequence.
pub proof fn lemma_splice_consumes_marker<'a>(doc: Seq<MdEvent<'a>>, toc: Seq<MdEvent<'a>>)
    requires
        marker_free(toc),
    ensures
        marker_free(splice_fold(doc, toc)),
    decreases doc.len(),
{
    if doc.len() > 0 {
        lemma_splice_consumes_marker(doc.drop_last(), toc);
        let prefix = splice_fold(doc.drop_last(), toc);
        let whole = splice_fold(doc, toc);
        assert forall|i: int| 0 <= i < whole.len() implies !is_marker(
            (#[trigger] whole[i]).kind,
        ) by {
            if i < prefix.len() {
                assert(whole[i] == prefix[i]);
            } else if is_marker(doc.last().kind) {
                assert(whole[i] == toc[i - prefix.len()]);
            } else {
                assert(whole[i] == doc.last());
            }
        }
    }
}

/// The substitution stabilizes: splicing a marker-free TOC leaves a sequence
/// on which any further substitution is the identity.
pub proof fn lemma_splice_stable<'a>(
    doc: Seq<MdEvent<'a>>,
    toc: Seq<MdEvent<'a>>,
    toc2: Seq<MdEvent<'a>>,
)
    requires
        marker_free(toc),
    ensures
        splice_fold(splice_fold(doc, toc), toc2) == splice_fold(doc, toc),
{
    lemma_splice_consumes_marker(doc, toc);
    lemma_splice_without_marker(splice_fold(doc, toc), toc2);
}

/// Replaces every marker event of `doc` by the whole of `toc`.
pub fn splice_events<'a>(doc: &Vec<MdEvent<'a>>, toc: &Vec<MdEvent<'a>>) -> (r: Vec<
    MdEvent<'a>,
>)
    ensures
        r@ == splice_fold(doc@, toc@),
{
    let sent: String = "<!-- toc -->\n".to_owned();
    let mut out: Vec<MdEvent<'a>> = Vec::new();
    let mut i: usize = 0;
    while i < doc.len()
        invariant
            0 <= i <= doc@.len(),
            sent@ == sentinel(),
            out@ == splice_fold(doc@.take(i as int), toc@),
        decreases doc@.len() - i,
    {
        proof {
            assert(doc@.take(i + 1).drop_last() =~= doc@.take(i as int));
            assert(doc@.take(i + 1).last() == doc@[i as int]);
        }
        let marker = match &doc[i].kind {
            EventKind::Html(s) => *s == sent,
            _ => false,
        };
        if marker {
            let ghost before = out@;
            let mut j: usize = 0;
            while j < toc.len()
                invariant
                    0 <= j <= toc@.len(),
                    out@ == before + toc@.take(j as int),
                decreases toc@.len() - j,
            {
                out.push(dup_event(&toc[j]));
                proof {
                    assert(out@ =~= before + toc@.take(j + 1));
                }
                j = j + 1;
            }
            proof {
                assert(toc@.take(toc@.len() as int) =~= toc@);
                assert(out@ =~= splice_fold(doc@.take(i + 1), toc@));
            }
        } else {
            out.push(dup_event(&doc[i]));
            proof {
                assert(out@ =~= splice_fold(doc@.take(i + 1), toc@));
            }
        }
        i = i + 1;
    }
    proof {
        assert(doc@.take(doc@.len() as int) =~= doc@);
    }
    out
}

} // verus!
