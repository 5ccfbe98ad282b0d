//! The TOC builder: renders collected headings as nested markdown list
//! source text, one link line per heading.

use vstd::prelude::*;
use vstd::string::StringExecFns;

use crate::boundary::{normalize_id, slug_of};
use crate::scan::{entry_views, HeadingEntry};

verus! {

/// The indentation of an entry: two spaces per level beyond the first.
pub open spec fn indent_width(level: u8) -> nat {
    if level >= 1 {
        (2 * (level - 1)) as nat
    } else {
        0
    }
}

/// One rendered TOC line: indentation, then a markdown link whose text is
/// the heading's label and whose fragment is the label's slug.
pub open spec fn entry_line(level: u8, label: Seq<char>) -> Seq<char> {
    Seq::new(indent_width(level), |i: int| ' ') + "* ["@ + label + "](#"@ + slug_of(label)
        + ")\n"@
}

/// The rendered TOC text: the entries' lines, concatenated in order.
/// Empty input yields empty text.
pub open spec fn toc_text(entries: Seq<(u8, Seq<char>)>) -> Seq<char>
    decreases entries.len(),
{
    if entries.len() == 0 {
        Seq::empty()
    } else {
        toc_text(entries.drop_last()) + entry_line(entries.last().0, entries.last().1)
    }
}

/// Indentation law: a rendered line opens with exactly `2 * (level - 1)`
/// space characters, and the list bullet stands right after them.
pub proof fn lemma_indentation(level: u8, label: Seq<char>)
    requires
        level >= 1,
    ensures
        forall|i: int| 0 <= i < 2 * (level - 1) ==> entry_line(level, label)[i] == ' ',
        entry_line(level, label)[2 * (level - 1)] == '*',
{
    reveal_strlit("* [");
    assert(entry_line(level, label)[2 * (level - 1)] == "* ["@[0]);
}

/// Slug consistency: the fragment is a function of the label text alone, so
/// headings with identical labels get identical, non-deduplicated slugs.
pub proof fn lemma_slug_consistency(a: Seq<char>, b: Seq<char>)
    requires
        a == b,
    ensures
        slug_of(a) == slug_of(b),
{
}

/// Renders the collected headings as markdown list source text.
pub fn build_toc(entries: &Vec<HeadingEntry>) -> (r: String)
    requires
        forall|i: int| 0 <= i < entries@.len() ==> (#[trigger] entries@[i]).level >= 1,
    ensures
        r@ == toc_text(entry_views(entries@)),
{
    let ghost evs = entry_views(entries@);
    let mut buf = String::new();
    let mut i: usize = 0;
    while i < entries.len()
        invariant
            0 <= i <= entries@.len(),
            evs == entry_views(entries@),
            evs.len() == entries@.len(),
            forall|j: int| 0 <= j < entries@.len() ==> (#[trigger] entries@[j]).level >= 1,
            buf@ == toc_text(evs.take(i as int)),
        decreases entries@.len() - i,
    {
        let e = &entries[i];
        let ghost line_start = buf@;
        let mut k: u8 = 1;
        while k < e.level
            invariant
                1 <= k <= e.level,
                buf@ == line_start + Seq::new((2 * (k - 1)) as nat, |j: int| ' '),
            decreases e.level - k,
        {
            buf.append("  ");
            proof {
                reveal_strlit("  ");
                assert(buf@ =~= line_start + Seq::new((2 * (k + 1 - 1)) as nat, |j: int| ' '));
            }
            k = k + 1;
        }
        proof {
            assert(buf@ == line_start + Seq::new(indent_width(e.level), |j: int| ' '));
        }
        buf.append("* [");
        buf.append(e.label.as_str());
        buf.append("](#");
        let slug = normalize_id(e.label.as_str());
        buf.append(slug.as_str());
        buf.append(")\n");
        proof {
            assert(buf@ =~= line_start + entry_line(e.level, e.label@));
            assert(evs.take(i + 1).drop_last() =~= evs.take(i as int));
            assert(evs.take(i + 1).last() == evs[i as int]);
            assert(evs[i as int] == (e.level, e.label@));
            assert(buf@ == toc_text(evs.take(i + 1)));
        }
        i = i + 1;
    }
    proof {
        assert(evs.take(entries@.len() as int) =~= evs);
    }
    buf
}

} // verus!
