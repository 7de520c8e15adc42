//! Text measurement from glyph metrics (the glyphs themselves come from a
//! font rasteriser).
use vstd::prelude::*;

verus! {

/// The sum of the advance widths.
pub open spec fn total(s: Seq<u32>) -> nat
    decreases s.len(),
{
    if s.len() == 0 { 0 } else { total(s.drop_last()) + s.last() as nat }
}

/// The largest glyph height (0 for no glyphs).
pub open spec fn tallest(s: Seq<u32>) -> nat
    decreases s.len(),
{
    if s.len() == 0 {
        0
    } else {
        let m = tallest(s.drop_last());
        if s.last() > m { s.last() as nat } else { m }
    }
}

/// The extent of a line of text from its glyphs' advance widths and
/// heights: the advances added up, and the tallest glyph.
pub fn text_extent(advances: &Vec<u32>, heights: &Vec<u32>) -> (r: (u32, u32))
    requires
        total(advances@) <= u32::MAX,
    ensures
        r.0 == total(advances@),
        r.1 == tallest(heights@),
{
    let mut width: u32 = 0;
    let mut i: usize = 0;
    while i < advances.len()
        invariant
            i <= advances@.len(),
            width == total(advances@.take(i as int)),
            total(advances@) <= u32::MAX,
        decreases advances.len() - i,
    {
        proof {
            assert(advances@.take(i + 1).drop_last() =~= advances@.take(i as int));
            lemma_total_prefix(advances@, i + 1);
        }
        width = width + advances[i];
        i = i + 1;
    }
    let mut height: u32 = 0;
    let mut j: usize = 0;
    while j < heights.len()
        invariant
            j <= heights@.len(),
            height == tallest(heights@.take(j as int)),
        decreases heights.len() - j,
    {
        proof {
            assert(heights@.take(j + 1).drop_last() =~= heights@.take(j as int));
        }
        if heights[j] > height {
            height = heights[j];
        }
        j = j + 1;
    }
    proof {
        assert(advances@.take(advances@.len() as int) =~= advances@);
        assert(heights@.take(heights@.len() as int) =~= heights@);
    }
    (width, height)
}

proof fn lemma_total_prefix(s: Seq<u32>, k: int)
    requires
        0 <= k <= s.len(),
    ensures
        total(s.take(k)) <= total(s),
    decreases s.len() - k,
{
    if k < s.len() {
        lemma_total_prefix(s, k + 1);
        assert(s.take(k + 1).drop_last() =~= s.take(k));
    } else {
        assert(s.take(k) =~= s);
    }
}

} // verus!
