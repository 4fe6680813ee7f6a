//! Bookkeeping of the smallest rectangle that covers everything that changed.
//!
//! Columns are counted in bytes of the framebuffer (two pixels each), rows in
//! pixel rows. All bounds are inclusive.

use vstd::prelude::*;
use crate::framebuffer::{DISPLAY_HEIGHT, ROW_BYTES};

verus! {

/// A rectangle of framebuffer bytes.
#[derive(Clone, Copy, Debug, PartialEq, Eq, Structural)]
pub struct DirtyRegion {
    /// The leftmost column-byte.
    pub col_min: u8,
    /// The rightmost column-byte.
    pub col_max: u8,
    /// The topmost row.
    pub row_min: u8,
    /// The bottommost row.
    pub row_max: u8,
}

impl DirtyRegion {
    /// The rectangle that covers the single byte at `(col, row)`.
    pub open spec fn point(col: u8, row: u8) -> DirtyRegion {
        DirtyRegion { col_min: col, col_max: col, row_min: row, row_max: row }
    }

    /// Whether neither pair of bounds is inverted.
    pub open spec fn ordered(self) -> bool {
        self.col_min <= self.col_max && self.row_min <= self.row_max
    }

    /// Whether the byte at `(col, row)` lies in the rectangle.
    pub open spec fn contains(self, col: int, row: int) -> bool {
        self.col_min <= col <= self.col_max && self.row_min <= row <= self.row_max
    }

    /// The smallest rectangle that covers this one and the byte at `(col, row)`.
    pub open spec fn widened(self, col: u8, row: u8) -> DirtyRegion {
        DirtyRegion {
            col_min: if col < self.col_min { col } else { self.col_min },
            col_max: if col > self.col_max { col } else { self.col_max },
            row_min: if row < self.row_min { row } else { self.row_min },
            row_max: if row > self.row_max { row } else { self.row_max },
        }
    }

    /// The smallest rectangle that covers this one and `other`.
    pub open spec fn merged(self, other: DirtyRegion) -> DirtyRegion {
        DirtyRegion {
            col_min: if other.col_min < self.col_min { other.col_min } else { self.col_min },
            col_max: if other.col_max > self.col_max { other.col_max } else { self.col_max },
            row_min: if other.row_min < self.row_min { other.row_min } else { self.row_min },
            row_max: if other.row_max > self.row_max { other.row_max } else { self.row_max },
        }
    }
}

/// The region after the byte at `(col, row)` is touched: a rectangle of that
/// one byte where there was no region, the widened rectangle otherwise.
pub open spec fn touched(region: Option<DirtyRegion>, col: u8, row: u8) -> Option<DirtyRegion> {
    match region {
        None => Some(DirtyRegion::point(col, row)),
        Some(r) => Some(r.widened(col, row)),
    }
}

/// The region after the bytes of `touches`, each a column-byte and a row, are
/// touched one after another, starting with no region.
pub open spec fn region_of(touches: Seq<(u8, u8)>) -> Option<DirtyRegion>
    decreases touches.len(),
{
    if touches.len() == 0 {
        None
    } else {
        touched(region_of(touches.drop_last()), touches.last().0, touches.last().1)
    }
}

/// One more touch widens the region of the touches before it.
pub proof fn lemma_region_of_push(touches: Seq<(u8, u8)>, col: u8, row: u8)
    ensures
        region_of(touches.push((col, row))) == touched(region_of(touches), col, row),
{
    assert(touches.push((col, row)).drop_last() =~= touches);
}

/// Touching two bytes gives the same rectangle in either order.
pub proof fn lemma_touch_commutes(region: Option<DirtyRegion>, a: (u8, u8), b: (u8, u8))
    ensures
        touched(touched(region, a.0, a.1), b.0, b.1) == touched(
            touched(region, b.0, b.1),
            a.0,
            a.1,
        ),
{
}

/// Merging rectangles is commutative.
pub proof fn lemma_merge_commutative(a: DirtyRegion, b: DirtyRegion)
    ensures
        a.merged(b) == b.merged(a),
{
}

/// Merging rectangles is associative.
pub proof fn lemma_merge_associative(a: DirtyRegion, b: DirtyRegion, c: DirtyRegion)
    ensures
        a.merged(b).merged(c) == a.merged(b.merged(c)),
{
}

/// Touching a byte is merging with the rectangle of that byte.
pub proof fn lemma_widen_is_merge(r: DirtyRegion, col: u8, row: u8)
    ensures
        r.widened(col, row) == r.merged(DirtyRegion::point(col, row)),
{
}

/// Touching never shrinks the region: every byte that was covered
/// stays covered, and the touched byte is covered.
pub proof fn lemma_touch_widens(region: Option<DirtyRegion>, col: u8, row: u8)
    ensures
        touched(region, col, row) is Some,
        touched(region, col, row)->0.contains(col as int, row as int),
        region is Some && region->0.ordered() ==> touched(region, col, row)->0.ordered(),
        forall|c: int, r: int|
            region is Some && region->0.contains(c, r) ==> #[trigger] touched(
                region,
                col,
                row,
            )->0.contains(c, r),
{
}

/// The region after a non-empty series of touches is the bounding
/// box of the touched bytes: it covers each of them, and each of its four
/// bounds is the coordinate of one of them. So its bounds are the least and
/// the greatest column-byte and the least and the greatest row.
pub proof fn lemma_region_is_bounding_box(touches: Seq<(u8, u8)>)
    requires
        touches.len() > 0,
    ensures
        region_of(touches) is Some,
        region_of(touches)->0.ordered(),
        forall|i: int|
            0 <= i < touches.len() ==> region_of(touches)->0.contains(
                (#[trigger] touches[i]).0 as int,
                touches[i].1 as int,
            ),
        exists|i: int| 0 <= i < touches.len() && (#[trigger] touches[i]).0 == region_of(touches)->0.col_min,
        exists|i: int| 0 <= i < touches.len() && (#[trigger] touches[i]).0 == region_of(touches)->0.col_max,
        exists|i: int| 0 <= i < touches.len() && (#[trigger] touches[i]).1 == region_of(touches)->0.row_min,
        exists|i: int| 0 <= i < touches.len() && (#[trigger] touches[i]).1 == region_of(touches)->0.row_max,
    decreases touches.len(),
{
    let n = touches.len() as int;
    let before = touches.drop_last();
    let p = touches.last();
    let r = region_of(touches)->0;
    if before.len() == 0 {
        assert(region_of(before) is None);
        assert(r == DirtyRegion::point(p.0, p.1));
        assert(touches[n - 1] == p);
    } else {
        lemma_region_is_bounding_box(before);
        let rb = region_of(before)->0;
        assert(r == rb.widened(p.0, p.1));
        assert forall|i: int| 0 <= i < touches.len() implies r.contains(
            (#[trigger] touches[i]).0 as int,
            touches[i].1 as int,
        ) by {
            if i < n - 1 {
                assert(before[i] == touches[i]);
            }
        }
        let i0 = choose|i: int| 0 <= i < before.len() && (#[trigger] before[i]).0 == rb.col_min;
        let i1 = choose|i: int| 0 <= i < before.len() && (#[trigger] before[i]).0 == rb.col_max;
        let i2 = choose|i: int| 0 <= i < before.len() && (#[trigger] before[i]).1 == rb.row_min;
        let i3 = choose|i: int| 0 <= i < before.len() && (#[trigger] before[i]).1 == rb.row_max;
        assert(touches[i0] == before[i0] && touches[i1] == before[i1]);
        assert(touches[i2] == before[i2] && touches[i3] == before[i3]);
        assert(touches[n - 1] == p);
        let j0 = if p.0 < rb.col_min { n - 1 } else { i0 };
        let j1 = if p.0 > rb.col_max { n - 1 } else { i1 };
        let j2 = if p.1 < rb.row_min { n - 1 } else { i2 };
        let j3 = if p.1 > rb.row_max { n - 1 } else { i3 };
        assert(touches[j0].0 == r.col_min);
        assert(touches[j1].0 == r.col_max);
        assert(touches[j2].1 == r.row_min);
        assert(touches[j3].1 == r.row_max);
    }
}

/// The region depends only on which bytes were touched, not on their
/// order nor on how often each was touched.
pub proof fn lemma_region_order_independent(first: Seq<(u8, u8)>, second: Seq<(u8, u8)>)
    requires
        forall|p: (u8, u8)| first.contains(p) <==> second.contains(p),
    ensures
        region_of(first) == region_of(second),
{
    if first.len() == 0 {
        if second.len() > 0 {
            assert(second.contains(second[0]));
            assert(first.contains(second[0]));
        }
    } else {
        assert(first.contains(first[0]));
        assert(second.contains(first[0]));
        lemma_bounds_within(first, second);
        lemma_bounds_within(second, first);
    }
}

/// Where every byte touched by `inner` is also touched by `outer`, the
/// rectangle of `inner` lies within that of `outer`.
proof fn lemma_bounds_within(inner: Seq<(u8, u8)>, outer: Seq<(u8, u8)>)
    requires
        inner.len() > 0,
        outer.len() > 0,
        forall|p: (u8, u8)| inner.contains(p) ==> outer.contains(p),
    ensures
        region_of(inner) is Some,
        region_of(outer) is Some,
        region_of(outer)->0.col_min <= region_of(inner)->0.col_min,
        region_of(inner)->0.col_max <= region_of(outer)->0.col_max,
        region_of(outer)->0.row_min <= region_of(inner)->0.row_min,
        region_of(inner)->0.row_max <= region_of(outer)->0.row_max,
{
    lemma_region_is_bounding_box(inner);
    lemma_region_is_bounding_box(outer);
    let ri = region_of(inner)->0;
    let ro = region_of(outer)->0;
    assert forall|i: int| 0 <= i < inner.len() implies ro.contains(
        (#[trigger] inner[i]).0 as int,
        inner[i].1 as int,
    ) by {
        assert(inner.contains(inner[i]));
        let j = choose|j: int| 0 <= j < outer.len() && outer[j] == inner[i];
        assert(ro.contains(outer[j].0 as int, outer[j].1 as int));
    }
    let i0 = choose|i: int| 0 <= i < inner.len() && (#[trigger] inner[i]).0 == ri.col_min;
    let i1 = choose|i: int| 0 <= i < inner.len() && (#[trigger] inner[i]).0 == ri.col_max;
    let i2 = choose|i: int| 0 <= i < inner.len() && (#[trigger] inner[i]).1 == ri.row_min;
    let i3 = choose|i: int| 0 <= i < inner.len() && (#[trigger] inner[i]).1 == ri.row_max;
    assert(ro.contains(inner[i0].0 as int, inner[i0].1 as int));
    assert(ro.contains(inner[i1].0 as int, inner[i1].1 as int));
    assert(ro.contains(inner[i2].0 as int, inner[i2].1 as int));
    assert(ro.contains(inner[i3].0 as int, inner[i3].1 as int));
}

/// Whether a region lies on the framebuffer with its bounds in order.
pub open spec fn region_fits(region: Option<DirtyRegion>) -> bool {
    region matches Some(r) ==> r.ordered() && r.col_max < ROW_BYTES && r.row_max < DISPLAY_HEIGHT
}

/// The region that changed since it was last reset, if anything changed.
/// It always lies on the framebuffer.
#[derive(Clone, Copy, Debug)]
pub struct DirtyRegionTracker {
    region: Option<DirtyRegion>,
}

impl View for DirtyRegionTracker {
    type V = Option<DirtyRegion>;

    closed spec fn view(&self) -> Option<DirtyRegion> {
        self.region
    }
}

impl DirtyRegionTracker {
    #[verifier::type_invariant]
    spec fn on_grid(self) -> bool {
        region_fits(self.region)
    }

    /// Creates a tracker with no region.
    pub fn new() -> (tracker: DirtyRegionTracker)
        ensures
            tracker@ is None,
    {
        DirtyRegionTracker { region: None }
    }

    /// Registers a change of the byte at column-byte `col` in row `row`,
    /// which is a byte of the framebuffer.
    pub fn touch(&mut self, col: u8, row: u8)
        requires
            (col as int) < ROW_BYTES,
            (row as int) < DISPLAY_HEIGHT,
        ensures
            final(self)@ == touched(old(self)@, col, row),
            region_fits(final(self)@),
    {
        proof {
            use_type_invariant(&*self);
        }
        match self.region {
            None => {
                self.region = Some(
                    DirtyRegion { col_min: col, col_max: col, row_min: row, row_max: row },
                );
            },
            Some(r) => {
                let mut widened: DirtyRegion = r;
                if col < r.col_min {
                    widened.col_min = col;
                }
                if col > r.col_max {
                    widened.col_max = col;
                }
                if row < r.row_min {
                    widened.row_min = row;
                }
                if row > r.row_max {
                    widened.row_max = row;
                }
                self.region = Some(widened);
            },
        }
    }

    /// Forgets the region.
    pub fn reset(&mut self)
        ensures
            final(self)@ is None,
    {
        self.region = None;
    }

    /// The region; `None` where nothing changed.
    pub fn region(&self) -> (region: Option<DirtyRegion>)
        ensures
            region == self@,
            region_fits(region),
    {
        proof {
            use_type_invariant(self);
        }
        self.region
    }
}

} // verus!
