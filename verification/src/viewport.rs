//! The viewport: the visible pixel window into the (conceptually
//! unbounded) grid, plus the scroll-driven mapping from pixel offsets to
//! the first visible index and a lazy walk over the visible range of one
//! axis.

use vstd::prelude::*;
use crate::dimension::{DimensionIndex, Location};
use crate::geometry::Rectangle;

verus! {

/// Viewport state: non-negative scroll offsets and the fixed pixel
/// dimensions of the visible pane.
#[derive(Clone, Copy, Debug)]
pub struct Viewport {
    pub scroll_x: u64,
    pub scroll_y: u64,
    pub pane_width: u32,
    pub pane_height: u32,
}

impl Viewport {
    /// Scroll offsets stay small enough that the visible edges fit the
    /// signed coordinate range of the geometry.
    pub open spec fn wf(self) -> bool {
        &&& self.scroll_x + self.pane_width <= i64::MAX
        &&& self.scroll_y + self.pane_height <= i64::MAX
    }

    /// The pixel offset just past the right edge of the visible pane.
    pub open spec fn spec_visible_right(self) -> int {
        self.scroll_x + self.pane_width
    }

    /// The pixel offset just past the bottom edge of the visible pane.
    pub open spec fn spec_visible_bottom(self) -> int {
        self.scroll_y + self.pane_height
    }

    /// A fresh viewport at scroll position zero.
    pub fn new(pane_width: u32, pane_height: u32) -> (vp: Viewport)
        ensures
            vp.wf(),
            vp.scroll_x == 0,
            vp.scroll_y == 0,
            vp.pane_width == pane_width,
            vp.pane_height == pane_height,
    {
        Viewport { scroll_x: 0, scroll_y: 0, pane_width, pane_height }
    }

    /// Set the horizontal scroll offset.
    pub fn set_scroll_x(&mut self, offset: u64)
        requires
            old(self).wf(),
            offset + old(self).pane_width <= i64::MAX,
        ensures
            final(self).wf(),
            final(self).scroll_x == offset,
            final(self).scroll_y == old(self).scroll_y,
            final(self).pane_width == old(self).pane_width,
            final(self).pane_height == old(self).pane_height,
    {
        self.scroll_x = offset;
    }

    /// Set the vertical scroll offset.
    pub fn set_scroll_y(&mut self, offset: u64)
        requires
            old(self).wf(),
            offset + old(self).pane_height <= i64::MAX,
        ensures
            final(self).wf(),
            final(self).scroll_y == offset,
            final(self).scroll_x == old(self).scroll_x,
            final(self).pane_width == old(self).pane_width,
            final(self).pane_height == old(self).pane_height,
    {
        self.scroll_y = offset;
    }

    /// The visible rectangle, in absolute grid pixels.
    pub fn visible_rect(&self) -> (r: Rectangle)
        requires
            self.wf(),
        ensures
            r.wf(),
            r.spec_left() == self.scroll_x,
            r.spec_top() == self.scroll_y,
            r.spec_width() == self.pane_width,
            r.spec_height() == self.pane_height,
    {
        Rectangle::new(
            self.scroll_x as i64,
            self.scroll_y as i64,
            self.pane_width as i64,
            self.pane_height as i64,
        )
    }
}

/// The first fully-or-partially visible index at scroll offset
/// `axis_offset`: a thin wrapper around `DimensionIndex::locate`, with the
/// same exact contract.
pub fn visible_start(axis_offset: u64, dim: &DimensionIndex) -> (loc: Location)
    requires
        dim.wf(),
    ensures
        loc.offset == dim.offset_of(loc.index as int),
        loc.offset <= axis_offset,
        axis_offset < dim.offset_of(u32::MAX as int + 1) ==> axis_offset < dim.offset_of(
            loc.index as int + 1,
        ),
        dim.offset_of(u32::MAX as int + 1) <= axis_offset ==> loc.index == u32::MAX,
{
    dim.locate(axis_offset)
}

/// A lazy, finite, forward-only walk over the `(index, pixel position,
/// size)` triples of one axis, from the first index visible at the start
/// offset until the accumulated position passes the end of the pane.
/// Rows or columns are looked up one at a time; nothing is materialized
/// for the whole pane.
#[derive(Clone, Copy, Debug)]
pub struct VisibleRange {
    pub index: u32,
    pub position: u64,
    pub end: u64,
    pub exhausted: bool,
}

impl VisibleRange {
    /// The cursor position is always the exact cumulative offset of the
    /// cursor index on the axis it walks.
    pub open spec fn wf(self, dim: DimensionIndex) -> bool {
        &&& dim.wf()
        &&& !self.exhausted ==> self.position == dim.offset_of(self.index as int)
    }

    /// Whether the cursor will produce another triple.
    pub open spec fn spec_live(self) -> bool {
        !self.exhausted && self.position < self.end
    }

    /// The next visible triple: the cursor's index, that index's exact
    /// pixel position, and its size; `None` once the position has reached
    /// the end of the pane (or the index range is exhausted).
    pub fn next(&mut self, dim: &DimensionIndex) -> (item: Option<(u32, u64, u32)>)
        requires
            old(self).wf(*dim),
        ensures
            final(self).wf(*dim),
            final(self).end == old(self).end,
            match item {
                Some(t) => {
                    &&& old(self).spec_live()
                    &&& t.0 == old(self).index
                    &&& t.1 == old(self).position
                    &&& t.1 == dim.offset_of(t.0 as int)
                    &&& t.2 == dim.size_at(t.0 as int)
                    &&& final(self).position == dim.offset_of(t.0 as int + 1)
                    &&& t.0 < u32::MAX ==> (final(self).index == t.0 + 1
                        && !final(self).exhausted)
                    &&& t.0 == u32::MAX ==> final(self).exhausted
                },
                None => {
                    &&& !old(self).spec_live()
                    &&& *final(self) == *old(self)
                },
            },
    {
        if self.exhausted || self.position >= self.end {
            return None;
        }
        let size = dim.get_size(self.index);
        let item = (self.index, self.position, size);
        proof {
            dim.lemma_offset_upper(self.index as int + 1);
            assert((self.index as int + 1) * (u32::MAX as int) <= u64::MAX) by (nonlinear_arith)
                requires
                    0 <= self.index as int + 1 <= u32::MAX as int + 1,
            ;
        }
        self.position = self.position + size as u64;
        if self.index < u32::MAX {
            self.index = self.index + 1;
        } else {
            self.exhausted = true;
        }
        Some(item)
    }
}

/// Start a lazy walk over the axis range `[start_offset, start_offset +
/// pane_length)`, beginning at the first visible index.
pub fn visible_range(start_offset: u64, pane_length: u64, dim: &DimensionIndex) -> (vr:
    VisibleRange)
    requires
        dim.wf(),
        start_offset + pane_length <= u64::MAX,
    ensures
        vr.wf(*dim),
        vr.end == start_offset + pane_length,
        !vr.exhausted,
        vr.position == dim.offset_of(vr.index as int),
        vr.position <= start_offset,
        start_offset < dim.offset_of(u32::MAX as int + 1) ==> start_offset < dim.offset_of(
            vr.index as int + 1,
        ),
        dim.offset_of(u32::MAX as int + 1) <= start_offset ==> vr.index == u32::MAX,
{
    let loc = visible_start(start_offset, dim);
    VisibleRange { index: loc.index, position: loc.offset, end: start_offset + pane_length, exhausted: false }
}

} // verus!
