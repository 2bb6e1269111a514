//! The grid model: two dimension indices (rows and columns), the
//! viewport, and the active-cell controller, wired together behind the
//! operations a rendering or input-dispatch collaborator calls per frame
//! or input event. The model owns all grid state; collaborators only read
//! the snapshots (rectangles, offsets, cells) these calls return.

use vstd::prelude::*;
use crate::active_cell::{
    after_move_down, after_move_left, after_move_right, after_move_up, down_move_delta,
    left_move_delta, right_move_delta, up_move_delta, state_of, ActiveCell, ActiveCellController,
};
use crate::dimension::DimensionIndex;
use crate::viewport::{visible_start, Viewport};

verus! {

/// What an arrow-key event reports back: the active cell after the event
/// (if any) and the scroll delta the move demanded on its axis of travel.
pub struct NavOutcome {
    pub active: Option<ActiveCell>,
    pub scroll_delta: i64,
}

/// The composed layout/navigation engine for one sheet.
pub struct GridModel {
    pub rows: DimensionIndex,
    pub cols: DimensionIndex,
    pub viewport: Viewport,
    pub controller: ActiveCellController,
}

impl GridModel {
    pub open spec fn wf(self) -> bool {
        &&& self.rows.wf()
        &&& self.cols.wf()
        &&& self.viewport.wf()
        &&& self.controller.wf()
    }

    /// A fresh grid: uniform row and column sizes, scroll position zero,
    /// no active cell.
    pub fn new(
        row_default: u32,
        col_default: u32,
        pane_width: u32,
        pane_height: u32,
        max_extent_x: u32,
        max_extent_y: u32,
    ) -> (g: GridModel)
        requires
            1 <= row_default,
            1 <= col_default,
        ensures
            g.wf(),
            g.rows.spec_default() == row_default,
            g.cols.spec_default() == col_default,
            forall|i: int| g.rows.size_at(i) == row_default,
            forall|i: int| g.cols.size_at(i) == col_default,
            g.viewport.scroll_x == 0,
            g.viewport.scroll_y == 0,
            g.viewport.pane_width == pane_width,
            g.viewport.pane_height == pane_height,
            g.controller.active is None,
            g.controller.max_extent_x == max_extent_x,
            g.controller.max_extent_y == max_extent_y,
    {
        GridModel {
            rows: DimensionIndex::new(row_default),
            cols: DimensionIndex::new(col_default),
            viewport: Viewport::new(pane_width, pane_height),
            controller: ActiveCellController::new(max_extent_x, max_extent_y),
        }
    }

    /// Override the height of row `index` (zero is rejected, keeping the
    /// prior height).
    pub fn set_row_size(&mut self, index: u32, size: u32)
        requires
            old(self).wf(),
        ensures
            final(self).wf(),
            final(self).cols == old(self).cols,
            final(self).viewport == old(self).viewport,
            final(self).controller == old(self).controller,
            final(self).rows.spec_default() == old(self).rows.spec_default(),
            size == 0 ==> final(self).rows == old(self).rows,
            1 <= size ==> final(self).rows.size_at(index as int) == size,
            1 <= size ==> forall|k: int|
                k != index ==> final(self).rows.size_at(k) == old(self).rows.size_at(k),
    {
        self.rows.set_size(index, size);
    }

    /// Override the width of column `index` (zero is rejected).
    pub fn set_col_size(&mut self, index: u32, size: u32)
        requires
            old(self).wf(),
        ensures
            final(self).wf(),
            final(self).rows == old(self).rows,
            final(self).viewport == old(self).viewport,
            final(self).controller == old(self).controller,
            final(self).cols.spec_default() == old(self).cols.spec_default(),
            size == 0 ==> final(self).cols == old(self).cols,
            1 <= size ==> final(self).cols.size_at(index as int) == size,
            1 <= size ==> forall|k: int|
                k != index ==> final(self).cols.size_at(k) == old(self).cols.size_at(k),
    {
        self.cols.set_size(index, size);
    }

    /// The `(width, height)` of the cell at one-based `(col, row)`,
    /// falling back to the axis defaults. Total: every addressable cell
    /// has a size.
    pub fn get_cell_dimension(&self, col: u32, row: u32) -> (dim: (u32, u32))
        requires
            self.wf(),
            1 <= col,
            1 <= row,
        ensures
            dim.0 == self.cols.size_at(col as int - 1),
            dim.1 == self.rows.size_at(row as int - 1),
    {
        (self.cols.get_size(col - 1), self.rows.get_size(row - 1))
    }

    /// The paint-anchor pixel offset for the vertical scroll position:
    /// the exact cumulative offset of the row visible at `pixel_offset`.
    pub fn get_last_visible_row_offset(&self, pixel_offset: u64) -> (r: u64)
        requires
            self.wf(),
        ensures
            exists|i: int|
                {
                    &&& 0 <= i <= u32::MAX
                    &&& r == #[trigger] self.rows.offset_of(i)
                    &&& r <= pixel_offset
                    &&& pixel_offset < self.rows.offset_of(u32::MAX as int + 1) ==> pixel_offset
                        < self.rows.offset_of(i + 1)
                    &&& self.rows.offset_of(u32::MAX as int + 1) <= pixel_offset ==> i == u32::MAX
                },
    {
        let loc = visible_start(pixel_offset, &self.rows);
        proof {
            assert(0 <= loc.index as int <= u32::MAX && loc.offset == self.rows.offset_of(
                loc.index as int,
            ));
        }
        loc.offset
    }

    /// The paint-anchor pixel offset for the horizontal scroll position.
    pub fn get_last_visible_col_offset(&self, pixel_offset: u64) -> (r: u64)
        requires
            self.wf(),
        ensures
            exists|i: int|
                {
                    &&& 0 <= i <= u32::MAX
                    &&& r == #[trigger] self.cols.offset_of(i)
                    &&& r <= pixel_offset
                    &&& pixel_offset < self.cols.offset_of(u32::MAX as int + 1) ==> pixel_offset
                        < self.cols.offset_of(i + 1)
                    &&& self.cols.offset_of(u32::MAX as int + 1) <= pixel_offset ==> i == u32::MAX
                },
    {
        let loc = visible_start(pixel_offset, &self.cols);
        proof {
            assert(0 <= loc.index as int <= u32::MAX && loc.offset == self.cols.offset_of(
                loc.index as int,
            ));
        }
        loc.offset
    }

    /// The host's horizontal scrollbar moved: adopt the new offset.
    pub fn on_h_scroll(&mut self, offset: u64)
        requires
            old(self).wf(),
            offset + old(self).viewport.pane_width <= i64::MAX,
        ensures
            final(self).wf(),
            final(self).rows == old(self).rows,
            final(self).cols == old(self).cols,
            final(self).controller == old(self).controller,
            final(self).viewport.scroll_x == offset,
            final(self).viewport.scroll_y == old(self).viewport.scroll_y,
            final(self).viewport.pane_width == old(self).viewport.pane_width,
            final(self).viewport.pane_height == old(self).viewport.pane_height,
    {
        self.viewport.set_scroll_x(offset);
    }

    /// The host's vertical scrollbar moved: adopt the new offset.
    pub fn on_v_scroll(&mut self, offset: u64)
        requires
            old(self).wf(),
            offset + old(self).viewport.pane_height <= i64::MAX,
        ensures
            final(self).wf(),
            final(self).rows == old(self).rows,
            final(self).cols == old(self).cols,
            final(self).controller == old(self).controller,
            final(self).viewport.scroll_y == offset,
            final(self).viewport.scroll_x == old(self).viewport.scroll_x,
            final(self).viewport.pane_width == old(self).viewport.pane_width,
            final(self).viewport.pane_height == old(self).viewport.pane_height,
    {
        self.viewport.set_scroll_y(offset);
    }

    /// Right-arrow key: advance the cursor and scroll it into view.
    pub fn on_right_arrow_keydown(&mut self) -> (outcome: NavOutcome)
        requires
            old(self).wf(),
        ensures
            final(self).wf(),
            final(self).rows == old(self).rows,
            final(self).cols == old(self).cols,
            final(self).controller.max_extent_x == old(self).controller.max_extent_x,
            final(self).controller.max_extent_y == old(self).controller.max_extent_y,
            state_of(final(self).controller.active) == after_move_right(
                state_of(old(self).controller.active),
                old(self).cols,
                old(self).rows,
                old(self).controller.max_extent_x as int,
            ),
            outcome.scroll_delta == right_move_delta(
                state_of(old(self).controller.active),
                old(self).cols,
                old(self).rows,
                old(self).controller.max_extent_x as int,
                old(self).viewport,
            ),
            outcome.active == final(self).controller.active,
            final(self).viewport.scroll_x == old(self).viewport.scroll_x + outcome.scroll_delta,
            final(self).viewport.scroll_y == old(self).viewport.scroll_y,
            final(self).viewport.pane_width == old(self).viewport.pane_width,
            final(self).viewport.pane_height == old(self).viewport.pane_height,
    {
        let delta = self.controller.move_right(&self.cols, &self.rows, &self.viewport);
        if delta != 0 {
            let new_scroll = self.viewport.scroll_x as i64 + delta;
            self.viewport.set_scroll_x(new_scroll as u64);
        }
        NavOutcome { active: self.controller.active, scroll_delta: delta }
    }

    /// Left-arrow key: move the cursor left and scroll it into view.
    pub fn on_left_arrow_keydown(&mut self) -> (outcome: NavOutcome)
        requires
            old(self).wf(),
        ensures
            final(self).wf(),
            final(self).rows == old(self).rows,
            final(self).cols == old(self).cols,
            final(self).controller.max_extent_x == old(self).controller.max_extent_x,
            final(self).controller.max_extent_y == old(self).controller.max_extent_y,
            state_of(final(self).controller.active) == after_move_left(
                state_of(old(self).controller.active),
                old(self).cols,
                old(self).rows,
            ),
            outcome.scroll_delta == left_move_delta(
                state_of(old(self).controller.active),
                old(self).cols,
                old(self).rows,
                old(self).viewport,
            ),
            outcome.active == final(self).controller.active,
            final(self).viewport.scroll_x == old(self).viewport.scroll_x + outcome.scroll_delta,
            final(self).viewport.scroll_y == old(self).viewport.scroll_y,
            final(self).viewport.pane_width == old(self).viewport.pane_width,
            final(self).viewport.pane_height == old(self).viewport.pane_height,
    {
        let delta = self.controller.move_left(&self.cols, &self.rows, &self.viewport);
        if delta != 0 {
            let new_scroll = self.viewport.scroll_x as i64 + delta;
            self.viewport.set_scroll_x(new_scroll as u64);
        }
        NavOutcome { active: self.controller.active, scroll_delta: delta }
    }

    /// Up-arrow key: move the cursor up and scroll it into view.
    pub fn on_up_arrow_keydown(&mut self) -> (outcome: NavOutcome)
        requires
            old(self).wf(),
        ensures
            final(self).wf(),
            final(self).rows == old(self).rows,
            final(self).cols == old(self).cols,
            final(self).controller.max_extent_x == old(self).controller.max_extent_x,
            final(self).controller.max_extent_y == old(self).controller.max_extent_y,
            state_of(final(self).controller.active) == after_move_up(
                state_of(old(self).controller.active),
                old(self).cols,
                old(self).rows,
            ),
            outcome.scroll_delta == up_move_delta(
                state_of(old(self).controller.active),
                old(self).cols,
                old(self).rows,
                old(self).viewport,
            ),
            outcome.active == final(self).controller.active,
            final(self).viewport.scroll_y == old(self).viewport.scroll_y + outcome.scroll_delta,
            final(self).viewport.scroll_x == old(self).viewport.scroll_x,
            final(self).viewport.pane_width == old(self).viewport.pane_width,
            final(self).viewport.pane_height == old(self).viewport.pane_height,
    {
        let delta = self.controller.move_up(&self.cols, &self.rows, &self.viewport);
        if delta != 0 {
            let new_scroll = self.viewport.scroll_y as i64 + delta;
            self.viewport.set_scroll_y(new_scroll as u64);
        }
        NavOutcome { active: self.controller.active, scroll_delta: delta }
    }

    /// Down-arrow key: advance the cursor down and scroll it into view.
    pub fn on_down_arrow_keydown(&mut self) -> (outcome: NavOutcome)
        requires
            old(self).wf(),
        ensures
            final(self).wf(),
            final(self).rows == old(self).rows,
            final(self).cols == old(self).cols,
            final(self).controller.max_extent_x == old(self).controller.max_extent_x,
            final(self).controller.max_extent_y == old(self).controller.max_extent_y,
            state_of(final(self).controller.active) == after_move_down(
                state_of(old(self).controller.active),
                old(self).cols,
                old(self).rows,
                old(self).controller.max_extent_y as int,
            ),
            outcome.scroll_delta == down_move_delta(
                state_of(old(self).controller.active),
                old(self).cols,
                old(self).rows,
                old(self).controller.max_extent_y as int,
                old(self).viewport,
            ),
            outcome.active == final(self).controller.active,
            final(self).viewport.scroll_y == old(self).viewport.scroll_y + outcome.scroll_delta,
            final(self).viewport.scroll_x == old(self).viewport.scroll_x,
            final(self).viewport.pane_width == old(self).viewport.pane_width,
            final(self).viewport.pane_height == old(self).viewport.pane_height,
    {
        let delta = self.controller.move_down(&self.cols, &self.rows, &self.viewport);
        if delta != 0 {
            let new_scroll = self.viewport.scroll_y as i64 + delta;
            self.viewport.set_scroll_y(new_scroll as u64);
        }
        NavOutcome { active: self.controller.active, scroll_delta: delta }
    }

    /// A pointer click at absolute pixel `(x, y)`: select the cell under
    /// the pointer, with its absolute bounding rectangle. Negative
    /// coordinates clamp to the first row/column. The click does not
    /// scroll.
    pub fn on_click(&mut self, x: i64, y: i64) -> (cell: Option<ActiveCell>)
        requires
            old(self).wf(),
            x <= i64::MAX - u32::MAX,
            y <= i64::MAX - u32::MAX,
            x < u32::MAX || (x as int) < old(self).cols.offset_of(u32::MAX as int),
            y < u32::MAX || (y as int) < old(self).rows.offset_of(u32::MAX as int),
        ensures
            final(self).wf(),
            final(self).rows == old(self).rows,
            final(self).cols == old(self).cols,
            final(self).viewport == old(self).viewport,
            final(self).controller.max_extent_x == old(self).controller.max_extent_x,
            final(self).controller.max_extent_y == old(self).controller.max_extent_y,
            cell == final(self).controller.active,
            cell matches Some(c) && {
                let px: int = if x >= 0 {
                    x as int
                } else {
                    0
                };
                let py: int = if y >= 0 {
                    y as int
                } else {
                    0
                };
                &&& 1 <= c.col
                &&& 1 <= c.row
                &&& c.bounds.spec_left() == old(self).cols.offset_of(c.col as int - 1)
                &&& c.bounds.spec_top() == old(self).rows.offset_of(c.row as int - 1)
                &&& c.bounds.spec_left() <= px < old(self).cols.offset_of(c.col as int)
                &&& c.bounds.spec_top() <= py < old(self).rows.offset_of(c.row as int)
                &&& c.bounds.spec_width() == old(self).cols.size_at(c.col as int - 1)
                &&& c.bounds.spec_height() == old(self).rows.size_at(c.row as int - 1)
            },
    {
        self.controller.on_click(x, y, &self.cols, &self.rows);
        self.controller.active
    }
}

} // verus!

