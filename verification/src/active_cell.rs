//! The active-cell cursor: a state machine over `NoActiveCell` and
//! `ActiveCell(col, row, bounds)`.
//!
//! Keyboard navigation derives the neighbor's bounding rectangle
//! incrementally from the current cell's edge (constant work per move,
//! independent of grid size), clamps at column/row one, and rejects moves
//! whose bound would pass the configured maximum grid extent. After a
//! successful move the controller reports the scroll delta needed to
//! bring the new cell fully into view; it does not own the scroll offset.
//! A pointer click resolves the cell absolutely from pixel coordinates.

use vstd::prelude::*;
use crate::dimension::DimensionIndex;
use crate::geometry::Rectangle;
use crate::viewport::Viewport;

verus! {

/// The currently selected cell: one-based column and row, with its
/// resolved pixel bounding rectangle. Replaced wholesale on every
/// successful move, never partially updated.
#[derive(Clone, Copy, Debug)]
pub struct ActiveCell {
    pub col: u32,
    pub row: u32,
    pub bounds: Rectangle,
}

/// Ghost description of an active cell, used to state the transition
/// relation of the controller.
pub struct CellView {
    pub col: int,
    pub row: int,
    pub left: int,
    pub top: int,
    pub width: int,
    pub height: int,
}

impl ActiveCell {
    pub open spec fn view(self) -> CellView {
        CellView {
            col: self.col as int,
            row: self.row as int,
            left: self.bounds.spec_left(),
            top: self.bounds.spec_top(),
            width: self.bounds.spec_width(),
            height: self.bounds.spec_height(),
        }
    }

    /// One-based indices, a normalized rectangle in the non-negative
    /// quadrant, and enough headroom that a neighbor's bound still fits
    /// the coordinate range.
    pub open spec fn wf(self) -> bool {
        &&& self.bounds.wf()
        &&& 1 <= self.col
        &&& 1 <= self.row
        &&& 0 <= self.bounds.spec_left() <= i64::MAX - u32::MAX
        &&& 0 <= self.bounds.spec_top() <= i64::MAX - u32::MAX
        &&& self.bounds.spec_width() <= u32::MAX
        &&& self.bounds.spec_height() <= u32::MAX
    }
}

/// The controller state as a ghost value.
pub open spec fn state_of(a: Option<ActiveCell>) -> Option<CellView> {
    match a {
        Some(c) => Some(c.view()),
        None => None,
    }
}

/// The cell the cursor starts on: `(col 1, row 1)` at the grid origin,
/// sized like any other cell.
pub open spec fn initial_cell(cols: DimensionIndex, rows: DimensionIndex) -> CellView {
    CellView {
        col: 1,
        row: 1,
        left: 0,
        top: 0,
        width: cols.size_at(0),
        height: rows.size_at(0),
    }
}

/// The cell one step to the right: new origin at the current right edge,
/// sizes looked up for the neighbor.
pub open spec fn right_target(c: CellView, cols: DimensionIndex, rows: DimensionIndex) -> CellView {
    CellView {
        col: c.col + 1,
        row: c.row,
        left: c.left + c.width,
        top: c.top,
        width: cols.size_at(c.col),
        height: rows.size_at(c.row - 1),
    }
}

/// The cell one step to the left: new origin shifted left by the
/// neighbor's width.
pub open spec fn left_target(c: CellView, cols: DimensionIndex, rows: DimensionIndex) -> CellView {
    CellView {
        col: c.col - 1,
        row: c.row,
        left: c.left - cols.size_at(c.col - 2),
        top: c.top,
        width: cols.size_at(c.col - 2),
        height: rows.size_at(c.row - 1),
    }
}

/// The cell one step up.
pub open spec fn up_target(c: CellView, cols: DimensionIndex, rows: DimensionIndex) -> CellView {
    CellView {
        col: c.col,
        row: c.row - 1,
        left: c.left,
        top: c.top - rows.size_at(c.row - 2),
        width: cols.size_at(c.col - 1),
        height: rows.size_at(c.row - 2),
    }
}

/// The cell one step down: new origin at the current bottom edge.
pub open spec fn down_target(c: CellView, cols: DimensionIndex, rows: DimensionIndex) -> CellView {
    CellView {
        col: c.col,
        row: c.row + 1,
        left: c.left,
        top: c.top + c.height,
        width: cols.size_at(c.col - 1),
        height: rows.size_at(c.row),
    }
}

/// A rightward target is taken only while its right edge stays within the
/// configured maximum horizontal extent (and its column stays
/// representable).
pub open spec fn right_accepts(t: CellView, max_x: int) -> bool {
    t.col <= u32::MAX && t.left + t.width <= max_x
}

/// A downward target is taken only while its bottom edge stays within the
/// configured maximum vertical extent.
pub open spec fn down_accepts(t: CellView, max_y: int) -> bool {
    t.row <= u32::MAX && t.top + t.height <= max_y
}

/// The controller state after a move right.
pub open spec fn after_move_right(
    st: Option<CellView>,
    cols: DimensionIndex,
    rows: DimensionIndex,
    max_x: int,
) -> Option<CellView> {
    let t = match st {
        None => initial_cell(cols, rows),
        Some(c) => right_target(c, cols, rows),
    };
    if right_accepts(t, max_x) {
        Some(t)
    } else {
        st
    }
}

/// The controller state after a move left: clamped to a no-op at column
/// one, rejected if the target would leave the grid.
pub open spec fn after_move_left(
    st: Option<CellView>,
    cols: DimensionIndex,
    rows: DimensionIndex,
) -> Option<CellView> {
    match st {
        None => Some(initial_cell(cols, rows)),
        Some(c) => if c.col == 1 {
            st
        } else {
            let t = left_target(c, cols, rows);
            if t.left >= 0 {
                Some(t)
            } else {
                st
            }
        },
    }
}

/// The controller state after a move up: clamped to a no-op at row one.
pub open spec fn after_move_up(
    st: Option<CellView>,
    cols: DimensionIndex,
    rows: DimensionIndex,
) -> Option<CellView> {
    match st {
        None => Some(initial_cell(cols, rows)),
        Some(c) => if c.row == 1 {
            st
        } else {
            let t = up_target(c, cols, rows);
            if t.top >= 0 {
                Some(t)
            } else {
                st
            }
        },
    }
}

/// The controller state after a move down.
pub open spec fn after_move_down(
    st: Option<CellView>,
    cols: DimensionIndex,
    rows: DimensionIndex,
    max_y: int,
) -> Option<CellView> {
    let t = match st {
        None => initial_cell(cols, rows),
        Some(c) => down_target(c, cols, rows),
    };
    if down_accepts(t, max_y) {
        Some(t)
    } else {
        st
    }
}

/// How far the viewport must scroll right so that `t` is fully visible
/// (zero if it already is).
pub open spec fn scroll_out_right(t: CellView, vp: Viewport) -> int {
    if t.left + t.width > vp.spec_visible_right() {
        t.left + t.width - vp.spec_visible_right()
    } else {
        0
    }
}

/// How far the viewport must scroll left (a non-positive delta).
pub open spec fn scroll_out_left(t: CellView, vp: Viewport) -> int {
    if t.left < vp.scroll_x {
        t.left - vp.scroll_x
    } else {
        0
    }
}

/// How far the viewport must scroll down.
pub open spec fn scroll_out_down(t: CellView, vp: Viewport) -> int {
    if t.top + t.height > vp.spec_visible_bottom() {
        t.top + t.height - vp.spec_visible_bottom()
    } else {
        0
    }
}

/// How far the viewport must scroll up (a non-positive delta).
pub open spec fn scroll_out_up(t: CellView, vp: Viewport) -> int {
    if t.top < vp.scroll_y {
        t.top - vp.scroll_y
    } else {
        0
    }
}

/// The scroll delta a move right reports.
pub open spec fn right_move_delta(
    st: Option<CellView>,
    cols: DimensionIndex,
    rows: DimensionIndex,
    max_x: int,
    vp: Viewport,
) -> int {
    let t = match st {
        None => initial_cell(cols, rows),
        Some(c) => right_target(c, cols, rows),
    };
    if right_accepts(t, max_x) {
        scroll_out_right(t, vp)
    } else {
        0
    }
}

/// The scroll delta a move left reports.
pub open spec fn left_move_delta(
    st: Option<CellView>,
    cols: DimensionIndex,
    rows: DimensionIndex,
    vp: Viewport,
) -> int {
    match st {
        None => scroll_out_left(initial_cell(cols, rows), vp),
        Some(c) => if c.col == 1 {
            0
        } else {
            let t = left_target(c, cols, rows);
            if t.left >= 0 {
                scroll_out_left(t, vp)
            } else {
                0
            }
        },
    }
}

/// The scroll delta a move up reports.
pub open spec fn up_move_delta(
    st: Option<CellView>,
    cols: DimensionIndex,
    rows: DimensionIndex,
    vp: Viewport,
) -> int {
    match st {
        None => scroll_out_up(initial_cell(cols, rows), vp),
        Some(c) => if c.row == 1 {
            0
        } else {
            let t = up_target(c, cols, rows);
            if t.top >= 0 {
                scroll_out_up(t, vp)
            } else {
                0
            }
        },
    }
}

/// The scroll delta a move down reports.
pub open spec fn down_move_delta(
    st: Option<CellView>,
    cols: DimensionIndex,
    rows: DimensionIndex,
    max_y: int,
    vp: Viewport,
) -> int {
    let t = match st {
        None => initial_cell(cols, rows),
        Some(c) => down_target(c, cols, rows),
    };
    if down_accepts(t, max_y) {
        scroll_out_down(t, vp)
    } else {
        0
    }
}

/// Tracks the currently selected cell (absent until the first navigation
/// or click event) against a configured maximum grid extent per axis.
pub struct ActiveCellController {
    pub active: Option<ActiveCell>,
    pub max_extent_x: u32,
    pub max_extent_y: u32,
}

impl ActiveCellController {
    pub open spec fn wf(self) -> bool {
        match self.active {
            Some(c) => c.wf(),
            None => true,
        }
    }

    /// A fresh controller with no active cell.
    pub fn new(max_extent_x: u32, max_extent_y: u32) -> (c: ActiveCellController)
        ensures
            c.wf(),
            c.active is None,
            c.max_extent_x == max_extent_x,
            c.max_extent_y == max_extent_y,
    {
        ActiveCellController { active: None, max_extent_x, max_extent_y }
    }

    /// Move the cursor one column right (or initialize it at `(1, 1)`),
    /// rejecting the move if the new bound would pass the maximum
    /// horizontal extent. Returns the (non-negative) scroll delta that
    /// brings the new cell fully into view.
    pub fn move_right(&mut self, cols: &DimensionIndex, rows: &DimensionIndex, vp: &Viewport) -> (
        delta: i64)
        requires
            old(self).wf(),
            cols.wf(),
            rows.wf(),
            vp.wf(),
        ensures
            final(self).wf(),
            final(self).max_extent_x == old(self).max_extent_x,
            final(self).max_extent_y == old(self).max_extent_y,
            state_of(final(self).active) == after_move_right(
                state_of(old(self).active),
                *cols,
                *rows,
                old(self).max_extent_x as int,
            ),
            delta == right_move_delta(
                state_of(old(self).active),
                *cols,
                *rows,
                old(self).max_extent_x as int,
                *vp,
            ),
    {
        let (next_col, next_row, left, top, width, height): (u32, u32, i64, i64, u32, u32) =
            match &self.active {
            Some(cell) => {
                if cell.col == u32::MAX {
                    // the next column is not representable: reject
                    return 0;
                }
                let w = cols.get_size(cell.col);
                let h = rows.get_size(cell.row - 1);
                (cell.col + 1, cell.row, cell.bounds.right(), cell.bounds.top(), w, h)
            },
            None => {
                let w = cols.get_size(0);
                let h = rows.get_size(0);
                (1, 1, 0i64, 0i64, w, h)
            },
        };
        if left > self.max_extent_x as i64 - width as i64 {
            // the new right edge would pass the maximum extent: reject
            return 0;
        }
        let bounds = Rectangle::new(left, top, width as i64, height as i64);
        self.active = Some(ActiveCell { col: next_col, row: next_row, bounds });
        let right_edge: i64 = left + width as i64;
        let visible_right: i64 = vp.scroll_x as i64 + vp.pane_width as i64;
        if right_edge > visible_right {
            right_edge - visible_right
        } else {
            0
        }
    }

    /// Move the cursor one column left (or initialize it at `(1, 1)`).
    /// A move left from column one is a no-op, not an error. Returns the
    /// (non-positive) scroll delta that brings the new cell into view.
    pub fn move_left(&mut self, cols: &DimensionIndex, rows: &DimensionIndex, vp: &Viewport) -> (
        delta: i64)
        requires
            old(self).wf(),
            cols.wf(),
            rows.wf(),
            vp.wf(),
        ensures
            final(self).wf(),
            final(self).max_extent_x == old(self).max_extent_x,
            final(self).max_extent_y == old(self).max_extent_y,
            state_of(final(self).active) == after_move_left(
                state_of(old(self).active),
                *cols,
                *rows,
            ),
            delta == left_move_delta(state_of(old(self).active), *cols, *rows, *vp),
    {
        let (next_col, next_row, left, top, width, height): (u32, u32, i64, i64, u32, u32) =
            match &self.active {
            Some(cell) => {
                if cell.col == 1 {
                    // already at the leftmost column: clamp to a no-op
                    return 0;
                }
                let w = cols.get_size(cell.col - 2);
                let h = rows.get_size(cell.row - 1);
                (cell.col - 1, cell.row, cell.bounds.left() - w as i64, cell.bounds.top(), w, h)
            },
            None => {
                let w = cols.get_size(0);
                let h = rows.get_size(0);
                (1, 1, 0i64, 0i64, w, h)
            },
        };
        if left < 0 {
            // the new cell would start before the grid origin: reject
            return 0;
        }
        let bounds = Rectangle::new(left, top, width as i64, height as i64);
        self.active = Some(ActiveCell { col: next_col, row: next_row, bounds });
        let scroll_left: i64 = vp.scroll_x as i64;
        if left < scroll_left {
            left - scroll_left
        } else {
            0
        }
    }

    /// Move the cursor one row up (or initialize it at `(1, 1)`). A move
    /// up from row one is a no-op.
    pub fn move_up(&mut self, cols: &DimensionIndex, rows: &DimensionIndex, vp: &Viewport) -> (
        delta: i64)
        requires
            old(self).wf(),
            cols.wf(),
            rows.wf(),
            vp.wf(),
        ensures
            final(self).wf(),
            final(self).max_extent_x == old(self).max_extent_x,
            final(self).max_extent_y == old(self).max_extent_y,
            state_of(final(self).active) == after_move_up(
                state_of(old(self).active),
                *cols,
                *rows,
            ),
            delta == up_move_delta(state_of(old(self).active), *cols, *rows, *vp),
    {
        let (next_col, next_row, left, top, width, height): (u32, u32, i64, i64, u32, u32) =
            match &self.active {
            Some(cell) => {
                if cell.row == 1 {
                    // already at the topmost row: clamp to a no-op
                    return 0;
                }
                let w = cols.get_size(cell.col - 1);
                let h = rows.get_size(cell.row - 2);
                (cell.col, cell.row - 1, cell.bounds.left(), cell.bounds.top() - h as i64, w, h)
            },
            None => {
                let w = cols.get_size(0);
                let h = rows.get_size(0);
                (1, 1, 0i64, 0i64, w, h)
            },
        };
        if top < 0 {
            // the new cell would start above the grid origin: reject
            return 0;
        }
        let bounds = Rectangle::new(left, top, width as i64, height as i64);
        self.active = Some(ActiveCell { col: next_col, row: next_row, bounds });
        let scroll_top: i64 = vp.scroll_y as i64;
        if top < scroll_top {
            top - scroll_top
        } else {
            0
        }
    }

    /// Move the cursor one row down (or initialize it at `(1, 1)`),
    /// rejecting the move if the new bound would pass the maximum
    /// vertical extent.
    pub fn move_down(&mut self, cols: &DimensionIndex, rows: &DimensionIndex, vp: &Viewport) -> (
        delta: i64)
        requires
            old(self).wf(),
            cols.wf(),
            rows.wf(),
            vp.wf(),
        ensures
            final(self).wf(),
            final(self).max_extent_x == old(self).max_extent_x,
            final(self).max_extent_y == old(self).max_extent_y,
            state_of(final(self).active) == after_move_down(
                state_of(old(self).active),
                *cols,
                *rows,
                old(self).max_extent_y as int,
            ),
            delta == down_move_delta(
                state_of(old(self).active),
                *cols,
                *rows,
                old(self).max_extent_y as int,
                *vp,
            ),
    {
        let (next_col, next_row, left, top, width, height): (u32, u32, i64, i64, u32, u32) =
            match &self.active {
            Some(cell) => {
                if cell.row == u32::MAX {
                    // the next row is not representable: reject
                    return 0;
                }
                let w = cols.get_size(cell.col - 1);
                let h = rows.get_size(cell.row);
                (cell.col, cell.row + 1, cell.bounds.left(), cell.bounds.bottom(), w, h)
            },
            None => {
                let w = cols.get_size(0);
                let h = rows.get_size(0);
                (1, 1, 0i64, 0i64, w, h)
            },
        };
        if top > self.max_extent_y as i64 - height as i64 {
            // the new bottom edge would pass the maximum extent: reject
            return 0;
        }
        let bounds = Rectangle::new(left, top, width as i64, height as i64);
        self.active = Some(ActiveCell { col: next_col, row: next_row, bounds });
        let bottom_edge: i64 = top + height as i64;
        let visible_bottom: i64 = vp.scroll_y as i64 + vp.pane_height as i64;
        if bottom_edge > visible_bottom {
            bottom_edge - visible_bottom
        } else {
            0
        }
    }

    /// Select the cell under the absolute pixel position `(x, y)`,
    /// independent of the current state: both axes are resolved through
    /// `locate`, negative coordinates clamp to the first index, and the
    /// new bounding rectangle is absolute (not derived from a previous
    /// cell).
    pub fn on_click(&mut self, x: i64, y: i64, cols: &DimensionIndex, rows: &DimensionIndex)
        requires
            old(self).wf(),
            cols.wf(),
            rows.wf(),
            x <= i64::MAX - u32::MAX,
            y <= i64::MAX - u32::MAX,
            x < u32::MAX || (x as int) < cols.offset_of(u32::MAX as int),
            y < u32::MAX || (y as int) < rows.offset_of(u32::MAX as int),
        ensures
            final(self).wf(),
            final(self).max_extent_x == old(self).max_extent_x,
            final(self).max_extent_y == old(self).max_extent_y,
            final(self).active matches Some(c) && {
                let px: int = if x >= 0 {
                    x as int
                } else {
                    0
                };
                let py: int = if y >= 0 {
                    y as int
                } else {
                    0
                };
                &&& 1 <= c.col
                &&& 1 <= c.row
                &&& c.bounds.spec_left() == cols.offset_of(c.col as int - 1)
                &&& c.bounds.spec_top() == rows.offset_of(c.row as int - 1)
                &&& c.bounds.spec_left() <= px < cols.offset_of(c.col as int)
                &&& c.bounds.spec_top() <= py < rows.offset_of(c.row as int)
                &&& c.bounds.spec_width() == cols.size_at(c.col as int - 1)
                &&& c.bounds.spec_height() == rows.size_at(c.row as int - 1)
            },
    {
        let px: u64 = if x >= 0 {
            x as u64
        } else {
            0
        };
        let py: u64 = if y >= 0 {
            y as u64
        } else {
            0
        };
        proof {
            cols.lemma_offset_monotone(0, u32::MAX as int);
            rows.lemma_offset_monotone(0, u32::MAX as int);
            cols.lemma_offset_monotone(u32::MAX as int, u32::MAX as int + 1);
            rows.lemma_offset_monotone(u32::MAX as int, u32::MAX as int + 1);
        }
        let cloc = cols.locate(px);
        let rloc = rows.locate(py);
        proof {
            // the click is within the addressable range, so the located
            // index has a representable successor
            if cloc.index == u32::MAX {
                cols.lemma_offset_monotone(u32::MAX as int, cloc.index as int);
            }
            assert(cloc.index < u32::MAX);
            assert(rloc.index < u32::MAX);
        }
        let col = cloc.index + 1;
        let row = rloc.index + 1;
        let width = cols.get_size(cloc.index);
        let height = rows.get_size(rloc.index);
        proof {
            cols.lemma_size_at_bounds(cloc.index as int);
            rows.lemma_size_at_bounds(rloc.index as int);
        }
        let bounds = Rectangle::new(cloc.offset as i64, rloc.offset as i64, width as i64, height as i64);
        self.active = Some(ActiveCell { col, row, bounds });
    }
}

/// Law: with the cursor at `(1, 1)`, a move left or a move up leaves the
/// state (and so the cursor) unchanged: navigation clamps at the first
/// column and row instead of failing.
pub proof fn lemma_moves_clamp_at_one(
    c: CellView,
    cols: DimensionIndex,
    rows: DimensionIndex,
)
    requires
        c.col == 1,
        c.row == 1,
    ensures
        after_move_left(Some(c), cols, rows) == Some(c),
        after_move_up(Some(c), cols, rows) == Some(c),
{
}

/// Law: a move right or down whose resulting bound would pass the
/// configured maximum extent leaves the active cell unchanged.
pub proof fn lemma_moves_reject_beyond_extent(
    c: CellView,
    cols: DimensionIndex,
    rows: DimensionIndex,
    max_x: int,
    max_y: int,
)
    requires
        !right_accepts(right_target(c, cols, rows), max_x),
        !down_accepts(down_target(c, cols, rows), max_y),
    ensures
        after_move_right(Some(c), cols, rows, max_x) == Some(c),
        after_move_down(Some(c), cols, rows, max_y) == Some(c),
{
}

} // verus!
