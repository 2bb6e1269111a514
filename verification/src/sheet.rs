//! A sheet facade over the cell store and the row store, with the
//! scroll-offset-to-row resolution used to anchor painting: rows are
//! one-based, row `i` starts at the sum of the heights of rows `1` to
//! `i - 1`, and any row without a stored entry has the default height.

use vstd::prelude::*;
use crate::cell::Cell;
use crate::model::DataModel;
use crate::row::{Row, RowManager};

verus! {

/// The default pixel height of a row without a stored entry.
pub open spec fn spec_default_row_height() -> int {
    20
}

/// The effective height of one-based row `i`.
pub open spec fn height_of(m: RowManager, i: int) -> int {
    match m.spec_find(i) {
        Some(r) => r.spec_height(),
        None => spec_default_row_height(),
    }
}

/// The pixel offset of the start of one-based row `i`: the sum of the
/// heights of all rows before it.
pub open spec fn row_offset_of(m: RowManager, i: int) -> int
    decreases i,
{
    if i <= 1 {
        0
    } else {
        row_offset_of(m, i - 1) + height_of(m, i - 1)
    }
}

/// The last entry in `rows` whose index is `idx`, if any: later entries
/// for the same row replace earlier ones.
pub open spec fn last_row_in(rows: Seq<Row>, idx: int) -> Option<Row>
    decreases rows.len(),
{
    if rows.len() == 0 {
        None
    } else if rows.last().spec_idx() == idx {
        Some(rows.last())
    } else {
        last_row_in(rows.drop_last(), idx)
    }
}

/// The last entry in `cells` at address `(col, row)`, if any.
pub open spec fn last_cell_in(cells: Seq<Cell>, col: int, row: int) -> Option<Cell>
    decreases cells.len(),
{
    if cells.len() == 0 {
        None
    } else if cells.last().spec_col() == col && cells.last().spec_row() == row {
        Some(cells.last())
    } else {
        last_cell_in(cells.drop_last(), col, row)
    }
}

/// Every effective row height lies in `[1, u16::MAX]`.
pub proof fn lemma_height_bounds(m: RowManager, i: int)
    requires
        m.wf(),
    ensures
        1 <= height_of(m, i) <= u16::MAX,
{
    if m.has_row(i) {
        let j = choose|j: int|
            0 <= j < m.rows().len() && (#[trigger] m.rows()[j]).spec_idx() == i;
        assert(m.rows()[j].wf());
        m.rows()[j].lemma_field_ranges();
        assert(m.spec_find(i) == Some(m.rows()[j]));
    }
}

/// Row offsets grow by at least one pixel per row.
pub proof fn lemma_row_offset_monotone(m: RowManager, a: int, b: int)
    requires
        m.wf(),
        1 <= a <= b,
    ensures
        row_offset_of(m, a) + (b - a) <= row_offset_of(m, b),
    decreases b - a,
{
    if a < b {
        lemma_row_offset_monotone(m, a, b - 1);
        lemma_height_bounds(m, b - 1);
    }
}

/// In-memory sheet state: the cell contents and the row sizing.
pub struct HyperSheet {
    data_model: DataModel,
    row_manager: RowManager,
}

impl HyperSheet {
    pub closed spec fn spec_rows(self) -> RowManager {
        self.row_manager
    }

    pub closed spec fn spec_cells(self) -> DataModel {
        self.data_model
    }

    pub open spec fn wf(self) -> bool {
        &&& self.spec_cells().wf()
        &&& self.spec_rows().wf()
    }

    /// An empty sheet: no cells, every row at the default height.
    pub fn new() -> (s: HyperSheet)
        ensures
            s.wf(),
            forall|idx: int| s.spec_rows().spec_find(idx) is None,
            forall|col: int, row: int| s.spec_cells().spec_find(col, row) is None,
    {
        HyperSheet { data_model: DataModel::new(), row_manager: RowManager::new() }
    }

    /// Store every row entry of `rows`, in order: for each index the last
    /// entry in `rows` wins, and untouched indices keep their prior entry.
    pub fn update_row_manager(&mut self, rows: Vec<Row>)
        requires
            old(self).wf(),
            forall|j: int| 0 <= j < rows@.len() ==> (#[trigger] rows@[j]).wf(),
        ensures
            final(self).wf(),
            final(self).spec_cells() == old(self).spec_cells(),
            forall|idx: int|
                final(self).spec_rows().spec_find(idx) == match last_row_in(rows@, idx) {
                    Some(r) => Some(r),
                    None => old(self).spec_rows().spec_find(idx),
                },
    {
        let ghost orig = self.row_manager;
        let mut j: usize = 0;
        proof {
            assert forall|idx: int| last_row_in(rows@.take(0), idx) is None by {
                assert(rows@.take(0).len() == 0);
            }
        }
        while j < rows.len()
            invariant
                self.wf(),
                self.data_model == old(self).data_model,
                0 <= j <= rows@.len(),
                forall|m: int| 0 <= m < rows@.len() ==> (#[trigger] rows@[m]).wf(),
                forall|idx: int|
                    self.row_manager.spec_find(idx) == match last_row_in(rows@.take(j as int), idx) {
                        Some(r) => Some(r),
                        None => orig.spec_find(idx),
                    },
            decreases rows@.len() - j,
        {
            let ghost before = self.row_manager;
            let row = rows[j];
            self.row_manager.set_row(row);
            j += 1;
            proof {
                let t = rows@.take(j as int);
                assert(t.drop_last() =~= rows@.take(j as int - 1));
                assert(t.last() == rows@[j as int - 1]);
                assert forall|idx: int|
                    self.row_manager.spec_find(idx) == match last_row_in(t, idx) {
                        Some(r) => Some(r),
                        None => orig.spec_find(idx),
                    } by {
                    if idx == row.spec_idx() {
                        assert(last_row_in(t, idx) == Some(row));
                    } else {
                        assert(last_row_in(t, idx) == last_row_in(t.drop_last(), idx));
                        assert(self.row_manager.spec_find(idx) == before.spec_find(idx));
                    }
                }
            }
        }
        proof {
            assert(rows@.take(rows@.len() as int) =~= rows@);
        }
    }

    /// Store every cell of `cells`, in order: for each address the last
    /// cell in `cells` wins.
    pub fn add_cells(&mut self, cells: Vec<Cell>)
        requires
            old(self).wf(),
        ensures
            final(self).wf(),
            final(self).spec_rows() == old(self).spec_rows(),
            forall|col: int, row: int|
                final(self).spec_cells().spec_find(col, row) == match last_cell_in(
                    cells@,
                    col,
                    row,
                ) {
                    Some(c) => Some(c),
                    None => old(self).spec_cells().spec_find(col, row),
                },
    {
        let ghost orig = self.data_model;
        let mut j: usize = 0;
        proof {
            assert forall|col: int, row: int| last_cell_in(cells@.take(0), col, row) is None by {
                assert(cells@.take(0).len() == 0);
            }
        }
        while j < cells.len()
            invariant
                self.wf(),
                self.row_manager == old(self).row_manager,
                0 <= j <= cells@.len(),
                forall|col: int, row: int|
                    self.data_model.spec_find(col, row) == match last_cell_in(
                        cells@.take(j as int),
                        col,
                        row,
                    ) {
                        Some(c) => Some(c),
                        None => orig.spec_find(col, row),
                    },
            decreases cells@.len() - j,
        {
            let ghost before = self.data_model;
            let cell = cells[j];
            let ghost ccol = cell.spec_col();
            let ghost crow = cell.spec_row();
            self.data_model.set_cell(cell);
            j += 1;
            proof {
                let t = cells@.take(j as int);
                assert(t.drop_last() =~= cells@.take(j as int - 1));
                assert(t.last() == cells@[j as int - 1]);
                assert forall|col: int, row: int|
                    self.data_model.spec_find(col, row) == match last_cell_in(t, col, row) {
                        Some(c) => Some(c),
                        None => orig.spec_find(col, row),
                    } by {
                    if col == ccol && row == crow {
                        assert(last_cell_in(t, col, row) == Some(cell));
                    } else {
                        assert(last_cell_in(t, col, row) == last_cell_in(
                            t.drop_last(),
                            col,
                            row,
                        ));
                        assert(self.data_model.spec_find(col, row) == before.spec_find(col, row));
                    }
                }
            }
        }
        proof {
            assert(cells@.take(cells@.len() as int) =~= cells@);
        }
    }

    /// The stored sizing entry for row `idx`, if any.
    pub fn get_row_with_idx(&self, idx: u16) -> (r: Option<&Row>)
        requires
            self.wf(),
        ensures
            match r {
                Some(row) => self.spec_rows().spec_find(idx as int) == Some(*row),
                None => self.spec_rows().spec_find(idx as int) is None,
            },
    {
        self.row_manager.get_row(idx)
    }

    /// The effective height of one-based row `idx`.
    fn height_at(&self, idx: u16) -> (h: u16)
        requires
            self.wf(),
        ensures
            h == height_of(self.spec_rows(), idx as int),
            1 <= h,
    {
        match self.row_manager.get_row(idx) {
            Some(r) => r.get_height(),
            None => 20,
        }
    }

    /// The zero-based count of rows wholly above `row_offset`: the
    /// one-based row `r + 1` is the row whose half-open pixel interval
    /// contains the offset, so `row_offset_of(r + 1) <= row_offset <
    /// row_offset_of(r + 2)`. This is the same zero-based half-open
    /// convention as `DimensionIndex::locate`; the count clamps once the
    /// representable rows are exhausted.
    pub fn get_last_visible_row_idx(&self, row_offset: usize) -> (r: u16)
        requires
            self.wf(),
            row_offset <= usize::MAX - u16::MAX as usize,
        ensures
            row_offset_of(self.spec_rows(), r as int + 1) <= row_offset,
            row_offset < row_offset_of(self.spec_rows(), u16::MAX as int + 1) ==> row_offset
                < row_offset_of(self.spec_rows(), r as int + 2),
            row_offset_of(self.spec_rows(), u16::MAX as int + 1) <= row_offset ==> r == u16::MAX
                - 1,
    {
        let off: u64 = row_offset as u64;
        let mut i: u16 = 1;
        let mut next: u64 = self.height_at(1) as u64;
        proof {
            assert(row_offset_of(self.spec_rows(), 1) == 0);
            assert(row_offset_of(self.spec_rows(), 2) == height_of(self.spec_rows(), 1));
        }
        while next <= off && i < u16::MAX
            invariant
                self.wf(),
                off == row_offset as u64,
                off <= u64::MAX - u16::MAX,
                1 <= i,
                next == row_offset_of(self.spec_rows(), i as int + 1),
                row_offset_of(self.spec_rows(), i as int) <= off,
            decreases u16::MAX - i,
        {
            i = i + 1;
            let h = self.height_at(i);
            next = next + h as u64;
        }
        proof {
            if next <= off {
                // exhausted the representable rows: clamp
                assert(i == u16::MAX);
            } else {
                lemma_row_offset_monotone(self.spec_rows(), i as int + 1, u16::MAX as int + 1);
            }
        }
        i - 1
    }
}

} // verus!
