//! The sheet's cell store, keyed by the cells' display names: at most
//! one cell per name — and names are unique per address, so at most one
//! per `(column, row)` — kept in ascending name order, with range queries
//! used for painting and selection.

use vstd::prelude::*;
use crate::cell::{
    lemma_name_injective, lemma_name_lex_asymmetric, lemma_name_lex_connected,
    lemma_name_lex_transitive, name_lex_less, Cell,
};

verus! {

/// Stores the sheet's cells in ascending display-name order.
pub struct DataModel {
    items: Vec<Cell>,
}

impl DataModel {
    pub closed spec fn cells(self) -> Seq<Cell> {
        self.items@
    }

    pub open spec fn wf(self) -> bool {
        forall|j: int, k: int|
            0 <= j < k < self.cells().len() ==> name_lex_less(
                (#[trigger] self.cells()[j]).spec_name(),
                (#[trigger] self.cells()[k]).spec_name(),
            )
    }

    pub open spec fn has_cell(self, col: int, row: int) -> bool {
        exists|j: int|
            0 <= j < self.cells().len() && (#[trigger] self.cells()[j]).spec_col() == col && self.cells()[j].spec_row() == row
    }

    /// The stored cell at `(col, row)`, if any.
    pub open spec fn spec_find(self, col: int, row: int) -> Option<Cell> {
        if self.has_cell(col, row) {
            Some(
                self.cells()[choose|j: int|
                    0 <= j < self.cells().len() && (#[trigger] self.cells()[j]).spec_col() == col
                        && self.cells()[j].spec_row() == row],
            )
        } else {
            None
        }
    }

    proof fn lemma_unique_position(self, j: int, k: int)
        requires
            self.wf(),
            0 <= j < self.cells().len(),
            0 <= k < self.cells().len(),
            self.cells()[j].spec_col() == self.cells()[k].spec_col(),
            self.cells()[j].spec_row() == self.cells()[k].spec_row(),
        ensures
            j == k,
    {
        if j != k {
            assert(self.cells()[j].spec_name() == self.cells()[k].spec_name());
            if j < k {
                lemma_name_lex_asymmetric(
                    self.cells()[j].spec_name(),
                    self.cells()[k].spec_name(),
                );
            } else {
                lemma_name_lex_asymmetric(
                    self.cells()[k].spec_name(),
                    self.cells()[j].spec_name(),
                );
            }
        }
    }

    /// The entry at position `j` is what `spec_find` returns for its
    /// address.
    proof fn lemma_find_at(self, j: int)
        requires
            self.wf(),
            0 <= j < self.cells().len(),
        ensures
            self.spec_find(self.cells()[j].spec_col(), self.cells()[j].spec_row()) == Some(
                self.cells()[j],
            ),
    {
        let col = self.cells()[j].spec_col();
        let row = self.cells()[j].spec_row();
        assert(self.has_cell(col, row));
        let k = choose|k: int|
            0 <= k < self.cells().len() && (#[trigger] self.cells()[k]).spec_col() == col
                && self.cells()[k].spec_row() == row;
        self.lemma_unique_position(j, k);
    }

    /// An empty store.
    pub fn new() -> (m: DataModel)
        ensures
            m.wf(),
            m.cells().len() == 0,
            forall|col: int, row: int| m.spec_find(col, row) is None,
    {
        DataModel { items: Vec::new() }
    }

    /// Insert or replace the cell stored at `cell`'s address.
    pub fn set_cell(&mut self, cell: Cell)
        requires
            old(self).wf(),
        ensures
            final(self).wf(),
            final(self).spec_find(cell.spec_col(), cell.spec_row()) == Some(cell),
            forall|col: int, row: int|
                !(col == cell.spec_col() && row == cell.spec_row()) ==> final(self).spec_find(
                    col,
                    row,
                ) == old(self).spec_find(col, row),
    {
        let mut p: usize = 0;
        while p < self.items.len() && self.items[p].name_before(&cell)
            invariant
                self.wf(),
                0 <= p <= self.items.len(),
                forall|m: int|
                    0 <= m < p ==> name_lex_less(
                        (#[trigger] self.cells()[m]).spec_name(),
                        cell.spec_name(),
                    ),
            decreases self.items.len() - p,
        {
            p += 1;
        }
        let ghost old_self = *self;
        let ghost s = self.items@;
        if p < self.items.len() && !cell.name_before(&self.items[p]) {
            proof {
                // neither name is below the other: the names are equal,
                // so the stored entry sits at the same address
                lemma_name_lex_connected(s[p as int].spec_name(), cell.spec_name());
                lemma_name_injective(s[p as int], cell);
                assert(s[p as int].spec_col() == cell.spec_col());
                assert(s[p as int].spec_row() == cell.spec_row());
            }
            self.items[p] = cell;
            proof {
                let t = self.items@;
                assert(old_self.cells() == s);
                assert(self.cells() == t);
                assert(t == s.update(p as int, cell));
                assert(t[p as int] == cell);
                self.lemma_find_at(p as int);
                assert forall|col: int, row: int|
                    !(col == cell.spec_col() && row == cell.spec_row()) implies #[trigger] self.spec_find(
                    col,
                    row,
                ) == old_self.spec_find(col, row) by {
                    if old_self.has_cell(col, row) {
                        let j = choose|j: int|
                            0 <= j < s.len() && (#[trigger] s[j]).spec_col() == col
                                && s[j].spec_row() == row;
                        assert(j != p);
                        assert(t[j].spec_col() == col && t[j].spec_row() == row);
                        old_self.lemma_find_at(j);
                        self.lemma_find_at(j);
                    } else {
                        assert(!self.has_cell(col, row)) by {
                            if self.has_cell(col, row) {
                                let j = choose|j: int|
                                    0 <= j < t.len() && (#[trigger] t[j]).spec_col() == col
                                        && t[j].spec_row() == row;
                                assert(j != p);
                                assert(s[j].spec_col() == col && s[j].spec_row() == row);
                            }
                        }
                    }
                }
            }
        } else {
            proof {
                // the scan stopped strictly below the next stored name
                assert forall|m: int|
                    p <= m < s.len() implies name_lex_less(
                    cell.spec_name(),
                    (#[trigger] s[m]).spec_name(),
                ) by {
                    assert(name_lex_less(cell.spec_name(), s[p as int].spec_name()));
                    if p < m {
                        assert(self.cells()[p as int] == s[p as int]);
                        assert(self.cells()[m] == s[m]);
                        assert(name_lex_less(
                            (self.cells()[p as int]).spec_name(),
                            (self.cells()[m]).spec_name(),
                        ));
                        lemma_name_lex_transitive(
                            cell.spec_name(),
                            s[p as int].spec_name(),
                            s[m].spec_name(),
                        );
                    }
                }
            }
            self.items.insert(p, cell);
            proof {
                let t = self.items@;
                assert(old_self.cells() == s);
                assert(self.cells() == t);
                assert(t == s.insert(p as int, cell));
                assert forall|j: int, k: int|
                    0 <= j < k < t.len() implies name_lex_less(
                    (#[trigger] t[j]).spec_name(),
                    (#[trigger] t[k]).spec_name(),
                ) by {
                    assert(t[j] == if j < p {
                        s[j]
                    } else if j == p {
                        cell
                    } else {
                        s[j - 1]
                    });
                    assert(t[k] == if k < p {
                        s[k]
                    } else if k == p {
                        cell
                    } else {
                        s[k - 1]
                    });
                }
                assert(self.wf());
                self.lemma_find_at(p as int);
                assert forall|col: int, row: int|
                    !(col == cell.spec_col() && row == cell.spec_row()) implies #[trigger] self.spec_find(
                    col,
                    row,
                ) == old_self.spec_find(col, row) by {
                    if old_self.has_cell(col, row) {
                        let j = choose|j: int|
                            0 <= j < s.len() && (#[trigger] s[j]).spec_col() == col
                                && s[j].spec_row() == row;
                        old_self.lemma_find_at(j);
                        if j < p {
                            assert(t[j].spec_col() == col && t[j].spec_row() == row);
                            self.lemma_find_at(j);
                        } else {
                            assert(t[j + 1].spec_col() == col && t[j + 1].spec_row() == row);
                            self.lemma_find_at(j + 1);
                        }
                    } else {
                        assert(!self.has_cell(col, row)) by {
                            if self.has_cell(col, row) {
                                let j = choose|j: int|
                                    0 <= j < t.len() && (#[trigger] t[j]).spec_col() == col
                                        && t[j].spec_row() == row;
                                assert(j != p);
                                if j < p {
                                    assert(s[j].spec_col() == col && s[j].spec_row() == row);
                                } else {
                                    assert(s[j - 1].spec_col() == col && s[j - 1].spec_row()
                                        == row);
                                }
                            }
                        }
                    }
                }
            }
        }
    }

    /// The cell stored at `(col_idx, row_idx)`, if any.
    pub fn get_cell(&self, col_idx: u8, row_idx: u16) -> (r: Option<&Cell>)
        requires
            self.wf(),
        ensures
            match r {
                Some(cell) => self.spec_find(col_idx as int, row_idx as int) == Some(*cell),
                None => self.spec_find(col_idx as int, row_idx as int) is None,
            },
    {
        let mut j: usize = 0;
        while j < self.items.len()
            invariant
                self.wf(),
                0 <= j <= self.items.len(),
                forall|m: int|
                    0 <= m < j ==> !((#[trigger] self.cells()[m]).spec_col() == col_idx
                        && self.cells()[m].spec_row() == row_idx),
            decreases self.items.len() - j,
        {
            if self.items[j].get_col_idx() == col_idx && self.items[j].get_row_idx() == row_idx {
                proof {
                    self.lemma_find_at(j as int);
                }
                return Some(&self.items[j]);
            }
            j += 1;
        }
        proof {
            assert(!self.has_cell(col_idx as int, row_idx as int));
        }
        None
    }

    /// All stored cells at or before `(col_idx, row_idx)` on both axes,
    /// in ascending address order.
    pub fn get_cells_within(&self, col_idx: u8, row_idx: u16) -> (result: Vec<&Cell>)
        requires
            self.wf(),
        ensures
            result@.map_values(|c: &Cell| *c) == self.cells().filter(
                |c: Cell| c.spec_col() <= col_idx && c.spec_row() <= row_idx,
            ),
    {
        let ghost pred = |c: Cell| c.spec_col() <= col_idx as int && c.spec_row() <= row_idx as int;
        let mut result: Vec<&Cell> = Vec::new();
        let mut j: usize = 0;
        proof {
            assert(self.cells().take(0) =~= Seq::<Cell>::empty());
            assert(result@.map_values(|c: &Cell| *c) =~= self.cells().take(0).filter(pred));
        }
        while j < self.items.len()
            invariant
                self.wf(),
                0 <= j <= self.items.len(),
                pred == (|c: Cell| c.spec_col() <= col_idx as int && c.spec_row()
                    <= row_idx as int),
                result@.map_values(|c: &Cell| *c) == self.cells().take(j as int).filter(pred),
            decreases self.items.len() - j,
        {
            let ghost prefix = self.cells().take(j as int);
            proof {
                assert(self.cells().take(j as int + 1) =~= prefix.push(self.cells()[j as int]));
                reveal(Seq::filter);
                assert(prefix.push(self.cells()[j as int]).drop_last() =~= prefix);
            }
            if self.items[j].get_col_idx() <= col_idx && self.items[j].get_row_idx() <= row_idx {
                result.push(&self.items[j]);
                proof {
                    assert(result@.map_values(|c: &Cell| *c) =~= self.cells().take(
                        j as int + 1,
                    ).filter(pred));
                }
            } else {
                proof {
                    assert(result@.map_values(|c: &Cell| *c) =~= self.cells().take(
                        j as int + 1,
                    ).filter(pred));
                }
            }
            j += 1;
        }
        proof {
            assert(self.cells().take(self.cells().len() as int) =~= self.cells());
        }
        result
    }

    /// All stored cells at or before row `row_idx`, in ascending address
    /// order.
    pub fn get_cells_within_rows(&self, row_idx: u16) -> (result: Vec<&Cell>)
        requires
            self.wf(),
        ensures
            result@.map_values(|c: &Cell| *c) == self.cells().filter(
                |c: Cell| c.spec_row() <= row_idx,
            ),
    {
        let ghost pred = |c: Cell| c.spec_row() <= row_idx as int;
        let mut result: Vec<&Cell> = Vec::new();
        let mut j: usize = 0;
        proof {
            assert(self.cells().take(0) =~= Seq::<Cell>::empty());
            assert(result@.map_values(|c: &Cell| *c) =~= self.cells().take(0).filter(pred));
        }
        while j < self.items.len()
            invariant
                self.wf(),
                0 <= j <= self.items.len(),
                pred == (|c: Cell| c.spec_row() <= row_idx as int),
                result@.map_values(|c: &Cell| *c) == self.cells().take(j as int).filter(pred),
            decreases self.items.len() - j,
        {
            let ghost prefix = self.cells().take(j as int);
            proof {
                assert(self.cells().take(j as int + 1) =~= prefix.push(self.cells()[j as int]));
                reveal(Seq::filter);
                assert(prefix.push(self.cells()[j as int]).drop_last() =~= prefix);
            }
            if self.items[j].get_row_idx() <= row_idx {
                result.push(&self.items[j]);
                proof {
                    assert(result@.map_values(|c: &Cell| *c) =~= self.cells().take(
                        j as int + 1,
                    ).filter(pred));
                }
            } else {
                proof {
                    assert(result@.map_values(|c: &Cell| *c) =~= self.cells().take(
                        j as int + 1,
                    ).filter(pred));
                }
            }
            j += 1;
        }
        proof {
            assert(self.cells().take(self.cells().len() as int) =~= self.cells());
        }
        result
    }

    /// All stored cells at or before column `col_idx`, in ascending
    /// address order.
    pub fn get_cells_within_cols(&self, col_idx: u8) -> (result: Vec<&Cell>)
        requires
            self.wf(),
        ensures
            result@.map_values(|c: &Cell| *c) == self.cells().filter(
                |c: Cell| c.spec_col() <= col_idx,
            ),
    {
        let ghost pred = |c: Cell| c.spec_col() <= col_idx as int;
        let mut result: Vec<&Cell> = Vec::new();
        let mut j: usize = 0;
        proof {
            assert(self.cells().take(0) =~= Seq::<Cell>::empty());
            assert(result@.map_values(|c: &Cell| *c) =~= self.cells().take(0).filter(pred));
        }
        while j < self.items.len()
            invariant
                self.wf(),
                0 <= j <= self.items.len(),
                pred == (|c: Cell| c.spec_col() <= col_idx as int),
                result@.map_values(|c: &Cell| *c) == self.cells().take(j as int).filter(pred),
            decreases self.items.len() - j,
        {
            let ghost prefix = self.cells().take(j as int);
            proof {
                assert(self.cells().take(j as int + 1) =~= prefix.push(self.cells()[j as int]));
                reveal(Seq::filter);
                assert(prefix.push(self.cells()[j as int]).drop_last() =~= prefix);
            }
            if self.items[j].get_col_idx() <= col_idx {
                result.push(&self.items[j]);
                proof {
                    assert(result@.map_values(|c: &Cell| *c) =~= self.cells().take(
                        j as int + 1,
                    ).filter(pred));
                }
            } else {
                proof {
                    assert(result@.map_values(|c: &Cell| *c) =~= self.cells().take(
                        j as int + 1,
                    ).filter(pred));
                }
            }
            j += 1;
        }
        proof {
            assert(self.cells().take(self.cells().len() as int) =~= self.cells());
        }
        result
    }
}

} // verus!
