//! Columns with explicit pixel widths, and the sparse column store: only
//! columns whose width differs from the default are ever materialized,
//! kept in ascending index order.

use vstd::prelude::*;

verus! {

/// One column's sizing entry: its index and its pixel width.
#[derive(Clone, Copy, Debug)]
pub struct Column {
    idx: u8,
    width: u16,
}

impl Column {
    pub closed spec fn spec_idx(self) -> int {
        self.idx as int
    }

    pub closed spec fn spec_width(self) -> int {
        self.width as int
    }

    /// Every column carries a positive width.
    pub open spec fn wf(self) -> bool {
        1 <= self.spec_width()
    }

    /// A new column entry at `idx` with the default width.
    pub fn new(idx: u8) -> (r: Column)
        ensures
            r.wf(),
            r.spec_idx() == idx,
            r.spec_width() == 20,
    {
        Column { idx, width: 20 }
    }

    pub fn get_width(&self) -> (h: u16)
        ensures
            h == self.spec_width(),
    {
        self.width
    }

    /// Set the column's width. A width of zero is out of range and is
    /// silently rejected, keeping the prior value.
    pub fn set_width(&mut self, width: u16)
        requires
            old(self).wf(),
        ensures
            final(self).wf(),
            final(self).spec_idx() == old(self).spec_idx(),
            width == 0 ==> final(self).spec_width() == old(self).spec_width(),
            1 <= width ==> final(self).spec_width() == width,
    {
        if width > 0 {
            self.width = width;
        }
    }
}

/// Sparse store of column entries, in strictly ascending index order.
pub struct ColumnManager {
    items: Vec<Column>,
}

impl ColumnManager {
    pub closed spec fn cols(self) -> Seq<Column> {
        self.items@
    }

    pub open spec fn wf(self) -> bool {
        &&& forall|j: int, k: int|
            0 <= j < k < self.cols().len() ==> (#[trigger] self.cols()[j]).spec_idx() < (
            #[trigger] self.cols()[k]).spec_idx()
        &&& forall|j: int| 0 <= j < self.cols().len() ==> (#[trigger] self.cols()[j]).wf()
    }

    pub open spec fn has_col(self, idx: int) -> bool {
        exists|j: int| 0 <= j < self.cols().len() && (#[trigger] self.cols()[j]).spec_idx() == idx
    }

    /// The stored entry for `idx`, if any.
    pub open spec fn spec_find(self, idx: int) -> Option<Column> {
        if self.has_col(idx) {
            Some(
                self.cols()[choose|j: int|
                    0 <= j < self.cols().len() && (#[trigger] self.cols()[j]).spec_idx() == idx],
            )
        } else {
            None
        }
    }

    proof fn lemma_unique_position(self, j: int, k: int)
        requires
            self.wf(),
            0 <= j < self.cols().len(),
            0 <= k < self.cols().len(),
            self.cols()[j].spec_idx() == self.cols()[k].spec_idx(),
        ensures
            j == k,
    {
    }

    /// The entry at position `j` is what `spec_find` returns for its
    /// index.
    proof fn lemma_find_at(self, j: int)
        requires
            self.wf(),
            0 <= j < self.cols().len(),
        ensures
            self.spec_find(self.cols()[j].spec_idx()) == Some(self.cols()[j]),
    {
        let idx = self.cols()[j].spec_idx();
        assert(self.has_col(idx));
        let k = choose|k: int|
            0 <= k < self.cols().len() && (#[trigger] self.cols()[k]).spec_idx() == idx;
        self.lemma_unique_position(j, k);
    }

    /// An empty store.
    pub fn new() -> (m: ColumnManager)
        ensures
            m.wf(),
            m.cols().len() == 0,
            forall|idx: int| m.spec_find(idx) is None,
    {
        ColumnManager { items: Vec::new() }
    }

    /// Insert or replace the entry for `column`'s index.
    pub fn set_column(&mut self, column: Column)
        requires
            old(self).wf(),
            column.wf(),
        ensures
            final(self).wf(),
            final(self).spec_find(column.spec_idx()) == Some(column),
            forall|idx: int|
                idx != column.spec_idx() ==> final(self).spec_find(idx) == old(self).spec_find(idx),
    {
        let mut p: usize = 0;
        while p < self.items.len() && self.items[p].idx < column.idx
            invariant
                self.wf(),
                column.wf(),
                0 <= p <= self.items.len(),
                forall|m: int| 0 <= m < p ==> (#[trigger] self.cols()[m]).spec_idx() < column.spec_idx(),
            decreases self.items.len() - p,
        {
            p += 1;
        }
        let ghost old_self = *self;
        let ghost s = self.items@;
        if p < self.items.len() && self.items[p].idx == column.idx {
            self.items[p] = column;
            proof {
                let t = self.items@;
                assert(old_self.cols() == s);
                assert(self.cols() == t);
                assert(t == s.update(p as int, column));
                assert(t[p as int] == column);
                self.lemma_find_at(p as int);
                assert forall|idx: int|
                    idx != column.spec_idx() implies #[trigger] self.spec_find(idx)
                    == old_self.spec_find(idx) by {
                    if old_self.has_col(idx) {
                        let j = choose|j: int|
                            0 <= j < s.len() && (#[trigger] s[j]).spec_idx() == idx;
                        assert(j != p);
                        assert(t[j].spec_idx() == idx);
                        old_self.lemma_find_at(j);
                        self.lemma_find_at(j);
                    } else {
                        assert(!self.has_col(idx)) by {
                            if self.has_col(idx) {
                                let j = choose|j: int|
                                    0 <= j < t.len() && (#[trigger] t[j]).spec_idx() == idx;
                                assert(j != p);
                                assert(s[j].spec_idx() == idx);
                            }
                        }
                    }
                }
            }
        } else {
            proof {
                assert forall|m: int|
                    p <= m < s.len() implies column.spec_idx() < (#[trigger] s[m]).spec_idx() by {
                    if p < m {
                        assert(s[p as int].spec_idx() < s[m].spec_idx());
                    }
                }
            }
            self.items.insert(p, column);
            proof {
                let t = self.items@;
                assert(old_self.cols() == s);
                assert(self.cols() == t);
                assert(t == s.insert(p as int, column));
                assert forall|j: int, k: int|
                    0 <= j < k < t.len() implies (#[trigger] t[j]).spec_idx() < (
                #[trigger] t[k]).spec_idx() by {
                    assert(t[j] == if j < p {
                        s[j]
                    } else if j == p {
                        column
                    } else {
                        s[j - 1]
                    });
                    assert(t[k] == if k < p {
                        s[k]
                    } else if k == p {
                        column
                    } else {
                        s[k - 1]
                    });
                }
                assert(self.wf());
                self.lemma_find_at(p as int);
                assert forall|idx: int|
                    idx != column.spec_idx() implies #[trigger] self.spec_find(idx)
                    == old_self.spec_find(idx) by {
                    if old_self.has_col(idx) {
                        let j = choose|j: int|
                            0 <= j < s.len() && (#[trigger] s[j]).spec_idx() == idx;
                        old_self.lemma_find_at(j);
                        if j < p {
                            assert(t[j].spec_idx() == idx);
                            self.lemma_find_at(j);
                        } else {
                            assert(t[j + 1].spec_idx() == idx);
                            self.lemma_find_at(j + 1);
                        }
                    } else {
                        assert(!self.has_col(idx)) by {
                            if self.has_col(idx) {
                                let j = choose|j: int|
                                    0 <= j < t.len() && (#[trigger] t[j]).spec_idx() == idx;
                                assert(j != p);
                                if j < p {
                                    assert(s[j].spec_idx() == idx);
                                } else {
                                    assert(s[j - 1].spec_idx() == idx);
                                }
                            }
                        }
                    }
                }
            }
        }
    }

    /// The stored entry for `idx`, or `None` when the column has the
    /// default width.
    pub fn get_column(&self, idx: u8) -> (r: Option<&Column>)
        requires
            self.wf(),
        ensures
            match r {
                Some(col) => self.spec_find(idx as int) == Some(*col),
                None => self.spec_find(idx as int) is None,
            },
    {
        let mut j: usize = 0;
        while j < self.items.len()
            invariant
                self.wf(),
                0 <= j <= self.items.len(),
                forall|m: int| 0 <= m < j ==> (#[trigger] self.cols()[m]).spec_idx() != idx,
            decreases self.items.len() - j,
        {
            if self.items[j].idx == idx {
                proof {
                    self.lemma_find_at(j as int);
                }
                return Some(&self.items[j]);
            }
            j += 1;
        }
        proof {
            assert(!self.has_col(idx as int));
        }
        None
    }

    /// All stored entries at indices up to and including `col_idx`, in
    /// ascending index order.
    pub fn get_cols_within(&self, col_idx: u8) -> (result: Vec<&Column>)
        requires
            self.wf(),
        ensures
            result@.map_values(|r: &Column| *r) == self.cols().filter(
                |r: Column| r.spec_idx() <= col_idx,
            ),
    {
        let ghost pred = |r: Column| r.spec_idx() <= col_idx as int;
        let mut result: Vec<&Column> = Vec::new();
        let mut j: usize = 0;
        proof {
            assert(self.cols().take(0) =~= Seq::<Column>::empty());
            assert(result@.map_values(|r: &Column| *r) =~= self.cols().take(0).filter(pred));
        }
        while j < self.items.len()
            invariant
                self.wf(),
                0 <= j <= self.items.len(),
                pred == (|r: Column| r.spec_idx() <= col_idx as int),
                result@.map_values(|r: &Column| *r) == self.cols().take(j as int).filter(pred),
            decreases self.items.len() - j,
        {
            let ghost prefix = self.cols().take(j as int);
            proof {
                assert(self.cols().take(j as int + 1) =~= prefix.push(self.cols()[j as int]));
                reveal(Seq::filter);
                assert(prefix.push(self.cols()[j as int]).drop_last() =~= prefix);
            }
            if self.items[j].idx <= col_idx {
                result.push(&self.items[j]);
                proof {
                    assert(result@.map_values(|r: &Column| *r) =~= self.cols().take(
                        j as int + 1,
                    ).filter(pred));
                }
            } else {
                proof {
                    assert(result@.map_values(|r: &Column| *r) =~= self.cols().take(
                        j as int + 1,
                    ).filter(pred));
                }
            }
            j += 1;
        }
        proof {
            assert(self.cols().take(self.cols().len() as int) =~= self.cols());
        }
        result
    }
}

} // verus!
