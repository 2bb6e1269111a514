//! Rows with explicit pixel heights, and the sparse row store: only rows
//! whose height differs from the default are ever materialized, kept in
//! ascending index order.

use vstd::prelude::*;

verus! {

/// One row's sizing entry: its index and its pixel height.
#[derive(Clone, Copy, Debug)]
pub struct Row {
    idx: u16,
    height: u16,
}

impl Row {
    pub closed spec fn spec_idx(self) -> int {
        self.idx as int
    }

    pub closed spec fn spec_height(self) -> int {
        self.height as int
    }

    /// Every row carries a positive height.
    pub open spec fn wf(self) -> bool {
        1 <= self.spec_height()
    }

    /// The stored index and height are machine integers.
    pub proof fn lemma_field_ranges(self)
        ensures
            0 <= self.spec_idx() <= u16::MAX,
            0 <= self.spec_height() <= u16::MAX,
    {
    }

    /// A new row entry at `idx` with the default height.
    pub fn new(idx: u16) -> (r: Row)
        ensures
            r.wf(),
            r.spec_idx() == idx,
            r.spec_height() == 20,
    {
        Row { idx, height: 20 }
    }

    pub fn get_height(&self) -> (h: u16)
        ensures
            h == self.spec_height(),
    {
        self.height
    }

    /// Set the row's height. A height of zero is out of range and is
    /// silently rejected, keeping the prior value.
    pub fn set_height(&mut self, height: u16)
        requires
            old(self).wf(),
        ensures
            final(self).wf(),
            final(self).spec_idx() == old(self).spec_idx(),
            height == 0 ==> final(self).spec_height() == old(self).spec_height(),
            1 <= height ==> final(self).spec_height() == height,
    {
        if height > 0 {
            self.height = height;
        }
    }
}

/// Sparse store of row entries, in strictly ascending index order.
pub struct RowManager {
    items: Vec<Row>,
}

impl RowManager {
    pub closed spec fn rows(self) -> Seq<Row> {
        self.items@
    }

    pub open spec fn wf(self) -> bool {
        &&& forall|j: int, k: int|
            0 <= j < k < self.rows().len() ==> (#[trigger] self.rows()[j]).spec_idx() < (
            #[trigger] self.rows()[k]).spec_idx()
        &&& forall|j: int| 0 <= j < self.rows().len() ==> (#[trigger] self.rows()[j]).wf()
    }

    pub open spec fn has_row(self, idx: int) -> bool {
        exists|j: int| 0 <= j < self.rows().len() && (#[trigger] self.rows()[j]).spec_idx() == idx
    }

    /// The stored entry for `idx`, if any.
    pub open spec fn spec_find(self, idx: int) -> Option<Row> {
        if self.has_row(idx) {
            Some(
                self.rows()[choose|j: int|
                    0 <= j < self.rows().len() && (#[trigger] self.rows()[j]).spec_idx() == idx],
            )
        } else {
            None
        }
    }

    proof fn lemma_unique_position(self, j: int, k: int)
        requires
            self.wf(),
            0 <= j < self.rows().len(),
            0 <= k < self.rows().len(),
            self.rows()[j].spec_idx() == self.rows()[k].spec_idx(),
        ensures
            j == k,
    {
    }

    /// The entry at position `j` is what `spec_find` returns for its
    /// index.
    proof fn lemma_find_at(self, j: int)
        requires
            self.wf(),
            0 <= j < self.rows().len(),
        ensures
            self.spec_find(self.rows()[j].spec_idx()) == Some(self.rows()[j]),
    {
        let idx = self.rows()[j].spec_idx();
        assert(self.has_row(idx));
        let k = choose|k: int|
            0 <= k < self.rows().len() && (#[trigger] self.rows()[k]).spec_idx() == idx;
        self.lemma_unique_position(j, k);
    }

    /// An empty store.
    pub fn new() -> (m: RowManager)
        ensures
            m.wf(),
            m.rows().len() == 0,
            forall|idx: int| m.spec_find(idx) is None,
    {
        RowManager { items: Vec::new() }
    }

    /// Insert or replace the entry for `row`'s index.
    pub fn set_row(&mut self, row: Row)
        requires
            old(self).wf(),
            row.wf(),
        ensures
            final(self).wf(),
            final(self).spec_find(row.spec_idx()) == Some(row),
            forall|idx: int|
                idx != row.spec_idx() ==> final(self).spec_find(idx) == old(self).spec_find(idx),
    {
        let mut p: usize = 0;
        while p < self.items.len() && self.items[p].idx < row.idx
            invariant
                self.wf(),
                row.wf(),
                0 <= p <= self.items.len(),
                forall|m: int| 0 <= m < p ==> (#[trigger] self.rows()[m]).spec_idx() < row.spec_idx(),
            decreases self.items.len() - p,
        {
            p += 1;
        }
        let ghost old_self = *self;
        let ghost s = self.items@;
        if p < self.items.len() && self.items[p].idx == row.idx {
            self.items[p] = row;
            proof {
                let t = self.items@;
                assert(old_self.rows() == s);
                assert(self.rows() == t);
                assert(t == s.update(p as int, row));
                assert(t[p as int] == row);
                self.lemma_find_at(p as int);
                assert forall|idx: int|
                    idx != row.spec_idx() implies #[trigger] self.spec_find(idx)
                    == old_self.spec_find(idx) by {
                    if old_self.has_row(idx) {
                        let j = choose|j: int|
                            0 <= j < s.len() && (#[trigger] s[j]).spec_idx() == idx;
                        assert(j != p);
                        assert(t[j].spec_idx() == idx);
                        old_self.lemma_find_at(j);
                        self.lemma_find_at(j);
                    } else {
                        assert(!self.has_row(idx)) by {
                            if self.has_row(idx) {
                                let j = choose|j: int|
                                    0 <= j < t.len() && (#[trigger] t[j]).spec_idx() == idx;
                                assert(j != p);
                                assert(s[j].spec_idx() == idx);
                            }
                        }
                    }
                }
            }
        } else {
            proof {
                assert forall|m: int|
                    p <= m < s.len() implies row.spec_idx() < (#[trigger] s[m]).spec_idx() by {
                    if p < m {
                        assert(s[p as int].spec_idx() < s[m].spec_idx());
                    }
                }
            }
            self.items.insert(p, row);
            proof {
                let t = self.items@;
                assert(old_self.rows() == s);
                assert(self.rows() == t);
                assert(t == s.insert(p as int, row));
                assert forall|j: int, k: int|
                    0 <= j < k < t.len() implies (#[trigger] t[j]).spec_idx() < (
                #[trigger] t[k]).spec_idx() by {
                    assert(t[j] == if j < p {
                        s[j]
                    } else if j == p {
                        row
                    } else {
                        s[j - 1]
                    });
                    assert(t[k] == if k < p {
                        s[k]
                    } else if k == p {
                        row
                    } else {
                        s[k - 1]
                    });
                }
                assert(self.wf());
                self.lemma_find_at(p as int);
                assert forall|idx: int|
                    idx != row.spec_idx() implies #[trigger] self.spec_find(idx)
                    == old_self.spec_find(idx) by {
                    if old_self.has_row(idx) {
                        let j = choose|j: int|
                            0 <= j < s.len() && (#[trigger] s[j]).spec_idx() == idx;
                        old_self.lemma_find_at(j);
                        if j < p {
                            assert(t[j].spec_idx() == idx);
                            self.lemma_find_at(j);
                        } else {
                            assert(t[j + 1].spec_idx() == idx);
                            self.lemma_find_at(j + 1);
                        }
                    } else {
                        assert(!self.has_row(idx)) by {
                            if self.has_row(idx) {
                                let j = choose|j: int|
                                    0 <= j < t.len() && (#[trigger] t[j]).spec_idx() == idx;
                                assert(j != p);
                                if j < p {
                                    assert(s[j].spec_idx() == idx);
                                } else {
                                    assert(s[j - 1].spec_idx() == idx);
                                }
                            }
                        }
                    }
                }
            }
        }
    }

    /// The stored entry for `idx`, or `None` when the row has the default
    /// height.
    pub fn get_row(&self, idx: u16) -> (r: Option<&Row>)
        requires
            self.wf(),
        ensures
            match r {
                Some(row) => self.spec_find(idx as int) == Some(*row),
                None => self.spec_find(idx as int) is None,
            },
    {
        let mut j: usize = 0;
        while j < self.items.len()
            invariant
                self.wf(),
                0 <= j <= self.items.len(),
                forall|m: int| 0 <= m < j ==> (#[trigger] self.rows()[m]).spec_idx() != idx,
            decreases self.items.len() - j,
        {
            if self.items[j].idx == idx {
                proof {
                    self.lemma_find_at(j as int);
                }
                return Some(&self.items[j]);
            }
            j += 1;
        }
        proof {
            assert(!self.has_row(idx as int));
        }
        None
    }

    /// All stored entries at indices up to and including `row_idx`, in
    /// ascending index order.
    pub fn get_rows_within(&self, row_idx: u16) -> (result: Vec<&Row>)
        requires
            self.wf(),
        ensures
            result@.map_values(|r: &Row| *r) == self.rows().filter(
                |r: Row| r.spec_idx() <= row_idx,
            ),
    {
        let ghost pred = |r: Row| r.spec_idx() <= row_idx as int;
        let mut result: Vec<&Row> = Vec::new();
        let mut j: usize = 0;
        proof {
            assert(self.rows().take(0) =~= Seq::<Row>::empty());
            assert(result@.map_values(|r: &Row| *r) =~= self.rows().take(0).filter(pred));
        }
        while j < self.items.len()
            invariant
                self.wf(),
                0 <= j <= self.items.len(),
                pred == (|r: Row| r.spec_idx() <= row_idx as int),
                result@.map_values(|r: &Row| *r) == self.rows().take(j as int).filter(pred),
            decreases self.items.len() - j,
        {
            let ghost prefix = self.rows().take(j as int);
            proof {
                assert(self.rows().take(j as int + 1) =~= prefix.push(self.rows()[j as int]));
                reveal(Seq::filter);
                assert(prefix.push(self.rows()[j as int]).drop_last() =~= prefix);
            }
            if self.items[j].idx <= row_idx {
                result.push(&self.items[j]);
                proof {
                    assert(result@.map_values(|r: &Row| *r) =~= self.rows().take(
                        j as int + 1,
                    ).filter(pred));
                }
            } else {
                proof {
                    assert(result@.map_values(|r: &Row| *r) =~= self.rows().take(
                        j as int + 1,
                    ).filter(pred));
                }
            }
            j += 1;
        }
        proof {
            assert(self.rows().take(self.rows().len() as int) =~= self.rows());
        }
        result
    }
}

} // verus!
