//! Sparse, axis-generic size index: maps a logical row or column index to
//! its pixel size, with a uniform default for every index that carries no
//! override. The index domain is conceptually unbounded; all queries are
//! answered from the (finite, ascending) override list alone.
//!
//! The two central queries are `cumulative_offset`, the pixel offset of
//! the start of an index, and its exact inverse `locate`, which maps a
//! pixel offset back to the unique index whose half-open pixel interval
//! contains it.

use vstd::prelude::*;
use vstd::arithmetic::div_mod::lemma_fundamental_div_mod;

verus! {

/// A sparse entry: the row or column at `index` has pixel size `size`
/// instead of the axis default.
#[derive(Clone, Copy, Debug)]
pub struct DimensionOverride {
    pub index: u32,
    pub size: u32,
}

/// The answer of `DimensionIndex::locate`: the index whose pixel interval
/// contains the queried offset, together with that interval's start.
#[derive(Clone, Copy, Debug)]
pub struct Location {
    pub index: u32,
    pub offset: u64,
}

/// Sparse size index for one axis (rows or columns): a positive uniform
/// default size plus a list of overrides, kept in strictly ascending
/// index order.
pub struct DimensionIndex {
    default_size: u32,
    overrides: Vec<DimensionOverride>,
}

impl DimensionIndex {
    pub closed spec fn spec_default(self) -> int {
        self.default_size as int
    }

    pub closed spec fn overrides_seq(self) -> Seq<DimensionOverride> {
        self.overrides@
    }

    /// Well-formed: positive default, overrides strictly ascending by
    /// index (hence unique), every override size positive.
    pub open spec fn wf(self) -> bool {
        &&& 1 <= self.spec_default()
        &&& forall|j: int, k: int|
            0 <= j < k < self.overrides_seq().len() ==> (#[trigger] self.overrides_seq()[j]).index
                < (#[trigger] self.overrides_seq()[k]).index
        &&& forall|j: int|
            0 <= j < self.overrides_seq().len() ==> 1 <= (
            #[trigger] self.overrides_seq()[j]).size
    }

    pub open spec fn has_override(self, i: int) -> bool {
        exists|j: int|
            0 <= j < self.overrides_seq().len() && (#[trigger] self.overrides_seq()[j]).index == i
    }

    /// The effective size of index `i`: its override if present, else the
    /// default.
    pub open spec fn size_at(self, i: int) -> int {
        if self.has_override(i) {
            self.overrides_seq()[choose|j: int|
                0 <= j < self.overrides_seq().len() && (#[trigger] self.overrides_seq()[j]).index
                    == i].size as int
        } else {
            self.spec_default()
        }
    }

    /// Pixel offset of the start of index `i`: the sum of the sizes of
    /// all indices before it.
    pub open spec fn offset_of(self, i: int) -> int
        decreases i,
    {
        if i <= 0 {
            0
        } else {
            self.offset_of(i - 1) + self.size_at(i - 1)
        }
    }

    /// How many of the first `t` overrides sit at an index below `i`.
    spec fn count_below(self, t: int, i: int) -> int
        decreases t,
    {
        if t <= 0 {
            0
        } else {
            self.count_below(t - 1, i) + (if self.overrides_seq()[t - 1].index < i {
                1int
            } else {
                0int
            })
        }
    }

    /// Total size carried by the first `t` overrides at indices below `i`.
    spec fn sum_below(self, t: int, i: int) -> int
        decreases t,
    {
        if t <= 0 {
            0
        } else {
            self.sum_below(t - 1, i) + (if self.overrides_seq()[t - 1].index < i {
                self.overrides_seq()[t - 1].size as int
            } else {
                0int
            })
        }
    }

    /// In an ascending override list the entry at position `j` has index
    /// at least `j`.
    proof fn lemma_sorted_index_ge(self, j: int)
        requires
            self.wf(),
            0 <= j < self.overrides_seq().len(),
        ensures
            j <= self.overrides_seq()[j].index,
        decreases j,
    {
        if j > 0 {
            self.lemma_sorted_index_ge(j - 1);
        }
    }

    /// Two override positions with the same index are the same position.
    proof fn lemma_unique_position(self, j: int, k: int)
        requires
            self.wf(),
            0 <= j < self.overrides_seq().len(),
            0 <= k < self.overrides_seq().len(),
            self.overrides_seq()[j].index == self.overrides_seq()[k].index,
        ensures
            j == k,
    {
    }

    /// The size at an overridden index is the size of that (unique) entry.
    proof fn lemma_size_at_override(self, j: int)
        requires
            self.wf(),
            0 <= j < self.overrides_seq().len(),
        ensures
            self.size_at(self.overrides_seq()[j].index as int) == self.overrides_seq()[j].size,
    {
        let i = self.overrides_seq()[j].index as int;
        assert(self.has_override(i));
        let k = choose|k: int|
            0 <= k < self.overrides_seq().len() && (#[trigger] self.overrides_seq()[k]).index == i;
        self.lemma_unique_position(j, k);
    }

    /// Every effective size lies in `[1, u32::MAX]`.
    pub proof fn lemma_size_at_bounds(self, i: int)
        requires
            self.wf(),
        ensures
            1 <= self.size_at(i) <= u32::MAX,
    {
    }

    /// Offsets grow by at least one pixel per index.
    pub proof fn lemma_offset_monotone(self, a: int, b: int)
        requires
            self.wf(),
            0 <= a <= b,
        ensures
            self.offset_of(a) + (b - a) <= self.offset_of(b),
        decreases b - a,
    {
        if a < b {
            self.lemma_offset_monotone(a, b - 1);
            self.lemma_size_at_bounds(b - 1);
        }
    }

    /// Offsets grow by at most `u32::MAX` pixels per index.
    pub proof fn lemma_offset_upper(self, i: int)
        requires
            self.wf(),
            0 <= i,
        ensures
            0 <= self.offset_of(i) <= i * (u32::MAX as int),
        decreases i,
    {
        if i > 0 {
            self.lemma_offset_upper(i - 1);
            self.lemma_size_at_bounds(i - 1);
            assert((i - 1) * (u32::MAX as int) + u32::MAX as int == i * (u32::MAX as int))
                by (nonlinear_arith);
        }
    }

    /// Counting and summing below `i` versus below `i - 1` differ exactly
    /// by the override at `i - 1`, if there is one among the first `t`.
    proof fn lemma_count_sum_succ(self, t: int, i: int)
        requires
            self.wf(),
            0 <= t <= self.overrides_seq().len(),
            1 <= i,
        ensures
            (exists|j: int|
                0 <= j < t && (#[trigger] self.overrides_seq()[j]).index == i - 1) ==> {
                &&& self.count_below(t, i) == self.count_below(t, i - 1) + 1
                &&& self.sum_below(t, i) == self.sum_below(t, i - 1) + self.size_at(i - 1)
            },
            !(exists|j: int|
                0 <= j < t && (#[trigger] self.overrides_seq()[j]).index == i - 1) ==> {
                &&& self.count_below(t, i) == self.count_below(t, i - 1)
                &&& self.sum_below(t, i) == self.sum_below(t, i - 1)
            },
        decreases t,
    {
        if t > 0 {
            self.lemma_count_sum_succ(t - 1, i);
            let last = self.overrides_seq()[t - 1];
            if last.index == i - 1 {
                self.lemma_size_at_override(t - 1);
                // no earlier entry can repeat this index
                assert(!(exists|j: int|
                    0 <= j < t - 1 && (#[trigger] self.overrides_seq()[j]).index == i - 1)) by {
                    if exists|j: int|
                        0 <= j < t - 1 && (#[trigger] self.overrides_seq()[j]).index == i - 1 {
                        let j = choose|j: int|
                            0 <= j < t - 1 && (#[trigger] self.overrides_seq()[j]).index == i - 1;
                        self.lemma_unique_position(j, t - 1);
                    }
                }
            }
        }
    }

    /// A prefix count stays within `[0, min(t, i)]`.
    proof fn lemma_count_bounds(self, t: int, i: int)
        requires
            self.wf(),
            0 <= t <= self.overrides_seq().len(),
            0 <= i,
        ensures
            0 <= self.count_below(t, i) <= i,
            self.count_below(t, i) <= t,
        decreases t,
    {
        if t > 0 {
            self.lemma_count_bounds(t - 1, i);
            if self.overrides_seq()[t - 1].index < i {
                self.lemma_sorted_index_ge(t - 1);
            }
        }
    }

    /// Prefix sums are non-negative and grow with the prefix.
    proof fn lemma_sum_prefix_le(self, t1: int, t2: int, i: int)
        requires
            self.wf(),
            0 <= t1 <= t2 <= self.overrides_seq().len(),
        ensures
            0 <= self.sum_below(t1, i) <= self.sum_below(t2, i),
        decreases t2,
    {
        if t1 < t2 {
            self.lemma_sum_prefix_le(t1, t2 - 1, i);
        } else if t1 == t2 && t2 > 0 {
            self.lemma_sum_prefix_le(0, t2 - 1, i);
        }
    }

    /// The closed form behind `cumulative_offset`: the offset of `i` is
    /// the default size for every index below `i` without an override,
    /// plus the override sizes below `i`.
    proof fn lemma_decompose(self, i: int)
        requires
            self.wf(),
            0 <= i,
        ensures
            self.offset_of(i) == (i - self.count_below(self.overrides_seq().len() as int, i))
                * self.spec_default() + self.sum_below(self.overrides_seq().len() as int, i),
        decreases i,
    {
        let len = self.overrides_seq().len() as int;
        if i > 0 {
            self.lemma_decompose(i - 1);
            self.lemma_count_sum_succ(len, i);
            let c0 = self.count_below(len, i - 1);
            let c1 = self.count_below(len, i);
            let d = self.spec_default();
            if self.has_override(i - 1) {
                assert(exists|j: int|
                    0 <= j < len && (#[trigger] self.overrides_seq()[j]).index == i - 1);
                assert(c1 == c0 + 1);
                assert((i - c1) * d == (i - 1 - c0) * d) by (nonlinear_arith)
                    requires
                        i - c1 == i - 1 - c0,
                ;
            } else {
                assert(!(exists|j: int|
                    0 <= j < len && (#[trigger] self.overrides_seq()[j]).index == i - 1));
                assert(self.size_at(i - 1) == d);
                assert((i - c1) * d == (i - 1 - c0) * d + d) by (nonlinear_arith)
                    requires
                        c1 == c0,
                ;
            }
        } else {
            self.lemma_count_bounds(len, 0);
            assert(self.count_below(len, 0) == 0);
            assert(self.sum_below(len, 0) == 0) by {
                self.lemma_sum_below_zero(len);
            }
        }
    }

    /// No override sits below index zero.
    proof fn lemma_sum_below_zero(self, t: int)
        requires
            self.wf(),
            0 <= t <= self.overrides_seq().len(),
        ensures
            self.sum_below(t, 0) == 0,
            self.count_below(t, 0) == 0,
        decreases t,
    {
        if t > 0 {
            self.lemma_sum_below_zero(t - 1);
        }
    }

    /// Across a run of indices without overrides the offset advances by
    /// the default size per index.
    proof fn lemma_offset_uniform(self, a: int, b: int)
        requires
            self.wf(),
            0 <= a <= b,
            forall|k: int| a <= k < b ==> !self.has_override(k),
        ensures
            self.offset_of(b) == self.offset_of(a) + (b - a) * self.spec_default(),
        decreases b - a,
    {
        let d = self.spec_default();
        if a < b {
            self.lemma_offset_uniform(a, b - 1);
            assert(!self.has_override(b - 1));
            assert((b - a) * d == (b - 1 - a) * d + d) by (nonlinear_arith);
        } else {
            assert((b - a) * d == 0) by (nonlinear_arith)
                requires
                    b == a,
            ;
        }
    }

    /// A fresh axis index where every index has size `default_size`.
    pub fn new(default_size: u32) -> (d: DimensionIndex)
        requires
            1 <= default_size,
        ensures
            d.wf(),
            d.spec_default() == default_size,
            forall|i: int| !d.has_override(i),
            forall|i: int| d.size_at(i) == default_size,
    {
        DimensionIndex { default_size, overrides: Vec::new() }
    }

    /// The effective pixel size of index `index`: its override if one is
    /// set, the axis default otherwise. Total: every index has a size.
    pub fn get_size(&self, index: u32) -> (size: u32)
        requires
            self.wf(),
        ensures
            size == self.size_at(index as int),
            1 <= size,
    {
        let mut j: usize = 0;
        while j < self.overrides.len()
            invariant
                self.wf(),
                0 <= j <= self.overrides.len(),
                forall|m: int|
                    0 <= m < j ==> (#[trigger] self.overrides_seq()[m]).index != index,
            decreases self.overrides.len() - j,
        {
            if self.overrides[j].index == index {
                proof {
                    self.lemma_size_at_override(j as int);
                }
                return self.overrides[j].size;
            }
            j += 1;
        }
        proof {
            assert(!self.has_override(index as int));
        }
        self.default_size
    }

    /// Set (or replace) the override for `index`. A size of zero is out
    /// of range and is silently rejected, keeping the prior value: all
    /// effective sizes stay positive.
    pub fn set_size(&mut self, index: u32, size: u32)
        requires
            old(self).wf(),
        ensures
            final(self).wf(),
            final(self).spec_default() == old(self).spec_default(),
            size == 0 ==> *final(self) == *old(self),
            1 <= size ==> final(self).size_at(index as int) == size,
            1 <= size ==> forall|k: int|
                k != index ==> final(self).size_at(k) == old(self).size_at(k),
            1 <= size ==> forall|k: int|
                final(self).has_override(k) == (old(self).has_override(k) || k == index),
    {
        if size == 0 {
            return ;
        }
        let entry = DimensionOverride { index, size };
        let mut p: usize = 0;
        while p < self.overrides.len() && self.overrides[p].index < index
            invariant
                self.wf(),
                0 <= p <= self.overrides.len(),
                forall|m: int| 0 <= m < p ==> (#[trigger] self.overrides_seq()[m]).index < index,
            decreases self.overrides.len() - p,
        {
            p += 1;
        }
        let ghost old_self = *self;
        let ghost s = self.overrides@;
        if p < self.overrides.len() && self.overrides[p].index == index {
            self.overrides[p] = entry;
            proof {
                let t = self.overrides@;
                assert(old_self.overrides_seq() == s);
                assert(self.overrides_seq() == t);
                assert(t == s.update(p as int, entry));
                assert(t[p as int] == entry);
                assert forall|k: int| #[trigger]
                    self.has_override(k) == (old_self.has_override(k) || k == index) by {
                    if old_self.has_override(k) {
                        let j = choose|j: int| 0 <= j < s.len() && (#[trigger] s[j]).index == k;
                        assert(t[j].index == k || t[j].index == index);
                        assert(self.has_override(k) || k == index);
                    }
                    if self.has_override(k) && k != index {
                        let j = choose|j: int| 0 <= j < t.len() && (#[trigger] t[j]).index == k;
                        assert(j != p);
                        assert(s[j].index == k);
                        assert(old_self.has_override(k));
                    }
                    if k == index {
                        assert(t[p as int].index == k);
                        assert(self.has_override(k));
                    }
                }
                self.lemma_size_at_override(p as int);
                assert forall|k: int|
                    k != index implies #[trigger] self.size_at(k) == old_self.size_at(k) by {
                    if old_self.has_override(k) {
                        let j = choose|j: int| 0 <= j < s.len() && (#[trigger] s[j]).index == k;
                        assert(j != p);
                        assert(t[j].index == k);
                        old_self.lemma_size_at_override_external(j, k);
                        self.lemma_size_at_override_external(j, k);
                    } else {
                        assert(!self.has_override(k)) by {
                            if self.has_override(k) {
                                let j = choose|j: int|
                                    0 <= j < t.len() && (#[trigger] t[j]).index == k;
                                assert(j != p);
                                assert(s[j].index == k);
                            }
                        }
                    }
                }
            }
        } else {
            proof {
                assert(p < s.len() ==> index < s[p as int].index);
                assert forall|m: int| p <= m < s.len() implies index < (#[trigger] s[m]).index by {
                    if p < m {
                        assert(s[p as int].index < s[m].index);
                    }
                }
            }
            self.overrides.insert(p, entry);
            proof {
                let t = self.overrides@;
                assert(old_self.overrides_seq() == s);
                assert(self.overrides_seq() == t);
                assert(t == s.insert(p as int, entry));
                assert forall|j: int, k: int|
                    0 <= j < k < t.len() implies (#[trigger] t[j]).index < (
                #[trigger] t[k]).index by {
                    // positions map back to the old list around the insertion point
                    assert(t[j] == if j < p {
                        s[j]
                    } else if j == p {
                        entry
                    } else {
                        s[j - 1]
                    });
                    assert(t[k] == if k < p {
                        s[k]
                    } else if k == p {
                        entry
                    } else {
                        s[k - 1]
                    });
                }
                assert(self.wf());
                assert forall|k: int| #[trigger]
                    self.has_override(k) == (old_self.has_override(k) || k == index) by {
                    if old_self.has_override(k) {
                        let j = choose|j: int| 0 <= j < s.len() && (#[trigger] s[j]).index == k;
                        if j < p {
                            assert(t[j].index == k);
                        } else {
                            assert(t[j + 1].index == k);
                        }
                        assert(self.has_override(k));
                    }
                    if self.has_override(k) && k != index {
                        let j = choose|j: int| 0 <= j < t.len() && (#[trigger] t[j]).index == k;
                        if j < p {
                            assert(s[j].index == k);
                        } else {
                            assert(j != p);
                            assert(s[j - 1].index == k);
                        }
                        assert(old_self.has_override(k));
                    }
                    if k == index {
                        assert(t[p as int].index == k);
                        assert(self.has_override(k));
                    }
                }
                self.lemma_size_at_override(p as int);
                assert forall|k: int|
                    k != index implies #[trigger] self.size_at(k) == old_self.size_at(k) by {
                    if old_self.has_override(k) {
                        let j = choose|j: int| 0 <= j < s.len() && (#[trigger] s[j]).index == k;
                        if j < p {
                            assert(t[j].index == k);
                            old_self.lemma_size_at_override_external(j, k);
                            self.lemma_size_at_override(j);
                        } else {
                            assert(t[j + 1].index == k);
                            old_self.lemma_size_at_override_external(j, k);
                            self.lemma_size_at_override(j + 1);
                        }
                    }
                }
            }
        }
    }

    /// Helper for relating `size_at` on an older value of the index.
    proof fn lemma_size_at_override_external(self, j: int, k: int)
        requires
            self.wf(),
            0 <= j < self.overrides_seq().len(),
            self.overrides_seq()[j].index == k,
        ensures
            self.size_at(k) == self.overrides_seq()[j].size,
    {
        self.lemma_size_at_override(j);
    }

    /// The pixel offset of the start of `index`: the sum of the sizes of
    /// all indices in `[0, index)`, computed from the override list alone
    /// as `index * default + sum of (override size - default)` over the
    /// overrides below `index`.
    pub fn cumulative_offset(&self, index: u32) -> (off: u64)
        requires
            self.wf(),
        ensures
            off == self.offset_of(index as int),
    {
        let ghost i = index as int;
        let ghost len = self.overrides_seq().len() as int;
        let mut cnt: u64 = 0;
        let mut sum: u64 = 0;
        let mut j: usize = 0;
        proof {
            self.lemma_decompose(i);
            self.lemma_count_bounds(len, i);
            self.lemma_offset_upper(i);
            assert(i * (u32::MAX as int) <= u64::MAX) by (nonlinear_arith)
                requires
                    0 <= i <= u32::MAX,
            ;
        }
        while j < self.overrides.len()
            invariant
                self.wf(),
                i == index as int,
                len == self.overrides_seq().len() as int,
                0 <= j <= len,
                cnt == self.count_below(j as int, i),
                sum == self.sum_below(j as int, i),
                self.offset_of(i) <= u64::MAX,
                self.offset_of(i) == (i - self.count_below(len, i)) * self.spec_default()
                    + self.sum_below(len, i),
            decreases self.overrides.len() - j,
        {
            let ov = self.overrides[j];
            if ov.index < index {
                proof {
                    self.lemma_count_bounds(j as int + 1, i);
                    self.lemma_sum_prefix_le(j as int + 1, len, i);
                    self.lemma_count_bounds(len, i);
                    // the uncovered indices still contribute a non-negative amount
                    assert(0 <= (i - self.count_below(len, i)) * self.spec_default())
                        by (nonlinear_arith)
                        requires
                            0 <= i - self.count_below(len, i),
                            0 <= self.spec_default(),
                    ;
                }
                cnt = cnt + 1;
                sum = sum + ov.size as u64;
            }
            j += 1;
        }
        proof {
            self.lemma_count_bounds(len, i);
            self.lemma_sum_prefix_le(len, len, i);
            assert(0 <= (i - cnt) * self.spec_default());
            assert((i - cnt) * self.spec_default() <= self.offset_of(i));
            assert((index as u64 - cnt) * (self.default_size as u64) == (i - cnt)
                * self.spec_default()) by (nonlinear_arith)
                requires
                    0 <= cnt <= i <= u32::MAX,
                    index as int == i,
                    0 <= self.default_size <= u32::MAX,
                    self.spec_default() == self.default_size as int,
            ;
        }
        let base: u64 = (index as u64 - cnt) * (self.default_size as u64);
        base + sum
    }

    /// In a run of indices `[a, b)` without overrides, a pixel offset in
    /// the run's pixel range is located by plain division by the default
    /// size.
    proof fn lemma_uniform_locate(self, a: int, b: int, p: int)
        requires
            self.wf(),
            0 <= a <= b,
            forall|k: int| a <= k < b ==> !self.has_override(k),
            self.offset_of(a) <= p < self.offset_of(b),
        ensures
            ({
                let d = (p - self.offset_of(a)) / self.spec_default();
                &&& 0 <= d
                &&& a + d < b
                &&& self.offset_of(a + d) == self.offset_of(a) + d * self.spec_default()
                &&& self.offset_of(a + d) <= p < self.offset_of(a + d + 1)
            }),
    {
        let off_a = self.offset_of(a);
        let def = self.spec_default();
        let q = (p - off_a) / def;
        let r = (p - off_a) % def;
        lemma_fundamental_div_mod(p - off_a, def);
        vstd::arithmetic::div_mod::lemma_mod_division_less_than_divisor(p - off_a, def);
        vstd::arithmetic::div_mod::lemma_div_pos_is_pos(p - off_a, def);
        self.lemma_offset_uniform(a, b);
        assert(a + q < b) by {
            if a + q >= b {
                assert(def * q >= def * (b - a)) by (nonlinear_arith)
                    requires
                        q >= b - a,
                        def >= 1,
                ;
                assert((b - a) * def == def * (b - a)) by (nonlinear_arith);
            }
        }
        self.lemma_offset_uniform(a, a + q);
        self.lemma_offset_uniform(a, a + q + 1);
        assert(q * def == def * q) by (nonlinear_arith);
        assert((q + 1) * def == def * q + def) by (nonlinear_arith);
    }

    /// The exact inverse of `cumulative_offset`: the unique index whose
    /// half-open pixel interval `[offset_of(index), offset_of(index + 1))`
    /// contains `pixel_offset`, together with that interval's start
    /// offset. A pixel offset at or past the interval of the largest
    /// representable index clamps to that index.
    pub fn locate(&self, pixel_offset: u64) -> (loc: Location)
        requires
            self.wf(),
        ensures
            loc.offset == self.offset_of(loc.index as int),
            loc.offset <= pixel_offset,
            pixel_offset < self.offset_of(u32::MAX as int + 1) ==> pixel_offset < self.offset_of(
                loc.index as int + 1,
            ),
            self.offset_of(u32::MAX as int + 1) <= pixel_offset ==> loc.index == u32::MAX,
    {
        let ghost top = u32::MAX as int + 1;
        let default = self.default_size as u64;
        let mut base_index: u32 = 0;
        let mut base_offset: u64 = 0;
        let mut j: usize = 0;
        proof {
            self.lemma_offset_upper(top);
            assert(top * (u32::MAX as int) < u64::MAX) by (nonlinear_arith)
                requires
                    top == u32::MAX as int + 1,
            ;
        }
        while j < self.overrides.len()
            invariant
                self.wf(),
                top == u32::MAX as int + 1,
                default == self.default_size as u64,
                0 <= j <= self.overrides_seq().len(),
                forall|m: int|
                    0 <= m < j ==> (#[trigger] self.overrides_seq()[m]).index < base_index,
                forall|m: int|
                    j <= m < self.overrides_seq().len() ==> base_index <= (
                    #[trigger] self.overrides_seq()[m]).index,
                base_offset == self.offset_of(base_index as int),
                base_offset <= pixel_offset,
                self.offset_of(top) <= u64::MAX,
            decreases self.overrides.len() - j,
        {
            let ov = self.overrides[j];
            proof {
                // the run below the next override is free of overrides
                assert forall|k: int|
                    base_index <= k < ov.index implies !self.has_override(k) by {
                    if self.has_override(k) {
                        let m = choose|m: int|
                            0 <= m < self.overrides_seq().len() && (
                            #[trigger] self.overrides_seq()[m]).index == k;
                        if m > j {
                            assert(self.overrides_seq()[j as int].index
                                < self.overrides_seq()[m].index);
                        }
                    }
                }
                self.lemma_offset_uniform(base_index as int, ov.index as int);
                self.lemma_offset_upper(ov.index as int);
                self.lemma_offset_monotone(ov.index as int, top);
                assert((ov.index - base_index) as int * self.spec_default() == (ov.index
                    - base_index) as u64 as int * default as int) by (nonlinear_arith)
                    requires
                        self.spec_default() == default as int,
                        base_index <= ov.index,
                ;
            }
            let gap: u64 = (ov.index - base_index) as u64;
            let gap_end: u64 = base_offset + gap * default;
            proof {
                assert(gap_end == self.offset_of(ov.index as int));
            }
            if pixel_offset < gap_end {
                proof {
                    self.lemma_uniform_locate(
                        base_index as int,
                        ov.index as int,
                        pixel_offset as int,
                    );
                    self.lemma_offset_monotone(0, base_index as int);
                }
                let d: u64 = (pixel_offset - base_offset) / default;
                let off: u64 = base_offset + d * default;
                proof {
                    assert(d * default == d as int * self.spec_default()) by (nonlinear_arith)
                        requires
                            self.spec_default() == default as int,
                            0 <= d,
                    ;
                    self.lemma_offset_monotone(base_index as int + d as int, top);
                }
                return Location { index: base_index + d as u32, offset: off };
            }
            proof {
                self.lemma_size_at_override(j as int);
                self.lemma_offset_monotone(ov.index as int + 1, top);
            }
            let ov_end: u64 = gap_end + ov.size as u64;
            proof {
                assert(ov_end == self.offset_of(ov.index as int + 1));
            }
            if pixel_offset < ov_end {
                return Location { index: ov.index, offset: gap_end };
            }
            if ov.index == u32::MAX {
                // at or past the interval of the largest index: clamp
                return Location { index: u32::MAX, offset: gap_end };
            }
            base_index = ov.index + 1;
            base_offset = ov_end;
            j += 1;
            proof {
                assert forall|m: int|
                    0 <= m < j implies (#[trigger] self.overrides_seq()[m]).index
                    < base_index by {
                    if m < j - 1 {
                        assert(self.overrides_seq()[m].index
                            < self.overrides_seq()[j - 1].index);
                    }
                }
            }
        }
        proof {
            assert forall|k: int| base_index <= k implies !self.has_override(k) by {
                if self.has_override(k) {
                    let m = choose|m: int|
                        0 <= m < self.overrides_seq().len() && (
                        #[trigger] self.overrides_seq()[m]).index == k;
                }
            }
            self.lemma_offset_uniform(base_index as int, top);
            self.lemma_offset_uniform(base_index as int, u32::MAX as int);
            self.lemma_offset_upper(u32::MAX as int);
        }
        let d: u64 = (pixel_offset - base_offset) / default;
        let span: u64 = (u32::MAX - base_index) as u64 + 1;
        proof {
            lemma_fundamental_div_mod(pixel_offset as int - base_offset as int, default as int);
            vstd::arithmetic::div_mod::lemma_mod_division_less_than_divisor(
                pixel_offset as int - base_offset as int,
                default as int,
            );
            assert(span as int * default as int == (top - base_index) * self.spec_default())
                by (nonlinear_arith)
                requires
                    span as int == top - base_index,
                    default as int == self.spec_default(),
            ;
            assert((span - 1) as int * default as int == (u32::MAX as int - base_index)
                * self.spec_default()) by (nonlinear_arith)
                requires
                    span as int - 1 == u32::MAX as int - base_index,
                    default as int == self.spec_default(),
            ;
        }
        if d >= span {
            proof {
                // the query sits at or past the pixel range of the largest index
                assert(default as int * d as int >= default as int * span as int)
                    by (nonlinear_arith)
                    requires
                        d >= span,
                        default as int >= 1,
                ;
                assert(default as int * span as int == span as int * default as int)
                    by (nonlinear_arith);
            }
            let off: u64 = base_offset + (span - 1) * default;
            return Location { index: u32::MAX, offset: off };
        }
        proof {
            assert(default as int * (d as int + 1) <= default as int * span as int)
                by (nonlinear_arith)
                requires
                    d as int + 1 <= span as int,
                    default as int >= 1,
            ;
            assert(default as int * span as int == span as int * default as int)
                by (nonlinear_arith);
            assert(default as int * (d as int) + default as int == default as int * (d as int
                + 1)) by (nonlinear_arith);
            assert(pixel_offset < self.offset_of(top));
            self.lemma_uniform_locate(base_index as int, top, pixel_offset as int);
            self.lemma_offset_monotone(0, base_index as int);
        }
        let idx: u32 = base_index + d as u32;
        let off: u64 = base_offset + d * default;
        proof {
            assert(d * default == d as int * self.spec_default()) by (nonlinear_arith)
                requires
                    self.spec_default() == default as int,
                    0 <= d,
            ;
        }
        Location { index: idx, offset: off }
    }
}

/// Law: consecutive cumulative offsets differ by exactly the effective
/// size of the index between them.
pub proof fn lemma_cumulative_offset_step(d: DimensionIndex, i: int)
    requires
        d.wf(),
        0 <= i,
    ensures
        d.offset_of(i + 1) - d.offset_of(i) == d.size_at(i),
{
}

/// Law: a pixel offset lies in the half-open pixel interval of exactly
/// one index.
pub proof fn lemma_locate_unique(d: DimensionIndex, p: int, a: int, b: int)
    requires
        d.wf(),
        0 <= a,
        0 <= b,
        d.offset_of(a) <= p < d.offset_of(a + 1),
        d.offset_of(b) <= p < d.offset_of(b + 1),
    ensures
        a == b,
{
    if a < b {
        d.lemma_offset_monotone(a + 1, b);
    }
    if b < a {
        d.lemma_offset_monotone(b + 1, a);
    }
}

/// Law: locating the cumulative offset of an index recovers exactly that
/// index; the pixel-to-index mapping is an exact round trip at interval
/// boundaries. `located` is any index whose half-open pixel interval
/// contains `offset_of(i)`, as `locate` promises of its result.
pub proof fn lemma_locate_round_trip(d: DimensionIndex, i: int, located: int)
    requires
        d.wf(),
        0 <= i,
        0 <= located,
        d.offset_of(located) <= d.offset_of(i) < d.offset_of(located + 1),
    ensures
        located == i,
{
    if located < i {
        d.lemma_offset_monotone(located + 1, i);
        d.lemma_size_at_bounds(located);
    }
    if located > i {
        d.lemma_offset_monotone(i + 1, located);
        d.lemma_size_at_bounds(i);
    }
}

} // verus!

