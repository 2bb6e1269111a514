//! Generic array utilities: lifting an array into a two-dimensional
//! shape, folding it through a caller-supplied combiner, and pivoting
//! (transposing) a two-dimensional array of possibly ragged rows.

use vstd::prelude::*;

verus! {

/// The fold relation behind `reduce`: `result` is reachable from `acc` by
/// combining in the elements of `arr` from position `start` on, where
/// each combination step is an input/output pair the combiner admits.
pub open spec fn folds_over<T, C: View<V = Seq<T>>, F: Fn(T, T, u32, &C) -> T>(
    f: F,
    arr: &C,
    start: int,
    acc: T,
    result: T,
) -> bool
    decreases arr@.len() - start,
{
    if start < 0 || start >= arr@.len() {
        result == acc
    } else {
        exists|mid: T|
            #[trigger] call_ensures(f, (acc, arr@[start], start as u32, arr), mid) && folds_over(
                f,
                arr,
                start + 1,
                mid,
                result,
            )
    }
}

/// Past the end of the array a fold changes nothing: the relation holds
/// exactly of the accumulator itself.
pub proof fn lemma_folds_over_base<T, C: View<V = Seq<T>>, F: Fn(T, T, u32, &C) -> T>(
    f: F,
    arr: &C,
    start: int,
    acc: T,
    result: T,
)
    requires
        start < 0 || start >= arr@.len(),
    ensures
        folds_over(f, arr, start, acc, result) <==> result == acc,
{
}

/// Within the array a fold takes one admissible combining step and
/// continues at the next position.
pub proof fn lemma_folds_over_step<T, C: View<V = Seq<T>>, F: Fn(T, T, u32, &C) -> T>(
    f: F,
    arr: &C,
    start: int,
    acc: T,
    result: T,
)
    requires
        0 <= start < arr@.len(),
    ensures
        folds_over(f, arr, start, acc, result) <==> exists|mid: T|
            #[trigger] call_ensures(f, (acc, arr@[start], start as u32, arr), mid) && folds_over(
                f,
                arr,
                start + 1,
                mid,
                result,
            ),
{
}

pub trait ArrayUtils<T>: Sized + View<V = Seq<T>> {
    /// Each element becomes a one-element row.
    fn to_2d(&self) -> (r: Vec<Vec<&T>>)
        ensures
            r@.len() == self@.len(),
            forall|i: int|
                0 <= i < r@.len() ==> (#[trigger] r@[i])@.len() == 1 && *r@[i]@[0] == self@[i],
    ;

    /// Fold the array through `iteratee` from left to right, giving the
    /// combiner the running value, the element, its position and the
    /// array. With `init_from_array` set (and a non-empty array) the
    /// first element seeds the fold in place of `accumulator`, and
    /// combining starts at position one.
    fn reduce<F: Fn(T, T, u32, &Self) -> T>(
        &self,
        iteratee: F,
        accumulator: T,
        init_from_array: bool,
    ) -> (result: T) where T: Copy
        requires
            forall|a: T, b: T, i: u32|
                i < self@.len() ==> call_requires(iteratee, (a, b, i, self)),
        ensures
            init_from_array && self@.len() > 0 ==> folds_over(
                iteratee,
                self,
                1,
                self@[0],
                result,
            ),
            !(init_from_array && self@.len() > 0) ==> folds_over(
                iteratee,
                self,
                0,
                accumulator,
                result,
            ),
    ;
}

impl<T> ArrayUtils<T> for Vec<T> {
    fn to_2d(&self) -> (r: Vec<Vec<&T>>) {
        let mut target: Vec<Vec<&T>> = Vec::new();
        let mut i: usize = 0;
        while i < self.len()
            invariant
                0 <= i <= self@.len(),
                target@.len() == i,
                forall|k: int|
                    0 <= k < i ==> (#[trigger] target@[k])@.len() == 1 && *target@[k]@[0]
                        == self@[k],
            decreases self@.len() - i,
        {
            let mut inner: Vec<&T> = Vec::new();
            inner.push(&self[i]);
            target.push(inner);
            i += 1;
        }
        target
    }

    fn reduce<F: Fn(T, T, u32, &Vec<T>) -> T>(
        &self,
        iteratee: F,
        accumulator: T,
        init_from_array: bool,
    ) -> (result: T) where T: Copy {
        let seeded = init_from_array && self.len() > 0;
        let mut index: usize = if seeded {
            1
        } else {
            0
        };
        let mut result: T = if seeded {
            self[0]
        } else {
            accumulator
        };
        let ghost start0 = index as int;
        let ghost acc0 = result;
        while index < self.len()
            invariant
                0 <= start0 <= index,
                index <= self@.len() || index == start0,
                forall|a: T, b: T, i: u32|
                    i < self@.len() ==> call_requires(iteratee, (a, b, i, self)),
                forall|fr: T|
                    folds_over(iteratee, self, index as int, result, fr) ==> folds_over(
                        iteratee,
                        self,
                        start0,
                        acc0,
                        fr,
                    ),
            decreases self@.len() - index,
        {
            let ghost prev = result;
            result = iteratee(result, self[index], index as u32, self);
            index += 1;
            proof {
                assert forall|fr: T|
                    folds_over(iteratee, self, index as int, result, fr) implies folds_over(
                    iteratee,
                    self,
                    start0,
                    acc0,
                    fr,
                ) by {
                    assert(call_ensures(
                        iteratee,
                        (prev, self@[index as int - 1], (index - 1) as u32, self),
                        result,
                    ));
                    assert(folds_over(iteratee, self, index as int - 1, prev, fr));
                }
            }
        }
        proof {
            assert(folds_over(iteratee, self, index as int, result, result));
        }
        result
    }
}

pub trait Array2DUtils<T>: Sized + View<V = Seq<Vec<T>>> {
    /// The transpose of a two-dimensional array whose rows may be ragged:
    /// entry `(j, i)` of the result is entry `(i, j)` of the input where
    /// that exists, and absent where row `i` is shorter than `j + 1`.
    /// The column count is taken from the first row; an input without
    /// rows or without columns pivots to a single empty row.
    fn pivot(&self) -> (r: Vec<Vec<Option<&T>>>)
        ensures
            self@.len() == 0 || self@[0]@.len() == 0 ==> r@.len() == 1 && r@[0]@.len() == 0,
            self@.len() > 0 && self@[0]@.len() > 0 ==> {
                &&& r@.len() == self@[0]@.len()
                &&& forall|j: int| 0 <= j < r@.len() ==> (#[trigger] r@[j])@.len() == self@.len()
                &&& forall|j: int, i: int|
                    0 <= j < r@.len() && 0 <= i < self@.len() ==> match #[trigger] r@[j]@[i] {
                        Some(x) => j < self@[i]@.len() && *x == self@[i]@[j],
                        None => self@[i]@.len() <= j,
                    }
            },
    ;
}

impl<T> Array2DUtils<T> for Vec<Vec<T>> {
    fn pivot(&self) -> (r: Vec<Vec<Option<&T>>>) {
        if self.len() == 0 || self[0].len() == 0 {
            let mut empty_pivot: Vec<Vec<Option<&T>>> = Vec::new();
            empty_pivot.push(Vec::new());
            return empty_pivot;
        }
        let row_count = self.len();
        let col_count = self[0].len();
        let mut pivoted: Vec<Vec<Option<&T>>> = Vec::new();
        let mut j: usize = 0;
        while j < col_count
            invariant
                0 < row_count == self@.len(),
                0 < col_count == self@[0]@.len(),
                0 <= j <= col_count,
                pivoted@.len() == j,
                forall|m: int| 0 <= m < j ==> (#[trigger] pivoted@[m])@.len() == self@.len(),
                forall|m: int, i: int|
                    0 <= m < j && 0 <= i < self@.len() ==> match #[trigger] pivoted@[m]@[i] {
                        Some(x) => m < self@[i]@.len() && *x == self@[i]@[m],
                        None => self@[i]@.len() <= m,
                    },
            decreases col_count - j,
        {
            let mut column: Vec<Option<&T>> = Vec::new();
            let mut i: usize = 0;
            while i < row_count
                invariant
                    0 < row_count == self@.len(),
                    0 <= j < col_count,
                    0 <= i <= row_count,
                    column@.len() == i,
                    forall|k: int|
                        0 <= k < i ==> match #[trigger] column@[k] {
                            Some(x) => j < self@[k]@.len() && *x == self@[k]@[j as int],
                            None => self@[k]@.len() <= j,
                        },
                decreases row_count - i,
            {
                let entry = if j < self[i].len() {
                    Some(&self[i][j])
                } else {
                    None
                };
                column.push(entry);
                i += 1;
            }
            pivoted.push(column);
            j += 1;
        }
        pivoted
    }
}

/// Interface to the host's text-selection facility. The grid widget only
/// needs to read and clear the user's selection; the embedding layer
/// implements this against the real window.
pub trait WindowHelper {
    fn get_selection_text(&self) -> String;

    fn clear_selection_text(&self);
}

} // verus!

