//! Array toolkit: row-wise statistics over a caller-supplied scalar type,
//! two-dimensional concatenation, and sorted-array search.
//!
//! The statistics are generic over [`AFloat`], the handful of scalar
//! operations they need; the caller picks the scalar and implements them.
//! What is proved here is the structure: shapes of the results and, for
//! concatenation, the exact row layout.  The scalar arithmetic itself is
//! whatever the implementation provides.

use vstd::prelude::*;

verus! {

/// The scalar operations the row statistics need.  Implemented by the
/// caller for its numeric type; nothing is assumed about the results.
pub trait AFloat: Sized + Copy {
    /// The additive identity.
    fn zero() -> Self;

    /// The multiplicative identity.
    fn one() -> Self;

    /// The not-a-number marker, returned when a statistic is undefined.
    fn nan() -> Self;

    /// Whether this value is the not-a-number marker.
    fn is_nan(&self) -> bool;

    /// Whether this value is the additive identity.
    fn is_zero(&self) -> bool;

    /// Addition.
    fn add(self, other: Self) -> Self;

    /// Subtraction.
    fn sub(self, other: Self) -> Self;

    /// Multiplication.
    fn mul(self, other: Self) -> Self;

    /// Division.
    fn div(self, other: Self) -> Self;

    /// The square root.
    fn sqrt(self) -> Self;
}

/// The rows of `s` laid out one after another.
pub open spec fn spec_concat_rows<D>(s: Seq<Vec<D>>) -> Seq<D>
    decreases s.len(),
{
    if s.len() == 0 {
        Seq::empty()
    } else {
        spec_concat_rows(s.drop_last()) + s.last()@
    }
}

/// Concatenates two-dimensional blocks along the row axis: the result
/// holds every block's rows in order.  `num_rows` and `num_columns`
/// describe each block's shape.
pub fn fast_concat_2d_axis0<D: Copy>(
    arrays: &Vec<Vec<D>>,
    num_rows: &Vec<usize>,
    num_columns: usize,
) -> (r: Vec<D>)
    requires
        arrays@.len() == num_rows@.len(),
        forall|i: int|
            0 <= i < arrays@.len() ==> (#[trigger] arrays@[i])@.len() == num_rows@[i]
                * num_columns,
    ensures
        r@ == spec_concat_rows(arrays@),
{
    let n = arrays.len();
    let mut out: Vec<D> = Vec::new();
    proof {
        assert(arrays@.subrange(0, 0) =~= Seq::<Vec<D>>::empty());
    }
    for i in 0..n
        invariant
            n == arrays@.len(),
            out@ == spec_concat_rows(arrays@.subrange(0, i as int)),
    {
        let ghost prefix = arrays@.subrange(0, i as int);
        let row = &arrays[i];
        let m = row.len();
        let ghost base = out@;
        for j in 0..m
            invariant
                m == row@.len(),
                out@ == base + row@.subrange(0, j as int),
        {
            out.push(row[j]);
            proof {
                assert(base + row@.subrange(0, j + 1) =~= (base + row@.subrange(0, j as int)).push(
                    row@[j as int],
                ));
            }
        }
        proof {
            let ext = arrays@.subrange(0, i + 1);
            assert(ext.drop_last() =~= prefix);
            assert(ext.last() == arrays@[i as int]);
            assert(row@.subrange(0, m as int) =~= row@);
        }
    }
    proof {
        assert(arrays@.subrange(0, n as int) =~= arrays@);
    }
    out
}

/// The mean of the values of `a` that are not the not-a-number marker, or
/// that marker when none remain.
fn mean<T: AFloat>(a: &Vec<T>) -> T {
    let mut sum = T::zero();
    let mut num = T::zero();
    let n = a.len();
    for i in 0..n
        invariant
            n == a@.len(),
    {
        let x = a[i];
        if !x.is_nan() {
            sum = sum.add(x);
            num = num.add(T::one());
        }
    }
    if num.is_zero() {
        T::nan()
    } else {
        sum.div(num)
    }
}

/// The mean of every row of `a`: one entry per row.
pub fn mean_axis1<T: AFloat>(a: &Vec<Vec<T>>) -> (r: Vec<T>)
    ensures
        r@.len() == a@.len(),
{
    let n = a.len();
    let mut res: Vec<T> = Vec::new();
    for i in 0..n
        invariant
            n == a@.len(),
            res@.len() == i,
    {
        let m = mean(&a[i]);
        res.push(m);
    }
    res
}

/// The correlation of `a` and `b` over the positions where neither is the
/// not-a-number marker, or that marker when none remain.
fn corr<T: AFloat>(a: &Vec<T>, b: &Vec<T>) -> T {
    let n = if a.len() < b.len() {
        a.len()
    } else {
        b.len()
    };
    let mut xs: Vec<T> = Vec::new();
    let mut ys: Vec<T> = Vec::new();
    for i in 0..n
        invariant
            n <= a@.len(),
            n <= b@.len(),
            xs@.len() == ys@.len(),
    {
        let x = a[i];
        let y = b[i];
        if !x.is_nan() && !y.is_nan() {
            xs.push(x);
            ys.push(y);
        }
    }
    if xs.len() == 0 {
        return T::nan();
    }
    let x_mean = mean(&xs);
    let y_mean = mean(&ys);
    let mut cov = T::zero();
    let mut var1 = T::zero();
    let mut var2 = T::zero();
    let m = xs.len();
    for i in 0..m
        invariant
            m == xs@.len(),
            m <= ys@.len(),
    {
        let dx = xs[i].sub(x_mean);
        let dy = ys[i].sub(y_mean);
        cov = cov.add(dx.mul(dy));
        var1 = var1.add(dx.mul(dx));
        var2 = var2.add(dy.mul(dy));
    }
    cov.div(var1.sqrt().mul(var2.sqrt()))
}

/// The correlation of each row of `a` with the same row of `b`: one entry
/// per row pair.
pub fn corr_axis1<T: AFloat>(a: &Vec<Vec<T>>, b: &Vec<Vec<T>>) -> (r: Vec<T>)
    requires
        a@.len() == b@.len(),
    ensures
        r@.len() == a@.len(),
{
    let n = a.len();
    let mut res: Vec<T> = Vec::new();
    for i in 0..n
        invariant
            n == a@.len(),
            n == b@.len(),
            res@.len() == i,
    {
        let c = corr(&a[i], &b[i]);
        res.push(c);
    }
    res
}

/// Whether `r` is the insertion point of `value` in the sorted sequence
/// `s`: everything before `r` is smaller, everything from `r` on is at
/// least `value`.
pub open spec fn spec_insertion_point(s: Seq<i64>, value: i64, r: int) -> bool {
    &&& 0 <= r <= s.len()
    &&& forall|j: int| 0 <= j < r ==> s[j] < value
    &&& forall|j: int| r <= j < s.len() ==> s[j] >= value
}

/// The position at which `value` could be inserted into the sorted array
/// `arr` while keeping it sorted: the index of the first element not below
/// `value`.
pub fn searchsorted(arr: &Vec<i64>, value: i64) -> (r: usize)
    requires
        forall|i: int, j: int| 0 <= i < j < arr@.len() ==> arr@[i] <= arr@[j],
    ensures
        spec_insertion_point(arr@, value, r as int),
{
    let mut lo: usize = 0;
    let mut hi: usize = arr.len();
    while lo < hi
        invariant
            0 <= lo <= hi <= arr@.len(),
            forall|i: int, j: int| 0 <= i < j < arr@.len() ==> arr@[i] <= arr@[j],
            forall|j: int| 0 <= j < lo ==> arr@[j] < value,
            forall|j: int| hi <= j < arr@.len() ==> arr@[j] >= value,
        decreases hi - lo,
    {
        let mid = lo + (hi - lo) / 2;
        if arr[mid] < value {
            lo = mid + 1;
        } else {
            hi = mid;
        }
    }
    lo
}

/// The insertion point of each of `values` in the sorted array `arr`.
pub fn batch_searchsorted(arr: &Vec<i64>, values: &Vec<i64>) -> (r: Vec<usize>)
    requires
        forall|i: int, j: int| 0 <= i < j < arr@.len() ==> arr@[i] <= arr@[j],
    ensures
        r@.len() == values@.len(),
        forall|i: int|
            0 <= i < values@.len() ==> spec_insertion_point(arr@, values@[i], #[trigger] r@[i] as int),
{
    let n = values.len();
    let mut out: Vec<usize> = Vec::new();
    for i in 0..n
        invariant
            n == values@.len(),
            forall|k: int, j: int| 0 <= k < j < arr@.len() ==> arr@[k] <= arr@[j],
            out@.len() == i,
            forall|k: int|
                0 <= k < i ==> spec_insertion_point(arr@, values@[k], #[trigger] out@[k] as int),
    {
        let p = searchsorted(arr, values[i]);
        out.push(p);
    }
    out
}

} // verus!
