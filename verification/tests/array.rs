use eppo_core::toolkit::{corr_axis1, fast_concat_2d_axis0, mean_axis1, AFloat};

#[derive(Clone, Copy, Debug, PartialEq)]
struct F32(f32);

#[derive(Clone, Copy, Debug, PartialEq)]
struct F64(f64);

impl AFloat for F32 {
    fn zero() -> F32 {
        F32(0.0)
    }
    fn one() -> F32 {
        F32(1.0)
    }
    fn nan() -> F32 {
        F32(f32::NAN)
    }
    fn is_nan(&self) -> bool {
        f32::is_nan(self.0)
    }
    fn is_zero(&self) -> bool {
        self.0 == 0.0
    }
    fn add(self, other: F32) -> F32 {
        F32(self.0 + other.0)
    }
    fn sub(self, other: F32) -> F32 {
        F32(self.0 - other.0)
    }
    fn mul(self, other: F32) -> F32 {
        F32(self.0 * other.0)
    }
    fn div(self, other: F32) -> F32 {
        F32(self.0 / other.0)
    }
    fn sqrt(self) -> F32 {
        F32(f32::sqrt(self.0))
    }
}

impl AFloat for F64 {
    fn zero() -> F64 {
        F64(0.0)
    }
    fn one() -> F64 {
        F64(1.0)
    }
    fn nan() -> F64 {
        F64(f64::NAN)
    }
    fn is_nan(&self) -> bool {
        f64::is_nan(self.0)
    }
    fn is_zero(&self) -> bool {
        self.0 == 0.0
    }
    fn add(self, other: F64) -> F64 {
        F64(self.0 + other.0)
    }
    fn sub(self, other: F64) -> F64 {
        F64(self.0 - other.0)
    }
    fn mul(self, other: F64) -> F64 {
        F64(self.0 * other.0)
    }
    fn div(self, other: F64) -> F64 {
        F64(self.0 / other.0)
    }
    fn sqrt(self) -> F64 {
        F64(f64::sqrt(self.0))
    }
}

fn rows_f32(rows: &[&[f32]]) -> Vec<Vec<F32>> {
    rows.iter()
        .map(|row| row.iter().map(|&x| F32(x)).collect())
        .collect()
}

fn rows_f64(rows: &[&[f64]]) -> Vec<Vec<F64>> {
    rows.iter()
        .map(|row| row.iter().map(|&x| F64(x)).collect())
        .collect()
}

fn assert_allclose_f32(a: &[F32], b: &[f32]) {
    let atol = 1e-6_f32;
    let rtol = 1e-6_f32;
    assert_eq!(a.len(), b.len());
    for (&x, &y) in a.iter().zip(b.iter()) {
        assert!(
            (x.0 - y).abs() <= atol + rtol * y.abs(),
            "not close - x: {:?}, y: {:?}",
            x,
            y
        );
    }
}

fn assert_allclose_f64(a: &[F64], b: &[f64]) {
    let atol = 1e-6_f64;
    let rtol = 1e-6_f64;
    assert_eq!(a.len(), b.len());
    for (&x, &y) in a.iter().zip(b.iter()) {
        assert!(
            (x.0 - y).abs() <= atol + rtol * y.abs(),
            "not close - x: {:?}, y: {:?}",
            x,
            y
        );
    }
}

#[test]
fn test_fast_concat_2d_axis0_f32() {
    let array_2d_u: Vec<F32> = vec![1., 2., 3.].into_iter().map(F32).collect();
    let array_2d_l: Vec<F32> = vec![4., 5., 6., 7., 8., 9.].into_iter().map(F32).collect();
    let arrays = vec![array_2d_u, array_2d_l];
    let out = fast_concat_2d_axis0(&arrays, &vec![1, 2], 3);
    let expected: Vec<F32> = vec![1., 2., 3., 4., 5., 6., 7., 8., 9.]
        .into_iter()
        .map(F32)
        .collect();
    assert_eq!(out, expected);
}

#[test]
fn test_fast_concat_2d_axis0_f64() {
    let array_2d_u: Vec<F64> = vec![1., 2., 3.].into_iter().map(F64).collect();
    let array_2d_l: Vec<F64> = vec![4., 5., 6., 7., 8., 9.].into_iter().map(F64).collect();
    let arrays = vec![array_2d_u, array_2d_l];
    let out = fast_concat_2d_axis0(&arrays, &vec![1, 2], 3);
    let expected: Vec<F64> = vec![1., 2., 3., 4., 5., 6., 7., 8., 9.]
        .into_iter()
        .map(F64)
        .collect();
    assert_eq!(out, expected);
}

#[test]
fn test_mean_axis1_f32() {
    let array = rows_f32(&[&[1., 2., 3.], &[4., 5., 6.]]);
    let out = mean_axis1(&array);
    assert_allclose_f32(out.as_slice(), &[2., 5.]);
    let out = mean_axis1(&array);
    assert_allclose_f32(out.as_slice(), &[2., 5.]);
}

#[test]
fn test_mean_axis1_f64() {
    let array = rows_f64(&[&[1., 2., 3.], &[4., 5., 6.]]);
    let out = mean_axis1(&array);
    assert_allclose_f64(out.as_slice(), &[2., 5.]);
    let out = mean_axis1(&array);
    assert_allclose_f64(out.as_slice(), &[2., 5.]);
}

#[test]
fn test_corr_axis1_f32() {
    let array = rows_f32(&[&[1., 2., 3.], &[4., 5., 6.]]);
    let shifted = rows_f32(&[&[2., 3., 4.], &[5., 6., 7.]]);
    let out = corr_axis1(&array, &shifted);
    assert_allclose_f32(out.as_slice(), &[1., 1.]);
    let out = corr_axis1(&array, &shifted);
    assert_allclose_f32(out.as_slice(), &[1., 1.]);
}

#[test]
fn test_corr_axis1_f64() {
    let array = rows_f64(&[&[1., 2., 3.], &[4., 5., 6.]]);
    let shifted = rows_f64(&[&[2., 3., 4.], &[5., 6., 7.]]);
    let out = corr_axis1(&array, &shifted);
    assert_allclose_f64(out.as_slice(), &[1., 1.]);
    let out = corr_axis1(&array, &shifted);
    assert_allclose_f64(out.as_slice(), &[1., 1.]);
}
