use distances::{euclidean_sq, DistanceError, U32x16, U32x4, U32x8};

fn stream(seed: u64, len: usize, limit: u32) -> Vec<u32> {
    let mut state = seed;
    let mut out = Vec::with_capacity(len);
    for _ in 0..len {
        state = state.wrapping_mul(6364136223846793005).wrapping_add(1442695040888963407);
        out.push(((state >> 33) as u32) % limit);
    }
    out
}

#[test]
fn distance_to_itself_is_zero() {
    for len in [1usize, 3, 4, 17, 64] {
        let x = stream(len as u64, len, u32::MAX);
        assert_eq!(euclidean_sq(&x, &x), Ok(0));
        assert_eq!(U32x4::euclidean_sq(&x, &x), Ok(0));
        assert_eq!(U32x8::euclidean_sq(&x, &x), Ok(0));
        assert_eq!(U32x16::euclidean_sq(&x, &x), Ok(0));
    }
    assert_eq!(euclidean_sq(&[i8::MIN, i8::MAX], &[i8::MIN, i8::MAX]), Ok(0));
}

#[test]
fn distance_is_symmetric() {
    for seed in 0..50u64 {
        let len = 1 + (seed as usize % 23);
        let x = stream(seed, len, 40_000);
        let y = stream(seed + 900, len, 40_000);
        assert_eq!(euclidean_sq(&x, &y), euclidean_sq(&y, &x));
        assert_eq!(U32x4::euclidean_sq(&x, &y), U32x4::euclidean_sq(&y, &x));
        assert_eq!(U32x8::euclidean_sq(&x, &y), U32x8::euclidean_sq(&y, &x));
        assert_eq!(U32x16::euclidean_sq(&x, &y), U32x16::euclidean_sq(&y, &x));
    }
    let short = [1u32];
    let long = [1u32, 2];
    assert_eq!(euclidean_sq(&short, &long), Err(DistanceError::DimensionMismatch));
    assert_eq!(euclidean_sq(&long, &short), Err(DistanceError::DimensionMismatch));
}

#[test]
fn triangle_inequality_without_roots() {
    for seed in 0..200u64 {
        let len = 1 + (seed as usize % 9);
        let x = stream(seed, len, 1000);
        let y = stream(seed + 300, len, 1000);
        let z = stream(seed + 600, len, 1000);
        let a = i128::from(euclidean_sq(&x, &z).unwrap());
        let b = i128::from(euclidean_sq(&x, &y).unwrap());
        let c = i128::from(euclidean_sq(&y, &z).unwrap());
        assert!((a - b - c) * (a - b - c) <= 4 * b * c);
        let (ra, rb, rc) = ((a as f64).sqrt(), (b as f64).sqrt(), (c as f64).sqrt());
        assert!(ra <= rb + rc + 1e-9);
    }
}

#[test]
fn triangle_inequality_is_tight_on_a_line() {
    let x = [0u32, 0];
    let y = [3u32, 4];
    let z = [6u32, 8];
    let a = i64::from(euclidean_sq(&x, &z).unwrap());
    let b = i64::from(euclidean_sq(&x, &y).unwrap());
    let c = i64::from(euclidean_sq(&y, &z).unwrap());
    assert_eq!((a, b, c), (100, 25, 25));
    assert_eq!((a - b - c) * (a - b - c), 4 * b * c);
}

#[test]
fn distance_splits_at_any_coordinate() {
    let x = stream(1, 12, 1000);
    let y = stream(2, 12, 1000);
    let whole = euclidean_sq(&x, &y).unwrap();
    for mid in 1..12 {
        let head = euclidean_sq(&x[..mid], &y[..mid]).unwrap();
        let tail = euclidean_sq(&x[mid..], &y[mid..]).unwrap();
        assert_eq!(head + tail, whole);
    }
}
