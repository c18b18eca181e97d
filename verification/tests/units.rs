use matmul_solver::bits::{cast_i8_from_bits, cast_u8_from_bits, f32_bits_from_i64};
use matmul_solver::cache::OperandCache;
use matmul_solver::compute_hash;
use matmul_solver::dot_i8;
use matmul_solver::error::Error;
use matmul_solver::FlatMatrix;
use matmul_solver::{generate_matrices_from_seed, generate_matrices_from_seed_hex};
use sha2::Digest;

#[test]
fn test_integer_encoding_matches_hardware() {
    let mut samples: Vec<i64> = Vec::new();
    for v in -300..=300 {
        samples.push(v);
    }
    samples.extend_from_slice(&[
        1 << 20,
        (1 << 24) - 1,
        1 << 24,
        (1 << 24) + 1,
        (1 << 24) + 2,
        (1 << 24) + 3,
        16777225,
        33554430,
        33554431,
        33554433,
        100000007,
        1639833600,
        2147483647,
        -2147483648,
        -16777217,
        -100000007,
        2147483648,
        -33554431,
    ]);
    for &v in &samples {
        let expected = (v as f32).to_bits();
        assert_eq!(f32_bits_from_i64(v), expected, "encoding {}", v);
    }
}

#[test]
fn test_cast_decoding_matches_hardware() {
    let samples: [f32; 21] = [
        0.0,
        -0.0,
        0.4,
        0.6,
        -0.4,
        -0.9,
        1.0,
        127.0,
        127.9,
        128.0,
        255.0,
        255.9,
        256.0,
        300.0,
        -1.0,
        -127.9,
        -128.0,
        -129.0,
        -300.0,
        1e-40,
        65504.0,
    ];
    for &x in &samples {
        assert_eq!(cast_u8_from_bits(x.to_bits()), x as u8, "u8 of {}", x);
        assert_eq!(cast_i8_from_bits(x.to_bits()), x as i8, "i8 of {}", x);
    }
    let nan = f32::NAN;
    let inf = f32::INFINITY;
    let ninf = f32::NEG_INFINITY;
    assert_eq!(cast_u8_from_bits(nan.to_bits()), nan as u8);
    assert_eq!(cast_u8_from_bits(inf.to_bits()), inf as u8);
    assert_eq!(cast_u8_from_bits(ninf.to_bits()), ninf as u8);
    assert_eq!(cast_i8_from_bits(nan.to_bits()), nan as i8);
    assert_eq!(cast_i8_from_bits(inf.to_bits()), inf as i8);
    assert_eq!(cast_i8_from_bits(ninf.to_bits()), ninf as i8);
    assert_eq!(cast_i8_from_bits((-nan).to_bits()), (-nan) as i8);
}

#[test]
fn test_hash_matches_sha256_of_le_bytes() {
    let values: [f32; 4] = [19.0, 22.0, 43.0, 50.0];
    let m = FlatMatrix {
        data: values.iter().map(|x| x.to_bits()).collect(),
        rows: 2,
        cols: 2,
    };
    let mut hasher = sha2::Sha256::new();
    for v in values {
        hasher.update(v.to_le_bytes());
    }
    let expected = hex::encode(hasher.finalize());
    assert_eq!(compute_hash(&m), expected);
}

#[test]
fn test_hash_of_empty_matrix() {
    // the SHA-256 digest of the empty byte string, hex-encoded
    let m = FlatMatrix { data: Vec::new(), rows: 0, cols: 0 };
    assert_eq!(
        compute_hash(&m),
        "e3b0c44298fc1c149afbf4c8996fb92427ae41e4649b934ca495991b7852b855"
    );
}

#[test]
fn test_u8i8_saturating_casts() {
    // values outside the byte ranges saturate exactly as `as` casts do
    let a = FlatMatrix {
        data: vec![300.0f32.to_bits(), (-0.5f32).to_bits(), f32::NAN.to_bits()],
        rows: 1,
        cols: 3,
    };
    let b = FlatMatrix {
        data: vec![2.0f32.to_bits(), (-300.0f32).to_bits(), 7.5f32.to_bits()],
        rows: 3,
        cols: 1,
    };
    let r = matmul_solver::matmul_u8i8(&a, &b);
    let expected: i32 = 255 * 2 + 0 * (-128) + 0 * 7;
    assert_eq!(f32::from_bits(r.data[0]), expected as f32);
}

#[test]
fn test_seed_determinism() {
    let (a1, b1) = generate_matrices_from_seed(b"seed-bytes", 4, 5, 5, 3);
    let (a2, b2) = generate_matrices_from_seed(b"seed-bytes", 4, 5, 5, 3);
    assert_eq!(a1.data, a2.data);
    assert_eq!(b1.data, b2.data);
    assert_eq!((a1.rows, a1.cols), (4, 5));
    assert_eq!((b1.rows, b1.cols), (5, 3));

    let (a3, _) = generate_matrices_from_seed(b"other-seed", 4, 5, 5, 3);
    assert_ne!(a1.data, a3.data);
}

#[test]
fn test_generator_matches_blake3_stream() {
    let seed = b"workload";
    let (ra, ca, rb, cb) = (3usize, 4usize, 4usize, 2usize);
    let total = ra * ca + rb * cb;
    let mut stream = vec![0u8; total];
    let mut hasher = blake3::Hasher::new();
    hasher.update(seed);
    hasher.finalize_xof().fill(&mut stream);

    let (a, b) = generate_matrices_from_seed(seed, ra, ca, rb, cb);
    for t in 0..ra * ca {
        // A holds the unsigned byte values
        assert_eq!(f32::from_bits(a.data[t]), stream[t] as f32);
    }
    for t in 0..rb * cb {
        // B holds the bytes shifted into the signed range
        let expected = (stream[ra * ca + t].wrapping_sub(128)) as i8 as f32;
        assert_eq!(f32::from_bits(b.data[t]), expected);
    }
}

#[test]
fn test_seed_hex_round_trip() {
    let (a_raw, b_raw) = generate_matrices_from_seed(&[0xde, 0xad, 0xbe, 0xef], 2, 3, 3, 2);
    let (a_hex, b_hex) = generate_matrices_from_seed_hex("DEadBEef", 2, 3, 3, 2).unwrap();
    assert_eq!(a_raw.data, a_hex.data);
    assert_eq!(b_raw.data, b_hex.data);
}

#[test]
fn test_invalid_seed() {
    let err = generate_matrices_from_seed_hex("zz", 1, 1, 1, 1).unwrap_err();
    match &err {
        Error::InvalidSeed { .. } => {}
        other => panic!("expected InvalidSeed, got {:?}", other),
    }
    assert!(err.message().starts_with("Invalid hex seed: "));

    let err = generate_matrices_from_seed_hex("abc", 1, 1, 1, 1).unwrap_err();
    assert!(err.message().starts_with("Invalid hex seed: "));
}

#[test]
fn test_flatten_validates_row_lengths() {
    let good = vec![vec![1u32, 2, 3], vec![4, 5, 6]];
    let m = FlatMatrix::from_rows(&good).unwrap();
    assert_eq!((m.rows, m.cols), (2, 3));
    assert_eq!(m.data, vec![1, 2, 3, 4, 5, 6]);

    let ragged = vec![vec![1u32, 2], vec![3]];
    let err = FlatMatrix::from_rows(&ragged).unwrap_err();
    assert_eq!(err.message(), "Inconsistent row lengths");

    let empty: Vec<Vec<u32>> = Vec::new();
    let m = FlatMatrix::from_rows(&empty).unwrap();
    assert_eq!((m.rows, m.cols), (0, 0));
}

#[test]
fn test_to_rows_round_trip() {
    let nested = vec![vec![10u32, 20], vec![30, 40], vec![50, 60]];
    let m = FlatMatrix::from_rows(&nested).unwrap();
    assert_eq!(m.to_rows(), nested);
}

#[test]
fn test_cache_is_content_keyed() {
    // the regression target: same shape and storage reuse must not leak
    // the previous matrix's packed operand
    let m1 = FlatMatrix { data: vec![1, 2, 3, 4], rows: 2, cols: 2 };
    let mut m2 = m1.clone();
    m2.data[3] = 99;

    let mut cache: OperandCache<Vec<i8>> = OperandCache::new();
    assert!(cache.lookup(&m1, None).is_none());
    cache.store(&m1, None, vec![11i8, 12, 13, 14]);
    assert_eq!(cache.lookup(&m1, None), Some(&vec![11i8, 12, 13, 14]));

    // same shape, same (hypothetical) storage, different content: miss
    assert!(cache.lookup(&m2, None).is_none());

    // a different quantization scale also misses
    assert!(cache.lookup(&m1, Some(1065353216)).is_none());

    cache.store(&m2, None, vec![21i8, 22, 23, 24]);
    assert_eq!(cache.lookup(&m2, None), Some(&vec![21i8, 22, 23, 24]));
    assert!(cache.lookup(&m1, None).is_none());
}

#[test]
fn test_max_abs_bits_matches_float_fold() {
    let samples: Vec<Vec<f32>> = vec![
        vec![],
        vec![0.0],
        vec![-0.0, 0.0],
        vec![1.5, -2.5, 2.0],
        vec![-7.25, 3.0, 7.25],
        vec![f32::NAN, -3.0, 2.0],
        vec![f32::NAN],
        vec![f32::INFINITY, 5.0],
        vec![1e-40, -2e-40],
    ];
    for values in samples {
        let expected = values.iter().map(|x| x.abs()).fold(0.0f32, f32::max);
        let bits: Vec<u32> = values.iter().map(|x| x.to_bits()).collect();
        let got = f32::from_bits(matmul_solver::max_abs_bits(&bits));
        assert_eq!(got, expected, "max of {:?}", values);
    }
}

#[test]
fn test_dot_i8_exact() {
    let a: Vec<i8> = vec![1, -2, 3, 127, -128];
    let b: Vec<i8> = vec![5, 6, -7, 1, 1];
    let expected = 1 * 5 + (-2) * 6 + 3 * (-7) + 127 * 1 + (-128) * 1;
    assert_eq!(dot_i8(&a, &b), expected);
    assert_eq!(dot_i8(&[], &[]), 0);
}
