use rand::rngs::StdRng;
use rand::{Rng, SeedableRng};
use reveler::commit_error::CommitError;
use reveler::fft::{circular_convolution, LOCAL_N, LOCAL_Q};
use reveler::utils::{
    generate_params, generate_params_with, generate_vector_with, get_optimal_thread_count,
    row_ranges, serialize_point, thread_count_for,
};
use reveler::{compute_rows, RevelerCommit, RevelerResult};
use rustfft::num_complex::Complex;
use rustfft::FftPlanner;

/// 64-bit FNV-1a of the bytes, as eight big-endian bytes.
fn fnv_digest(bytes: &Vec<u8>) -> Vec<u8> {
    let mut h: u64 = 0xcbf29ce484222325;
    for &b in bytes.iter() {
        h ^= b as u64;
        h = h.wrapping_mul(0x100000001b3);
    }
    h.to_be_bytes().to_vec()
}

fn naive_convolution(u: &[u64], v: &[u64], q: u64) -> Vec<u64> {
    let n = u.len();
    (0..n)
        .map(|k| {
            let mut s: u128 = 0;
            for j in 0..n {
                s += (u[j] as u128) * (v[(k + n - j) % n] as u128);
            }
            (s % q as u128) as u64
        })
        .collect()
}

fn transform_convolution(u: &[u64], v: &[u64], q: u64) -> Vec<u64> {
    let n = u.len();
    let mut planner = FftPlanner::<f64>::new();
    let fwd = planner.plan_fft_forward(n);
    let inv = planner.plan_fft_inverse(n);
    let mut a: Vec<Complex<f64>> = u.iter().map(|&x| Complex::new(x as f64, 0.0)).collect();
    let mut b: Vec<Complex<f64>> = v.iter().map(|&x| Complex::new(x as f64, 0.0)).collect();
    fwd.process(&mut a);
    fwd.process(&mut b);
    let mut c: Vec<Complex<f64>> = a.iter().zip(b.iter()).map(|(x, y)| x * y).collect();
    inv.process(&mut c);
    c.iter()
        .map(|x| {
            let r = (x.re / n as f64).round() as i64;
            ((r % q as i64 + q as i64) % q as i64) as u64
        })
        .collect()
}

fn random_vec(rng: &mut StdRng, n: usize, q: u64) -> Vec<u64> {
    (0..n).map(|_| rng.gen_range(0..q)).collect()
}

fn impulse_rows() -> Vec<Vec<u64>> {
    let mut row = vec![0u64; LOCAL_N];
    row[0] = 1;
    vec![row; LOCAL_N]
}

fn seeded_inputs(seed: u64) -> RevelerCommit {
    let mut rng = StdRng::seed_from_u64(seed);
    let (a, b) = generate_params_with(&mut rng);
    let m = generate_vector_with(&mut rng);
    let r = generate_vector_with(&mut rng);
    RevelerCommit::new(a, b, m, r)
}

#[test]
fn convolution_exact_small_values() {
    let r = circular_convolution(&vec![1, 2, 3], &vec![4, 5, 6], 17);
    assert_eq!(r, vec![14, 14, 11]);
}

#[test]
fn convolution_reduces_large_entries() {
    let r = circular_convolution(&vec![u64::MAX, 0], &vec![u64::MAX, 1], LOCAL_Q);
    // u64::MAX = 0 mod 65535, so every product vanishes.
    assert_eq!(r, vec![0, 0]);
    let r = circular_convolution(&vec![65536, 0], &vec![3, 7], LOCAL_Q);
    assert_eq!(r, vec![3, 7]);
}

#[test]
fn convolution_empty() {
    assert_eq!(circular_convolution(&vec![], &vec![], 17), Vec::<u64>::new());
}

#[test]
fn convolution_matches_naive_random_trials() {
    let mut rng = StdRng::seed_from_u64(17);
    for _ in 0..1000 {
        let u = random_vec(&mut rng, 8, 17);
        let v = random_vec(&mut rng, 8, 17);
        let exact = circular_convolution(&u, &v, 17);
        assert_eq!(exact, naive_convolution(&u, &v, 17));
        assert_eq!(exact, transform_convolution(&u, &v, 17));
    }
}

#[test]
fn convolution_matches_transform_at_full_size() {
    let mut rng = StdRng::seed_from_u64(99);
    for _ in 0..5 {
        let u = random_vec(&mut rng, LOCAL_N, LOCAL_Q);
        let v = random_vec(&mut rng, LOCAL_N, LOCAL_Q);
        let exact = circular_convolution(&u, &v, LOCAL_Q);
        assert_eq!(exact, naive_convolution(&u, &v, LOCAL_Q));
        assert_eq!(exact, transform_convolution(&u, &v, LOCAL_Q));
    }
}

#[test]
fn convolution_with_impulse_is_identity() {
    let r = circular_convolution(&vec![5, 9, 13, 2], &vec![1, 0, 0, 0], 17);
    assert_eq!(r, vec![5, 9, 13, 2]);
    let r = circular_convolution(&vec![20, 9, 13, 2], &vec![1, 0, 0, 0], 17);
    assert_eq!(r, vec![3, 9, 13, 2]);
}

#[test]
fn serialize_point_is_big_endian() {
    let bytes = serialize_point(&vec![1, 0x0102030405060708]);
    assert_eq!(bytes, vec![0, 0, 0, 0, 0, 0, 0, 1, 1, 2, 3, 4, 5, 6, 7, 8]);
    assert_eq!(serialize_point(&vec![]), Vec::<u8>::new());
}

#[test]
fn row_ranges_partition_rows() {
    assert_eq!(row_ranges(10, 3), vec![(0, 4), (4, 8), (8, 10)]);
    assert_eq!(row_ranges(3, 5), vec![(0, 1), (1, 2), (2, 3), (3, 3), (3, 3)]);
    assert_eq!(row_ranges(256, 1), vec![(0, 256)]);
    assert_eq!(row_ranges(0, 2), vec![(0, 0), (0, 0)]);
}

#[test]
fn thread_count_rule() {
    assert_eq!(thread_count_for(4, 256), 4);
    assert_eq!(thread_count_for(12, 256), 8);
    assert_eq!(thread_count_for(4, 2000), 8);
    assert_eq!(thread_count_for(12, 2000), 16);
    let t = get_optimal_thread_count();
    assert!(t >= 1 && t <= 8);
}

#[test]
fn generated_params_are_in_range() {
    let (a, b) = generate_params();
    for m in [&a, &b] {
        assert_eq!(m.len(), LOCAL_N);
        for row in m.iter() {
            assert_eq!(row.len(), LOCAL_N);
            assert!(row.iter().all(|&x| x < LOCAL_Q));
        }
    }
}

#[test]
fn seeded_params_are_reproducible() {
    let mut r1 = StdRng::seed_from_u64(5);
    let mut r2 = StdRng::seed_from_u64(5);
    assert_eq!(generate_params_with(&mut r1), generate_params_with(&mut r2));
}

#[test]
fn commit_point_exact_with_impulse_rows() {
    let m: Vec<u64> = (0..LOCAL_N as u64).collect();
    let r: Vec<u64> = vec![3; LOCAL_N];
    let c = RevelerCommit::new(impulse_rows(), impulse_rows(), m, r);
    let rec = c.commit(fnv_digest).unwrap();
    // sum(m) = 32640, sum(r) = 768.
    assert_eq!(rec.commitment_point, vec![(32640 + 768) % LOCAL_Q; LOCAL_N]);
    let bytes = serialize_point(&rec.commitment_point);
    assert_eq!(rec.commitment_hash, fnv_digest(&bytes));
}

#[test]
fn commit_point_wraps_modulus() {
    let m: Vec<u64> = vec![LOCAL_Q - 1; LOCAL_N];
    let r: Vec<u64> = vec![0; LOCAL_N];
    let c = RevelerCommit::new(impulse_rows(), impulse_rows(), m, r);
    let rec = c.commit(fnv_digest).unwrap();
    // 256 * 65534 = -256 mod 65535.
    assert_eq!(rec.commitment_point, vec![LOCAL_Q - 256; LOCAL_N]);
}

#[test]
fn commit_with_zero_inputs() {
    let z = vec![vec![0u64; LOCAL_N]; LOCAL_N];
    let c = RevelerCommit::new(z.clone(), z, vec![7; LOCAL_N], vec![9; LOCAL_N]);
    let rec = c.commit(fnv_digest).unwrap();
    assert_eq!(rec.commitment_point, vec![0; LOCAL_N]);
}

#[test]
fn commit_is_deterministic() {
    let c = seeded_inputs(1);
    let r1 = c.commit(fnv_digest).unwrap();
    let r2 = c.commit(fnv_digest).unwrap();
    assert_eq!(r1.commitment_point, r2.commitment_point);
    assert_eq!(r1.commitment_hash, r2.commitment_hash);
}

#[test]
fn verify_accepts_commitment() {
    let c = seeded_inputs(2);
    let rec = c.commit(fnv_digest).unwrap();
    assert!(RevelerCommit::verify(&rec, fnv_digest));
}

#[test]
fn verify_rejects_flipped_point_bits() {
    for seed in [3u64, 4, 5] {
        let c = seeded_inputs(seed);
        let rec = c.commit(fnv_digest).unwrap();
        for (i, bit) in [(0usize, 0u32), (17, 5), (255, 15), (100, 63)] {
            let mut t = rec.clone();
            t.commitment_point[i] ^= 1u64 << bit;
            assert!(!RevelerCommit::verify(&t, fnv_digest));
        }
    }
}

#[test]
fn verify_rejects_wrong_digest() {
    let rec = RevelerResult::new(vec![1, 2, 3], vec![0; 8]);
    assert!(!RevelerCommit::verify(&rec, fnv_digest));
    let digest = fnv_digest(&serialize_point(&vec![1, 2, 3]));
    let ok = RevelerResult::new(vec![1, 2, 3], digest.clone());
    assert!(RevelerCommit::verify(&ok, fnv_digest));
    let short = RevelerResult::new(vec![1, 2, 3], digest[..7].to_vec());
    assert!(!RevelerCommit::verify(&short, fnv_digest));
}

#[test]
fn seal_hashes_encoding() {
    let rec = RevelerResult::seal(vec![9, 8], fnv_digest);
    assert_eq!(rec.commitment_point, vec![9, 8]);
    assert_eq!(rec.commitment_hash, fnv_digest(&serialize_point(&vec![9, 8])));
}

#[test]
fn point_independent_of_thread_count() {
    let c = seeded_inputs(6);
    let base = c.compute_point(1).unwrap();
    assert_eq!(base.len(), LOCAL_N);
    for t in [2usize, LOCAL_N, LOCAL_N + 5] {
        let p = c.compute_point(t).unwrap();
        assert_eq!(p.len(), LOCAL_N);
        assert_eq!(p, base);
    }
}

#[test]
fn compute_rows_matches_point_slice() {
    let c = seeded_inputs(7);
    let base = c.compute_point(3).unwrap();
    let part = compute_rows(&c.local_a, &c.local_b, &c.local_m, &c.local_r, 10, 20);
    assert_eq!(part, base[10..20].to_vec());
}

#[test]
fn commit_rejects_short_matrix() {
    let mut c = seeded_inputs(8);
    c.local_a.pop();
    assert_eq!(c.commit(fnv_digest).unwrap_err(), CommitError::DimensionMismatch);
    assert!(!c.has_valid_dimensions());
}

#[test]
fn commit_rejects_bad_vectors_and_rows() {
    let c = seeded_inputs(9);
    let mut short_m = c.clone();
    short_m.local_m.pop();
    assert_eq!(short_m.commit(fnv_digest).unwrap_err(), CommitError::DimensionMismatch);
    let mut long_r = c.clone();
    long_r.local_r.push(1);
    assert_eq!(long_r.compute_point(2).unwrap_err(), CommitError::DimensionMismatch);
    let mut short_row = c.clone();
    short_row.local_b[40].pop();
    assert_eq!(short_row.commit(fnv_digest).unwrap_err(), CommitError::DimensionMismatch);
    assert!(c.has_valid_dimensions());
}

#[test]
fn random_inputs_commit_and_verify() {
    let c = RevelerCommit::random();
    assert!(c.has_valid_dimensions());
    let rec = c.commit(fnv_digest).unwrap();
    assert!(RevelerCommit::verify(&rec, fnv_digest));
}
