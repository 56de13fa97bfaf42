//! Helpers around a commitment: how many workers to use and how rows are
//! split among them, the byte encoding of a commitment point, and random
//! parameters.

use vstd::prelude::*;
use rand::Rng;
use rand::SeedableRng;
use rand::rngs::StdRng;
use crate::fft::{LOCAL_N, LOCAL_Q};

verus! {

#[verifier::external_type_specification]
#[verifier::external_body]
pub struct ExStdRng(StdRng);

/// Relies on num_cpus::get: the number of logical CPUs available, documented
/// to be at least 1.
#[verifier::external_body]
fn cpu_count() -> (r: usize)
    ensures
        r >= 1,
{
    num_cpus::get()
}

/// The worker count for `cpu_cores` CPUs and dimension `n`: twice the cores,
/// at most 16, above 1000 rows; the cores, at most 8, otherwise.
pub open spec fn optimal_thread_count(cpu_cores: int, n: int) -> int {
    if n > 1000 {
        if cpu_cores * 2 < 16 { cpu_cores * 2 } else { 16 }
    } else {
        if cpu_cores < 8 { cpu_cores } else { 8 }
    }
}

/// Chooses the number of workers for `cpu_cores` CPUs and dimension `n`.
pub fn thread_count_for(cpu_cores: usize, n: usize) -> (r: usize)
    ensures
        r as int == optimal_thread_count(cpu_cores as int, n as int),
{
    if n > 1000 {
        if cpu_cores < 8 { cpu_cores * 2 } else { 16 }
    } else {
        if cpu_cores < 8 { cpu_cores } else { 8 }
    }
}

/// The number of workers used for a commitment on this machine.
pub fn get_optimal_thread_count() -> (r: usize)
    ensures
        1 <= r <= 8,
        exists|c: int| c >= 1 && r as int == optimal_thread_count(c, LOCAL_N as int),
{
    let cores = cpu_count();
    thread_count_for(cores, LOCAL_N)
}

/// Rows per worker: `ceil(n / thread_count)`.
pub open spec fn chunk_size(n: int, thread_count: int) -> int {
    n / thread_count + if n % thread_count == 0 { 0int } else { 1int }
}

/// First row of worker `t`'s range (clamped to `n`).
pub open spec fn range_start(n: int, thread_count: int, t: int) -> int {
    let c = t * chunk_size(n, thread_count);
    if c < n { c } else { n }
}

/// Enough workers of `chunk_size` rows cover all `n` rows.
proof fn lemma_chunks_cover(n: int, tc: int)
    requires
        n >= 0,
        tc > 0,
    ensures
        tc * chunk_size(n, tc) >= n,
        chunk_size(n, tc) >= 0,
        n > 0 ==> chunk_size(n, tc) >= 1,
{
    vstd::arithmetic::div_mod::lemma_fundamental_div_mod(n, tc);
    vstd::arithmetic::div_mod::lemma_mod_bound(n, tc);
    vstd::arithmetic::div_mod::lemma_div_pos_is_pos(n, tc);
    let d = n / tc;
    let m = n % tc;
    let e: int = if m == 0 { 0 } else { 1 };
    assert(tc * (d + e) >= n) by (nonlinear_arith)
        requires
            n == tc * d + m,
            0 <= m < tc,
            e == (if m == 0 { 0int } else { 1int }),
    ;
    if n > 0 && d == 0 {
        assert(m == n);
    }
}

/// Splits rows `0..n` into `thread_count` contiguous ranges `[start, end)`
/// of `ceil(n / thread_count)` rows each (the last ones shorter or empty),
/// in index order.
pub fn row_ranges(n: usize, thread_count: usize) -> (r: Vec<(usize, usize)>)
    requires
        thread_count > 0,
    ensures
        r.len() == thread_count,
        forall|t: int|
            0 <= t < thread_count ==> (#[trigger] r@[t]).0 as int == range_start(
                n as int,
                thread_count as int,
                t,
            ) && r@[t].1 as int == range_start(n as int, thread_count as int, t + 1),
        forall|t: int| 0 <= t < thread_count ==> (#[trigger] r@[t]).0 <= r@[t].1 <= n,
        range_start(n as int, thread_count as int, 0) == 0,
        range_start(n as int, thread_count as int, thread_count as int) == n,
{
    let whole: usize = n / thread_count;
    let chunk: usize = if n % thread_count == 0 {
        whole
    } else {
        proof {
            vstd::arithmetic::div_mod::lemma_mod_bound(n as int, 1);
            vstd::arithmetic::div_mod::lemma_small_mod(0, thread_count as nat);
            vstd::arithmetic::div_mod::lemma_div_decreases(n as int, thread_count as int);
        }
        whole + 1
    };
    proof {
        lemma_chunks_cover(n as int, thread_count as int);
    }
    let ghost cs = chunk_size(n as int, thread_count as int);
    let mut r: Vec<(usize, usize)> = Vec::with_capacity(thread_count);
    let mut start: usize = 0;
    let mut t: usize = 0;
    while t < thread_count
        invariant
            chunk as int == cs,
            cs == chunk_size(n as int, thread_count as int),
            cs >= 0,
            n > 0 ==> cs >= 1,
            t <= thread_count,
            r.len() == t,
            start as int == range_start(n as int, thread_count as int, t as int),
            forall|i: int|
                0 <= i < t ==> (#[trigger] r@[i]).0 as int == range_start(
                    n as int,
                    thread_count as int,
                    i,
                ) && r@[i].1 as int == range_start(n as int, thread_count as int, i + 1),
            forall|i: int| 0 <= i < t ==> (#[trigger] r@[i]).0 <= r@[i].1 <= n,
            start <= n,
        decreases thread_count - t,
    {
        assert((t as int + 1) * cs == t as int * cs + cs) by (nonlinear_arith);
        assert(t as int * cs >= 0) by (nonlinear_arith)
            requires
                cs >= 0,
        ;
        let end: usize = if n - start < chunk { n } else { start + chunk };
        r.push((start, end));
        start = end;
        t = t + 1;
    }
    assert(range_start(n as int, thread_count as int, 0) == 0) by {
        assert(0 * cs == 0);
    }
    r
}

/// Big-endian eight-byte encoding of `x`.
pub open spec fn be_bytes(x: u64) -> Seq<u8> {
    seq![
        (x >> 56u64) as u8,
        (x >> 48u64) as u8,
        (x >> 40u64) as u8,
        (x >> 32u64) as u8,
        (x >> 24u64) as u8,
        (x >> 16u64) as u8,
        (x >> 8u64) as u8,
        x as u8,
    ]
}

/// The encoding of a commitment point: the big-endian eight-byte encoding
/// of each entry, in index order.
pub open spec fn point_bytes(p: Seq<u64>) -> Seq<u8>
    decreases p.len(),
{
    if p.len() == 0 {
        Seq::empty()
    } else {
        point_bytes(p.drop_last()) + be_bytes(p.last())
    }
}

/// Serialises a commitment point: each entry as eight big-endian bytes.
pub fn serialize_point(point: &Vec<u64>) -> (r: Vec<u8>)
    ensures
        r@ == point_bytes(point@),
{
    let mut out: Vec<u8> = Vec::new();
    let mut i: usize = 0;
    while i < point.len()
        invariant
            i <= point.len(),
            out@ == point_bytes(point@.take(i as int)),
        decreases point.len() - i,
    {
        let x = point[i];
        let ghost before = out@;
        out.push((x >> 56) as u8);
        out.push((x >> 48) as u8);
        out.push((x >> 40) as u8);
        out.push((x >> 32) as u8);
        out.push((x >> 24) as u8);
        out.push((x >> 16) as u8);
        out.push((x >> 8) as u8);
        out.push(x as u8);
        proof {
            assert(point@.take(i + 1).drop_last() =~= point@.take(i as int));
            assert(out@ =~= before + be_bytes(x));
        }
        i = i + 1;
    }
    assert(point@.take(point.len() as int) =~= point@);
    out
}

/// Relies on rand's `StdRng::from_entropy`: a generator seeded from the
/// operating system's entropy source (nothing is promised of its state; the
/// call panics only if the operating system gives no entropy).
#[verifier::external_body]
fn entropy_rng() -> (r: StdRng) {
    StdRng::from_entropy()
}

/// Relies on rand's `Rng::gen_range` over `0..bound`: a value in that range.
#[verifier::external_body]
fn draw_below(rng: &mut StdRng, bound: u64) -> (r: u64)
    requires
        bound > 0,
    ensures
        r < bound,
{
    rng.gen_range(0..bound)
}

/// A vector of dimension `n` whose entries lie in `[0, q)`.
pub open spec fn vector_wf(v: Seq<u64>, n: int, q: int) -> bool {
    v.len() == n && forall|j: int| 0 <= j < n ==> v[j] < q
}

/// An `n` by `n` matrix whose entries lie in `[0, q)`.
pub open spec fn matrix_wf(a: Seq<Vec<u64>>, n: int, q: int) -> bool {
    a.len() == n && forall|i: int| 0 <= i < n ==> vector_wf(#[trigger] a[i]@, n, q)
}

/// Draws a vector of dimension `LOCAL_N` with entries uniform in `[0, LOCAL_Q)`.
pub fn generate_vector_with(rng: &mut StdRng) -> (v: Vec<u64>)
    ensures
        vector_wf(v@, LOCAL_N as int, LOCAL_Q as int),
{
    let mut v: Vec<u64> = Vec::with_capacity(LOCAL_N);
    let mut j: usize = 0;
    while j < LOCAL_N
        invariant
            j <= LOCAL_N,
            v.len() == j,
            forall|i: int| 0 <= i < j ==> v@[i] < LOCAL_Q,
        decreases LOCAL_N - j,
    {
        let x = draw_below(rng, LOCAL_Q);
        v.push(x);
        j = j + 1;
    }
    v
}

/// Draws a `LOCAL_N` by `LOCAL_N` matrix with entries uniform in `[0, LOCAL_Q)`.
pub fn generate_matrix_with(rng: &mut StdRng) -> (a: Vec<Vec<u64>>)
    ensures
        matrix_wf(a@, LOCAL_N as int, LOCAL_Q as int),
{
    let mut a: Vec<Vec<u64>> = Vec::with_capacity(LOCAL_N);
    let mut i: usize = 0;
    while i < LOCAL_N
        invariant
            i <= LOCAL_N,
            a.len() == i,
            forall|k: int| 0 <= k < i ==> vector_wf(#[trigger] a@[k]@, LOCAL_N as int, LOCAL_Q as int),
        decreases LOCAL_N - i,
    {
        let row = generate_vector_with(rng);
        a.push(row);
        i = i + 1;
    }
    a
}

/// Draws the two public matrices A and B from `rng`.
pub fn generate_params_with(rng: &mut StdRng) -> (r: (Vec<Vec<u64>>, Vec<Vec<u64>>))
    ensures
        matrix_wf(r.0@, LOCAL_N as int, LOCAL_Q as int),
        matrix_wf(r.1@, LOCAL_N as int, LOCAL_Q as int),
{
    let a = generate_matrix_with(rng);
    let b = generate_matrix_with(rng);
    (a, b)
}

/// Draws a vector of dimension `LOCAL_N` from a freshly seeded generator.
pub fn generate_vector() -> (v: Vec<u64>)
    ensures
        vector_wf(v@, LOCAL_N as int, LOCAL_Q as int),
{
    let mut rng = entropy_rng();
    generate_vector_with(&mut rng)
}

/// Draws the two public matrices A and B from a freshly seeded generator.
pub fn generate_params() -> (r: (Vec<Vec<u64>>, Vec<Vec<u64>>))
    ensures
        matrix_wf(r.0@, LOCAL_N as int, LOCAL_Q as int),
        matrix_wf(r.1@, LOCAL_N as int, LOCAL_Q as int),
{
    let mut rng = entropy_rng();
    generate_params_with(&mut rng)
}

} // verus!
