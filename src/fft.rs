//! Cyclic convolution of integer vectors modulo q.
//!
//! `circular_convolution` computes the exact result
//! `r[k] = (sum_j u[j] * v[(k - j) mod n]) mod q`; an evaluation through a
//! floating-point transform must agree with it entry for entry.

use vstd::prelude::*;
use vstd::arithmetic::div_mod::{lemma_add_mod_noop, lemma_mod_add_multiples_vanish, lemma_mod_twice, lemma_small_mod};

verus! {

/// Dimension of the vectors and matrices a commitment is built from.
pub const LOCAL_N: usize = 256;

/// Modulus of every entry: 2^16 - 1.
pub const LOCAL_Q: u64 = 65535;

/// Partial sum `sum_{i < j} u[i] * v[(k - i) mod n]` over the integers.
pub open spec fn conv_sum(u: Seq<u64>, v: Seq<u64>, k: int, j: nat) -> int
    decreases j,
{
    if j == 0 {
        0
    } else {
        let i = j - 1;
        conv_sum(u, v, k, i as nat) + (u[i] as int) * (v[(k - i) % (u.len() as int)] as int)
    }
}

/// The cyclic convolution of `u` and `v`, reduced modulo `q`.
pub open spec fn cyclic_convolution(u: Seq<u64>, v: Seq<u64>, q: nat) -> Seq<int> {
    Seq::new(u.len(), |k: int| conv_sum(u, v, k, u.len()) % (q as int))
}

/// The unit impulse `[1, 0, ..., 0]` of length `n`.
pub open spec fn impulse(n: nat) -> Seq<u64> {
    Seq::new(n, |i: int| if i == 0 { 1u64 } else { 0u64 })
}

/// `((a mod q) + b) mod q == (a + b) mod q`.
pub proof fn lemma_mod_absorb(a: int, b: int, q: int)
    requires
        q > 0,
    ensures
        ((a % q) + b) % q == (a + b) % q,
{
    lemma_add_mod_noop(a, b, q);
    lemma_add_mod_noop(a % q, b, q);
    lemma_mod_twice(a, q);
}

/// Computes the cyclic convolution of `u` and `v` modulo `q`.
///
/// The modulus is at most 2^32, so that the product of two reduced entries
/// fits in 64 bits.
pub fn circular_convolution(u: &Vec<u64>, v: &Vec<u64>, q: u64) -> (r: Vec<u64>)
    requires
        u.len() == v.len(),
        0 < q <= 0x1_0000_0000,
    ensures
        r.len() == u.len(),
        forall|k: int| 0 <= k < r.len() ==> r@[k] as int == cyclic_convolution(u@, v@, q as nat)[k],
{
    let n = u.len();
    let mut r: Vec<u64> = Vec::with_capacity(n);
    let mut k: usize = 0;
    while k < n
        invariant
            n == u.len(),
            n == v.len(),
            0 < q <= 0x1_0000_0000,
            k <= n,
            r.len() == k,
            forall|i: int| 0 <= i < k ==> r@[i] as int == cyclic_convolution(u@, v@, q as nat)[i],
        decreases n - k,
    {
        let mut acc: u64 = 0;
        let mut j: usize = 0;
        proof {
            lemma_small_mod(0, q as nat);
        }
        while j < n
            invariant
                n == u.len(),
                n == v.len(),
                0 < q <= 0x1_0000_0000,
                k < n,
                j <= n,
                acc < q,
                acc as int == conv_sum(u@, v@, k as int, j as nat) % (q as int),
            decreases n - j,
        {
            let idx: usize = if j <= k { k - j } else { k + (n - j) };
            proof {
                if j <= k {
                    lemma_small_mod((k - j) as nat, n as nat);
                } else {
                    lemma_mod_add_multiples_vanish(k - j, n as int);
                    lemma_small_mod((k + (n - j)) as nat, n as nat);
                }
                assert(idx as int == (k - j) % (n as int));
            }
            let x: u64 = u[j] % q;
            let y: u64 = v[idx] % q;
            assert((x as int) * (y as int) < 0x1_0000_0000 * 0x1_0000_0000) by (nonlinear_arith)
                requires
                    x < q,
                    y < q,
                    q <= 0x1_0000_0000,
            ;
            let p: u64 = (x * y) % q;
            proof {
                let ui = u@[j as int] as int;
                let vi = v@[idx as int] as int;
                let sum = conv_sum(u@, v@, k as int, j as nat);
                assert(conv_sum(u@, v@, k as int, (j + 1) as nat) == sum + ui * vi);
                vstd::arithmetic::div_mod::lemma_mul_mod_noop(ui, vi, q as int);
                assert(p as int == (ui * vi) % (q as int));
                lemma_add_mod_noop(sum, ui * vi, q as int);
            }
            acc = (acc + p) % q;
            j = j + 1;
        }
        r.push(acc);
        k = k + 1;
    }
    r
}

/// `(k - i) mod n` vanishes only at `i == k`, for indices below `n`.
proof fn lemma_cyclic_offset_zero(k: int, i: int, n: int)
    requires
        0 <= k < n,
        0 <= i < n,
    ensures
        ((k - i) % n == 0) == (i == k),
{
    if i <= k {
        lemma_small_mod((k - i) as nat, n as nat);
    } else {
        lemma_mod_add_multiples_vanish(k - i, n);
        lemma_small_mod((n + (k - i)) as nat, n as nat);
    }
}

/// Prefix sums of a convolution with the unit impulse pick out one entry.
proof fn lemma_impulse_prefix(v: Seq<u64>, k: int, j: nat)
    requires
        0 <= k < v.len(),
        j <= v.len(),
    ensures
        conv_sum(v, impulse(v.len()), k, j) == if k < j { v[k] as int } else { 0 },
    decreases j,
{
    if j > 0 {
        let i = j - 1;
        lemma_impulse_prefix(v, k, i as nat);
        lemma_cyclic_offset_zero(k, i, v.len() as int);
        let e = impulse(v.len());
        let t = (k - i) % (v.len() as int);
        if i == k {
            assert(e[t] == 1);
        } else {
            vstd::arithmetic::div_mod::lemma_mod_bound(k - i, v.len() as int);
            assert(e[t] == 0);
        }
    }
}

/// Convolving any vector with the unit impulse `[1, 0, ..., 0]` gives the
/// vector back, reduced modulo `q`.
pub proof fn lemma_impulse_identity(v: Seq<u64>, q: nat)
    requires
        q > 0,
    ensures
        cyclic_convolution(v, impulse(v.len()), q).len() == v.len(),
        forall|k: int|
            0 <= k < v.len() ==> #[trigger] cyclic_convolution(v, impulse(v.len()), q)[k] == (v[k] as int)
                % (q as int),
{
    assert forall|k: int| 0 <= k < v.len() implies #[trigger] cyclic_convolution(v, impulse(v.len()), q)[k]
        == (v[k] as int) % (q as int) by {
        lemma_impulse_prefix(v, k, v.len());
    }
}

} // verus!
