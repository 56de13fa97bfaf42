//! Lattice-style commitments: a commitment point built from cyclic
//! convolutions over Z_q, bound to a digest of its big-endian encoding.
//!
//! The digest function is supplied by the caller, so that any hash
//! primitive can be plugged in; the proofs only ask that it be a function
//! of the bytes it is given.

pub mod commit_error;
pub mod fft;
pub mod utils;

use vstd::prelude::*;
use crate::commit_error::CommitError;
use crate::fft::{LOCAL_N, LOCAL_Q, circular_convolution, cyclic_convolution};
use crate::utils::{matrix_wf, point_bytes, range_start, row_ranges, serialize_point, vector_wf};

verus! {

/// Sum of a sequence of integers.
pub open spec fn sum_of(s: Seq<int>) -> int
    decreases s.len(),
{
    if s.len() == 0 {
        0
    } else {
        sum_of(s.drop_last()) + s.last()
    }
}

/// The entries of `s` as integers.
pub open spec fn as_ints(s: Seq<u64>) -> Seq<int> {
    s.map_values(|x: u64| x as int)
}

/// The commitment scalar of one row: the sum, modulo `LOCAL_Q`, of every
/// entry of `a_row * m` and of `b_row * r` (cyclic convolutions mod `LOCAL_Q`).
pub open spec fn row_value(a_row: Seq<u64>, b_row: Seq<u64>, m: Seq<u64>, r: Seq<u64>) -> u64 {
    ((sum_of(cyclic_convolution(a_row, m, LOCAL_Q as nat)) + sum_of(
        cyclic_convolution(b_row, r, LOCAL_Q as nat),
    )) % (LOCAL_Q as int)) as u64
}

/// The commitment point of (A, B, m, r): one row value per row of A.
pub open spec fn commitment_point_of(a: Seq<Vec<u64>>, b: Seq<Vec<u64>>, m: Seq<u64>, r: Seq<u64>) -> Seq<u64> {
    Seq::new(a.len(), |i: int| row_value(a[i]@, b[i]@, m, r))
}

/// `digest` is what `hash` returns on the encoding of `point`.
pub open spec fn digest_of<H: Fn(&Vec<u8>) -> Vec<u8>>(hash: H, point: Seq<u64>, digest: Seq<u8>) -> bool {
    exists|bytes: Vec<u8>, out: Vec<u8>|
        bytes@ == point_bytes(point) && #[trigger] hash.ensures((&bytes,), out) && out@ == digest
}

/// `hash` gives equal digests on equal bytes.
pub open spec fn deterministic<H: Fn(&Vec<u8>) -> Vec<u8>>(hash: H) -> bool {
    forall|b1: Vec<u8>, b2: Vec<u8>, o1: Vec<u8>, o2: Vec<u8>|
        b1@ == b2@ && #[trigger] hash.ensures((&b1,), o1) && #[trigger] hash.ensures((&b2,), o2) ==> o1@
            == o2@
}

/// `hash` accepts every byte string.
pub open spec fn total<H: Fn(&Vec<u8>) -> Vec<u8>>(hash: H) -> bool {
    forall|b: Vec<u8>| #[trigger] hash.requires((&b,))
}

/// A published commitment: the point and the digest of its encoding.
#[derive(Debug, Clone)]
pub struct RevelerResult {
    pub commitment_point: Vec<u64>,
    pub commitment_hash: Vec<u8>,
}

impl RevelerResult {
    pub fn new(commitment_point: Vec<u64>, commitment_hash: Vec<u8>) -> (r: Self)
        ensures
            r.commitment_point@ == commitment_point@,
            r.commitment_hash@ == commitment_hash@,
    {
        RevelerResult { commitment_point, commitment_hash }
    }

    /// Binds `point` to the digest that `hash` gives on its encoding.
    pub fn seal<H: Fn(&Vec<u8>) -> Vec<u8>>(point: Vec<u64>, hash: H) -> (r: Self)
        requires
            total(hash),
        ensures
            r.commitment_point@ == point@,
            digest_of(hash, point@, r.commitment_hash@),
    {
        let bytes = serialize_point(&point);
        let digest = hash(&bytes);
        RevelerResult::new(point, digest)
    }
}

/// `sum_of(as_ints(..))` of a prefix grows by the next entry.
proof fn lemma_sum_step(s: Seq<u64>, k: int)
    requires
        0 <= k < s.len(),
    ensures
        sum_of(as_ints(s.take(k + 1))) == sum_of(as_ints(s.take(k))) + s[k],
{
    assert(as_ints(s.take(k + 1)).drop_last() =~= as_ints(s.take(k)));
}

/// Reduces two convolution results to one row scalar:
/// `(sum(m_res) + sum(r_res)) mod LOCAL_Q`.
fn row_scalar(m_res: &Vec<u64>, r_res: &Vec<u64>) -> (s: u64)
    requires
        m_res.len() == r_res.len(),
        forall|k: int| 0 <= k < m_res.len() ==> m_res@[k] < LOCAL_Q && r_res@[k] < LOCAL_Q,
    ensures
        s as int == (sum_of(as_ints(m_res@)) + sum_of(as_ints(r_res@))) % (LOCAL_Q as int),
{
    let mut acc: u64 = 0;
    let mut k: usize = 0;
    proof {
        assert(as_ints(m_res@.take(0)) =~= Seq::<int>::empty());
        assert(as_ints(r_res@.take(0)) =~= Seq::<int>::empty());
    }
    while k < m_res.len()
        invariant
            m_res.len() == r_res.len(),
            forall|j: int| 0 <= j < m_res.len() ==> m_res@[j] < LOCAL_Q && r_res@[j] < LOCAL_Q,
            k <= m_res.len(),
            acc < LOCAL_Q,
            acc as int == (sum_of(as_ints(m_res@.take(k as int))) + sum_of(as_ints(r_res@.take(k as int))))
                % (LOCAL_Q as int),
        decreases m_res.len() - k,
    {
        let x = m_res[k];
        let y = r_res[k];
        proof {
            lemma_sum_step(m_res@, k as int);
            lemma_sum_step(r_res@, k as int);
            crate::fft::lemma_mod_absorb(
                sum_of(as_ints(m_res@.take(k as int))) + sum_of(as_ints(r_res@.take(k as int))),
                x + y,
                LOCAL_Q as int,
            );
        }
        acc = (acc + x + y) % LOCAL_Q;
        k = k + 1;
    }
    assert(m_res@.take(m_res.len() as int) =~= m_res@);
    assert(r_res@.take(r_res.len() as int) =~= r_res@);
    acc
}

/// Rows of A and B are as long as m, and r is as long as m.
pub open spec fn rows_fit(a: Seq<Vec<u64>>, b: Seq<Vec<u64>>, m: Seq<u64>, r: Seq<u64>) -> bool {
    &&& a.len() == b.len()
    &&& r.len() == m.len()
    &&& forall|i: int| 0 <= i < a.len() ==> (#[trigger] a[i]@).len() == m.len()
    &&& forall|i: int| 0 <= i < b.len() ==> (#[trigger] b[i]@).len() == m.len()
}

/// Computes the commitment scalars of rows `start..end`: the work of one
/// worker.
pub fn compute_rows(
    a: &Vec<Vec<u64>>,
    b: &Vec<Vec<u64>>,
    m: &Vec<u64>,
    r: &Vec<u64>,
    start: usize,
    end: usize,
) -> (out: Vec<u64>)
    requires
        rows_fit(a@, b@, m@, r@),
        start <= end <= a.len(),
    ensures
        out@ == commitment_point_of(a@, b@, m@, r@).subrange(start as int, end as int),
{
    let mut out: Vec<u64> = Vec::with_capacity(end - start);
    let mut i: usize = start;
    while i < end
        invariant
            rows_fit(a@, b@, m@, r@),
            start <= i <= end,
            end <= a.len(),
            out@ == commitment_point_of(a@, b@, m@, r@).subrange(start as int, i as int),
        decreases end - i,
    {
        let m_res = circular_convolution(&a[i], m, LOCAL_Q);
        let r_res = circular_convolution(&b[i], r, LOCAL_Q);
        let s = row_scalar(&m_res, &r_res);
        proof {
            assert(as_ints(m_res@) =~= cyclic_convolution(a@[i as int]@, m@, LOCAL_Q as nat));
            assert(as_ints(r_res@) =~= cyclic_convolution(b@[i as int]@, r@, LOCAL_Q as nat));
        }
        out.push(s);
        proof {
            assert(out@ =~= commitment_point_of(a@, b@, m@, r@).subrange(start as int, i + 1));
        }
        i = i + 1;
    }
    out
}

/// Every row of `a` has length `n`.
fn rows_have_len(a: &Vec<Vec<u64>>, n: usize) -> (ok: bool)
    ensures
        ok == forall|i: int| 0 <= i < a.len() ==> (#[trigger] a@[i]@).len() == n,
{
    let mut i: usize = 0;
    while i < a.len()
        invariant
            i <= a.len(),
            forall|k: int| 0 <= k < i ==> (#[trigger] a@[k]@).len() == n,
        decreases a.len() - i,
    {
        if a[i].len() != n {
            return false;
        }
        i = i + 1;
    }
    true
}

/// Elementwise equality of two byte strings.
fn bytes_equal(x: &Vec<u8>, y: &Vec<u8>) -> (eq: bool)
    ensures
        eq == (x@ == y@),
{
    if x.len() != y.len() {
        return false;
    }
    let mut i: usize = 0;
    while i < x.len()
        invariant
            x.len() == y.len(),
            i <= x.len(),
            forall|k: int| 0 <= k < i ==> x@[k] == y@[k],
        decreases x.len() - i,
    {
        if x[i] != y[i] {
            return false;
        }
        i = i + 1;
    }
    assert(x@ =~= y@);
    true
}

/// The secret inputs of a commitment: matrices A and B, message m and
/// randomness r.
#[derive(Debug, Clone)]
pub struct RevelerCommit {
    pub local_a: Vec<Vec<u64>>,
    pub local_b: Vec<Vec<u64>>,
    pub local_m: Vec<u64>,
    pub local_r: Vec<u64>,
}

impl RevelerCommit {
    /// A and B are `LOCAL_N` by `LOCAL_N`, m and r of length `LOCAL_N`.
    pub open spec fn dims_ok(&self) -> bool {
        &&& self.local_a@.len() == LOCAL_N
        &&& self.local_m@.len() == LOCAL_N
        &&& rows_fit(self.local_a@, self.local_b@, self.local_m@, self.local_r@)
    }

    /// The commitment point these inputs determine.
    pub open spec fn point(&self) -> Seq<u64> {
        commitment_point_of(self.local_a@, self.local_b@, self.local_m@, self.local_r@)
    }

    /// `rec` holds the point of these inputs and the digest `hash` gives on it.
    pub open spec fn is_commitment_of<H: Fn(&Vec<u8>) -> Vec<u8>>(&self, hash: H, rec: RevelerResult) -> bool {
        &&& rec.commitment_point@ == self.point()
        &&& digest_of(hash, rec.commitment_point@, rec.commitment_hash@)
    }

    pub fn new(local_a: Vec<Vec<u64>>, local_b: Vec<Vec<u64>>, local_m: Vec<u64>, local_r: Vec<u64>) -> (r:
        Self)
        ensures
            r.local_a@ == local_a@,
            r.local_b@ == local_b@,
            r.local_m@ == local_m@,
            r.local_r@ == local_r@,
    {
        RevelerCommit { local_a, local_b, local_m, local_r }
    }

    /// Fresh random inputs: A and B from `generate_params`, m and r drawn
    /// uniformly from `[0, LOCAL_Q)`.
    pub fn random() -> (c: Self)
        ensures
            c.dims_ok(),
            matrix_wf(c.local_a@, LOCAL_N as int, LOCAL_Q as int),
            matrix_wf(c.local_b@, LOCAL_N as int, LOCAL_Q as int),
            vector_wf(c.local_m@, LOCAL_N as int, LOCAL_Q as int),
            vector_wf(c.local_r@, LOCAL_N as int, LOCAL_Q as int),
    {
        let (a, b) = crate::utils::generate_params();
        let m = crate::utils::generate_vector();
        let r = crate::utils::generate_vector();
        let c = RevelerCommit::new(a, b, m, r);
        assert forall|i: int| 0 <= i < c.local_a@.len() implies (#[trigger] c.local_a@[i]@).len() == LOCAL_N by {
            assert(vector_wf(c.local_a@[i]@, LOCAL_N as int, LOCAL_Q as int));
        }
        assert forall|i: int| 0 <= i < c.local_b@.len() implies (#[trigger] c.local_b@[i]@).len() == LOCAL_N by {
            assert(vector_wf(c.local_b@[i]@, LOCAL_N as int, LOCAL_Q as int));
        }
        c
    }

    /// Whether A, B, m and r all have dimension `LOCAL_N`.
    pub fn has_valid_dimensions(&self) -> (ok: bool)
        ensures
            ok == self.dims_ok(),
    {
        self.local_a.len() == LOCAL_N && self.local_b.len() == LOCAL_N && self.local_m.len() == LOCAL_N
            && self.local_r.len() == LOCAL_N && rows_have_len(&self.local_a, LOCAL_N) && rows_have_len(
            &self.local_b,
            LOCAL_N,
        )
    }

    /// Computes the commitment point with the rows split among
    /// `thread_count` workers (see `row_ranges`); the chunks are joined in
    /// index order, so the point does not depend on `thread_count`.
    pub fn compute_point(&self, thread_count: usize) -> (res: Result<Vec<u64>, CommitError>)
        requires
            thread_count > 0,
        ensures
            match res {
                Ok(p) => self.dims_ok() && p@ == self.point() && p.len() == LOCAL_N,
                Err(e) => !self.dims_ok() && e == CommitError::DimensionMismatch,
            },
    {
        if !self.has_valid_dimensions() {
            return Err(CommitError::DimensionMismatch);
        }
        let ranges = row_ranges(LOCAL_N, thread_count);
        let mut point: Vec<u64> = Vec::with_capacity(LOCAL_N);
        let mut t: usize = 0;
        while t < thread_count
            invariant
                self.dims_ok(),
                ranges.len() == thread_count,
                forall|k: int|
                    0 <= k < thread_count ==> (#[trigger] ranges@[k]).0 as int == range_start(
                        LOCAL_N as int,
                        thread_count as int,
                        k,
                    ) && ranges@[k].1 as int == range_start(LOCAL_N as int, thread_count as int, k + 1),
                forall|k: int| 0 <= k < thread_count ==> (#[trigger] ranges@[k]).0 <= ranges@[k].1 <= LOCAL_N,
                range_start(LOCAL_N as int, thread_count as int, 0) == 0,
                range_start(LOCAL_N as int, thread_count as int, thread_count as int) == LOCAL_N,
                t <= thread_count,
                point@ == self.point().subrange(0, range_start(LOCAL_N as int, thread_count as int, t as int)),
            decreases thread_count - t,
        {
            let (start, end) = ranges[t];
            proof {
                assert(ranges@[t as int].0 == start);
                assert(ranges@[t as int].1 == end);
            }
            let mut part = compute_rows(
                &self.local_a,
                &self.local_b,
                &self.local_m,
                &self.local_r,
                start,
                end,
            );
            point.append(&mut part);
            proof {
                assert(point@ =~= self.point().subrange(0, end as int));
            }
            t = t + 1;
        }
        proof {
            assert(point@ =~= self.point());
        }
        Ok(point)
    }

    /// Commits to these inputs: the commitment point, with its rows split
    /// among a machine-dependent number of workers, and the digest that
    /// `hash` gives on its big-endian encoding.
    pub fn commit<H: Fn(&Vec<u8>) -> Vec<u8>>(&self, hash: H) -> (res: Result<RevelerResult, CommitError>)
        requires
            total(hash),
        ensures
            match res {
                Ok(rec) => self.dims_ok() && self.is_commitment_of(hash, rec) && rec.commitment_point.len()
                    == LOCAL_N,
                Err(e) => !self.dims_ok() && e == CommitError::DimensionMismatch,
            },
    {
        let thread_count = crate::utils::get_optimal_thread_count();
        match self.compute_point(thread_count) {
            Ok(point) => Ok(RevelerResult::seal(point, hash)),
            Err(e) => Err(e),
        }
    }

    /// Checks a published commitment: recomputes the digest of its point with
    /// `hash` and compares it with the stored one.
    pub fn verify<H: Fn(&Vec<u8>) -> Vec<u8>>(commitment: &RevelerResult, hash: H) -> (ok: bool)
        requires
            total(hash),
        ensures
            verdict(hash, *commitment, ok),
    {
        let bytes = serialize_point(&commitment.commitment_point);
        let digest = hash(&bytes);
        bytes_equal(&digest, &commitment.commitment_hash)
    }
}

/// `ok` is the outcome of checking `rec` with `hash`: whether a digest that
/// `hash` returns on the encoding of the point equals the stored digest.
pub open spec fn verdict<H: Fn(&Vec<u8>) -> Vec<u8>>(hash: H, rec: RevelerResult, ok: bool) -> bool {
    exists|bytes: Vec<u8>, out: Vec<u8>|
        bytes@ == point_bytes(rec.commitment_point@) && #[trigger] hash.ensures((&bytes,), out) && ok == (
        out@ == rec.commitment_hash@)
}

/// With a deterministic digest, committing twice to the same inputs gives
/// the same point and the same digest.
pub proof fn lemma_commit_deterministic<H: Fn(&Vec<u8>) -> Vec<u8>>(
    c: RevelerCommit,
    hash: H,
    r1: RevelerResult,
    r2: RevelerResult,
)
    requires
        deterministic(hash),
        c.is_commitment_of(hash, r1),
        c.is_commitment_of(hash, r2),
    ensures
        r1.commitment_point@ == r2.commitment_point@,
        r1.commitment_hash@ == r2.commitment_hash@,
{
    let (b1, o1) = choose|bytes: Vec<u8>, out: Vec<u8>|
        bytes@ == point_bytes(r1.commitment_point@) && #[trigger] hash.ensures((&bytes,), out) && out@
            == r1.commitment_hash@;
    let (b2, o2) = choose|bytes: Vec<u8>, out: Vec<u8>|
        bytes@ == point_bytes(r2.commitment_point@) && #[trigger] hash.ensures((&bytes,), out) && out@
            == r2.commitment_hash@;
    assert(hash.ensures((&b1,), o1) && hash.ensures((&b2,), o2));
}

/// With a deterministic digest, every commitment that `commit` produces is
/// accepted by `verify`.
pub proof fn lemma_verify_accepts_commitment<H: Fn(&Vec<u8>) -> Vec<u8>>(
    c: RevelerCommit,
    hash: H,
    rec: RevelerResult,
    ok: bool,
)
    requires
        deterministic(hash),
        c.is_commitment_of(hash, rec),
        verdict(hash, rec, ok),
    ensures
        ok,
{
    let (b1, o1) = choose|bytes: Vec<u8>, out: Vec<u8>|
        bytes@ == point_bytes(rec.commitment_point@) && #[trigger] hash.ensures((&bytes,), out) && out@
            == rec.commitment_hash@;
    let (b2, o2) = choose|bytes: Vec<u8>, out: Vec<u8>|
        bytes@ == point_bytes(rec.commitment_point@) && #[trigger] hash.ensures((&bytes,), out) && ok == (
        out@ == rec.commitment_hash@);
    assert(hash.ensures((&b1,), o1) && hash.ensures((&b2,), o2));
}

} // verus!
