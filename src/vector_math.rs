//! Exact integer cosine similarity.
//!
//! Vectors hold `i16` components; similarities and thresholds are expressed
//! in millionths (`SCALE` stands for 1.0).
use vstd::prelude::*;

verus! {

/// Fixed-point unit: `SCALE` millionths make one.
pub const SCALE: u32 = 1_000_000;

/// Largest vector dimension for which every intermediate product fits in 128 bits.
pub const MAX_DIM: u64 = 0x1_0000_0000;

/// Errors raised by the similarity computation.
#[derive(Debug, Clone, Copy, PartialEq, Eq, Structural)]
pub enum VectorError {
    /// The two vectors have different dimensions.
    InvalidInput,
}

/// Dot product of the first `n` components.
pub open spec fn dot_upto(a: Seq<i16>, b: Seq<i16>, n: int) -> int
    decreases n,
{
    if n <= 0 {
        0
    } else {
        dot_upto(a, b, n - 1) + a[n - 1] * b[n - 1]
    }
}

/// Dot product of two vectors of equal dimension.
pub open spec fn dot(a: Seq<i16>, b: Seq<i16>) -> int {
    dot_upto(a, b, a.len() as int)
}

/// Squared Euclidean norm.
pub open spec fn norm_sq(a: Seq<i16>) -> int {
    dot(a, a)
}

/// `r` is the integer square root of `x`.
pub open spec fn is_isqrt(x: int, r: int) -> bool {
    0 <= r && r * r <= x && x < (r + 1) * (r + 1)
}

/// The integer square root (floor of the real square root).
pub open spec fn isqrt(x: int) -> int {
    choose|r: int| is_isqrt(x, r)
}

/// Cosine similarity in millionths: `dot(a, b) / (|a| * |b|)`, where the
/// denominator is the integer square root of `norm_sq(a) * norm_sq(b)` and the
/// quotient is truncated toward zero. Zero when either norm is zero.
pub open spec fn cosine(a: Seq<i16>, b: Seq<i16>) -> int {
    let d = dot(a, b);
    let den = isqrt(norm_sq(a) * norm_sq(b));
    if norm_sq(a) == 0 || norm_sq(b) == 0 {
        0
    } else if d >= 0 {
        (d * SCALE) / den
    } else {
        -(((-d) * SCALE) / den)
    }
}

/// A vector with at least one nonzero component.
pub open spec fn is_nonzero(a: Seq<i16>) -> bool {
    exists|i: int| 0 <= i < a.len() && a[i] != 0
}

proof fn lemma_isqrt_unique(x: int, r: int)
    requires
        is_isqrt(x, r),
    ensures
        isqrt(x) == r,
{
    let s = isqrt(x);
    assert(is_isqrt(x, s));
    if s < r {
        assert((s + 1) * (s + 1) <= r * r) by (nonlinear_arith)
            requires
                0 <= s < r,
        ;
    } else if r < s {
        assert((r + 1) * (r + 1) <= s * s) by (nonlinear_arith)
            requires
                0 <= r < s,
        ;
    }
}

proof fn lemma_dot_upto_symmetric(a: Seq<i16>, b: Seq<i16>, n: int)
    ensures
        dot_upto(a, b, n) == dot_upto(b, a, n),
    decreases n,
{
    if n > 0 {
        lemma_dot_upto_symmetric(a, b, n - 1);
        assert(a[n - 1] * b[n - 1] == b[n - 1] * a[n - 1]) by (nonlinear_arith);
    }
}

proof fn lemma_product_bound(x: i16, y: i16)
    ensures
        -0x4000_0000 <= x * y <= 0x4000_0000,
{
    assert(-0x4000_0000 <= x * y <= 0x4000_0000) by (nonlinear_arith)
        requires
            -0x8000 <= x <= 0x7fff,
            -0x8000 <= y <= 0x7fff,
    ;
}

/// Sum of squares of `a[i] * y - x * b[i]` over the first `n` components.
spec fn cross_sq(a: Seq<i16>, b: Seq<i16>, n: int, x: int, y: int) -> int
    decreases n,
{
    if n <= 0 {
        0
    } else {
        cross_sq(a, b, n - 1, x, y) + (a[n - 1] * y - x * b[n - 1]) * (a[n - 1] * y - x * b[n
            - 1])
    }
}

proof fn lemma_cross_sq(a: Seq<i16>, b: Seq<i16>, n: int, x: int, y: int)
    ensures
        cross_sq(a, b, n, x, y) >= 0,
        cross_sq(a, b, n, x, y) == y * y * dot_upto(a, a, n) - 2 * x * y * dot_upto(a, b, n) + x
            * x * dot_upto(b, b, n),
    decreases n,
{
    if n > 0 {
        lemma_cross_sq(a, b, n - 1, x, y);
        let p = a[n - 1] as int;
        let q = b[n - 1] as int;
        let c = cross_sq(a, b, n - 1, x, y);
        let aa = dot_upto(a, a, n - 1);
        let ab = dot_upto(a, b, n - 1);
        let bb = dot_upto(b, b, n - 1);
        let u = p * y;
        let v = x * q;
        assert((u - v) * (u - v) == u * u - 2 * (u * v) + v * v) by (nonlinear_arith);
        assert(u * u == y * y * (p * p)) by (nonlinear_arith)
            requires
                u == p * y,
        ;
        assert(u * v == x * y * (p * q)) by (nonlinear_arith)
            requires
                u == p * y,
                v == x * q,
        ;
        assert(v * v == x * x * (q * q)) by (nonlinear_arith)
            requires
                v == x * q,
        ;
        assert(2 * (x * y * (p * q)) == 2 * x * y * (p * q)) by (nonlinear_arith);
        assert(y * y * (aa + p * p) == y * y * aa + y * y * (p * p)) by (nonlinear_arith);
        assert(2 * x * y * (ab + p * q) == 2 * x * y * ab + 2 * x * y * (p * q))
            by (nonlinear_arith);
        assert(x * x * (bb + q * q) == x * x * bb + x * x * (q * q)) by (nonlinear_arith);
        assert((p * y - x * q) * (p * y - x * q) >= 0) by (nonlinear_arith);
    }
}

/// Cauchy-Schwarz over integer prefixes.
proof fn lemma_cauchy_schwarz(a: Seq<i16>, b: Seq<i16>, n: int)
    ensures
        dot_upto(a, b, n) * dot_upto(a, b, n) <= dot_upto(a, a, n) * dot_upto(b, b, n),
    decreases n,
{
    if n > 0 {
        lemma_cauchy_schwarz(a, b, n - 1);
        let x = a[n - 1] as int;
        let y = b[n - 1] as int;
        lemma_cross_sq(a, b, n - 1, x, y);
        let aa = dot_upto(a, a, n - 1);
        let ab = dot_upto(a, b, n - 1);
        let bb = dot_upto(b, b, n - 1);
        assert((ab + x * y) * (ab + x * y) == ab * ab + 2 * x * y * ab + x * x * (y * y))
            by (nonlinear_arith);
        assert((aa + x * x) * (bb + y * y) == aa * bb + y * y * aa + x * x * bb + x * x * (y * y))
            by (nonlinear_arith);
    }
}

proof fn lemma_norm_upto_nonneg(a: Seq<i16>, n: int)
    ensures
        dot_upto(a, a, n) >= 0,
        forall|i: int| 0 <= i < n && i < a.len() ==> dot_upto(a, a, n) >= a[i] * a[i],
    decreases n,
{
    if n > 0 {
        lemma_norm_upto_nonneg(a, n - 1);
        let x = a[n - 1] as int;
        assert(x * x >= 0) by (nonlinear_arith);
    }
}

proof fn lemma_nonzero_norm(a: Seq<i16>)
    requires
        is_nonzero(a),
    ensures
        norm_sq(a) > 0,
{
    let i = choose|i: int| 0 <= i < a.len() && a[i] != 0;
    lemma_norm_upto_nonneg(a, a.len() as int);
    let x = a[i] as int;
    assert(x * x > 0) by (nonlinear_arith)
        requires
            x != 0,
    ;
}

/// The similarity lies in `[-SCALE, SCALE]`.
pub proof fn lemma_cosine_bounded(a: Seq<i16>, b: Seq<i16>)
    requires
        a.len() == b.len(),
    ensures
        -(SCALE as int) <= cosine(a, b) <= SCALE,
{
    let d = dot(a, b);
    let na = norm_sq(a);
    let nb = norm_sq(b);
    lemma_norm_upto_nonneg(a, a.len() as int);
    lemma_norm_upto_nonneg(b, b.len() as int);
    if na != 0 && nb != 0 {
        lemma_cauchy_schwarz(a, b, a.len() as int);
        let p = na * nb;
        assert(na > 0 && nb > 0);
        assert(na * nb > 0) by (nonlinear_arith)
            requires
                na > 0,
                nb > 0,
        ;
        let r = isqrt_witness(p);
        lemma_isqrt_unique(p, r);
        let m = if d >= 0 { d } else { -d };
        assert(m * m == d * d) by (nonlinear_arith)
            requires
                m == d || m == -d,
        ;
        assert(m <= r) by (nonlinear_arith)
            requires
                m >= 0,
                r >= 0,
                m * m <= p,
                p < (r + 1) * (r + 1),
        ;
        assert(r > 0) by (nonlinear_arith)
            requires
                r >= 0,
                p < (r + 1) * (r + 1),
                p > 0,
                r * r <= p,
        ;
        assert((m * SCALE) / r <= SCALE) by (nonlinear_arith)
            requires
                0 <= m <= r,
                r > 0,
        ;
        assert((m * SCALE) / r >= 0) by (nonlinear_arith)
            requires
                0 <= m,
                r > 0,
        ;
    }
}

/// Every nonnegative integer has an integer square root.
proof fn isqrt_witness(x: int) -> (r: int)
    requires
        x >= 0,
    ensures
        is_isqrt(x, r),
    decreases x,
{
    if x == 0 {
        0
    } else {
        let s = isqrt_witness(x - 1);
        assert(0 <= s && s * s <= x - 1 && x - 1 < (s + 1) * (s + 1));
        if (s + 1) * (s + 1) <= x {
            let t = s + 1;
            assert(x < (t + 1) * (t + 1)) by (nonlinear_arith)
                requires
                    x - 1 < t * t,
                    t >= 1,
            ;
            assert(is_isqrt(x, t));
            t
        } else {
            assert(is_isqrt(x, s));
            s
        }
    }
}

/// Cosine similarity is symmetric in its arguments.
pub proof fn lemma_cosine_symmetric(a: Seq<i16>, b: Seq<i16>)
    requires
        a.len() == b.len(),
    ensures
        cosine(a, b) == cosine(b, a),
{
    lemma_dot_upto_symmetric(a, b, a.len() as int);
    assert(norm_sq(a) * norm_sq(b) == norm_sq(b) * norm_sq(a)) by (nonlinear_arith);
}

/// A nonzero vector has similarity exactly one (`SCALE`) with itself.
pub proof fn lemma_cosine_self(a: Seq<i16>)
    requires
        is_nonzero(a),
    ensures
        cosine(a, a) == SCALE,
{
    lemma_nonzero_norm(a);
    let n = norm_sq(a);
    assert(is_isqrt(n * n, n)) by (nonlinear_arith)
        requires
            n > 0,
    ;
    lemma_isqrt_unique(n * n, n);
    assert((n * SCALE) / n == SCALE) by (nonlinear_arith)
        requires
            n > 0,
    ;
}

/// The similarity is exactly zero when either vector has zero norm.
pub proof fn lemma_cosine_zero_norm(a: Seq<i16>, b: Seq<i16>)
    requires
        norm_sq(a) == 0 || norm_sq(b) == 0,
    ensures
        cosine(a, b) == 0,
{
}

/// Dot product of two vectors of equal dimension, at most `MAX_DIM` long.
fn dot_product(a: &Vec<i16>, b: &Vec<i16>) -> (r: i128)
    requires
        a@.len() == b@.len(),
        a@.len() <= MAX_DIM,
    ensures
        r == dot(a@, b@),
        -0x4000_0000 * a@.len() <= r <= 0x4000_0000 * a@.len(),
{
    let mut acc: i128 = 0;
    let mut i: usize = 0;
    while i < a.len()
        invariant
            i <= a@.len(),
            a@.len() == b@.len(),
            a@.len() <= MAX_DIM,
            acc == dot_upto(a@, b@, i as int),
            -0x4000_0000 * i <= acc <= 0x4000_0000 * i,
        decreases a@.len() - i,
    {
        proof {
            lemma_product_bound(a@[i as int], b@[i as int]);
        }
        let p: i128 = (a[i] as i128) * (b[i] as i128);
        acc = acc + p;
        i = i + 1;
    }
    acc
}

/// Integer square root by bisection.
fn integer_sqrt(x: u128) -> (r: u128)
    ensures
        is_isqrt(x as int, r as int),
        r < 0x1_0000_0000_0000_0000,
{
    let mut lo: u128 = 0;
    let mut hi: u128 = 0x1_0000_0000_0000_0000;
    assert(x < hi * hi);
    while hi - lo > 1
        invariant
            lo < hi <= 0x1_0000_0000_0000_0000,
            lo * lo <= x,
            x < hi * hi,
        decreases hi - lo,
    {
        let mid: u128 = lo + (hi - lo) / 2;
        assert(mid * mid < 0x1_0000_0000_0000_0000 * 0x1_0000_0000_0000_0000) by (nonlinear_arith)
            requires
                mid < 0x1_0000_0000_0000_0000,
        ;
        if mid * mid <= x {
            lo = mid;
        } else {
            hi = mid;
        }
    }
    assert(hi == lo + 1);
    lo
}

/// Cosine similarity of `a` and `b`, in millionths.
///
/// Fails with `InvalidInput` when the dimensions differ; zero when either
/// vector has zero norm.
pub fn cosine_similarity(a: &Vec<i16>, b: &Vec<i16>) -> (r: Result<i32, VectorError>)
    requires
        a@.len() <= MAX_DIM,
    ensures
        a@.len() != b@.len() ==> r == Err::<i32, VectorError>(VectorError::InvalidInput),
        a@.len() == b@.len() ==> r == Ok::<i32, VectorError>(cosine(a@, b@) as i32),
        a@.len() == b@.len() ==> -(SCALE as int) <= cosine(a@, b@) <= SCALE,
{
    if a.len() != b.len() {
        return Err(VectorError::InvalidInput);
    }
    proof {
        lemma_cosine_bounded(a@, b@);
        lemma_norm_upto_nonneg(a@, a@.len() as int);
        lemma_norm_upto_nonneg(b@, b@.len() as int);
    }
    let d = dot_product(a, b);
    let na = dot_product(a, a);
    let nb = dot_product(b, b);
    if na == 0 || nb == 0 {
        return Ok(0);
    }
    let una = na as u128;
    let unb = nb as u128;
    assert(una * unb <= 0x4000_0000_0000_0000 * 0x4000_0000_0000_0000) by (nonlinear_arith)
        requires
            0 <= una <= 0x4000_0000_0000_0000,
            0 <= unb <= 0x4000_0000_0000_0000,
    ;
    let den = integer_sqrt(una * unb);
    proof {
        lemma_isqrt_unique(na * nb, den as int);
        assert(den > 0) by (nonlinear_arith)
            requires
                (den + 1) * (den + 1) > una * unb,
                una >= 1,
                unb >= 1,
                den >= 0,
        ;
    }
    let mag: u128 = if d >= 0 { d as u128 } else { (-d) as u128 };
    let q: u128 = (mag * (SCALE as u128)) / den;
    if d >= 0 {
        Ok(q as i32)
    } else {
        Ok(-(q as i32))
    }
}

} // verus!
