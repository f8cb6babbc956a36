//! Fixed-point appearance embeddings and the exact arithmetic on them.
//!
//! An embedding is a fixed-length vector of fixed-point components (an
//! integer component `c` stands for the real number `c` at whatever scale
//! the deployment chose).  Cosine similarity of two such vectors is an
//! irrational number in general, so instead of computing it this module
//! *decides*, exactly, whether it exceeds a rational threshold `num/den`:
//! `dot(a,b) / (|a|*|b|) > num/den` is equivalent, after clearing the
//! (positive) denominators and squaring with care for signs, to a statement
//! in integer arithmetic alone.  [`similarity_exceeds`] is that statement
//! and [`cosine_similarity`] computes it.
//!
//! Special cases follow the cosine-similarity convention for degenerate
//! vectors: two all-zero vectors count as perfectly similar (similarity 1),
//! an all-zero vector against a non-zero one is maximally dissimilar
//! (similarity 0), and vectors of different dimensionality are always
//! rejected with an error, never coerced.

use vstd::prelude::*;

verus! {

/// Largest dimensionality an embedding may have.
pub const MAX_DIM: usize = 1024;

/// Largest magnitude a fixed-point component may have.
pub const MAX_COMPONENT: i64 = 1_000_000;

/// Largest magnitude for a threshold numerator or denominator.
pub const MAX_THRESHOLD: i64 = 1000;

/// Error raised when two embeddings of different dimensionality are
/// compared or averaged.
#[derive(Clone, Copy, Debug, PartialEq, Eq, Structural)]
pub enum EmbeddingError {
    DimensionMismatch,
}

/// A component small enough that sums and products of [`MAX_DIM`] of them
/// stay well inside the machine integer ranges used below.
pub open spec fn component_in_range(x: i64) -> bool {
    -MAX_COMPONENT <= x <= MAX_COMPONENT
}

/// All components in range, and no more of them than [`MAX_DIM`].
pub open spec fn valid_components(s: Seq<i64>) -> bool {
    &&& s.len() <= MAX_DIM
    &&& forall|i: int| 0 <= i < s.len() ==> component_in_range(#[trigger] s[i])
}

/// Mathematical dot product of two equal-length vectors.
pub open spec fn dot(a: Seq<i64>, b: Seq<i64>) -> int
    recommends
        a.len() == b.len(),
    decreases a.len(),
{
    if a.len() == 0 {
        0
    } else {
        dot(a.drop_last(), b.drop_last()) + a.last() * b.last()
    }
}

/// Squared Euclidean norm.
pub open spec fn norm_sq(a: Seq<i64>) -> int {
    dot(a, a)
}

/// Every component is zero (true of the empty vector).
pub open spec fn is_zero_vec(a: Seq<i64>) -> bool {
    forall|i: int| 0 <= i < a.len() ==> #[trigger] a[i] == 0
}

/// Exact meaning of "the cosine similarity of `a` and `b` exceeds
/// `num/den`", for `den > 0` and `a.len() == b.len()`.
///
/// For non-degenerate vectors the inequality
/// `dot(a,b)/(|a|*|b|) > num/den` is multiplied by the positive quantity
/// `|a|*|b|*den` to give `dot(a,b)*den > num*|a|*|b|`, and the square
/// root hiding in `|a|*|b| = sqrt(norm_sq(a)*norm_sq(b))` is then removed
/// by comparing signs first and squares second:
/// for `num >= 0` the right side is non-negative, so the inequality holds
/// iff the left side is positive and its square is larger; for `num < 0`
/// the right side is negative, so it holds iff the left side is
/// non-negative, or is negative with a smaller square.
pub open spec fn similarity_exceeds(a: Seq<i64>, b: Seq<i64>, num: int, den: int) -> bool
    recommends
        a.len() == b.len(),
        den > 0,
{
    if is_zero_vec(a) && is_zero_vec(b) {
        // similarity 1: exceeds the threshold iff 1 > num/den
        den > num
    } else if is_zero_vec(a) || is_zero_vec(b) {
        // similarity 0: exceeds the threshold iff 0 > num/den
        num < 0
    } else {
        let l = dot(a, b) * den;
        let p = num * num * norm_sq(a) * norm_sq(b);
        if num >= 0 {
            l > 0 && l * l > p
        } else {
            l >= 0 || l * l < p
        }
    }
}

/// Elementwise average rounded toward zero, as the executable `/ 2`
/// computes it on signed machine integers.
pub open spec fn avg_toward_zero(x: int, y: int) -> int {
    let s = x + y;
    if s >= 0 {
        s / 2
    } else {
        -((-s) / 2)
    }
}

/// A fixed-length appearance embedding with fixed-point components.
#[derive(Debug, PartialEq, Eq)]
pub struct Embedding {
    pub components: Vec<i64>,
}

impl View for Embedding {
    type V = Seq<i64>;

    open spec fn view(&self) -> Seq<i64> {
        self.components@
    }
}

impl Embedding {
    /// Dimensionality bounded and every component in range; established by
    /// [`Embedding::new`] and preserved by every operation of this crate.
    pub open spec fn wf(&self) -> bool {
        valid_components(self@)
    }

    /// Builds an embedding after checking the machine-size bounds.
    pub fn new(components: Vec<i64>) -> (r: Option<Embedding>)
        ensures
            match r {
                Some(e) => e@ == components@ && e.wf(),
                None => !valid_components(components@),
            },
    {
        if components.len() > MAX_DIM {
            return None;
        }
        let mut i: usize = 0;
        while i < components.len()
            invariant
                i <= components@.len(),
                forall|j: int| 0 <= j < i ==> component_in_range(#[trigger] components@[j]),
            decreases components@.len() - i,
        {
            let c = components[i];
            if c < -MAX_COMPONENT || c > MAX_COMPONENT {
                return None;
            }
            i = i + 1;
        }
        Some(Embedding { components })
    }

    /// Dimensionality of the embedding.
    pub fn len(&self) -> (n: usize)
        ensures
            n == self@.len(),
    {
        self.components.len()
    }

    /// Read access to the components.
    pub fn components(&self) -> (r: &Vec<i64>)
        ensures
            r@ == self@,
    {
        &self.components
    }
}

impl Clone for Embedding {
    fn clone(&self) -> (r: Self)
        ensures
            r@ == self@,
    {
        let r = Embedding { components: self.components.clone() };
        proof {
            assert(r@ =~= self@);
        }
        r
    }
}

/// A similarity threshold, the rational number `num / den`.
#[derive(Debug, PartialEq, Eq)]
pub struct Threshold {
    pub num: i64,
    pub den: i64,
}

impl Threshold {
    /// Positive denominator and magnitudes small enough for the exact
    /// comparison arithmetic.
    pub open spec fn wf(&self) -> bool {
        &&& 0 < self.den <= MAX_THRESHOLD
        &&& -MAX_THRESHOLD <= self.num <= MAX_THRESHOLD
    }

    /// Builds the threshold `num / den` after checking the bounds.
    pub fn new(num: i64, den: i64) -> (r: Option<Threshold>)
        ensures
            match r {
                Some(t) => t.num == num && t.den == den && t.wf(),
                None => !(0 < den <= MAX_THRESHOLD && -MAX_THRESHOLD <= num <= MAX_THRESHOLD),
            },
    {
        if 0 < den && den <= MAX_THRESHOLD && -MAX_THRESHOLD <= num && num <= MAX_THRESHOLD {
            Some(Threshold { num, den })
        } else {
            None
        }
    }
}

impl Clone for Threshold {
    fn clone(&self) -> (r: Self)
        ensures
            r == *self,
    {
        Threshold { num: self.num, den: self.den }
    }
}

/// `dot` of equal-length vectors with in-range components is bounded by
/// `len * MAX_COMPONENT^2` in magnitude.
pub proof fn lemma_dot_bounds(a: Seq<i64>, b: Seq<i64>)
    requires
        a.len() == b.len(),
        forall|i: int| 0 <= i < a.len() ==> component_in_range(#[trigger] a[i]),
        forall|i: int| 0 <= i < b.len() ==> component_in_range(#[trigger] b[i]),
    ensures
        -(a.len() * MAX_COMPONENT * MAX_COMPONENT) <= dot(a, b) <= a.len() * MAX_COMPONENT
            * MAX_COMPONENT,
    decreases a.len(),
{
    if a.len() == 0 {
    } else {
        lemma_dot_bounds(a.drop_last(), b.drop_last());
        let x = a.last();
        let y = b.last();
        assert(-(MAX_COMPONENT * MAX_COMPONENT) <= x * y <= MAX_COMPONENT * MAX_COMPONENT)
            by (nonlinear_arith)
            requires
                -MAX_COMPONENT <= x <= MAX_COMPONENT,
                -MAX_COMPONENT <= y <= MAX_COMPONENT,
        ;
        assert((a.len() - 1) * (MAX_COMPONENT * MAX_COMPONENT) + MAX_COMPONENT * MAX_COMPONENT
            == a.len() * (MAX_COMPONENT * MAX_COMPONENT)) by (nonlinear_arith);
    }
}

/// `norm_sq` is non-negative, and zero exactly on the all-zero vector.
pub proof fn lemma_norm_sq_zero(a: Seq<i64>)
    ensures
        norm_sq(a) >= 0,
        norm_sq(a) == 0 <==> is_zero_vec(a),
    decreases a.len(),
{
    if a.len() == 0 {
    } else {
        lemma_norm_sq_zero(a.drop_last());
        let x = a.last();
        assert(x * x >= 0) by (nonlinear_arith);
        assert(x != 0 ==> x * x > 0) by (nonlinear_arith);
        if norm_sq(a) == 0 {
            assert(forall|i: int|
                0 <= i < a.len() - 1 ==> a.drop_last()[i] == #[trigger] a[i]);
        }
        if is_zero_vec(a) {
            assert(is_zero_vec(a.drop_last()));
            assert(a.last() == 0);
        }
    }
}

/// One step of `dot` on prefixes, as a loop computes it.
proof fn lemma_dot_take_step(a: Seq<i64>, b: Seq<i64>, i: int)
    requires
        a.len() == b.len(),
        0 <= i < a.len(),
    ensures
        dot(a.take(i + 1), b.take(i + 1)) == dot(a.take(i), b.take(i)) + a[i] * b[i],
{
    assert(a.take(i + 1).drop_last() =~= a.take(i));
    assert(b.take(i + 1).drop_last() =~= b.take(i));
    assert(a.take(i + 1).last() == a[i]);
    assert(b.take(i + 1).last() == b[i]);
}

/// Law: degenerate similarities.  Two all-zero vectors have similarity 1,
/// so they exceed the threshold `num/den` exactly when `1 > num/den`; an
/// all-zero vector against a non-zero one has similarity 0, so it exceeds
/// the threshold exactly when `0 > num/den`.
pub proof fn lemma_zero_vector_similarity(a: Seq<i64>, b: Seq<i64>, num: int, den: int)
    requires
        a.len() == b.len(),
        den > 0,
    ensures
        is_zero_vec(a) && is_zero_vec(b) ==> similarity_exceeds(a, b, num, den) == (den > num),
        is_zero_vec(a) != is_zero_vec(b) ==> similarity_exceeds(a, b, num, den) == (num < 0),
{
}

/// Law: a vector compared against itself has similarity 1 (also in the
/// all-zero case), so it exceeds the threshold `num/den` exactly when
/// `1 > num/den`.
pub proof fn lemma_self_similarity(a: Seq<i64>, num: int, den: int)
    requires
        den > 0,
    ensures
        similarity_exceeds(a, a, num, den) == (den > num),
{
    lemma_norm_sq_zero(a);
    if !is_zero_vec(a) {
        let n = norm_sq(a);
        let l = n * den;
        assert(l > 0) by (nonlinear_arith)
            requires
                n > 0,
                den > 0,
                l == n * den,
        ;
        if num >= 0 {
            assert((l * l > num * num * n * n) == (den > num)) by (nonlinear_arith)
                requires
                    n > 0,
                    den > 0,
                    num >= 0,
                    l == n * den,
            ;
        }
    }
}

/// Law: averaging a component with itself gives it back, so an embedding
/// averaged with an identical one is unchanged.
pub proof fn lemma_avg_self(x: int)
    ensures
        avg_toward_zero(x, x) == x,
{
    if x + x >= 0 {
        assert((x + x) / 2 == x) by (nonlinear_arith)
            requires
                x >= 0,
        ;
    } else {
        assert((-(x + x)) / 2 == -x) by (nonlinear_arith)
            requires
                x < 0,
        ;
    }
}

/// Dot product of two equal-length, in-range vectors.
fn dot_i64(a: &Vec<i64>, b: &Vec<i64>) -> (r: i64)
    requires
        a@.len() == b@.len(),
        valid_components(a@),
        valid_components(b@),
    ensures
        r == dot(a@, b@),
{
    let mut acc: i64 = 0;
    let mut i: usize = 0;
    while i < a.len()
        invariant
            a@.len() == b@.len(),
            valid_components(a@),
            valid_components(b@),
            i <= a@.len(),
            acc == dot(a@.take(i as int), b@.take(i as int)),
            -(i * MAX_COMPONENT * MAX_COMPONENT) <= acc <= i * MAX_COMPONENT * MAX_COMPONENT,
        decreases a@.len() - i,
    {
        let x = a[i];
        let y = b[i];
        assert(-(MAX_COMPONENT * MAX_COMPONENT) <= x * y <= MAX_COMPONENT * MAX_COMPONENT)
            by (nonlinear_arith)
            requires
                -MAX_COMPONENT <= x <= MAX_COMPONENT,
                -MAX_COMPONENT <= y <= MAX_COMPONENT,
        ;
        assert(i * (MAX_COMPONENT * MAX_COMPONENT) + MAX_COMPONENT * MAX_COMPONENT == (i + 1) * (
        MAX_COMPONENT * MAX_COMPONENT)) by (nonlinear_arith);
        assert(i + 1 <= MAX_DIM);
        proof {
            lemma_dot_take_step(a@, b@, i as int);
        }
        let prod = x * y;
        acc = acc + prod;
        i = i + 1;
    }
    proof {
        assert(a@.take(a@.len() as int) =~= a@);
        assert(b@.take(b@.len() as int) =~= b@);
    }
    acc
}

/// Decides, exactly, whether the cosine similarity of `a` and `b` exceeds
/// the threshold `t`.
///
/// Returns `Err(DimensionMismatch)` exactly when the two embeddings differ
/// in dimensionality; otherwise `Ok(similarity_exceeds(a@, b@, num, den))`.
/// Two all-zero vectors have similarity 1, an all-zero vector against a
/// non-zero one has similarity 0, and otherwise the standard formula
/// `dot(a,b) / (|a| * |b|)` is compared against `num/den` without rounding.
pub fn cosine_similarity(a: &Embedding, b: &Embedding, t: &Threshold) -> (r: Result<
    bool,
    EmbeddingError,
>)
    requires
        a.wf(),
        b.wf(),
        t.wf(),
    ensures
        match r {
            Ok(exceeds) => a@.len() == b@.len() && exceeds == similarity_exceeds(
                a@,
                b@,
                t.num as int,
                t.den as int,
            ),
            Err(e) => a@.len() != b@.len() && e == EmbeddingError::DimensionMismatch,
        },
{
    if a.components.len() != b.components.len() {
        return Err(EmbeddingError::DimensionMismatch);
    }
    let d = dot_i64(&a.components, &b.components);
    let na = dot_i64(&a.components, &a.components);
    let nb = dot_i64(&b.components, &b.components);
    proof {
        lemma_norm_sq_zero(a@);
        lemma_norm_sq_zero(b@);
        lemma_dot_bounds(a@, b@);
        lemma_dot_bounds(a@, a@);
        lemma_dot_bounds(b@, b@);
    }
    if na == 0 && nb == 0 {
        Ok(t.den > t.num)
    } else if na == 0 || nb == 0 {
        Ok(t.num < 0)
    } else {
        proof {
            let m: int = MAX_DIM * MAX_COMPONENT * MAX_COMPONENT;
            assert(-m <= d <= m && 0 <= na <= m && 0 <= nb <= m);
            assert(-(m * MAX_THRESHOLD) <= d * t.den <= m * MAX_THRESHOLD) by (nonlinear_arith)
                requires
                    -m <= d <= m,
                    0 < t.den <= MAX_THRESHOLD,
                    m == MAX_DIM * MAX_COMPONENT * MAX_COMPONENT,
            ;
            assert(0 <= (t.num as int) * (t.num as int) <= MAX_THRESHOLD * MAX_THRESHOLD)
                by (nonlinear_arith)
                requires
                    -MAX_THRESHOLD <= t.num <= MAX_THRESHOLD,
            ;
            assert(0 <= (t.num as int) * (t.num as int) * na <= MAX_THRESHOLD * MAX_THRESHOLD * m)
                by (nonlinear_arith)
                requires
                    0 <= (t.num as int) * (t.num as int) <= MAX_THRESHOLD * MAX_THRESHOLD,
                    0 <= na <= m,
                    m >= 0,
            ;
            assert(0 <= (t.num as int) * (t.num as int) * na * nb <= MAX_THRESHOLD * MAX_THRESHOLD
                * m * m) by (nonlinear_arith)
                requires
                    0 <= (t.num as int) * (t.num as int) * na <= MAX_THRESHOLD * MAX_THRESHOLD * m,
                    0 <= nb <= m,
                    m >= 0,
            ;
            assert(0 <= (d * t.den) * (d * t.den) <= (m * MAX_THRESHOLD) * (m * MAX_THRESHOLD))
                by (nonlinear_arith)
                requires
                    -(m * MAX_THRESHOLD) <= d * t.den <= m * MAX_THRESHOLD,
            ;
        }
        let l: i128 = (d as i128) * (t.den as i128);
        let num_sq: i128 = (t.num as i128) * (t.num as i128);
        let p: i128 = num_sq * (na as i128) * (nb as i128);
        let ll: i128 = l * l;
        proof {
            let m: int = MAX_DIM * MAX_COMPONENT * MAX_COMPONENT;
            assert(0 <= l * l <= (m * MAX_THRESHOLD) * (m * MAX_THRESHOLD)) by (nonlinear_arith)
                requires
                    -(m * MAX_THRESHOLD) <= l <= m * MAX_THRESHOLD,
            ;
        }
        if t.num >= 0 {
            Ok(l > 0 && ll > p)
        } else {
            Ok(l >= 0 || ll < p)
        }
    }
}

/// Elementwise average of two embeddings, each component rounded toward
/// zero.
///
/// Returns `Err(DimensionMismatch)` exactly when the two embeddings differ
/// in dimensionality; averaging never silently coerces lengths.  The
/// average of two in-range components is again in range, so the result is
/// well-formed.
pub fn average_embeddings(a: &Embedding, b: &Embedding) -> (r: Result<Embedding, EmbeddingError>)
    requires
        a.wf(),
        b.wf(),
    ensures
        match r {
            Ok(e) => {
                &&& a@.len() == b@.len()
                &&& e@.len() == a@.len()
                &&& forall|i: int|
                    0 <= i < e@.len() ==> #[trigger] e@[i] == avg_toward_zero(
                        a@[i] as int,
                        b@[i] as int,
                    )
                &&& e.wf()
            },
            Err(err) => a@.len() != b@.len() && err == EmbeddingError::DimensionMismatch,
        },
{
    if a.components.len() != b.components.len() {
        return Err(EmbeddingError::DimensionMismatch);
    }
    let n = a.components.len();
    let mut out: Vec<i64> = Vec::new();
    let mut i: usize = 0;
    while i < n
        invariant
            n == a@.len(),
            a@.len() == b@.len(),
            valid_components(a@),
            valid_components(b@),
            i <= n,
            out@.len() == i,
            forall|j: int|
                0 <= j < i ==> #[trigger] out@[j] == avg_toward_zero(a@[j] as int, b@[j] as int),
            forall|j: int| 0 <= j < i ==> component_in_range(#[trigger] out@[j]),
        decreases n - i,
    {
        let x = a.components[i];
        let y = b.components[i];
        let s: i64 = x + y;
        let avg: i64 = if s >= 0 {
            s / 2
        } else {
            -((-s) / 2)
        };
        out.push(avg);
        i = i + 1;
    }
    Ok(Embedding { components: out })
}

} // verus!
