//! Conservation laws for agent dynamics.
//!
//! This crate provides tools for modeling agent dynamics using Lagrangian
//! mechanics, verifying Noether's theorem for symmetry-derived conservation
//! laws, and checking conservation of quantities like energy and momentum.
//!
//! All numerics are generic over a [`Scalar`] type.  The contracts speak of
//! the scalar operations through the abstract model that the trait declares,
//! so every result is pinned down as the exact composition of scalar
//! operations the code performs, in the order it performs them.  The one
//! exception is the cosine and sine of a rotation, of which only the signs
//! near zero are claimed: a rotation is stated as a turn by the pair that
//! was returned.
pub mod conserved;
pub mod fleet_integration;
pub mod hamiltonian;
pub mod lagrangian;
pub mod noether;
pub mod text;

use vstd::prelude::*;

verus! {

/// A real-number-like scalar used by all dynamics in this crate.
///
/// Each executable operation but `cos` and `sin` is tied to a spec function
/// of the same meaning; the spec functions are the model the contracts speak
/// of.  For `f64`, `f32` and other `Float` types the model is IEEE floating
/// point with every NaN taken as one value: `add_spec` is float addition,
/// `lt_spec` is float `<`, `display_spec` is the `{}` rendering, and so on.
/// Rust leaves the payload of a NaN result open, so for a NaN result the tie
/// holds only in that sense.  `cos` and `sin` are not tied to a spec
/// function: the precision of the float functions is not specified and may
/// differ from one call to the next.  Only their signs near zero are claimed,
/// which no rounding can change.  The proofs
/// of this crate use nothing of the model beyond these ties, so they hold for
/// every implementation whose methods agree with its spec functions.
pub trait Scalar: Sized + Copy {
    /// The additive identity.
    spec fn zero_spec() -> Self;

    /// The multiplicative identity.
    spec fn one_spec() -> Self;

    /// The machine epsilon of the type.
    spec fn epsilon_spec() -> Self;

    /// The value of the type nearest to the integer `n`.
    spec fn from_usize_spec(n: usize) -> Self;

    spec fn add_spec(self, rhs: Self) -> Self;

    spec fn sub_spec(self, rhs: Self) -> Self;

    spec fn mul_spec(self, rhs: Self) -> Self;

    spec fn div_spec(self, rhs: Self) -> Self;

    spec fn neg_spec(self) -> Self;

    spec fn abs_spec(self) -> Self;

    spec fn sqrt_spec(self) -> Self;

    spec fn max_spec(self, other: Self) -> Self;

    /// `self < rhs`.
    spec fn lt_spec(self, rhs: Self) -> bool;

    /// `self <= rhs`.
    spec fn le_spec(self, rhs: Self) -> bool;

    spec fn is_finite_spec(self) -> bool;

    spec fn is_zero_spec(self) -> bool;

    /// The text that `{}` formatting produces.
    spec fn display_spec(self) -> String;

    /// The text that `{:?}` formatting produces.
    spec fn debug_spec(self) -> String;

    fn zero() -> (r: Self)
        ensures
            r == Self::zero_spec(),
    ;

    fn one() -> (r: Self)
        ensures
            r == Self::one_spec(),
    ;

    fn epsilon() -> (r: Self)
        ensures
            r == Self::epsilon_spec(),
    ;

    fn from_usize(n: usize) -> (r: Self)
        ensures
            r == Self::from_usize_spec(n),
    ;

    fn plus(self, rhs: Self) -> (r: Self)
        ensures
            r == self.add_spec(rhs),
    ;

    fn minus(self, rhs: Self) -> (r: Self)
        ensures
            r == self.sub_spec(rhs),
    ;

    fn times(self, rhs: Self) -> (r: Self)
        ensures
            r == self.mul_spec(rhs),
    ;

    fn over(self, rhs: Self) -> (r: Self)
        ensures
            r == self.div_spec(rhs),
    ;

    fn negate(self) -> (r: Self)
        ensures
            r == self.neg_spec(),
    ;

    fn abs(self) -> (r: Self)
        ensures
            r == self.abs_spec(),
    ;

    fn sqrt(self) -> (r: Self)
        ensures
            r == self.sqrt_spec(),
    ;

    /// The cosine.
    ///
    /// Only its sign near zero is promised: for `|x| < 1` the cosine is at
    /// least `cos 1 > 0.54`, far from zero whatever the precision.
    fn cos(self) -> (r: Self)
        ensures
            Self::one_spec().neg_spec().lt_spec(self) && self.lt_spec(Self::one_spec())
                ==> Self::zero_spec().lt_spec(r),
    ;

    /// The sine.
    ///
    /// Only its sign near zero is promised: for `0 < |x| < 1` the sine has the
    /// sign of `x` and a magnitude of at least `0.84 |x|`, so any result within
    /// a small relative error keeps that sign.
    fn sin(self) -> (r: Self)
        ensures
            Self::zero_spec().lt_spec(self) && self.lt_spec(Self::one_spec())
                ==> Self::zero_spec().lt_spec(r),
            Self::one_spec().neg_spec().lt_spec(self) && self.lt_spec(Self::zero_spec())
                ==> r.lt_spec(Self::zero_spec()),
    ;

    fn max(self, other: Self) -> (r: Self)
        ensures
            r == self.max_spec(other),
    ;

    fn lt(self, rhs: Self) -> (r: bool)
        ensures
            r == self.lt_spec(rhs),
    ;

    fn le(self, rhs: Self) -> (r: bool)
        ensures
            r == self.le_spec(rhs),
    ;

    fn is_finite(self) -> (r: bool)
        ensures
            r == self.is_finite_spec(),
    ;

    fn is_zero(self) -> (r: bool)
        ensures
            r == self.is_zero_spec(),
    ;

    fn display_text(&self) -> (r: String)
        ensures
            r == self.display_spec(),
    ;

    fn debug_text(&self) -> (r: String)
        ensures
            r == self.debug_spec(),
    ;
}

/// `c` is positive when `|x| < 1`, as the cosine of such an `x` is.
pub open spec fn cosine_sign_fits<S: Scalar>(x: S, c: S) -> bool {
    S::one_spec().neg_spec().lt_spec(x) && x.lt_spec(S::one_spec()) ==> S::zero_spec().lt_spec(c)
}

/// `s` has the sign of `x` when `0 < |x| < 1`, as the sine of such an `x` has.
pub open spec fn sine_sign_fits<S: Scalar>(x: S, s: S) -> bool {
    &&& S::zero_spec().lt_spec(x) && x.lt_spec(S::one_spec()) ==> S::zero_spec().lt_spec(s)
    &&& S::one_spec().neg_spec().lt_spec(x) && x.lt_spec(S::zero_spec()) ==> s.lt_spec(
        S::zero_spec(),
    )
}

/// `1 + 1`.
pub open spec fn scalar_two<S: Scalar>() -> S {
    S::one_spec().add_spec(S::one_spec())
}

/// `1 / (1 + 1)`.
pub open spec fn scalar_half<S: Scalar>() -> S {
    S::one_spec().div_spec(scalar_two::<S>())
}

/// The finite-difference step `sqrt(epsilon)` used for numerical gradients.
pub open spec fn difference_step<S: Scalar>() -> S {
    S::epsilon_spec().sqrt_spec()
}

pub(crate) fn two<S: Scalar>() -> (r: S)
    ensures
        r == scalar_two::<S>(),
{
    S::one().plus(S::one())
}

pub(crate) fn half<S: Scalar>() -> (r: S)
    ensures
        r == scalar_half::<S>(),
{
    S::one().over(two::<S>())
}

pub(crate) fn step_width<S: Scalar>() -> (r: S)
    ensures
        r == difference_step::<S>(),
{
    S::epsilon().sqrt()
}

/// `q` with coordinate `i` raised by `d`.
pub open spec fn bumped<S: Scalar, const N: usize>(q: [S; N], i: int, d: S) -> [S; N] {
    vstd::array::spec_array_update(q, i, q[i].add_spec(d))
}

/// `q` with coordinate `i` lowered by `d`.
pub open spec fn dipped<S: Scalar, const N: usize>(q: [S; N], i: int, d: S) -> [S; N] {
    vstd::array::spec_array_update(q, i, q[i].sub_spec(d))
}

pub(crate) fn bump<S: Scalar, const N: usize>(q: &[S; N], i: usize, d: S) -> (r: [S; N])
    requires
        i < N,
    ensures
        r == bumped(*q, i as int, d),
{
    let mut r = *q;
    r[i] = r[i].plus(d);
    proof {
        broadcast use vstd::array::group_array_axioms;

        assert(r =~= bumped(*q, i as int, d));
    }
    r
}

pub(crate) fn dip<S: Scalar, const N: usize>(q: &[S; N], i: usize, d: S) -> (r: [S; N])
    requires
        i < N,
    ensures
        r == dipped(*q, i as int, d),
{
    let mut r = *q;
    r[i] = r[i].minus(d);
    proof {
        broadcast use vstd::array::group_array_axioms;

        assert(r =~= dipped(*q, i as int, d));
    }
    r
}

/// The closure is defined everywhere and gives one result per argument.
pub open spec fn pure_scalar_fn<S, F: Fn(S) -> S>(f: F) -> bool {
    &&& forall|x: S| call_requires(f, (x,))
    &&& forall|x: S, a: S, b: S| call_ensures(f, (x,), a) && call_ensures(f, (x,), b) ==> a == b
}

/// The value of a pure closure at `x`.
pub open spec fn scalar_fn_at<S, F: Fn(S) -> S>(f: F, x: S) -> S {
    choose|r: S| call_ensures(f, (x,), r)
}

fn eval_scalar_fn<S, F: Fn(S) -> S>(f: &F, x: S) -> (r: S)
    requires
        pure_scalar_fn(*f),
    ensures
        r == scalar_fn_at(*f, x),
{
    let r = f(x);
    assert(call_ensures(*f, (x,), r));
    r
}

/// The central difference `(f(x + h) - f(x - h)) / (2h)`.
pub open spec fn central_diff_spec<S: Scalar, F: Fn(S) -> S>(f: F, x: S, h: S) -> S {
    scalar_fn_at(f, x.add_spec(h)).sub_spec(scalar_fn_at(f, x.sub_spec(h))).div_spec(
        scalar_two::<S>().mul_spec(h),
    )
}

/// Compute a central difference gradient of `f` at `x` with step `h`.
pub fn central_diff<F, S>(f: F, x: S, h: S) -> (r: S) where F: Fn(S) -> S, S: Scalar
    requires
        pure_scalar_fn(f),
    ensures
        r == central_diff_spec(f, x, h),
{
    let two = two::<S>();
    let above = eval_scalar_fn(&f, x.plus(h));
    let below = eval_scalar_fn(&f, x.minus(h));
    above.minus(below).over(two.times(h))
}

/// `((0 + v₀) + v₁) + …` over the first `k` values.
pub open spec fn sum_prefix<S: Scalar>(v: Seq<S>, k: nat) -> S
    decreases k,
{
    if k == 0 {
        S::zero_spec()
    } else {
        sum_prefix(v, (k - 1) as nat).add_spec(v[k - 1])
    }
}

/// `Σ (vᵢ − m)(vᵢ − m)` over the first `k` values, summed from the left starting at zero.
pub open spec fn squared_deviation_sum<S: Scalar>(v: Seq<S>, m: S, k: nat) -> S
    decreases k,
{
    if k == 0 {
        S::zero_spec()
    } else {
        squared_deviation_sum(v, m, (k - 1) as nat).add_spec(
            v[k - 1].sub_spec(m).mul_spec(v[k - 1].sub_spec(m)),
        )
    }
}

/// The mean `Σ vᵢ / n` of the values.
pub open spec fn mean_of<S: Scalar>(v: Seq<S>) -> S {
    sum_prefix(v, v.len()).div_spec(S::from_usize_spec(v.len() as usize))
}

/// The population standard deviation `sqrt(Σ (vᵢ − mean)² / n)` of the values.
pub open spec fn population_std_dev<S: Scalar>(v: Seq<S>) -> S {
    squared_deviation_sum(v, mean_of(v), v.len()).div_spec(
        S::from_usize_spec(v.len() as usize),
    ).sqrt_spec()
}

pub(crate) fn sum_values<S: Scalar>(v: &[S]) -> (r: S)
    ensures
        r == sum_prefix(v@, v@.len()),
{
    let mut acc = S::zero();
    let mut i: usize = 0;
    while i < v.len()
        invariant
            0 <= i <= v@.len(),
            acc == sum_prefix(v@, i as nat),
        decreases v@.len() - i,
    {
        acc = acc.plus(v[i]);
        i = i + 1;
    }
    acc
}

pub(crate) fn squared_deviations<S: Scalar>(v: &[S], m: S) -> (r: S)
    ensures
        r == squared_deviation_sum(v@, m, v@.len()),
{
    let mut acc = S::zero();
    let mut i: usize = 0;
    while i < v.len()
        invariant
            0 <= i <= v@.len(),
            acc == squared_deviation_sum(v@, m, i as nat),
        decreases v@.len() - i,
    {
        let d = v[i].minus(m);
        acc = acc.plus(d.times(d));
        i = i + 1;
    }
    acc
}

/// The finite-difference velocity of the trajectory `q` at index `i`:
/// forward at the start, backward at the end, central in between.
pub open spec fn time_derivative_at<S: Scalar>(q: Seq<S>, dt: S, i: int) -> S {
    let n = q.len() as int;
    if i == 0 {
        q[1].sub_spec(q[0]).div_spec(dt)
    } else if i == n - 1 {
        q[n - 1].sub_spec(q[n - 2]).div_spec(dt)
    } else {
        q[i + 1].sub_spec(q[i - 1]).div_spec(scalar_two::<S>().mul_spec(dt))
    }
}

/// Compute a central difference time derivative of a trajectory `q(t)`.
///
/// The trajectory needs at least two samples.
pub fn time_derivative<S: Scalar>(q: &[S], dt: S) -> (dq: Vec<S>)
    requires
        q@.len() >= 2,
    ensures
        dq@.len() == q@.len(),
        forall|i: int| 0 <= i < q@.len() ==> dq@[i] == time_derivative_at(q@, dt, i),
{
    let two = two::<S>();
    let n = q.len();
    let mut dq: Vec<S> = Vec::with_capacity(n);
    // Forward difference at start
    dq.push(q[1].minus(q[0]).over(dt));
    // Central difference in interior
    let mut i: usize = 1;
    while i < n - 1
        invariant
            n == q@.len(),
            n >= 2,
            1 <= i <= n - 1,
            two == scalar_two::<S>(),
            dq@.len() == i,
            forall|k: int| 0 <= k < i ==> dq@[k] == time_derivative_at(q@, dt, k),
        decreases n - 1 - i,
    {
        dq.push(q[i + 1].minus(q[i - 1]).over(two.times(dt)));
        i = i + 1;
    }
    // Backward difference at end
    dq.push(q[n - 1].minus(q[n - 2]).over(dt));
    dq
}

} // verus!
