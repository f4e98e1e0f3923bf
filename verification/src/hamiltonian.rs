//! Hamiltonian mechanics via Legendre transform.
//!
//! Provides:
//! - **Legendre transform**: L(q, q̇, t) → H(q, p, t) where p = ∂L/∂q̇.
//! - **Canonical equations**: q̇ = ∂H/∂p, ṗ = −∂H/∂q.
//! - **Poisson brackets**: {f, g} = Σ (∂f/∂qᵢ)(∂g/∂pᵢ) − (∂f/∂pᵢ)(∂g/∂qᵢ).
//! - **Liouville's theorem**: phase space volume preservation.
//! - **Poincaré recurrence**: detection of near-recurrence.
use crate::lagrangian::{eval_potential, potential_at, pure_potential, sum_of_squares, squares_sum};
use crate::{
    bump, bumped, difference_step, dip, dipped, half, scalar_half, scalar_two, step_width, two,
    Scalar,
};
use vstd::prelude::*;

verus! {

/// A point in 2N-dimensional phase space: (q₁…qₙ, p₁…pₙ).
#[derive(Clone, Copy, Debug, PartialEq)]
pub struct PhaseSpacePoint<S, const N: usize> {
    pub q: [S; N],
    pub p: [S; N],
}

/// `Σ (Δqᵢ² + Δpᵢ²)` over the first `k` coordinates, summed from the left starting at zero.
pub open spec fn squared_distance_sum<S: Scalar, const N: usize>(
    a: PhaseSpacePoint<S, N>,
    b: PhaseSpacePoint<S, N>,
    k: nat,
) -> S
    decreases k,
{
    if k == 0 {
        S::zero_spec()
    } else {
        let dq = a.q[k - 1].sub_spec(b.q[k - 1]);
        let dp = a.p[k - 1].sub_spec(b.p[k - 1]);
        squared_distance_sum(a, b, (k - 1) as nat).add_spec(dq.mul_spec(dq)).add_spec(
            dp.mul_spec(dp),
        )
    }
}

/// Euclidean distance between two phase space points.
pub open spec fn phase_distance<S: Scalar, const N: usize>(
    a: PhaseSpacePoint<S, N>,
    b: PhaseSpacePoint<S, N>,
) -> S {
    squared_distance_sum(a, b, N as nat).sqrt_spec()
}

/// `Π |qᵢ pᵢ|` over the first `k` coordinates, multiplied from the left starting at one.
pub open spec fn volume_product<S: Scalar, const N: usize>(a: PhaseSpacePoint<S, N>, k: nat) -> S
    decreases k,
{
    if k == 0 {
        S::one_spec()
    } else {
        volume_product(a, (k - 1) as nat).mul_spec(a.q[k - 1].mul_spec(a.p[k - 1]).abs_spec())
    }
}

impl<S: Scalar, const N: usize> PhaseSpacePoint<S, N> {
    pub fn new(q: [S; N], p: [S; N]) -> (r: Self)
        ensures
            r.q == q,
            r.p == p,
    {
        PhaseSpacePoint { q, p }
    }

    /// Euclidean distance in phase space.
    pub fn distance(&self, other: &Self) -> (r: S)
        ensures
            r == phase_distance(*self, *other),
    {
        let mut sum = S::zero();
        let mut i: usize = 0;
        while i < N
            invariant
                0 <= i <= N,
                sum == squared_distance_sum(*self, *other, i as nat),
            decreases N - i,
        {
            let dq = self.q[i].minus(other.q[i]);
            let dp = self.p[i].minus(other.p[i]);
            sum = sum.plus(dq.times(dq)).plus(dp.times(dp));
            i = i + 1;
        }
        sum.sqrt()
    }

    /// Phase space volume element (product of |dqᵢ dpᵢ|).
    /// This is a scalar measure for a single point (not very meaningful alone,
    /// but used for comparing total volume before/after a map).
    pub fn volume_element(&self) -> (r: S)
        ensures
            r == volume_product(*self, N as nat),
    {
        let mut vol = S::one();
        let mut i: usize = 0;
        while i < N
            invariant
                0 <= i <= N,
                vol == volume_product(*self, i as nat),
            decreases N - i,
        {
            vol = vol.times(self.q[i].times(self.p[i]).abs());
            i = i + 1;
        }
        vol
    }
}

/// A Hamiltonian system H(q, p, t).
pub trait Hamiltonian<S: Scalar, const N: usize> {
    /// The Hamiltonian can be evaluated (for instance, its potential is a pure function).
    spec fn well_formed(&self) -> bool;

    spec fn hamiltonian_spec(&self, q: [S; N], p: [S; N]) -> S;

    /// The Hamiltonian function H(q, p).
    fn hamiltonian(&self, q: &[S; N], p: &[S; N]) -> (r: S)
        requires
            self.well_formed(),
        ensures
            r == self.hamiltonian_spec(*q, *p),
    ;

    /// ∂H/∂qᵢ via central differences.
    ///
    /// Component `i` is `(H(q + h eᵢ, p) − H(q − h eᵢ, p)) / 2h` with
    /// `h = sqrt(epsilon)`; an implementation that overrides this method
    /// returns the same.
    #[allow(non_snake_case)]
    fn dH_dq(&self, q: &[S; N], p: &[S; N]) -> (grad: [S; N])
        requires
            self.well_formed(),
        ensures
            forall|i: int|
                0 <= i < N ==> #[trigger] grad[i] == self.hamiltonian_spec(
                    bumped(*q, i, difference_step::<S>()),
                    *p,
                ).sub_spec(self.hamiltonian_spec(dipped(*q, i, difference_step::<S>()), *p)).div_spec(
                    scalar_two::<S>().mul_spec(difference_step::<S>()),
                ),
    {
        let h = step_width::<S>();
        let two = two::<S>();
        let mut grad = [S::zero();N];
        let mut i: usize = 0;
        while i < N
            invariant
                0 <= i <= N,
                self.well_formed(),
                h == difference_step::<S>(),
                two == scalar_two::<S>(),
                forall|k: int|
                    0 <= k < i ==> #[trigger] grad[k] == self.hamiltonian_spec(bumped(*q, k, h), *p).sub_spec(
                        self.hamiltonian_spec(dipped(*q, k, h), *p),
                    ).div_spec(two.mul_spec(h)),
            decreases N - i,
        {
            let q_plus = bump(q, i, h);
            let q_minus = dip(q, i, h);
            grad[i] = self.hamiltonian(&q_plus, p).minus(self.hamiltonian(&q_minus, p)).over(
                two.times(h),
            );
            i = i + 1;
        }
        grad
    }

    /// ∂H/∂pᵢ via central differences.
    ///
    /// Component `i` is `(H(q, p + h eᵢ) − H(q, p − h eᵢ)) / 2h` with
    /// `h = sqrt(epsilon)`; an implementation that overrides this method
    /// returns the same.
    #[allow(non_snake_case)]
    fn dH_dp(&self, q: &[S; N], p: &[S; N]) -> (grad: [S; N])
        requires
            self.well_formed(),
        ensures
            forall|i: int|
                0 <= i < N ==> #[trigger] grad[i] == self.hamiltonian_spec(
                    *q,
                    bumped(*p, i, difference_step::<S>()),
                ).sub_spec(self.hamiltonian_spec(*q, dipped(*p, i, difference_step::<S>()))).div_spec(
                    scalar_two::<S>().mul_spec(difference_step::<S>()),
                ),
    {
        let h = step_width::<S>();
        let two = two::<S>();
        let mut grad = [S::zero();N];
        let mut i: usize = 0;
        while i < N
            invariant
                0 <= i <= N,
                self.well_formed(),
                h == difference_step::<S>(),
                two == scalar_two::<S>(),
                forall|k: int|
                    0 <= k < i ==> #[trigger] grad[k] == self.hamiltonian_spec(*q, bumped(*p, k, h)).sub_spec(
                        self.hamiltonian_spec(*q, dipped(*p, k, h)),
                    ).div_spec(two.mul_spec(h)),
            decreases N - i,
        {
            let p_plus = bump(p, i, h);
            let p_minus = dip(p, i, h);
            grad[i] = self.hamiltonian(q, &p_plus).minus(self.hamiltonian(q, &p_minus)).over(
                two.times(h),
            );
            i = i + 1;
        }
        grad
    }
}

/// Component `i` of the Hamiltonian's `∂H/∂q`: the central difference
/// `(H(q + h eᵢ, p) − H(q − h eᵢ, p)) / 2h` with `h = sqrt(epsilon)`.
pub open spec fn grad_q<S: Scalar, const N: usize, H: Hamiltonian<S, N>>(
    ham: H,
    q: [S; N],
    p: [S; N],
    i: int,
) -> S {
    let h = difference_step::<S>();
    ham.hamiltonian_spec(bumped(q, i, h), p).sub_spec(ham.hamiltonian_spec(dipped(q, i, h), p)).div_spec(
        scalar_two::<S>().mul_spec(h),
    )
}

/// Component `i` of the Hamiltonian's `∂H/∂p`: the central difference
/// `(H(q, p + h eᵢ) − H(q, p − h eᵢ)) / 2h` with `h = sqrt(epsilon)`.
pub open spec fn grad_p<S: Scalar, const N: usize, H: Hamiltonian<S, N>>(
    ham: H,
    q: [S; N],
    p: [S; N],
    i: int,
) -> S {
    let h = difference_step::<S>();
    ham.hamiltonian_spec(q, bumped(p, i, h)).sub_spec(ham.hamiltonian_spec(q, dipped(p, i, h))).div_spec(
        scalar_two::<S>().mul_spec(h),
    )
}

/// Simple separable Hamiltonian: H = p²/(2m) + V(q).
#[verifier::reject_recursive_types(S)]
pub struct SeparableHamiltonian<S, V, const N: usize> where S: Scalar, V: Fn(&[S; N]) -> S {
    pub mass: S,
    pub potential: V,
}

impl<S, V, const N: usize> Hamiltonian<S, N> for SeparableHamiltonian<S, V, N> where
    S: Scalar,
    V: Fn(&[S; N]) -> S,
 {
    open spec fn well_formed(&self) -> bool {
        pure_potential(self.potential)
    }

    open spec fn hamiltonian_spec(&self, q: [S; N], p: [S; N]) -> S {
        scalar_half::<S>().mul_spec(sum_of_squares(p@, N as nat)).div_spec(self.mass).add_spec(
            potential_at(self.potential, q),
        )
    }

    fn hamiltonian(&self, q: &[S; N], p: &[S; N]) -> (r: S) {
        let half = half::<S>();
        let kinetic = squares_sum(p);
        half.times(kinetic).over(self.mass).plus(eval_potential(&self.potential, q))
    }
}

/// Symplectic integrator for Hamiltonian systems (Störmer-Verlet).
pub struct HamiltonianIntegrator<S: Scalar, const N: usize> {
    pub dt: S,
}

/// `p_half` holds the momenta of `state` after a half kick of length `dt / 2`.
pub open spec fn is_half_kick<S: Scalar, const N: usize, H: Hamiltonian<S, N>>(
    ham: H,
    dt: S,
    state: PhaseSpacePoint<S, N>,
    p_half: [S; N],
) -> bool {
    forall|i: int|
        0 <= i < N ==> #[trigger] p_half[i] == state.p[i].sub_spec(
            grad_q(ham, state.q, state.p, i).mul_spec(dt).mul_spec(scalar_half::<S>()),
        )
}

/// `next` is one Störmer–Verlet step from `state`: a half kick of the momenta,
/// a drift of the positions, and a second half kick with the new positions.
pub open spec fn is_phase_step<S: Scalar, const N: usize, H: Hamiltonian<S, N>>(
    ham: H,
    dt: S,
    state: PhaseSpacePoint<S, N>,
    next: PhaseSpacePoint<S, N>,
) -> bool {
    exists|p_half: [S; N]|
        {
            &&& #[trigger] is_half_kick(ham, dt, state, p_half)
            &&& forall|i: int|
                0 <= i < N ==> #[trigger] next.q[i] == state.q[i].add_spec(
                    grad_p(ham, state.q, p_half, i).mul_spec(dt),
                )
            &&& forall|i: int|
                0 <= i < N ==> #[trigger] next.p[i] == p_half[i].sub_spec(
                    grad_q(ham, next.q, p_half, i).mul_spec(dt).mul_spec(scalar_half::<S>()),
                )
        }
}

/// `traj` starts at `initial` and follows `steps` Störmer–Verlet steps.
pub open spec fn is_phase_trajectory<S: Scalar, const N: usize, H: Hamiltonian<S, N>>(
    ham: H,
    dt: S,
    initial: PhaseSpacePoint<S, N>,
    steps: nat,
    traj: Seq<PhaseSpacePoint<S, N>>,
) -> bool {
    &&& traj.len() == steps + 1
    &&& traj[0] == initial
    &&& forall|k: int| 0 <= k < steps ==> #[trigger] is_phase_step(ham, dt, traj[k], traj[k + 1])
}

/// A Störmer–Verlet step in phase space has exactly one result.
pub proof fn lemma_phase_step_unique<S: Scalar, const N: usize, H: Hamiltonian<S, N>>(
    ham: H,
    dt: S,
    state: PhaseSpacePoint<S, N>,
    a: PhaseSpacePoint<S, N>,
    b: PhaseSpacePoint<S, N>,
)
    requires
        is_phase_step(ham, dt, state, a),
        is_phase_step(ham, dt, state, b),
    ensures
        a == b,
{
    broadcast use vstd::array::group_array_axioms;

    let pa = choose|p_half: [S; N]|
        {
            &&& #[trigger] is_half_kick(ham, dt, state, p_half)
            &&& forall|i: int|
                0 <= i < N ==> #[trigger] a.q[i] == state.q[i].add_spec(
                    grad_p(ham, state.q, p_half, i).mul_spec(dt),
                )
            &&& forall|i: int|
                0 <= i < N ==> #[trigger] a.p[i] == p_half[i].sub_spec(
                    grad_q(ham, a.q, p_half, i).mul_spec(dt).mul_spec(scalar_half::<S>()),
                )
        };
    let pb = choose|p_half: [S; N]|
        {
            &&& #[trigger] is_half_kick(ham, dt, state, p_half)
            &&& forall|i: int|
                0 <= i < N ==> #[trigger] b.q[i] == state.q[i].add_spec(
                    grad_p(ham, state.q, p_half, i).mul_spec(dt),
                )
            &&& forall|i: int|
                0 <= i < N ==> #[trigger] b.p[i] == p_half[i].sub_spec(
                    grad_q(ham, b.q, p_half, i).mul_spec(dt).mul_spec(scalar_half::<S>()),
                )
        };
    assert forall|i: int| 0 <= i < N implies pa[i] == pb[i] by {
        assert(is_half_kick(ham, dt, state, pa));
        assert(is_half_kick(ham, dt, state, pb));
    }
    assert(pa =~= pb);
    assert forall|i: int| 0 <= i < N implies a.q[i] == b.q[i] by {}
    assert(a.q =~= b.q);
    assert forall|i: int| 0 <= i < N implies a.p[i] == b.p[i] by {}
    assert(a.p =~= b.p);
}

impl<S: Scalar, const N: usize> HamiltonianIntegrator<S, N> {
    pub fn new(dt: S) -> (r: Self)
        ensures
            r.dt == dt,
    {
        HamiltonianIntegrator { dt }
    }

    /// One step of the Störmer-Verlet integrator.
    pub fn step<H: Hamiltonian<S, N>>(&self, ham: &H, state: &PhaseSpacePoint<S, N>) -> (r:
        PhaseSpacePoint<S, N>)
        requires
            ham.well_formed(),
        ensures
            is_phase_step(*ham, self.dt, *state, r),
    {
        let half = half::<S>();
        let dt = self.dt;

        // Half-step momentum
        let dh_dq = ham.dH_dq(&state.q, &state.p);
        let mut p_half = state.p;
        let mut i: usize = 0;
        while i < N
            invariant
                0 <= i <= N,
                half == scalar_half::<S>(),
                forall|k: int| 0 <= k < N ==> dh_dq[k] == grad_q(*ham, state.q, state.p, k),
                forall|k: int| i <= k < N ==> p_half[k] == state.p[k],
                forall|k: int|
                    0 <= k < i ==> p_half[k] == state.p[k].sub_spec(
                        dh_dq[k].mul_spec(dt).mul_spec(half),
                    ),
            decreases N - i,
        {
            p_half[i] = p_half[i].minus(dh_dq[i].times(dt).times(half));
            i = i + 1;
        }

        // Full-step position
        let dh_dp = ham.dH_dp(&state.q, &p_half);
        let mut q_new = state.q;
        let mut i: usize = 0;
        while i < N
            invariant
                0 <= i <= N,
                forall|k: int| 0 <= k < N ==> dh_dp[k] == grad_p(*ham, state.q, p_half, k),
                forall|k: int| i <= k < N ==> q_new[k] == state.q[k],
                forall|k: int| 0 <= k < i ==> q_new[k] == state.q[k].add_spec(dh_dp[k].mul_spec(dt)),
            decreases N - i,
        {
            q_new[i] = q_new[i].plus(dh_dp[i].times(dt));
            i = i + 1;
        }

        // Half-step momentum with new force
        let dh_dq_new = ham.dH_dq(&q_new, &p_half);
        let mut p_new = p_half;
        let mut i: usize = 0;
        while i < N
            invariant
                0 <= i <= N,
                half == scalar_half::<S>(),
                forall|k: int| 0 <= k < N ==> dh_dq_new[k] == grad_q(*ham, q_new, p_half, k),
                forall|k: int| i <= k < N ==> p_new[k] == p_half[k],
                forall|k: int|
                    0 <= k < i ==> p_new[k] == p_half[k].sub_spec(
                        dh_dq_new[k].mul_spec(dt).mul_spec(half),
                    ),
            decreases N - i,
        {
            p_new[i] = p_new[i].minus(dh_dq_new[i].times(dt).times(half));
            i = i + 1;
        }

        let next = PhaseSpacePoint::new(q_new, p_new);
        assert(is_half_kick(*ham, self.dt, *state, p_half));
        assert(is_phase_step(*ham, self.dt, *state, next));
        next
    }

    /// Integrate over multiple steps.
    ///
    /// The trajectory holds the initial point followed by one point per step.
    pub fn integrate<H: Hamiltonian<S, N>>(
        &self,
        ham: &H,
        initial: &PhaseSpacePoint<S, N>,
        steps: usize,
    ) -> (traj: Vec<PhaseSpacePoint<S, N>>)
        requires
            ham.well_formed(),
            steps < usize::MAX,
        ensures
            is_phase_trajectory(*ham, self.dt, *initial, steps as nat, traj@),
    {
        let mut traj: Vec<PhaseSpacePoint<S, N>> = Vec::with_capacity(steps + 1);
        traj.push(*initial);
        let mut state = *initial;
        let mut n: usize = 0;
        while n < steps
            invariant
                0 <= n <= steps,
                ham.well_formed(),
                traj@.len() == n + 1,
                traj@[0] == *initial,
                traj@[n as int] == state,
                forall|k: int|
                    0 <= k < n ==> #[trigger] is_phase_step(*ham, self.dt, traj@[k], traj@[k + 1]),
            decreases steps - n,
        {
            state = self.step(ham, &state);
            traj.push(state);
            n = n + 1;
        }
        traj
    }
}

// ── Poisson brackets ─────────────────────────────────────────────────

/// The phase-space function is defined everywhere and gives one value per point.
pub open spec fn pure_phase_fn<S, const N: usize, F: Fn(&[S; N], &[S; N]) -> S>(f: F) -> bool {
    &&& forall|q: [S; N], p: [S; N]| call_requires(f, (&q, &p))
    &&& forall|q: [S; N], p: [S; N], a: S, b: S|
        call_ensures(f, (&q, &p), a) && call_ensures(f, (&q, &p), b) ==> a == b
}

/// The value of a pure phase-space function at `(q, p)`.
pub open spec fn phase_fn_at<S, const N: usize, F: Fn(&[S; N], &[S; N]) -> S>(
    f: F,
    q: [S; N],
    p: [S; N],
) -> S {
    choose|r: S| call_ensures(f, (&q, &p), r)
}

fn eval_phase_fn<S, const N: usize, F: Fn(&[S; N], &[S; N]) -> S>(
    f: &F,
    q: &[S; N],
    p: &[S; N],
) -> (r: S)
    requires
        pure_phase_fn(*f),
    ensures
        r == phase_fn_at(*f, *q, *p),
{
    let r = f(q, p);
    assert(call_ensures(*f, (q, p), r));
    r
}

/// `∂f/∂qᵢ` by central differences.
pub open spec fn partial_q<S: Scalar, const N: usize, F: Fn(&[S; N], &[S; N]) -> S>(
    f: F,
    q: [S; N],
    p: [S; N],
    i: int,
) -> S {
    let h = difference_step::<S>();
    phase_fn_at(f, bumped(q, i, h), p).sub_spec(phase_fn_at(f, dipped(q, i, h), p)).div_spec(
        scalar_two::<S>().mul_spec(h),
    )
}

/// `∂f/∂pᵢ` by central differences.
pub open spec fn partial_p<S: Scalar, const N: usize, F: Fn(&[S; N], &[S; N]) -> S>(
    f: F,
    q: [S; N],
    p: [S; N],
    i: int,
) -> S {
    let h = difference_step::<S>();
    phase_fn_at(f, q, bumped(p, i, h)).sub_spec(phase_fn_at(f, q, dipped(p, i, h))).div_spec(
        scalar_two::<S>().mul_spec(h),
    )
}

/// `Σ (∂f/∂qᵢ)(∂g/∂pᵢ) − (∂f/∂pᵢ)(∂g/∂qᵢ)` over the first `k` coordinates,
/// accumulated from the left starting at zero.
pub open spec fn bracket_sum<
    S: Scalar,
    const N: usize,
    F: Fn(&[S; N], &[S; N]) -> S,
    G: Fn(&[S; N], &[S; N]) -> S,
>(f: F, g: G, q: [S; N], p: [S; N], k: nat) -> S
    decreases k,
{
    if k == 0 {
        S::zero_spec()
    } else {
        let i = k - 1;
        bracket_sum(f, g, q, p, (k - 1) as nat).add_spec(
            partial_q(f, q, p, i).mul_spec(partial_p(g, q, p, i)),
        ).sub_spec(partial_p(f, q, p, i).mul_spec(partial_q(g, q, p, i)))
    }
}

/// The bracket sums every coordinate: it starts at zero, and the value after
/// coordinate `k` is the value after the coordinates before it plus
/// coordinate `k`'s term `(∂f/∂qₖ)(∂g/∂pₖ) − (∂f/∂pₖ)(∂g/∂qₖ)`, so no
/// coordinate's term is dropped or replaced by a later one.
pub proof fn law_bracket_adds_every_coordinate<
    S: Scalar,
    const N: usize,
    F: Fn(&[S; N], &[S; N]) -> S,
    G: Fn(&[S; N], &[S; N]) -> S,
>(f: F, g: G, q: [S; N], p: [S; N], k: nat)
    requires
        k < N,
    ensures
        bracket_sum(f, g, q, p, 0) == S::zero_spec(),
        bracket_sum(f, g, q, p, k + 1) == bracket_sum(f, g, q, p, k).add_spec(
            partial_q(f, q, p, k as int).mul_spec(partial_p(g, q, p, k as int)),
        ).sub_spec(partial_p(f, q, p, k as int).mul_spec(partial_q(g, q, p, k as int))),
{
}

/// Compute the Poisson bracket {f, g} numerically.
///
/// {f, g} = Σᵢ (∂f/∂qᵢ)(∂g/∂pᵢ) − (∂f/∂pᵢ)(∂g/∂qᵢ)
///
/// f and g are represented as functions of (q, p).
pub fn poisson_bracket<S, F, G, const N: usize>(f: &F, g: &G, q: &[S; N], p: &[S; N]) -> (r: S) where
    S: Scalar,
    F: Fn(&[S; N], &[S; N]) -> S,
    G: Fn(&[S; N], &[S; N]) -> S,

    requires
        pure_phase_fn(*f),
        pure_phase_fn(*g),
    ensures
        r == bracket_sum(*f, *g, *q, *p, N as nat),
{
    let h = step_width::<S>();
    let two = two::<S>();
    let mut bracket = S::zero();
    let mut i: usize = 0;
    while i < N
        invariant
            0 <= i <= N,
            pure_phase_fn(*f),
            pure_phase_fn(*g),
            h == difference_step::<S>(),
            two == scalar_two::<S>(),
            bracket == bracket_sum(*f, *g, *q, *p, i as nat),
        decreases N - i,
    {
        // ∂f/∂qᵢ
        let q_plus = bump(q, i, h);
        let q_minus = dip(q, i, h);
        let df_dqi = eval_phase_fn(f, &q_plus, p).minus(eval_phase_fn(f, &q_minus, p)).over(
            two.times(h),
        );

        // ∂g/∂pᵢ
        let p_plus = bump(p, i, h);
        let p_minus = dip(p, i, h);
        let dg_dpi = eval_phase_fn(g, q, &p_plus).minus(eval_phase_fn(g, q, &p_minus)).over(
            two.times(h),
        );

        // ∂f/∂pᵢ
        let df_dpi = eval_phase_fn(f, q, &p_plus).minus(eval_phase_fn(f, q, &p_minus)).over(
            two.times(h),
        );

        // ∂g/∂qᵢ
        let dg_dqi = eval_phase_fn(g, &q_plus, p).minus(eval_phase_fn(g, &q_minus, p)).over(
            two.times(h),
        );

        bracket = bracket.plus(df_dqi.times(dg_dpi)).minus(df_dpi.times(dg_dqi));
        i = i + 1;
    }
    bracket
}

// ── Liouville's theorem ──────────────────────────────────────────────

/// The running minimum of `v[0..k]`: a value replaces it when strictly smaller.
pub open spec fn running_min<S: Scalar>(v: Seq<S>, k: nat) -> S
    decreases k,
{
    if k <= 1 {
        v[0]
    } else {
        let m = running_min(v, (k - 1) as nat);
        if v[k - 1].lt_spec(m) {
            v[k - 1]
        } else {
            m
        }
    }
}

/// The running maximum of `v[0..k]`: a value replaces it when strictly larger.
pub open spec fn running_max<S: Scalar>(v: Seq<S>, k: nat) -> S
    decreases k,
{
    if k <= 1 {
        v[0]
    } else {
        let m = running_max(v, (k - 1) as nat);
        if m.lt_spec(v[k - 1]) {
            v[k - 1]
        } else {
            m
        }
    }
}

/// Over values that `<` orders strictly (irreflexive and transitive, as float
/// `<` is, NaN included), the running minimum of the first `k` values is one
/// of them and none of them is below it; the running maximum is one of them
/// and none of them is above it.
pub proof fn law_running_extremes<S: Scalar>(v: Seq<S>, k: nat)
    requires
        1 <= k <= v.len(),
        forall|a: int| 0 <= a < v.len() ==> !#[trigger] v[a].lt_spec(v[a]),
        forall|a: int, b: int, c: int|
            0 <= a < v.len() && 0 <= b < v.len() && 0 <= c < v.len() && #[trigger] v[a].lt_spec(v[b])
                && #[trigger] v[b].lt_spec(v[c]) ==> v[a].lt_spec(v[c]),
    ensures
        exists|a: int| 0 <= a < k && running_min(v, k) == v[a],
        exists|b: int| 0 <= b < k && running_max(v, k) == v[b],
        forall|j: int| 0 <= j < k ==> !#[trigger] v[j].lt_spec(running_min(v, k)),
        forall|j: int| 0 <= j < k ==> !running_max(v, k).lt_spec(#[trigger] v[j]),
    decreases k,
{
    if k == 1 {
        assert(running_min(v, k) == v[0]);
        assert(running_max(v, k) == v[0]);
    } else {
        law_running_extremes(v, (k - 1) as nat);
        let m = running_min(v, (k - 1) as nat);
        let big = running_max(v, (k - 1) as nat);
        let a = choose|a: int| 0 <= a < k - 1 && m == v[a];
        let b = choose|b: int| 0 <= b < k - 1 && big == v[b];
        let x = v[k - 1];
        assert forall|j: int| 0 <= j < k implies !#[trigger] v[j].lt_spec(running_min(v, k)) by {
            if j < k - 1 {
                assert(!v[j].lt_spec(v[a]));
                if x.lt_spec(m) && v[j].lt_spec(x) {
                    assert(v[j].lt_spec(v[a]));
                }
            } else {
                assert(!x.lt_spec(x));
            }
        }
        assert forall|j: int| 0 <= j < k implies !running_max(v, k).lt_spec(#[trigger] v[j]) by {
            if j < k - 1 {
                assert(!v[b].lt_spec(v[j]));
                if big.lt_spec(x) && x.lt_spec(v[j]) {
                    assert(v[b].lt_spec(v[j]));
                }
            } else {
                assert(!x.lt_spec(x));
            }
        }
        if x.lt_spec(m) {
            assert(running_min(v, k) == v[k - 1]);
        } else {
            assert(running_min(v, k) == v[a]);
        }
        if big.lt_spec(x) {
            assert(running_max(v, k) == v[k - 1]);
        } else {
            assert(running_max(v, k) == v[b]);
        }
    }
}

/// Over values that `<` orders strictly, the extent of a nonempty series is
/// its largest value minus its smallest: `v[b] − v[a]` for a value `v[a]` that
/// no value is below and a value `v[b]` that no value is above.
pub proof fn law_extent_is_range<S: Scalar>(v: Seq<S>)
    requires
        v.len() > 0,
        forall|a: int| 0 <= a < v.len() ==> !#[trigger] v[a].lt_spec(v[a]),
        forall|a: int, b: int, c: int|
            0 <= a < v.len() && 0 <= b < v.len() && 0 <= c < v.len() && #[trigger] v[a].lt_spec(v[b])
                && #[trigger] v[b].lt_spec(v[c]) ==> v[a].lt_spec(v[c]),
    ensures
        exists|a: int, b: int|
            {
                &&& 0 <= a < v.len()
                &&& 0 <= b < v.len()
                &&& #[trigger] extent(v) == v[b].sub_spec(v[a])
                &&& forall|j: int| 0 <= j < v.len() ==> !#[trigger] v[j].lt_spec(v[a])
                &&& forall|j: int| 0 <= j < v.len() ==> !v[b].lt_spec(#[trigger] v[j])
            },
{
    law_running_extremes(v, v.len());
    let a = choose|a: int| 0 <= a < v.len() && running_min(v, v.len()) == v[a];
    let b = choose|b: int| 0 <= b < v.len() && running_max(v, v.len()) == v[b];
    assert(extent(v) == v[b].sub_spec(v[a]));
}

/// Coordinate `i` of each point.
pub open spec fn q_coordinates<S: Scalar, const N: usize>(
    points: Seq<PhaseSpacePoint<S, N>>,
    i: int,
) -> Seq<S> {
    points.map_values(|pt: PhaseSpacePoint<S, N>| pt.q[i])
}

/// Momentum `i` of each point.
pub open spec fn p_coordinates<S: Scalar, const N: usize>(
    points: Seq<PhaseSpacePoint<S, N>>,
    i: int,
) -> Seq<S> {
    points.map_values(|pt: PhaseSpacePoint<S, N>| pt.p[i])
}

/// The width `max − min` of a series of values.
pub open spec fn extent<S: Scalar>(v: Seq<S>) -> S {
    running_max(v, v.len()).sub_spec(running_min(v, v.len()))
}

/// The product of the bounding-box extents in the first `k` `(qᵢ, pᵢ)` directions,
/// multiplied from the left starting at one.
pub open spec fn box_volume<S: Scalar, const N: usize>(
    points: Seq<PhaseSpacePoint<S, N>>,
    k: nat,
) -> S
    decreases k,
{
    if k == 0 {
        S::one_spec()
    } else {
        let i = k - 1;
        box_volume(points, (k - 1) as nat).mul_spec(extent(q_coordinates(points, i))).mul_spec(
            extent(p_coordinates(points, i)),
        )
    }
}

/// The bounding-box volume of a cloud of points (zero for no points).
pub open spec fn cloud_volume<S: Scalar, const N: usize>(points: Seq<PhaseSpacePoint<S, N>>) -> S {
    if points.len() == 0 {
        S::zero_spec()
    } else {
        box_volume(points, N as nat)
    }
}

fn extent_of<S: Scalar>(v: &Vec<S>) -> (r: S)
    requires
        v@.len() > 0,
    ensures
        r == extent(v@),
{
    let mut lo = v[0];
    let mut hi = v[0];
    let mut k: usize = 1;
    while k < v.len()
        invariant
            1 <= k <= v@.len(),
            lo == running_min(v@, k as nat),
            hi == running_max(v@, k as nat),
        decreases v@.len() - k,
    {
        if v[k].lt(lo) {
            lo = v[k];
        }
        if hi.lt(v[k]) {
            hi = v[k];
        }
        k = k + 1;
    }
    hi.minus(lo)
}

/// Estimate the phase space volume of a cloud of points.
///
/// Uses a simple bounding-box method (for exact verification, use
/// the Jacobian of the symplectic map).
pub fn phase_space_volume<S: Scalar, const N: usize>(points: &[PhaseSpacePoint<S, N>]) -> (r: S)
    ensures
        r == cloud_volume(points@),
{
    if points.len() == 0 {
        return S::zero();
    }
    // Volume ≈ product of ranges in each (qᵢ, pᵢ) direction
    let mut volume = S::one();
    let mut i: usize = 0;
    while i < N
        invariant
            0 <= i <= N,
            points@.len() > 0,
            volume == box_volume(points@, i as nat),
        decreases N - i,
    {
        let mut qs: Vec<S> = Vec::new();
        let mut ps: Vec<S> = Vec::new();
        let mut k: usize = 0;
        while k < points.len()
            invariant
                0 <= k <= points@.len(),
                i < N,
                qs@ == q_coordinates(points@, i as int).take(k as int),
                ps@ == p_coordinates(points@, i as int).take(k as int),
            decreases points@.len() - k,
        {
            qs.push(points[k].q[i]);
            ps.push(points[k].p[i]);
            assert(qs@ =~= q_coordinates(points@, i as int).take(k + 1));
            assert(ps@ =~= p_coordinates(points@, i as int).take(k + 1));
            k = k + 1;
        }
        assert(qs@ =~= q_coordinates(points@, i as int));
        assert(ps@ =~= p_coordinates(points@, i as int));
        volume = volume.times(extent_of(&qs)).times(extent_of(&ps));
        i = i + 1;
    }
    volume
}

/// Relative change `|v₁ − v₀| / |v₀|` is within `tolerance`, or `v₀` is zero.
pub open spec fn volume_preserved<S: Scalar>(v0: S, v1: S, tolerance: S) -> bool {
    v0.is_zero_spec() || v1.sub_spec(v0).abs_spec().div_spec(v0.abs_spec()).lt_spec(tolerance)
}

/// Verify Liouville's theorem: phase space volume should be approximately
/// preserved under Hamiltonian flow.
pub fn verify_liouville<S: Scalar, const N: usize>(
    initial: &[PhaseSpacePoint<S, N>],
    evolved: &[PhaseSpacePoint<S, N>],
    tolerance: S,
) -> (r: bool)
    ensures
        r == volume_preserved(cloud_volume(initial@), cloud_volume(evolved@), tolerance),
{
    let v0 = phase_space_volume(initial);
    let v1 = phase_space_volume(evolved);
    if v0.is_zero() {
        return true;
    }
    v1.minus(v0).abs().over(v0.abs()).lt(tolerance)
}

// ── Poincaré recurrence ──────────────────────────────────────────────

/// Point `k` of the trajectory lies within `tolerance` of the initial point.
pub open spec fn returns_at<S: Scalar, const N: usize>(
    trajectory: Seq<PhaseSpacePoint<S, N>>,
    tolerance: S,
    k: int,
) -> bool {
    phase_distance(trajectory[k], trajectory[0]).lt_spec(tolerance)
}

/// Find the first near-recurrence in a trajectory: a later point close
/// to the initial point.
///
/// Returns the first index after the initial point, and at or after
/// `min_step`, whose point lies within `tolerance` of the initial one, if any.
pub fn find_recurrence<S: Scalar, const N: usize>(
    trajectory: &[PhaseSpacePoint<S, N>],
    tolerance: S,
    min_step: usize,
) -> (r: Option<usize>)
    ensures
        match r {
            Some(k) => {
                &&& 1 <= k
                &&& min_step <= k < trajectory@.len()
                &&& returns_at(trajectory@, tolerance, k as int)
                &&& forall|j: int|
                    1 <= j < k && min_step <= j ==> !#[trigger] returns_at(
                        trajectory@,
                        tolerance,
                        j,
                    )
            },
            None => forall|j: int|
                1 <= j < trajectory@.len() && min_step <= j ==> !#[trigger] returns_at(
                    trajectory@,
                    tolerance,
                    j,
                ),
        },
{
    if trajectory.len() == 0 {
        return None;
    }
    let initial = &trajectory[0];
    let mut k: usize = if min_step < 1 {
        1
    } else {
        min_step
    };
    while k < trajectory.len()
        invariant
            1 <= k,
            min_step <= k,
            trajectory@.len() > 0,
            *initial == trajectory@[0],
            forall|j: int|
                1 <= j < k && min_step <= j ==> !#[trigger] returns_at(trajectory@, tolerance, j),
        decreases trajectory@.len() - k,
    {
        if trajectory[k].distance(initial).lt(tolerance) {
            return Some(k);
        }
        k = k + 1;
    }
    None
}

} // verus!
