//! Lagrangian mechanics for agent dynamics.
//!
//! Implements the Euler–Lagrange equations:
//!
//! ```text
//! d/dt (∂L/∂q̇ᵢ) − ∂L/∂qᵢ = 0
//! ```
//!
//! where `L(q, q̇, t) = T(q̇) − V(q)` is the Lagrangian.
use crate::{
    bump, bumped, difference_step, dip, dipped, half, scalar_half, scalar_two, step_width, two,
    Scalar,
};
use vstd::prelude::*;

verus! {

/// State of an agent in N-dimensional configuration space.
#[derive(Clone, Copy, Debug, PartialEq)]
pub struct AgentState<S, const N: usize> {
    /// Generalised coordinates.
    pub q: [S; N],
    /// Generalised velocities.
    pub q_dot: [S; N],
}

impl<S: Scalar, const N: usize> AgentState<S, N> {
    pub fn new(q: [S; N], q_dot: [S; N]) -> (r: Self)
        ensures
            r.q == q,
            r.q_dot == q_dot,
    {
        AgentState { q, q_dot }
    }
}

/// A Lagrangian system defines kinetic and potential energy.
pub trait Lagrangian<S: Scalar, const N: usize> {
    /// The system can be evaluated (for instance, its potential is a pure function).
    spec fn well_formed(&self) -> bool;

    spec fn kinetic_spec(&self, state: AgentState<S, N>) -> S;

    spec fn potential_spec(&self, state: AgentState<S, N>) -> S;

    /// Kinetic energy `T(q, q̇)`.
    fn kinetic(&self, state: &AgentState<S, N>) -> (r: S)
        requires
            self.well_formed(),
        ensures
            r == self.kinetic_spec(*state),
    ;

    /// Potential energy `V(q)`.
    fn potential(&self, state: &AgentState<S, N>) -> (r: S)
        requires
            self.well_formed(),
        ensures
            r == self.potential_spec(*state),
    ;

    /// Full Lagrangian `L = T − V`.
    ///
    /// Every Lagrangian of this crate is `T − V`, so an implementation that
    /// overrides this method still returns the kinetic value minus the
    /// potential one.
    fn lagrangian(&self, state: &AgentState<S, N>) -> (r: S)
        requires
            self.well_formed(),
        ensures
            r == self.kinetic_spec(*state).sub_spec(self.potential_spec(*state)),
    {
        self.kinetic(state).minus(self.potential(state))
    }
}

/// The Lagrangian `T − V` of `lagrangian` at `state`.
pub open spec fn lagrangian_value<S: Scalar, const N: usize, L: Lagrangian<S, N>>(
    lagrangian: L,
    state: AgentState<S, N>,
) -> S {
    lagrangian.kinetic_spec(state).sub_spec(lagrangian.potential_spec(state))
}

/// `E = T + V` at `state`.
pub open spec fn energy_value<S: Scalar, const N: usize, L: Lagrangian<S, N>>(
    lagrangian: L,
    state: AgentState<S, N>,
) -> S {
    lagrangian.kinetic_spec(state).add_spec(lagrangian.potential_spec(state))
}

/// The potential is defined at every configuration and gives one value per configuration.
pub open spec fn pure_potential<S, const N: usize, V: Fn(&[S; N]) -> S>(v: V) -> bool {
    &&& forall|q: [S; N]| call_requires(v, (&q,))
    &&& forall|q: [S; N], a: S, b: S|
        call_ensures(v, (&q,), a) && call_ensures(v, (&q,), b) ==> a == b
}

/// The value of a pure potential at `q`.
pub open spec fn potential_at<S, const N: usize, V: Fn(&[S; N]) -> S>(v: V, q: [S; N]) -> S {
    choose|r: S| call_ensures(v, (&q,), r)
}

pub(crate) fn eval_potential<S, const N: usize, V: Fn(&[S; N]) -> S>(v: &V, q: &[S; N]) -> (r: S)
    requires
        pure_potential(*v),
    ensures
        r == potential_at(*v, *q),
{
    let r = v(q);
    assert(call_ensures(*v, (q,), r));
    r
}

/// `Σ v[k]²` over the first `k` entries, summed from the left starting at zero.
pub open spec fn sum_of_squares<S: Scalar>(v: Seq<S>, k: nat) -> S
    decreases k,
{
    if k == 0 {
        S::zero_spec()
    } else {
        sum_of_squares(v, (k - 1) as nat).add_spec(v[k - 1].mul_spec(v[k - 1]))
    }
}

pub(crate) fn squares_sum<S: Scalar, const N: usize>(v: &[S; N]) -> (r: S)
    ensures
        r == sum_of_squares(v@, N as nat),
{
    let mut acc = S::zero();
    let mut i: usize = 0;
    while i < N
        invariant
            0 <= i <= N,
            acc == sum_of_squares(v@, i as nat),
        decreases N - i,
    {
        acc = acc.plus(v[i].times(v[i]));
        i = i + 1;
    }
    acc
}

/// A simple mechanical Lagrangian: `T = ½ m q̇²` and `V(q)` is user-supplied.
#[verifier::reject_recursive_types(S)]
pub struct MechanicalLagrangian<S, V, const N: usize> where S: Scalar, V: Fn(&[S; N]) -> S {
    pub mass: S,
    pub potential_fn: V,
}

impl<S, V, const N: usize> Lagrangian<S, N> for MechanicalLagrangian<S, V, N> where
    S: Scalar,
    V: Fn(&[S; N]) -> S,
 {
    open spec fn well_formed(&self) -> bool {
        pure_potential(self.potential_fn)
    }

    open spec fn kinetic_spec(&self, state: AgentState<S, N>) -> S {
        scalar_half::<S>().mul_spec(self.mass).mul_spec(sum_of_squares(state.q_dot@, N as nat))
    }

    open spec fn potential_spec(&self, state: AgentState<S, N>) -> S {
        potential_at(self.potential_fn, state.q)
    }

    fn kinetic(&self, state: &AgentState<S, N>) -> (r: S) {
        let half = half::<S>();
        let sum = squares_sum(&state.q_dot);
        half.times(self.mass).times(sum)
    }

    fn potential(&self, state: &AgentState<S, N>) -> (r: S) {
        eval_potential(&self.potential_fn, &state.q)
    }

}

/// Errors that can arise during simulation.
#[derive(Debug, Clone, Copy, PartialEq, Eq)]
pub enum DynamicsError {
    StepSizeTooSmall,
    IntegrationDiverged,
}

impl DynamicsError {
    /// The human-readable description of the error.
    pub fn message(&self) -> (r: String)
        ensures
            r@ == match self {
                DynamicsError::StepSizeTooSmall => "step size too small"@,
                DynamicsError::IntegrationDiverged => "integration diverged"@,
            },
    {
        match self {
            DynamicsError::StepSizeTooSmall => String::from_str("step size too small"),
            DynamicsError::IntegrationDiverged => String::from_str("integration diverged"),
        }
    }
}

/// Numerical integrator for Euler–Lagrange dynamics.
///
/// Uses a symplectic Stormer–Verlet (leapfrog) scheme which preserves
/// energy much better than naive explicit Euler.
#[derive(Debug, Clone, Copy, PartialEq)]
pub struct SymplecticIntegrator<S: Scalar, const N: usize> {
    pub dt: S,
}

/// A mass the integrator accepts: finite and positive.
pub open spec fn valid_mass<S: Scalar>(mass: S) -> bool {
    mass.is_finite_spec() && !mass.le_spec(S::zero_spec())
}

/// The integrator's mass guard refuses exactly what is not finite or not
/// above zero: every finite mass strictly greater than zero is accepted,
/// however small.
pub proof fn law_every_positive_finite_mass_is_accepted<S: Scalar>(mass: S)
    ensures
        valid_mass(mass) <==> mass.is_finite_spec() && !mass.le_spec(S::zero_spec()),
{
}

/// The generalised force `−∂V/∂qᵢ` by central differences.
pub open spec fn force_component<S: Scalar, const N: usize, V: Fn(&[S; N]) -> S>(
    potential: V,
    q: [S; N],
    i: int,
) -> S {
    let h = difference_step::<S>();
    potential_at(potential, bumped(q, i, h)).sub_spec(
        potential_at(potential, dipped(q, i, h)),
    ).neg_spec().div_spec(scalar_two::<S>().mul_spec(h))
}

/// Velocity `v` after a half kick by force `f`: `v + f / m · dt · ½`.
pub open spec fn kicked<S: Scalar>(v: S, f: S, mass: S, dt: S) -> S {
    v.add_spec(f.div_spec(mass).mul_spec(dt).mul_spec(scalar_half::<S>()))
}

/// Velocity component `i` at the half step from `state`.
pub open spec fn half_step_velocity<S: Scalar, const N: usize, V: Fn(&[S; N]) -> S>(
    dt: S,
    mass: S,
    potential: V,
    state: AgentState<S, N>,
    i: int,
) -> S {
    kicked(state.q_dot[i], force_component(potential, state.q, i), mass, dt)
}

/// `next` is one Stormer–Verlet step from `state`.
pub open spec fn is_verlet_step<S: Scalar, const N: usize, V: Fn(&[S; N]) -> S>(
    dt: S,
    mass: S,
    potential: V,
    state: AgentState<S, N>,
    next: AgentState<S, N>,
) -> bool {
    forall|i: int|
        0 <= i < N ==> {
            &&& #[trigger] next.q[i] == state.q[i].add_spec(
                half_step_velocity(dt, mass, potential, state, i).mul_spec(dt),
            )
            &&& next.q_dot[i] == kicked(
                half_step_velocity(dt, mass, potential, state, i),
                force_component(potential, next.q, i),
                mass,
                dt,
            )
        }
}

/// `traj` starts at `initial` and follows `steps` Stormer–Verlet steps.
pub open spec fn is_verlet_trajectory<S: Scalar, const N: usize, V: Fn(&[S; N]) -> S>(
    dt: S,
    mass: S,
    potential: V,
    initial: AgentState<S, N>,
    steps: nat,
    traj: Seq<AgentState<S, N>>,
) -> bool {
    &&& traj.len() == steps + 1
    &&& traj[0] == initial
    &&& forall|k: int|
        0 <= k < steps ==> #[trigger] is_verlet_step(dt, mass, potential, traj[k], traj[k + 1])
}

/// A Stormer–Verlet step has exactly one result: the step is a function of the state.
pub proof fn lemma_verlet_step_unique<S: Scalar, const N: usize, V: Fn(&[S; N]) -> S>(
    dt: S,
    mass: S,
    potential: V,
    state: AgentState<S, N>,
    a: AgentState<S, N>,
    b: AgentState<S, N>,
)
    requires
        is_verlet_step(dt, mass, potential, state, a),
        is_verlet_step(dt, mass, potential, state, b),
    ensures
        a == b,
{
    broadcast use vstd::array::group_array_axioms;

    assert forall|i: int| 0 <= i < N implies a.q[i] == b.q[i] by {
        assert(a.q[i] == state.q[i].add_spec(
            half_step_velocity(dt, mass, potential, state, i).mul_spec(dt),
        ));
        assert(b.q[i] == state.q[i].add_spec(
            half_step_velocity(dt, mass, potential, state, i).mul_spec(dt),
        ));
    }
    assert(a.q =~= b.q);
    assert forall|i: int| 0 <= i < N implies a.q_dot[i] == b.q_dot[i] by {
        assert(a.q[i] == state.q[i].add_spec(
            half_step_velocity(dt, mass, potential, state, i).mul_spec(dt),
        ));
    }
    assert(a.q_dot =~= b.q_dot);
}

/// Two trajectories of the same length from the same state are equal:
/// integration is deterministic.
pub proof fn lemma_verlet_trajectory_unique<S: Scalar, const N: usize, V: Fn(&[S; N]) -> S>(
    dt: S,
    mass: S,
    potential: V,
    initial: AgentState<S, N>,
    steps: nat,
    a: Seq<AgentState<S, N>>,
    b: Seq<AgentState<S, N>>,
)
    requires
        is_verlet_trajectory(dt, mass, potential, initial, steps, a),
        is_verlet_trajectory(dt, mass, potential, initial, steps, b),
    ensures
        a == b,
{
    assert forall|k: int| 0 <= k <= steps implies a[k] == b[k] by {
        lemma_verlet_prefix_equal(dt, mass, potential, initial, steps, a, b, k as nat);
    }
    assert(a =~= b);
}

proof fn lemma_verlet_prefix_equal<S: Scalar, const N: usize, V: Fn(&[S; N]) -> S>(
    dt: S,
    mass: S,
    potential: V,
    initial: AgentState<S, N>,
    steps: nat,
    a: Seq<AgentState<S, N>>,
    b: Seq<AgentState<S, N>>,
    k: nat,
)
    requires
        is_verlet_trajectory(dt, mass, potential, initial, steps, a),
        is_verlet_trajectory(dt, mass, potential, initial, steps, b),
        k <= steps,
    ensures
        a[k as int] == b[k as int],
    decreases k,
{
    if k > 0 {
        lemma_verlet_prefix_equal(dt, mass, potential, initial, steps, a, b, (k - 1) as nat);
        let j = k - 1;
        assert(is_verlet_step(dt, mass, potential, a[j], a[j + 1]));
        assert(is_verlet_step(dt, mass, potential, b[j], b[j + 1]));
        lemma_verlet_step_unique(dt, mass, potential, a[j], a[j + 1], b[j + 1]);
    }
}

/// Integrating `n` steps and then `m` more from the last state gives the
/// trajectory of `n + m` steps.
pub proof fn lemma_verlet_trajectory_concat<S: Scalar, const N: usize, V: Fn(&[S; N]) -> S>(
    dt: S,
    mass: S,
    potential: V,
    initial: AgentState<S, N>,
    n: nat,
    m: nat,
    first: Seq<AgentState<S, N>>,
    second: Seq<AgentState<S, N>>,
)
    requires
        is_verlet_trajectory(dt, mass, potential, initial, n, first),
        is_verlet_trajectory(dt, mass, potential, first.last(), m, second),
    ensures
        is_verlet_trajectory(dt, mass, potential, initial, n + m, first + second.skip(1)),
{
    let whole = first + second.skip(1);
    assert forall|k: int| 0 <= k < n + m implies #[trigger] is_verlet_step(
        dt,
        mass,
        potential,
        whole[k],
        whole[k + 1],
    ) by {
        if k < n {
            assert(whole[k] == first[k]);
            if k + 1 < n + 1 {
                assert(whole[k + 1] == first[k + 1]);
            }
            assert(is_verlet_step(dt, mass, potential, first[k], first[k + 1]));
        } else {
            let j = k - n;
            assert(whole[k] == second[j]);
            assert(whole[k + 1] == second[j + 1]);
            assert(is_verlet_step(dt, mass, potential, second[j], second[j + 1]));
        }
    }
}

impl<S: Scalar, const N: usize> SymplecticIntegrator<S, N> {
    /// A positive step size gives an integrator; any other is refused.
    pub fn new(dt: S) -> (r: Result<Self, DynamicsError>)
        ensures
            match r {
                Ok(integrator) => !dt.le_spec(S::zero_spec()) && integrator.dt == dt,
                Err(e) => dt.le_spec(S::zero_spec()) && e == DynamicsError::StepSizeTooSmall,
            },
    {
        if dt.le(S::zero()) {
            return Err(DynamicsError::StepSizeTooSmall);
        }
        Ok(SymplecticIntegrator { dt })
    }

    /// Compute the generalised force `Fᵢ = −∂V/∂qᵢ` via central differences.
    pub fn generalised_force<V: Fn(&[S; N]) -> S>(&self, potential: &V, q: &[S; N]) -> (force: [S;
        N])
        requires
            pure_potential(*potential),
        ensures
            forall|i: int| 0 <= i < N ==> force[i] == force_component(*potential, *q, i),
    {
        let h = step_width::<S>();
        let two = two::<S>();
        let mut force = [S::zero();N];
        let mut i: usize = 0;
        while i < N
            invariant
                0 <= i <= N,
                h == difference_step::<S>(),
                two == scalar_two::<S>(),
                pure_potential(*potential),
                forall|k: int| 0 <= k < i ==> force[k] == force_component(*potential, *q, k),
            decreases N - i,
        {
            let q_plus = bump(q, i, h);
            let q_minus = dip(q, i, h);
            let above = eval_potential(potential, &q_plus);
            let below = eval_potential(potential, &q_minus);
            force[i] = above.minus(below).negate().over(two.times(h));
            i = i + 1;
        }
        force
    }

    /// Perform one Stormer–Verlet step for a mechanical system.
    ///
    /// `mass` must be positive and finite; any other mass is refused.
    pub fn step<V: Fn(&[S; N]) -> S>(&self, mass: S, potential: &V, state: &AgentState<S, N>) -> (r:
        Result<AgentState<S, N>, DynamicsError>)
        requires
            pure_potential(*potential),
        ensures
            match r {
                Ok(next) => valid_mass(mass) && is_verlet_step(
                    self.dt,
                    mass,
                    *potential,
                    *state,
                    next,
                ),
                Err(e) => !valid_mass(mass) && e == DynamicsError::IntegrationDiverged,
            },
            r is Ok <==> mass.is_finite_spec() && !mass.le_spec(S::zero_spec()),
    {
        if !mass.is_finite() || mass.le(S::zero()) {
            return Err(DynamicsError::IntegrationDiverged);
        }
        let half = half::<S>();
        let dt = self.dt;

        // Half-step velocity
        let f = self.generalised_force(potential, &state.q);
        let mut q_dot_half = [S::zero();N];
        let mut i: usize = 0;
        while i < N
            invariant
                0 <= i <= N,
                half == scalar_half::<S>(),
                dt == self.dt,
                forall|k: int| 0 <= k < N ==> f[k] == force_component(*potential, state.q, k),
                forall|k: int|
                    0 <= k < i ==> q_dot_half[k] == half_step_velocity(
                        dt,
                        mass,
                        *potential,
                        *state,
                        k,
                    ),
            decreases N - i,
        {
            q_dot_half[i] = state.q_dot[i].plus(f[i].over(mass).times(dt).times(half));
            i = i + 1;
        }

        // Full-step position
        let mut q_new = [S::zero();N];
        let mut i: usize = 0;
        while i < N
            invariant
                0 <= i <= N,
                forall|k: int|
                    0 <= k < N ==> q_dot_half[k] == half_step_velocity(
                        dt,
                        mass,
                        *potential,
                        *state,
                        k,
                    ),
                forall|k: int|
                    0 <= k < i ==> q_new[k] == state.q[k].add_spec(q_dot_half[k].mul_spec(dt)),
            decreases N - i,
        {
            q_new[i] = state.q[i].plus(q_dot_half[i].times(dt));
            i = i + 1;
        }

        // Half-step velocity with new force
        let f_new = self.generalised_force(potential, &q_new);
        let mut q_dot_new = [S::zero();N];
        let mut i: usize = 0;
        while i < N
            invariant
                0 <= i <= N,
                half == scalar_half::<S>(),
                forall|k: int| 0 <= k < N ==> f_new[k] == force_component(*potential, q_new, k),
                forall|k: int|
                    0 <= k < i ==> q_dot_new[k] == kicked(q_dot_half[k], f_new[k], mass, dt),
            decreases N - i,
        {
            q_dot_new[i] = q_dot_half[i].plus(f_new[i].over(mass).times(dt).times(half));
            i = i + 1;
        }

        let next = AgentState::new(q_new, q_dot_new);
        assert(is_verlet_step(self.dt, mass, *potential, *state, next));
        Ok(next)
    }

    /// Integrate over `steps` steps and return the trajectory.
    ///
    /// The trajectory holds the initial state followed by one state per step.
    /// With at least one step, a mass that is not positive and finite is refused.
    pub fn integrate<V: Fn(&[S; N]) -> S>(
        &self,
        mass: S,
        potential: &V,
        initial: &AgentState<S, N>,
        steps: usize,
    ) -> (r: Result<Vec<AgentState<S, N>>, DynamicsError>)
        requires
            pure_potential(*potential),
            steps < usize::MAX,
        ensures
            match r {
                Ok(traj) => (steps == 0 || valid_mass(mass)) && is_verlet_trajectory(
                    self.dt,
                    mass,
                    *potential,
                    *initial,
                    steps as nat,
                    traj@,
                ),
                Err(e) => steps > 0 && !valid_mass(mass) && e == DynamicsError::IntegrationDiverged,
            },
            r is Ok <==> steps == 0 || (mass.is_finite_spec() && !mass.le_spec(S::zero_spec())),
    {
        let mut traj: Vec<AgentState<S, N>> = Vec::with_capacity(steps + 1);
        let mut state = *initial;
        traj.push(state);
        let mut n: usize = 0;
        while n < steps
            invariant
                0 <= n <= steps,
                pure_potential(*potential),
                traj@.len() == n + 1,
                traj@[0] == *initial,
                traj@[n as int] == state,
                n > 0 ==> valid_mass(mass),
                forall|k: int|
                    0 <= k < n ==> #[trigger] is_verlet_step(
                        self.dt,
                        mass,
                        *potential,
                        traj@[k],
                        traj@[k + 1],
                    ),
            decreases steps - n,
        {
            state = self.step(mass, potential, &state)?;
            traj.push(state);
            n = n + 1;
        }
        Ok(traj)
    }
}

/// Total mechanical energy of a state under a given Lagrangian.
pub fn total_energy<S: Scalar, const N: usize, L: Lagrangian<S, N>>(
    lagrangian: &L,
    state: &AgentState<S, N>,
) -> (e: S)
    requires
        lagrangian.well_formed(),
    ensures
        e == energy_value(*lagrangian, *state),
{
    lagrangian.kinetic(state).plus(lagrangian.potential(state))
}

} // verus!
