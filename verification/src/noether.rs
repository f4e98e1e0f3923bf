//! Noether's theorem — symmetry implies conservation.
//!
//! For every continuous symmetry of the action there exists a conserved
//! quantity.  This module provides tools to:
//!
//! 1. Define symmetry transformations.
//! 2. Numerically test whether a Lagrangian is invariant.
//! 3. Compute the associated conserved Noether charge.
use crate::lagrangian::{lagrangian_value, potential_at, AgentState, Lagrangian, MechanicalLagrangian};
use crate::{cosine_sign_fits, sine_sign_fits, Scalar};
use vstd::prelude::*;

verus! {

/// A continuous one-parameter symmetry transformation `q ↦ q'(q, ε)`.
///
/// The user supplies the transformed coordinates and (optionally) velocities.
pub trait Symmetry<S: Scalar, const N: usize> {
    /// The symmetry's parameters fit the configuration space.
    spec fn well_formed(&self) -> bool;

    /// `image` is a state that the transformation with parameter `epsilon` can
    /// give for `state`.
    spec fn transforms_to(&self, state: AgentState<S, N>, epsilon: S, image: AgentState<S, N>) -> bool;

    spec fn generator_spec(&self, state: AgentState<S, N>) -> [S; N];

    spec fn name_spec(&self) -> &'static str;

    /// The surface term `F` at `state`, for a Lagrangian whose value at
    /// `state` is `lagrangian`.
    spec fn surface_spec(&self, state: AgentState<S, N>, lagrangian: S) -> S;

    /// Apply the transformation with parameter `epsilon`.
    fn transform(&self, state: &AgentState<S, N>, epsilon: S) -> (r: AgentState<S, N>)
        requires
            self.well_formed(),
        ensures
            self.transforms_to(*state, epsilon, r),
    ;

    /// Infinitesimal generator `δqᵢ = ∂q'/∂ε |_{ε=0}`.
    fn generator_q(&self, state: &AgentState<S, N>) -> (r: [S; N])
        requires
            self.well_formed(),
        ensures
            r == self.generator_spec(*state),
    ;

    /// Name of the symmetry for diagnostics.
    fn name(&self) -> (r: &'static str)
        ensures
            r == self.name_spec(),
    ;

    /// Surface term `F` such that the Lagrangian changes by a total derivative
    /// `δL = ε dF/dt` under the symmetry.
    ///
    /// For internal symmetries (translation, rotation, ...) `δL = 0` and this
    /// returns zero. For time translation `F = L`, so the full conserved
    /// Noether charge becomes `Σ pᵢ δqᵢ − F = H`, i.e. the energy.
    fn surface_term<L: Lagrangian<S, N>>(&self, lagrangian: &L, state: &AgentState<S, N>) -> (r: S)
        requires
            lagrangian.well_formed(),
        ensures
            r == self.surface_spec(*state, lagrangian_value(*lagrangian, *state)),
    ;
}

/// `state` with coordinate `axis` shifted by `epsilon`.
pub open spec fn translated<S: Scalar, const N: usize>(
    state: AgentState<S, N>,
    axis: int,
    epsilon: S,
) -> AgentState<S, N> {
    AgentState {
        q: vstd::array::spec_array_update(state.q, axis, state.q[axis].add_spec(epsilon)),
        q_dot: state.q_dot,
    }
}

/// Spatial translation symmetry along axis `axis`.
pub struct TranslationSymmetry<const N: usize> {
    pub axis: usize,
}

impl<S: Scalar, const N: usize> Symmetry<S, N> for TranslationSymmetry<N> {
    open spec fn well_formed(&self) -> bool {
        self.axis < N
    }

    open spec fn transforms_to(
        &self,
        state: AgentState<S, N>,
        epsilon: S,
        image: AgentState<S, N>,
    ) -> bool {
        image == translated(state, self.axis as int, epsilon)
    }

    open spec fn generator_spec(&self, state: AgentState<S, N>) -> [S; N] {
        vstd::array::spec_array_update(
            vstd::array::spec_array_fill_for_copy_type::<S, N>(S::zero_spec()),
            self.axis as int,
            S::one_spec(),
        )
    }

    open spec fn name_spec(&self) -> &'static str {
        "translation"
    }

    open spec fn surface_spec(&self, state: AgentState<S, N>, lagrangian: S) -> S {
        S::zero_spec()
    }

    fn transform(&self, state: &AgentState<S, N>, epsilon: S) -> (r: AgentState<S, N>) {
        let mut q = state.q;
        q[self.axis] = q[self.axis].plus(epsilon);
        proof {
            broadcast use vstd::array::group_array_axioms;

            assert(q =~= translated(*state, self.axis as int, epsilon).q);
        }
        AgentState::new(q, state.q_dot)
    }

    fn generator_q(&self, state: &AgentState<S, N>) -> (r: [S; N]) {
        let mut gen = [S::zero();N];
        gen[self.axis] = S::one();
        proof {
            broadcast use vstd::array::group_array_axioms;

            assert(gen =~= self.generator_spec(*state));
        }
        gen
    }

    fn name(&self) -> (r: &'static str) {
        "translation"
    }

    fn surface_term<L: Lagrangian<S, N>>(&self, lagrangian: &L, state: &AgentState<S, N>) -> (r:
        S) {
        S::zero()
    }
}

/// Time-translation symmetry `t ↦ t + ε`.
///
/// Implemented by evolving the state forward by `ε` using the equations of
/// motion.  For autonomous systems this is always a symmetry.
pub struct TimeTranslationSymmetry;

impl<S: Scalar, const N: usize> Symmetry<S, N> for TimeTranslationSymmetry {
    open spec fn well_formed(&self) -> bool {
        true
    }

    open spec fn transforms_to(
        &self,
        state: AgentState<S, N>,
        epsilon: S,
        image: AgentState<S, N>,
    ) -> bool {
        image == AgentState { q: drifted(state, epsilon), q_dot: state.q_dot }
    }

    open spec fn generator_spec(&self, state: AgentState<S, N>) -> [S; N] {
        state.q_dot
    }

    open spec fn name_spec(&self) -> &'static str {
        "time_translation"
    }

    open spec fn surface_spec(&self, state: AgentState<S, N>, lagrangian: S) -> S {
        lagrangian
    }

    fn transform(&self, state: &AgentState<S, N>, epsilon: S) -> (r: AgentState<S, N>) {
        // First-order approximation: q(t+ε) ≈ q + ε q̇.
        // We keep q̇ unchanged because the trait does not have access to the
        // equations of motion needed to compute q̈; this is sufficient for the
        // generator and the surface-term correction below.
        let mut q_new = [S::zero();N];
        let mut i: usize = 0;
        while i < N
            invariant
                0 <= i <= N,
                forall|k: int|
                    0 <= k < i ==> q_new[k] == state.q[k].add_spec(
                        epsilon.mul_spec(state.q_dot[k]),
                    ),
            decreases N - i,
        {
            q_new[i] = state.q[i].plus(epsilon.times(state.q_dot[i]));
            i = i + 1;
        }
        proof {
            broadcast use vstd::array::group_array_axioms;

            assert(is_drifted(q_new, *state, epsilon));
            assert(q_new =~= drifted(*state, epsilon));
        }
        AgentState::new(q_new, state.q_dot)
    }

    fn generator_q(&self, state: &AgentState<S, N>) -> (r: [S; N]) {
        state.q_dot
    }

    fn name(&self) -> (r: &'static str) {
        "time_translation"
    }

    fn surface_term<L: Lagrangian<S, N>>(&self, lagrangian: &L, state: &AgentState<S, N>) -> (r:
        S) {
        // For time translation δL = ε dL/dt, so F = L and the conserved
        // Noether charge is Q = Σ pᵢ δqᵢ − L = H = T + V.
        lagrangian.lagrangian(state)
    }
}

/// Rotation symmetry in the `(i, j)` plane by angle `ε`.
pub struct RotationSymmetry {
    pub i: usize,
    pub j: usize,
}

/// `v` rotated in the `(i, j)` plane by the angle whose cosine is `c` and sine is `s`;
/// component `i` is written first, then component `j`.
pub open spec fn rotated<S: Scalar, const N: usize>(v: [S; N], i: int, j: int, c: S, s: S) -> [S;
    N] {
    let vi = v[i];
    let vj = v[j];
    vstd::array::spec_array_update(
        vstd::array::spec_array_update(v, i, c.mul_spec(vi).sub_spec(s.mul_spec(vj))),
        j,
        s.mul_spec(vi).add_spec(c.mul_spec(vj)),
    )
}

fn rotate<S: Scalar, const N: usize>(v: &[S; N], i: usize, j: usize, c: S, s: S) -> (r: [S; N])
    requires
        i < N,
        j < N,
    ensures
        r == rotated(*v, i as int, j as int, c, s),
{
    let mut r = *v;
    let vi = r[i];
    let vj = r[j];
    r[i] = c.times(vi).minus(s.times(vj));
    r[j] = s.times(vi).plus(c.times(vj));
    proof {
        broadcast use vstd::array::group_array_axioms;

        assert(r =~= rotated(*v, i as int, j as int, c, s));
    }
    r
}

/// `state` with positions and velocities both rotated in the `(i, j)` plane by
/// the angle whose cosine is `c` and sine is `s`.
pub open spec fn rotated_state<S: Scalar, const N: usize>(
    state: AgentState<S, N>,
    i: int,
    j: int,
    c: S,
    s: S,
) -> AgentState<S, N> {
    AgentState { q: rotated(state.q, i, j, c, s), q_dot: rotated(state.q_dot, i, j, c, s) }
}

impl RotationSymmetry {
    /// Rotate `state` in the `(i, j)` plane by the angle whose cosine is `cos`
    /// and sine is `sin`.
    pub fn turn<S: Scalar, const N: usize>(&self, state: &AgentState<S, N>, cos: S, sin: S) -> (r:
        AgentState<S, N>)
        requires
            self.i < N,
            self.j < N,
        ensures
            r == rotated_state(*state, self.i as int, self.j as int, cos, sin),
    {
        let q = rotate(&state.q, self.i, self.j, cos, sin);
        let q_dot = rotate(&state.q_dot, self.i, self.j, cos, sin);
        AgentState::new(q, q_dot)
    }
}

impl<S: Scalar, const N: usize> Symmetry<S, N> for RotationSymmetry {
    open spec fn well_formed(&self) -> bool {
        self.i < N && self.j < N
    }

    /// The image is `state` turned by a cosine and sine of `epsilon`, the same
    /// pair for positions and velocities: those that `cos` and `sin` return for
    /// `epsilon`, of which their signs near zero are known.
    open spec fn transforms_to(
        &self,
        state: AgentState<S, N>,
        epsilon: S,
        image: AgentState<S, N>,
    ) -> bool {
        exists|c: S, s: S|
            {
                &&& cosine_sign_fits(epsilon, c)
                &&& sine_sign_fits(epsilon, s)
                &&& #[trigger] rotated_state(state, self.i as int, self.j as int, c, s) == image
            }
    }

    open spec fn generator_spec(&self, state: AgentState<S, N>) -> [S; N] {
        vstd::array::spec_array_update(
            vstd::array::spec_array_update(
                vstd::array::spec_array_fill_for_copy_type::<S, N>(S::zero_spec()),
                self.i as int,
                state.q[self.j as int].neg_spec(),
            ),
            self.j as int,
            state.q[self.i as int],
        )
    }

    open spec fn name_spec(&self) -> &'static str {
        "rotation"
    }

    open spec fn surface_spec(&self, state: AgentState<S, N>, lagrangian: S) -> S {
        S::zero_spec()
    }

    fn transform(&self, state: &AgentState<S, N>, epsilon: S) -> (r: AgentState<S, N>) {
        let cos = epsilon.cos();
        let sin = epsilon.sin();
        let r = self.turn(state, cos, sin);
        assert(rotated_state(*state, self.i as int, self.j as int, cos, sin) == r);
        r
    }

    fn generator_q(&self, state: &AgentState<S, N>) -> (r: [S; N]) {
        let mut gen = [S::zero();N];
        gen[self.i] = state.q[self.j].negate();
        gen[self.j] = state.q[self.i];
        proof {
            broadcast use vstd::array::group_array_axioms;

            assert(gen =~= self.generator_spec(*state));
        }
        gen
    }

    fn name(&self) -> (r: &'static str) {
        "rotation"
    }

    fn surface_term<L: Lagrangian<S, N>>(&self, lagrangian: &L, state: &AgentState<S, N>) -> (r:
        S) {
        S::zero()
    }
}

/// `v` with component `i` set to `c vᵢ − s vⱼ` and then component `j` set to
/// `s vᵢ + c vⱼ`, written out for the rotation law below.
pub open spec fn plane_turn<S: Scalar, const N: usize>(v: [S; N], i: int, j: int, c: S, s: S) -> [S;
    N] {
    vstd::array::spec_array_update(
        vstd::array::spec_array_update(v, i, c.mul_spec(v[i]).sub_spec(s.mul_spec(v[j]))),
        j,
        s.mul_spec(v[i]).add_spec(c.mul_spec(v[j])),
    )
}

/// The rotation is tied to its angle: every image it gives turns positions
/// and velocities by one pair `(c, s)` in which `s` has the sign of `epsilon`
/// for `0 < |epsilon| < 1`, and `c` is positive for `|epsilon| < 1`.  So a
/// small nonzero angle never turns by the identity pair `(1, 0)`.
pub proof fn law_rotation_turns_by_angle<S: Scalar, const N: usize>(
    symmetry: RotationSymmetry,
    state: AgentState<S, N>,
    epsilon: S,
    image: AgentState<S, N>,
)
    requires
        Symmetry::<S, N>::transforms_to(&symmetry, state, epsilon, image),
    ensures
        exists|c: S, s: S|
            {
                &&& S::zero_spec().lt_spec(epsilon) && epsilon.lt_spec(S::one_spec())
                    ==> S::zero_spec().lt_spec(s)
                &&& S::one_spec().neg_spec().lt_spec(epsilon) && epsilon.lt_spec(S::zero_spec())
                    ==> s.lt_spec(S::zero_spec())
                &&& S::one_spec().neg_spec().lt_spec(epsilon) && epsilon.lt_spec(S::one_spec())
                    ==> S::zero_spec().lt_spec(c)
                &&& image.q == plane_turn(state.q, symmetry.i as int, symmetry.j as int, c, s)
                &&& #[trigger] plane_turn(
                    state.q_dot,
                    symmetry.i as int,
                    symmetry.j as int,
                    c,
                    s,
                ) == image.q_dot
            },
{
    let (c, s) = choose|c: S, s: S|
        {
            &&& cosine_sign_fits(epsilon, c)
            &&& sine_sign_fits(epsilon, s)
            &&& #[trigger] rotated_state(state, symmetry.i as int, symmetry.j as int, c, s) == image
        };
    assert(plane_turn(state.q_dot, symmetry.i as int, symmetry.j as int, c, s) == image.q_dot);
}

/// A potential that the shift of coordinate `axis` by `epsilon` leaves unchanged
/// gives a mechanical Lagrangian that the translation leaves unchanged, so the
/// invariance test measures `|L − L|` for it.
pub proof fn law_translation_invariant_lagrangian<S: Scalar, const N: usize, V: Fn(&[S; N]) -> S>(
    mass: S,
    potential: V,
    axis: usize,
    state: AgentState<S, N>,
    epsilon: S,
    image: AgentState<S, N>,
)
    requires
        axis < N,
        potential_at(
            potential,
            vstd::array::spec_array_update(
                state.q,
                axis as int,
                state.q[axis as int].add_spec(epsilon),
            ),
        ) == potential_at(potential, state.q),
        Symmetry::<S, N>::transforms_to(&TranslationSymmetry::<N> { axis }, state, epsilon, image),
    ensures
        ({
            let lagrangian = MechanicalLagrangian { mass, potential_fn: potential };
            &&& lagrangian_value(lagrangian, image) == lagrangian_value(lagrangian, state)
            &&& lagrangian_change(lagrangian, state, image) == lagrangian_value(
                lagrangian,
                state,
            ).sub_spec(lagrangian_value(lagrangian, state)).abs_spec()
        }),
{
}

/// Result of a Noether invariance test.
#[derive(Debug, Clone, Copy, PartialEq)]
pub struct InvarianceResult<S: Scalar> {
    pub invariant: bool,
    pub delta_lagrangian: S,
    pub epsilon: S,
}

/// `|L(image) − L(state)|`.
pub open spec fn lagrangian_change<S: Scalar, const N: usize, L: Lagrangian<S, N>>(
    lagrangian: L,
    state: AgentState<S, N>,
    image: AgentState<S, N>,
) -> S {
    lagrangian_value(lagrangian, image).sub_spec(lagrangian_value(lagrangian, state)).abs_spec()
}

/// Compare the Lagrangian at `state` with its value at `image`, the state that
/// the symmetry gave for parameter `epsilon`.
///
/// `invariant` is `|L(image) − L(state)| < tolerance`.
pub fn invariance_between<S: Scalar, const N: usize, L: Lagrangian<S, N>>(
    lagrangian: &L,
    state: &AgentState<S, N>,
    image: &AgentState<S, N>,
    epsilon: S,
    tolerance: S,
) -> (r: InvarianceResult<S>)
    requires
        lagrangian.well_formed(),
    ensures
        r.delta_lagrangian == lagrangian_change(*lagrangian, *state, *image),
        r.invariant == r.delta_lagrangian.lt_spec(tolerance),
        r.epsilon == epsilon,
{
    let l0 = lagrangian.lagrangian(state);
    let l_prime = lagrangian.lagrangian(image);
    let delta = l_prime.minus(l0).abs();
    InvarianceResult { invariant: delta.lt(tolerance), delta_lagrangian: delta, epsilon }
}

/// Numerically test whether a Lagrangian is invariant under a symmetry.
///
/// Returns `InvarianceResult` with `invariant = true` when
/// `|L(q') − L(q)| < tolerance` for the given `epsilon`, where `q'` is the
/// state that the symmetry gives.
pub fn test_invariance<S: Scalar, const N: usize, L: Lagrangian<S, N>, Y: Symmetry<S, N>>(
    lagrangian: &L,
    symmetry: &Y,
    state: &AgentState<S, N>,
    epsilon: S,
    tolerance: S,
) -> (r: InvarianceResult<S>)
    requires
        lagrangian.well_formed(),
        symmetry.well_formed(),
    ensures
        exists|image: AgentState<S, N>|
            {
                &&& #[trigger] symmetry.transforms_to(*state, epsilon, image)
                &&& r.delta_lagrangian == lagrangian_change(*lagrangian, *state, image)
            },
        r.invariant == r.delta_lagrangian.lt_spec(tolerance),
        r.epsilon == epsilon,
{
    let state_prime = symmetry.transform(state, epsilon);
    invariance_between(lagrangian, state, &state_prime, epsilon, tolerance)
}

/// `Σ m q̇ᵢ δqᵢ` over the first `k` coordinates, summed from the left starting at zero.
pub open spec fn charge_sum<S: Scalar>(mass: S, q_dot: Seq<S>, gen: Seq<S>, k: nat) -> S
    decreases k,
{
    if k == 0 {
        S::zero_spec()
    } else {
        charge_sum(mass, q_dot, gen, (k - 1) as nat).add_spec(
            mass.mul_spec(q_dot[k - 1]).mul_spec(gen[k - 1]),
        )
    }
}

/// Compute the Noether charge `Q = Σᵢ pᵢ δqᵢ` where `pᵢ = ∂L/∂q̇ᵢ`.
///
/// For a mechanical Lagrangian `L = ½m q̇² − V(q)` this reduces to
/// `Q = m Σᵢ q̇ᵢ δqᵢ`.
pub fn noether_charge<S: Scalar, const N: usize>(
    mass: S,
    state: &AgentState<S, N>,
    generator_q: &[S; N],
) -> (r: S)
    ensures
        r == charge_sum(mass, state.q_dot@, generator_q@, N as nat),
{
    let mut q = S::zero();
    let mut i: usize = 0;
    while i < N
        invariant
            0 <= i <= N,
            q == charge_sum(mass, state.q_dot@, generator_q@, i as nat),
        decreases N - i,
    {
        q = q.plus(mass.times(state.q_dot[i]).times(generator_q[i]));
        i = i + 1;
    }
    q
}

/// `|values[k] − values[0]|`.
pub open spec fn drift_at<S: Scalar>(values: Seq<S>, k: int) -> S {
    values[k].sub_spec(values[0]).abs_spec()
}

/// Every value stays within `tolerance` of the first one.
pub open spec fn all_within<S: Scalar>(values: Seq<S>, tolerance: S) -> bool {
    forall|k: int| 0 <= k < values.len() ==> #[trigger] drift_at(values, k).lt_spec(tolerance)
}

/// `max(… max(max(0, d₀), d₁) …, d_{k−1})` over the drifts of the first `k` values.
pub open spec fn largest_drift<S: Scalar>(values: Seq<S>, k: nat) -> S
    decreases k,
{
    if k == 0 {
        S::zero_spec()
    } else {
        largest_drift(values, (k - 1) as nat).max_spec(drift_at(values, k - 1))
    }
}

/// A conserved-quantity monitor that tracks a charge along a trajectory.
#[derive(Debug, Clone)]
pub struct ChargeMonitor<S: Scalar> {
    pub values: Vec<S>,
    pub tolerance: S,
}

impl<S: Scalar> ChargeMonitor<S> {
    pub fn new(tolerance: S) -> (r: Self)
        ensures
            r.values@ == Seq::<S>::empty(),
            r.tolerance == tolerance,
    {
        ChargeMonitor { values: Vec::new(), tolerance }
    }

    pub fn push(&mut self, value: S)
        ensures
            final(self).values@ == old(self).values@.push(value),
            final(self).tolerance == old(self).tolerance,
    {
        self.values.push(value);
    }

    /// Return `true` if the charge stays within tolerance of its initial value.
    pub fn is_conserved(&self) -> (r: bool)
        ensures
            r == all_within(self.values@, self.tolerance),
    {
        if self.values.len() == 0 {
            return true;
        }
        let q0 = self.values[0];
        let mut k: usize = 0;
        while k < self.values.len()
            invariant
                0 <= k <= self.values@.len(),
                self.values@.len() > 0,
                q0 == self.values@[0],
                forall|j: int| 0 <= j < k ==> #[trigger] drift_at(self.values@, j).lt_spec(
                    self.tolerance,
                ),
            decreases self.values@.len() - k,
        {
            if !self.values[k].minus(q0).abs().lt(self.tolerance) {
                assert(!drift_at(self.values@, k as int).lt_spec(self.tolerance));
                return false;
            }
            k = k + 1;
        }
        true
    }

    /// The largest distance of a value from the initial one (zero when empty).
    pub fn max_drift(&self) -> (r: S)
        ensures
            r == largest_drift(self.values@, self.values@.len()),
    {
        if self.values.len() == 0 {
            return S::zero();
        }
        let q0 = self.values[0];
        let mut acc = S::zero();
        let mut k: usize = 0;
        while k < self.values.len()
            invariant
                0 <= k <= self.values@.len(),
                self.values@.len() > 0,
                q0 == self.values@[0],
                acc == largest_drift(self.values@, k as nat),
            decreases self.values@.len() - k,
        {
            acc = acc.max(self.values[k].minus(q0).abs());
            k = k + 1;
        }
        acc
    }
}

/// The Noether charge `Σ m q̇ᵢ δqᵢ − F` of `state`.
pub open spec fn charge_at<S: Scalar, const N: usize, L: Lagrangian<S, N>, Y: Symmetry<S, N>>(
    lagrangian: L,
    symmetry: Y,
    mass: S,
    state: AgentState<S, N>,
) -> S {
    charge_sum(mass, state.q_dot@, symmetry.generator_spec(state)@, N as nat).sub_spec(
        symmetry.surface_spec(state, lagrangian_value(lagrangian, state)),
    )
}

/// The Noether charge at each state of a trajectory.
pub open spec fn charges_along<S: Scalar, const N: usize, L: Lagrangian<S, N>, Y: Symmetry<S, N>>(
    lagrangian: L,
    symmetry: Y,
    mass: S,
    trajectory: Seq<AgentState<S, N>>,
) -> Seq<S> {
    trajectory.map_values(|state: AgentState<S, N>| charge_at(lagrangian, symmetry, mass, state))
}

/// The message for a Lagrangian that the symmetry does not leave invariant.
pub open spec fn not_invariant_message<S: Scalar>(name: Seq<char>, delta: S) -> Seq<char> {
    "Lagrangian not invariant under "@ + name + " (ΔL = "@ + delta.debug_spec()@ + ")"@
}

/// The message for a Noether charge that drifts beyond the tolerance.
pub open spec fn not_conserved_message<S: Scalar>(name: Seq<char>, drift: S) -> Seq<char> {
    "Noether charge not conserved for "@ + name + " (max drift = "@ + drift.debug_spec()@ + ")"@
}

fn describe_failure(lead: &str, name: &str, middle: &str, value: String) -> (r: String)
    ensures
        r@ == lead@ + name@ + middle@ + value@ + ")"@,
{
    let mut msg = String::from_str(lead);
    msg.append(name);
    msg.append(middle);
    msg.append(value.as_str());
    msg.append(")");
    msg
}

/// What [`verify_noether`] answers when the Lagrangian changes by `delta` under
/// the symmetry: `Ok` with the monitor of the charges when `delta` and every
/// charge drift are below `tolerance`, else the first failure's message.
pub open spec fn noether_outcome<S: Scalar, const N: usize, L: Lagrangian<S, N>, Y: Symmetry<S, N>>(
    lagrangian: L,
    symmetry: Y,
    trajectory: Seq<AgentState<S, N>>,
    mass: S,
    tolerance: S,
    delta: S,
    r: Result<ChargeMonitor<S>, String>,
) -> bool {
    let charges = charges_along(lagrangian, symmetry, mass, trajectory);
    match r {
        Ok(monitor) => {
            &&& delta.lt_spec(tolerance)
            &&& all_within(charges, tolerance)
            &&& monitor.values@ == charges
            &&& monitor.tolerance == tolerance
        },
        Err(msg) => if !delta.lt_spec(tolerance) {
            msg@ == not_invariant_message(symmetry.name_spec()@, delta)
        } else {
            &&& !all_within(charges, tolerance)
            &&& msg@ == not_conserved_message(
                symmetry.name_spec()@,
                largest_drift(charges, charges.len()),
            )
        },
    }
}

/// Verify Noether's theorem for a given system, symmetry, and trajectory:
///
/// 1. Check Lagrangian invariance (within tolerance).
/// 2. Compute the Noether charge at each step.
/// 3. Assert the charge is conserved.
///
/// The trajectory must not be empty.
pub fn verify_noether<S: Scalar, const N: usize, L: Lagrangian<S, N>, Y: Symmetry<S, N>>(
    lagrangian: &L,
    symmetry: &Y,
    trajectory: &[AgentState<S, N>],
    mass: S,
    epsilon: S,
    tolerance: S,
) -> (r: Result<ChargeMonitor<S>, String>)
    requires
        trajectory@.len() > 0,
        lagrangian.well_formed(),
        symmetry.well_formed(),
    ensures
        exists|image: AgentState<S, N>|
            #[trigger] symmetry.transforms_to(trajectory@[0], epsilon, image) && noether_outcome(
                *lagrangian,
                *symmetry,
                trajectory@,
                mass,
                tolerance,
                lagrangian_change(*lagrangian, trajectory@[0], image),
                r,
            ),
{
    let inv = test_invariance(lagrangian, symmetry, &trajectory[0], epsilon, tolerance);
    let ghost image = choose|image: AgentState<S, N>|
        #[trigger] symmetry.transforms_to(trajectory@[0], epsilon, image)
            && inv.delta_lagrangian == lagrangian_change(*lagrangian, trajectory@[0], image);
    assert(symmetry.transforms_to(trajectory@[0], epsilon, image));
    if !inv.invariant {
        return Err(
            describe_failure(
                "Lagrangian not invariant under ",
                symmetry.name(),
                " (ΔL = ",
                inv.delta_lagrangian.debug_text(),
            ),
        );
    }
    let ghost charges = charges_along(*lagrangian, *symmetry, mass, trajectory@);
    let mut monitor = ChargeMonitor::new(tolerance);
    let mut k: usize = 0;
    while k < trajectory.len()
        invariant
            0 <= k <= trajectory@.len(),
            lagrangian.well_formed(),
            symmetry.well_formed(),
            charges == charges_along(*lagrangian, *symmetry, mass, trajectory@),
            monitor.tolerance == tolerance,
            monitor.values@ == charges.take(k as int),
        decreases trajectory@.len() - k,
    {
        let state = &trajectory[k];
        let gen = symmetry.generator_q(state);
        let q = noether_charge(mass, state, &gen).minus(symmetry.surface_term(lagrangian, state));
        monitor.push(q);
        assert(monitor.values@ =~= charges.take(k + 1));
        k = k + 1;
    }
    assert(monitor.values@ =~= charges);
    if !monitor.is_conserved() {
        return Err(
            describe_failure(
                "Noether charge not conserved for ",
                symmetry.name(),
                " (max drift = ",
                monitor.max_drift().debug_text(),
            ),
        );
    }
    Ok(monitor)
}

/// `q` holds the coordinates `qₖ + ε q̇ₖ` of `state`.
pub open spec fn is_drifted<S: Scalar, const N: usize>(
    q: [S; N],
    state: AgentState<S, N>,
    epsilon: S,
) -> bool {
    forall|k: int|
        0 <= k < N ==> #[trigger] q[k] == state.q[k].add_spec(epsilon.mul_spec(state.q_dot[k]))
}

/// The coordinates `q + ε q̇`.
pub open spec fn drifted<S: Scalar, const N: usize>(state: AgentState<S, N>, epsilon: S) -> [S; N] {
    choose|q: [S; N]| is_drifted(q, state, epsilon)
}

} // verus!
