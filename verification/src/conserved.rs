//! Conserved quantity detection and verification from trajectories.
//!
//! Given a trajectory of agent states, automatically:
//! - Detect candidate conserved quantities (linear and quadratic).
//! - Verify conservation along the trajectory.
//! - Test for energy, momentum, and angular momentum conservation.
use crate::lagrangian::{
    energy_value, is_verlet_trajectory, pure_potential, total_energy, AgentState,
    Lagrangian, MechanicalLagrangian, SymplecticIntegrator,
};
use crate::noether::drift_at;
use crate::text::{decimal, push_decimal};
use crate::{population_std_dev, squared_deviations, sum_values, Scalar};
use vstd::prelude::*;

verus! {

/// A candidate conserved quantity detected from trajectory data.
#[derive(Debug, Clone)]
pub struct ConservedQuantity<S: Scalar> {
    pub name: String,
    pub initial_value: S,
    pub max_drift: S,
    pub is_conserved: bool,
}

impl<S: Scalar> ConservedQuantity<S> {
    /// Check if the quantity is conserved within tolerance.
    pub fn verify(&self, tolerance: S) -> (r: bool)
        ensures
            r == self.max_drift.lt_spec(tolerance),
    {
        self.max_drift.lt(tolerance)
    }
}

/// The largest drift from `values[0]` among `values[1..k]`, kept by replacing the
/// running maximum whenever a drift exceeds it (zero when `k <= 1`).
pub open spec fn peak_drift<S: Scalar>(values: Seq<S>, k: nat) -> S
    decreases k,
{
    if k <= 1 {
        S::zero_spec()
    } else {
        let m = peak_drift(values, (k - 1) as nat);
        let d = drift_at(values, k - 1);
        if m.lt_spec(d) {
            d
        } else {
            m
        }
    }
}

/// `q` summarises the series `values` under `name` with the given tolerance.
pub open spec fn summarises<S: Scalar>(
    q: ConservedQuantity<S>,
    name: Seq<char>,
    values: Seq<S>,
    tolerance: S,
) -> bool {
    &&& q.name@ == name
    &&& q.initial_value == values[0]
    &&& q.max_drift == peak_drift(values, values.len())
    &&& q.is_conserved == q.max_drift.lt_spec(tolerance)
}

/// Total energy at each state.
pub open spec fn energy_series<S: Scalar, const N: usize, L: Lagrangian<S, N>>(
    lagrangian: L,
    trajectory: Seq<AgentState<S, N>>,
) -> Seq<S> {
    trajectory.map_values(|s: AgentState<S, N>| energy_value(lagrangian, s))
}

/// Linear momentum `m q̇[axis]` at each state.
pub open spec fn momentum_series<S: Scalar, const N: usize>(
    mass: S,
    trajectory: Seq<AgentState<S, N>>,
    axis: int,
) -> Seq<S> {
    trajectory.map_values(|s: AgentState<S, N>| mass.mul_spec(s.q_dot[axis]))
}

/// Angular momentum `m (qᵢ q̇ⱼ − qⱼ q̇ᵢ)` at each state.
pub open spec fn angular_momentum_series<S: Scalar, const N: usize>(
    mass: S,
    trajectory: Seq<AgentState<S, N>>,
    i: int,
    j: int,
) -> Seq<S> {
    trajectory.map_values(
        |s: AgentState<S, N>|
            mass.mul_spec(s.q[i].mul_spec(s.q_dot[j]).sub_spec(s.q[j].mul_spec(s.q_dot[i]))),
    )
}

/// The angular momentum recorded at each state is the mass times the moment
/// `qᵢ q̇ⱼ − qⱼ q̇ᵢ` of that state: the mass enters every value, and the
/// series has one value per state.
pub proof fn law_angular_momentum_carries_mass<S: Scalar, const N: usize>(
    mass: S,
    trajectory: Seq<AgentState<S, N>>,
    i: int,
    j: int,
)
    ensures
        angular_momentum_series(mass, trajectory, i, j).len() == trajectory.len(),
        forall|k: int|
            0 <= k < trajectory.len() ==> #[trigger] angular_momentum_series(
                mass,
                trajectory,
                i,
                j,
            )[k] == mass.mul_spec(
                trajectory[k].q[i].mul_spec(trajectory[k].q_dot[j]).sub_spec(
                    trajectory[k].q[j].mul_spec(trajectory[k].q_dot[i]),
                ),
            ),
{
}

/// The closure is defined at every state and gives one value per state.
pub open spec fn pure_state_fn<S, const N: usize, F: Fn(&AgentState<S, N>) -> S>(f: F) -> bool {
    &&& forall|s: AgentState<S, N>| call_requires(f, (&s,))
    &&& forall|s: AgentState<S, N>, a: S, b: S|
        call_ensures(f, (&s,), a) && call_ensures(f, (&s,), b) ==> a == b
}

/// The value of a pure state function at `s`.
pub open spec fn state_fn_at<S, const N: usize, F: Fn(&AgentState<S, N>) -> S>(
    f: F,
    s: AgentState<S, N>,
) -> S {
    choose|r: S| call_ensures(f, (&s,), r)
}

/// A user quantity at each state.
pub open spec fn quantity_series<S, const N: usize, F: Fn(&AgentState<S, N>) -> S>(
    f: F,
    trajectory: Seq<AgentState<S, N>>,
) -> Seq<S> {
    trajectory.map_values(|s: AgentState<S, N>| state_fn_at(f, s))
}

/// The name of the momentum along `axis`.
pub open spec fn momentum_name(axis: nat) -> Seq<char> {
    "momentum_axis_"@ + decimal(axis)
}

/// The name of the angular momentum in the `(i, j)` plane.
pub open spec fn angular_momentum_name(i: nat, j: nat) -> Seq<char> {
    "angular_momentum_("@ + decimal(i) + ","@ + decimal(j) + ")"@
}

fn summarise<S: Scalar>(name: String, values: &Vec<S>, tolerance: S) -> (q: ConservedQuantity<S>)
    requires
        values@.len() > 0,
    ensures
        summarises(q, name@, values@, tolerance),
{
    let q0 = values[0];
    let mut max_drift = S::zero();
    let mut k: usize = 1;
    while k < values.len()
        invariant
            1 <= k <= values@.len(),
            q0 == values@[0],
            max_drift == peak_drift(values@, k as nat),
        decreases values@.len() - k,
    {
        let drift = values[k].minus(q0).abs();
        if max_drift.lt(drift) {
            max_drift = drift;
        }
        k = k + 1;
    }
    ConservedQuantity {
        name,
        initial_value: q0,
        max_drift,
        is_conserved: max_drift.lt(tolerance),
    }
}

/// Detect and verify conserved quantities from a trajectory.
///
/// Tests for:
/// 1. Total energy conservation.
/// 2. Linear momentum (if potential is translation-invariant).
/// 3. Angular momentum (if potential is rotation-invariant).
/// 4. Custom user-supplied quantities.
pub struct ConservationDetector<S: Scalar, const N: usize> {
    pub tolerance: S,
    pub quantities: Vec<ConservedQuantity<S>>,
}

/// The number of quantities among the first `k` that are conserved.
pub open spec fn count_conserved<S: Scalar>(qs: Seq<ConservedQuantity<S>>, k: nat) -> nat
    decreases k,
{
    if k == 0 {
        0
    } else {
        count_conserved(qs, (k - 1) as nat) + if qs[k - 1].is_conserved {
            1nat
        } else {
            0nat
        }
    }
}

impl<S: Scalar, const N: usize> ConservationDetector<S, N> {
    pub fn new(tolerance: S) -> (r: Self)
        ensures
            r.tolerance == tolerance,
            r.quantities@ == Seq::<ConservedQuantity<S>>::empty(),
    {
        ConservationDetector { tolerance, quantities: Vec::new() }
    }

    /// Check energy conservation along a trajectory.
    ///
    /// An empty trajectory records nothing.
    pub fn check_energy<L: Lagrangian<S, N>>(
        &mut self,
        lagrangian: &L,
        trajectory: &[AgentState<S, N>],
    )
        requires
            lagrangian.well_formed(),
        ensures
            final(self).tolerance == old(self).tolerance,
            trajectory@.len() == 0 ==> final(self).quantities@ == old(self).quantities@,
            trajectory@.len() > 0 ==> {
                &&& final(self).quantities@.len() == old(self).quantities@.len() + 1
                &&& forall|k: int|
                    0 <= k < old(self).quantities@.len() ==> #[trigger] final(self).quantities@[k]
                        == old(self).quantities@[k]
                &&& summarises(
                    final(self).quantities@.last(),
                    "energy"@,
                    energy_series(*lagrangian, trajectory@),
                    old(self).tolerance,
                )
            },
    {
        if trajectory.len() == 0 {
            return;
        }
        let mut values: Vec<S> = Vec::new();
        let mut k: usize = 0;
        while k < trajectory.len()
            invariant
                0 <= k <= trajectory@.len(),
                lagrangian.well_formed(),
                values@ == energy_series(*lagrangian, trajectory@).take(k as int),
            decreases trajectory@.len() - k,
        {
            values.push(total_energy(lagrangian, &trajectory[k]));
            assert(values@ =~= energy_series(*lagrangian, trajectory@).take(k + 1));
            k = k + 1;
        }
        assert(values@ =~= energy_series(*lagrangian, trajectory@));
        let q = summarise(String::from_str("energy"), &values, self.tolerance);
        self.quantities.push(q);
    }

    /// Check linear momentum along axis `axis` for a given mass.
    ///
    /// An empty trajectory records nothing; otherwise `axis` must be a coordinate.
    pub fn check_linear_momentum(&mut self, mass: S, trajectory: &[AgentState<S, N>], axis: usize)
        requires
            trajectory@.len() == 0 || axis < N,
        ensures
            final(self).tolerance == old(self).tolerance,
            trajectory@.len() == 0 ==> final(self).quantities@ == old(self).quantities@,
            trajectory@.len() > 0 ==> {
                &&& final(self).quantities@.len() == old(self).quantities@.len() + 1
                &&& forall|k: int|
                    0 <= k < old(self).quantities@.len() ==> #[trigger] final(self).quantities@[k]
                        == old(self).quantities@[k]
                &&& summarises(
                    final(self).quantities@.last(),
                    momentum_name(axis as nat),
                    momentum_series(mass, trajectory@, axis as int),
                    old(self).tolerance,
                )
            },
    {
        if trajectory.len() == 0 {
            return;
        }
        let mut values: Vec<S> = Vec::new();
        let mut k: usize = 0;
        while k < trajectory.len()
            invariant
                0 <= k <= trajectory@.len(),
                axis < N,
                values@ == momentum_series(mass, trajectory@, axis as int).take(k as int),
            decreases trajectory@.len() - k,
        {
            values.push(mass.times(trajectory[k].q_dot[axis]));
            assert(values@ =~= momentum_series(mass, trajectory@, axis as int).take(k + 1));
            k = k + 1;
        }
        assert(values@ =~= momentum_series(mass, trajectory@, axis as int));
        let mut name = String::from_str("momentum_axis_");
        push_decimal(&mut name, axis);
        let q = summarise(name, &values, self.tolerance);
        self.quantities.push(q);
    }

    /// Check angular momentum L = Σᵢ m(qᵢ q̇ⱼ − qⱼ q̇ᵢ) in the (i,j) plane.
    ///
    /// An empty trajectory records nothing; otherwise `i` and `j` must be coordinates.
    pub fn check_angular_momentum(
        &mut self,
        mass: S,
        trajectory: &[AgentState<S, N>],
        i: usize,
        j: usize,
    )
        requires
            trajectory@.len() == 0 || (i < N && j < N),
        ensures
            final(self).tolerance == old(self).tolerance,
            trajectory@.len() == 0 ==> final(self).quantities@ == old(self).quantities@,
            trajectory@.len() > 0 ==> {
                &&& final(self).quantities@.len() == old(self).quantities@.len() + 1
                &&& forall|k: int|
                    0 <= k < old(self).quantities@.len() ==> #[trigger] final(self).quantities@[k]
                        == old(self).quantities@[k]
                &&& summarises(
                    final(self).quantities@.last(),
                    angular_momentum_name(i as nat, j as nat),
                    angular_momentum_series(mass, trajectory@, i as int, j as int),
                    old(self).tolerance,
                )
                &&& final(self).quantities@.last().initial_value == mass.mul_spec(
                    trajectory@[0].q[i as int].mul_spec(trajectory@[0].q_dot[j as int]).sub_spec(
                        trajectory@[0].q[j as int].mul_spec(trajectory@[0].q_dot[i as int]),
                    ),
                )
            },
    {
        if trajectory.len() == 0 {
            return;
        }
        let ghost series = angular_momentum_series(mass, trajectory@, i as int, j as int);
        let mut values: Vec<S> = Vec::new();
        let mut k: usize = 0;
        while k < trajectory.len()
            invariant
                0 <= k <= trajectory@.len(),
                i < N,
                j < N,
                series == angular_momentum_series(mass, trajectory@, i as int, j as int),
                values@ == series.take(k as int),
            decreases trajectory@.len() - k,
        {
            let s = &trajectory[k];
            values.push(mass.times(s.q[i].times(s.q_dot[j]).minus(s.q[j].times(s.q_dot[i]))));
            assert(values@ =~= series.take(k + 1));
            k = k + 1;
        }
        assert(values@ =~= series);
        let mut name = String::from_str("angular_momentum_(");
        push_decimal(&mut name, i);
        name.append(",");
        push_decimal(&mut name, j);
        name.append(")");
        let q = summarise(name, &values, self.tolerance);
        self.quantities.push(q);
    }

    /// Check a generic quantity defined by a function.
    ///
    /// An empty trajectory records nothing.
    pub fn check_quantity<F: Fn(&AgentState<S, N>) -> S>(
        &mut self,
        name: &str,
        quantity_fn: F,
        trajectory: &[AgentState<S, N>],
    )
        requires
            pure_state_fn(quantity_fn),
        ensures
            final(self).tolerance == old(self).tolerance,
            trajectory@.len() == 0 ==> final(self).quantities@ == old(self).quantities@,
            trajectory@.len() > 0 ==> {
                &&& final(self).quantities@.len() == old(self).quantities@.len() + 1
                &&& forall|k: int|
                    0 <= k < old(self).quantities@.len() ==> #[trigger] final(self).quantities@[k]
                        == old(self).quantities@[k]
                &&& summarises(
                    final(self).quantities@.last(),
                    name@,
                    quantity_series(quantity_fn, trajectory@),
                    old(self).tolerance,
                )
            },
    {
        if trajectory.len() == 0 {
            return;
        }
        let mut values: Vec<S> = Vec::new();
        let mut k: usize = 0;
        while k < trajectory.len()
            invariant
                0 <= k <= trajectory@.len(),
                pure_state_fn(quantity_fn),
                values@ == quantity_series(quantity_fn, trajectory@).take(k as int),
            decreases trajectory@.len() - k,
        {
            let v = quantity_fn(&trajectory[k]);
            assert(call_ensures(quantity_fn, (&trajectory@[k as int],), v));
            values.push(v);
            assert(values@ =~= quantity_series(quantity_fn, trajectory@).take(k + 1));
            k = k + 1;
        }
        assert(values@ =~= quantity_series(quantity_fn, trajectory@));
        let q = summarise(String::from_str(name), &values, self.tolerance);
        self.quantities.push(q);
    }

    /// Number of quantities detected as conserved.
    pub fn num_conserved(&self) -> (r: usize)
        ensures
            r == count_conserved(self.quantities@, self.quantities@.len()),
    {
        let mut count: usize = 0;
        let mut k: usize = 0;
        while k < self.quantities.len()
            invariant
                0 <= k <= self.quantities@.len(),
                count == count_conserved(self.quantities@, k as nat),
                count <= k,
            decreases self.quantities@.len() - k,
        {
            if self.quantities[k].is_conserved {
                count = count + 1;
            }
            k = k + 1;
        }
        count
    }

    /// Are ALL quantities conserved?
    pub fn all_conserved(&self) -> (r: bool)
        ensures
            r == forall|k: int|
                0 <= k < self.quantities@.len() ==> #[trigger] self.quantities@[k].is_conserved,
    {
        let mut k: usize = 0;
        while k < self.quantities.len()
            invariant
                0 <= k <= self.quantities@.len(),
                forall|j: int| 0 <= j < k ==> #[trigger] self.quantities@[j].is_conserved,
            decreases self.quantities@.len() - k,
        {
            if !self.quantities[k].is_conserved {
                return false;
            }
            k = k + 1;
        }
        true
    }
}

/// The coordinate planes `(i, j)` with `i < j < n` and `i < rows`, in the order
/// `(0, 1), (0, 2), …, (0, n−1), (1, 2), …`.
pub open spec fn plane_pairs(n: nat, rows: nat) -> Seq<(usize, usize)>
    decreases rows,
{
    if rows == 0 {
        Seq::empty()
    } else {
        plane_pairs(n, (rows - 1) as nat) + Seq::new(
            (n - rows) as nat,
            |t: int| ((rows - 1) as usize, (rows + t) as usize),
        )
    }
}

/// There are `rows (2n − rows − 1) / 2` planes in the first `rows` rows.
pub proof fn lemma_plane_pairs_len(n: nat, rows: nat)
    requires
        rows <= n,
    ensures
        2 * plane_pairs(n, rows).len() == rows * (2 * n - rows - 1),
    decreases rows,
{
    if rows == 0 {
        assert(rows * (2 * n - rows - 1) == 0) by (nonlinear_arith)
            requires
                rows == 0,
        ;
    } else {
        lemma_plane_pairs_len(n, (rows - 1) as nat);
        let r = rows as int;
        let m = n as int;
        assert(plane_pairs(n, rows).len() == plane_pairs(n, (rows - 1) as nat).len() + (m - r));
        assert(r * (2 * m - r - 1) == (r - 1) * (2 * m - (r - 1) - 1) + 2 * (m - r))
            by (nonlinear_arith);
    }
}

/// A full survey of `n` coordinates checks energy, `n` momenta and
/// `n (n − 1) / 2` angular momenta.
pub proof fn lemma_survey_size(n: nat)
    ensures
        1 + n + plane_pairs(n, n).len() == 1 + n + n * (n - 1) / 2,
{
    lemma_plane_pairs_len(n, n);
    if n > 0 {
        assert(n * (2 * n - n - 1) == n * (n - 1)) by (nonlinear_arith);
    }
}

/// The detector holds, in order, the energy, the momentum along each axis and
/// the angular momentum in each coordinate plane of `trajectory`.
pub open spec fn surveys<S: Scalar, const N: usize, V: Fn(&[S; N]) -> S>(
    detector: ConservationDetector<S, N>,
    mass: S,
    potential: V,
    trajectory: Seq<AgentState<S, N>>,
    tolerance: S,
) -> bool {
    let qs = detector.quantities@;
    let pairs = plane_pairs(N as nat, N as nat);
    &&& detector.tolerance == tolerance
    &&& qs.len() == 1 + N + pairs.len()
    &&& summarises(
        qs[0],
        "energy"@,
        energy_series(MechanicalLagrangian { mass, potential_fn: potential }, trajectory),
        tolerance,
    )
    &&& forall|a: int|
        0 <= a < N ==> #[trigger] summarises(
            qs[1 + a],
            momentum_name(a as nat),
            momentum_series(mass, trajectory, a),
            tolerance,
        )
    &&& forall|k: int|
        0 <= k < pairs.len() ==> #[trigger] summarises(
            qs[1 + N + k],
            angular_momentum_name(pairs[k].0 as nat, pairs[k].1 as nat),
            angular_momentum_series(mass, trajectory, pairs[k].0 as int, pairs[k].1 as int),
            tolerance,
        )
}

/// Full conservation law verification for a given system.
///
/// Given a Lagrangian system, integrate and verify all applicable
/// conservation laws.  The step size must be positive, and with at least
/// one step the mass must be positive and finite.
pub fn verify_all_conservation<S, V, const N: usize>(
    mass: S,
    potential: V,
    initial_state: &AgentState<S, N>,
    dt: S,
    steps: usize,
    tolerance: S,
) -> (detector: ConservationDetector<S, N>) where S: Scalar, V: Fn(&[S; N]) -> S + Clone
    requires
        pure_potential(potential),
        !dt.le_spec(S::zero_spec()),
        steps > 0 ==> mass.is_finite_spec() && !mass.le_spec(S::zero_spec()),
        steps < usize::MAX,
    ensures
        detector.quantities@.len() == 1 + N + N * (N - 1) / 2,
        exists|trajectory: Seq<AgentState<S, N>>|
            {
                &&& is_verlet_trajectory(dt, mass, potential, *initial_state, steps as nat, trajectory)
                &&& surveys(detector, mass, potential, trajectory, tolerance)
            },
{
    let lagrangian = MechanicalLagrangian { mass, potential_fn: potential };
    let integrator = SymplecticIntegrator::<S, N>::new(dt).unwrap();
    let traj = integrator.integrate(mass, &lagrangian.potential_fn, initial_state, steps).unwrap();
    let ghost pairs = plane_pairs(N as nat, N as nat);
    let mut detector = ConservationDetector::new(tolerance);

    // Always check energy
    detector.check_energy(&lagrangian, traj.as_slice());

    // Check momentum for each axis
    let mut axis: usize = 0;
    while axis < N
        invariant
            0 <= axis <= N,
            traj@.len() > 0,
            detector.tolerance == tolerance,
            detector.quantities@.len() == 1 + axis,
            summarises(
                detector.quantities@[0],
                "energy"@,
                energy_series(lagrangian, traj@),
                tolerance,
            ),
            forall|a: int|
                0 <= a < axis ==> #[trigger] summarises(
                    detector.quantities@[1 + a],
                    momentum_name(a as nat),
                    momentum_series(mass, traj@, a),
                    tolerance,
                ),
        decreases N - axis,
    {
        detector.check_linear_momentum(mass, traj.as_slice(), axis);
        axis = axis + 1;
    }

    // Check angular momentum for each (i,j) pair
    let mut i: usize = 0;
    while i < N
        invariant
            0 <= i <= N,
            traj@.len() > 0,
            pairs == plane_pairs(N as nat, N as nat),
            detector.tolerance == tolerance,
            detector.quantities@.len() == 1 + N + plane_pairs(N as nat, i as nat).len(),
            summarises(
                detector.quantities@[0],
                "energy"@,
                energy_series(lagrangian, traj@),
                tolerance,
            ),
            forall|a: int|
                0 <= a < N ==> #[trigger] summarises(
                    detector.quantities@[1 + a],
                    momentum_name(a as nat),
                    momentum_series(mass, traj@, a),
                    tolerance,
                ),
            forall|k: int|
                0 <= k < plane_pairs(N as nat, i as nat).len() ==> #[trigger] summarises(
                    detector.quantities@[1 + N + k],
                    angular_momentum_name(
                        plane_pairs(N as nat, i as nat)[k].0 as nat,
                        plane_pairs(N as nat, i as nat)[k].1 as nat,
                    ),
                    angular_momentum_series(
                        mass,
                        traj@,
                        plane_pairs(N as nat, i as nat)[k].0 as int,
                        plane_pairs(N as nat, i as nat)[k].1 as int,
                    ),
                    tolerance,
                ),
        decreases N - i,
    {
        let ghost before = plane_pairs(N as nat, i as nat);
        let ghost row = Seq::new(
            (N - i - 1) as nat,
            |t: int| (i as usize, (i + 1 + t) as usize),
        );
        assert(plane_pairs(N as nat, (i + 1) as nat) == before + row);
        let mut j: usize = i + 1;
        while j < N
            invariant
                i < N,
                i + 1 <= j <= N,
                traj@.len() > 0,
                detector.tolerance == tolerance,
                before == plane_pairs(N as nat, i as nat),
                row == Seq::new((N - i - 1) as nat, |t: int| (i as usize, (i + 1 + t) as usize)),
                detector.quantities@.len() == 1 + N + before.len() + (j - i - 1),
                summarises(
                    detector.quantities@[0],
                    "energy"@,
                    energy_series(lagrangian, traj@),
                    tolerance,
                ),
                forall|a: int|
                    0 <= a < N ==> #[trigger] summarises(
                        detector.quantities@[1 + a],
                        momentum_name(a as nat),
                        momentum_series(mass, traj@, a),
                        tolerance,
                    ),
                forall|k: int|
                    0 <= k < before.len() ==> #[trigger] summarises(
                        detector.quantities@[1 + N + k],
                        angular_momentum_name(before[k].0 as nat, before[k].1 as nat),
                        angular_momentum_series(
                            mass,
                            traj@,
                            before[k].0 as int,
                            before[k].1 as int,
                        ),
                        tolerance,
                    ),
                forall|t: int|
                    0 <= t < j - i - 1 ==> #[trigger] summarises(
                        detector.quantities@[1 + N + before.len() + t],
                        angular_momentum_name(row[t].0 as nat, row[t].1 as nat),
                        angular_momentum_series(mass, traj@, row[t].0 as int, row[t].1 as int),
                        tolerance,
                    ),
            decreases N - j,
        {
            detector.check_angular_momentum(mass, traj.as_slice(), i, j);
            j = j + 1;
        }
        let ghost after = plane_pairs(N as nat, (i + 1) as nat);
        assert forall|k: int| 0 <= k < after.len() implies #[trigger] summarises(
            detector.quantities@[1 + N + k],
            angular_momentum_name(after[k].0 as nat, after[k].1 as nat),
            angular_momentum_series(mass, traj@, after[k].0 as int, after[k].1 as int),
            tolerance,
        ) by {
            if k >= before.len() {
                let t = k - before.len();
                assert(after[k] == row[t]);
                assert(summarises(
                    detector.quantities@[1 + N + before.len() + t],
                    angular_momentum_name(row[t].0 as nat, row[t].1 as nat),
                    angular_momentum_series(mass, traj@, row[t].0 as int, row[t].1 as int),
                    tolerance,
                ));
            } else {
                assert(after[k] == before[k]);
            }
        }
        i = i + 1;
    }
    proof {
        lemma_survey_size(N as nat);
        assert(surveys(detector, mass, potential, traj@, tolerance));
    }
    detector
}

/// Detect whether a trajectory lies approximately on a constant-energy surface.
///
/// Returns the standard deviation of energy values (zero for fewer than two states).
pub fn energy_spread<S: Scalar, const N: usize, L: Lagrangian<S, N>>(
    lagrangian: &L,
    trajectory: &[AgentState<S, N>],
) -> (r: S)
    requires
        lagrangian.well_formed(),
    ensures
        r == if trajectory@.len() < 2 {
            S::zero_spec()
        } else {
            population_std_dev(energy_series(*lagrangian, trajectory@))
        },
{
    if trajectory.len() < 2 {
        return S::zero();
    }
    let mut energies: Vec<S> = Vec::new();
    let mut k: usize = 0;
    while k < trajectory.len()
        invariant
            0 <= k <= trajectory@.len(),
            lagrangian.well_formed(),
            energies@ == energy_series(*lagrangian, trajectory@).take(k as int),
        decreases trajectory@.len() - k,
    {
        energies.push(total_energy(lagrangian, &trajectory[k]));
        assert(energies@ =~= energy_series(*lagrangian, trajectory@).take(k + 1));
        k = k + 1;
    }
    assert(energies@ =~= energy_series(*lagrangian, trajectory@));
    let n = S::from_usize(trajectory.len());
    let mean = sum_values(energies.as_slice()).over(n);
    let variance = squared_deviations(energies.as_slice(), mean).over(n);
    variance.sqrt()
}

} // verus!
