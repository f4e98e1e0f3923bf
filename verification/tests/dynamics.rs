use conservation_law::conserved::{
    energy_spread, verify_all_conservation, ConservationDetector, ConservedQuantity,
};
use conservation_law::fleet_integration::{zscore, CircuitState, FleetConservation};
use conservation_law::hamiltonian::{
    find_recurrence, phase_space_volume, poisson_bracket, verify_liouville, Hamiltonian,
    HamiltonianIntegrator, PhaseSpacePoint, SeparableHamiltonian,
};
use conservation_law::lagrangian::{
    total_energy, AgentState, DynamicsError, Lagrangian, MechanicalLagrangian,
    SymplecticIntegrator,
};
use conservation_law::noether::{
    invariance_between, noether_charge, test_invariance, verify_noether, ChargeMonitor,
    RotationSymmetry, Symmetry, TimeTranslationSymmetry, TranslationSymmetry,
};
use conservation_law::text::push_decimal;
use conservation_law::{central_diff, time_derivative, Scalar};
use std::ops::{Add, Div, Mul, Neg, Sub};

// ---------------------------------------------------------------------------
// An `f64` scalar for the tests.
// ---------------------------------------------------------------------------

#[derive(Clone, Copy, Debug, PartialEq, PartialOrd)]
struct R(f64);

impl Scalar for R {
    fn zero_spec() -> R {
        R(0.0)
    }
    fn one_spec() -> R {
        R(1.0)
    }
    fn epsilon_spec() -> R {
        R(f64::EPSILON)
    }
    fn from_usize_spec(n: usize) -> R {
        R(n as f64)
    }
    fn add_spec(self, rhs: R) -> R {
        R(self.0 + rhs.0)
    }
    fn sub_spec(self, rhs: R) -> R {
        R(self.0 - rhs.0)
    }
    fn mul_spec(self, rhs: R) -> R {
        R(self.0 * rhs.0)
    }
    fn div_spec(self, rhs: R) -> R {
        R(self.0 / rhs.0)
    }
    fn neg_spec(self) -> R {
        R(-self.0)
    }
    fn abs_spec(self) -> R {
        R(self.0.abs())
    }
    fn sqrt_spec(self) -> R {
        R(self.0.sqrt())
    }
    fn max_spec(self, other: R) -> R {
        R(self.0.max(other.0))
    }
    fn lt_spec(self, rhs: R) -> bool {
        self.0 < rhs.0
    }
    fn le_spec(self, rhs: R) -> bool {
        self.0 <= rhs.0
    }
    fn is_finite_spec(self) -> bool {
        self.0.is_finite()
    }
    fn is_zero_spec(self) -> bool {
        self.0 == 0.0
    }
    fn display_spec(self) -> String {
        format!("{}", self.0)
    }
    fn debug_spec(self) -> String {
        format!("{:?}", self.0)
    }
    fn zero() -> R {
        R(0.0)
    }
    fn one() -> R {
        R(1.0)
    }
    fn epsilon() -> R {
        R(f64::EPSILON)
    }
    fn from_usize(n: usize) -> R {
        R(n as f64)
    }
    fn plus(self, rhs: R) -> R {
        R(self.0 + rhs.0)
    }
    fn minus(self, rhs: R) -> R {
        R(self.0 - rhs.0)
    }
    fn times(self, rhs: R) -> R {
        R(self.0 * rhs.0)
    }
    fn over(self, rhs: R) -> R {
        R(self.0 / rhs.0)
    }
    fn negate(self) -> R {
        R(-self.0)
    }
    fn abs(self) -> R {
        R(self.0.abs())
    }
    fn sqrt(self) -> R {
        R(self.0.sqrt())
    }
    fn cos(self) -> R {
        R(self.0.cos())
    }
    fn sin(self) -> R {
        R(self.0.sin())
    }
    fn max(self, other: R) -> R {
        R(self.0.max(other.0))
    }
    fn lt(self, rhs: R) -> bool {
        self.0 < rhs.0
    }
    fn le(self, rhs: R) -> bool {
        self.0 <= rhs.0
    }
    fn is_finite(self) -> bool {
        self.0.is_finite()
    }
    fn is_zero(self) -> bool {
        self.0 == 0.0
    }
    fn display_text(&self) -> String {
        format!("{}", self.0)
    }
    fn debug_text(&self) -> String {
        format!("{:?}", self.0)
    }
}

impl Add for R {
    type Output = R;
    fn add(self, rhs: R) -> R {
        R(self.0 + rhs.0)
    }
}

impl Sub for R {
    type Output = R;
    fn sub(self, rhs: R) -> R {
        R(self.0 - rhs.0)
    }
}

impl Mul for R {
    type Output = R;
    fn mul(self, rhs: R) -> R {
        R(self.0 * rhs.0)
    }
}

impl Mul<R> for f64 {
    type Output = R;
    fn mul(self, rhs: R) -> R {
        R(self * rhs.0)
    }
}

impl Div for R {
    type Output = R;
    fn div(self, rhs: R) -> R {
        R(self.0 / rhs.0)
    }
}

impl Neg for R {
    type Output = R;
    fn neg(self) -> R {
        R(-self.0)
    }
}

fn arr<const N: usize>(v: [f64; N]) -> [R; N] {
    v.map(R)
}

fn state<const N: usize>(q: [f64; N], q_dot: [f64; N]) -> AgentState<R, N> {
    AgentState::new(arr(q), arr(q_dot))
}

fn point<const N: usize>(q: [f64; N], p: [f64; N]) -> PhaseSpacePoint<R, N> {
    PhaseSpacePoint::new(arr(q), arr(p))
}

fn integrator<const N: usize>(dt: f64) -> SymplecticIntegrator<R, N> {
    SymplecticIntegrator::new(R(dt)).unwrap()
}

/// `approx`'s `relative_eq` with the given absolute epsilon and the default relative bound.
fn relative_eq(a: R, b: f64, epsilon: f64) -> bool {
    approx::RelativeEq::relative_eq(&a.0, &b, epsilon, <f64 as approx::RelativeEq>::default_max_relative())
}

// ---------------------------------------------------------------------------
// conserved
// ---------------------------------------------------------------------------

#[test]
fn test_energy_conservation_harmonic() {
    let mass = R(1.0);
    let potential = |q: &[R; 1]| 0.5 * q[0] * q[0];
    let lagrangian = MechanicalLagrangian { mass, potential_fn: potential };
    let integrator = integrator(0.001);
    let initial = state([1.0], [0.0]);
    let traj = integrator.integrate(mass, &potential, &initial, 5000).unwrap();

    let mut detector = ConservationDetector::new(R(1e-4));
    detector.check_energy(&lagrangian, &traj);
    assert!(detector.quantities[0].is_conserved);
}

#[test]
fn test_momentum_conservation_free_particle() {
    let mass = R(2.0);
    let potential = |_: &[R; 2]| R(0.0);
    let integrator = integrator(0.01);
    let initial = state([0.0, 0.0], [1.0, 2.0]);
    let traj = integrator.integrate(mass, &potential, &initial, 100).unwrap();

    let mut detector = ConservationDetector::new(R(1e-10));
    detector.check_linear_momentum(mass, &traj, 0);
    detector.check_linear_momentum(mass, &traj, 1);
    assert!(detector.all_conserved());
}

#[test]
fn test_angular_momentum_central_potential() {
    let mass = R(1.0);
    let potential = |q: &[R; 2]| {
        let r2 = q[0] * q[0] + q[1] * q[1];
        0.5 * r2
    };
    let integrator = integrator(0.001);
    let initial = state([1.0, 0.0], [0.0, 1.0]);
    let traj = integrator.integrate(mass, &potential, &initial, 5000).unwrap();

    let mut detector = ConservationDetector::new(R(1e-4));
    detector.check_angular_momentum(mass, &traj, 0, 1);
    assert!(
        detector.quantities[0].is_conserved,
        "angular momentum should be conserved for central potential"
    );
}

#[test]
fn test_momentum_not_conserved_harmonic() {
    let mass = R(1.0);
    let potential = |q: &[R; 1]| 0.5 * q[0] * q[0];
    let integrator = integrator(0.01);
    let initial = state([1.0], [0.0]);
    let traj = integrator.integrate(mass, &potential, &initial, 100).unwrap();

    let mut detector = ConservationDetector::new(R(1e-10));
    detector.check_linear_momentum(mass, &traj, 0);
    assert!(
        !detector.quantities[0].is_conserved,
        "momentum should NOT be conserved for harmonic potential"
    );
}

#[test]
fn test_verify_all_harmonic() {
    let mass = R(1.0);
    let potential = |q: &[R; 1]| 0.5 * q[0] * q[0];
    let initial = state([1.0], [0.0]);
    let detector =
        verify_all_conservation(mass, potential, &initial, R(0.001), 5000, R(1e-4));
    assert!(
        detector
            .quantities
            .iter()
            .find(|q| q.name == "energy")
            .unwrap()
            .is_conserved
    );
}

#[test]
fn test_verify_all_free_particle() {
    let mass = R(1.0);
    let potential = |_: &[R; 3]| R(0.0);
    let initial = state([0.0, 0.0, 0.0], [1.0, 2.0, 3.0]);
    let detector = verify_all_conservation(mass, potential, &initial, R(0.01), 100, R(1e-8));
    assert!(
        detector.all_conserved(),
        "all quantities should be conserved for free particle"
    );
}

#[test]
fn test_energy_spread_small() {
    let mass = R(1.0);
    let potential = |q: &[R; 1]| 0.5 * q[0] * q[0];
    let lagrangian = MechanicalLagrangian { mass, potential_fn: potential };
    let integrator = integrator(0.001);
    let initial = state([1.0], [0.0]);
    let traj = integrator
        .integrate(mass, &|q: &[R; 1]| 0.5 * q[0] * q[0], &initial, 5000)
        .unwrap();

    let spread = energy_spread(&lagrangian, &traj);
    assert!(
        spread.0 < 1e-4,
        "energy spread should be small for symplectic integrator"
    );
}

#[test]
fn test_custom_quantity_kinetic_energy() {
    let mass = R(1.0);
    let potential = |_: &[R; 1]| R(0.0);
    let integrator = integrator(0.01);
    let initial = state([0.0], [2.0]);
    let traj = integrator.integrate(mass, &potential, &initial, 100).unwrap();

    let mut detector = ConservationDetector::new(R(1e-10));
    detector.check_quantity(
        "kinetic_energy",
        |s: &AgentState<R, 1>| 0.5 * mass * s.q_dot[0] * s.q_dot[0],
        &traj,
    );
    assert!(
        detector.quantities[0].is_conserved,
        "KE should be conserved for free particle"
    );
}

#[test]
fn test_num_conserved() {
    let mass = R(1.0);
    let potential = |_: &[R; 2]| R(0.0);
    let initial = state([0.0, 0.0], [1.0, 2.0]);
    let detector = verify_all_conservation(mass, potential, &initial, R(0.01), 100, R(1e-8));
    // Energy + 2 momenta + 1 angular momentum = 4
    assert!(detector.num_conserved() >= 3);
}

#[test]
fn test_conserved_quantity_verify() {
    let cq: ConservedQuantity<R> = ConservedQuantity {
        name: "test".to_string(),
        initial_value: R(1.0),
        max_drift: R(0.001),
        is_conserved: true,
    };
    assert!(cq.verify(R(0.01)));
    assert!(!cq.verify(R(0.0001)));
}

#[test]
fn test_empty_trajectory() {
    let mass = R(1.0);
    let potential = |q: &[R; 1]| q[0];
    let lagrangian = MechanicalLagrangian { mass, potential_fn: potential };
    let mut detector = ConservationDetector::new(R(1e-10));
    detector.check_energy(&lagrangian, &[]);
    assert!(detector.quantities.is_empty());
}

#[test]
fn test_energy_spread_short_trajectories() {
    let mass = R(1.0);
    let potential = |q: &[R; 1]| 0.5 * q[0] * q[0];
    let lagrangian = MechanicalLagrangian { mass, potential_fn: potential };
    let single = vec![state([1.0], [0.0])];
    assert_eq!(energy_spread(&lagrangian, &single), R(0.0));
    assert_eq!(energy_spread(&lagrangian, &[]), R(0.0));
}

#[test]
fn test_detector_all_conserved_empty() {
    let detector: ConservationDetector<R, 1> = ConservationDetector::new(R(1e-6));
    assert!(detector.all_conserved());
    assert_eq!(detector.num_conserved(), 0);
}

#[test]
fn test_verify_all_conservation_free_particle_1d() {
    let mass = R(1.0);
    let potential = |_q: &[R; 1]| R(0.0);
    let initial = state([0.0], [2.0]);
    let detector = verify_all_conservation(mass, potential, &initial, R(0.01), 500, R(1e-8));
    // Energy + 1 momentum = 2 conserved quantities.
    assert!(detector.all_conserved());
    assert_eq!(detector.num_conserved(), 2);
}

// ---------------------------------------------------------------------------
// fleet_integration
// ---------------------------------------------------------------------------

fn fleet(energies: &[f64], z_threshold: f64) -> FleetConservation<R> {
    FleetConservation::new(energies.iter().map(|&e| R(e)).collect(), R(z_threshold))
}

fn make_balanced_fleet() -> FleetConservation<R> {
    fleet(&[100.0, 100.0, 100.0, 100.0], 2.0)
}

#[test]
fn test_total_energy_conserved_on_transfer() {
    let mut fleet = make_balanced_fleet();
    let before = fleet.total_energy();
    fleet.transfer_with_guard(0, 1, R(10.0)).unwrap();
    let after = fleet.total_energy();
    assert!((before.0 - after.0).abs() < 1e-10, "energy must be conserved");
}

#[test]
fn test_transfer_updates_balances() {
    let mut fleet = make_balanced_fleet();
    fleet.transfer_with_guard(0, 1, R(25.0)).unwrap();
    assert_eq!(fleet.energies[0], R(75.0));
    assert_eq!(fleet.energies[1], R(125.0));
}

#[test]
fn test_transfer_rejects_insufficient_energy() {
    let mut fleet = make_balanced_fleet();
    let result = fleet.transfer_with_guard(0, 1, R(200.0));
    assert!(result.is_err());
    // Should not have changed balances
    assert_eq!(fleet.energies[0], R(100.0));
}

#[test]
fn test_transfer_rejects_out_of_bounds() {
    let mut fleet = make_balanced_fleet();
    let result = fleet.transfer_with_guard(0, 99, R(10.0));
    assert!(result.is_err());
}

#[test]
fn test_transfer_rejects_same_source_and_dest() {
    let mut fleet = make_balanced_fleet();
    let result = fleet.transfer_with_guard(2, 2, R(10.0));
    assert!(result.is_err());
}

#[test]
fn test_audit_detects_anomaly() {
    // One agent has wildly different energy
    let mut fleet = fleet(&[100.0, 100.0, 100.0, 10000.0], 1.5);
    let report = fleet.audit_fleet();
    assert!(!report.anomalous_agents.is_empty(), "should detect the outlier agent");
    assert_eq!(report.anomalous_agents[0], 3);
}

#[test]
fn test_audit_balanced_fleet_no_anomalies() {
    let mut fleet = make_balanced_fleet();
    let report = fleet.audit_fleet();
    assert!(report.anomalous_agents.is_empty());
    assert!(report.system_stable);
}

#[test]
fn test_circuit_breaker_trips_after_failures() {
    let mut fleet = fleet(&[100.0, 100.0], 2.0);
    fleet.failure_threshold = 2;
    // Trigger failures by trying over-large transfers
    let total = fleet.total_energy();
    let _ = fleet.transfer_with_guard(0, 1, total); // exceeds max fraction
    assert_ne!(fleet.circuit_state(), CircuitState::Open);
    let _ = fleet.transfer_with_guard(0, 1, total); // second failure
    assert_eq!(fleet.circuit_state(), CircuitState::Open);
}

#[test]
fn test_circuit_breaker_halts_transfers_when_open() {
    let mut fleet = make_balanced_fleet();
    fleet.trip();
    let result = fleet.transfer_with_guard(0, 1, R(1.0));
    assert!(result.is_err());
    assert!(result.unwrap_err().contains("Open"));
}

#[test]
fn test_half_open_recovery() {
    let mut fleet = make_balanced_fleet();
    fleet.circuit = CircuitState::Open;
    assert!(fleet.try_half_open());
    assert_eq!(fleet.circuit_state(), CircuitState::HalfOpen);
    // Successful probe
    fleet.transfer_with_guard(0, 1, R(5.0)).unwrap();
    // Need probes_needed successes — default is 2
    fleet.transfer_with_guard(1, 0, R(5.0)).unwrap();
    assert_eq!(fleet.circuit_state(), CircuitState::Closed);
}

#[test]
fn test_zscore_function() {
    let z = zscore(R(3.0), R(0.0), R(1.0));
    assert!((z.0 - 3.0).abs() < 1e-10);
    // Zero std_dev → return 0
    let z2 = zscore(R(5.0), R(5.0), R(0.0));
    assert_eq!(z2, R(0.0));
}

#[test]
fn test_mean_and_std_dev() {
    let fleet = fleet(&[10.0, 20.0, 30.0], 2.0);
    assert!((fleet.mean().0 - 20.0).abs() < 1e-10);
    // Population std dev of [10,20,30] = sqrt((100+0+100)/3) = sqrt(200/3)
    let expected = (200.0_f64 / 3.0).sqrt();
    assert!((fleet.std_dev().0 - expected).abs() < 1e-10);
}

// ---------------------------------------------------------------------------
// hamiltonian
// ---------------------------------------------------------------------------

/// 1D harmonic oscillator: H = p²/2 + q²/2
fn harmonic_1d() -> SeparableHamiltonian<R, impl Fn(&[R; 1]) -> R, 1> {
    SeparableHamiltonian {
        mass: R(1.0),
        potential: |q: &[R; 1]| 0.5 * q[0] * q[0],
    }
}

#[test]
fn test_phase_space_distance() {
    let a = point([0.0], [0.0]);
    let b = point([3.0], [4.0]);
    assert!((a.distance(&b).0 - 5.0_f64).abs() < 1e-10);
}

#[test]
fn test_separable_hamiltonian_value() {
    let ham = harmonic_1d();
    // H = p²/2 + q²/2 → at (1,0): H = 0.5
    assert!((ham.hamiltonian(&arr([1.0]), &arr([0.0])).0 - 0.5).abs() < 1e-10);
    // at (0,1): H = 0.5
    assert!((ham.hamiltonian(&arr([0.0]), &arr([1.0])).0 - 0.5).abs() < 1e-10);
}

#[test]
#[allow(non_snake_case)]
fn test_dH_dq() {
    let ham = harmonic_1d();
    // H = p²/2 + q²/2 → ∂H/∂q = q
    let grad = ham.dH_dq(&arr([2.0]), &arr([0.0]));
    assert!((grad[0].0 - 2.0).abs() < 1e-6);
}

#[test]
#[allow(non_snake_case)]
fn test_dH_dp() {
    let ham = harmonic_1d();
    // H = p²/2 + q²/2 → ∂H/∂p = p
    let grad = ham.dH_dp(&arr([0.0]), &arr([3.0]));
    assert!((grad[0].0 - 3.0).abs() < 1e-6);
}

#[test]
fn test_hamiltonian_conservation() {
    let ham = harmonic_1d();
    let dt = R(0.001);
    let integrator = HamiltonianIntegrator::new(dt);
    let initial = point([1.0], [0.0]);
    let h0 = ham.hamiltonian(&initial.q, &initial.p);

    let traj = integrator.integrate(&ham, &initial, 10000);
    for pt in &traj[1..] {
        let h = ham.hamiltonian(&pt.q, &pt.p);
        assert!(
            (h.0 - h0.0).abs() < 1e-4,
            "H should be conserved, got drift {}",
            (h.0 - h0.0).abs()
        );
    }
}

#[test]
fn test_harmonic_period() {
    let ham = harmonic_1d();
    let dt = 0.001;
    let integrator = HamiltonianIntegrator::new(R(dt));
    let initial = point([1.0], [0.0]);

    let steps = (std::f64::consts::TAU / dt) as usize + 1;
    let traj = integrator.integrate(&ham, &initial, steps);
    let final_pt = traj.last().unwrap();

    assert!((final_pt.q[0].0 - 1.0).abs() < 1e-3, "q should return to 1.0");
    assert!(final_pt.p[0].0.abs() < 1e-3, "p should return to ~0.0");
}

#[test]
fn test_poisson_bracket_canonical() {
    // {q, p} = 1 for canonical coordinates
    let f = |q: &[R; 1], _p: &[R; 1]| q[0]; // f = q
    let g = |_q: &[R; 1], p: &[R; 1]| p[0]; // g = p
    let bracket = poisson_bracket(&f, &g, &arr([1.0]), &arr([2.0]));
    assert!((bracket.0 - 1.0).abs() < 1e-6, "{{q,p}} should be 1, got {}", bracket.0);
}

#[test]
fn test_poisson_bracket_anticommutative() {
    let f = |q: &[R; 1], p: &[R; 1]| q[0] * p[0]; // f = qp
    let g = |q: &[R; 1], p: &[R; 1]| q[0] + p[0]; // g = q + p
    let b1 = poisson_bracket(&f, &g, &arr([1.0]), &arr([1.0]));
    let b2 = poisson_bracket(&g, &f, &arr([1.0]), &arr([1.0]));
    assert!((b1.0 + b2.0).abs() < 1e-6, "{{f,g}} = -{{g,f}}");
}

#[test]
fn test_poisson_bracket_hamiltonian_flow() {
    // {H, q} = -dq/dt should equal ∂H/∂p * (-1) ... actually {H,q} = -ṗ
    // For harmonic oscillator H = p²/2 + q²/2: {H,q} = -∂H/∂p = -p
    let ham = |_q: &[R; 1], p: &[R; 1]| 0.5 * p[0] * p[0] + 0.5 * _q[0] * _q[0];
    let q_fn = |q: &[R; 1], _p: &[R; 1]| q[0];
    let bracket = poisson_bracket(&ham, &q_fn, &arr([1.0]), &arr([2.0]));
    assert!(
        (bracket.0 - (-2.0)).abs() < 1e-4,
        "{{H,q}} should be -p = -2, got {}",
        bracket.0
    );
}

#[test]
fn test_phase_space_volume() {
    let pts = vec![
        point([0.0], [0.0]),
        point([1.0], [0.0]),
        point([0.0], [1.0]),
        point([1.0], [1.0]),
    ];
    let vol = phase_space_volume(&pts);
    assert!((vol.0 - 1.0_f64).abs() < 1e-10, "volume of unit square should be 1");
}

#[test]
fn test_verify_liouville() {
    let ham = harmonic_1d();
    let dt = R(0.01);
    let integrator = HamiltonianIntegrator::new(dt);

    // Create a small cloud of initial points
    let initial: Vec<PhaseSpacePoint<R, 1>> =
        (0..5).map(|i| point([0.1 * i as f64], [0.1])).collect();

    let evolved: Vec<PhaseSpacePoint<R, 1>> =
        initial.iter().map(|pt| integrator.step(&ham, pt)).collect();

    assert!(
        verify_liouville(&initial, &evolved, R(0.1)),
        "Liouville should hold approximately"
    );
}

#[test]
fn test_find_recurrence() {
    let ham = harmonic_1d();
    let dt = R(0.01);
    let integrator = HamiltonianIntegrator::new(dt);
    let initial = point([1.0], [0.0]);

    // Integrate ~1.5 periods
    let traj = integrator.integrate(&ham, &initial, 1000);
    let recurrence = find_recurrence(&traj, R(0.05), 100);
    assert!(
        recurrence.is_some(),
        "should find near-recurrence for harmonic oscillator"
    );
    // Period ≈ 2π ≈ 628 steps at dt=0.01
    if let Some(step) = recurrence {
        assert!(step > 500 && step < 700, "recurrence at step {step}, expected ~628");
    }
}

#[test]
fn test_2d_hamiltonian() {
    let ham: SeparableHamiltonian<R, _, 2> = SeparableHamiltonian {
        mass: R(1.0),
        potential: |q: &[R; 2]| 0.5 * (q[0] * q[0] + q[1] * q[1]),
    };
    let dt = R(0.001);
    let integrator = HamiltonianIntegrator::new(dt);
    let initial = point([1.0, 0.0], [0.0, 1.0]);
    let h0 = ham.hamiltonian(&initial.q, &initial.p);

    let traj = integrator.integrate(&ham, &initial, 5000);
    for pt in &traj[100..] {
        let h = ham.hamiltonian(&pt.q, &pt.p);
        assert!((h.0 - h0.0).abs() < 1e-3);
    }
}

// ---------------------------------------------------------------------------
// lagrangian
// ---------------------------------------------------------------------------

#[test]
fn harmonic_oscillator_period() {
    // V = ½ k x², k = 1, m = 1  →  ω = 1, T = 2π
    let k = R(1.0);
    let m = R(1.0);
    let potential = |q: &[R; 1]| 0.5 * k * q[0] * q[0];
    let dt = 0.001;
    let integrator = integrator(dt);
    let initial = state([1.0], [0.0]);

    // Integrate one full period (≈ 6.283185)
    let steps = ((std::f64::consts::TAU / dt) as usize) + 1;
    let traj = integrator.integrate(m, &potential, &initial, steps).unwrap();

    // Position should return close to initial value
    let final_state = traj.last().unwrap();
    assert!(relative_eq(final_state.q[0], 1.0, 1e-3));
    assert!(relative_eq(final_state.q_dot[0], 0.0, 1e-3));
}

#[test]
fn energy_conservation_symplectic() {
    let k = R(2.0);
    let m = R(1.5);
    let potential = |q: &[R; 2]| 0.5 * k * (q[0] * q[0] + q[1] * q[1]);
    let lagrangian = MechanicalLagrangian { mass: m, potential_fn: potential };
    let integrator = integrator(0.001);
    let initial = state([1.0, -0.5], [0.2, 0.3]);

    let e0 = total_energy(&lagrangian, &initial);
    let traj = integrator.integrate(m, &potential, &initial, 10_000).unwrap();

    for state in &traj[1..] {
        let e = total_energy(&lagrangian, state);
        // Symplectic integrator should keep energy bounded (no drift)
        assert!(relative_eq(e, e0.0, 1e-4));
    }
}

#[test]
fn free_particle_motion() {
    let m = R(1.0);
    let potential = |_: &[R; 3]| R(0.0); // free particle
    let integrator = integrator(0.01);
    let v0 = [1.0, 2.0, -0.5];
    let initial = state([0.0, 0.0, 0.0], v0);

    let traj = integrator.integrate(m, &potential, &initial, 100).unwrap();
    let final_state = traj.last().unwrap();

    // Position should be x = v0 * t
    assert!(relative_eq(final_state.q[0], v0[0] * 1.0, 1e-10));
    assert!(relative_eq(final_state.q[1], v0[1] * 1.0, 1e-10));
    assert!(relative_eq(final_state.q[2], v0[2] * 1.0, 1e-10));
}

#[test]
fn rejects_non_positive_step_size() {
    assert_eq!(
        SymplecticIntegrator::<R, 1>::new(R(0.0)).unwrap_err(),
        DynamicsError::StepSizeTooSmall
    );
    assert_eq!(
        SymplecticIntegrator::<R, 1>::new(R(-0.01)).unwrap_err(),
        DynamicsError::StepSizeTooSmall
    );
}

#[test]
fn rejects_non_positive_or_non_finite_mass() {
    let integrator = integrator(0.01);
    let potential = |q: &[R; 1]| 0.5 * q[0] * q[0];
    let state = state([1.0], [0.0]);

    assert_eq!(
        integrator.step(R(0.0), &potential, &state).unwrap_err(),
        DynamicsError::IntegrationDiverged
    );
    assert_eq!(
        integrator.step(R(-1.0), &potential, &state).unwrap_err(),
        DynamicsError::IntegrationDiverged
    );
    assert_eq!(
        integrator.step(R(f64::NAN), &potential, &state).unwrap_err(),
        DynamicsError::IntegrationDiverged
    );
    assert_eq!(
        integrator.step(R(f64::INFINITY), &potential, &state).unwrap_err(),
        DynamicsError::IntegrationDiverged
    );
}

#[test]
fn integrate_zero_steps_returns_initial_state() {
    let integrator = integrator(0.01);
    let potential = |q: &[R; 1]| 0.5 * q[0] * q[0];
    let initial = state([1.0], [0.0]);
    let traj = integrator.integrate(R(1.0), &potential, &initial, 0).unwrap();
    assert_eq!(traj.len(), 1);
    assert_eq!(traj[0], initial);
}

// ---------------------------------------------------------------------------
// noether
// ---------------------------------------------------------------------------

#[test]
fn translation_invariance_free_particle() {
    let potential = |_: &[R; 2]| R(0.0);
    let lagrangian = MechanicalLagrangian { mass: R(1.0), potential_fn: potential };
    let state = state([1.0, 2.0], [3.0, 4.0]);
    let sym = TranslationSymmetry::<2> { axis: 0 };

    let inv = test_invariance(&lagrangian, &sym, &state, R(1e-3), R(1e-10));
    assert!(inv.invariant, "free particle should be translation invariant");
}

#[test]
fn translation_not_invariant_harmonic() {
    let potential = |q: &[R; 1]| 0.5 * q[0] * q[0];
    let lagrangian = MechanicalLagrangian { mass: R(1.0), potential_fn: potential };
    let state = state([1.0], [0.0]);
    let sym = TranslationSymmetry::<1> { axis: 0 };

    let inv = test_invariance(&lagrangian, &sym, &state, R(1e-3), R(1e-10));
    assert!(!inv.invariant, "harmonic potential breaks translation");
}

#[test]
fn rotation_invariance_central_potential() {
    let potential = |q: &[R; 2]| {
        let r2 = q[0] * q[0] + q[1] * q[1];
        r2.sqrt() // V(r) = r
    };
    let lagrangian = MechanicalLagrangian { mass: R(2.0), potential_fn: potential };
    let state = state([1.0, 0.5], [-0.2, 0.3]);
    let sym = RotationSymmetry { i: 0, j: 1 };

    let inv = test_invariance(&lagrangian, &sym, &state, R(1e-4), R(1e-10));
    assert!(inv.invariant, "central potential should be rotation invariant");
}

#[test]
fn angular_momentum_conservation() {
    // Central potential → angular momentum conserved
    let m = R(1.0);
    let potential = |q: &[R; 2]| {
        let r2 = q[0] * q[0] + q[1] * q[1];
        0.5 * r2
    };
    let integrator = integrator(0.001);
    let initial = state([1.0, 0.0], [0.0, 1.0]);
    let traj = integrator.integrate(m, &potential, &initial, 5000).unwrap();

    let sym = RotationSymmetry { i: 0, j: 1 };
    let monitor = verify_noether(
        &MechanicalLagrangian { mass: m, potential_fn: potential },
        &sym,
        &traj,
        m,
        R(1e-6),
        R(1e-8),
    )
    .expect("Noether verification should pass");

    assert!(monitor.max_drift().0 < 1e-6);
}

#[test]
fn linear_momentum_conservation_free_particle() {
    let m = R(2.0);
    let potential = |_: &[R; 3]| R(0.0);
    let integrator = integrator(0.01);
    let initial = state([0.0, 0.0, 0.0], [1.0, 2.0, 3.0]);
    let traj = integrator.integrate(m, &potential, &initial, 100).unwrap();

    let sym = TranslationSymmetry::<3> { axis: 1 };
    let monitor = verify_noether(
        &MechanicalLagrangian { mass: m, potential_fn: potential },
        &sym,
        &traj,
        m,
        R(1e-6),
        R(1e-10),
    )
    .expect("Noether verification should pass");

    assert!(monitor.is_conserved());
    // Charge should equal p_y = m * v_y
    assert!(relative_eq(monitor.values[0], m.0 * 2.0, 1e-10));
}

#[test]
fn energy_conservation_via_time_translation() {
    let m = R(1.0);
    let k = R(1.0);
    let potential = |q: &[R; 1]| 0.5 * k * q[0] * q[0];
    let lagrangian = MechanicalLagrangian { mass: m, potential_fn: potential };
    let integrator = integrator(0.001);
    let initial = state([1.0], [0.0]);
    let traj = integrator.integrate(m, &potential, &initial, 1000).unwrap();

    // Energy is the Noether charge for time translation
    let mut e_monitor = ChargeMonitor::new(R(1e-5));
    for state in &traj {
        e_monitor.push(total_energy(&lagrangian, state));
    }
    assert!(e_monitor.is_conserved());
}

#[test]
fn verify_noether_time_translation_yields_energy() {
    // Regression check: TimeTranslationSymmetry must produce the Hamiltonian
    // H = T + V as the conserved Noether charge, not 2T.
    let m = R(1.0);
    let k = R(1.0);
    let potential = |q: &[R; 1]| 0.5 * k * q[0] * q[0];
    let lagrangian = MechanicalLagrangian { mass: m, potential_fn: potential };
    let integrator = integrator(0.001);
    // Start away from the turning point so q_dot is non-zero along the orbit.
    let initial = state([0.8], [0.6]);
    let traj = integrator.integrate(m, &potential, &initial, 2000).unwrap();

    let e0 = total_energy(&lagrangian, &initial);
    let sym = TimeTranslationSymmetry;
    let monitor = verify_noether(&lagrangian, &sym, &traj, m, R(1e-4), R(1e-4))
        .expect("energy should be conserved under time translation");

    assert!(
        monitor.is_conserved(),
        "Noether charge for time translation should be conserved (max drift = {})",
        monitor.max_drift().0
    );
    // The conserved charge must equal the physical energy E = T + V.
    assert!(relative_eq(monitor.values[0], e0.0, 1e-10));
}

#[test]
fn verify_noether_rejects_non_invariant_symmetry() {
    let potential = |q: &[R; 1]| 0.5 * q[0] * q[0];
    let lagrangian = MechanicalLagrangian { mass: R(1.0), potential_fn: potential };
    let initial = state([1.0], [0.0]);
    let traj = vec![initial.clone()];
    let sym = TranslationSymmetry::<1> { axis: 0 };

    let result = verify_noether(&lagrangian, &sym, &traj, R(1.0), R(1e-3), R(1e-10));
    assert!(result.is_err());
    assert!(result.unwrap_err().contains("not invariant"));
}

#[test]
fn verify_noether_rejects_non_conserved_charge() {
    // Use a free-particle Lagrangian (translation invariant) but supply an
    // invalid trajectory where velocity changes, so the Noether charge
    // (linear momentum) drifts. This exercises the "charge not conserved"
    // error path independently of the "Lagrangian not invariant" path.
    let potential = |_q: &[R; 1]| R(0.0);
    let lagrangian = MechanicalLagrangian { mass: R(1.0), potential_fn: potential };
    let traj = vec![state([0.0], [1.0]), state([0.1], [2.0]), state([0.3], [3.0])];
    let sym = TranslationSymmetry::<1> { axis: 0 };

    let result = verify_noether(&lagrangian, &sym, &traj, R(1.0), R(1e-3), R(1e-10));
    assert!(result.is_err());
    assert!(result.unwrap_err().contains("not conserved"));
}

#[test]
fn charge_monitor_empty_is_vacuously_conserved() {
    let monitor = ChargeMonitor::<R>::new(R(1e-6));
    assert!(monitor.is_conserved());
    assert_eq!(monitor.max_drift(), R(0.0));
}

// ---------------------------------------------------------------------------
// Exact values, edge cases and laws on concrete inputs
// ---------------------------------------------------------------------------

#[test]
fn central_diff_of_square_is_exact() {
    let d = central_diff(|x: R| x * x, R(3.0), R(0.5));
    assert_eq!(d, R(6.0));
}

#[test]
fn time_derivative_uses_forward_central_and_backward_differences() {
    let q = arr([0.0, 1.0, 4.0, 9.0]);
    let dq = time_derivative(&q, R(1.0));
    assert_eq!(dq, vec![R(1.0), R(2.0), R(4.0), R(5.0)]);
    let two = time_derivative(&arr([2.0, 5.0]), R(0.5));
    assert_eq!(two, vec![R(6.0), R(6.0)]);
}

#[test]
fn mechanical_lagrangian_energies() {
    let lagrangian = MechanicalLagrangian { mass: R(2.0), potential_fn: |q: &[R; 2]| q[0] + q[1] };
    let s = state([1.0, 2.0], [3.0, 1.0]);
    assert_eq!(lagrangian.kinetic(&s), R(10.0));
    assert_eq!(lagrangian.potential(&s), R(3.0));
    assert_eq!(lagrangian.lagrangian(&s), R(7.0));
    assert_eq!(total_energy(&lagrangian, &s), R(13.0));
}

#[test]
fn dynamics_error_messages() {
    assert_eq!(DynamicsError::StepSizeTooSmall.message(), "step size too small");
    assert_eq!(DynamicsError::IntegrationDiverged.message(), "integration diverged");
}

#[test]
fn generalised_force_of_harmonic_potential() {
    let integrator: SymplecticIntegrator<R, 2> = integrator(0.1);
    let potential = |q: &[R; 2]| 0.5 * (q[0] * q[0] + q[1] * q[1]);
    let f = integrator.generalised_force(&potential, &arr([2.0, -1.0]));
    assert!((f[0].0 + 2.0).abs() < 1e-6);
    assert!((f[1].0 - 1.0).abs() < 1e-6);
}

#[test]
fn free_particle_step_is_exact_drift() {
    let integrator = integrator(0.5);
    let next = integrator
        .step(R(2.0), &|_: &[R; 1]| R(0.0), &state([1.0], [4.0]))
        .unwrap();
    assert_eq!(next, state([3.0], [4.0]));
}

#[test]
fn integration_is_deterministic_and_composes() {
    let integrator = integrator(0.01);
    let potential = |q: &[R; 1]| 0.5 * q[0] * q[0];
    let initial = state([1.0], [0.0]);
    let a = integrator.integrate(R(1.0), &potential, &initial, 5).unwrap();
    let b = integrator.integrate(R(1.0), &potential, &initial, 5).unwrap();
    assert_eq!(a, b);
    let first = integrator.integrate(R(1.0), &potential, &initial, 3).unwrap();
    let second = integrator.integrate(R(1.0), &potential, first.last().unwrap(), 2).unwrap();
    let mut joined = first.clone();
    joined.extend_from_slice(&second[1..]);
    assert_eq!(joined, a);
}

#[test]
fn integrate_refuses_bad_mass_only_when_stepping() {
    let integrator = integrator(0.01);
    let potential = |q: &[R; 1]| q[0];
    let initial = state([1.0], [0.0]);
    assert_eq!(
        integrator.integrate(R(0.0), &potential, &initial, 3).unwrap_err(),
        DynamicsError::IntegrationDiverged
    );
    assert_eq!(integrator.integrate(R(0.0), &potential, &initial, 0).unwrap(), vec![initial]);
}

#[test]
fn symmetry_generators_names_and_transforms() {
    let s = state([1.0, 2.0, 3.0], [4.0, 5.0, 6.0]);
    let translation = TranslationSymmetry::<3> { axis: 1 };
    assert_eq!(Symmetry::<R, 3>::name(&translation), "translation");
    assert_eq!(translation.generator_q(&s), arr([0.0, 1.0, 0.0]));
    assert_eq!(translation.transform(&s, R(0.5)), state([1.0, 2.5, 3.0], [4.0, 5.0, 6.0]));

    let time = TimeTranslationSymmetry;
    assert_eq!(Symmetry::<R, 3>::name(&time), "time_translation");
    assert_eq!(time.generator_q(&s), arr([4.0, 5.0, 6.0]));
    assert_eq!(time.transform(&s, R(0.5)), state([3.0, 4.5, 6.0], [4.0, 5.0, 6.0]));

    let rotation = RotationSymmetry { i: 0, j: 2 };
    assert_eq!(Symmetry::<R, 3>::name(&rotation), "rotation");
    assert_eq!(rotation.generator_q(&s), arr([-3.0, 0.0, 1.0]));
    let turned = rotation.transform(&s, R(0.0));
    assert_eq!(turned, s);
}

#[test]
fn rotation_turns_by_given_cosine_and_sine() {
    let rotation = RotationSymmetry { i: 0, j: 1 };
    let s = state([1.0, 2.0, 3.0], [4.0, 5.0, 6.0]);
    // A quarter turn: (x, y) -> (-y, x), in positions and velocities alike.
    let turned = rotation.turn(&s, R(0.0), R(1.0));
    assert_eq!(turned, state([-2.0, 1.0, 3.0], [-5.0, 4.0, 6.0]));
    // A half turn.
    let flipped = rotation.turn(&s, R(-1.0), R(0.0));
    assert_eq!(flipped, state([-1.0, -2.0, 3.0], [-4.0, -5.0, 6.0]));
}

#[test]
fn invariance_between_given_image() {
    let lagrangian = MechanicalLagrangian { mass: R(2.0), potential_fn: |q: &[R; 1]| q[0] };
    let s = state([3.0], [1.0]);
    // L(s) = 1 - 3 = -2, L(image) = 4 - 1 = 3.
    let image = state([1.0], [2.0]);
    let r = invariance_between(&lagrangian, &s, &image, R(0.5), R(6.0));
    assert_eq!(r.delta_lagrangian, R(5.0));
    assert!(r.invariant);
    assert_eq!(r.epsilon, R(0.5));
    let r = invariance_between(&lagrangian, &s, &image, R(0.5), R(5.0));
    assert!(!r.invariant);
    assert_eq!(lagrangian.lagrangian(&image), R(3.0));
}

#[test]
fn surface_terms() {
    let lagrangian = MechanicalLagrangian { mass: R(2.0), potential_fn: |q: &[R; 1]| q[0] };
    let s = state([3.0], [1.0]);
    // T = 1, V = 3, so L = -2.
    assert_eq!(TimeTranslationSymmetry.surface_term(&lagrangian, &s), R(-2.0));
    assert_eq!(TranslationSymmetry::<1> { axis: 0 }.surface_term(&lagrangian, &s), R(0.0));
    assert_eq!(RotationSymmetry { i: 0, j: 0 }.surface_term(&lagrangian, &s), R(0.0));
}

#[test]
fn translation_invariance_measures_exact_zero_for_constant_potential() {
    let lagrangian = MechanicalLagrangian { mass: R(3.0), potential_fn: |_: &[R; 2]| R(7.0) };
    let s = state([1.0, 2.0], [0.5, -0.5]);
    let inv = test_invariance(&lagrangian, &TranslationSymmetry::<2> { axis: 1 }, &s, R(0.25), R(1e-12));
    assert_eq!(inv.delta_lagrangian, R(0.0));
    assert_eq!(inv.epsilon, R(0.25));
    assert!(inv.invariant);
}

#[test]
fn noether_charge_of_translation_is_momentum() {
    let s = state([0.0, 0.0, 0.0], [1.0, 2.0, 3.0]);
    let charge = noether_charge(R(2.0), &s, &arr([0.0, 1.0, 0.0]));
    assert_eq!(charge, R(4.0));
}

#[test]
fn charge_monitor_drift_and_tolerance() {
    let mut monitor = ChargeMonitor::new(R(2.5));
    monitor.push(R(1.0));
    monitor.push(R(3.0));
    monitor.push(R(0.0));
    assert_eq!(monitor.values, vec![R(1.0), R(3.0), R(0.0)]);
    assert_eq!(monitor.max_drift(), R(2.0));
    assert!(monitor.is_conserved());
    let strict = ChargeMonitor { values: monitor.values.clone(), tolerance: R(2.0) };
    assert!(!strict.is_conserved());
}

#[test]
fn verify_noether_messages_name_symmetry_and_values() {
    let lagrangian = MechanicalLagrangian { mass: R(1.0), potential_fn: |q: &[R; 1]| q[0] };
    let traj = vec![state([0.0], [1.0])];
    let err = verify_noether(&lagrangian, &TranslationSymmetry::<1> { axis: 0 }, &traj, R(1.0), R(0.5), R(0.1))
        .unwrap_err();
    assert_eq!(err, "Lagrangian not invariant under translation (ΔL = 0.5)");

    let free = MechanicalLagrangian { mass: R(1.0), potential_fn: |_: &[R; 1]| R(0.0) };
    let traj = vec![state([0.0], [1.0]), state([0.0], [3.0])];
    let err = verify_noether(&free, &TranslationSymmetry::<1> { axis: 0 }, &traj, R(1.0), R(0.5), R(0.1))
        .unwrap_err();
    assert_eq!(err, "Noether charge not conserved for translation (max drift = 2.0)");
}

#[test]
fn detector_names_and_order_of_a_full_survey() {
    let initial = state([0.0, 0.0, 0.0], [1.0, 2.0, 3.0]);
    let detector = verify_all_conservation(R(1.0), |_: &[R; 3]| R(0.0), &initial, R(0.1), 3, R(1e-8));
    let names: Vec<&str> = detector.quantities.iter().map(|q| q.name.as_str()).collect();
    assert_eq!(
        names,
        vec![
            "energy",
            "momentum_axis_0",
            "momentum_axis_1",
            "momentum_axis_2",
            "angular_momentum_(0,1)",
            "angular_momentum_(0,2)",
            "angular_momentum_(1,2)",
        ]
    );
    assert_eq!(detector.tolerance, R(1e-8));
    assert_eq!(detector.quantities[1].initial_value, R(1.0));
}

#[test]
fn detector_records_peak_drift() {
    let traj = vec![state([0.0], [1.0]), state([0.0], [4.0]), state([0.0], [2.0])];
    let mut detector: ConservationDetector<R, 1> = ConservationDetector::new(R(2.0));
    detector.check_linear_momentum(R(2.0), &traj, 0);
    let q = &detector.quantities[0];
    assert_eq!(q.name, "momentum_axis_0");
    assert_eq!(q.initial_value, R(2.0));
    assert_eq!(q.max_drift, R(6.0));
    assert!(!q.is_conserved);
    assert_eq!(q.verify(R(2.0)), q.is_conserved);
    assert_eq!(detector.num_conserved(), 0);
    assert!(!detector.all_conserved());
    detector.check_angular_momentum(R(1.0), &traj, 0, 0);
    assert_eq!(detector.quantities[1].name, "angular_momentum_(0,0)");
    assert!(detector.quantities[1].is_conserved);
    assert_eq!(detector.num_conserved(), 1);
}

#[test]
fn energy_spread_is_population_std_dev() {
    let lagrangian = MechanicalLagrangian { mass: R(2.0), potential_fn: |_: &[R; 1]| R(0.0) };
    let traj = vec![state([0.0], [1.0]), state([0.0], [3.0])];
    // Energies 1 and 9: mean 5, variance 16.
    assert_eq!(energy_spread(&lagrangian, &traj), R(4.0));
}

#[test]
fn decimal_rendering() {
    let mut text = String::from("x_");
    push_decimal(&mut text, 0);
    assert_eq!(text, "x_0");
    let mut text = String::new();
    push_decimal(&mut text, 1234);
    assert_eq!(text, "1234");
}

#[test]
fn phase_space_point_measures() {
    let pt = point([1.0, -2.0], [3.0, 0.5]);
    // |1 * 3| * |-2 * 0.5|
    assert_eq!(pt.volume_element(), R(3.0));
    assert_eq!(point([2.0, 0.0], [4.0, 1.0]).volume_element(), R(0.0));
    assert_eq!(pt.distance(&pt), R(0.0));
}

#[test]
fn phase_space_volume_edge_cases() {
    let empty: Vec<PhaseSpacePoint<R, 1>> = Vec::new();
    assert_eq!(phase_space_volume(&empty), R(0.0));
    let flat = vec![point([1.0], [2.0]), point([1.0], [5.0])];
    assert_eq!(phase_space_volume(&flat), R(0.0));
    // A zero initial volume counts as preserved.
    assert!(verify_liouville(&flat, &[point([0.0], [0.0]), point([9.0], [9.0])], R(0.1)));
    let square = vec![point([0.0], [0.0]), point([2.0], [1.0])];
    let grown = vec![point([0.0], [0.0]), point([4.0], [1.0])];
    assert!(!verify_liouville(&square, &grown, R(0.5)));
}

#[test]
fn find_recurrence_edge_cases() {
    let empty: Vec<PhaseSpacePoint<R, 1>> = Vec::new();
    assert_eq!(find_recurrence(&empty, R(1.0), 0), None);
    let traj = vec![point([0.0], [0.0]), point([5.0], [0.0]), point([0.5], [0.0]), point([0.1], [0.0])];
    assert_eq!(find_recurrence(&traj, R(1.0), 1), Some(2));
    // The initial point itself is never a recurrence.
    assert_eq!(find_recurrence(&traj, R(1.0), 0), Some(2));
    let still = vec![point([0.0], [0.0]), point([0.0], [0.0])];
    assert_eq!(find_recurrence(&still, R(1.0), 0), Some(1));
    assert_eq!(find_recurrence(&still[..1].to_vec(), R(1.0), 0), None);
    assert_eq!(find_recurrence(&traj, R(1.0), 9), None);
    assert_eq!(find_recurrence(&traj, R(0.01), 1), None);
}

#[test]
fn hamiltonian_integrate_zero_steps_and_bracket_value() {
    let ham = harmonic_1d();
    let integrator = HamiltonianIntegrator::new(R(0.1));
    let initial = point([1.0], [0.0]);
    assert_eq!(integrator.integrate(&ham, &initial, 0), vec![initial]);
    let f = |q: &[R; 1], p: &[R; 1]| q[0] * p[0];
    let g = |q: &[R; 1], _p: &[R; 1]| q[0];
    // {qp, q} = -q
    let b = poisson_bracket(&f, &g, &arr([3.0]), &arr([2.0]));
    assert!((b.0 + 3.0).abs() < 1e-6);
}

#[test]
fn fleet_construction_defaults() {
    let fleet = fleet(&[1.0, 2.0], 2.0);
    assert_eq!(fleet.max_transfer_fraction, R(0.25));
    assert_eq!(fleet.failure_threshold, 3);
    assert_eq!(fleet.circuit_state(), CircuitState::Closed);
    assert_eq!(fleet.total_energy(), R(3.0));
    let empty = fleet_of_nothing();
    assert_eq!(empty.mean(), R(0.0));
    assert_eq!(empty.std_dev(), R(0.0));
    assert!(empty.z_scores().is_empty());
}

fn fleet_of_nothing() -> FleetConservation<R> {
    FleetConservation::new(Vec::new(), R(1.0))
}

#[test]
fn transfer_error_messages() {
    let mut fleet = fleet(&[10.0, 100.0, 100.0, 100.0], 2.0);
    fleet.failure_threshold = 6;
    assert_eq!(fleet.transfer_with_guard(4, 0, R(1.0)).unwrap_err(), "index out of bounds");
    assert_eq!(
        fleet.transfer_with_guard(1, 1, R(1.0)).unwrap_err(),
        "source and destination must differ"
    );
    assert_eq!(fleet.transfer_with_guard(1, 0, R(0.0)).unwrap_err(), "amount must be positive");
    assert_eq!(
        fleet.transfer_with_guard(1, 0, R(300.0)).unwrap_err(),
        "amount 300 exceeds max fraction of total 77.5"
    );
    assert_eq!(
        fleet.transfer_with_guard(0, 1, R(50.0)).unwrap_err(),
        "agent 0 has insufficient energy (10)"
    );
    // Five refused transfers so far; energies untouched, circuit still Closed.
    assert_eq!(fleet.energies, vec![R(10.0), R(100.0), R(100.0), R(100.0)]);
    assert_eq!(fleet.circuit_state(), CircuitState::Closed);
    // The sixth refusal opens the circuit.
    let _ = fleet.transfer_with_guard(0, 1, R(50.0));
    assert_eq!(fleet.circuit_state(), CircuitState::Open);
    assert_eq!(
        fleet.transfer_with_guard(1, 0, R(1.0)).unwrap_err(),
        "circuit breaker is Open — transfers halted"
    );
    assert_eq!(fleet.energies, vec![R(10.0), R(100.0), R(100.0), R(100.0)]);
}

#[test]
fn every_refused_transfer_counts_toward_the_breaker() {
    let mut bad_index = fleet(&[100.0, 100.0], 2.0);
    bad_index.failure_threshold = 1;
    assert!(bad_index.transfer_with_guard(0, 99, R(10.0)).is_err());
    assert_eq!(bad_index.energies, vec![R(100.0), R(100.0)]);
    assert_eq!(bad_index.circuit_state(), CircuitState::Open);

    let mut same = fleet(&[100.0, 100.0], 2.0);
    same.failure_threshold = 1;
    assert!(same.transfer_with_guard(1, 1, R(10.0)).is_err());
    assert_eq!(same.circuit_state(), CircuitState::Open);

    let mut non_positive = fleet(&[100.0, 100.0], 2.0);
    non_positive.failure_threshold = 1;
    assert!(non_positive.transfer_with_guard(0, 1, R(-1.0)).is_err());
    assert_eq!(non_positive.circuit_state(), CircuitState::Open);

    // A success in between resets the count.
    let mut mixed = fleet(&[100.0, 100.0], 2.0);
    mixed.failure_threshold = 2;
    assert!(mixed.transfer_with_guard(0, 0, R(1.0)).is_err());
    assert!(mixed.transfer_with_guard(0, 1, R(1.0)).is_ok());
    assert!(mixed.transfer_with_guard(0, 0, R(1.0)).is_err());
    assert_eq!(mixed.circuit_state(), CircuitState::Closed);
    assert!(mixed.transfer_with_guard(0, 5, R(1.0)).is_err());
    assert_eq!(mixed.circuit_state(), CircuitState::Open);
}

#[test]
fn audit_of_unstable_fleet_trips_breaker() {
    let mut two = fleet(&[0.0, 10.0], 0.5);
    let report = two.audit_fleet();
    assert_eq!(report.anomalous_agents, vec![0, 1]);
    assert!(!report.system_stable);
    assert_eq!(two.circuit_state(), CircuitState::Open);

    let mut calm = make_balanced_fleet();
    let report = calm.audit_fleet();
    assert!(report.system_stable);
    assert_eq!(calm.circuit_state(), CircuitState::Closed);
}

#[test]
fn circuit_breaker_transitions() {
    let mut fleet = make_balanced_fleet();
    assert!(!fleet.try_half_open());
    assert_eq!(fleet.circuit_state(), CircuitState::Closed);
    fleet.trip();
    assert_eq!(fleet.circuit_state(), CircuitState::Open);
    assert!(fleet.try_half_open());
    // One successful probe keeps the circuit HalfOpen.
    fleet.transfer_with_guard(0, 1, R(5.0)).unwrap();
    assert_eq!(fleet.circuit_state(), CircuitState::HalfOpen);
    fleet.reset();
    assert_eq!(fleet.circuit_state(), CircuitState::Closed);
    fleet.transfer_with_guard(0, 1, R(5.0)).unwrap();
    assert_eq!(fleet.energies, vec![R(90.0), R(110.0), R(100.0), R(100.0)]);
}

#[test]
fn audit_flags_in_order_and_reports_instability() {
    let mut unstable = fleet(&[0.0, 0.0, 10.0, 10.0], 0.5);
    let report = unstable.audit_fleet();
    assert_eq!(report.z_scores, vec![R(-1.0), R(-1.0), R(1.0), R(1.0)]);
    assert_eq!(report.anomalous_agents, vec![0, 1, 2, 3]);
    assert!(!report.system_stable);
    assert_eq!(report.mean_energy, R(5.0));
    assert_eq!(report.std_dev, R(5.0));
    // An unstable fleet trips the breaker; the energies stay as they were.
    assert_eq!(unstable.circuit_state(), CircuitState::Open);
    assert_eq!(unstable.energies, vec![R(0.0), R(0.0), R(10.0), R(10.0)]);
    assert!(unstable.transfer_with_guard(2, 0, R(1.0)).is_err());
    let flat = fleet(&[3.0, 3.0], 0.5);
    assert_eq!(flat.z_scores(), vec![R(0.0), R(0.0)]);
}

#[test]
fn zscore_below_epsilon_is_zero() {
    assert_eq!(zscore(R(4.0), R(2.0), R(f64::EPSILON / 2.0)), R(0.0));
    assert_eq!(zscore(R(4.0), R(2.0), R(0.5)), R(4.0));
}
