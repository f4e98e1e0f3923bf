//! Fleet integration: energy conservation across a fleet of agents.
//!
//! Bridges conservation-law concepts with fleet management patterns:
//! - **Anomaly detection** via Z-score thresholds to trigger conservation audits
//!   when agent energy profiles deviate from fleet norms.
//! - **Circuit breaker** pattern (Closed / Open / HalfOpen) to halt energy
//!   transfers when the system is detected as unstable.
//!
//! This module treats a fleet of agents as a thermodynamic ensemble and applies
//! conservation-law bookkeeping to energy transfers between agents.
use crate::text::{decimal, push_decimal};
use crate::{
    mean_of, population_std_dev, scalar_two, squared_deviations, sum_prefix, sum_values, two,
    Scalar,
};
use vstd::prelude::*;

verus! {

// ---------------------------------------------------------------------------
// Circuit-breaker states
// ---------------------------------------------------------------------------
/// Circuit-breaker state for energy transfer protection.
#[derive(Debug, Clone, Copy, PartialEq, Eq, Structural)]
pub enum CircuitState {
    /// Normal operation — transfers allowed.
    Closed,
    /// Transfer halted — system unstable.
    Open,
    /// Probing — allow one transfer to test recovery.
    HalfOpen,
}

// ---------------------------------------------------------------------------
// Conservation report
// ---------------------------------------------------------------------------
/// Result of a fleet-wide conservation audit.
#[derive(Debug, Clone)]
pub struct ConservationReport<S: Scalar> {
    /// Mean energy across the fleet.
    pub mean_energy: S,
    /// Standard deviation of fleet energy.
    pub std_dev: S,
    /// Indices of agents flagged as anomalous (Z-score > threshold).
    pub anomalous_agents: Vec<usize>,
    /// Z-scores for each agent.
    pub z_scores: Vec<S>,
    /// Whether the overall system is considered stable.
    pub system_stable: bool,
}

// ---------------------------------------------------------------------------
// FleetConservation — main struct
// ---------------------------------------------------------------------------
/// Tracks energy budget across a fleet of agents and guards transfers using
/// anomaly detection (Z-score) and a circuit-breaker pattern.
#[derive(Debug, Clone)]
pub struct FleetConservation<S: Scalar> {
    /// Current energy held by each agent.
    pub energies: Vec<S>,
    /// Z-score threshold above which an agent is flagged anomalous.
    pub z_threshold: S,
    /// Maximum allowed fraction of a single transfer relative to total fleet energy.
    pub max_transfer_fraction: S,
    /// Circuit-breaker state.
    pub circuit: CircuitState,
    /// Number of consecutive failures that trips the circuit to Open.
    pub failure_threshold: usize,
    /// Running count of consecutive transfer failures.
    pub consecutive_failures: usize,
    /// Number of successful probe transfers while in HalfOpen.
    pub probe_successes: usize,
    /// Probes needed to transition HalfOpen → Closed.
    pub probes_needed: usize,
}

/// `1 / (2 + 2)`, the default cap on a single transfer as a share of the fleet's energy.
pub open spec fn quarter<S: Scalar>() -> S {
    S::one_spec().div_spec(scalar_two::<S>().add_spec(scalar_two::<S>()))
}

/// `1 / (10⁶ · 10⁶)`: below this standard deviation every Z-score is zero.
pub open spec fn flat_spread<S: Scalar>() -> S {
    let million = S::from_usize_spec(1_000_000usize);
    S::one_spec().div_spec(million.mul_spec(million))
}

/// The mean energy (zero for an empty fleet).
pub open spec fn fleet_mean<S: Scalar>(energies: Seq<S>) -> S {
    if energies.len() == 0 {
        S::zero_spec()
    } else {
        mean_of(energies)
    }
}

/// The population standard deviation of the energies (zero for fewer than two agents).
pub open spec fn fleet_std_dev<S: Scalar>(energies: Seq<S>) -> S {
    if energies.len() < 2 {
        S::zero_spec()
    } else {
        population_std_dev(energies)
    }
}

/// The Z-score of each agent; all zero when the spread is below [`flat_spread`].
pub open spec fn fleet_z_scores<S: Scalar>(energies: Seq<S>) -> Seq<S> {
    let sigma = fleet_std_dev(energies);
    let mu = fleet_mean(energies);
    if sigma.lt_spec(flat_spread::<S>()) {
        Seq::new(energies.len(), |k: int| S::zero_spec())
    } else {
        energies.map_values(|e: S| e.sub_spec(mu).div_spec(sigma))
    }
}

/// The indices among the first `k` whose Z-score magnitude exceeds `threshold`, in order.
pub open spec fn anomalous_indices<S: Scalar>(z: Seq<S>, threshold: S, k: nat) -> Seq<usize>
    decreases k,
{
    if k == 0 {
        Seq::empty()
    } else {
        let rest = anomalous_indices(z, threshold, (k - 1) as nat);
        if threshold.lt_spec(z[k - 1].abs_spec()) {
            rest.push((k - 1) as usize)
        } else {
            rest
        }
    }
}

proof fn lemma_anomalous_indices_len<S: Scalar>(z: Seq<S>, threshold: S, k: nat)
    ensures
        anomalous_indices(z, threshold, k).len() <= k,
    decreases k,
{
    if k > 0 {
        lemma_anomalous_indices_len(z, threshold, (k - 1) as nat);
    }
}

/// Fleet state `j + 1` follows state `j` by a transfer that recorded a failure.
pub open spec fn failure_link<S>(states: Seq<FleetModel<S>>, j: int) -> bool {
    states[j].failed_into(states[j + 1]) && states[j].same_settings(states[j + 1])
}

/// Fleet state `j + 1` follows state `j` by a transfer that recorded a success.
pub open spec fn success_link<S>(states: Seq<FleetModel<S>>, j: int) -> bool {
    states[j].succeeded_into(states[j + 1]) && states[j].same_settings(states[j + 1])
}

proof fn lemma_failure_run<S>(states: Seq<FleetModel<S>>, k: int)
    requires
        0 <= k < states.len(),
        forall|j: int| 0 <= j < states.len() - 1 ==> #[trigger] failure_link(states, j),
    ensures
        states[k].consecutive_failures == states[0].consecutive_failures + k,
        states[k].failure_threshold == states[0].failure_threshold,
        k >= 1 && states[0].consecutive_failures + k >= states[0].failure_threshold
            ==> states[k].circuit == CircuitState::Open,
    decreases k,
{
    if k > 0 {
        lemma_failure_run(states, k - 1);
        let j = k - 1;
        assert(failure_link(states, j));
    }
}

/// Consecutive failures open the circuit: along a run of transfers that each
/// record a failure, the failure count rises by one per transfer, and from the
/// transfer that brings it to the threshold on the circuit is Open.
pub proof fn law_failures_open_circuit<S>(states: Seq<FleetModel<S>>)
    requires
        states.len() > 0,
        forall|j: int| 0 <= j < states.len() - 1 ==> #[trigger] failure_link(states, j),
    ensures
        forall|k: int|
            0 <= k < states.len() ==> #[trigger] states[k].consecutive_failures
                == states[0].consecutive_failures + k,
        forall|k: int|
            1 <= k < states.len() && states[0].consecutive_failures + k
                >= states[0].failure_threshold ==> #[trigger] states[k].circuit
                == CircuitState::Open,
{
    assert forall|k: int| 0 <= k < states.len() implies #[trigger] states[k].consecutive_failures
        == states[0].consecutive_failures + k by {
        lemma_failure_run(states, k);
    }
    assert forall|k: int|
        1 <= k < states.len() && states[0].consecutive_failures + k
            >= states[0].failure_threshold implies #[trigger] states[k].circuit
        == CircuitState::Open by {
        lemma_failure_run(states, k);
    }
}

proof fn lemma_probe_run<S>(states: Seq<FleetModel<S>>, k: int)
    requires
        0 <= k < states.len(),
        states[0].well_formed(),
        states[0].circuit == CircuitState::HalfOpen,
        states[0].probe_successes == 0,
        forall|j: int| 0 <= j < states.len() - 1 ==> #[trigger] success_link(states, j),
    ensures
        states[k].probes_needed == states[0].probes_needed,
        k < states[0].probes_needed ==> states[k].circuit == CircuitState::HalfOpen
            && states[k].probe_successes == k,
        k == states[0].probes_needed ==> states[k].circuit == CircuitState::Closed,
        k > 0 ==> states[k].consecutive_failures == 0,
    decreases k,
{
    if k > 0 {
        lemma_probe_run(states, k - 1);
        let j = k - 1;
        assert(success_link(states, j));
    }
}

/// A HalfOpen circuit recovers: starting from no successful probes, each
/// successful transfer counts one probe, and the transfer that brings the count
/// to the number of probes needed closes the circuit.
pub proof fn law_probes_close_circuit<S>(states: Seq<FleetModel<S>>)
    requires
        states.len() > 0,
        states[0].well_formed(),
        states[0].circuit == CircuitState::HalfOpen,
        states[0].probe_successes == 0,
        forall|j: int| 0 <= j < states.len() - 1 ==> #[trigger] success_link(states, j),
    ensures
        forall|k: int|
            0 <= k < states.len() && k < states[0].probes_needed ==> #[trigger] states[k].circuit
                == CircuitState::HalfOpen && states[k].probe_successes == k,
        states[0].probes_needed < states.len() ==> states[states[0].probes_needed as int].circuit
            == CircuitState::Closed,
{
    assert forall|k: int| 0 <= k < states.len() && k < states[0].probes_needed implies #[trigger] states[k].circuit
        == CircuitState::HalfOpen && states[k].probe_successes == k by {
        lemma_probe_run(states, k);
    }
    if states[0].probes_needed < states.len() {
        lemma_probe_run(states, states[0].probes_needed as int);
    }
}

/// The audit flags exactly the agents whose Z-score magnitude exceeds the
/// threshold, each once, in increasing order of index.
pub proof fn law_anomalous_agents<S: Scalar>(z: Seq<S>, threshold: S, k: nat)
    requires
        k <= usize::MAX,
    ensures
        ({
            let flagged = anomalous_indices(z, threshold, k);
            &&& forall|t: int| 0 <= t < flagged.len() ==> #[trigger] flagged[t] < k
            &&& forall|t: int|
                0 <= t < flagged.len() ==> threshold.lt_spec(z[#[trigger] flagged[t] as int].abs_spec())
            &&& forall|a: int, b: int|
                0 <= a < b < flagged.len() ==> #[trigger] flagged[a] < #[trigger] flagged[b]
            &&& forall|i: int|
                0 <= i < k && threshold.lt_spec(#[trigger] z[i].abs_spec()) ==> flagged.contains(
                    i as usize,
                )
        }),
    decreases k,
{
    if k > 0 {
        law_anomalous_agents(z, threshold, (k - 1) as nat);
        let rest = anomalous_indices(z, threshold, (k - 1) as nat);
        let flagged = anomalous_indices(z, threshold, k);
        let last = (k - 1) as usize;
        if threshold.lt_spec(z[k - 1].abs_spec()) {
            assert(flagged == rest.push(last));
            assert forall|t: int| 0 <= t < flagged.len() implies #[trigger] flagged[t] < k by {
                if t < rest.len() {
                    assert(flagged[t] == rest[t]);
                }
            }
            assert forall|t: int| 0 <= t < flagged.len() implies threshold.lt_spec(
                z[#[trigger] flagged[t] as int].abs_spec(),
            ) by {
                if t < rest.len() {
                    assert(flagged[t] == rest[t]);
                } else {
                    assert(flagged[t] == last);
                }
            }
            assert forall|a: int, b: int| 0 <= a < b < flagged.len() implies #[trigger] flagged[a]
                < #[trigger] flagged[b] by {
                assert(flagged[a] == rest[a]);
                assert(rest[a] < k - 1);
                if b < rest.len() {
                    assert(flagged[b] == rest[b]);
                } else {
                    assert(flagged[b] == last);
                }
            }
        } else {
            assert(flagged == rest);
        }
        assert forall|i: int|
            0 <= i < k && threshold.lt_spec(#[trigger] z[i].abs_spec()) implies flagged.contains(
            i as usize,
        ) by {
            if i < k - 1 {
                assert(rest.contains(i as usize));
                let t = choose|t: int| 0 <= t < rest.len() && rest[t] == i as usize;
                assert(flagged[t] == rest[t]);
            } else {
                assert(flagged[flagged.len() - 1] == i as usize);
            }
        }
    }
}

/// The message for a transfer above the cap.
pub open spec fn cap_message<S: Scalar>(amount: S, cap: S) -> Seq<char> {
    "amount "@ + amount.display_spec()@ + " exceeds max fraction of total "@ + cap.display_spec()@
}

/// The message for a source agent that holds less than the amount.
pub open spec fn insufficient_message<S: Scalar>(from_idx: usize, held: S) -> Seq<char> {
    "agent "@ + decimal(from_idx as nat) + " has insufficient energy ("@ + held.display_spec()@
        + ")"@
}

/// The abstract state of a fleet: every field, the vector taken as a sequence.
pub struct FleetModel<S> {
    pub energies: Seq<S>,
    pub z_threshold: S,
    pub max_transfer_fraction: S,
    pub circuit: CircuitState,
    pub failure_threshold: usize,
    pub consecutive_failures: usize,
    pub probe_successes: usize,
    pub probes_needed: usize,
}

impl<S: Scalar> View for FleetConservation<S> {
    type V = FleetModel<S>;

    open spec fn view(&self) -> FleetModel<S> {
        FleetModel {
            energies: self.energies@,
            z_threshold: self.z_threshold,
            max_transfer_fraction: self.max_transfer_fraction,
            circuit: self.circuit,
            failure_threshold: self.failure_threshold,
            consecutive_failures: self.consecutive_failures,
            probe_successes: self.probe_successes,
            probes_needed: self.probes_needed,
        }
    }
}

impl<S> FleetModel<S> {
    /// The counters are consistent: fewer probe successes than probes needed.
    pub open spec fn well_formed(self) -> bool {
        self.probe_successes < self.probes_needed
    }

    /// Everything but the energies, the circuit and its counters is unchanged.
    pub open spec fn same_settings(self, other: Self) -> bool {
        &&& other.z_threshold == self.z_threshold
        &&& other.max_transfer_fraction == self.max_transfer_fraction
        &&& other.failure_threshold == self.failure_threshold
        &&& other.probes_needed == self.probes_needed
    }

    /// `next` is this fleet after one more recorded failure: the count goes up
    /// by one and the circuit opens once the count reaches the threshold.
    pub open spec fn failed_into(self, next: Self) -> bool {
        &&& next.consecutive_failures == self.consecutive_failures + 1
        &&& next.circuit == if self.consecutive_failures + 1 >= self.failure_threshold {
            CircuitState::Open
        } else {
            self.circuit
        }
        &&& next.probe_successes == self.probe_successes
    }

    /// `next` is this fleet after one recorded success: the failure count is
    /// cleared, and a HalfOpen circuit counts the probe and closes once enough
    /// probes have succeeded.
    pub open spec fn succeeded_into(self, next: Self) -> bool {
        &&& next.consecutive_failures == 0
        &&& if self.circuit == CircuitState::HalfOpen {
            if self.probe_successes + 1 >= self.probes_needed {
                next.circuit == CircuitState::Closed && next.probe_successes == 0
            } else {
                next.circuit == CircuitState::HalfOpen && next.probe_successes
                    == self.probe_successes + 1
            }
        } else {
            next.circuit == self.circuit && next.probe_successes == self.probe_successes
        }
    }
}

impl<S: Scalar> FleetConservation<S> {
    /// Create a new fleet with the given initial energies.
    ///
    /// A transfer may move at most a quarter of the fleet's energy, three
    /// consecutive failures open the circuit and two successful probes close it.
    pub fn new(energies: Vec<S>, z_threshold: S) -> (r: Self)
        ensures
            r@.well_formed(),
            r@.energies == energies@,
            r@.z_threshold == z_threshold,
            r@.max_transfer_fraction == quarter::<S>(),
            r@.circuit == CircuitState::Closed,
            r@.failure_threshold == 3,
            r@.consecutive_failures == 0,
            r@.probe_successes == 0,
            r@.probes_needed == 2,
    {
        let two = two::<S>();
        FleetConservation {
            energies,
            z_threshold,
            max_transfer_fraction: S::one().over(two.plus(two)),
            circuit: CircuitState::Closed,
            failure_threshold: 3,
            consecutive_failures: 0,
            probe_successes: 0,
            probes_needed: 2,
        }
    }

    /// Total energy in the fleet.
    pub fn total_energy(&self) -> (r: S)
        ensures
            r == sum_prefix(self@.energies, self@.energies.len()),
    {
        sum_values(self.energies.as_slice())
    }

    /// Mean energy across the fleet.
    pub fn mean(&self) -> (r: S)
        ensures
            r == fleet_mean(self@.energies),
    {
        if self.energies.len() == 0 {
            return S::zero();
        }
        self.total_energy().over(S::from_usize(self.energies.len()))
    }

    /// Standard deviation of fleet energies.
    pub fn std_dev(&self) -> (r: S)
        ensures
            r == fleet_std_dev(self@.energies),
    {
        if self.energies.len() < 2 {
            return S::zero();
        }
        let mu = self.mean();
        let variance = squared_deviations(self.energies.as_slice(), mu).over(
            S::from_usize(self.energies.len()),
        );
        variance.sqrt()
    }

    /// Compute Z-scores for each agent's energy.
    pub fn z_scores(&self) -> (r: Vec<S>)
        ensures
            r@ == fleet_z_scores(self@.energies),
    {
        let sigma = self.std_dev();
        let million = S::from_usize(1_000_000);
        let n = self.energies.len();
        let mut out: Vec<S> = Vec::new();
        if sigma.lt(S::one().over(million.times(million))) {
            let mut k: usize = 0;
            while k < n
                invariant
                    0 <= k <= n,
                    n == self.energies@.len(),
                    out@ == Seq::new(k as nat, |j: int| S::zero_spec()),
                decreases n - k,
            {
                out.push(S::zero());
                assert(out@ =~= Seq::new((k + 1) as nat, |j: int| S::zero_spec()));
                k = k + 1;
            }
            assert(out@ =~= fleet_z_scores(self.energies@));
            return out;
        }
        let mu = self.mean();
        let ghost z = self.energies@.map_values(|e: S| e.sub_spec(mu).div_spec(sigma));
        let mut k: usize = 0;
        while k < n
            invariant
                0 <= k <= n,
                n == self.energies@.len(),
                z == self.energies@.map_values(|e: S| e.sub_spec(mu).div_spec(sigma)),
                out@ == z.take(k as int),
            decreases n - k,
        {
            out.push(self.energies[k].minus(mu).over(sigma));
            assert(out@ =~= z.take(k + 1));
            k = k + 1;
        }
        assert(out@ =~= z);
        out
    }

    // ----- audit ----------------------------------------------------------
    /// Audit the fleet for anomalous energy profiles.
    ///
    /// Returns a [`ConservationReport`] with Z-scores, anomalous agent indices,
    /// and system-stability assessment.  If the number of anomalous agents
    /// exceeds half the fleet, the system is marked unstable and the circuit
    /// breaker trips to [`CircuitState::Open`].
    pub fn audit_fleet(&mut self) -> (report: ConservationReport<S>)
        ensures
            report.z_scores@ == fleet_z_scores(old(self)@.energies),
            report.anomalous_agents@ == anomalous_indices(
                fleet_z_scores(old(self)@.energies),
                old(self)@.z_threshold,
                old(self)@.energies.len(),
            ),
            report.system_stable == (2 * report.anomalous_agents@.len()
                <= old(self)@.energies.len()),
            report.mean_energy == fleet_mean(old(self)@.energies),
            report.std_dev == fleet_std_dev(old(self)@.energies),
            report.system_stable ==> final(self)@ == old(self)@,
            !report.system_stable ==> {
                &&& final(self)@.circuit == CircuitState::Open
                &&& final(self)@.consecutive_failures == old(self)@.failure_threshold
                &&& final(self)@.probe_successes == old(self)@.probe_successes
                &&& final(self)@.energies == old(self)@.energies
                &&& old(self)@.same_settings(final(self)@)
            },
    {
        let z_scores = self.z_scores();
        let mut anomalous: Vec<usize> = Vec::new();
        let mut k: usize = 0;
        while k < z_scores.len()
            invariant
                0 <= k <= z_scores@.len(),
                anomalous@ == anomalous_indices(z_scores@, self.z_threshold, k as nat),
            decreases z_scores@.len() - k,
        {
            if self.z_threshold.lt(z_scores[k].abs()) {
                anomalous.push(k);
            }
            k = k + 1;
        }
        proof {
            lemma_anomalous_indices_len(z_scores@, self.z_threshold, z_scores@.len());
        }
        let stable = anomalous.len() <= self.energies.len() - anomalous.len();
        let report = ConservationReport {
            mean_energy: self.mean(),
            std_dev: self.std_dev(),
            anomalous_agents: anomalous,
            z_scores,
            system_stable: stable,
        };
        if !stable {
            self.trip();
        }
        report
    }

    // ----- circuit breaker ------------------------------------------------
    /// Current circuit state.
    pub fn circuit_state(&self) -> (r: CircuitState)
        ensures
            r == self@.circuit,
    {
        self.circuit
    }

    /// Trip the circuit breaker to Open.
    pub fn trip(&mut self)
        ensures
            old(self)@.well_formed() ==> final(self)@.well_formed(),
            final(self)@.circuit == CircuitState::Open,
            final(self)@.consecutive_failures == old(self)@.failure_threshold,
            final(self)@.probe_successes == old(self)@.probe_successes,
            final(self)@.energies == old(self)@.energies,
            old(self)@.same_settings(final(self)@),
    {
        self.circuit = CircuitState::Open;
        self.consecutive_failures = self.failure_threshold;
    }

    /// Reset the circuit breaker to Closed.
    pub fn reset(&mut self)
        ensures
            old(self)@.well_formed() ==> final(self)@.well_formed(),
            final(self)@.circuit == CircuitState::Closed,
            final(self)@.consecutive_failures == 0,
            final(self)@.probe_successes == 0,
            final(self)@.energies == old(self)@.energies,
            old(self)@.same_settings(final(self)@),
    {
        self.circuit = CircuitState::Closed;
        self.consecutive_failures = 0;
        self.probe_successes = 0;
    }

    /// Attempt to transition from Open → HalfOpen (probing).
    ///
    /// Only an Open circuit moves; the result says whether it did.
    pub fn try_half_open(&mut self) -> (moved: bool)
        ensures
            old(self)@.well_formed() ==> final(self)@.well_formed(),
            moved == (old(self)@.circuit == CircuitState::Open),
            moved ==> final(self)@.circuit == CircuitState::HalfOpen && final(self)@.probe_successes
                == 0,
            !moved ==> final(self)@.circuit == old(self)@.circuit && final(self)@.probe_successes
                == old(self)@.probe_successes,
            final(self)@.consecutive_failures == old(self)@.consecutive_failures,
            final(self)@.energies == old(self)@.energies,
            old(self)@.same_settings(final(self)@),
    {
        match self.circuit {
            CircuitState::Open => {
                self.circuit = CircuitState::HalfOpen;
                self.probe_successes = 0;
                true
            },
            _ => false,
        }
    }

    // ----- transfer -------------------------------------------------------
    /// Transfer energy from agent `from_idx` to agent `to_idx`.
    ///
    /// Enforces:
    /// 1. Circuit breaker must not be Open (HalfOpen allows one probe).
    /// 2. Source agent must have sufficient energy.
    /// 3. Transfer amount must not exceed `max_transfer_fraction` of total energy.
    /// 4. No agent may go negative.
    ///
    /// On success, updates energies in place and returns the amount transferred.
    /// On failure, increments the consecutive failure counter and may trip the
    /// circuit breaker.
    pub fn transfer_with_guard(&mut self, from_idx: usize, to_idx: usize, amount: S) -> (r: Result<
        S,
        String,
    >)
        requires
            old(self)@.well_formed(),
            old(self)@.consecutive_failures < usize::MAX,
        ensures
            final(self)@.well_formed(),
            old(self)@.same_settings(final(self)@),
            ({
                let n = old(self)@.energies.len();
                let cap = old(self)@.max_transfer_fraction.mul_spec(
                    sum_prefix(old(self)@.energies, n),
                );
                let unchanged = final(self)@.energies == old(self)@.energies;
                let refused = unchanged && old(self)@.failed_into(final(self)@);
                if from_idx >= n || to_idx >= n {
                    refused && (r matches Err(msg) && msg@ == "index out of bounds"@)
                } else if from_idx == to_idx {
                    refused && (r matches Err(msg) && msg@
                        == "source and destination must differ"@)
                } else if old(self)@.circuit == CircuitState::Open {
                    &&& refused
                    &&& final(self)@.circuit == CircuitState::Open
                    &&& r matches Err(msg) && msg@ == "circuit breaker is Open — transfers halted"@
                } else if amount.le_spec(S::zero_spec()) {
                    refused && (r matches Err(msg) && msg@ == "amount must be positive"@)
                } else if cap.lt_spec(amount) {
                    &&& refused
                    &&& r matches Err(msg) && msg@ == cap_message(amount, cap)
                } else if old(self)@.energies[from_idx as int].lt_spec(amount) {
                    &&& refused
                    &&& r matches Err(msg) && msg@ == insufficient_message(
                        from_idx,
                        old(self)@.energies[from_idx as int],
                    )
                } else {
                    &&& final(self)@.energies == old(self)@.energies.update(
                        from_idx as int,
                        old(self)@.energies[from_idx as int].sub_spec(amount),
                    ).update(to_idx as int, old(self)@.energies[to_idx as int].add_spec(amount))
                    &&& old(self)@.succeeded_into(final(self)@)
                    &&& r == Ok::<S, String>(amount)
                }
            }),
    {
        // Index bounds check
        if from_idx >= self.energies.len() || to_idx >= self.energies.len() {
            self.record_failure();
            return Err(String::from_str("index out of bounds"));
        }
        if from_idx == to_idx {
            self.record_failure();
            return Err(String::from_str("source and destination must differ"));
        }
        // Circuit-breaker guard
        match self.circuit {
            CircuitState::Open => {
                self.record_failure();
                return Err(String::from_str("circuit breaker is Open — transfers halted"));
            },
            CircuitState::HalfOpen => {
                // Allow the transfer as a probe
            },
            CircuitState::Closed => {},
        }

        let total = self.total_energy();

        // Amount guard
        if amount.le(S::zero()) {
            self.record_failure();
            return Err(String::from_str("amount must be positive"));
        }
        let cap = self.max_transfer_fraction.times(total);
        if cap.lt(amount) {
            self.record_failure();
            let mut msg = String::from_str("amount ");
            msg.append(amount.display_text().as_str());
            msg.append(" exceeds max fraction of total ");
            msg.append(cap.display_text().as_str());
            return Err(msg);
        }
        // Sufficient balance

        if self.energies[from_idx].lt(amount) {
            self.record_failure();
            let mut msg = String::from_str("agent ");
            push_decimal(&mut msg, from_idx);
            msg.append(" has insufficient energy (");
            msg.append(self.energies[from_idx].display_text().as_str());
            msg.append(")");
            return Err(msg);
        }
        // Execute transfer

        let from_left = self.energies[from_idx].minus(amount);
        self.energies.set(from_idx, from_left);
        let to_now = self.energies[to_idx].plus(amount);
        self.energies.set(to_idx, to_now);

        // Record success (may close circuit)
        self.record_success();

        Ok(amount)
    }

    fn record_failure(&mut self)
        requires
            old(self)@.well_formed(),
            old(self)@.consecutive_failures < usize::MAX,
        ensures
            final(self)@.well_formed(),
            old(self)@.failed_into(final(self)@),
            final(self)@.energies == old(self)@.energies,
            old(self)@.same_settings(final(self)@),
    {
        self.consecutive_failures = self.consecutive_failures + 1;
        if self.consecutive_failures >= self.failure_threshold {
            self.circuit = CircuitState::Open;
        }
    }

    fn record_success(&mut self)
        requires
            old(self)@.well_formed(),
        ensures
            final(self)@.well_formed(),
            old(self)@.succeeded_into(final(self)@),
            final(self)@.energies == old(self)@.energies,
            old(self)@.same_settings(final(self)@),
    {
        self.consecutive_failures = 0;
        match self.circuit {
            CircuitState::HalfOpen => {
                self.probe_successes = self.probe_successes + 1;
                if self.probe_successes >= self.probes_needed {
                    self.circuit = CircuitState::Closed;
                    self.probe_successes = 0;
                }
            },
            _ => {},
        }
    }
}

// ---------------------------------------------------------------------------
// Scalar helper: z-score computation for generic Scalar type
// ---------------------------------------------------------------------------
/// Compute Z-score for a value given mean and standard deviation.
///
/// A standard deviation below the type's epsilon gives zero.
pub fn zscore<S: Scalar>(value: S, mean: S, std_dev: S) -> (z: S)
    ensures
        z == if std_dev.lt_spec(S::epsilon_spec()) {
            S::zero_spec()
        } else {
            value.sub_spec(mean).div_spec(std_dev)
        },
{
    if std_dev.lt(S::epsilon()) {
        return S::zero();
    }
    value.minus(mean).over(std_dev)
}

} // verus!
