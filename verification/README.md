# conservation-law

Lagrangian and Hamiltonian mechanics, Noether's theorem and fleet-wide energy
bookkeeping for agent dynamics, written in Verus.

All numerics are generic over the `Scalar` trait.  Its operations other than
`cos` and `sin` are tied to abstract spec functions (for floats: the IEEE
operations, with every NaN taken as one value), and every contract states the
exact composition of scalar operations a function performs: the Stormer–Verlet steps, the
central-difference gradients, the Noether charges, the drift measures, the
Z-scores.  What depends only on structure is proved outright: trajectory
shapes, determinism and composition of integration, the quantities a full
survey checks (energy, `N` momenta, `N(N−1)/2` angular momenta), the
circuit breaker's transitions and the audit's anomaly flags.  `cos` and `sin`
carry no contract, since float implementations may return slightly different
values from call to call; a rotation is stated as a turn by the cosine and sine
that were returned.

Layout:

- `src/lib.rs` — `Scalar`, finite differences, shared folds.
- `src/lagrangian.rs` — agent state, Lagrangians, the symplectic integrator.
- `src/noether.rs` — symmetries, invariance tests, Noether charges, monitors.
- `src/conserved.rs` — conserved-quantity detection along trajectories.
- `src/hamiltonian.rs` — phase space, Hamiltonian integrator, Poisson brackets,
  Liouville and recurrence checks.
- `src/fleet_integration.rs` — fleet energies, audits and the circuit breaker.
- `src/text.rs` — decimal rendering for quantity names.
- `app/lib.rs` — the `Scalar` implementation for every `num_traits::Float`
  type, and the error type with `Display` and `Error`.
