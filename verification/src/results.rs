//! The log of per-temperature observables, and the columns derived from it.
//!
//! The log is generic in its scalar type `T`. Arithmetic on scalars is not
//! done here: the two numeric kernels of the analysis are handed in by the
//! caller, and the contracts say how the derived columns follow from the
//! kernels' own outcomes.

use vstd::prelude::*;
use crate::distribution::ClusterDistribution;

verus! {

/// An append-only table with one row per temperature of the ladder, in the
/// order in which the temperatures were swept.
pub struct ModelResults<T> {
    /// The temperature ladder.
    pub temp: Vec<T>,
    /// Internal energy per lattice site.
    pub int_energy: Vec<T>,
    /// Heat capacity per lattice site.
    pub heat_capacity: Vec<T>,
    /// Share of trial moves that were accepted.
    pub acceptance_rate: Vec<T>,
    /// Entropy per lattice site; empty until the analysis has run.
    pub entropy: Vec<T>,
    /// Free energy per lattice site; empty until the analysis has run.
    pub free_energy: Vec<T>,
    /// Merged cluster distribution of the first species, per temperature.
    pub distr_0: Vec<ClusterDistribution>,
    /// Merged cluster distribution of the second species, per temperature.
    pub distr_1: Vec<ClusterDistribution>,
    /// How many distribution samples are merged per temperature.
    pub distrs_per_temp: u32,
}

/// The entropy at a ladder point, given the entropy before it and what the
/// integration kernel returned: the kernel's value, or, where the kernel
/// declined the point, the previous entropy carried forward unchanged.
pub open spec fn carried<T>(previous: T, outcome: Option<T>) -> T {
    match outcome {
        Some(value) => value,
        None => previous,
    }
}

/// Whether `next` follows from `previous` by one call of the integration
/// kernel on two neighbouring ladder points.
pub open spec fn entropy_follows<T, S: Fn(T, T, T, T, T) -> Option<T>>(
    step: S,
    previous: T,
    temp_before: T,
    heat_capacity_before: T,
    temp_here: T,
    heat_capacity_here: T,
    next: T,
) -> bool {
    exists|outcome: Option<T>|
        {
            &&& #[trigger] call_ensures(
                step,
                (previous, temp_before, heat_capacity_before, temp_here, heat_capacity_here),
                outcome,
            )
            &&& next == carried(previous, outcome)
        }
}

/// Whether `entropy[i]` follows from `entropy[i - 1]` by one call of the
/// integration kernel on the ladder points `i - 1` and `i`.
pub open spec fn entropy_step_at<T, S: Fn(T, T, T, T, T) -> Option<T>>(
    step: S,
    temp: Seq<T>,
    heat_capacity: Seq<T>,
    entropy: Seq<T>,
    i: int,
) -> bool {
    entropy_follows(
        step,
        entropy[i - 1],
        temp[i - 1],
        heat_capacity[i - 1],
        temp[i],
        heat_capacity[i],
        entropy[i],
    )
}

/// Whether `entropy` is the cumulative integral over the ladder: it starts
/// at `ideal_entropy` and each later entry follows from the one before it.
pub open spec fn entropy_chain<T, S: Fn(T, T, T, T, T) -> Option<T>>(
    step: S,
    temp: Seq<T>,
    heat_capacity: Seq<T>,
    ideal_entropy: T,
    entropy: Seq<T>,
) -> bool {
    &&& entropy.len() == temp.len()
    &&& temp.len() > 0 ==> entropy[0] == ideal_entropy
    &&& forall|i: int|
        1 <= i < temp.len() ==> #[trigger] entropy_step_at(step, temp, heat_capacity, entropy, i)
}

/// Whether `free_energy[i]` is an outcome of the free-energy kernel on the
/// internal energy, temperature and entropy of ladder point `i`.
pub open spec fn free_energy_at<T, F: Fn(T, T, T) -> T>(
    free_energy_of: F,
    int_energy: Seq<T>,
    temp: Seq<T>,
    entropy: Seq<T>,
    free_energy: Seq<T>,
    i: int,
) -> bool {
    call_ensures(free_energy_of, (int_energy[i], temp[i], entropy[i]), free_energy[i])
}

/// Whether `free_energy` holds, point by point, what the free-energy kernel
/// makes of the log.
pub open spec fn free_energy_column<T, F: Fn(T, T, T) -> T>(
    free_energy_of: F,
    int_energy: Seq<T>,
    temp: Seq<T>,
    entropy: Seq<T>,
    free_energy: Seq<T>,
) -> bool {
    &&& free_energy.len() == temp.len()
    &&& forall|i: int|
        0 <= i < temp.len() ==> #[trigger] free_energy_at(
            free_energy_of,
            int_energy,
            temp,
            entropy,
            free_energy,
            i,
        )
}

/// An integration kernel whose outcome is determined by its arguments.
pub open spec fn step_is_function<T, S: Fn(T, T, T, T, T) -> Option<T>>(step: S) -> bool {
    forall|args: (T, T, T, T, T), a: Option<T>, b: Option<T>|
        call_ensures(step, args, a) && call_ensures(step, args, b) ==> a == b
}

/// A free-energy kernel whose outcome is determined by its arguments.
pub open spec fn kernel_is_function<T, F: Fn(T, T, T) -> T>(free_energy_of: F) -> bool {
    forall|args: (T, T, T), a: T, b: T|
        call_ensures(free_energy_of, args, a) && call_ensures(free_energy_of, args, b) ==> a == b
}

/// What a kernel that is a function of its arguments returns on `args`.
pub open spec fn step_outcome<T, S: Fn(T, T, T, T, T) -> Option<T>>(
    step: S,
    args: (T, T, T, T, T),
) -> Option<T> {
    choose|outcome: Option<T>| call_ensures(step, args, outcome)
}

/// The first `n` entropies of a ladder, for a kernel that is a function of
/// its arguments.
pub open spec fn entropy_prefix<T, S: Fn(T, T, T, T, T) -> Option<T>>(
    step: S,
    temp: Seq<T>,
    heat_capacity: Seq<T>,
    ideal_entropy: T,
    n: nat,
) -> Seq<T>
    decreases n,
{
    if n == 0 {
        Seq::empty()
    } else if n == 1 {
        seq![ideal_entropy]
    } else {
        let before = entropy_prefix(step, temp, heat_capacity, ideal_entropy, (n - 1) as nat);
        before.push(
            carried(
                before.last(),
                step_outcome(
                    step,
                    (
                        before.last(),
                        temp[n - 2],
                        heat_capacity[n - 2],
                        temp[n - 1],
                        heat_capacity[n - 1],
                    ),
                ),
            ),
        )
    }
}

/// The entropy column of a ladder, for a kernel that is a function of its
/// arguments: it depends on the ladder, the heat capacities and the
/// starting value, and on nothing else.
pub open spec fn integrated_entropy<T, S: Fn(T, T, T, T, T) -> Option<T>>(
    step: S,
    temp: Seq<T>,
    heat_capacity: Seq<T>,
    ideal_entropy: T,
) -> Seq<T> {
    entropy_prefix(step, temp, heat_capacity, ideal_entropy, temp.len())
}

/// What a free-energy kernel that is a function of its arguments returns
/// on `args`.
pub open spec fn kernel_outcome<T, F: Fn(T, T, T) -> T>(free_energy_of: F, args: (T, T, T)) -> T {
    choose|value: T| call_ensures(free_energy_of, args, value)
}

/// The free-energy column of a log, for a kernel that is a function of its
/// arguments.
pub open spec fn derived_free_energy<T, F: Fn(T, T, T) -> T>(
    free_energy_of: F,
    int_energy: Seq<T>,
    temp: Seq<T>,
    entropy: Seq<T>,
) -> Seq<T> {
    Seq::new(
        temp.len(),
        |i: int| kernel_outcome(free_energy_of, (int_energy[i], temp[i], entropy[i])),
    )
}

/// Whether `after` is `before` with one entry more in exactly one of the
/// base or distribution columns, and nothing else changed.
pub open spec fn pushed<T>(before: ModelResults<T>, after: ModelResults<T>) -> bool {
    ||| after == (ModelResults { temp: after.temp, ..before })
    ||| after == (ModelResults { int_energy: after.int_energy, ..before })
    ||| after == (ModelResults { heat_capacity: after.heat_capacity, ..before })
    ||| after == (ModelResults { acceptance_rate: after.acceptance_rate, ..before })
    ||| after == (ModelResults { distr_0: after.distr_0, ..before })
    ||| after == (ModelResults { distr_1: after.distr_1, ..before })
}

/// Whether `after` is `before` with its derived columns computed anew: no
/// base column differs, the entropy is the cumulative integral that starts
/// at `ideal_entropy`, and the free energy is what the kernel makes of each
/// point.
pub open spec fn analysis_of<T, S: Fn(T, T, T, T, T) -> Option<T>, F: Fn(T, T, T) -> T>(
    before: ModelResults<T>,
    after: ModelResults<T>,
    ideal_entropy: T,
    step: S,
    free_energy_of: F,
) -> bool {
    &&& after == (ModelResults { entropy: after.entropy, free_energy: after.free_energy, ..before })
    &&& entropy_chain(step, before.temp@, before.heat_capacity@, ideal_entropy, after.entropy@)
    &&& free_energy_column(
        free_energy_of,
        before.int_energy@,
        before.temp@,
        after.entropy@,
        after.free_energy@,
    )
}

impl<T: Copy> ModelResults<T> {
    /// The number of temperatures recorded.
    pub open spec fn rows(&self) -> nat {
        self.temp@.len()
    }

    /// Every base column and both distribution columns hold one entry per
    /// temperature.
    pub open spec fn aligned(&self) -> bool {
        &&& self.int_energy@.len() == self.rows()
        &&& self.heat_capacity@.len() == self.rows()
        &&& self.acceptance_rate@.len() == self.rows()
        &&& self.distr_0@.len() == self.rows()
        &&& self.distr_1@.len() == self.rows()
    }

    /// Both derived columns hold one entry per temperature.
    pub open spec fn analysed(&self) -> bool {
        &&& self.entropy@.len() == self.rows()
        &&& self.free_energy@.len() == self.rows()
    }

    /// The invariant of the log between sweeps: the columns are aligned,
    /// the derived columns are both empty or both complete, and every
    /// stored distribution is well formed.
    pub open spec fn wf(&self) -> bool {
        &&& self.aligned()
        &&& self.unanalysed() || self.analysed()
        &&& self.distributions_wf()
    }

    /// Both derived columns are empty.
    pub open spec fn unanalysed(&self) -> bool {
        &&& self.entropy@.len() == 0
        &&& self.free_energy@.len() == 0
    }

    /// Every stored distribution is well formed.
    pub open spec fn distributions_wf(&self) -> bool {
        &&& forall|i: int| 0 <= i < self.distr_0@.len() ==> (#[trigger] self.distr_0@[i]).wf()
        &&& forall|i: int| 0 <= i < self.distr_1@.len() ==> (#[trigger] self.distr_1@[i]).wf()
    }

    /// An empty log with room for `capacity` temperatures.
    pub fn new(capacity: usize, distrs_per_temp: u32) -> (log: Self)
        ensures
            log.wf(),
            log.rows() == 0,
            log.unanalysed(),
            log.distrs_per_temp == distrs_per_temp,
    {
        ModelResults {
            temp: Vec::with_capacity(capacity),
            int_energy: Vec::with_capacity(capacity),
            heat_capacity: Vec::with_capacity(capacity),
            acceptance_rate: Vec::with_capacity(capacity),
            entropy: Vec::with_capacity(capacity),
            free_energy: Vec::with_capacity(capacity),
            distr_0: Vec::with_capacity(capacity),
            distr_1: Vec::with_capacity(capacity),
            distrs_per_temp,
        }
    }

    /// Appends to the temperature ladder alone.
    pub fn push_temp(&mut self, value: T)
        ensures
            final(self).temp@ == old(self).temp@.push(value),
            pushed(*old(self), *final(self)),
            *final(self) == (ModelResults { temp: final(self).temp, ..*old(self) }),
    {
        self.temp.push(value)
    }

    /// Appends to the internal-energy column alone.
    pub fn push_int_energy(&mut self, value: T)
        ensures
            final(self).int_energy@ == old(self).int_energy@.push(value),
            pushed(*old(self), *final(self)),
            *final(self) == (ModelResults { int_energy: final(self).int_energy, ..*old(self) }),
    {
        self.int_energy.push(value)
    }

    /// Appends to the heat-capacity column alone.
    pub fn push_heat_capacity(&mut self, value: T)
        ensures
            final(self).heat_capacity@ == old(self).heat_capacity@.push(value),
            pushed(*old(self), *final(self)),
            *final(self) == (ModelResults {
                heat_capacity: final(self).heat_capacity,
                ..*old(self)
            }),
    {
        self.heat_capacity.push(value)
    }

    /// Appends to the acceptance-rate column alone.
    pub fn push_acceptance_rate(&mut self, value: T)
        ensures
            final(self).acceptance_rate@ == old(self).acceptance_rate@.push(value),
            pushed(*old(self), *final(self)),
            *final(self) == (ModelResults {
                acceptance_rate: final(self).acceptance_rate,
                ..*old(self)
            }),
    {
        self.acceptance_rate.push(value)
    }

    /// Appends to the distribution column of the first species alone.
    pub fn push_distr_0(&mut self, value: ClusterDistribution)
        ensures
            final(self).distr_0@ == old(self).distr_0@.push(value),
            pushed(*old(self), *final(self)),
            *final(self) == (ModelResults { distr_0: final(self).distr_0, ..*old(self) }),
    {
        self.distr_0.push(value)
    }

    /// Appends to the distribution column of the second species alone.
    pub fn push_distr_1(&mut self, value: ClusterDistribution)
        ensures
            final(self).distr_1@ == old(self).distr_1@.push(value),
            pushed(*old(self), *final(self)),
            *final(self) == (ModelResults { distr_1: final(self).distr_1, ..*old(self) }),
    {
        self.distr_1.push(value)
    }

    /// Records the outcome of one sweep: every base column and both
    /// distribution columns grow by one entry. The derived columns, which
    /// described the shorter ladder, are emptied.
    pub fn record(
        &mut self,
        temp: T,
        int_energy: T,
        heat_capacity: T,
        acceptance_rate: T,
        distr_0: ClusterDistribution,
        distr_1: ClusterDistribution,
    )
        requires
            old(self).aligned(),
            old(self).distributions_wf(),
            distr_0.wf(),
            distr_1.wf(),
        ensures
            final(self).wf(),
            final(self).unanalysed(),
            final(self).rows() == old(self).rows() + 1,
            final(self).temp@ == old(self).temp@.push(temp),
            final(self).int_energy@ == old(self).int_energy@.push(int_energy),
            final(self).heat_capacity@ == old(self).heat_capacity@.push(heat_capacity),
            final(self).acceptance_rate@ == old(self).acceptance_rate@.push(acceptance_rate),
            final(self).distr_0@ == old(self).distr_0@.push(distr_0),
            final(self).distr_1@ == old(self).distr_1@.push(distr_1),
            final(self).distrs_per_temp == old(self).distrs_per_temp,
    {
        self.temp.push(temp);
        self.int_energy.push(int_energy);
        self.heat_capacity.push(heat_capacity);
        self.acceptance_rate.push(acceptance_rate);
        self.distr_0.push(distr_0);
        self.distr_1.push(distr_1);
        self.entropy.clear();
        self.free_energy.clear();
    }

    /// The number of temperatures recorded, as the host reads it: cut to
    /// 32 bits where it is larger.
    pub fn len(&self) -> (n: u32)
        ensures
            n == self.rows() as u32,
            self.rows() <= u32::MAX ==> n == self.rows(),
    {
        #[verifier::truncate]
        (self.temp.len() as u32)
    }

    /// Derives the entropy and free-energy columns, in place of whatever
    /// they held.
    ///
    /// The entropy starts at `ideal_entropy`. For each later ladder point
    /// `step` is called with the entropy so far and with the temperature
    /// and heat capacity of the previous and of the current point; it
    /// returns the next entropy, or `None` for a degenerate point, whose
    /// entropy is then the previous one, carried forward. `free_energy_of`
    /// is called with the internal energy, temperature and entropy of each
    /// point. The ladder is taken in the order recorded. On an empty log
    /// both columns are left empty.
    ///
    /// Both kernels must be functions of their arguments. The derived
    /// columns are then functions of the base columns and of
    /// `ideal_entropy` alone: the same log always gives the same columns.
    pub fn do_data_analysis<S, F>(&mut self, ideal_entropy: T, step: S, free_energy_of: F) where
        S: Fn(T, T, T, T, T) -> Option<T>,
        F: Fn(T, T, T) -> T,

        requires
            old(self).aligned(),
            forall|args: (T, T, T, T, T)| call_requires(step, args),
            forall|args: (T, T, T)| call_requires(free_energy_of, args),
            step_is_function(step),
            kernel_is_function(free_energy_of),
        ensures
            final(self).aligned(),
            final(self).analysed(),
            old(self).distributions_wf() ==> final(self).wf(),
            analysis_of(*old(self), *final(self), ideal_entropy, step, free_energy_of),
            final(self).entropy@ == integrated_entropy(
                step,
                old(self).temp@,
                old(self).heat_capacity@,
                ideal_entropy,
            ),
            final(self).free_energy@ == derived_free_energy(
                free_energy_of,
                old(self).int_energy@,
                old(self).temp@,
                final(self).entropy@,
            ),
    {
        let entropy = calc_entropy(&self.temp, &self.heat_capacity, ideal_entropy, step);
        let free_energy = calc_free_energy(&self.int_energy, &self.temp, &entropy, free_energy_of);
        proof {
            lemma_entropy_is_integral(
                step,
                self.temp@,
                self.heat_capacity@,
                ideal_entropy,
                entropy@,
            );
            lemma_free_energy_is_derived(
                free_energy_of,
                self.int_energy@,
                self.temp@,
                entropy@,
                free_energy@,
            );
        }
        self.entropy = entropy;
        self.free_energy = free_energy;
    }
}

/// The cumulative integral over the ladder: see
/// [`ModelResults::do_data_analysis`].
pub fn calc_entropy<T: Copy, S: Fn(T, T, T, T, T) -> Option<T>>(
    temp: &Vec<T>,
    heat_capacity: &Vec<T>,
    ideal_entropy: T,
    step: S,
) -> (entropy: Vec<T>)
    requires
        heat_capacity@.len() == temp@.len(),
        forall|args: (T, T, T, T, T)| call_requires(step, args),
    ensures
        entropy_chain(step, temp@, heat_capacity@, ideal_entropy, entropy@),
{
    let n = temp.len();
    let mut entropy: Vec<T> = Vec::with_capacity(n);
    if n == 0 {
        return entropy;
    }
    entropy.push(ideal_entropy);
    let mut i: usize = 1;
    while i < n
        invariant
            1 <= i <= n,
            n == temp@.len(),
            heat_capacity@.len() == n,
            entropy@.len() == i,
            entropy@[0] == ideal_entropy,
            forall|args: (T, T, T, T, T)| call_requires(step, args),
            forall|k: int|
                1 <= k < i ==> #[trigger] entropy_step_at(step, temp@, heat_capacity@, entropy@, k),
        decreases n - i,
    {
        let previous = entropy[i - 1];
        let outcome = step(previous, temp[i - 1], heat_capacity[i - 1], temp[i], heat_capacity[i]);
        let next = match outcome {
            Some(value) => value,
            None => previous,
        };
        let ghost before = entropy@;
        entropy.push(next);
        proof {
            assert forall|k: int| 1 <= k < i + 1 implies #[trigger] entropy_step_at(
                step,
                temp@,
                heat_capacity@,
                entropy@,
                k,
            ) by {
                if k < i {
                    assert(entropy_step_at(step, temp@, heat_capacity@, before, k));
                    assert(entropy@[k - 1] == before[k - 1]);
                    assert(entropy@[k] == before[k]);
                } else {
                    assert(call_ensures(
                        step,
                        (
                            entropy@[k - 1],
                            temp@[k - 1],
                            heat_capacity@[k - 1],
                            temp@[k],
                            heat_capacity@[k],
                        ),
                        outcome,
                    ));
                    assert(entropy@[k] == carried(entropy@[k - 1], outcome));
                }
            }
        }
        i += 1;
    }
    entropy
}

/// The free energy of every ladder point: see
/// [`ModelResults::do_data_analysis`].
pub fn calc_free_energy<T: Copy, F: Fn(T, T, T) -> T>(
    int_energy: &Vec<T>,
    temp: &Vec<T>,
    entropy: &Vec<T>,
    free_energy_of: F,
) -> (free_energy: Vec<T>)
    requires
        int_energy@.len() == temp@.len(),
        entropy@.len() == temp@.len(),
        forall|args: (T, T, T)| call_requires(free_energy_of, args),
    ensures
        free_energy_column(free_energy_of, int_energy@, temp@, entropy@, free_energy@),
{
    let n = temp.len();
    let mut free_energy: Vec<T> = Vec::with_capacity(n);
    let mut i: usize = 0;
    while i < n
        invariant
            i <= n,
            n == temp@.len(),
            int_energy@.len() == n,
            entropy@.len() == n,
            free_energy@.len() == i,
            forall|args: (T, T, T)| call_requires(free_energy_of, args),
            forall|k: int|
                0 <= k < i ==> #[trigger] free_energy_at(
                    free_energy_of,
                    int_energy@,
                    temp@,
                    entropy@,
                    free_energy@,
                    k,
                ),
        decreases n - i,
    {
        let value = free_energy_of(int_energy[i], temp[i], entropy[i]);
        let ghost before = free_energy@;
        free_energy.push(value);
        proof {
            assert forall|k: int| 0 <= k < i + 1 implies #[trigger] free_energy_at(
                free_energy_of,
                int_energy@,
                temp@,
                entropy@,
                free_energy@,
                k,
            ) by {
                if k < i {
                    assert(free_energy_at(free_energy_of, int_energy@, temp@, entropy@, before, k));
                    assert(free_energy@[k] == before[k]);
                }
            }
        }
        i += 1;
    }
    free_energy
}

/// With a kernel that is a function of its arguments, the ladder, the heat
/// capacities and the starting value determine the entropy column: running
/// the analysis again on the same log gives the same entropies.
pub proof fn lemma_entropy_determined<T, S: Fn(T, T, T, T, T) -> Option<T>>(
    step: S,
    temp: Seq<T>,
    heat_capacity: Seq<T>,
    ideal_entropy: T,
    first: Seq<T>,
    second: Seq<T>,
)
    requires
        step_is_function(step),
        entropy_chain(step, temp, heat_capacity, ideal_entropy, first),
        entropy_chain(step, temp, heat_capacity, ideal_entropy, second),
    ensures
        first == second,
{
    assert forall|i: int| 0 <= i < temp.len() implies first[i] == second[i] by {
        lemma_entropy_prefix(step, temp, heat_capacity, ideal_entropy, first, second, i);
    }
    assert(first =~= second);
}

proof fn lemma_entropy_prefix<T, S: Fn(T, T, T, T, T) -> Option<T>>(
    step: S,
    temp: Seq<T>,
    heat_capacity: Seq<T>,
    ideal_entropy: T,
    first: Seq<T>,
    second: Seq<T>,
    i: int,
)
    requires
        step_is_function(step),
        entropy_chain(step, temp, heat_capacity, ideal_entropy, first),
        entropy_chain(step, temp, heat_capacity, ideal_entropy, second),
        0 <= i < temp.len(),
    ensures
        first[i] == second[i],
    decreases i,
{
    if i > 0 {
        lemma_entropy_prefix(step, temp, heat_capacity, ideal_entropy, first, second, i - 1);
        assert(entropy_step_at(step, temp, heat_capacity, first, i));
        assert(entropy_step_at(step, temp, heat_capacity, second, i));
    }
}

/// With a kernel that is a function of its arguments, the log and the
/// entropy column determine the free-energy column.
pub proof fn lemma_free_energy_determined<T, F: Fn(T, T, T) -> T>(
    free_energy_of: F,
    int_energy: Seq<T>,
    temp: Seq<T>,
    entropy: Seq<T>,
    first: Seq<T>,
    second: Seq<T>,
)
    requires
        kernel_is_function(free_energy_of),
        free_energy_column(free_energy_of, int_energy, temp, entropy, first),
        free_energy_column(free_energy_of, int_energy, temp, entropy, second),
    ensures
        first == second,
{
    assert forall|i: int| 0 <= i < temp.len() implies first[i] == second[i] by {
        assert(free_energy_at(free_energy_of, int_energy, temp, entropy, first, i));
        assert(free_energy_at(free_energy_of, int_energy, temp, entropy, second, i));
    }
    assert(first =~= second);
}

/// The analysis is repeatable: with kernels that are functions of their
/// arguments, running it a second time on the log that the first run left
/// gives the same entropies and the same free energies.
pub proof fn lemma_analysis_repeatable<
    T,
    S: Fn(T, T, T, T, T) -> Option<T>,
    F: Fn(T, T, T) -> T,
>(
    start: ModelResults<T>,
    once: ModelResults<T>,
    twice: ModelResults<T>,
    ideal_entropy: T,
    step: S,
    free_energy_of: F,
)
    requires
        step_is_function(step),
        kernel_is_function(free_energy_of),
        analysis_of(start, once, ideal_entropy, step, free_energy_of),
        analysis_of(once, twice, ideal_entropy, step, free_energy_of),
    ensures
        twice.entropy@ == once.entropy@,
        twice.free_energy@ == once.free_energy@,
        twice.temp == start.temp,
        twice.int_energy == start.int_energy,
        twice.heat_capacity == start.heat_capacity,
        twice.acceptance_rate == start.acceptance_rate,
{
    lemma_entropy_determined(
        step,
        start.temp@,
        start.heat_capacity@,
        ideal_entropy,
        once.entropy@,
        twice.entropy@,
    );
    lemma_free_energy_determined(
        free_energy_of,
        start.int_energy@,
        start.temp@,
        once.entropy@,
        once.free_energy@,
        twice.free_energy@,
    );
}

/// A chain of entropies made by a kernel that is a function of its
/// arguments is the integral that the ladder determines.
pub proof fn lemma_entropy_is_integral<T, S: Fn(T, T, T, T, T) -> Option<T>>(
    step: S,
    temp: Seq<T>,
    heat_capacity: Seq<T>,
    ideal_entropy: T,
    entropy: Seq<T>,
)
    requires
        step_is_function(step),
        entropy_chain(step, temp, heat_capacity, ideal_entropy, entropy),
    ensures
        entropy == integrated_entropy(step, temp, heat_capacity, ideal_entropy),
{
    lemma_entropy_take(step, temp, heat_capacity, ideal_entropy, entropy, temp.len());
    assert(entropy.take(temp.len() as int) =~= entropy);
}

proof fn lemma_entropy_take<T, S: Fn(T, T, T, T, T) -> Option<T>>(
    step: S,
    temp: Seq<T>,
    heat_capacity: Seq<T>,
    ideal_entropy: T,
    entropy: Seq<T>,
    n: nat,
)
    requires
        step_is_function(step),
        entropy_chain(step, temp, heat_capacity, ideal_entropy, entropy),
        n <= temp.len(),
    ensures
        entropy.take(n as int) == entropy_prefix(step, temp, heat_capacity, ideal_entropy, n),
    decreases n,
{
    if n == 0 {
        assert(entropy.take(0) =~= Seq::<T>::empty());
    } else if n == 1 {
        assert(entropy.take(1) =~= seq![ideal_entropy]);
    } else {
        let i = (n - 1) as int;
        lemma_entropy_take(step, temp, heat_capacity, ideal_entropy, entropy, (n - 1) as nat);
        let before = entropy_prefix(step, temp, heat_capacity, ideal_entropy, (n - 1) as nat);
        assert(before.last() == entropy[i - 1]);
        assert(entropy_step_at(step, temp, heat_capacity, entropy, i));
        let args = (entropy[i - 1], temp[i - 1], heat_capacity[i - 1], temp[i], heat_capacity[i]);
        let seen = choose|outcome: Option<T>|
            {
                &&& #[trigger] call_ensures(step, args, outcome)
                &&& entropy[i] == carried(entropy[i - 1], outcome)
            };
        assert(call_ensures(step, args, step_outcome(step, args)));
        assert(seen == step_outcome(step, args));
        assert(entropy.take(n as int) =~= before.push(entropy[i]));
    }
}

/// A free-energy column made by a kernel that is a function of its
/// arguments is the one that the log determines.
pub proof fn lemma_free_energy_is_derived<T, F: Fn(T, T, T) -> T>(
    free_energy_of: F,
    int_energy: Seq<T>,
    temp: Seq<T>,
    entropy: Seq<T>,
    free_energy: Seq<T>,
)
    requires
        kernel_is_function(free_energy_of),
        free_energy_column(free_energy_of, int_energy, temp, entropy, free_energy),
    ensures
        free_energy == derived_free_energy(free_energy_of, int_energy, temp, entropy),
{
    let derived = derived_free_energy(free_energy_of, int_energy, temp, entropy);
    assert forall|i: int| 0 <= i < temp.len() implies free_energy[i] == derived[i] by {
        assert(free_energy_at(free_energy_of, int_energy, temp, entropy, free_energy, i));
        let args = (int_energy[i], temp[i], entropy[i]);
        assert(call_ensures(free_energy_of, args, kernel_outcome(free_energy_of, args)));
    }
    assert(free_energy =~= derived);
}

/// Pushes never touch the derived columns: along any run of pushes, from
/// whatever log, the entropy and the free energy stay as they were. After
/// `new` they therefore stay empty until the analysis runs.
pub proof fn lemma_pushes_keep_derived<T>(states: Seq<ModelResults<T>>)
    requires
        states.len() > 0,
        forall|i: int| 0 <= i < states.len() - 1 ==> pushed(#[trigger] states[i], states[i + 1]),
    ensures
        states.last().entropy == states[0].entropy,
        states.last().free_energy == states[0].free_energy,
        states.last().distrs_per_temp == states[0].distrs_per_temp,
    decreases states.len(),
{
    if states.len() > 1 {
        let front = states.drop_last();
        assert forall|i: int| 0 <= i < front.len() - 1 implies pushed(
            #[trigger] front[i],
            front[i + 1],
        ) by {
            assert(pushed(states[i], states[i + 1]));
        }
        lemma_pushes_keep_derived(front);
        assert(pushed(states[states.len() - 2], states[states.len() - 2 + 1]));
    }
}

} // verus!
