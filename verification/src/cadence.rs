//! The cadence of one sweep: which trial moves are discarded, which are
//! measured, and after which measured moves a frame or a cluster
//! distribution is captured.
//!
//! The lattice itself is driven from outside. A [`Sweep`] only decides: it
//! says what the next move is for, and is told whether the move was
//! accepted.

use vstd::prelude::*;

verus! {

/// Why a sweep cannot be laid out.
#[derive(Clone, Copy, Debug, PartialEq, Eq, Structural)]
pub enum CadenceError {
    /// The number of frames is zero or exceeds the number of measured moves.
    FrameCount,
    /// The number of distribution samples is zero or exceeds the number of
    /// measured moves.
    DistributionCount,
}

/// What the next trial move of a sweep is for.
#[derive(Clone, Copy, Debug, PartialEq, Eq, Structural)]
pub enum Action {
    /// Make a move and discard its outcome.
    Equilibrate,
    /// Make a move, add the internal energy to the running statistics, then
    /// capture what is asked for.
    Measure { frame: bool, distribution: bool },
    /// The sweep is complete; no move is left.
    Finish,
}

/// How many of the step indices `0 .. steps` are multiples of `stride`.
pub open spec fn captures(steps: nat, stride: nat) -> nat
    decreases steps,
{
    if steps == 0 {
        0
    } else {
        captures((steps - 1) as nat, stride) + if (steps - 1) % (stride as int) == 0 {
            1nat
        } else {
            0nat
        }
    }
}

/// Whether `count` captures can be spread over `total` measured moves.
pub open spec fn count_fits(count: nat, total: nat) -> bool {
    1 <= count <= total
}

/// The layout of a sweep, fixed when it starts.
#[derive(Clone, Copy, Debug, PartialEq, Eq, Structural)]
pub struct Cadence {
    /// Trial moves that are made and discarded first.
    pub equilibration: u64,
    /// Trial moves that are measured.
    pub total: u64,
    /// A frame is captured after every measured move whose index is a
    /// multiple of this.
    pub frame_stride: u64,
    /// A cluster distribution is captured after every measured move whose
    /// index is a multiple of this.
    pub distr_stride: u64,
}

impl Cadence {
    /// Both strides are usable as divisors, and none exceeds the number of
    /// measured moves.
    pub open spec fn wf(&self) -> bool {
        &&& 1 <= self.frame_stride <= self.total
        &&& 1 <= self.distr_stride <= self.total
    }

    /// The cadence of a sweep of `equilibrium_steps` and `measurement_steps`
    /// passes over a lattice of `area` sites, with `frames` frames and
    /// `distrs` distribution samples asked for. The strides are the whole
    /// quotients of the number of measured moves by the two counts.
    pub fn new(
        equilibrium_steps: u32,
        measurement_steps: u32,
        area: u32,
        frames: u32,
        distrs: u32,
    ) -> (cadence: Result<Cadence, CadenceError>)
        ensures
            match cadence {
                Ok(c) => {
                    &&& count_fits(frames as nat, (measurement_steps * area) as nat)
                    &&& count_fits(distrs as nat, (measurement_steps * area) as nat)
                    &&& c.wf()
                    &&& c.equilibration == equilibrium_steps * area
                    &&& c.total == measurement_steps * area
                    &&& c.frame_stride == (measurement_steps * area) / (frames as int)
                    &&& c.distr_stride == (measurement_steps * area) / (distrs as int)
                },
                Err(CadenceError::FrameCount) => !count_fits(
                    frames as nat,
                    (measurement_steps * area) as nat,
                ),
                Err(CadenceError::DistributionCount) => {
                    &&& count_fits(frames as nat, (measurement_steps * area) as nat)
                    &&& !count_fits(distrs as nat, (measurement_steps * area) as nat)
                },
            },
    {
        assert(equilibrium_steps * area <= u64::MAX && measurement_steps * area <= u64::MAX)
            by (nonlinear_arith)
            requires
                equilibrium_steps <= u32::MAX,
                measurement_steps <= u32::MAX,
                area <= u32::MAX,
        ;
        let equilibration: u64 = (equilibrium_steps as u64) * (area as u64);
        let total: u64 = (measurement_steps as u64) * (area as u64);
        if frames == 0 || frames as u64 > total {
            return Err(CadenceError::FrameCount);
        }
        if distrs == 0 || distrs as u64 > total {
            return Err(CadenceError::DistributionCount);
        }
        let frame_stride: u64 = total / (frames as u64);
        let distr_stride: u64 = total / (distrs as u64);
        proof {
            lemma_stride_bounds(total as nat, frames as nat);
            lemma_stride_bounds(total as nat, distrs as nat);
        }
        Ok(Cadence { equilibration, total, frame_stride, distr_stride })
    }

    /// What the move is for that comes after `equilibrated` discarded and
    /// `measured` measured moves.
    pub open spec fn action_after(&self, equilibrated: nat, measured: nat) -> Action {
        if equilibrated < self.equilibration {
            Action::Equilibrate
        } else if measured < self.total {
            Action::Measure {
                frame: measured % (self.frame_stride as nat) == 0,
                distribution: measured % (self.distr_stride as nat) == 0,
            }
        } else {
            Action::Finish
        }
    }
}

/// A whole quotient of `total` by a count that fits is a usable stride.
pub proof fn lemma_stride_bounds(total: nat, count: nat)
    requires
        count_fits(count, total),
    ensures
        1 <= total / count <= total,
{
    assert(1 <= total / count <= total) by (nonlinear_arith)
        requires
            1 <= count <= total,
    ;
}

/// A sweep in progress.
pub struct Sweep {
    cadence: Cadence,
    equilibrated: u64,
    measured: u64,
    accepted: u64,
    frames: u64,
    distributions: u64,
}

impl Sweep {
    /// The layout that the sweep follows.
    pub closed spec fn cadence(&self) -> Cadence {
        self.cadence
    }

    /// Moves made and discarded so far.
    pub closed spec fn equilibrated(&self) -> nat {
        self.equilibrated as nat
    }

    /// Moves measured so far.
    pub closed spec fn measured(&self) -> nat {
        self.measured as nat
    }

    /// Measured moves that were accepted.
    pub closed spec fn accepted(&self) -> nat {
        self.accepted as nat
    }

    /// Frames asked for so far.
    pub closed spec fn frames(&self) -> nat {
        self.frames as nat
    }

    /// Distribution samples asked for so far.
    pub closed spec fn distributions(&self) -> nat {
        self.distributions as nat
    }

    /// The invariant of a sweep: the counters stay within the layout, no
    /// move is measured before equilibration is over, and the captures
    /// asked for are those of the measured moves.
    pub open spec fn wf(&self) -> bool {
        &&& self.cadence().wf()
        &&& self.equilibrated() <= self.cadence().equilibration
        &&& self.measured() <= self.cadence().total
        &&& self.measured() > 0 ==> self.equilibrated() == self.cadence().equilibration
        &&& self.accepted() <= self.measured()
        &&& self.frames() == captures(self.measured(), self.cadence().frame_stride as nat)
        &&& self.distributions() == captures(self.measured(), self.cadence().distr_stride as nat)
    }

    /// What the next move is for.
    pub open spec fn pending(&self) -> Action {
        self.cadence().action_after(self.equilibrated(), self.measured())
    }

    /// A sweep that has made no move yet.
    pub fn start(cadence: Cadence) -> (sweep: Sweep)
        requires
            cadence.wf(),
        ensures
            sweep.wf(),
            sweep.cadence() == cadence,
            sweep.equilibrated() == 0,
            sweep.measured() == 0,
            sweep.accepted() == 0,
            sweep.frames() == 0,
            sweep.distributions() == 0,
    {
        Sweep { cadence, equilibrated: 0, measured: 0, accepted: 0, frames: 0, distributions: 0 }
    }

    /// What the next move is for.
    pub fn next(&self) -> (action: Action)
        requires
            self.wf(),
        ensures
            action == self.pending(),
    {
        if self.equilibrated < self.cadence.equilibration {
            Action::Equilibrate
        } else if self.measured < self.cadence.total {
            Action::Measure {
                frame: self.measured % self.cadence.frame_stride == 0,
                distribution: self.measured % self.cadence.distr_stride == 0,
            }
        } else {
            Action::Finish
        }
    }

    /// Takes note of the move that [`Sweep::next`] asked for. The outcome
    /// of a discarded move is ignored; that of a measured move is counted.
    /// A finished sweep stays as it is.
    pub fn advance(&mut self, accepted: bool)
        requires
            old(self).wf(),
        ensures
            final(self).wf(),
            final(self).cadence() == old(self).cadence(),
            match old(self).pending() {
                Action::Equilibrate => {
                    &&& final(self).equilibrated() == old(self).equilibrated() + 1
                    &&& final(self).measured() == old(self).measured()
                    &&& final(self).accepted() == old(self).accepted()
                    &&& final(self).frames() == old(self).frames()
                    &&& final(self).distributions() == old(self).distributions()
                },
                Action::Measure { frame, distribution } => {
                    &&& final(self).equilibrated() == old(self).equilibrated()
                    &&& final(self).measured() == old(self).measured() + 1
                    &&& final(self).accepted() == old(self).accepted() + if accepted {
                        1nat
                    } else {
                        0nat
                    }
                    &&& final(self).frames() == old(self).frames() + if frame {
                        1nat
                    } else {
                        0nat
                    }
                    &&& final(self).distributions() == old(self).distributions()
                        + if distribution {
                        1nat
                    } else {
                        0nat
                    }
                },
                Action::Finish => *final(self) == *old(self),
            },
    {
        if self.equilibrated < self.cadence.equilibration {
            self.equilibrated = self.equilibrated + 1;
        } else if self.measured < self.cadence.total {
            proof {
                lemma_captures_bound(self.measured as nat, self.cadence.frame_stride as nat);
                lemma_captures_bound(self.measured as nat, self.cadence.distr_stride as nat);
            }
            if self.measured % self.cadence.frame_stride == 0 {
                self.frames = self.frames + 1;
            }
            if self.measured % self.cadence.distr_stride == 0 {
                self.distributions = self.distributions + 1;
            }
            if accepted {
                self.accepted = self.accepted + 1;
            }
            self.measured = self.measured + 1;
        }
    }

    /// Whether no move is left.
    pub fn is_finished(&self) -> (done: bool)
        requires
            self.wf(),
        ensures
            done == (self.pending() == Action::Finish),
    {
        self.equilibrated >= self.cadence.equilibration && self.measured >= self.cadence.total
    }

    /// The layout that the sweep follows.
    pub fn layout(&self) -> (cadence: Cadence)
        ensures
            cadence == self.cadence(),
    {
        self.cadence
    }

    /// Moves measured so far.
    pub fn measured_moves(&self) -> (n: u64)
        ensures
            n == self.measured(),
    {
        self.measured
    }

    /// Measured moves that were accepted.
    pub fn accepted_moves(&self) -> (n: u64)
        ensures
            n == self.accepted(),
    {
        self.accepted
    }

    /// Frames asked for so far.
    pub fn frames_captured(&self) -> (n: u64)
        ensures
            n == self.frames(),
    {
        self.frames
    }

    /// Distribution samples asked for so far.
    pub fn distributions_captured(&self) -> (n: u64)
        ensures
            n == self.distributions(),
    {
        self.distributions
    }
}

/// A finished sweep has made every move of its layout, and has asked for a
/// capture after every measured move whose index is a multiple of the
/// stride, no more and no fewer.
pub proof fn lemma_finished_sweep(sweep: Sweep)
    requires
        sweep.wf(),
        sweep.pending() == Action::Finish,
    ensures
        sweep.equilibrated() == sweep.cadence().equilibration,
        sweep.measured() == sweep.cadence().total,
        sweep.frames() == captures(
            sweep.cadence().total as nat,
            sweep.cadence().frame_stride as nat,
        ),
        sweep.distributions() == captures(
            sweep.cadence().total as nat,
            sweep.cadence().distr_stride as nat,
        ),
{
}

/// No more captures than steps.
pub proof fn lemma_captures_bound(steps: nat, stride: nat)
    ensures
        captures(steps, stride) <= steps,
    decreases steps,
{
    if steps > 0 {
        lemma_captures_bound((steps - 1) as nat, stride);
    }
}

/// The multiples of `stride` below `steps` number the quotient rounded up.
pub proof fn lemma_captures_closed_form(steps: nat, stride: nat)
    requires
        stride >= 1,
    ensures
        captures(steps, stride) == (steps + stride - 1) / (stride as int),
    decreases steps,
{
    if steps == 0 {
        assert((stride - 1) / (stride as int) == 0) by (nonlinear_arith)
            requires
                stride >= 1,
        ;
    } else {
        let n = (steps - 1) as int;
        let s = stride as int;
        lemma_captures_closed_form((steps - 1) as nat, stride);
        assert((n + s) / s == (n + s - 1) / s + if n % s == 0 {
            1int
        } else {
            0int
        }) by (nonlinear_arith)
            requires
                n >= 0,
                s >= 1,
        ;
    }
}

/// A full sweep captures at least as many frames (or samples) as were asked
/// for, and exactly as many where the count divides the number of measured
/// moves.
pub proof fn lemma_captures_of_sweep(total: nat, count: nat)
    requires
        count_fits(count, total),
    ensures
        captures(total, total / count) >= count,
        total % count == 0 ==> captures(total, total / count) == count,
{
    let stride = total / count;
    lemma_stride_bounds(total, count);
    lemma_captures_closed_form(total, stride);
    let t = total as int;
    let c = count as int;
    let s = stride as int;
    assert((t + s - 1) / s >= c) by (nonlinear_arith)
        requires
            1 <= c <= t,
            s == t / c,
            s >= 1,
    ;
    if total % count == 0 {
        assert((t + s - 1) / s == c) by (nonlinear_arith)
            requires
                1 <= c <= t,
                s == t / c,
                t % c == 0,
                s >= 1,
        ;
    }
}

} // verus!
