//! Orchestration, bookkeeping and packaging for lattice Monte Carlo sweeps
//! over a ladder of temperatures.

use vstd::prelude::*;

pub mod archive;
pub mod cadence;
pub mod codec;
pub mod csv;
pub mod decimal;
pub mod distribution;
pub mod json;
pub mod method;
pub mod package;
pub mod palette;
pub mod params;
pub mod results;
pub mod text;

pub use crate::palette::get_color;

verus! {

/// Flattens the symmetric two-species pair-energy table into the four
/// entries `[j00, j01, j01, j11]` that a lattice engine is configured with.
pub fn make_energies<T: Copy>(j00: T, j01: T, j11: T) -> (energies: Vec<T>)
    ensures
        energies@ == seq![j00, j01, j01, j11],
{
    let mut energies: Vec<T> = Vec::new();
    energies.push(j00);
    energies.push(j01);
    energies.push(j01);
    energies.push(j11);
    assert(energies@ =~= seq![j00, j01, j01, j11]);
    energies
}

} // verus!
