//! Trial-move strategies and their names.

use vstd::prelude::*;
use crate::text::same_text;

verus! {

/// The strategies by which a trial move changes the lattice.
#[derive(Clone, Copy, Debug, PartialEq, Eq, Structural)]
pub enum TrialMethod {
    /// Swap two atoms anywhere on the lattice.
    MonteCarloSwap,
    /// Let a vacancy hop to a neighbouring site.
    MoveVacancy,
}

/// The outcome of looking a strategy up by name.
#[derive(Clone, Copy, Debug, PartialEq, Eq, Structural)]
pub struct MethodChoice {
    /// The strategy to use.
    pub method: TrialMethod,
    /// Whether the name was known. Where it was not, `method` is the
    /// default and the host is owed a warning.
    pub recognized: bool,
}

/// The strategy used where a name is not known.
pub open spec fn default_method() -> TrialMethod {
    TrialMethod::MoveVacancy
}

/// The strategy that `name` stands for, with the default for every name
/// that is not known.
pub open spec fn method_named(name: Seq<char>) -> MethodChoice {
    if name == "monte_carlo_swap"@ {
        MethodChoice { method: TrialMethod::MonteCarloSwap, recognized: true }
    } else if name == "move_vacancy"@ {
        MethodChoice { method: TrialMethod::MoveVacancy, recognized: true }
    } else {
        MethodChoice { method: default_method(), recognized: false }
    }
}

/// Looks a strategy up by name. An unknown name is no error: it selects the
/// default strategy and is reported through `recognized`.
pub fn resolve_method(name: &str) -> (choice: MethodChoice)
    ensures
        choice == method_named(name@),
{
    if same_text(name, "monte_carlo_swap") {
        MethodChoice { method: TrialMethod::MonteCarloSwap, recognized: true }
    } else if same_text(name, "move_vacancy") {
        MethodChoice { method: TrialMethod::MoveVacancy, recognized: true }
    } else {
        MethodChoice { method: TrialMethod::MoveVacancy, recognized: false }
    }
}

} // verus!
