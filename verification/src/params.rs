//! The summary of a run's configuration as plain text.

use vstd::prelude::*;
use vstd::string::*;
use crate::decimal::{append_decimal, decimal};
use crate::text::{encoded, into_encoded};

verus! {

/// The configuration of a run. Settings that are not whole numbers are held
/// in their textual form.
pub struct ModelParams {
    /// Edge length of the square lattice, in sites.
    pub size: u32,
    /// Name of the trial-move strategy.
    pub method: String,
    /// The pair energies, as the lattice engine describes them.
    pub energies: String,
    /// Concentration of the first species.
    pub concentration_a: String,
    /// Concentration of the second species.
    pub concentration_b: String,
    /// Number of temperatures on the ladder.
    pub temp_steps: u32,
    /// First temperature of the ladder.
    pub start_temp: String,
    /// Last temperature of the ladder.
    pub end_temp: String,
    /// Equilibration passes per temperature.
    pub equilibrium_steps: u32,
    /// Measurement passes per temperature.
    pub measurement_steps: u32,
}

/// The summary: one line per setting, or per pair of settings that belong
/// together, each a label, a colon and the value.
pub open spec fn params_text(params: ModelParams) -> Seq<char> {
    "Model Size: "@ + decimal(params.size as nat) + "\n"@
        + "Method: "@ + params.method@ + "\n"@
        + "Energies: "@ + params.energies@ + "\n"@
        + "Concentration A: "@ + params.concentration_a@
        + ", Concentration B: "@ + params.concentration_b@ + "\n"@
        + "Temperature Steps: "@ + decimal(params.temp_steps as nat) + "\n"@
        + "Start Temperature: "@ + params.start_temp@
        + ", End Temperature: "@ + params.end_temp@ + "\n"@
        + "Steps for Equilibrium: "@ + decimal(params.equilibrium_steps as nat) + "\n"@
        + "Steps for Measurement: "@ + decimal(params.measurement_steps as nat) + "\n"@
}

/// The summary of `params` as the bytes of a file.
pub fn make_model_params(params: &ModelParams) -> (bytes: Vec<u8>)
    ensures
        bytes@ == encoded(params_text(*params)),
{
    let mut text = String::from_str("Model Size: ");
    append_decimal(&mut text, params.size as u64);
    text.append("\n");
    text.append("Method: ");
    text.append(params.method.as_str());
    text.append("\n");
    text.append("Energies: ");
    text.append(params.energies.as_str());
    text.append("\n");
    text.append("Concentration A: ");
    text.append(params.concentration_a.as_str());
    text.append(", Concentration B: ");
    text.append(params.concentration_b.as_str());
    text.append("\n");
    text.append("Temperature Steps: ");
    append_decimal(&mut text, params.temp_steps as u64);
    text.append("\n");
    text.append("Start Temperature: ");
    text.append(params.start_temp.as_str());
    text.append(", End Temperature: ");
    text.append(params.end_temp.as_str());
    text.append("\n");
    text.append("Steps for Equilibrium: ");
    append_decimal(&mut text, params.equilibrium_steps as u64);
    text.append("\n");
    text.append("Steps for Measurement: ");
    append_decimal(&mut text, params.measurement_steps as u64);
    text.append("\n");
    assert(text@ =~= params_text(*params));
    into_encoded(text)
}

} // verus!
