//! The table of observables as comma-separated text.

use vstd::prelude::*;
use vstd::string::*;
use crate::results::ModelResults;
use crate::text::{encoded, into_encoded};

verus! {

/// One row of the table, every value already in its textual form.
pub struct CsvRow {
    pub temperature: String,
    pub internal_energy: String,
    pub heat_capacity: String,
    pub acceptance_rate: String,
    pub entropy: String,
    pub free_energy: String,
}

/// The lines that open the table: four lines of attribution and notes, then
/// the names of the six columns.
pub open spec fn csv_header() -> Seq<char> {
    "This file was generated as output to Thermodynamic Models https://max-kay.github.io/thermo-online/\n"@
        + "All extensive variable are divided by the number of lattice sites.\n"@
        + "Code for website: https://github.com/max-kay/thermo-online\n"@
        + "Rust library used for the simulation: https://github.com/max-kay/phases\n"@
        + "temperature,internal_energy,heat_capacity,acceptance_rate,entropy,free_energy\n"@
}

/// One line of the table: the six values in column order, a comma after
/// each of them, the last included.
pub open spec fn csv_line(row: CsvRow) -> Seq<char> {
    row.temperature@ + ","@ + row.internal_energy@ + ","@ + row.heat_capacity@ + ","@
        + row.acceptance_rate@ + ","@ + row.entropy@ + ","@ + row.free_energy@ + ",\n"@
}

/// The lines of `rows`, in order.
pub open spec fn csv_lines(rows: Seq<CsvRow>) -> Seq<char>
    decreases rows.len(),
{
    if rows.len() == 0 {
        Seq::empty()
    } else {
        csv_lines(rows.drop_last()) + csv_line(rows.last())
    }
}

/// The whole table as text.
pub open spec fn csv_text(rows: Seq<CsvRow>) -> Seq<char> {
    csv_header() + csv_lines(rows)
}

/// The table with the rows `rows`, as the bytes of a file.
pub fn csv_document(rows: &Vec<CsvRow>) -> (bytes: Vec<u8>)
    ensures
        bytes@ == encoded(csv_text(rows@)),
{
    let mut text = String::from_str(
        "This file was generated as output to Thermodynamic Models https://max-kay.github.io/thermo-online/\n",
    );
    text.append("All extensive variable are divided by the number of lattice sites.\n");
    text.append("Code for website: https://github.com/max-kay/thermo-online\n");
    text.append("Rust library used for the simulation: https://github.com/max-kay/phases\n");
    text.append("temperature,internal_energy,heat_capacity,acceptance_rate,entropy,free_energy\n");
    assert(text@ =~= csv_header() + csv_lines(rows@.take(0))) by {
        assert(rows@.take(0) =~= Seq::<CsvRow>::empty());
    }
    let mut i: usize = 0;
    while i < rows.len()
        invariant
            i <= rows@.len(),
            text@ == csv_header() + csv_lines(rows@.take(i as int)),
        decreases rows@.len() - i,
    {
        let row = &rows[i];
        let ghost before = text@;
        text.append(row.temperature.as_str());
        text.append(",");
        text.append(row.internal_energy.as_str());
        text.append(",");
        text.append(row.heat_capacity.as_str());
        text.append(",");
        text.append(row.acceptance_rate.as_str());
        text.append(",");
        text.append(row.entropy.as_str());
        text.append(",");
        text.append(row.free_energy.as_str());
        text.append(",\n");
        proof {
            assert(rows@.take(i + 1).drop_last() =~= rows@.take(i as int));
            assert(rows@.take(i + 1).last() == rows@[i as int]);
            assert(text@ =~= before + csv_line(rows@[i as int]));
            assert(text@ =~= csv_header() + csv_lines(rows@.take(i + 1)));
        }
        i += 1;
    }
    proof {
        assert(rows@.take(i as int) =~= rows@);
    }
    into_encoded(text)
}

/// Whether `row` holds what `show` makes of row `i` of `log`.
pub open spec fn row_shown<T: Copy, F: Fn(T) -> String>(
    log: &ModelResults<T>,
    show: F,
    i: int,
    row: CsvRow,
) -> bool {
    &&& call_ensures(show, (log.temp@[i],), row.temperature)
    &&& call_ensures(show, (log.int_energy@[i],), row.internal_energy)
    &&& call_ensures(show, (log.heat_capacity@[i],), row.heat_capacity)
    &&& call_ensures(show, (log.acceptance_rate@[i],), row.acceptance_rate)
    &&& call_ensures(show, (log.entropy@[i],), row.entropy)
    &&& call_ensures(show, (log.free_energy@[i],), row.free_energy)
}

/// Whether `rows` holds, row by row, what `show` makes of `log`.
pub open spec fn rows_shown<T: Copy, F: Fn(T) -> String>(
    log: &ModelResults<T>,
    show: F,
    rows: Seq<CsvRow>,
) -> bool {
    &&& rows.len() == log.rows()
    &&& forall|i: int| 0 <= i < rows.len() ==> row_shown(log, show, i, #[trigger] rows[i])
}

impl<T: Copy> ModelResults<T> {
    /// Puts every value of an analysed log into its textual form, with
    /// `show` as the rule for one value.
    pub fn render_rows<F: Fn(T) -> String>(&self, show: &F) -> (rows: Vec<CsvRow>)
        requires
            self.aligned(),
            self.analysed(),
            forall|value: T| call_requires(*show, (value,)),
        ensures
            rows_shown(self, *show, rows@),
    {
        let mut rows: Vec<CsvRow> = Vec::new();
        let mut i: usize = 0;
        while i < self.temp.len()
            invariant
                i <= self.rows(),
                self.aligned(),
                self.analysed(),
                forall|value: T| call_requires(*show, (value,)),
                rows@.len() == i,
                forall|k: int| 0 <= k < i ==> row_shown(self, *show, k, #[trigger] rows@[k]),
            decreases self.rows() - i,
        {
            let row = CsvRow {
                temperature: show(self.temp[i]),
                internal_energy: show(self.int_energy[i]),
                heat_capacity: show(self.heat_capacity[i]),
                acceptance_rate: show(self.acceptance_rate[i]),
                entropy: show(self.entropy[i]),
                free_energy: show(self.free_energy[i]),
            };
            rows.push(row);
            i += 1;
        }
        rows
    }

    /// The table of an analysed log as the bytes of a file: the fixed
    /// opening lines, then one line per temperature in ladder order, with
    /// `show` as the rule for the text of one value.
    pub fn make_csv_buffer<F: Fn(T) -> String>(&self, show: F) -> (bytes: Vec<u8>)
        requires
            self.aligned(),
            self.analysed(),
            forall|value: T| call_requires(show, (value,)),
        ensures
            exists|rows: Seq<CsvRow>|
                rows_shown(self, show, rows) && bytes@ == encoded(#[trigger] csv_text(rows)),
    {
        let rows = self.render_rows(&show);
        csv_document(&rows)
    }
}

} // verus!
