//! The result archive of a run: animation, table of observables, parameter
//! summary and cluster distributions in one compressed file.

use vstd::prelude::*;
use crate::archive::{pack_result_files, packs_to, result_layout, ArchiveError};
use crate::csv::{csv_document, csv_text, rows_shown, CsvRow};
use crate::json::{json_document, json_text, render_samples, samples_shown, Sample};
use crate::params::{make_model_params, params_text, ModelParams};
use crate::results::ModelResults;
use crate::text::encoded;

verus! {

/// Whether `archive` is what packing makes of `log`: the three texts are
/// what the two rules for the text of a value make of the log, and the
/// outcome is that of packing the animation, the table, the summary and
/// the distributions, in that order.
pub open spec fn packaged<T: Copy, F: Fn(T) -> String, G: Fn(u32, u32) -> String>(
    log: &ModelResults<T>,
    animation: Seq<u8>,
    params: ModelParams,
    show: F,
    show_share: G,
    archive: Result<Vec<u8>, ArchiveError>,
) -> bool {
    exists|rows: Seq<CsvRow>, first: Seq<Sample>, second: Seq<Sample>|
        {
            &&& rows_shown(log, show, rows)
            &&& samples_shown(show, show_share, log.temp@, log.distr_0@, log.distrs_per_temp, first)
            &&& samples_shown(show, show_share, log.temp@, log.distr_1@, log.distrs_per_temp, second)
            &&& packs_to(
                #[trigger] result_layout(
                    animation,
                    encoded(csv_text(rows)),
                    encoded(params_text(params)),
                    encoded(json_text(first, second)),
                ),
                archive,
            )
        }
}

impl<T: Copy> ModelResults<T> {
    /// Builds the result archive of an analysed log from scratch.
    ///
    /// Either the whole archive is returned or none. It is owed exactly
    /// where the animation and the three texts are each within the limit
    /// of one entry; else the error names the first that is not.
    pub fn make_zip<F: Fn(T) -> String, G: Fn(u32, u32) -> String>(
        &self,
        animation: Vec<u8>,
        params: &ModelParams,
        show: F,
        show_share: G,
    ) -> (archive: Result<Vec<u8>, ArchiveError>)
        requires
            self.aligned(),
            self.analysed(),
            forall|value: T| call_requires(show, (value,)),
            forall|count: u32, samples: u32| call_requires(show_share, (count, samples)),
        ensures
            packaged(self, animation@, *params, show, show_share, archive),
    {
        let rows = self.render_rows(&show);
        let first = render_samples(
            &self.temp,
            &self.distr_0,
            self.distrs_per_temp,
            &show,
            &show_share,
        );
        let second = render_samples(
            &self.temp,
            &self.distr_1,
            self.distrs_per_temp,
            &show,
            &show_share,
        );
        let csv = csv_document(&rows);
        let summary = make_model_params(params);
        let json = json_document(&first, &second);
        let ghost layout = result_layout(animation@, csv@, summary@, json@);
        let archive = pack_result_files(animation, csv, summary, json);
        proof {
            assert(layout == result_layout(
                animation@,
                encoded(csv_text(rows@)),
                encoded(params_text(*params)),
                encoded(json_text(first@, second@)),
            ));
        }
        archive
    }
}

} // verus!
