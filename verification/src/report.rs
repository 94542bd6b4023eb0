//! The whole transformation: select, fingerprint, sort, write as JSON,
//! fingerprint the text, and summarise.

use crate::digest::hash_text;
use crate::digest::sha256_hex;
use crate::error::PipelineError;
use crate::json::array_json;
use crate::json::to_json;
use crate::plate::has_section;
use crate::plate::plate_matches;
use crate::selection::all_plates_well_formed;
use crate::selection::drawn_from;
use crate::selection::filter_and_hash;
use crate::selection::selected;
use crate::selection::selected_counts;
use crate::selection::selected_is_drawn_from_input;
use crate::selection::without_hash;
use crate::sorting::is_stable_sort_of;
use crate::sorting::plate_groups_keep_every_record;
use crate::sorting::sort_by_license_plate;
use crate::sorting::sort_by_plate;
use crate::sorting::sort_by_plate_is_stable_sort;
use crate::sorting::sorted_arrangement_unique;
use crate::sorting::sorted_by_plate;
use crate::text::append_decimal;
use crate::text::decimal;
use crate::vehicle::HashedVehicleModel;
use crate::vehicle::Vehicle;
use crate::vehicle::VehicleModel;
use crate::vehicle::VehicleWithHash;
use crate::vehicle::with_hash;
use vstd::prelude::*;

verus! {

/// What one run over a dataset produced.
#[derive(Debug, PartialEq, Eq)]
pub struct Report {
    /// The records that passed the rule, with fingerprints, sorted by plate.
    pub vehicles: Vec<VehicleWithHash>,
    /// How many records the dataset held.
    pub source_count: usize,
    /// `vehicles` as a JSON array.
    pub json: String,
    /// The fingerprint of `json`.
    pub result_hash: String,
}

/// A `Report` as plain values.
pub struct ReportModel {
    pub vehicles: Seq<HashedVehicleModel>,
    pub source_count: nat,
    pub json: Seq<char>,
    pub result_hash: Seq<char>,
}

impl View for Report {
    type V = ReportModel;

    open spec fn view(&self) -> ReportModel {
        ReportModel {
            vehicles: self.vehicles.deep_view(),
            source_count: self.source_count as nat,
            json: self.json@,
            result_hash: self.result_hash@,
        }
    }
}

/// The report on a dataset whose plates are all well formed.
pub open spec fn report_of(input: Seq<VehicleModel>) -> ReportModel {
    let vehicles = sort_by_plate(selected(input));
    ReportModel {
        vehicles,
        source_count: input.len(),
        json: array_json(vehicles),
        result_hash: sha256_hex(array_json(vehicles)),
    }
}

/// What a run over `input` gives: the error `MalformedPlate` where a plate
/// has no second section, else the report.
pub open spec fn outcome_of(input: Seq<VehicleModel>) -> Result<ReportModel, PipelineError> {
    if all_plates_well_formed(input) {
        Ok(report_of(input))
    } else {
        Err(PipelineError::MalformedPlate)
    }
}

/// An outcome with its report as plain values.
pub open spec fn outcome_model(outcome: Result<Report, PipelineError>) -> Result<
    ReportModel,
    PipelineError,
> {
    match outcome {
        Ok(report) => Ok(report@),
        Err(e) => Err(e),
    }
}

/// The line that reports a run.
pub open spec fn log_line_text(report: ReportModel, duration_ms: nat) -> Seq<char> {
    "Filtered "@ + decimal(report.vehicles.len()) + " from "@ + decimal(report.source_count)
        + " source items. Result hash: "@ + report.result_hash + ". Duration: "@ + decimal(
        duration_ms,
    ) + " ms."@
}

proof fn lemma_permutation_is_drawn_from(
    out: Seq<HashedVehicleModel>,
    chosen: Seq<HashedVehicleModel>,
    input: Seq<VehicleModel>,
)
    requires
        out.to_multiset() == chosen.to_multiset(),
        drawn_from(chosen, input),
    ensures
        drawn_from(out, input),
{
    assert forall|i: int| 0 <= i < out.len() implies plate_matches(
        (#[trigger] out[i]).license_plate,
    ) && exists|j: int| 0 <= j < input.len() && out[i] == with_hash(
        #[trigger] input[j],
    ) by {
        assert(out.contains(out[i]));
        vstd::seq_lib::to_multiset_contains(out, out[i]);
        vstd::seq_lib::to_multiset_contains(chosen, out[i]);
        let k = choose|k: int| 0 <= k < chosen.len() && chosen[k] == out[i];
        assert(plate_matches(chosen[k].license_plate));
    }
}

/// The records of a report are drawn from the dataset: each has a plate
/// that passes the rule and is a record of the dataset with its
/// fingerprint. They are the selected records, sorted stably, and hold each
/// of them as often as the selection does.
pub proof fn report_is_drawn_from_input(input: Seq<VehicleModel>)
    ensures
        drawn_from(report_of(input).vehicles, input),
        is_stable_sort_of(report_of(input).vehicles, selected(input)),
        report_of(input).vehicles.to_multiset() == selected(input).to_multiset(),
{
    let chosen = selected(input);
    sort_by_plate_is_stable_sort(chosen);
    plate_groups_keep_every_record(sort_by_plate(chosen), chosen);
    selected_is_drawn_from_input(input);
    lemma_permutation_is_drawn_from(sort_by_plate(chosen), chosen, input);
}

/// A report holds each record that passes the rule exactly once for each
/// time the dataset holds it, and nothing else: a record with a
/// fingerprint occurs in the report as often as the record it was made from
/// occurs in the dataset, and not at all where its plate fails the rule or
/// its fingerprint is not that of its make and model.
pub proof fn report_counts(input: Seq<VehicleModel>, h: HashedVehicleModel)
    ensures
        report_of(input).vehicles.to_multiset().count(h) == if plate_matches(h.license_plate) && h
            == with_hash(without_hash(h)) {
            input.to_multiset().count(without_hash(h))
        } else {
            0
        },
{
    report_is_drawn_from_input(input);
    selected_counts(input, h);
}

/// Runs the transformation over a dataset.
///
/// Fails with `MalformedPlate` where one plate of the dataset has no dash.
/// Else the report holds the records whose plates pass the rule, each with
/// the fingerprint of its make and model, sorted by plate; the number of
/// records in the dataset; the JSON text of the sorted records; and the
/// fingerprint of that text.
pub fn process(records: &Vec<Vehicle>) -> (outcome: Result<Report, PipelineError>)
    ensures
        outcome_model(outcome) == outcome_of(records.deep_view()),
        outcome matches Ok(report) ==> {
            &&& sorted_by_plate(report@.vehicles)
            &&& drawn_from(report@.vehicles, records.deep_view())
            &&& is_stable_sort_of(report@.vehicles, selected(records.deep_view()))
        },
{
    let mut vehicles = match filter_and_hash(records) {
        Ok(chosen) => chosen,
        Err(e) => {
            return Err(e);
        },
    };
    sort_by_license_plate(&mut vehicles);
    let json = to_json(&vehicles);
    let result_hash = hash_text(json.as_str());
    proof {
        report_is_drawn_from_input(records.deep_view());
    }
    Ok(Report { vehicles, source_count: records.len(), json, result_hash })
}

impl Report {
    /// The line that reports this run and the time it took.
    pub fn log_line(&self, duration_ms: u128) -> (line: String)
        ensures
            line@ == log_line_text(self@, duration_ms as nat),
    {
        let mut line = String::new();
        line.append("Filtered ");
        append_decimal(&mut line, self.vehicles.len() as u128);
        line.append(" from ");
        append_decimal(&mut line, self.source_count as u128);
        line.append(" source items. Result hash: ");
        line.append(self.result_hash.as_str());
        line.append(". Duration: ");
        append_decimal(&mut line, duration_ms);
        line.append(" ms.");
        assert(line@ =~= log_line_text(self@, duration_ms as nat));
        line
    }
}

/// No two records of `input` whose plates pass the rule share a plate
/// unless they are the same record.
pub open spec fn plates_identify_chosen(input: Seq<VehicleModel>) -> bool {
    forall|i: int, j: int|
        0 <= i < input.len() && 0 <= j < input.len() && plate_matches(
            (#[trigger] input[i]).license_plate,
        ) && input[i].license_plate == (#[trigger] input[j]).license_plate ==> input[i] == input[j]
}

proof fn lemma_same_records_same_plates(a: Seq<VehicleModel>, b: Seq<VehicleModel>)
    requires
        a.to_multiset() == b.to_multiset(),
        all_plates_well_formed(a),
    ensures
        all_plates_well_formed(b),
{
    assert forall|i: int| 0 <= i < b.len() implies has_section(
        (#[trigger] b[i]).license_plate,
        1,
    ) by {
        assert(b.contains(b[i]));
        vstd::seq_lib::to_multiset_contains(b, b[i]);
        vstd::seq_lib::to_multiset_contains(a, b[i]);
        let k = choose|k: int| 0 <= k < a.len() && a[k] == b[i];
        assert(has_section(a[k].license_plate, 1));
    }
}

/// The order in which the records of a dataset arrive does not show in the
/// outcome: two arrangements of the same records give the same error or
/// the same report.
///
/// This holds of every dataset with a malformed plate, and of a dataset
/// without one where records that pass the rule and share a plate are one
/// and the same record. Two different records with one plate come out in
/// the order in which they went in, so their order does show.
pub proof fn order_independence(a: Seq<VehicleModel>, b: Seq<VehicleModel>)
    requires
        a.to_multiset() == b.to_multiset(),
        all_plates_well_formed(a) ==> plates_identify_chosen(a),
    ensures
        outcome_of(a) == outcome_of(b),
{
    if all_plates_well_formed(a) {
        lemma_same_records_same_plates(a, b);
        vstd::seq_lib::to_multiset_len(a);
        vstd::seq_lib::to_multiset_len(b);
        let x = report_of(a).vehicles;
        let y = report_of(b).vehicles;
        report_is_drawn_from_input(a);
        report_is_drawn_from_input(b);
        assert forall|h: HashedVehicleModel| selected(a).to_multiset().count(h) == selected(
            b,
        ).to_multiset().count(h) by {
            selected_counts(a, h);
            selected_counts(b, h);
        }
        assert(selected(a).to_multiset() =~= selected(b).to_multiset());
        assert forall|i: int, j: int|
            0 <= i < x.len() && 0 <= j < x.len() && (#[trigger] x[i]).license_plate == (
            #[trigger] x[j]).license_plate implies x[i] == x[j] by {
            let m = choose|m: int| 0 <= m < a.len() && x[i] == with_hash(#[trigger] a[m]);
            let n = choose|n: int| 0 <= n < a.len() && x[j] == with_hash(#[trigger] a[n]);
            assert(a[m] == a[n]);
        }
        sorted_arrangement_unique(x, y);
    } else if all_plates_well_formed(b) {
        lemma_same_records_same_plates(b, a);
    }
}

/// The fingerprint of a report is that of its JSON text: two datasets whose
/// reports have the same text have the same fingerprint.
pub proof fn same_text_same_result_hash(a: Seq<VehicleModel>, b: Seq<VehicleModel>)
    requires
        report_of(a).json == report_of(b).json,
    ensures
        report_of(a).result_hash == report_of(b).result_hash,
{
}

} // verus!
