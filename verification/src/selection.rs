//! Choosing the records that pass the plate rule and attaching their
//! fingerprints.

use crate::error::PipelineError;
use crate::plate::check_plate;
use crate::plate::has_section;
use crate::plate::plate_matches;
use crate::vehicle::with_hash;
use crate::vehicle::HashedVehicleModel;
use crate::vehicle::Vehicle;
use crate::vehicle::VehicleModel;
use crate::vehicle::VehicleWithHash;
use vstd::prelude::*;

verus! {

/// The test "the plate of this record passes the rule".
pub open spec fn passes_rule() -> spec_fn(VehicleModel) -> bool {
    |v: VehicleModel| plate_matches(v.license_plate)
}

/// The step from a record to the record with its fingerprint.
pub open spec fn attach_hash() -> spec_fn(VehicleModel) -> HashedVehicleModel {
    |v: VehicleModel| with_hash(v)
}

/// Every plate of the dataset has a second section.
pub open spec fn all_plates_well_formed(input: Seq<VehicleModel>) -> bool {
    forall|i: int| 0 <= i < input.len() ==> has_section((#[trigger] input[i]).license_plate, 1)
}

/// The records of `input` whose plates pass the rule, in the order of
/// `input`, each with its fingerprint.
pub open spec fn selected(input: Seq<VehicleModel>) -> Seq<HashedVehicleModel> {
    input.filter(passes_rule()).map_values(attach_hash())
}

/// What selecting from `input` gives: the error `MalformedPlate` where a
/// plate has no second section, else the selected records.
pub open spec fn selection_of(input: Seq<VehicleModel>) -> Result<
    Seq<HashedVehicleModel>,
    PipelineError,
> {
    if all_plates_well_formed(input) {
        Ok(selected(input))
    } else {
        Err(PipelineError::MalformedPlate)
    }
}

/// A selection, or the error in its place, as plain values.
pub open spec fn selection_model(outcome: Result<Vec<VehicleWithHash>, PipelineError>) -> Result<
    Seq<HashedVehicleModel>,
    PipelineError,
> {
    match outcome {
        Ok(chosen) => Ok(chosen.deep_view()),
        Err(e) => Err(e),
    }
}

/// The record that `h` was made from, if it was made from one: `h` without
/// its fingerprint.
pub open spec fn without_hash(h: HashedVehicleModel) -> VehicleModel {
    VehicleModel {
        make: h.make,
        model: h.model,
        license_plate: h.license_plate,
        origin: h.origin,
    }
}

/// Every record of `out` has a plate that passes the rule and is a record
/// of `input` with its fingerprint.
pub open spec fn drawn_from(out: Seq<HashedVehicleModel>, input: Seq<VehicleModel>) -> bool {
    forall|i: int|
        0 <= i < out.len() ==> plate_matches((#[trigger] out[i]).license_plate) && exists|j: int|
            0 <= j < input.len() && out[i] == with_hash(#[trigger] input[j])
}

proof fn lemma_selected_push(input: Seq<VehicleModel>, v: VehicleModel)
    ensures
        selected(input.push(v)) == if plate_matches(v.license_plate) {
            selected(input).push(with_hash(v))
        } else {
            selected(input)
        },
{
    input.lemma_filter_push(v, passes_rule());
    input.filter(passes_rule()).lemma_push_map_commute(attach_hash(), v);
}

/// The selected records are drawn from the input: each has a plate that
/// passes the rule and is an input record with its fingerprint.
pub proof fn selected_is_drawn_from_input(input: Seq<VehicleModel>)
    ensures
        drawn_from(selected(input), input),
    decreases input.len(),
{
    if input.len() == 0 {
        assert(input.filter(passes_rule()) =~= input) by {
            reveal(Seq::filter);
        }
    } else {
        let rest = input.drop_last();
        let v = input.last();
        assert(input =~= rest.push(v));
        selected_is_drawn_from_input(rest);
        lemma_selected_push(rest, v);
        let out = selected(input);
        assert forall|i: int| 0 <= i < out.len() implies plate_matches(
            (#[trigger] out[i]).license_plate,
        ) && exists|j: int| 0 <= j < input.len() && out[i] == with_hash(#[trigger] input[j]) by {
            if i < selected(rest).len() {
                let j = choose|j: int| 0 <= j < rest.len() && out[i] == with_hash(#[trigger] rest[j]);
                assert(out[i] == with_hash(input[j]));
            } else {
                assert(out[i] == with_hash(input[input.len() - 1]));
            }
        }
    }
}

/// Selection takes each record that passes the rule exactly once and no
/// other: a record with a fingerprint occurs among the selected as often
/// as the record it was made from occurs in the input, and not at all where
/// its plate fails the rule or its fingerprint is not that of its make and
/// model.
pub proof fn selected_counts(input: Seq<VehicleModel>, h: HashedVehicleModel)
    ensures
        selected(input).to_multiset().count(h) == if plate_matches(h.license_plate) && h
            == with_hash(without_hash(h)) {
            input.to_multiset().count(without_hash(h))
        } else {
            0
        },
    decreases input.len(),
{
    broadcast use vstd::multiset::group_multiset_axioms;

    if input.len() == 0 {
        assert(input.filter(passes_rule()) =~= input) by {
            reveal(Seq::filter);
        }
        vstd::seq_lib::to_multiset_len(selected(input));
        vstd::seq_lib::to_multiset_len(input);
    } else {
        let rest = input.drop_last();
        let v = input.last();
        assert(input =~= rest.push(v));
        selected_counts(rest, h);
        lemma_selected_push(rest, v);
        vstd::seq_lib::to_multiset_build(rest, v);
        vstd::seq_lib::to_multiset_build(selected(rest), with_hash(v));
    }
}

/// Keeps the records whose plates pass the rule, in their order, and
/// attaches to each the fingerprint of its make and model.
///
/// Fails with `MalformedPlate`, and returns no record, as soon as one
/// plate of the dataset has no dash.
pub fn filter_and_hash(records: &Vec<Vehicle>) -> (outcome: Result<
    Vec<VehicleWithHash>,
    PipelineError,
>)
    ensures
        selection_model(outcome) == selection_of(records.deep_view()),
        outcome matches Ok(chosen) ==> drawn_from(chosen.deep_view(), records.deep_view()),
{
    let ghost input = records.deep_view();
    let mut chosen: Vec<VehicleWithHash> = Vec::new();
    let mut i: usize = 0;
    proof {
        assert(input.take(0).filter(passes_rule()) =~= Seq::<VehicleModel>::empty()) by {
            reveal(Seq::filter);
        }
    }
    while i < records.len()
        invariant
            i <= records.len(),
            input == records.deep_view(),
            all_plates_well_formed(input.take(i as int)),
            chosen.deep_view() == selected(input.take(i as int)),
        decreases records.len() - i,
    {
        let record = &records[i];
        let ghost before = chosen.deep_view();
        proof {
            assert(input.take(i + 1) =~= input.take(i as int).push(record@));
            lemma_selected_push(input.take(i as int), record@);
        }
        match check_plate(record.license_plate.as_str()) {
            Err(e) => {
                assert(!has_section(input[i as int].license_plate, 1));
                return Err(e);
            },
            Ok(passes) => {
                if passes {
                    chosen.push(record.hashed());
                    assert(chosen.deep_view() =~= before.push(with_hash(record@)));
                }
            },
        }
        assert forall|j: int| 0 <= j < i + 1 implies has_section(
            (#[trigger] input.take(i + 1)[j]).license_plate,
            1,
        ) by {
            if j < i {
                assert(input.take(i as int)[j] == input.take(i + 1)[j]);
            }
        }
        i = i + 1;
    }
    proof {
        assert(input.take(i as int) =~= input);
        selected_is_drawn_from_input(input);
    }
    Ok(chosen)
}

} // verus!
