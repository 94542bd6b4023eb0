//! The JSON text of the result list.
//!
//! The text is compact: no whitespace, the fields of each object in the
//! order in which `VehicleWithHash` declares them. String values are quoted
//! and escaped by `serde_json`; the punctuation around them and the numbers
//! are written here.

use crate::text::append_decimal;
use crate::text::decimal;
use crate::vehicle::HashedVehicleModel;
use crate::vehicle::Origin;
use crate::vehicle::OriginModel;
use crate::vehicle::VehicleWithHash;
use vstd::prelude::*;

verus! {

/// The error type of `serde_json`; nothing is known of what it holds.
#[verifier::external_type_specification]
#[verifier::external_body]
pub struct ExJsonError(serde_json::Error);

/// The JSON string literal that `serde_json` writes for a text: the text
/// between double quotes, with the escapes that JSON asks for.
pub uninterp spec fn json_string_text(s: Seq<char>) -> Seq<char>;

/// Calls `serde_json::to_string` on a string slice. The contract claims
/// two things of it. The call succeeds: a string slice is serialized by
/// writing into a buffer in memory, which cannot fail, and the errors that
/// `to_string` documents concern maps and types that refuse to be
/// serialized. And the text that comes back depends on the characters of
/// the slice alone, so it has a name.
#[verifier::external_body]
fn quote(s: &str) -> (quoted: Result<String, serde_json::Error>)
    ensures
        quoted is Ok,
        quoted->Ok_0@ == json_string_text(s@),
{
    serde_json::to_string(s)
}

/// The JSON object of an origin.
pub open spec fn origin_json(o: OriginModel) -> Seq<char> {
    "{\"country\":"@ + json_string_text(o.country) + ",\"year\":"@ + decimal(o.year as nat) + "}"@
}

/// The JSON object of a result record.
pub open spec fn vehicle_json(v: HashedVehicleModel) -> Seq<char> {
    "{\"make\":"@ + json_string_text(v.make) + ",\"model\":"@ + json_string_text(v.model)
        + ",\"license_plate\":"@ + json_string_text(v.license_plate) + ",\"origin\":"@
        + origin_json(v.origin) + ",\"make_model_hash\":"@ + json_string_text(v.make_model_hash)
        + "}"@
}

/// The JSON objects of a list of records, with a comma between each two.
pub open spec fn items_json(vs: Seq<HashedVehicleModel>) -> Seq<char>
    decreases vs.len(),
{
    if vs.len() == 0 {
        Seq::empty()
    } else if vs.len() == 1 {
        vehicle_json(vs[0])
    } else {
        items_json(vs.drop_last()) + ","@ + vehicle_json(vs.last())
    }
}

/// The JSON array of a list of records.
pub open spec fn array_json(vs: Seq<HashedVehicleModel>) -> Seq<char> {
    "["@ + items_json(vs) + "]"@
}

fn append_quoted(out: &mut String, s: &str)
    ensures
        final(out)@ == old(out)@ + json_string_text(s@),
{
    let quoted = quote(s).unwrap();
    out.append(quoted.as_str());
}

fn append_origin(out: &mut String, origin: &Origin)
    ensures
        final(out)@ == old(out)@ + origin_json(origin@),
{
    out.append("{\"country\":");
    append_quoted(out, origin.country.as_str());
    out.append(",\"year\":");
    append_decimal(out, origin.year as u128);
    out.append("}");
}

fn append_vehicle(out: &mut String, vehicle: &VehicleWithHash)
    ensures
        final(out)@ == old(out)@ + vehicle_json(vehicle@),
{
    out.append("{\"make\":");
    append_quoted(out, vehicle.make.as_str());
    out.append(",\"model\":");
    append_quoted(out, vehicle.model.as_str());
    out.append(",\"license_plate\":");
    append_quoted(out, vehicle.license_plate.as_str());
    out.append(",\"origin\":");
    append_origin(out, &vehicle.origin);
    out.append(",\"make_model_hash\":");
    append_quoted(out, vehicle.make_model_hash.as_str());
    out.append("}");
}

/// Writes the result list as a JSON array.
pub fn to_json(vehicles: &Vec<VehicleWithHash>) -> (text: String)
    ensures
        text@ == array_json(vehicles.deep_view()),
{
    let ghost models = vehicles.deep_view();
    let mut text = String::new();
    text.append("[");
    let mut i: usize = 0;
    while i < vehicles.len()
        invariant
            i <= vehicles.len(),
            models == vehicles.deep_view(),
            text@ == "["@ + items_json(models.take(i as int)),
        decreases vehicles.len() - i,
    {
        if i > 0 {
            text.append(",");
        }
        append_vehicle(&mut text, &vehicles[i]);
        assert(models.take(i + 1).drop_last() =~= models.take(i as int));
        i = i + 1;
    }
    text.append("]");
    assert(models.take(i as int) =~= models);
    text
}

} // verus!
