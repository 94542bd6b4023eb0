//! The records that the pipeline reads and writes, and their mathematical
//! models.

use crate::digest::hash_text;
use crate::digest::sha256_hex;
use vstd::prelude::*;

verus! {

/// Where a vehicle was built.
#[derive(Debug, PartialEq, Eq)]
pub struct Origin {
    pub country: String,
    pub year: u16,
}

/// One record of the dataset.
#[derive(Debug, PartialEq, Eq)]
pub struct Vehicle {
    pub make: String,
    pub model: String,
    pub license_plate: String,
    pub origin: Origin,
}

/// A record that passed the filter, with the fingerprint of its make and
/// model.
#[derive(Debug, PartialEq, Eq)]
pub struct VehicleWithHash {
    pub make: String,
    pub model: String,
    pub license_plate: String,
    pub origin: Origin,
    pub make_model_hash: String,
}

/// An `Origin` as plain values.
pub struct OriginModel {
    pub country: Seq<char>,
    pub year: u16,
}

/// A `Vehicle` as plain values.
pub struct VehicleModel {
    pub make: Seq<char>,
    pub model: Seq<char>,
    pub license_plate: Seq<char>,
    pub origin: OriginModel,
}

/// A `VehicleWithHash` as plain values.
pub struct HashedVehicleModel {
    pub make: Seq<char>,
    pub model: Seq<char>,
    pub license_plate: Seq<char>,
    pub origin: OriginModel,
    pub make_model_hash: Seq<char>,
}

impl View for Origin {
    type V = OriginModel;

    open spec fn view(&self) -> OriginModel {
        OriginModel { country: self.country@, year: self.year }
    }
}

impl DeepView for Origin {
    type V = OriginModel;

    open spec fn deep_view(&self) -> OriginModel {
        self@
    }
}

impl View for Vehicle {
    type V = VehicleModel;

    open spec fn view(&self) -> VehicleModel {
        VehicleModel {
            make: self.make@,
            model: self.model@,
            license_plate: self.license_plate@,
            origin: self.origin@,
        }
    }
}

impl DeepView for Vehicle {
    type V = VehicleModel;

    open spec fn deep_view(&self) -> VehicleModel {
        self@
    }
}

impl View for VehicleWithHash {
    type V = HashedVehicleModel;

    open spec fn view(&self) -> HashedVehicleModel {
        HashedVehicleModel {
            make: self.make@,
            model: self.model@,
            license_plate: self.license_plate@,
            origin: self.origin@,
            make_model_hash: self.make_model_hash@,
        }
    }
}

impl DeepView for VehicleWithHash {
    type V = HashedVehicleModel;

    open spec fn deep_view(&self) -> HashedVehicleModel {
        self@
    }
}

impl Clone for Origin {
    fn clone(&self) -> (copy: Origin)
        ensures
            copy == *self,
    {
        Origin { country: self.country.clone(), year: self.year }
    }
}

impl Clone for Vehicle {
    fn clone(&self) -> (copy: Vehicle)
        ensures
            copy == *self,
    {
        Vehicle {
            make: self.make.clone(),
            model: self.model.clone(),
            license_plate: self.license_plate.clone(),
            origin: self.origin.clone(),
        }
    }
}

impl Clone for VehicleWithHash {
    fn clone(&self) -> (copy: VehicleWithHash)
        ensures
            copy == *self,
    {
        VehicleWithHash {
            make: self.make.clone(),
            model: self.model.clone(),
            license_plate: self.license_plate.clone(),
            origin: self.origin.clone(),
            make_model_hash: self.make_model_hash.clone(),
        }
    }
}

/// The fingerprint of a make and a model: the SHA-256 digest of the two
/// texts joined with nothing between them, in upper-case hexadecimal. Two
/// pairs that join to the same text have the same fingerprint.
pub open spec fn make_model_hash_text(make: Seq<char>, model: Seq<char>) -> Seq<char> {
    sha256_hex(make + model)
}

/// The fingerprint is a function of the make and model joined: the same
/// pair gives the same fingerprint, and so does any other pair that joins
/// to the same text.
pub proof fn same_joined_text_same_hash(
    make: Seq<char>,
    model: Seq<char>,
    other_make: Seq<char>,
    other_model: Seq<char>,
)
    requires
        make + model == other_make + other_model,
    ensures
        make_model_hash_text(make, model) == make_model_hash_text(other_make, other_model),
{
}

/// A record with its fingerprint attached and every other field kept.
pub open spec fn with_hash(v: VehicleModel) -> HashedVehicleModel {
    HashedVehicleModel {
        make: v.make,
        model: v.model,
        license_plate: v.license_plate,
        origin: v.origin,
        make_model_hash: make_model_hash_text(v.make, v.model),
    }
}

/// Computes the fingerprint of a make and a model.
pub fn make_model_hash(make: &str, model: &str) -> (hex: String)
    ensures
        hex@ == make_model_hash_text(make@, model@),
        hex@.len() == 64,
{
    let mut joined = make.to_owned();
    joined.append(model);
    hash_text(joined.as_str())
}

impl Vehicle {
    /// A copy of this record with the fingerprint of its make and model.
    pub fn hashed(&self) -> (out: VehicleWithHash)
        ensures
            out@ == with_hash(self@),
    {
        VehicleWithHash {
            make_model_hash: make_model_hash(self.make.as_str(), self.model.as_str()),
            make: self.make.clone(),
            model: self.model.clone(),
            origin: self.origin.clone(),
            license_plate: self.license_plate.clone(),
        }
    }
}

} // verus!
