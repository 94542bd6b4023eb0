//! The steps of one invocation that surround the transformation: where the
//! data file lies, and what becomes of a dataset that could not be loaded.

use crate::error::PipelineError;
use crate::report::outcome_model;
use crate::report::outcome_of;
use crate::report::process;
use crate::report::Report;
use crate::report::ReportModel;
use crate::vehicle::Vehicle;
use crate::vehicle::VehicleModel;
use vstd::prelude::*;

verus! {

/// The name of the environment variable that holds the data file's name.
pub const DATA_FILE_VARIABLE: &'static str = "TEST_DATA_FILE";

/// The directory of the data file where no other is configured.
pub const DEFAULT_DATA_DIR: &'static str = "/opt/";

/// Where the data file lies: the configured name directly behind the
/// directory, or the error `ConfigurationMissing` without a name.
pub open spec fn data_file_path_of(base_dir: Seq<char>, file_name: Option<Seq<char>>) -> Result<
    Seq<char>,
    PipelineError,
> {
    match file_name {
        Some(name) => Ok(base_dir + name),
        None => Err(PipelineError::ConfigurationMissing),
    }
}

/// A configured name, or its absence, as plain values.
pub open spec fn name_model(file_name: Option<&str>) -> Option<Seq<char>> {
    match file_name {
        Some(name) => Some(name@),
        None => None,
    }
}

/// A path, or the error in its place, as plain values.
pub open spec fn path_model(path: Result<String, PipelineError>) -> Result<
    Seq<char>,
    PipelineError,
> {
    match path {
        Ok(p) => Ok(p@),
        Err(e) => Err(e),
    }
}

/// The path of the data file, from the directory that holds it and the
/// name that the configuration gives. The name is appended to the
/// directory as it is. Without a name the invocation fails with
/// `ConfigurationMissing`.
pub fn data_file_path(base_dir: &str, file_name: Option<&str>) -> (path: Result<
    String,
    PipelineError,
>)
    ensures
        path_model(path) == data_file_path_of(base_dir@, name_model(file_name)),
{
    match file_name {
        Some(name) => {
            let mut path = base_dir.to_owned();
            path.append(name);
            Ok(path)
        },
        None => Err(PipelineError::ConfigurationMissing),
    }
}

/// What an invocation gives, from what loading the data file gave: the
/// error `InputUnreadable` without a dataset, else the outcome of the
/// transformation.
pub open spec fn invocation_outcome(dataset: Option<Seq<VehicleModel>>) -> Result<
    ReportModel,
    PipelineError,
> {
    match dataset {
        Some(input) => outcome_of(input),
        None => Err(PipelineError::InputUnreadable),
    }
}

/// A loaded dataset, or its absence, as plain values.
pub open spec fn dataset_model(dataset: Option<Vec<Vehicle>>) -> Option<Seq<VehicleModel>> {
    match dataset {
        Some(records) => Some(records.deep_view()),
        None => None,
    }
}

/// Runs one invocation on what loading the data file gave: `None` where
/// the file could not be read or did not hold a dataset, else its records.
///
/// Fails with `InputUnreadable` without a dataset and with `MalformedPlate`
/// where a plate has no dash; else returns the report. There is no partial
/// result.
pub fn run(dataset: Option<Vec<Vehicle>>) -> (outcome: Result<Report, PipelineError>)
    ensures
        outcome_model(outcome) == invocation_outcome(dataset_model(dataset)),
{
    match dataset {
        Some(records) => process(&records),
        None => Err(PipelineError::InputUnreadable),
    }
}

} // verus!
