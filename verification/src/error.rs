//! The ways in which an invocation can fail.

use vstd::prelude::*;

verus! {

/// Why an invocation was abandoned. No partial result accompanies any of
/// these.
#[derive(Debug, Clone, Copy, PartialEq, Eq, Structural)]
pub enum PipelineError {
    /// The name of the data file was not configured.
    ConfigurationMissing,
    /// The data file could not be read, or its content is not a dataset.
    InputUnreadable,
    /// A license plate has no dash, and so no second section to test.
    MalformedPlate,
}

impl PipelineError {
    /// The text of `name` for each error.
    pub open spec fn name_text(self) -> Seq<char> {
        match self {
            PipelineError::ConfigurationMissing => "ConfigurationMissing"@,
            PipelineError::InputUnreadable => "InputUnreadable"@,
            PipelineError::MalformedPlate => "MalformedPlate"@,
        }
    }

    /// The name of the error kind, for the host to tell the kinds apart.
    pub fn name(&self) -> (text: &'static str)
        ensures
            text@ == self.name_text(),
    {
        match self {
            PipelineError::ConfigurationMissing => "ConfigurationMissing",
            PipelineError::InputUnreadable => "InputUnreadable",
            PipelineError::MalformedPlate => "MalformedPlate",
        }
    }

    /// The text of `message` for each error.
    pub open spec fn message_text(self) -> Seq<char> {
        match self {
            PipelineError::ConfigurationMissing => "the data file name is not configured"@,
            PipelineError::InputUnreadable => "the data file cannot be read as a dataset"@,
            PipelineError::MalformedPlate => "a license plate has fewer than two sections"@,
        }
    }

    /// A sentence for the host's error report.
    pub fn message(&self) -> (text: String)
        ensures
            text@ == self.message_text(),
    {
        let text = match self {
            PipelineError::ConfigurationMissing => "the data file name is not configured",
            PipelineError::InputUnreadable => "the data file cannot be read as a dataset",
            PipelineError::MalformedPlate => "a license plate has fewer than two sections",
        };
        text.to_owned()
    }
}

} // verus!
