//! Job-file shapes for the driver client: a configuration is a list of
//! jobs, each with phases, each phase a list of session descriptions.

use vstd::prelude::*;

use crate::client::CliArgs;

verus! {

/// One phase of a job: a name and the sessions it runs.
pub struct Phase {
    pub name: String,
    pub operations: Vec<CliArgs>,
}

/// One job of a configuration file.
pub struct Job {
    pub job: String,
    pub phases: Vec<Phase>,
}

} // verus!
