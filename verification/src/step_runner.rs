//! Running one step of a job as a child process.

pub mod shell;

use crate::errors::JobRunnerError;
use vstd::prelude::*;

verus! {

/// The runner that reads a step as a command line, under its full name.
pub type ShellStepRunner = shell::Runner;

/// Runs the steps of a job.
pub trait StepRunner {
    /// Runs the command line `step` as a child process whose output goes
    /// where the caller's own goes, and returns when the child has ended.
    fn run_step(&self, step: &str) -> Result<(), JobRunnerError>;
}

} // verus!
