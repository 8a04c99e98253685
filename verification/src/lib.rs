//! Runs jobs on the contents of a bucket in the cloud. A job brings a tree
//! of objects down into a local directory, runs a list of command lines on
//! it, and sends a local directory back up.
//!
//! The library holds every decision of such a run, with its proof: how keys
//! and paths map onto each other ([`bucket::mapping`]), how the paths of a
//! job are filled into its steps ([`template`]), how a step is read as a
//! command line and how its end is judged ([`step_runner::shell`]), in what
//! order a job asks for its operations ([`job`]), how the jobs of a
//! configuration follow each other ([`runner`]), and how every failure
//! reads ([`errors`]). What reaches outside (the object store, child
//! processes, the terminal) comes in through the traits [`bucket::Bucket`],
//! [`bucket::BucketProvider`], [`step_runner::StepRunner`] and
//! [`pretty_print::Printer`].

pub mod bucket;
pub mod config;
pub mod errors;
pub mod job;
pub mod pretty_print;
pub mod runner;
pub mod step_runner;
pub mod template;
pub mod text;

pub use config::{CloudServiceProvider, Config, ConfigPath, PathKeyInConfig};
pub use errors::{Cause, JobRunnerError};
pub use job::Job;
pub use runner::JobRunner;
