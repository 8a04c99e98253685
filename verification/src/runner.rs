//! Running the jobs of a configuration: one by its name, or all in turn.

use crate::bucket::gcp::{credentials_present, require_credentials, CredentialSources};
use crate::bucket::{open_bucket, BucketProvider};
use crate::config::{CloudServiceProvider, Config};
use crate::errors::JobRunnerError;
use crate::job::Job;
use crate::pretty_print::{status, Emphasis, Printer, StatusLine};
use crate::step_runner::StepRunner;
use crate::text::{append_decimal, decimal_nat};
use vstd::prelude::*;
use vstd::string::*;

verus! {

/// The count of jobs started after `jobs` more have been started from
/// `count`. The count stops at the largest number it can hold.
pub open spec fn counted(count: nat, jobs: nat) -> nat {
    if count + jobs <= usize::MAX {
        count + jobs
    } else {
        usize::MAX as nat
    }
}

/// The label of the line that announces a job: its place among the jobs
/// started, and how many jobs there are.
pub open spec fn place_label(place: nat, jobs: nat) -> Seq<char> {
    "["@ + decimal_nat(place) + "/"@ + decimal_nat(jobs) + "]"@
}

/// What follows a job when all jobs are run.
#[derive(Debug, PartialEq, Eq)]
pub enum AfterJob {
    /// Run the job at this position of the enumeration.
    Run(usize),
    /// Nothing more is run, and this is the result of all.
    Finish(Result<(), JobRunnerError>),
}

/// Runs the jobs of a configuration and counts those it has started.
pub struct JobRunner<'a> {
    config: &'a Config,
    /// How many jobs have been started. It is shown and decides nothing.
    job_counter: usize,
}

impl<'a> JobRunner<'a> {
    /// The configuration whose jobs are run.
    pub closed spec fn config(&self) -> &Config {
        self.config
    }

    /// How many jobs have been started.
    pub closed spec fn jobs_started(&self) -> nat {
        self.job_counter as nat
    }

    /// A runner for the jobs of `config` that has started none.
    pub fn new(config: &'a Config) -> (runner: Self)
        ensures
            runner.config() == config,
            runner.jobs_started() == 0,
    {
        Self { config, job_counter: 0 }
    }

    /// Counts one more job as started, and returns the line that announces
    /// it: `[i/N]` for the `i`th job started of `N` jobs, and the name.
    pub fn print_running_job_status_message(&mut self, job_name: &str) -> (line: StatusLine)
        ensures
            final(self).config() == old(self).config(),
            final(self).jobs_started() == counted(old(self).jobs_started(), 1),
            line.emphasis == Emphasis::Progress,
            line.label@ == place_label(
                final(self).jobs_started(),
                old(self).config().names().len(),
            ),
            line.text@ == " "@ + ("Running "@ + job_name@ + "..."@),
    {
        if self.job_counter < usize::MAX {
            self.job_counter = self.job_counter + 1;
        }
        let num_jobs = self.config.len();
        let mut label = String::from_str("[");
        append_decimal(&mut label, self.job_counter as u64);
        label.append("/");
        append_decimal(&mut label, num_jobs as u64);
        label.append("]");
        let mut msg = String::from_str("Running ");
        msg.append(job_name);
        msg.append("...");
        status(label.as_str(), msg.as_str(), false)
    }

    /// The job under `job_name`. Fails where the configuration has none.
    pub fn job(&self, job_name: &str) -> (r: Result<&'a Job, JobRunnerError>)
        ensures
            match r {
                Ok(job) => self.config()@.contains_key(job_name@) && *job
                    == self.config()@[job_name@],
                Err(e) => {
                    &&& !self.config()@.contains_key(job_name@)
                    &&& e matches JobRunnerError::JobNotFoundError { job_name: named }
                    &&& named@ == job_name@
                },
            },
    {
        match self.config.get(job_name) {
            Some(job) => Ok(job),
            None => Err(JobRunnerError::JobNotFoundError { job_name: String::from_str(job_name) }),
        }
    }

    /// Lets the job under `job_name` begin, where `credentials` is what the
    /// environment holds of the credentials of its provider: counts the job
    /// as started and returns the line that announces it. A name without a
    /// job, or a job without credentials, is not counted.
    pub fn start_job(&mut self, job_name: &str, credentials: &CredentialSources) -> (r: Result<
        StatusLine,
        JobRunnerError,
    >)
        ensures
            final(self).config() == old(self).config(),
            match r {
                Ok(line) => {
                    &&& old(self).config()@.contains_key(job_name@)
                    &&& credentials_present(*credentials)
                    &&& final(self).jobs_started() == counted(old(self).jobs_started(), 1)
                    &&& line.emphasis == Emphasis::Progress
                    &&& line.label@ == place_label(
                        final(self).jobs_started(),
                        old(self).config().names().len(),
                    )
                    &&& line.text@ == " "@ + ("Running "@ + job_name@ + "..."@)
                },
                Err(e) => {
                    &&& final(self).jobs_started() == old(self).jobs_started()
                    &&& if !old(self).config()@.contains_key(job_name@) {
                        &&& e matches JobRunnerError::JobNotFoundError { job_name: named }
                        &&& named@ == job_name@
                    } else {
                        &&& !credentials_present(*credentials)
                        &&& e == JobRunnerError::BucketCredentialsNotFoundError(
                            old(self).config()@[job_name@].cloud_service_provider,
                        )
                    }
                },
            },
    {
        let job = match self.job(job_name) {
            Ok(job) => job,
            Err(e) => {
                return Err(e);
            },
        };
        match job.cloud_service_provider {
            CloudServiceProvider::GCP => {
                if let Err(e) = require_credentials(credentials) {
                    return Err(e);
                }
            },
        }
        Ok(self.print_running_job_status_message(job_name))
    }

    /// What follows the job at `position` of the enumeration, which has
    /// ended as `outcome` says: after a failure nothing, and the failure is
    /// the result of all; after a success the next job, or nothing where
    /// the job was the last.
    pub open spec fn next_after(
        &self,
        position: usize,
        outcome: Result<(), JobRunnerError>,
    ) -> AfterJob {
        match outcome {
            Err(e) => AfterJob::Finish(Err(e)),
            Ok(()) => if position + 1 < self.config().names().len() {
                AfterJob::Run((position + 1) as usize)
            } else {
                AfterJob::Finish(Ok(()))
            },
        }
    }

    /// Says what follows the job at `position`, which has ended as
    /// `outcome` says.
    pub fn after_job(&self, position: usize, outcome: Result<(), JobRunnerError>) -> (next:
        AfterJob)
        requires
            position < self.config().names().len(),
        ensures
            next == self.next_after(position, outcome),
    {
        let jobs = self.config.len();
        match outcome {
            Err(e) => AfterJob::Finish(Err(e)),
            Ok(()) => if position + 1 < jobs {
                AfterJob::Run(position + 1)
            } else {
                AfterJob::Finish(Ok(()))
            },
        }
    }

    /// Nothing follows a failure: a job is run only where the one in front
    /// of it has ended well, and the first failure is the result of all,
    /// as it came.
    pub proof fn lemma_nothing_follows_a_failure(
        &self,
        position: usize,
        outcome: Result<(), JobRunnerError>,
    )
        ensures
            outcome matches Err(e) ==> self.next_after(position, outcome) == AfterJob::Finish(
                Err(e),
            ),
            self.next_after(position, outcome) matches AfterJob::Run(next) ==> {
                &&& outcome is Ok
                &&& next == position + 1
                &&& next < self.config().names().len()
            },
            self.next_after(position, outcome) matches AfterJob::Finish(Ok(_)) ==> {
                &&& outcome is Ok
                &&& position + 1 >= self.config().names().len()
            },
    {
        self.config().lemma_len_fits();
    }

    /// Runs the job under `job_name`: looks for the credentials of its
    /// provider, opens its bucket, announces the job and runs it. A name
    /// without a job fails at once, and nothing is looked for, opened,
    /// counted or announced for it.
    pub fn run_one<F: BucketProvider, S: StepRunner, P: Printer>(
        &mut self,
        job_name: &str,
        buckets: &F,
        step_runner: &S,
        printer: &P,
    ) -> (r: Result<(), JobRunnerError>)
        ensures
            final(self).config() == old(self).config(),
            if old(self).config()@.contains_key(job_name@) {
                &&& final(self).jobs_started() == old(self).jobs_started()
                    || final(self).jobs_started() == counted(old(self).jobs_started(), 1)
                &&& r is Ok ==> {
                    &&& old(self).config()@[job_name@].first_path_without_text() is None
                    &&& final(self).jobs_started() == counted(old(self).jobs_started(), 1)
                }
            } else {
                &&& r matches Err(JobRunnerError::JobNotFoundError { job_name: named })
                &&& named@ == job_name@
                &&& final(self).jobs_started() == old(self).jobs_started()
            },
    {
        let job = match self.job(job_name) {
            Ok(job) => job,
            Err(e) => {
                return Err(e);
            },
        };
        let credentials = match job.cloud_service_provider {
            CloudServiceProvider::GCP => buckets.google_credentials(),
        };
        let line = match self.start_job(job_name, &credentials) {
            Ok(line) => line,
            Err(e) => {
                return Err(e);
            },
        };
        let bucket = match open_bucket(
            buckets,
            job.cloud_service_provider,
            job.bucket_name.as_str(),
            &credentials,
        ) {
            Ok(bucket) => bucket,
            Err(e) => {
                return Err(e);
            },
        };
        if let Err(e) = printer.print(&line) {
            return Err(e);
        }
        job.run(&bucket, step_runner, printer)
    }

    /// Runs every job of the configuration, in the order in which the
    /// configuration enumerates them. The first failure ends everything:
    /// the jobs behind it are not started.
    pub fn run_all<F: BucketProvider, S: StepRunner, P: Printer>(
        &mut self,
        buckets: &F,
        step_runner: &S,
        printer: &P,
    ) -> (r: Result<(), JobRunnerError>)
        ensures
            final(self).config() == old(self).config(),
            old(self).jobs_started() <= final(self).jobs_started() <= counted(
                old(self).jobs_started(),
                old(self).config().names().len(),
            ),
            old(self).config().names().len() == 0 ==> r is Ok,
            r is Ok ==> {
                &&& final(self).jobs_started() == counted(
                    old(self).jobs_started(),
                    old(self).config().names().len(),
                )
                &&& forall|i: int|
                    0 <= i < old(self).config().names().len() ==> (#[trigger] old(
                        self,
                    ).config()@[old(self).config().names()[i]]).first_path_without_text() is None
            },
    {
        let config = self.config;
        if config.len() == 0 {
            return Ok(());
        }
        let mut position: usize = 0;
        loop
            invariant
                position < config.names().len(),
                self.config() == config,
                config == old(self).config(),
                self.jobs_started() == counted(old(self).jobs_started(), position as nat),
                forall|j: int|
                    0 <= j < position ==> (#[trigger] config@[config.names()[j]]).first_path_without_text()
                        is None,
            decreases config.names().len() - position,
        {
            let outcome = self.run_one(config.name_at(position), buckets, step_runner, printer);
            proof {
                config.lemma_len_fits();
            }
            match self.after_job(position, outcome) {
                AfterJob::Run(next) => {
                    position = next;
                },
                AfterJob::Finish(result) => {
                    return result;
                },
            }
        }
    }
}

} // verus!
