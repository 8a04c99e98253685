//! Everything that can go wrong while a job runs, and how each failure reads.

use crate::config::{CloudServiceProvider, PathKeyInConfig};
use crate::text::{append_signed_decimal, decimal};
use vstd::prelude::*;
use vstd::string::*;

verus! {

/// The failure underneath an error, as the transport or the file system
/// reported it.
#[derive(Debug, PartialEq, Eq)]
pub struct Cause {
    pub message: String,
}

impl View for Cause {
    type V = Seq<char>;

    open spec fn view(&self) -> Seq<char> {
        self.message@
    }
}

impl Cause {
    /// The cause that reads `message`.
    pub fn new(message: &str) -> (cause: Cause)
        ensures
            cause@ == message@,
    {
        Cause { message: String::from_str(message) }
    }
}

/// All errors this library returns.
#[derive(Debug, PartialEq, Eq)]
pub enum JobRunnerError {
    /// A job was asked for by a name that the configuration does not hold.
    JobNotFoundError { job_name: String },
    /// The credentials for a provider's object store cannot be found.
    BucketCredentialsNotFoundError(CloudServiceProvider),
    /// The path under the given key has no text form.
    InvalidPathError(PathKeyInConfig),
    /// Listing the objects of a bucket failed.
    ListFilesInBucketError { source: Cause },
    /// Downloading an object from a bucket failed.
    DownloadFromBucketError { source: Cause },
    /// Uploading an object to a bucket failed.
    UploadToBucketError { source: Cause },
    /// A step names no program to run.
    InvalidStepError { step: String },
    /// A step ended with a status other than zero. Without a code, a signal
    /// ended it.
    StepNonZeroStatusCodeError { step: String, code: Option<i32> },
    /// Any other failure of the local file system or the terminal.
    IOError(Cause),
}

/// What is said when the credentials for Google Cloud Storage are missing.
pub open spec fn gcp_credentials_advice() -> Seq<char> {
    "Could not find service account credentials. Looked for a path to a JSON file on disk in the \"SERVICE_ACCOUNT\" and \"GOOGLE_APPLICATION_CREDENTIALS\" environment variables, and looked for credentials as JSON in the \"SERVICE_ACCOUNT_JSON\" and \"GOOGLE_APPLICATION_CREDENTIALS_JSON\" environment variables."@
}

impl JobRunnerError {
    /// The message of the error, with the message of its cause where it
    /// wraps one.
    pub open spec fn rendered(&self) -> Seq<char> {
        match self {
            JobRunnerError::JobNotFoundError { job_name } => {
                "\""@ + job_name@ + "\" not found in the config file"@
            },
            JobRunnerError::BucketCredentialsNotFoundError(provider) => match provider {
                CloudServiceProvider::GCP => gcp_credentials_advice(),
            },
            JobRunnerError::InvalidPathError(key) => {
                "Value for \""@ + key.name() + "\" in config file can't be stringified"@
            },
            JobRunnerError::ListFilesInBucketError { source } => {
                "Failed to list the files in the bucket at the specified location: "@ + source@
            },
            JobRunnerError::DownloadFromBucketError { source } => {
                "Failed to download object from bucket: "@ + source@
            },
            JobRunnerError::UploadToBucketError { source } => {
                "Failed to upload object to bucket: "@ + source@
            },
            JobRunnerError::InvalidStepError { step } => {
                "Invalid step in config file: \""@ + step@ + "\""@
            },
            JobRunnerError::StepNonZeroStatusCodeError { step, code } => match code {
                Some(code) => {
                    "\""@ + step@ + "\" exited with a non-zero status code: "@ + decimal(
                        *code as int,
                    )
                },
                None => "\""@ + step@ + "\" was terminated by a signal"@,
            },
            JobRunnerError::IOError(cause) => cause@,
        }
    }

    /// The failure that the error wraps, for the three errors of the
    /// transport.
    pub open spec fn cause(&self) -> Option<&Cause> {
        match self {
            JobRunnerError::ListFilesInBucketError { source } => Some(source),
            JobRunnerError::DownloadFromBucketError { source } => Some(source),
            JobRunnerError::UploadToBucketError { source } => Some(source),
            _ => None,
        }
    }

    /// The failure that the error wraps, if it wraps one.
    pub fn source(&self) -> (cause: Option<&Cause>)
        ensures
            cause == self.cause(),
    {
        match self {
            JobRunnerError::ListFilesInBucketError { source } => Some(source),
            JobRunnerError::DownloadFromBucketError { source } => Some(source),
            JobRunnerError::UploadToBucketError { source } => Some(source),
            _ => None,
        }
    }

    /// What the error says to the one who ran the job.
    pub fn message(&self) -> (s: String)
        ensures
            s@ == self.rendered(),
    {
        match self {
            JobRunnerError::JobNotFoundError { job_name } => {
                let mut s = String::from_str("\"");
                s.append(job_name.as_str());
                s.append("\" not found in the config file");
                s
            },
            JobRunnerError::BucketCredentialsNotFoundError(provider) => match provider {
                CloudServiceProvider::GCP => String::from_str(
                    "Could not find service account credentials. Looked for a path to a JSON file on disk in the \"SERVICE_ACCOUNT\" and \"GOOGLE_APPLICATION_CREDENTIALS\" environment variables, and looked for credentials as JSON in the \"SERVICE_ACCOUNT_JSON\" and \"GOOGLE_APPLICATION_CREDENTIALS_JSON\" environment variables.",
                ),
            },
            JobRunnerError::InvalidPathError(key) => {
                let mut s = String::from_str("Value for \"");
                s.append(key.as_str());
                s.append("\" in config file can't be stringified");
                s
            },
            JobRunnerError::ListFilesInBucketError { source } => {
                let mut s = String::from_str(
                    "Failed to list the files in the bucket at the specified location: ",
                );
                s.append(source.message.as_str());
                s
            },
            JobRunnerError::DownloadFromBucketError { source } => {
                let mut s = String::from_str("Failed to download object from bucket: ");
                s.append(source.message.as_str());
                s
            },
            JobRunnerError::UploadToBucketError { source } => {
                let mut s = String::from_str("Failed to upload object to bucket: ");
                s.append(source.message.as_str());
                s
            },
            JobRunnerError::InvalidStepError { step } => {
                let mut s = String::from_str("Invalid step in config file: \"");
                s.append(step.as_str());
                s.append("\"");
                s
            },
            JobRunnerError::StepNonZeroStatusCodeError { step, code } => {
                let mut s = String::from_str("\"");
                s.append(step.as_str());
                match code {
                    Some(code) => {
                        s.append("\" exited with a non-zero status code: ");
                        append_signed_decimal(&mut s, *code as i64);
                    },
                    None => {
                        s.append("\" was terminated by a signal");
                    },
                }
                s
            },
            JobRunnerError::IOError(cause) => cause.message.clone(),
        }
    }
}

} // verus!
