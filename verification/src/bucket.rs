//! Object stores: a remote tree comes down into a local directory, and a
//! local directory goes up under a remote prefix.

pub mod gcp;
pub mod mapping;

use crate::bucket::gcp::{credentials_present, require_credentials, CredentialSources};
use crate::config::{CloudServiceProvider, ConfigPath};
use crate::errors::JobRunnerError;
use vstd::prelude::*;

verus! {

/// A container of objects in the cloud.
pub trait Bucket {
    /// Brings every object under `path_to_remote_inputs` (the whole bucket
    /// where that path is empty) into the directory `path_to_local_inputs`,
    /// making directories as needed.
    fn download_inputs(
        &self,
        path_to_remote_inputs: &ConfigPath,
        path_to_local_inputs: &ConfigPath,
    ) -> Result<(), JobRunnerError>;

    /// Sends every file under the directory `path_to_local_outputs` to the
    /// bucket, under `path_to_remote_outputs`.
    fn upload_outputs(
        &self,
        path_to_local_outputs: &ConfigPath,
        path_to_remote_outputs: &ConfigPath,
    ) -> Result<(), JobRunnerError>;
}

/// Opens buckets, each with the implementation that its provider calls
/// for.
pub trait BucketProvider {
    type Bucket: Bucket;

    /// What the environment holds of the credentials of a service account
    /// of Google Cloud.
    fn google_credentials(&self) -> CredentialSources;

    /// The bucket `bucket_name` of Google Cloud Storage, ready for use. It
    /// is asked for only where credentials were found.
    fn google_cloud_storage(&self, bucket_name: &str) -> Self::Bucket;
}

/// Opens the bucket `bucket_name` of `provider`, where `credentials` hold
/// the credentials of the provider. Where they hold none the bucket is not
/// asked for, so that the provider's client is never made without them.
pub(crate) fn open_bucket<F: BucketProvider>(
    buckets: &F,
    provider: CloudServiceProvider,
    bucket_name: &str,
    credentials: &CredentialSources,
) -> (r: Result<F::Bucket, JobRunnerError>)
    ensures
        match r {
            Ok(_) => credentials_present(*credentials),
            Err(e) => {
                &&& !credentials_present(*credentials)
                &&& e == JobRunnerError::BucketCredentialsNotFoundError(provider)
            },
        },
{
    match provider {
        CloudServiceProvider::GCP => match require_credentials(credentials) {
            Ok(()) => Ok(buckets.google_cloud_storage(bucket_name)),
            Err(e) => Err(e),
        },
    }
}

} // verus!
